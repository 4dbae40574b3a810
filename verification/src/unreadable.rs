//! A file that gives no record.
//!
//! An archive without a description that can be read is shown by its
//! placeholder and changes nothing else: the cache and the records of the
//! other files come out as if the file were not in the directory.

use vstd::prelude::*;
use crate::assoc::{entry_index, entry_value, keys_of, keys_unique, with_entry};
use crate::cache::CacheView;
use crate::models::ModInfoView;
use crate::rescan::{
    apply_jobs, archive_names, lemma_apply_jobs_cache, lemma_job_is_listed, lemma_keys_tell,
    lemma_put, lemma_scan_entries, lemma_scan_jobs, lists_archive, names_distinct, not_a_job,
};
use crate::scanner::{
    finished, first_record, fresh_record, is_archive_name, placeholder, scan_entries, scan_jobs,
};
use crate::sorting::StatView;

verus! {

/// The jobs without those for the file `name`.
pub open spec fn drop_name(jobs: Seq<StatView>, name: Seq<char>) -> Seq<StatView>
    decreases jobs.len(),
{
    if jobs.len() == 0 {
        Seq::empty()
    } else if jobs.last().filename == name {
        drop_name(jobs.drop_last(), name)
    } else {
        drop_name(jobs.drop_last(), name).push(jobs.last())
    }
}

/// Jobs of which none is for `name` lose nothing.
pub proof fn lemma_drop_nothing(jobs: Seq<StatView>, name: Seq<char>)
    requires
        not_a_job(jobs, name),
    ensures
        drop_name(jobs, name) == jobs,
    decreases jobs.len(),
{
    if jobs.len() > 0 {
        let front = jobs.drop_last();
        assert forall|k: int| 0 <= k < front.len() implies (#[trigger] front[k]).filename != name by {
            assert(front[k] == jobs[k]);
        }
        lemma_drop_nothing(front, name);
        assert(jobs[jobs.len() - 1].filename != name);
        assert(front.push(jobs.last()) =~= jobs);
    } else {
        assert(jobs =~= Seq::<StatView>::empty());
    }
}

/// A listing without one of its entries names no file twice either.
pub proof fn lemma_remove_keeps_distinct(stats: Seq<StatView>, i: int)
    requires
        names_distinct(stats),
        0 <= i < stats.len(),
    ensures
        names_distinct(stats.remove(i)),
        forall|j: int| 0 <= j < stats.remove(i).len() ==> (#[trigger] stats.remove(i)[j]).filename
            != stats[i].filename,
{
    let rest = stats.remove(i);
    assert forall|a: int| 0 <= a < rest.len() implies (#[trigger] rest[a]) == stats[if a < i {
        a
    } else {
        a + 1
    }] by {}
    assert forall|a: int, b: int| 0 <= a < b < rest.len() implies (#[trigger] rest[a]).filename != (
    #[trigger] rest[b]).filename by {
        let a0 = if a < i { a } else { a + 1 };
        let b0 = if b < i { b } else { b + 1 };
        assert(stats[a0].filename != stats[b0].filename);
    }
    assert forall|j: int| 0 <= j < rest.len() implies (#[trigger] rest[j]).filename
        != stats[i].filename by {
        let j0 = if j < i { j } else { j + 1 };
        if j0 < i {
            assert(stats[j0].filename != stats[i].filename);
        } else {
            assert(stats[i].filename != stats[j0].filename);
        }
    }
}

/// The jobs of a listing without one of its files are the jobs of the
/// whole listing without the job for that file.
pub proof fn lemma_jobs_without(c: CacheView, stats: Seq<StatView>, i: int)
    requires
        names_distinct(stats),
        0 <= i < stats.len(),
    ensures
        scan_jobs(c, stats.remove(i)) == drop_name(scan_jobs(c, stats), stats[i].filename),
    decreases stats.len(),
{
    let name = stats[i].filename;
    let front = stats.drop_last();
    let last = stats.last();
    assert(stats[stats.len() - 1] == last);
    assert forall|a: int, b: int| 0 <= a < b < front.len() implies (#[trigger] front[a]).filename != (
    #[trigger] front[b]).filename by {
        assert(front[a] == stats[a]);
        assert(front[b] == stats[b]);
    }
    if i == stats.len() - 1 {
        assert(stats.remove(i) =~= front);
        lemma_scan_jobs(c, front);
        let jobs = scan_jobs(c, front);
        assert(not_a_job(jobs, name)) by {
            assert forall|k: int| 0 <= k < jobs.len() implies (#[trigger] jobs[k]).filename != name by {
                assert(front.contains(jobs[k]));
                let j = choose|j: int| 0 <= j < front.len() && front[j] == jobs[k];
                assert(stats[j] == jobs[k]);
                assert(stats[j].filename != stats[stats.len() - 1].filename);
            }
        }
        lemma_drop_nothing(jobs, name);
        assert(jobs.push(last).drop_last() =~= jobs);
    } else {
        assert(stats.remove(i).drop_last() =~= front.remove(i));
        assert(stats.remove(i).last() == last);
        assert(front[i] == stats[i]);
        lemma_jobs_without(c, front, i);
        assert(stats[i].filename != stats[stats.len() - 1].filename);
        let jobs = scan_jobs(c, front);
        assert(jobs.push(last).drop_last() =~= jobs);
        assert(jobs.push(last).last() == last);
    }
}

/// The archives named by a listing without one of its files are those of
/// the whole listing but that file, in the same order.
pub proof fn lemma_archives_without(stats: Seq<StatView>, i: int, key: Seq<char>)
    requires
        names_distinct(stats),
        0 <= i < stats.len(),
    ensures
        lists_archive(stats.remove(i), key) == (lists_archive(stats, key) && key != stats[i].filename),
{
    let rest = stats.remove(i);
    lemma_remove_keeps_distinct(stats, i);
    if lists_archive(rest, key) {
        let j = choose|j: int|
            0 <= j < rest.len() && (#[trigger] rest[j]).filename == key && is_archive_name(key);
        let j0 = if j < i { j } else { j + 1 };
        assert(stats[j0] == rest[j]);
    }
    if lists_archive(stats, key) && key != stats[i].filename {
        let j = choose|j: int|
            0 <= j < stats.len() && (#[trigger] stats[j]).filename == key && is_archive_name(key);
        let j1 = if j < i { j } else { j - 1 };
        assert(rest[j1] == stats[j]);
    }
}

/// Reading archives changes under which keys entries are shown in no way,
/// as long as each archive has its entry.
pub proof fn lemma_apply_keeps_keys(
    c: CacheView,
    entries: Seq<(Seq<char>, ModInfoView)>,
    jobs: Seq<StatView>,
    parse: spec_fn(StatView) -> Option<ModInfoView>,
)
    requires
        keys_unique(entries),
        forall|k: int| 0 <= k < jobs.len() ==> entry_index(entries, (#[trigger] jobs[k]).filename) is Some,
    ensures
        keys_unique(apply_jobs(c, entries, jobs, parse).1),
        keys_of(apply_jobs(c, entries, jobs, parse).1) == keys_of(entries),
    decreases jobs.len(),
{
    if jobs.len() > 0 {
        let front = jobs.drop_last();
        let job = jobs.last();
        assert forall|k: int| 0 <= k < front.len() implies entry_index(
            entries,
            (#[trigger] front[k]).filename,
        ) is Some by {
            assert(front[k] == jobs[k]);
        }
        lemma_apply_keeps_keys(c, entries, front, parse);
        let before = apply_jobs(c, entries, front, parse);
        let after = finished(before.0, job, parse(job));
        assert(jobs[jobs.len() - 1] == job);
        lemma_keys_tell(entries, before.1, job.filename);
        lemma_put(before.1, job.filename, after.1, job.filename);
    }
}

/// Two lists agree on every key but `name`.
pub open spec fn agree_but(
    a: Seq<(Seq<char>, ModInfoView)>,
    b: Seq<(Seq<char>, ModInfoView)>,
    name: Seq<char>,
) -> bool {
    forall|key: Seq<char>| key != name ==> #[trigger] entry_value(a, key) == entry_value(b, key)
}

/// Putting the same value under the same key into two lists that agree on
/// every key but `name` leaves two such lists; so does putting a value
/// under `name` into one of them.
pub proof fn lemma_put_agree(
    a: Seq<(Seq<char>, ModInfoView)>,
    b: Seq<(Seq<char>, ModInfoView)>,
    name: Seq<char>,
    key: Seq<char>,
    value: ModInfoView,
)
    requires
        keys_unique(a),
        keys_unique(b),
        agree_but(a, b, name),
    ensures
        keys_unique(with_entry(a, key, value)),
        agree_but(with_entry(a, key, value), with_entry(b, key, value), name),
        key == name ==> agree_but(with_entry(a, key, value), b, name),
{
    assert forall|other: Seq<char>| other != name implies #[trigger] entry_value(
        with_entry(a, key, value),
        other,
    ) == entry_value(with_entry(b, key, value), other) by {
        lemma_put(a, key, value, other);
        lemma_put(b, key, value, other);
        assert(entry_value(a, other) == entry_value(b, other));
    }
    if key == name {
        assert forall|other: Seq<char>| other != name implies #[trigger] entry_value(
            with_entry(a, key, value),
            other,
        ) == entry_value(b, other) by {
            lemma_put(a, key, value, other);
            assert(entry_value(a, other) == entry_value(b, other));
        }
    }
    lemma_put(a, key, value, key);
}

/// Reading the same archives, starting from entries that agree on every
/// key but `name`, ends with such entries.
pub proof fn lemma_apply_agree(
    c: CacheView,
    a: Seq<(Seq<char>, ModInfoView)>,
    b: Seq<(Seq<char>, ModInfoView)>,
    jobs: Seq<StatView>,
    name: Seq<char>,
    parse: spec_fn(StatView) -> Option<ModInfoView>,
)
    requires
        keys_unique(a),
        keys_unique(b),
        agree_but(a, b, name),
    ensures
        apply_jobs(c, a, jobs, parse).0 == apply_jobs(c, b, jobs, parse).0,
        keys_unique(apply_jobs(c, a, jobs, parse).1),
        keys_unique(apply_jobs(c, b, jobs, parse).1),
        agree_but(apply_jobs(c, a, jobs, parse).1, apply_jobs(c, b, jobs, parse).1, name),
    decreases jobs.len(),
{
    lemma_apply_jobs_cache(c, a, b, jobs, parse);
    if jobs.len() > 0 {
        let front = jobs.drop_last();
        let job = jobs.last();
        lemma_apply_agree(c, a, b, front, name, parse);
        lemma_apply_jobs_cache(c, a, b, front, parse);
        let left = apply_jobs(c, a, front, parse);
        let right = apply_jobs(c, b, front, parse);
        let after = finished(left.0, job, parse(job));
        lemma_put_agree(left.1, right.1, name, job.filename, after.1);
        lemma_put_agree(right.1, left.1, name, job.filename, after.1);
    }
}

/// Leaving out the jobs for a file that gives no record changes neither
/// the cache nor what is shown for any other file.
pub proof fn lemma_drop_job(
    c: CacheView,
    entries: Seq<(Seq<char>, ModInfoView)>,
    jobs: Seq<StatView>,
    name: Seq<char>,
    parse: spec_fn(StatView) -> Option<ModInfoView>,
)
    requires
        keys_unique(entries),
        forall|k: int| 0 <= k < jobs.len() && (#[trigger] jobs[k]).filename == name ==> parse(jobs[k]) is None,
    ensures
        apply_jobs(c, entries, jobs, parse).0 == apply_jobs(c, entries, drop_name(jobs, name), parse).0,
        keys_unique(apply_jobs(c, entries, jobs, parse).1),
        keys_unique(apply_jobs(c, entries, drop_name(jobs, name), parse).1),
        agree_but(
            apply_jobs(c, entries, jobs, parse).1,
            apply_jobs(c, entries, drop_name(jobs, name), parse).1,
            name,
        ),
    decreases jobs.len(),
{
    if jobs.len() > 0 {
        let front = jobs.drop_last();
        let job = jobs.last();
        assert(jobs[jobs.len() - 1] == job);
        assert forall|k: int| 0 <= k < front.len() && (#[trigger] front[k]).filename == name implies parse(
            front[k],
        ) is None by {
            assert(front[k] == jobs[k]);
        }
        lemma_drop_job(c, entries, front, name, parse);
        let left = apply_jobs(c, entries, front, parse);
        let right = apply_jobs(c, entries, drop_name(front, name), parse);
        let after = finished(left.0, job, parse(job));
        lemma_put_agree(left.1, right.1, name, job.filename, after.1);
        lemma_put_agree(right.1, left.1, name, job.filename, after.1);
        if job.filename != name {
            let kept = drop_name(front, name).push(job);
            assert(drop_name(jobs, name) == kept);
            assert(kept.drop_last() =~= drop_name(front, name));
            assert(kept.last() == job);
        }
    }
}

/// A file that gives no record changes nothing else: after a scan of a
/// listing that holds such a file, the cache is what it would be, and
/// every other file is shown by the record it would be shown by, in the
/// order it would be shown in, if that file were not in the directory. The
/// file itself is shown by its placeholder, unless a fresh record was
/// cached for it.
pub proof fn lemma_unreadable_file_changes_nothing_else(
    c: CacheView,
    stats: Seq<StatView>,
    i: int,
    parse: spec_fn(StatView) -> Option<ModInfoView>,
)
    requires
        names_distinct(stats),
        0 <= i < stats.len(),
        parse(stats[i]) is None,
    ensures
        ({
            let rest = stats.remove(i);
            let with = apply_jobs(c, scan_entries(c, stats), scan_jobs(c, stats), parse);
            let without = apply_jobs(c, scan_entries(c, rest), scan_jobs(c, rest), parse);
            &&& with.0 == without.0
            &&& keys_of(with.1) == archive_names(stats)
            &&& keys_of(without.1) == archive_names(rest)
            &&& agree_but(with.1, without.1, stats[i].filename)
            &&& is_archive_name(stats[i].filename) ==> entry_value(with.1, stats[i].filename) == Some(
                first_record(c, stats[i]),
            )
            &&& fresh_record(c, stats[i]) is None ==> first_record(c, stats[i]) == placeholder(
                stats[i],
            )
        }),
{
    let x = stats[i];
    let rest = stats.remove(i);
    let shown = scan_entries(c, stats);
    let shown_rest = scan_entries(c, rest);
    let jobs = scan_jobs(c, stats);
    let jobs_rest = scan_jobs(c, rest);
    lemma_remove_keeps_distinct(stats, i);
    lemma_scan_entries(c, stats);
    lemma_scan_entries(c, rest);
    lemma_scan_jobs(c, stats);
    lemma_scan_jobs(c, rest);
    lemma_jobs_without(c, stats, i);
    // every job has its entry
    assert forall|k: int| 0 <= k < jobs.len() implies entry_index(shown, (#[trigger] jobs[k]).filename) is Some by {
        let j = choose|j: int| 0 <= j < stats.len() && stats[j] == jobs[k];
        assert(lists_archive(stats, jobs[k].filename));
    }
    assert forall|k: int| 0 <= k < jobs_rest.len() implies entry_index(
        shown_rest,
        (#[trigger] jobs_rest[k]).filename,
    ) is Some by {
        let j = choose|j: int| 0 <= j < rest.len() && rest[j] == jobs_rest[k];
        assert(lists_archive(rest, jobs_rest[k].filename));
    }
    lemma_apply_keeps_keys(c, shown, jobs, parse);
    lemma_apply_keeps_keys(c, shown_rest, jobs_rest, parse);
    // the job for the file, if there is one, gives no record
    assert forall|k: int| 0 <= k < jobs.len() && (#[trigger] jobs[k]).filename == x.filename implies parse(
        jobs[k],
    ) is None by {
        assert(!not_a_job(jobs, stats[i].filename));
        lemma_job_is_listed(stats, jobs, i);
        let m = choose|m: int| 0 <= m < jobs.len() && #[trigger] jobs[m] == stats[i];
        if m < k {
            assert(jobs[m].filename != jobs[k].filename);
        } else if k < m {
            assert(jobs[k].filename != jobs[m].filename);
        }
    }
    lemma_drop_job(c, shown, jobs, x.filename, parse);
    // what is shown at first agrees on every other file
    assert(agree_but(shown, shown_rest, x.filename)) by {
        assert forall|key: Seq<char>| key != x.filename implies #[trigger] entry_value(shown, key)
            == entry_value(shown_rest, key) by {
            lemma_archives_without(stats, i, key);
            if lists_archive(stats, key) {
                let j = choose|j: int|
                    0 <= j < stats.len() && (#[trigger] stats[j]).filename == key && is_archive_name(
                        key,
                    );
                let j1 = if j < i { j } else { j - 1 };
                assert(rest[j1] == stats[j]);
                assert(entry_value(shown, stats[j].filename) == Some(first_record(c, stats[j])));
                assert(entry_value(shown_rest, rest[j1].filename) == Some(
                    first_record(c, rest[j1]),
                ));
            } else {
                assert(entry_index(shown, key) is None);
                assert(entry_index(shown_rest, key) is None);
            }
        }
    }
    lemma_apply_agree(c, shown, shown_rest, jobs_rest, x.filename, parse);
    let with = apply_jobs(c, shown, jobs, parse);
    let mid = apply_jobs(c, shown, jobs_rest, parse);
    let without = apply_jobs(c, shown_rest, jobs_rest, parse);
    assert(agree_but(with.1, without.1, x.filename)) by {
        assert forall|key: Seq<char>| key != x.filename implies #[trigger] entry_value(with.1, key)
            == entry_value(without.1, key) by {
            assert(entry_value(with.1, key) == entry_value(mid.1, key));
            assert(entry_value(mid.1, key) == entry_value(without.1, key));
        }
    }
    // the file itself
    if is_archive_name(x.filename) {
        assert forall|k: int| 0 <= k < jobs.len() && (#[trigger] jobs[k]).filename
            == x.filename implies jobs[k] == x && fresh_record(c, x) is None by {
            assert(!not_a_job(jobs, stats[i].filename));
            lemma_job_is_listed(stats, jobs, i);
            let m = choose|m: int| 0 <= m < jobs.len() && #[trigger] jobs[m] == stats[i];
            if m < k {
                assert(jobs[m].filename != jobs[k].filename);
            } else if k < m {
                assert(jobs[k].filename != jobs[m].filename);
            }
        }
        lemma_file_keeps_first_record(c, shown, jobs, x, parse);
    }
}

/// A file that gives no record is shown, after all archives were read, by
/// what was shown for it at first.
pub proof fn lemma_file_keeps_first_record(
    c: CacheView,
    entries: Seq<(Seq<char>, ModInfoView)>,
    jobs: Seq<StatView>,
    x: StatView,
    parse: spec_fn(StatView) -> Option<ModInfoView>,
)
    requires
        keys_unique(entries),
        names_distinct(jobs),
        parse(x) is None,
        entry_value(entries, x.filename) == Some(first_record(c, x)),
        forall|k: int| 0 <= k < jobs.len() && (#[trigger] jobs[k]).filename == x.filename ==> jobs[k] == x
            && fresh_record(c, x) is None,
    ensures
        keys_unique(apply_jobs(c, entries, jobs, parse).1),
        entry_value(apply_jobs(c, entries, jobs, parse).1, x.filename) == Some(first_record(c, x)),
    decreases jobs.len(),
{
    if jobs.len() > 0 {
        let front = jobs.drop_last();
        let job = jobs.last();
        assert(jobs[jobs.len() - 1] == job);
        assert forall|a: int, b: int| 0 <= a < b < front.len() implies (#[trigger] front[a]).filename != (
        #[trigger] front[b]).filename by {
            assert(front[a] == jobs[a]);
            assert(front[b] == jobs[b]);
        }
        assert forall|k: int| 0 <= k < front.len() && (#[trigger] front[k]).filename
            == x.filename implies front[k] == x && fresh_record(c, x) is None by {
            assert(front[k] == jobs[k]);
        }
        lemma_file_keeps_first_record(c, entries, front, x, parse);
        let before = apply_jobs(c, entries, front, parse);
        let after = finished(before.0, job, parse(job));
        lemma_put(before.1, job.filename, after.1, x.filename);
    }
}

} // verus!
