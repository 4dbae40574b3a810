//! Scanning a directory twice.
//!
//! After a scan in which every archive that had to be read gave a record,
//! a second scan of the unchanged directory reads nothing. It also shows
//! the same records, as long as no store of the first scan changed the
//! project row of a file whose record was shown already; two files of one
//! project share a project row, and the later of them may change what the
//! cache returns for the earlier.

use vstd::prelude::*;
use crate::assoc::{entry_index, entry_value, keys_of, keys_unique, lemma_entry_index, with_entry};
use crate::cache::CacheView;
use crate::models::ModInfoView;
use crate::scanner::{
    finished, first_record, fresh_record, is_archive_name, keeps_project_row,
    lemma_other_files_stay, lemma_other_files_stay_fresh, lemma_rescan_is_cached, scan_entries,
    scan_jobs,
};
use crate::sorting::StatView;

verus! {

/// The cache and the shown entries after the archives of `jobs` were read,
/// one after the other, with the outcome that `parse` tells for each.
pub open spec fn apply_jobs(
    c: CacheView,
    entries: Seq<(Seq<char>, ModInfoView)>,
    jobs: Seq<StatView>,
    parse: spec_fn(StatView) -> Option<ModInfoView>,
) -> (CacheView, Seq<(Seq<char>, ModInfoView)>)
    decreases jobs.len(),
{
    if jobs.len() == 0 {
        (c, entries)
    } else {
        let before = apply_jobs(c, entries, jobs.drop_last(), parse);
        let job = jobs.last();
        let after = finished(before.0, job, parse(job));
        (after.0, with_entry(before.1, job.filename, after.1))
    }
}

/// No two entries of a listing have the same file name.
pub open spec fn names_distinct(stats: Seq<StatView>) -> bool {
    forall|i: int, j: int|
        0 <= i < j < stats.len() ==> (#[trigger] stats[i]).filename != (#[trigger] stats[j]).filename
}

/// Every archive of `jobs` gives a record.
pub open spec fn all_give_records(
    jobs: Seq<StatView>,
    parse: spec_fn(StatView) -> Option<ModInfoView>,
) -> bool {
    forall|k: int| 0 <= k < jobs.len() ==> parse(#[trigger] jobs[k]) is Some
}

/// No job has the file name `name`.
pub open spec fn not_a_job(jobs: Seq<StatView>, name: Seq<char>) -> bool {
    forall|k: int| 0 <= k < jobs.len() ==> (#[trigger] jobs[k]).filename != name
}

/// The record shown for the file `name` is its last: of the archives to
/// read, `all`, it is none, or it is among those that were `read`.
pub open spec fn settled(all: Seq<StatView>, read: Seq<StatView>, name: Seq<char>) -> bool {
    not_a_job(all, name) || !not_a_job(read, name)
}

/// Every archive among the first `n` to read gives a record, and the store
/// of that record leaves the project row of every other listed file as it
/// was whose record was settled by then.
pub open spec fn stores_keep_rows(
    c: CacheView,
    stats: Seq<StatView>,
    all: Seq<StatView>,
    n: int,
    parse: spec_fn(StatView) -> Option<ModInfoView>,
) -> bool
    decreases n,
{
    if n <= 0 || n > all.len() {
        true
    } else {
        let read = all.take(n - 1);
        let before = apply_jobs(c, Seq::empty(), read, parse).0;
        let job = all[n - 1];
        &&& stores_keep_rows(c, stats, all, n - 1, parse)
        &&& parse(job) is Some
        &&& forall|i: int|
            0 <= i < stats.len() && (#[trigger] stats[i]).filename != job.filename && settled(
                all,
                read,
                stats[i].filename,
            ) ==> keeps_project_row(before, job, parse(job), stats[i])
    }
}

/// The cache after reading does not depend on the entries shown.
pub proof fn lemma_apply_jobs_cache(
    c: CacheView,
    e1: Seq<(Seq<char>, ModInfoView)>,
    e2: Seq<(Seq<char>, ModInfoView)>,
    jobs: Seq<StatView>,
    parse: spec_fn(StatView) -> Option<ModInfoView>,
)
    ensures
        apply_jobs(c, e1, jobs, parse).0 == apply_jobs(c, e2, jobs, parse).0,
    decreases jobs.len(),
{
    if jobs.len() > 0 {
        lemma_apply_jobs_cache(c, e1, e2, jobs.drop_last(), parse);
    }
}

/// Two lists without repeated keys that have the same keys in the same
/// order and the same value under each key are the same list.
pub proof fn lemma_same_entries(a: Seq<(Seq<char>, ModInfoView)>, b: Seq<(Seq<char>, ModInfoView)>)
    requires
        keys_unique(a),
        keys_unique(b),
        keys_of(a) == keys_of(b),
        forall|i: int| 0 <= i < a.len() ==> entry_value(a, (#[trigger] a[i]).0) == entry_value(b, a[i].0),
    ensures
        a == b,
{
    assert(a.len() == keys_of(a).len());
    assert(b.len() == keys_of(b).len());
    assert forall|i: int| 0 <= i < a.len() implies a[i] == b[i] by {
        assert(keys_of(a)[i] == a[i].0);
        assert(keys_of(b)[i] == b[i].0);
        lemma_value_at(a, i);
        lemma_value_at(b, i);
    }
    assert(a =~= b);
}

/// In a list without repeated keys, the value under the key of an entry is
/// the value of that entry.
pub proof fn lemma_value_at(a: Seq<(Seq<char>, ModInfoView)>, i: int)
    requires
        keys_unique(a),
        0 <= i < a.len(),
    ensures
        entry_index(a, a[i].0) == Some(i),
        entry_value(a, a[i].0) == Some(a[i].1),
{
    lemma_entry_index(a, a[i].0);
    match entry_index(a, a[i].0) {
        Some(j) => {
            if j < i {
                assert(a[j].0 != a[i].0);
            } else if i < j {
                assert(a[i].0 != a[j].0);
            }
        },
        None => {},
    }
}

/// Putting a value under a key changes the value under that key and no
/// other, and keeps the keys when the key was there.
pub proof fn lemma_put(a: Seq<(Seq<char>, ModInfoView)>, key: Seq<char>, value: ModInfoView, other: Seq<char>)
    requires
        keys_unique(a),
    ensures
        keys_unique(with_entry(a, key, value)),
        entry_value(with_entry(a, key, value), key) == Some(value),
        other != key ==> entry_value(with_entry(a, key, value), other) == entry_value(a, other),
        entry_index(a, key) is Some ==> keys_of(with_entry(a, key, value)) == keys_of(a),
        entry_index(a, key) is None ==> keys_of(with_entry(a, key, value)) == keys_of(a).push(key),
        (entry_index(with_entry(a, key, value), other) is Some) == (other == key || entry_index(
            a,
            other,
        ) is Some),
{
    crate::assoc::lemma_with_entry(a, key, value);
    let after = with_entry(a, key, value);
    lemma_entry_index(a, key);
    lemma_entry_index(a, other);
    lemma_entry_index(after, other);
    if other != key {
        match entry_index(a, key) {
            Some(i) => {
                assert forall|j: int| 0 <= j < a.len() implies (#[trigger] after[j]).0 == a[j].0 by {}
                match (entry_index(a, other), entry_index(after, other)) {
                    (Some(x), Some(y)) => {
                        assert(after[x].0 == a[x].0);
                        assert(after[y].0 == a[y].0);
                        if x < y {
                            assert(after[x].0 != other);
                        } else if y < x {
                            assert(a[y].0 != other);
                        }
                        assert(x != i);
                    },
                    (Some(x), None) => {
                        assert(after[x].0 == a[x].0);
                    },
                    (None, Some(y)) => {
                        assert(after[y].0 == a[y].0);
                    },
                    (None, None) => {},
                }
            },
            None => {
                assert forall|j: int| 0 <= j < a.len() implies (#[trigger] after[j]) == a[j] by {}
                match (entry_index(a, other), entry_index(after, other)) {
                    (Some(x), Some(y)) => {
                        assert(after[x] == a[x]);
                        if y < a.len() {
                            assert(after[y] == a[y]);
                            if x < y {
                                assert(after[x].0 != other);
                            } else if y < x {
                                assert(a[y].0 != other);
                            }
                        }
                    },
                    (Some(x), None) => {
                        assert(after[x] == a[x]);
                    },
                    (None, Some(y)) => {
                        if y < a.len() {
                            assert(after[y] == a[y]);
                        }
                    },
                    (None, None) => {},
                }
            },
        }
    }
}

/// The file names of the archives of a listing, in its order.
pub open spec fn archive_names(stats: Seq<StatView>) -> Seq<Seq<char>>
    decreases stats.len(),
{
    if stats.len() == 0 {
        Seq::empty()
    } else {
        let rest = archive_names(stats.drop_last());
        if is_archive_name(stats.last().filename) {
            rest.push(stats.last().filename)
        } else {
            rest
        }
    }
}

/// Some entry of the listing is an archive with the file name `key`.
pub open spec fn lists_archive(stats: Seq<StatView>, key: Seq<char>) -> bool {
    exists|i: int| 0 <= i < stats.len() && (#[trigger] stats[i]).filename == key && is_archive_name(key)
}

/// What a scan shows for a listing without repeated names: one entry for
/// each archive, under its file name, in the listing's order, holding the
/// record that the scan shows first for that file.
pub proof fn lemma_scan_entries(c: CacheView, stats: Seq<StatView>)
    requires
        names_distinct(stats),
    ensures
        keys_unique(scan_entries(c, stats)),
        keys_of(scan_entries(c, stats)) == archive_names(stats),
        forall|key: Seq<char>|
            (#[trigger] entry_index(scan_entries(c, stats), key) is Some) == lists_archive(stats, key),
        forall|i: int|
            0 <= i < stats.len() && is_archive_name((#[trigger] stats[i]).filename) ==> entry_value(
                scan_entries(c, stats),
                stats[i].filename,
            ) == Some(first_record(c, stats[i])),
    decreases stats.len(),
{
    let shown = scan_entries(c, stats);
    if stats.len() == 0 {
        assert(keys_of(shown) =~= archive_names(stats));
        assert forall|key: Seq<char>| (#[trigger] entry_index(shown, key) is Some) == lists_archive(
            stats,
            key,
        ) by {}
    } else {
        let front = stats.drop_last();
        let last = stats.last();
        let rest = scan_entries(c, front);
        assert forall|i: int, j: int| 0 <= i < j < front.len() implies (#[trigger] front[i]).filename
            != (#[trigger] front[j]).filename by {
            assert(front[i] == stats[i]);
            assert(front[j] == stats[j]);
        }
        lemma_scan_entries(c, front);
        assert forall|key: Seq<char>| lists_archive(stats, key) == (lists_archive(front, key) || (key
            == last.filename && is_archive_name(key))) by {
            if lists_archive(stats, key) {
                let i = choose|i: int|
                    0 <= i < stats.len() && (#[trigger] stats[i]).filename == key && is_archive_name(
                        key,
                    );
                if i < front.len() {
                    assert(front[i] == stats[i]);
                }
            }
            if lists_archive(front, key) {
                let i = choose|i: int|
                    0 <= i < front.len() && (#[trigger] front[i]).filename == key && is_archive_name(
                        key,
                    );
                assert(front[i] == stats[i]);
            }
            if key == last.filename && is_archive_name(key) {
                assert(stats[stats.len() - 1].filename == key);
            }
        }
        if is_archive_name(last.filename) {
            assert(!lists_archive(front, last.filename)) by {
                if lists_archive(front, last.filename) {
                    let i = choose|i: int|
                        0 <= i < front.len() && (#[trigger] front[i]).filename == last.filename
                            && is_archive_name(last.filename);
                    assert(front[i] == stats[i]);
                    assert(stats[i].filename != stats[stats.len() - 1].filename);
                }
            }
            assert(entry_index(rest, last.filename) is None);
            assert forall|key: Seq<char>| (#[trigger] entry_index(shown, key) is Some)
                == lists_archive(stats, key) by {
                lemma_put(rest, last.filename, first_record(c, last), key);
                assert((entry_index(rest, key) is Some) == lists_archive(front, key));
            }
            lemma_put(rest, last.filename, first_record(c, last), last.filename);
            assert forall|i: int|
                0 <= i < stats.len() && is_archive_name((#[trigger] stats[i]).filename) implies entry_value(
                shown,
                stats[i].filename,
            ) == Some(first_record(c, stats[i])) by {
                if i < front.len() {
                    assert(front[i] == stats[i]);
                    assert(stats[i].filename != stats[stats.len() - 1].filename);
                    lemma_put(rest, last.filename, first_record(c, last), stats[i].filename);
                }
            }
        } else {
            assert forall|key: Seq<char>| (#[trigger] entry_index(shown, key) is Some)
                == lists_archive(stats, key) by {
                assert((entry_index(rest, key) is Some) == lists_archive(front, key));
            }
            assert forall|i: int|
                0 <= i < stats.len() && is_archive_name((#[trigger] stats[i]).filename) implies entry_value(
                shown,
                stats[i].filename,
            ) == Some(first_record(c, stats[i])) by {
                assert(front[i] == stats[i]);
            }
        }
    }
}

/// The files that a scan asks to read are the archives of the listing
/// that have no fresh record, each asked for once.
pub proof fn lemma_scan_jobs(c: CacheView, stats: Seq<StatView>)
    requires
        names_distinct(stats),
    ensures
        names_distinct(scan_jobs(c, stats)),
        forall|k: int|
            0 <= k < scan_jobs(c, stats).len() ==> stats.contains(#[trigger] scan_jobs(c, stats)[k])
                && is_archive_name(scan_jobs(c, stats)[k].filename) && fresh_record(
                c,
                scan_jobs(c, stats)[k],
            ) is None,
        forall|i: int|
            0 <= i < stats.len() && is_archive_name((#[trigger] stats[i]).filename) && fresh_record(
                c,
                stats[i],
            ) is None ==> scan_jobs(c, stats).contains(stats[i]),
    decreases stats.len(),
{
    let jobs = scan_jobs(c, stats);
    if stats.len() > 0 {
        let front = stats.drop_last();
        let last = stats.last();
        let rest = scan_jobs(c, front);
        assert forall|i: int, j: int| 0 <= i < j < front.len() implies (#[trigger] front[i]).filename
            != (#[trigger] front[j]).filename by {
            assert(front[i] == stats[i]);
            assert(front[j] == stats[j]);
        }
        lemma_scan_jobs(c, front);
        assert forall|k: int| 0 <= k < rest.len() implies stats.contains(#[trigger] rest[k])
            && rest[k].filename != last.filename by {
            assert(front.contains(rest[k]));
            let i = choose|i: int| 0 <= i < front.len() && front[i] == rest[k];
            assert(stats[i] == rest[k]);
            assert(stats[i].filename != stats[stats.len() - 1].filename);
        }
        assert(stats[stats.len() - 1] == last);
        assert forall|k: int| 0 <= k < jobs.len() implies stats.contains(#[trigger] jobs[k])
            && is_archive_name(jobs[k].filename) && fresh_record(c, jobs[k]) is None by {
            if k < rest.len() {
                assert(jobs[k] == rest[k]);
            }
        }
        assert forall|i: int, j: int| 0 <= i < j < jobs.len() implies (#[trigger] jobs[i]).filename
            != (#[trigger] jobs[j]).filename by {
            assert(jobs[i] == rest[i]);
            if j < rest.len() {
                assert(jobs[j] == rest[j]);
            }
        }
        assert forall|i: int|
            0 <= i < stats.len() && is_archive_name((#[trigger] stats[i]).filename) && fresh_record(
                c,
                stats[i],
            ) is None implies jobs.contains(stats[i]) by {
            if i < front.len() {
                assert(front[i] == stats[i]);
                assert(rest.contains(front[i]));
                let k = choose|k: int| 0 <= k < rest.len() && rest[k] == front[i];
                assert(jobs[k] == stats[i]);
            } else {
                assert(jobs[jobs.len() - 1] == stats[i]);
            }
        }
    }
}

/// A scan of a listing in which every archive has a fresh record asks for
/// no reading.
pub proof fn lemma_nothing_to_read(c: CacheView, stats: Seq<StatView>)
    requires
        forall|i: int|
            0 <= i < stats.len() && is_archive_name((#[trigger] stats[i]).filename) ==> fresh_record(
                c,
                stats[i],
            ) is Some,
    ensures
        scan_jobs(c, stats) == Seq::<StatView>::empty(),
    decreases stats.len(),
{
    if stats.len() > 0 {
        let front = stats.drop_last();
        assert forall|i: int|
            0 <= i < front.len() && is_archive_name((#[trigger] front[i]).filename) implies fresh_record(
            c,
            front[i],
        ) is Some by {
            assert(front[i] == stats[i]);
        }
        lemma_nothing_to_read(c, front);
        assert(stats[stats.len() - 1] == stats.last());
    }
}

/// After the archives of `jobs` were read, each of which gave a record,
/// every one of them has a fresh record, and so has every other file that
/// had one before.
pub proof fn lemma_apply_jobs_fresh(
    c: CacheView,
    entries: Seq<(Seq<char>, ModInfoView)>,
    stats: Seq<StatView>,
    jobs: Seq<StatView>,
    parse: spec_fn(StatView) -> Option<ModInfoView>,
)
    requires
        names_distinct(jobs),
        all_give_records(jobs, parse),
    ensures
        forall|k: int|
            0 <= k < jobs.len() ==> fresh_record(
                apply_jobs(c, entries, jobs, parse).0,
                #[trigger] jobs[k],
            ) is Some,
        forall|i: int|
            0 <= i < stats.len() && not_a_job(jobs, (#[trigger] stats[i]).filename) && fresh_record(
                c,
                stats[i],
            ) is Some ==> fresh_record(apply_jobs(c, entries, jobs, parse).0, stats[i]) is Some,
    decreases jobs.len(),
{
    if jobs.len() > 0 {
        let front = jobs.drop_last();
        let job = jobs.last();
        let before = apply_jobs(c, entries, front, parse);
        let after = finished(before.0, job, parse(job));
        assert(apply_jobs(c, entries, jobs, parse).0 == after.0);
        assert forall|i: int, j: int| 0 <= i < j < front.len() implies (#[trigger] front[i]).filename
            != (#[trigger] front[j]).filename by {
            assert(front[i] == jobs[i]);
            assert(front[j] == jobs[j]);
        }
        assert forall|k: int| 0 <= k < front.len() implies parse(#[trigger] front[k]) is Some by {
            assert(front[k] == jobs[k]);
        }
        lemma_apply_jobs_fresh(c, entries, stats, front, parse);
        assert(jobs[jobs.len() - 1] == job);
        lemma_rescan_is_cached(before.0, job, parse(job).unwrap());
        assert forall|k: int| 0 <= k < jobs.len() implies fresh_record(after.0, #[trigger] jobs[k]) is Some by {
            if k < front.len() {
                assert(front[k] == jobs[k]);
                assert(jobs[k].filename != jobs[jobs.len() - 1].filename);
                lemma_other_files_stay_fresh(before.0, job, parse(job), jobs[k]);
            }
        }
        assert forall|i: int|
            0 <= i < stats.len() && not_a_job(jobs, (#[trigger] stats[i]).filename) && fresh_record(
                c,
                stats[i],
            ) is Some implies fresh_record(after.0, stats[i]) is Some by {
            assert(jobs[jobs.len() - 1].filename != stats[i].filename);
            assert(not_a_job(front, stats[i].filename)) by {
                assert forall|k: int| 0 <= k < front.len() implies (#[trigger] front[k]).filename
                    != stats[i].filename by {
                    assert(front[k] == jobs[k]);
                }
            }
            lemma_other_files_stay_fresh(before.0, job, parse(job), stats[i]);
        }
    }
}

/// What reading the first `n` of the archives `all` leaves, where each
/// store kept the project rows of the files settled by then: the entries
/// keep their keys and their order; each file that was read is shown by
/// the record that the cache now holds for it, which is fresh; and what is
/// shown and cached for the files that are not to be read is as before.
pub proof fn lemma_apply_jobs(
    c: CacheView,
    entries: Seq<(Seq<char>, ModInfoView)>,
    stats: Seq<StatView>,
    all: Seq<StatView>,
    n: int,
    parse: spec_fn(StatView) -> Option<ModInfoView>,
)
    requires
        0 <= n <= all.len(),
        keys_unique(entries),
        names_distinct(all),
        stores_keep_rows(c, stats, all, n, parse),
        forall|k: int|
            0 <= k < all.len() ==> stats.contains(#[trigger] all[k]) && entry_index(
                entries,
                all[k].filename,
            ) is Some,
    ensures
        keys_unique(apply_jobs(c, entries, all.take(n), parse).1),
        keys_of(apply_jobs(c, entries, all.take(n), parse).1) == keys_of(entries),
        forall|k: int|
            0 <= k < n ==> fresh_record(
                apply_jobs(c, entries, all.take(n), parse).0,
                #[trigger] all[k],
            ) is Some && entry_value(apply_jobs(c, entries, all.take(n), parse).1, all[k].filename)
                == fresh_record(apply_jobs(c, entries, all.take(n), parse).0, all[k]),
        forall|i: int|
            0 <= i < stats.len() && not_a_job(all, (#[trigger] stats[i]).filename) ==> fresh_record(
                apply_jobs(c, entries, all.take(n), parse).0,
                stats[i],
            ) == fresh_record(c, stats[i]) && entry_value(
                apply_jobs(c, entries, all.take(n), parse).1,
                stats[i].filename,
            ) == entry_value(entries, stats[i].filename),
    decreases n,
{
    let jobs = all.take(n);
    if n > 0 {
        let front = all.take(n - 1);
        let job = all[n - 1];
        assert(jobs.drop_last() =~= front);
        assert(jobs.last() == job);
        let before = apply_jobs(c, entries, front, parse);
        let after = finished(before.0, job, parse(job));
        let shown = with_entry(before.1, job.filename, after.1);
        assert(apply_jobs(c, entries, jobs, parse) == (after.0, shown));
        lemma_apply_jobs(c, entries, stats, all, n - 1, parse);
        lemma_apply_jobs_cache(c, entries, Seq::empty(), front, parse);
        let p = parse(job).unwrap();
        // the job itself
        lemma_rescan_is_cached(before.0, job, p);
        lemma_put(before.1, job.filename, after.1, job.filename);
        assert(keys_of(before.1) == keys_of(entries));
        assert(entry_index(before.1, job.filename) is Some) by {
            lemma_keys_tell(entries, before.1, job.filename);
        }
        // the other files of the listing whose record is settled
        assert forall|i: int| 0 <= i < stats.len() && (#[trigger] stats[i]).filename != job.filename
            && settled(all, front, stats[i].filename) implies fresh_record(after.0, stats[i])
            == fresh_record(before.0, stats[i]) && entry_value(shown, stats[i].filename)
            == entry_value(before.1, stats[i].filename) by {
            lemma_other_files_stay(before.0, job, parse(job), stats[i]);
            lemma_put(before.1, job.filename, after.1, stats[i].filename);
        }
        assert forall|k: int| 0 <= k < n implies fresh_record(after.0, #[trigger] all[k]) is Some
            && entry_value(shown, all[k].filename) == fresh_record(after.0, all[k]) by {
            if k < n - 1 {
                assert(front[k] == all[k]);
                assert(all[k].filename != all[n - 1].filename);
                assert(stats.contains(all[k]));
                let i = choose|i: int| 0 <= i < stats.len() && stats[i] == all[k];
                assert(!not_a_job(front, stats[i].filename));
                assert(settled(all, front, stats[i].filename));
            }
        }
        assert forall|i: int| 0 <= i < stats.len() && not_a_job(all, (#[trigger] stats[i]).filename) implies fresh_record(
            after.0,
            stats[i],
        ) == fresh_record(c, stats[i]) && entry_value(shown, stats[i].filename) == entry_value(
            entries,
            stats[i].filename,
        ) by {
            assert(all[n - 1].filename != stats[i].filename);
            assert(settled(all, front, stats[i].filename));
        }
    } else {
        assert(jobs =~= Seq::<StatView>::empty());
    }
}

/// Lists with the same keys hold an entry under the same keys.
pub proof fn lemma_keys_tell(
    a: Seq<(Seq<char>, ModInfoView)>,
    b: Seq<(Seq<char>, ModInfoView)>,
    key: Seq<char>,
)
    requires
        keys_of(a) == keys_of(b),
    ensures
        (entry_index(a, key) is Some) == (entry_index(b, key) is Some),
{
    lemma_entry_index(a, key);
    lemma_entry_index(b, key);
    assert(a.len() == keys_of(a).len());
    assert(b.len() == keys_of(b).len());
    match entry_index(a, key) {
        Some(i) => {
            assert(keys_of(a)[i] == a[i].0);
            assert(keys_of(b)[i] == b[i].0);
        },
        None => {},
    }
    match entry_index(b, key) {
        Some(i) => {
            assert(keys_of(a)[i] == a[i].0);
            assert(keys_of(b)[i] == b[i].0);
        },
        None => {},
    }
}

/// After a scan, every archive of the listing that was read, or had a
/// fresh record from the start, has a fresh record.
pub proof fn lemma_all_fresh(
    c: CacheView,
    stats: Seq<StatView>,
    parse: spec_fn(StatView) -> Option<ModInfoView>,
)
    requires
        names_distinct(stats),
        all_give_records(scan_jobs(c, stats), parse),
    ensures
        forall|i: int|
            0 <= i < stats.len() && is_archive_name((#[trigger] stats[i]).filename) ==> fresh_record(
                apply_jobs(c, scan_entries(c, stats), scan_jobs(c, stats), parse).0,
                stats[i],
            ) is Some,
{
    let shown = scan_entries(c, stats);
    let jobs = scan_jobs(c, stats);
    let done = apply_jobs(c, shown, jobs, parse);
    lemma_scan_jobs(c, stats);
    lemma_apply_jobs_fresh(c, shown, stats, jobs, parse);
    assert forall|i: int|
        0 <= i < stats.len() && is_archive_name((#[trigger] stats[i]).filename) implies fresh_record(
        done.0,
        stats[i],
    ) is Some by {
        if not_a_job(jobs, stats[i].filename) {
            if fresh_record(c, stats[i]) is None {
                assert(jobs.contains(stats[i]));
                let k = choose|k: int| 0 <= k < jobs.len() && jobs[k] == stats[i];
                assert(jobs[k].filename == stats[i].filename);
            }
        } else {
            lemma_job_is_listed(stats, jobs, i);
        }
    }
}

/// In a listing without repeated names, a file that has the name of one of
/// the listed jobs is that job.
pub proof fn lemma_job_is_listed(stats: Seq<StatView>, jobs: Seq<StatView>, i: int)
    requires
        names_distinct(stats),
        0 <= i < stats.len(),
        !not_a_job(jobs, stats[i].filename),
        forall|k: int| 0 <= k < jobs.len() ==> stats.contains(#[trigger] jobs[k]),
    ensures
        exists|k: int| 0 <= k < jobs.len() && #[trigger] jobs[k] == stats[i],
{
    let k = choose|k: int| 0 <= k < jobs.len() && (#[trigger] jobs[k]).filename == stats[i].filename;
    assert(stats.contains(jobs[k]));
    let j = choose|j: int| 0 <= j < stats.len() && stats[j] == jobs[k];
    if j < i {
        assert(stats[j].filename != stats[i].filename);
    } else if i < j {
        assert(stats[i].filename != stats[j].filename);
    }
    assert(jobs[k] == stats[i]);
}

/// A second scan of an unchanged directory reads nothing, provided that
/// the listing names no file twice and that every archive that was read
/// gave a record.
pub proof fn lemma_second_scan_reads_nothing(
    c: CacheView,
    stats: Seq<StatView>,
    parse: spec_fn(StatView) -> Option<ModInfoView>,
)
    requires
        names_distinct(stats),
        all_give_records(scan_jobs(c, stats), parse),
    ensures
        scan_jobs(
            apply_jobs(c, scan_entries(c, stats), scan_jobs(c, stats), parse).0,
            stats,
        ) == Seq::<StatView>::empty(),
{
    lemma_all_fresh(c, stats, parse);
    lemma_nothing_to_read(
        apply_jobs(c, scan_entries(c, stats), scan_jobs(c, stats), parse).0,
        stats,
    );
}

/// Stores that keep the project rows of the settled files are stores of
/// records.
pub proof fn lemma_stores_give_records(
    c: CacheView,
    stats: Seq<StatView>,
    all: Seq<StatView>,
    n: int,
    parse: spec_fn(StatView) -> Option<ModInfoView>,
)
    requires
        0 <= n <= all.len(),
        stores_keep_rows(c, stats, all, n, parse),
    ensures
        all_give_records(all.take(n), parse),
    decreases n,
{
    if n > 0 {
        lemma_stores_give_records(c, stats, all, n - 1, parse);
        assert forall|k: int| 0 <= k < n implies parse(#[trigger] all.take(n)[k]) is Some by {
            if k < n - 1 {
                assert(all.take(n - 1)[k] == all.take(n)[k]);
            }
        }
    }
}

/// A second scan of an unchanged directory shows what the first scan
/// showed once all its archives were read, provided that the listing names
/// no file twice, that every archive that was read gave a record, and that
/// no store changed the project row of a file whose record was settled by
/// then. The last holds, for one, where no two files belong to one
/// project, and where two files of one project give the same project row.
pub proof fn lemma_second_scan_shows_the_same(
    c: CacheView,
    stats: Seq<StatView>,
    parse: spec_fn(StatView) -> Option<ModInfoView>,
)
    requires
        names_distinct(stats),
        stores_keep_rows(c, stats, scan_jobs(c, stats), scan_jobs(c, stats).len() as int, parse),
    ensures
        scan_entries(apply_jobs(c, scan_entries(c, stats), scan_jobs(c, stats), parse).0, stats)
            == apply_jobs(c, scan_entries(c, stats), scan_jobs(c, stats), parse).1,
        scan_jobs(
            apply_jobs(c, scan_entries(c, stats), scan_jobs(c, stats), parse).0,
            stats,
        ) == Seq::<StatView>::empty(),
{
    let shown = scan_entries(c, stats);
    let jobs = scan_jobs(c, stats);
    let done = apply_jobs(c, shown, jobs, parse);
    lemma_scan_entries(c, stats);
    lemma_scan_jobs(c, stats);
    assert(jobs.take(jobs.len() as int) =~= jobs);
    lemma_stores_give_records(c, stats, jobs, jobs.len() as int, parse);
    lemma_second_scan_reads_nothing(c, stats, parse);
    assert forall|k: int| 0 <= k < jobs.len() implies stats.contains(#[trigger] jobs[k])
        && entry_index(shown, jobs[k].filename) is Some by {
        let i = choose|i: int| 0 <= i < stats.len() && stats[i] == jobs[k];
        assert(lists_archive(stats, jobs[k].filename));
    }
    lemma_apply_jobs(c, shown, stats, jobs, jobs.len() as int, parse);
    // every archive has a fresh record now, which is what is shown for it
    assert forall|i: int|
        0 <= i < stats.len() && is_archive_name((#[trigger] stats[i]).filename) implies fresh_record(
        done.0,
        stats[i],
    ) is Some && entry_value(done.1, stats[i].filename) == fresh_record(done.0, stats[i]) by {
        if not_a_job(jobs, stats[i].filename) {
            if fresh_record(c, stats[i]) is None {
                assert(jobs.contains(stats[i]));
                let k = choose|k: int| 0 <= k < jobs.len() && jobs[k] == stats[i];
                assert(jobs[k].filename == stats[i].filename);
            }
        } else {
            lemma_job_is_listed(stats, jobs, i);
        }
    }
    let again = scan_entries(done.0, stats);
    lemma_scan_entries(done.0, stats);
    assert forall|x: int| 0 <= x < again.len() implies entry_value(again, (#[trigger] again[x]).0)
        == entry_value(done.1, again[x].0) by {
        let key = again[x].0;
        lemma_value_at(again, x);
        assert(lists_archive(stats, key));
        let i = choose|i: int|
            0 <= i < stats.len() && (#[trigger] stats[i]).filename == key && is_archive_name(key);
        assert(entry_value(again, stats[i].filename) == Some(first_record(done.0, stats[i])));
    }
    lemma_same_entries(again, done.1);
}

} // verus!
