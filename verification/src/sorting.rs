//! The order of file names, and sorting a directory listing by it.

use vstd::prelude::*;
use vstd::seq_lib::to_multiset_insert;
use crate::text::chars_of;

verus! {

/// `a` comes before `b`, or is `b`, in the lexicographic order of their
/// characters.
pub open spec fn text_le(a: Seq<char>, b: Seq<char>) -> bool
    decreases a.len(),
{
    if a.len() == 0 {
        true
    } else if b.len() == 0 {
        false
    } else if a[0] != b[0] {
        a[0] < b[0]
    } else {
        text_le(a.drop_first(), b.drop_first())
    }
}

/// Of two texts, one comes before the other or they are the same text.
pub proof fn lemma_text_le_total(a: Seq<char>, b: Seq<char>)
    ensures
        text_le(a, b) || text_le(b, a),
        text_le(a, b) && text_le(b, a) ==> a == b,
    decreases a.len(),
{
    if a.len() > 0 && b.len() > 0 && a[0] == b[0] {
        lemma_text_le_total(a.drop_first(), b.drop_first());
        if text_le(a, b) && text_le(b, a) {
            assert(a =~= seq![a[0]] + a.drop_first());
            assert(b =~= seq![b[0]] + b.drop_first());
        }
    } else if a.len() == 0 && b.len() == 0 {
        assert(a =~= b);
    }
}

/// The order of texts is transitive.
pub proof fn lemma_text_le_transitive(a: Seq<char>, b: Seq<char>, c: Seq<char>)
    requires
        text_le(a, b),
        text_le(b, c),
    ensures
        text_le(a, c),
    decreases a.len(),
{
    if a.len() > 0 && b.len() > 0 && c.len() > 0 {
        if a[0] == b[0] && b[0] == c[0] {
            lemma_text_le_transitive(a.drop_first(), b.drop_first(), c.drop_first());
        }
    }
}

/// Whether `a` comes before `b`, or is `b`, in the order of texts.
pub fn le_text(a: &str, b: &str) -> (r: bool)
    ensures
        r == text_le(a@, b@),
{
    let x = chars_of(a);
    let y = chars_of(b);
    let mut i: usize = 0;
    assert(x@.skip(0) =~= x@);
    assert(y@.skip(0) =~= y@);
    loop
        invariant
            i <= x.len(),
            i <= y.len(),
            x@ == a@,
            y@ == b@,
            text_le(a@, b@) == text_le(x@.skip(i as int), y@.skip(i as int)),
        decreases x.len() - i,
    {
        if i == x.len() {
            return true;
        }
        if i == y.len() {
            return false;
        }
        assert(x@.skip(i as int)[0] == x@[i as int]);
        assert(y@.skip(i as int)[0] == y@[i as int]);
        if x[i] != y[i] {
            return x[i] < y[i];
        }
        assert(x@.skip(i as int).drop_first() =~= x@.skip(i + 1));
        assert(y@.skip(i as int).drop_first() =~= y@.skip(i + 1));
        i += 1;
    }
}

/// One entry of a directory listing: a file's name, its size in bytes and
/// the time it was last modified, in seconds.
#[derive(Debug, PartialEq, Eq)]
pub struct FileStat {
    pub filename: String,
    pub size_bytes: u64,
    pub mtime_secs: u64,
}

/// Mathematical value of a [`FileStat`].
pub ghost struct StatView {
    pub filename: Seq<char>,
    pub size_bytes: u64,
    pub mtime_secs: u64,
}

impl View for FileStat {
    type V = StatView;

    open spec fn view(&self) -> StatView {
        StatView {
            filename: self.filename@,
            size_bytes: self.size_bytes,
            mtime_secs: self.mtime_secs,
        }
    }
}

impl DeepView for FileStat {
    type V = StatView;

    open spec fn deep_view(&self) -> StatView {
        self@
    }
}

impl Clone for FileStat {
    fn clone(&self) -> (r: Self)
        ensures
            r@ == self@,
    {
        FileStat {
            filename: self.filename.clone(),
            size_bytes: self.size_bytes,
            mtime_secs: self.mtime_secs,
        }
    }
}

/// The entries are in the order of their file names.
pub open spec fn sorted_by_name(entries: Seq<StatView>) -> bool {
    forall|i: int, j: int|
        0 <= i < j < entries.len() ==> text_le(
            (#[trigger] entries[i]).filename,
            (#[trigger] entries[j]).filename,
        )
}

/// Sorts a directory listing by file name.
pub fn sort_by_name(entries: Vec<FileStat>) -> (sorted: Vec<FileStat>)
    ensures
        sorted_by_name(sorted.deep_view()),
        sorted.deep_view().to_multiset() == entries.deep_view().to_multiset(),
        sorted.len() == entries.len(),
{
    let ghost all = entries.deep_view();
    let ghost raw = entries@;
    let mut out: Vec<FileStat> = Vec::new();
    assert(out.deep_view() =~= all.take(0));
    for entry in it: entries.into_iter()
        invariant
            it.seq() == raw,
            all.len() == raw.len(),
            forall|j: int| 0 <= j < raw.len() ==> all[j] == (#[trigger] raw[j])@,
            out.len() == it.index(),
            sorted_by_name(out.deep_view()),
            out.deep_view().to_multiset() == all.take(it.index() as int).to_multiset(),
    {
        let ghost before = out.deep_view();
        let mut pos: usize = 0;
        while pos < out.len() && le_text(out[pos].filename.as_str(), entry.filename.as_str())
            invariant
                pos <= out.len(),
                out.deep_view() == before,
                forall|k: int| 0 <= k < pos ==> text_le((#[trigger] before[k]).filename, entry@.filename),
            decreases out.len() - pos,
        {
            assert(before[pos as int] == out@[pos as int]@);
            pos += 1;
        }
        proof {
            if pos < out.len() {
                assert(before[pos as int] == out@[pos as int]@);
                assert(!text_le(before[pos as int].filename, entry@.filename));
                lemma_text_le_total(before[pos as int].filename, entry@.filename);
                assert forall|k: int| pos <= k < before.len() implies text_le(
                    entry@.filename,
                    (#[trigger] before[k]).filename,
                ) by {
                    if k > pos {
                        lemma_text_le_transitive(
                            entry@.filename,
                            before[pos as int].filename,
                            before[k].filename,
                        );
                    }
                }
            }
        }
        let ghost value = entry@;
        out.insert(pos, entry);
        proof {
            let after = out.deep_view();
            assert(after =~= before.insert(pos as int, value));
            to_multiset_insert(before, pos as int, value);
            let n = it.index() as int;
            assert(all.take(n + 1) =~= all.take(n).push(all[n]));
            vstd::seq_lib::to_multiset_build(all.take(n), all[n]);
            assert forall|i: int, j: int| 0 <= i < j < after.len() implies text_le(
                (#[trigger] after[i]).filename,
                (#[trigger] after[j]).filename,
            ) by {
                let i0 = if i < pos { i } else { i - 1 };
                let j0 = if j < pos { j } else { j - 1 };
                if i == pos {
                    assert(after[j] == before[j0]);
                } else if j == pos {
                    assert(after[i] == before[i0]);
                } else {
                    assert(after[i] == before[i0]);
                    assert(after[j] == before[j0]);
                }
            }
        }
    }
    assert(all.take(all.len() as int) =~= all);
    out
}

} // verus!
