//! Reading entries out of a mod archive.
//!
//! A mod archive is a ZIP file, held here as the bytes of the whole file.
//! The `zip` crate does the decoding; what it returns for given bytes is
//! named by the three functions below, and the lookup of an entry by its
//! path is stated over those names.

use vstd::prelude::*;
use crate::text::{chars_of, ends_with, has_suffix, same_text};

verus! {

/// The number of entries of the archive that `bytes` holds; `None` when
/// the bytes are no archive that can be read.
pub uninterp spec fn zip_entry_count(bytes: Seq<u8>) -> Option<nat>;

/// The name of the entry at `index`; `None` when the archive or the entry
/// cannot be opened.
pub uninterp spec fn zip_entry_name(bytes: Seq<u8>, index: nat) -> Option<Seq<char>>;

/// The content of the entry at `index` as text; `None` when the archive or
/// the entry cannot be opened or the content is not UTF-8.
pub uninterp spec fn zip_entry_text(bytes: Seq<u8>, index: nat) -> Option<Seq<char>>;

/// Counts the entries of an archive.
///
/// Wraps `zip::ZipArchive::new` on a cursor over the bytes, which reads
/// the central directory, and `ZipArchive::len`, the number of files in
/// it. A reading error gives `None`.
#[verifier::external_body]
fn entry_count(bytes: &[u8]) -> (r: Option<usize>)
    ensures
        match r {
            Some(n) => zip_entry_count(bytes@) == Some(n as nat),
            None => zip_entry_count(bytes@) is None,
        },
{
    match zip::ZipArchive::new(std::io::Cursor::new(bytes)) {
        Ok(archive) => Some(archive.len()),
        Err(_) => None,
    }
}

/// Reads the name of an entry.
///
/// Wraps `ZipArchive::by_index`, which opens the entry at an index or
/// fails, and `ZipFile::name`, the entry's name as stored. Any failure
/// gives `None`.
#[verifier::external_body]
fn entry_name(bytes: &[u8], index: usize) -> (r: Option<String>)
    ensures
        r.deep_view() == zip_entry_name(bytes@, index as nat),
{
    let mut archive = zip::ZipArchive::new(std::io::Cursor::new(bytes)).ok()?;
    let entry = archive.by_index(index).ok()?;
    Some(entry.name().to_string())
}

/// Reads the content of an entry as text.
///
/// Wraps `ZipArchive::by_index` and `Read::read_to_string` on the opened
/// entry, which decompresses the content and fails when it is not valid
/// UTF-8. Any failure gives `None`.
#[verifier::external_body]
pub(crate) fn entry_text(bytes: &[u8], index: usize) -> (r: Option<String>)
    ensures
        r.deep_view() == zip_entry_text(bytes@, index as nat),
{
    let mut archive = zip::ZipArchive::new(std::io::Cursor::new(bytes)).ok()?;
    let mut entry = archive.by_index(index).ok()?;
    let mut text = String::new();
    std::io::Read::read_to_string(&mut entry, &mut text).ok()?;
    Some(text)
}

/// A name with every backslash replaced by a slash.
pub open spec fn normalized(name: Seq<char>) -> Seq<char> {
    name.map_values(
        |c: char|
            if c == '\\' {
                '/'
            } else {
                c
            },
    )
}

/// An entry's name fits a wanted path when, with backslashes read as
/// slashes, it is that path or ends with a slash and that path.
pub open spec fn name_fits(name: Seq<char>, target: Seq<char>) -> bool {
    normalized(name) == target || has_suffix(normalized(name), seq!['/'] + target)
}

/// Reads backslashes as slashes.
pub fn normalize(name: &str) -> (norm: Vec<char>)
    ensures
        norm@ == normalized(name@),
{
    let raw = chars_of(name);
    let mut norm: Vec<char> = Vec::new();
    let mut i: usize = 0;
    while i < raw.len()
        invariant
            i <= raw.len(),
            raw@ == name@,
            norm@ == normalized(raw@.take(i as int)),
        decreases raw.len() - i,
    {
        let c = raw[i];
        norm.push(if c == '\\' {
            '/'
        } else {
            c
        });
        assert(norm@ =~= normalized(raw@.take(i + 1)));
        i += 1;
    }
    assert(raw@.take(raw.len() as int) =~= raw@);
    norm
}

/// Whether an entry's name fits a wanted path.
pub fn entry_matches(name: &str, target: &str) -> (b: bool)
    ensures
        b == name_fits(name@, target@),
{
    let norm = normalize(name);
    let wanted = chars_of(target);
    let mut tail: Vec<char> = Vec::new();
    tail.push('/');
    let mut k: usize = 0;
    while k < wanted.len()
        invariant
            k <= wanted.len(),
            tail@ == seq!['/'] + wanted@.take(k as int),
        decreases wanted.len() - k,
    {
        tail.push(wanted[k]);
        assert(tail@ =~= seq!['/'] + wanted@.take(k + 1));
        k += 1;
    }
    assert(wanted@.take(wanted.len() as int) =~= wanted@);
    same_text(norm.as_slice(), wanted.as_slice()) || ends_with(norm.as_slice(), tail.as_slice())
}

/// The entry at `index` is a hit for `target`: its name fits and its
/// content is text that is not empty.
pub open spec fn entry_hit(bytes: Seq<u8>, index: nat, target: Seq<char>) -> bool {
    &&& zip_entry_name(bytes, index) matches Some(name) && name_fits(name, target)
    &&& zip_entry_text(bytes, index) matches Some(text) && text.len() > 0
}

/// The index of the first hit for `target` among the first `n` entries.
pub open spec fn first_hit(bytes: Seq<u8>, target: Seq<char>, n: nat) -> Option<nat>
    decreases n,
{
    if n == 0 {
        None
    } else {
        match first_hit(bytes, target, (n - 1) as nat) {
            Some(i) => Some(i),
            None => if entry_hit(bytes, (n - 1) as nat, target) {
                Some((n - 1) as nat)
            } else {
                None
            },
        }
    }
}

/// The text of the entry that `target` names: the content of the first
/// entry, in the archive's order, whose name fits and whose content is
/// text that is not empty.
pub open spec fn archive_text(bytes: Seq<u8>, target: Seq<char>) -> Option<Seq<char>> {
    match zip_entry_count(bytes) {
        Some(n) => match first_hit(bytes, target, n) {
            Some(i) => zip_entry_text(bytes, i),
            None => None,
        },
        None => None,
    }
}

/// The names of the first `n` entries, in the archive's order; an entry
/// that cannot be opened has none.
pub open spec fn entry_names_upto(bytes: Seq<u8>, n: nat) -> Seq<Option<Seq<char>>>
    decreases n,
{
    if n == 0 {
        Seq::empty()
    } else {
        entry_names_upto(bytes, (n - 1) as nat).push(zip_entry_name(bytes, (n - 1) as nat))
    }
}

/// The names of the entries of an archive.
pub open spec fn archive_names(bytes: Seq<u8>) -> Option<Seq<Option<Seq<char>>>> {
    match zip_entry_count(bytes) {
        Some(n) => Some(entry_names_upto(bytes, n)),
        None => None,
    }
}

/// Lists the names of the entries of an archive.
pub fn list_entries(bytes: &[u8]) -> (r: Option<Vec<Option<String>>>)
    ensures
        r.deep_view() == archive_names(bytes@),
{
    let count = match entry_count(bytes) {
        Some(n) => n,
        None => {
            return None;
        },
    };
    let mut names: Vec<Option<String>> = Vec::new();
    assert(names.deep_view() =~= entry_names_upto(bytes@, 0));
    let mut i: usize = 0;
    while i < count
        invariant
            i <= count,
            zip_entry_count(bytes@) == Some(count as nat),
            names.deep_view() == entry_names_upto(bytes@, i as nat),
        decreases count - i,
    {
        let ghost before = names.deep_view();
        let name = entry_name(bytes, i);
        let ghost view = name.deep_view();
        names.push(name);
        assert(names.deep_view() =~= before.push(view));
        i += 1;
    }
    Some(names)
}

/// The bytes are an archive that can be read.
pub open spec fn is_archive(bytes: Seq<u8>) -> bool {
    zip_entry_count(bytes) is Some
}

/// Whether the bytes are an archive that can be read.
pub fn can_open(bytes: &[u8]) -> (b: bool)
    ensures
        b == is_archive(bytes@),
{
    entry_count(bytes).is_some()
}

/// Reads the entry of an archive that `target` names.
pub fn read_zip_entry(bytes: &[u8], target: &str) -> (r: Option<String>)
    ensures
        r.deep_view() == archive_text(bytes@, target@),
{
    let count = match entry_count(bytes) {
        Some(n) => n,
        None => {
            return None;
        },
    };
    let mut i: usize = 0;
    while i < count
        invariant
            i <= count,
            zip_entry_count(bytes@) == Some(count as nat),
            first_hit(bytes@, target@, i as nat) is None,
        decreases count - i,
    {
        let hit: Option<String> = match entry_name(bytes, i) {
            Some(name) => if entry_matches(name.as_str(), target) {
                match entry_text(bytes, i) {
                    Some(text) => if text.as_str().unicode_len() > 0 {
                        Some(text)
                    } else {
                        None
                    },
                    None => None,
                }
            } else {
                None
            },
            None => None,
        };
        if let Some(text) = hit {
            proof {
                lemma_first_hit_stays(bytes@, target@, (i + 1) as nat, count as nat);
            }
            return Some(text);
        }
        i += 1;
    }
    None
}

/// A first hit among the first `n` entries is the first hit among any
/// larger number of entries.
pub proof fn lemma_first_hit_stays(bytes: Seq<u8>, target: Seq<char>, n: nat, m: nat)
    requires
        n <= m,
        first_hit(bytes, target, n) is Some,
    ensures
        first_hit(bytes, target, m) == first_hit(bytes, target, n),
    decreases m - n,
{
    if n < m {
        lemma_first_hit_stays(bytes, target, n, (m - 1) as nat);
    }
}

} // verus!
