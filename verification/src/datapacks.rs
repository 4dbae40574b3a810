//! Datapacks attached to a world: reading the record of one out of its
//! archive, the game version its format stands for, and what its file
//! name tells.

use vstd::prelude::*;
use vstd::string::*;
use crate::archive::{
    archive_names, entry_text, list_entries, normalize, normalized, zip_entry_text,
};
use crate::json::{
    element, element_pointer, json_kind, json_kind_at, json_len, json_len_at, json_number,
    json_string, json_string_at, json_u64_at, JsonKind,
};
use crate::text::{
    chars_of, contains_char, contains_text, ends_with, find_text, first_occurrence, has_prefix,
    has_suffix, is_digit, last_index_of, list_contains, lowercase_of, lowered_overlap, occurs_at,
    rfind_char, same_text, slice_to_vec, starts_with, string_of, texts_overlap,
    to_lowercase, trim_bounds, trimmed,
};

verus! {

/// A datapack found in a world.
#[derive(Debug, PartialEq, Eq)]
pub struct DatapackInfo {
    pub key: String,
    pub name: String,
    pub detected_project_id: Option<String>,
    pub confirmed_project_id: Option<String>,
    pub pack_format: Option<u32>,
    pub supported_formats: Option<(u32, u32)>,
    pub mc_version: Option<String>,
    pub version_local: Option<String>,
    pub version_remote: Option<String>,
    pub selected: bool,
    pub file_size_bytes: Option<u64>,
    pub file_mtime_secs: Option<u64>,
}

/// A datapack to read: its file and the world it belongs to.
#[derive(Debug, PartialEq, Eq)]
pub struct DatapackReadJob {
    pub file_path: String,
    pub world_name: String,
}

/// How the reading of a datapack ended.
#[derive(Debug, PartialEq, Eq)]
pub enum DatapackReadEvent {
    Done { world_name: String, info: DatapackInfo },
    Error { world_name: String, path: String, msg: String },
}

/// The formats a datapack says it supports: a range, a list or one format.
#[derive(Debug, PartialEq, Eq)]
pub enum SupportedFormats {
    Range { min_inclusive: u32, max_inclusive: u32 },
    Array(Vec<u32>),
    Single(u32),
}

/// The least element of a list of numbers that is at most `bound`, or
/// `bound`.
pub open spec fn least(s: Seq<u32>, bound: u32) -> u32
    decreases s.len(),
{
    if s.len() == 0 {
        bound
    } else {
        let rest = least(s.drop_last(), bound);
        if s.last() < rest {
            s.last()
        } else {
            rest
        }
    }
}

/// The greatest element of a list of numbers that is at least `bound`, or
/// `bound`.
pub open spec fn greatest(s: Seq<u32>, bound: u32) -> u32
    decreases s.len(),
{
    if s.len() == 0 {
        bound
    } else {
        let rest = greatest(s.drop_last(), bound);
        if s.last() > rest {
            s.last()
        } else {
            rest
        }
    }
}

/// The least and the greatest number of a list; both are zero for an
/// empty list.
pub open spec fn range_of_list(list: Seq<u32>) -> (u32, u32) {
    if list.len() == 0 {
        (0u32, 0u32)
    } else {
        (least(list, u32::MAX), greatest(list, 0u32))
    }
}

/// The least and the greatest of the supported formats.
pub open spec fn format_range(f: SupportedFormats) -> (u32, u32) {
    match f {
        SupportedFormats::Range { min_inclusive, max_inclusive } => (min_inclusive, max_inclusive),
        SupportedFormats::Array(list) => range_of_list(list@),
        SupportedFormats::Single(v) => (v, v),
    }
}

impl SupportedFormats {
    /// The supported formats as a range.
    pub fn as_range(&self) -> (r: (u32, u32))
        ensures
            r == format_range(*self),
    {
        match self {
            SupportedFormats::Range { min_inclusive, max_inclusive } => (
                *min_inclusive,
                *max_inclusive,
            ),
            SupportedFormats::Array(list) => {
                if list.len() == 0 {
                    return (0, 0);
                }
                let mut lo: u32 = u32::MAX;
                let mut hi: u32 = 0;
                let mut i: usize = 0;
                while i < list.len()
                    invariant
                        i <= list.len(),
                        lo == least(list@.take(i as int), u32::MAX),
                        hi == greatest(list@.take(i as int), 0u32),
                    decreases list.len() - i,
                {
                    assert(list@.take(i + 1).drop_last() =~= list@.take(i as int));
                    if list[i] < lo {
                        lo = list[i];
                    }
                    if list[i] > hi {
                        hi = list[i];
                    }
                    i += 1;
                }
                assert(list@.take(list.len() as int) =~= list@);
                (lo, hi)
            },
            SupportedFormats::Single(v) => (*v, *v),
        }
    }
}

/// The game release that a datapack format belongs to. Formats of
/// snapshots belong to none.
pub open spec fn release_of_format(format: u32) -> Option<Seq<char>> {
    if format == 4 {
        Some("1.13"@)
    } else if format == 5 {
        Some("1.15"@)
    } else if format == 6 {
        Some("1.16.5"@)
    } else if format == 7 {
        Some("1.17.1"@)
    } else if format == 8 {
        Some("1.18.1"@)
    } else if format == 9 {
        Some("1.18.2"@)
    } else if format == 10 {
        Some("1.19"@)
    } else if format == 12 {
        Some("1.19.4"@)
    } else if format == 15 {
        Some("1.20.1"@)
    } else if format == 18 {
        Some("1.20.2"@)
    } else if format == 26 {
        Some("1.20.4"@)
    } else if format == 41 {
        Some("1.20.6"@)
    } else if format == 48 {
        Some("1.21.1"@)
    } else if format == 57 {
        Some("1.21.3"@)
    } else if format == 61 {
        Some("1.21.4"@)
    } else {
        None
    }
}

/// Tells the game release that a datapack format belongs to.
pub fn pack_format_to_mc(format: u32) -> (r: Option<&'static str>)
    ensures
        match r {
            Some(s) => release_of_format(format) == Some(s@),
            None => release_of_format(format) is None,
        },
{
    match format {
        4 => Some("1.13"),
        5 => Some("1.15"),
        6 => Some("1.16.5"),
        7 => Some("1.17.1"),
        8 => Some("1.18.1"),
        9 => Some("1.18.2"),
        10 => Some("1.19"),
        12 => Some("1.19.4"),
        15 => Some("1.20.1"),
        18 => Some("1.20.2"),
        26 => Some("1.20.4"),
        41 => Some("1.20.6"),
        48 => Some("1.21.1"),
        57 => Some("1.21.3"),
        61 => Some("1.21.4"),
        _ => None,
    }
}

/// A file name without the extension `.zip`.
pub open spec fn without_zip(filename: Seq<char>) -> Seq<char> {
    if has_suffix(filename, ".zip"@) {
        filename.take(filename.len() - 4)
    } else {
        filename
    }
}

/// Takes the extension `.zip` off a file name.
pub fn strip_zip(filename: &[char]) -> (name: Vec<char>)
    ensures
        name@ == without_zip(filename@),
{
    let zip = chars_of(".zip");
    proof {
        reveal_strlit(".zip");
    }
    if ends_with(filename, zip.as_slice()) {
        let name = slice_to_vec(filename, 0, filename.len() - 4);
        assert(name@ =~= filename@.take(filename.len() - 4));
        name
    } else {
        let name = slice_to_vec(filename, 0, filename.len());
        assert(name@ =~= filename@);
        name
    }
}

/// The index at which `pat` occurs first in `s`.
pub open spec fn index_of(s: Seq<char>, pat: Seq<char>) -> Option<int> {
    if contains_text(s, pat) {
        Some(choose|i: int| first_occurrence(s, pat, i))
    } else {
        None
    }
}

/// A text that occurs has one first occurrence.
pub proof fn lemma_index_of(s: Seq<char>, pat: Seq<char>, i: int)
    requires
        first_occurrence(s, pat, i),
    ensures
        index_of(s, pat) == Some(i),
{
    assert(occurs_at(s, pat, i));
    let j = choose|j: int| first_occurrence(s, pat, j);
    if j < i {
        assert(!occurs_at(s, pat, j));
    } else if i < j {
        assert(!occurs_at(s, pat, i));
    }
}

/// What follows the first occurrence of a version mark, if it starts with
/// a digit.
pub open spec fn after_mark(name: Seq<char>, mark: Seq<char>) -> Option<Seq<char>> {
    match index_of(name, mark) {
        Some(pos) => {
            let rest = name.skip(pos + mark.len());
            if rest.len() > 0 && is_digit(rest[0]) {
                Some(rest)
            } else {
                None
            }
        },
        None => None,
    }
}

/// What follows the last occurrence of a separator, if it starts with a
/// digit and holds a dot.
pub open spec fn after_separator(name: Seq<char>, sep: char) -> Option<Seq<char>> {
    match last_index_of(name, sep) {
        Some(pos) => {
            let rest = name.skip(pos + 1);
            if rest.len() > 0 && is_digit(rest[0]) && rest.contains('.') {
                Some(rest)
            } else {
                None
            }
        },
        None => None,
    }
}

/// `first` if it is there, else `second`.
pub open spec fn or<T>(first: Option<T>, second: Option<T>) -> Option<T> {
    match first {
        Some(_) => first,
        None => second,
    }
}

/// The version that a datapack's file name tells: what follows a `v` or
/// `V` after a space, an underscore or a hyphen; failing that, what
/// follows the last hyphen, or else the last underscore, when it looks
/// like a version.
pub open spec fn version_in_name(filename: Seq<char>) -> Option<Seq<char>> {
    let name = without_zip(filename);
    or(
        after_mark(name, " v"@),
        or(
            after_mark(name, "_v"@),
            or(
                after_mark(name, "-v"@),
                or(
                    after_mark(name, " V"@),
                    or(
                        after_mark(name, "_V"@),
                        or(
                            after_mark(name, "-V"@),
                            or(after_separator(name, '-'), after_separator(name, '_')),
                        ),
                    ),
                ),
            ),
        ),
    )
}

/// Looks for what follows a version mark.
pub fn find_after_mark(name: &[char], mark: &str) -> (r: Option<String>)
    ensures
        r.deep_view() == after_mark(name@, mark@),
{
    let m = chars_of(mark);
    match find_text(name, m.as_slice()) {
        Some(pos) => {
            proof {
                lemma_index_of(name@, m@, pos as int);
            }
            assert(occurs_at(name@, m@, pos as int));
            let total = name.len();
            assert(pos + m.len() <= total);
            let start = pos + m.len();
            let rest = slice_to_vec(name, start, name.len());
            assert(rest@ =~= name@.skip(pos + m.len()));
            if rest.len() > 0 && '0' <= rest[0] && rest[0] <= '9' {
                Some(string_of(rest.as_slice()))
            } else {
                None
            }
        },
        None => None,
    }
}

/// Looks for what follows the last separator.
pub fn find_after_separator(name: &[char], sep: char) -> (r: Option<String>)
    ensures
        r.deep_view() == after_separator(name@, sep),
{
    match rfind_char(name, sep) {
        Some(pos) => {
            let rest = slice_to_vec(name, pos + 1, name.len());
            assert(rest@ =~= name@.skip(pos + 1));
            if rest.len() > 0 && '0' <= rest[0] && rest[0] <= '9' && contains_char(
                rest.as_slice(),
                '.',
            ) {
                Some(string_of(rest.as_slice()))
            } else {
                None
            }
        },
        None => None,
    }
}

/// Reads the version out of a datapack's file name.
pub fn extract_version_from_filename(filename: &str) -> (r: Option<String>)
    ensures
        r.deep_view() == version_in_name(filename@),
{
    let raw = chars_of(filename);
    let name = strip_zip(raw.as_slice());
    let n = name.as_slice();
    if let Some(v) = find_after_mark(n, " v") {
        return Some(v);
    }
    if let Some(v) = find_after_mark(n, "_v") {
        return Some(v);
    }
    if let Some(v) = find_after_mark(n, "-v") {
        return Some(v);
    }
    if let Some(v) = find_after_mark(n, " V") {
        return Some(v);
    }
    if let Some(v) = find_after_mark(n, "_V") {
        return Some(v);
    }
    if let Some(v) = find_after_mark(n, "-V") {
        return Some(v);
    }
    if let Some(v) = find_after_separator(n, '-') {
        return Some(v);
    }
    find_after_separator(n, '_')
}

/// The name ends before index `i`: there stands a space, an underscore or
/// a hyphen, followed by a digit or a `v`, and what stands before it is
/// not blank.
pub open spec fn name_ends_at(name: Seq<char>, i: int) -> bool {
    &&& 0 <= i
    &&& i + 1 < name.len()
    &&& (name[i] == '_' || name[i] == '-' || name[i] == ' ')
    &&& (is_digit(name[i + 1]) || name[i + 1] == 'v' || name[i + 1] == 'V')
    &&& trimmed(name.take(i)).len() > 0
}

/// The first index from `from` on at which the name ends.
pub open spec fn name_end(name: Seq<char>, from: int) -> Option<int>
    decreases name.len() - from,
{
    if from < 0 || from >= name.len() {
        None
    } else if name_ends_at(name, from) {
        Some(from)
    } else {
        name_end(name, from + 1)
    }
}

/// The name that a datapack's file name tells: what stands before the
/// first separator that is followed by a version, without white space
/// around it; the whole name, without its extension, when there is no
/// such separator.
pub open spec fn name_in_filename(filename: Seq<char>) -> Seq<char> {
    let name = without_zip(filename);
    match name_end(name, 0) {
        Some(i) => trimmed(name.take(i)),
        None => name,
    }
}

/// Reads a name fit for showing out of a datapack's file name.
pub fn clean_name_from_filename(filename: &str) -> (r: String)
    ensures
        r@ == name_in_filename(filename@),
{
    let raw = chars_of(filename);
    let name = strip_zip(raw.as_slice());
    let mut i: usize = 0;
    while i < name.len()
        invariant
            i <= name.len(),
            name@ == without_zip(filename@),
            name_end(name@, 0) == name_end(name@, i as int),
        decreases name.len() - i,
    {
        let c = name[i];
        if (c == '_' || c == '-' || c == ' ') && i + 1 < name.len() {
            let next = name[i + 1];
            if ('0' <= next && next <= '9') || next == 'v' || next == 'V' {
                let head = slice_to_vec(name.as_slice(), 0, i);
                assert(head@ =~= name@.take(i as int));
                let (start, end) = trim_bounds(head.as_slice());
                if start < end {
                    let core = slice_to_vec(head.as_slice(), start, end);
                    assert(core@ == trimmed(name@.take(i as int)));
                    assert(name_ends_at(name@, i as int));
                    return string_of(core.as_slice());
                }
                assert(trimmed(name@.take(i as int)).len() == 0);
            }
        }
        i += 1;
    }
    string_of(name.as_slice())
}

/// Mathematical value of a [`DatapackInfo`].
pub ghost struct DatapackView {
    pub key: Seq<char>,
    pub name: Seq<char>,
    pub detected_project_id: Option<Seq<char>>,
    pub confirmed_project_id: Option<Seq<char>>,
    pub pack_format: Option<u32>,
    pub supported_formats: Option<(u32, u32)>,
    pub mc_version: Option<Seq<char>>,
    pub version_local: Option<Seq<char>>,
    pub version_remote: Option<Seq<char>>,
    pub selected: bool,
    pub file_size_bytes: Option<u64>,
    pub file_mtime_secs: Option<u64>,
}

impl View for DatapackInfo {
    type V = DatapackView;

    open spec fn view(&self) -> DatapackView {
        DatapackView {
            key: self.key@,
            name: self.name@,
            detected_project_id: self.detected_project_id.deep_view(),
            confirmed_project_id: self.confirmed_project_id.deep_view(),
            pack_format: self.pack_format,
            supported_formats: self.supported_formats,
            mc_version: self.mc_version.deep_view(),
            version_local: self.version_local.deep_view(),
            version_remote: self.version_remote.deep_view(),
            selected: self.selected,
            file_size_bytes: self.file_size_bytes,
            file_mtime_secs: self.file_mtime_secs,
        }
    }
}

/// The namespace that an entry of a datapack belongs to: for an entry
/// below `data/`, the name of the directory it lies in there, unless that
/// is the game's own. Backslashes are read as slashes.
pub open spec fn namespace_in(name: Seq<char>) -> Option<Seq<char>> {
    let n = normalized(name);
    if has_prefix(n, "data/"@) {
        let rest = n.skip(5);
        let ns = match index_of(rest, "/"@) {
            Some(i) => rest.take(i),
            None => rest,
        };
        if ns.len() > 0 && ns != "minecraft"@ {
            Some(ns)
        } else {
            None
        }
    } else {
        None
    }
}

/// Tells the namespace that an entry of a datapack belongs to.
pub fn entry_namespace(name: &str) -> (r: Option<String>)
    ensures
        r.deep_view() == namespace_in(name@),
{
    let n = normalize(name);
    let prefix = chars_of("data/");
    let slash = chars_of("/");
    proof {
        reveal_strlit("data/");
        reveal_strlit("/");
    }
    if !starts_with(n.as_slice(), prefix.as_slice()) {
        return None;
    }
    let rest = slice_to_vec(n.as_slice(), 5, n.len());
    assert(rest@ =~= n@.skip(5));
    let ns = match find_text(rest.as_slice(), slash.as_slice()) {
        Some(i) => {
            proof {
                lemma_index_of(rest@, slash@, i as int);
                assert(occurs_at(rest@, slash@, i as int));
            }
            let head = slice_to_vec(rest.as_slice(), 0, i);
            assert(head@ =~= rest@.take(i as int));
            head
        },
        None => rest,
    };
    let own = chars_of("minecraft");
    if ns.len() > 0 && !same_text(ns.as_slice(), own.as_slice()) {
        Some(string_of(ns.as_slice()))
    } else {
        None
    }
}

/// The namespaces of a datapack, each once, in the order in which the
/// entries bring them up.
pub open spec fn namespaces_of(names: Seq<Option<Seq<char>>>) -> Seq<Seq<char>>
    decreases names.len(),
{
    if names.len() == 0 {
        Seq::empty()
    } else {
        let rest = namespaces_of(names.drop_last());
        match names.last() {
            Some(name) => match namespace_in(name) {
                Some(ns) => if rest.contains(ns) {
                    rest
                } else {
                    rest.push(ns)
                },
                None => rest,
            },
            None => rest,
        }
    }
}

/// Collects the namespaces of a datapack from the names of its entries.
pub fn collect_namespaces(names: &Vec<Option<String>>) -> (r: Vec<String>)
    ensures
        r.deep_view() == namespaces_of(names.deep_view()),
{
    let mut found: Vec<String> = Vec::new();
    assert(found.deep_view() =~= Seq::<Seq<char>>::empty());
    let mut i: usize = 0;
    while i < names.len()
        invariant
            i <= names.len(),
            found.deep_view() == namespaces_of(names.deep_view().take(i as int)),
        decreases names.len() - i,
    {
        assert(names.deep_view().take(i + 1).drop_last() =~= names.deep_view().take(i as int));
        assert(names.deep_view().take(i + 1).last() == names@[i as int].deep_view());
        if let Some(name) = &names[i] {
            if let Some(ns) = entry_namespace(name.as_str()) {
                if !list_contains(&found, ns.as_str()) {
                    let ghost before = found.deep_view();
                    let ghost text = ns@;
                    found.push(ns);
                    assert(found.deep_view() =~= before.push(text));
                }
            }
        }
        i += 1;
    }
    assert(names.deep_view().take(names.len() as int) =~= names.deep_view());
    found
}

/// The first of the namespaces that, in lower case, contains the name or
/// is contained in it.
pub open spec fn fitting_namespace(namespaces: Seq<Seq<char>>, lowered_name: Seq<char>) -> Option<
    Seq<char>,
>
    decreases namespaces.len(),
{
    if namespaces.len() == 0 {
        None
    } else {
        match fitting_namespace(namespaces.drop_last(), lowered_name) {
            Some(ns) => Some(ns),
            None => if lowered_overlap(lowered_name, lowercase_of(namespaces.last())) {
                Some(namespaces.last())
            } else {
                None
            },
        }
    }
}

/// A namespace found among the first namespaces is the one found among
/// all.
pub proof fn lemma_fitting_stays(namespaces: Seq<Seq<char>>, lowered_name: Seq<char>, n: int)
    requires
        0 <= n <= namespaces.len(),
        fitting_namespace(namespaces.take(n), lowered_name) is Some,
    ensures
        fitting_namespace(namespaces, lowered_name) == fitting_namespace(
            namespaces.take(n),
            lowered_name,
        ),
    decreases namespaces.len() - n,
{
    if n < namespaces.len() {
        assert(namespaces.take(n + 1).drop_last() =~= namespaces.take(n));
        lemma_fitting_stays(namespaces, lowered_name, n + 1);
    } else {
        assert(namespaces.take(n) =~= namespaces);
    }
}

/// The id under which a datapack is looked for: the id its description
/// gives; else its only namespace; else, of several namespaces, the first
/// that fits the name in its file name, or the first of all when none
/// fits.
pub open spec fn detected_id(
    id_from_meta: Option<Seq<char>>,
    namespaces: Seq<Seq<char>>,
    filename: Seq<char>,
) -> Option<Seq<char>> {
    match id_from_meta {
        Some(id) => Some(id),
        None => if namespaces.len() == 0 {
            None
        } else if namespaces.len() == 1 {
            Some(namespaces[0])
        } else {
            match fitting_namespace(namespaces, lowercase_of(name_in_filename(filename))) {
                Some(ns) => Some(ns),
                None => Some(namespaces[0]),
            }
        },
    }
}

/// Picks the first namespace that fits a name, both compared in lower
/// case. `lowered_name` has to be in lower case already.
pub fn pick_namespace(namespaces: &Vec<String>, lowered_name: &str) -> (r: Option<String>)
    ensures
        r.deep_view() == fitting_namespace(namespaces.deep_view(), lowered_name@),
{
    let mut i: usize = 0;
    while i < namespaces.len()
        invariant
            i <= namespaces.len(),
            fitting_namespace(namespaces.deep_view().take(i as int), lowered_name@) is None,
        decreases namespaces.len() - i,
    {
        let ghost shorter = namespaces.deep_view().take(i + 1);
        assert(shorter.drop_last() =~= namespaces.deep_view().take(i as int));
        assert(shorter.last() == namespaces@[i as int]@);
        let lowered = to_lowercase(namespaces[i].as_str());
        if texts_overlap(lowered_name, lowered.as_str()) {
            proof {
                assert(fitting_namespace(shorter, lowered_name@) == Some(namespaces@[i as int]@));
                lemma_fitting_stays(namespaces.deep_view(), lowered_name@, i + 1);
            }
            return Some(namespaces[i].clone());
        }
        i += 1;
    }
    assert(namespaces.deep_view().take(namespaces.len() as int) =~= namespaces.deep_view());
    None
}

/// Chooses the id under which a datapack is looked for.
pub fn detect_project_id(id_from_meta: Option<String>, namespaces: &Vec<String>, filename: &str) -> (r:
    Option<String>)
    ensures
        r.deep_view() == detected_id(id_from_meta.deep_view(), namespaces.deep_view(), filename@),
{
    match id_from_meta {
        Some(id) => Some(id),
        None => {
            if namespaces.len() == 0 {
                None
            } else if namespaces.len() == 1 {
                assert(namespaces.deep_view()[0] == namespaces@[0]@);
                Some(namespaces[0].clone())
            } else {
                let clean = clean_name_from_filename(filename);
                let lowered = to_lowercase(clean.as_str());
                match pick_namespace(namespaces, lowered.as_str()) {
                    Some(ns) => Some(ns),
                    None => {
                        assert(namespaces.deep_view()[0] == namespaces@[0]@);
                        Some(namespaces[0].clone())
                    },
                }
            }
        },
    }
}

/// Why a datapack gave no record.
#[derive(Debug, Clone, Copy, PartialEq, Eq, Structural)]
pub enum DatapackError {
    /// The file is no ZIP archive that can be read.
    NotAnArchive,
    /// The archive holds no `pack.mcmeta` that can be read.
    NoPackMeta,
    /// The `pack.mcmeta` is not what it has to be.
    BadPackMeta,
}

impl DatapackError {
    /// The error in words.
    pub fn message(&self) -> (s: String)
        ensures
            s@ == match self {
                DatapackError::NotAnArchive => "not a valid ZIP archive"@,
                DatapackError::NoPackMeta => "pack.mcmeta not found"@,
                DatapackError::BadPackMeta => "could not parse pack.mcmeta"@,
            },
    {
        match self {
            DatapackError::NotAnArchive => String::from_str("not a valid ZIP archive"),
            DatapackError::NoPackMeta => String::from_str("pack.mcmeta not found"),
            DatapackError::BadPackMeta => String::from_str("could not parse pack.mcmeta"),
        }
    }
}

/// The entry at `index` holds the pack's description: it is named
/// `pack.mcmeta`, at the root, and its content is text.
pub open spec fn is_pack_meta(bytes: Seq<u8>, names: Seq<Option<Seq<char>>>, index: int) -> bool {
    &&& names[index] matches Some(name) && normalized(name) == "pack.mcmeta"@
    &&& zip_entry_text(bytes, index as nat) is Some
}

/// The index of the first of the first `n` entries that holds the pack's
/// description.
pub open spec fn pack_meta_index(bytes: Seq<u8>, names: Seq<Option<Seq<char>>>, n: int) -> Option<int>
    decreases n,
{
    if n <= 0 {
        None
    } else {
        match pack_meta_index(bytes, names, n - 1) {
            Some(i) => Some(i),
            None => if is_pack_meta(bytes, names, n - 1) {
                Some(n - 1)
            } else {
                None
            },
        }
    }
}

/// A description found among the first entries is the one found among
/// all.
pub proof fn lemma_pack_meta_stays(bytes: Seq<u8>, names: Seq<Option<Seq<char>>>, n: int, m: int)
    requires
        0 <= n <= m,
        pack_meta_index(bytes, names, n) is Some,
    ensures
        pack_meta_index(bytes, names, m) == pack_meta_index(bytes, names, n),
    decreases m - n,
{
    if n < m {
        lemma_pack_meta_stays(bytes, names, n, m - 1);
    }
}

/// The text of the pack's description; `None` when there is none or it is
/// empty.
pub open spec fn pack_meta_text(bytes: Seq<u8>, names: Seq<Option<Seq<char>>>) -> Option<Seq<char>> {
    match pack_meta_index(bytes, names, names.len() as int) {
        Some(i) => match zip_entry_text(bytes, i as nat) {
            Some(text) => if text.len() > 0 {
                Some(text)
            } else {
                None
            },
            None => None,
        },
        None => None,
    }
}

/// Reads the pack's description out of an archive whose entries are
/// `names`.
pub fn read_pack_meta(bytes: &[u8], names: &Vec<Option<String>>) -> (r: Option<String>)
    ensures
        r.deep_view() == pack_meta_text(bytes@, names.deep_view()),
{
    let wanted = chars_of("pack.mcmeta");
    let mut i: usize = 0;
    while i < names.len()
        invariant
            i <= names.len(),
            wanted@ == "pack.mcmeta"@,
            pack_meta_index(bytes@, names.deep_view(), i as int) is None,
        decreases names.len() - i,
    {
        assert(names.deep_view()[i as int] == names@[i as int].deep_view());
        if let Some(name) = &names[i] {
            let n = normalize(name.as_str());
            if same_text(n.as_slice(), wanted.as_slice()) {
                if let Some(text) = entry_text(bytes, i) {
                    proof {
                        assert(is_pack_meta(bytes@, names.deep_view(), i as int));
                        assert(pack_meta_index(bytes@, names.deep_view(), i + 1) == Some(i as int));
                        lemma_pack_meta_stays(
                            bytes@,
                            names.deep_view(),
                            i + 1,
                            names.len() as int,
                        );
                    }
                    if text.as_str().unicode_len() > 0 {
                        return Some(text);
                    } else {
                        return None;
                    }
                }
            }
        }
        i += 1;
    }
    None
}

/// The number that `pointer` leads to, when it fits in 32 bits.
pub open spec fn number_u32(doc: Seq<char>, pointer: Seq<char>) -> Option<u32> {
    match json_number(doc, pointer) {
        Some(n) => if n <= u32::MAX {
            Some(n as u32)
        } else {
            None
        },
        None => None,
    }
}

/// Reads a number that fits in 32 bits.
pub fn read_u32(doc: &str, pointer: &str) -> (r: Option<u32>)
    ensures
        r == number_u32(doc@, pointer@),
{
    match json_u64_at(doc, pointer) {
        Some(n) => if n <= u32::MAX as u64 {
            Some(n as u32)
        } else {
            None
        },
        None => None,
    }
}

/// The first `n` elements of the list that `pointer` leads to, when each
/// is a number that fits in 32 bits.
pub open spec fn list_numbers(doc: Seq<char>, pointer: Seq<char>, n: nat) -> Option<Seq<u32>>
    decreases n,
{
    if n == 0 {
        Some(Seq::empty())
    } else {
        match (
            list_numbers(doc, pointer, (n - 1) as nat),
            number_u32(doc, element(pointer, (n - 1) as nat)),
        ) {
            (Some(rest), Some(v)) => Some(rest.push(v)),
            _ => None,
        }
    }
}

/// More elements do not mend a list that holds something else than
/// numbers.
pub proof fn lemma_list_numbers_fail(doc: Seq<char>, pointer: Seq<char>, n: nat, m: nat)
    requires
        n <= m,
        list_numbers(doc, pointer, n) is None,
    ensures
        list_numbers(doc, pointer, m) is None,
    decreases m - n,
{
    if n < m {
        lemma_list_numbers_fail(doc, pointer, n, (m - 1) as nat);
    }
}

/// The pointer to the formats that a pack says it supports.
pub open spec fn supported_pointer() -> Seq<char> {
    "/pack/supported_formats"@
}

/// The range of formats that a pack says it supports: none when it says
/// nothing; else the range it gives as an object, as a list or as a single
/// number. The outer `None` says that the field holds something else.
pub open spec fn supported_range(doc: Seq<char>) -> Option<Option<(u32, u32)>> {
    let p = supported_pointer();
    match json_kind(doc, p) {
        JsonKind::Missing | JsonKind::Null => Some(None),
        JsonKind::Table => match (
            number_u32(doc, "/pack/supported_formats/min_inclusive"@),
            number_u32(doc, "/pack/supported_formats/max_inclusive"@),
        ) {
            (Some(lo), Some(hi)) => Some(Some((lo, hi))),
            _ => None,
        },
        JsonKind::List => match json_len(doc, p) {
            Some(n) => match list_numbers(doc, p, n) {
                Some(list) => Some(Some(range_of_list(list))),
                None => None,
            },
            None => None,
        },
        JsonKind::Number => match number_u32(doc, p) {
            Some(v) => Some(Some((v, v))),
            None => None,
        },
        _ => None,
    }
}

/// Reads the formats that a pack says it supports.
pub fn read_supported_formats(doc: &str) -> (r: Option<Option<SupportedFormats>>)
    ensures
        match r {
            Some(Some(f)) => supported_range(doc@) == Some(Some(format_range(f))),
            Some(None) => supported_range(doc@) == Some(None::<(u32, u32)>),
            None => supported_range(doc@) is None,
        },
{
    let p = "/pack/supported_formats";
    match json_kind_at(doc, p) {
        JsonKind::Missing | JsonKind::Null => Some(None),
        JsonKind::Table => {
            let lo = read_u32(doc, "/pack/supported_formats/min_inclusive");
            let hi = read_u32(doc, "/pack/supported_formats/max_inclusive");
            match (lo, hi) {
                (Some(lo), Some(hi)) => Some(
                    Some(SupportedFormats::Range { min_inclusive: lo, max_inclusive: hi }),
                ),
                _ => None,
            }
        },
        JsonKind::List => match json_len_at(doc, p) {
            Some(n) => {
                let mut list: Vec<u32> = Vec::new();
                let mut i: usize = 0;
                while i < n
                    invariant
                        i <= n,
                        p@ == supported_pointer(),
                        json_kind(doc@, p@) == JsonKind::List,
                        json_len(doc@, p@) == Some(n as nat),
                        list_numbers(doc@, p@, i as nat) == Some(list@),
                    decreases n - i,
                {
                    let e = element_pointer(p, i);
                    match read_u32(doc, e.as_str()) {
                        Some(v) => {
                            list.push(v);
                        },
                        None => {
                            proof {
                                lemma_list_numbers_fail(doc@, p@, (i + 1) as nat, n as nat);
                            }
                            return None;
                        },
                    }
                    i += 1;
                }
                Some(Some(SupportedFormats::Array(list)))
            },
            None => None,
        },
        JsonKind::Number => match read_u32(doc, p) {
            Some(v) => Some(Some(SupportedFormats::Single(v))),
            None => None,
        },
        _ => None,
    }
}

/// The record of a datapack of which only the file name is known.
pub open spec fn minimal_datapack(filename: Seq<char>) -> DatapackView {
    DatapackView {
        key: filename,
        name: name_in_filename(filename),
        detected_project_id: None,
        confirmed_project_id: None,
        pack_format: None,
        supported_formats: None,
        mc_version: None,
        version_local: None,
        version_remote: None,
        selected: true,
        file_size_bytes: None,
        file_mtime_secs: None,
    }
}

/// Builds the record of a datapack of which only the file name is known.
pub fn minimal_info(filename: &str) -> (r: DatapackInfo)
    ensures
        r@ == minimal_datapack(filename@),
{
    DatapackInfo {
        key: filename.to_owned(),
        name: clean_name_from_filename(filename),
        detected_project_id: None,
        confirmed_project_id: None,
        pack_format: None,
        supported_formats: None,
        mc_version: None,
        version_local: None,
        version_remote: None,
        selected: true,
        file_size_bytes: None,
        file_mtime_secs: None,
    }
}

/// The record that the description `doc` gives for the datapack
/// `filename`, whose entries are `names`: the description has to give the
/// pack's format as a number.
pub open spec fn described_datapack(
    doc: Seq<char>,
    names: Seq<Option<Seq<char>>>,
    filename: Seq<char>,
) -> Option<DatapackView> {
    match (number_u32(doc, "/pack/pack_format"@), supported_range(doc)) {
        (Some(format), Some(supported)) => Some(
            DatapackView {
                detected_project_id: detected_id(
                    json_string(doc, "/pack/id"@),
                    namespaces_of(names),
                    filename,
                ),
                pack_format: Some(format),
                supported_formats: supported,
                mc_version: release_of_format(format),
                version_local: version_in_name(filename),
                ..minimal_datapack(filename)
            },
        ),
        _ => None,
    }
}

/// What reading the datapack `bytes` under the file name `filename`
/// gives.
pub open spec fn single_datapack(bytes: Seq<u8>, filename: Seq<char>) -> Result<
    DatapackView,
    DatapackError,
> {
    match archive_names(bytes) {
        Some(names) => match pack_meta_text(bytes, names) {
            Some(doc) => match described_datapack(doc, names, filename) {
                Some(info) => Ok(info),
                None => Err(DatapackError::BadPackMeta),
            },
            None => Err(DatapackError::NoPackMeta),
        },
        None => Err(DatapackError::NotAnArchive),
    }
}

/// Reads the record of one datapack, given the bytes of the file and its
/// file name.
pub fn read_single_datapack(bytes: &[u8], filename: &str) -> (r: Result<DatapackInfo, DatapackError>)
    ensures
        match r {
            Ok(info) => single_datapack(bytes@, filename@) == Ok::<DatapackView, DatapackError>(
                info@,
            ),
            Err(e) => single_datapack(bytes@, filename@) == Err::<DatapackView, DatapackError>(e),
        },
{
    let names = match list_entries(bytes) {
        Some(names) => names,
        None => {
            return Err(DatapackError::NotAnArchive);
        },
    };
    let doc = match read_pack_meta(bytes, &names) {
        Some(doc) => doc,
        None => {
            return Err(DatapackError::NoPackMeta);
        },
    };
    let format = read_u32(doc.as_str(), "/pack/pack_format");
    let supported = read_supported_formats(doc.as_str());
    match (format, supported) {
        (Some(format), Some(supported)) => {
            let namespaces = collect_namespaces(&names);
            let id = json_string_at(doc.as_str(), "/pack/id");
            let mut info = minimal_info(filename);
            info.detected_project_id = detect_project_id(id, &namespaces, filename);
            info.pack_format = Some(format);
            info.supported_formats = match supported {
                Some(f) => Some(f.as_range()),
                None => None,
            };
            info.mc_version = match pack_format_to_mc(format) {
                Some(v) => Some(String::from_str(v)),
                None => None,
            };
            info.version_local = extract_version_from_filename(filename);
            Ok(info)
        },
        _ => Err(DatapackError::BadPackMeta),
    }
}

} // verus!
