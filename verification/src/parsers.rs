//! Reading a mod's own description out of its archive.
//!
//! Two descriptions are known, tried in this order: `fabric.mod.json`, a
//! JSON object, and `META-INF/mods.toml`, a TOML document. The first that
//! is there and can be read gives the record.

use vstd::prelude::*;
use vstd::string::*;
use crate::archive::{archive_text, can_open, is_archive, read_zip_entry};
use crate::assoc::{keys_unique, lemma_entry_index, lemma_with_entry, with_entry};
use crate::json::{
    element, element_pointer, json_keys, json_keys_at, json_kind, json_kind_at, json_len,
    json_len_at, json_string, json_string_at, member, member_pointer, toml_json, toml_to_json,
    JsonKind,
};
use crate::models::{ModInfo, ModInfoView};
use crate::text::{chars_of, contains, contains_text, join_texts, joined, str_eq};

verus! {

/// Puts `value` under `key` into a list of pairs.
pub fn put_pair(list: &mut Vec<(String, String)>, key: String, value: String)
    ensures
        final(list).deep_view() == with_entry(old(list).deep_view(), key@, value@),
{
    let ghost before = list.deep_view();
    let mut i: usize = 0;
    let mut found: Option<usize> = None;
    while i < list.len()
        invariant_except_break
            found is None,
        invariant
            i <= list.len(),
            list.deep_view() == before,
            forall|j: int| 0 <= j < i ==> (#[trigger] before[j]).0 != key@,
        ensures
            list.deep_view() == before,
            match found {
                Some(k) => k < list.len() && before[k as int].0 == key@ && forall|j: int|
                    0 <= j < k ==> (#[trigger] before[j]).0 != key@,
                None => forall|j: int| 0 <= j < list.len() ==> (#[trigger] before[j]).0 != key@,
            },
        decreases list.len() - i,
    {
        assert(before[i as int] == list@[i as int].deep_view());
        if str_eq(list[i].0.as_str(), key.as_str()) {
            found = Some(i);
            break ;
        }
        i += 1;
    }
    proof {
        lemma_entry_index(before, key@);
    }
    let ghost entry = (key@, value@);
    match found {
        Some(k) => {
            list.set(k, (key, value));
            assert(list.deep_view() =~= before.update(k as int, entry));
        },
        None => {
            list.push((key, value));
            assert(list.deep_view() =~= before.push(entry));
        },
    }
}

/// An optional text field of a document: absent when the pointer leads
/// nowhere or to null, present when it leads to a string. The outer
/// `None` says that the field holds something else, which makes the
/// document invalid.
pub open spec fn optional_text(doc: Seq<char>, pointer: Seq<char>) -> Option<Option<Seq<char>>> {
    match json_kind(doc, pointer) {
        JsonKind::Missing | JsonKind::Null => Some(None),
        JsonKind::Text => match json_string(doc, pointer) {
            Some(s) => Some(Some(s)),
            None => None,
        },
        _ => None,
    }
}

/// Reads an optional text field.
pub fn read_optional_text(doc: &str, pointer: &str) -> (r: Option<Option<String>>)
    ensures
        r.deep_view() == optional_text(doc@, pointer@),
{
    match json_kind_at(doc, pointer) {
        JsonKind::Missing | JsonKind::Null => Some(None),
        JsonKind::Text => match json_string_at(doc, pointer) {
            Some(s) => Some(Some(s)),
            None => None,
        },
        _ => None,
    }
}

/// The strings among the first `n` elements of the array that `pointer`
/// leads to, in their order.
pub open spec fn list_texts(doc: Seq<char>, pointer: Seq<char>, n: nat) -> Seq<Seq<char>>
    decreases n,
{
    if n == 0 {
        Seq::empty()
    } else {
        let rest = list_texts(doc, pointer, (n - 1) as nat);
        match json_string(doc, element(pointer, (n - 1) as nat)) {
            Some(s) => rest.push(s),
            None => rest,
        }
    }
}

/// What separates the alternatives of a version constraint.
pub open spec fn alternatives_separator() -> Seq<char> {
    "||"@
}

/// The version constraint that `pointer` leads to: a string as it is; an
/// array as its strings joined as alternatives, unless that is empty;
/// nothing for any other value.
pub open spec fn depend_value(doc: Seq<char>, pointer: Seq<char>) -> Option<Seq<char>> {
    match json_kind(doc, pointer) {
        JsonKind::Text => json_string(doc, pointer),
        JsonKind::List => match json_len(doc, pointer) {
            Some(n) => {
                let text = joined(list_texts(doc, pointer, n), alternatives_separator());
                if text.len() == 0 {
                    None
                } else {
                    Some(text)
                }
            },
            None => None,
        },
        _ => None,
    }
}

/// Reads a version constraint.
pub fn read_depend_value(doc: &str, pointer: &str) -> (r: Option<String>)
    ensures
        r.deep_view() == depend_value(doc@, pointer@),
{
    match json_kind_at(doc, pointer) {
        JsonKind::Text => json_string_at(doc, pointer),
        JsonKind::List => match json_len_at(doc, pointer) {
            Some(n) => {
                let mut parts: Vec<String> = Vec::new();
                assert(parts.deep_view() =~= Seq::<Seq<char>>::empty());
                let mut i: usize = 0;
                while i < n
                    invariant
                        i <= n,
                        parts.deep_view() == list_texts(doc@, pointer@, i as nat),
                    decreases n - i,
                {
                    let p = element_pointer(pointer, i);
                    let ghost before = parts.deep_view();
                    if let Some(s) = json_string_at(doc, p.as_str()) {
                        let ghost text = s@;
                        parts.push(s);
                        assert(parts.deep_view() =~= before.push(text));
                    }
                    i += 1;
                }
                let text = join_texts(&parts, "||");
                if text.as_str().unicode_len() == 0 {
                    None
                } else {
                    Some(text)
                }
            },
            None => None,
        },
        _ => None,
    }
}

/// The pointer to the dependencies of a `fabric.mod.json`.
pub open spec fn fabric_depends_pointer() -> Seq<char> {
    "/depends"@
}

/// The dependencies under the given keys of a `fabric.mod.json`: for each
/// key whose value is a version constraint, the key with that constraint.
pub open spec fn fabric_depends(doc: Seq<char>, keys: Seq<Seq<char>>) -> Seq<(Seq<char>, Seq<char>)>
    decreases keys.len(),
{
    if keys.len() == 0 {
        Seq::empty()
    } else {
        let rest = fabric_depends(doc, keys.drop_last());
        match depend_value(doc, member(fabric_depends_pointer(), keys.last())) {
            Some(v) => with_entry(rest, keys.last(), v),
            None => rest,
        }
    }
}

/// The dependencies of a `fabric.mod.json`: none when the field is absent
/// or null, the object's entries when it is an object. The outer `None`
/// says that the field holds something else.
pub open spec fn fabric_depends_field(doc: Seq<char>) -> Option<
    Option<Seq<(Seq<char>, Seq<char>)>>,
> {
    match json_kind(doc, fabric_depends_pointer()) {
        JsonKind::Missing | JsonKind::Null => Some(None),
        JsonKind::Table => match json_keys(doc, fabric_depends_pointer()) {
            Some(keys) => Some(Some(fabric_depends(doc, keys))),
            None => None,
        },
        _ => None,
    }
}

/// The record of a freshly read archive: known by its file name, with the
/// id it declares, selected, and with nothing known yet about the file on
/// disk or about a registry.
pub open spec fn parsed_record(
    key: Seq<char>,
    name: Seq<char>,
    id: Seq<char>,
    version: Option<Seq<char>>,
    depends: Option<Seq<(Seq<char>, Seq<char>)>>,
) -> ModInfoView {
    ModInfoView {
        key,
        name,
        detected_project_id: Some(id),
        confirmed_project_id: None,
        version_local: version,
        version_remote: None,
        selected: true,
        file_size_bytes: None,
        file_mtime_secs: None,
        depends,
    }
}

/// Builds the record of a freshly read archive.
pub fn new_record(
    key: &str,
    name: String,
    id: String,
    version: Option<String>,
    depends: Option<Vec<(String, String)>>,
) -> (r: ModInfo)
    ensures
        r@ == parsed_record(key@, name@, id@, version.deep_view(), depends.deep_view()),
{
    ModInfo {
        key: key.to_owned(),
        name,
        detected_project_id: Some(id),
        confirmed_project_id: None,
        version_local: version,
        version_remote: None,
        selected: true,
        file_size_bytes: None,
        file_mtime_secs: None,
        depends,
    }
}

/// No id occurs twice among the dependencies of a record.
pub open spec fn depends_unique(info: ModInfoView) -> bool {
    match info.depends {
        Some(list) => keys_unique(list),
        None => true,
    }
}

/// The dependencies read out of a `fabric.mod.json` name no id twice.
pub proof fn lemma_fabric_depends_unique(doc: Seq<char>, keys: Seq<Seq<char>>)
    ensures
        keys_unique(fabric_depends(doc, keys)),
    decreases keys.len(),
{
    if keys.len() > 0 {
        lemma_fabric_depends_unique(doc, keys.drop_last());
        match depend_value(doc, member(fabric_depends_pointer(), keys.last())) {
            Some(v) => {
                lemma_with_entry(fabric_depends(doc, keys.drop_last()), keys.last(), v);
            },
            None => {},
        }
    }
}

/// The record that the `fabric.mod.json` document `doc` gives for the
/// archive `key`: the document has to be an object with the strings `id`
/// and `name`; `version` is an optional string and `depends` an optional
/// object.
pub open spec fn fabric_info(doc: Seq<char>, key: Seq<char>) -> Option<ModInfoView> {
    if json_kind(doc, Seq::empty()) != JsonKind::Table {
        None
    } else {
        match (
            json_string(doc, "/id"@),
            json_string(doc, "/name"@),
            optional_text(doc, "/version"@),
            fabric_depends_field(doc),
        ) {
            (Some(id), Some(name), Some(version), Some(depends)) => Some(
                parsed_record(key, name, id, version, depends),
            ),
            _ => None,
        }
    }
}

/// Reads the dependencies of a `fabric.mod.json`.
pub fn read_fabric_depends(doc: &str) -> (r: Option<Option<Vec<(String, String)>>>)
    ensures
        r.deep_view() == fabric_depends_field(doc@),
{
    match json_kind_at(doc, "/depends") {
        JsonKind::Missing | JsonKind::Null => Some(None),
        JsonKind::Table => match json_keys_at(doc, "/depends") {
            Some(keys) => {
                let mut out: Vec<(String, String)> = Vec::new();
                assert(out.deep_view() =~= Seq::<(Seq<char>, Seq<char>)>::empty());
                let mut i: usize = 0;
                while i < keys.len()
                    invariant
                        i <= keys.len(),
                        out.deep_view() == fabric_depends(doc@, keys.deep_view().take(i as int)),
                    decreases keys.len() - i,
                {
                    assert(keys.deep_view().take(i + 1).drop_last() =~= keys.deep_view().take(
                        i as int,
                    ));
                    assert(keys.deep_view().take(i + 1).last() == keys@[i as int]@);
                    let p = member_pointer("/depends", keys[i].as_str());
                    if let Some(v) = read_depend_value(doc, p.as_str()) {
                        put_pair(&mut out, keys[i].clone(), v);
                    }
                    i += 1;
                }
                assert(keys.deep_view().take(keys.len() as int) =~= keys.deep_view());
                Some(Some(out))
            },
            None => None,
        },
        _ => None,
    }
}

/// The record that a `fabric.mod.json` gives names no dependency twice.
pub proof fn lemma_fabric_info_unique(doc: Seq<char>, key: Seq<char>)
    ensures
        fabric_info(doc, key) matches Some(info) ==> depends_unique(info),
{
    match json_keys(doc, fabric_depends_pointer()) {
        Some(keys) => {
            lemma_fabric_depends_unique(doc, keys);
        },
        None => {},
    }
}

/// Reads the record out of a `fabric.mod.json` document, for the archive
/// whose file name is `key`.
pub fn parse_fabric(doc: &str, key: &str) -> (r: Option<ModInfo>)
    ensures
        r.deep_view() == fabric_info(doc@, key@),
        r matches Some(info) ==> depends_unique(info@),
{
    proof {
        reveal_strlit("");
        assert(""@ =~= Seq::<char>::empty());
        lemma_fabric_info_unique(doc@, key@);
    }
    if json_kind_at(doc, "") != JsonKind::Table {
        return None;
    }
    let id = json_string_at(doc, "/id");
    let name = json_string_at(doc, "/name");
    let version = read_optional_text(doc, "/version");
    let depends = read_fabric_depends(doc);
    match (id, name, version, depends) {
        (Some(id), Some(name), Some(version), Some(depends)) => Some(
            new_record(key, name, id, version, depends),
        ),
        _ => None,
    }
}

/// The pointer to the list of mods of a `mods.toml`.
pub open spec fn forge_mods_pointer() -> Seq<char> {
    "/mods"@
}

/// The pointer to the first mod of a `mods.toml`.
pub open spec fn forge_mod_pointer() -> Seq<char> {
    "/mods/0"@
}

/// The pointer to the dependency tables of a `mods.toml`.
pub open spec fn forge_depends_pointer() -> Seq<char> {
    "/dependencies"@
}

/// The version range of a dependency that names none.
pub open spec fn any_version() -> Seq<char> {
    "*"@
}

/// The dependencies after the first `n` entries of the list that `pointer`
/// leads to were added to `start`. An entry that is a table gives its
/// `modId` with its `versionRange`, or with any version when it names
/// none; a table without a `modId` makes the result `None`; other entries
/// are passed over.
pub open spec fn forge_entries(
    doc: Seq<char>,
    pointer: Seq<char>,
    n: nat,
    start: Seq<(Seq<char>, Seq<char>)>,
) -> Option<Seq<(Seq<char>, Seq<char>)>>
    decreases n,
{
    if n == 0 {
        Some(start)
    } else {
        match forge_entries(doc, pointer, (n - 1) as nat, start) {
            Some(list) => {
                let entry = element(pointer, (n - 1) as nat);
                if json_kind(doc, entry) == JsonKind::Table {
                    match json_string(doc, member(entry, "modId"@)) {
                        Some(id) => Some(
                            with_entry(
                                list,
                                id,
                                match json_string(doc, member(entry, "versionRange"@)) {
                                    Some(range) => range,
                                    None => any_version(),
                                },
                            ),
                        ),
                        None => None,
                    }
                } else {
                    Some(list)
                }
            },
            None => None,
        }
    }
}

/// The dependencies under the given keys of the dependency tables of a
/// `mods.toml`: the entries of every key that holds a list.
pub open spec fn forge_tables(doc: Seq<char>, keys: Seq<Seq<char>>) -> Option<
    Seq<(Seq<char>, Seq<char>)>,
>
    decreases keys.len(),
{
    if keys.len() == 0 {
        Some(Seq::empty())
    } else {
        match forge_tables(doc, keys.drop_last()) {
            Some(list) => {
                let p = member(forge_depends_pointer(), keys.last());
                match (json_kind(doc, p), json_len(doc, p)) {
                    (JsonKind::List, Some(n)) => forge_entries(doc, p, n, list),
                    _ => Some(list),
                }
            },
            None => None,
        }
    }
}

/// The dependencies of a `mods.toml`, as one flat list. There are none
/// when the document has no dependency tables, when an entry lacks its
/// `modId`, or when the list comes out empty.
pub open spec fn forge_depends(doc: Seq<char>) -> Option<Seq<(Seq<char>, Seq<char>)>> {
    if json_kind(doc, forge_depends_pointer()) == JsonKind::Table {
        match json_keys(doc, forge_depends_pointer()) {
            Some(keys) => match forge_tables(doc, keys) {
                Some(list) => if list.len() == 0 {
                    None
                } else {
                    Some(list)
                },
                None => None,
            },
            None => None,
        }
    } else {
        None
    }
}

/// A version that still holds a build placeholder is no version.
pub open spec fn without_placeholder(version: Option<Seq<char>>) -> Option<Seq<char>> {
    match version {
        Some(v) => if contains_text(v, "${"@) {
            None
        } else {
            Some(v)
        },
        None => None,
    }
}

/// The record that a `mods.toml`, already written as the JSON document
/// `doc`, gives for the archive `key`: `mods` has to be a list and its
/// first mod a table with the string `modId`; `displayName` and `version` are optional
/// strings. The mod is named by its display name, else by its id.
pub open spec fn forge_info_of_json(doc: Seq<char>, key: Seq<char>) -> Option<ModInfoView> {
    if json_kind(doc, forge_mods_pointer()) != JsonKind::List || json_kind(
        doc,
        forge_mod_pointer(),
    ) != JsonKind::Table {
        None
    } else {
        match (
            json_string(doc, "/mods/0/modId"@),
            optional_text(doc, "/mods/0/displayName"@),
            optional_text(doc, "/mods/0/version"@),
        ) {
            (Some(id), Some(display), Some(version)) => Some(
                parsed_record(
                    key,
                    match display {
                        Some(d) => d,
                        None => id,
                    },
                    id,
                    without_placeholder(version),
                    forge_depends(doc),
                ),
            ),
            _ => None,
        }
    }
}

/// The record that the `mods.toml` document `text` gives for the archive
/// `key`.
pub open spec fn forge_info(text: Seq<char>, key: Seq<char>) -> Option<ModInfoView> {
    match toml_json(text) {
        Some(doc) => forge_info_of_json(doc, key),
        None => None,
    }
}

/// Drops a version that still holds a build placeholder.
pub fn drop_placeholder(version: Option<String>) -> (r: Option<String>)
    ensures
        r.deep_view() == without_placeholder(version.deep_view()),
{
    match version {
        Some(v) => {
            let text = chars_of(v.as_str());
            let mark = chars_of("${");
            if contains(text.as_slice(), mark.as_slice()) {
                None
            } else {
                Some(v)
            }
        },
        None => None,
    }
}

/// Reads the dependencies of a `mods.toml` written as JSON.
pub fn read_forge_depends(doc: &str) -> (r: Option<Vec<(String, String)>>)
    ensures
        r.deep_view() == forge_depends(doc@),
{
    if json_kind_at(doc, "/dependencies") != JsonKind::Table {
        return None;
    }
    let keys = match json_keys_at(doc, "/dependencies") {
        Some(keys) => keys,
        None => {
            return None;
        },
    };
    let mut out: Vec<(String, String)> = Vec::new();
    assert(out.deep_view() =~= Seq::<(Seq<char>, Seq<char>)>::empty());
    let mut i: usize = 0;
    while i < keys.len()
        invariant
            i <= keys.len(),
            json_kind(doc@, forge_depends_pointer()) == JsonKind::Table,
            json_keys(doc@, forge_depends_pointer()) == Some(keys.deep_view()),
            forge_tables(doc@, keys.deep_view().take(i as int)) == Some(out.deep_view()),
        decreases keys.len() - i,
    {
        assert(keys.deep_view().take(i + 1).drop_last() =~= keys.deep_view().take(i as int));
        assert(keys.deep_view().take(i + 1).last() == keys@[i as int]@);
        let p = member_pointer("/dependencies", keys[i].as_str());
        let len: Option<usize> = if json_kind_at(doc, p.as_str()) == JsonKind::List {
            json_len_at(doc, p.as_str())
        } else {
            None
        };
        if let Some(n) = len {
            let ghost start = out.deep_view();
            let mut k: usize = 0;
            while k < n
                invariant
                    k <= n,
                    i < keys.len(),
                    json_kind(doc@, forge_depends_pointer()) == JsonKind::Table,
                    json_keys(doc@, forge_depends_pointer()) == Some(keys.deep_view()),
                    p@ == member(forge_depends_pointer(), keys@[i as int]@),
                    json_kind(doc@, p@) == JsonKind::List,
                    json_len(doc@, p@) == Some(n as nat),
                    forge_tables(doc@, keys.deep_view().take(i as int)) == Some(start),
                    keys.deep_view().take(i + 1).drop_last() == keys.deep_view().take(i as int),
                    keys.deep_view().take(i + 1).last() == keys@[i as int]@,
                    forge_entries(doc@, p@, k as nat, start) == Some(out.deep_view()),
                decreases n - k,
            {
                let entry = element_pointer(p.as_str(), k);
                if json_kind_at(doc, entry.as_str()) == JsonKind::Table {
                    let id_pointer = member_pointer(entry.as_str(), "modId");
                    let range_pointer = member_pointer(entry.as_str(), "versionRange");
                    match json_string_at(doc, id_pointer.as_str()) {
                        Some(id) => {
                            let range = match json_string_at(doc, range_pointer.as_str()) {
                                Some(range) => range,
                                None => String::from_str("*"),
                            };
                            put_pair(&mut out, id, range);
                        },
                        None => {
                            proof {
                                lemma_forge_entries_fail(doc@, p@, (k + 1) as nat, n as nat, start);
                                lemma_forge_tables_fail(doc@, keys.deep_view(), i + 1);
                            }
                            return None;
                        },
                    }
                }
                k += 1;
            }
        }
        i += 1;
    }
    assert(keys.deep_view().take(keys.len() as int) =~= keys.deep_view());
    if out.len() == 0 {
        None
    } else {
        Some(out)
    }
}

/// Once the entries of a list have failed, more entries do not mend it.
pub proof fn lemma_forge_entries_fail(
    doc: Seq<char>,
    pointer: Seq<char>,
    n: nat,
    m: nat,
    start: Seq<(Seq<char>, Seq<char>)>,
)
    requires
        n <= m,
        forge_entries(doc, pointer, n, start) is None,
    ensures
        forge_entries(doc, pointer, m, start) is None,
    decreases m - n,
{
    if n < m {
        lemma_forge_entries_fail(doc, pointer, n, (m - 1) as nat, start);
    }
}

/// Once the tables under some keys have failed, more keys do not mend it.
pub proof fn lemma_forge_tables_fail(doc: Seq<char>, keys: Seq<Seq<char>>, n: int)
    requires
        0 <= n <= keys.len(),
        forge_tables(doc, keys.take(n)) is None,
    ensures
        forge_tables(doc, keys) is None,
    decreases keys.len() - n,
{
    if n < keys.len() {
        assert(keys.take(n + 1).drop_last() =~= keys.take(n));
        lemma_forge_tables_fail(doc, keys, n + 1);
    } else {
        assert(keys.take(n) =~= keys);
    }
}

/// Adding the entries of a list to dependencies that name no id twice
/// leaves such dependencies.
pub proof fn lemma_forge_entries_unique(
    doc: Seq<char>,
    pointer: Seq<char>,
    n: nat,
    start: Seq<(Seq<char>, Seq<char>)>,
)
    requires
        keys_unique(start),
    ensures
        forge_entries(doc, pointer, n, start) matches Some(list) ==> keys_unique(list),
    decreases n,
{
    if n > 0 {
        lemma_forge_entries_unique(doc, pointer, (n - 1) as nat, start);
        match forge_entries(doc, pointer, (n - 1) as nat, start) {
            Some(list) => {
                let entry = element(pointer, (n - 1) as nat);
                match json_string(doc, member(entry, "modId"@)) {
                    Some(id) => {
                        lemma_with_entry(
                            list,
                            id,
                            match json_string(doc, member(entry, "versionRange"@)) {
                                Some(range) => range,
                                None => any_version(),
                            },
                        );
                    },
                    None => {},
                }
            },
            None => {},
        }
    }
}

/// The dependencies read out of the dependency tables of a `mods.toml`
/// name no id twice.
pub proof fn lemma_forge_tables_unique(doc: Seq<char>, keys: Seq<Seq<char>>)
    ensures
        forge_tables(doc, keys) matches Some(list) ==> keys_unique(list),
    decreases keys.len(),
{
    if keys.len() > 0 {
        lemma_forge_tables_unique(doc, keys.drop_last());
        match forge_tables(doc, keys.drop_last()) {
            Some(list) => {
                let p = member(forge_depends_pointer(), keys.last());
                match json_len(doc, p) {
                    Some(n) => {
                        lemma_forge_entries_unique(doc, p, n, list);
                    },
                    None => {},
                }
            },
            None => {},
        }
    }
}

/// The record that a `mods.toml` gives names no dependency twice.
pub proof fn lemma_forge_info_unique(doc: Seq<char>, key: Seq<char>)
    ensures
        forge_info_of_json(doc, key) matches Some(info) ==> depends_unique(info),
{
    match json_keys(doc, forge_depends_pointer()) {
        Some(keys) => {
            lemma_forge_tables_unique(doc, keys);
        },
        None => {},
    }
}

/// Reads the record out of a `mods.toml` that is already written as JSON.
pub fn parse_forge_json(doc: &str, key: &str) -> (r: Option<ModInfo>)
    ensures
        r.deep_view() == forge_info_of_json(doc@, key@),
        r matches Some(info) ==> depends_unique(info@),
{
    proof {
        lemma_forge_info_unique(doc@, key@);
    }
    if json_kind_at(doc, "/mods") != JsonKind::List {
        return None;
    }
    if json_kind_at(doc, "/mods/0") != JsonKind::Table {
        return None;
    }
    let id = json_string_at(doc, "/mods/0/modId");
    let display = read_optional_text(doc, "/mods/0/displayName");
    let version = read_optional_text(doc, "/mods/0/version");
    match (id, display, version) {
        (Some(id), Some(display), Some(version)) => {
            let name = match display {
                Some(d) => d,
                None => id.clone(),
            };
            Some(new_record(key, name, id, drop_placeholder(version), read_forge_depends(doc)))
        },
        _ => None,
    }
}

/// Reads the record out of a `mods.toml` document, for the archive whose
/// file name is `key`.
pub fn parse_forge(text: &str, key: &str) -> (r: Option<ModInfo>)
    ensures
        r.deep_view() == forge_info(text@, key@),
        r matches Some(info) ==> depends_unique(info@),
{
    match toml_to_json(text) {
        Some(doc) => parse_forge_json(doc.as_str(), key),
        None => None,
    }
}

/// The record that the first description gives, or the second where the
/// first gives none.
pub open spec fn first_of(first: Option<ModInfoView>, second: Option<ModInfoView>) -> Option<
    ModInfoView,
> {
    match first {
        Some(r) => Some(r),
        None => second,
    }
}

/// The record that a description of the first kind gives, read from the
/// archive `bytes`.
pub open spec fn fabric_in_archive(bytes: Seq<u8>, key: Seq<char>) -> Option<ModInfoView> {
    match archive_text(bytes, "fabric.mod.json"@) {
        Some(doc) => fabric_info(doc, key),
        None => None,
    }
}

/// The record that a description of the second kind gives, read from the
/// archive `bytes`.
pub open spec fn forge_in_archive(bytes: Seq<u8>, key: Seq<char>) -> Option<ModInfoView> {
    match archive_text(bytes, "META-INF/mods.toml"@) {
        Some(text) => forge_info(text, key),
        None => None,
    }
}

/// The record that the archive `bytes` gives for itself.
pub open spec fn archive_info(bytes: Seq<u8>, key: Seq<char>) -> Option<ModInfoView> {
    first_of(fabric_in_archive(bytes, key), forge_in_archive(bytes, key))
}

/// Tries the known descriptions in their order on an archive.
pub fn try_all(bytes: &[u8], key: &str) -> (r: Option<ModInfo>)
    ensures
        r.deep_view() == archive_info(bytes@, key@),
        r matches Some(info) ==> depends_unique(info@),
{
    let fabric = match read_zip_entry(bytes, "fabric.mod.json") {
        Some(doc) => parse_fabric(doc.as_str(), key),
        None => None,
    };
    match fabric {
        Some(r) => Some(r),
        None => match read_zip_entry(bytes, "META-INF/mods.toml") {
            Some(text) => parse_forge(text.as_str(), key),
            None => None,
        },
    }
}

/// Why an archive gave no record.
#[derive(Debug, Clone, Copy, PartialEq, Eq, Structural)]
pub enum ReadError {
    /// The file is no ZIP archive that can be read.
    NotAnArchive,
    /// The archive holds no description that can be read.
    NoMetadata,
}

impl ReadError {
    /// The error in words.
    pub fn message(&self) -> (s: String)
        ensures
            s@ == match self {
                ReadError::NotAnArchive => "not a valid ZIP archive"@,
                ReadError::NoMetadata =>
                    "no mod metadata found (neither fabric.mod.json nor META-INF/mods.toml)"@,
            },
    {
        match self {
            ReadError::NotAnArchive => String::from_str("not a valid ZIP archive"),
            ReadError::NoMetadata => String::from_str(
                "no mod metadata found (neither fabric.mod.json nor META-INF/mods.toml)",
            ),
        }
    }
}

/// What reading the archive `bytes` under the file name `key` gives.
pub open spec fn single_mod(bytes: Seq<u8>, key: Seq<char>) -> Result<ModInfoView, ReadError> {
    if !is_archive(bytes) {
        Err(ReadError::NotAnArchive)
    } else {
        match archive_info(bytes, key) {
            Some(r) => Ok(r),
            None => Err(ReadError::NoMetadata),
        }
    }
}

/// Reads the record of one archive, given the bytes of the file and its
/// file name.
pub fn read_single_mod(bytes: &[u8], key: &str) -> (r: Result<ModInfo, ReadError>)
    ensures
        match r {
            Ok(info) => single_mod(bytes@, key@) == Ok::<ModInfoView, ReadError>(info@)
                && depends_unique(info@),
            Err(e) => single_mod(bytes@, key@) == Err::<ModInfoView, ReadError>(e),
        },
{
    if !can_open(bytes) {
        return Err(ReadError::NotAnArchive);
    }
    match try_all(bytes, key) {
        Some(info) => Ok(info),
        None => Err(ReadError::NoMetadata),
    }
}

} // verus!
