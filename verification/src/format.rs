//! Texts made for reading: version constraints and the names of the
//! things a mod can depend on.

use vstd::prelude::*;
use vstd::string::*;
use crate::text::{
    chars_of, concat3, contains_char, join_texts, joined, remove_all, removed, slice_to_vec,
    split_words, str_eq, string_of, words,
};

verus! {

/// A version constraint without its comparison operators: `>=`, `<=`,
/// `>` and `<` are taken out, in this order.
pub open spec fn without_operators(v: Seq<char>) -> Seq<char> {
    removed(removed(removed(removed(v, ">="@), "<="@), ">"@), "<"@)
}

/// A word without the hyphen at its end, if it has one.
pub open spec fn without_hyphen(w: Seq<char>) -> Seq<char> {
    if w.len() > 0 && w.last() == '-' {
        w.drop_last()
    } else {
        w
    }
}

/// The versions that a constraint names: its words once the operators are
/// taken out, each without a hyphen at its end.
pub open spec fn named_versions(v: Seq<char>) -> Seq<Seq<char>> {
    words(without_operators(v)).map_values(|w: Seq<char>| without_hyphen(w))
}

/// A version constraint as it is shown: any version stays `*`; two or
/// more versions become a range; one version gets a `+` when the
/// constraint asks for more than it and a `-` when it asks for less. A
/// constraint that names no version is shown as it is.
pub open spec fn shown_range(v: Seq<char>) -> Seq<char> {
    let parts = named_versions(v);
    if v == "*"@ {
        "*"@
    } else if parts.len() == 0 {
        v
    } else if parts.len() >= 2 {
        joined(parts, " - "@)
    } else if v.contains('>') {
        parts[0] + " +"@
    } else if v.contains('<') {
        parts[0] + " -"@
    } else {
        parts[0]
    }
}

/// Makes a version constraint fit for showing.
pub fn format_version_range(v: &str) -> (r: String)
    ensures
        r@ == shown_range(v@),
{
    if str_eq(v, "*") {
        return String::from_str("*");
    }
    let raw = chars_of(v);
    let ge = chars_of(">=");
    let le = chars_of("<=");
    let gt = chars_of(">");
    let lt = chars_of("<");
    let s1 = remove_all(raw.as_slice(), ge.as_slice());
    let s2 = remove_all(s1.as_slice(), le.as_slice());
    let s3 = remove_all(s2.as_slice(), gt.as_slice());
    let s4 = remove_all(s3.as_slice(), lt.as_slice());
    let found = split_words(s4.as_slice());
    let mut parts: Vec<String> = Vec::new();
    let mut i: usize = 0;
    while i < found.len()
        invariant
            i <= found.len(),
            parts.len() == i,
            forall|j: int| 0 <= j < i ==> (#[trigger] parts@[j])@ == without_hyphen(found@[j]@),
        decreases found.len() - i,
    {
        let w = chars_of(found[i].as_str());
        let part = if w.len() > 0 && w[w.len() - 1] == '-' {
            let head = slice_to_vec(w.as_slice(), 0, w.len() - 1);
            assert(head@ =~= w@.drop_last());
            string_of(head.as_slice())
        } else {
            found[i].clone()
        };
        parts.push(part);
        i += 1;
    }
    assert(parts.deep_view() =~= named_versions(v@));
    if parts.len() == 0 {
        return v.to_owned();
    }
    if parts.len() >= 2 {
        return join_texts(&parts, " - ");
    }
    proof {
        reveal_strlit(">");
        reveal_strlit("<");
        reveal_strlit("");
    }
    if contains_char(raw.as_slice(), '>') {
        concat3(parts[0].as_str(), " +", "")
    } else if contains_char(raw.as_slice(), '<') {
        concat3(parts[0].as_str(), " -", "")
    } else {
        parts[0].clone()
    }
}

/// The name under which a well-known dependency is shown; any other id is
/// shown as it is.
pub open spec fn shown_dep_name(k: Seq<char>) -> Seq<char> {
    if k == "fabricloader"@ || k == "fabric-loader"@ {
        "Fabric"@
    } else if k == "forge"@ {
        "Forge"@
    } else if k == "neoforge"@ {
        "NeoForge"@
    } else if k == "quilt_loader"@ {
        "Quilt"@
    } else if k == "minecraft"@ {
        "Minecraft"@
    } else if k == "java"@ {
        "Java"@
    } else if k == "fabric-api"@ {
        "Fabric API"@
    } else {
        k
    }
}

/// Makes the id of a dependency fit for showing.
pub fn format_dep_name(k: &str) -> (r: String)
    ensures
        r@ == shown_dep_name(k@),
{
    if str_eq(k, "fabricloader") || str_eq(k, "fabric-loader") {
        String::from_str("Fabric")
    } else if str_eq(k, "forge") {
        String::from_str("Forge")
    } else if str_eq(k, "neoforge") {
        String::from_str("NeoForge")
    } else if str_eq(k, "quilt_loader") {
        String::from_str("Quilt")
    } else if str_eq(k, "minecraft") {
        String::from_str("Minecraft")
    } else if str_eq(k, "java") {
        String::from_str("Java")
    } else if str_eq(k, "fabric-api") {
        String::from_str("Fabric API")
    } else {
        k.to_owned()
    }
}

} // verus!
