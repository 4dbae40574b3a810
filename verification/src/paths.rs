//! Where the game keeps its files, below its base directory.

use vstd::prelude::*;
use vstd::string::*;
use crate::text::{chars_of, concat3};

verus! {

/// The directories of a game installation.
#[derive(Debug, PartialEq, Eq)]
pub struct Paths {
    pub base_game_folder: String,
    pub mods_folder: String,
    pub versions_folder: String,
    pub modpacks_folder: String,
    pub saves_folder: String,
}

/// The path of `name` inside the directory `base`: the two with a slash
/// between them, unless `base` is empty or ends with a slash already.
pub open spec fn child_path(base: Seq<char>, name: Seq<char>) -> Seq<char> {
    if base.len() == 0 || base.last() == '/' {
        base + name
    } else {
        base + "/"@ + name
    }
}

/// Builds the path of `name` inside the directory `base`.
pub fn join_path(base: &str, name: &str) -> (p: String)
    ensures
        p@ == child_path(base@, name@),
{
    let chars = chars_of(base);
    proof {
        reveal_strlit("");
    }
    if chars.len() == 0 || chars[chars.len() - 1] == '/' {
        let p = concat3(base, name, "");
        assert(p@ =~= base@ + name@);
        p
    } else {
        concat3(base, "/", name)
    }
}

impl Paths {
    /// The directories of the installation at `base_game_path`.
    pub fn new(base_game_path: String) -> (p: Self)
        ensures
            p.base_game_folder@ == base_game_path@,
            p.mods_folder@ == child_path(base_game_path@, "mods"@),
            p.versions_folder@ == child_path(base_game_path@, "versions"@),
            p.modpacks_folder@ == child_path(base_game_path@, "modpacks"@),
            p.saves_folder@ == child_path(base_game_path@, "saves"@),
    {
        Paths {
            mods_folder: join_path(base_game_path.as_str(), "mods"),
            versions_folder: join_path(base_game_path.as_str(), "versions"),
            modpacks_folder: join_path(base_game_path.as_str(), "modpacks"),
            saves_folder: join_path(base_game_path.as_str(), "saves"),
            base_game_folder: base_game_path,
        }
    }
}

} // verus!
