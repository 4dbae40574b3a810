//! Switching the game's mod directory to a stored modpack.
//!
//! Three ways are tried in turn: a link to the modpack, a tree of hard
//! links, a copy. The swapper decides what to try next; the caller touches
//! the file system and reports how each attempt went. After a success the
//! name of the modpack is written to the marker file, so that the active
//! modpack can be told even where no link is left to read.

use vstd::prelude::*;
use vstd::string::*;
use crate::archive::{entry_matches, name_fits};
use crate::text::{
    chars_of, concat3, ends_with, has_suffix, slice_to_vec, str_eq, string_of, trim_bounds, trimmed,
};

verus! {

/// What the mod directory is before the switch.
#[derive(Debug, Clone, Copy, PartialEq, Eq, Structural)]
pub enum TargetKind {
    Missing,
    Link,
    Directory,
    Other,
}

/// The three ways of making the mod directory show a modpack.
#[derive(Debug, Clone, Copy, PartialEq, Eq, Structural)]
pub enum Strategy {
    Link,
    HardLinks,
    Copy,
}

/// What the swapper is waiting for.
#[derive(Debug, Clone, Copy, PartialEq, Eq, Structural)]
pub enum SwapPhase {
    /// The removal of what was in the way.
    Cleaning,
    /// The making of the link.
    Linking,
    /// The making of the tree of hard links.
    HardLinking,
    /// The removal of what the hard links left behind.
    Clearing,
    /// The copying.
    Copying,
    /// The writing of the marker, after the named strategy won.
    Marking(Strategy),
    /// Nothing: the switch is over.
    Finished,
}

/// What the caller is to do next. Source and target are the modpack's
/// directory and the mod directory.
#[derive(Debug, PartialEq, Eq)]
pub enum SwapAction {
    /// Remove the link at the target, as a file or else as a directory.
    RemoveLink,
    /// Remove the directory at the target with all it holds.
    RemoveTree,
    /// Make the target a link, or a junction, to the source.
    MakeLink,
    /// Rebuild the source's directories under the target and hard-link
    /// every file.
    MakeHardLinks,
    /// Rebuild the source's directories under the target and copy every
    /// file.
    CopyFiles,
    /// Write the modpack's name to the marker file.
    WriteMarker { name: String },
    /// The switch is over: a message naming the strategy that won, or the
    /// error.
    Finish(Result<String, String>),
}

/// Mathematical value of a [`SwapAction`].
pub ghost enum SwapActionView {
    RemoveLink,
    RemoveTree,
    MakeLink,
    MakeHardLinks,
    CopyFiles,
    WriteMarker { name: Seq<char> },
    Finish(Result<Seq<char>, Seq<char>>),
}

impl View for SwapAction {
    type V = SwapActionView;

    open spec fn view(&self) -> SwapActionView {
        match self {
            SwapAction::RemoveLink => SwapActionView::RemoveLink,
            SwapAction::RemoveTree => SwapActionView::RemoveTree,
            SwapAction::MakeLink => SwapActionView::MakeLink,
            SwapAction::MakeHardLinks => SwapActionView::MakeHardLinks,
            SwapAction::CopyFiles => SwapActionView::CopyFiles,
            SwapAction::WriteMarker { name } => SwapActionView::WriteMarker { name: name@ },
            SwapAction::Finish(r) => SwapActionView::Finish(
                match r {
                    Ok(m) => Ok(m@),
                    Err(m) => Err(m@),
                },
            ),
        }
    }
}

/// The state of a switch.
pub struct Swapper {
    name: String,
    phase: SwapPhase,
    link_error: String,
    hard_link_error: String,
}

/// Mathematical value of a [`Swapper`].
pub ghost struct SwapperView {
    pub name: Seq<char>,
    pub phase: SwapPhase,
    /// Why the link could not be made, once that is known.
    pub link_error: Seq<char>,
    /// Why the hard links could not be made, once that is known.
    pub hard_link_error: Seq<char>,
}

impl View for Swapper {
    type V = SwapperView;

    closed spec fn view(&self) -> SwapperView {
        SwapperView {
            name: self.name@,
            phase: self.phase,
            link_error: self.link_error@,
            hard_link_error: self.hard_link_error@,
        }
    }
}

/// The message of a switch that succeeded.
pub open spec fn success_message(name: Seq<char>, strategy: Strategy) -> Seq<char> {
    "Mods switched to '"@ + name + match strategy {
        Strategy::Link => "' using a link."@,
        Strategy::HardLinks => "' using hard links."@,
        Strategy::Copy => "' using a copy."@,
    }
}

/// The message of a switch of which every strategy failed.
pub open spec fn failure_message(
    link_error: Seq<char>,
    hard_link_error: Seq<char>,
    copy_error: Seq<char>,
) -> Seq<char> {
    "Could not switch mods.\nLink: "@ + link_error + "\nHard links: "@ + hard_link_error
        + "\nCopy: "@ + copy_error
}

/// The message of a switch that left no link and could not write the
/// marker.
pub open spec fn marker_failure_message(name: Seq<char>, error: Seq<char>) -> Seq<char> {
    "Mods switched to '"@ + name + "' but the active marker could not be written: "@ + error
}

/// The first state of a switch and its first action: what is in the way
/// is removed, a link as a link and a directory with all it holds; with
/// nothing to remove the link is tried at once.
pub open spec fn start_of(name: Seq<char>, target: TargetKind) -> (SwapperView, SwapActionView) {
    let s = SwapperView {
        name,
        phase: SwapPhase::Cleaning,
        link_error: Seq::empty(),
        hard_link_error: Seq::empty(),
    };
    match target {
        TargetKind::Link => (s, SwapActionView::RemoveLink),
        TargetKind::Directory => (s, SwapActionView::RemoveTree),
        _ => (SwapperView { phase: SwapPhase::Linking, ..s }, SwapActionView::MakeLink),
    }
}

/// The failure text of an attempt, `None` for success.
pub open spec fn failure_of(outcome: Result<(), String>) -> Option<Seq<char>> {
    match outcome {
        Ok(_) => None,
        Err(e) => Some(e@),
    }
}

/// One step of a switch: the state after the attempt handed out last has
/// ended as `outcome` says, and what to do next.
pub open spec fn step_of(s: SwapperView, outcome: Option<Seq<char>>) -> (
    SwapperView,
    SwapActionView,
) {
    let done = SwapperView { phase: SwapPhase::Finished, ..s };
    match s.phase {
        SwapPhase::Cleaning => (
            SwapperView { phase: SwapPhase::Linking, ..s },
            SwapActionView::MakeLink,
        ),
        SwapPhase::Linking => match outcome {
            None => (
                SwapperView { phase: SwapPhase::Marking(Strategy::Link), ..s },
                SwapActionView::WriteMarker { name: s.name },
            ),
            Some(e) => (
                SwapperView { phase: SwapPhase::HardLinking, link_error: e, ..s },
                SwapActionView::MakeHardLinks,
            ),
        },
        SwapPhase::HardLinking => match outcome {
            None => (
                SwapperView { phase: SwapPhase::Marking(Strategy::HardLinks), ..s },
                SwapActionView::WriteMarker { name: s.name },
            ),
            Some(e) => (
                SwapperView { phase: SwapPhase::Clearing, hard_link_error: e, ..s },
                SwapActionView::RemoveTree,
            ),
        },
        SwapPhase::Clearing => (
            SwapperView { phase: SwapPhase::Copying, ..s },
            SwapActionView::CopyFiles,
        ),
        SwapPhase::Copying => match outcome {
            None => (
                SwapperView { phase: SwapPhase::Marking(Strategy::Copy), ..s },
                SwapActionView::WriteMarker { name: s.name },
            ),
            Some(e) => (
                done,
                SwapActionView::Finish(Err(failure_message(s.link_error, s.hard_link_error, e))),
            ),
        },
        SwapPhase::Marking(strategy) => match outcome {
            Some(e) => if strategy != Strategy::Link {
                (done, SwapActionView::Finish(Err(marker_failure_message(s.name, e))))
            } else {
                (done, SwapActionView::Finish(Ok(success_message(s.name, strategy))))
            },
            None => (done, SwapActionView::Finish(Ok(success_message(s.name, strategy)))),
        },
        SwapPhase::Finished => (done, SwapActionView::Finish(Err("The switch is over."@))),
    }
}

/// Builds the message of a switch that succeeded.
pub fn make_success_message(name: &str, strategy: Strategy) -> (m: String)
    ensures
        m@ == success_message(name@, strategy),
{
    match strategy {
        Strategy::Link => concat3("Mods switched to '", name, "' using a link."),
        Strategy::HardLinks => concat3("Mods switched to '", name, "' using hard links."),
        Strategy::Copy => concat3("Mods switched to '", name, "' using a copy."),
    }
}

impl Swapper {
    /// Starts the switch to the modpack `name`, given what the mod
    /// directory is now.
    pub fn start(name: &str, target: TargetKind) -> (r: (Self, SwapAction))
        ensures
            (r.0@, r.1@) == start_of(name@, target),
    {
        let mut s = Swapper {
            name: name.to_owned(),
            phase: SwapPhase::Cleaning,
            link_error: String::new(),
            hard_link_error: String::new(),
        };
        match target {
            TargetKind::Link => (s, SwapAction::RemoveLink),
            TargetKind::Directory => (s, SwapAction::RemoveTree),
            _ => {
                s.phase = SwapPhase::Linking;
                (s, SwapAction::MakeLink)
            },
        }
    }

    /// The name of the modpack.
    pub fn name(&self) -> (n: &String)
        ensures
            n@ == self@.name,
    {
        &self.name
    }

    /// What the swapper is waiting for.
    pub fn phase(&self) -> (p: SwapPhase)
        ensures
            p == self@.phase,
    {
        self.phase
    }

    /// Takes the outcome of the attempt handed out last and hands out the
    /// next action.
    pub fn step(&mut self, outcome: Result<(), String>) -> (action: SwapAction)
        ensures
            (final(self)@, action@) == step_of(old(self)@, failure_of(outcome)),
    {
        match self.phase {
            SwapPhase::Cleaning => {
                self.phase = SwapPhase::Linking;
                SwapAction::MakeLink
            },
            SwapPhase::Linking => match outcome {
                Ok(_) => {
                    self.phase = SwapPhase::Marking(Strategy::Link);
                    SwapAction::WriteMarker { name: self.name.clone() }
                },
                Err(e) => {
                    self.link_error = e;
                    self.phase = SwapPhase::HardLinking;
                    SwapAction::MakeHardLinks
                },
            },
            SwapPhase::HardLinking => match outcome {
                Ok(_) => {
                    self.phase = SwapPhase::Marking(Strategy::HardLinks);
                    SwapAction::WriteMarker { name: self.name.clone() }
                },
                Err(e) => {
                    self.hard_link_error = e;
                    self.phase = SwapPhase::Clearing;
                    SwapAction::RemoveTree
                },
            },
            SwapPhase::Clearing => {
                self.phase = SwapPhase::Copying;
                SwapAction::CopyFiles
            },
            SwapPhase::Copying => match outcome {
                Ok(_) => {
                    self.phase = SwapPhase::Marking(Strategy::Copy);
                    SwapAction::WriteMarker { name: self.name.clone() }
                },
                Err(e) => {
                    self.phase = SwapPhase::Finished;
                    let mut m = concat3(
                        "Could not switch mods.\nLink: ",
                        self.link_error.as_str(),
                        "\nHard links: ",
                    );
                    m.append(self.hard_link_error.as_str());
                    m.append("\nCopy: ");
                    m.append(e.as_str());
                    SwapAction::Finish(Err(m))
                },
            },
            SwapPhase::Marking(strategy) => {
                self.phase = SwapPhase::Finished;
                match outcome {
                    Err(e) => if strategy != Strategy::Link {
                        let mut m = concat3(
                            "Mods switched to '",
                            self.name.as_str(),
                            "' but the active marker could not be written: ",
                        );
                        m.append(e.as_str());
                        SwapAction::Finish(Err(m))
                    } else {
                        SwapAction::Finish(Ok(make_success_message(self.name.as_str(), strategy)))
                    },
                    Ok(_) => SwapAction::Finish(
                        Ok(make_success_message(self.name.as_str(), strategy)),
                    ),
                }
            },
            SwapPhase::Finished => SwapAction::Finish(Err(String::from_str("The switch is over."))),
        }
    }
}

/// A switch reports success only after it asked for the marker to be
/// written with the modpack's name; and when no link was made, only if
/// the marker was written. So after a successful switch the mod directory
/// is a link to the modpack, or the marker names the modpack, or both.
pub proof fn lemma_success_leaves_link_or_marker(s: SwapperView, outcome: Option<Seq<char>>)
    ensures
        step_of(s, outcome).1 matches SwapActionView::Finish(Ok(_)) ==> (s.phase matches SwapPhase::Marking(
            strategy,
        ) && (strategy == Strategy::Link || outcome is None)),
        step_of(s, outcome).0.phase is Marking ==> step_of(s, outcome).1 == (
        SwapActionView::WriteMarker { name: s.name }) && outcome is None,
        step_of(s, outcome).0.phase == SwapPhase::Marking(Strategy::Link) ==> s.phase
            == SwapPhase::Linking,
        step_of(s, outcome).0.name == s.name,
{
}

/// How far a switch is from its end, in steps.
pub open spec fn steps_left(phase: SwapPhase) -> nat {
    match phase {
        SwapPhase::Cleaning => 7,
        SwapPhase::Linking => 6,
        SwapPhase::HardLinking => 5,
        SwapPhase::Clearing => 4,
        SwapPhase::Copying => 3,
        SwapPhase::Marking(_) => 1,
        SwapPhase::Finished => 0,
    }
}

/// Every step brings a switch nearer to its end, and the step that ends it
/// is the one that hands out `Finish`. The strategies are tried in their
/// order: hard links only after the link failed, the copy only after the
/// hard links failed.
pub proof fn lemma_steps_in_order(s: SwapperView, outcome: Option<Seq<char>>)
    requires
        s.phase != SwapPhase::Finished,
    ensures
        steps_left(step_of(s, outcome).0.phase) < steps_left(s.phase),
        step_of(s, outcome).1 is Finish <==> step_of(s, outcome).0.phase == SwapPhase::Finished,
        step_of(s, outcome).1 is MakeHardLinks ==> s.phase == SwapPhase::Linking && outcome is Some,
        step_of(s, outcome).1 is CopyFiles ==> s.phase == SwapPhase::Clearing,
        step_of(s, outcome).0.phase == SwapPhase::Clearing ==> s.phase == SwapPhase::HardLinking
            && outcome is Some,
{
}

/// The modpack that a path names: the first of the known modpacks whose
/// name is the path's last component.
pub open spec fn linked_modpack(path: Seq<char>, known: Seq<Seq<char>>) -> Option<Seq<char>>
    decreases known.len(),
{
    if known.len() == 0 {
        None
    } else {
        match linked_modpack(path, known.drop_last()) {
            Some(name) => Some(name),
            None => if name_fits(path, known.last()) {
                Some(known.last())
            } else {
                None
            },
        }
    }
}

/// The active modpack: the one that the mod directory links to, when it is
/// a link whose target names a known modpack; else the one that the marker
/// names.
pub open spec fn active_of(
    link_target: Option<Seq<char>>,
    marker: Option<Seq<char>>,
    known: Seq<Seq<char>>,
) -> Option<Seq<char>> {
    match link_target {
        Some(path) => match linked_modpack(path, known) {
            Some(name) => Some(name),
            None => marker,
        },
        None => marker,
    }
}

/// Tells the active modpack from the target of the mod directory's link,
/// if it is one that can be read, and the content of the marker, if there
/// is one.
pub fn active_modpack(link_target: Option<&str>, marker: Option<&str>, known: &Vec<String>) -> (r:
    Option<String>)
    ensures
        r.deep_view() == active_of(
            match link_target {
                Some(p) => Some(p@),
                None => None,
            },
            match marker {
                Some(m) => Some(m@),
                None => None,
            },
            known.deep_view(),
        ),
{
    if let Some(path) = link_target {
        let mut i: usize = 0;
        while i < known.len()
            invariant
                i <= known.len(),
                link_target == Some(path),
                linked_modpack(path@, known.deep_view().take(i as int)) is None,
            decreases known.len() - i,
        {
            assert(known.deep_view().take(i + 1).drop_last() =~= known.deep_view().take(i as int));
            assert(known.deep_view().take(i + 1).last() == known@[i as int]@);
            if entry_matches(path, known[i].as_str()) {
                proof {
                    let shorter = known.deep_view().take(i + 1);
                    assert(linked_modpack(path@, shorter.drop_last()) is None);
                    assert(linked_modpack(path@, shorter) == Some(known@[i as int]@));
                    lemma_linked_stays(path@, known.deep_view(), i + 1);
                }
                return Some(known[i].clone());
            }
            i += 1;
        }
        assert(known.deep_view().take(known.len() as int) =~= known.deep_view());
    }
    match marker {
        Some(m) => Some(m.to_owned()),
        None => None,
    }
}

/// A modpack found among the first known ones is the one found among all.
pub proof fn lemma_linked_stays(path: Seq<char>, known: Seq<Seq<char>>, n: int)
    requires
        0 <= n <= known.len(),
        linked_modpack(path, known.take(n)) is Some,
    ensures
        linked_modpack(path, known) == linked_modpack(path, known.take(n)),
    decreases known.len() - n,
{
    if n < known.len() {
        assert(known.take(n + 1).drop_last() =~= known.take(n));
        lemma_linked_stays(path, known, n + 1);
    } else {
        assert(known.take(n) =~= known);
    }
}

/// Whether the modpack `name` is the active one.
pub fn is_active(link_target: Option<&str>, marker: Option<&str>, known: &Vec<String>, name: &str) -> (b:
    bool)
    ensures
        b == (active_of(
            match link_target {
                Some(p) => Some(p@),
                None => None,
            },
            match marker {
                Some(m) => Some(m@),
                None => None,
            },
            known.deep_view(),
        ) == Some(name@)),
{
    match active_modpack(link_target, marker, known) {
        Some(active) => str_eq(active.as_str(), name),
        None => false,
    }
}

/// The name that the marker file holds: its content without the white
/// space around it.
pub fn read_active_marker(content: &str) -> (name: String)
    ensures
        name@ == trimmed(content@),
{
    let chars = chars_of(content);
    let (start, end) = trim_bounds(chars.as_slice());
    let core = slice_to_vec(chars.as_slice(), start, end);
    string_of(core.as_slice())
}

/// A file is a partial download when its name ends in `.part` after at
/// least one other character.
pub open spec fn is_partial_name(name: Seq<char>) -> bool {
    name.len() > 5 && has_suffix(name, ".part"@)
}

/// Whether a file is a partial download, to be removed when found at
/// start-up.
pub fn is_partial_download(name: &str) -> (b: bool)
    ensures
        b == is_partial_name(name@),
{
    let n = chars_of(name);
    let part = chars_of(".part");
    n.len() > 5 && ends_with(n.as_slice(), part.as_slice())
}

/// The name of the marker file, in the game's directory.
pub fn active_marker_name() -> (name: String)
    ensures
        name@ == "mods_updater_active_modpack.txt"@,
{
    String::from_str("mods_updater_active_modpack.txt")
}

} // verus!
