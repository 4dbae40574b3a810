//! The download plan for the dependencies of a mod.
//!
//! The expander walks the required dependencies breadth first. Like the
//! resolver it is a state machine: it hands out the id to resolve next and
//! takes in what the resolver found for it. It never downloads anything.

use vstd::prelude::*;
use crate::resolver::{InfoView, ModDownloadInfo};
use crate::text::{clone_strings, list_contains};

verus! {

/// One entry of the plan: a dependency by the id it was asked for under,
/// and the file found for it.
#[derive(Debug, PartialEq, Eq)]
pub struct PlannedDownload {
    pub id: String,
    pub info: ModDownloadInfo,
}

impl DeepView for PlannedDownload {
    type V = (Seq<char>, InfoView);

    open spec fn deep_view(&self) -> (Seq<char>, InfoView) {
        (self.id@, self.info@)
    }
}

/// What the caller is to do next: resolve an id, with an empty name, for
/// the game version and loader of the expansion, or take the finished plan.
#[derive(Debug, PartialEq, Eq)]
pub enum ExpanderAction {
    Find { id: String },
    Done,
}

/// Mathematical value of an [`ExpanderAction`].
pub ghost enum ExpandView {
    Find { id: Seq<char> },
    Done,
}

impl View for ExpanderAction {
    type V = ExpandView;

    open spec fn view(&self) -> ExpandView {
        match self {
            ExpanderAction::Find { id } => ExpandView::Find { id: id@ },
            ExpanderAction::Done => ExpandView::Done,
        }
    }
}

/// The state of an expansion.
pub struct Expander {
    visited: Vec<String>,
    seeded: usize,
    queue: Vec<String>,
    head: usize,
    plan: Vec<PlannedDownload>,
    waiting: bool,
}

/// Mathematical value of an [`Expander`].
pub ghost struct ExpanderView {
    /// The ids that will not be asked for (again): first the root and what
    /// is installed, then every id asked for so far, in that order.
    pub visited: Seq<Seq<char>>,
    /// How many of them are the root and what is installed.
    pub seeded: nat,
    /// The ids still to look at, first in first out.
    pub queue: Seq<Seq<char>>,
    /// What was found so far.
    pub plan: Seq<(Seq<char>, InfoView)>,
    /// Whether an answer is awaited for the id visited last.
    pub waiting: bool,
}

impl View for Expander {
    type V = ExpanderView;

    closed spec fn view(&self) -> ExpanderView {
        ExpanderView {
            visited: self.visited.deep_view(),
            seeded: self.seeded as nat,
            queue: self.queue.deep_view().skip(self.head as int),
            plan: self.plan.deep_view(),
            waiting: self.waiting,
        }
    }
}

/// The queue from its first id on that has not been visited.
pub open spec fn skip_visited(visited: Seq<Seq<char>>, queue: Seq<Seq<char>>) -> Seq<Seq<char>>
    decreases queue.len(),
{
    if queue.len() > 0 && visited.contains(queue[0]) {
        skip_visited(visited, queue.drop_first())
    } else {
        queue
    }
}

/// Moving on: the first id of the queue that has not been visited is
/// marked visited and asked for; with no such id the plan is done.
pub open spec fn advance(s: ExpanderView) -> (ExpanderView, ExpandView) {
    let rest = skip_visited(s.visited, s.queue);
    if rest.len() == 0 {
        (ExpanderView { queue: rest, waiting: false, ..s }, ExpandView::Done)
    } else {
        (
            ExpanderView {
                visited: s.visited.push(rest[0]),
                queue: rest.drop_first(),
                waiting: true,
                ..s
            },
            ExpandView::Find { id: rest[0] },
        )
    }
}

/// The state an expansion starts in: the root and the installed ids count
/// as visited, and the root's direct dependencies wait in the queue.
pub open spec fn initial(
    root_id: Seq<char>,
    root_dependencies: Seq<Seq<char>>,
    installed_ids: Seq<Seq<char>>,
) -> ExpanderView {
    ExpanderView {
        visited: seq![root_id] + installed_ids,
        seeded: 1 + installed_ids.len(),
        queue: root_dependencies,
        plan: Seq::empty(),
        waiting: false,
    }
}

/// One step: a file found for the id asked for last goes into the plan and
/// its required dependencies to the end of the queue; then the expansion
/// moves on.
pub open spec fn step_of(s: ExpanderView, found: Option<InfoView>) -> (ExpanderView, ExpandView) {
    match found {
        Some(info) => if s.waiting && s.visited.len() > 0 {
            advance(
                ExpanderView {
                    plan: s.plan.push((s.visited.last(), info)),
                    queue: s.queue + info.dependencies,
                    ..s
                },
            )
        } else {
            advance(s)
        },
        None => advance(s),
    }
}

/// The ids asked for so far.
pub open spec fn requested(s: ExpanderView) -> Seq<Seq<char>> {
    s.visited.skip(s.seeded as int)
}

/// The ids asked for so far whose answer has come.
pub open spec fn answered(s: ExpanderView) -> Seq<Seq<char>> {
    if s.waiting {
        requested(s).drop_last()
    } else {
        requested(s)
    }
}

/// The elements of `s` are pairwise different.
pub open spec fn distinct(s: Seq<Seq<char>>) -> bool {
    forall|i: int, j: int| 0 <= i < j < s.len() ==> s[i] != s[j]
}

/// The ids of the entries of a plan.
pub open spec fn plan_ids(plan: Seq<(Seq<char>, InfoView)>) -> Seq<Seq<char>> {
    plan.map_values(|p: (Seq<char>, InfoView)| p.0)
}

/// A state is consistent: no id was asked for twice or is among the seeds,
/// and the plan holds, in the order of asking, ids that were asked for and
/// answered.
pub open spec fn state_wf(s: ExpanderView) -> bool {
    &&& 1 <= s.seeded <= s.visited.len()
    &&& s.waiting ==> s.seeded < s.visited.len()
    &&& distinct(requested(s))
    &&& forall|i: int|
        0 <= i < requested(s).len() ==> !s.visited.take(s.seeded as int).contains(
            #[trigger] requested(s)[i],
        )
    &&& distinct(plan_ids(s.plan))
    &&& forall|i: int|
        0 <= i < s.plan.len() ==> answered(s).contains(#[trigger] plan_ids(s.plan)[i])
}

/// Skipping visited ids leaves a tail of the queue that is empty or starts
/// with an id that has not been visited.
pub proof fn lemma_skip_visited(visited: Seq<Seq<char>>, queue: Seq<Seq<char>>)
    ensures
        ({
            let rest = skip_visited(visited, queue);
            &&& rest.len() <= queue.len()
            &&& rest == queue.skip(queue.len() - rest.len())
            &&& rest.len() > 0 ==> !visited.contains(rest[0])
        }),
    decreases queue.len(),
{
    if queue.len() > 0 && visited.contains(queue[0]) {
        lemma_skip_visited(visited, queue.drop_first());
        let rest = skip_visited(visited, queue);
        assert(queue.drop_first().skip(queue.len() - 1 - rest.len()) =~= queue.skip(
            queue.len() - rest.len(),
        ));
    } else {
        assert(queue.skip(0) =~= queue);
    }
}

/// Moving on keeps a state consistent, provided no answer is awaited.
pub proof fn lemma_advance_wf(s: ExpanderView)
    requires
        state_wf(s),
        !s.waiting,
    ensures
        state_wf(advance(s).0),
{
    lemma_skip_visited(s.visited, s.queue);
    let rest = skip_visited(s.visited, s.queue);
    let t = advance(s).0;
    if rest.len() > 0 {
        let id = rest[0];
        assert(requested(t) =~= requested(s).push(id));
        assert(answered(t) =~= requested(s));
        assert(t.visited.take(t.seeded as int) =~= s.visited.take(s.seeded as int));
        assert forall|i: int, j: int| 0 <= i < j < requested(t).len() implies requested(t)[i]
            != requested(t)[j] by {
            if j == requested(s).len() {
                assert(requested(s)[i] == s.visited[s.seeded + i]);
                assert(s.visited.contains(requested(s)[i]));
            }
        }
        assert forall|i: int| 0 <= i < requested(t).len() implies !t.visited.take(
            t.seeded as int,
        ).contains(#[trigger] requested(t)[i]) by {
            if i == requested(s).len() {
                if s.visited.take(s.seeded as int).contains(id) {
                    let k = choose|k: int|
                        0 <= k < s.seeded && s.visited.take(s.seeded as int)[k] == id;
                    assert(s.visited[k] == id);
                }
            } else {
                assert(requested(t)[i] == requested(s)[i]);
            }
        }
    }
}

/// Every step keeps a state consistent.
pub proof fn lemma_step_wf(s: ExpanderView, found: Option<InfoView>)
    requires
        state_wf(s),
    ensures
        state_wf(step_of(s, found).0),
{
    let mid = match found {
        Some(info) => if s.waiting && s.visited.len() > 0 {
            ExpanderView {
                plan: s.plan.push((s.visited.last(), info)),
                queue: s.queue + info.dependencies,
                waiting: false,
                ..s
            }
        } else {
            ExpanderView { waiting: false, ..s }
        },
        None => ExpanderView { waiting: false, ..s },
    };
    assert(advance(mid) == step_of(s, found));
    assert(requested(mid) == requested(s));
    if s.waiting {
        let id = s.visited.last();
        let req = requested(s);
        assert(req.last() == id);
        assert(answered(s) == req.drop_last());
        assert(answered(mid) =~= req);
        assert forall|i: int| 0 <= i < s.plan.len() implies #[trigger] plan_ids(s.plan)[i] != id
            && answered(mid).contains(plan_ids(s.plan)[i]) by {
            let x = plan_ids(s.plan)[i];
            assert(answered(s).contains(x));
            let k = choose|k: int| 0 <= k < answered(s).len() && answered(s)[k] == x;
            assert(req[k] == x);
            assert(req[k] != req[req.len() - 1]);
        }
        if found is Some {
            assert(plan_ids(mid.plan) =~= plan_ids(s.plan).push(id));
            assert(req[req.len() - 1] == id);
            assert(answered(mid).contains(id));
        } else {
            assert(mid.plan == s.plan);
        }
    } else {
        assert(answered(mid) == answered(s));
        assert(mid.plan == s.plan);
    }
    lemma_advance_wf(mid);
}

/// The state an expansion starts in is consistent, and so is the state
/// after its first move.
pub proof fn lemma_initial_wf(
    root_id: Seq<char>,
    root_dependencies: Seq<Seq<char>>,
    installed_ids: Seq<Seq<char>>,
)
    ensures
        state_wf(initial(root_id, root_dependencies, installed_ids)),
        state_wf(advance(initial(root_id, root_dependencies, installed_ids)).0),
{
    let s = initial(root_id, root_dependencies, installed_ids);
    assert(requested(s) =~= Seq::<Seq<char>>::empty());
    lemma_advance_wf(s);
}

/// In a consistent state the plan names no id twice, and none that is the
/// root or installed.
pub proof fn lemma_plan_is_new_and_distinct(
    s: ExpanderView,
    root_id: Seq<char>,
    installed_ids: Seq<Seq<char>>,
)
    requires
        state_wf(s),
        s.visited.take(s.seeded as int) == seq![root_id] + installed_ids,
    ensures
        distinct(plan_ids(s.plan)),
        forall|i: int|
            0 <= i < s.plan.len() ==> (#[trigger] s.plan[i]).0 != root_id && !installed_ids.contains(
                s.plan[i].0,
            ),
{
    let seeds = seq![root_id] + installed_ids;
    assert forall|i: int| 0 <= i < s.plan.len() implies (#[trigger] s.plan[i]).0 != root_id
        && !installed_ids.contains(s.plan[i].0) by {
        let id = plan_ids(s.plan)[i];
        let k = choose|k: int| 0 <= k < answered(s).len() && answered(s)[k] == id;
        assert(requested(s)[k] == id);
        assert(!seeds.contains(id));
        assert(seeds[0] == root_id);
        if installed_ids.contains(id) {
            let m = choose|m: int| 0 <= m < installed_ids.len() && installed_ids[m] == id;
            assert(seeds[m + 1] == id);
        }
    }
}

/// An expansion comes to an end: every request is for an id that was not
/// asked for before, so over registries that know `universe` and no other
/// ids, no more requests are made than there are ids.
pub proof fn lemma_requests_bounded(
    s: ExpanderView,
    found: Option<InfoView>,
    universe: Set<Seq<char>>,
)
    requires
        state_wf(s),
        universe.finite(),
        forall|i: int| 0 <= i < requested(s).len() ==> universe.contains(#[trigger] requested(s)[i]),
    ensures
        requested(s).len() <= universe.len(),
        step_of(s, found).1 matches ExpandView::Find { id } ==> !s.visited.contains(id)
            && requested(step_of(s, found).0) == requested(s).push(id),
        step_of(s, found).1 is Done ==> requested(step_of(s, found).0) == requested(s),
{
    let asked = requested(s);
    assert(asked.no_duplicates());
    asked.unique_seq_to_set();
    assert(asked.to_set().subset_of(universe)) by {
        assert forall|id: Seq<char>| asked.to_set().contains(id) implies universe.contains(id) by {
            let i = choose|i: int| 0 <= i < asked.len() && asked[i] == id;
            assert(universe.contains(requested(s)[i]));
        }
    }
    vstd::set_lib::lemma_len_subset(asked.to_set(), universe);
    let mid = match found {
        Some(info) => if s.waiting && s.visited.len() > 0 {
            ExpanderView {
                plan: s.plan.push((s.visited.last(), info)),
                queue: s.queue + info.dependencies,
                ..s
            }
        } else {
            s
        },
        None => s,
    };
    lemma_skip_visited(mid.visited, mid.queue);
    let next = step_of(s, found).0;
    assert(requested(next) =~= if step_of(s, found).1 is Find {
        requested(s).push(skip_visited(mid.visited, mid.queue)[0])
    } else {
        requested(s)
    });
}

/// The seeds of an expansion never change.
pub proof fn lemma_seeds_stay(s: ExpanderView, found: Option<InfoView>)
    requires
        state_wf(s),
    ensures
        step_of(s, found).0.seeded == s.seeded,
        step_of(s, found).0.visited.take(s.seeded as int) == s.visited.take(s.seeded as int),
{
    let t = step_of(s, found).0;
    assert(t.visited.take(s.seeded as int) =~= s.visited.take(s.seeded as int));
}

impl Expander {
    /// The state is consistent.
    pub closed spec fn wf(&self) -> bool {
        self.head <= self.queue.len() && state_wf(self@)
    }

    /// A consistent state has a consistent value.
    pub proof fn lemma_wf(&self)
        requires
            self.wf(),
        ensures
            state_wf(self@),
    {
    }

    fn next(&mut self) -> (action: ExpanderAction)
        requires
            old(self).head <= old(self).queue.len(),
        ensures
            (final(self)@, action@) == advance(old(self)@),
            final(self).head <= final(self).queue.len(),
    {
        let ghost before = self@;
        while self.head < self.queue.len()
            invariant
                self.head <= self.queue.len(),
                before == old(self)@,
                self.visited == old(self).visited,
                self.seeded == old(self).seeded,
                self.plan == old(self).plan,
                self.queue == old(self).queue,
                skip_visited(before.visited, self@.queue) == skip_visited(
                    before.visited,
                    before.queue,
                ),
            decreases self.queue.len() - self.head,
        {
            let ghost rest = self@.queue;
            assert(rest[0] == self.queue@[self.head as int]@);
            assert(rest.drop_first() =~= self.queue.deep_view().skip(self.head + 1));
            assert(self.visited.deep_view() == before.visited);
            if list_contains(&self.visited, self.queue[self.head].as_str()) {
                self.head = self.head + 1;
                assert(self@.queue == rest.drop_first());
                assert(skip_visited(before.visited, rest) == skip_visited(
                    before.visited,
                    rest.drop_first(),
                ));
            } else {
                let id = self.queue[self.head].clone();
                let ghost seen = self.visited.deep_view();
                self.visited.push(id.clone());
                self.head = self.head + 1;
                self.waiting = true;
                assert(self.visited.deep_view() =~= seen.push(id@));
                assert(self@.queue == rest.drop_first());
                assert(skip_visited(before.visited, rest) == rest);
                assert(self.plan.deep_view() == before.plan);
                return ExpanderAction::Find { id };
            }
        }
        assert(self@.queue =~= Seq::<Seq<char>>::empty());
        self.waiting = false;
        ExpanderAction::Done
    }

    /// Starts an expansion below `root_id`, whose file requires
    /// `root_dependencies`; nothing in `installed_ids` will be asked for.
    pub fn start(root_id: &str, root_dependencies: &Vec<String>, installed_ids: &Vec<String>) -> (r:
        (Self, ExpanderAction))
        requires
            installed_ids.len() < usize::MAX,
        ensures
            (r.0@, r.1@) == advance(
                initial(root_id@, root_dependencies.deep_view(), installed_ids.deep_view()),
            ),
            r.0.wf(),
    {
        let mut visited: Vec<String> = Vec::new();
        visited.push(root_id.to_owned());
        let mut i: usize = 0;
        while i < installed_ids.len()
            invariant
                i <= installed_ids.len(),
                visited.deep_view() == seq![root_id@] + installed_ids.deep_view().take(i as int),
            decreases installed_ids.len() - i,
        {
            let ghost seen = visited.deep_view();
            visited.push(installed_ids[i].clone());
            assert(installed_ids.deep_view()[i as int] == installed_ids@[i as int]@);
            assert(visited.deep_view() =~= seen.push(installed_ids@[i as int]@));
            assert(visited.deep_view() =~= seq![root_id@] + installed_ids.deep_view().take(i + 1));
            i += 1;
        }
        assert(installed_ids.deep_view().take(installed_ids.len() as int)
            =~= installed_ids.deep_view());
        let mut e = Expander {
            visited,
            seeded: 1 + installed_ids.len(),
            queue: clone_strings(root_dependencies),
            head: 0,
            plan: Vec::new(),
            waiting: false,
        };
        proof {
            assert(e.queue.deep_view().skip(0) =~= root_dependencies.deep_view());
            assert(e.plan.deep_view() =~= Seq::<(Seq<char>, InfoView)>::empty());
            lemma_initial_wf(root_id@, root_dependencies.deep_view(), installed_ids.deep_view());
        }
        let action = e.next();
        (e, action)
    }

    /// Takes what the resolver found for the id asked for last, `None` for
    /// a miss, and hands out the next id.
    pub fn step(&mut self, found: Option<ModDownloadInfo>) -> (action: ExpanderAction)
        requires
            old(self).wf(),
        ensures
            (final(self)@, action@) == step_of(old(self)@, found.deep_view()),
            final(self).wf(),
    {
        proof {
            lemma_step_wf(self@, found.deep_view());
        }
        if let Some(info) = found {
            if self.waiting && self.visited.len() > 0 {
                let ghost old_queue = self.queue.deep_view();
                let ghost deps = info@.dependencies;
                let mut i: usize = 0;
                while i < info.dependencies.len()
                    invariant
                        i <= info.dependencies.len(),
                        deps == info@.dependencies,
                        self.head <= self.queue.len(),
                        self.head == old(self).head,
                        self.visited == old(self).visited,
                        self.seeded == old(self).seeded,
                        self.plan == old(self).plan,
                        self.waiting == old(self).waiting,
                        self.queue.deep_view() == old_queue + deps.take(i as int),
                    decreases info.dependencies.len() - i,
                {
                    let ghost q = self.queue.deep_view();
                    self.queue.push(info.dependencies[i].mod_id.clone());
                    assert(deps[i as int] == info.dependencies@[i as int].mod_id@);
                    assert(self.queue.deep_view() =~= q.push(deps[i as int]));
                    assert(self.queue.deep_view() =~= old_queue + deps.take(i + 1));
                    i += 1;
                }
                assert(deps.take(deps.len() as int) =~= deps);
                let id = self.visited[self.visited.len() - 1].clone();
                let ghost old_plan = self.plan.deep_view();
                let ghost entry = (id@, info@);
                self.plan.push(PlannedDownload { id, info });
                assert(self.plan.deep_view() =~= old_plan.push(entry));
                assert(self@.queue =~= old(self)@.queue + deps);
            }
        }
        self.next()
    }

    /// Whether an answer is awaited.
    pub fn is_waiting(&self) -> (b: bool)
        ensures
            b == self@.waiting,
    {
        self.waiting
    }

    /// The plan: the files found, in the order in which their ids were
    /// asked for.
    pub fn into_plan(self) -> (plan: Vec<PlannedDownload>)
        ensures
            plan.deep_view() == self@.plan,
    {
        self.plan
    }
}

/// The entries of a plan whose file is not among `present`, in their
/// order.
pub open spec fn new_files(plan: Seq<(Seq<char>, InfoView)>, present: Seq<Seq<char>>) -> Seq<
    (Seq<char>, InfoView),
>
    decreases plan.len(),
{
    if plan.len() == 0 {
        Seq::empty()
    } else {
        let rest = new_files(plan.drop_last(), present);
        if present.contains(plan.last().1.filename) {
            rest
        } else {
            rest.push(plan.last())
        }
    }
}

/// Drops from a plan the entries whose file name is already present on
/// disk.
pub fn skip_present_files(plan: Vec<PlannedDownload>, present: &Vec<String>) -> (kept: Vec<
    PlannedDownload,
>)
    ensures
        kept.deep_view() == new_files(plan.deep_view(), present.deep_view()),
{
    let ghost all = plan.deep_view();
    let ghost raw = plan@;
    let mut kept: Vec<PlannedDownload> = Vec::new();
    assert(kept.deep_view() =~= Seq::<(Seq<char>, InfoView)>::empty());
    for entry in it: plan.into_iter()
        invariant
            it.seq() == raw,
            all.len() == raw.len(),
            forall|j: int| 0 <= j < raw.len() ==> all[j] == (#[trigger] raw[j]).deep_view(),
            kept.deep_view() == new_files(all.take(it.index() as int), present.deep_view()),
    {
        assert(all.take(it.index() + 1).drop_last() =~= all.take(it.index() as int));
        assert(all.take(it.index() + 1).last() == entry.deep_view());
        let ghost before = kept.deep_view();
        if !list_contains(present, entry.info.filename.as_str()) {
            kept.push(entry);
            assert(kept.deep_view() =~= before.push(entry.deep_view()));
        }
    }
    assert(all.take(all.len() as int) =~= all);
    kept
}

} // verus!
