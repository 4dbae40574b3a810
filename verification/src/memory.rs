//! What is known about mods that cause trouble, and how to mend each.

use vstd::prelude::*;
use crate::text::{eq_ignore_ascii_case, same_ignoring_ascii_case};

verus! {

/// What to do about a mod that causes trouble.
#[derive(Debug, PartialEq, Eq)]
pub enum FixAction {
    Rename { target_name: String },
    EditMetadata { field: String, new_value: String },
    Delete,
    Ignore,
    ManualReview,
}

/// A known issue: the mod, by id or name, what is wrong with it and what
/// to do about it. With `auto_apply` the fix is applied without asking.
#[derive(Debug, PartialEq, Eq)]
pub struct KnownIssue {
    pub mod_id_or_name: String,
    pub issue_description: String,
    pub fix: FixAction,
    pub auto_apply: bool,
}

/// The known issues, at most one for a mod.
#[derive(Debug, PartialEq, Eq)]
pub struct TroubleshootMemory {
    pub issues: Vec<KnownIssue>,
}

/// The index of the first issue that is about `mod_name`, regardless of
/// the case of ASCII letters.
pub open spec fn issue_index(issues: Seq<KnownIssue>, mod_name: Seq<char>) -> Option<int>
    decreases issues.len(),
{
    if issues.len() == 0 {
        None
    } else {
        match issue_index(issues.drop_last(), mod_name) {
            Some(i) => Some(i),
            None => if same_ignoring_ascii_case(issues.last().mod_id_or_name@, mod_name) {
                Some(issues.len() - 1)
            } else {
                None
            },
        }
    }
}

/// An issue found among the first issues is the one found among all.
pub proof fn lemma_issue_index_stays(issues: Seq<KnownIssue>, mod_name: Seq<char>, n: int)
    requires
        0 <= n <= issues.len(),
        issue_index(issues.take(n), mod_name) is Some,
    ensures
        issue_index(issues, mod_name) == issue_index(issues.take(n), mod_name),
    decreases issues.len() - n,
{
    if n < issues.len() {
        assert(issues.take(n + 1).drop_last() =~= issues.take(n));
        lemma_issue_index_stays(issues, mod_name, n + 1);
    } else {
        assert(issues.take(n) =~= issues);
    }
}

impl TroubleshootMemory {
    /// A memory without issues.
    pub fn new() -> (m: Self)
        ensures
            m.issues@ == Seq::<KnownIssue>::empty(),
    {
        TroubleshootMemory { issues: Vec::new() }
    }

    /// The first known issue about `mod_name`, if there is one.
    pub fn check(&self, mod_name: &str) -> (r: Option<&KnownIssue>)
        ensures
            match r {
                Some(issue) => issue_index(self.issues@, mod_name@) matches Some(i) && *issue
                    == self.issues@[i],
                None => issue_index(self.issues@, mod_name@) is None,
            },
    {
        let mut i: usize = 0;
        while i < self.issues.len()
            invariant
                i <= self.issues.len(),
                issue_index(self.issues@.take(i as int), mod_name@) is None,
            decreases self.issues.len() - i,
        {
            assert(self.issues@.take(i + 1).drop_last() =~= self.issues@.take(i as int));
            if eq_ignore_ascii_case(self.issues[i].mod_id_or_name.as_str(), mod_name) {
                proof {
                    assert(issue_index(self.issues@.take(i + 1), mod_name@) == Some(i as int));
                    lemma_issue_index_stays(self.issues@, mod_name@, i + 1);
                }
                return Some(&self.issues[i]);
            }
            i += 1;
        }
        assert(self.issues@.take(self.issues.len() as int) =~= self.issues@);
        None
    }

    /// Remembers an issue, unless one about the same mod is known already.
    pub fn add_issue(&mut self, issue: KnownIssue)
        ensures
            final(self).issues@ == if issue_index(old(self).issues@, issue.mod_id_or_name@) is None {
                old(self).issues@.push(issue)
            } else {
                old(self).issues@
            },
    {
        let known = self.check(issue.mod_id_or_name.as_str()).is_some();
        if !known {
            self.issues.push(issue);
        }
    }
}

} // verus!
