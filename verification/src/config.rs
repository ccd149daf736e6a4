//! Vote configurations: voters, policies, and each voter's delegation table.

use vstd::prelude::*;

verus! {

use crate::policy::{match_by_string, str_eq, Policy};

/// One delegation entry: a fraction of the voter's weight, directed at the
/// target with the given name (another voter, or a policy).
pub struct VoteEntry {
    /// The name of the target.
    pub target: String,
    /// The fixed-point weight directed at the target.
    pub weight: u64,
}

/// A voter's delegation table: the entries, in the order they were supplied.
/// A later entry for the same resolved target overwrites an earlier one.
pub struct VoteRecord {
    /// The name of the voter the record belongs to.
    pub voter: String,
    /// The voter's delegation entries.
    pub entries: Vec<VoteEntry>,
}

/// A vote configuration: the ordered voter list, the ordered policy list,
/// and one delegation record per voter.
pub struct Setting {
    /// An optional display title; never read by the core.
    pub title: Option<String>,
    /// The ordered voter names; the position defines the voter's index.
    pub voters: Vec<String>,
    /// The ordered policies; the position defines the policy's index.
    pub policies: Vec<Policy>,
    /// The delegation records.
    pub votes: Vec<VoteRecord>,
}

/// The index of the first voter at or after position `i` whose name is `key`.
pub open spec fn find_voter(voters: Seq<String>, key: Seq<char>, i: nat) -> Option<int>
    decreases voters.len() - i,
{
    if i >= voters.len() {
        None
    } else if voters[i as int]@ == key {
        Some(i as int)
    } else {
        find_voter(voters, key, i + 1)
    }
}

/// The index of the first policy at or after position `i` whose primary name
/// is `key`.
pub open spec fn find_policy(policies: Seq<Policy>, key: Seq<char>, i: nat) -> Option<int>
    decreases policies.len() - i,
{
    if i >= policies.len() {
        None
    } else if policies[i as int].spec_name() == key {
        Some(i as int)
    } else {
        find_policy(policies, key, i + 1)
    }
}

/// Returns the index of the first voter named `key`, if any.
pub(crate) fn position_voter(voters: &Vec<String>, key: &str) -> (r: Option<usize>)
    ensures
        r matches Some(i) ==> i < voters@.len() && Some(i as int) == find_voter(voters@, key@, 0),
        r is None ==> find_voter(voters@, key@, 0) is None,
{
    let mut i: usize = 0;
    while i < voters.len()
        invariant
            i <= voters@.len(),
            find_voter(voters@, key@, 0) == find_voter(voters@, key@, i as nat),
        decreases voters@.len() - i,
    {
        if str_eq(voters[i].as_str(), key) {
            return Some(i);
        }
        i += 1;
    }
    None
}

/// Returns the index of the first policy whose primary name is `key`, if any.
pub(crate) fn position_policy(policies: &Vec<Policy>, key: &str) -> (r: Option<usize>)
    ensures
        r matches Some(i) ==> i < policies@.len() && Some(i as int) == find_policy(
            policies@,
            key@,
            0,
        ),
        r is None ==> find_policy(policies@, key@, 0) is None,
{
    let mut i: usize = 0;
    while i < policies.len()
        invariant
            i <= policies@.len(),
            find_policy(policies@, key@, 0) == find_policy(policies@, key@, i as nat),
        decreases policies@.len() - i,
    {
        if match_by_string(&policies[i], key) {
            return Some(i);
        }
        i += 1;
    }
    None
}

impl Setting {
    /// Appends a voter of the given name to the voter list.
    pub fn add_voter(&mut self, p: &str)
        ensures
            final(self).voters@.len() == old(self).voters@.len() + 1,
            forall|i: int|
                0 <= i < old(self).voters@.len() ==> final(self).voters@[i] == old(
                    self,
                ).voters@[i],
            final(self).voters@[old(self).voters@.len() as int]@ == p@,
            final(self).title == old(self).title,
            final(self).policies == old(self).policies,
            final(self).votes == old(self).votes,
    {
        self.voters.push(p.to_owned());
    }

    /// Removes the first voter of the given name, returning its former index;
    /// leaves the configuration unchanged when no voter carries the name.
    pub fn delete_voter(&mut self, p: &str) -> (r: Option<usize>)
        ensures
            r matches Some(i) ==> {
                &&& Some(i as int) == find_voter(old(self).voters@, p@, 0)
                &&& final(self).voters@ == old(self).voters@.remove(i as int)
            },
            r is None ==> {
                &&& find_voter(old(self).voters@, p@, 0) is None
                &&& final(self).voters == old(self).voters
            },
            final(self).title == old(self).title,
            final(self).policies == old(self).policies,
            final(self).votes == old(self).votes,
    {
        if let Some(index) = position_voter(&self.voters, p) {
            self.voters.remove(index);
            return Some(index);
        }
        None
    }

    /// Appends a policy to the policy list.
    pub fn add_policy(&mut self, p: Policy)
        ensures
            final(self).policies@ == old(self).policies@.push(p),
            final(self).title == old(self).title,
            final(self).voters == old(self).voters,
            final(self).votes == old(self).votes,
    {
        self.policies.push(p);
    }

    /// Removes the first policy whose primary name is `p`, returning its
    /// former index; leaves the configuration unchanged when none matches.
    pub fn delete_policy(&mut self, p: &str) -> (r: Option<usize>)
        ensures
            r matches Some(i) ==> {
                &&& Some(i as int) == find_policy(old(self).policies@, p@, 0)
                &&& final(self).policies@ == old(self).policies@.remove(i as int)
            },
            r is None ==> {
                &&& find_policy(old(self).policies@, p@, 0) is None
                &&& final(self).policies == old(self).policies
            },
            final(self).title == old(self).title,
            final(self).voters == old(self).voters,
            final(self).votes == old(self).votes,
    {
        if let Some(index) = position_policy(&self.policies, p) {
            self.policies.remove(index);
            return Some(index);
        }
        None
    }
}

} // verus!
