//! The result formatter: pairs the numeric result vectors with the ordered
//! voter and policy names.

use vstd::prelude::*;

verus! {

use crate::policy::Policy;

/// A named score: one policy's vote total, or one voter's influence.
pub struct ScoreEntry {
    /// The name the score belongs to.
    pub name: String,
    /// The fixed-point score.
    pub value: u64,
}

/// The outcome of a poll: one vote total per policy and one influence score
/// per voter, each under its name, in list order.
pub struct PollResult {
    /// Per-policy vote totals.
    pub votes: Vec<ScoreEntry>,
    /// Per-voter influence scores.
    pub influence: Vec<ScoreEntry>,
}

/// Pairs the resolver's two result vectors with the ordered policy and voter
/// names: entry `i` of the vote totals goes under the name of policy `i`,
/// entry `i` of the influence scores under the name of voter `i`.
pub fn poll_result(voters: &[String], policies: &[Policy], result: (Vec<u64>, Vec<u64>)) -> (r:
    PollResult)
    requires
        result.0@.len() == policies@.len(),
        result.1@.len() == voters@.len(),
    ensures
        r.votes@.len() == policies@.len(),
        forall|i: int|
            0 <= i < policies@.len() ==> (#[trigger] r.votes@[i]).name@ == policies@[i].spec_name()
                && r.votes@[i].value == result.0@[i],
        r.influence@.len() == voters@.len(),
        forall|i: int|
            0 <= i < voters@.len() ==> (#[trigger] r.influence@[i]).name@ == voters@[i]@
                && r.influence@[i].value == result.1@[i],
{
    let (votes, influence) = result;

    let mut votes_r: Vec<ScoreEntry> = Vec::new();
    let mut i: usize = 0;
    while i < policies.len()
        invariant
            i <= policies@.len(),
            votes@.len() == policies@.len(),
            votes_r@.len() == i,
            forall|j: int|
                0 <= j < i ==> (#[trigger] votes_r@[j]).name@ == policies@[j].spec_name()
                    && votes_r@[j].value == votes@[j],
        decreases policies@.len() - i,
    {
        votes_r.push(ScoreEntry { name: policies[i].name().to_owned(), value: votes[i] });
        i += 1;
    }

    let mut influences_r: Vec<ScoreEntry> = Vec::new();
    let mut v: usize = 0;
    while v < voters.len()
        invariant
            v <= voters@.len(),
            influence@.len() == voters@.len(),
            influences_r@.len() == v,
            forall|j: int|
                0 <= j < v ==> (#[trigger] influences_r@[j]).name@ == voters@[j]@
                    && influences_r@[j].value == influence@[j],
        decreases voters@.len() - v,
    {
        influences_r.push(ScoreEntry { name: voters[v].clone(), value: influence[v] });
        v += 1;
    }

    PollResult { votes: votes_r, influence: influences_r }
}

} // verus!
