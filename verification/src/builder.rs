//! The matrix builder: turns a vote configuration into the square
//! delegation matrix that the resolver consumes.

use vstd::prelude::*;

verus! {

use crate::config::{find_policy, find_voter, position_policy, position_voter, Setting, VoteEntry,
    VoteRecord};
use crate::matrix::Matrix;
use crate::policy::{str_eq, Policy};
use crate::SCALE;

/// An error of the matrix builder.
#[derive(Debug, PartialEq, Eq, Structural)]
pub enum VoteError {
    /// A voter in the ordered voter list has no delegation record.
    MissingVoterRecord,
}

/// The row index a target name resolves to: the first voter of that name,
/// else the first policy of that name offset by the voter count, else none.
pub open spec fn resolve_spec(voters: Seq<String>, policies: Seq<Policy>, key: Seq<char>) -> Option<
    int,
> {
    match find_voter(voters, key, 0) {
        Some(i) => Some(i),
        None => match find_policy(policies, key, 0) {
            Some(j) => Some(j + voters.len()),
            None => None,
        },
    }
}

/// Resolves a target name to its row index, first against the voter list,
/// then against the policy list. Returns `None` for an unknown name.
pub fn resolve_target(voters: &Vec<String>, policies: &Vec<Policy>, key: &str) -> (r: Option<
    usize,
>)
    requires
        voters@.len() + policies@.len() <= usize::MAX,
    ensures
        r matches Some(i) ==> Some(i as int) == resolve_spec(voters@, policies@, key@),
        r is None ==> resolve_spec(voters@, policies@, key@) is None,
{
    match position_voter(voters, key) {
        Some(i) => Some(i),
        None => match position_policy(policies, key) {
            Some(j) => Some(j + voters.len()),
            None => None,
        },
    }
}

/// The value the first `k` entries of a delegation table leave in the cell
/// at the given row: the weight of the last entry among them that resolves
/// to the row, or zero when none does.
pub open spec fn cell_from_entries(
    entries: Seq<VoteEntry>,
    k: int,
    row: int,
    voters: Seq<String>,
    policies: Seq<Policy>,
) -> u64
    decreases k,
{
    if k <= 0 {
        0u64
    } else if resolve_spec(voters, policies, entries[k - 1].target@) == Some(row) {
        entries[k - 1].weight
    } else {
        cell_from_entries(entries, k - 1, row, voters, policies)
    }
}

/// The index of the first delegation record at or after position `i` that
/// belongs to the named voter.
pub open spec fn find_record(votes: Seq<VoteRecord>, name: Seq<char>, i: nat) -> Option<int>
    decreases votes.len() - i,
{
    if i >= votes.len() {
        None
    } else if votes[i as int].voter@ == name {
        Some(i as int)
    } else {
        find_record(votes, name, i + 1)
    }
}

/// Every voter in the list owns a delegation record.
pub open spec fn all_voters_have_records(voters: Seq<String>, votes: Seq<VoteRecord>) -> bool {
    forall|c: int|
        0 <= c < voters.len() ==> find_record(votes, (#[trigger] voters[c])@, 0) is Some
}

/// The delegation entries of the voter at column `c`: those of its record.
pub open spec fn entries_for(votes: Seq<VoteRecord>, voters: Seq<String>, c: int) -> Seq<
    VoteEntry,
> {
    votes[find_record(votes, voters[c]@, 0).unwrap()].entries@
}

/// The cell of the delegation matrix at `(row, c)`. A voter column holds
/// what the voter's delegation table left at the row; a policy column is
/// absorbing: the weight one on its own row, zero elsewhere.
pub open spec fn build_cell(
    voters: Seq<String>,
    policies: Seq<Policy>,
    votes: Seq<VoteRecord>,
    row: int,
    c: int,
) -> u64 {
    if c < voters.len() {
        let entries = entries_for(votes, voters, c);
        cell_from_entries(entries, entries.len() as int, row, voters, policies)
    } else if row == c {
        SCALE
    } else {
        0u64
    }
}

/// The full delegation matrix of a configuration: square, of size
/// `voters + policies`.
pub open spec fn matrix_spec(
    voters: Seq<String>,
    policies: Seq<Policy>,
    votes: Seq<VoteRecord>,
) -> Seq<Seq<u64>> {
    let s = voters.len() + policies.len();
    Seq::new(s, |row: int| Seq::new(s, |c: int| build_cell(voters, policies, votes, row, c)))
}

/// Law: for every configuration of `n` voters and `p` policies, the built
/// matrix is exactly `(n + p) x (n + p)`, and its last `p` columns are
/// absorbing: the weight one on the column's own (policy) row, zero on every
/// other row — in particular zero on all `n` voter rows.
pub proof fn lemma_matrix_shape(voters: Seq<String>, policies: Seq<Policy>, votes: Seq<VoteRecord>)
    ensures
        matrix_spec(voters, policies, votes).len() == voters.len() + policies.len(),
        crate::matrix::is_square(matrix_spec(voters, policies, votes)),
        forall|row: int, c: int|
            0 <= row < voters.len() + policies.len() && voters.len() <= c < voters.len()
                + policies.len() ==> matrix_spec(voters, policies, votes)[row][c] == (if row == c {
                SCALE
            } else {
                0u64
            }),
{
}

/// A found policy index lies within the policy list.
proof fn lemma_find_policy_in_range(policies: Seq<Policy>, key: Seq<char>, j: nat)
    ensures
        find_policy(policies, key, j) matches Some(i) ==> j <= i < policies.len(),
    decreases policies.len() - j,
{
    if j < policies.len() {
        lemma_find_policy_in_range(policies, key, j + 1);
    }
}

/// Law: in a configuration where every voter's delegation table is the
/// single entry directing the full weight one at the policy named `key` — a
/// name no voter carries — the built matrix delegates every voter column
/// fully to that policy's row, and its policy columns are absorbing.
pub proof fn lemma_full_delegation_config(
    voters: Seq<String>,
    policies: Seq<Policy>,
    votes: Seq<VoteRecord>,
    key: Seq<char>,
)
    requires
        all_voters_have_records(voters, votes),
        find_voter(voters, key, 0) is None,
        find_policy(policies, key, 0) is Some,
        forall|c: int|
            0 <= c < voters.len() ==> {
                let e = #[trigger] entries_for(votes, voters, c);
                e.len() == 1 && e[0].target@ == key && e[0].weight == SCALE
            },
    ensures
        ({
            let x = voters.len() + find_policy(policies, key, 0).unwrap();
            &&& voters.len() <= x < voters.len() + policies.len()
            &&& crate::resolver::full_delegation_matrix(
                matrix_spec(voters, policies, votes),
                voters.len() as int,
                x as int,
            )
        }),
{
    let n = voters.len() as int;
    let s = n + policies.len() as int;
    let j = find_policy(policies, key, 0).unwrap();
    lemma_find_policy_in_range(policies, key, 0);
    let x = n + j;
    let m = matrix_spec(voters, policies, votes);
    assert forall|row: int, c: int| 0 <= row < m.len() && 0 <= c < m.len() implies #[trigger] m[row][c]
        == (if (c < n && row == x) || (c >= n && row == c) {
        SCALE
    } else {
        0u64
    }) by {
        if c < n {
            let e = entries_for(votes, voters, c);
            assert(resolve_spec(voters, policies, e[0].target@) == Some(x));
            assert(cell_from_entries(e, 0, row, voters, policies) == 0u64);
            assert(m[row][c] == cell_from_entries(e, 1, row, voters, policies));
        }
    }
}

/// Law: when voter `v`'s delegation table is the single entry directing the
/// full weight one at `v`'s own name — and no earlier voter shares that name
/// — column `v` of the built matrix is the unit self-column.
pub proof fn lemma_self_delegation_config(
    voters: Seq<String>,
    policies: Seq<Policy>,
    votes: Seq<VoteRecord>,
    v: int,
)
    requires
        all_voters_have_records(voters, votes),
        0 <= v < voters.len(),
        find_voter(voters, voters[v]@, 0) == Some(v),
        entries_for(votes, voters, v).len() == 1,
        entries_for(votes, voters, v)[0].target@ == voters[v]@,
        entries_for(votes, voters, v)[0].weight == SCALE,
    ensures
        forall|k: int|
            0 <= k < matrix_spec(voters, policies, votes).len() ==> #[trigger] matrix_spec(
                voters,
                policies,
                votes,
            )[k][v] == (if k == v {
                SCALE
            } else {
                0u64
            }),
{
    let m = matrix_spec(voters, policies, votes);
    let e = entries_for(votes, voters, v);
    assert forall|k: int| 0 <= k < m.len() implies #[trigger] m[k][v] == (if k == v {
        SCALE
    } else {
        0u64
    }) by {
        assert(resolve_spec(voters, policies, e[0].target@) == Some(v));
        assert(cell_from_entries(e, 0, k, voters, policies) == 0u64);
        assert(m[k][v] == cell_from_entries(e, 1, k, voters, policies));
    }
}

/// Within the first `k` entries, an entry appended afterwards changes no cell.
proof fn lemma_cell_push_prefix(
    entries: Seq<VoteEntry>,
    e: VoteEntry,
    k: int,
    row: int,
    voters: Seq<String>,
    policies: Seq<Policy>,
)
    requires
        k <= entries.len(),
    ensures
        cell_from_entries(entries.push(e), k, row, voters, policies) == cell_from_entries(
            entries,
            k,
            row,
            voters,
            policies,
        ),
    decreases k,
{
    if k > 0 {
        assert(entries.push(e)[k - 1] == entries[k - 1]);
        lemma_cell_push_prefix(entries, e, k - 1, row, voters, policies);
    }
}

/// Law (cell level): a delegation entry whose target name matches neither a
/// voter nor a policy leaves every cell of the voter's column unchanged.
pub proof fn lemma_unresolved_entry_ignored(
    entries: Seq<VoteEntry>,
    e: VoteEntry,
    row: int,
    voters: Seq<String>,
    policies: Seq<Policy>,
)
    requires
        resolve_spec(voters, policies, e.target@) is None,
    ensures
        cell_from_entries(entries.push(e), entries.len() as int + 1, row, voters, policies)
            == cell_from_entries(entries, entries.len() as int, row, voters, policies),
{
    assert(entries.push(e)[entries.len() as int] == e);
    lemma_cell_push_prefix(entries, e, entries.len() as int, row, voters, policies);
}

/// A found record index lies within the record list.
proof fn lemma_find_record_in_range(votes: Seq<VoteRecord>, name: Seq<char>, j: nat)
    ensures
        find_record(votes, name, j) matches Some(i) ==> j <= i < votes.len(),
    decreases votes.len() - j,
{
    if j < votes.len() {
        lemma_find_record_in_range(votes, name, j + 1);
    }
}

/// Record lookup reads only the records' voter names.
proof fn lemma_find_record_names(
    votes1: Seq<VoteRecord>,
    votes2: Seq<VoteRecord>,
    name: Seq<char>,
    j: nat,
)
    requires
        votes1.len() == votes2.len(),
        forall|i: int| 0 <= i < votes1.len() ==> (#[trigger] votes2[i]).voter@ == votes1[i].voter@,
    ensures
        find_record(votes2, name, j) == find_record(votes1, name, j),
    decreases votes1.len() - j,
{
    if j < votes1.len() {
        lemma_find_record_names(votes1, votes2, name, j + 1);
    }
}

/// Law (matrix level): appending a delegation entry whose target resolves to
/// no row — to any one voter's record — leaves the whole delegation matrix
/// unchanged, and leaves the builder's success or failure unchanged for
/// every voter.
pub proof fn lemma_unresolved_target_ignored(
    voters: Seq<String>,
    policies: Seq<Policy>,
    votes1: Seq<VoteRecord>,
    votes2: Seq<VoteRecord>,
    i: int,
    e: VoteEntry,
)
    requires
        votes1.len() == votes2.len(),
        0 <= i < votes1.len(),
        forall|j: int| 0 <= j < votes1.len() && j != i ==> #[trigger] votes2[j] == votes1[j],
        votes2[i].voter@ == votes1[i].voter@,
        votes2[i].entries@ == votes1[i].entries@.push(e),
        resolve_spec(voters, policies, e.target@) is None,
        all_voters_have_records(voters, votes1),
    ensures
        matrix_spec(voters, policies, votes2) == matrix_spec(voters, policies, votes1),
        all_voters_have_records(voters, votes2) == all_voters_have_records(voters, votes1),
{
    assert forall|j: int| 0 <= j < votes1.len() implies (#[trigger] votes2[j]).voter@
        == votes1[j].voter@ by {}
    assert forall|name: Seq<char>| #[trigger] find_record(votes2, name, 0) == find_record(
        votes1,
        name,
        0,
    ) by {
        lemma_find_record_names(votes1, votes2, name, 0);
    }
    assert(all_voters_have_records(voters, votes2) == all_voters_have_records(voters, votes1));
    let s = voters.len() + policies.len();
    assert forall|row: int, c: int| 0 <= row < s && 0 <= c < s implies build_cell(
        voters,
        policies,
        votes2,
        row,
        c,
    ) == build_cell(voters, policies, votes1, row, c) by {
        if c < voters.len() {
            let r1 = find_record(votes1, voters[c]@, 0);
            assert(find_record(votes2, voters[c]@, 0) == r1);
            assert(r1 is Some);
            lemma_find_record_in_range(votes1, voters[c]@, 0);
            let idx = r1.unwrap();
            if idx == i {
                lemma_unresolved_entry_ignored(votes1[i].entries@, e, row, voters, policies);
            } else {
                assert(votes2[idx] == votes1[idx]);
            }
        }
    }
    assert(matrix_spec(voters, policies, votes2) =~~= matrix_spec(voters, policies, votes1));
}

/// Returns the index of the first delegation record of the named voter.
fn find_record_exec(votes: &Vec<VoteRecord>, name: &str) -> (r: Option<usize>)
    ensures
        r matches Some(i) ==> i < votes@.len() && Some(i as int) == find_record(
            votes@,
            name@,
            0,
        ),
        r is None ==> find_record(votes@, name@, 0) is None,
{
    let mut i: usize = 0;
    while i < votes.len()
        invariant
            i <= votes@.len(),
            find_record(votes@, name@, 0) == find_record(votes@, name@, i as nat),
        decreases votes@.len() - i,
    {
        if str_eq(votes[i].voter.as_str(), name) {
            return Some(i);
        }
        i += 1;
    }
    None
}

/// Evaluates one voter column's cell: scans the delegation table from the
/// last entry back and returns the weight of the first entry that resolves
/// to `row`, or zero.
fn cell_value(
    entries: &Vec<VoteEntry>,
    row: usize,
    voters: &Vec<String>,
    policies: &Vec<Policy>,
) -> (r: u64)
    requires
        voters@.len() + policies@.len() <= usize::MAX,
    ensures
        r == cell_from_entries(entries@, entries@.len() as int, row as int, voters@, policies@),
{
    let mut k: usize = entries.len();
    while k > 0
        invariant
            k <= entries@.len(),
            voters@.len() + policies@.len() <= usize::MAX,
            cell_from_entries(entries@, entries@.len() as int, row as int, voters@, policies@)
                == cell_from_entries(entries@, k as int, row as int, voters@, policies@),
        decreases k,
    {
        let matched = match resolve_target(voters, policies, entries[k - 1].target.as_str()) {
            Some(idx) => idx == row,
            None => false,
        };
        if matched {
            return entries[k - 1].weight;
        }
        k -= 1;
    }
    0u64
}

/// Builds the delegation matrix of a configuration: a square matrix of size
/// `n + p` whose first `n` columns hold each voter's resolved delegation
/// weights (entries naming neither a voter nor a policy are dropped, and a
/// later entry for the same target overwrites an earlier one), and whose
/// last `p` columns are absorbing policy columns. Fails exactly when some
/// voter has no delegation record.
pub fn create_matrix(settings: &Setting) -> (r: Result<Matrix, VoteError>)
    requires
        settings.voters@.len() + settings.policies@.len() <= usize::MAX,
    ensures
        r is Ok <==> all_voters_have_records(settings.voters@, settings.votes@),
        r matches Ok(mat) ==> {
            &&& mat.wf()
            &&& mat@ == matrix_spec(settings.voters@, settings.policies@, settings.votes@)
            &&& mat@.len() == settings.voters@.len() + settings.policies@.len()
        },
        r matches Err(e) ==> e == VoteError::MissingVoterRecord,
{
    let n = settings.voters.len();
    let p = settings.policies.len();
    let s = n + p;

    let mut recs: Vec<usize> = Vec::new();
    let mut c: usize = 0;
    while c < n
        invariant
            c <= n,
            n == settings.voters@.len(),
            recs@.len() == c,
            forall|cc: int|
                0 <= cc < c ==> #[trigger] recs@[cc] < settings.votes@.len() && Some(
                    recs@[cc] as int,
                ) == find_record(settings.votes@, settings.voters@[cc]@, 0),
        decreases n - c,
    {
        match find_record_exec(&settings.votes, settings.voters[c].as_str()) {
            Some(idx) => recs.push(idx),
            None => {
                return Err(VoteError::MissingVoterRecord);
            },
        }
        c += 1;
    }

    let mut rows: Vec<Vec<u64>> = Vec::new();
    let mut row: usize = 0;
    while row < s
        invariant
            row <= s,
            s == n + p,
            n == settings.voters@.len(),
            p == settings.policies@.len(),
            s <= usize::MAX,
            recs@.len() == n,
            forall|cc: int|
                0 <= cc < n ==> #[trigger] recs@[cc] < settings.votes@.len() && Some(
                    recs@[cc] as int,
                ) == find_record(settings.votes@, settings.voters@[cc]@, 0),
            rows@.len() == row,
            forall|rr: int|
                0 <= rr < row ==> (#[trigger] rows@[rr])@ == matrix_spec(
                    settings.voters@,
                    settings.policies@,
                    settings.votes@,
                )[rr],
        decreases s - row,
    {
        let mut r: Vec<u64> = Vec::new();
        let mut cidx: usize = 0;
        while cidx < s
            invariant
                cidx <= s,
                row < s,
                s == n + p,
                n == settings.voters@.len(),
                p == settings.policies@.len(),
                s <= usize::MAX,
                recs@.len() == n,
                forall|cc: int|
                    0 <= cc < n ==> #[trigger] recs@[cc] < settings.votes@.len() && Some(
                        recs@[cc] as int,
                    ) == find_record(settings.votes@, settings.voters@[cc]@, 0),
                r@.len() == cidx,
                forall|jj: int|
                    0 <= jj < cidx ==> #[trigger] r@[jj] == build_cell(
                        settings.voters@,
                        settings.policies@,
                        settings.votes@,
                        row as int,
                        jj,
                    ),
            decreases s - cidx,
        {
            if cidx < n {
                let rec = recs[cidx];
                let v = cell_value(
                    &settings.votes[rec].entries,
                    row,
                    &settings.voters,
                    &settings.policies,
                );
                r.push(v);
            } else if row == cidx {
                r.push(SCALE);
            } else {
                r.push(0u64);
            }
            cidx += 1;
        }
        proof {
            assert(r@ =~= matrix_spec(settings.voters@, settings.policies@, settings.votes@)[
                row as int]);
        }
        rows.push(r);
        row += 1;
    }

    let mat = Matrix { rows };
    proof {
        assert(mat@ =~= matrix_spec(settings.voters@, settings.policies@, settings.votes@));
        assert forall|cc: int| 0 <= cc < settings.voters@.len() implies find_record(
            settings.votes@,
            (#[trigger] settings.voters@[cc])@,
            0,
        ) is Some by {
            assert(Some(recs@[cc] as int) == find_record(settings.votes@, settings.voters@[cc]@, 0));
        }
    }
    Ok(mat)
}

} // verus!
