use liquid_vote::{calculate, create_matrix, Policy, Setting, VoteEntry, VoteError, VoteRecord,
    ITERATIONS, SCALE};

const HALF: u64 = SCALE / 2;

fn setting(
    voters: Vec<&str>,
    policies: Vec<Policy>,
    votes: Vec<(&str, Vec<(&str, u64)>)>,
) -> Setting {
    Setting {
        title: None,
        voters: voters.into_iter().map(|v| v.to_string()).collect(),
        policies,
        votes: votes
            .into_iter()
            .map(|(v, entries)| VoteRecord {
                voter: v.to_string(),
                entries: entries
                    .into_iter()
                    .map(|(t, w)| VoteEntry { target: t.to_string(), weight: w })
                    .collect(),
            })
            .collect(),
    }
}

#[test]
fn matrix_shape_and_policy_block() {
    let s = setting(
        vec!["A", "B"],
        vec![Policy::Short("X".to_string()), Policy::Short("Y".to_string())],
        vec![("A", vec![("X", SCALE)]), ("B", vec![("Y", SCALE)])],
    );
    let m = create_matrix(&s).unwrap();
    assert_eq!(m.rows.len(), 4);
    for row in &m.rows {
        assert_eq!(row.len(), 4);
    }
    // the two policy columns: zero on voter rows, the weight one on their own row
    for row in 0..4 {
        assert_eq!(m.rows[row][2], if row == 2 { SCALE } else { 0 });
        assert_eq!(m.rows[row][3], if row == 3 { SCALE } else { 0 });
    }
    // the voter columns hold the supplied weights at the resolved rows
    assert_eq!(m.rows[2][0], SCALE);
    assert_eq!(m.rows[3][0], 0);
    assert_eq!(m.rows[2][1], 0);
    assert_eq!(m.rows[3][1], SCALE);
}

#[test]
fn single_voter_single_policy() {
    let s = setting(
        vec!["A"],
        vec![Policy::Short("P".to_string())],
        vec![("A", vec![("P", SCALE)])],
    );
    let m = create_matrix(&s).unwrap();
    let (totals, influence) = calculate(&m, 1);
    assert_eq!(totals, vec![SCALE]);
    assert_eq!(influence, vec![SCALE]);
}

#[test]
fn everyone_delegates_to_one_policy() {
    let s = setting(
        vec!["A", "B"],
        vec![Policy::Short("X".to_string()), Policy::Short("Y".to_string())],
        vec![("A", vec![("X", SCALE)]), ("B", vec![("X", SCALE)])],
    );
    let m = create_matrix(&s).unwrap();
    let (totals, influence) = calculate(&m, 2);
    assert_eq!(totals, vec![2 * SCALE, 0]);
    assert_eq!(influence, vec![SCALE, SCALE]);
}

#[test]
fn self_contained_voter_has_influence_one() {
    let s = setting(
        vec!["A"],
        vec![Policy::Short("P".to_string())],
        vec![("A", vec![("A", SCALE)])],
    );
    let m = create_matrix(&s).unwrap();
    let (totals, influence) = calculate(&m, 1);
    assert_eq!(totals, vec![0]);
    assert_eq!(influence, vec![SCALE]);
}

#[test]
fn split_delegation_example() {
    // A gives half to B and half to the policy; B gives everything to the
    // policy: all weight is eventually absorbed.
    let s = setting(
        vec!["A", "B"],
        vec![Policy::Short("P".to_string())],
        vec![("A", vec![("B", HALF), ("P", HALF)]), ("B", vec![("P", SCALE)])],
    );
    let m = create_matrix(&s).unwrap();
    let (totals, influence) = calculate(&m, 2);
    assert_eq!(totals, vec![2 * SCALE]);
    // A receives nothing; B keeps its own weight and receives half of A's
    assert_eq!(influence, vec![SCALE, SCALE + HALF]);
}

#[test]
fn resolver_is_deterministic() {
    let s = setting(
        vec!["A", "B"],
        vec![Policy::Short("P".to_string())],
        vec![("A", vec![("B", HALF), ("P", HALF)]), ("B", vec![("P", SCALE)])],
    );
    let m = create_matrix(&s).unwrap();
    let first = calculate(&m, 2);
    let second = calculate(&m, 2);
    assert_eq!(first, second);
}

#[test]
fn unresolved_target_is_ignored() {
    let base = setting(
        vec!["A", "B"],
        vec![Policy::Short("P".to_string())],
        vec![("A", vec![("P", SCALE)]), ("B", vec![("P", SCALE)])],
    );
    let noisy = setting(
        vec!["A", "B"],
        vec![Policy::Short("P".to_string())],
        vec![("A", vec![("P", SCALE), ("nobody", HALF)]), ("B", vec![("P", SCALE)])],
    );
    let m1 = create_matrix(&base).unwrap();
    let m2 = create_matrix(&noisy).unwrap();
    assert_eq!(m1.rows, m2.rows);
}

#[test]
fn missing_voter_record_is_an_error() {
    let s = setting(
        vec!["A", "B"],
        vec![Policy::Short("P".to_string())],
        vec![("A", vec![("P", SCALE)])],
    );
    assert!(matches!(create_matrix(&s), Err(VoteError::MissingVoterRecord)));
}

#[test]
fn later_entry_overwrites_earlier() {
    let s = setting(
        vec!["A"],
        vec![Policy::Short("P".to_string())],
        vec![("A", vec![("P", HALF), ("P", SCALE)])],
    );
    let m = create_matrix(&s).unwrap();
    assert_eq!(m.rows[1][0], SCALE);
}

#[test]
fn iteration_budget_is_fixed() {
    assert_eq!(ITERATIONS, 1000);
}

#[test]
fn empty_configuration_is_degenerate() {
    let s = setting(vec![], vec![], vec![]);
    let m = create_matrix(&s).unwrap();
    assert!(m.rows.is_empty());
    let (totals, influence) = calculate(&m, 0);
    assert!(totals.is_empty());
    assert!(influence.is_empty());
}

#[test]
fn no_voters_means_zero_totals() {
    let s = setting(
        vec![],
        vec![Policy::Short("X".to_string()), Policy::Short("Y".to_string())],
        vec![],
    );
    let m = create_matrix(&s).unwrap();
    assert_eq!(m.rows.len(), 2);
    let (totals, influence) = calculate(&m, 0);
    assert_eq!(totals, vec![0, 0]);
    assert!(influence.is_empty());
}

#[test]
fn no_policies_means_empty_totals() {
    let s = setting(vec!["A"], vec![], vec![("A", vec![("A", SCALE)])]);
    let m = create_matrix(&s).unwrap();
    assert_eq!(m.rows.len(), 1);
    let (totals, influence) = calculate(&m, 1);
    assert!(totals.is_empty());
    assert_eq!(influence, vec![SCALE]);
}
