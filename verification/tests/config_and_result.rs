use liquid_vote::{match_by_string, poll_result, Policy, Setting, SCALE};

fn empty_setting() -> Setting {
    Setting { title: None, voters: Vec::new(), policies: Vec::new(), votes: Vec::new() }
}

#[test]
fn match_short_policy_by_name() {
    let p = Policy::Short("transit".to_string());
    assert!(match_by_string(&p, "transit"));
    assert!(!match_by_string(&p, "parks"));
}

#[test]
fn match_long_policy_by_primary_name_only() {
    let p = Policy::Long(("parks".to_string(), "more green space".to_string()));
    assert!(match_by_string(&p, "parks"));
    assert!(!match_by_string(&p, "more green space"));
}

#[test]
fn policy_name_accessor() {
    let short = Policy::Short("a".to_string());
    let long = Policy::Long(("b".to_string(), "desc".to_string()));
    assert_eq!(short.name(), "a");
    assert_eq!(long.name(), "b");
}

#[test]
fn add_and_delete_voter() {
    let mut s = empty_setting();
    s.add_voter("A");
    s.add_voter("B");
    s.add_voter("A");
    assert_eq!(s.voters, vec!["A".to_string(), "B".to_string(), "A".to_string()]);
    // deletes the first match only
    assert_eq!(s.delete_voter("A"), Some(0));
    assert_eq!(s.voters, vec!["B".to_string(), "A".to_string()]);
    assert_eq!(s.delete_voter("C"), None);
    assert_eq!(s.voters, vec!["B".to_string(), "A".to_string()]);
}

#[test]
fn add_and_delete_policy() {
    let mut s = empty_setting();
    s.add_policy(Policy::Short("X".to_string()));
    s.add_policy(Policy::Long(("Y".to_string(), "why".to_string())));
    assert_eq!(s.policies.len(), 2);
    // a policy is matched by its primary name, never by its description
    assert_eq!(s.delete_policy("why"), None);
    assert_eq!(s.delete_policy("Y"), Some(1));
    assert_eq!(s.policies.len(), 1);
    assert_eq!(s.delete_policy("X"), Some(0));
    assert!(s.policies.is_empty());
}

#[test]
fn poll_result_pairs_names_with_scores() {
    let voters = vec!["A".to_string(), "B".to_string()];
    let policies = vec![
        Policy::Short("X".to_string()),
        Policy::Long(("Y".to_string(), "desc".to_string())),
    ];
    let totals = vec![2 * SCALE, 0];
    let influence = vec![SCALE, SCALE / 2];
    let r = poll_result(&voters, &policies, (totals, influence));
    assert_eq!(r.votes.len(), 2);
    assert_eq!(r.votes[0].name, "X");
    assert_eq!(r.votes[0].value, 2 * SCALE);
    assert_eq!(r.votes[1].name, "Y");
    assert_eq!(r.votes[1].value, 0);
    assert_eq!(r.influence.len(), 2);
    assert_eq!(r.influence[0].name, "A");
    assert_eq!(r.influence[0].value, SCALE);
    assert_eq!(r.influence[1].name, "B");
    assert_eq!(r.influence[1].value, SCALE / 2);
}
