use tuleap2gitlab::status::{classify, IssueState, CUTOFF};

#[test]
fn cutoff_is_the_twenty_first_of_july_2017_in_paris() {
    assert_eq!(CUTOFF, 1_500_588_000);
}

#[test]
fn declined_is_closed_and_invalid() {
    let state = classify(Some("Declined"), Some(CUTOFF + 1));
    assert_eq!(state, IssueState::ClosedDeclined);
    assert!(state.is_closed());
    assert_eq!(state.labels(), vec!["invalid".to_string()]);
}

#[test]
fn declined_comes_before_staleness() {
    assert_eq!(classify(Some("Declined"), Some(0)), IssueState::ClosedDeclined);
    assert_eq!(classify(Some("Declined"), None), IssueState::ClosedDeclined);
}

#[test]
fn done_is_closed_without_a_label() {
    let state = classify(Some("Done"), Some(0));
    assert_eq!(state, IssueState::ClosedDone);
    assert!(state.is_closed());
    assert!(state.labels().is_empty());
}

#[test]
fn open_and_stale_is_a_zombie() {
    let state = classify(Some("Open"), Some(CUTOFF - 1));
    assert_eq!(state, IssueState::ClosedZombie);
    assert!(state.is_closed());
    assert_eq!(state.labels(), vec!["zombie".to_string()]);
}

#[test]
fn modified_at_the_cutoff_stays_open() {
    let state = classify(Some("Open"), Some(CUTOFF));
    assert_eq!(state, IssueState::Open);
    assert!(!state.is_closed());
    assert!(state.labels().is_empty());
    assert_eq!(classify(Some("In progress"), Some(CUTOFF + 86_400)), IssueState::Open);
}

#[test]
fn any_other_status_counts_as_open_in_the_source() {
    assert_eq!(classify(Some(""), Some(CUTOFF - 1)), IssueState::ClosedZombie);
    assert_eq!(classify(Some("done"), Some(CUTOFF - 1)), IssueState::ClosedZombie);
    assert_eq!(classify(Some("Done "), Some(CUTOFF)), IssueState::Open);
}

#[test]
fn an_unknown_date_is_not_stale() {
    assert_eq!(classify(Some("Open"), None), IssueState::Open);
}

#[test]
fn without_a_status_the_issue_stays_open() {
    assert_eq!(classify(None, Some(0)), IssueState::Open);
    assert_eq!(classify(None, None), IssueState::Open);
}
