use flow_monitor::outcome::{poll_round, FetchError, PollOutcome, Round};

fn ok(text: &str) -> Result<String, FetchError> {
    Ok(text.to_string())
}

#[test]
fn every_failure_has_its_reason() {
    assert_eq!(FetchError::ConnectFailed.describe(), "Connect failed");
    assert_eq!(FetchError::WriteFailed.describe(), "Write failed");
    assert_eq!(FetchError::ReadFailed.describe(), "Read failed");
    assert_eq!(FetchError::Timeout.describe(), "Response timeout");
    assert_eq!(FetchError::InvalidEncoding.describe(), "Invalid UTF-8");
}

#[test]
fn a_result_folds_into_an_outcome() {
    let success = PollOutcome::from_result(ok("12.5"));
    assert!(success.is_success());
    assert_eq!(success.text().map(|t| t.as_str()), Some("12.5"));
    assert_eq!(success.error(), None);
    assert_eq!(success.display_text(), "12.5");

    let failure = PollOutcome::from_result(Err(FetchError::Timeout));
    assert!(!failure.is_success());
    assert!(failure.text().is_none());
    assert_eq!(failure.error(), Some(FetchError::Timeout));
    assert_eq!(failure.display_text(), "Response timeout");
}

#[test]
fn an_outcome_is_numeric_only_as_a_numeric_success() {
    assert!(PollOutcome::Success("12.5".to_string()).is_numeric());
    assert!(PollOutcome::Success(" 1 2.5\t-3e2\n".to_string()).is_numeric());
    assert!(!PollOutcome::Success("err".to_string()).is_numeric());
    assert!(!PollOutcome::Success(String::new()).is_numeric());
    assert!(!PollOutcome::Failure(FetchError::ReadFailed).is_numeric());
}

#[test]
fn a_cloned_outcome_equals_its_source() {
    let success = PollOutcome::Success("7.25".to_string());
    let copy = success.clone();
    assert_eq!(copy.text().map(|t| t.as_str()), Some("7.25"));
    let failure = PollOutcome::Failure(FetchError::WriteFailed);
    assert_eq!(failure.clone().error(), Some(FetchError::WriteFailed));
}

#[test]
fn poll_round_keeps_the_order_of_the_results() {
    let round = poll_round(
        42,
        vec![ok("1"), Err(FetchError::ConnectFailed), ok("3"), Err(FetchError::Timeout)],
    );
    assert_eq!(round.timestamp, 42);
    assert_eq!(round.len(), 4);
    assert_eq!(round.outcomes[0].display_text(), "1");
    assert_eq!(round.outcomes[1].error(), Some(FetchError::ConnectFailed));
    assert_eq!(round.outcomes[2].display_text(), "3");
    assert_eq!(round.outcomes[3].error(), Some(FetchError::Timeout));
    assert!(!round.all_succeeded());
    assert!(!round.is_flow_ready());
}

#[test]
fn poll_round_of_nothing_is_an_empty_round() {
    let round = poll_round(7, Vec::new());
    assert_eq!(round.len(), 0);
    assert!(round.all_succeeded());
    assert!(round.is_flow_ready());
}

#[test]
fn a_round_is_flow_ready_only_if_every_answer_is_numeric() {
    let numeric = poll_round(1, vec![ok("12.5"), ok("7.25"), ok("1 2 3")]);
    assert!(numeric.all_succeeded());
    assert!(numeric.is_flow_ready());

    let malformed = poll_round(1, vec![ok("12.5"), ok("n/a"), ok("1 2 3")]);
    assert!(malformed.all_succeeded());
    assert!(!malformed.is_flow_ready());

    let failed = poll_round(1, vec![ok("12.5"), Err(FetchError::Timeout)]);
    assert!(!failed.all_succeeded());
    assert!(!failed.is_flow_ready());
}

#[test]
fn a_cloned_round_equals_its_source() {
    let round = Round::new(
        9,
        vec![PollOutcome::Success("a".to_string()), PollOutcome::Failure(FetchError::ReadFailed)],
    );
    let copy = round.clone();
    assert_eq!(copy.timestamp, 9);
    assert_eq!(copy.len(), 2);
    assert_eq!(copy.outcomes[0].display_text(), "a");
    assert_eq!(copy.outcomes[1].error(), Some(FetchError::ReadFailed));
}
