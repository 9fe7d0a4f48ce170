use news_digest::classifier::{
    judge_lowered, next_step, parse_verdict, validate_ai_response, AttemptEvent, AttemptStep,
    ModelRotation, Verdict, MAX_RETRIES,
};

#[test]
fn reply_normalization_examples() {
    assert!(validate_ai_response("  TRUE  "));
    assert!(!validate_ai_response("incorrect"));
    assert!(validate_ai_response("maybe true ok"));
    assert!(!validate_ai_response("xyz"));
}

#[test]
fn reply_token_table() {
    for yes in ["true", "Yes", "1", "CORRECT", " y e s "] {
        assert!(validate_ai_response(yes), "{}", yes);
    }
    for no in ["false", "No", "0", "Incorrect", "F a l s e"] {
        assert!(!validate_ai_response(no), "{}", no);
    }
    assert!(validate_ai_response("Yes, it matches"));
    assert!(!validate_ai_response(""));
}

#[test]
fn verdict_kinds() {
    assert!(matches!(parse_verdict("yes"), Verdict::Yes));
    assert!(matches!(parse_verdict("0"), Verdict::No));
    match parse_verdict("maybetrueok") {
        Verdict::Unrecognized(t) => assert_eq!(t, "maybetrueok"),
        _ => panic!("expected an unrecognised verdict"),
    }
    assert!(judge_lowered(" true "));
    assert!(!judge_lowered("nope"));
}

#[test]
fn step_answer_finishes() {
    let yes = AttemptEvent::Answered { content: Some("true".to_string()) };
    assert_eq!(next_step(0, MAX_RETRIES, true, &yes), AttemptStep::Finish(true));
    let missing = AttemptEvent::Answered { content: None };
    assert_eq!(next_step(3, MAX_RETRIES, false, &missing), AttemptStep::Finish(false));
}

#[test]
fn step_backoff_is_linear() {
    assert_eq!(next_step(0, MAX_RETRIES, false, &AttemptEvent::TimedOut), AttemptStep::RetryAfter { seconds: 2 });
    assert_eq!(next_step(2, MAX_RETRIES, false, &AttemptEvent::TransportFailed), AttemptStep::RetryAfter { seconds: 6 });
    assert_eq!(next_step(4, MAX_RETRIES, true, &AttemptEvent::BodyUnreadable), AttemptStep::RetryAfter { seconds: 10 });
    assert_eq!(next_step(1, MAX_RETRIES, true, &AttemptEvent::HttpError { status: 503 }), AttemptStep::RetryAfter { seconds: 4 });
}

#[test]
fn step_client_error_rotates_without_waiting() {
    let rate_limited = AttemptEvent::HttpError { status: 429 };
    assert_eq!(next_step(0, MAX_RETRIES, true, &rate_limited), AttemptStep::RetryNow);
    assert_eq!(next_step(0, MAX_RETRIES, false, &rate_limited), AttemptStep::RetryAfter { seconds: 2 });
}

#[test]
fn step_gives_up_after_last_attempt() {
    let last = MAX_RETRIES - 1;
    assert_eq!(next_step(last, MAX_RETRIES, false, &AttemptEvent::TimedOut), AttemptStep::Finish(false));
    assert_eq!(next_step(last, MAX_RETRIES, true, &AttemptEvent::HttpError { status: 429 }), AttemptStep::Finish(false));
    assert_eq!(next_step(last, MAX_RETRIES, true, &AttemptEvent::HttpError { status: 500 }), AttemptStep::Finish(false));
}

#[test]
fn retry_run_exhausts_to_false() {
    let mut attempt: u32 = 0;
    let mut waited: u64 = 0;
    let outcome = loop {
        match next_step(attempt, MAX_RETRIES, false, &AttemptEvent::TimedOut) {
            AttemptStep::Finish(b) => break b,
            AttemptStep::RetryAfter { seconds } => waited += seconds,
            AttemptStep::RetryNow => {}
        }
        attempt += 1;
    };
    assert!(!outcome);
    assert_eq!(attempt, MAX_RETRIES - 1);
    assert_eq!(waited, (1..MAX_RETRIES as u64).map(|n| 2 * n).sum::<u64>());
}

#[test]
fn rotation_cycles_through_models() {
    let models = vec!["a".to_string(), "b".to_string(), "c".to_string()];
    let mut rotation = ModelRotation::new(models);
    let picked: Vec<String> = (0..7).map(|_| rotation.next_model()).collect();
    assert_eq!(picked, vec!["a", "b", "c", "a", "b", "c", "a"]);
    assert_eq!(rotation.counter, 7);
}

#[test]
fn rotation_counter_wraps() {
    let mut rotation = ModelRotation { models: vec!["x".to_string(), "y".to_string()], counter: usize::MAX };
    assert_eq!(rotation.next_index(), usize::MAX % 2);
    assert_eq!(rotation.counter, 0);
    assert_eq!(rotation.next_index(), 0);
}
