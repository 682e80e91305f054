use konnekt_session::activities::{EchoChallenge, EchoResult};

#[test]
fn test_echo_challenge_basic() {
    let challenge = EchoChallenge::new("Hello World".to_string());

    assert!(challenge.validate_response("Hello World"));
    assert!(!challenge.validate_response("hello world"));
    assert!(!challenge.validate_response("Hello"));
}

#[test]
fn test_echo_challenge_scoring() {
    let challenge = EchoChallenge::new("Rust".to_string());

    assert_eq!(challenge.calculate_score("Rust"), 100);
    assert_eq!(challenge.calculate_score("rust"), 0);
    assert_eq!(challenge.calculate_score("Python"), 0);
}

#[test]
fn echo_time_limit_is_kept() {
    let challenge = EchoChallenge::new("Test".to_string()).with_time_limit(5000);
    assert_eq!(challenge.prompt, "Test");
    assert_eq!(challenge.time_limit_ms, Some(5000));
    assert_eq!(EchoChallenge::new("x".to_string()).time_limit_ms, None);
}

#[test]
fn echo_activity_type_is_stable() {
    assert_eq!(EchoChallenge::activity_type(), "echo-challenge-v1");
}

#[test]
fn echo_result_keeps_fields() {
    let result = EchoResult::new("Hello".to_string(), 1234);
    assert_eq!(result.response, "Hello");
    assert_eq!(result.time_ms, 1234);
}
