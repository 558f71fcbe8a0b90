use dark_crawler::fetch::{is_success, FetchOutcome};

#[test]
fn success_class_is_two_hundred_to_two_ninety_nine() {
    assert!(!is_success(0));
    assert!(!is_success(100));
    assert!(!is_success(199));
    assert!(is_success(200));
    assert!(is_success(204));
    assert!(is_success(299));
    assert!(!is_success(300));
    assert!(!is_success(404));
    assert!(!is_success(500));
    assert!(!is_success(u16::MAX));
}

#[test]
fn outcomes_compare_by_variant_and_text() {
    assert_eq!(FetchOutcome::Body("x".to_string()), FetchOutcome::Body("x".to_string()));
    assert_ne!(FetchOutcome::Body("x".to_string()), FetchOutcome::Body("y".to_string()));
    assert_ne!(
        FetchOutcome::TransportError("x".to_string()),
        FetchOutcome::NonTextContent("x".to_string())
    );
}

#[test]
fn decoded_text_is_a_body_and_a_complaint_is_not() {
    assert_eq!(
        FetchOutcome::decoded(Ok("<html></html>".to_string())),
        FetchOutcome::Body("<html></html>".to_string())
    );
    assert_eq!(FetchOutcome::decoded(Ok(String::new())), FetchOutcome::Body(String::new()));
    assert_eq!(
        FetchOutcome::decoded(Err("invalid utf-8".to_string())),
        FetchOutcome::NonTextContent("invalid utf-8".to_string())
    );
}
