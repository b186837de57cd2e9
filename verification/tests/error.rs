use loper_service::error::{push_decimal, ServiceError};

#[test]
fn unknown_handles_are_told_with_their_number() {
    assert_eq!(
        ServiceError::UnknownConnection(0).message(),
        "failed to resolve connection with id 0"
    );
    assert_eq!(
        ServiceError::UnknownSession(7).message(),
        "failed to resolve session with id 7"
    );
    assert_eq!(
        ServiceError::UnknownQuery(1203).message(),
        "failed to resolve query with id 1203"
    );
}

#[test]
fn largest_handle_is_told_in_full() {
    assert_eq!(
        ServiceError::UnknownQuery(usize::MAX).message(),
        format!("failed to resolve query with id {}", usize::MAX)
    );
}

#[test]
fn outside_errors_keep_their_text() {
    assert_eq!(ServiceError::Connect("transport error".to_string()).message(), "transport error");
    assert_eq!(ServiceError::Remote("status: Internal".to_string()).message(), "status: Internal");
    assert_eq!(ServiceError::Remote(String::new()).message(), "");
}

#[test]
fn unready_service_is_told_with_the_reason() {
    assert_eq!(
        ServiceError::NotReady("connection refused".to_string()).message(),
        "Service was not ready: connection refused"
    );
}

#[test]
fn push_decimal_writes_numerals_without_leading_zeros() {
    let cases: [(usize, &str); 8] = [
        (0, "0"),
        (9, "9"),
        (10, "10"),
        (11, "11"),
        (99, "99"),
        (100, "100"),
        (1050, "1050"),
        (4294967295, "4294967295"),
    ];
    for (n, expected) in cases {
        let mut text = String::new();
        push_decimal(&mut text, n);
        assert_eq!(text, expected);
    }
}

#[test]
fn push_decimal_appends_to_what_is_there() {
    let mut text = "id ".to_string();
    push_decimal(&mut text, 42);
    assert_eq!(text, "id 42");
    push_decimal(&mut text, 0);
    assert_eq!(text, "id 420");
}
