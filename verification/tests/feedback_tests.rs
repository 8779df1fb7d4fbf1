use docuram_sync::feedback::{validate_inputs, validate_uuid_format, ValidationError};

#[test]
fn test_validate_uuid_format_valid() {
    let targets = vec!["12345678-1234-1234-1234-123456789abc".to_string()];
    let message = "Test message".to_string();
    assert!(validate_inputs(&targets, &message).is_ok());
}

#[test]
fn test_validate_uuid_format_invalid() {
    let targets = vec!["invalid-uuid".to_string()];
    let message = "Test message".to_string();
    assert!(validate_inputs(&targets, &message).is_err());
}

#[test]
fn test_validate_empty_message() {
    let targets = vec!["12345678-1234-1234-1234-123456789abc".to_string()];
    let message = "   ".to_string();
    assert!(validate_inputs(&targets, &message).is_err());
}

#[test]
fn test_validate_message_too_long() {
    let targets = vec!["12345678-1234-1234-1234-123456789abc".to_string()];
    let message = "a".repeat(2001);
    assert!(validate_inputs(&targets, &message).is_err());
}

#[test]
fn test_validate_too_many_targets() {
    let targets = vec!["12345678-1234-1234-1234-123456789abc".to_string(); 11];
    let message = "Test message".to_string();
    assert!(validate_inputs(&targets, &message).is_err());
}

#[test]
fn test_validate_empty_targets() {
    let targets = vec![];
    let message = "Test message".to_string();
    assert!(validate_inputs(&targets, &message).is_err());
}

#[test]
fn test_validate_multiple_valid_uuids() {
    let targets = vec![
        "12345678-1234-1234-1234-123456789abc".to_string(),
        "87654321-4321-4321-4321-cba987654321".to_string(),
    ];
    let message = "This is a valid message".to_string();
    assert!(validate_inputs(&targets, &message).is_ok());
}

#[test]
fn test_validate_case_insensitive_uuid() {
    let targets = vec!["ABCDEF12-ABCD-ABCD-ABCD-ABCDEFABCDEF".to_string()];
    let message = "Test message".to_string();
    assert!(validate_inputs(&targets, &message).is_ok());
}

#[test]
fn validate_errors_are_specific() {
    let good = "12345678-1234-1234-1234-123456789abc".to_string();
    assert_eq!(
        validate_inputs(&vec!["nope".to_string()], "hi"),
        Err(ValidationError::InvalidUuid)
    );
    assert_eq!(validate_inputs(&vec![], "hi"), Err(ValidationError::EmptyTargets));
    assert_eq!(
        validate_inputs(&vec![good.clone(); 11], "hi"),
        Err(ValidationError::TooManyTargets)
    );
    assert_eq!(
        validate_inputs(&vec![good.clone()], " \t "),
        Err(ValidationError::EmptyMessage)
    );
    assert_eq!(
        validate_inputs(&vec![good.clone()], &"x".repeat(2001)),
        Err(ValidationError::MessageTooLong)
    );
    assert_eq!(validate_inputs(&vec![good], &"x".repeat(2000)), Ok(()));
}

#[test]
fn uuid_format_details() {
    assert!(validate_uuid_format("12345678-1234-1234-1234-123456789abc"));
    assert!(!validate_uuid_format("12345678-1234-1234-1234-123456789ab"));
    assert!(!validate_uuid_format("12345678-1234-1234-1234-123456789abcd"));
    assert!(!validate_uuid_format("12345678x1234-1234-1234-123456789abc"));
    assert!(!validate_uuid_format("1234567g-1234-1234-1234-123456789abc"));
}
