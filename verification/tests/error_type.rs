use fs_librarian::error::Error;

#[test]
fn test_error() {
    let err = Error::new("blah".to_string());
    assert!(err.to_message().contains("Error: blah"));
}

#[test]
fn test_error_get_message() {
    let err = Error::new("out of tape".to_string());
    assert_eq!(err.get_message(), "out of tape");
    assert_eq!(err.to_message(), "Error: out of tape");
}
