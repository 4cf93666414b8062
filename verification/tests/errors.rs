use rustpl::error::TemplateError;

#[test]
fn invalid_argument_message() {
    let e = TemplateError::InvalidArgument("Template name cannot be empty".to_string());
    assert_eq!(e.message(), "Invalid argument: Template name cannot be empty");
    assert_eq!(TemplateError::InvalidArgument(String::new()).message(), "Invalid argument: ");
}

#[test]
fn io_message_carries_the_cause() {
    let cause = std::io::Error::new(std::io::ErrorKind::Other, "disk on fire");
    let e = TemplateError::from(cause);
    assert!(matches!(e, TemplateError::Io(_)));
    assert_eq!(e.message(), "IO error: disk on fire");
}

#[test]
fn json_message_carries_the_cause() {
    let cause = serde_json::from_str::<serde_json::Value>("{").unwrap_err();
    let shown = cause.to_string();
    let e = TemplateError::from(cause);
    assert!(matches!(e, TemplateError::JsonParse(_)));
    assert_eq!(e.message(), format!("JSON parsing error: {}", shown));
    assert!(shown.contains("line 1 column 1"));
}

#[test]
fn engine_message_carries_the_cause() {
    let e = TemplateError::from(tera::Error::msg("no such filter"));
    assert!(matches!(e, TemplateError::TeraError(_)));
    assert_eq!(e.message(), "Template error: no such filter");
}
