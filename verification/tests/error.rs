use mahakala::error::AppError;

#[test]
fn error_texts_name_their_kind() {
    assert_eq!(AppError::Io("disk full".to_string()).to_text(), "IO error: disk full");
    assert_eq!(AppError::Json("eof".to_string()).to_text(), "JSON error: eof");
    assert_eq!(AppError::Yaml("bad".to_string()).to_text(), "YAML error: bad");
    assert_eq!(AppError::Http("timeout".to_string()).to_text(), "HTTP error: timeout");
    assert_eq!(AppError::NotFound("x".to_string()).to_text(), "Not found: x");
}

#[test]
fn error_responses() {
    assert_eq!(AppError::NotFound("x".to_string()).response_parts(), (404, "Not found: x".to_string()));
    assert_eq!(AppError::InvalidInput("y".to_string()).response_parts(), (400, "Invalid input: y".to_string()));
    assert_eq!(AppError::Auth("z".to_string()).response_parts(), (401, "Auth error: z".to_string()));
    assert_eq!(AppError::Io("w".to_string()).response_parts(), (500, "Internal error".to_string()));
}
