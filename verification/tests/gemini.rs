use termie::gemini::{build_prompt, fetch_api_key, fetch_api_key_from_file, KeyFileError, gemini_reply, join_response, GeminiError};

#[test]
fn api_key_from_environment_value() {
    assert_eq!(fetch_api_key(Some("SECRET-REDACTED".to_string())), Ok("SECRET-REDACTED".to_string()));
    assert_eq!(fetch_api_key(None), Err(GeminiError::ApiKeyNotSet));
}

#[test]
fn error_messages() {
    assert_eq!(GeminiError::ApiKeyNotSet.message(), "GEMINI_API_KEY not set");
    assert_eq!(GeminiError::ResponseUnavailable.message(), "Response could not be fetched");
}

#[test]
fn prompt_is_trimmed_context_space_request() {
    assert_eq!(build_prompt("\n  You write shell commands.\n\n", "list files"), "You write shell commands. list files");
    assert_eq!(build_prompt("", "x"), " x");
}

#[test]
fn reply_parts_are_joined() {
    let parts = vec!["ls ".to_string(), "-la".to_string()];
    assert_eq!(join_response(&parts), "ls -la");
    assert_eq!(join_response(&Vec::new()), "");
    assert_eq!(gemini_reply(Some(parts)), Ok("ls -la".to_string()));
    assert_eq!(gemini_reply(None), Err(GeminiError::ResponseUnavailable));
}

#[test]
fn api_key_from_key_file() {
    assert_eq!(fetch_api_key_from_file(Ok("key\n".to_string())), Ok("key\n".to_string()));
    assert_eq!(
        fetch_api_key_from_file(Err("No such file or directory".to_string())),
        Err(KeyFileError { message: "No such file or directory".to_string() })
    );
}
