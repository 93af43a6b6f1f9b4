use makereadme::service::{authorization_value, is_success_status};
use makereadme::debug::{center_tag, log_layout, log_tag, LogType};
use makereadme::errors::Error;
use makereadme::service::{reply_text, service_error, status_detail, Failure, Service, ServiceAnswer};

#[test]
fn error_messages() {
    assert_eq!(Error::UnknownApiTypeError("X".to_string()).message(), "Unknown Api Type : X");
    assert_eq!(
        Error::RateLimitExceededError("slow".to_string()).message(),
        "Rate limit exceeded (Token&Rpd-Rpm): slow"
    );
    assert_eq!(
        Error::EnvReadError("LLM_TYPE".to_string()).message(),
        "\nFailed to read .env variables : LLM_TYPE\n\n# Allowed: GEMINI, GROQ, LLMAPI, LOCAL, NVIDIA\nExample of usage in .env file:\nLLM_TYPE=GEMINI\nLLM_MODEL=gpt-4\nAPI_KEY=your_api_key_here\n"
    );
    assert_eq!(
        Error::LocalModelInferenceError("x".to_string()).message(),
        "Failed to create response from local model : x"
    );
}

#[test]
fn tags_centre() {
    assert_eq!(log_tag(LogType::Failed), "FAILED!");
    assert_eq!(center_tag("LLM", 7), "  LLM  ");
    assert_eq!(center_tag("DEBUG", 7), " DEBUG ");
    assert_eq!(center_tag("ACTION", 7), "ACTION ");
    assert_eq!(center_tag("TOOLONGTAG", 7), "TOOLONGTAG");
}

#[test]
fn log_lines_align_arrow() {
    let l = log_layout("12:34:56", LogType::LLM);
    assert_eq!(l.tag, "  LLM  ");
    assert_eq!(l.padding, " ");
    let l = log_layout("1", LogType::Success);
    assert_eq!(l.padding, " ".repeat(20 - (1 + 2 + 7 + 2)));
}

#[test]
fn service_errors() {
    assert_eq!(
        service_error(Service::Llmapi, Failure::Status, &status_detail("404 Not Found", "nope")),
        Error::RunError("LLMAPI HTTP 404 Not Found: nope".to_string())
    );
    assert_eq!(
        service_error(Service::Ollama, Failure::Request, "refused"),
        Error::LocalModelInferenceError("Ollama request failed: refused".to_string())
    );
    assert_eq!(
        service_error(Service::Gemini, Failure::Parse, "eof"),
        Error::RunError("Failed to parse response: eof".to_string())
    );
}

#[test]
fn reply_texts() {
    let err = ServiceAnswer { error_message: Some("quota".to_string()), content: Some("x".to_string()) };
    assert_eq!(reply_text(Service::Llmapi, err.clone()), Err(Error::RunError("LLMAPI error: quota".to_string())));
    assert_eq!(reply_text(Service::Gemini, err.clone()), Err(Error::RunError("Gemini error: quota".to_string())));
    assert_eq!(reply_text(Service::Ollama, err), Ok("x".to_string()));
    let empty = ServiceAnswer { error_message: None, content: None };
    assert_eq!(reply_text(Service::Llmapi, empty), Ok(String::new()));
}

#[test]
fn tags_centre_by_bytes() {
    // "é" takes two bytes, so three spaces of padding remain in five bytes.
    assert_eq!(center_tag("é", 5), " é  ");
    assert_eq!(center_tag("ééé", 5), "ééé");
}

#[test]
fn arrow_column_counts_time_bytes() {
    let l = log_layout("ü", LogType::Success);
    assert_eq!(l.padding, " ".repeat(20 - (2 + 2 + 7 + 2)));
}

#[test]
fn authorization_values() {
    assert_eq!(authorization_value("  sk-123 \n"), Ok("Bearer sk-123".to_string()));
    assert_eq!(authorization_value("ключ"), Ok("Bearer ключ".to_string()));
    assert_eq!(
        authorization_value("a\u{7f}b"),
        Err(Error::WrongApiKey("Invalid Authorization header: failed to parse header value".to_string()))
    );
    assert_eq!(
        authorization_value("a\nb"),
        Err(Error::WrongApiKey("Invalid Authorization header: failed to parse header value".to_string()))
    );
    assert!(is_success_status(200));
    assert!(is_success_status(299));
    assert!(!is_success_status(199));
    assert!(!is_success_status(300));
    assert!(!is_success_status(404));
}
