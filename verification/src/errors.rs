//! The errors of the application, each with the text it is shown as.
use vstd::prelude::*;
use vstd::string::StringExecFns;

verus! {

/// Everything that can go wrong; each variant carries a detail text.
#[derive(Debug, Clone, PartialEq, Eq)]
pub enum Error {
    SystemPromptFileError(String),
    UnknownApiTypeError(String),
    UnknownLlmModelError(String),
    WrongApiKey(String),
    EnvReadError(String),
    RunError(String),
    RateLimitExceededError(String),
    LocalModelInferenceError(String),
    FileReadError(String),
    FileWriteError(String),
    CommandExecutionError(String),
    UnknownError(String),
}

/// The text before the detail in the message of the variant of `e`.
pub open spec fn message_head(e: Error) -> Seq<char> {
    match e {
        Error::SystemPromptFileError(_) => "Failed to read system_prompt.md file : "@,
        Error::UnknownApiTypeError(_) => "Unknown Api Type : "@,
        Error::UnknownLlmModelError(_) => "Unknown LLM Model : "@,
        Error::WrongApiKey(_) => "Wrong API Key : "@,
        Error::EnvReadError(_) => "\nFailed to read .env variables : "@,
        Error::RunError(_) => "Failed to run API : "@,
        Error::RateLimitExceededError(_) => "Rate limit exceeded (Token&Rpd-Rpm): "@,
        Error::LocalModelInferenceError(_) => "Failed to create response from local model : "@,
        Error::FileReadError(_) => "Failed to read file : "@,
        Error::FileWriteError(_) => "Failed to write file : "@,
        Error::CommandExecutionError(_) => "Failed to execute command : "@,
        Error::UnknownError(_) => "Unknown error occurred : "@,
    }
}

/// The text after the detail in the message of the variant of `e`.
pub open spec fn message_tail(e: Error) -> Seq<char> {
    match e {
        Error::EnvReadError(_) => ENV_HELP@,
        _ => Seq::empty(),
    }
}

/// The detail text of `e`.
pub open spec fn detail(e: Error) -> Seq<char> {
    match e {
        Error::SystemPromptFileError(s) => s@,
        Error::UnknownApiTypeError(s) => s@,
        Error::UnknownLlmModelError(s) => s@,
        Error::WrongApiKey(s) => s@,
        Error::EnvReadError(s) => s@,
        Error::RunError(s) => s@,
        Error::RateLimitExceededError(s) => s@,
        Error::LocalModelInferenceError(s) => s@,
        Error::FileReadError(s) => s@,
        Error::FileWriteError(s) => s@,
        Error::CommandExecutionError(s) => s@,
        Error::UnknownError(s) => s@,
    }
}

/// What follows the detail of a failure to read the settings file.
pub const ENV_HELP: &'static str = "\n\n# Allowed: GEMINI, GROQ, LLMAPI, LOCAL, NVIDIA\nExample of usage in .env file:\nLLM_TYPE=GEMINI\nLLM_MODEL=gpt-4\nAPI_KEY=your_api_key_here\n";

impl Error {
    /// The text the error is shown as.
    pub fn message(&self) -> (m: String)
        ensures
            m@ == message_head(*self) + detail(*self) + message_tail(*self),
    {
        let (head, d): (&str, &String) = match self {
            Error::SystemPromptFileError(s) => ("Failed to read system_prompt.md file : ", s),
            Error::UnknownApiTypeError(s) => ("Unknown Api Type : ", s),
            Error::UnknownLlmModelError(s) => ("Unknown LLM Model : ", s),
            Error::WrongApiKey(s) => ("Wrong API Key : ", s),
            Error::EnvReadError(s) => ("\nFailed to read .env variables : ", s),
            Error::RunError(s) => ("Failed to run API : ", s),
            Error::RateLimitExceededError(s) => ("Rate limit exceeded (Token&Rpd-Rpm): ", s),
            Error::LocalModelInferenceError(s) => ("Failed to create response from local model : ", s),
            Error::FileReadError(s) => ("Failed to read file : ", s),
            Error::FileWriteError(s) => ("Failed to write file : ", s),
            Error::CommandExecutionError(s) => ("Failed to execute command : ", s),
            Error::UnknownError(s) => ("Unknown error occurred : ", s),
        };
        let mut m = head.to_owned();
        m.append(d.as_str());
        match self {
            Error::EnvReadError(_) => m.append(ENV_HELP),
            _ => {
                assert(m@ =~= m@ + Seq::<char>::empty());
            },
        }
        m
    }
}

} // verus!
