//! The errors of the library and their messages.
use vstd::prelude::*;

use crate::text::{decimal, decimal_string};

verus! {

/// Why a request to the model, or a tool call, was refused or failed.
#[derive(Debug)]
pub enum GeminiError {
    /// The model name is empty, longer than 100 characters, or holds a
    /// character other than an ASCII letter or digit, `-` or `.`.
    InvalidModelName,
    /// The API answered with an unsuccessful HTTP status. Only the status is
    /// kept: the response body is never part of the error.
    ApiStatus { code: u16, reason: Option<String> },
    /// The stream buffer length would overflow `usize`.
    BufferOverflow,
    /// The stream buffer would exceed its limit.
    ResponseTooLarge,
    /// The model stopped with finish reason `SAFETY`.
    SafetyBlocked,
    /// A tool call named a tool that does not exist.
    UnknownTool(String),
    /// A tool call carried an empty (or all-whitespace) prompt.
    EmptyPrompt,
    /// A tool call carried a prompt over the size limit.
    PromptTooLarge,
}

impl GeminiError {
    /// The text of the error.
    pub open spec fn text(&self) -> Seq<char> {
        match self {
            GeminiError::InvalidModelName => "Invalid model name"@,
            GeminiError::ApiStatus { code, reason } => "API error "@ + decimal(*code as nat) + " "@
                + match reason {
                Some(r) => r@,
                None => "<unknown status code>"@,
            },
            GeminiError::BufferOverflow => "Buffer size overflow"@,
            GeminiError::ResponseTooLarge => "Response exceeded maximum buffer size (10 MB)"@,
            GeminiError::SafetyBlocked => "Response blocked by safety filters"@,
            GeminiError::UnknownTool(name) => "Unknown tool: "@ + name@,
            GeminiError::EmptyPrompt => "prompt must not be empty"@,
            GeminiError::PromptTooLarge => "prompt exceeds maximum size (1 MB)"@,
        }
    }

    /// The text of the error, as shown to a user.
    pub fn message(&self) -> (m: String)
        ensures
            m@ == self.text(),
    {
        match self {
            GeminiError::InvalidModelName => String::from_str("Invalid model name"),
            GeminiError::ApiStatus { code, reason } => {
                let mut m = String::from_str("API error ");
                let digits = decimal_string(*code as u64);
                m.append(digits.as_str());
                m.append(" ");
                match reason {
                    Some(r) => m.append(r.as_str()),
                    None => m.append("<unknown status code>"),
                }
                m
            },
            GeminiError::BufferOverflow => String::from_str("Buffer size overflow"),
            GeminiError::ResponseTooLarge => String::from_str(
                "Response exceeded maximum buffer size (10 MB)",
            ),
            GeminiError::SafetyBlocked => String::from_str("Response blocked by safety filters"),
            GeminiError::UnknownTool(name) => {
                let mut m = String::from_str("Unknown tool: ");
                m.append(name.as_str());
                m
            },
            GeminiError::EmptyPrompt => String::from_str("prompt must not be empty"),
            GeminiError::PromptTooLarge => String::from_str("prompt exceeds maximum size (1 MB)"),
        }
    }
}

} // verus!
