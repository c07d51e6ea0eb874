//! The error type shared by the library's operations.

use vstd::prelude::*;

verus! {

/// What went wrong in an operation; each variant carries a human-readable message. `Io`,
/// `Json`, `Yaml` and `Http` carry the message of a failed file operation, JSON or YAML
/// conversion, or HTTP exchange, which happen outside the library.
#[derive(Debug)]
pub enum AppError {
    Config(String),
    Io(String),
    Json(String),
    Yaml(String),
    Http(String),
    Agent(String),
    Tool(String),
    Auth(String),
    NotFound(String),
    InvalidInput(String),
    Internal(String),
}

impl AppError {
    /// The message carried by the error.
    pub open spec fn message(self) -> Seq<char> {
        match self {
            AppError::Config(m) => m@,
            AppError::Io(m) => m@,
            AppError::Json(m) => m@,
            AppError::Yaml(m) => m@,
            AppError::Http(m) => m@,
            AppError::Agent(m) => m@,
            AppError::Tool(m) => m@,
            AppError::Auth(m) => m@,
            AppError::NotFound(m) => m@,
            AppError::InvalidInput(m) => m@,
            AppError::Internal(m) => m@,
        }
    }

    /// The error as its `Display` renders it: a prefix naming the kind, then the message.
    pub open spec fn text(self) -> Seq<char> {
        match self {
            AppError::Config(m) => "Configuration error: "@ + m@,
            AppError::Io(m) => "IO error: "@ + m@,
            AppError::Json(m) => "JSON error: "@ + m@,
            AppError::Yaml(m) => "YAML error: "@ + m@,
            AppError::Http(m) => "HTTP error: "@ + m@,
            AppError::Agent(m) => "Agent error: "@ + m@,
            AppError::Tool(m) => "Tool error: "@ + m@,
            AppError::Auth(m) => "Auth error: "@ + m@,
            AppError::NotFound(m) => "Not found: "@ + m@,
            AppError::InvalidInput(m) => "Invalid input: "@ + m@,
            AppError::Internal(m) => "Internal error: "@ + m@,
        }
    }

    /// The error's text.
    pub fn to_text(&self) -> (r: String)
        ensures
            r@ == self.text(),
    {
        let (prefix, m) = match self {
            AppError::Config(m) => ("Configuration error: ", m),
            AppError::Io(m) => ("IO error: ", m),
            AppError::Json(m) => ("JSON error: ", m),
            AppError::Yaml(m) => ("YAML error: ", m),
            AppError::Http(m) => ("HTTP error: ", m),
            AppError::Agent(m) => ("Agent error: ", m),
            AppError::Tool(m) => ("Tool error: ", m),
            AppError::Auth(m) => ("Auth error: ", m),
            AppError::NotFound(m) => ("Not found: ", m),
            AppError::InvalidInput(m) => ("Invalid input: ", m),
            AppError::Internal(m) => ("Internal error: ", m),
        };
        let mut r = String::from_str(prefix);
        r.append(m.as_str());
        r
    }

    /// The HTTP status and message an error is answered with: 404, 400 and 401 with the
    /// error's text for a missing item, bad input and failed authentication; 500 with a
    /// fixed message for everything else.
    pub fn response_parts(&self) -> (r: (u16, String))
        ensures
            r.0 == match self {
                AppError::NotFound(_) => 404u16,
                AppError::InvalidInput(_) => 400u16,
                AppError::Auth(_) => 401u16,
                _ => 500u16,
            },
            r.1@ == match self {
                AppError::NotFound(_) | AppError::InvalidInput(_) | AppError::Auth(_) => self.text(),
                _ => "Internal error"@,
            },
    {
        match self {
            AppError::NotFound(_) => (404, self.to_text()),
            AppError::InvalidInput(_) => (400, self.to_text()),
            AppError::Auth(_) => (401, self.to_text()),
            _ => (500, String::from_str("Internal error")),
        }
    }
}

} // verus!
