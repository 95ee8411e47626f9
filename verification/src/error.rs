//! The service's error type: its kinds, their messages and HTTP status codes.
use vstd::prelude::*;

verus! {

/// An error of the service. Errors that come from I/O, multipart decoding, the
/// network or JSON carry the text their source displays.
#[derive(Debug, Clone, PartialEq)]
pub enum AppError {
    Config(String),
    Io(String),
    Multipart(String),
    Network(String),
    Serialization(String),
    AiProvider(String),
    InvalidPayload(String),
    Database(String),
}

impl AppError {
    /// The text the error carries.
    pub open spec fn detail(&self) -> Seq<char> {
        match self {
            AppError::Config(m) => m@,
            AppError::Io(m) => m@,
            AppError::Multipart(m) => m@,
            AppError::Network(m) => m@,
            AppError::Serialization(m) => m@,
            AppError::AiProvider(m) => m@,
            AppError::InvalidPayload(m) => m@,
            AppError::Database(m) => m@,
        }
    }

    /// The words that introduce the error's kind in its message.
    pub open spec fn kind_label(&self) -> Seq<char> {
        match self {
            AppError::Config(_) => "Configuration error: "@,
            AppError::Io(_) => "IO error: "@,
            AppError::Multipart(_) => "Multipart error: "@,
            AppError::Network(_) => "Network error: "@,
            AppError::Serialization(_) => "Serialization error: "@,
            AppError::AiProvider(_) => "AI Provider error: "@,
            AppError::InvalidPayload(_) => "Invalid payload error: "@,
            AppError::Database(_) => "Database error: "@,
        }
    }

    /// The HTTP status an error is answered with: 400 for a bad request
    /// (multipart, invalid payload), 502 for a failing upstream (network, AI
    /// provider), 500 otherwise.
    pub open spec fn http_status(&self) -> u16 {
        match self {
            AppError::Multipart(_) | AppError::InvalidPayload(_) => 400,
            AppError::Network(_) | AppError::AiProvider(_) => 502,
            _ => 500,
        }
    }

    /// The text the error carries, as the error response's `message` holds it.
    pub fn detail_text(&self) -> (r: String)
        ensures
            r@ == self.detail(),
    {
        match self {
            AppError::Config(m) => m.clone(),
            AppError::Io(m) => m.clone(),
            AppError::Multipart(m) => m.clone(),
            AppError::Network(m) => m.clone(),
            AppError::Serialization(m) => m.clone(),
            AppError::AiProvider(m) => m.clone(),
            AppError::InvalidPayload(m) => m.clone(),
            AppError::Database(m) => m.clone(),
        }
    }

    /// The error's message: its kind, then the text it carries.
    pub fn message(&self) -> (r: String)
        ensures
            r@ == self.kind_label() + self.detail(),
    {
        let mut r = match self {
            AppError::Config(_) => String::from_str("Configuration error: "),
            AppError::Io(_) => String::from_str("IO error: "),
            AppError::Multipart(_) => String::from_str("Multipart error: "),
            AppError::Network(_) => String::from_str("Network error: "),
            AppError::Serialization(_) => String::from_str("Serialization error: "),
            AppError::AiProvider(_) => String::from_str("AI Provider error: "),
            AppError::InvalidPayload(_) => String::from_str("Invalid payload error: "),
            AppError::Database(_) => String::from_str("Database error: "),
        };
        let d = self.detail_text();
        r.append(d.as_str());
        r
    }

    /// The HTTP status code the error is answered with.
    pub fn status_code(&self) -> (r: u16)
        ensures
            r == self.http_status(),
    {
        match self {
            AppError::Multipart(_) | AppError::InvalidPayload(_) => 400,
            AppError::Network(_) | AppError::AiProvider(_) => 502,
            _ => 500,
        }
    }
}

} // verus!
