//! Errors of the assistant's operations.
use vstd::prelude::*;

verus! {

/// What went wrong, by kind, with a human-readable detail.
#[derive(Debug)]
pub enum AssistantError {
    /// The chat or embedding backend failed.
    OllamaError(String),
    /// Stored or offered knowledge cannot be used.
    KnowledgeError(String),
    /// Settings are unusable.
    ConfigError(String),
    /// The filesystem failed.
    IoError(String),
    /// Durable data is malformed.
    SerializationError(String),
    /// The configured model is not served by the backend.
    ModelNotFound(String),
}

/// The heading that introduces each kind of error.
pub open spec fn heading(e: AssistantError) -> Seq<char> {
    match e {
        AssistantError::OllamaError(_) => "Ollama API error: "@,
        AssistantError::KnowledgeError(_) => "Knowledge base error: "@,
        AssistantError::ConfigError(_) => "Configuration error: "@,
        AssistantError::IoError(_) => "IO error: "@,
        AssistantError::SerializationError(_) => "Serialization error: "@,
        AssistantError::ModelNotFound(_) => "Model not found: "@,
    }
}

/// The detail an error carries.
pub open spec fn detail(e: AssistantError) -> Seq<char> {
    match e {
        AssistantError::OllamaError(s) => s@,
        AssistantError::KnowledgeError(s) => s@,
        AssistantError::ConfigError(s) => s@,
        AssistantError::IoError(s) => s@,
        AssistantError::SerializationError(s) => s@,
        AssistantError::ModelNotFound(s) => s@,
    }
}

impl AssistantError {
    /// The error as a line of text: its heading, then its detail.
    pub fn to_message(&self) -> (r: String)
        ensures
            r@ == heading(*self) + detail(*self),
    {
        let (head, text) = match self {
            AssistantError::OllamaError(s) => ("Ollama API error: ", s),
            AssistantError::KnowledgeError(s) => ("Knowledge base error: ", s),
            AssistantError::ConfigError(s) => ("Configuration error: ", s),
            AssistantError::IoError(s) => ("IO error: ", s),
            AssistantError::SerializationError(s) => ("Serialization error: ", s),
            AssistantError::ModelNotFound(s) => ("Model not found: ", s),
        };
        let mut out = String::from_str(head);
        out.append(text.as_str());
        out
    }
}

} // verus!
