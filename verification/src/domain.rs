//! Shared domain types for chat clients and provider integrations.

use vstd::prelude::*;

use vstd::string::StringExecFns;

verus! {

/// A model identifier understood by a provider.
pub struct Model {
    /// Provider-specific model name.
    pub name: String,
}

impl Model {
    /// The model with this name.
    pub fn new(name: String) -> (m: Model)
        ensures
            m.name == name,
    {
        Model { name }
    }

    /// The model with the name `name`.
    pub fn named(name: &str) -> (m: Model)
        ensures
            m.name@ == name@,
    {
        Model { name: String::from_str(name) }
    }
}

impl Clone for Model {
    fn clone(&self) -> (m: Self)
        ensures
            m == *self,
    {
        Model { name: self.name.clone() }
    }
}

impl From<String> for Model {
    fn from(value: String) -> (m: Self)
        ensures
            m.name == value,
    {
        Model { name: value }
    }
}

impl vstd::std_specs::convert::FromSpecImpl<String> for Model {
    open spec fn obeys_from_spec() -> bool {
        true
    }

    open spec fn from_spec(v: String) -> Self {
        Model { name: v }
    }
}

impl From<&str> for Model {
    fn from(value: &str) -> (m: Self)
        ensures
            m.name@ == value@,
    {
        Model { name: String::from_str(value) }
    }
}

impl vstd::std_specs::convert::FromSpecImpl<&str> for Model {
    /// A `String` cannot be built in a specification, so the result is
    /// described by the `ensures` of `from` alone.
    open spec fn obeys_from_spec() -> bool {
        false
    }

    open spec fn from_spec(v: &str) -> Self {
        arbitrary()
    }
}

/// A provider identifier.
pub struct Provider {
    /// Human-readable provider name.
    pub name: String,
}

impl Provider {
    /// The provider with the name `name`.
    pub fn named(name: &str) -> (p: Provider)
        ensures
            p.name@ == name@,
    {
        Provider { name: String::from_str(name) }
    }
}

impl Clone for Provider {
    fn clone(&self) -> (p: Self)
        ensures
            p == *self,
    {
        Provider { name: self.name.clone() }
    }
}

impl From<&str> for Provider {
    fn from(value: &str) -> (p: Self)
        ensures
            p.name@ == value@,
    {
        Provider { name: String::from_str(value) }
    }
}

impl vstd::std_specs::convert::FromSpecImpl<&str> for Provider {
    /// A `String` cannot be built in a specification, so the result is
    /// described by the `ensures` of `from` alone.
    open spec fn obeys_from_spec() -> bool {
        false
    }

    open spec fn from_spec(v: &str) -> Self {
        arbitrary()
    }
}

/// Role associated with a chat message.
#[derive(Clone, Copy, Debug, PartialEq, Eq, Structural)]
pub enum MessageRole {
    /// System instructions that shape the assistant's behavior.
    System,
    /// Message authored by the user.
    User,
    /// Message authored by the assistant.
    Assistant,
    /// Message produced by an external tool.
    Tool,
    /// Diagnostic output intended for debugging or status reporting.
    Diagnostic,
    /// Reasoning content emitted separately from the assistant response.
    Reasoning,
}

/// A single chat transcript entry.
pub struct Message {
    /// The author or semantic role of the message.
    pub role: MessageRole,
    /// Message text.
    pub content: String,
}

impl Clone for Message {
    fn clone(&self) -> (m: Self)
        ensures
            m == *self,
    {
        Message { role: self.role, content: self.content.clone() }
    }
}

/// In-memory chat session state.
pub struct Session {
    /// Messages accumulated in the current session.
    pub messages: Vec<Message>,
}

impl Default for Session {
    fn default() -> (s: Self)
        ensures
            s.messages@ == Seq::<Message>::empty(),
    {
        Session { messages: Vec::new() }
    }
}

/// Request sent to a chat provider.
pub struct ChatRequest {
    /// Model to use for the request.
    pub model: Model,
    /// Conversation context sent to the provider.
    pub messages: Vec<Message>,
}

/// Response returned by a chat provider.
pub struct ChatResponse {
    /// Provider's response message.
    pub message: Message,
}

/// Synchronous client interface for chat providers.
pub trait ProviderClient {
    /// Error type returned by the provider implementation.
    type Error;

    /// Sends a chat request and returns the provider response.
    fn send(&self, request: ChatRequest) -> Result<ChatResponse, Self::Error>;
}

} // verus!
