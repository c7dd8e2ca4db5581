//! Chat messages and route targets shared by every component.

use vstd::prelude::*;
use vstd::string::*;
use crate::text::{seq_contains, str_contains, str_eq};

verus! {

/// A chat message: a role ("system", "user", "assistant", ...) and its text.
#[derive(Clone, Debug, PartialEq, Eq)]
pub struct Message {
    pub role: String,
    pub content: String,
}

/// The mathematical value of a message: its role and content as characters.
pub struct MessageView {
    pub role: Seq<char>,
    pub content: Seq<char>,
}

impl View for Message {
    type V = MessageView;

    open spec fn view(&self) -> MessageView {
        MessageView { role: self.role@, content: self.content@ }
    }
}

/// The views of a sequence of messages.
pub open spec fn msgs_view(s: Seq<Message>) -> Seq<MessageView> {
    s.map_values(|m: Message| m@)
}

/// The marker that a tool-use block carries in its content.
pub open spec fn tool_use_marker() -> Seq<char> {
    "\"type\":\"tool_use\""@
}

/// The marker that a tool-result block carries in its content.
pub open spec fn tool_result_marker() -> Seq<char> {
    "\"type\":\"tool_result\""@
}

/// An assistant message that carries a tool-use block.
pub open spec fn is_tool_call_spec(m: MessageView) -> bool {
    m.role == "assistant"@ && seq_contains(m.content, tool_use_marker())
}

/// A user message that carries a tool-result block.
pub open spec fn is_tool_result_spec(m: MessageView) -> bool {
    m.role == "user"@ && seq_contains(m.content, tool_result_marker())
}

/// Returns a copy of `m` with equal fields.
pub fn copy_message(m: &Message) -> (r: Message)
    ensures
        r == *m,
        r@ == m@,
{
    Message { role: m.role.clone(), content: m.content.clone() }
}

/// Whether the role of `m` is `role`.
pub fn role_is(m: &Message, role: &str) -> (b: bool)
    ensures
        b == (m.role@ == role@),
{
    str_eq(m.role.as_str(), role)
}

impl Message {
    /// Builds a message from a role and a content.
    pub fn new(role: &str, content: &str) -> (m: Self)
        ensures
            m.role@ == role@,
            m.content@ == content@,
    {
        Message { role: String::from_str(role), content: String::from_str(content) }
    }

    /// Whether this is an assistant message with a tool-use block in its content.
    pub fn is_tool_call(&self) -> (b: bool)
        ensures
            b == is_tool_call_spec(self@),
    {
        role_is(self, "assistant") && str_contains(self.content.as_str(), "\"type\":\"tool_use\"")
    }

    /// Whether this is a user message with a tool-result block in its content.
    pub fn is_tool_result(&self) -> (b: bool)
        ensures
            b == is_tool_result_spec(self@),
    {
        role_is(self, "user") && str_contains(self.content.as_str(), "\"type\":\"tool_result\"")
    }
}

/// Where a request is routed: a named pool, or a backend URL.
#[derive(Clone, Debug, PartialEq, Eq)]
pub enum RouteTarget {
    NamedPool(String),
    BackendUrl(String),
}

impl RouteTarget {
    /// The pool name or URL this target carries.
    pub fn as_str(&self) -> (s: &str)
        ensures
            s@ == match self {
                RouteTarget::NamedPool(v) => v@,
                RouteTarget::BackendUrl(v) => v@,
            },
    {
        match self {
            RouteTarget::NamedPool(v) => v.as_str(),
            RouteTarget::BackendUrl(v) => v.as_str(),
        }
    }
}

} // verus!
