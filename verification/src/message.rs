//! The conversation data model: messages, tool calls, and their sizes.
//!
//! A message is a tagged union over the four conversation roles. An
//! assistant message optionally carries free text, a refusal, and the tool
//! calls it requested; a tool message answers one of those calls. Every
//! message has an approximate token size used by the bounded window.

use crate::tokens::text_tokens;
use crate::tokens::Tokens;
use vstd::prelude::*;

verus! {

/// A structured request from the model to invoke a named capability.
#[derive(Debug)]
pub struct ToolCall {
    /// Provider-assigned opaque identifier for the call.
    pub id: String,
    /// The name of the capability to invoke.
    pub name: String,
    /// The serialized argument payload.
    pub arguments: String,
}

/// The mathematical content of a [`ToolCall`].
pub struct ToolCallV {
    /// Provider-assigned opaque identifier for the call.
    pub id: Seq<char>,
    /// The name of the capability to invoke.
    pub name: Seq<char>,
    /// The serialized argument payload.
    pub arguments: Seq<char>,
}

impl View for ToolCall {
    type V = ToolCallV;

    open spec fn view(&self) -> ToolCallV {
        ToolCallV { id: self.id@, name: self.name@, arguments: self.arguments@ }
    }
}

impl DeepView for ToolCall {
    type V = ToolCallV;

    open spec fn deep_view(&self) -> ToolCallV {
        self.view()
    }
}

impl Clone for ToolCall {
    /// Cloning keeps all three fields.
    fn clone(&self) -> (r: Self)
        ensures
            r == *self,
    {
        ToolCall { id: self.id.clone(), name: self.name.clone(), arguments: self.arguments.clone() }
    }
}

impl ToolCall {
    /// Assembles a tool call from its parts.
    pub fn new(id: String, name: String, arguments: String) -> (r: ToolCall)
        ensures
            r@ == (ToolCallV { id: id@, name: name@, arguments: arguments@ }),
    {
        ToolCall { id, name, arguments }
    }
}

/// One part of a multi-part user message.
#[derive(Debug)]
pub enum UserPart {
    /// A piece of text.
    Text(String),
    /// An image reference; costed at a fixed flat estimate.
    Image,
    /// Encoded audio data.
    Audio(String),
}

/// The mathematical content of a [`UserPart`].
pub enum UserPartV {
    /// A piece of text.
    Text(Seq<char>),
    /// An image reference.
    Image,
    /// Encoded audio data.
    Audio(Seq<char>),
}

impl View for UserPart {
    type V = UserPartV;

    open spec fn view(&self) -> UserPartV {
        match self {
            UserPart::Text(t) => UserPartV::Text(t@),
            UserPart::Image => UserPartV::Image,
            UserPart::Audio(a) => UserPartV::Audio(a@),
        }
    }
}

impl DeepView for UserPart {
    type V = UserPartV;

    open spec fn deep_view(&self) -> UserPartV {
        self.view()
    }
}

impl Clone for UserPart {
    /// Cloning keeps the part's contents.
    fn clone(&self) -> (r: Self)
        ensures
            r@ == self@,
    {
        match self {
            UserPart::Text(t) => UserPart::Text(t.clone()),
            UserPart::Image => UserPart::Image,
            UserPart::Audio(a) => UserPart::Audio(a.clone()),
        }
    }
}

/// The body of a user message: plain text or a list of parts.
#[derive(Debug)]
pub enum UserContent {
    /// A plain text body.
    Text(String),
    /// A multi-part body.
    Parts(Vec<UserPart>),
}

/// The mathematical content of a [`UserContent`].
pub enum UserContentV {
    /// A plain text body.
    Text(Seq<char>),
    /// A multi-part body.
    Parts(Seq<UserPartV>),
}

impl View for UserContent {
    type V = UserContentV;

    open spec fn view(&self) -> UserContentV {
        match self {
            UserContent::Text(t) => UserContentV::Text(t@),
            UserContent::Parts(v) => UserContentV::Parts(v.deep_view()),
        }
    }
}

impl Clone for UserContent {
    /// Cloning keeps the body's contents.
    fn clone(&self) -> (r: Self)
        ensures
            r@ == self@,
    {
        match self {
            UserContent::Text(t) => UserContent::Text(t.clone()),
            UserContent::Parts(v) => {
                let mut parts: Vec<UserPart> = Vec::new();
                let mut i: usize = 0;
                while i < v.len()
                    invariant
                        0 <= i <= v@.len(),
                        parts@.len() == i,
                        parts.deep_view() == v.deep_view().take(i as int),
                    decreases v.len() - i,
                {
                    let ghost pre = parts.deep_view();
                    let ghost prev = parts@;
                    let item = v[i].clone();
                    parts.push(item);
                    proof {
                        assert forall|k: int| 0 <= k <= i implies #[trigger] parts.deep_view()[k]
                            == v.deep_view().take(i + 1)[k] by {
                            if k < i {
                                assert(parts@[k] == prev[k]);
                                assert(parts.deep_view()[k] == prev[k].deep_view());
                                assert(pre[k] == prev[k].deep_view());
                            } else {
                                assert(parts@[k] == item);
                                assert(v.deep_view()[k] == v@[k].deep_view());
                            }
                        }
                        assert(parts.deep_view() =~= v.deep_view().take(i + 1));
                    }
                    i = i + 1;
                }
                proof {
                    assert(v.deep_view().take(v.len() as int) =~= v.deep_view());
                }
                UserContent::Parts(parts)
            },
        }
    }
}

/// One message of a conversation, tagged by role.
#[derive(Debug)]
pub enum Message {
    /// A fixed instruction from the system.
    System(String),
    /// A message from the student.
    User(UserContent),
    /// A turn produced by the model.
    Assistant {
        /// Free-text content, when the model produced any.
        content: Option<String>,
        /// A refusal notice, when the model declined.
        refusal: Option<String>,
        /// The tool calls the model requested this turn.
        tool_calls: Vec<ToolCall>,
    },
    /// The result of one tool call.
    Tool {
        /// The identifier of the call this message answers.
        tool_call_id: String,
        /// The tool's output or error text.
        content: String,
    },
}

/// The mathematical content of a [`Message`].
pub enum MessageV {
    /// A fixed instruction from the system.
    System(Seq<char>),
    /// A message from the student.
    User(UserContentV),
    /// A turn produced by the model.
    Assistant {
        /// Free-text content, when the model produced any.
        content: Option<Seq<char>>,
        /// A refusal notice, when the model declined.
        refusal: Option<Seq<char>>,
        /// The tool calls the model requested this turn.
        tool_calls: Seq<ToolCallV>,
    },
    /// The result of one tool call.
    Tool {
        /// The identifier of the call this message answers.
        tool_call_id: Seq<char>,
        /// The tool's output or error text.
        content: Seq<char>,
    },
}

/// The view of an optional string.
pub open spec fn opt_view(s: Option<String>) -> Option<Seq<char>> {
    match s {
        Some(t) => Some(t@),
        None => None,
    }
}

impl View for Message {
    type V = MessageV;

    open spec fn view(&self) -> MessageV {
        match self {
            Message::System(s) => MessageV::System(s@),
            Message::User(c) => MessageV::User(c@),
            Message::Assistant { content, refusal, tool_calls } => MessageV::Assistant {
                content: opt_view(*content),
                refusal: opt_view(*refusal),
                tool_calls: tool_calls.deep_view(),
            },
            Message::Tool { tool_call_id, content } => MessageV::Tool {
                tool_call_id: tool_call_id@,
                content: content@,
            },
        }
    }
}

impl DeepView for Message {
    type V = MessageV;

    open spec fn deep_view(&self) -> MessageV {
        self.view()
    }
}

impl Clone for Message {
    /// Cloning keeps the message's contents.
    fn clone(&self) -> (r: Self)
        ensures
            r@ == self@,
    {
        match self {
            Message::System(s) => Message::System(s.clone()),
            Message::User(c) => Message::User(c.clone()),
            Message::Assistant { content, refusal, tool_calls } => {
                let mut calls: Vec<ToolCall> = Vec::new();
                let mut i: usize = 0;
                while i < tool_calls.len()
                    invariant
                        0 <= i <= tool_calls@.len(),
                        calls@.len() == i,
                        calls.deep_view() == tool_calls.deep_view().take(i as int),
                    decreases tool_calls.len() - i,
                {
                    let ghost pre = calls.deep_view();
                    let ghost prev = calls@;
                    let item = tool_calls[i].clone();
                    calls.push(item);
                    proof {
                        assert forall|k: int| 0 <= k <= i implies #[trigger] calls.deep_view()[k]
                            == tool_calls.deep_view().take(i + 1)[k] by {
                            if k < i {
                                assert(calls@[k] == prev[k]);
                                assert(calls.deep_view()[k] == prev[k].deep_view());
                                assert(pre[k] == prev[k].deep_view());
                            } else {
                                assert(calls@[k] == item);
                                assert(tool_calls.deep_view()[k] == tool_calls@[k].deep_view());
                            }
                        }
                        assert(calls.deep_view() =~= tool_calls.deep_view().take(i + 1));
                    }
                    i = i + 1;
                }
                proof {
                    assert(tool_calls.deep_view().take(tool_calls.len() as int)
                        =~= tool_calls.deep_view());
                }
                Message::Assistant {
                    content: content.clone(),
                    refusal: refusal.clone(),
                    tool_calls: calls,
                }
            },
            Message::Tool { tool_call_id, content } => Message::Tool {
                tool_call_id: tool_call_id.clone(),
                content: content.clone(),
            },
        }
    }
}

// ---------------------------------------------------------------------------
// Token accounting
// ---------------------------------------------------------------------------

/// The flat token cost charged for a non-text message part.
pub open spec fn flat_part_tokens() -> nat {
    680
}

/// The token estimate of one user-message part.
pub open spec fn part_tokens(p: UserPartV) -> nat {
    match p {
        UserPartV::Text(t) => text_tokens(t),
        UserPartV::Image => flat_part_tokens(),
        UserPartV::Audio(a) => text_tokens(a),
    }
}

/// Adds two token counts, saturating at the largest representable count.
pub open spec fn sat_add(a: nat, b: nat) -> nat {
    if a + b > 0xffff_ffff_ffff_ffff {
        0xffff_ffff_ffff_ffff
    } else {
        a + b
    }
}

/// The saturating token total of a list of user-message parts.
pub open spec fn parts_tokens(s: Seq<UserPartV>) -> nat
    decreases s.len(),
{
    if s.len() == 0 {
        0
    } else {
        sat_add(parts_tokens(s.drop_last()), part_tokens(s.last()))
    }
}

/// The token estimate of a message: its textual content scaled down, with
/// non-text parts at a flat cost. An assistant turn is costed by its free
/// text alone.
pub open spec fn message_tokens(m: MessageV) -> nat {
    match m {
        MessageV::System(s) => text_tokens(s),
        MessageV::User(UserContentV::Text(t)) => text_tokens(t),
        MessageV::User(UserContentV::Parts(parts)) => parts_tokens(parts),
        MessageV::Assistant { content, .. } => match content {
            Some(c) => text_tokens(c),
            None => 0,
        },
        MessageV::Tool { content, .. } => text_tokens(content),
    }
}

impl Tokens for Message {
    open spec fn spec_tokens(&self) -> nat {
        message_tokens(self@)
    }

    fn tokens(&self) -> (r: u64) {
        match self {
            Message::System(s) => s.tokens(),
            Message::User(UserContent::Text(t)) => t.tokens(),
            Message::User(UserContent::Parts(parts)) => {
                let ghost pv = parts.deep_view();
                let mut acc: u64 = 0;
                let mut i: usize = 0;
                while i < parts.len()
                    invariant
                        0 <= i <= parts.len(),
                        pv == parts.deep_view(),
                        acc == parts_tokens(pv.take(i as int)),
                    decreases parts.len() - i,
                {
                    let t: u64 = match &parts[i] {
                        UserPart::Text(t) => t.tokens(),
                        UserPart::Image => 680,
                        UserPart::Audio(a) => a.tokens(),
                    };
                    proof {
                        assert(t == part_tokens(pv[i as int]));
                        assert(pv.take(i + 1).drop_last() =~= pv.take(i as int));
                        assert(pv.take(i + 1).last() == pv[i as int]);
                    }
                    acc = if acc > u64::MAX - t {
                        u64::MAX
                    } else {
                        acc + t
                    };
                    i = i + 1;
                }
                proof {
                    assert(pv.take(parts.len() as int) =~= pv);
                }
                acc
            },
            Message::Assistant { content, .. } => match content {
                Some(c) => c.tokens(),
                None => 0,
            },
            Message::Tool { content, .. } => content.tokens(),
        }
    }
}

// ---------------------------------------------------------------------------
// Events forwarded to the conversation's listener
// ---------------------------------------------------------------------------

/// One event of the output stream a conversation's listener receives while
/// a turn runs.
#[derive(Debug)]
pub enum ResponseEvent {
    /// A piece of assistant text, forwarded as it arrives.
    Content(String),
    /// The model's whole refusal, forwarded once after the stream ends.
    Refusal(String),
    /// A tool call the model requested, forwarded before dispatch.
    ToolCall(ToolCall),
    /// The outcome of one tool call, forwarded after dispatch.
    ToolResult {
        /// The identifier of the call this result answers.
        tool_call_id: String,
        /// The tool's output or error text.
        content: String,
    },
}

/// The mathematical content of a [`ResponseEvent`].
pub enum ResponseEventV {
    /// A piece of assistant text.
    Content(Seq<char>),
    /// The model's whole refusal.
    Refusal(Seq<char>),
    /// A tool call the model requested.
    ToolCall(ToolCallV),
    /// The outcome of one tool call.
    ToolResult {
        /// The identifier of the call this result answers.
        tool_call_id: Seq<char>,
        /// The tool's output or error text.
        content: Seq<char>,
    },
}

impl View for ResponseEvent {
    type V = ResponseEventV;

    open spec fn view(&self) -> ResponseEventV {
        match self {
            ResponseEvent::Content(s) => ResponseEventV::Content(s@),
            ResponseEvent::Refusal(s) => ResponseEventV::Refusal(s@),
            ResponseEvent::ToolCall(c) => ResponseEventV::ToolCall(c@),
            ResponseEvent::ToolResult { tool_call_id, content } => ResponseEventV::ToolResult {
                tool_call_id: tool_call_id@,
                content: content@,
            },
        }
    }
}

impl DeepView for ResponseEvent {
    type V = ResponseEventV;

    open spec fn deep_view(&self) -> ResponseEventV {
        self.view()
    }
}

} // verus!
