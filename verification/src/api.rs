//! The outward shapes of the conversation service.
//!
//! These are the request bodies the service accepts and the simplified
//! conversation records it hands back, flattened from the full message
//! model to what a front end displays.

use crate::message::Message;
use crate::message::ToolCallV;
use crate::message::UserContent;
use crate::message::UserPart;
use crate::message::UserPartV;
use vstd::prelude::*;
use vstd::string::StringExecFns;

verus! {

/// A request to create a student account.
#[derive(Debug)]
pub struct CreateUserRequest {
    /// The student's display name.
    pub name: String,
    /// The student's email address.
    pub email: String,
    /// The chosen password, in the clear until hashed at the edge.
    pub password: String,
}

/// A login request.
#[derive(Debug)]
pub struct LoginRequest {
    /// The account's email address.
    pub email: String,
    /// The account's password.
    pub password: String,
}

/// A chat request: one student input addressed to one book's tutor.
#[derive(Debug)]
pub struct ChatRequest {
    /// The book the conversation is about.
    pub book_id: i64,
    /// The student's message.
    pub message: String,
}

/// A student as listed to managers.
#[derive(Debug)]
pub struct StudentInfo {
    /// The student's identifier.
    pub id: i64,
    /// The student's display name.
    pub name: String,
    /// The student's email address.
    pub email: String,
}

/// Where the service keeps its data.
#[derive(Debug)]
pub struct Config {
    /// The directory the raw books live in.
    pub book_path: String,
    /// The directory derived data is stored under.
    pub store_path: String,
}

/// A conversation record as displayed to the student: the roles that are
/// shown, with their visible text.
#[derive(Debug)]
pub enum ConversationMessage {
    /// Something the student said.
    User {
        /// The visible text.
        content: String,
    },
    /// Something the tutor said, with the names of the tools it called.
    Assistant {
        /// The visible text.
        content: String,
        /// The names of the tools called that turn.
        tool_calls: Vec<String>,
    },
    /// A tool's answer.
    Tool {
        /// The tool's output text.
        content: String,
    },
}

/// The text of a multi-part user message as displayed: its text parts
/// concatenated, everything else skipped.
pub open spec fn user_parts_display(parts: Seq<UserPartV>) -> Seq<char>
    decreases parts.len(),
{
    if parts.len() == 0 {
        Seq::empty()
    } else {
        user_parts_display(parts.drop_last()) + (match parts.last() {
            UserPartV::Text(t) => t,
            _ => Seq::empty(),
        })
    }
}

/// The names of a turn's tool calls, in order.
pub open spec fn call_names(calls: Seq<ToolCallV>) -> Seq<Seq<char>> {
    calls.map_values(|c: ToolCallV| c.name)
}

impl ConversationMessage {
    /// Flattens one stored message into its displayed form. System messages
    /// are not displayed.
    pub fn from_message(message: &Message) -> (r: Option<ConversationMessage>)
        ensures
            match message@ {
                crate::message::MessageV::System(_) => r is None,
                crate::message::MessageV::User(c) => (r matches Some(
                    ConversationMessage::User { content },
                ) && content@ == (match c {
                    crate::message::UserContentV::Text(t) => t,
                    crate::message::UserContentV::Parts(parts) => user_parts_display(parts),
                })),
                crate::message::MessageV::Assistant { content, tool_calls, .. } => (r matches Some(
                    ConversationMessage::Assistant { content: shown, tool_calls: names },
                ) && shown@ == (match content {
                    Some(t) => t,
                    None => Seq::<char>::empty(),
                }) && names.deep_view() == call_names(tool_calls)),
                crate::message::MessageV::Tool { content, .. } => (r matches Some(
                    ConversationMessage::Tool { content: shown },
                ) && shown@ == content),
            },
    {
        match message {
            Message::System(_) => None,
            Message::User(UserContent::Text(t)) => Some(
                ConversationMessage::User { content: t.clone() },
            ),
            Message::User(UserContent::Parts(parts)) => {
                let ghost pv = parts.deep_view();
                let mut content = String::new();
                let n = parts.len();
                let mut i: usize = 0;
                proof {
                    assert(pv.take(0) =~= Seq::<UserPartV>::empty());
                }
                while i < n
                    invariant
                        0 <= i <= n,
                        n == parts@.len(),
                        pv == parts.deep_view(),
                        content@ == user_parts_display(pv.take(i as int)),
                    decreases n - i,
                {
                    proof {
                        assert(pv[i as int] == parts@[i as int].deep_view());
                    }
                    match &parts[i] {
                        UserPart::Text(t) => {
                            content.append(t.as_str());
                        },
                        _ => (),
                    }
                    proof {
                        assert(pv.take(i + 1).drop_last() =~= pv.take(i as int));
                        assert(pv.take(i + 1).last() == pv[i as int]);
                        assert(content@ =~= user_parts_display(pv.take(i + 1)));
                    }
                    i = i + 1;
                }
                proof {
                    assert(pv.take(n as int) =~= pv);
                }
                Some(ConversationMessage::User { content })
            },
            Message::Assistant { content, tool_calls, .. } => {
                let shown = match content {
                    Some(t) => t.clone(),
                    None => String::new(),
                };
                let ghost cv = tool_calls.deep_view();
                let mut names: Vec<String> = Vec::new();
                let n = tool_calls.len();
                let mut i: usize = 0;
                proof {
                    assert(names.deep_view() =~= call_names(cv).take(0));
                }
                while i < n
                    invariant
                        0 <= i <= n,
                        n == tool_calls@.len(),
                        cv == tool_calls.deep_view(),
                        names@.len() == i,
                        names.deep_view() == call_names(cv).take(i as int),
                    decreases n - i,
                {
                    let ghost pre = names.deep_view();
                    proof {
                        assert(cv[i as int] == tool_calls@[i as int].deep_view());
                    }
                    let item = tool_calls[i].name.clone();
                    proof {
                        assert(item@ == call_names(cv)[i as int]);
                    }
                    names.push(item);
                    proof {
                        assert forall|k: int| 0 <= k < pre.len() implies #[trigger] names.deep_view()[k]
                            == pre[k] by {
                            assert(names.deep_view()[k] == names@[k].deep_view());
                        }
                        assert(names.deep_view() =~= call_names(cv).take(i + 1));
                    }
                    i = i + 1;
                }
                proof {
                    assert(call_names(cv).take(n as int) =~= call_names(cv));
                }
                Some(ConversationMessage::Assistant { content: shown, tool_calls: names })
            },
            Message::Tool { content, .. } => Some(
                ConversationMessage::Tool { content: content.clone() },
            ),
        }
    }
}

} // verus!
