//! The tutoring orchestrator: one conversation's turn-by-turn control.
//!
//! A turn cycles through the phases awaiting-model, streaming-response and
//! dispatching-tools until the model produces a turn with no tool calls.
//! The orchestrator owns the bounded window, the tool registry, the
//! streaming reassembler, and the tutoring state the tools act on; the
//! surrounding program performs the provider calls and feeds the stream's
//! deltas and the decoded tool invocations back in.

use crate::book::Book;
use crate::error::Error;
use crate::message::message_tokens;
use crate::message::Message;
use crate::message::MessageV;
use crate::message::ResponseEvent;
use crate::message::ResponseEventV;
use crate::message::ToolCall;
use crate::message::ToolCallV;
use crate::message::UserContent;
use crate::progress::BookProgress;
use crate::reassembler::distinct_slots;
use crate::reassembler::merge_chunk_spec;
use crate::reassembler::calls_of;
use crate::reassembler::ToolCallChunk;
use crate::reassembler::ToolCallStreamManager;
use crate::registry::ToolDecl;
use crate::registry::ToolDeclV;
use crate::registry::ToolManager;
use crate::tools::default_tool_manager;
use crate::tools::dispatch_spec;
use crate::tools::ToolInvocation;
use crate::tools::ToolInvocationV;
use crate::tools::TutorTools;
use crate::tools::TutorToolsV;
use crate::window::append_all;
use crate::window::trim_tail;
use crate::window::MessagesManager;
use vstd::prelude::*;
use vstd::string::StringExecFns;

verus! {

/// The role instruction given to the model, personalized with the
/// student's and the book's names.
pub open spec fn instruction_spec(student: Seq<char>, book: Seq<char>) -> Seq<char> {
    "\n## Role:\nYou are Vera, a sharp-witted AI tutor who loves Agatha Christie, artisanal coffee, linguistics trivia, comic sketching, and noir films. You’re direct, sarcastic yet motivating, expecting "@ + student + " to keep up while secretly rooting for them.\n\n## Teaching Approach:\n- Plan lessons using "@ + book + "’s structure via [GetChapterContent].\n- Deliver chapter-based lessons with clear objectives, engaging activities, and progress tracking.\n- Adapt to "@ + student + "’s needs, balancing critique with encouragement.\n\n## Teaching Process:\n1. **Chapter Intro**: Use [GetChapterContent: \"X.Y.\"] to outline objectives. Set the stage briefly. Example: \"Hey, "@ + student + ", Chapter 1.3 is verbs—sentence superstars. Ready?\"\n2. **Guided Reading**: Direct to a section with [BookJump: {\"chapter_number\": \"X.Y.\", \"sector_title\": \"Section Title\"}]. Example: \"Check out the verb section in Chapter 1.3.\"\n3. **Explanation**: Explain one concept in 2-3 sentences, using [AddMemory] for personalization. Example: \"Verbs are actions, like ‘run.’ Since you love mysteries, think ‘investigate.’\"\n4. **Check**: Ask one question post-explanation. Example: \"What’s a verb for a detective story?\"\n5. **Feedback**: Encourage or correct, updating [AddMemory]. Example (correct): \"‘Snoop’? Nice one, sleuth!\" Example (incorrect): \"‘Clue’ is a noun. Try an action word.\"\n6. **Adjust**: Move forward if understood; simplify or revisit (one [BookJump] max) if not. Log issues in [UpdateProgress].\n7. **Summary**: Summarize and log with [UpdateProgress], updating [AddMemory].\n\n## Tools:\n- **GetChapterContent**: Retrieve chapter objectives and content.\n- **BookJump**: Guide to textbook sections.\n- **AddMemory**: Store student data for personalization.\n- **UpdateProgress**: Log progress with objectives and next steps.\n\n## Instructions:\n- **Start**: Introduce Vera and "@ + book + " with [GetChapterContent: \"1.0.\"]. Begin with Chapter 1.1.\n- **Stay Structured**: Teach one concept at a time, using tools to plan and personalize. Guide back if off-topic.\n- **Engage**: Weave in Vera’s hobbies (e.g., “Tougher than a Christie twist”).\n- **Tool Invocation**: Execute tools internally; do NOT include `[ToolName: ...]` in responses. Integrate results naturally (e.g., [BookJump] becomes \"Read this section\").\n- **Constraints**:\n  - One concept, one question per step.\n  - Responses must be conversational, tool-syntax-free, and tailored to "@ + student + ".\n"@
}

/// Renders the role instruction for one student and one book.
pub fn instruction_text(student_name: &str, book_name: &str) -> (r: String)
    ensures
        r@ == instruction_spec(student_name@, book_name@),
{
    let mut s = String::from_str("\n## Role:\nYou are Vera, a sharp-witted AI tutor who loves Agatha Christie, artisanal coffee, linguistics trivia, comic sketching, and noir films. You’re direct, sarcastic yet motivating, expecting ");
    s.append(student_name);
    s.append(" to keep up while secretly rooting for them.\n\n## Teaching Approach:\n- Plan lessons using ");
    s.append(book_name);
    s.append("’s structure via [GetChapterContent].\n- Deliver chapter-based lessons with clear objectives, engaging activities, and progress tracking.\n- Adapt to ");
    s.append(student_name);
    s.append("’s needs, balancing critique with encouragement.\n\n## Teaching Process:\n1. **Chapter Intro**: Use [GetChapterContent: \"X.Y.\"] to outline objectives. Set the stage briefly. Example: \"Hey, ");
    s.append(student_name);
    s.append(", Chapter 1.3 is verbs—sentence superstars. Ready?\"\n2. **Guided Reading**: Direct to a section with [BookJump: {\"chapter_number\": \"X.Y.\", \"sector_title\": \"Section Title\"}]. Example: \"Check out the verb section in Chapter 1.3.\"\n3. **Explanation**: Explain one concept in 2-3 sentences, using [AddMemory] for personalization. Example: \"Verbs are actions, like ‘run.’ Since you love mysteries, think ‘investigate.’\"\n4. **Check**: Ask one question post-explanation. Example: \"What’s a verb for a detective story?\"\n5. **Feedback**: Encourage or correct, updating [AddMemory]. Example (correct): \"‘Snoop’? Nice one, sleuth!\" Example (incorrect): \"‘Clue’ is a noun. Try an action word.\"\n6. **Adjust**: Move forward if understood; simplify or revisit (one [BookJump] max) if not. Log issues in [UpdateProgress].\n7. **Summary**: Summarize and log with [UpdateProgress], updating [AddMemory].\n\n## Tools:\n- **GetChapterContent**: Retrieve chapter objectives and content.\n- **BookJump**: Guide to textbook sections.\n- **AddMemory**: Store student data for personalization.\n- **UpdateProgress**: Log progress with objectives and next steps.\n\n## Instructions:\n- **Start**: Introduce Vera and ");
    s.append(book_name);
    s.append(" with [GetChapterContent: \"1.0.\"]. Begin with Chapter 1.1.\n- **Stay Structured**: Teach one concept at a time, using tools to plan and personalize. Guide back if off-topic.\n- **Engage**: Weave in Vera’s hobbies (e.g., “Tougher than a Christie twist”).\n- **Tool Invocation**: Execute tools internally; do NOT include `[ToolName: ...]` in responses. Integrate results naturally (e.g., [BookJump] becomes \"Read this section\").\n- **Constraints**:\n  - One concept, one question per step.\n  - Responses must be conversational, tool-syntax-free, and tailored to ");
    s.append(student_name);
    s.append(".\n");
    proof {
        assert(s@ =~= instruction_spec(student_name@, book_name@));
    }
    s
}

/// Where a turn stands.
#[derive(Debug, Clone, Copy, PartialEq, Eq, Structural)]
pub enum TurnPhase {
    /// Ready to send the window to the model.
    AwaitingModel,
    /// Consuming the model's streamed deltas.
    StreamingResponse,
    /// Resolving the tool calls of the last assistant turn.
    DispatchingTools,
    /// The turn ended: the model produced no further tool calls.
    Done,
}

/// The text accumulated so far, as an optional message body: empty text
/// means no body at all.
pub open spec fn buffer_body(s: Seq<char>) -> Option<Seq<char>> {
    if s.len() == 0 {
        None
    } else {
        Some(s)
    }
}

/// The refusal events owed after a stream ends: one event carrying the
/// whole refusal, or none when the model did not refuse.
pub open spec fn refusal_events(refusal: Seq<char>) -> Seq<ResponseEventV> {
    if refusal.len() == 0 {
        Seq::empty()
    } else {
        seq![ResponseEventV::Refusal(refusal)]
    }
}

/// One tool-call-issued event per reassembled call, in order.
pub open spec fn tool_call_events(calls: Seq<ToolCallV>) -> Seq<ResponseEventV> {
    calls.map_values(|c: ToolCallV| ResponseEventV::ToolCall(c))
}

/// The listener event for one tool result message.
pub open spec fn result_event(m: MessageV) -> ResponseEventV {
    match m {
        MessageV::Tool { tool_call_id, content } => ResponseEventV::ToolResult {
            tool_call_id,
            content,
        },
        _ => ResponseEventV::Content(Seq::empty()),
    }
}

/// One tool-result event per result message, in order.
pub open spec fn tool_result_events(msgs: Seq<MessageV>) -> Seq<ResponseEventV> {
    msgs.map_values(|m: MessageV| result_event(m))
}

/// The assistant message synthesized when a stream ends, from whichever of
/// content, refusal and tool calls are present.
pub open spec fn assistant_message(
    content: Seq<char>,
    refusal: Seq<char>,
    calls: Seq<ToolCallV>,
) -> MessageV {
    MessageV::Assistant {
        content: buffer_body(content),
        refusal: buffer_body(refusal),
        tool_calls: calls,
    }
}

/// The tutoring orchestrator for one (student, book) conversation.
#[derive(Debug)]
pub struct TeacherAgent {
    messages: MessagesManager,
    tool_manager: ToolManager,
    tools: TutorTools,
    phase: TurnPhase,
    content_buffer: String,
    refusal_buffer: String,
    reassembler: ToolCallStreamManager,
    pending_calls: Vec<ToolCall>,
}

impl TeacherAgent {
    /// The bounded conversation window.
    pub closed spec fn window(&self) -> MessagesManager {
        self.messages
    }

    /// The tool registry.
    pub closed spec fn registry(&self) -> ToolManager {
        self.tool_manager
    }

    /// The tutoring state the tools act on.
    pub closed spec fn tutor(&self) -> TutorToolsV {
        self.tools@
    }

    /// Where the current turn stands.
    pub closed spec fn phase(&self) -> TurnPhase {
        self.phase
    }

    /// The assistant text accumulated from the current stream.
    pub closed spec fn content_text(&self) -> Seq<char> {
        self.content_buffer@
    }

    /// The refusal text accumulated from the current stream.
    pub closed spec fn refusal_text(&self) -> Seq<char> {
        self.refusal_buffer@
    }

    /// The reassembler's slot table for the current stream.
    pub closed spec fn slots(&self) -> Seq<(u32, ToolCallV)> {
        self.reassembler.slots()
    }

    /// The calls of the last assistant turn that still await dispatch.
    pub closed spec fn pending(&self) -> Seq<ToolCallV> {
        self.pending_calls.deep_view()
    }

    /// Well-formedness of the whole orchestrator.
    pub open spec fn wf(&self) -> bool {
        &&& self.window().wf()
        &&& crate::progress::chapters_unique(self.tutor().progress.chapter_progress)
        &&& crate::progress::memories_unique(self.tutor().progress.memories)
        &&& crate::tools::records_wf(self.tutor().progress.chapter_progress)
        &&& distinct_slots(self.slots())
    }

    /// Builds an orchestrator for one conversation. The instruction text and
    /// the book-context text each must fit within a quarter of the token
    /// budget, or construction fails before any model call could be made.
    pub fn new(
        book: Book,
        progress: BookProgress,
        instruction: String,
        book_info: String,
        history: Vec<Message>,
        token_budget: u64,
    ) -> (r: Result<TeacherAgent, Error>)
        requires
            crate::progress::chapters_unique(progress@.chapter_progress),
            crate::progress::memories_unique(progress@.memories),
            crate::tools::records_wf(progress@.chapter_progress),
        ensures
            r is Ok <==> message_tokens(MessageV::System(instruction@)) <= token_budget as nat / 4
                && message_tokens(MessageV::System(book_info@)) <= token_budget as nat / 4,
            message_tokens(MessageV::System(instruction@)) > token_budget as nat / 4 ==> r
                == Err::<TeacherAgent, Error>(
                Error::TokenTooMuch {
                    current: message_tokens(MessageV::System(instruction@)) as u64,
                    budget: token_budget,
                },
            ),
            r matches Ok(agent) ==> {
                &&& agent.wf()
                &&& agent.phase() == TurnPhase::AwaitingModel
                &&& agent.window().budget() == token_budget
                &&& agent.window().instruction_view() == MessageV::System(instruction@)
                &&& agent.window().book_info_view() == MessageV::System(book_info@)
                &&& agent.window().conv() == trim_tail(
                    message_tokens(MessageV::System(instruction@)) + message_tokens(
                        MessageV::System(book_info@),
                    ),
                    token_budget as nat,
                    history.deep_view(),
                )
                &&& agent.tutor() == (TutorToolsV {
                    chapters: book.chapters.deep_view(),
                    progress: progress@,
                })
                &&& agent.registry().decls() == crate::tools::default_decls_spec()
                &&& agent.registry().is_registered("GetChapterContent"@)
                &&& agent.registry().is_registered("BookJump"@)
                &&& agent.registry().is_registered("ProgressUpdate"@)
                &&& agent.registry().is_registered("AddMemory"@)
                &&& agent.registry().is_registered("GetBookProgress"@)
            },
    {
        let messages = match MessagesManager::load(
            Message::System(instruction),
            Message::System(book_info),
            history,
            token_budget,
        ) {
            Ok(m) => m,
            Err(e) => {
                return Err(e);
            },
        };
        let tool_manager = default_tool_manager();
        let agent = TeacherAgent {
            messages,
            tool_manager,
            tools: TutorTools { book, progress },
            phase: TurnPhase::AwaitingModel,
            content_buffer: String::new(),
            refusal_buffer: String::new(),
            reassembler: ToolCallStreamManager::new(),
            pending_calls: Vec::new(),
        };
        proof {
            assert(agent.pending() =~= Seq::<ToolCallV>::empty());
        }
        Ok(agent)
    }

    /// Accepts one student input: the message joins the window and the turn
    /// starts awaiting the model.
    pub fn begin_input(&mut self, content: UserContent)
        requires
            old(self).wf(),
            old(self).phase() == TurnPhase::AwaitingModel || old(self).phase() == TurnPhase::Done,
        ensures
            final(self).wf(),
            final(self).phase() == TurnPhase::AwaitingModel,
            final(self).window().conv() == trim_tail(
                old(self).window().fixed_tokens(),
                old(self).window().budget() as nat,
                old(self).window().conv().push(MessageV::User(content@)),
            ),
            final(self).window().budget() == old(self).window().budget(),
            final(self).window().instruction_view() == old(self).window().instruction_view(),
            final(self).window().book_info_view() == old(self).window().book_info_view(),
            final(self).window().spec_total() <= final(self).window().budget(),
            final(self).tutor() == old(self).tutor(),
            final(self).registry() == old(self).registry(),
    {
        self.messages.add_conversation_message(Message::User(content));
        self.phase = TurnPhase::AwaitingModel;
    }

    /// The payload of the next model request: the window's ordered message
    /// list and the declarations of every registered tool.
    pub fn model_request(&self) -> (r: (Vec<Message>, Vec<ToolDecl>))
        requires
            self.phase() == TurnPhase::AwaitingModel,
        ensures
            r.0.deep_view() == seq![
                self.window().instruction_view(),
                self.window().book_info_view(),
            ] + self.window().conv(),
            r.1.deep_view() == self.registry().decls(),
    {
        (self.messages.get_messages(), self.tool_manager.get_tools())
    }

    /// Starts consuming a model stream: the buffers and the reassembler are
    /// cleared and the turn enters the streaming phase.
    pub fn stream_begin(&mut self)
        requires
            old(self).wf(),
            old(self).phase() == TurnPhase::AwaitingModel,
        ensures
            final(self).wf(),
            final(self).phase() == TurnPhase::StreamingResponse,
            final(self).content_text() == Seq::<char>::empty(),
            final(self).refusal_text() == Seq::<char>::empty(),
            final(self).slots() == Seq::<(u32, ToolCallV)>::empty(),
            final(self).pending() == Seq::<ToolCallV>::empty(),
            final(self).window() == old(self).window(),
            final(self).tutor() == old(self).tutor(),
            final(self).registry() == old(self).registry(),
    {
        self.content_buffer = String::new();
        self.refusal_buffer = String::new();
        self.reassembler = ToolCallStreamManager::new();
        self.pending_calls = Vec::new();
        self.phase = TurnPhase::StreamingResponse;
        proof {
            assert(self.pending() =~= Seq::<ToolCallV>::empty());
        }
    }

    /// Takes one content delta: the text is accumulated and handed back as
    /// the event to forward to the listener at once, in arrival order.
    pub fn on_content_delta(&mut self, piece: String) -> (ev: ResponseEvent)
        requires
            old(self).wf(),
            old(self).phase() == TurnPhase::StreamingResponse,
        ensures
            final(self).wf(),
            final(self).phase() == TurnPhase::StreamingResponse,
            final(self).content_text() == old(self).content_text() + piece@,
            final(self).refusal_text() == old(self).refusal_text(),
            final(self).slots() == old(self).slots(),
            final(self).pending() == old(self).pending(),
            final(self).window() == old(self).window(),
            final(self).tutor() == old(self).tutor(),
            final(self).registry() == old(self).registry(),
            ev@ == ResponseEventV::Content(piece@),
    {
        self.content_buffer.append(piece.as_str());
        ResponseEvent::Content(piece)
    }

    /// Takes one refusal delta: the text is accumulated, but the refusal is
    /// only reported to the listener as a whole after the stream ends.
    pub fn on_refusal_delta(&mut self, piece: String)
        requires
            old(self).wf(),
            old(self).phase() == TurnPhase::StreamingResponse,
        ensures
            final(self).wf(),
            final(self).phase() == TurnPhase::StreamingResponse,
            final(self).refusal_text() == old(self).refusal_text() + piece@,
            final(self).content_text() == old(self).content_text(),
            final(self).slots() == old(self).slots(),
            final(self).pending() == old(self).pending(),
            final(self).window() == old(self).window(),
            final(self).tutor() == old(self).tutor(),
            final(self).registry() == old(self).registry(),
    {
        self.refusal_buffer.append(piece.as_str());
    }

    /// Takes one tool-call fragment and feeds it to the reassembler.
    pub fn on_tool_call_chunk(&mut self, chunk: ToolCallChunk)
        requires
            old(self).wf(),
            old(self).phase() == TurnPhase::StreamingResponse,
        ensures
            final(self).wf(),
            final(self).phase() == TurnPhase::StreamingResponse,
            final(self).slots() == merge_chunk_spec(old(self).slots(), chunk@),
            final(self).content_text() == old(self).content_text(),
            final(self).refusal_text() == old(self).refusal_text(),
            final(self).pending() == old(self).pending(),
            final(self).window() == old(self).window(),
            final(self).tutor() == old(self).tutor(),
            final(self).registry() == old(self).registry(),
    {
        self.reassembler.merge_chunk(chunk);
    }

    /// Ends the stream: an assistant message is synthesized from whichever
    /// of content, refusal and tool calls are present and appended to the
    /// window; the refusal, if any, is reported as one event, followed by
    /// one event per issued tool call. With no calls the turn is done,
    /// otherwise dispatch is next.
    pub fn stream_end(&mut self) -> (events: Vec<ResponseEvent>)
        requires
            old(self).wf(),
            old(self).phase() == TurnPhase::StreamingResponse,
        ensures
            final(self).wf(),
            ({
                let calls = calls_of(old(self).slots());
                let msg = assistant_message(
                    old(self).content_text(),
                    old(self).refusal_text(),
                    calls,
                );
                &&& final(self).window().conv() == trim_tail(
                    old(self).window().fixed_tokens(),
                    old(self).window().budget() as nat,
                    old(self).window().conv().push(msg),
                )
                &&& final(self).window().budget() == old(self).window().budget()
                &&& final(self).window().instruction_view() == old(
                    self,
                ).window().instruction_view()
                &&& final(self).window().book_info_view() == old(self).window().book_info_view()
                &&& events.deep_view() == refusal_events(old(self).refusal_text())
                    + tool_call_events(calls)
                &&& final(self).pending() == calls
                &&& final(self).phase() == (if calls.len() == 0 {
                    TurnPhase::Done
                } else {
                    TurnPhase::DispatchingTools
                })
                &&& final(self).slots() == Seq::<(u32, ToolCallV)>::empty()
                &&& final(self).tutor() == old(self).tutor()
                &&& final(self).registry() == old(self).registry()
            }),
    {
        let ghost old_slots = self.reassembler.slots();
        let calls = self.reassembler.drain();
        let content: Option<String> = if self.content_buffer.as_str().is_empty() {
            None
        } else {
            Some(self.content_buffer.clone())
        };
        let refusal: Option<String> = if self.refusal_buffer.as_str().is_empty() {
            None
        } else {
            Some(self.refusal_buffer.clone())
        };
        let mut events: Vec<ResponseEvent> = Vec::new();
        match &refusal {
            Some(text) => {
                events.push(ResponseEvent::Refusal(text.clone()));
            },
            None => (),
        }
        proof {
            assert(events.deep_view() =~= refusal_events(self.refusal_buffer@));
        }
        let message_calls = clone_calls(&calls);
        let message = Message::Assistant { content, refusal, tool_calls: message_calls };
        proof {
            assert(message@ == assistant_message(
                self.content_buffer@,
                self.refusal_buffer@,
                calls_of(old_slots),
            ));
        }
        self.messages.add_conversation_message(message);
        let ghost pre_events = events.deep_view();
        let n = calls.len();
        let mut i: usize = 0;
        while i < n
            invariant
                0 <= i <= n,
                n == calls@.len(),
                events.deep_view() == pre_events + tool_call_events(
                    calls.deep_view().take(i as int),
                ),
            decreases n - i,
        {
            let ghost pre = events.deep_view();
            let item = calls[i].clone();
            proof {
                assert(item.deep_view() == calls.deep_view()[i as int]);
            }
            let event = ResponseEvent::ToolCall(item);
            let ghost evv = event@;
            proof {
                assert(evv == ResponseEventV::ToolCall(calls.deep_view()[i as int]));
            }
            events.push(event);
            proof {
                assert forall|k: int| 0 <= k < pre.len() implies #[trigger] events.deep_view()[k]
                    == pre[k] by {
                    assert(events.deep_view()[k] == events@[k].deep_view());
                }
                assert(events.deep_view()[pre.len() as int] == events@[pre.len() as int].deep_view());
                assert(events.deep_view()[pre.len() as int] == evv);
                assert(tool_call_events(calls.deep_view().take(i + 1)) =~= tool_call_events(
                    calls.deep_view().take(i as int),
                ).push(ResponseEventV::ToolCall(calls.deep_view()[i as int])));
                assert(events.deep_view() =~= pre_events + tool_call_events(
                    calls.deep_view().take(i + 1),
                ));
            }
            i = i + 1;
        }
        proof {
            assert(calls.deep_view().take(n as int) =~= calls.deep_view());
        }
        if calls.len() == 0 {
            self.phase = TurnPhase::Done;
        } else {
            self.phase = TurnPhase::DispatchingTools;
        }
        self.pending_calls = calls;
        events
    }

    /// Runs the decoded invocations of the pending tool calls against the
    /// tutoring state: every call yields exactly one result message, in
    /// call order; nothing is appended to the window yet, so the results
    /// can be persisted first.
    pub fn dispatch_results(&mut self, invocations: &Vec<ToolInvocation>) -> (results: Vec<
        Message,
    >)
        requires
            old(self).wf(),
            old(self).phase() == TurnPhase::DispatchingTools,
        ensures
            final(self).wf(),
            final(self).phase() == TurnPhase::DispatchingTools,
            final(self).tutor() == dispatch_spec(old(self).tutor(), invocations.deep_view()).0,
            results.deep_view() == dispatch_spec(old(self).tutor(), invocations.deep_view()).1,
            final(self).window() == old(self).window(),
            final(self).pending() == old(self).pending(),
            final(self).registry() == old(self).registry(),
    {
        self.tools.dispatch(invocations)
    }

    /// Appends the tool results to the window in result order, hands back
    /// one tool-result event per result, and returns control to awaiting
    /// the model.
    pub fn finish_dispatch(&mut self, results: Vec<Message>) -> (events: Vec<ResponseEvent>)
        requires
            old(self).wf(),
            old(self).phase() == TurnPhase::DispatchingTools,
        ensures
            final(self).wf(),
            final(self).phase() == TurnPhase::AwaitingModel,
            final(self).window().conv() == append_all(
                old(self).window().fixed_tokens(),
                old(self).window().budget() as nat,
                old(self).window().conv(),
                results.deep_view(),
            ),
            final(self).window().budget() == old(self).window().budget(),
            final(self).window().instruction_view() == old(self).window().instruction_view(),
            final(self).window().book_info_view() == old(self).window().book_info_view(),
            events.deep_view() == tool_result_events(results.deep_view()),
            final(self).pending() == Seq::<ToolCallV>::empty(),
            final(self).tutor() == old(self).tutor(),
            final(self).registry() == old(self).registry(),
    {
        let ghost rv = results.deep_view();
        let mut events: Vec<ResponseEvent> = Vec::new();
        let n = results.len();
        let mut i: usize = 0;
        proof {
            assert(events.deep_view() =~= tool_result_events(rv.take(0)));
        }
        while i < n
            invariant
                0 <= i <= n,
                n == results@.len(),
                rv == results.deep_view(),
                events.deep_view() == tool_result_events(rv.take(i as int)),
            decreases n - i,
        {
            let ghost pre = events.deep_view();
            let event = match &results[i] {
                Message::Tool { tool_call_id, content } => ResponseEvent::ToolResult {
                    tool_call_id: tool_call_id.clone(),
                    content: content.clone(),
                },
                _ => ResponseEvent::Content(String::new()),
            };
            proof {
                assert(results@[i as int].deep_view() == rv[i as int]);
                assert(event.deep_view() == result_event(rv[i as int]));
            }
            events.push(event);
            proof {
                assert forall|k: int| 0 <= k < pre.len() implies #[trigger] events.deep_view()[k]
                    == pre[k] by {
                    assert(events.deep_view()[k] == events@[k].deep_view());
                }
                assert(tool_result_events(rv.take(i + 1)) =~= tool_result_events(
                    rv.take(i as int),
                ).push(result_event(rv[i as int])));
                assert(events.deep_view() =~= tool_result_events(rv.take(i + 1)));
            }
            i = i + 1;
        }
        proof {
            assert(rv.take(n as int) =~= rv);
        }
        self.messages.add_conversation_messages(results);
        self.pending_calls = Vec::new();
        self.phase = TurnPhase::AwaitingModel;
        proof {
            assert(self.pending() =~= Seq::<ToolCallV>::empty());
        }
        events
    }

    /// Dispatches the decoded invocations of the pending tool calls in one
    /// step: every call yields exactly one result message, appended to the
    /// window in result order, and one tool-result event for the listener.
    /// Control returns to awaiting the model.
    pub fn dispatch_tools(&mut self, invocations: &Vec<ToolInvocation>) -> (events: Vec<
        ResponseEvent,
    >)
        requires
            old(self).wf(),
            old(self).phase() == TurnPhase::DispatchingTools,
        ensures
            final(self).wf(),
            final(self).phase() == TurnPhase::AwaitingModel,
            ({
                let (t2, results) = dispatch_spec(old(self).tutor(), invocations.deep_view());
                &&& final(self).tutor() == t2
                &&& final(self).window().conv() == append_all(
                    old(self).window().fixed_tokens(),
                    old(self).window().budget() as nat,
                    old(self).window().conv(),
                    results,
                )
                &&& final(self).window().budget() == old(self).window().budget()
                &&& final(self).window().instruction_view() == old(
                    self,
                ).window().instruction_view()
                &&& final(self).window().book_info_view() == old(self).window().book_info_view()
                &&& events.deep_view() == tool_result_events(results)
                &&& final(self).registry() == old(self).registry()
            }),
    {
        let results = self.dispatch_results(invocations);
        self.finish_dispatch(results)
    }

    /// The calls assembled so far from the current stream, without ending
    /// it: what the assistant turn will carry if the stream ends now.
    pub fn peek_stream_calls(&self) -> (r: Vec<ToolCall>)
        ensures
            r.deep_view() == calls_of(self.slots()),
    {
        self.reassembler.calls_so_far()
    }

    /// Where the current turn stands.
    pub fn get_phase(&self) -> (r: TurnPhase)
        ensures
            r == self.phase(),
    {
        self.phase
    }

    /// The calls of the last assistant turn that still await dispatch.
    pub fn get_pending_calls(&self) -> (r: Vec<ToolCall>)
        ensures
            r.deep_view() == self.pending(),
    {
        clone_calls(&self.pending_calls)
    }

    /// The window's current total size.
    pub fn get_token_count(&self) -> (r: u64)
        requires
            self.wf(),
        ensures
            r == self.window().spec_total(),
    {
        self.messages.get_token_count()
    }

    /// The tutoring progress state the tools have been updating.
    pub fn tutor_progress(&self) -> (r: &BookProgress)
        ensures
            r@ == self.tutor().progress,
    {
        &self.tools.progress
    }

    /// The declarations of every registered tool.
    pub fn get_tools(&self) -> (r: Vec<ToolDecl>)
        ensures
            r.deep_view() == self.registry().decls(),
    {
        self.tool_manager.get_tools()
    }

    /// Runs one decoded invocation against the tutoring state directly.
    pub fn run_tool(&mut self, invocation: &ToolInvocation) -> (r: Message)
        requires
            old(self).wf(),
        ensures
            final(self).wf(),
            final(self).tutor() == crate::tools::tool_output(old(self).tutor(), invocation@).0,
            r@ == (MessageV::Tool {
                tool_call_id: invocation.id@,
                content: crate::tools::tool_output(old(self).tutor(), invocation@).1,
            }),
            final(self).window() == old(self).window(),
            final(self).phase() == old(self).phase(),
            final(self).registry() == old(self).registry(),
    {
        self.tools.run_tool(invocation)
    }
}

fn clone_calls(v: &Vec<ToolCall>) -> (r: Vec<ToolCall>)
    ensures
        r.deep_view() == v.deep_view(),
{
    let mut calls: Vec<ToolCall> = Vec::new();
    let n = v.len();
    let mut i: usize = 0;
    while i < n
        invariant
            0 <= i <= n,
            n == v@.len(),
            calls@.len() == i,
            calls.deep_view() == v.deep_view().take(i as int),
        decreases n - i,
    {
        let ghost pre = calls.deep_view();
        let item = v[i].clone();
        proof {
            assert(item.deep_view() == v.deep_view()[i as int]);
        }
        calls.push(item);
        proof {
            assert forall|k: int| 0 <= k < pre.len() implies #[trigger] calls.deep_view()[k]
                == pre[k] by {
                assert(calls.deep_view()[k] == calls@[k].deep_view());
            }
            assert(calls.deep_view() =~= v.deep_view().take(i + 1));
        }
        i = i + 1;
    }
    proof {
        assert(v.deep_view().take(n as int) =~= v.deep_view());
    }
    calls
}

} // verus!
