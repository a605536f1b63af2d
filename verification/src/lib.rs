//! Conversational orchestration core for an AI tutoring service.
//!
//! The crate models the components that drive one tutoring conversation:
//! a token-budgeted conversation window, a streaming tool-call reassembler,
//! a tool registry with uniform dispatch, per-chapter learning progress,
//! and the turn-by-turn orchestrator state machine. Everything that talks
//! to the network, the database or the model provider lives outside this
//! crate; the logic here is pure and verified.

pub mod api;
pub mod book;
pub mod books;
pub mod chapter;
pub mod error;
pub mod functions;
pub mod memory;
pub mod message;
pub mod progress;
pub mod reassembler;
pub mod registry;
pub mod teacher;
pub mod tokens;
pub mod tools;
pub mod window;
