//! Orchestration core of a conversational service.
//!
//! The crate holds the decisions of the service and none of its I/O: the
//! bounded conversation history, the life of one chat turn from request to
//! the last fragment, the admission of calls into a resource that tolerates
//! one caller at a time, and the error taxonomy shared by all of them.
//! Every function is a plain synchronous function on plain values; whoever
//! embeds the crate performs the network and interpreter calls and reports
//! what came back.

pub mod error;
pub mod history;
pub mod chat;
pub mod gate;
pub mod blocking;
pub mod ai_model;
pub mod routes;
pub mod helpscout_api;
