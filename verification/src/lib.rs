//! The operations of a functional group: listing them, starting one on all ECUs of the group, and
//! stopping what was started.
//!
//! Requests are served by small state machines. [`diag_service::post::post`] and
//! [`diag_service::delete::delete`] are told what has happened to a request and say what is to be
//! done next for it; whoever runs them does that and reports back. The executions that are under
//! way stand in an [`executions::ExecutionTable`].

pub mod api;
pub mod calls;
pub mod diag_service;
pub mod docs;
pub mod ecu;
pub mod executions;
pub mod ids;
pub mod json;
pub mod operations;
