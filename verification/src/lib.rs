//! The decisions of a command-line client that asks a remote service for
//! commit messages.
//!
//! The library reads and writes nothing itself. It says how the stored API
//! key changes ([`credential`]), which staged changes are sent ([`diff`]),
//! what a call of the service looks like and what its answer means
//! ([`api`]), what is printed ([`report`]), and what may follow a generated
//! message ([`action`]). [`dispatch`] puts these together as a machine that a
//! program drives: it performs what a step asks for and hands the outcome
//! back.
//!
//! [`text`] and [`lines`] hold the work on characters; [`json`] and
//! [`paint`] are where `serde_json` and `ansi_term` are called.

pub mod action;
pub mod api;
pub mod credential;
pub mod diff;
pub mod dispatch;
pub mod json;
pub mod lines;
pub mod paint;
pub mod report;
pub mod text;
