//! Onboarding and moderation core of a chat-community bot.
//!
//! Everything here is plain computation over identifiers, timestamps and
//! text: the chat platform and the database are driven by the caller, which
//! hands the results of those calls to the functions of this crate.

pub mod expiry;
pub mod schedule;
pub mod text;
pub mod intro;
pub mod report;
pub mod cache;
pub mod config;
pub mod onboarding;
pub mod sweep;
