//! Verified decision logic of a webhook-triggered deployment dispatcher:
//! signature authentication, payload interpretation, repository-to-target
//! resolution, outcome classification and notification text.

pub mod deploy;
pub mod error;
pub mod event;
pub mod handler;
pub mod json;
pub mod notify;
pub mod signature;
pub mod targets;
