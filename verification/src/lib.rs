//! A verified workflow engine for a staff shift-exchange marketplace.
//!
//! Staff propose giving away or swapping assigned shifts; peers claim or
//! respond to those proposals, and a per-role policy decides whether a
//! claim settles at once or waits for an administrator.  The core of the
//! library is a state machine over exchange requests together with the
//! atomic ownership transfer that accompanies approval.

pub mod b64;
pub mod config;
pub mod engine;
pub mod laws;
pub mod models;
pub mod numerals;
pub mod permissions;
pub mod pin_token;
pub mod session;
pub mod validate;
pub mod views;
pub mod workflow;
