//! Verified core of a Signal messaging client: message and channel models,
//! timelines, formatting rules and the decisions that the user interface takes.
use vstd::prelude::*;

pub mod attachment;
pub mod channel;
pub mod compose;
pub mod contact;
pub mod content;
pub mod core_model;
pub mod core_store;
pub mod describe;
pub mod devices;
pub mod error;
pub mod i18n;
pub mod incoming;
pub mod mentions;
pub mod message;
pub mod receiving;
pub mod setup;
pub mod text;
pub mod timeline;
pub mod ui;

verus! {

} // verus!
