//! A user-mode core for a projected file system provider.
//!
//! The host's file-system virtualization layer calls a provider whenever a
//! consumer touches the projected tree. This crate holds what the provider
//! decides: how a virtualization root is set up, how directory listings are
//! handed out in batches, which notifications are refused, and how results
//! become host status codes.
//!
//! Nothing here calls the host or touches the disk. Where a callback needs
//! one answer from outside, the embedding program hands in the call as a
//! closure; where several steps have to be taken in order, a state machine
//! names the next step and takes what came of the last one.

pub mod conv;
pub mod dirinfo;
pub mod filedata;
pub mod guid;
pub mod option;
pub mod order;
pub mod provider;
pub mod regfs;
pub mod regop;
pub mod status;
pub mod sys;

pub use crate::option::{NotificationType, OptionBuilder};
pub use crate::provider::{Provider, ProviderT};
