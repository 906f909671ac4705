//! Verified core of a Discord bot that manages the save folders of a game
//! server: listing them, backing them up to a channel, restoring, deleting and
//! undeleting them, and explaining why a delete failed.
//!
//! Everything here is decided from plain values. Reading the disk, the
//! process table and the clock, and talking to Discord, happen around it.

pub mod text;
pub mod numfmt;
pub mod listing;
pub mod paths;
pub mod steamcmd;
pub mod saves;
pub mod restore;
pub mod delete;
pub mod locks;
pub mod resolve;
pub mod archive;
pub mod commands;

use vstd::prelude::*;

verus! {

/// Shared state passed to every command invocation.
pub struct Data {}

} // verus!
