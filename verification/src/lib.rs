//! A relay that overlays one shared chat on many separate channels.
//!
//! The crate holds the decisions of such a relay and leaves every network and
//! storage call to its host: the set of opted-in channels, the replies of the
//! two commands that change it, and the fan-out engine, which is a state machine
//! that tells the host which call to make next and is told what came of it.

pub mod registry;
pub mod commands;
pub mod identity;
pub mod relay;
pub mod laws;
