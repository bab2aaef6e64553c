//! Authoritative session server core for a small-party asymmetric
//! hide-and-survive game: packet codec, named countdown timers, peer and
//! player records, and the lobby / map-vote / character-select / game
//! state machine, written as pure decision logic over plain values so that
//! the surrounding network runtime only performs the actions it returns.

pub mod charselect;
pub mod config;
pub mod dispatch;
pub mod entity;
pub mod framing;
pub mod game;
pub mod lobby;
pub mod mapdata;
pub mod mapvote;
pub mod output;
pub mod packet;
pub mod peer;
mod rng;
pub mod state;
pub mod timer;

use vstd::prelude::*;

verus! {

} // verus!
