//! The decision core of a single-host supervisor for game-server processes: the lifecycle
//! state machine, the console line classifier, the player registry, the port coordinator,
//! the remote-console retry policy and the supervisor that ties them together, with the
//! version and launch-command logic they are configured from. Whoever runs the processes
//! (asynchronously, with real I/O) performs the actions these types decide and reports back.

use vstd::prelude::*;

pub mod state;
pub mod text;
pub mod line_parser;
pub mod players;
pub mod ports;
pub mod events;
pub mod rcon;
pub mod supervisor;
pub mod json;
pub mod neoforge;
pub mod util;
pub mod launch;
pub mod properties;

verus! {

} // verus!
