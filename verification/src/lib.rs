//! Peer-to-peer clipboard sync.
//!
//! What the program decides is here, and is proved; what it reads, paints and sends is left to the
//! shell around it. The shell reports what happened and does what it is told.
//!
//! - `text`, `digest`, `identity`, `wire`, `ticket`, `message`: names, hashes, keys, and what
//!   travels between peers.
//! - `state`: the sync state machine as mathematics; `engine`: the core that runs it; `laws`: what
//!   holds over any run of events.
//! - `network`: what becomes of gossip, and what goes out; `registry`: the rooms that have been
//!   entered.
//! - `shell`: the plain shell; `tui`, `keys`, `screen`: the terminal interface, what its inputs do,
//!   and what it shows.
//! - `clock`: the clocks that the core reads.
pub mod clock;
pub mod digest;
pub mod engine;
pub mod identity;
pub mod keys;
pub mod laws;
pub mod message;
pub mod network;
pub mod registry;
pub mod screen;
pub mod shell;
pub mod state;
pub mod text;
pub mod ticket;
pub mod tui;
pub mod wire;
