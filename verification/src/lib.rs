//! A deterministic side-scrolling bird game whose sessions can be recorded,
//! replayed and bound to a player by a commitment.
//!
//! [`FlazkyBird`] plays and logs what it plays. [`verify_trace`] checks a
//! finished log and plays it again on a machine of its own; [`execute`] does
//! so from the bytes of a log and returns the record to commit. The
//! modules `model` and `machine` say in mathematics what the machine does,
//! and `laws` what follows from it.

pub mod bounds;
pub mod codec;
pub mod commitment;
pub mod delta;
pub mod game;
pub mod laws;
pub mod machine;
pub mod model;
pub mod replay;
pub mod rng;
pub mod trace;

pub use codec::{decode_trace, encode_trace};
pub use commitment::{build_commitment, execute, nullifier, Commitment, Input};
pub use delta::Delta;
pub use game::{Bird, Coord, FlazkyBird};
pub use replay::{verify_trace, TraceError};
pub use rng::{chain_offsets, new_rand};
pub use trace::{Action, TraceItem};
