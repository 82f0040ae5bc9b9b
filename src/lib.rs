//! System-wide keyboard chords: chord texts parsed into virtual-key codes,
//! the engine that matches key events against the registered chords, and the
//! lifecycle of a listening session.

use vstd::prelude::*;

pub mod key_chord_parser;
pub mod keys;
pub mod engine;
pub mod session;

verus! {

} // verus!
