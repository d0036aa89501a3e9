//! Directional search over a text: the n-th occurrence of a character in
//! either direction, and regular-expression search forward and backward over
//! the bytes of a text with deterministic automata.
use vstd::prelude::*;

pub mod automaton;
pub mod block;
pub mod context;
pub mod motion;
pub mod prompt;
pub mod prompts;
pub mod search;

verus! {

/// An optional index seen as a mathematical integer.
pub open spec fn to_int(o: Option<usize>) -> Option<int> {
    match o {
        Some(k) => Some(k as int),
        None => None,
    }
}

} // verus!
