//! The logic levels that components exchange.

use vstd::prelude::*;

verus! {

/// The level of one connection of a component.
#[derive(Debug, Copy, Clone, PartialEq, Eq, Structural)]
pub enum State {
    Undefined,
    Low,
    High,
}

} // verus!
