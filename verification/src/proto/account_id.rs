//! The two shapes of an account id on the wire.
use vstd::prelude::*;

verus! {

/// A player's uuid bytes (16 when well formed), or a `namespace:key` name.
#[derive(Clone, Debug, PartialEq, Eq)]
pub enum Kind {
    Player(Vec<u8>),
    Named(String),
}

} // verus!
