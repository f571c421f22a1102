//! The structured record that successful parsing produces.

use vstd::prelude::*;

verus! {

/// An expiration date: month and year, both as parsed from the raw
/// string, with no range validation beyond being decimal `u32` fields.
#[derive(Debug, Clone, Copy, PartialEq, Eq, Structural)]
pub struct Expiration {
    pub year: u32,
    pub month: u32,
}

/// A structured credit-card record. Built only by successful parsing;
/// immutable once built.
#[derive(Debug, Clone, Copy, PartialEq, Eq, Structural)]
pub struct Card {
    pub number: u32,
    pub exp: Expiration,
    pub cvv: u32,
}

} // verus!
