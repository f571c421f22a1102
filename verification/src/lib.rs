//! A small library for looking up and parsing credit-card description
//! strings.
//!
//! A `Directory` maps user names to raw card strings. A raw card string
//! holds four space-separated decimal fields: card number, expiration
//! month, expiration year, and CVV. `parse_card` validates such a string
//! and builds a `Card`, classifying every failure as either
//! caller-attributable bad input or an internal conversion failure with
//! its cause preserved.

pub mod card;
pub mod directory;
pub mod numbers;
pub mod errors;
pub mod parser;
pub mod split;
