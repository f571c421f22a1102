//! Error types and their human-readable messages.
//!
//! Every failure carries a discriminant saying what kind of failure it
//! is, an optional ready-made message, and an optional wrapped
//! underlying cause, so that the top level can always render both a
//! safe user-facing line and a detailed diagnostic line without losing
//! the root cause.

use vstd::prelude::*;

use crate::numbers::dec_seq;
use crate::numbers::u64_to_string;

verus! {

/// What kind of failure a `ParsePaymentInfoError` reports.
#[derive(Debug, Clone, Copy, PartialEq, Eq, Structural)]
pub enum ParseErrorKind {
    /// The raw string had the wrong shape: a token count other than
    /// four. Fully attributable to the input.
    MalformedInput,
    /// A token could not be converted to a number; the underlying
    /// conversion failure is preserved as the wrapped cause.
    NumericConversion,
}

/// A failure while parsing a raw card string: a discriminant, an
/// optional human-readable message, and an optional wrapped cause.
#[derive(Debug, PartialEq, Eq)]
pub struct ParsePaymentInfoError {
    pub kind: ParseErrorKind,
    pub msg: Option<String>,
    pub source: Option<Box<ParsePaymentInfoError>>,
}

impl ParsePaymentInfoError {
    /// The wrapped underlying failure, if any.
    pub fn source(&self) -> (r: Option<&ParsePaymentInfoError>)
        ensures
            match self.source {
                Some(cause) => r matches Some(e) && *e == *cause,
                None => r is None,
            },
    {
        match &self.source {
            Some(cause) => Some(&**cause),
            None => None,
        }
    }

    /// The fixed summary line shown when this error is displayed.
    pub fn display_message(&self) -> (r: String)
        ensures
            r@ == "Parsing payment error: Invalid payment info."@,
    {
        String::from_str("Parsing payment error: Invalid payment info.")
    }
}

/// A failure of the whole lookup-then-parse operation.
#[derive(Debug, PartialEq, Eq)]
pub enum CreditCardError {
    /// A condition fully attributable to caller-supplied data: an
    /// unknown name or a wrong token count. Carries a ready-to-display
    /// message.
    InvalidInput(String),
    /// An unexpected lower-level failure, wrapped together with a
    /// summary message. Shown to the user only as a generic notice;
    /// the wrapped detail is for the diagnostic log.
    Other(ParsePaymentInfoError, String),
}

impl CreditCardError {
    /// The line that is safe to show the end user: the ready-made
    /// message for invalid input, a generic notice otherwise.
    pub fn user_message(&self) -> (r: String)
        ensures
            match self {
                CreditCardError::InvalidInput(m) => r@ == m@,
                CreditCardError::Other(_, _) => r@
                    == "Something went wrong, please try again."@,
            },
    {
        match self {
            CreditCardError::InvalidInput(m) => m.clone(),
            CreditCardError::Other(_, _) => String::from_str(
                "Something went wrong, please try again.",
            ),
        }
    }
}

/// The message reporting that one token is not a number.
pub open spec fn token_error_msg(t: Seq<char>) -> Seq<char> {
    "\""@ + t + "\" could not be parsed as u32."@
}

/// The summary message wrapped around a token failure for the whole
/// raw string.
pub open spec fn numbers_error_msg(s: Seq<char>) -> Seq<char> {
    "Failed to parse input as numbers. Input "@ + s + "."@
}

/// The message reporting that a name is not in the directory.
pub open spec fn not_found_msg(name: Seq<char>) -> Seq<char> {
    "No credit card was found for "@ + name + "."@
}

/// The context attached when a found card string fails to parse.
pub open spec fn context_msg(name: Seq<char>) -> Seq<char> {
    name + "'s could not be parsed."@
}

/// The comma-separated decimal renderings of `vs`.
pub open spec fn join_vals(vs: Seq<nat>) -> Seq<char>
    decreases vs.len(),
{
    if vs.len() == 0 {
        Seq::<char>::empty()
    } else if vs.len() == 1 {
        dec_seq(vs[0])
    } else {
        join_vals(vs.drop_last()) + ", "@ + dec_seq(vs.last())
    }
}

/// The message reporting a token count other than four: the expected
/// count, the actual count, and the values parsed so far.
pub open spec fn count_error_msg(vs: Seq<nat>) -> Seq<char> {
    "Incorrect number of elements parsed. Expected 4 but got "@ + dec_seq(vs.len() as nat)
        + ". Elements: ["@ + join_vals(vs) + "]."@
}

/// Build the message for a wrong number of parsed elements.
pub fn count_error_message(values: &Vec<u32>) -> (r: String)
    ensures
        r@ == count_error_msg(values@.map_values(|v: u32| v as nat)),
{
    let ghost vs = values@.map_values(|v: u32| v as nat);
    let mut m = String::from_str("Incorrect number of elements parsed. Expected 4 but got ");
    let count = u64_to_string(values.len() as u64);
    m.append(count.as_str());
    m.append(". Elements: [");
    let ghost head = m@;
    let mut i: usize = 0;
    while i < values.len()
        invariant
            0 <= i <= values.len(),
            vs == values@.map_values(|v: u32| v as nat),
            m@ == head + join_vals(vs.subrange(0, i as int)),
        decreases values.len() - i,
    {
        if i > 0 {
            m.append(", ");
        }
        let rendered = u64_to_string(values[i] as u64);
        m.append(rendered.as_str());
        proof {
            let part = vs.subrange(0, i + 1);
            assert(part.drop_last() =~= vs.subrange(0, i as int));
            assert(part.last() == vs[i as int]);
            if i == 0 {
                assert(vs.subrange(0, 0) =~= Seq::<nat>::empty());
                assert(m@ =~= head + join_vals(part));
            } else {
                assert(m@ =~= head + join_vals(part));
            }
        }
        i = i + 1;
    }
    m.append("].");
    proof {
        assert(vs.subrange(0, values@.len() as int) =~= vs);
        assert(m@ =~= count_error_msg(vs));
    }
    m
}

/// Build the message for a token that is not a number.
pub fn token_error_message(token: &str) -> (r: String)
    ensures
        r@ == token_error_msg(token@),
{
    let mut m = String::from_str("\"");
    m.append(token);
    m.append("\" could not be parsed as u32.");
    m
}

/// Build the summary message for a raw string with a bad token.
pub fn numbers_error_message(card: &str) -> (r: String)
    ensures
        r@ == numbers_error_msg(card@),
{
    let mut m = String::from_str("Failed to parse input as numbers. Input ");
    m.append(card);
    m.append(".");
    m
}

/// Build the message for a name absent from the directory.
pub fn not_found_message(name: &str) -> (r: String)
    ensures
        r@ == not_found_msg(name@),
{
    let mut m = String::from_str("No credit card was found for ");
    m.append(name);
    m.append(".");
    m
}

/// Build the context line for a card string that failed to parse.
pub fn context_message(name: &str) -> (r: String)
    ensures
        r@ == context_msg(name@),
{
    let mut m = String::new();
    m.append(name);
    m.append("'s could not be parsed.");
    proof {
        assert(m@ =~= context_msg(name@));
    }
    m
}

} // verus!
