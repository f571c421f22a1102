//! Validating and decoding a raw card string into a `Card`.
//!
//! The pipeline is linear and fail-fast: split on single spaces, parse
//! every token as a non-negative integer in order, check that exactly
//! four values came out, then assign them positionally as card number,
//! expiration month, expiration year, and CVV.

use vstd::prelude::*;

use crate::card::Card;
use crate::card::Expiration;
use crate::errors::count_error_message;
use crate::errors::count_error_msg;
use crate::errors::numbers_error_message;
use crate::errors::numbers_error_msg;
use crate::errors::token_error_message;
use crate::errors::token_error_msg;
use crate::errors::ParseErrorKind;
use crate::errors::ParsePaymentInfoError;
use crate::numbers::token_num;
use crate::numbers::token_parses;
use crate::numbers::parse_u32;
use crate::split::split_spaces;
use crate::split::split_tokens;
use crate::split::views_of;

verus! {

/// Whether every token parses as a non-negative `u32`.
pub open spec fn all_tokens_parse(toks: Seq<Seq<char>>) -> bool {
    forall|i: int| 0 <= i < toks.len() ==> token_parses(#[trigger] toks[i])
}

/// The numeric values of the tokens, in order.
pub open spec fn values_of(toks: Seq<Seq<char>>) -> Seq<nat> {
    Seq::new(toks.len(), |i: int| token_num(toks[i]))
}

/// A raw card string is well-formed when every token is numeric and
/// there are exactly four of them.
pub open spec fn card_well_formed(s: Seq<char>) -> bool {
    &&& all_tokens_parse(split_tokens(s))
    &&& split_tokens(s).len() == 4
}

/// The record a well-formed raw card string denotes: the four token
/// values taken positionally as number, month, year, CVV.
pub open spec fn card_of(s: Seq<char>) -> Card {
    let vals = values_of(split_tokens(s));
    Card {
        number: vals[0] as u32,
        exp: Expiration { year: vals[2] as u32, month: vals[1] as u32 },
        cvv: vals[3] as u32,
    }
}

/// Whether `k` is the first index whose token does not parse.
pub open spec fn first_failing(toks: Seq<Seq<char>>, k: int) -> bool {
    &&& 0 <= k < toks.len()
    &&& !token_parses(toks[k])
    &&& forall|j: int| 0 <= j < k ==> token_parses(#[trigger] toks[j])
}

/// Whether a wrapped cause reports exactly the token `t`.
pub open spec fn cause_names_token(cause: ParsePaymentInfoError, t: Seq<char>) -> bool {
    cause.msg matches Some(m) && m@ == token_error_msg(t)
}

/// The error reported when some token of `s` is not numeric: a
/// numeric-conversion failure whose summary names the whole input and
/// whose wrapped cause names the first offending token.
pub open spec fn numbers_failure(s: Seq<char>, e: ParsePaymentInfoError) -> bool {
    let toks = split_tokens(s);
    &&& e.kind == ParseErrorKind::NumericConversion
    &&& e.msg matches Some(m) && m@ == numbers_error_msg(s)
    &&& e.source matches Some(cause) && {
        &&& (*cause).kind == ParseErrorKind::NumericConversion
        &&& (exists|k: int| first_failing(toks, k) && cause_names_token(*cause, toks[k]))
        &&& (*cause).source is None
    }
}

/// The error reported when all tokens are numeric but there are not
/// exactly four of them.
pub open spec fn count_failure(s: Seq<char>, e: ParsePaymentInfoError) -> bool {
    &&& e.kind == ParseErrorKind::MalformedInput
    &&& e.msg matches Some(m) && m@ == count_error_msg(values_of(split_tokens(s)))
    &&& e.source is None
}

/// Everything `parse_card_numbers` promises of its result.
pub open spec fn parse_numbers_post(s: Seq<char>, r: Result<Vec<u32>, ParsePaymentInfoError>) -> bool {
    match r {
        Ok(v) => {
            &&& all_tokens_parse(split_tokens(s))
            &&& v@.map_values(|x: u32| x as nat) == values_of(split_tokens(s))
        },
        Err(e) => {
            &&& !all_tokens_parse(split_tokens(s))
            &&& numbers_failure(s, e)
        },
    }
}

/// Everything `parse_card` promises of its result.
pub open spec fn parse_card_post(s: Seq<char>, r: Result<Card, ParsePaymentInfoError>) -> bool {
    match r {
        Ok(c) => {
            &&& card_well_formed(s)
            &&& c == card_of(s)
        },
        Err(e) => {
            &&& !card_well_formed(s)
            &&& if !all_tokens_parse(split_tokens(s)) {
                numbers_failure(s, e)
            } else {
                split_tokens(s).len() != 4 && count_failure(s, e)
            }
        },
    }
}

/// Parse every space-separated token of `card` as a non-negative
/// integer, in order, failing fast on the first token that is not one.
pub fn parse_card_numbers(card: &str) -> (r: Result<Vec<u32>, ParsePaymentInfoError>)
    ensures
        parse_numbers_post(card@, r),
        r is Ok <==> all_tokens_parse(split_tokens(card@)),
{
    let tokens = split_spaces(card);
    let ghost toks = split_tokens(card@);
    let mut numbers: Vec<u32> = Vec::new();
    let mut i: usize = 0;
    while i < tokens.len()
        invariant
            0 <= i <= tokens.len(),
            views_of(tokens@) == toks,
            toks == split_tokens(card@),
            forall|j: int| 0 <= j < i ==> token_parses(#[trigger] toks[j]),
            numbers@.len() == i,
            forall|j: int| 0 <= j < i ==> #[trigger] numbers@[j] as nat == token_num(toks[j]),
        decreases tokens.len() - i,
    {
        proof {
            assert(toks[i as int] == tokens@[i as int]@);
        }
        match parse_u32(tokens[i].as_str()) {
            Some(v) => {
                numbers.push(v);
            },
            None => {
                let cause = ParsePaymentInfoError {
                    kind: ParseErrorKind::NumericConversion,
                    msg: Some(token_error_message(tokens[i].as_str())),
                    source: None,
                };
                let e = ParsePaymentInfoError {
                    kind: ParseErrorKind::NumericConversion,
                    msg: Some(numbers_error_message(card)),
                    source: Some(Box::new(cause)),
                };
                proof {
                    assert(!token_parses(toks[i as int]));
                    assert(first_failing(toks, i as int));
                    assert(cause_names_token(*e.source->Some_0, toks[i as int]));
                }
                return Err(e);
            },
        }
        i = i + 1;
    }
    proof {
        assert(numbers@.map_values(|x: u32| x as nat) =~= values_of(toks));
    }
    Ok(numbers)
}

/// Validate and decode a raw card string into a `Card`.
///
/// Succeeds exactly when the string is well-formed: every token
/// numeric and exactly four of them. A non-numeric token yields a
/// numeric-conversion failure with its cause preserved; a wrong token
/// count yields a malformed-input failure reporting the expected
/// count, the actual count, and the parsed values.
pub fn parse_card(card: &str) -> (r: Result<Card, ParsePaymentInfoError>)
    ensures
        parse_card_post(card@, r),
        r is Ok <==> card_well_formed(card@),
{
    let numbers = match parse_card_numbers(card) {
        Ok(v) => v,
        Err(e) => {
            return Err(e);
        },
    };
    let ghost toks = split_tokens(card@);
    proof {
        assert(numbers@.len() == toks.len()) by {
            assert(numbers@.map_values(|x: u32| x as nat).len() == values_of(toks).len());
        }
    }
    if numbers.len() != 4 {
        return Err(
            ParsePaymentInfoError {
                kind: ParseErrorKind::MalformedInput,
                msg: Some(count_error_message(&numbers)),
                source: None,
            },
        );
    }
    proof {
        assert forall|j: int| 0 <= j < 4 implies #[trigger] numbers@[j] as nat == values_of(toks)[j] by {
            assert(numbers@.map_values(|x: u32| x as nat)[j] == values_of(toks)[j]);
        }
    }
    Ok(
        Card {
            number: numbers[0],
            exp: Expiration { year: numbers[2], month: numbers[1] },
            cvv: numbers[3],
        },
    )
}

/// Parsing is a pure function of the raw string: any two results that
/// satisfy the parsing contract for the same input agree — the same
/// success or failure, field-for-field identical records on success,
/// and failures of the same kind rendering the same messages.
pub proof fn lemma_parse_card_deterministic(
    s: Seq<char>,
    r1: Result<Card, ParsePaymentInfoError>,
    r2: Result<Card, ParsePaymentInfoError>,
)
    requires
        parse_card_post(s, r1),
        parse_card_post(s, r2),
    ensures
        r1 is Ok <==> r2 is Ok,
        r1 matches Ok(c1) ==> r2 matches Ok(c2) && c1 == c2,
        r1 matches Err(e1) ==> r2 matches Err(e2) && same_rendering(e1, e2),
{
    if r1 is Err && r2 is Err {
        let e1 = r1->Err_0;
        let e2 = r2->Err_0;
        let toks = split_tokens(s);
        if !all_tokens_parse(toks) {
            let k1 = choose|k: int|
                first_failing(toks, k) && cause_names_token(*e1.source->Some_0, toks[k]);
            let k2 = choose|k: int|
                first_failing(toks, k) && cause_names_token(*e2.source->Some_0, toks[k]);
            assert(k1 == k2) by {
                if k1 < k2 {
                    assert(token_parses(toks[k1]));
                } else if k2 < k1 {
                    assert(token_parses(toks[k2]));
                }
            }
        }
    }
}

/// Two failures that render identically: same discriminant, same
/// message text, and causes (if any) with the same discriminant and
/// message text.
pub open spec fn same_rendering(e1: ParsePaymentInfoError, e2: ParsePaymentInfoError) -> bool {
    &&& e1.kind == e2.kind
    &&& (e1.msg is Some <==> e2.msg is Some)
    &&& (e1.msg matches Some(m1) ==> e2.msg matches Some(m2) && m1@ == m2@)
    &&& (e1.source is Some <==> e2.source is Some)
    &&& (e1.source matches Some(c1) ==> e2.source matches Some(c2) && (*c1).kind == (*c2).kind && (
    (*c1).msg is Some <==> (*c2).msg is Some) && ((*c1).msg matches Some(n1) ==> (*c2).msg
        matches Some(n2) && n1@ == n2@) && ((*c1).source is Some <==> (*c2).source is Some))
}

} // verus!
