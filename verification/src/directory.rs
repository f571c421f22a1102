//! The directory of raw card strings and the top-level operation:
//! resolve a name, then parse the card string it maps to.

use vstd::prelude::*;

use crate::card::Card;
use crate::errors::context_message;
use crate::errors::context_msg;
use crate::errors::count_error_msg;
use crate::errors::not_found_message;
use crate::errors::not_found_msg;
use crate::errors::CreditCardError;
use crate::errors::ParseErrorKind;
use crate::numbers::token_parses;
use crate::parser::all_tokens_parse;
use crate::parser::card_of;
use crate::parser::card_well_formed;
use crate::parser::cause_names_token;
use crate::parser::first_failing;
use crate::parser::numbers_failure;
use crate::parser::parse_card;
use crate::parser::values_of;
use crate::split::split_tokens;

verus! {

/// Whether some entry of `es` has the name `k`.
pub open spec fn seq_has_key(es: Seq<(String, String)>, k: Seq<char>) -> bool {
    exists|i: int| 0 <= i < es.len() && #[trigger] es[i].0@ == k
}

/// The index of the last entry named `k`, or -1 when there is none.
/// The last entry wins, so a later insertion shadows an earlier one.
pub open spec fn seq_last_index(es: Seq<(String, String)>, k: Seq<char>) -> int
    decreases es.len(),
{
    if es.len() == 0 {
        -1
    } else if es.last().0@ == k {
        es.len() - 1
    } else {
        seq_last_index(es.drop_last(), k)
    }
}

/// The card string of the last entry named `k`.
pub open spec fn seq_key_value(es: Seq<(String, String)>, k: Seq<char>) -> Seq<char> {
    es[seq_last_index(es, k)].1@
}

proof fn lemma_last_index(es: Seq<(String, String)>, k: Seq<char>)
    requires
        seq_has_key(es, k),
    ensures
        0 <= seq_last_index(es, k) < es.len(),
        es[seq_last_index(es, k)].0@ == k,
        forall|j: int| seq_last_index(es, k) < j < es.len() ==> #[trigger] es[j].0@ != k,
    decreases es.len(),
{
    if es.last().0@ != k {
        let i = choose|i: int| 0 <= i < es.len() && #[trigger] es[i].0@ == k;
        assert(es.drop_last()[i].0@ == k);
        lemma_last_index(es.drop_last(), k);
        let li = seq_last_index(es, k);
        assert forall|j: int| li < j < es.len() implies #[trigger] es[j].0@ != k by {
            if j < es.len() - 1 {
                assert(es.drop_last()[j].0@ != k);
            }
        }
    }
}

/// A fixed mapping from names to raw card strings. Its view is the
/// map holding, for each name, the card string it was most recently
/// associated with.
pub struct Directory {
    entries: Vec<(String, String)>,
}

impl View for Directory {
    type V = Map<Seq<char>, Seq<char>>;

    closed spec fn view(&self) -> Map<Seq<char>, Seq<char>> {
        Map::new(
            |k: Seq<char>| seq_has_key(self.entries@, k),
            |k: Seq<char>| seq_key_value(self.entries@, k),
        )
    }
}

impl Directory {
    /// An empty directory.
    pub fn new() -> (d: Directory)
        ensures
            d@ == Map::<Seq<char>, Seq<char>>::empty(),
    {
        let d = Directory { entries: Vec::new() };
        proof {
            assert(d@ =~= Map::<Seq<char>, Seq<char>>::empty());
        }
        d
    }

    /// Associate `name` with `card`, shadowing any earlier entry for
    /// the same name.
    pub fn insert(&mut self, name: &str, card: &str)
        ensures
            final(self)@ == old(self)@.insert(name@, card@),
    {
        self.entries.push((name.to_owned(), card.to_owned()));
        proof {
            let es0 = old(self).entries@;
            let es = final(self).entries@;
            assert(es.drop_last() =~= es0);
            assert forall|k: Seq<char>| #[trigger]
                seq_has_key(es, k) implies seq_has_key(es0, k) || k == name@ by {
                let i = choose|i: int| 0 <= i < es.len() && #[trigger] es[i].0@ == k;
                if i < es0.len() {
                    assert(es0[i].0@ == k);
                }
            }
            assert forall|k: Seq<char>| #[trigger]
                seq_has_key(es0, k) implies seq_has_key(es, k) by {
                let i = choose|i: int| 0 <= i < es0.len() && #[trigger] es0[i].0@ == k;
                assert(es[i].0@ == k);
            }
            assert(es[es.len() - 1].0@ == name@);
            assert(seq_key_value(es, name@) == card@);
            assert forall|k: Seq<char>|
                seq_has_key(es0, k) && k != name@ implies #[trigger] seq_key_value(es, k)
                == seq_key_value(es0, k) by {
                lemma_last_index(es0, k);
                assert(seq_last_index(es, k) == seq_last_index(es0, k));
                assert(es[seq_last_index(es0, k)] == es0[seq_last_index(es0, k)]);
            }
            assert(final(self)@ =~= old(self)@.insert(name@, card@));
        }
    }

    /// Resolve a name to its raw card string, if the directory holds
    /// one.
    pub fn get(&self, name: &str) -> (r: Option<&String>)
        ensures
            match r {
                Some(v) => self@.contains_key(name@) && v@ == self@[name@],
                None => !self@.contains_key(name@),
            },
    {
        let mut i: usize = self.entries.len();
        while i > 0
            invariant
                0 <= i <= self.entries@.len(),
                forall|j: int| i <= j < self.entries@.len() ==> #[trigger] self.entries@[j].0@
                    != name@,
            decreases i,
        {
            i = i - 1;
            if str_eq(self.entries[i].0.as_str(), name) {
                proof {
                    let es = self.entries@;
                    assert(seq_has_key(es, name@));
                    lemma_last_index(es, name@);
                    let li = seq_last_index(es, name@);
                    if li < i {
                        assert(es[i as int].0@ != name@);
                    } else if li > i {
                        assert(es[li].0@ != name@);
                    }
                    assert(li == i as int);
                }
                return Some(&self.entries[i].1);
            }
        }
        None
    }
}

/// Whether the views of two strings are equal, decided character by
/// character.
fn str_eq(a: &str, b: &str) -> (r: bool)
    ensures
        r == (a@ == b@),
{
    let n = a.unicode_len();
    if n != b.unicode_len() {
        proof {
            assert(a@ != b@) by {
                if a@ == b@ {
                    assert(a@.len() == b@.len());
                }
            }
        }
        return false;
    }
    let mut i: usize = 0;
    while i < n
        invariant
            0 <= i <= n,
            n == a@.len(),
            n == b@.len(),
            forall|j: int| 0 <= j < i ==> #[trigger] a@[j] == b@[j],
        decreases n - i,
    {
        if a.get_char(i) != b.get_char(i) {
            return false;
        }
        i = i + 1;
    }
    proof {
        assert(a@ =~= b@);
    }
    true
}

/// Everything `get_credit_card_info` promises of its result.
pub open spec fn get_card_post(
    dir: Map<Seq<char>, Seq<char>>,
    name: Seq<char>,
    r: Result<Card, CreditCardError>,
) -> bool {
    if !dir.contains_key(name) {
        r matches Err(CreditCardError::InvalidInput(m)) && m@ == not_found_msg(name)
    } else {
        let s = dir[name];
        if card_well_formed(s) {
            r matches Ok(c) && c == card_of(s)
        } else if !all_tokens_parse(split_tokens(s)) {
            r matches Err(CreditCardError::Other(e, ctx)) && numbers_failure(s, e) && ctx@
                == context_msg(name)
        } else {
            r matches Err(CreditCardError::InvalidInput(m)) && m@ == count_error_msg(
                values_of(split_tokens(s)),
            )
        }
    }
}

/// Resolve `name` in the directory and parse the card string found
/// there.
///
/// An unknown name and a wrong token count are invalid input, carrying
/// a ready-to-display message; a non-numeric token is an internal
/// failure, carrying the parse error and a context line for the
/// diagnostic log.
pub fn get_credit_card_info(credit_cards: &Directory, name: &str) -> (r: Result<
    Card,
    CreditCardError,
>)
    ensures
        get_card_post(credit_cards@, name@, r),
        r is Ok <==> credit_cards@.contains_key(name@) && card_well_formed(
            credit_cards@[name@],
        ),
{
    let card_string = match credit_cards.get(name) {
        Some(s) => s,
        None => {
            return Err(CreditCardError::InvalidInput(not_found_message(name)));
        },
    };
    match parse_card(card_string.as_str()) {
        Ok(card) => Ok(card),
        Err(e) => match e.kind {
            ParseErrorKind::MalformedInput => match e.msg {
                Some(m) => Err(CreditCardError::InvalidInput(m)),
                None => vstd::pervasive::unreached(),
            },
            ParseErrorKind::NumericConversion => Err(
                CreditCardError::Other(e, context_message(name)),
            ),
        },
    }
}

/// Law: for a name present in the directory whose card string is
/// well-formed — four tokens, all numeric — the operation succeeds and
/// the record's fields are the four token values in order: number,
/// month, year, CVV.
pub proof fn lemma_found_card_parses(
    dir: Map<Seq<char>, Seq<char>>,
    name: Seq<char>,
    r: Result<Card, CreditCardError>,
)
    requires
        get_card_post(dir, name, r),
        dir.contains_key(name),
        card_well_formed(dir[name]),
    ensures
        r matches Ok(c) && {
            let vals = values_of(split_tokens(dir[name]));
            &&& c.number == vals[0]
            &&& c.exp.month == vals[1]
            &&& c.exp.year == vals[2]
            &&& c.cvv == vals[3]
        },
{
    let toks = split_tokens(dir[name]);
    assert(token_parses(toks[0]));
    assert(token_parses(toks[1]));
    assert(token_parses(toks[2]));
    assert(token_parses(toks[3]));
}

/// Law: for a name absent from the directory, the result is invalid
/// input with exactly the not-found message for that name.
pub proof fn lemma_unknown_name_message(
    dir: Map<Seq<char>, Seq<char>>,
    name: Seq<char>,
    r: Result<Card, CreditCardError>,
)
    requires
        get_card_post(dir, name, r),
        !dir.contains_key(name),
    ensures
        r matches Err(e) && e matches CreditCardError::InvalidInput(m) && m@ == not_found_msg(
            name,
        ),
{
}

/// Law: when the card string found for a name contains a non-numeric
/// token, the failure is classified as an internal one, and the
/// message of its wrapped cause contains the first offending token
/// literally (starting right after the opening quote).
pub proof fn lemma_bad_token_is_other(
    dir: Map<Seq<char>, Seq<char>>,
    name: Seq<char>,
    r: Result<Card, CreditCardError>,
)
    requires
        get_card_post(dir, name, r),
        dir.contains_key(name),
        !all_tokens_parse(split_tokens(dir[name])),
    ensures
        r matches Err(e) && e matches CreditCardError::Other(pe, ctx) && {
            let toks = split_tokens(dir[name]);
            &&& pe.kind == ParseErrorKind::NumericConversion
            &&& (exists|k: int|
                first_failing(toks, k) && (pe.source matches Some(cause) && (*cause).msg
                    matches Some(m) && m@.subrange(1, 1 + toks[k].len() as int) == toks[k]))
            &&& ctx@ == context_msg(name)
        },
{
    let toks = split_tokens(dir[name]);
    let s = dir[name];
    let pe = r->Err_0->Other_0;
    let cause = *pe.source->Some_0;
    let k = choose|k: int| first_failing(toks, k) && cause_names_token(cause, toks[k]);
    let m = cause.msg->Some_0;
    reveal_strlit("\"");
    assert(m@.subrange(1, 1 + toks[k].len() as int) =~= toks[k]);
}

/// Law: when all tokens of the card string found for a name are
/// numeric but their count is not four, the result is invalid input,
/// and its message reports the expected count, the actual count, and
/// the values parsed so far.
pub proof fn lemma_wrong_count_is_invalid(
    dir: Map<Seq<char>, Seq<char>>,
    name: Seq<char>,
    r: Result<Card, CreditCardError>,
)
    requires
        get_card_post(dir, name, r),
        dir.contains_key(name),
        all_tokens_parse(split_tokens(dir[name])),
        split_tokens(dir[name]).len() != 4,
    ensures
        r matches Err(e) && e matches CreditCardError::InvalidInput(m) && m@ == count_error_msg(
            values_of(split_tokens(dir[name])),
        ),
{
}

} // verus!
