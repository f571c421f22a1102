//! Splitting a raw card string on single-space separators.
//!
//! Empty tokens are kept: two adjacent spaces, or a leading or trailing
//! space, yield an empty token, and the empty string yields one empty
//! token. An empty token is a legitimate failure case for the parser,
//! not something to trim away.

use vstd::prelude::*;

verus! {

/// The tokens of `s`, split on every single space character.
pub open spec fn split_tokens(s: Seq<char>) -> Seq<Seq<char>>
    decreases s.len(),
{
    if s.len() == 0 {
        seq![Seq::<char>::empty()]
    } else if s[0] == ' ' {
        seq![Seq::<char>::empty()] + split_tokens(s.skip(1))
    } else {
        let rest = split_tokens(s.skip(1));
        seq![seq![s[0]] + rest[0]] + rest.skip(1)
    }
}

/// Whether `t` contains no space character.
pub open spec fn no_space(t: Seq<char>) -> bool {
    forall|i: int| 0 <= i < t.len() ==> #[trigger] t[i] != ' '
}

/// Splitting always yields at least one token.
pub proof fn lemma_split_nonempty(s: Seq<char>)
    ensures
        split_tokens(s).len() >= 1,
    decreases s.len(),
{
    if s.len() != 0 && s[0] != ' ' {
        lemma_split_nonempty(s.skip(1));
    }
}

/// A space-free string splits into exactly itself.
pub proof fn lemma_split_no_space(t: Seq<char>)
    requires
        no_space(t),
    ensures
        split_tokens(t) == seq![t],
    decreases t.len(),
{
    if t.len() == 0 {
        assert(split_tokens(t) =~~= seq![t]);
    } else {
        lemma_split_no_space(t.skip(1));
        assert(seq![t[0]] + t.skip(1) =~= t);
        assert(split_tokens(t) =~~= seq![t]);
    }
}

/// A space-free prefix followed by a space splits off as one whole
/// token, and the remainder splits independently.
pub proof fn lemma_split_step(t: Seq<char>, r: Seq<char>)
    requires
        no_space(t),
    ensures
        split_tokens(t + seq![' '] + r) == seq![t] + split_tokens(r),
    decreases t.len(),
{
    let s = t + seq![' '] + r;
    if t.len() == 0 {
        assert(s[0] == ' ');
        assert(s.skip(1) =~= r);
        assert(split_tokens(s) =~~= seq![t] + split_tokens(r));
    } else {
        assert(s[0] == t[0]);
        assert(s[0] != ' ');
        lemma_split_step(t.skip(1), r);
        assert(s.skip(1) =~= t.skip(1) + seq![' '] + r);
        let rest = split_tokens(s.skip(1));
        assert(rest == seq![t.skip(1)] + split_tokens(r));
        lemma_split_nonempty(r);
        assert(rest[0] == t.skip(1));
        assert(seq![s[0]] + rest[0] =~= t);
        assert(rest.skip(1) =~= split_tokens(r));
        assert(split_tokens(s) =~~= seq![t] + split_tokens(r));
    }
}

/// The views of the strings in `v`.
pub open spec fn views_of(v: Seq<String>) -> Seq<Seq<char>> {
    v.map_values(|t: String| t@)
}

/// Split a raw card string on single-space separators, keeping empty
/// tokens.
pub fn split_spaces(card: &str) -> (r: Vec<String>)
    ensures
        views_of(r@) == split_tokens(card@),
{
    let n = card.unicode_len();
    let mut r: Vec<String> = Vec::new();
    let mut start: usize = 0;
    let mut i: usize = 0;
    proof {
        assert(card@.subrange(0, n as int) =~= card@);
        assert(views_of(r@) + split_tokens(card@) =~= split_tokens(card@));
    }
    while i < n
        invariant
            0 <= start <= i <= n,
            n == card@.len(),
            no_space(card@.subrange(start as int, i as int)),
            split_tokens(card@) =~= views_of(r@) + split_tokens(
                card@.subrange(start as int, n as int),
            ),
        decreases n - i,
    {
        let c = card.get_char(i);
        if c == ' ' {
            let token = card.substring_char(start, i).to_owned();
            proof {
                let tail = card@.subrange(start as int, n as int);
                lemma_split_step(
                    card@.subrange(start as int, i as int),
                    card@.subrange(i + 1, n as int),
                );
                assert(tail =~= card@.subrange(start as int, i as int) + seq![' ']
                    + card@.subrange(i + 1, n as int));
                assert(views_of(r@.push(token)) =~= views_of(r@) + seq![token@]);
            }
            r.push(token);
            start = i + 1;
        }
        i = i + 1;
        proof {
            assert(no_space(card@.subrange(start as int, i as int)));
        }
    }
    let token = card.substring_char(start, n).to_owned();
    proof {
        lemma_split_no_space(card@.subrange(start as int, n as int));
        assert(views_of(r@.push(token)) =~= views_of(r@) + seq![token@]);
    }
    r.push(token);
    r
}

} // verus!
