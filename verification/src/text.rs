//! Character-level text helpers: ASCII whitespace, case-insensitive matching
//! against lowercase keywords, digits, and a whitespace tokenizer.

use vstd::prelude::*;

verus! {

/// ASCII whitespace, the separators the date expressions use.
pub open spec fn is_ws_char(c: char) -> bool {
    c == ' ' || c == '\t' || c == '\n' || c == '\r'
}

/// `c` reads as the lowercase letter `l`, either directly or as its
/// uppercase form.
pub open spec fn ci_matches_char(c: char, l: char) -> bool {
    c == l || (('A' as u32) <= c as u32 <= ('Z' as u32) && c as u32 + 32 == l as u32)
}

/// The token `t` equals the lowercase keyword `k` up to ASCII case.
pub open spec fn ci_matches(t: Seq<char>, k: Seq<char>) -> bool {
    t.len() == k.len() && forall|i: int| 0 <= i < t.len() ==> ci_matches_char(#[trigger] t[i], k[i])
}

/// Value of a decimal digit character.
pub open spec fn spec_digit(c: char) -> Option<u32> {
    if ('0' as u32) <= c as u32 <= ('9' as u32) {
        Some((c as u32 - ('0' as u32)) as u32)
    } else {
        None
    }
}

/// Value of a day-of-month token: one or two decimal digits.
pub open spec fn spec_day_token(t: Seq<char>) -> Option<u32> {
    if t.len() == 1 {
        spec_digit(t[0])
    } else if t.len() == 2 {
        match (spec_digit(t[0]), spec_digit(t[1])) {
            (Some(hi), Some(lo)) => Some((hi * 10 + lo) as u32),
            _ => None,
        }
    } else {
        None
    }
}

/// First position at or after `i` that ends a word: the sequence's end or a
/// whitespace character.
pub open spec fn spec_word_end(s: Seq<char>, i: int) -> int
    decreases s.len() - i,
{
    if i < 0 || i >= s.len() || is_ws_char(s[i]) {
        i
    } else {
        spec_word_end(s, i + 1)
    }
}

pub proof fn lemma_word_end_bounds(s: Seq<char>, i: int)
    requires
        0 <= i <= s.len(),
    ensures
        i <= spec_word_end(s, i) <= s.len(),
    decreases s.len() - i,
{
    if i < s.len() && !is_ws_char(s[i]) {
        lemma_word_end_bounds(s, i + 1);
    }
}

/// A position past a run of non-whitespace characters that hits whitespace or
/// the end is exactly the word end.
pub proof fn lemma_word_end_determined(s: Seq<char>, i: int, j: int)
    requires
        0 <= i <= j <= s.len(),
        forall|k: int| i <= k < j ==> !is_ws_char(#[trigger] s[k]),
        j == s.len() || is_ws_char(s[j]),
    ensures
        spec_word_end(s, i) == j,
    decreases j - i,
{
    if i < j {
        lemma_word_end_determined(s, i + 1, j);
    }
}

/// The whitespace-separated tokens of `s`, from position `i` on.
pub open spec fn spec_split_ws_from(s: Seq<char>, i: int) -> Seq<Seq<char>>
    decreases s.len() - i, s.len() - i + 1,
        via spec_split_ws_from_decreases
{
    if i < 0 || i >= s.len() {
        Seq::empty()
    } else if is_ws_char(s[i]) {
        spec_split_ws_from(s, i + 1)
    } else {
        let j = spec_word_end(s, i);
        seq![s.subrange(i, j)] + spec_split_ws_from(s, j)
    }
}

#[via_fn]
proof fn spec_split_ws_from_decreases(s: Seq<char>, i: int) {
    if 0 <= i < s.len() && !is_ws_char(s[i]) {
        lemma_word_end_bounds(s, i + 1);
        assert(spec_word_end(s, i) == spec_word_end(s, i + 1));
    }
}

/// The whitespace-separated tokens of `s`.
pub open spec fn spec_split_ws(s: Seq<char>) -> Seq<Seq<char>> {
    spec_split_ws_from(s, 0)
}

/// Whether `c` is ASCII whitespace.
pub fn is_ws(c: char) -> (b: bool)
    ensures
        b == is_ws_char(c),
{
    c == ' ' || c == '\t' || c == '\n' || c == '\r'
}

/// Whether token `t` equals the lowercase keyword `kw` up to ASCII case.
pub fn token_ci_eq(t: &str, kw: &str) -> (r: bool)
    ensures
        r == ci_matches(t@, kw@),
{
    let n = t.unicode_len();
    if n != kw.unicode_len() {
        return false;
    }
    let mut i: usize = 0;
    while i < n
        invariant
            0 <= i <= n,
            n == t@.len(),
            n == kw@.len(),
            forall|j: int| 0 <= j < i ==> ci_matches_char(#[trigger] t@[j], kw@[j]),
        decreases n - i,
    {
        let c = t.get_char(i);
        let l = kw.get_char(i);
        let ok = if c == l {
            true
        } else {
            let cu = c as u32;
            cu >= ('A' as u32) && cu <= ('Z' as u32) && cu + 32 == l as u32
        };
        if !ok {
            return false;
        }
        i = i + 1;
    }
    true
}

/// Splits `s` into its whitespace-separated tokens, from position `i` on.
fn tokens_from(s: &str, i: usize) -> (r: Vec<String>)
    requires
        i <= s@.len(),
    ensures
        r.deep_view() == spec_split_ws_from(s@, i as int),
    decreases s@.len() - i,
{
    proof {
        lemma_word_end_bounds(s@, i as int);
    }
    if i == s.unicode_len() {
        let r: Vec<String> = Vec::new();
        assert(r.deep_view() =~~= spec_split_ws_from(s@, i as int));
        return r;
    }
    let c = s.get_char(i);
    if is_ws(c) {
        return tokens_from(s, i + 1);
    }
    // scan to the end of the word starting at i
    let mut j = i + 1;
    loop
        invariant
            i < j <= s@.len(),
            forall|k: int| i <= k < j ==> !is_ws_char(#[trigger] s@[k]),
        ensures
            i < j <= s@.len(),
            forall|k: int| i <= k < j ==> !is_ws_char(#[trigger] s@[k]),
            j == s@.len() || is_ws_char(s@[j as int]),
        decreases s@.len() - j,
    {
        if j == s.unicode_len() {
            break;
        }
        if is_ws(s.get_char(j)) {
            break;
        }
        j = j + 1;
    }
    proof {
        lemma_word_end_determined(s@, i as int, j as int);
    }
    let word: String = s.substring_char(i, j).to_owned();
    let mut rest = tokens_from(s, j);
    rest.insert(0, word);
    proof {
        assert(rest.deep_view() =~~= spec_split_ws_from(s@, i as int));
    }
    rest
}

/// Splits `s` into its whitespace-separated tokens.
pub fn split_whitespace_tokens(s: &str) -> (r: Vec<String>)
    ensures
        r.deep_view() == spec_split_ws(s@),
{
    tokens_from(s, 0)
}

} // verus!
