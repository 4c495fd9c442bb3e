//! Strings as sequences of characters: ordering, substring search, decoding.

use vstd::prelude::*;
use vstd::seq_lib::to_multiset_contains;
use vstd::utf8::*;

verus! {

/// The character sequences held by a sequence of strings, in the same order.
pub open spec fn views(v: Seq<String>) -> Seq<Seq<char>> {
    Seq::new(v.len(), |i: int| v[i]@)
}

/// Lexicographic order on character sequences, each character ranked by its
/// code point; a proper prefix comes before what extends it.
pub open spec fn lex_le(a: Seq<char>, b: Seq<char>) -> bool
    decreases a.len(),
{
    if a.len() == 0 {
        true
    } else if b.len() == 0 {
        false
    } else if a[0] != b[0] {
        (a[0] as u32) < (b[0] as u32)
    } else {
        lex_le(a.drop_first(), b.drop_first())
    }
}

/// `needle` occurs in `hay` as a contiguous run of characters.
pub open spec fn has_substring(hay: Seq<char>, needle: Seq<char>) -> bool {
    exists|i: int|
        0 <= i && i + needle.len() <= hay.len() && #[trigger] hay.subrange(
            i,
            i + needle.len(),
        ) == needle
}

/// Pairwise statement of ascending lexicographic order.
pub open spec fn ascending(s: Seq<Seq<char>>) -> bool {
    forall|i: int, j: int| 0 <= i < j < s.len() ==> lex_le(#[trigger] s[i], #[trigger] s[j])
}

/// Two sequences that are ordered each before the other are the same sequence.
pub proof fn lemma_lex_le_antisymmetric(a: Seq<char>, b: Seq<char>)
    requires
        lex_le(a, b),
        lex_le(b, a),
    ensures
        a == b,
    decreases a.len(),
{
    if a.len() == 0 {
        assert(b.len() == 0);
        assert(a =~= b);
    } else {
        assert(b.len() != 0);
        if a[0] != b[0] {
            assert((a[0] as u32) < (b[0] as u32));
            assert((b[0] as u32) < (a[0] as u32));
        } else {
            lemma_lex_le_antisymmetric(a.drop_first(), b.drop_first());
            assert(a =~= seq![a[0]] + a.drop_first());
            assert(b =~= seq![b[0]] + b.drop_first());
        }
    }
}

/// Of two sequences one is ordered before the other.
pub proof fn lemma_lex_le_total(a: Seq<char>, b: Seq<char>)
    ensures
        lex_le(a, b) || lex_le(b, a),
    decreases a.len(),
{
    if a.len() != 0 && b.len() != 0 {
        if a[0] == b[0] {
            lemma_lex_le_total(a.drop_first(), b.drop_first());
        } else {
            char_u32_cast(a[0], a[0] as u32);
            char_u32_cast(b[0], b[0] as u32);
        }
    }
}

/// The order is transitive.
pub proof fn lemma_lex_le_transitive(a: Seq<char>, b: Seq<char>, c: Seq<char>)
    requires
        lex_le(a, b),
        lex_le(b, c),
    ensures
        lex_le(a, c),
    decreases a.len(),
{
    if a.len() != 0 && a[0] == b[0] && b[0] == c[0] {
        lemma_lex_le_transitive(a.drop_first(), b.drop_first(), c.drop_first());
    }
}

/// Every sequence is ordered before itself.
pub proof fn lemma_lex_le_reflexive(a: Seq<char>)
    ensures
        lex_le(a, a),
    decreases a.len(),
{
    if a.len() != 0 {
        lemma_lex_le_reflexive(a.drop_first());
    }
}

/// Sequences with the same elements, each as often in one as in the other,
/// have the same members.
pub proof fn lemma_same_members(a: Seq<Seq<char>>, b: Seq<Seq<char>>)
    requires
        a.to_multiset() == b.to_multiset(),
    ensures
        forall|x: Seq<char>| a.contains(x) <==> b.contains(x),
{
    assert forall|x: Seq<char>| a.contains(x) <==> b.contains(x) by {
        to_multiset_contains(a, x);
        to_multiset_contains(b, x);
    }
}

/// What a concatenation holds is what either part holds.
pub proof fn lemma_concat_members(a: Seq<Seq<char>>, b: Seq<Seq<char>>, x: Seq<char>)
    ensures
        (a + b).contains(x) <==> a.contains(x) || b.contains(x),
{
    if a.contains(x) {
        let i = choose|i: int| 0 <= i < a.len() && a[i] == x;
        assert((a + b)[i] == x);
    }
    if b.contains(x) {
        let i = choose|i: int| 0 <= i < b.len() && b[i] == x;
        assert((a + b)[a.len() + i] == x);
    }
    if (a + b).contains(x) {
        let i = choose|i: int| 0 <= i < (a + b).len() && (a + b)[i] == x;
        if i < a.len() {
            assert(a[i] == x);
        } else {
            assert(b[i - a.len()] == x);
        }
    }
}

/// Calls `<[String]>::sort` of std. The claim: afterwards the vector holds the
/// same strings, each as often as before, in ascending order; std orders
/// strings lexicographically by their bytes, which for UTF-8 is the order of
/// their code points.
#[verifier::external_body]
pub(crate) fn sort_strings(v: &mut Vec<String>)
    ensures
        final(v)@.len() == old(v)@.len(),
        views(final(v)@).to_multiset() == views(old(v)@).to_multiset(),
        ascending(views(final(v)@)),
{
    v.sort();
}

/// Calls `str::contains` of std with a string pattern. The claim: the result
/// tells whether the pattern occurs as a contiguous run of characters.
#[verifier::external_body]
pub(crate) fn str_contains(hay: &str, needle: &str) -> (found: bool)
    ensures
        found == has_substring(hay@, needle@),
{
    hay.contains(needle)
}

/// `needle` is the end of `hay`.
pub open spec fn is_suffix(hay: Seq<char>, needle: Seq<char>) -> bool {
    needle.len() <= hay.len() && hay.subrange(hay.len() - needle.len(), hay.len() as int)
        == needle
}

/// Calls `str::ends_with` of std with a string pattern. The claim: the result
/// tells whether the pattern is the end of the text.
#[verifier::external_body]
pub(crate) fn str_ends_with(hay: &str, needle: &str) -> (found: bool)
    ensures
        found == is_suffix(hay@, needle@),
{
    hay.ends_with(needle)
}

/// Calls `String::from_utf8` of std. The claim: it succeeds exactly on
/// well-formed UTF-8 and then yields the decoded characters.
#[verifier::external_body]
pub(crate) fn decode_text(bytes: Vec<u8>) -> (decoded: Option<String>)
    ensures
        decoded is Some <==> valid_utf8(bytes@),
        decoded is Some ==> decoded->0@ == decode_utf8(bytes@),
{
    String::from_utf8(bytes).ok()
}

/// The character is a decimal digit.
pub open spec fn is_digit(c: char) -> bool {
    '0' <= c && c <= '9'
}

/// The number that a run of decimal digits writes; 0 for the empty run.
pub open spec fn digits_value(s: Seq<char>) -> nat
    decreases s.len(),
{
    if s.len() == 0 {
        0
    } else {
        (digits_value(s.drop_last()) * 10 + (s.last() as int - '0' as int)) as nat
    }
}

/// The run is not empty and holds decimal digits only.
pub open spec fn is_digits(s: Seq<char>) -> bool {
    s.len() > 0 && forall|i: int| 0 <= i < s.len() ==> is_digit(#[trigger] s[i])
}

/// The integer that a text writes in decimal: an optional sign, `+` or `-`,
/// then one digit or more and nothing else.
pub open spec fn decimal(s: Seq<char>) -> Option<int> {
    if s.len() > 0 && s[0] == '-' {
        if is_digits(s.drop_first()) {
            Some(-(digits_value(s.drop_first()) as int))
        } else {
            None
        }
    } else if s.len() > 0 && s[0] == '+' {
        if is_digits(s.drop_first()) {
            Some(digits_value(s.drop_first()) as int)
        } else {
            None
        }
    } else if is_digits(s) {
        Some(digits_value(s) as int)
    } else {
        None
    }
}

/// What a text gives as a `u16`: its decimal value where it has one, without
/// a minus sign and within range.
pub open spec fn decimal_u16(s: Seq<char>) -> Option<u16> {
    match decimal(s) {
        Some(v) => if (s.len() > 0 && s[0] == '-') || v > u16::MAX {
            None
        } else {
            Some(v as u16)
        },
        None => None,
    }
}

/// What a text gives as an `i64`: its decimal value where it has one within
/// range.
pub open spec fn decimal_i64(s: Seq<char>) -> Option<i64> {
    match decimal(s) {
        Some(v) => if v < i64::MIN || v > i64::MAX {
            None
        } else {
            Some(v as i64)
        },
        None => None,
    }
}

/// Calls `str::parse::<u16>` of std. The claim: it accepts an optional `+`
/// followed by digits only, whose value fits, and returns that value; it
/// refuses every other text, a minus sign included.
#[verifier::external_body]
pub(crate) fn parse_u16(s: &str) -> (out: Option<u16>)
    ensures
        out == decimal_u16(s@),
{
    s.parse::<u16>().ok()
}

/// Calls `str::parse::<i64>` of std. The claim: it accepts an optional sign
/// followed by digits only, whose value fits, and returns that value; it
/// refuses every other text.
#[verifier::external_body]
pub(crate) fn parse_i64(s: &str) -> (out: Option<i64>)
    ensures
        out == decimal_i64(s@),
{
    s.parse::<i64>().ok()
}

} // verus!
