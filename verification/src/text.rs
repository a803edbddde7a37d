//! Text operations that the matching rules are stated over.

use vstd::prelude::*;
use vstd::string::*;

verus! {

/// The lower-case form of a text, as `str::to_lowercase` of the standard
/// library computes it (Unicode case mapping).
pub uninterp spec fn lowercase(s: Seq<char>) -> Seq<char>;

/// A text without its leading and trailing white space, as `str::trim` of the
/// standard library computes it.
pub uninterp spec fn trimmed(s: Seq<char>) -> Seq<char>;

/// `c` is one of the digits `0` to `9`.
pub open spec fn is_digit(c: char) -> bool {
    '0' <= c && c <= '9'
}

/// The number that a series of decimal digits denotes.
pub open spec fn decimal_value(digits: Seq<char>) -> nat
    decreases digits.len(),
{
    if digits.len() == 0 {
        0
    } else {
        decimal_value(digits.drop_last()) * 10 + (digits.last() as u32 - '0' as u32) as nat
    }
}

/// Every character is a decimal digit.
pub open spec fn all_digits(s: Seq<char>) -> bool {
    forall|i: int| 0 <= i < s.len() ==> is_digit(#[trigger] s[i])
}

/// The text begins with `+` or `-`.
pub open spec fn has_sign(s: Seq<char>) -> bool {
    s.len() > 0 && (s[0] == '-' || s[0] == '+')
}

/// The text without its sign, if it has one.
pub open spec fn unsigned_part(s: Seq<char>) -> Seq<char> {
    if has_sign(s) {
        s.subrange(1, s.len() as int)
    } else {
        s
    }
}

/// The integer that a text made of an optional sign and digits denotes.
pub open spec fn signed_value(s: Seq<char>) -> int {
    if has_sign(s) && s[0] == '-' {
        -(decimal_value(unsigned_part(s)) as int)
    } else {
        decimal_value(unsigned_part(s)) as int
    }
}

/// The 32-bit signed integer that a text denotes: an optional `+` or `-`,
/// then one or more decimal digits and nothing else, with a value that fits.
/// `None` for every other text.
pub open spec fn parsed_i32(s: Seq<char>) -> Option<i32> {
    if unsigned_part(s).len() > 0 && all_digits(unsigned_part(s)) && i32::MIN <= signed_value(s)
        <= i32::MAX {
        Some(signed_value(s) as i32)
    } else {
        None
    }
}

/// `needle` stands in `hay` at position `i`.
pub open spec fn occurs_at(needle: Seq<char>, hay: Seq<char>, i: int) -> bool {
    &&& 0 <= i
    &&& i + needle.len() <= hay.len()
    &&& hay.subrange(i, i + needle.len()) == needle
}

/// `needle` is a contiguous part of `hay`.
pub open spec fn occurs_in(needle: Seq<char>, hay: Seq<char>) -> bool {
    exists|i: int| occurs_at(needle, hay, i)
}

/// The words joined by single spaces.
pub open spec fn joined(words: Seq<String>) -> Seq<char>
    decreases words.len(),
{
    if words.len() == 0 {
        Seq::empty()
    } else if words.len() == 1 {
        words[0]@
    } else {
        joined(words.drop_last()) + seq![' '] + words.last()@
    }
}

/// Every text is a part of itself.
pub proof fn lemma_occurs_in_self(s: Seq<char>)
    ensures
        occurs_in(s, s),
{
    assert(s.subrange(0, s.len() as int) =~= s);
    assert(occurs_at(s, s, 0));
}

/// Calls `str::to_lowercase`; the result is what `lowercase` names.
#[verifier::external_body]
pub(crate) fn to_lower(s: &str) -> (r: String)
    ensures
        r@ == lowercase(s@),
{
    s.to_lowercase()
}

/// Calls `str::trim`; the result is what `trimmed` names.
#[verifier::external_body]
pub(crate) fn trim_text(s: &str) -> (r: &str)
    ensures
        r@ == trimmed(s@),
{
    s.trim()
}

/// Calls `str::parse::<i32>`, which reads an optional sign and decimal
/// digits and fails on an empty text, a sign alone, any other character and
/// a value out of range; every such error becomes `None`.
#[verifier::external_body]
pub(crate) fn parse_i32(s: &str) -> (r: Option<i32>)
    ensures
        r == parsed_i32(s@),
{
    match s.parse::<i32>() {
        Ok(n) => Some(n),
        Err(_) => None,
    }
}

/// Calls `str::contains` with a string pattern: true exactly when the
/// pattern's characters stand somewhere in `hay`, one after the other.
#[verifier::external_body]
pub(crate) fn has_substring(hay: &str, needle: &str) -> (r: bool)
    ensures
        r == occurs_in(needle@, hay@),
{
    hay.contains(needle)
}

/// Calls `String::push`: the character is appended.
#[verifier::external_body]
pub(crate) fn push_char(s: &mut String, c: char)
    ensures
        final(s)@ == old(s)@.push(c),
{
    s.push(c)
}

/// Calls `String::pop`: the last character, if there is one, is removed.
#[verifier::external_body]
pub(crate) fn pop_char(s: &mut String)
    ensures
        final(s)@ == (if old(s)@.len() > 0 {
            old(s)@.drop_last()
        } else {
            old(s)@
        }),
{
    s.pop();
}

/// Joins the words with single spaces.
pub fn join_words(words: &Vec<String>) -> (r: String)
    ensures
        r@ == joined(words@),
{
    let mut out = String::new();
    let mut i: usize = 0;
    while i < words.len()
        invariant
            0 <= i <= words.len(),
            out@ == joined(words@.take(i as int)),
        decreases words.len() - i,
    {
        proof {
            reveal_strlit(" ");
            assert(words@.take(i + 1).drop_last() =~= words@.take(i as int));
            assert(words@.take(i + 1).last() == words@[i as int]);
            assert(seq![' '] =~= " "@);
        }
        if i > 0 {
            out.append(" ");
        }
        out.append(words[i].as_str());
        proof {
            if i == 0 {
                assert(out@ =~= words@[0]@);
            }
        }
        i = i + 1;
    }
    proof {
        assert(words@.take(words.len() as int) =~= words@);
    }
    out
}

/// Whether a trimmed, lower-case answer reads `y` or `yes`.
pub open spec fn reads_yes(word: Seq<char>) -> bool {
    word == "y"@ || word == "yes"@
}

/// Whether an answer to a yes/no question means yes: after trimming and
/// lower-casing it reads `y` or `yes`.
pub open spec fn affirmative(answer: Seq<char>) -> bool {
    reads_yes(lowercase(trimmed(answer)))
}

/// Tells whether a trimmed, lower-case answer reads `y` or `yes`.
pub fn is_yes_word(word: &String) -> (r: bool)
    ensures
        r == reads_yes(word@),
{
    let y = String::from_str("y");
    let yes = String::from_str("yes");
    *word == y || *word == yes
}

/// Tells whether `answer` means yes. Anything else, the empty answer too,
/// means no.
pub fn is_affirmative(answer: &str) -> (r: bool)
    ensures
        r == affirmative(answer@),
{
    let low = to_lower(trim_text(answer));
    is_yes_word(&low)
}

} // verus!
