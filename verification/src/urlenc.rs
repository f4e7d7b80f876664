//! Percent-encoding of query-string values.
//!
//! A value is encoded byte by byte over its UTF-8 form: unreserved bytes
//! (letters, digits, `-` `.` `_` `~`) stand as themselves, every other byte
//! becomes `%` followed by two upper-case hex digits. The encoding of a
//! value made only of unreserved bytes is the value itself, which is what
//! lets a generated token be found verbatim inside a redirect URL.

use vstd::prelude::*;
use vstd::string::StringSliceAdditionalSpecFns;

verus! {

/// Bytes that stand for themselves in a query-string value.
pub open spec fn is_unreserved_byte(b: u8) -> bool {
    (65 <= b <= 90)  // 'A'..'Z'
    || (97 <= b <= 122)  // 'a'..'z'
    || (48 <= b <= 57)  // '0'..'9'
    || b == 45  // '-'
    || b == 46  // '.'
    || b == 95  // '_'
    || b == 126  // '~'
}

/// The upper-case hex digit for a value below 16.
pub open spec fn hex_upper(n: u8) -> char
    recommends
        n < 16,
{
    if n < 10 {
        ((n + 48) as u8) as char
    } else {
        ((n + 55) as u8) as char
    }
}

/// What one byte of a value contributes to its encoding.
pub open spec fn pct_byte(b: u8) -> Seq<char> {
    if is_unreserved_byte(b) {
        seq![b as char]
    } else {
        seq!['%', hex_upper(b / 16), hex_upper(b % 16)]
    }
}

/// The percent-encoding of a byte sequence.
pub open spec fn pct_encoded(bytes: Seq<u8>) -> Seq<char>
    decreases bytes.len(),
{
    if bytes.len() == 0 {
        Seq::empty()
    } else {
        pct_byte(bytes[0]) + pct_encoded(bytes.drop_first())
    }
}

/// Percent-encoding distributes over concatenation.
pub proof fn lemma_pct_concat(a: Seq<u8>, b: Seq<u8>)
    ensures
        pct_encoded(a + b) == pct_encoded(a) + pct_encoded(b),
    decreases a.len(),
{
    if a.len() == 0 {
        assert(a + b =~= b);
        assert(pct_encoded(a) + pct_encoded(b) =~= pct_encoded(b));
    } else {
        assert((a + b).drop_first() =~= a.drop_first() + b);
        lemma_pct_concat(a.drop_first(), b);
        assert(pct_encoded(a + b) =~= pct_encoded(a) + pct_encoded(b));
    }
}

/// Extending the input by one byte extends the encoding by that byte's
/// contribution.
pub proof fn lemma_pct_take_snoc(bytes: Seq<u8>, i: int)
    requires
        0 <= i < bytes.len(),
    ensures
        pct_encoded(bytes.take(i + 1)) == pct_encoded(bytes.take(i)) + pct_byte(bytes[i]),
{
    assert(bytes.take(i + 1) =~= bytes.take(i) + seq![bytes[i]]);
    lemma_pct_concat(bytes.take(i), seq![bytes[i]]);
    assert(seq![bytes[i]].drop_first() =~= Seq::<u8>::empty());
    assert(pct_encoded(Seq::<u8>::empty()) =~= Seq::<char>::empty());
    assert(pct_encoded(seq![bytes[i]]) == pct_byte(bytes[i]) + pct_encoded(
        seq![bytes[i]].drop_first(),
    ));
    assert(pct_byte(bytes[i]) + Seq::<char>::empty() =~= pct_byte(bytes[i]));
    assert(pct_encoded(seq![bytes[i]]) =~= pct_byte(bytes[i]));
}

/// Every byte of `bytes` is unreserved.
pub open spec fn all_unreserved(bytes: Seq<u8>) -> bool {
    forall|i: int| 0 <= i < bytes.len() ==> is_unreserved_byte(#[trigger] bytes[i])
}

/// A value made only of unreserved bytes encodes to itself, character for
/// character.
pub proof fn lemma_pct_unreserved_identity(bytes: Seq<u8>)
    requires
        all_unreserved(bytes),
    ensures
        pct_encoded(bytes) == bytes.map_values(|b: u8| b as char),
    decreases bytes.len(),
{
    if bytes.len() == 0 {
        assert(pct_encoded(bytes) =~= bytes.map_values(|b: u8| b as char));
    } else {
        lemma_pct_unreserved_identity(bytes.drop_first());
        assert(bytes.drop_first().map_values(|b: u8| b as char) =~= bytes.map_values(
            |b: u8| b as char,
        ).drop_first());
        assert(pct_encoded(bytes) =~= bytes.map_values(|b: u8| b as char));
    }
}

/// `needle` occurs in `hay` starting at index `i`.
pub open spec fn contains_at(hay: Seq<char>, needle: Seq<char>, i: int) -> bool {
    0 <= i && i + needle.len() <= hay.len() && hay.subrange(i, i + needle.len()) == needle
}

/// `needle` occurs somewhere in `hay`.
pub open spec fn contains_seq(hay: Seq<char>, needle: Seq<char>) -> bool {
    exists|i: int| contains_at(hay, needle, i)
}

/// Relies on `String::push`: appends the character to the end of the
/// string.
#[verifier::external_body]
fn push_char(s: &mut String, c: char)
    ensures
        final(s)@ == old(s)@.push(c),
{
    s.push(c);
}

/// Whether `b` stands for itself in a query-string value.
fn is_unreserved(b: u8) -> (r: bool)
    ensures
        r == is_unreserved_byte(b),
{
    (65 <= b && b <= 90) || (97 <= b && b <= 122) || (48 <= b && b <= 57) || b == 45 || b == 46
        || b == 95 || b == 126
}

/// The upper-case hex digit for a value below 16.
fn hex_upper_digit(n: u8) -> (c: char)
    requires
        n < 16,
    ensures
        c == hex_upper(n),
{
    if n < 10 {
        (n + 48) as char
    } else {
        (n + 55) as char
    }
}

/// The percent-encoding of `s`, over its UTF-8 bytes.
pub fn pct_encode(s: &str) -> (r: String)
    ensures
        r@ == pct_encoded(s.spec_bytes()),
{
    let bytes = s.as_bytes();
    let n = bytes.len();
    let mut r = String::new();
    let mut i: usize = 0;
    while i < n
        invariant
            n == bytes@.len(),
            bytes@ == s.spec_bytes(),
            i <= n,
            r@ == pct_encoded(bytes@.take(i as int)),
        decreases n - i,
    {
        let b = bytes[i];
        if is_unreserved(b) {
            push_char(&mut r, b as char);
            proof {
                assert(r@ =~= pct_encoded(bytes@.take(i as int)) + pct_byte(b));
            }
        } else {
            push_char(&mut r, '%');
            push_char(&mut r, hex_upper_digit(b / 16));
            push_char(&mut r, hex_upper_digit(b % 16));
            proof {
                assert(r@ =~= pct_encoded(bytes@.take(i as int)) + pct_byte(b));
            }
        }
        proof {
            lemma_pct_take_snoc(bytes@, i as int);
        }
        i = i + 1;
    }
    proof {
        assert(bytes@.take(n as int) =~= bytes@);
    }
    r
}

} // verus!
