//! Text: decimal numbers, comparison of strings, and bytes read as UTF-8.

use vstd::prelude::*;
use vstd::utf8::{decode_utf8, encode_utf8, valid_utf8};

verus! {

/// The character of a decimal digit.
pub open spec fn digit_char(d: nat) -> char {
    if d == 0 {
        '0'
    } else if d == 1 {
        '1'
    } else if d == 2 {
        '2'
    } else if d == 3 {
        '3'
    } else if d == 4 {
        '4'
    } else if d == 5 {
        '5'
    } else if d == 6 {
        '6'
    } else if d == 7 {
        '7'
    } else if d == 8 {
        '8'
    } else {
        '9'
    }
}

/// A natural number in decimal, without leading zeros.
pub open spec fn decimal_text(n: nat) -> Seq<char>
    decreases n,
{
    if n < 10 {
        seq![digit_char(n)]
    } else {
        decimal_text(n / 10).push(digit_char(n % 10))
    }
}

/// An integer in decimal, with a minus sign where it is negative.
pub open spec fn signed_decimal_text(n: int) -> Seq<char> {
    if n < 0 {
        seq!['-'] + decimal_text((-n) as nat)
    } else {
        decimal_text(n as nat)
    }
}

fn digit_str(d: u8) -> (s: &'static str)
    requires
        d < 10,
    ensures
        s@ == seq![digit_char(d as nat)],
{
    proof {
        reveal_strlit("0");
        reveal_strlit("1");
        reveal_strlit("2");
        reveal_strlit("3");
        reveal_strlit("4");
        reveal_strlit("5");
        reveal_strlit("6");
        reveal_strlit("7");
        reveal_strlit("8");
        reveal_strlit("9");
    }
    let s = match d {
        0 => "0",
        1 => "1",
        2 => "2",
        3 => "3",
        4 => "4",
        5 => "5",
        6 => "6",
        7 => "7",
        8 => "8",
        _ => "9",
    };
    assert(s@ =~= seq![digit_char(d as nat)]);
    s
}

/// Writes `n` in decimal.
pub fn decimal(n: u64) -> (s: String)
    ensures
        s@ == decimal_text(n as nat),
    decreases n,
{
    if n < 10 {
        String::from_str(digit_str(n as u8))
    } else {
        let mut s = decimal(n / 10);
        s.append(digit_str((n % 10) as u8));
        assert(s@ =~= decimal_text(n as nat));
        s
    }
}

/// Writes `n` in decimal, with a minus sign where it is negative.
pub fn signed_decimal(n: i64) -> (s: String)
    ensures
        s@ == signed_decimal_text(n as int),
{
    if n < 0 {
        let magnitude: u64 = ((-(n + 1)) as u64) + 1;
        let mut s = String::from_str("-");
        proof {
            reveal_strlit("-");
        }
        let digits = decimal(magnitude);
        s.append(digits.as_str());
        assert(s@ =~= signed_decimal_text(n as int));
        s
    } else {
        decimal(n as u64)
    }
}

/// Whether two strings hold the same text.
pub fn str_eq(a: &str, b: &str) -> (r: bool)
    ensures
        r == (a@ == b@),
{
    let x = String::from_str(a);
    let y = String::from_str(b);
    x == y
}

/// The text that `String::from_utf8_lossy` makes of bytes that are not
/// valid UTF-8.
pub uninterp spec fn utf8_replaced_text(bytes: Seq<u8>) -> Seq<char>;

/// Bytes read as text: decoded where they are valid UTF-8, and with each
/// invalid sequence replaced otherwise.
pub open spec fn lossy_text(bytes: Seq<u8>) -> Seq<char> {
    if valid_utf8(bytes) {
        decode_utf8(bytes)
    } else {
        utf8_replaced_text(bytes)
    }
}

/// `String::from_utf8_lossy` of std. Valid UTF-8 is decoded as it stands;
/// for other input the text is the one std documents (invalid sequences
/// replaced by U+FFFD), which this library only names.
#[verifier::external_body]
pub(crate) fn string_from_utf8_lossy(bytes: &Vec<u8>) -> (s: String)
    ensures
        valid_utf8(bytes@) ==> s@ == decode_utf8(bytes@),
        !valid_utf8(bytes@) ==> s@ == utf8_replaced_text(bytes@),
{
    String::from_utf8_lossy(bytes).into_owned()
}

/// Text that was written as UTF-8 is read back as it was.
pub proof fn lemma_lossy_text_roundtrip(chars: Seq<char>)
    ensures
        lossy_text(encode_utf8(chars)) == chars,
{
    vstd::utf8::encode_utf8_valid_utf8(chars);
    vstd::utf8::encode_utf8_decode_utf8(chars);
}

/// The text that `str::to_uppercase` of std makes of a text.
pub uninterp spec fn uppercase_text(s: Seq<char>) -> Seq<char>;

/// The text that `str::to_lowercase` of std makes of a text.
pub uninterp spec fn lowercase_text(s: Seq<char>) -> Seq<char>;

/// Whether a text holds only ASCII characters of which none is a
/// lowercase letter.
pub open spec fn plain_upper(s: Seq<char>) -> bool {
    forall|i: int| 0 <= i < s.len() ==> (#[trigger] s[i]) as u32 <= 0x7F && !('a' <= s[i] <= 'z')
}

/// A text in upper case: itself where it holds only ASCII characters
/// without lowercase letters, and what std makes of it otherwise.
pub open spec fn upper_text(s: Seq<char>) -> Seq<char> {
    if plain_upper(s) {
        s
    } else {
        uppercase_text(s)
    }
}

/// `str::to_uppercase` of std: the text with each character replaced by
/// its uppercase equivalent. The library only names the result, but for
/// what std documents of characters without an uppercase mapping: they
/// stay as they are, so a text of ASCII characters without lowercase
/// letters stays as it is.
#[verifier::external_body]
pub(crate) fn to_uppercase(s: &str) -> (r: String)
    ensures
        r@ == uppercase_text(s@),
        r@ == upper_text(s@),
{
    s.to_uppercase()
}

/// `str::to_lowercase` of std: the text with each character replaced by
/// its lowercase equivalent. The library only names the result.
#[verifier::external_body]
pub(crate) fn to_lowercase(s: &str) -> (r: String)
    ensures
        r@ == lowercase_text(s@),
{
    s.to_lowercase()
}

/// The texts that a list of strings holds.
pub open spec fn texts(list: Seq<String>) -> Seq<Seq<char>> {
    Seq::new(list.len(), |i: int| list[i]@)
}

/// Whether a list of strings holds a text.
pub fn contains_text(list: &Vec<String>, s: &str) -> (r: bool)
    ensures
        r == texts(list@).contains(s@),
{
    let mut i: usize = 0;
    while i < list.len()
        invariant
            i <= list@.len(),
            forall|j: int| 0 <= j < i ==> (#[trigger] texts(list@)[j]) != s@,
        decreases list@.len() - i,
    {
        if str_eq(list[i].as_str(), s) {
            assert(texts(list@)[i as int] == s@);
            return true;
        }
        i += 1;
    }
    false
}

} // verus!
