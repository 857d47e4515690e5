//! The command line of the interactive client: a line of text is cut into
//! words and read as a request.
//!
//! ```text
//! PING
//! GET <key>
//! SET <key> <value> [ttl seconds]
//! DEL <key>
//! EXISTS <key>
//! ```
//!
//! The name of the command counts without regard to case. Words are
//! separated by white space; what follows the words that a command needs
//! is ignored.

use vstd::prelude::*;
use vstd::utf8::encode_utf8;
use crate::counter::{wrapped_sum, wrapping_sum};
use crate::protocol::command::{Command, CommandModel};
use crate::protocol::payload::byte_strings;
use crate::text::{lossy_text, str_eq, string_from_utf8_lossy, to_uppercase, upper_text};

verus! {

/// The number of bytes of the white-space character that starts at `at`,
/// or zero where none does. White space is what Unicode calls so: the
/// ASCII controls from tab to carriage return, the space, and the spaces
/// and separators beyond ASCII, in their UTF-8 form.
pub open spec fn space_len(s: Seq<u8>, at: int) -> int {
    if at < 0 || at >= s.len() {
        0
    } else if (0x09 <= s[at] <= 0x0D) || s[at] == 0x20 {
        1
    } else if at + 1 < s.len() && s[at] == 0xC2 && (s[at + 1] == 0x85 || s[at + 1] == 0xA0) {
        2
    } else if at + 2 < s.len() && ((s[at] == 0xE1 && s[at + 1] == 0x9A && s[at + 2] == 0x80) || (
    s[at] == 0xE2 && s[at + 1] == 0x80 && (0x80 <= s[at + 2] <= 0x8A || s[at + 2] == 0xA8 || s[at
        + 2] == 0xA9 || s[at + 2] == 0xAF)) || (s[at] == 0xE2 && s[at + 1] == 0x81 && s[at + 2]
        == 0x9F) || (s[at] == 0xE3 && s[at + 1] == 0x80 && s[at + 2] == 0x80)) {
        3
    } else {
        0
    }
}

/// The word in the making, as a list of none or one.
pub open spec fn finished(current: Seq<u8>) -> Seq<Seq<u8>> {
    if current.len() > 0 {
        seq![current]
    } else {
        Seq::empty()
    }
}

/// The words of `s` from `at` on, where `current` holds the bytes of the
/// word that `at` stands in.
pub open spec fn words_from(s: Seq<u8>, at: int, current: Seq<u8>) -> Seq<Seq<u8>>
    decreases s.len() - at,
{
    if at < 0 || at >= s.len() {
        finished(current)
    } else if space_len(s, at) > 0 {
        finished(current) + words_from(s, at + space_len(s, at), Seq::empty())
    } else {
        words_from(s, at + 1, current.push(s[at]))
    }
}

/// The words of a line.
pub open spec fn words(s: Seq<u8>) -> Seq<Seq<u8>> {
    words_from(s, 0, Seq::empty())
}

fn white_space_at(s: &Vec<u8>, at: usize) -> (n: usize)
    requires
        at < s@.len(),
    ensures
        n == space_len(s@, at as int),
        n <= 3,
        at + n <= s@.len(),
{
    let left = s.len() - at;
    let b = s[at];
    if (0x09 <= b && b <= 0x0D) || b == 0x20 {
        return 1;
    }
    if left > 1 && b == 0xC2 && (s[at + 1] == 0x85 || s[at + 1] == 0xA0) {
        return 2;
    }
    if left > 2 {
        let c = s[at + 1];
        let d = s[at + 2];
        if (b == 0xE1 && c == 0x9A && d == 0x80) || (b == 0xE2 && c == 0x80 && ((0x80 <= d && d
            <= 0x8A) || d == 0xA8 || d == 0xA9 || d == 0xAF)) || (b == 0xE2 && c == 0x81 && d
            == 0x9F) || (b == 0xE3 && c == 0x80 && d == 0x80) {
            return 3;
        }
    }
    0
}

/// Cuts a line into its words.
pub fn split_words(s: &Vec<u8>) -> (r: Vec<Vec<u8>>)
    ensures
        byte_strings(r@) == words(s@),
{
    let mut done: Vec<Vec<u8>> = Vec::new();
    let mut current: Vec<u8> = Vec::new();
    let mut at: usize = 0;
    assert(byte_strings(done@) + words_from(s@, 0, current@) =~= words(s@));
    while at < s.len()
        invariant
            at <= s@.len(),
            byte_strings(done@) + words_from(s@, at as int, current@)
                == words(s@),
        decreases s@.len() - at,
    {
        let n = white_space_at(s, at);
        let ghost before = byte_strings(done@);
        if n > 0 {
            if current.len() > 0 {
                let ghost word = current@;
                done.push(current);
                current = Vec::new();
                assert(byte_strings(done@) =~= before + seq![word]);
                assert(before + (seq![word] + words_from(s@, at + n, Seq::empty())) =~= (before
                    + seq![word]) + words_from(s@, at + n, Seq::empty()));
            } else {
                assert(current@ =~= Seq::<u8>::empty());
                assert(Seq::<Seq<u8>>::empty() + words_from(s@, at + n, Seq::empty())
                    =~= words_from(s@, at + n, Seq::empty()));
            }
            at += n;
        } else {
            current.push(s[at]);
            at += 1;
        }
    }
    let ghost before = byte_strings(done@);
    if current.len() > 0 {
        let ghost word = current@;
        done.push(current);
        assert(byte_strings(done@) =~= before + seq![word]);
    } else {
        assert(before + Seq::<Seq<u8>>::empty() =~= before);
    }
    done
}

/// Why a word is no number of 64 bits.
#[derive(Debug, Clone, Copy, PartialEq, Eq, Structural)]
pub enum NumberError {
    /// The word is empty.
    Empty,
    /// The word holds something else than digits behind an optional plus
    /// sign, or no digit at all.
    InvalidDigit,
    /// The number does not fit 64 bits.
    Overflow,
}

impl NumberError {
    /// The message of this error as text.
    pub open spec fn text(self) -> Seq<char> {
        match self {
            NumberError::Empty => "cannot parse integer from empty string"@,
            NumberError::InvalidDigit => "invalid digit found in string"@,
            NumberError::Overflow => "number too large to fit in target type"@,
        }
    }

    /// The message of this error.
    pub fn message(self) -> (s: &'static str)
        ensures
            s@ == self.text(),
    {
        match self {
            NumberError::Empty => "cannot parse integer from empty string",
            NumberError::InvalidDigit => "invalid digit found in string",
            NumberError::Overflow => "number too large to fit in target type",
        }
    }
}

/// The number that the first `n` digits of a word stand for, read from
/// the left; the first byte that is no digit, or the first digit with
/// which the number no longer fits 64 bits, ends the reading.
pub open spec fn digits_value(s: Seq<u8>, n: int) -> Result<int, NumberError>
    decreases n,
{
    if n <= 0 {
        Ok(0int)
    } else {
        match digits_value(s, n - 1) {
            Err(e) => Err(e),
            Ok(v) => if !(0x30 <= s[n - 1] <= 0x39) {
                Err(NumberError::InvalidDigit)
            } else if v * 10 + (s[n - 1] - 0x30) > u64::MAX {
                Err(NumberError::Overflow)
            } else {
                Ok(v * 10 + (s[n - 1] - 0x30))
            },
        }
    }
}

/// The number that a word stands for: decimal digits, at least one, with
/// a plus sign before them or none.
pub open spec fn number(word: Seq<u8>) -> Result<int, NumberError> {
    if word.len() == 0 {
        Err(NumberError::Empty)
    } else {
        let digits = if word[0] == 0x2B {
            word.skip(1)
        } else {
            word
        };
        if digits.len() == 0 {
            Err(NumberError::InvalidDigit)
        } else {
            digits_value(digits, digits.len() as int)
        }
    }
}

/// Reads a number of 64 bits.
pub fn parse_u64(word: &Vec<u8>) -> (r: Result<u64, NumberError>)
    ensures
        match number(word@) {
            Ok(v) => r == Ok::<u64, NumberError>(v as u64) && v <= u64::MAX,
            Err(e) => r == Err::<u64, NumberError>(e),
        },
{
    if word.len() == 0 {
        return Err(NumberError::Empty);
    }
    let start: usize = if word[0] == 0x2B {
        1
    } else {
        0
    };
    let ghost digits = word@.skip(start as int);
    proof {
        if start == 0 {
            assert(digits =~= word@);
        }
        lemma_digits_bound(digits, digits.len() as int);
    }
    if word.len() - start == 0 {
        return Err(NumberError::InvalidDigit);
    }
    let mut value: u64 = 0;
    let mut i: usize = start;
    while i < word.len()
        invariant
            start <= i <= word@.len(),
            start <= 1,
            word@.len() > 0,
            digits == word@.skip(start as int),
            digits.len() > 0,
            digits == (if word@[0] == 0x2B {
                word@.skip(1)
            } else {
                word@
            }),
            digits_value(digits, i - start) == Ok::<int, NumberError>(value as int),
        decreases word@.len() - i,
    {
        let b = word[i];
        assert(digits[i - start] == b);
        if b < 0x30 || b > 0x39 {
            proof {
                lemma_digits_fail(digits, i - start + 1, digits.len() as int);
            }
            return Err(NumberError::InvalidDigit);
        }
        let d = (b - 0x30) as u64;
        let next = match value.checked_mul(10) {
            Some(v10) => v10.checked_add(d),
            None => None,
        };
        match next {
            Some(v) => {
                value = v;
            },
            None => {
                proof {
                    lemma_digits_fail(digits, i - start + 1, digits.len() as int);
                }
                return Err(NumberError::Overflow);
            },
        }
        i += 1;
    }
    Ok(value)
}

/// A number that was read fits 64 bits.
proof fn lemma_digits_bound(s: Seq<u8>, n: int)
    ensures
        digits_value(s, n) matches Ok(v) ==> 0 <= v <= u64::MAX,
    decreases n,
{
    if n > 0 {
        lemma_digits_bound(s, n - 1);
    }
}

/// Once the reading has failed, more digits do not change the failure.
proof fn lemma_digits_fail(s: Seq<u8>, k: int, n: int)
    requires
        0 < k <= n,
        digits_value(s, k) is Err,
    ensures
        digits_value(s, n) == digits_value(s, k),
    decreases n,
{
    if n > k {
        lemma_digits_fail(s, k, n - 1);
    }
}

/// The commands that take one key.
#[derive(Debug, Clone, Copy, PartialEq, Eq, Structural)]
pub enum CliVerb {
    Get,
    Del,
    Exists,
}

/// The name of a command that takes one key.
pub open spec fn verb_name(verb: CliVerb) -> Seq<char> {
    match verb {
        CliVerb::Get => "GET"@,
        CliVerb::Del => "DEL"@,
        CliVerb::Exists => "EXISTS"@,
    }
}

impl CliVerb {
    /// The name of the command.
    pub fn name(self) -> (s: &'static str)
        ensures
            s@ == verb_name(self),
    {
        match self {
            CliVerb::Get => "GET",
            CliVerb::Del => "DEL",
            CliVerb::Exists => "EXISTS",
        }
    }
}

/// Why a line is no request.
#[derive(Debug, Clone, PartialEq, Eq)]
pub enum CliError {
    /// The line holds no word.
    Empty,
    /// GET, DEL or EXISTS without a key.
    MissingKey(CliVerb),
    /// SET without a key or without a value.
    MissingValue,
    /// A time to live that is no number of 64 bits.
    InvalidTtl(NumberError),
    /// The first word is no command; it is kept in upper case.
    Unknown(String),
}

/// An error of the command line as a value.
pub enum CliErrorModel {
    Empty,
    MissingKey(CliVerb),
    MissingValue,
    InvalidTtl(NumberError),
    Unknown(Seq<char>),
}

impl View for CliError {
    type V = CliErrorModel;

    open spec fn view(&self) -> CliErrorModel {
        match *self {
            CliError::Empty => CliErrorModel::Empty,
            CliError::MissingKey(v) => CliErrorModel::MissingKey(v),
            CliError::MissingValue => CliErrorModel::MissingValue,
            CliError::InvalidTtl(e) => CliErrorModel::InvalidTtl(e),
            CliError::Unknown(w) => CliErrorModel::Unknown(w@),
        }
    }
}

impl CliErrorModel {
    /// The message of this error as text.
    pub open spec fn text(self) -> Seq<char> {
        match self {
            CliErrorModel::Empty => "Empty command"@,
            CliErrorModel::MissingKey(verb) => verb_name(verb) + " requires a key: "@ + verb_name(
                verb,
            ) + " <key>"@,
            CliErrorModel::MissingValue =>
                "SET requires key and value: SET <key> <value> [ttl_seconds]"@,
            CliErrorModel::InvalidTtl(e) => e.text(),
            CliErrorModel::Unknown(word) => "Unknown command: "@ + word
                + ". Type 'help' for available commands."@,
        }
    }
}

impl CliError {
    /// The message of this error.
    pub fn message(&self) -> (s: String)
        ensures
            s@ == self@.text(),
    {
        match self {
            CliError::Empty => String::from_str("Empty command"),
            CliError::MissingKey(verb) => {
                let mut s = String::from_str(verb.name());
                s.append(" requires a key: ");
                s.append(verb.name());
                s.append(" <key>");
                s
            },
            CliError::MissingValue => String::from_str(
                "SET requires key and value: SET <key> <value> [ttl_seconds]",
            ),
            CliError::InvalidTtl(e) => String::from_str(e.message()),
            CliError::Unknown(word) => {
                let mut s = String::from_str("Unknown command: ");
                s.append(word.as_str());
                s.append(". Type 'help' for available commands.");
                s
            },
        }
    }
}

/// The request that the words of a line stand for, where `verb` is the
/// first word in upper case.
pub open spec fn command_of(verb: Seq<char>, parts: Seq<Seq<u8>>) -> Result<
    CommandModel,
    CliErrorModel,
> {
    if verb == "PING"@ {
        Ok(CommandModel::Ping)
    } else if verb == "GET"@ {
        if parts.len() < 2 {
            Err(CliErrorModel::MissingKey(CliVerb::Get))
        } else {
            Ok(CommandModel::Get { key: parts[1] })
        }
    } else if verb == "SET"@ {
        if parts.len() < 3 {
            Err(CliErrorModel::MissingValue)
        } else if parts.len() == 3 {
            Ok(CommandModel::SetKey { key: parts[1], value: parts[2], ttl: None })
        } else {
            match number(parts[3]) {
                Ok(t) => Ok(
                    CommandModel::SetKey { key: parts[1], value: parts[2], ttl: Some(t as u64) },
                ),
                Err(e) => Err(CliErrorModel::InvalidTtl(e)),
            }
        }
    } else if verb == "DEL"@ {
        if parts.len() < 2 {
            Err(CliErrorModel::MissingKey(CliVerb::Del))
        } else {
            Ok(CommandModel::Del { key: parts[1] })
        }
    } else if verb == "EXISTS"@ {
        if parts.len() < 2 {
            Err(CliErrorModel::MissingKey(CliVerb::Exists))
        } else {
            Ok(CommandModel::Exists { key: parts[1] })
        }
    } else {
        Err(CliErrorModel::Unknown(verb))
    }
}

/// The request that a line stands for: that of its words, the first of
/// them taken in upper case; none where the line holds no word.
pub open spec fn line_command(line: Seq<u8>) -> Result<CommandModel, CliErrorModel> {
    let parts = words(line);
    if parts.len() == 0 {
        Err(CliErrorModel::Empty)
    } else {
        command_of(upper_text(lossy_text(parts[0])), parts)
    }
}

/// Reads the words of a line as a request, given the first word in upper
/// case.
///
/// Fails where the first word is no command, where a key or a value is
/// missing, or where the time to live of a SET is no number. What
/// follows the words that a command needs is ignored.
pub fn command_from_words(verb: &str, parts: &Vec<Vec<u8>>) -> (r: Result<Command, CliError>)
    ensures
        match command_of(verb@, byte_strings(parts@)) {
            Ok(c) => r matches Ok(got) && got@ == c,
            Err(e) => r matches Err(got) && got@ == e,
        },
{
    let ghost views = byte_strings(parts@);
    if str_eq(verb, "PING") {
        return Ok(Command::Ping);
    }
    if str_eq(verb, "GET") {
        if parts.len() < 2 {
            return Err(CliError::MissingKey(CliVerb::Get));
        }
        assert(views[1] == parts@[1]@);
        return Ok(Command::Get { key: parts[1].clone() });
    }
    if str_eq(verb, "SET") {
        if parts.len() < 3 {
            return Err(CliError::MissingValue);
        }
        assert(views[1] == parts@[1]@);
        assert(views[2] == parts@[2]@);
        let key = parts[1].clone();
        let value = parts[2].clone();
        if parts.len() == 3 {
            return Ok(Command::SetKey { key, value, ttl: None });
        }
        assert(views[3] == parts@[3]@);
        return match parse_u64(&parts[3]) {
            Ok(t) => Ok(Command::SetKey { key, value, ttl: Some(t) }),
            Err(e) => Err(CliError::InvalidTtl(e)),
        };
    }
    if str_eq(verb, "DEL") {
        if parts.len() < 2 {
            return Err(CliError::MissingKey(CliVerb::Del));
        }
        assert(views[1] == parts@[1]@);
        return Ok(Command::Del { key: parts[1].clone() });
    }
    if str_eq(verb, "EXISTS") {
        if parts.len() < 2 {
            return Err(CliError::MissingKey(CliVerb::Exists));
        }
        assert(views[1] == parts@[1]@);
        return Ok(Command::Exists { key: parts[1].clone() });
    }
    Err(CliError::Unknown(String::from_str(verb)))
}

/// Reads a line as a request.
///
/// Fails where the line holds no word, where the first word is no
/// command, where a key or a value is missing, or where the time to live
/// of a SET is no number.
pub fn parse_command(input: &str) -> (r: Result<Command, CliError>)
    ensures
        match line_command(encode_utf8(input@)) {
            Ok(c) => r matches Ok(got) && got@ == c,
            Err(e) => r matches Err(got) && got@ == e,
        },
{
    let line = input.as_bytes_vec();
    let parts = split_words(&line);
    if parts.len() == 0 {
        return Err(CliError::Empty);
    }
    assert(byte_strings(parts@)[0] == parts@[0]@);
    let first = string_from_utf8_lossy(&parts[0]);
    let verb = to_uppercase(first.as_str());
    command_from_words(verb.as_str(), &parts)
}

/// Hands out the next request identifier: the counter's value, which is
/// then one more.
pub fn next_request_id(counter: &mut u64) -> (id: u64)
    ensures
        id == *old(counter),
        *final(counter) == wrapped_sum(*old(counter), 1),
{
    let id = *counter;
    *counter = wrapping_sum(*counter, 1);
    id
}

} // verus!
