//! Text as the library needs it: decimal and hexadecimal rendering, integer
//! parsing, trimming and comparison, each tied to a mathematical description
//! over sequences of characters.

use vstd::prelude::*;
use vstd::string::{StrSliceExecFns, StringExecFns};

verus! {

/// The character of one decimal digit.
pub open spec fn digit(d: nat) -> char {
    ('0' as u32 + d) as char
}

/// The decimal digits of `n`, most significant first, without leading zeros.
pub open spec fn decimal(n: nat) -> Seq<char>
    decreases n,
{
    if n < 10 {
        seq![digit(n)]
    } else {
        decimal(n / 10).push(digit(n % 10))
    }
}

/// The decimal text of a signed number.
pub open spec fn signed_decimal(n: int) -> Seq<char> {
    if n < 0 {
        seq!['-'] + decimal((-n) as nat)
    } else {
        decimal(n as nat)
    }
}

/// The character of one lower-case hexadecimal digit.
pub open spec fn hex_digit(d: nat) -> char {
    if d < 10 {
        ('0' as u32 + d) as char
    } else {
        ('a' as u32 + (d - 10)) as char
    }
}

/// Two lower-case hexadecimal digits per byte, in the order of the bytes.
pub open spec fn hex(bytes: Seq<u8>) -> Seq<char> {
    Seq::new(
        2 * bytes.len(),
        |i: int|
            if i % 2 == 0 {
                hex_digit((bytes[i / 2] / 16) as nat)
            } else {
                hex_digit((bytes[i / 2] % 16) as nat)
            },
    )
}

fn digit_text(d: u64) -> (text: &'static str)
    requires
        d < 10,
    ensures
        text@ == seq![digit(d as nat)],
{
    proof {
        reveal_strlit("0");
        reveal_strlit("1");
        reveal_strlit("2");
        reveal_strlit("3");
        reveal_strlit("4");
        reveal_strlit("5");
        reveal_strlit("6");
        reveal_strlit("7");
        reveal_strlit("8");
        reveal_strlit("9");
    }
    if d == 0 {
        "0"
    } else if d == 1 {
        "1"
    } else if d == 2 {
        "2"
    } else if d == 3 {
        "3"
    } else if d == 4 {
        "4"
    } else if d == 5 {
        "5"
    } else if d == 6 {
        "6"
    } else if d == 7 {
        "7"
    } else if d == 8 {
        "8"
    } else {
        "9"
    }
}

fn hex_digit_text(d: u8) -> (text: &'static str)
    requires
        d < 16,
    ensures
        text@ == seq![hex_digit(d as nat)],
{
    proof {
        reveal_strlit("a");
        reveal_strlit("b");
        reveal_strlit("c");
        reveal_strlit("d");
        reveal_strlit("e");
        reveal_strlit("f");
    }
    if d < 10 {
        digit_text(d as u64)
    } else if d == 10 {
        "a"
    } else if d == 11 {
        "b"
    } else if d == 12 {
        "c"
    } else if d == 13 {
        "d"
    } else if d == 14 {
        "e"
    } else {
        "f"
    }
}

/// Appends the decimal digits of `n`.
pub fn push_decimal(out: &mut String, n: u64)
    ensures
        final(out)@ == old(out)@ + decimal(n as nat),
    decreases n,
{
    if n >= 10 {
        push_decimal(out, n / 10);
    }
    out.append(digit_text(n % 10));
}

/// Appends the decimal text of a signed number.
pub fn push_signed(out: &mut String, n: i64)
    ensures
        final(out)@ == old(out)@ + signed_decimal(n as int),
{
    if n < 0 {
        proof {
            reveal_strlit("-");
        }
        out.append("-");
        let magnitude: u64 = if n == i64::MIN {
            0x8000_0000_0000_0000u64
        } else {
            (-n) as u64
        };
        push_decimal(out, magnitude);
        assert(out@ =~= old(out)@ + signed_decimal(n as int));
    } else {
        push_decimal(out, n as u64);
    }
}

/// Appends two hexadecimal digits for each byte.
pub fn push_hex(out: &mut String, bytes: &[u8])
    ensures
        final(out)@ == old(out)@ + hex(bytes@),
{
    let ghost before = out@;
    let mut i: usize = 0;
    assert(out@ =~= before + hex(bytes@.take(0)));
    while i < bytes.len()
        invariant
            i <= bytes.len(),
            out@ == before + hex(bytes@.take(i as int)),
        decreases bytes.len() - i,
    {
        let high: u8 = bytes[i] / 16;
        let low: u8 = bytes[i] % 16;
        out.append(hex_digit_text(high));
        out.append(hex_digit_text(low));
        i += 1;
        assert(out@ =~= before + hex(bytes@.take(i as int)));
    }
    assert(bytes@.take(i as int) =~= bytes@);
}

/// An identifier of sixteen octets as hexadecimal text in groups of four, two,
/// two, two and six octets.
pub open spec fn hyphenated(uuid: Seq<u8>) -> Seq<char> {
    hex(uuid.subrange(0, 4)) + "-"@ + hex(uuid.subrange(4, 6)) + "-"@ + hex(uuid.subrange(6, 8))
        + "-"@ + hex(uuid.subrange(8, 10)) + "-"@ + hex(uuid.subrange(10, 16))
}

/// Appends an identifier in its hyphenated form.
pub fn push_uuid(out: &mut String, uuid: &[u8; 16])
    ensures
        final(out)@ == old(out)@ + hyphenated(uuid@),
{
    let octets: &[u8] = uuid.as_slice();
    push_hex(out, vstd::slice::slice_subrange(octets, 0, 4));
    out.append("-");
    push_hex(out, vstd::slice::slice_subrange(octets, 4, 6));
    out.append("-");
    push_hex(out, vstd::slice::slice_subrange(octets, 6, 8));
    out.append("-");
    push_hex(out, vstd::slice::slice_subrange(octets, 8, 10));
    out.append("-");
    push_hex(out, vstd::slice::slice_subrange(octets, 10, 16));
    assert(out@ =~= old(out)@ + hyphenated(uuid@));
}

/// Whether two texts hold the same characters.
pub fn same_text(a: &str, b: &str) -> (same: bool)
    ensures
        same == (a@ == b@),
{
    a.to_owned() == b.to_owned()
}

/// Whether `text` ends with `suffix`.
pub open spec fn has_suffix(text: Seq<char>, suffix: Seq<char>) -> bool {
    suffix.len() <= text.len() && text.skip(text.len() - suffix.len()) == suffix
}

/// Whether `text` starts with `prefix`.
pub open spec fn has_prefix(text: Seq<char>, prefix: Seq<char>) -> bool {
    prefix.len() <= text.len() && text.take(prefix.len() as int) == prefix
}

/// Whether `text` ends with `suffix`.
pub fn ends_with(text: &str, suffix: &str) -> (found: bool)
    ensures
        found == has_suffix(text@, suffix@),
{
    let text_len: usize = text.unicode_len();
    let suffix_len: usize = suffix.unicode_len();
    if suffix_len > text_len {
        return false;
    }
    same_text(text.substring_char(text_len - suffix_len, text_len), suffix)
}

/// Whether `text` starts with `prefix`.
pub fn starts_with(text: &str, prefix: &str) -> (found: bool)
    ensures
        found == has_prefix(text@, prefix@),
{
    let text_len: usize = text.unicode_len();
    let prefix_len: usize = prefix.unicode_len();
    if prefix_len > text_len {
        return false;
    }
    same_text(text.substring_char(0, prefix_len), prefix)
}

/// The position of the last occurrence of `mark`, or -1.
pub open spec fn last_position(text: Seq<char>, mark: char) -> int
    decreases text.len(),
{
    if text.len() == 0 {
        -1
    } else if text.last() == mark {
        text.len() - 1
    } else {
        last_position(text.drop_last(), mark)
    }
}

/// Finds the last occurrence of `mark`.
pub fn find_last(text: &str, mark: char) -> (found: Option<usize>)
    ensures
        match found {
            Some(at) => at == last_position(text@, mark) && at < text@.len(),
            None => last_position(text@, mark) == -1,
        },
{
    let mut end: usize = text.unicode_len();
    assert(text@.take(end as int) =~= text@);
    while end > 0
        invariant
            end <= text@.len(),
            last_position(text@, mark) == last_position(text@.take(end as int), mark),
        decreases end,
    {
        if text.get_char(end - 1) == mark {
            return Some(end - 1);
        }
        assert(text@.take(end as int).drop_last() =~= text@.take(end - 1));
        end -= 1;
    }
    None
}

/// Whether a character has the Unicode property White_Space.
pub open spec fn is_white_space(c: char) -> bool {
    ||| 0x09 <= c as u32 <= 0x0d
    ||| c as u32 == 0x20
    ||| c as u32 == 0x85
    ||| c as u32 == 0xa0
    ||| c as u32 == 0x1680
    ||| 0x2000 <= c as u32 <= 0x200a
    ||| c as u32 == 0x2028
    ||| c as u32 == 0x2029
    ||| c as u32 == 0x202f
    ||| c as u32 == 0x205f
    ||| c as u32 == 0x3000
}

/// `text` without leading white space.
pub open spec fn trimmed_start(text: Seq<char>) -> Seq<char>
    decreases text.len(),
{
    if text.len() > 0 && is_white_space(text[0]) {
        trimmed_start(text.skip(1))
    } else {
        text
    }
}

/// `text` without trailing white space.
pub open spec fn trimmed_end(text: Seq<char>) -> Seq<char>
    decreases text.len(),
{
    if text.len() > 0 && is_white_space(text.last()) {
        trimmed_end(text.drop_last())
    } else {
        text
    }
}

/// `text` without leading and trailing white space.
pub open spec fn trimmed(text: Seq<char>) -> Seq<char> {
    trimmed_end(trimmed_start(text))
}

fn white_space(c: char) -> (is: bool)
    ensures
        is == is_white_space(c),
{
    let code: u32 = c as u32;
    (0x09 <= code && code <= 0x0d) || code == 0x20 || code == 0x85 || code == 0xa0 || code == 0x1680
        || (0x2000 <= code && code <= 0x200a) || code == 0x2028 || code == 0x2029 || code == 0x202f
        || code == 0x205f || code == 0x3000
}

/// Removes leading and trailing white space.
pub fn trim(text: &str) -> (inner: &str)
    ensures
        inner@ == trimmed(text@),
{
    let len: usize = text.unicode_len();
    let mut start: usize = 0;
    assert(text@.skip(0) =~= text@);
    while start < len && white_space(text.get_char(start))
        invariant
            start <= len,
            len == text@.len(),
            trimmed_start(text@) == trimmed_start(text@.skip(start as int)),
        decreases len - start,
    {
        assert(text@.skip(start as int).skip(1) =~= text@.skip(start + 1));
        start += 1;
    }
    assert(trimmed_start(text@) == text@.skip(start as int)) by {
        assert(start < len ==> text@.skip(start as int)[0] == text@[start as int]);
    }
    let mut end: usize = len;
    assert(text@.skip(start as int) =~= text@.subrange(start as int, end as int));
    while end > start && white_space(text.get_char(end - 1))
        invariant
            start <= end <= len,
            len == text@.len(),
            trimmed(text@) == trimmed_end(text@.subrange(start as int, end as int)),
        decreases end - start,
    {
        assert(text@.subrange(start as int, end as int).drop_last() =~= text@.subrange(
            start as int,
            end - 1,
        ));
        end -= 1;
    }
    text.substring_char(start, end)
}

/// Why a text is not an integer of the wanted type.
#[derive(Clone, Copy, Debug, PartialEq, Eq, Structural)]
pub enum IntegerError {
    /// The text is empty.
    Empty,
    /// A character is not a decimal digit, or only a sign stands there.
    InvalidDigit,
    /// The value exceeds the largest of the type.
    TooLarge,
    /// The value is below the smallest of the type.
    TooSmall,
}

impl IntegerError {
    /// The text of this error.
    pub open spec fn text(self) -> Seq<char> {
        match self {
            IntegerError::Empty => "cannot parse integer from empty string"@,
            IntegerError::InvalidDigit => "invalid digit found in string"@,
            IntegerError::TooLarge => "number too large to fit in target type"@,
            IntegerError::TooSmall => "number too small to fit in target type"@,
        }
    }

    /// The text of this error.
    pub fn message(&self) -> (text: &'static str)
        ensures
            text@ == self.text(),
    {
        match self {
            IntegerError::Empty => "cannot parse integer from empty string",
            IntegerError::InvalidDigit => "invalid digit found in string",
            IntegerError::TooLarge => "number too large to fit in target type",
            IntegerError::TooSmall => "number too small to fit in target type",
        }
    }
}

/// Whether a character is a decimal digit.
pub open spec fn is_digit(c: char) -> bool {
    '0' <= c && c <= '9'
}

/// Reads decimal digits from left to right on top of `value`, up to `limit`;
/// `over` is the error for a value beyond it.
pub open spec fn read_digits(
    text: Seq<char>,
    value: nat,
    limit: nat,
    over: IntegerError,
) -> Result<nat, IntegerError>
    decreases text.len(),
{
    if text.len() == 0 {
        Ok(value)
    } else if !is_digit(text[0]) {
        Err(IntegerError::InvalidDigit)
    } else {
        let next = (value * 10 + (text[0] as u32 - '0' as u32)) as nat;
        if next > limit {
            Err(over)
        } else {
            read_digits(text.skip(1), next, limit, over)
        }
    }
}

/// What an unsigned integer of at most `max` reads from a text: an optional
/// plus sign, then decimal digits.
pub open spec fn parsed_unsigned(text: Seq<char>, max: nat) -> Result<nat, IntegerError> {
    if text.len() == 0 {
        Err(IntegerError::Empty)
    } else if text.len() == 1 && (text[0] == '+' || text[0] == '-') {
        Err(IntegerError::InvalidDigit)
    } else if text[0] == '+' {
        read_digits(text.skip(1), 0, max, IntegerError::TooLarge)
    } else {
        read_digits(text, 0, max, IntegerError::TooLarge)
    }
}

/// What a 32-bit signed integer reads from a text: an optional sign, then
/// decimal digits.
pub open spec fn parsed_i32(text: Seq<char>) -> Result<int, IntegerError> {
    if text.len() == 0 {
        Err(IntegerError::Empty)
    } else if text.len() == 1 && (text[0] == '+' || text[0] == '-') {
        Err(IntegerError::InvalidDigit)
    } else if text[0] == '-' {
        match read_digits(text.skip(1), 0, 0x8000_0000, IntegerError::TooSmall) {
            Ok(value) => Ok(-(value as int)),
            Err(error) => Err(error),
        }
    } else {
        match parsed_unsigned(text, 0x7fff_ffff) {
            Ok(value) => Ok(value as int),
            Err(error) => Err(error),
        }
    }
}

fn scan_digits(text: &str, from: usize, limit: u64, over: IntegerError) -> (result: Result<
    u64,
    IntegerError,
>)
    requires
        from <= text@.len(),
    ensures
        match result {
            Ok(value) => read_digits(text@.skip(from as int), 0, limit as nat, over) == Ok::<
                nat,
                IntegerError,
            >(value as nat) && value <= limit,
            Err(error) => read_digits(text@.skip(from as int), 0, limit as nat, over) == Err::<
                nat,
                IntegerError,
            >(error),
        },
{
    let len: usize = text.unicode_len();
    let mut at: usize = from;
    let mut value: u64 = 0;
    while at < len
        invariant
            from <= at <= len,
            len == text@.len(),
            value <= limit,
            read_digits(text@.skip(from as int), 0, limit as nat, over) == read_digits(
                text@.skip(at as int),
                value as nat,
                limit as nat,
                over,
            ),
        decreases len - at,
    {
        let c: char = text.get_char(at);
        assert(text@.skip(at as int)[0] == c);
        if c < '0' || c > '9' {
            return Err(IntegerError::InvalidDigit);
        }
        let d: u64 = (c as u32 - '0' as u32) as u64;
        if d > limit || value > limit / 10 || value * 10 > limit - d {
            return Err(over);
        }
        value = value * 10 + d;
        assert(text@.skip(at as int).skip(1) =~= text@.skip(at + 1));
        at += 1;
    }
    Ok(value)
}

/// Parses an unsigned integer of at most `max`.
pub fn parse_unsigned(text: &str, max: u64) -> (result: Result<u64, IntegerError>)
    ensures
        match result {
            Ok(value) => parsed_unsigned(text@, max as nat) == Ok::<nat, IntegerError>(value as nat)
                && value <= max,
            Err(error) => parsed_unsigned(text@, max as nat) == Err::<nat, IntegerError>(error),
        },
{
    let len: usize = text.unicode_len();
    if len == 0 {
        return Err(IntegerError::Empty);
    }
    let first: char = text.get_char(0);
    if len == 1 && (first == '+' || first == '-') {
        return Err(IntegerError::InvalidDigit);
    }
    assert(text@.skip(0) =~= text@);
    if first == '+' {
        scan_digits(text, 1, max, IntegerError::TooLarge)
    } else {
        scan_digits(text, 0, max, IntegerError::TooLarge)
    }
}

/// Parses a 32-bit signed integer.
pub fn parse_i32(text: &str) -> (result: Result<i32, IntegerError>)
    ensures
        match result {
            Ok(value) => parsed_i32(text@) == Ok::<int, IntegerError>(value as int),
            Err(error) => parsed_i32(text@) == Err::<int, IntegerError>(error),
        },
{
    let len: usize = text.unicode_len();
    if len == 0 {
        return Err(IntegerError::Empty);
    }
    let first: char = text.get_char(0);
    if len == 1 && (first == '+' || first == '-') {
        return Err(IntegerError::InvalidDigit);
    }
    if first == '-' {
        match scan_digits(text, 1, 0x8000_0000, IntegerError::TooSmall) {
            Ok(value) => Ok((-(value as i64)) as i32),
            Err(error) => Err(error),
        }
    } else {
        match parse_unsigned(text, 0x7fff_ffff) {
            Ok(value) => Ok(value as i32),
            Err(error) => Err(error),
        }
    }
}

/// Decimal text starts with a digit, ends with one, and has no other character.
pub proof fn lemma_decimal_digits(n: nat)
    ensures
        decimal(n).len() > 0,
        forall|i: int| 0 <= i < decimal(n).len() ==> is_digit(#[trigger] decimal(n)[i]),
    decreases n,
{
    if n >= 10 {
        lemma_decimal_digits(n / 10);
    }
}

/// Different numbers have different decimal texts.
pub proof fn lemma_decimal_injective(a: nat, b: nat)
    requires
        decimal(a) == decimal(b),
    ensures
        a == b,
    decreases a,
{
    lemma_decimal_digits(a / 10);
    lemma_decimal_digits(b / 10);
    assert(decimal(a).last() == digit(a % 10));
    assert(decimal(b).last() == digit(b % 10));
    if a >= 10 && b >= 10 {
        assert(decimal(a).drop_last() =~= decimal(a / 10));
        assert(decimal(b).drop_last() =~= decimal(b / 10));
        lemma_decimal_injective(a / 10, b / 10);
    }
}

/// Decimal text has no white space around it.
pub proof fn lemma_decimal_trimmed(n: nat)
    ensures
        trimmed(decimal(n)) == decimal(n),
{
    lemma_decimal_digits(n);
    assert(is_digit(decimal(n)[0]));
    assert(is_digit(decimal(n)[decimal(n).len() - 1]));
}

/// Reading the digits of `n` gives `n` on top of a value shifted by them.
proof fn lemma_read_decimal(n: nat, rest: Seq<char>, limit: nat, over: IntegerError)
    requires
        n <= limit,
    ensures
        read_digits(decimal(n) + rest, 0, limit, over) == read_digits(rest, n, limit, over),
    decreases n,
{
    if n < 10 {
        let text = decimal(n) + rest;
        assert(text[0] == digit(n));
        assert(text.skip(1) =~= rest);
    } else {
        let tail = seq![digit(n % 10)] + rest;
        assert(decimal(n) + rest =~= decimal(n / 10) + tail);
        lemma_read_decimal(n / 10, tail, limit, over);
        assert(tail[0] == digit(n % 10));
        assert(tail.skip(1) =~= rest);
    }
}

/// Decimal text reads back as the number.
pub proof fn lemma_decimal_parses(n: nat, max: nat)
    requires
        n <= max,
    ensures
        parsed_unsigned(decimal(n), max) == Ok::<nat, IntegerError>(n),
{
    lemma_decimal_digits(n);
    assert(is_digit(decimal(n)[0]));
    lemma_read_decimal(n, Seq::empty(), max, IntegerError::TooLarge);
    assert(decimal(n) + Seq::<char>::empty() =~= decimal(n));
}

/// Decimal text spells a number digit by digit: it has decimal digits alone, does not
/// start with a zero unless it is the number zero, and one more digit at its end is ten
/// times the number and that digit. A negative number has a minus sign before it.
pub proof fn law_decimal_spells_the_number(n: nat, d: nat)
    requires
        d < 10,
    ensures
        decimal(d).len() == 1 && decimal(d)[0] as u32 == 48 + d,
        n > 0 ==> decimal(10 * n + d).len() == decimal(n).len() + 1,
        n > 0 ==> decimal(10 * n + d).drop_last() == decimal(n),
        n > 0 ==> decimal(10 * n + d).last() as u32 == 48 + d,
        n > 0 ==> decimal(n)[0] != '0',
        signed_decimal(n as int) == decimal(n),
        n > 0 ==> signed_decimal(-n).len() == decimal(n).len() + 1 && signed_decimal(-n)[0] == '-'
            && signed_decimal(-n).skip(1) == decimal(n),
    decreases n,
{
    assert((10 * n + d) / 10 == n && (10 * n + d) % 10 == d);
    if n > 0 {
        assert(decimal(10 * n + d) == decimal(n).push(digit(d)));
        assert(decimal(10 * n + d).drop_last() =~= decimal(n));
        if n >= 10 {
            lemma_decimal_digits(n / 10);
            law_decimal_spells_the_number(n / 10, n % 10);
            assert(10 * (n / 10) + n % 10 == n);
        }
        assert(signed_decimal(-n).skip(1) =~= decimal(n));
    }
}

/// Hexadecimal text has two lower-case digits for each byte, the higher one first.
pub proof fn law_hex_spells_each_byte(bytes: Seq<u8>, i: int)
    requires
        0 <= i < bytes.len(),
    ensures
        hex(bytes).len() == 2 * bytes.len(),
        bytes[i] < 160 ==> hex(bytes)[2 * i] as u32 == 48 + bytes[i] / 16,
        bytes[i] >= 160 ==> hex(bytes)[2 * i] as u32 == 87 + bytes[i] / 16,
        bytes[i] % 16 < 10 ==> hex(bytes)[2 * i + 1] as u32 == 48 + bytes[i] % 16,
        bytes[i] % 16 >= 10 ==> hex(bytes)[2 * i + 1] as u32 == 87 + bytes[i] % 16,
{
    assert((2 * i) / 2 == i && (2 * i) % 2 == 0);
    assert((2 * i + 1) / 2 == i && (2 * i + 1) % 2 == 1);
}

/// A hyphenated identifier is its hexadecimal text with a hyphen behind the fourth, the
/// sixth, the eighth and the tenth octet.
pub proof fn law_hyphens_stand_between_the_groups(uuid: Seq<u8>, i: int)
    requires
        uuid.len() == 16,
        0 <= i < 16,
    ensures
        hyphenated(uuid).len() == 36,
        hyphenated(uuid)[8] == '-' && hyphenated(uuid)[13] == '-' && hyphenated(uuid)[18] == '-'
            && hyphenated(uuid)[23] == '-',
        ({
            let at = 2 * i + if i < 4 {
                0int
            } else if i < 6 {
                1
            } else if i < 8 {
                2
            } else if i < 10 {
                3
            } else {
                4
            };
            hyphenated(uuid)[at] == hex(uuid)[2 * i] && hyphenated(uuid)[at + 1] == hex(uuid)[2 * i
                + 1]
        }),
{
    reveal_strlit("-");
    let a = uuid.subrange(0, 4);
    let b = uuid.subrange(4, 6);
    let c = uuid.subrange(6, 8);
    let d = uuid.subrange(8, 10);
    let e = uuid.subrange(10, 16);
    law_hex_spells_each_byte(uuid, i);
    if i < 4 {
        law_hex_spells_each_byte(a, i);
    } else if i < 6 {
        law_hex_spells_each_byte(b, i - 4);
    } else if i < 8 {
        law_hex_spells_each_byte(c, i - 6);
    } else if i < 10 {
        law_hex_spells_each_byte(d, i - 8);
    } else {
        law_hex_spells_each_byte(e, i - 10);
    }
}

/// A text starts with a prefix if and only if it is the prefix and something behind it,
/// and ends with a suffix if and only if it is something and the suffix behind it.
pub proof fn law_prefixes_and_suffixes(text: Seq<char>, part: Seq<char>, other: Seq<char>)
    ensures
        has_prefix(part + other, part),
        has_suffix(other + part, part),
        has_prefix(text, part) ==> part.len() <= text.len() && text == part + text.skip(
            part.len() as int,
        ),
        has_suffix(text, part) ==> part.len() <= text.len() && text == text.take(
            text.len() - part.len(),
        ) + part,
{
    assert((part + other).take(part.len() as int) =~= part);
    assert((other + part).skip(other.len() as int) =~= part);
    if has_prefix(text, part) {
        assert(text =~= text.take(part.len() as int) + text.skip(part.len() as int));
    }
    if has_suffix(text, part) {
        assert(text =~= text.take(text.len() - part.len()) + text.skip(text.len() - part.len()));
    }
}

/// The last position of a mark holds the mark, and the mark stands nowhere behind it;
/// a text without the mark has none.
pub proof fn law_last_position_is_the_last(text: Seq<char>, mark: char, i: int)
    ensures
        -1 <= last_position(text, mark) < text.len(),
        last_position(text, mark) >= 0 ==> text[last_position(text, mark)] == mark,
        last_position(text, mark) < i < text.len() ==> text[i] != mark,
    decreases text.len(),
{
    if text.len() > 0 && text.last() != mark {
        law_last_position_is_the_last(text.drop_last(), mark, i);
        if last_position(text, mark) < i < text.len() - 1 {
            assert(text.drop_last()[i] == text[i]);
        }
    }
}

proof fn lemma_trimmed_start(text: Seq<char>)
    ensures
        trimmed_start(text).len() <= text.len(),
        trimmed_start(text) == text.skip(text.len() - trimmed_start(text).len()),
        forall|i: int|
            0 <= i < text.len() - trimmed_start(text).len() ==> is_white_space(#[trigger] text[i]),
        trimmed_start(text).len() > 0 ==> !is_white_space(trimmed_start(text)[0]),
    decreases text.len(),
{
    if text.len() > 0 && is_white_space(text[0]) {
        let rest = text.skip(1);
        lemma_trimmed_start(rest);
        assert(rest.skip(rest.len() - trimmed_start(rest).len()) =~= text.skip(
            text.len() - trimmed_start(text).len(),
        ));
        assert forall|i: int|
            0 <= i < text.len() - trimmed_start(text).len() implies is_white_space(
            #[trigger] text[i],
        ) by {
            if i > 0 {
                assert(is_white_space(rest[i - 1]));
            }
        }
    } else {
        assert(text.skip(0) =~= text);
    }
}

proof fn lemma_trimmed_end(text: Seq<char>)
    ensures
        trimmed_end(text).len() <= text.len(),
        trimmed_end(text) == text.take(trimmed_end(text).len() as int),
        forall|i: int|
            trimmed_end(text).len() <= i < text.len() ==> is_white_space(#[trigger] text[i]),
        trimmed_end(text).len() > 0 ==> !is_white_space(trimmed_end(text).last()),
    decreases text.len(),
{
    if text.len() > 0 && is_white_space(text.last()) {
        let rest = text.drop_last();
        lemma_trimmed_end(rest);
        assert(rest.take(trimmed_end(rest).len() as int) =~= text.take(
            trimmed_end(text).len() as int,
        ));
        assert forall|i: int| trimmed_end(text).len() <= i < text.len() implies is_white_space(
            #[trigger] text[i],
        ) by {
            if i < text.len() - 1 {
                assert(is_white_space(rest[i]));
            }
        }
    } else {
        assert(text.take(text.len() as int) =~= text);
    }
}

/// A trimmed text is a part of the text that neither starts nor ends with white space,
/// with nothing but white space before and behind it. Of the characters of ASCII, white
/// space are the space and those from the tab to the carriage return.
pub proof fn law_trimming_removes_outer_white_space(text: Seq<char>, c: char) -> (start: int)
    ensures
        0 <= start <= start + trimmed(text).len() <= text.len(),
        trimmed(text) == text.subrange(start, start + trimmed(text).len()),
        forall|i: int| 0 <= i < start ==> is_white_space(#[trigger] text[i]),
        forall|i: int|
            start + trimmed(text).len() <= i < text.len() ==> is_white_space(#[trigger] text[i]),
        trimmed(text).len() > 0 ==> !is_white_space(trimmed(text)[0]) && !is_white_space(
            trimmed(text).last(),
        ),
        (c as u32) < 128 ==> (is_white_space(c) <==> c == ' ' || 9 <= c as u32 <= 13),
        c as u32 >= 128 ==> (is_white_space(c) <==> c as u32 == 133 || c as u32 == 160 || c as u32
            == 5760 || 8192 <= c as u32 <= 8202 || c as u32 == 8232 || c as u32 == 8233 || c as u32
            == 8239 || c as u32 == 8287 || c as u32 == 12288),
{
    let inner = trimmed_start(text);
    let start = text.len() - inner.len();
    lemma_trimmed_start(text);
    lemma_trimmed_end(inner);
    assert(trimmed(text) =~= text.subrange(start, start + trimmed(text).len()));
    assert forall|i: int| start + trimmed(text).len() <= i < text.len() implies is_white_space(
        #[trigger] text[i],
    ) by {
        assert(is_white_space(inner[i - start]));
    }
    start
}

proof fn lemma_read_push(
    text: Seq<char>,
    value: nat,
    limit: nat,
    over: IntegerError,
    c: char,
)
    ensures
        read_digits(text.push(c), value, limit, over) == (match read_digits(
            text,
            value,
            limit,
            over,
        ) {
            Err(error) => Err::<nat, IntegerError>(error),
            Ok(read) => if !('0' <= c && c <= '9') {
                Err(IntegerError::InvalidDigit)
            } else if 10 * read + (c as u32 - 48) > limit {
                Err(over)
            } else {
                Ok((10 * read + (c as u32 - 48)) as nat)
            },
        }),
    decreases text.len(),
{
    reveal_with_fuel(read_digits, 2);
    if text.len() == 0 {
        assert(text.push(c).skip(1) =~= Seq::empty());
    } else {
        assert(text.push(c).skip(1) =~= text.skip(1).push(c));
        if is_digit(text[0]) {
            let next = (value * 10 + (text[0] as u32 - '0' as u32)) as nat;
            if next <= limit {
                lemma_read_push(text.skip(1), next, limit, over, c);
            }
        }
    }
}

/// Reading a number goes on digit by digit: one more digit makes ten times the number
/// and that digit, unless that is too large; one more character that is no digit makes
/// it no number, and what was no number stays none. A single digit reads as itself, a
/// plus sign before digits changes nothing, and neither an empty text nor a sign alone
/// is a number.
pub proof fn law_numbers_are_read_digit_by_digit(text: Seq<char>, c: char, max: nat)
    ensures
        parsed_unsigned(Seq::empty(), max) == Err::<nat, IntegerError>(IntegerError::Empty),
        parsed_unsigned(seq!['+'], max) == Err::<nat, IntegerError>(IntegerError::InvalidDigit),
        parsed_unsigned(seq!['-'], max) == Err::<nat, IntegerError>(IntegerError::InvalidDigit),
        !('0' <= c && c <= '9') ==> parsed_unsigned(seq![c], max) == Err::<nat, IntegerError>(
            IntegerError::InvalidDigit,
        ),
        '0' <= c && c <= '9' && c as u32 - 48 <= max ==> parsed_unsigned(seq![c], max) == Ok::<
            nat,
            IntegerError,
        >((c as u32 - 48) as nat),
        '0' <= c && c <= '9' && c as u32 - 48 > max ==> parsed_unsigned(seq![c], max) == Err::<
            nat,
            IntegerError,
        >(IntegerError::TooLarge),
        parsed_unsigned(text, max) matches Ok(value) ==> value <= max && parsed_unsigned(
            text.push(c),
            max,
        ) == (if !('0' <= c && c <= '9') {
            Err::<nat, IntegerError>(IntegerError::InvalidDigit)
        } else if 10 * value + (c as u32 - 48) > max {
            Err(IntegerError::TooLarge)
        } else {
            Ok((10 * value + (c as u32 - 48)) as nat)
        }),
        text.len() > 1 && parsed_unsigned(text, max) is Err ==> parsed_unsigned(text.push(c), max)
            == parsed_unsigned(text, max),
        text.len() > 0 && text[0] != '+' && text[0] != '-' ==> parsed_unsigned(
            seq!['+'] + text,
            max,
        ) == parsed_unsigned(text, max),
        text.len() > 0 && text[0] == '-' ==> parsed_unsigned(text, max) == Err::<
            nat,
            IntegerError,
        >(IntegerError::InvalidDigit),
{
    reveal_with_fuel(read_digits, 2);
    assert(seq![c].skip(1) =~= Seq::empty());
    if text.len() > 0 {
        assert(text.push(c)[0] == text[0]);
        if text[0] == '+' {
            assert(text.push(c).skip(1) =~= text.skip(1).push(c));
            lemma_read_push(text.skip(1), 0, max, IntegerError::TooLarge, c);
            lemma_read_bound(text.skip(1), 0, max, IntegerError::TooLarge);
        } else {
            lemma_read_push(text, 0, max, IntegerError::TooLarge, c);
            lemma_read_bound(text, 0, max, IntegerError::TooLarge);
        }
        assert((seq!['+'] + text).skip(1) =~= text);
    }
}

proof fn lemma_read_bound(text: Seq<char>, value: nat, limit: nat, over: IntegerError)
    requires
        value <= limit,
    ensures
        read_digits(text, value, limit, over) matches Ok(read) ==> read <= limit,
    decreases text.len(),
{
    if text.len() > 0 && is_digit(text[0]) {
        let next = (value * 10 + (text[0] as u32 - '0' as u32)) as nat;
        if next <= limit {
            lemma_read_bound(text.skip(1), next, limit, over);
        }
    }
}

proof fn lemma_read_over(n: nat, rest: Seq<char>, limit: nat, over: IntegerError)
    requires
        n > limit,
    ensures
        read_digits(decimal(n) + rest, 0, limit, over) == Err::<nat, IntegerError>(over),
    decreases n,
{
    if n < 10 {
        let text = decimal(n) + rest;
        assert(text[0] == digit(n));
    } else {
        let tail = seq![digit(n % 10)] + rest;
        assert(decimal(n) + rest =~= decimal(n / 10) + tail);
        if n / 10 > limit {
            lemma_read_over(n / 10, tail, limit, over);
        } else {
            lemma_read_decimal(n / 10, tail, limit, over);
            assert(tail[0] == digit(n % 10));
        }
    }
}

/// The decimal text of a number reads back as the number if it is not too large, also
/// behind a plus sign; a 32-bit number reads back with its sign if it lies within its
/// bounds.
pub proof fn law_decimal_text_reads_back(n: nat, max: nat)
    ensures
        n <= max ==> parsed_unsigned(decimal(n), max) == Ok::<nat, IntegerError>(n),
        n > max ==> parsed_unsigned(decimal(n), max) == Err::<nat, IntegerError>(
            IntegerError::TooLarge,
        ),
        n <= 2147483647 ==> parsed_i32(decimal(n)) == Ok::<int, IntegerError>(n as int),
        n > 2147483647 ==> parsed_i32(decimal(n)) == Err::<int, IntegerError>(
            IntegerError::TooLarge,
        ),
        n <= 2147483648 ==> parsed_i32(seq!['-'] + decimal(n)) == Ok::<int, IntegerError>(-n),
        n > 2147483648 ==> parsed_i32(seq!['-'] + decimal(n)) == Err::<int, IntegerError>(
            IntegerError::TooSmall,
        ),
        parsed_i32(Seq::empty()) == Err::<int, IntegerError>(IntegerError::Empty),
        parsed_i32(seq!['-']) == Err::<int, IntegerError>(IntegerError::InvalidDigit),
        parsed_i32(seq!['+']) == Err::<int, IntegerError>(IntegerError::InvalidDigit),
{
    lemma_decimal_digits(n);
    assert(is_digit(decimal(n)[0]));
    assert(decimal(n) + Seq::<char>::empty() =~= decimal(n));
    assert((seq!['-'] + decimal(n)).skip(1) =~= decimal(n));
    if n <= max {
        lemma_decimal_parses(n, max);
    } else {
        lemma_read_over(n, Seq::empty(), max, IntegerError::TooLarge);
    }
    if n <= 2147483647 {
        lemma_decimal_parses(n, 2147483647);
    } else {
        lemma_read_over(n, Seq::empty(), 2147483647, IntegerError::TooLarge);
    }
    if n <= 2147483648 {
        lemma_read_decimal(n, Seq::empty(), 2147483648, IntegerError::TooSmall);
    } else {
        lemma_read_over(n, Seq::empty(), 2147483648, IntegerError::TooSmall);
    }
}

/// A text that is no number of its type says why in the words of the standard library.
pub proof fn law_integer_errors_say_why(error: IntegerError, c: char)
    ensures
        error.text() == match error {
            IntegerError::Empty => "cannot parse integer from empty string"@,
            IntegerError::InvalidDigit => "invalid digit found in string"@,
            IntegerError::TooLarge => "number too large to fit in target type"@,
            IntegerError::TooSmall => "number too small to fit in target type"@,
        },
        is_digit(c) <==> 48 <= c as u32 <= 57,
{
}

} // verus!
