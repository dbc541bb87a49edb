//! Text building and parsing shared by diagnostics, discovery and the command line.

use vstd::prelude::*;
use vstd::string::*;

verus! {

broadcast use vstd::string::group_string_axioms;

/// `String::push` appends one character.
pub assume_specification[ String::push ](s: &mut String, c: char)
    ensures
        final(s)@ == old(s)@.push(c),
;

/// The decimal digit for a value below ten.
pub open spec fn decimal_digit(value: nat) -> char {
    (48 + value) as char
}

/// The decimal spelling of a natural number, without leading zeros.
pub open spec fn decimal(value: nat) -> Seq<char>
    decreases value,
{
    if value < 10 {
        seq![decimal_digit(value)]
    } else {
        decimal(value / 10).push(decimal_digit(value % 10))
    }
}

/// The lower-case hexadecimal digit for a value below sixteen.
pub open spec fn hex_digit(value: nat) -> char {
    if value < 10 {
        (48 + value) as char
    } else {
        (87 + value) as char
    }
}

/// A byte as two lower-case hexadecimal digits.
pub open spec fn hex_byte(value: u8) -> Seq<char> {
    seq![hex_digit(value as nat / 16), hex_digit(value as nat % 16)]
}

/// A 16-bit value as four lower-case hexadecimal digits.
pub open spec fn hex_word(value: u16) -> Seq<char> {
    hex_byte((value / 256) as u8) + hex_byte((value % 256) as u8)
}

/// Bytes as consecutive two-digit hexadecimal pairs.
pub open spec fn hex_bytes(data: Seq<u8>) -> Seq<char>
    decreases data.len(),
{
    if data.len() == 0 {
        Seq::empty()
    } else {
        hex_bytes(data.drop_last()) + hex_byte(data.last())
    }
}

/// Two-digit hexadecimal items separated by a comma and a space.
pub open spec fn hex_items(data: Seq<u8>) -> Seq<char>
    decreases data.len(),
{
    if data.len() == 0 {
        Seq::empty()
    } else if data.len() == 1 {
        hex_byte(data[0])
    } else {
        hex_items(data.drop_last()) + seq![',', ' '] + hex_byte(data.last())
    }
}

/// Bytes as a bracketed list of two-digit hexadecimal items.
pub open spec fn hex_list(data: Seq<u8>) -> Seq<char> {
    seq!['['] + hex_items(data) + seq![']']
}

/// The text of an optional borrowed string.
pub open spec fn borrowed_view(text: Option<&str>) -> Option<Seq<char>> {
    match text {
        Some(text) => Some(text@),
        None => None,
    }
}

/// Borrows an optional text.
pub fn borrow_text(text: &Option<String>) -> (borrowed: Option<&str>)
    ensures
        borrowed_view(borrowed) == text.deep_view(),
{
    match text {
        Some(text) => Some(text.as_str()),
        None => None,
    }
}

/// Appends the decimal spelling of `value`.
pub fn push_decimal(out: &mut String, value: u128)
    ensures
        final(out)@ == old(out)@ + decimal(value as nat),
    decreases value,
{
    if value >= 10 {
        push_decimal(out, value / 10);
    }
    let digit: u8 = (value % 10) as u8;
    out.push((48 + digit) as char);
    assert(out@ =~= old(out)@ + decimal(value as nat));
}

/// The lower-case hexadecimal digit for `value`.
pub fn hex_digit_char(value: u8) -> (c: char)
    requires
        value < 16,
    ensures
        c == hex_digit(value as nat),
{
    if value < 10 {
        (48 + value) as char
    } else {
        (87 + value) as char
    }
}

/// Appends `value` as two hexadecimal digits.
pub fn push_hex_byte(out: &mut String, value: u8)
    ensures
        final(out)@ == old(out)@ + hex_byte(value),
{
    out.push(hex_digit_char(value / 16));
    out.push(hex_digit_char(value % 16));
    assert(out@ =~= old(out)@ + hex_byte(value));
}

/// `value` as four hexadecimal digits.
pub fn hex_word_text(value: u16) -> (out: String)
    ensures
        out@ == hex_word(value),
{
    let mut out = String::new();
    push_hex_byte(&mut out, (value / 256) as u8);
    push_hex_byte(&mut out, (value % 256) as u8);
    assert(out@ =~= hex_word(value));
    out
}

/// `data` as consecutive hexadecimal pairs.
pub fn hex_bytes_text(data: &[u8]) -> (out: String)
    ensures
        out@ == hex_bytes(data@),
{
    let mut out = String::new();
    let mut i: usize = 0;
    assert(data@.take(0) =~= Seq::empty());
    while i < data.len()
        invariant
            i <= data@.len(),
            out@ == hex_bytes(data@.take(i as int)),
        decreases data@.len() - i,
    {
        assert(data@.take(i + 1).drop_last() =~= data@.take(i as int));
        push_hex_byte(&mut out, data[i]);
        i = i + 1;
    }
    assert(data@.take(i as int) =~= data@);
    out
}

/// Appends `data` as a bracketed list of hexadecimal items.
pub fn push_hex_list(out: &mut String, data: &[u8])
    ensures
        final(out)@ == old(out)@ + hex_list(data@),
{
    let ghost start = out@;
    out.push('[');
    let mut i: usize = 0;
    assert(data@.take(0) =~= Seq::empty());
    assert(out@ =~= start + seq!['['] + hex_items(data@.take(0)));
    while i < data.len()
        invariant
            i <= data@.len(),
            out@ == start + seq!['['] + hex_items(data@.take(i as int)),
        decreases data@.len() - i,
    {
        let ghost before = out@;
        assert(data@.take(i + 1).drop_last() =~= data@.take(i as int));
        if i > 0 {
            out.push(',');
            out.push(' ');
            assert(out@ =~= before + seq![',', ' ']);
        }
        push_hex_byte(out, data[i]);
        assert(out@ =~= start + seq!['['] + hex_items(data@.take(i + 1)));
        i = i + 1;
    }
    assert(data@.take(i as int) =~= data@);
    out.push(']');
    assert(out@ =~= start + hex_list(data@));
}

/// The numeric value of an ASCII digit in the given radix, if it is one.
pub open spec fn digit_value(byte: u8, radix: nat) -> Option<nat> {
    let value: int = if 48 <= byte <= 57 {
        byte - 48
    } else if 97 <= byte <= 122 {
        byte - 87
    } else if 65 <= byte <= 90 {
        byte - 55
    } else {
        radix as int
    };
    if value < radix {
        Some(value as nat)
    } else {
        None
    }
}

/// Whether every byte is a digit of the radix.
pub open spec fn all_digits(digits: Seq<u8>, radix: nat) -> bool {
    forall|i: int| 0 <= i < digits.len() ==> digit_value(#[trigger] digits[i], radix) is Some
}

/// The number that a digit string spells.
pub open spec fn digits_value(digits: Seq<u8>, radix: nat) -> nat
    decreases digits.len(),
{
    if digits.len() == 0 {
        0
    } else {
        digits_value(digits.drop_last(), radix) * radix + digit_value(digits.last(), radix)->0
    }
}

/// The digits of an unsigned number once its optional plus sign is gone.
pub open spec fn unsigned_digits(bytes: Seq<u8>) -> Seq<u8> {
    if bytes.len() > 1 && bytes[0] == 43 {
        bytes.drop_first()
    } else {
        bytes
    }
}

/// The unsigned number that a text spells: an optional plus sign, then one or more
/// digits of the radix, with a value of at most `max`.
pub open spec fn parsed_unsigned(bytes: Seq<u8>, radix: nat, max: nat) -> Option<nat> {
    let digits = unsigned_digits(bytes);
    if digits.len() > 0 && all_digits(digits, radix) && digits_value(digits, radix) <= max {
        Some(digits_value(digits, radix))
    } else {
        None
    }
}

/// The value of an ASCII digit in the given radix.
fn digit_of(byte: u8, radix: u32) -> (value: Option<u32>)
    requires
        2 <= radix <= 16,
    ensures
        match value {
            Some(v) => digit_value(byte, radix as nat) == Some(v as nat),
            None => digit_value(byte, radix as nat) is None,
        },
{
    let value: u32 = if 48 <= byte && byte <= 57 {
        (byte - 48) as u32
    } else if 97 <= byte && byte <= 122 {
        (byte - 87) as u32
    } else if 65 <= byte && byte <= 90 {
        (byte - 55) as u32
    } else {
        radix
    };
    if value < radix {
        Some(value)
    } else {
        None
    }
}

/// A longer digit string never spells a smaller number.
proof fn lemma_digits_prefix(digits: Seq<u8>, radix: nat, i: int)
    requires
        0 <= i <= digits.len(),
        radix >= 2,
    ensures
        digits_value(digits.take(i), radix) <= digits_value(digits, radix),
    decreases digits.len() - i,
{
    if i == digits.len() {
        assert(digits.take(i) =~= digits);
    } else {
        lemma_digits_prefix(digits, radix, i + 1);
        let head = digits_value(digits.take(i), radix);
        assert(digits.take(i + 1).drop_last() =~= digits.take(i));
        assert(head * radix >= head) by (nonlinear_arith)
            requires
                radix >= 2,
                head >= 0,
        ;
    }
}

/// Parses an unsigned number in the given radix, of at most `max`.
pub fn parse_unsigned(bytes: &[u8], radix: u32, max: u32) -> (value: Option<u32>)
    requires
        2 <= radix <= 16,
    ensures
        match value {
            Some(v) => parsed_unsigned(bytes@, radix as nat, max as nat) == Some(v as nat),
            None => parsed_unsigned(bytes@, radix as nat, max as nat) is None,
        },
{
    let start: usize = if bytes.len() > 1 && bytes[0] == 43 {
        1
    } else {
        0
    };
    let ghost digits = unsigned_digits(bytes@);
    assert(digits =~= bytes@.skip(start as int));
    if bytes.len() == start {
        return None;
    }
    let mut i: usize = start;
    let mut total: u32 = 0;
    assert(digits.take(0) =~= Seq::empty());
    while i < bytes.len()
        invariant
            2 <= radix <= 16,
            start <= i <= bytes@.len(),
            start < bytes@.len(),
            digits == bytes@.skip(start as int),
            digits == unsigned_digits(bytes@),
            total == digits_value(digits.take(i - start), radix as nat),
            total <= max,
            forall|k: int|
                0 <= k < i - start ==> digit_value(#[trigger] digits[k], radix as nat) is Some,
        decreases bytes@.len() - i,
    {
        assert(bytes@[i as int] == digits[i - start]);
        match digit_of(bytes[i], radix) {
            None => {
                assert(!all_digits(digits, radix as nat));
                return None;
            },
            Some(digit) => {
                proof {
                    assert(digits.take(i - start + 1).drop_last() =~= digits.take(i - start));
                    lemma_digits_prefix(digits, radix as nat, i - start + 1);
                    assert(total as u64 * radix as u64 <= 0xffff_ffff * 16) by (nonlinear_arith)
                        requires
                            total <= 0xffff_ffff,
                            radix <= 16,
                    ;
                }
                let wide: u64 = total as u64 * radix as u64 + digit as u64;
                if wide > max as u64 {
                    return None;
                }
                total = wide as u32;
                i = i + 1;
            },
        }
    }
    assert(digits.take(i - start) =~= digits);
    Some(total)
}

/// Whether two texts are the same.
pub fn same_text(left: &str, right: &str) -> (same: bool)
    ensures
        same == (left@ == right@),
{
    let a = left.as_bytes();
    let b = right.as_bytes();
    let same = same_bytes(a, b);
    proof {
        vstd::utf8::encode_utf8_decode_utf8(left@);
        vstd::utf8::encode_utf8_decode_utf8(right@);
    }
    same
}

/// Whether two byte strings are the same.
pub fn same_bytes(left: &[u8], right: &[u8]) -> (same: bool)
    ensures
        same == (left@ == right@),
{
    if left.len() != right.len() {
        return false;
    }
    let mut i: usize = 0;
    while i < left.len()
        invariant
            left@.len() == right@.len(),
            i <= left@.len(),
            forall|k: int| 0 <= k < i ==> left@[k] == right@[k],
        decreases left@.len() - i,
    {
        if left[i] != right[i] {
            return false;
        }
        i = i + 1;
    }
    assert(left@ =~= right@);
    true
}

/// `first` followed by `second`.
pub fn joined(first: &str, second: &str) -> (out: String)
    ensures
        out@ == first@ + second@,
{
    let mut out = first.to_owned();
    out.append(second);
    out
}

/// Whether a character is white space.
pub open spec fn is_white_space(c: char) -> bool {
    let code = c as u32;
    ||| 0x09 <= code <= 0x0d
    ||| code == 0x20
    ||| code == 0x85
    ||| code == 0xa0
    ||| code == 0x1680
    ||| 0x2000 <= code <= 0x200a
    ||| code == 0x2028
    ||| code == 0x2029
    ||| code == 0x202f
    ||| code == 0x205f
    ||| code == 0x3000
}

/// A text without the white space at its start.
pub open spec fn trimmed_start(text: Seq<char>) -> Seq<char>
    decreases text.len(),
{
    if text.len() > 0 && is_white_space(text[0]) {
        trimmed_start(text.drop_first())
    } else {
        text
    }
}

/// A text without the white space at its end.
pub open spec fn trimmed_end(text: Seq<char>) -> Seq<char>
    decreases text.len(),
{
    if text.len() > 0 && is_white_space(text.last()) {
        trimmed_end(text.drop_last())
    } else {
        text
    }
}

/// A text without the white space at its start and end.
pub open spec fn trimmed(text: Seq<char>) -> Seq<char> {
    trimmed_end(trimmed_start(text))
}

fn white_space(c: char) -> (white: bool)
    ensures
        white == is_white_space(c),
{
    let code = c as u32;
    (0x09 <= code && code <= 0x0d) || code == 0x20 || code == 0x85 || code == 0xa0 || code
        == 0x1680 || (0x2000 <= code && code <= 0x200a) || code == 0x2028 || code == 0x2029
        || code == 0x202f || code == 0x205f || code == 0x3000
}

/// `text` without the white space at its start and end.
pub fn trim(text: &str) -> (out: String)
    ensures
        out@ == trimmed(text@),
{
    let length: usize = text.unicode_len();
    let mut start: usize = 0;
    assert(text@.skip(0) =~= text@);
    while start < length && white_space(text.get_char(start))
        invariant
            length == text@.len(),
            start <= length,
            trimmed_start(text@) == trimmed_start(text@.skip(start as int)),
        ensures
            start <= length,
            start < length ==> !is_white_space(text@[start as int]),
        decreases length - start,
    {
        assert(text@.skip(start as int).drop_first() =~= text@.skip(start + 1));
        start = start + 1;
    }
    let ghost rest = text@.skip(start as int);
    let mut end: usize = length;
    assert(text@.subrange(start as int, end as int) =~= rest);
    while end > start && white_space(text.get_char(end - 1))
        invariant
            length == text@.len(),
            start <= end <= length,
            trimmed_end(rest) == trimmed_end(text@.subrange(start as int, end as int)),
        ensures
            start <= end <= length,
            end > start ==> !is_white_space(text@[end - 1]),
        decreases end,
    {
        assert(text@.subrange(start as int, end as int).drop_last() =~= text@.subrange(
            start as int,
            end - 1,
        ));
        end = end - 1;
    }
    text.substring_char(start, end).to_owned()
}

}
