//! What texts spell, and what is read from them.

use vstd::prelude::*;
use vstd::utf8::{encode_utf8, is_ascii_chars, is_ascii_chars_encode_utf8};

use crate::cli::{
    device_options_check, parsed_baud, split_duration_text, C232Backend, DurationUnit,
};
use crate::error::Category;
use crate::text::{
    all_digits, decimal, digit_value, digits_value, hex_byte, hex_bytes, hex_word, is_white_space,
    parsed_unsigned, trimmed, trimmed_end, trimmed_start, unsigned_digits,
};
use crate::uart::c232::vcp::{attribute, directory_metadata, identifier, Attributes};

verus! {

/// The decimal digits of a number are digits, and spell it.
proof fn lemma_decimal(value: nat)
    ensures
        decimal(value).len() > 0,
        is_ascii_chars(decimal(value)),
        forall|i: int|
            0 <= i < decimal(value).len() ==> 48 <= (#[trigger] decimal(value)[i]) as int <= 57,
        encode_utf8(decimal(value)).len() == decimal(value).len(),
        all_digits(encode_utf8(decimal(value)), 10),
        digits_value(encode_utf8(decimal(value)), 10) == value,
    decreases value,
{
    let text = decimal(value);
    let bytes = encode_utf8(text);
    if value >= 10 {
        lemma_decimal(value / 10);
        let front = decimal(value / 10);
        assert(text == front.push((48 + value % 10) as char));
        assert forall|i: int| 0 <= i < text.len() implies 48 <= (#[trigger] text[i]) as int <= 57 by {
            if i < front.len() {
                assert(text[i] == front[i]);
            }
        }
        is_ascii_chars_encode_utf8(text);
        is_ascii_chars_encode_utf8(front);
        assert(bytes.drop_last() =~= encode_utf8(front)) by {
            assert forall|i: int| 0 <= i < front.len() implies bytes[i] == encode_utf8(front)[i] by {
                assert(text[i] == front[i]);
            }
        }
        assert(bytes.last() == text.last() as u8);
        assert forall|i: int| 0 <= i < bytes.len() implies digit_value(#[trigger] bytes[i], 10)
            is Some by {
            assert(bytes[i] == text[i] as u8);
        }
    } else {
        is_ascii_chars_encode_utf8(text);
        assert(bytes[0] == text[0] as u8);
        assert(bytes.drop_last() =~= Seq::empty());
        assert(digits_value(bytes.drop_last(), 10) == 0);
    }
}

/// Decimal numbers read back: the digits of a number, with a plus sign before them or without,
/// are read as that number, as far as it may go.
pub proof fn numbers_read_back(value: nat, max: nat)
    ensures
        value <= max ==> parsed_unsigned(encode_utf8(decimal(value)), 10, max) == Some(value),
        value > max ==> parsed_unsigned(encode_utf8(decimal(value)), 10, max) is None,
        value <= max ==> parsed_unsigned(
            seq![0x2bu8] + encode_utf8(decimal(value)),
            10,
            max,
        ) == Some(value),
{
    lemma_decimal(value);
    let bytes = encode_utf8(decimal(value));
    is_ascii_chars_encode_utf8(decimal(value));
    assert(bytes[0] == decimal(value)[0] as u8);
    assert(unsigned_digits(bytes) == bytes);
    assert((seq![0x2bu8] + bytes).drop_first() =~= bytes);
}

/// Only numbers are read: a text with anything in it but digits, a plus sign at its start aside,
/// is none, and neither is one without digits.
pub proof fn only_digits_are_read(bytes: Seq<u8>, max: nat, at: int)
    requires
        0 <= at < bytes.len(),
        bytes[at] < 0x30 || bytes[at] > 0x39,
        at > 0 || bytes[at] != 0x2b || bytes.len() == 1,
    ensures
        parsed_unsigned(bytes, 10, max) is None,
        parsed_unsigned(Seq::empty(), 10, max) is None,
{
    let digits = unsigned_digits(bytes);
    let shift: int = bytes.len() - digits.len();
    assert(digits[at - shift] == bytes[at]);
    assert(digit_value(digits[at - shift], 10) is None);
}

/// Identifiers read back: the four hexadecimal digits of an identifier are read as it.
pub proof fn identifiers_read_back(value: u16)
    ensures
        parsed_unsigned(encode_utf8(hex_word(value)), 16, 0xffff) == Some(value as nat),
{
    let text = hex_word(value);
    let (high, low) = ((value / 256) as u8, (value % 256) as u8);
    bytes_are_spelled_in_lower_case(high);
    bytes_are_spelled_in_lower_case(low);
    assert(text == hex_byte(high) + hex_byte(low));
    assert(text[0] == hex_byte(high)[0] && text[1] == hex_byte(high)[1]);
    assert(text[2] == hex_byte(low)[0] && text[3] == hex_byte(low)[1]);
    assert(is_ascii_chars(text));
    is_ascii_chars_encode_utf8(text);
    let bytes = encode_utf8(text);
    assert(bytes[0] == text[0] as u8 && bytes[1] == text[1] as u8);
    assert(bytes[2] == text[2] as u8 && bytes[3] == text[3] as u8);
    lemma_four_digits(
        bytes,
        (high as int / 16) as nat,
        (high as int % 16) as nat,
        (low as int / 16) as nat,
        (low as int % 16) as nat,
    );
    assert(bytes[0] != 0x2b);
}

proof fn lemma_four_digits(bytes: Seq<u8>, a: nat, b: nat, c: nat, d: nat)
    requires
        bytes.len() == 4,
        digit_value(bytes[0], 16) == Some(a),
        digit_value(bytes[1], 16) == Some(b),
        digit_value(bytes[2], 16) == Some(c),
        digit_value(bytes[3], 16) == Some(d),
    ensures
        all_digits(bytes, 16),
        digits_value(bytes, 16) == ((a * 16 + b) * 16 + c) * 16 + d,
{
    let three = bytes.drop_last();
    let two = three.drop_last();
    let one = two.drop_last();
    assert(digits_value(one.drop_last(), 16) == 0);
    assert(digits_value(one, 16) == a);
    assert(digits_value(two, 16) == a * 16 + b);
    assert(digits_value(three, 16) == (a * 16 + b) * 16 + c);
}

/// A line rate is accepted exactly where it is in the supported range, and is then the one that
/// was written.
pub proof fn rates_are_read(rate: nat)
    requires
        rate <= u32::MAX,
    ensures
        9_600 <= rate <= 12_000_000 ==> parsed_baud(decimal(rate)) == Ok::<u32, Seq<char>>(
            rate as u32,
        ),
        rate < 9_600 || rate > 12_000_000 ==> parsed_baud(decimal(rate)) is Err,
{
    numbers_read_back(rate, u32::MAX as nat);
}

/// Whether all of a text is white space.
pub open spec fn blank(text: Seq<char>) -> bool {
    forall|i: int| 0 <= i < text.len() ==> is_white_space(#[trigger] text[i])
}

/// Trimming takes white space and nothing else, and takes all of it from both ends: the text is
/// what is left with blanks around it, and what is left neither starts nor ends with one.
pub proof fn trimming_takes_the_blanks(text: Seq<char>)
    ensures
        exists|before: Seq<char>, after: Seq<char>|
            #![trigger before + trimmed(text) + after]
            text == before + trimmed(text) + after && blank(before) && blank(after),
        trimmed(text).len() > 0 ==> !is_white_space(trimmed(text)[0]) && !is_white_space(
            trimmed(text).last(),
        ),
{
    let start = trimmed_start(text);
    let left = trimmed(text);
    let before = lemma_trimmed_start(text);
    let after = lemma_trimmed_end(start);
    assert(text =~= before + left + after);
    if left.len() > 0 {
        assert(start[0] == left[0]);
    }
}

proof fn lemma_trimmed_start(text: Seq<char>) -> (before: Seq<char>)
    ensures
        text == before + trimmed_start(text),
        blank(before),
        trimmed_start(text).len() > 0 ==> !is_white_space(trimmed_start(text)[0]),
    decreases text.len(),
{
    if text.len() > 0 && is_white_space(text[0]) {
        let rest = lemma_trimmed_start(text.drop_first());
        let before = seq![text[0]] + rest;
        assert(text =~= seq![text[0]] + text.drop_first());
        assert(text =~= before + trimmed_start(text)) by {
            assert(seq![text[0]] + (rest + trimmed_start(text)) =~= before + trimmed_start(text));
        }
        before
    } else {
        assert(text =~= Seq::<char>::empty() + text);
        Seq::empty()
    }
}

proof fn lemma_trimmed_end(text: Seq<char>) -> (after: Seq<char>)
    ensures
        text == trimmed_end(text) + after,
        blank(after),
        trimmed_end(text).len() > 0 ==> !is_white_space(trimmed_end(text).last()),
    decreases text.len(),
{
    if text.len() > 0 && is_white_space(text.last()) {
        let rest = lemma_trimmed_end(text.drop_last());
        let after = rest.push(text.last());
        assert(text =~= text.drop_last().push(text.last()));
        assert(text =~= trimmed_end(text) + after) by {
            assert((trimmed_end(text) + rest).push(text.last()) =~= trimmed_end(text) + after);
        }
        after
    } else {
        assert(text =~= text + Seq::<char>::empty());
        Seq::empty()
    }
}

/// A duration is its number and its unit: milliseconds behind "ms", seconds behind any other "s",
/// and nothing without one.
pub proof fn durations_are_split(number: Seq<char>, text: Seq<char>)
    ensures
        split_duration_text(number + seq!['m', 's']) == Some((number, DurationUnit::Milliseconds)),
        number.len() == 0 || number.last() != 'm' ==> split_duration_text(number + seq!['s'])
            == Some((number, DurationUnit::Seconds)),
        text.len() == 0 || text.last() != 's' ==> split_duration_text(text) is None,
{
    reveal_strlit("ms");
    reveal_strlit("s");
    let ms = number + seq!['m', 's'];
    assert(ms.skip(ms.len() - 2) =~= "ms"@);
    assert(ms.take(ms.len() - 2) =~= number);
    let s = number + seq!['s'];
    assert(s.skip(s.len() - 1) =~= "s"@);
    assert(s.take(s.len() - 1) =~= number);
    if number.len() == 0 || number.last() != 'm' {
        if s.len() >= 2 {
            assert(s.skip(s.len() - 2)[0] == number.last());
            assert("ms"@[0] == 'm');
        }
    }
    if text.len() > 0 && text.last() != 's' {
        assert(text.skip(text.len() - 1)[0] == text.last());
        assert("s"@[0] == 's' && "ms"@[1] == 's');
        if text.len() >= 2 {
            assert(text.skip(text.len() - 2)[1] == text.last());
        }
    }
}

/// What stands between blanks is what trimming leaves of it.
pub proof fn blanks_do_not_matter(before: Seq<char>, text: Seq<char>, after: Seq<char>)
    requires
        blank(before),
        blank(after),
        text.len() > 0,
        !is_white_space(text[0]),
        !is_white_space(text.last()),
    ensures
        trimmed(before + text + after) == text,
        trimmed(before) == Seq::<char>::empty(),
{
    lemma_skipped_start(before, text + after);
    assert(before + (text + after) =~= before + text + after);
    assert((text + after)[0] == text[0]);
    lemma_skipped_end(text, after);
    lemma_skipped_start(before, Seq::empty());
    assert(before + Seq::<char>::empty() =~= before);
}

proof fn lemma_skipped_start(before: Seq<char>, text: Seq<char>)
    requires
        blank(before),
        text.len() > 0 ==> !is_white_space(text[0]),
    ensures
        trimmed_start(before + text) == text,
    decreases before.len(),
{
    let whole = before + text;
    if before.len() == 0 {
        assert(whole =~= text);
    } else {
        let rest = before.drop_first();
        assert(whole[0] == before[0]);
        assert forall|i: int| 0 <= i < rest.len() implies is_white_space(#[trigger] rest[i]) by {
            assert(rest[i] == before[i + 1]);
        }
        lemma_skipped_start(rest, text);
        assert(whole.drop_first() =~= rest + text);
    }
}

proof fn lemma_skipped_end(text: Seq<char>, after: Seq<char>)
    requires
        blank(after),
        text.len() > 0 ==> !is_white_space(text.last()),
    ensures
        trimmed_end(text + after) == text,
    decreases after.len(),
{
    let whole = text + after;
    if after.len() == 0 {
        assert(whole =~= text);
    } else {
        let rest = after.drop_last();
        assert(whole.last() == after.last());
        assert(after.last() == after[after.len() - 1]);
        assert forall|i: int| 0 <= i < rest.len() implies is_white_space(#[trigger] rest[i]) by {
            assert(rest[i] == after[i]);
        }
        lemma_skipped_end(text, rest);
        assert(whole.drop_last() =~= text + rest);
    }
}

/// The identifiers of the device tree are read, blanks and line ends around them or not; an empty
/// file and a missing one say nothing.
pub proof fn attributes_are_read(value: u16, before: Seq<char>, after: Seq<char>)
    requires
        blank(before),
        blank(after),
    ensures
        identifier(attribute(Some(before + hex_word(value) + after))) == Some(value),
        attribute(Some(before)) is None,
        attribute(None) is None,
        identifier(None) is None,
{
    let text = hex_word(value);
    assert(text.len() == 4);
    assert(!is_white_space(text[0]) && !is_white_space(text[3]));
    blanks_do_not_matter(before, text, after);
    identifiers_read_back(value);
}

/// A directory of the device tree describes a USB device where it has one of its two identifiers,
/// and then says what its files say.
pub proof fn directories_describe_devices(attributes: Attributes)
    ensures
        ({
            let vid = identifier(attribute(attributes.id_vendor.deep_view()));
            let pid = identifier(attribute(attributes.id_product.deep_view()));
            let found = directory_metadata(attributes);
            &&& found is None <==> vid is None && pid is None
            &&& found matches Some(device) ==> {
                &&& device.vid == vid
                &&& device.pid == pid
                &&& device.serial == attribute(attributes.serial.deep_view())
                &&& device.product == attribute(attributes.product.deep_view())
            }
        }),
{
}

/// A path to a serial port is refused beside direct USB access, and nothing else is.
pub proof fn paths_belong_to_serial_ports(backend: C232Backend, has_port: bool)
    ensures
        device_options_check(backend, has_port) is Err <==> backend is Usb && has_port,
        device_options_check(backend, has_port) matches Err(error) ==> error.category
            == Category::Selection,
{
}

/// A byte is spelled by two hexadecimal digits in lower case, the high one first.
pub proof fn bytes_are_spelled_in_lower_case(value: u8)
    ensures
        hex_byte(value).len() == 2,
        forall|i: int|
            0 <= i < 2 ==> '0' <= (#[trigger] hex_byte(value)[i]) <= '9' || 'a' <= hex_byte(
                value,
            )[i] <= 'f',
        digit_value(hex_byte(value)[0] as u8, 16) == Some((value as int / 16) as nat),
        digit_value(hex_byte(value)[1] as u8, 16) == Some((value as int % 16) as nat),
{
}

/// A word is spelled by its high byte and then its low one, and bytes one after the other.
pub proof fn words_and_lists_are_spelled_in_order(value: u16, first: Seq<u8>, second: Seq<u8>)
    ensures
        hex_word(value) == hex_byte((value as int / 256) as u8) + hex_byte(
            (value as int % 256) as u8,
        ),
        hex_bytes(first + second) == hex_bytes(first) + hex_bytes(second),
        hex_bytes(first).len() == 2 * first.len(),
        forall|i: int|
            0 <= i < first.len() ==> hex_bytes(first).subrange(2 * i, 2 * i + 2) == hex_byte(
                #[trigger] first[i],
            ),
{
    lemma_hex_bytes(first, second);
    assert forall|i: int| 0 <= i < first.len() implies hex_bytes(first).subrange(2 * i, 2 * i + 2)
        == hex_byte(#[trigger] first[i]) by {
        let one = seq![first[i]];
        let before = first.take(i);
        let after = first.skip(i + 1);
        assert(first =~= before + (one + after));
        lemma_hex_bytes(before, one + after);
        lemma_hex_bytes(one, after);
        lemma_hex_bytes(before, Seq::empty());
        assert(one.drop_last() =~= Seq::empty());
        assert(hex_bytes(one.drop_last()) =~= Seq::empty());
        assert(hex_bytes(one) =~= hex_byte(first[i]));
        assert(hex_bytes(first).subrange(2 * i, 2 * i + 2) =~= hex_byte(first[i]));
    }
}

proof fn lemma_hex_bytes(first: Seq<u8>, second: Seq<u8>)
    ensures
        hex_bytes(first + second) == hex_bytes(first) + hex_bytes(second),
        hex_bytes(first).len() == 2 * first.len(),
    decreases first.len() + second.len(),
{
    if second.len() == 0 {
        assert(first + second =~= first);
        assert(hex_bytes(first) + hex_bytes(second) =~= hex_bytes(first));
        if first.len() > 0 {
            lemma_hex_bytes(first.drop_last(), Seq::empty());
        }
    } else {
        lemma_hex_bytes(first, second.drop_last());
        assert((first + second).drop_last() =~= first + second.drop_last());
        assert(hex_bytes(first + second) =~= hex_bytes(first) + hex_bytes(second));
    }
}

/// The blanks of ASCII are the space and the five controls from tab to carriage return; the others
/// are those that Unicode counts as white space.
pub proof fn blanks_are_white_space(c: char)
    ensures
        c as int <= 0x7f ==> (is_white_space(c) <==> c == ' ' || '\t' <= c <= '\r'),
        is_white_space('\u{85}') && is_white_space('\u{a0}') && is_white_space('\u{1680}'),
        '\u{2000}' <= c <= '\u{200a}' ==> is_white_space(c),
        is_white_space('\u{2028}') && is_white_space('\u{2029}') && is_white_space('\u{202f}'),
        is_white_space('\u{205f}') && is_white_space('\u{3000}'),
        is_white_space(c) ==> c as int <= 0xa0 || c == '\u{1680}' || '\u{2000}' <= c <= '\u{205f}'
            || c == '\u{3000}',
        is_white_space(c) && 0x7f < c as int <= 0xa0 ==> c == '\u{85}' || c == '\u{a0}',
        is_white_space(c) && '\u{200b}' <= c <= '\u{2fff}' ==> c == '\u{2028}' || c == '\u{2029}'
            || c == '\u{202f}' || c == '\u{205f}',
{
}

}
