//! Line rates that the hardware can represent.

use vstd::prelude::*;
use vstd::string::*;

use crate::cli::{baud_range_text, MAXIMUM_BAUD, MINIMUM_BAUD};
use crate::error::{error_view, Category, Error, ErrorView};
use crate::text::{decimal, push_decimal};

verus! {

broadcast use vstd::string::group_string_axioms;

/// Whether a line rate is in the supported range.
pub open spec fn baud_in_range(requested: u32) -> bool {
    MINIMUM_BAUD <= requested <= MAXIMUM_BAUD
}

/// The error for a line rate out of range.
pub open spec fn baud_out_of_range() -> ErrorView {
    error_view(Category::Selection, baud_range_text())
}

/// How far one line rate is from another.
pub open spec fn baud_distance(actual: u32, requested: u32) -> int {
    if actual >= requested {
        actual - requested
    } else {
        requested - actual
    }
}

/// Whether a line rate is within two percent of the requested one.
pub open spec fn baud_close(actual: u32, requested: u32) -> bool {
    baud_distance(actual, requested) * 100 <= 2 * requested
}

/// The deviation of a line rate from the requested one, in whole hundredths of a percent.
pub open spec fn baud_deviation(actual: u32, requested: u32) -> int {
    baud_distance(actual, requested) * 10_000 / requested as int
}

/// The error for a line rate that is too far from the requested one.
pub open spec fn baud_inexact(requested: u32, actual: u32) -> ErrorView {
    error_view(
        Category::Validation,
        "requested baud "@ + decimal(requested as nat) + " is represented as "@ + decimal(
            actual as nat,
        ) + ", exceeding 2% error"@,
    )
}

/// A quotient rounded to the nearest integer, halves upwards.
pub open spec fn rounded_quotient(dividend: nat, divisor: nat) -> nat {
    (dividend + divisor / 2) / divisor
}

/// A number moved into a range.
pub open spec fn clamped(value: nat, low: nat, high: nat) -> nat {
    if value < low {
        low
    } else if value > high {
        high
    } else {
        value
    }
}

fn rounded_division(dividend: u64, divisor: u64) -> (quotient: u64)
    requires
        divisor > 0,
        dividend + divisor / 2 <= u64::MAX,
    ensures
        quotient == rounded_quotient(dividend as nat, divisor as nat),
{
    (dividend + divisor / 2) / divisor
}

fn clamp(value: u64, low: u64, high: u64) -> (moved: u64)
    ensures
        moved == clamped(value as nat, low as nat, high as nat),
{
    if value < low {
        low
    } else if value > high {
        high
    } else {
        value
    }
}

fn out_of_range() -> (error: Error)
    ensures
        error.deep_view() == baud_out_of_range(),
{
    Error::Selection("baud rate must be between 9600 and 12000000".to_owned())
}

fn distance_between(actual: u32, requested: u32) -> (distance: u64)
    ensures
        distance == baud_distance(actual, requested),
{
    if actual >= requested {
        (actual - requested) as u64
    } else {
        (requested - actual) as u64
    }
}

fn inexact(requested: u32, actual: u32) -> (error: Error)
    ensures
        error.deep_view() == baud_inexact(requested, actual),
{
    let mut message = "requested baud ".to_owned();
    push_decimal(&mut message, requested as u128);
    message.append(" is represented as ");
    push_decimal(&mut message, actual as u128);
    message.append(", exceeding 2% error");
    Error::Validation(message)
}

/// The clock that the Glasgow UART divides, in hertz.
pub const GLASGOW_CLOCK: u64 = 48_000_000;

/// The Glasgow clock divisor nearest to a line rate.
pub open spec fn glasgow_divisor(requested: u32) -> nat {
    clamped(rounded_quotient(GLASGOW_CLOCK as nat, requested as nat), 1, 0xf_ffff)
}

/// The line rate that a Glasgow clock divisor makes.
pub open spec fn glasgow_rate(divisor: nat) -> nat {
    GLASGOW_CLOCK as nat / divisor
}

/// The Glasgow clock divisor for a line rate, and the rate that it makes. The deviation counts in
/// whole hundredths of a percent.
pub open spec fn glasgow_baud(requested: u32) -> Result<(u32, u32), ErrorView> {
    let divisor = glasgow_divisor(requested) as u32;
    let actual = glasgow_rate(glasgow_divisor(requested)) as u32;
    if !baud_in_range(requested) {
        Err(baud_out_of_range())
    } else if baud_deviation(actual, requested) > 200 {
        Err(baud_inexact(requested, actual))
    } else {
        Ok((divisor, actual))
    }
}

/// The bounds of the Glasgow divisor and rate for a supported line rate.
pub proof fn lemma_glasgow_bounds(requested: u32)
    requires
        baud_in_range(requested),
    ensures
        4 <= rounded_quotient(GLASGOW_CLOCK as nat, requested as nat) <= 5_000,
        glasgow_divisor(requested) == rounded_quotient(GLASGOW_CLOCK as nat, requested as nat),
        0 < glasgow_rate(glasgow_divisor(requested)) <= 12_000_000,
{
    let r = requested as int;
    let d = (48_000_000 + r / 2) / r;
    assert(4 <= d <= 5_000) by (nonlinear_arith)
        requires
            9_600 <= r <= 12_000_000,
            d == (48_000_000 + r / 2) / r,
    ;
    let a = 48_000_000int / d;
    assert(0 < a <= 12_000_000) by (nonlinear_arith)
        requires
            4 <= d <= 5_000,
            a == 48_000_000int / d,
    ;
}

/// Picks the Glasgow clock divisor for a line rate.
pub fn baud_divisor(requested: u32) -> (result: Result<(u32, u32), Error>)
    ensures
        crate::error::result_view(result) == glasgow_baud(requested),
{
    if !(MINIMUM_BAUD <= requested && requested <= MAXIMUM_BAUD) {
        return Err(out_of_range());
    }
    proof {
        lemma_glasgow_bounds(requested);
    }
    let divisor = clamp(rounded_division(GLASGOW_CLOCK, requested as u64), 1, 0xf_ffff) as u32;
    let actual: u32 = (GLASGOW_CLOCK / divisor as u64) as u32;
    if distance_between(actual, requested) * 10_000 / requested as u64 > 200 {
        return Err(inexact(requested, actual));
    }
    Ok((divisor, actual))
}

/// How far a multiple of a line rate is from a clock.
pub open spec fn clock_miss(clock: nat, divisor: nat, requested: u32) -> int {
    let miss = clock - divisor * requested;
    if miss >= 0 {
        miss
    } else {
        -miss
    }
}

/// A rounded quotient is a nearest one.
proof fn lemma_rounding_is_nearest(clock: nat, requested: u32, other: nat)
    requires
        requested > 0,
    ensures
        clock_miss(clock, rounded_quotient(clock, requested as nat), requested) <= clock_miss(
            clock,
            other,
            requested,
        ),
{
    let c = clock as int;
    let r = requested as int;
    let d = rounded_quotient(clock, requested as nat) as int;
    let o = other as int;
    assert(-(r / 2) <= c - d * r <= r - r / 2 - 1) by (nonlinear_arith)
        requires
            r > 0,
            d == (c + r / 2) / r,
    ;
    if o > d {
        assert(o * r >= d * r + r) by (nonlinear_arith)
            requires
                o >= d + 1,
                r > 0,
        ;
    } else if o < d {
        assert(o * r <= d * r - r) by (nonlinear_arith)
            requires
                o <= d - 1,
                r > 0,
        ;
    }
}

/// No divisor makes a multiple of the requested rate come closer to the Glasgow clock.
pub proof fn glasgow_divisor_is_nearest(requested: u32, other: nat)
    requires
        baud_in_range(requested),
    ensures
        clock_miss(GLASGOW_CLOCK as nat, glasgow_divisor(requested), requested) <= clock_miss(
            GLASGOW_CLOCK as nat,
            other,
            requested,
        ),
{
    lemma_glasgow_bounds(requested);
    lemma_rounding_is_nearest(GLASGOW_CLOCK as nat, requested, other);
}

/// How an FT232H divides its clock for a line rate.
#[derive(Clone, Copy, Debug, PartialEq, Eq, Structural)]
pub struct BaudResult {
    /// The divisor in eighths.
    pub divisor_eighths: u32,
    /// The divisor as the device takes it, with the high-speed clock selected.
    pub encoded_divisor: u32,
    /// The line rate that results.
    pub actual: u32,
}

/// The clock that an FT232H divides, in eighths of a hertz.
pub const FTDI_CLOCK_EIGHTHS: u64 = 96_000_000;

/// How an FT232H spells a number of eighths.
pub open spec fn fraction_code(eighths: nat) -> nat {
    if eighths == 0 {
        0
    } else if eighths == 1 {
        3
    } else if eighths == 2 {
        2
    } else if eighths == 3 {
        4
    } else if eighths == 4 {
        1
    } else {
        eighths
    }
}

/// The FT232H divisor for a line rate below the special ones, in eighths.
pub open spec fn ftdi_divisor(requested: u32) -> nat {
    clamped(rounded_quotient(FTDI_CLOCK_EIGHTHS as nat, requested as nat), 16, 0x1_ffff)
}

/// How an FT232H divides its clock for a line rate: three rates have their own codes, and
/// the others a divisor whose eighths stand above its whole part.
pub open spec fn ftdi_division(requested: u32) -> BaudResult {
    if requested >= 12_000_000 {
        BaudResult { divisor_eighths: 8, encoded_divisor: 0x2_0000, actual: 12_000_000 }
    } else if requested >= 8_000_000 {
        BaudResult { divisor_eighths: 12, encoded_divisor: 0x2_0001, actual: 8_000_000 }
    } else if requested >= 6_000_000 {
        BaudResult { divisor_eighths: 16, encoded_divisor: 0x2_0002, actual: 6_000_000 }
    } else {
        let divisor = ftdi_divisor(requested);
        BaudResult {
            divisor_eighths: divisor as u32,
            encoded_divisor: (divisor / 8 + fraction_code(divisor % 8) * 0x4000 + 0x2_0000) as u32,
            actual: rounded_quotient(FTDI_CLOCK_EIGHTHS as nat, divisor) as u32,
        }
    }
}

/// How an FT232H divides its clock for a line rate that it can represent.
pub open spec fn ftdi_baud(requested: u32) -> Result<BaudResult, ErrorView> {
    if !baud_in_range(requested) {
        Err(baud_out_of_range())
    } else if !baud_close(ftdi_division(requested).actual, requested) {
        Err(baud_inexact(requested, ftdi_division(requested).actual))
    } else {
        Ok(ftdi_division(requested))
    }
}

proof fn lemma_ftdi_bounds(requested: u32)
    requires
        MINIMUM_BAUD <= requested < 6_000_000,
    ensures
        16 <= ftdi_divisor(requested) <= 10_000,
        ftdi_divisor(requested) == rounded_quotient(FTDI_CLOCK_EIGHTHS as nat, requested as nat),
        0 < rounded_quotient(FTDI_CLOCK_EIGHTHS as nat, ftdi_divisor(requested)) <= 6_000_000,
{
    let r = requested as int;
    let d = (96_000_000 + r / 2) / r;
    assert(16 <= d <= 10_000) by (nonlinear_arith)
        requires
            9_600 <= r < 6_000_000,
            d == (96_000_000 + r / 2) / r,
    ;
    let a = (96_000_000 + d / 2) / d;
    assert(0 < a <= 6_000_000) by (nonlinear_arith)
        requires
            16 <= d <= 10_000,
            a == (96_000_000 + d / 2) / d,
    ;
}

fn fraction_code_of(eighths: u32) -> (code: u32)
    requires
        eighths < 8,
    ensures
        code == fraction_code(eighths as nat),
        code < 8,
{
    if eighths == 0 {
        0
    } else if eighths == 1 {
        3
    } else if eighths == 2 {
        2
    } else if eighths == 3 {
        4
    } else if eighths == 4 {
        1
    } else {
        eighths
    }
}

/// Picks the FT232H clock divisor for a line rate.
pub fn ftdi_high_speed_baud(requested: u32) -> (result: Result<BaudResult, Error>)
    ensures
        crate::error::result_view(result) == ftdi_baud(requested),
{
    if !(MINIMUM_BAUD <= requested && requested <= MAXIMUM_BAUD) {
        return Err(out_of_range());
    }
    let baud = if requested >= 12_000_000 {
        BaudResult { divisor_eighths: 8, encoded_divisor: 0x2_0000, actual: 12_000_000 }
    } else if requested >= 8_000_000 {
        BaudResult { divisor_eighths: 12, encoded_divisor: 0x2_0001, actual: 8_000_000 }
    } else if requested >= 6_000_000 {
        BaudResult { divisor_eighths: 16, encoded_divisor: 0x2_0002, actual: 6_000_000 }
    } else {
        proof {
            lemma_ftdi_bounds(requested);
        }
        let divisor = clamp(
            rounded_division(FTDI_CLOCK_EIGHTHS, requested as u64),
            16,
            0x1_ffff,
        ) as u32;
        let actual = rounded_division(FTDI_CLOCK_EIGHTHS, divisor as u64) as u32;
        let whole: u32 = divisor >> 3;
        let eighths: u32 = divisor & 7;
        assert(divisor >> 3 == divisor / 8) by (bit_vector);
        assert(divisor & 7 == divisor % 8) by (bit_vector);
        let code = fraction_code_of(eighths);
        assert((whole | (code << 14)) | 0x2_0000 == whole + code * 0x4000 + 0x2_0000)
            by (bit_vector)
            requires
                whole < 0x4000,
                code < 8,
        ;
        BaudResult {
            divisor_eighths: divisor,
            encoded_divisor: (whole | (code << 14)) | 0x2_0000,
            actual,
        }
    };
    if distance_between(baud.actual, requested) * 100 > 2 * requested as u64 {
        return Err(inexact(requested, baud.actual));
    }
    Ok(baud)
}

/// No divisor makes a multiple of the requested rate come closer to the FT232H clock, for every
/// rate below the ones with their own codes.
pub proof fn ftdi_divisor_is_nearest(requested: u32, other: nat)
    requires
        MINIMUM_BAUD <= requested < 6_000_000,
    ensures
        clock_miss(FTDI_CLOCK_EIGHTHS as nat, ftdi_divisor(requested), requested) <= clock_miss(
            FTDI_CLOCK_EIGHTHS as nat,
            other,
            requested,
        ),
{
    lemma_ftdi_bounds(requested);
    lemma_rounding_is_nearest(FTDI_CLOCK_EIGHTHS as nat, requested, other);
}

/// Every line rate that is accepted is made to within two percent: exactly so by the FT232H, and
/// to the hundredth of a percent by the Glasgow. A supported rate is refused only where the
/// hardware would miss it by more.
pub proof fn accepted_rates_are_close(requested: u32)
    ensures
        glasgow_baud(requested) matches Ok((_, actual)) ==> baud_distance(actual, requested)
            * 10_000 < 201 * requested,
        ftdi_baud(requested) matches Ok(baud) ==> baud_distance(baud.actual, requested) * 100 <= 2
            * requested,
        baud_in_range(requested) && glasgow_baud(requested) is Err ==> baud_distance(
            glasgow_rate(glasgow_divisor(requested)) as u32,
            requested,
        ) * 10_000 >= 201 * requested,
        baud_in_range(requested) && ftdi_baud(requested) is Err ==> baud_distance(
            ftdi_division(requested).actual,
            requested,
        ) * 100 > 2 * requested,
{
    if baud_in_range(requested) {
        let actual = glasgow_rate(glasgow_divisor(requested)) as u32;
        let scaled = baud_distance(actual, requested) * 10_000;
        let r = requested as int;
        assert(scaled / r <= 200 <==> scaled < 201 * r) by (nonlinear_arith)
            requires
                r > 0,
        ;
    }
}

/// The FT232H always divides its high-speed clock.
pub proof fn ftdi_uses_the_high_speed_clock(requested: u32)
    ensures
        ftdi_baud(requested) matches Ok(baud) ==> 0x2_0000 <= baud.encoded_divisor < 0x4_0000,
{
    if MINIMUM_BAUD <= requested < 6_000_000 {
        lemma_ftdi_bounds(requested);
    }
}

/// Whether `quotient` is a dividend over a divisor, rounded to the nearest integer with halves
/// upwards.
pub open spec fn rounds_to(dividend: int, divisor: int, quotient: int) -> bool {
    (2 * quotient - 1) * divisor <= 2 * dividend < (2 * quotient + 1) * divisor
}

/// There is one rounded quotient.
proof fn lemma_rounds_to(dividend: nat, divisor: nat, quotient: int)
    requires
        divisor > 0,
    ensures
        rounds_to(dividend as int, divisor as int, quotient) <==> quotient == rounded_quotient(
            dividend,
            divisor,
        ),
{
    let n = dividend as int;
    let r = divisor as int;
    let q = quotient;
    let d = (n + r / 2) / r;
    assert((2 * d - 1) * r <= 2 * n < (2 * d + 1) * r) by (nonlinear_arith)
        requires
            r > 0,
            d == (n + r / 2) / r,
    ;
    if q > d {
        assert((2 * q - 1) * r >= (2 * d + 1) * r) by (nonlinear_arith)
            requires
                q >= d + 1,
                r > 0,
        ;
    } else if q < d {
        assert((2 * q + 1) * r <= (2 * d - 1) * r) by (nonlinear_arith)
            requires
                q <= d - 1,
                r > 0,
        ;
    }
}

/// Both kinds of hardware refuse exactly the line rates outside 9600 to 12000000 as out of
/// range.
pub proof fn supported_rates_are_a_range(requested: u32)
    ensures
        requested < 9_600 || requested > 12_000_000 ==> glasgow_baud(requested) == Err::<
            (u32, u32),
            ErrorView,
        >(baud_out_of_range()) && ftdi_baud(requested) == Err::<BaudResult, ErrorView>(
            baud_out_of_range(),
        ),
        9_600 <= requested <= 12_000_000 ==> {
            &&& glasgow_baud(requested) matches Err(error) ==> error.category
                == Category::Validation
            &&& ftdi_baud(requested) matches Err(error) ==> error.category == Category::Validation
        },
        baud_out_of_range().category == Category::Selection,
{
}

/// The Glasgow division is the one division there is: with `divisor` the rounded quotient of the
/// 48 MHz clock and the requested rate, and `actual` the whole hertz that it makes, the rate is
/// accepted exactly where `actual` misses it by less than 2.01 percent, and these two are the
/// answer.
pub proof fn glasgow_rates_are_complete(requested: u32, divisor: int, actual: int)
    requires
        9_600 <= requested <= 12_000_000,
        rounds_to(48_000_000, requested as int, divisor),
        divisor * actual <= 48_000_000 < divisor * (actual + 1),
    ensures
        -201 * requested < (actual - requested) * 10_000 < 201 * requested <==> glasgow_baud(
            requested,
        ) is Ok,
        glasgow_baud(requested) matches Ok((d, a)) ==> d == divisor && a == actual,
{
    lemma_rounds_to(48_000_000, requested as nat, divisor);
    lemma_glasgow_bounds(requested);
    let rate = 48_000_000int / divisor;
    assert(rate == actual) by (nonlinear_arith)
        requires
            divisor > 0,
            divisor * actual <= 48_000_000 < divisor * (actual + 1),
            rate == 48_000_000int / divisor,
    ;
    let scaled = baud_distance(actual as u32, requested) * 10_000;
    let r = requested as int;
    assert(scaled / r <= 200 <==> scaled < 201 * r) by (nonlinear_arith)
        requires
            r > 0,
    ;
}

/// The FT232H division is the one division there is. Below 6 Mbaud, with `divisor` the rounded
/// quotient of 96 million and the requested rate, and `actual` the rounded quotient of 96 million
/// and `divisor`, the rate is accepted exactly where `actual` is within two percent of it, and
/// these two are the answer.
pub proof fn ftdi_rates_are_complete(requested: u32, divisor: int, actual: int)
    requires
        9_600 <= requested < 6_000_000,
        rounds_to(96_000_000, requested as int, divisor),
        rounds_to(96_000_000, divisor, actual),
    ensures
        -2 * requested <= (actual - requested) * 100 <= 2 * requested <==> ftdi_baud(requested)
            is Ok,
        ftdi_baud(requested) matches Ok(baud) ==> baud.divisor_eighths == divisor && baud.actual
            == actual,
{
    lemma_rounds_to(96_000_000, requested as nat, divisor);
    lemma_ftdi_bounds(requested);
    lemma_rounds_to(96_000_000, divisor as nat, actual);
}

/// From 6 Mbaud on, the FT232H makes 6, 8 and 12 Mbaud only, and takes the one at or below the
/// requested rate if it is within two percent of it.
pub proof fn ftdi_top_rates_are_complete(requested: u32, actual: u32)
    requires
        6_000_000 <= requested <= 12_000_000,
        actual == 6_000_000 && requested < 8_000_000 || actual == 8_000_000 && 8_000_000
            <= requested < 12_000_000 || actual == 12_000_000 && requested == 12_000_000,
    ensures
        (requested - actual) * 100 <= 2 * requested <==> ftdi_baud(requested) is Ok,
        ftdi_baud(requested) matches Ok(baud) ==> baud.actual == actual,
{
}

/// The eighths that a fraction code of an FT232H stands for.
pub open spec fn code_eighths(code: int) -> int {
    if code == 1 {
        4
    } else if code == 3 {
        1
    } else if code == 4 {
        3
    } else {
        code
    }
}

/// The divisor, in eighths, that an FT232H reads from what it is sent: the codes zero and one
/// stand for one and for one and a half, and all others for a whole part in fourteen bits and a
/// fraction code in the three bits above.
pub open spec fn decoded_divisor(encoded: int) -> int {
    let divisor = encoded % 0x2_0000;
    if divisor == 0 {
        8
    } else if divisor == 1 {
        12
    } else {
        8 * (divisor % 0x4000) + code_eighths(divisor / 0x4000)
    }
}

/// The device makes the rate that is reported: what an FT232H reads from the encoded divisor is
/// the divisor in eighths, with the high-speed clock selected, and 96 million over that divisor is
/// the reported rate to the nearest hertz. So the rate on the line is, to half a hertz, within two
/// percent of the requested one.
pub proof fn encoded_divisors_make_the_reported_rate(requested: u32)
    ensures
        ftdi_baud(requested) matches Ok(baud) ==> {
            let divisor = decoded_divisor(baud.encoded_divisor as int);
            &&& divisor == baud.divisor_eighths
            &&& divisor > 0
            &&& baud.encoded_divisor / 0x2_0000 == 1
            &&& rounds_to(96_000_000, divisor, baud.actual as int)
            &&& -(2 * requested + 50) * divisor <= (96_000_000 - divisor * requested) * 100 <= (2
                * requested + 50) * divisor
        },
{
    if ftdi_baud(requested) is Ok {
        let baud = ftdi_baud(requested)->Ok_0;
        let divisor = baud.divisor_eighths as int;
        if requested < 6_000_000 {
            lemma_ftdi_bounds(requested);
            lemma_rounds_to(96_000_000, ftdi_divisor(requested), baud.actual as int);
            let whole = divisor / 8;
            let code = fraction_code((divisor % 8) as nat) as int;
            assert(code_eighths(code) == divisor % 8);
            assert(baud.encoded_divisor == whole + code * 0x4000 + 0x2_0000);
        } else {
            assert(rounded_quotient(96_000_000, 8) == 12_000_000);
            assert(rounded_quotient(96_000_000, 12) == 8_000_000);
            assert(rounded_quotient(96_000_000, 16) == 6_000_000);
            lemma_rounds_to(96_000_000, divisor as nat, baud.actual as int);
        }
        assert(rounds_to(96_000_000, divisor, baud.actual as int));
        let a = baud.actual as int;
        let r = requested as int;
        assert(-(2 * r + 50) * divisor <= (96_000_000 - divisor * r) * 100 <= (2 * r + 50)
            * divisor) by (nonlinear_arith)
            requires
                divisor > 0,
                (2 * a - 1) * divisor <= 2 * 96_000_000 < (2 * a + 1) * divisor,
                -2 * r <= (a - r) * 100 <= 2 * r,
        ;
    }
}

}
