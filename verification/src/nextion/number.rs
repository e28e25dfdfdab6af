//! Integers on the wire: their widths, their decimal text in commands and
//! their four-byte payload in responses.
//!
//! Narrowing a received number goes through `num_traits`; what is assumed of
//! it is stated on the four `cast_to_*` items.

use super::buffer::CommandBuffer;
use super::error::ComError;
use vstd::prelude::*;

verus! {

/// The integer type an attribute's value is held in.
#[derive(Clone, Copy, Debug, PartialEq, Eq, Structural)]
pub enum IntWidth {
    /// Unsigned, 8 bits.
    U8,
    /// Unsigned, 16 bits.
    U16,
    /// Unsigned, 32 bits.
    U32,
    /// Signed, 32 bits.
    I32,
}

impl IntWidth {
    /// The least value of the width.
    pub open spec fn min(self) -> int {
        match self {
            IntWidth::I32 => -0x8000_0000,
            _ => 0,
        }
    }

    /// The greatest value of the width.
    pub open spec fn max(self) -> int {
        match self {
            IntWidth::U8 => 0xFF,
            IntWidth::U16 => 0xFFFF,
            IntWidth::U32 => 0xFFFF_FFFF,
            IntWidth::I32 => 0x7FFF_FFFF,
        }
    }

    /// Whether `value` can be held at this width.
    pub open spec fn holds(self, value: int) -> bool {
        self.min() <= value <= self.max()
    }

    /// Whether the width has negative values.
    pub open spec fn signed(self) -> bool {
        self == IntWidth::I32
    }

    /// Tells whether the width has negative values.
    pub fn is_signed(self) -> (yes: bool)
        ensures
            yes == self.signed(),
    {
        match self {
            IntWidth::I32 => true,
            _ => false,
        }
    }

    /// Tells whether `value` can be held at this width.
    pub fn fits(self, value: i64) -> (yes: bool)
        ensures
            yes == self.holds(value as int),
    {
        match self {
            IntWidth::U8 => 0 <= value && value <= 0xFF,
            IntWidth::U16 => 0 <= value && value <= 0xFFFF,
            IntWidth::U32 => 0 <= value && value <= 0xFFFF_FFFF,
            IntWidth::I32 => -0x8000_0000 <= value && value <= 0x7FFF_FFFF,
        }
    }
}

/// `num_traits::NumCast::from` for `u8`: the same number if it lies in
/// `0..=255`, nothing otherwise.
#[verifier::external_body]
fn cast_to_u8(value: i64) -> (cast: Option<u8>)
    ensures
        0 <= value <= 0xFF ==> cast == Some(value as u8),
        !(0 <= value <= 0xFF) ==> cast is None,
{
    num_traits::NumCast::from(value)
}

/// `num_traits::NumCast::from` for `u16`: the same number if it lies in
/// `0..=65535`, nothing otherwise.
#[verifier::external_body]
fn cast_to_u16(value: i64) -> (cast: Option<u16>)
    ensures
        0 <= value <= 0xFFFF ==> cast == Some(value as u16),
        !(0 <= value <= 0xFFFF) ==> cast is None,
{
    num_traits::NumCast::from(value)
}

/// `num_traits::NumCast::from` for `u32`: the same number if it lies in
/// `0..=4294967295`, nothing otherwise.
#[verifier::external_body]
fn cast_to_u32(value: i64) -> (cast: Option<u32>)
    ensures
        0 <= value <= 0xFFFF_FFFF ==> cast == Some(value as u32),
        !(0 <= value <= 0xFFFF_FFFF) ==> cast is None,
{
    num_traits::NumCast::from(value)
}

/// `num_traits::NumCast::from` for `i32`: the same number if it lies in
/// `-2147483648..=2147483647`, nothing otherwise.
#[verifier::external_body]
fn cast_to_i32(value: i64) -> (cast: Option<i32>)
    ensures
        -0x8000_0000 <= value <= 0x7FFF_FFFF ==> cast == Some(value as i32),
        !(-0x8000_0000 <= value <= 0x7FFF_FFFF) ==> cast is None,
{
    num_traits::NumCast::from(value)
}

/// Narrows `value` to `width`. The value comes back unchanged if the width
/// holds it; otherwise the call fails with `UnrepresentableValue`.
pub fn narrow(value: i64, width: IntWidth) -> (narrowed: Result<i64, ComError>)
    ensures
        width.holds(value as int) ==> narrowed == Ok::<i64, ComError>(value),
        !width.holds(value as int) ==> narrowed == Err::<i64, ComError>(
            ComError::UnrepresentableValue,
        ),
{
    let kept: Option<i64> = match width {
        IntWidth::U8 => match cast_to_u8(value) {
            Some(v) => Some(v as i64),
            None => None,
        },
        IntWidth::U16 => match cast_to_u16(value) {
            Some(v) => Some(v as i64),
            None => None,
        },
        IntWidth::U32 => match cast_to_u32(value) {
            Some(v) => Some(v as i64),
            None => None,
        },
        IntWidth::I32 => match cast_to_i32(value) {
            Some(v) => Some(v as i64),
            None => None,
        },
    };
    match kept {
        Some(v) => Ok(v),
        None => Err(ComError::UnrepresentableValue),
    }
}

/// The 32-bit number that four payload bytes carry, `b0` least significant:
/// in two's complement if `signed`, without a sign otherwise.
pub open spec fn payload_value(b0: u8, b1: u8, b2: u8, b3: u8, signed: bool) -> int {
    let unsigned = b0 + 0x100 * b1 + 0x1_0000 * b2 + 0x100_0000 * b3;
    if signed && unsigned >= 0x8000_0000 {
        unsigned - 0x1_0000_0000
    } else {
        unsigned
    }
}

/// Byte `index` (0 least significant) of the form that `value` takes in 32
/// bits, which for a negative value is its two's complement.
pub open spec fn payload_byte(value: int, index: nat) -> u8
    recommends
        -0x8000_0000 <= value <= 0xFFFF_FFFF,
        index < 4,
{
    let unsigned = if value < 0 {
        value + 0x1_0000_0000
    } else {
        value
    };
    if index == 0 {
        (unsigned % 0x100) as u8
    } else if index == 1 {
        ((unsigned / 0x100) % 0x100) as u8
    } else if index == 2 {
        ((unsigned / 0x1_0000) % 0x100) as u8
    } else {
        ((unsigned / 0x100_0000) % 0x100) as u8
    }
}

/// Reconstructs the number that four payload bytes carry, read with a sign
/// or without.
pub fn reconstruct(b0: u8, b1: u8, b2: u8, b3: u8, signed: bool) -> (value: i64)
    ensures
        value == payload_value(b0, b1, b2, b3, signed),
{
    let unsigned: i64 = (b0 as i64) + 0x100 * (b1 as i64) + 0x1_0000 * (b2 as i64) + 0x100_0000 * (
    b3 as i64);
    if signed && unsigned >= 0x8000_0000 {
        unsigned - 0x1_0000_0000
    } else {
        unsigned
    }
}

/// Splitting a number into its payload bytes and putting them together
/// again, with the sign of the width that holds it, gives the number back.
pub proof fn lemma_payload_round_trip(value: int, width: IntWidth)
    requires
        width.holds(value),
    ensures
        payload_value(
            payload_byte(value, 0),
            payload_byte(value, 1),
            payload_byte(value, 2),
            payload_byte(value, 3),
            width.signed(),
        ) == value,
{
    let unsigned = if value < 0 {
        value + 0x1_0000_0000
    } else {
        value
    };
    assert(0 <= unsigned < 0x1_0000_0000);
    let q1 = unsigned / 0x100;
    let q2 = q1 / 0x100;
    let q3 = q2 / 0x100;
    assert(q2 == unsigned / 0x1_0000) by {
        vstd::arithmetic::div_mod::lemma_div_denominator(unsigned, 0x100, 0x100);
    }
    assert(q3 == unsigned / 0x100_0000) by {
        vstd::arithmetic::div_mod::lemma_div_denominator(unsigned, 0x1_0000, 0x100);
    }
    assert(unsigned == 0x100 * q1 + unsigned % 0x100);
    assert(q1 == 0x100 * q2 + q1 % 0x100);
    assert(q2 == 0x100 * q3 + q2 % 0x100);
    assert(q3 % 0x100 == q3);
}

/// The ASCII digit zero; the other digits follow it in order.
pub const ZERO: u8 = 0x30;

/// The ASCII minus sign.
pub const MINUS: u8 = 0x2D;

/// The ASCII digit for `d`.
pub open spec fn digit(d: int) -> u8
    recommends
        0 <= d < 10,
{
    (ZERO + d) as u8
}

/// The decimal digits of `n`, most significant first, without leading zeros.
pub open spec fn decimal_digits(n: nat) -> Seq<u8>
    decreases n,
{
    if n < 10 {
        seq![digit(n as int)]
    } else {
        decimal_digits(n / 10).push(digit((n % 10) as int))
    }
}

/// The text of `value` as it stands in a command: its decimal digits, after
/// a minus sign if it is negative.
pub open spec fn decimal_text(value: int) -> Seq<u8> {
    if value < 0 {
        seq![MINUS] + decimal_digits((-value) as nat)
    } else {
        decimal_digits(value as nat)
    }
}

/// Appends the digits of `n`. On failure the text may hold some of them.
fn push_digits(cmd: &mut CommandBuffer, n: u64) -> (done: Result<(), ComError>)
    requires
        old(cmd).wf(),
    ensures
        final(cmd).wf(),
        final(cmd).limit() == old(cmd).limit(),
        old(cmd).text().len() + decimal_digits(n as nat).len() <= old(cmd).limit() ==> done is Ok
            && final(cmd).text() == old(cmd).text() + decimal_digits(n as nat),
        old(cmd).text().len() + decimal_digits(n as nat).len() > old(cmd).limit() ==> done
            == Err::<(), ComError>(ComError::CommandTooLong),
    decreases n,
{
    if n >= 10 {
        push_digits(cmd, n / 10)?;
    }
    let last: u8 = ZERO + (n % 10) as u8;
    let done = cmd.push_byte(last);
    proof {
        if n >= 10 {
            assert(old(cmd).text() + decimal_digits(n as nat) =~= (old(cmd).text()
                + decimal_digits((n / 10) as nat)).push(last));
        } else {
            assert(old(cmd).text() + decimal_digits(n as nat) =~= old(cmd).text().push(last));
        }
    }
    done
}

/// Appends the decimal text of `value`, or fails with `CommandTooLong` if
/// the text would pass its limit. On failure the text may hold a part of it.
pub fn push_decimal(cmd: &mut CommandBuffer, value: i64) -> (done: Result<(), ComError>)
    requires
        old(cmd).wf(),
    ensures
        final(cmd).wf(),
        final(cmd).limit() == old(cmd).limit(),
        old(cmd).text().len() + decimal_text(value as int).len() <= old(cmd).limit() ==> done is Ok
            && final(cmd).text() == old(cmd).text() + decimal_text(value as int),
        old(cmd).text().len() + decimal_text(value as int).len() > old(cmd).limit() ==> done
            == Err::<(), ComError>(ComError::CommandTooLong),
{
    if value < 0 {
        let magnitude: u64 = ((-(value + 1)) as u64) + 1;
        cmd.push_byte(MINUS)?;
        let done = push_digits(cmd, magnitude);
        proof {
            assert(old(cmd).text().push(MINUS) + decimal_digits(magnitude as nat) =~= old(
                cmd,
            ).text() + decimal_text(value as int));
        }
        done
    } else {
        push_digits(cmd, value as u64)
    }
}

/// Counts the bytes of the decimal text of `value`.
pub fn decimal_len(value: i64) -> (len: usize)
    ensures
        len == decimal_text(value as int).len(),
        1 <= len <= 20,
{
    let magnitude: u64 = if value < 0 {
        ((-(value + 1)) as u64) + 1
    } else {
        value as u64
    };
    let mut rest: u64 = magnitude;
    let mut digits: usize = 1;
    proof {
        let one = pow10((digits - 1) as nat);
        assert(one == 1);
        assert(rest * one == rest) by (nonlinear_arith)
            requires
                one == 1,
        ;
    }
    while rest >= 10
        invariant
            1 <= digits <= 19,
            magnitude <= 0x8000_0000_0000_0000,
            decimal_digits(magnitude as nat).len() == decimal_digits(rest as nat).len() + digits
                - 1,
            rest * pow10((digits - 1) as nat) <= magnitude,
        decreases rest,
    {
        proof {
            lemma_pow10_step(digits as nat);
            let low = pow10((digits - 1) as nat);
            if digits == 19 {
                assert(pow10(18) == 1_000_000_000_000_000_000) by {
                    reveal_with_fuel(pow10, 19);
                }
                assert(rest * low >= 10 * low) by (nonlinear_arith)
                    requires
                        rest >= 10,
                        low >= 0,
                ;
            }
            assert((rest / 10) * (10 * low) <= rest * low) by (nonlinear_arith)
                requires
                    rest >= 0,
                    low >= 0,
            ;
        }
        rest = rest / 10;
        digits = digits + 1;
    }
    if value < 0 {
        digits + 1
    } else {
        digits
    }
}

/// Ten to the power of `n`.
pub open spec fn pow10(n: nat) -> nat
    decreases n,
{
    if n == 0 {
        1
    } else {
        10 * pow10((n - 1) as nat)
    }
}

proof fn lemma_pow10_step(n: nat)
    requires
        n >= 1,
    ensures
        pow10(n) == 10 * pow10((n - 1) as nat),
{
}

/// A greater number has no fewer digits.
pub proof fn lemma_digits_grow(a: nat, b: nat)
    requires
        a <= b,
    ensures
        decimal_digits(a).len() <= decimal_digits(b).len(),
    decreases b,
{
    if a >= 10 {
        lemma_digits_grow(a / 10, b / 10);
    }
}

/// Between two numbers, no decimal text is longer than the longer of the
/// texts of the two.
pub proof fn lemma_decimal_text_within(low: int, value: int, high: int)
    requires
        low <= value <= high,
    ensures
        decimal_text(value).len() <= decimal_text(low).len() || decimal_text(value).len()
            <= decimal_text(high).len(),
{
    if value < 0 {
        lemma_digits_grow((-value) as nat, (-low) as nat);
    } else {
        lemma_digits_grow(value as nat, high as nat);
    }
}

} // verus!
