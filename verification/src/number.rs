//! Decoding of number lexemes: an optional sign, then digits of the radix.

use vstd::prelude::*;
use crate::error::NumError;

verus! {

/// The value of `c` as a digit of `radix` (10 or 16), if it is one.
pub open spec fn digit_value(c: char, radix: int) -> Option<nat> {
    if '0' <= c <= '9' {
        Some((c as int - '0' as int) as nat)
    } else if radix == 16 && 'a' <= c <= 'f' {
        Some((c as int - 'a' as int + 10) as nat)
    } else if radix == 16 && 'A' <= c <= 'F' {
        Some((c as int - 'A' as int + 10) as nat)
    } else {
        None
    }
}

/// Every character of `s` is a digit of `radix`.
pub open spec fn all_digits(s: Seq<char>, radix: int) -> bool {
    forall|i: int| 0 <= i < s.len() ==> (#[trigger] digit_value(s[i], radix)) is Some
}

/// The number that the digits of `s` stand for, most significant first. A
/// character that is no digit counts as zero.
pub open spec fn digits_value(s: Seq<char>, radix: int) -> nat
    decreases s.len(),
{
    if s.len() == 0 {
        0
    } else {
        let low = match digit_value(s.last(), radix) {
            Some(d) => d,
            None => 0,
        };
        (digits_value(s.drop_last(), radix) * radix + low) as nat
    }
}

/// What `s` decodes to as a run of digits that must not exceed `limit`.
pub open spec fn decode_digits(s: Seq<char>, radix: int, limit: int) -> Result<nat, NumError> {
    if s.len() == 0 || !all_digits(s, radix) {
        Err(NumError::InvalidDigit)
    } else if digits_value(s, radix) > limit {
        Err(NumError::TooLarge)
    } else {
        Ok(digits_value(s, radix))
    }
}

/// What `s` decodes to as an unsigned number of `radix` up to `max`: an
/// optional `+`, then at least one digit.
pub open spec fn decode_unsigned(s: Seq<char>, radix: int, max: int) -> Result<int, NumError> {
    if s.len() == 0 {
        Err(NumError::Empty)
    } else {
        let digits = if s[0] == '+' { s.skip(1) } else { s };
        match decode_digits(digits, radix, max) {
            Ok(v) => Ok(v as int),
            Err(e) => Err(e),
        }
    }
}

/// What `s` decodes to as a signed number of `radix` within `-below` to
/// `above`: an optional `+` or `-`, then at least one digit.
pub open spec fn decode_signed(s: Seq<char>, radix: int, below: int, above: int) -> Result<
    int,
    NumError,
> {
    if s.len() == 0 {
        Err(NumError::Empty)
    } else if s[0] == '-' {
        match decode_digits(s.skip(1), radix, below) {
            Ok(v) => Ok(-(v as int)),
            Err(NumError::TooLarge) => Err(NumError::TooSmall),
            Err(e) => Err(e),
        }
    } else {
        decode_unsigned(s, radix, above)
    }
}

/// Taking one more digit multiplies what was read by the radix and adds the
/// digit.
pub proof fn lemma_digits_value_step(s: Seq<char>, k: int, radix: int)
    requires
        0 <= k < s.len(),
        radix == 10 || radix == 16,
        digit_value(s[k], radix) is Some,
    ensures
        digits_value(s.take(k + 1), radix) == digits_value(s.take(k), radix) * radix
            + digit_value(s[k], radix).unwrap(),
{
    let t = s.take(k + 1);
    assert(t.drop_last() =~= s.take(k));
    assert(t.last() == s[k]);
    let before = digits_value(s.take(k), radix);
    assert(before * radix >= 0) by (nonlinear_arith)
        requires
            before >= 0,
            radix >= 1,
    ;
}

/// The digit of `c` in `radix`, if it is one.
pub fn digit_of(c: char, radix: u32) -> (d: Option<u32>)
    requires
        radix == 10 || radix == 16,
    ensures
        match digit_value(c, radix as int) {
            Some(v) => d == Some(v as u32) && v < radix,
            None => d is None,
        },
{
    let u: u32 = c as u32;
    if 0x30 <= u && u <= 0x39 {
        Some(u - 0x30)
    } else if radix == 16 && 0x61 <= u && u <= 0x66 {
        Some(u - 0x61 + 10)
    } else if radix == 16 && 0x41 <= u && u <= 0x46 {
        Some(u - 0x41 + 10)
    } else {
        None
    }
}

/// Reads the digits of `chars` from index `from` on as a number of `radix`
/// that must not exceed `limit`.
pub fn read_digits(chars: &Vec<char>, from: usize, radix: u32, limit: u64) -> (r: Result<
    u64,
    NumError,
>)
    requires
        from <= chars.len(),
        radix == 10 || radix == 16,
        limit <= 0xFFFF_FFFF_FFFF,
    ensures
        match decode_digits(chars@.skip(from as int), radix as int, limit as int) {
            Ok(v) => r == Ok::<u64, NumError>(v as u64) && v <= limit,
            Err(e) => r == Err::<u64, NumError>(e),
        },
{
    let ghost d = chars@.skip(from as int);
    if from == chars.len() {
        return Err(NumError::InvalidDigit);
    }
    let mut acc: u64 = 0;
    let mut over = false;
    let mut i: usize = from;
    while i < chars.len()
        invariant
            from <= i <= chars.len(),
            d == chars@.skip(from as int),
            radix == 10 || radix == 16,
            limit <= 0xFFFF_FFFF_FFFF,
            all_digits(d.take(i - from), radix as int),
            !over ==> acc == digits_value(d.take(i - from), radix as int) && acc <= limit,
            over ==> digits_value(d.take(i - from), radix as int) > limit,
        decreases chars.len() - i,
    {
        let ghost k = i - from;
        assert(d[k] == chars@[i as int]);
        match digit_of(chars[i], radix) {
            None => {
                assert(!all_digits(d, radix as int));
                return Err(NumError::InvalidDigit);
            },
            Some(v) => {
                proof {
                    lemma_digits_value_step(d, k, radix as int);
                    let before = digits_value(d.take(k), radix as int);
                    assert(before * radix >= before) by (nonlinear_arith)
                        requires
                            before >= 0,
                            radix >= 1,
                    ;
                    assert forall|j: int| 0 <= j < d.take(k + 1).len() implies (
                    #[trigger] digit_value(d.take(k + 1)[j], radix as int)) is Some by {
                        if j < k {
                            assert(d.take(k + 1)[j] == d.take(k)[j]);
                        }
                    }
                }
                if !over {
                    assert(acc * radix + v <= 0xFFFF_FFFF_FFFF * 16 + 15) by (nonlinear_arith)
                        requires
                            acc <= 0xFFFF_FFFF_FFFF,
                            radix <= 16,
                            v <= 15,
                    ;
                    let next: u64 = acc * (radix as u64) + (v as u64);
                    if next > limit {
                        over = true;
                    } else {
                        acc = next;
                    }
                }
            },
        }
        i = i + 1;
    }
    assert(d.take(i - from) =~= d);
    if over {
        Err(NumError::TooLarge)
    } else {
        Ok(acc)
    }
}

/// Reads `chars` as an unsigned number of `radix` up to `max`.
pub fn read_unsigned(chars: &Vec<char>, radix: u32, max: u32) -> (r: Result<u32, NumError>)
    requires
        radix == 10 || radix == 16,
    ensures
        match decode_unsigned(chars@, radix as int, max as int) {
            Ok(v) => r == Ok::<u32, NumError>(v as u32) && 0 <= v <= max,
            Err(e) => r == Err::<u32, NumError>(e),
        },
{
    if chars.len() == 0 {
        return Err(NumError::Empty);
    }
    let from: usize = if chars[0] == '+' { 1 } else { 0 };
    assert(chars@.skip(0) =~= chars@);
    match read_digits(chars, from, radix, max as u64) {
        Ok(v) => Ok(v as u32),
        Err(e) => Err(e),
    }
}

/// Reads `chars` as a signed 32-bit number of `radix`.
pub fn read_signed(chars: &Vec<char>, radix: u32) -> (r: Result<i32, NumError>)
    requires
        radix == 10 || radix == 16,
    ensures
        match decode_signed(chars@, radix as int, 0x8000_0000, 0x7FFF_FFFF) {
            Ok(v) => r == Ok::<i32, NumError>(v as i32) && i32::MIN <= v <= i32::MAX,
            Err(e) => r == Err::<i32, NumError>(e),
        },
{
    if chars.len() == 0 {
        return Err(NumError::Empty);
    }
    if chars[0] == '-' {
        match read_digits(chars, 1, radix, 0x8000_0000) {
            Ok(v) => {
                if v == 0x8000_0000 {
                    Ok(i32::MIN)
                } else {
                    Ok(-(v as i32))
                }
            },
            Err(NumError::TooLarge) => Err(NumError::TooSmall),
            Err(e) => Err(e),
        }
    } else {
        match read_unsigned(chars, radix, 0x7FFF_FFFF) {
            Ok(v) => Ok(v as i32),
            Err(e) => Err(e),
        }
    }
}

} // verus!
