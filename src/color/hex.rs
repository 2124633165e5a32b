//! Parsing of hex color strings (`RGB`, `RGBA`, `RRGGBB`, `RRGGBBAA`, each with an
//! optional leading `#`) into 8-bit channels.
use vstd::prelude::*;

use vstd::string::StringSliceAdditionalSpecFns;

use super::alpha::Transparent;
use super::rgb::RGB;

verus! {

/// Why a hex color string was refused.
#[derive(Clone, Copy, Debug, PartialEq, Eq, Structural)]
pub enum HexColorError {
    /// The string, without its `#`, is not 3, 4, 6 or 8 bytes long.
    Length,
    /// The first byte that is not a hex digit.
    Char(char),
}

/// The value of the hex digit `b` (`0-9`, `a-f`, `A-F`), if it is one.
pub open spec fn hex_digit(b: u8) -> Option<u8> {
    if 48 <= b <= 57 {
        Some((b - 48) as u8)
    } else if 65 <= b <= 70 {
        Some((b - 55) as u8)
    } else if 97 <= b <= 102 {
        Some((b - 87) as u8)
    } else {
        None
    }
}

/// The bytes of `s` without one leading `#`.
pub open spec fn hex_body(s: Seq<u8>) -> Seq<u8> {
    if s.len() > 0 && s[0] == 35 {
        s.skip(1)
    } else {
        s
    }
}

/// The digits of a hex color in `RRGGBB[AA]` order: short forms repeat each digit.
pub open spec fn hex_digits(body: Seq<u8>) -> Seq<u8> {
    if body.len() == 3 || body.len() == 4 {
        Seq::new(2 * body.len(), |i: int| body[i / 2])
    } else {
        body
    }
}

/// The byte that the digit pair at `2 * i` of `digits` stands for.
pub open spec fn hex_pair(digits: Seq<u8>, i: int) -> u8 {
    (16 * hex_digit(digits[2 * i])->0 + hex_digit(digits[2 * i + 1])->0) as u8
}

/// Whether every byte of `digits` is a hex digit.
pub open spec fn all_hex_digits(digits: Seq<u8>) -> bool {
    forall|i: int| 0 <= i < digits.len() ==> (#[trigger] hex_digit(digits[i])) is Some
}

/// The position of the first byte of `digits` that is not a hex digit.
pub open spec fn is_first_bad(digits: Seq<u8>, k: int) -> bool {
    &&& 0 <= k < digits.len()
    &&& hex_digit(digits[k]) is None
    &&& forall|i: int| 0 <= i < k ==> (#[trigger] hex_digit(digits[i])) is Some
}

/// Parses the hex digit `b`, or hands it back when it is not one.
fn hex_value(b: u8) -> (r: Result<u8, u8>)
    ensures
        hex_digit(b) is Some ==> r == Ok::<u8, u8>(hex_digit(b)->0),
        hex_digit(b) is None ==> r == Err::<u8, u8>(b),
{
    if b >= 48 && b <= 57 {
        Ok(b - 48)
    } else if b >= 65 && b <= 70 {
        Ok(b - 55)
    } else if b >= 97 && b <= 102 {
        Ok(b - 87)
    } else {
        Err(b)
    }
}

/// Decodes pairs of hex digits into bytes: the `i`-th result byte is the pair at
/// `2 * i`. Fails on the first byte that is not a hex digit.
fn decode_hex(digits: &Vec<u8>) -> (r: Result<Vec<u8>, HexColorError>)
    requires
        digits@.len() % 2 == 0,
    ensures
        r is Ok <==> all_hex_digits(digits@),
        r is Ok ==> r->Ok_0@.len() == digits@.len() / 2 && forall|i: int|
            0 <= i < digits@.len() / 2 ==> #[trigger] r->Ok_0@[i] == hex_pair(digits@, i),
        r is Err ==> exists|k: int| is_first_bad(digits@, k) && r->Err_0 == HexColorError::Char(digits@[k] as char),
{
    let mut values: Vec<u8> = Vec::new();
    let mut i: usize = 0;
    while i < digits.len()
        invariant
            0 <= i <= digits@.len(),
            values@.len() == i,
            forall|j: int| 0 <= j < i ==> (#[trigger] hex_digit(digits@[j])) is Some,
            forall|j: int| 0 <= j < i ==> #[trigger] values@[j] == hex_digit(digits@[j])->0,
        decreases digits@.len() - i,
    {
        match hex_value(digits[i]) {
            Ok(v) => values.push(v),
            Err(b) => {
                proof {
                    assert(is_first_bad(digits@, i as int));
                    assert(!all_hex_digits(digits@));
                }
                return Err(HexColorError::Char(b as char));
            },
        }
        i = i + 1;
    }
    let mut out: Vec<u8> = Vec::new();
    let len = digits.len();
    let half = len / 2;
    proof {
        vstd::arithmetic::div_mod::lemma_fundamental_div_mod(digits@.len() as int, 2);
    }
    let mut k: usize = 0;
    while k < half
        invariant
            len == digits@.len(),
            half == digits@.len() / 2,
            2 * half == digits@.len(),
            values@.len() == digits@.len(),
            0 <= k <= half,
            out@.len() == k,
            forall|j: int| 0 <= j < digits@.len() ==> (#[trigger] hex_digit(digits@[j])) is Some,
            forall|j: int| 0 <= j < digits@.len() ==> #[trigger] values@[j] == hex_digit(digits@[j])->0,
            forall|j: int| 0 <= j < k ==> #[trigger] out@[j] == hex_pair(digits@, j),
        decreases half - k,
    {
        let hi = values[2 * k];
        let lo = values[2 * k + 1];
        assert(hi < 16 && lo < 16) by {
            assert(values@[2 * k as int] == hex_digit(digits@[2 * k as int])->0);
            assert(values@[2 * k + 1] == hex_digit(digits@[2 * k + 1])->0);
        }
        out.push(hi * 16 + lo);
        k = k + 1;
    }
    Ok(out)
}

/// Parses a hex color: `RGB`, `RGBA`, `RRGGBB` or `RRGGBBAA`, with an optional
/// leading `#`. The alpha channel is 255 when the string has none.
pub fn hex_rgba_u8(hex: &str) -> (r: Result<Transparent<RGB<u8>, u8>, HexColorError>)
    ensures
        ({
            let body = hex_body(hex.spec_bytes());
            let digits = hex_digits(body);
            &&& !(body.len() == 3 || body.len() == 4 || body.len() == 6 || body.len() == 8) ==> r
                == Err::<Transparent<RGB<u8>, u8>, HexColorError>(HexColorError::Length)
            &&& (body.len() == 3 || body.len() == 4 || body.len() == 6 || body.len() == 8) ==> {
                &&& (r is Ok <==> all_hex_digits(digits))
                &&& r is Ok ==> {
                    &&& r->Ok_0@.0@ == (hex_pair(digits, 0), hex_pair(digits, 1), hex_pair(digits, 2))
                    &&& r->Ok_0@.1 == if body.len() == 4 || body.len() == 8 {
                        hex_pair(digits, 3)
                    } else {
                        255u8
                    }
                }
                &&& r is Err ==> exists|k: int|
                    is_first_bad(digits, k) && r->Err_0 == HexColorError::Char(digits[k] as char)
            }
        }),
{
    let bytes = hex.as_bytes();
    let start: usize = if bytes.len() > 0 && bytes[0] == 35 { 1 } else { 0 };
    let n = bytes.len() - start;
    let ghost body = hex_body(hex.spec_bytes());
    proof {
        assert(body.len() == n);
        assert forall|i: int| 0 <= i < n implies #[trigger] body[i] == bytes@[start + i] by {}
    }
    if !(n == 3 || n == 4 || n == 6 || n == 8) {
        return Err(HexColorError::Length);
    }
    let mut digits: Vec<u8> = Vec::new();
    let short = n == 3 || n == 4;
    let mut i: usize = 0;
    while i < n
        invariant
            start <= 1,
            start + n == bytes@.len(),
            body.len() == n,
            n <= 8,
            forall|j: int| 0 <= j < n ==> #[trigger] body[j] == bytes@[start + j],
            short == (n == 3 || n == 4),
            0 <= i <= n,
            digits@.len() == if short { 2 * i } else { i as int },
            forall|j: int| 0 <= j < digits@.len() ==> #[trigger] digits@[j] == hex_digits(body)[j],
        decreases n - i,
    {
        let b = bytes[start + i];
        digits.push(b);
        if short {
            digits.push(b);
        }
        i = i + 1;
    }
    proof {
        assert(digits@ =~= hex_digits(body));
    }
    let decoded = decode_hex(&digits);
    match decoded {
        Ok(v) => {
            let alpha = if short || n == 8 {
                if n == 4 || n == 8 {
                    v[3]
                } else {
                    255
                }
            } else {
                255
            };
            Ok(Transparent::new(RGB::new(v[0], v[1], v[2]), alpha))
        },
        Err(e) => Err(e),
    }
}

} // verus!
