use vstd::prelude::*;
use vstd::string::StringSliceAdditionalSpecFns;

verus! {

/// Why a hexadecimal string could not be decoded.
#[derive(Debug, Clone, Copy, PartialEq, Eq)]
pub enum DecodeError {
    /// The string has an odd number of bytes, or a character outside
    /// `0-9`, `a-f` and `A-F`.
    InvalidEncoding,
}

/// `b` is the ASCII code of a hexadecimal digit, in either case.
pub open spec fn is_hex_digit(b: u8) -> bool {
    (48 <= b <= 57) || (97 <= b <= 102) || (65 <= b <= 70)
}

/// The value of the hexadecimal digit `b`.
pub open spec fn hex_digit_value(b: u8) -> int {
    if 48 <= b <= 57 {
        b - 48
    } else if 97 <= b <= 102 {
        b - 87
    } else {
        b - 55
    }
}

/// `s` is an even number of hexadecimal digits.
pub open spec fn is_hex(s: Seq<u8>) -> bool {
    &&& s.len() % 2 == 0
    &&& forall|i: int| 0 <= i < s.len() ==> is_hex_digit(#[trigger] s[i])
}

/// The bytes that the digit pairs of `s` spell, high digit first.
pub open spec fn hex_decode(s: Seq<u8>) -> Seq<u8> {
    Seq::new(
        s.len() / 2,
        |i: int| (16 * hex_digit_value(s[2 * i]) + hex_digit_value(s[2 * i + 1])) as u8,
    )
}

/// The value of the hexadecimal digit `b`, or `None` if it is not one.
fn hex_digit(b: u8) -> (r: Option<u8>)
    ensures
        r.is_some() <==> is_hex_digit(b),
        r matches Some(v) ==> v == hex_digit_value(b) && v < 16,
{
    if 48 <= b && b <= 57 {
        Some(b - 48)
    } else if 97 <= b && b <= 102 {
        Some(b - 87)
    } else if 65 <= b && b <= 70 {
        Some(b - 55)
    } else {
        None
    }
}

/// Decodes a hexadecimal string, two digits per byte, high digit first.
pub fn hex_to_bytes(hex: &str) -> (r: Result<Vec<u8>, DecodeError>)
    ensures
        r.is_ok() <==> is_hex(hex.spec_bytes()),
        r matches Ok(v) ==> v@ == hex_decode(hex.spec_bytes()),
{
    let s = hex.as_bytes();
    let n = s.len();
    if n % 2 != 0 {
        return Err(DecodeError::InvalidEncoding);
    }
    let mut out: Vec<u8> = Vec::with_capacity(n / 2);
    let mut i: usize = 0;
    while i < n
        invariant
            s@ == hex.spec_bytes(),
            n == s@.len(),
            n % 2 == 0,
            i % 2 == 0,
            i <= n,
            out@.len() == i / 2,
            forall|j: int| 0 <= j < i ==> is_hex_digit(#[trigger] s@[j]),
            forall|j: int|
                0 <= j < i / 2 ==> #[trigger] out@[j] == (16 * hex_digit_value(s@[2 * j])
                    + hex_digit_value(s@[2 * j + 1])) as u8,
        decreases n - i,
    {
        let hi = hex_digit(s[i]);
        let lo = hex_digit(s[i + 1]);
        match (hi, lo) {
            (Some(h), Some(l)) => {
                out.push(16 * h + l);
            },
            _ => {
                return Err(DecodeError::InvalidEncoding);
            },
        }
        i = i + 2;
    }
    assert(out@ =~= hex_decode(s@));
    Ok(out)
}

} // verus!
