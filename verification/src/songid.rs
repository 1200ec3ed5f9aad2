//! Content identifiers: 32-byte digests that name a song everywhere, with a
//! verified hexadecimal parser for user-supplied identifiers.

use vstd::prelude::*;
use vstd::string::StringSliceAdditionalSpecFns;

verus! {

/// A fixed-length digest identifying one piece of content. Equality is
/// byte-exact.
#[derive(Clone, Copy, Debug, PartialEq, Eq)]
pub struct SongId(pub [u8; 32]);

/// Why a string was not accepted as a song identifier.
#[derive(Clone, Copy, Debug, PartialEq, Eq, Structural)]
pub enum SongIdParseError {
    /// The string does not hold exactly two digits per identifier byte.
    BadLength,
    /// A character is not a hexadecimal digit.
    BadDigit,
}

/// Whether the byte is an ASCII hexadecimal digit: `0`-`9`, `a`-`f` or `A`-`F`.
pub open spec fn is_hex_digit(b: u8) -> bool {
    (48 <= b <= 57) || (97 <= b <= 102) || (65 <= b <= 70)
}

/// The numeric value of an ASCII hexadecimal digit.
pub open spec fn hex_val(b: u8) -> u8 {
    if 48 <= b <= 57 {
        (b - 48) as u8
    } else if 97 <= b <= 102 {
        (b - 97 + 10) as u8
    } else {
        (b - 65 + 10) as u8
    }
}

/// The byte written as the two hexadecimal digits `hi`, `lo`.
pub open spec fn spec_hex_byte(hi: u8, lo: u8) -> u8 {
    (hex_val(hi) * 16 + hex_val(lo)) as u8
}

/// The numeric value of one hexadecimal digit, or nothing if the byte is
/// not one.
fn hex_digit_value(b: u8) -> (v: Option<u8>)
    ensures
        match v {
            Some(x) => is_hex_digit(b) && x == hex_val(b),
            None => !is_hex_digit(b),
        },
{
    if b >= 48 && b <= 57 {
        Some(b - 48)
    } else if b >= 97 && b <= 102 {
        Some(b - 97 + 10)
    } else if b >= 65 && b <= 70 {
        Some(b - 65 + 10)
    } else {
        None
    }
}

impl SongId {
    /// Parse an identifier from its hexadecimal spelling: exactly two digits
    /// per byte, upper or lower case, and nothing else.
    pub fn try_from_hex(s: &str) -> (parsed: Result<SongId, SongIdParseError>)
        ensures
            ({
                let bytes = s.spec_bytes();
                match parsed {
                    Ok(id) => {
                        &&& bytes.len() == 64
                        &&& forall|i: int| 0 <= i < 64 ==> is_hex_digit(#[trigger] bytes[i])
                        &&& id.0@ == Seq::new(
                            32,
                            |k: int| spec_hex_byte(bytes[2 * k], bytes[2 * k + 1]),
                        )
                    },
                    Err(SongIdParseError::BadLength) => bytes.len() != 64,
                    Err(SongIdParseError::BadDigit) => {
                        &&& bytes.len() == 64
                        &&& exists|i: int| 0 <= i < 64 && !is_hex_digit(#[trigger] bytes[i])
                    },
                }
            }),
    {
        let bytes = s.as_bytes();
        if bytes.len() != 64 {
            return Err(SongIdParseError::BadLength);
        }
        let mut out: [u8; 32] = [0u8; 32];
        let mut k: usize = 0;
        while k < 32
            invariant
                k <= 32,
                bytes@ == s.spec_bytes(),
                bytes@.len() == 64,
                forall|i: int| 0 <= i < 2 * k ==> is_hex_digit(#[trigger] bytes@[i]),
                forall|j: int|
                    0 <= j < k ==> out@[j] == spec_hex_byte(
                        bytes@[2 * j],
                        bytes@[2 * j + 1],
                    ),
            decreases 32 - k,
        {
            let hi = bytes[2 * k];
            let lo = bytes[2 * k + 1];
            let hv = match hex_digit_value(hi) {
                Some(v) => v,
                None => {
                    proof {
                        assert(!is_hex_digit(s.spec_bytes()[2 * k as int]));
                    }
                    return Err(SongIdParseError::BadDigit);
                },
            };
            let lv = match hex_digit_value(lo) {
                Some(v) => v,
                None => {
                    proof {
                        assert(!is_hex_digit(s.spec_bytes()[2 * k as int + 1]));
                    }
                    return Err(SongIdParseError::BadDigit);
                },
            };
            out[k] = hv * 16 + lv;
            k = k + 1;
        }
        let id = SongId(out);
        proof {
            assert(id.0@ =~= Seq::new(
                32,
                |k: int| spec_hex_byte(s.spec_bytes()[2 * k], s.spec_bytes()[2 * k + 1]),
            ));
        }
        Ok(id)
    }

    /// Whether two identifiers hold the same bytes.
    pub fn matches(&self, other: &SongId) -> (eq: bool)
        ensures
            eq == (self.0@ == other.0@),
    {
        let mut j: usize = 0;
        while j < 32
            invariant
                j <= 32,
                forall|i: int| 0 <= i < j ==> self.0@[i] == other.0@[i],
            decreases 32 - j,
        {
            if self.0[j] != other.0[j] {
                return false;
            }
            j = j + 1;
        }
        proof {
            assert(self.0@ =~= other.0@);
        }
        true
    }
}

} // verus!
