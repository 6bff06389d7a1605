//! Field elements as they travel on the wire: 32 big-endian bytes.

use vstd::prelude::*;
use vstd::string::StrSliceExecFns;
use vstd::string::StringSliceAdditionalSpecFns;

verus! {

/// A field element, stored as 32 big-endian bytes.
#[derive(Clone, Copy, Debug, Hash)]
pub struct Felt(pub [u8; 32]);

impl View for Felt {
    type V = Seq<u8>;

    open spec fn view(&self) -> Seq<u8> {
        self.0@
    }
}

impl PartialEq for Felt {
    fn eq(&self, other: &Felt) -> (r: bool) {
        let mut i: usize = 0;
        while i < 32
            invariant
                i <= 32,
                forall|j: int| 0 <= j < i ==> self.0@[j] == other.0@[j],
            decreases 32 - i,
        {
            if self.0[i] != other.0[i] {
                return false;
            }
            i += 1;
        }
        proof {
            assert(self.0@ =~= other.0@);
        }
        true
    }
}

impl Eq for Felt {

}

impl vstd::std_specs::cmp::PartialEqSpecImpl for Felt {
    open spec fn obeys_eq_spec() -> bool {
        true
    }

    open spec fn eq_spec(&self, other: &Felt) -> bool {
        self@ == other@
    }
}

impl Felt {
    /// The element zero.
    pub fn zero() -> (r: Felt)
        ensures
            r@ == Seq::new(32, |i: int| 0u8),
    {
        let r = Felt([0u8; 32]);
        assert(r@ =~= Seq::new(32, |i: int| 0u8));
        r
    }

    /// Two elements with the same bytes are the same element.
    pub broadcast proof fn lemma_view_injective(a: Felt, b: Felt)
        ensures
            #[trigger] a@ == #[trigger] b@ <==> a == b,
    {
        if a@ == b@ {
            assert(a.0@ =~= b.0@);
            assert(a.0 == b.0);
        }
    }
}

/// The value of a hexadecimal digit.
pub open spec fn hex_value(c: char) -> Option<u8> {
    if '0' <= c <= '9' {
        Some((c as u8 - 48) as u8)
    } else if 'a' <= c <= 'f' {
        Some((c as u8 - 87) as u8)
    } else if 'A' <= c <= 'F' {
        Some((c as u8 - 55) as u8)
    } else {
        None
    }
}

/// The digits of a hexadecimal literal: what follows the prefix `0x`, or
/// the whole text where the prefix is absent.
pub open spec fn hex_digits(s: Seq<char>) -> Seq<char> {
    if s.len() >= 2 && s[0] == '0' && s[1] == 'x' {
        s.subrange(2, s.len() as int)
    } else {
        s
    }
}

/// The `k`-th of the 64 half-bytes of the number that the first `upto`
/// digits contribute to, most significant first; the digits stand at the
/// right end.
pub open spec fn nibble(digits: Seq<char>, upto: int, k: int) -> int {
    let at = k - (64 - digits.len());
    if 0 <= at < upto && hex_value(digits[at]) is Some {
        hex_value(digits[at])->0 as int
    } else {
        0
    }
}

/// The 32 big-endian bytes of the number that a hexadecimal literal
/// denotes.  There is none where the literal has more than 64 digits, holds
/// a character that is no digit, or denotes a number of more than 251 bits.
/// A literal without digits denotes zero.
pub open spec fn felt_from_hex(s: Seq<char>) -> Option<Seq<u8>> {
    let digits = hex_digits(s);
    let bytes = Seq::new(
        32,
        |j: int|
            (nibble(digits, digits.len() as int, 2 * j) * 16 + nibble(
                digits,
                digits.len() as int,
                2 * j + 1,
            )) as u8,
    );
    if digits.len() > 64 {
        None
    } else if exists|i: int| 0 <= i < digits.len() && hex_value(#[trigger] digits[i]) is None {
        None
    } else if bytes[0] >= 8 {
        None
    } else {
        Some(bytes)
    }
}

/// The 32 big-endian bytes of a number below 2^64.
pub open spec fn felt_from_u64(n: u64) -> Seq<u8> {
    Seq::new(
        32,
        |j: int|
            if j < 24 {
                0u8
            } else {
                ((n >> (8 * (31 - j)) as u64) & 0xff) as u8
            },
    )
}

fn digit_value(b: u8) -> (r: Option<u8>)
    ensures
        b < 128 ==> r == hex_value(b as char),
        r matches Some(v) ==> v < 16,
{
    if 48 <= b && b <= 57 {
        Some(b - 48)
    } else if 97 <= b && b <= 102 {
        Some(b - 87)
    } else if 65 <= b && b <= 70 {
        Some(b - 55)
    } else {
        None
    }
}

impl Felt {
    /// The element that a hexadecimal literal denotes, see
    /// [`felt_from_hex`].
    pub fn from_hex_str(s: &str) -> (r: Option<Felt>)
        ensures
            match r {
                Some(felt) => felt_from_hex(s@) == Some(felt@),
                None => felt_from_hex(s@) is None,
            },
    {
        let ghost digits = hex_digits(s@);
        if !s.is_ascii() {
            proof {
                let i = choose|i: int| 0 <= i < s@.len() && !('\0' <= #[trigger] s@[i] <= '\u{7f}');
                if digits.len() <= 64 {
                    if s@.len() >= 2 && s@[0] == '0' && s@[1] == 'x' {
                        assert(digits[i - 2] == s@[i]);
                        assert(hex_value(digits[i - 2]) is None);
                    } else {
                        assert(hex_value(digits[i]) is None);
                    }
                }
            }
            return None;
        }
        let bytes = s.as_bytes();
        proof {
            vstd::utf8::is_ascii_chars_encode_utf8(s@);
            assert(bytes@.len() == s@.len());
            assert forall|i: int| 0 <= i < s@.len() implies s@[i] == (#[trigger] bytes@[i]) as char
                && bytes@[i] < 128 by {
                assert(s@[i] as u8 == bytes@[i]);
            }
        }
        let start: usize = if bytes.len() >= 2 && bytes[0] == 48 && bytes[1] == 120 {
            2
        } else {
            0
        };
        let n: usize = bytes.len() - start;
        assert(digits.len() == n);
        assert(forall|i: int| 0 <= i < n ==> digits[i] == (#[trigger] bytes@[start + i]) as char);
        if n > 64 {
            return None;
        }
        let mut buf = [0u8; 32];
        let mut i: usize = 0;
        while i < n
            invariant
                i <= n <= 64,
                start <= 2,
                digits == hex_digits(s@),
                n == digits.len(),
                start + n == bytes@.len(),
                forall|k: int| 0 <= k < n ==> digits[k] == (#[trigger] bytes@[start + k]) as char,
                forall|k: int| 0 <= k < bytes@.len() ==> (#[trigger] bytes@[k]) < 128,
                forall|k: int| 0 <= k < i ==> hex_value(#[trigger] digits[k]) is Some,
                forall|j: int|
                    0 <= j < 32 ==> (#[trigger] buf@[j]) as int == nibble(digits, i as int, 2 * j)
                        * 16 + nibble(digits, i as int, 2 * j + 1),
            decreases n - i,
        {
            let b = bytes[start + i];
            let v = match digit_value(b) {
                Some(v) => v,
                None => {
                    assert(hex_value(digits[i as int]) is None);
                    return None;
                },
            };
            let p: usize = 64 - n + i;
            let at: usize = p / 2;
            let ghost before = buf@;
            if p % 2 == 0 {
                assert(nibble(digits, i as int, 2 * at) == 0);
                assert(nibble(digits, i as int, 2 * at + 1) == 0);
                buf[at] = v * 16;
            } else {
                assert(nibble(digits, i as int, 2 * at + 1) == 0);
                assert(nibble(digits, i as int, 2 * at) < 16);
                let high = buf[at];
                buf[at] = high + v;
            }
            proof {
                assert(hex_value(digits[i as int]) == Some(v));
                assert forall|j: int| 0 <= j < 32 implies (#[trigger] buf@[j]) as int == nibble(
                    digits,
                    i + 1,
                    2 * j,
                ) * 16 + nibble(digits, i + 1, 2 * j + 1) by {
                    if j != at {
                        assert(buf@[j] == before[j]);
                        assert(nibble(digits, i + 1, 2 * j) == nibble(digits, i as int, 2 * j));
                        assert(nibble(digits, i + 1, 2 * j + 1) == nibble(
                            digits,
                            i as int,
                            2 * j + 1,
                        ));
                    }
                }
            }
            i += 1;
        }
        if buf[0] >= 8 {
            proof {
                let spec_bytes = Seq::new(
                    32,
                    |j: int|
                        (nibble(digits, digits.len() as int, 2 * j) * 16 + nibble(
                            digits,
                            digits.len() as int,
                            2 * j + 1,
                        )) as u8,
                );
                assert(spec_bytes[0] == buf@[0]);
            }
            return None;
        }
        let r = Felt(buf);
        proof {
            assert(!exists|k: int| 0 <= k < digits.len() && hex_value(#[trigger] digits[k]) is None);
            assert(r@ =~= felt_from_hex(s@)->0);
        }
        Some(r)
    }

    /// The element that is the number `n`.
    pub fn from_u64(n: u64) -> (r: Felt)
        ensures
            r@ == felt_from_u64(n),
    {
        let mut buf = [0u8; 32];
        let mut k: usize = 0;
        while k < 8
            invariant
                k <= 8,
                forall|j: int| 0 <= j < 32 - k ==> (#[trigger] buf@[j]) == 0,
                forall|j: int|
                    32 - k <= j < 32 ==> (#[trigger] buf@[j]) == ((n >> (8 * (31 - j)) as u64)
                        & 0xff) as u8,
            decreases 8 - k,
        {
            let shift: u64 = 8 * (k as u64);
            let byte: u8 = ((n >> shift) & 0xff) as u8;
            buf[31 - k] = byte;
            k += 1;
        }
        let r = Felt(buf);
        assert(r@ =~= felt_from_u64(n));
        r
    }
}

} // verus!
