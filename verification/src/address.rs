//! 20-byte account and token addresses, parsed from hexadecimal text with an
//! optional `0x` prefix.

use vstd::prelude::*;

verus! {

/// `c` is an ASCII hexadecimal digit, either case.
pub open spec fn is_hex_digit(c: char) -> bool {
    (48 <= c as u32 && c as u32 <= 57) || (97 <= c as u32 && c as u32 <= 102) || (65 <= c as u32
        && c as u32 <= 70)
}

/// Numeric value of a hexadecimal digit character.
pub open spec fn hex_val(c: char) -> nat {
    if 48 <= c as u32 && c as u32 <= 57 {
        ((c as u32) - 48) as nat
    } else if 97 <= c as u32 && c as u32 <= 102 {
        ((c as u32) - 87) as nat
    } else {
        ((c as u32) - 55) as nat
    }
}

/// The digits of an address string: the text after a leading `0x`, if any.
pub open spec fn strip_hex_prefix(s: Seq<char>) -> Seq<char> {
    if s.len() >= 2 && s[0] == '0' && s[1] == 'x' {
        s.skip(2)
    } else {
        s
    }
}

/// A valid address is exactly 40 hexadecimal digits after the optional prefix.
pub open spec fn valid_address_str(s: Seq<char>) -> bool {
    let t = strip_hex_prefix(s);
    t.len() == 40 && forall|i: int| 0 <= i < 40 ==> is_hex_digit(#[trigger] t[i])
}

/// The 20 bytes a valid address string denotes, big endian.
pub open spec fn address_bytes(s: Seq<char>) -> Seq<u8> {
    let t = strip_hex_prefix(s);
    Seq::new(20, |i: int| (hex_val(t[2 * i]) * 16 + hex_val(t[2 * i + 1])) as u8)
}

/// A 20-byte address.
pub struct Address {
    pub bytes: Vec<u8>,
}

impl View for Address {
    type V = Seq<u8>;

    open spec fn view(&self) -> Seq<u8> {
        self.bytes@
    }
}

impl Address {
    /// An address holds exactly 20 bytes.
    pub open spec fn wf(&self) -> bool {
        self.bytes@.len() == 20
    }

    pub fn clone_addr(&self) -> (r: Address)
        ensures
            r@ == self@,
    {
        let mut out: Vec<u8> = Vec::new();
        let mut i: usize = 0;
        while i < self.bytes.len()
            invariant
                0 <= i <= self.bytes@.len(),
                out@ =~= self.bytes@.take(i as int),
            decreases self.bytes@.len() - i,
        {
            out.push(self.bytes[i]);
            i = i + 1;
        }
        proof {
            assert(self.bytes@.take(self.bytes@.len() as int) =~= self.bytes@);
        }
        Address { bytes: out }
    }

    /// Exact equality of the twenty bytes.
    pub fn eq_addr(&self, other: &Address) -> (r: bool)
        ensures
            r <==> self@ =~= other@,
    {
        if self.bytes.len() != other.bytes.len() {
            return false;
        }
        let mut i: usize = 0;
        while i < self.bytes.len()
            invariant
                0 <= i <= self.bytes@.len(),
                self.bytes@.len() == other.bytes@.len(),
                forall|j: int| 0 <= j < i ==> self.bytes@[j] == other.bytes@[j],
            decreases self.bytes@.len() - i,
        {
            if self.bytes[i] != other.bytes[i] {
                return false;
            }
            i = i + 1;
        }
        true
    }
}

/// Value of one hexadecimal digit character, or `None` when `c` is no such digit.
fn hex_digit_value(c: char) -> (r: Option<u8>)
    ensures
        match r {
            Some(v) => is_hex_digit(c) && v as nat == hex_val(c) && v < 16,
            None => !is_hex_digit(c),
        },
{
    let u = c as u32;
    if 48 <= u && u <= 57 {
        Some((u - 48) as u8)
    } else if 97 <= u && u <= 102 {
        Some((u - 87) as u8)
    } else if 65 <= u && u <= 70 {
        Some((u - 55) as u8)
    } else {
        None
    }
}

/// Parses an address from text: an optional `0x` prefix, then exactly 40
/// hexadecimal digits.  Returns `None` exactly on invalid text.
pub fn parse_address(s: &str) -> (r: Option<Address>)
    ensures
        match r {
            Some(a) => valid_address_str(s@) && a.wf() && a@ == address_bytes(s@),
            None => !valid_address_str(s@),
        },
{
    let n = s.unicode_len();
    let start: usize = if n >= 2 && s.get_char(0) == '0' && s.get_char(1) == 'x' {
        2
    } else {
        0
    };
    let ghost t = strip_hex_prefix(s@);
    proof {
        assert(t =~= s@.skip(start as int));
    }
    if n - start != 40 {
        return None;
    }
    let mut out: Vec<u8> = Vec::new();
    let mut i: usize = 0;
    while i < 20
        invariant
            0 <= i <= 20,
            n == s@.len(),
            start + 40 == n,
            t =~= s@.skip(start as int),
            t.len() == 40,
            out@.len() == i,
            forall|j: int| 0 <= j < 2 * i ==> is_hex_digit(#[trigger] t[j]),
            forall|j: int|
                0 <= j < i ==> out@[j] == (hex_val(t[2 * j]) * 16 + hex_val(t[2 * j + 1])) as u8,
        decreases 20 - i,
    {
        proof {
            assert(t[2 * (i as int)] == s@[start + 2 * (i as int)]);
            assert(t[2 * (i as int) + 1] == s@[start + 2 * (i as int) + 1]);
        }
        let hi = match hex_digit_value(s.get_char(start + 2 * i)) {
            Some(v) => v,
            None => {
                return None;
            },
        };
        let lo = match hex_digit_value(s.get_char(start + 2 * i + 1)) {
            Some(v) => v,
            None => {
                return None;
            },
        };
        out.push(hi * 16 + lo);
        i = i + 1;
    }
    proof {
        assert(out@ =~= address_bytes(s@));
    }
    Some(Address { bytes: out })
}

} // verus!
