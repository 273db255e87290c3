//! Fixed-width on-chain account and contract identifiers.
//!
//! An [`Address`] is exactly twenty bytes, parsed from hexadecimal text
//! with an optional `0x` prefix.  Invalid text is a parse failure, never a
//! panic, and an address is immutable once parsed.

use vstd::prelude::*;

verus! {

/// Length of an address in bytes.
pub const ADDRESS_LEN: usize = 20;

/// Why address text was refused.
#[derive(Clone, Copy, Debug, PartialEq, Eq, Structural)]
pub enum AddressError {
    /// Not forty hexadecimal digits (after an optional `0x`).
    Malformed,
}

pub open spec fn is_hex_char(c: u8) -> bool {
    (48 <= c && c <= 57) || (97 <= c && c <= 102) || (65 <= c && c <= 70)
}

/// Value of one hexadecimal digit character.
pub open spec fn hex_val(c: u8) -> u8
    recommends
        is_hex_char(c),
{
    if 48 <= c && c <= 57 {
        (c - 48) as u8
    } else if 97 <= c && c <= 102 {
        (c - 87) as u8
    } else {
        (c - 55) as u8
    }
}

/// Whether the text starts with `0x`.
pub open spec fn has_hex_prefix(s: Seq<u8>) -> bool {
    s.len() >= 2 && s[0] == 48 && s[1] == 120
}

/// The hexadecimal digits proper: the text after an optional `0x`.
pub open spec fn address_body(s: Seq<u8>) -> Seq<u8> {
    if has_hex_prefix(s) {
        s.skip(2)
    } else {
        s
    }
}

/// Forty hexadecimal digits after an optional `0x`.
pub open spec fn valid_address_text(s: Seq<u8>) -> bool {
    let b = address_body(s);
    b.len() == 40 && (forall|i: int| 0 <= i < 40 ==> is_hex_char(b[i]))
}

/// The twenty bytes that forty hexadecimal digits denote.
pub open spec fn hex_bytes(b: Seq<u8>) -> Seq<u8>
    recommends
        b.len() == 40,
{
    Seq::new(20, |i: int| (hex_val(b[2 * i]) * 16 + hex_val(b[2 * i + 1])) as u8)
}

/// A twenty-byte on-chain account or contract identifier.
#[derive(Debug)]
pub struct Address {
    pub bytes: Vec<u8>,
}

impl View for Address {
    type V = Seq<u8>;

    open spec fn view(&self) -> Seq<u8> {
        self.bytes@
    }
}

impl DeepView for Address {
    type V = Seq<u8>;

    open spec fn deep_view(&self) -> Seq<u8> {
        self.bytes@
    }
}

impl Address {
    /// Exactly twenty bytes.
    pub open spec fn wf(&self) -> bool {
        self.bytes@.len() == 20
    }

    /// An exact copy, byte for byte.
    pub fn duplicate(&self) -> (r: Address)
        ensures
            r@ == self@,
    {
        Address { bytes: crate::amount::copy_bytes(&self.bytes) }
    }
}

/// Value of one hexadecimal digit character, or nothing.
fn hex_digit(c: u8) -> (r: Option<u8>)
    ensures
        match r {
            Some(v) => is_hex_char(c) && v == hex_val(c) && v < 16,
            None => !is_hex_char(c),
        },
{
    if 48 <= c && c <= 57 {
        Some(c - 48)
    } else if 97 <= c && c <= 102 {
        Some(c - 87)
    } else if 65 <= c && c <= 70 {
        Some(c - 55)
    } else {
        None
    }
}

/// Parses hexadecimal address text, with an optional `0x` prefix, into
/// its twenty bytes.  Fails on anything but forty hexadecimal digits.
pub fn parse_address(text: &[u8]) -> (r: Result<Address, AddressError>)
    ensures
        match r {
            Ok(a) => valid_address_text(text@) && a.wf() && a@ == hex_bytes(address_body(text@)),
            Err(_) => !valid_address_text(text@),
        },
{
    let off: usize = if text.len() >= 2 && text[0] == 48 && text[1] == 120 {
        2
    } else {
        0
    };
    proof {
        if off == 2 {
            assert(address_body(text@) =~= text@.skip(2));
        } else {
            assert(address_body(text@) =~= text@);
        }
    }
    if text.len() < off || text.len() - off != 40 {
        return Err(AddressError::Malformed);
    }
    let ghost body = address_body(text@);
    let mut bytes: Vec<u8> = Vec::new();
    let mut i: usize = 0;
    while i < ADDRESS_LEN
        invariant
            0 <= i <= 20,
            text@.len() == off + 40,
            off == 0 || off == 2,
            body == address_body(text@),
            body.len() == 40,
            forall|j: int| 0 <= j < body.len() ==> body[j] == text@[off + j],
            bytes@.len() == i,
            forall|j: int| 0 <= j < 2 * i ==> is_hex_char(body[j]),
            forall|j: int| 0 <= j < i ==> bytes@[j] == hex_bytes(body)[j],
        decreases 20 - i,
    {
        let hi = match hex_digit(text[off + 2 * i]) {
            Some(v) => v,
            None => {
                proof {
                    assert(!is_hex_char(body[2 * (i as int)]));
                }
                return Err(AddressError::Malformed);
            },
        };
        let lo = match hex_digit(text[off + 2 * i + 1]) {
            Some(v) => v,
            None => {
                proof {
                    assert(!is_hex_char(body[2 * (i as int) + 1]));
                }
                return Err(AddressError::Malformed);
            },
        };
        bytes.push(hi * 16 + lo);
        proof {
            assert(bytes@[i as int] == hex_bytes(body)[i as int]);
            assert forall|j: int| 0 <= j < 2 * (i + 1) implies is_hex_char(body[j]) by {
                if j == 2 * (i as int) {
                    assert(is_hex_char(body[2 * (i as int)]));
                } else if j == 2 * (i as int) + 1 {
                    assert(is_hex_char(body[2 * (i as int) + 1]));
                }
            }
        }
        i = i + 1;
    }
    proof {
        assert(bytes@ =~= hex_bytes(body));
    }
    Ok(Address { bytes })
}

} // verus!
