use vstd::prelude::*;
use vstd::string::StrSliceExecFns;

verus! {

/// External-chain addresses are exactly this many bytes long.
pub const ETH_ADDRESS_LEN: usize = 20;

/// Rejections of a textual external-chain address.
#[derive(Clone, Copy, PartialEq, Eq, Structural, Debug)]
pub enum AddressError {
    /// The text is not a well-formed run of hex digit pairs.
    BadHex,
    /// The text decodes, but not to exactly the address length.
    WrongLength,
}

/// Whether a character is a hexadecimal digit.
pub open spec fn is_hex_digit(c: char) -> bool {
    (48 <= c as u32 && c as u32 <= 57)  // '0' ..= '9'
    || (97 <= c as u32 && c as u32 <= 102)  // 'a' ..= 'f'
    || (65 <= c as u32 && c as u32 <= 70)  // 'A' ..= 'F'
}

/// The value of one hexadecimal digit.
pub open spec fn hex_char_val(c: char) -> u8 {
    if 48 <= c as u32 && c as u32 <= 57 {
        (c as u32 - 48) as u8
    } else if 97 <= c as u32 && c as u32 <= 102 {
        (c as u32 - 87) as u8
    } else {
        (c as u32 - 55) as u8
    }
}

/// Whether every character of a text is a hexadecimal digit.
pub open spec fn all_hex_digits(s: Seq<char>) -> bool {
    forall|i: int| 0 <= i < s.len() ==> is_hex_digit(s[i])
}

/// The bytes a run of hex digit pairs stands for, two digits a byte.
pub open spec fn spec_hex_decode(s: Seq<char>) -> Seq<u8> {
    Seq::new((s.len() / 2) as nat, |i: int| (hex_char_val(s[2 * i]) * 16 + hex_char_val(s[2 * i + 1])) as u8)
}

/// Relies on hex::decode: it yields one byte per pair of hex digits, high
/// digit first, and fails exactly on odd-length or non-hex-digit input.
#[verifier::external_body]
fn hex_decode(s: &str) -> (r: Option<Vec<u8>>)
    ensures
        match r {
            Some(v) => s@.len() % 2 == 0 && all_hex_digits(s@) && v@ == spec_hex_decode(s@),
            None => !(s@.len() % 2 == 0 && all_hex_digits(s@)),
        },
{
    hex::decode(s).ok()
}

/// A leading `0x`, if any, removed.
pub open spec fn strip_hex_prefix(s: Seq<char>) -> Seq<char> {
    if s.len() >= 2 && s[0] == '0' && s[1] == 'x' {
        s.skip(2)
    } else {
        s
    }
}

/// Whether a text, after an optional `0x` prefix, spells a full
/// external-chain address in hex.
pub open spec fn valid_eth_address(s: Seq<char>) -> bool {
    &&& strip_hex_prefix(s).len() == 2 * ETH_ADDRESS_LEN
    &&& all_hex_digits(strip_hex_prefix(s))
}

/// Decodes a textual external-chain address: an optional `0x` prefix,
/// then exactly forty hex digits.
pub fn parse_eth_address(addr: &str) -> (r: Result<Vec<u8>, AddressError>)
    ensures
        match r {
            Ok(v) => valid_eth_address(addr@) && v@ == spec_hex_decode(strip_hex_prefix(addr@))
                && v@.len() == ETH_ADDRESS_LEN,
            Err(AddressError::BadHex) => !(strip_hex_prefix(addr@).len() % 2 == 0
                && all_hex_digits(strip_hex_prefix(addr@))),
            Err(AddressError::WrongLength) => strip_hex_prefix(addr@).len() % 2 == 0
                && all_hex_digits(strip_hex_prefix(addr@)) && strip_hex_prefix(addr@).len() != 2
                * ETH_ADDRESS_LEN,
        },
{
    let n = addr.unicode_len();
    let body: &str = if n >= 2 && addr.get_char(0) == '0' && addr.get_char(1) == 'x' {
        let b = addr.substring_char(2, n);
        proof {
            assert(b@ =~= strip_hex_prefix(addr@));
        }
        b
    } else {
        proof {
            assert(addr@ =~= strip_hex_prefix(addr@));
        }
        addr
    };
    match hex_decode(body) {
        None => Err(AddressError::BadHex),
        Some(v) => {
            if v.len() == ETH_ADDRESS_LEN {
                Ok(v)
            } else {
                Err(AddressError::WrongLength)
            }
        },
    }
}

/// The fixed external-chain payout address every redemption is sent to.
pub fn eth_receiver_address() -> (r: &'static str)
    ensures
        r@ == "0x9f8b9dE0b67BCe8d03B9A521F8dAF3dcc0E1f5A5"@,
{
    "0x9f8b9dE0b67BCe8d03B9A521F8dAF3dcc0E1f5A5"
}

/// The fixed payout address, decoded to its twenty bytes.
pub fn eth_receiver_bytes() -> (r: Result<Vec<u8>, AddressError>)
    ensures
        match r {
            Ok(v) => valid_eth_address("0x9f8b9dE0b67BCe8d03B9A521F8dAF3dcc0E1f5A5"@) && v@.len()
                == ETH_ADDRESS_LEN,
            Err(_) => !valid_eth_address("0x9f8b9dE0b67BCe8d03B9A521F8dAF3dcc0E1f5A5"@),
        },
{
    parse_eth_address(eth_receiver_address())
}

} // verus!
