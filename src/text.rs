//! Text helpers and account addresses.
use alloy::primitives::Address as ChainAddress;
use std::str::FromStr;
use vstd::prelude::*;
use vstd::string::*;

verus! {

/// `a` and `b` hold the same characters.
pub fn text_eq(a: &str, b: &str) -> (r: bool)
    ensures
        r == (a@ == b@),
{
    let n = a.unicode_len();
    if n != b.unicode_len() {
        return false;
    }
    let mut i: usize = 0;
    while i < n
        invariant
            n == a@.len(),
            n == b@.len(),
            i <= n,
            forall|j: int| 0 <= j < i ==> a@[j] == b@[j],
        decreases n - i,
    {
        if a.get_char(i) != b.get_char(i) {
            return false;
        }
        i = i + 1;
    }
    assert(a@ =~= b@);
    true
}

/// The characters of an optional text.
pub open spec fn opt_chars(t: Option<&str>) -> Option<Seq<char>> {
    match t {
        Some(s) => Some(s@),
        None => None,
    }
}

/// An owned copy of `s`.
pub fn owned(s: &str) -> (r: String)
    ensures
        r@ == s@,
{
    s.to_owned()
}

/// What `str::to_uppercase` returns for the given characters.
pub uninterp spec fn upper_of(s: Seq<char>) -> Seq<char>;

/// Relies on `str::to_uppercase`: the upper-case form of `s`, which depends on
/// the characters alone.
#[verifier::external_body]
pub(crate) fn to_upper(s: &str) -> (r: String)
    ensures
        r@ == upper_of(s@),
{
    s.to_uppercase()
}

/// The text is a base-10 integer: one or more ASCII digits.
pub open spec fn is_decimal_text(t: Seq<char>) -> bool {
    t.len() > 0 && forall|i: int| 0 <= i < t.len() ==> '0' <= #[trigger] t[i] && t[i] <= '9'
}

/// Whether `s` is a base-10 integer: one or more ASCII digits.
pub fn is_decimal(s: &str) -> (r: bool)
    ensures
        r == is_decimal_text(s@),
{
    let n = s.unicode_len();
    if n == 0 {
        return false;
    }
    let mut i: usize = 0;
    while i < n
        invariant
            n == s@.len(),
            i <= n,
            forall|j: int| 0 <= j < i ==> '0' <= #[trigger] s@[j] && s@[j] <= '9',
        decreases n - i,
    {
        let c = s.get_char(i);
        if c < '0' || c > '9' {
            return false;
        }
        i = i + 1;
    }
    true
}

/// A hexadecimal digit, of either case.
pub open spec fn is_hex_digit(c: char) -> bool {
    ('0' <= c && c <= '9') || ('a' <= c && c <= 'f') || ('A' <= c && c <= 'F')
}

/// The value of a hexadecimal digit.
pub open spec fn hex_value(c: char) -> nat {
    if '0' <= c && c <= '9' {
        (c as nat - '0' as nat) as nat
    } else if 'a' <= c && c <= 'f' {
        (c as nat - 'a' as nat + 10) as nat
    } else {
        (c as nat - 'A' as nat + 10) as nat
    }
}

/// The text with a leading `0x` or `0X` removed.
pub open spec fn hex_body(t: Seq<char>) -> Seq<char> {
    if t.len() >= 2 && t[0] == '0' && (t[1] == 'x' || t[1] == 'X') {
        t.skip(2)
    } else {
        t
    }
}

/// The text is a 20-byte address: forty hexadecimal digits, optionally after `0x`.
pub open spec fn is_address_text(t: Seq<char>) -> bool {
    &&& hex_body(t).len() == 40
    &&& forall|i: int| 0 <= i < 40 ==> is_hex_digit(#[trigger] hex_body(t)[i])
}

/// The bytes that the address text spells, two digits each, high digit first.
pub open spec fn address_bytes(t: Seq<char>) -> Seq<u8> {
    Seq::new(
        20,
        |i: int| (hex_value(hex_body(t)[2 * i]) * 16 + hex_value(hex_body(t)[2 * i + 1])) as u8,
    )
}

/// A 20-byte account or contract address.
#[derive(Clone, Copy, Debug)]
pub struct Address {
    pub bytes: [u8; 20],
}

impl Address {
    /// The address of all zero bytes.
    pub open spec fn is_zero_spec(self) -> bool {
        forall|i: int| 0 <= i < 20 ==> #[trigger] self.bytes@[i] == 0
    }

    /// The two addresses hold the same bytes.
    pub fn same(&self, other: &Address) -> (r: bool)
        ensures
            r == (self.bytes@ == other.bytes@),
    {
        let mut i: usize = 0;
        while i < 20
            invariant
                i <= 20,
                self.bytes@.len() == 20,
                other.bytes@.len() == 20,
                forall|j: int| 0 <= j < i ==> self.bytes@[j] == other.bytes@[j],
            decreases 20 - i,
        {
            if self.bytes[i] != other.bytes[i] {
                return false;
            }
            i = i + 1;
        }
        assert(self.bytes@ =~= other.bytes@);
        true
    }

    /// Every byte is zero.
    pub fn is_zero(&self) -> (r: bool)
        ensures
            r == self.is_zero_spec(),
    {
        let mut i: usize = 0;
        while i < 20
            invariant
                i <= 20,
                self.bytes@.len() == 20,
                forall|j: int| 0 <= j < i ==> self.bytes@[j] == 0,
            decreases 20 - i,
        {
            if self.bytes[i] != 0 {
                return false;
            }
            i = i + 1;
        }
        true
    }
}

/// Relies on `alloy::primitives::Address::from_str`: it strips an optional
/// `0x`/`0X` prefix and accepts exactly forty hexadecimal digits of either
/// case, without a checksum test, decoding two digits per byte.
#[verifier::external_body]
fn parse_chain_address(s: &str) -> (r: Option<[u8; 20]>)
    ensures
        r is Some <==> is_address_text(s@),
        r matches Some(b) ==> b@ == address_bytes(s@),
{
    ChainAddress::from_str(s).ok().map(|a| a.0 .0)
}

/// The address that `s` spells, if it is forty hexadecimal digits,
/// optionally after `0x`.
pub fn parse_address(s: &str) -> (r: Option<Address>)
    ensures
        r is Some <==> is_address_text(s@),
        r matches Some(a) ==> a.bytes@ == address_bytes(s@),
{
    match parse_chain_address(s) {
        Some(b) => Some(Address { bytes: b }),
        None => None,
    }
}

} // verus!
