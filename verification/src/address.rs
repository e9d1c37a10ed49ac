//! Ethereum addresses.

use vstd::prelude::*;

verus! {

/// A 20-byte Ethereum address: the first 4 bytes in `hi`, the last 16 in `lo`,
/// both big-endian.
#[derive(Clone, Copy, Debug, PartialEq, Eq, Structural)]
pub struct Address {
    /// Bytes 0..4
    pub hi: u32,
    /// Bytes 4..20
    pub lo: u128,
}

/// The EIP-55 checksummed text (with `0x`) that `alloy_primitives::Address`
/// displays for the address with these parts.
pub uninterp spec fn checksummed_text(hi: u32, lo: u128) -> Seq<char>;

/// What `alloy_primitives::Address::from_str` accepts and gives: the parts of the
/// parsed address, or `None` where the text is refused.
pub uninterp spec fn parsed_address(text: Seq<char>) -> Option<(u32, u128)>;

impl Address {
    /// The zero address, in specifications.
    pub open spec fn zero_spec() -> Address {
        Address { hi: 0, lo: 0 }
    }

    /// The zero address.
    pub fn zero() -> (r: Address)
        ensures
            r == Address::zero_spec(),
    {
        Address { hi: 0, lo: 0 }
    }

    /// `true` iff this is the zero address.
    pub fn is_zero(&self) -> (r: bool)
        ensures
            r == (self.hi == 0 && self.lo == 0),
    {
        self.hi == 0 && self.lo == 0
    }
}

/// `alloy_primitives::Address::to_string` (its `Display`). Claimed: the
/// checksummed text that `checksummed_text` names for these parts.
#[verifier::external_body]
pub(crate) fn address_to_string(a: &Address) -> (r: String)
    ensures
        r@ == checksummed_text(a.hi, a.lo),
{
    let mut bytes = [0u8; 20];
    bytes[..4].copy_from_slice(&a.hi.to_be_bytes());
    bytes[4..].copy_from_slice(&a.lo.to_be_bytes());
    alloy_primitives::Address::from(bytes).to_string()
}

/// `alloy_primitives::Address::from_str`. Claimed: `Ok` with the parts that
/// `parsed_address` names, or `Err` exactly where it names none. The error text is
/// the `Debug` text of the parser's error and is not stated.
#[verifier::external_body]
pub(crate) fn parse_address(s: &str) -> (r: Result<Address, String>)
    ensures
        r is Ok <==> parsed_address(s@) is Some,
        r matches Ok(a) ==> parsed_address(s@) == Some((a.hi, a.lo)),
{
    match <alloy_primitives::Address as std::str::FromStr>::from_str(s) {
        Ok(addr) => {
            let b: [u8; 20] = addr.into_array();
            let hi = u32::from_be_bytes([b[0], b[1], b[2], b[3]]);
            let mut lo = [0u8; 16];
            lo.copy_from_slice(&b[4..]);
            Ok(Address { hi, lo: u128::from_be_bytes(lo) })
        },
        Err(err) => Err(format!("{:#?}", err)),
    }
}

} // verus!
