//! Addresses and their display encoding.

use crate::errors::ParserError;
use crate::reader::{
    group_rest_of, is_rest_of, leaves_rest, parsed_as, spec_take, take_20, Parsed,
};
use vstd::prelude::*;

verus! {

/// The length of an address in bytes.
pub const ADDRESS_LEN: usize = 20;

/// The bech32 text of `data` under the human-readable prefix `hrp`, for a
/// prefix that bech32 accepts.
pub uninterp spec fn bech32_text(hrp: Seq<char>, data: Seq<u8>) -> Seq<u8>;

pub open spec fn is_lower(c: char) -> bool {
    'a' <= c <= 'z'
}

pub open spec fn is_upper(c: char) -> bool {
    'A' <= c <= 'Z'
}

/// The prefixes that bech32 accepts: 1 to 83 printable ASCII characters,
/// not both lower-case and upper-case letters among them.
pub open spec fn hrp_is_valid(hrp: Seq<char>) -> bool {
    &&& 1 <= hrp.len() <= 83
    &&& forall|i: int| 0 <= i < hrp.len() ==> '!' <= #[trigger] hrp[i] <= '~'
    &&& !((exists|i: int| 0 <= i < hrp.len() && is_lower(#[trigger] hrp[i])) && (exists|i: int|
        0 <= i < hrp.len() && is_upper(#[trigger] hrp[i])))
}

/// The encoded text, where there is one.
pub open spec fn spec_encode(hrp: Seq<char>, data: Seq<u8>) -> Option<Seq<u8>> {
    if hrp_is_valid(hrp) {
        Some(bech32_text(hrp, data))
    } else {
        None
    }
}

/// `bech32::encode` with the `Bech32` checksum variant, on `data` regrouped
/// into five-bit values by `bech32::ToBase32::to_base32`. It fails exactly
/// when the prefix is empty, longer than 83 bytes, holds a byte outside
/// `33..=126`, or mixes lower and upper case; otherwise its text depends on
/// the prefix and the data alone.
#[verifier::external_body]
fn bech32_encode(hrp: &str, data: &[u8]) -> (r: Option<Vec<u8>>)
    ensures
        r is Some <==> hrp_is_valid(hrp@),
        r matches Some(text) ==> text@ == bech32_text(hrp@, data@),
{
    match bech32::encode(hrp, bech32::ToBase32::to_base32(&data), bech32::Variant::Bech32) {
        Ok(text) => Some(text.into_bytes()),
        Err(_) => None,
    }
}

/// The raw bytes of an address, as a transaction holds them.
#[derive(Clone, Copy, Debug, PartialEq, Eq)]
pub struct Address {
    pub bytes: [u8; ADDRESS_LEN],
}

impl View for Address {
    type V = Seq<u8>;

    open spec fn view(&self) -> Seq<u8> {
        self.bytes@
    }
}

impl Address {
    /// Reads an address.
    pub fn from_bytes(input: &[u8]) -> (r: Result<(&[u8], Address), ParserError>)
        ensures
            parsed_as(r, spec_take(input@, ADDRESS_LEN as nat)),
            leaves_rest(r, input@),
    {
        let (rest, bytes) = take_20(input)?;
        Ok((rest, Address { bytes }))
    }

    /// Whether this address is made of exactly the bytes `other`.
    pub fn is(&self, other: &[u8]) -> (r: bool)
        ensures
            r == (self@ == other@),
    {
        if other.len() != ADDRESS_LEN {
            return false;
        }
        let mut i: usize = 0;
        while i < ADDRESS_LEN
            invariant
                i <= ADDRESS_LEN,
                other@.len() == ADDRESS_LEN,
                forall|k: int| 0 <= k < i ==> self.bytes@[k] == other@[k],
            decreases ADDRESS_LEN - i,
        {
            if self.bytes[i] != other[i] {
                return false;
            }
            i += 1;
        }
        assert(self@ =~= other@);
        true
    }

    /// The address as text under the prefix `hrp`.
    pub fn encode(&self, hrp: &str) -> (r: Result<Vec<u8>, ParserError>)
        ensures
            match spec_encode(hrp@, self@) {
                Some(text) => r matches Ok(encoded) && encoded@ == text,
                None => r == Err::<Vec<u8>, ParserError>(ParserError::InvalidAddress),
            },
    {
        match bech32_encode(hrp, self.bytes.as_slice()) {
            Some(text) => Ok(text),
            None => Err(ParserError::InvalidAddress),
        }
    }
}

/// The addresses of a list, each as its bytes.
pub open spec fn address_views(list: Seq<Address>) -> Seq<Seq<u8>> {
    Seq::new(list.len(), |i: int| list[i]@)
}

/// `count` addresses in a row, behind those already `done`.
pub open spec fn spec_addresses(s: Seq<u8>, count: nat, done: Seq<Seq<u8>>) -> Parsed<
    Seq<Seq<u8>>,
>
    decreases count,
{
    if count == 0 {
        Ok((s, done))
    } else {
        match spec_take(s, ADDRESS_LEN as nat) {
            Err(e) => Err(e),
            Ok((rest, address)) => spec_addresses(rest, (count - 1) as nat, done.push(address)),
        }
    }
}

/// Reads `count` addresses. Each takes twenty bytes of the input.
pub fn parse_addresses(input: &[u8], count: u32) -> (r: Result<(&[u8], Vec<Address>), ParserError>)
    ensures
        match r {
            Ok((rest, list)) => {
                &&& spec_addresses(input@, count as nat, Seq::empty()) == Ok::<_, ParserError>(
                    (rest@, address_views(list@)),
                )
                &&& list@.len() == count
                &&& rest@.len() + ADDRESS_LEN * count == input@.len()
                &&& is_rest_of(rest@, input@)
            },
            Err(e) => spec_addresses(input@, count as nat, Seq::empty()) == Err::<
                (Seq<u8>, Seq<Seq<u8>>),
                _,
            >(e),
        },
{
    broadcast use group_rest_of;

    let mut list: Vec<Address> = Vec::new();
    let mut rest = input;
    let mut i: u32 = 0;
    assert(address_views(list@) =~= Seq::empty());
    while i < count
        invariant
            i <= count,
            list@.len() == i,
            rest@.len() + ADDRESS_LEN * i == input@.len(),
            is_rest_of(rest@, input@),
            spec_addresses(input@, count as nat, Seq::empty()) == spec_addresses(
                rest@,
                (count - i) as nat,
                address_views(list@),
            ),
        decreases count - i,
    {
        broadcast use group_rest_of;

        let (after, address) = Address::from_bytes(rest)?;
        assert(address_views(list@.push(address)) =~= address_views(list@).push(address@));
        list.push(address);
        rest = after;
        i += 1;
    }
    Ok((rest, list))
}

} // verus!
