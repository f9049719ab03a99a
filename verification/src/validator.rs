//! The validator that is delegated to, the subnet, and the owners of the
//! rewards.

use crate::address::{address_views, parse_addresses, spec_addresses, Address};
use crate::display::{show_text, shows, text_of, Text};
use crate::errors::{ParserError, ViewError};
use crate::reader::{
    be_u32, be_u64, group_rest_of, leaves_rest, parsed_as, spec_be_u32, spec_be_u64,
    spec_tag, spec_take, tag_u32, take_20, take_32, Parsed,
};
use crate::text::{
    append, fixed_point, hex_encode, hex_text, nano_avax_to_fp_str, time_text, timestamp_to_str,
};
use vstd::prelude::*;
use vstd::string::*;

verus! {

/// The number of items that a validator shows.
pub const VALIDATOR_ITEMS: usize = 4;

/// The discriminant of a set of output owners.
pub const SECP_OUTPUT_OWNERS: u32 = 0x0b;

/// What a validator block says.
pub struct ValidatorView {
    pub node_id: Seq<u8>,
    pub start_time: u64,
    pub end_time: u64,
    pub weight: u64,
}

/// The node that is delegated to, for how long, and with how much.
#[derive(Clone, Copy, Debug, PartialEq, Eq)]
pub struct Validator {
    pub node_id: [u8; 20],
    pub start_time: u64,
    pub end_time: u64,
    pub weight: u64,
}

impl View for Validator {
    type V = ValidatorView;

    open spec fn view(&self) -> ValidatorView {
        ValidatorView {
            node_id: self.node_id@,
            start_time: self.start_time,
            end_time: self.end_time,
            weight: self.weight,
        }
    }
}

/// A validator on the wire: node, start, end, weight.
#[verifier::opaque]
pub open spec fn spec_validator(s: Seq<u8>) -> Parsed<ValidatorView> {
    match spec_take(s, 20) {
        Err(e) => Err(e),
        Ok((s, node_id)) => match spec_be_u64(s) {
            Err(e) => Err(e),
            Ok((s, start_time)) => match spec_be_u64(s) {
                Err(e) => Err(e),
                Ok((s, end_time)) => match spec_be_u64(s) {
                    Err(e) => Err(e),
                    Ok((s, weight)) => Ok(
                        (s, ValidatorView { node_id, start_time, end_time, weight }),
                    ),
                },
            },
        },
    }
}

/// Item `n` of a validator: the node, the start and the end of the
/// delegation, and the stake.
pub open spec fn validator_item_text(v: ValidatorView, n: nat) -> Text {
    if n == 0 {
        Ok(("Validator".spec_bytes(), "NodeID-".spec_bytes() + hex_text(v.node_id)))
    } else if n == 1 {
        Ok(("Start time".spec_bytes(), time_text(v.start_time)))
    } else if n == 2 {
        Ok(("End time".spec_bytes(), time_text(v.end_time)))
    } else if n == 3 {
        Ok(("Total stake(AVAX)".spec_bytes(), fixed_point(v.weight)))
    } else {
        Err(ViewError::NoData)
    }
}

impl Validator {
    /// Reads a validator block. It takes more bytes than it shows items.
    pub fn from_bytes(input: &[u8]) -> (r: Result<(&[u8], Validator), ParserError>)
        ensures
            parsed_as(r, spec_validator(input@)),
            leaves_rest(r, input@),
            r matches Ok((rest, _)) ==> rest@.len() + VALIDATOR_ITEMS <= input@.len(),
    {
        broadcast use group_rest_of;

        reveal(spec_validator);
        let (rest, node_id) = take_20(input)?;
        let (rest, start_time) = be_u64(rest)?;
        let (rest, end_time) = be_u64(rest)?;
        let (rest, weight) = be_u64(rest)?;
        Ok((rest, Validator { node_id, start_time, end_time, weight }))
    }

    /// The number of items.
    pub fn num_items(&self) -> (r: usize)
        ensures
            r == VALIDATOR_ITEMS,
    {
        VALIDATOR_ITEMS
    }

    /// The title and body of item `item_n`.
    pub fn item_text(&self, item_n: u8) -> (r: Result<(&'static str, Vec<u8>), ViewError>)
        ensures
            text_of(r) == validator_item_text(self@, item_n as nat),
    {
        if item_n == 0 {
            let mut body: Vec<u8> = Vec::new();
            append(&mut body, "NodeID-".as_bytes());
            let id = hex_encode(self.node_id.as_slice());
            append(&mut body, id.as_slice());
            assert(body@ =~= "NodeID-".spec_bytes() + hex_text(self.node_id@));
            Ok(("Validator", body))
        } else if item_n == 1 {
            Ok(("Start time", timestamp_to_str(self.start_time)))
        } else if item_n == 2 {
            Ok(("End time", timestamp_to_str(self.end_time)))
        } else if item_n == 3 {
            Ok(("Total stake(AVAX)", nano_avax_to_fp_str(self.weight)))
        } else {
            Err(ViewError::NoData)
        }
    }

    /// Renders item `item_n`: its title, and page `page` of its body.
    pub fn render_item(&self, item_n: u8, title: &mut [u8], message: &mut [u8], page: u8) -> (r:
        Result<u8, ViewError>)
        ensures
            shows(
                validator_item_text(self@, item_n as nat),
                page,
                old(title)@,
                old(message)@,
                final(title)@,
                final(message)@,
                r,
            ),
    {
        show_text(self.item_text(item_n), title, message, page)
    }
}

/// The identifier that stands for the primary network.
pub open spec fn primary_network_id() -> Seq<u8> {
    Seq::new(32, |i: int| 0u8)
}

/// The one item of a subnet identifier: a name for the primary network,
/// hexadecimal for any other.
pub open spec fn subnet_item_text(id: Seq<u8>, n: nat) -> Text {
    if n != 0 {
        Err(ViewError::NoData)
    } else if id == primary_network_id() {
        Ok(("SubnetID".spec_bytes(), "Primary Subnet".spec_bytes()))
    } else {
        Ok(("SubnetID".spec_bytes(), hex_text(id)))
    }
}

/// The subnet that the validator validates.
#[derive(Clone, Copy, Debug, PartialEq, Eq)]
pub struct SubnetId {
    pub id: [u8; 32],
}

impl View for SubnetId {
    type V = Seq<u8>;

    open spec fn view(&self) -> Seq<u8> {
        self.id@
    }
}

impl SubnetId {
    /// The subnet with the identifier `id`.
    pub fn new(id: &[u8; 32]) -> (r: SubnetId)
        ensures
            r@ == id@,
    {
        SubnetId { id: *id }
    }

    /// The primary network.
    pub fn primary_network() -> (r: SubnetId)
        ensures
            r@ == primary_network_id(),
    {
        let r = SubnetId { id: [0u8; 32] };
        assert(r@ =~= primary_network_id());
        r
    }

    /// Reads a subnet identifier.
    pub fn from_bytes(input: &[u8]) -> (r: Result<(&[u8], SubnetId), ParserError>)
        ensures
            parsed_as(r, spec_take(input@, 32)),
            leaves_rest(r, input@),
    {
        let (rest, id) = take_32(input)?;
        Ok((rest, SubnetId { id }))
    }

    /// Whether this is the primary network.
    pub fn is_primary(&self) -> (r: bool)
        ensures
            r == (self@ == primary_network_id()),
    {
        let mut i: usize = 0;
        while i < 32
            invariant
                i <= 32,
                forall|k: int| 0 <= k < i ==> self.id@[k] == 0,
            decreases 32 - i,
        {
            if self.id[i] != 0 {
                assert(primary_network_id()[i as int] == 0);
                return false;
            }
            i += 1;
        }
        assert(self@ =~= primary_network_id());
        true
    }

    /// The number of items: one.
    pub fn num_items(&self) -> (r: usize)
        ensures
            r == 1,
    {
        1
    }

    /// The title and body of item `item_n`.
    pub fn item_text(&self, item_n: u8) -> (r: Result<(&'static str, Vec<u8>), ViewError>)
        ensures
            text_of(r) == subnet_item_text(self@, item_n as nat),
    {
        if item_n != 0 {
            Err(ViewError::NoData)
        } else if self.is_primary() {
            let mut body: Vec<u8> = Vec::new();
            append(&mut body, "Primary Subnet".as_bytes());
            assert(body@ =~= "Primary Subnet".spec_bytes());
            Ok(("SubnetID", body))
        } else {
            Ok(("SubnetID", hex_encode(self.id.as_slice())))
        }
    }

    /// Renders item `item_n`: its title, and page `page` of its body.
    pub fn render_item(&self, item_n: u8, title: &mut [u8], message: &mut [u8], page: u8) -> (r:
        Result<u8, ViewError>)
        ensures
            shows(
                subnet_item_text(self@, item_n as nat),
                page,
                old(title)@,
                old(message)@,
                final(title)@,
                final(message)@,
                r,
            ),
    {
        show_text(self.item_text(item_n), title, message, page)
    }
}

/// What a set of owners says.
pub struct OwnersView {
    pub locktime: u64,
    pub threshold: u32,
    pub addresses: Seq<Seq<u8>>,
}

/// The addresses that receive the rewards, how many of them must sign, and
/// from when on.
#[derive(Debug, PartialEq, Eq)]
pub struct SECPOutputOwners {
    pub locktime: u64,
    pub threshold: u32,
    pub addresses: Vec<Address>,
}

impl View for SECPOutputOwners {
    type V = OwnersView;

    open spec fn view(&self) -> OwnersView {
        OwnersView {
            locktime: self.locktime,
            threshold: self.threshold,
            addresses: address_views(self.addresses@),
        }
    }
}

/// A set of owners on the wire: its discriminant, locktime, threshold and
/// the counted addresses. The threshold may not exceed their number.
#[verifier::opaque]
pub open spec fn spec_owners(s: Seq<u8>) -> Parsed<OwnersView> {
    match spec_tag(s, SECP_OUTPUT_OWNERS) {
        Err(e) => Err(e),
        Ok(s) => match spec_be_u64(s) {
            Err(e) => Err(e),
            Ok((s, locktime)) => match spec_be_u32(s) {
                Err(e) => Err(e),
                Ok((s, threshold)) => match spec_be_u32(s) {
                    Err(e) => Err(e),
                    Ok((s, count)) => match spec_addresses(s, count as nat, Seq::empty()) {
                        Err(e) => Err(e),
                        Ok((s, addresses)) => if threshold > count {
                            Err(ParserError::InvalidThreshold)
                        } else {
                            Ok((s, OwnersView { locktime, threshold, addresses }))
                        },
                    },
                },
            },
        },
    }
}

impl SECPOutputOwners {
    /// Reads a set of owners. It takes more bytes than it has addresses.
    pub fn from_bytes(input: &[u8]) -> (r: Result<(&[u8], SECPOutputOwners), ParserError>)
        ensures
            parsed_as(r, spec_owners(input@)),
            leaves_rest(r, input@),
            r matches Ok((rest, owners)) ==> rest@.len() + owners@.addresses.len() + 1
                <= input@.len(),
    {
        broadcast use group_rest_of;

        reveal(spec_owners);
        let rest = tag_u32(input, SECP_OUTPUT_OWNERS)?;
        let (rest, locktime) = be_u64(rest)?;
        let (rest, threshold) = be_u32(rest)?;
        let (rest, count) = be_u32(rest)?;
        let (rest, addresses) = parse_addresses(rest, count)?;
        if threshold > count {
            return Err(ParserError::InvalidThreshold);
        }
        Ok((rest, SECPOutputOwners { locktime, threshold, addresses }))
    }
}

} // verus!
