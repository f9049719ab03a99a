//! Transferable outputs, and lists of them with a visibility mask.

use crate::address::{address_views, parse_addresses, spec_addresses, Address};
use crate::display::{show_text, shows, text_of, Text};
use crate::errors::{ParserError, ViewError};
use crate::reader::{
    be_u32, be_u64, group_rest_of, leaves_rest, parsed_as, spec_be_u32, spec_be_u64,
    spec_tag, spec_take, tag_u32, take_32, Parsed,
};
use crate::text::{
    append, fixed_point, hex_encode, hex_text, nano_avax_to_fp_str, time_text, timestamp_to_str,
};
use vstd::prelude::*;
use vstd::string::*;

verus! {

/// The discriminant of a plain transfer output.
pub const SECP_TRANSFER_OUTPUT: u32 = 7;

/// The discriminant of an output whose funds are locked for staking.
pub const STAKEABLE_LOCK_OUTPUT: u32 = 0x16;

/// What an output says.
pub struct OutputView {
    pub asset_id: Seq<u8>,
    /// Until when the funds are locked, for a locked output.
    pub locked_until: Option<u64>,
    pub amount: u64,
    pub locktime: u64,
    pub threshold: u32,
    pub addresses: Seq<Seq<u8>>,
}

/// An amount of an asset that goes to a set of addresses, locked or not.
#[derive(Debug, PartialEq, Eq)]
pub struct TransferableOutput {
    asset_id: [u8; 32],
    locked_until: Option<u64>,
    amount: u64,
    locktime: u64,
    threshold: u32,
    addresses: Vec<Address>,
}

/// The items that an output shows without its lock: the amount and one for
/// each address.
pub open spec fn inner_items(o: OutputView) -> nat {
    1 + o.addresses.len()
}

/// The items that an output shows: a locked output has one more, for the
/// lock.
pub open spec fn output_items(o: OutputView) -> nat {
    inner_items(o) + if o.locked_until is Some {
        1nat
    } else {
        0nat
    }
}

/// The amount with its unit.
pub open spec fn amount_text(o: OutputView) -> Seq<u8> {
    fixed_point(o.amount) + " AVAX".spec_bytes()
}

/// The amount and the end of the lock.
pub open spec fn locked_text(o: OutputView) -> Seq<u8>
    recommends
        o.locked_until is Some,
{
    fixed_point(o.amount) + " AVAX until ".spec_bytes() + time_text(o.locked_until.unwrap())
}

/// Item `n` of an output as the output itself renders it: the amount, the
/// addresses in hexadecimal, and for a locked output the lock.
pub open spec fn output_item_text(o: OutputView, n: nat) -> Text {
    if n == 0 {
        Ok(("Amount".spec_bytes(), amount_text(o)))
    } else if n < inner_items(o) {
        Ok(("Address".spec_bytes(), hex_text(o.addresses[n - 1])))
    } else if n == inner_items(o) && o.locked_until is Some {
        Ok(("Funds locked".spec_bytes(), locked_text(o)))
    } else {
        Err(ViewError::NoData)
    }
}

/// The optional lock in front of an output: the lock's discriminant and the
/// time until which it holds, or nothing.
pub open spec fn spec_lock(s: Seq<u8>) -> Parsed<Option<u64>> {
    match spec_be_u32(s) {
        Err(e) => Err(e),
        Ok((rest, type_id)) => if type_id == STAKEABLE_LOCK_OUTPUT {
            match spec_be_u64(rest) {
                Err(e) => Err(e),
                Ok((rest, until)) => Ok((rest, Some(until))),
            }
        } else {
            Ok((s, None))
        },
    }
}

/// An output on the wire: asset, optional lock, the transfer discriminant,
/// amount, locktime, threshold, and the counted addresses. The threshold
/// may not exceed the number of addresses.
pub open spec fn spec_output(s: Seq<u8>) -> Parsed<OutputView> {
    match spec_take(s, 32) {
        Err(e) => Err(e),
        Ok((s, asset_id)) => match spec_lock(s) {
            Err(e) => Err(e),
            Ok((s, locked_until)) => match spec_tag(s, SECP_TRANSFER_OUTPUT) {
                Err(e) => Err(e),
                Ok(s) => match spec_be_u64(s) {
                    Err(e) => Err(e),
                    Ok((s, amount)) => match spec_be_u64(s) {
                        Err(e) => Err(e),
                        Ok((s, locktime)) => match spec_be_u32(s) {
                            Err(e) => Err(e),
                            Ok((s, threshold)) => match spec_be_u32(s) {
                                Err(e) => Err(e),
                                Ok((s, count)) => match spec_addresses(
                                    s,
                                    count as nat,
                                    Seq::empty(),
                                ) {
                                    Err(e) => Err(e),
                                    Ok((s, addresses)) => if threshold > count {
                                        Err(ParserError::InvalidThreshold)
                                    } else {
                                        Ok(
                                            (
                                                s,
                                                OutputView {
                                                    asset_id,
                                                    locked_until,
                                                    amount,
                                                    locktime,
                                                    threshold,
                                                    addresses,
                                                },
                                            ),
                                        )
                                    },
                                },
                            },
                        },
                    },
                },
            },
        },
    }
}

impl View for TransferableOutput {
    type V = OutputView;

    closed spec fn view(&self) -> OutputView {
        OutputView {
            asset_id: self.asset_id@,
            locked_until: self.locked_until,
            amount: self.amount,
            locktime: self.locktime,
            threshold: self.threshold,
            addresses: address_views(self.addresses@),
        }
    }
}

impl TransferableOutput {
    /// The item count of an output fits the machine's word.
    #[verifier::type_invariant]
    spec fn counts_fit(&self) -> bool {
        self.addresses@.len() + 2 <= usize::MAX
    }

    /// Reads the optional lock.
    fn lock_from_bytes(input: &[u8]) -> (r: Result<(&[u8], Option<u64>), ParserError>)
        ensures
            parsed_as(r, spec_lock(input@)),
            leaves_rest(r, input@),
    {
        broadcast use group_rest_of;

        let (rest, type_id) = be_u32(input)?;
        if type_id == STAKEABLE_LOCK_OUTPUT {
            let (rest, until) = be_u64(rest)?;
            Ok((rest, Some(until)))
        } else {
            Ok((input, None))
        }
    }

    /// Reads an output. Every item that the output shows takes at least a
    /// byte of the input.
    pub fn from_bytes(input: &[u8]) -> (r: Result<(&[u8], TransferableOutput), ParserError>)
        ensures
            parsed_as(r, spec_output(input@)),
            leaves_rest(r, input@),
            r matches Ok((rest, output)) ==> rest@.len() + output_items(output@) <= input@.len(),
    {
        broadcast use group_rest_of;

        let (rest, asset_id) = take_32(input)?;
        let (rest, locked_until) = Self::lock_from_bytes(rest)?;
        let rest = tag_u32(rest, SECP_TRANSFER_OUTPUT)?;
        let (rest, amount) = be_u64(rest)?;
        let (rest, locktime) = be_u64(rest)?;
        let (rest, threshold) = be_u32(rest)?;
        let (rest, count) = be_u32(rest)?;
        let available: usize = rest.len();
        let (rest, addresses) = parse_addresses(rest, count)?;
        assert(addresses@.len() * 20 <= available);
        if threshold > count {
            return Err(ParserError::InvalidThreshold);
        }
        Ok((rest, TransferableOutput { asset_id, locked_until, amount, locktime, threshold, addresses }))
    }

    /// The identifier of the asset.
    pub fn asset_id(&self) -> (r: &[u8; 32])
        ensures
            r@ == self@.asset_id,
    {
        &self.asset_id
    }

    /// The amount, in the smallest unit of the asset.
    pub fn amount(&self) -> (r: u64)
        ensures
            r == self@.amount,
    {
        self.amount
    }

    /// The time before which the output cannot be spent.
    pub fn locktime(&self) -> (r: u64)
        ensures
            r == self@.locktime,
    {
        self.locktime
    }

    /// How many of the addresses must sign to spend the output.
    pub fn threshold(&self) -> (r: u32)
        ensures
            r == self@.threshold,
    {
        self.threshold
    }

    /// Until when the funds are locked for staking, for a locked output.
    pub fn locked_until(&self) -> (r: Option<u64>)
        ensures
            r == self@.locked_until,
    {
        self.locked_until
    }

    /// The number of addresses.
    pub fn num_addresses(&self) -> (r: usize)
        ensures
            r == self@.addresses.len(),
    {
        self.addresses.len()
    }

    /// The address at `index`, if there is one.
    pub fn get_address_at(&self, index: usize) -> (r: Option<&Address>)
        ensures
            match r {
                Some(address) => index < self@.addresses.len() && address@
                    == self@.addresses[index as int],
                None => index >= self@.addresses.len(),
            },
    {
        if index < self.addresses.len() {
            Some(&self.addresses[index])
        } else {
            None
        }
    }

    /// Whether `address` is among the addresses.
    pub fn contain_address(&self, address: &[u8]) -> (r: bool)
        ensures
            r == self@.addresses.contains(address@),
    {
        let mut i: usize = 0;
        while i < self.addresses.len()
            invariant
                i <= self.addresses@.len(),
                forall|k: int| 0 <= k < i ==> self@.addresses[k] != address@,
            decreases self.addresses@.len() - i,
        {
            if self.addresses[i].is(address) {
                assert(self@.addresses[i as int] == address@);
                return true;
            }
            i += 1;
        }
        false
    }

    /// The number of items without the lock.
    pub fn num_inner_items(&self) -> (r: usize)
        ensures
            r == inner_items(self@),
    {
        proof {
            use_type_invariant(self);
        }
        1 + self.addresses.len()
    }

    /// The number of items.
    pub fn num_items(&self) -> (r: usize)
        ensures
            r == output_items(self@),
    {
        proof {
            use_type_invariant(self);
        }
        match self.locked_until {
            Some(_) => 2 + self.addresses.len(),
            None => 1 + self.addresses.len(),
        }
    }

    /// The title and body of item `item_n`.
    pub fn item_text(&self, item_n: u8) -> (r: Result<(&'static str, Vec<u8>), ViewError>)
        ensures
            text_of(r) == output_item_text(self@, item_n as nat),
    {
        proof {
            use_type_invariant(self);
        }
        let n: usize = item_n as usize;
        let inner: usize = 1 + self.addresses.len();
        if n == 0 {
            let mut body = nano_avax_to_fp_str(self.amount);
            append(&mut body, " AVAX".as_bytes());
            Ok(("Amount", body))
        } else if n < inner {
            Ok(("Address", hex_encode(self.addresses[n - 1].bytes.as_slice())))
        } else {
            match self.locked_until {
                Some(until) => {
                    if n == inner {
                        let mut body = nano_avax_to_fp_str(self.amount);
                        append(&mut body, " AVAX until ".as_bytes());
                        let time = timestamp_to_str(until);
                        append(&mut body, time.as_slice());
                        Ok(("Funds locked", body))
                    } else {
                        Err(ViewError::NoData)
                    }
                },
                None => Err(ViewError::NoData),
            }
        }
    }

    /// Renders item `item_n` of the output: its title, and page `page` of
    /// its body.
    pub fn render_item(&self, item_n: u8, title: &mut [u8], message: &mut [u8], page: u8) -> (r:
        Result<u8, ViewError>)
        ensures
            shows(
                output_item_text(self@, item_n as nat),
                page,
                old(title)@,
                old(message)@,
                final(title)@,
                final(message)@,
                r,
            ),
    {
        show_text(self.item_text(item_n), title, message, page)
    }
}

} // verus!
