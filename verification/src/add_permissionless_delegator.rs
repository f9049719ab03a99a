//! The transaction that delegates stake to a validator of a subnet.

use crate::address::{spec_encode, Address};
use crate::base_tx::{spec_base_tx, spec_header, spec_hrp, BaseTxFields, BaseTxView, Header, HeaderView};
use crate::display::{show, shows, Text};
use crate::errors::{ParserError, ViewError};
use crate::input::total_input_amount;
use crate::mask::{all_set, VisibilityMask, MASK_CAPACITY};
use crate::output::{amount_text, inner_items, output_item_text, OutputView, TransferableOutput};
use crate::output_list::{
    all_items, disable_matching, item_position, lemma_visible_at_most_all, output_with_item,
    outputs_view, parse_outputs, spec_outputs, sum_amounts, suppressed, total_amount,
    visible_item_count, visible_items,
};
use crate::reader::{
    be_u32, group_rest_of, leaves_rest, parsed_as, spec_be_u32, spec_tag, spec_take, tag_u32,
    Parsed,
};
use crate::text::{fixed_point, nano_avax_to_fp_str};
use crate::validator::{
    spec_owners, spec_validator, subnet_item_text, validator_item_text, OwnersView,
    SECPOutputOwners, SubnetId, Validator, ValidatorView, VALIDATOR_ITEMS,
};
use vstd::prelude::*;
use vstd::string::*;

verus! {

/// The discriminant of this kind of transaction.
pub const PVM_ADD_PERMISSIONLESS_DELEGATOR: u32 = 0x1a;

/// What the transaction says, and which of its stake outputs are visible.
pub struct TxView {
    pub header: HeaderView,
    pub base: BaseTxView,
    pub validator: ValidatorView,
    pub subnet_id: Seq<u8>,
    pub stake: Seq<OutputView>,
    pub visible: Seq<bool>,
    pub rewards_owner: OwnersView,
}

impl TxView {
    /// What holds of every decoded transaction: a mask tracks its outputs,
    /// the stake outputs add up to the validator's weight, and the count of
    /// its items fits the machine's word.
    pub open spec fn valid(self) -> bool {
        &&& self.base.outputs.len() <= MASK_CAPACITY
        &&& self.base.visible.len() == MASK_CAPACITY
        &&& self.stake.len() <= MASK_CAPACITY
        &&& self.visible.len() == MASK_CAPACITY
        &&& total_amount(self.stake) == self.validator.weight
        &&& all_items(self.base.outputs) + all_items(self.stake)
            + self.rewards_owner.addresses.len() + 7 <= usize::MAX
    }

    /// The items that the visible base outputs show.
    pub open spec fn base_items(self) -> nat {
        visible_items(self.base.outputs, self.base.visible)
    }

    /// The items that the visible stake outputs show.
    pub open spec fn stake_items(self) -> nat {
        visible_items(self.stake, self.visible)
    }

    /// The number of items: the banner, the visible base outputs, the
    /// validator, the subnet, the visible stake outputs, the addresses that
    /// the rewards go to, and the fee.
    pub open spec fn num_items(self) -> nat {
        (1 + self.base_items() + VALIDATOR_ITEMS + 1 + self.stake_items()
            + self.rewards_owner.addresses.len() + 1) as nat
    }

    /// The fee: what the inputs hold beyond the base outputs and the stake.
    /// It is not defined when a sum leaves the 64-bit range or the outputs
    /// exceed the inputs.
    pub open spec fn fee(self) -> Result<u64, ParserError> {
        let inputs = total_input_amount(self.base.inputs);
        let outputs = total_amount(self.base.outputs) + total_amount(self.stake);
        if inputs > u64::MAX || outputs > u64::MAX || inputs < outputs {
            Err(ParserError::OperationOverflows)
        } else {
            Ok((inputs - outputs) as u64)
        }
    }

    /// An address as text under the prefix of the transaction's network.
    pub open spec fn address_text(self, address: Seq<u8>) -> Result<Seq<u8>, ViewError> {
        match spec_hrp(self.header.network_id) {
            Err(_) => Err(ViewError::Unknown),
            Ok(hrp) => match spec_encode(hrp, address) {
                None => Err(ViewError::Unknown),
                Some(text) => Ok(text),
            },
        }
    }

    /// Item `n` of an output under the caption `header`: the amount under
    /// the caption, then the addresses encoded for the network, then what
    /// the output itself shows behind them.
    pub open spec fn output_with_header_text(self, output: OutputView, n: nat, header: Seq<u8>) -> Text {
        if n == 0 {
            Ok((header, amount_text(output)))
        } else if n < inner_items(output) {
            match self.address_text(output.addresses[n - 1]) {
                Err(e) => Err(e),
                Ok(text) => Ok(("Address".spec_bytes(), text)),
            }
        } else {
            output_item_text(output, n)
        }
    }

    /// Item `n` of the visible outputs of a list.
    pub open spec fn outputs_text(
        self,
        outputs: Seq<OutputView>,
        visible: Seq<bool>,
        n: nat,
        header: Seq<u8>,
    ) -> Text {
        match item_position(outputs, visible, n) {
            None => Err(ViewError::NoData),
            Some((at, item)) => self.output_with_header_text(outputs[at as int], item, header),
        }
    }

    /// The address number `n` of those that the rewards go to.
    pub open spec fn rewards_text(self, n: nat) -> Text {
        if n < self.rewards_owner.addresses.len() {
            match self.address_text(self.rewards_owner.addresses[n as int]) {
                Err(e) => Err(e),
                Ok(text) => Ok(("Rewards to".spec_bytes(), text)),
            }
        } else {
            Err(ViewError::NoData)
        }
    }

    /// The fee, where it is defined.
    pub open spec fn fee_text(self) -> Text {
        match self.fee() {
            Err(_) => Err(ViewError::Unknown),
            Ok(fee) => Ok(("Fee(AVAX)".spec_bytes(), fixed_point(fee))),
        }
    }

    /// Item `n` of the last segment: the reward addresses, then the fee.
    pub open spec fn last_items_text(self, n: nat) -> Text {
        if n < self.rewards_owner.addresses.len() {
            self.rewards_text(n)
        } else if n == self.rewards_owner.addresses.len() {
            self.fee_text()
        } else {
            Err(ViewError::NoData)
        }
    }

    /// Item `n` of the transaction. The segments follow each other in a
    /// fixed order, each as long as it has items.
    pub open spec fn item_text(self, n: nat) -> Text {
        let base = self.base_items();
        let stake = self.stake_items();
        if n == 0 {
            Ok(
                (
                    "Add Permissionless Delegator Transaction".spec_bytes(),
                    "Transaction".spec_bytes(),
                ),
            )
        } else if n - 1 < base {
            self.outputs_text(
                self.base.outputs,
                self.base.visible,
                (n - 1) as nat,
                "Transfer".spec_bytes(),
            )
        } else if n - 1 < base + VALIDATOR_ITEMS {
            validator_item_text(self.validator, (n - 1 - base) as nat)
        } else if n - 1 == base + VALIDATOR_ITEMS {
            subnet_item_text(self.subnet_id, 0)
        } else if n - 1 < base + VALIDATOR_ITEMS + 1 + stake {
            self.outputs_text(
                self.stake,
                self.visible,
                (n - 1 - (base + VALIDATOR_ITEMS + 1)) as nat,
                "Stake".spec_bytes(),
            )
        } else {
            self.last_items_text((n - 1 - (base + VALIDATOR_ITEMS + 1 + stake)) as nat)
        }
    }

    /// The transaction after the change outputs to `address` were hidden,
    /// among the base outputs and among the stake outputs.
    pub open spec fn suppress(self, address: Seq<u8>) -> TxView {
        TxView {
            base: BaseTxView {
                visible: suppressed(self.base.outputs, self.base.visible, address),
                ..self.base
            },
            visible: suppressed(self.stake, self.visible, address),
            ..self
        }
    }
}

/// The transaction on the wire: its discriminant, the header, the base
/// fields, the validator, the subnet, the counted stake outputs and the
/// owners of the rewards. There may be no more stake outputs than a mask
/// can track, which is checked before any of them is read, and their
/// amounts must add up, within 64 bits, to the validator's weight. Every
/// stake output starts out visible.
pub open spec fn spec_tx(s: Seq<u8>) -> Parsed<TxView> {
    match spec_tag(s, PVM_ADD_PERMISSIONLESS_DELEGATOR) {
        Err(e) => Err(e),
        Ok(s) => match spec_header(s) {
            Err(e) => Err(e),
            Ok((s, header)) => match spec_base_tx(s) {
                Err(e) => Err(e),
                Ok((s, base)) => match spec_validator(s) {
                    Err(e) => Err(e),
                    Ok((s, validator)) => match spec_take(s, 32) {
                        Err(e) => Err(e),
                        Ok((s, subnet_id)) => match spec_be_u32(s) {
                            Err(e) => Err(e),
                            Ok((s, num_outputs)) => if num_outputs > MASK_CAPACITY {
                                Err(ParserError::TooManyOutputs)
                            } else {
                                match spec_outputs(s, num_outputs as nat, Seq::empty()) {
                                    Err(e) => Err(e),
                                    Ok((s, stake)) => if total_amount(stake) > u64::MAX {
                                        Err(ParserError::OperationOverflows)
                                    } else if total_amount(stake) != validator.weight {
                                        Err(ParserError::InvalidStakingAmount)
                                    } else {
                                        match spec_owners(s) {
                                            Err(e) => Err(e),
                                            Ok((s, rewards_owner)) => Ok(
                                                (
                                                    s,
                                                    TxView {
                                                        header,
                                                        base,
                                                        validator,
                                                        subnet_id,
                                                        stake,
                                                        visible: all_set(),
                                                        rewards_owner,
                                                    },
                                                ),
                                            ),
                                        }
                                    },
                                }
                            },
                        },
                    },
                },
            },
        },
    }
}

/// A decoded transaction. Nothing but the visibility of its outputs can
/// change after it was decoded.
#[derive(Debug, PartialEq, Eq)]
pub struct AddPermissionlessDelegatorTx {
    tx_header: Header,
    base_tx: BaseTxFields,
    validator: Validator,
    subnet_id: SubnetId,
    stake: Vec<TransferableOutput>,
    // which of the stake outputs may be shown
    renderable_out: VisibilityMask,
    rewards_owner: SECPOutputOwners,
}

impl View for AddPermissionlessDelegatorTx {
    type V = TxView;

    closed spec fn view(&self) -> TxView {
        TxView {
            header: self.tx_header@,
            base: self.base_tx@,
            validator: self.validator@,
            subnet_id: self.subnet_id@,
            stake: outputs_view(self.stake@),
            visible: self.renderable_out@,
            rewards_owner: self.rewards_owner@,
        }
    }
}

impl AddPermissionlessDelegatorTx {
    /// Decodes a transaction from the front of `input` and returns it with
    /// the input that is left.
    pub fn from_bytes(input: &[u8]) -> (r: Result<
        (&[u8], AddPermissionlessDelegatorTx),
        ParserError,
    >)
        ensures
            parsed_as(r, spec_tx(input@)),
            leaves_rest(r, input@),
            r matches Ok((_, tx)) ==> tx@.valid(),
    {
        broadcast use group_rest_of;

        let total: usize = input.len();
        let rem = tag_u32(input, PVM_ADD_PERMISSIONLESS_DELEGATOR)?;
        let (rem, tx_header) = Header::from_bytes(rem)?;
        let (rem, base_tx) = BaseTxFields::from_bytes(rem)?;
        let (rem, validator) = Validator::from_bytes(rem)?;
        let (rem, subnet_id) = SubnetId::from_bytes(rem)?;
        // the mask bounds the number of stake outputs: check it before
        // reading any of them
        let (rem, num_outputs) = be_u32(rem)?;
        if num_outputs as usize > MASK_CAPACITY {
            return Err(ParserError::TooManyOutputs);
        }
        let (rem, stake) = parse_outputs(rem, num_outputs)?;
        // the stake outputs must add up to the validator's weight
        let staked = Self::sum_stake_outputs_amount(&stake)?;
        if validator.weight != staked {
            return Err(ParserError::InvalidStakingAmount);
        }
        let (rem, rewards_owner) = SECPOutputOwners::from_bytes(rem)?;
        // every stake output starts out visible
        let renderable_out = VisibilityMask::all_visible();
        Ok(
            (
                rem,
                AddPermissionlessDelegatorTx {
                    tx_header,
                    base_tx,
                    validator,
                    subnet_id,
                    stake,
                    renderable_out,
                    rewards_owner,
                },
            ),
        )
    }

    /// The header.
    pub fn tx_header(&self) -> (r: &Header)
        ensures
            r@ == self@.header,
    {
        &self.tx_header
    }

    /// The base fields.
    pub fn base_tx(&self) -> (r: &BaseTxFields)
        ensures
            r@ == self@.base,
    {
        &self.base_tx
    }

    /// The validator.
    pub fn validator(&self) -> (r: &Validator)
        ensures
            r@ == self@.validator,
    {
        &self.validator
    }

    /// The subnet.
    pub fn subnet_id(&self) -> (r: &SubnetId)
        ensures
            r@ == self@.subnet_id,
    {
        &self.subnet_id
    }

    /// The stake outputs.
    pub fn stake(&self) -> (r: &Vec<TransferableOutput>)
        ensures
            outputs_view(r@) == self@.stake,
    {
        &self.stake
    }

    /// The owners of the rewards.
    pub fn rewards_owner(&self) -> (r: &SECPOutputOwners)
        ensures
            r@ == self@.rewards_owner,
    {
        &self.rewards_owner
    }

    /// Hides the change: every base output and every stake output that
    /// goes to exactly one address, which is `address`. An output with no
    /// address or with several stays as it is, whatever its addresses.
    pub fn disable_output_if(&mut self, address: &[u8])
        requires
            old(self)@.valid(),
        ensures
            final(self)@ == old(self)@.suppress(address@),
            final(self)@.valid(),
    {
        // the transfers of a staking transaction matter little: hide the
        // change even where it is the only output
        self.base_tx.force_disable_output(address);
        let mut render = self.renderable_out;
        disable_matching(&self.stake, &mut render, address);
        self.renderable_out = render;
    }

    /// The fee that the transaction pays.
    pub fn fee(&self) -> (r: Result<u64, ParserError>)
        ensures
            r == self@.fee(),
    {
        let sum_inputs = self.base_tx.sum_inputs_amount()?;
        let base_outputs = self.base_tx.sum_outputs_amount()?;
        let stake_outputs = Self::sum_stake_outputs_amount(&self.stake)?;
        let total_outputs = match base_outputs.checked_add(stake_outputs) {
            Some(sum) => sum,
            None => {
                return Err(ParserError::OperationOverflows);
            },
        };
        match sum_inputs.checked_sub(total_outputs) {
            Some(fee) => Ok(fee),
            None => Err(ParserError::OperationOverflows),
        }
    }

    /// The number of items that the visible stake outputs show.
    pub fn num_stake_items(&self) -> (r: usize)
        requires
            self@.valid(),
        ensures
            r == self@.stake_items(),
    {
        visible_item_count(&self.stake, &self.renderable_out)
    }

    /// The sum of the amounts of `stake`, unless it leaves the 64-bit range.
    pub fn sum_stake_outputs_amount(stake: &Vec<TransferableOutput>) -> (r: Result<
        u64,
        ParserError,
    >)
        ensures
            match r {
                Ok(sum) => sum == total_amount(outputs_view(stake@)),
                Err(e) => e == ParserError::OperationOverflows && total_amount(
                    outputs_view(stake@),
                ) > u64::MAX,
            },
    {
        sum_amounts(stake)
    }

    /// The visible stake output that holds item `item_n` of the stake
    /// segment, and the index of the item within that output.
    pub fn stake_output_with_item(&self, item_n: u8) -> (r: Result<
        (&TransferableOutput, u8),
        ParserError,
    >)
        requires
            self@.valid(),
        ensures
            match item_position(self@.stake, self@.visible, item_n as nat) {
                Some((at, item)) => r matches Ok((output, local)) && at < self@.stake.len()
                    && output@ == self@.stake[at as int] && local == item,
                None => r matches Err(e) && e == ParserError::DisplayIdxOutOfRange,
            },
    {
        output_with_item(&self.stake, &self.renderable_out, item_n)
    }

    /// The number of items.
    pub fn num_items(&self) -> (r: usize)
        requires
            self@.valid(),
        ensures
            r == self@.num_items(),
    {
        proof {
            lemma_visible_at_most_all(self@.base.outputs, self@.base.visible);
            lemma_visible_at_most_all(self@.stake, self@.visible);
        }
        1 + self.base_tx.base_outputs_num_items() + self.validator.num_items() + 1
            + self.rewards_owner.addresses.len() + self.num_stake_items() + 1
    }

    /// Renders item `item_n`: writes its title into `title` and page `page`
    /// of its body into `message`, and returns the number of pages of the
    /// body. An index that no item has is `NoData`.
    pub fn render_item(&self, item_n: u8, title: &mut [u8], message: &mut [u8], page: u8) -> (r:
        Result<u8, ViewError>)
        requires
            self@.valid(),
        ensures
            shows(
                self@.item_text(item_n as nat),
                page,
                old(title)@,
                old(message)@,
                final(title)@,
                final(message)@,
                r,
            ),
    {
        if item_n == 0 {
            return show(
                "Add Permissionless Delegator Transaction".as_bytes(),
                "Transaction".as_bytes(),
                title,
                message,
                page,
            );
        }
        proof {
            lemma_visible_at_most_all(self@.base.outputs, self@.base.visible);
            lemma_visible_at_most_all(self@.stake, self@.visible);
        }
        let item_n: usize = item_n as usize - 1;
        let base_outputs_items = self.base_tx.base_outputs_num_items();
        let validator_items = self.validator.num_items();
        let stake_outputs_items = self.num_stake_items();
        // where the stake outputs start
        let render_stake_outputs_at = base_outputs_items + validator_items + 1;

        if item_n < base_outputs_items {
            self.render_base_outputs(item_n as u8, title, message, page)
        } else if item_n < render_stake_outputs_at - 1 {
            self.validator.render_item((item_n - base_outputs_items) as u8, title, message, page)
        } else if item_n < render_stake_outputs_at {
            self.subnet_id.render_item(0, title, message, page)
        } else if item_n < render_stake_outputs_at + stake_outputs_items {
            self.render_stake_outputs(
                (item_n - render_stake_outputs_at) as u8,
                title,
                message,
                page,
            )
        } else {
            // the reward addresses and the fee
            let new_idx = item_n - (render_stake_outputs_at + stake_outputs_items);
            self.render_last_items(new_idx as u8, title, message, page)
        }
    }

    /// Renders item `item_n` of the base outputs, under the caption
    /// `Transfer`.
    pub fn render_base_outputs(
        &self,
        item_n: u8,
        title: &mut [u8],
        message: &mut [u8],
        page: u8,
    ) -> (r: Result<u8, ViewError>)
        ensures
            shows(
                self@.outputs_text(
                    self@.base.outputs,
                    self@.base.visible,
                    item_n as nat,
                    "Transfer".spec_bytes(),
                ),
                page,
                old(title)@,
                old(message)@,
                final(title)@,
                final(message)@,
                r,
            ),
    {
        match self.base_tx.base_output_with_item(item_n) {
            Ok((obj, item_idx)) => self.render_output_with_header(
                obj,
                item_idx,
                title,
                message,
                page,
                "Transfer",
            ),
            Err(_) => Err(ViewError::NoData),
        }
    }

    /// Renders item `item_n` of the stake outputs, under the caption
    /// `Stake`.
    pub fn render_stake_outputs(
        &self,
        item_n: u8,
        title: &mut [u8],
        message: &mut [u8],
        page: u8,
    ) -> (r: Result<u8, ViewError>)
        requires
            self@.valid(),
        ensures
            shows(
                self@.outputs_text(
                    self@.stake,
                    self@.visible,
                    item_n as nat,
                    "Stake".spec_bytes(),
                ),
                page,
                old(title)@,
                old(message)@,
                final(title)@,
                final(message)@,
                r,
            ),
    {
        match self.stake_output_with_item(item_n) {
            Ok((obj, item_idx)) => self.render_output_with_header(
                obj,
                item_idx,
                title,
                message,
                page,
                "Stake",
            ),
            Err(_) => Err(ViewError::NoData),
        }
    }

    /// An address as the network writes it.
    fn encode_address(&self, address: &Address) -> (r: Result<Vec<u8>, ViewError>)
        ensures
            match self@.address_text(address@) {
                Ok(text) => r matches Ok(encoded) && encoded@ == text,
                Err(e) => r matches Err(failure) && failure == e,
            },
    {
        let hrp = match self.tx_header.hrp() {
            Ok(hrp) => hrp,
            Err(_) => {
                return Err(ViewError::Unknown);
            },
        };
        match address.encode(hrp) {
            Ok(encoded) => Ok(encoded),
            Err(_) => Err(ViewError::Unknown),
        }
    }

    /// Renders item `item_n` of an output, base or stake, which differ in
    /// the caption `header` only:
    ///
    /// ```text
    /// Transfer or Stake:  0.5 AVAX
    /// Address:            the address, once for each
    /// Funds locked:       0.5 AVAX until the end of the lock
    /// ```
    pub fn render_output_with_header(
        &self,
        obj: &TransferableOutput,
        item_n: u8,
        title: &mut [u8],
        message: &mut [u8],
        page: u8,
        header: &'static str,
    ) -> (r: Result<u8, ViewError>)
        ensures
            shows(
                self@.output_with_header_text(obj@, item_n as nat, header.spec_bytes()),
                page,
                old(title)@,
                old(message)@,
                final(title)@,
                final(message)@,
                r,
            ),
    {
        let num_inner_items = obj.num_inner_items();
        if item_n == 0 {
            // the output's own summary, under the caption
            match obj.item_text(0) {
                Ok((_, body)) => show(header.as_bytes(), body.as_slice(), title, message, page),
                Err(e) => Err(e),
            }
        } else if (item_n as usize) < num_inner_items {
            // most outputs have one address, but any number is rendered
            match obj.get_address_at(item_n as usize - 1) {
                Some(address) => match self.encode_address(address) {
                    Ok(encoded) => show(
                        "Address".as_bytes(),
                        encoded.as_slice(),
                        title,
                        message,
                        page,
                    ),
                    Err(e) => Err(e),
                },
                None => Err(ViewError::NoData),
            }
        } else {
            // what the output shows of itself: the lock of a locked
            // output, and nothing otherwise
            obj.render_item(item_n, title, message, page)
        }
    }

    /// Renders the address number `addr_idx` of those that the rewards go
    /// to.
    pub fn render_rewards_to(
        &self,
        addr_idx: usize,
        title: &mut [u8],
        message: &mut [u8],
        page: u8,
    ) -> (r: Result<u8, ViewError>)
        ensures
            shows(
                self@.rewards_text(addr_idx as nat),
                page,
                old(title)@,
                old(message)@,
                final(title)@,
                final(message)@,
                r,
            ),
    {
        if addr_idx < self.rewards_owner.addresses.len() {
            match self.encode_address(&self.rewards_owner.addresses[addr_idx]) {
                Ok(encoded) => show(
                    "Rewards to".as_bytes(),
                    encoded.as_slice(),
                    title,
                    message,
                    page,
                ),
                Err(e) => Err(e),
            }
        } else {
            Err(ViewError::NoData)
        }
    }

    /// Renders item `item_n` of the last segment: the reward addresses and,
    /// behind them, the fee. A fee that cannot be computed is `Unknown`.
    pub fn render_last_items(
        &self,
        item_n: u8,
        title: &mut [u8],
        message: &mut [u8],
        page: u8,
    ) -> (r: Result<u8, ViewError>)
        ensures
            shows(
                self@.last_items_text(item_n as nat),
                page,
                old(title)@,
                old(message)@,
                final(title)@,
                final(message)@,
                r,
            ),
    {
        let num_addresses = self.rewards_owner.addresses.len();
        if (item_n as usize) < num_addresses {
            self.render_rewards_to(item_n as usize, title, message, page)
        } else if item_n as usize == num_addresses {
            match self.fee() {
                Ok(fee) => {
                    let fee_buff = nano_avax_to_fp_str(fee);
                    show("Fee(AVAX)".as_bytes(), fee_buff.as_slice(), title, message, page)
                },
                Err(_) => Err(ViewError::Unknown),
            }
        } else {
            Err(ViewError::NoData)
        }
    }
}

} // verus!
