//! Transferable inputs: the funds that a transaction spends.

use crate::errors::ParserError;
use crate::reader::{
    be_u32, be_u64, group_rest_of, is_rest_of, leaves_rest, parsed_as, spec_be_u32,
    spec_be_u64, spec_tag, spec_take, tag_u32, take_32, Parsed,
};
use vstd::prelude::*;

verus! {

/// The discriminant of a transfer input.
pub const SECP_TRANSFER_INPUT: u32 = 5;

/// What an input says.
pub struct InputView {
    pub tx_id: Seq<u8>,
    pub utxo_index: u32,
    pub asset_id: Seq<u8>,
    pub amount: u64,
    pub address_indices: Seq<u32>,
}

/// An unspent output of an earlier transaction, and who signs for it.
#[derive(Debug, PartialEq, Eq)]
pub struct TransferableInput {
    pub tx_id: [u8; 32],
    pub utxo_index: u32,
    pub asset_id: [u8; 32],
    pub amount: u64,
    pub address_indices: Vec<u32>,
}

impl View for TransferableInput {
    type V = InputView;

    open spec fn view(&self) -> InputView {
        InputView {
            tx_id: self.tx_id@,
            utxo_index: self.utxo_index,
            asset_id: self.asset_id@,
            amount: self.amount,
            address_indices: self.address_indices@,
        }
    }
}

/// What the inputs of a list say, in order.
pub open spec fn inputs_view(list: Seq<TransferableInput>) -> Seq<InputView> {
    Seq::new(list.len(), |i: int| list[i]@)
}

/// `count` signer indices in a row, behind those already `done`.
pub open spec fn spec_indices(s: Seq<u8>, count: nat, done: Seq<u32>) -> Parsed<Seq<u32>>
    decreases count,
{
    if count == 0 {
        Ok((s, done))
    } else {
        match spec_be_u32(s) {
            Err(e) => Err(e),
            Ok((rest, index)) => spec_indices(rest, (count - 1) as nat, done.push(index)),
        }
    }
}

/// An input on the wire: the spent transaction and output index, the
/// asset, the input discriminant, the amount and the counted signer indices.
pub open spec fn spec_input(s: Seq<u8>) -> Parsed<InputView> {
    match spec_take(s, 32) {
        Err(e) => Err(e),
        Ok((s, tx_id)) => match spec_be_u32(s) {
            Err(e) => Err(e),
            Ok((s, utxo_index)) => match spec_take(s, 32) {
                Err(e) => Err(e),
                Ok((s, asset_id)) => match spec_tag(s, SECP_TRANSFER_INPUT) {
                    Err(e) => Err(e),
                    Ok(s) => match spec_be_u64(s) {
                        Err(e) => Err(e),
                        Ok((s, amount)) => match spec_be_u32(s) {
                            Err(e) => Err(e),
                            Ok((s, count)) => match spec_indices(s, count as nat, Seq::empty()) {
                                Err(e) => Err(e),
                                Ok((s, address_indices)) => Ok(
                                    (
                                        s,
                                        InputView {
                                            tx_id,
                                            utxo_index,
                                            asset_id,
                                            amount,
                                            address_indices,
                                        },
                                    ),
                                ),
                            },
                        },
                    },
                },
            },
        },
    }
}

/// `count` inputs in a row, behind those already `done`.
pub open spec fn spec_inputs(s: Seq<u8>, count: nat, done: Seq<InputView>) -> Parsed<
    Seq<InputView>,
>
    decreases count,
{
    if count == 0 {
        Ok((s, done))
    } else {
        match spec_input(s) {
            Err(e) => Err(e),
            Ok((rest, input)) => spec_inputs(rest, (count - 1) as nat, done.push(input)),
        }
    }
}

/// The sum of the amounts.
pub open spec fn total_input_amount(inputs: Seq<InputView>) -> nat
    decreases inputs.len(),
{
    if inputs.len() == 0 {
        0
    } else {
        total_input_amount(inputs.drop_last()) + inputs.last().amount as nat
    }
}

/// The amounts of a prefix add up to no more than those of the list.
pub proof fn lemma_input_amount_grows(inputs: Seq<InputView>, i: int)
    requires
        0 <= i <= inputs.len(),
    ensures
        total_input_amount(inputs.take(i)) <= total_input_amount(inputs),
    decreases inputs.len() - i,
{
    if i < inputs.len() {
        lemma_input_amount_grows(inputs, i + 1);
        assert(inputs.take(i + 1).drop_last() =~= inputs.take(i));
    } else {
        assert(inputs.take(i) =~= inputs);
    }
}

/// Reads `count` signer indices.
fn parse_indices(input: &[u8], count: u32) -> (r: Result<(&[u8], Vec<u32>), ParserError>)
    ensures
        parsed_as(r, spec_indices(input@, count as nat, Seq::empty())),
        leaves_rest(r, input@),
{
    broadcast use group_rest_of;

    let mut list: Vec<u32> = Vec::new();
    let mut rest = input;
    let mut i: u32 = 0;
    while i < count
        invariant
            i <= count,
            is_rest_of(rest@, input@),
            spec_indices(input@, count as nat, Seq::empty()) == spec_indices(
                rest@,
                (count - i) as nat,
                list@,
            ),
        decreases count - i,
    {
        broadcast use group_rest_of;

        let (after, index) = be_u32(rest)?;
        list.push(index);
        rest = after;
        i += 1;
    }
    Ok((rest, list))
}

impl TransferableInput {
    /// Reads an input.
    pub fn from_bytes(input: &[u8]) -> (r: Result<(&[u8], TransferableInput), ParserError>)
        ensures
            parsed_as(r, spec_input(input@)),
            leaves_rest(r, input@),
        {
        broadcast use group_rest_of;

        let (rest, tx_id) = take_32(input)?;
        let (rest, utxo_index) = be_u32(rest)?;
        let (rest, asset_id) = take_32(rest)?;
        let rest = tag_u32(rest, SECP_TRANSFER_INPUT)?;
        let (rest, amount) = be_u64(rest)?;
        let (rest, count) = be_u32(rest)?;
        let (rest, address_indices) = parse_indices(rest, count)?;
        Ok((rest, TransferableInput { tx_id, utxo_index, asset_id, amount, address_indices }))
    }
}

/// Reads `count` inputs.
pub fn parse_inputs(input: &[u8], count: u32) -> (r: Result<
    (&[u8], Vec<TransferableInput>),
    ParserError,
>)
    ensures
        match r {
            Ok((rest, list)) => {
                &&& spec_inputs(input@, count as nat, Seq::empty()) == Ok::<_, ParserError>(
                    (rest@, inputs_view(list@)),
                )
                &&& is_rest_of(rest@, input@)
            },
            Err(e) => spec_inputs(input@, count as nat, Seq::empty()) == Err::<
                (Seq<u8>, Seq<InputView>),
                _,
            >(e),
        },
{
    broadcast use group_rest_of;

    let mut list: Vec<TransferableInput> = Vec::new();
    let mut rest = input;
    let mut i: u32 = 0;
    assert(inputs_view(list@) =~= Seq::empty());
    while i < count
        invariant
            i <= count,
            is_rest_of(rest@, input@),
            spec_inputs(input@, count as nat, Seq::empty()) == spec_inputs(
                rest@,
                (count - i) as nat,
                inputs_view(list@),
            ),
        decreases count - i,
    {
        broadcast use group_rest_of;

        let (after, one) = TransferableInput::from_bytes(rest)?;
        assert(inputs_view(list@.push(one)) =~= inputs_view(list@).push(one@));
        list.push(one);
        rest = after;
        i += 1;
    }
    Ok((rest, list))
}

/// The sum of the amounts, unless it leaves the 64-bit range.
pub fn sum_input_amounts(inputs: &Vec<TransferableInput>) -> (r: Result<u64, ParserError>)
    ensures
        match r {
            Ok(sum) => sum == total_input_amount(inputs_view(inputs@)),
            Err(e) => e == ParserError::OperationOverflows && total_input_amount(
                inputs_view(inputs@),
            ) > u64::MAX,
        },
{
    let ghost all = inputs_view(inputs@);
    let mut sum: u64 = 0;
    let mut i: usize = 0;
    while i < inputs.len()
        invariant
            i <= inputs@.len(),
            all == inputs_view(inputs@),
            sum == total_input_amount(all.take(i as int)),
        decreases inputs@.len() - i,
    {
        proof {
            assert(all.take(i + 1).drop_last() =~= all.take(i as int));
            lemma_input_amount_grows(all, i + 1);
        }
        match sum.checked_add(inputs[i].amount) {
            Some(more) => {
                sum = more;
            },
            None => {
                return Err(ParserError::OperationOverflows);
            },
        }
        i += 1;
    }
    assert(all.take(inputs@.len() as int) =~= all);
    Ok(sum)
}

} // verus!
