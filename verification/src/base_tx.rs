//! The header and the fields that every transaction of the chain has:
//! outputs, inputs and a memo.

use crate::errors::ParserError;
use crate::input::{
    inputs_view, parse_inputs, spec_inputs, sum_input_amounts, total_input_amount, InputView,
    TransferableInput,
};
use crate::mask::{all_set, VisibilityMask, MASK_CAPACITY};
use crate::output::{OutputView, TransferableOutput};
use crate::output_list::{
    all_items, disable_matching, item_position, output_with_item, outputs_view, parse_outputs,
    spec_outputs, sum_amounts, suppressed, total_amount, visible_item_count, visible_items,
};
use crate::reader::{
    be_u32, group_rest_of, leaves_rest, parsed_as, spec_be_u32, spec_take, take, take_32,
    Parsed,
};
use vstd::prelude::*;
use vstd::slice::*;

verus! {

/// The identifier of the main network.
pub const NETWORK_ID_MAINNET: u32 = 1;

/// The identifier of the public test network.
pub const NETWORK_ID_FUJI: u32 = 5;

/// The identifier of a local network.
pub const NETWORK_ID_LOCAL: u32 = 12345;

/// What a header says.
pub struct HeaderView {
    pub network_id: u32,
    pub blockchain_id: Seq<u8>,
}

/// The network and the chain that a transaction is for.
#[derive(Clone, Copy, Debug, PartialEq, Eq)]
pub struct Header {
    pub network_id: u32,
    pub blockchain_id: [u8; 32],
}

impl View for Header {
    type V = HeaderView;

    open spec fn view(&self) -> HeaderView {
        HeaderView { network_id: self.network_id, blockchain_id: self.blockchain_id@ }
    }
}

/// A header on the wire: the network and the chain.
#[verifier::opaque]
pub open spec fn spec_header(s: Seq<u8>) -> Parsed<HeaderView> {
    match spec_be_u32(s) {
        Err(e) => Err(e),
        Ok((s, network_id)) => match spec_take(s, 32) {
            Err(e) => Err(e),
            Ok((s, blockchain_id)) => Ok((s, HeaderView { network_id, blockchain_id })),
        },
    }
}

/// The prefix under which the addresses of a network are written.
pub open spec fn spec_hrp(network_id: u32) -> Result<Seq<char>, ParserError> {
    if network_id == NETWORK_ID_MAINNET {
        Ok("avax"@)
    } else if network_id == NETWORK_ID_FUJI {
        Ok("fuji"@)
    } else if network_id == NETWORK_ID_LOCAL {
        Ok("local"@)
    } else {
        Err(ParserError::InvalidNetworkId)
    }
}

impl Header {
    /// Reads a header.
    pub fn from_bytes(input: &[u8]) -> (r: Result<(&[u8], Header), ParserError>)
        ensures
            parsed_as(r, spec_header(input@)),
            leaves_rest(r, input@),
    {
        broadcast use group_rest_of;

        reveal(spec_header);
        let (rest, network_id) = be_u32(input)?;
        let (rest, blockchain_id) = take_32(rest)?;
        Ok((rest, Header { network_id, blockchain_id }))
    }

    /// The prefix of the network's addresses, for the networks that have
    /// one.
    pub fn hrp(&self) -> (r: Result<&'static str, ParserError>)
        ensures
            match r {
                Ok(hrp) => spec_hrp(self.network_id) == Ok::<_, ParserError>(hrp@),
                Err(e) => spec_hrp(self.network_id) == Err::<Seq<char>, _>(e),
            },
    {
        if self.network_id == NETWORK_ID_MAINNET {
            Ok("avax")
        } else if self.network_id == NETWORK_ID_FUJI {
            Ok("fuji")
        } else if self.network_id == NETWORK_ID_LOCAL {
            Ok("local")
        } else {
            Err(ParserError::InvalidNetworkId)
        }
    }
}

/// What the base fields say, and which of the outputs are visible.
pub struct BaseTxView {
    pub outputs: Seq<OutputView>,
    pub inputs: Seq<InputView>,
    pub memo: Seq<u8>,
    pub visible: Seq<bool>,
}

/// The outputs, inputs and memo of a transaction, with the visibility of
/// its outputs.
#[derive(Debug, PartialEq, Eq)]
pub struct BaseTxFields {
    outputs: Vec<TransferableOutput>,
    inputs: Vec<TransferableInput>,
    memo: Vec<u8>,
    renderable_out: VisibilityMask,
}

impl View for BaseTxFields {
    type V = BaseTxView;

    closed spec fn view(&self) -> BaseTxView {
        BaseTxView {
            outputs: outputs_view(self.outputs@),
            inputs: inputs_view(self.inputs@),
            memo: self.memo@,
            visible: self.renderable_out@,
        }
    }
}

/// The base fields on the wire: the counted outputs, no more than a mask
/// can track, the counted inputs, and the memo behind its length. Every
/// output starts out visible.
#[verifier::opaque]
pub open spec fn spec_base_tx(s: Seq<u8>) -> Parsed<BaseTxView> {
    match spec_be_u32(s) {
        Err(e) => Err(e),
        Ok((s, num_outputs)) => if num_outputs > MASK_CAPACITY {
            Err(ParserError::TooManyOutputs)
        } else {
            match spec_outputs(s, num_outputs as nat, Seq::empty()) {
                Err(e) => Err(e),
                Ok((s, outputs)) => match spec_be_u32(s) {
                    Err(e) => Err(e),
                    Ok((s, num_inputs)) => match spec_inputs(s, num_inputs as nat, Seq::empty()) {
                        Err(e) => Err(e),
                        Ok((s, inputs)) => match spec_be_u32(s) {
                            Err(e) => Err(e),
                            Ok((s, memo_len)) => match spec_take(s, memo_len as nat) {
                                Err(e) => Err(e),
                                Ok((s, memo)) => Ok(
                                    (s, BaseTxView { outputs, inputs, memo, visible: all_set() }),
                                ),
                            },
                        },
                    },
                },
            }
        },
    }
}

impl BaseTxFields {
    /// A mask can track the outputs, and the count of their items fits the
    /// machine's word.
    #[verifier::type_invariant]
    spec fn trackable(&self) -> bool {
        &&& self.outputs@.len() <= MASK_CAPACITY
        &&& all_items(outputs_view(self.outputs@)) <= usize::MAX
    }

    /// Reads the base fields. Every item that the outputs show takes at
    /// least a byte of the input.
    pub fn from_bytes(input: &[u8]) -> (r: Result<(&[u8], BaseTxFields), ParserError>)
        ensures
            parsed_as(r, spec_base_tx(input@)),
            leaves_rest(r, input@),
            r matches Ok((rest, base)) ==> rest@.len() + all_items(base@.outputs) <= input@.len()
                && base@.outputs.len() <= MASK_CAPACITY && base@.visible == all_set(),
    {
        broadcast use group_rest_of;

        reveal(spec_base_tx);
        let total: usize = input.len();
        let (rest, num_outputs) = be_u32(input)?;
        if num_outputs as usize > MASK_CAPACITY {
            return Err(ParserError::TooManyOutputs);
        }
        let (rest, outputs) = parse_outputs(rest, num_outputs)?;
        let (rest, num_inputs) = be_u32(rest)?;
        let (rest, inputs) = parse_inputs(rest, num_inputs)?;
        let (rest, memo_len) = be_u32(rest)?;
        let (rest, memo) = take(rest, memo_len as usize)?;
        let memo = slice_to_vec(memo);
        Ok((rest, BaseTxFields { outputs, inputs, memo, renderable_out: VisibilityMask::all_visible() }))
    }

    /// The outputs.
    pub fn outputs(&self) -> (r: &Vec<TransferableOutput>)
        ensures
            outputs_view(r@) == self@.outputs,
    {
        &self.outputs
    }

    /// The inputs.
    pub fn inputs(&self) -> (r: &Vec<TransferableInput>)
        ensures
            inputs_view(r@) == self@.inputs,
    {
        &self.inputs
    }

    /// The memo.
    pub fn memo(&self) -> (r: &Vec<u8>)
        ensures
            r@ == self@.memo,
    {
        &self.memo
    }

    /// The number of items that the visible outputs show.
    pub fn base_outputs_num_items(&self) -> (r: usize)
        ensures
            r == visible_items(self@.outputs, self@.visible),
    {
        proof {
            use_type_invariant(self);
        }
        visible_item_count(&self.outputs, &self.renderable_out)
    }

    /// The visible output that holds item `item_n`, and the index of the
    /// item within that output.
    pub fn base_output_with_item(&self, item_n: u8) -> (r: Result<
        (&TransferableOutput, u8),
        ParserError,
    >)
        ensures
            match item_position(self@.outputs, self@.visible, item_n as nat) {
                Some((at, item)) => r matches Ok((output, local)) && at < self@.outputs.len()
                    && output@ == self@.outputs[at as int] && local == item,
                None => r matches Err(e) && e == ParserError::DisplayIdxOutOfRange,
            },
    {
        proof {
            use_type_invariant(self);
        }
        output_with_item(&self.outputs, &self.renderable_out, item_n)
    }

    /// Hides every output that is change to `address`, even when it is the
    /// only output.
    pub fn force_disable_output(&mut self, address: &[u8])
        ensures
            final(self)@ == (BaseTxView {
                visible: suppressed(old(self)@.outputs, old(self)@.visible, address@),
                ..old(self)@
            }),
    {
        proof {
            use_type_invariant(&*self);
        }
        let mut visible = self.renderable_out;
        disable_matching(&self.outputs, &mut visible, address);
        self.renderable_out = visible;
    }

    /// The sum of the inputs' amounts, unless it leaves the 64-bit range.
    pub fn sum_inputs_amount(&self) -> (r: Result<u64, ParserError>)
        ensures
            match r {
                Ok(sum) => sum == total_input_amount(self@.inputs),
                Err(e) => e == ParserError::OperationOverflows && total_input_amount(self@.inputs)
                    > u64::MAX,
            },
    {
        sum_input_amounts(&self.inputs)
    }

    /// The sum of the outputs' amounts, unless it leaves the 64-bit range.
    pub fn sum_outputs_amount(&self) -> (r: Result<u64, ParserError>)
        ensures
            match r {
                Ok(sum) => sum == total_amount(self@.outputs),
                Err(e) => e == ParserError::OperationOverflows && total_amount(self@.outputs)
                    > u64::MAX,
            },
    {
        sum_amounts(&self.outputs)
    }
}

} // verus!
