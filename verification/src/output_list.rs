//! Lists of outputs under a visibility mask: decoding, item counts, lookup
//! of the output that holds an item, amounts, and the hiding of change.

use crate::errors::ParserError;
use crate::mask::{VisibilityMask, MASK_CAPACITY};
use crate::output::{output_items, spec_output, OutputView, TransferableOutput};
use crate::reader::{group_rest_of, is_rest_of, Parsed};
use vstd::prelude::*;

verus! {

/// What the outputs of a list say, in order.
pub open spec fn outputs_view(list: Seq<TransferableOutput>) -> Seq<OutputView> {
    Seq::new(list.len(), |i: int| list[i]@)
}

/// `count` outputs in a row, behind those already `done`.
pub open spec fn spec_outputs(s: Seq<u8>, count: nat, done: Seq<OutputView>) -> Parsed<
    Seq<OutputView>,
>
    decreases count,
{
    if count == 0 {
        Ok((s, done))
    } else {
        match spec_output(s) {
            Err(e) => Err(e),
            Ok((rest, output)) => spec_outputs(rest, (count - 1) as nat, done.push(output)),
        }
    }
}

/// The items of all outputs, visible or not.
pub open spec fn all_items(outputs: Seq<OutputView>) -> nat
    decreases outputs.len(),
{
    if outputs.len() == 0 {
        0
    } else {
        all_items(outputs.drop_last()) + output_items(outputs.last())
    }
}

/// The items of the outputs whose flag in `visible` is set.
pub open spec fn visible_items(outputs: Seq<OutputView>, visible: Seq<bool>) -> nat
    decreases outputs.len(),
{
    if outputs.len() == 0 {
        0
    } else {
        visible_items(outputs.drop_last(), visible) + if visible[outputs.len() - 1] {
            output_items(outputs.last())
        } else {
            0nat
        }
    }
}

/// The sum of the amounts.
pub open spec fn total_amount(outputs: Seq<OutputView>) -> nat
    decreases outputs.len(),
{
    if outputs.len() == 0 {
        0
    } else {
        total_amount(outputs.drop_last()) + outputs.last().amount as nat
    }
}

/// Where item `n` of the visible items is: the index of its output and the
/// index of the item within that output. The visible outputs hold their
/// items one after the other.
pub open spec fn item_position(outputs: Seq<OutputView>, visible: Seq<bool>, n: nat) -> Option<
    (nat, nat),
>
    decreases outputs.len(),
{
    if outputs.len() == 0 {
        None
    } else {
        let before = visible_items(outputs.drop_last(), visible);
        if n < before {
            item_position(outputs.drop_last(), visible, n)
        } else if visible[outputs.len() - 1] && n < before + output_items(outputs.last()) {
            Some(((outputs.len() - 1) as nat, (n - before) as nat))
        } else {
            None
        }
    }
}

/// An output is change when it goes to one address only, and that is
/// `address`.
pub open spec fn is_change(output: OutputView, address: Seq<u8>) -> bool {
    output.addresses.len() == 1 && output.addresses[0] == address
}

/// The flags after the change outputs to `address` were hidden.
pub open spec fn suppressed(outputs: Seq<OutputView>, visible: Seq<bool>, address: Seq<u8>) -> Seq<
    bool,
> {
    Seq::new(
        visible.len(),
        |i: int| visible[i] && !(i < outputs.len() && is_change(outputs[i], address)),
    )
}

/// A prefix of a list has no more items than the list, and no more visible
/// items than items.
pub proof fn lemma_prefix_items(outputs: Seq<OutputView>, visible: Seq<bool>, i: int)
    requires
        0 <= i <= outputs.len(),
    ensures
        visible_items(outputs.take(i), visible) <= all_items(outputs.take(i)) <= all_items(outputs),
    decreases outputs.len(),
{
    if i == outputs.len() {
        assert(outputs.take(i) =~= outputs);
        if i > 0 {
            lemma_prefix_items(outputs.drop_last(), visible, i - 1);
            assert(outputs.drop_last().take(i - 1) =~= outputs.drop_last());
        }
    } else {
        lemma_prefix_items(outputs.drop_last(), visible, i);
        assert(outputs.drop_last().take(i) =~= outputs.take(i));
    }
}

/// A list has no more visible items than items.
pub proof fn lemma_visible_at_most_all(outputs: Seq<OutputView>, visible: Seq<bool>)
    ensures
        visible_items(outputs, visible) <= all_items(outputs),
{
    lemma_prefix_items(outputs, visible, outputs.len() as int);
    assert(outputs.take(outputs.len() as int) =~= outputs);
}

/// The visible items of a prefix grow with the prefix.
pub proof fn lemma_visible_grows(outputs: Seq<OutputView>, visible: Seq<bool>, i: int, j: int)
    requires
        0 <= i <= j <= outputs.len(),
    ensures
        visible_items(outputs.take(i), visible) <= visible_items(outputs.take(j), visible),
    decreases j - i,
{
    if i < j {
        lemma_visible_grows(outputs, visible, i, j - 1);
        assert(outputs.take(j).drop_last() =~= outputs.take(j - 1));
    }
}

/// The amounts of a prefix add up to no more than those of the list.
pub proof fn lemma_amount_grows(outputs: Seq<OutputView>, i: int)
    requires
        0 <= i <= outputs.len(),
    ensures
        total_amount(outputs.take(i)) <= total_amount(outputs),
    decreases outputs.len() - i,
{
    if i < outputs.len() {
        lemma_amount_grows(outputs, i + 1);
        assert(outputs.take(i + 1).drop_last() =~= outputs.take(i));
    } else {
        assert(outputs.take(i) =~= outputs);
    }
}

/// An item that falls into the range of a visible output is found there,
/// however many outputs follow.
pub proof fn lemma_position_found(
    outputs: Seq<OutputView>,
    visible: Seq<bool>,
    n: nat,
    i: int,
    j: int,
)
    requires
        0 <= i < j <= outputs.len(),
        visible[i],
        visible_items(outputs.take(i), visible) <= n < visible_items(outputs.take(i), visible)
            + output_items(outputs[i]),
    ensures
        item_position(outputs.take(j), visible, n) == Some(
            (i as nat, (n - visible_items(outputs.take(i), visible)) as nat),
        ),
    decreases j - i,
{
    assert(outputs.take(j).drop_last() =~= outputs.take(j - 1));
    if j == i + 1 {
    } else {
        lemma_position_found(outputs, visible, n, i, j - 1);
        lemma_visible_grows(outputs, visible, i + 1, j - 1);
        assert(outputs.take(i + 1).drop_last() =~= outputs.take(i));
    }
}

/// Reads `count` outputs. Every item that they show takes at least a byte
/// of the input.
pub fn parse_outputs(input: &[u8], count: u32) -> (r: Result<
    (&[u8], Vec<TransferableOutput>),
    ParserError,
>)
    ensures
        match r {
            Ok((rest, list)) => {
                &&& spec_outputs(input@, count as nat, Seq::empty()) == Ok::<_, ParserError>(
                    (rest@, outputs_view(list@)),
                )
                &&& list@.len() == count
                &&& rest@.len() + all_items(outputs_view(list@)) <= input@.len()
                &&& is_rest_of(rest@, input@)
            },
            Err(e) => spec_outputs(input@, count as nat, Seq::empty()) == Err::<
                (Seq<u8>, Seq<OutputView>),
                _,
            >(e),
        },
{
    broadcast use group_rest_of;

    let mut list: Vec<TransferableOutput> = Vec::new();
    let mut rest = input;
    let mut i: u32 = 0;
    assert(outputs_view(list@) =~= Seq::empty());
    while i < count
        invariant
            i <= count,
            list@.len() == i,
            rest@.len() + all_items(outputs_view(list@)) <= input@.len(),
            is_rest_of(rest@, input@),
            spec_outputs(input@, count as nat, Seq::empty()) == spec_outputs(
                rest@,
                (count - i) as nat,
                outputs_view(list@),
            ),
        decreases count - i,
    {
        broadcast use group_rest_of;

        let (after, output) = TransferableOutput::from_bytes(rest)?;
        proof {
            let longer = outputs_view(list@.push(output));
            assert(longer =~= outputs_view(list@).push(output@));
            assert(longer.drop_last() =~= outputs_view(list@));
        }
        list.push(output);
        rest = after;
        i += 1;
    }
    Ok((rest, list))
}

/// The number of items that the visible outputs show.
pub fn visible_item_count(outputs: &Vec<TransferableOutput>, visible: &VisibilityMask) -> (r: usize)
    requires
        outputs@.len() <= MASK_CAPACITY,
        all_items(outputs_view(outputs@)) <= usize::MAX,
    ensures
        r == visible_items(outputs_view(outputs@), visible@),
{
    let ghost all = outputs_view(outputs@);
    let mut items: usize = 0;
    let mut i: usize = 0;
    while i < outputs.len()
        invariant
            i <= outputs@.len() <= MASK_CAPACITY,
            all == outputs_view(outputs@),
            all_items(all) <= usize::MAX,
            items == visible_items(all.take(i as int), visible@),
        decreases outputs@.len() - i,
    {
        proof {
            lemma_prefix_items(all, visible@, i + 1);
            assert(all.take(i + 1).drop_last() =~= all.take(i as int));
        }
        if visible.is_visible(i) {
            items = items + outputs[i].num_items();
        }
        i += 1;
    }
    assert(all.take(outputs@.len() as int) =~= all);
    items
}

/// The visible output that holds item `item_n`, and the index of the item
/// within that output.
pub fn output_with_item<'a>(
    outputs: &'a Vec<TransferableOutput>,
    visible: &VisibilityMask,
    item_n: u8,
) -> (r: Result<(&'a TransferableOutput, u8), ParserError>)
    requires
        outputs@.len() <= MASK_CAPACITY,
    ensures
        match item_position(outputs_view(outputs@), visible@, item_n as nat) {
            Some((at, item)) => r matches Ok((output, local)) && at < outputs@.len() && *output
                == outputs@[at as int] && local == item,
            None => r matches Err(e) && e == ParserError::DisplayIdxOutOfRange,
        },
{
    let ghost all = outputs_view(outputs@);
    let n: usize = item_n as usize;
    let mut before: usize = 0;
    let mut i: usize = 0;
    while i < outputs.len()
        invariant
            i <= outputs@.len() <= MASK_CAPACITY,
            all == outputs_view(outputs@),
            n == item_n,
            before == visible_items(all.take(i as int), visible@),
            before <= n,
        decreases outputs@.len() - i,
    {
        proof {
            assert(all.take(i + 1).drop_last() =~= all.take(i as int));
        }
        if visible.is_visible(i) {
            let items = outputs[i].num_items();
            if n - before < items {
                proof {
                    lemma_position_found(all, visible@, n as nat, i as int, outputs@.len() as int);
                    assert(all.take(outputs@.len() as int) =~= all);
                }
                return Ok((&outputs[i], (n - before) as u8));
            }
            before = before + items;
        }
        i += 1;
    }
    assert(all.take(outputs@.len() as int) =~= all);
    Err(ParserError::DisplayIdxOutOfRange)
}

/// The sum of the amounts, unless it leaves the 64-bit range.
pub fn sum_amounts(outputs: &Vec<TransferableOutput>) -> (r: Result<u64, ParserError>)
    ensures
        match r {
            Ok(sum) => sum == total_amount(outputs_view(outputs@)),
            Err(e) => e == ParserError::OperationOverflows && total_amount(outputs_view(outputs@))
                > u64::MAX,
        },
{
    let ghost all = outputs_view(outputs@);
    let mut sum: u64 = 0;
    let mut i: usize = 0;
    while i < outputs.len()
        invariant
            i <= outputs@.len(),
            all == outputs_view(outputs@),
            sum == total_amount(all.take(i as int)),
        decreases outputs@.len() - i,
    {
        proof {
            assert(all.take(i + 1).drop_last() =~= all.take(i as int));
            lemma_amount_grows(all, i + 1);
        }
        match sum.checked_add(outputs[i].amount()) {
            Some(more) => {
                sum = more;
            },
            None => {
                return Err(ParserError::OperationOverflows);
            },
        }
        i += 1;
    }
    assert(all.take(outputs@.len() as int) =~= all);
    Ok(sum)
}

/// Hides every output that is change to `address`, and no other.
pub fn disable_matching(
    outputs: &Vec<TransferableOutput>,
    visible: &mut VisibilityMask,
    address: &[u8],
)
    requires
        outputs@.len() <= MASK_CAPACITY,
    ensures
        final(visible)@ == suppressed(outputs_view(outputs@), old(visible)@, address@),
{
    let ghost all = outputs_view(outputs@);
    let mut i: usize = 0;
    assert(visible@ =~= suppressed(all.take(0), old(visible)@, address@));
    while i < outputs.len()
        invariant
            i <= outputs@.len() <= MASK_CAPACITY,
            all == outputs_view(outputs@),
            visible@ == suppressed(all.take(i as int), old(visible)@, address@),
        decreases outputs@.len() - i,
    {
        let ghost flags = visible@;
        if outputs[i].num_addresses() == 1 && outputs[i].contain_address(address) {
            assert(is_change(all[i as int], address@));
            visible.clear(i);
            assert(visible@ =~= suppressed(all.take(i + 1), old(visible)@, address@));
        } else {
            assert(!is_change(all[i as int], address@)) by {
                if all[i as int].addresses.len() == 1 {
                    assert(all[i as int].addresses[0] != address@);
                }
            }
            assert(visible@ =~= suppressed(all.take(i + 1), old(visible)@, address@));
        }
        i += 1;
    }
    assert(all.take(outputs@.len() as int) =~= all);
}

} // verus!
