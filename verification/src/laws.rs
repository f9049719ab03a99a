//! What holds of decoding, of the item layout, of hiding change, of the
//! fee and of rendering, for every transaction.

use crate::add_permissionless_delegator::{spec_tx, TxView};
use crate::address::hrp_is_valid;
use crate::base_tx::{spec_base_tx, spec_hrp};
use crate::display::{page_count, shows, spec_show, Text};
use crate::errors::{ParserError, ViewError};
use crate::input::total_input_amount;
use crate::mask::{all_set, MASK_CAPACITY};
use crate::output::{output_items, OutputView};
use crate::output_list::{
    is_change, item_position, spec_outputs, suppressed, total_amount, visible_items,
};
use crate::reader::be_bytes;
use crate::text::civil_from_days;
use vstd::prelude::*;

verus! {

/// Reading `count` outputs, where it succeeds, adds `count` outputs to
/// those already read.
pub proof fn lemma_outputs_are_counted(s: Seq<u8>, count: nat, done: Seq<OutputView>)
    ensures
        spec_outputs(s, count, done) matches Ok((_, list)) ==> list.len() == done.len() + count,
    decreases count,
{
    if count > 0 {
        match crate::output::spec_output(s) {
            Err(_) => {},
            Ok((rest, output)) => {
                lemma_outputs_are_counted(rest, (count - 1) as nat, done.push(output));
            },
        }
    }
}

/// Decoding succeeds only behind the transaction's discriminant, and what
/// it yields is well formed: a mask tracks the base outputs and the stake
/// outputs, every output is visible, and the stake outputs add up to the
/// validator's weight.
pub proof fn lemma_decoded_is_well_formed(s: Seq<u8>)
    ensures
        !be_bytes(crate::add_permissionless_delegator::PVM_ADD_PERMISSIONLESS_DELEGATOR).is_prefix_of(
            s,
        ) ==> spec_tx(s) == Err::<(Seq<u8>, TxView), _>(ParserError::InvalidTypeId),
        spec_tx(s) matches Ok((_, tx)) ==> {
            &&& tx.base.outputs.len() <= MASK_CAPACITY
            &&& tx.base.visible == all_set()
            &&& tx.stake.len() <= MASK_CAPACITY
            &&& tx.visible == all_set()
            &&& total_amount(tx.stake) == tx.validator.weight
        },
{
    reveal(spec_base_tx);
    assert forall|t: Seq<u8>, n: nat|
        (#[trigger] spec_outputs(t, n, Seq::empty()) matches Ok((_, list)) ==> list.len()
            == n) by {
        lemma_outputs_are_counted(t, n, Seq::empty());
    }
}

/// Where an item of a list of outputs is: item `n` exists exactly when
/// there are more than `n` visible items; it then lies in a visible
/// output, behind the items of the visible outputs before that one.
pub proof fn lemma_item_position(outputs: Seq<OutputView>, visible: Seq<bool>, n: nat)
    ensures
        match item_position(outputs, visible, n) {
            Some((at, item)) => {
                &&& n < visible_items(outputs, visible)
                &&& at < outputs.len()
                &&& visible[at as int]
                &&& item < output_items(outputs[at as int])
                &&& visible_items(outputs.take(at as int), visible) + item == n
            },
            None => n >= visible_items(outputs, visible),
        },
    decreases outputs.len(),
{
    if outputs.len() > 0 {
        let before = visible_items(outputs.drop_last(), visible);
        if n < before {
            lemma_item_position(outputs.drop_last(), visible, n);
            let at = item_position(outputs.drop_last(), visible, n).unwrap().0;
            assert(outputs.drop_last().take(at as int) =~= outputs.take(at as int));
        } else {
            assert(outputs.take(outputs.len() - 1) =~= outputs.drop_last());
        }
    }
}

/// Hiding an output takes its items, and no others, out of the count.
pub proof fn lemma_hidden_is_not_counted(outputs: Seq<OutputView>, visible: Seq<bool>, i: int)
    requires
        0 <= i < outputs.len() <= visible.len(),
    ensures
        visible_items(outputs, visible.update(i, false)) + (if visible[i] {
            output_items(outputs[i])
        } else {
            0nat
        }) == visible_items(outputs, visible),
    decreases outputs.len(),
{
    if i < outputs.len() - 1 {
        lemma_hidden_is_not_counted(outputs.drop_last(), visible, i);
    } else {
        lemma_flags_beyond_do_not_count(outputs.drop_last(), visible, i);
    }
}

/// The flag of a position behind the end of the list has no bearing on the
/// count.
pub proof fn lemma_flags_beyond_do_not_count(outputs: Seq<OutputView>, visible: Seq<bool>, i: int)
    requires
        outputs.len() <= i < visible.len(),
    ensures
        visible_items(outputs, visible.update(i, false)) == visible_items(outputs, visible),
    decreases outputs.len(),
{
    if outputs.len() > 0 {
        lemma_flags_beyond_do_not_count(outputs.drop_last(), visible, i);
    }
}

/// No item lies in a hidden output.
pub proof fn lemma_hidden_is_not_traversed(
    outputs: Seq<OutputView>,
    visible: Seq<bool>,
    i: int,
    n: nat,
)
    requires
        !visible[i],
    ensures
        item_position(outputs, visible, n) matches Some((at, _)) ==> at != i,
{
    lemma_item_position(outputs, visible, n);
}

/// The flags after hiding the change to `address`: a change output is
/// hidden; any other output, one with several addresses among them
/// whatever they are, keeps its flag.
pub proof fn lemma_suppressed_flags(
    outputs: Seq<OutputView>,
    visible: Seq<bool>,
    address: Seq<u8>,
    i: int,
)
    requires
        0 <= i < outputs.len() <= visible.len(),
    ensures
        is_change(outputs[i], address) ==> !suppressed(outputs, visible, address)[i],
        !is_change(outputs[i], address) ==> suppressed(outputs, visible, address)[i] == visible[i],
        outputs[i].addresses.len() != 1 ==> suppressed(outputs, visible, address)[i] == visible[i],
{
}

/// After the change to `address` was hidden, no change output to it is
/// counted or rendered, among the base outputs or the stake outputs, and
/// an output with two addresses or more is as visible as before.
pub proof fn lemma_suppress_hides_change(tx: TxView, address: Seq<u8>, n: nat)
    requires
        tx.valid(),
    ensures
        tx.suppress(address).valid(),
        forall|i: int|
            0 <= i < tx.stake.len() && is_change(#[trigger] tx.stake[i], address) ==> {
                &&& !tx.suppress(address).visible[i]
                &&& !(item_position(tx.stake, tx.suppress(address).visible, n) matches Some(
                    (at, _),
                ) && at == i)
            },
        forall|i: int|
            0 <= i < tx.base.outputs.len() && is_change(#[trigger] tx.base.outputs[i], address)
                ==> {
                &&& !tx.suppress(address).base.visible[i]
                &&& !(item_position(tx.base.outputs, tx.suppress(address).base.visible, n) matches Some(
                    (at, _),
                ) && at == i)
            },
        forall|i: int|
            0 <= i < tx.stake.len() && (#[trigger] tx.stake[i]).addresses.len() >= 2
                ==> tx.suppress(address).visible[i] == tx.visible[i],
        forall|i: int|
            0 <= i < tx.base.outputs.len() && (#[trigger] tx.base.outputs[i]).addresses.len() >= 2
                ==> tx.suppress(address).base.visible[i] == tx.base.visible[i],
{
    let after = tx.suppress(address);
    lemma_item_position(tx.stake, after.visible, n);
    lemma_item_position(tx.base.outputs, after.base.visible, n);
}

/// The fee is the inputs less the base outputs less the stake, exactly. It
/// is defined when the inputs cover both and no sum leaves the 64-bit
/// range, and only then.
pub proof fn lemma_fee_is_exact(tx: TxView)
    ensures
        tx.fee() matches Ok(fee) ==> fee == total_input_amount(tx.base.inputs) - total_amount(
            tx.base.outputs,
        ) - total_amount(tx.stake),
        tx.fee() is Ok <==> {
            &&& total_input_amount(tx.base.inputs) <= u64::MAX
            &&& total_amount(tx.base.outputs) + total_amount(tx.stake) <= u64::MAX
            &&& total_input_amount(tx.base.inputs) >= total_amount(tx.base.outputs)
                + total_amount(tx.stake)
        },
        tx.fee() matches Err(e) ==> e == ParserError::OperationOverflows,
{
}

/// The prefix of every known network is one that the address encoding
/// accepts.
pub proof fn lemma_known_prefixes_are_valid(network_id: u32)
    ensures
        spec_hrp(network_id) matches Ok(hrp) ==> hrp_is_valid(hrp),
{
    reveal_strlit("avax");
    reveal_strlit("fuji");
    reveal_strlit("local");
}

/// There is no item at the index that the number of items gives, nor
/// behind it.
pub proof fn lemma_no_item_beyond(tx: TxView, n: nat)
    requires
        n >= tx.num_items(),
    ensures
        tx.item_text(n) == Err::<(Seq<u8>, Seq<u8>), _>(ViewError::NoData),
{
}

/// Every index below the number of items has an item with a title and a
/// body, on a known network and where the fee is defined.
pub proof fn lemma_items_have_text(tx: TxView, n: nat)
    requires
        spec_hrp(tx.header.network_id) is Ok,
        tx.fee() is Ok,
        n < tx.num_items(),
    ensures
        tx.item_text(n) is Ok,
{
    lemma_known_prefixes_are_valid(tx.header.network_id);
    let base = tx.base_items();
    let stake = tx.stake_items();
    if n == 0 {
    } else if n - 1 < base {
        lemma_item_position(tx.base.outputs, tx.base.visible, (n - 1) as nat);
    } else if n - 1 < base + 5 {
    } else if n - 1 < base + 5 + stake {
        lemma_item_position(tx.stake, tx.visible, (n - 1 - (base + 5)) as nat);
    } else {
    }
}

/// The first page of an item's body can be shown whenever both buffers
/// hold a character and the body has no more than 255 pages.
pub proof fn lemma_first_page_shows(label: Seq<u8>, body: Seq<u8>, title_len: nat, message_len: nat)
    requires
        title_len >= 2,
        message_len >= 2,
        page_count(body.len(), (message_len - 1) as nat) <= 255,
    ensures
        spec_show(label, body, title_len, message_len, 0) is Ok,
{
}

/// Every index below the number of items renders: on a known network,
/// where the fee is defined, into buffers that hold a character each, and
/// with a body of no more than 255 pages, the first page is shown.
pub proof fn lemma_every_item_renders(
    tx: TxView,
    n: nat,
    title: Seq<u8>,
    message: Seq<u8>,
    new_title: Seq<u8>,
    new_message: Seq<u8>,
    r: Result<u8, ViewError>,
)
    requires
        spec_hrp(tx.header.network_id) is Ok,
        tx.fee() is Ok,
        n < tx.num_items(),
        title.len() >= 2,
        message.len() >= 2,
        tx.item_text(n) matches Ok((_, body)) ==> page_count(
            body.len(),
            (message.len() - 1) as nat,
        ) <= 255,
        shows(tx.item_text(n), 0, title, message, new_title, new_message, r),
    ensures
        r is Ok,
{
    lemma_items_have_text(tx, n);
}

/// Rendering at the index that the number of items gives, or behind it,
/// fails with `NoData` and leaves the buffers as they are.
pub proof fn lemma_render_beyond_is_no_data(
    tx: TxView,
    n: nat,
    page: u8,
    title: Seq<u8>,
    message: Seq<u8>,
    new_title: Seq<u8>,
    new_message: Seq<u8>,
    r: Result<u8, ViewError>,
)
    requires
        n >= tx.num_items(),
        shows(tx.item_text(n), page, title, message, new_title, new_message, r),
    ensures
        r == Err::<u8, ViewError>(ViewError::NoData),
        new_title == title,
        new_message == message,
{
    lemma_no_item_beyond(tx, n);
}

/// Every day from the first of January 1970 on has a date: a year from
/// 1970 on, a month from 1 to 12 and a day from 1 to 31.
pub proof fn lemma_days_have_dates(days: int)
    requires
        days >= 0,
    ensures
        ({
            let (year, month, day) = civil_from_days(days);
            year >= 1970 && 1 <= month <= 12 && 1 <= day <= 31
        }),
{
}

/// Rendering is a function of the item's text, the page and the sizes of
/// the two buffers: on buffers of the same sizes it returns the same and,
/// where it succeeds, writes the same, whatever the buffers held. Rendering
/// again into the buffers just written changes nothing.
pub proof fn lemma_render_is_idempotent(
    text: Text,
    page: u8,
    title: Seq<u8>,
    message: Seq<u8>,
    title_once: Seq<u8>,
    message_once: Seq<u8>,
    r_once: Result<u8, ViewError>,
    title_other: Seq<u8>,
    message_other: Seq<u8>,
    title_twice: Seq<u8>,
    message_twice: Seq<u8>,
    r_twice: Result<u8, ViewError>,
)
    requires
        shows(text, page, title, message, title_once, message_once, r_once),
        shows(text, page, title_other, message_other, title_twice, message_twice, r_twice),
        title_other.len() == title.len(),
        message_other.len() == message.len(),
    ensures
        r_twice == r_once,
        r_once is Ok ==> title_twice == title_once && message_twice == message_once,
        title_once.len() == title.len() && message_once.len() == message.len(),
        title_other == title_once && message_other == message_once ==> title_twice == title_once
            && message_twice == message_once,
{
}

} // verus!
