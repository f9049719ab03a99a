//! Big-endian field readers over byte slices.
//!
//! Every reader takes the unread input and returns the rest of it together
//! with the value read, or the reason why the field is not there. Each has a
//! specification function of the same shape over `Seq<u8>`.

use crate::errors::ParserError;
use vstd::prelude::*;
use vstd::slice::*;

verus! {

/// What a reader specifies: the unread rest and the value, or a failure.
pub type Parsed<T> = Result<(Seq<u8>, T), ParserError>;

/// The reader's result `r` is what `spec` says, through the views of the
/// rest and of the value.
pub open spec fn parsed_as<T: View>(r: Result<(&[u8], T), ParserError>, spec: Parsed<T::V>) -> bool {
    match r {
        Ok((rest, value)) => spec == Ok::<(Seq<u8>, T::V), ParserError>((rest@, value@)),
        Err(e) => spec == Err::<(Seq<u8>, T::V), ParserError>(e),
    }
}

/// `rest` is what is left of `s` behind some front part of it.
pub open spec fn is_rest_of(rest: Seq<u8>, s: Seq<u8>) -> bool {
    rest.len() <= s.len() && rest == s.skip(s.len() - rest.len())
}

/// What is left of what is left is left of the whole.
pub broadcast proof fn lemma_rest_of_rest(a: Seq<u8>, b: Seq<u8>, c: Seq<u8>)
    requires
        #[trigger] is_rest_of(a, b),
        #[trigger] is_rest_of(b, c),
    ensures
        is_rest_of(a, c),
{
    assert(a =~= c.skip(c.len() - a.len()));
}

/// Everything is what is left of itself.
pub broadcast proof fn lemma_rest_of_itself(s: Seq<u8>)
    ensures
        #[trigger] is_rest_of(s, s),
{
    assert(s =~= s.skip(0));
}

pub broadcast group group_rest_of {
    lemma_rest_of_rest,
    lemma_rest_of_itself,
}

/// A reader that succeeds leaves a rest of its input.
pub open spec fn leaves_rest<T>(r: Result<(&[u8], T), ParserError>, input: Seq<u8>) -> bool {
    r matches Ok((rest, _)) ==> is_rest_of(rest@, input)
}

/// The number written by the first four bytes of `s`, most significant first.
pub open spec fn u32_be(s: Seq<u8>) -> u32
    recommends
        s.len() >= 4,
{
    (s[0] as int * 0x100_0000 + s[1] as int * 0x1_0000 + s[2] as int * 0x100 + s[3] as int) as u32
}

/// The number written by the first eight bytes of `s`, most significant first.
pub open spec fn u64_be(s: Seq<u8>) -> u64
    recommends
        s.len() >= 8,
{
    (u32_be(s) as int * 0x1_0000_0000 + u32_be(s.skip(4)) as int) as u64
}

/// The four bytes that write `value`, most significant first.
pub open spec fn be_bytes(value: u32) -> Seq<u8> {
    seq![
        (value / 0x100_0000) as u8,
        (value / 0x1_0000 % 0x100) as u8,
        (value / 0x100 % 0x100) as u8,
        (value % 0x100) as u8,
    ]
}

pub open spec fn spec_be_u32(s: Seq<u8>) -> Parsed<u32> {
    if s.len() < 4 {
        Err(ParserError::UnexpectedBufferEnd)
    } else {
        Ok((s.skip(4), u32_be(s)))
    }
}

pub open spec fn spec_be_u64(s: Seq<u8>) -> Parsed<u64> {
    if s.len() < 8 {
        Err(ParserError::UnexpectedBufferEnd)
    } else {
        Ok((s.skip(8), u64_be(s)))
    }
}

pub open spec fn spec_take(s: Seq<u8>, n: nat) -> Parsed<Seq<u8>> {
    if s.len() < n {
        Err(ParserError::UnexpectedBufferEnd)
    } else {
        Ok((s.skip(n as int), s.take(n as int)))
    }
}

/// A discriminant matches when the input starts with its four bytes; input
/// that is too short to hold it does not match.
pub open spec fn spec_tag(s: Seq<u8>, value: u32) -> Result<Seq<u8>, ParserError> {
    if be_bytes(value).is_prefix_of(s) {
        Ok(s.skip(4))
    } else {
        Err(ParserError::InvalidTypeId)
    }
}

/// `nom::number::complete::be_u32` on a byte slice. With fewer than four
/// bytes of input it fails; otherwise it folds the first four bytes, most
/// significant first, into the value and returns the input from the fifth
/// byte on.
#[verifier::external_body]
fn nom_be_u32<'a>(input: &'a [u8]) -> (r: Option<(&'a [u8], u32)>)
    ensures
        r is Some <==> input@.len() >= 4,
        r matches Some((rest, value)) ==> rest@ == input@.skip(4) && value == u32_be(input@),
{
    match nom::number::complete::be_u32::<&[u8], ()>(input) {
        Ok((rest, value)) => Some((rest, value)),
        Err(_) => None,
    }
}

/// `nom::bytes::complete::tag` on byte slices. It succeeds exactly when the
/// input is at least as long as the pattern and starts with it, and then
/// returns the input behind the pattern.
#[verifier::external_body]
fn nom_tag<'a>(pattern: &[u8], input: &'a [u8]) -> (r: Option<&'a [u8]>)
    ensures
        r is Some <==> pattern@.is_prefix_of(input@),
        r matches Some(rest) ==> rest@ == input@.skip(pattern@.len() as int),
{
    match nom::bytes::complete::tag::<&[u8], &[u8], ()>(pattern)(input) {
        Ok((rest, _)) => Some(rest),
        Err(_) => None,
    }
}

/// Reads a 32-bit big-endian number.
pub fn be_u32(input: &[u8]) -> (r: Result<(&[u8], u32), ParserError>)
    ensures
        parsed_as(r, spec_be_u32(input@)),
        leaves_rest(r, input@),
{
    match nom_be_u32(input) {
        Some(found) => Ok(found),
        None => Err(ParserError::UnexpectedBufferEnd),
    }
}

/// Reads a 64-bit big-endian number, as two 32-bit halves.
pub fn be_u64(input: &[u8]) -> (r: Result<(&[u8], u64), ParserError>)
    ensures
        parsed_as(r, spec_be_u64(input@)),
        leaves_rest(r, input@),
{
    broadcast use group_rest_of;

    let (low_half, high) = be_u32(input)?;
    let (rest, low) = be_u32(low_half)?;
    assert(input@.skip(4).skip(4) =~= input@.skip(8));
    Ok((rest, (high as u64) * 0x1_0000_0000 + (low as u64)))
}

/// Splits `n` bytes off the front of the input.
pub fn take(input: &[u8], n: usize) -> (r: Result<(&[u8], &[u8]), ParserError>)
    ensures
        match r {
            Ok((rest, front)) => spec_take(input@, n as nat) == Ok::<_, ParserError>((rest@, front@)),
            Err(e) => spec_take(input@, n as nat) == Err::<(Seq<u8>, Seq<u8>), _>(e),
        },
        leaves_rest(r, input@),
{
    if input.len() < n {
        Err(ParserError::UnexpectedBufferEnd)
    } else {
        Ok((slice_subrange(input, n, input.len()), slice_subrange(input, 0, n)))
    }
}

/// Reads a 20-byte identifier.
pub fn take_20(input: &[u8]) -> (r: Result<(&[u8], [u8; 20]), ParserError>)
    ensures
        parsed_as(r, spec_take(input@, 20)),
        leaves_rest(r, input@),
{
    let (rest, front) = take(input, 20)?;
    let mut id = [0u8; 20];
    let mut i: usize = 0;
    while i < 20
        invariant
            i <= 20,
            front@.len() == 20,
            forall|k: int| 0 <= k < i ==> id@[k] == front@[k],
        decreases 20 - i,
    {
        id[i] = front[i];
        i += 1;
    }
    assert(id@ =~= front@);
    Ok((rest, id))
}

/// Reads a 32-byte identifier.
pub fn take_32(input: &[u8]) -> (r: Result<(&[u8], [u8; 32]), ParserError>)
    ensures
        parsed_as(r, spec_take(input@, 32)),
        leaves_rest(r, input@),
{
    let (rest, front) = take(input, 32)?;
    let mut id = [0u8; 32];
    let mut i: usize = 0;
    while i < 32
        invariant
            i <= 32,
            front@.len() == 32,
            forall|k: int| 0 <= k < i ==> id@[k] == front@[k],
        decreases 32 - i,
    {
        id[i] = front[i];
        i += 1;
    }
    assert(id@ =~= front@);
    Ok((rest, id))
}

/// The four bytes of `value`, most significant first.
pub fn u32_be_bytes(value: u32) -> (r: [u8; 4])
    ensures
        r@ == be_bytes(value),
{
    let r = [
        (value / 0x100_0000) as u8,
        (value / 0x1_0000 % 0x100) as u8,
        (value / 0x100 % 0x100) as u8,
        (value % 0x100) as u8,
    ];
    assert(r@ =~= be_bytes(value));
    r
}

/// Consumes a four-byte type discriminant, which must be `value`.
pub fn tag_u32(input: &[u8], value: u32) -> (r: Result<&[u8], ParserError>)
    ensures
        match r {
            Ok(rest) => spec_tag(input@, value) == Ok::<_, ParserError>(rest@),
            Err(e) => spec_tag(input@, value) == Err::<Seq<u8>, _>(e),
        },
        r matches Ok(rest) ==> is_rest_of(rest@, input@),
{
    let pattern = u32_be_bytes(value);
    match nom_tag(pattern.as_slice(), input) {
        Some(rest) => Ok(rest),
        None => Err(ParserError::InvalidTypeId),
    }
}

} // verus!
