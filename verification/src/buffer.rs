//! The fixed-capacity vectors of `heapless`: the bytes of a transfer in
//! progress, a node's error history, its PDO tables, and the frames it transmits
//! on SYNC.
//!
//! What the functions here promise of `heapless::Vec` is believed, not proved;
//! [`bytes_in`], [`codes_in`], [`rpdos_in`], [`tpdos_in`] and [`frames_in`] name
//! the contents of a vector.
use vstd::prelude::*;

use crate::datatypes::MAX_STRING_LEN;
use crate::node::{RpdoSlot, TpdoSlot, TxFrame, MAX_ERROR_HISTORY, MAX_PDOS};

verus! {

/// A vector of at most `N` items, stored in place.
#[verifier::external_type_specification]
#[verifier::external_body]
#[verifier::reject_recursive_types(T)]
pub struct ExVec<T, const N: usize>(heapless::Vec<T, N>);

/// The bytes that a transfer buffer holds.
pub uninterp spec fn bytes_in(buf: heapless::Vec<u8, MAX_STRING_LEN>) -> Seq<u8>;

/// `heapless::Vec::new`: an empty buffer.
#[verifier::external_body]
pub(crate) fn new_bytes() -> (buf: heapless::Vec<u8, MAX_STRING_LEN>)
    ensures
        bytes_in(buf) == Seq::<u8>::empty(),
{
    heapless::Vec::new()
}

/// `heapless::Vec::extend_from_slice`: appends all of `data` if it fits the
/// capacity, and otherwise changes nothing and reports an error.
#[verifier::external_body]
pub(crate) fn extend_bytes(buf: &mut heapless::Vec<u8, MAX_STRING_LEN>, data: &[u8]) -> (r: Result<
    (),
    (),
>)
    ensures
        r is Ok <==> bytes_in(*old(buf)).len() + data@.len() <= MAX_STRING_LEN,
        r is Ok ==> bytes_in(*final(buf)) == bytes_in(*old(buf)) + data@,
        r is Err ==> bytes_in(*final(buf)) == bytes_in(*old(buf)),
{
    buf.extend_from_slice(data)
}

/// `heapless::Vec::as_slice`: the contents, never more than the capacity.
#[verifier::external_body]
pub(crate) fn bytes_slice(buf: &heapless::Vec<u8, MAX_STRING_LEN>) -> (s: &[u8])
    ensures
        s@ == bytes_in(*buf),
        s@.len() <= MAX_STRING_LEN,
{
    buf.as_slice()
}

/// The codes that an error history holds.
pub uninterp spec fn codes_in(history: heapless::Vec<u32, MAX_ERROR_HISTORY>) -> Seq<u32>;

/// `heapless::Vec::new`: an empty history.
#[verifier::external_body]
pub(crate) fn new_codes() -> (history: heapless::Vec<u32, MAX_ERROR_HISTORY>)
    ensures
        codes_in(history) == Seq::<u32>::empty(),
{
    heapless::Vec::new()
}

/// `heapless::Vec::as_slice`: the codes, never more than the capacity.
#[verifier::external_body]
pub(crate) fn codes_slice(history: &heapless::Vec<u32, MAX_ERROR_HISTORY>) -> (s: &[u32])
    ensures
        s@ == codes_in(*history),
        s@.len() <= MAX_ERROR_HISTORY,
{
    history.as_slice()
}

/// `heapless::Vec::pop`: removes and returns the last code, if there is one.
#[verifier::external_body]
pub(crate) fn pop_code(history: &mut heapless::Vec<u32, MAX_ERROR_HISTORY>) -> (code: Option<u32>)
    ensures
        code == if codes_in(*old(history)).len() == 0 {
            None
        } else {
            Some(codes_in(*old(history)).last())
        },
        codes_in(*final(history)) == if codes_in(*old(history)).len() == 0 {
            codes_in(*old(history))
        } else {
            codes_in(*old(history)).drop_last()
        },
{
    history.pop()
}

/// `heapless::Vec::insert`: puts `code` at `index` and moves the codes from there
/// on back by one; a full vector stays as it is and the code comes back as an
/// error. The index must not lie beyond the end.
#[verifier::external_body]
pub(crate) fn insert_code(
    history: &mut heapless::Vec<u32, MAX_ERROR_HISTORY>,
    index: usize,
    code: u32,
) -> (r: Result<(), u32>)
    requires
        index <= codes_in(*old(history)).len(),
    ensures
        r == if codes_in(*old(history)).len() < MAX_ERROR_HISTORY {
            Ok(())
        } else {
            Err(code)
        },
        codes_in(*final(history)) == if codes_in(*old(history)).len() < MAX_ERROR_HISTORY {
            codes_in(*old(history)).insert(index as int, code)
        } else {
            codes_in(*old(history))
        },
{
    history.insert(index, code)
}

/// `heapless::Vec::clear`: removes every code.
#[verifier::external_body]
pub(crate) fn clear_codes(history: &mut heapless::Vec<u32, MAX_ERROR_HISTORY>)
    ensures
        codes_in(*final(history)) == Seq::<u32>::empty(),
{
    history.clear()
}

/// The receive PDOs that a table holds.
pub uninterp spec fn rpdos_in(table: heapless::Vec<RpdoSlot, MAX_PDOS>) -> Seq<RpdoSlot>;

/// `heapless::Vec::new`: an empty table of receive PDOs.
#[verifier::external_body]
pub(crate) fn new_rpdos() -> (table: heapless::Vec<RpdoSlot, MAX_PDOS>)
    ensures
        rpdos_in(table) == Seq::<RpdoSlot>::empty(),
{
    heapless::Vec::new()
}

/// `heapless::Vec::push`: appends `slot`; a full table stays as it is and the
/// slot comes back as an error.
#[verifier::external_body]
pub(crate) fn push_rpdo(table: &mut heapless::Vec<RpdoSlot, MAX_PDOS>, slot: RpdoSlot) -> (r: Result<
    (),
    RpdoSlot,
>)
    ensures
        r == if rpdos_in(*old(table)).len() < MAX_PDOS {
            Ok(())
        } else {
            Err(slot)
        },
        rpdos_in(*final(table)) == if rpdos_in(*old(table)).len() < MAX_PDOS {
            rpdos_in(*old(table)).push(slot)
        } else {
            rpdos_in(*old(table))
        },
{
    table.push(slot)
}

/// `heapless::Vec::as_slice`: the receive PDOs, never more than the capacity.
#[verifier::external_body]
pub(crate) fn rpdos_slice(table: &heapless::Vec<RpdoSlot, MAX_PDOS>) -> (s: &[RpdoSlot])
    ensures
        s@ == rpdos_in(*table),
        s@.len() <= MAX_PDOS,
{
    table.as_slice()
}

/// The transmit PDOs that a table holds.
pub uninterp spec fn tpdos_in(table: heapless::Vec<TpdoSlot, MAX_PDOS>) -> Seq<TpdoSlot>;

/// `heapless::Vec::new`: an empty table of transmit PDOs.
#[verifier::external_body]
pub(crate) fn new_tpdos() -> (table: heapless::Vec<TpdoSlot, MAX_PDOS>)
    ensures
        tpdos_in(table) == Seq::<TpdoSlot>::empty(),
{
    heapless::Vec::new()
}

/// `heapless::Vec::push`: appends `slot`; a full table stays as it is and the
/// slot comes back as an error.
#[verifier::external_body]
pub(crate) fn push_tpdo(table: &mut heapless::Vec<TpdoSlot, MAX_PDOS>, slot: TpdoSlot) -> (r: Result<
    (),
    TpdoSlot,
>)
    ensures
        r == if tpdos_in(*old(table)).len() < MAX_PDOS {
            Ok(())
        } else {
            Err(slot)
        },
        tpdos_in(*final(table)) == if tpdos_in(*old(table)).len() < MAX_PDOS {
            tpdos_in(*old(table)).push(slot)
        } else {
            tpdos_in(*old(table))
        },
{
    table.push(slot)
}

/// `heapless::Vec::as_slice`: the transmit PDOs, never more than the capacity.
#[verifier::external_body]
pub(crate) fn tpdos_slice(table: &heapless::Vec<TpdoSlot, MAX_PDOS>) -> (s: &[TpdoSlot])
    ensures
        s@ == tpdos_in(*table),
        s@.len() <= MAX_PDOS,
{
    table.as_slice()
}

/// The frames that a list of frames holds.
pub uninterp spec fn frames_in(frames: heapless::Vec<TxFrame, MAX_PDOS>) -> Seq<TxFrame>;

/// `heapless::Vec::new`: an empty list.
#[verifier::external_body]
pub(crate) fn new_frames() -> (frames: heapless::Vec<TxFrame, MAX_PDOS>)
    ensures
        frames_in(frames) == Seq::<TxFrame>::empty(),
{
    heapless::Vec::new()
}

/// `heapless::Vec::push`: appends `frame`; a full list stays as it is and the
/// frame comes back as an error.
#[verifier::external_body]
pub(crate) fn push_frame(frames: &mut heapless::Vec<TxFrame, MAX_PDOS>, frame: TxFrame) -> (r: Result<
    (),
    TxFrame,
>)
    ensures
        r == if frames_in(*old(frames)).len() < MAX_PDOS {
            Ok(())
        } else {
            Err(frame)
        },
        frames_in(*final(frames)) == if frames_in(*old(frames)).len() < MAX_PDOS {
            frames_in(*old(frames)).push(frame)
        } else {
            frames_in(*old(frames))
        },
{
    frames.push(frame)
}

} // verus!
