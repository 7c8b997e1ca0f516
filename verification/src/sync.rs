//! Synchronisation object (SYNC) — the network heartbeat for synchronous
//! communication (CiA 301 §7.2.5).
//!
//! SYNC is a high-priority, broadcast frame produced periodically by a single
//! node (the SYNC producer). It carries no addressed data: consumers act on
//! its *arrival* — sampling inputs, applying synchronous RPDOs, transmitting
//! synchronous TPDOs. The frame is empty by default, or carries a single
//! **counter** byte when the producer's synchronous-counter-overflow value
//! (object `0x1019`) is set to `2..=240`.
//!
//! The default COB-ID is `0x080` ([`SYNC_COB_ID`]), configurable via object
//! `0x1005`.
use vstd::prelude::*;

use crate::types::{Error, Result};

verus! {

/// The default SYNC COB-ID (`0x080`), configurable via object `0x1005`.
pub const SYNC_COB_ID: u16 = 0x080;

/// The counter overflow values that object `0x1019` may hold: `0` for an empty
/// SYNC, `2..=240` for a counting one.
pub open spec fn valid_overflow(overflow: u8) -> bool {
    overflow == 0 || 2 <= overflow <= 240
}

/// Whether a synchronous-counter-overflow value (object `0x1019`) is valid:
/// `0` disables the counter (empty SYNC), and `2..=240` enables a counting
/// SYNC. The value `1` is reserved.
pub fn is_valid_counter_overflow(overflow: u8) -> (b: bool)
    ensures
        b == valid_overflow(overflow),
{
    overflow == 0 || (2 <= overflow && overflow <= 240)
}

/// Decode a received SYNC frame's data field.
///
/// Returns `Ok(None)` for an empty (counter-less) SYNC, or `Ok(Some(count))`
/// for a counting SYNC. Returns [`Error::BadLength`] if the frame carries more
/// than one byte.
pub fn decode(data: &[u8]) -> (r: Result<Option<u8>>)
    ensures
        data@.len() == 0 ==> r == Ok::<Option<u8>, Error>(None),
        data@.len() == 1 ==> r == Ok::<Option<u8>, Error>(Some(data@[0])),
        data@.len() > 1 ==> r == Err::<Option<u8>, Error>(Error::BadLength),
{
    match data.len() {
        0 => Ok(None),
        1 => Ok(Some(data[0])),
        _ => Err(Error::BadLength),
    }
}

/// The data field of a counting SYNC carrying `count`.
///
/// The empty (counter-less) SYNC has no data field, so there is nothing to
/// encode for it — transmit a zero-length frame.
pub fn encode_counter(count: u8) -> (frame: [u8; 1])
    ensures
        frame@ == seq![count],
{
    let frame = [count];
    assert(frame@ =~= seq![count]);
    frame
}

/// The counter for a SYNC producer (CiA 301 §7.2.5.2.1).
///
/// When enabled, the counter cycles `1..=overflow` and wraps back to `1`.
/// Constructed from the object `0x1019` overflow value: `0` (or the reserved
/// `1`) means the producer emits empty SYNC frames, so [`SyncCounter::advance`]
/// yields `None`.
#[derive(Debug, Clone, Copy)]
pub struct SyncCounter {
    overflow: u8,
    value: u8,
}

/// The count that follows `count` in a cycle `1..=overflow`. Before the first
/// SYNC the count is `0`.
pub open spec fn next_count(overflow: u8, count: u8) -> u8 {
    if count >= overflow {
        1
    } else {
        (count + 1) as u8
    }
}

/// The count of the `k`-th SYNC (from zero) of a producer that starts afresh.
pub open spec fn count_after(overflow: u8, k: nat) -> u8
    decreases k,
{
    if k == 0 {
        next_count(overflow, 0)
    } else {
        next_count(overflow, count_after(overflow, (k - 1) as nat))
    }
}

/// The counter of a counting producer runs `1, 2, …, overflow`, and then from
/// `1` again, for ever.
pub proof fn law_counter_cycles(overflow: u8, k: nat)
    requires
        overflow >= 2,
    ensures
        count_after(overflow, k) == k % (overflow as nat) + 1,
        1 <= count_after(overflow, k) <= overflow,
    decreases k,
{
    if k > 0 {
        law_counter_cycles(overflow, (k - 1) as nat);
        let n = overflow as int;
        vstd::arithmetic::div_mod::lemma_fundamental_div_mod(k - 1, n);
        let q = (k - 1) / n;
        let r = (k - 1) % n;
        if r == n - 1 {
            assert(k == (q + 1) * n) by (nonlinear_arith)
                requires
                    k - 1 == n * q + r,
                    r == n - 1,
            ;
            vstd::arithmetic::div_mod::lemma_fundamental_div_mod_converse(k as int, n, q + 1, 0);
        } else {
            assert(k == q * n + (r + 1)) by (nonlinear_arith)
                requires
                    k - 1 == n * q + r,
            ;
            vstd::arithmetic::div_mod::lemma_fundamental_div_mod_converse(k as int, n, q, r + 1);
        }
    } else {
        assert(0nat % (overflow as nat) == 0);
    }
}

impl SyncCounter {
    /// The overflow value the counter was made with.
    pub closed spec fn overflow(self) -> u8 {
        self.overflow
    }

    /// The last count emitted, `0` before the first SYNC.
    pub closed spec fn count(self) -> u8 {
        self.value
    }

    /// The overflow value is valid and the count has not passed it.
    pub closed spec fn wf(self) -> bool {
        valid_overflow(self.overflow) && self.value <= self.overflow
    }

    /// Create a SYNC counter from an overflow value.
    ///
    /// Returns [`Error::InvalidSyncCounter`] unless `overflow` is `0` or in
    /// `2..=240`.
    pub fn new(overflow: u8) -> (r: Result<Self>)
        ensures
            r is Ok <==> valid_overflow(overflow),
            r matches Ok(c) ==> c.wf() && c.overflow() == overflow && c.count() == 0,
            r matches Err(e) ==> e == Error::InvalidSyncCounter,
    {
        if !is_valid_counter_overflow(overflow) {
            return Err(Error::InvalidSyncCounter);
        }
        // `value` holds the last emitted count; the first `advance` yields 1.

        Ok(Self { overflow, value: 0 })
    }

    /// Whether this producer emits a counter (overflow in `2..=240`).
    pub fn is_counting(&self) -> (b: bool)
        ensures
            b == (self.overflow() >= 2),
    {
        self.overflow >= 2
    }

    /// Advance to the next SYNC counter value.
    ///
    /// Returns `None` for a counter-less producer (emit an empty SYNC), or
    /// `Some(count)` cycling `1..=overflow`.
    pub fn advance(&mut self) -> (r: Option<u8>)
        requires
            old(self).wf(),
        ensures
            final(self).wf(),
            final(self).overflow() == old(self).overflow(),
            if old(self).overflow() >= 2 {
                &&& final(self).count() == next_count(old(self).overflow(), old(self).count())
                &&& r == Some(final(self).count())
            } else {
                r is None && *final(self) == *old(self)
            },
    {
        if !self.is_counting() {
            return None;
        }
        self.value =
        if self.value >= self.overflow {
            1
        } else {
            self.value + 1
        };
        Some(self.value)
    }
}

/// A counter overflow is valid exactly when it is `0` or lies in `2..=240`. The
/// counts then run from `1` up, one at a time, and never pass the overflow.
pub proof fn law_overflow_values(overflow: u8, count: u8)
    ensures
        valid_overflow(overflow) <==> overflow == 0 || (overflow >= 2 && overflow <= 240),
        overflow >= 2 && count < overflow ==> next_count(overflow, count) == count + 1,
        overflow >= 2 && count == overflow ==> next_count(overflow, count) == 1,
        SYNC_COB_ID == 0x80,
{
}

} // verus!
