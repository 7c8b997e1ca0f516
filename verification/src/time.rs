//! Time stamp object (TIME) — the network time-of-day (CiA 301 §7.2.6).
//!
//! A single node (the TIME producer) broadcasts the absolute time on the
//! default COB-ID `0x100` ([`TIME_COB_ID`]). The payload is a six-byte
//! `TIME_OF_DAY`: milliseconds since midnight and days since 1 January 1984.
use vstd::prelude::*;

use crate::little_endian::{
    four_bytes, from_le, law_bytes_make_up_the_number, le_bytes, le_value, lemma_byte_ranges,
    lemma_le_round_trip, two_bytes, u16_bytes, u32_bytes,
};
use crate::types::{Error, Result};

verus! {

/// The default TIME COB-ID (`0x100`), configurable via object `0x1012`.
pub const TIME_COB_ID: u16 = 0x100;

/// The number of milliseconds in a day — the exclusive upper bound of a valid
/// [`TimeOfDay::milliseconds`].
pub const MS_PER_DAY: u32 = 86_400_000;

/// The millisecond field is 28 bits wide.
pub const MS_FIELD: u32 = 0x1000_0000;

/// A CANopen `TIME_OF_DAY`: milliseconds after midnight and days since the
/// CANopen epoch (1 January 1984).
#[derive(Debug, Clone, Copy, PartialEq, Eq, Structural)]
pub struct TimeOfDay {
    /// Milliseconds after midnight. The wire field is 28 bits, so only the low
    /// 28 bits are transmitted (values up to [`MS_PER_DAY`]).
    pub milliseconds: u32,
    /// Days since 1 January 1984.
    pub days: u16,
}

impl TimeOfDay {
    /// The six-byte data field: the low 28 bits of the milliseconds, then the
    /// days.
    pub open spec fn encoding(self) -> Seq<u8> {
        le_bytes((self.milliseconds % MS_FIELD) as nat, 4) + le_bytes(self.days as nat, 2)
    }

    /// The time that a data field of at least six bytes carries.
    pub open spec fn of_bytes(data: Seq<u8>) -> TimeOfDay {
        TimeOfDay {
            milliseconds: (le_value(data.subrange(0, 4)) as u32) % MS_FIELD,
            days: le_value(data.subrange(4, 6)) as u16,
        }
    }

    /// Decoding the encoding gives back the days and the low 28 bits of the
    /// milliseconds: every time of a day survives unchanged.
    pub proof fn law_round_trip(t: TimeOfDay)
        ensures
            t.encoding().len() == 6,
            TimeOfDay::of_bytes(t.encoding()) == (TimeOfDay {
                milliseconds: t.milliseconds % MS_FIELD,
                days: t.days,
            }),
            t.milliseconds < MS_PER_DAY ==> TimeOfDay::of_bytes(t.encoding()) == t,
    {
        lemma_byte_ranges();
        let ms = (t.milliseconds % MS_FIELD) as nat;
        lemma_le_round_trip(ms, 4);
        lemma_le_round_trip(t.days as nat, 2);
        assert(t.encoding().subrange(0, 4) =~= le_bytes(ms, 4));
        assert(t.encoding().subrange(4, 6) =~= le_bytes(t.days as nat, 2));
    }

    /// Construct a time of day.
    pub fn new(milliseconds: u32, days: u16) -> (t: Self)
        ensures
            t == (TimeOfDay { milliseconds, days }),
    {
        Self { milliseconds, days }
    }

    /// Encode into the six-byte TIME data field: the 28-bit millisecond count
    /// little-endian in bytes 0..4 (top four bits reserved, zero) and the day
    /// count little-endian in bytes 4..6.
    pub fn encode(&self) -> (frame: [u8; 6])
        ensures
            frame@ == self.encoding(),
    {
        let ms = u32_bytes(self.milliseconds % MS_FIELD);
        let days = u16_bytes(self.days);
        let frame = [ms[0], ms[1], ms[2], ms[3], days[0], days[1]];
        assert(frame@ =~= self.encoding());
        frame
    }

    /// Decode a TIME data field. Requires at least six bytes; the reserved top
    /// four bits of the millisecond field are masked off.
    pub fn decode(data: &[u8]) -> (r: Result<Self>)
        ensures
            r is Ok <==> data@.len() >= 6,
            r matches Ok(t) ==> t == TimeOfDay::of_bytes(data@),
            r matches Err(e) ==> e == Error::BadLength,
    {
        if data.len() < 6 {
            return Err(Error::BadLength);
        }
        proof {
            lemma_byte_ranges();
        }
        Ok(
            Self {
                milliseconds: (from_le(&data[0..4]) as u32) % MS_FIELD,
                days: from_le(&data[4..6]) as u16,
            },
        )
    }
}

/// Where the parts of a time stand: the low 28 bits of the milliseconds in bytes
/// 0 to 3 and the days in bytes 4 and 5, least significant first. The top four
/// bits of byte 3 are sent as zero and not read.
pub proof fn law_layout(t: TimeOfDay, data: Seq<u8>)
    requires
        data.len() >= 6,
    ensures
        ({
            let e = t.encoding();
            &&& e.len() == 6
            &&& four_bytes(e[0], e[1], e[2], e[3]) == t.milliseconds as int % 0x1000_0000
            &&& two_bytes(e[4], e[5]) == t.days
            &&& e[3] < 16
        }),
        TimeOfDay::of_bytes(data).milliseconds == four_bytes(
            data[0],
            data[1],
            data[2],
            (data[3] % 16) as u8,
        ),
        TimeOfDay::of_bytes(data).days == two_bytes(data[4], data[5]),
        TIME_COB_ID == 0x100,
{
    let ms = t.milliseconds % MS_FIELD;
    law_bytes_make_up_the_number(t.days, ms, data.subrange(0, 4));
    law_bytes_make_up_the_number(t.days, ms, data.subrange(4, 6));
    TimeOfDay::law_round_trip(t);
    let e = t.encoding();
    let m = le_bytes(ms as nat, 4);
    assert(e[0] == m[0] && e[1] == m[1] && e[2] == m[2] && e[3] == m[3]);
    let d = le_bytes(t.days as nat, 2);
    assert(e[4] == d[0] && e[5] == d[1]);
    let raw = four_bytes(data[0], data[1], data[2], data[3]);
    assert(raw % 0x1000_0000 == four_bytes(data[0], data[1], data[2], (data[3] % 16) as u8)) by {
        let low = data[0] + 0x100 * data[1] + 0x1_0000 * data[2];
        assert(data[3] == 16 * (data[3] / 16) + data[3] % 16);
        assert(raw == low + 0x100_0000 * (data[3] % 16) + 0x1000_0000 * (data[3] / 16));
    }
}

} // verus!
