//! The decisions of a CANopen bus transport.
//!
//! A transport moves frames; what it makes of them is decided here: which
//! received frames are CANopen data, which of them answers a request, when an
//! SDO transaction is over and with what result, and what a failure is called.
use vstd::prelude::*;
use vstd::string::StringExecFns;

use crate::datatypes::Value;
use crate::frame::{clamped, padded, Frame, Payload};
use crate::sdo::client::{ClientState, Outcome};
use crate::sdo::{SdoEvent, SdoPayload};
use crate::text::{hex_text, push_hex};
use crate::transport::{cob_id, cob_id_of, CanFrame};

verus! {

/// A CANopen frame received from the bus: its COB-ID and up to eight bytes.
#[derive(Debug, Clone, Copy)]
pub struct Received {
    /// The frame's COB-ID (11-bit standard identifier).
    pub cob_id: u16,
    data: Payload,
}

impl View for Received {
    type V = Frame;

    closed spec fn view(&self) -> Frame {
        Frame { cob_id: self.cob_id, data: self.data@ }
    }
}

impl Received {
    /// Build a received frame from a COB-ID and its data bytes (clamped to 8).
    pub fn new(cob_id: u16, bytes: &[u8]) -> (r: Self)
        ensures
            r@ == (Frame { cob_id, data: clamped(bytes@) }),
    {
        Self { cob_id, data: Payload::new(bytes) }
    }

    /// The received bytes, trimmed to the frame's data length.
    pub fn data(&self) -> (d: &[u8])
        ensures
            d@ == self@.data,
    {
        self.data.bytes()
    }

    /// The full eight-byte payload, zero-padded — convenient for the
    /// fixed-size SDO codecs, which expect a `&[u8; 8]`.
    pub fn payload(&self) -> (p: &[u8; 8])
        ensures
            p@ == padded(self@.data),
    {
        self.data.padded()
    }
}

/// What a frame off the bus is to CANopen: `None` for a remote or error frame
/// and for one with a 29-bit extended identifier.
pub fn accept(is_data_frame: bool, frame: &CanFrame) -> (r: Option<Received>)
    ensures
        r is Some <==> is_data_frame && cob_id_of(frame.spec_id()) is Some,
        r matches Some(f) ==> Some(f@.cob_id) == cob_id_of(frame.spec_id()) && f@.data == clamped(
            frame.payload(),
        ),
{
    if !is_data_frame {
        return None;
    }
    match cob_id(frame) {
        Some(cob) => Some(Received::new(cob, frame.data())),
        None => None,
    }
}

/// Whether a received frame answers a request whose answer comes on `cob_id`.
pub fn answers(frame: &Received, cob_id: u16) -> (b: bool)
    ensures
        b == (frame@.cob_id == cob_id),
{
    frame.cob_id == cob_id
}

/// An error from an SDO transaction over the bus.
#[derive(Debug)]
pub enum SdoError {
    /// An I/O error on the socket (including a read timeout), described.
    Io(String),
    /// The server (or client) aborted with this raw SDO abort code.
    Aborted(u32),
    /// The transfer completed without yielding an expected value.
    NoValue,
}

impl SdoError {
    /// The text of [`message`](SdoError::message).
    pub open spec fn text(self) -> Seq<char> {
        match self {
            SdoError::Io(e) => "SDO transport I/O error: "@ + e@,
            SdoError::Aborted(code) => "SDO transfer aborted (code "@ + hex_text(code as nat, 8)
                + ")"@,
            SdoError::NoValue => "SDO transfer completed without a value"@,
        }
    }

    /// A description of the error, for display.
    pub fn message(&self) -> (s: String)
        ensures
            s@ == self.text(),
    {
        let mut s = String::new();
        match self {
            SdoError::Io(e) => {
                s.append("SDO transport I/O error: ");
                s.append(e.as_str());
            },
            SdoError::Aborted(code) => {
                s.append("SDO transfer aborted (code ");
                push_hex(&mut s, *code as u64, 8);
                s.append(")");
            },
            SdoError::NoValue => {
                s.append("SDO transfer completed without a value");
            },
        }
        assert(s@ =~= self.text());
        s
    }
}

/// The next step of a read over the bus.
#[derive(Debug)]
pub enum ReadStep {
    /// Transmit this request and await the response.
    Send(SdoPayload),
    /// The read is over.
    Done(Result<Value, SdoError>),
}

/// What an event of the client means for a read: a completed read must have
/// yielded a value.
pub fn read_step(event: SdoEvent) -> (step: ReadStep)
    ensures
        match event {
            SdoEvent::Send(f) => step == ReadStep::Send(f),
            SdoEvent::Complete(Some(v)) => step == ReadStep::Done(Ok(v)),
            SdoEvent::Complete(None) => step == ReadStep::Done(Err(SdoError::NoValue)),
            SdoEvent::Aborted(code) => step == ReadStep::Done(Err(SdoError::Aborted(code))),
        },
{
    match event {
        SdoEvent::Send(next) => ReadStep::Send(next),
        SdoEvent::Complete(Some(value)) => ReadStep::Done(Ok(value)),
        SdoEvent::Complete(None) => ReadStep::Done(Err(SdoError::NoValue)),
        SdoEvent::Aborted(code) => ReadStep::Done(Err(SdoError::Aborted(code))),
    }
}

/// The next step of a write over the bus.
#[derive(Debug)]
pub enum WriteStep {
    /// Transmit this request and await the response.
    Send(SdoPayload),
    /// The write is over.
    Done(Result<(), SdoError>),
}

/// What an event of the client means for a write.
pub fn write_step(event: SdoEvent) -> (step: WriteStep)
    ensures
        match event {
            SdoEvent::Send(f) => step == WriteStep::Send(f),
            SdoEvent::Complete(_) => step == WriteStep::Done(Ok(())),
            SdoEvent::Aborted(code) => step == WriteStep::Done(Err(SdoError::Aborted(code))),
        },
{
    match event {
        SdoEvent::Send(next) => WriteStep::Send(next),
        SdoEvent::Complete(_) => WriteStep::Done(Ok(())),
        SdoEvent::Aborted(code) => WriteStep::Done(Err(SdoError::Aborted(code))),
    }
}

/// Whether the client is reading.
pub open spec fn reading(c: ClientState) -> bool {
    c is UploadInit || c is UploadSeg
}

/// A read that completes yields a value, whatever the server sends: no response
/// leads a reading client to a completion without one.
pub proof fn law_read_yields_a_value(c: ClientState, resp: Seq<u8>)
    requires
        reading(c),
    ensures
        ({
            let (next, outcome) = c.receive(resp);
            match outcome {
                Outcome::Send(_) => reading(next),
                Outcome::Complete(value) => value is Some && next is Idle,
                Outcome::Aborted(_) => next is Idle,
            }
        }),
{
}

/// `ENODEV`, which SocketCAN returns for a missing or downed interface.
pub const ENODEV: i32 = 19;

/// The text of [`open_error`].
pub open spec fn open_error_text(interface: Seq<char>, os_error: Option<i32>, detail: Seq<char>) -> Seq<
    char,
> {
    "opening CAN interface '"@ + interface + "': "@ + detail + if os_error == Some(ENODEV) {
        " — interface not found; is it up? (e.g. `sudo ip link set up "@ + interface + "`)"@
    } else {
        Seq::empty()
    }
}

/// Describe a socket-open failure with the interface name and, when the interface
/// does not exist (`ENODEV`), a hint that it may not be up. `detail` is the
/// system's own description of the failure.
pub fn open_error(interface: &str, os_error: Option<i32>, detail: &str) -> (s: String)
    ensures
        s@ == open_error_text(interface@, os_error, detail@),
{
    let mut s = String::new();
    s.append("opening CAN interface '");
    s.append(interface);
    s.append("': ");
    s.append(detail);
    if let Some(code) = os_error {
        if code == ENODEV {
            s.append(" — interface not found; is it up? (e.g. `sudo ip link set up ");
            s.append(interface);
            s.append("`)");
        }
    }
    assert(s@ =~= open_error_text(interface@, os_error, detail@));
    s
}

/// A failed transaction is described by its cause: an abort with its code in
/// hexadecimal, which reads back from the text, and a transport error with the
/// transport's own words behind it.
pub proof fn law_failures_are_described(code: u32, words: String)
    ensures
        ({
            let t = SdoError::Aborted(code).text();
            let head = "SDO transfer aborted (code "@;
            let n = head.len() as int;
            &&& t.take(n) == head
            &&& t.len() == n + 11
            &&& crate::text::integer(t.subrange(n, n + 10)) == Some(code as int)
            &&& t.last() == ')'
            &&& SdoError::Io(words).text() == "SDO transport I/O error: "@ + words@
        }),
{
    let t = SdoError::Aborted(code).text();
    let head = "SDO transfer aborted (code "@;
    let n = head.len() as int;
    reveal_strlit(")");
    crate::text::laws::lemma_pow16();
    crate::text::law_hex_round_trip(code as nat, 8);
    crate::text::laws::law_integer_reads_hexadecimal(code as nat, 8, false);
    assert(t.take(n) =~= head);
    assert(t.subrange(n, n + 10) =~= hex_text(code as nat, 8));
}

/// A failure to open an interface is described by its name and the system's words,
/// and with a hint exactly when the system says that there is no such device.
pub proof fn law_open_failures(interface: Seq<char>, os_error: Option<i32>, detail: Seq<char>)
    ensures
        ({
            let t = open_error_text(interface, os_error, detail);
            let head = "opening CAN interface '"@ + interface + "': "@ + detail;
            &&& t.take(head.len() as int) == head
            &&& os_error != Some(19i32) ==> t == head
            &&& os_error == Some(19i32) ==> t.skip(head.len() as int)
                == " — interface not found; is it up? (e.g. `sudo ip link set up "@ + interface
                + "`)"@
        }),
{
    let t = open_error_text(interface, os_error, detail);
    let head = "opening CAN interface '"@ + interface + "': "@ + detail;
    assert(t.take(head.len() as int) =~= head);
    if os_error != Some(19i32) {
        assert(t =~= head);
    } else {
        assert(t.skip(head.len() as int)
            =~= " — interface not found; is it up? (e.g. `sudo ip link set up "@ + interface
            + "`)"@);
    }
}

} // verus!
