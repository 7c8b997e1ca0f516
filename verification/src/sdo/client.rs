//! SDO client — drives read (upload) and write (download) transactions.
//!
//! [`SdoClient`] is a state machine without I/O. Start a transaction with
//! [`SdoClient::read`] or [`SdoClient::write`] — each returns the first request
//! frame to transmit — then feed every server response to
//! [`SdoClient::on_response`], which returns the next [`SdoEvent`]: another
//! frame to send, the completed result, or an abort. The client picks
//! expedited or segmented transfer automatically from the value size, so
//! callers need not care which is used.
use vstd::prelude::*;

use crate::buffer::{bytes_in, bytes_slice, extend_bytes, new_bytes};
use crate::datatypes::{decoded, DataType, Value, MAX_STRING_LEN};
use crate::little_endian::le_bytes;
use crate::object_dictionary::Address;
use crate::sdo::{
    addressed, data_segment, decode_abort, decode_data_segment, decode_download_response,
    decode_download_segment_response, decode_upload_expedited_response,
    decode_upload_initiate_segmented_response, encode_download_expedited,
    encode_download_initiate_segmented, encode_upload_request, encode_upload_segment_request,
    expedited_command, expedited_upload_of, is_segmented_initiate, low_bit, number_in,
    request_cob_id, response_cob_id, segment_at, segment_data, segment_len, specifier, toggle_bit,
    toggle_frame, transfer_has_room, transfer_limit, SdoPayload, CCS_DOWNLOAD_INITIATE,
    CCS_DOWNLOAD_SEGMENT, CCS_UPLOAD_INITIATE, CCS_UPLOAD_SEGMENT, CS_ABORT, SCS_DOWNLOAD_INITIATE, SCS_DOWNLOAD_SEGMENT,
    SCS_UPLOAD_INITIATE, SDO_REQUEST_COB_BASE, SDO_RESPONSE_COB_BASE, SEGMENT_DATA_MAX,
};
use crate::types::NodeId;

verus! {

/// The abort code for "toggle bit not alternated" (CiA 301 §7.2.4.3.17), used
/// when the client itself detects an out-of-sequence segment.
pub const ABORT_TOGGLE: u32 = 0x0503_0000;

/// The abort code for a general internal error.
pub const ABORT_GENERAL: u32 = 0x0800_0000;

/// The outcome of feeding a response to [`SdoClient::on_response`].
#[derive(Debug, Clone, Copy, PartialEq)]
pub enum SdoEvent {
    /// Transmit this frame, then feed the reply back to [`SdoClient::on_response`].
    Send(SdoPayload),
    /// The transaction finished. A read yields `Some(value)`; a write `None`.
    Complete(Option<Value>),
    /// The transaction was aborted with this raw SDO abort code.
    Aborted(u32),
}

/// An outcome, with the frame as a sequence of bytes.
pub enum Outcome {
    Send(Seq<u8>),
    Complete(Option<Value>),
    Aborted(u32),
}

impl View for SdoEvent {
    type V = Outcome;

    open spec fn view(&self) -> Outcome {
        match self {
            SdoEvent::Send(f) => Outcome::Send(f@),
            SdoEvent::Complete(v) => Outcome::Complete(*v),
            SdoEvent::Aborted(code) => Outcome::Aborted(*code),
        }
    }
}

/// The state of a transaction.
pub enum ClientState {
    /// No transaction is in progress.
    Idle,
    /// Awaiting the response to an expedited write.
    DownloadExpedited,
    /// Awaiting the response to the initiate of a segmented write of `data`.
    DownloadInit { data: Seq<u8> },
    /// Awaiting the acknowledgement of the last-sent segment; `pos` bytes have
    /// been sent.
    DownloadSeg { data: Seq<u8>, pos: int, last_toggle: bool },
    /// Awaiting the response to the initiate of a read.
    UploadInit { data_type: DataType },
    /// Awaiting the next segment of a read; `buf` has arrived.
    UploadSeg { data_type: DataType, buf: Seq<u8>, toggle: bool },
}

impl ClientState {
    /// A transfer holds no more than the buffers do.
    pub open spec fn wf(self) -> bool {
        match self {
            ClientState::DownloadInit { data } => data.len() <= MAX_STRING_LEN,
            ClientState::DownloadSeg { data, pos, .. } => {
                &&& data.len() <= MAX_STRING_LEN
                &&& 0 <= pos <= data.len()
            },
            ClientState::UploadSeg { data_type, buf, .. } => buf.len() <= transfer_limit(data_type),
            _ => true,
        }
    }

    /// The state and frame that begin a write: a value of one to four bytes is
    /// sent at once, any other declares its size first.
    pub open spec fn begin_write(addr: Address, value: Value) -> (ClientState, Seq<u8>) {
        let data = value.encoding();
        if 1 <= data.len() <= 4 {
            (
                ClientState::DownloadExpedited,
                addressed(expedited_command(CCS_DOWNLOAD_INITIATE, data.len()), addr, data),
            )
        } else {
            (
                ClientState::DownloadInit { data },
                addressed(0x21, addr, le_bytes(data.len(), 4)),
            )
        }
    }

    /// The state and frame that begin a read.
    pub open spec fn begin_read(addr: Address, data_type: DataType) -> (ClientState, Seq<u8>) {
        (
            ClientState::UploadInit { data_type },
            addressed(CCS_UPLOAD_INITIATE, addr, Seq::empty()),
        )
    }

    /// The transaction ends with an abort that the client raises itself.
    pub open spec fn give_up(code: u32) -> (ClientState, Outcome) {
        (ClientState::Idle, Outcome::Aborted(code))
    }

    /// The client sends the segment of `data` that starts at `pos`.
    pub open spec fn send_segment(data: Seq<u8>, pos: int, toggle: bool) -> (ClientState, Outcome) {
        (
            ClientState::DownloadSeg {
                data,
                pos: pos + segment_len(data.len() - pos),
                last_toggle: toggle,
            },
            Outcome::Send(segment_at(data, pos, toggle)),
        )
    }

    /// The client takes a segment of a read; the last one completes it.
    pub open spec fn take_segment(
        data_type: DataType,
        buf: Seq<u8>,
        toggle: bool,
        resp: Seq<u8>,
    ) -> (ClientState, Outcome) {
        let all = buf + segment_data(resp);
        if specifier(resp[0]) != CCS_DOWNLOAD_SEGMENT {
            ClientState::give_up(ABORT_GENERAL)
        } else if toggle_bit(resp[0]) != toggle {
            ClientState::give_up(ABORT_TOGGLE)
        } else if all.len() > transfer_limit(data_type) {
            ClientState::give_up(ABORT_GENERAL)
        } else if !low_bit(resp[0]) {
            (
                ClientState::UploadSeg { data_type, buf: all, toggle: !toggle },
                Outcome::Send(toggle_frame(CCS_UPLOAD_SEGMENT, !toggle)),
            )
        } else if data_type.accepts_len(all.len()) {
            (ClientState::Idle, Outcome::Complete(Some(decoded(data_type, all))))
        } else {
            ClientState::give_up(ABORT_GENERAL)
        }
    }

    /// What the client makes of a response. Any response may be an abort.
    pub open spec fn receive(self, resp: Seq<u8>) -> (ClientState, Outcome) {
        if resp[0] == CS_ABORT {
            (ClientState::Idle, Outcome::Aborted(number_in(resp)))
        } else {
            match self {
                ClientState::Idle => ClientState::give_up(ABORT_GENERAL),
                ClientState::DownloadExpedited => {
                    if resp[0] == SCS_DOWNLOAD_INITIATE {
                        (ClientState::Idle, Outcome::Complete(None))
                    } else {
                        ClientState::give_up(ABORT_GENERAL)
                    }
                },
                ClientState::DownloadInit { data } => {
                    if resp[0] == SCS_DOWNLOAD_INITIATE {
                        ClientState::send_segment(data, 0, false)
                    } else {
                        ClientState::give_up(ABORT_GENERAL)
                    }
                },
                ClientState::DownloadSeg { data, pos, last_toggle } => {
                    if specifier(resp[0]) != SCS_DOWNLOAD_SEGMENT {
                        ClientState::give_up(ABORT_GENERAL)
                    } else if toggle_bit(resp[0]) != last_toggle {
                        ClientState::give_up(ABORT_TOGGLE)
                    } else if pos >= data.len() {
                        (ClientState::Idle, Outcome::Complete(None))
                    } else {
                        ClientState::send_segment(data, pos, !last_toggle)
                    }
                },
                ClientState::UploadInit { data_type } => {
                    match expedited_upload_of(resp, data_type) {
                        Ok((_, value)) => (ClientState::Idle, Outcome::Complete(Some(value))),
                        Err(_) => {
                            if is_segmented_initiate(SCS_UPLOAD_INITIATE, resp[0]) {
                                (
                                    ClientState::UploadSeg {
                                        data_type,
                                        buf: Seq::empty(),
                                        toggle: false,
                                    },
                                    Outcome::Send(toggle_frame(CCS_UPLOAD_SEGMENT, false)),
                                )
                            } else {
                                ClientState::give_up(ABORT_GENERAL)
                            }
                        },
                    }
                },
                ClientState::UploadSeg { data_type, buf, toggle } => {
                    ClientState::take_segment(data_type, buf, toggle, resp)
                },
            }
        }
    }
}

#[derive(Debug)]
enum State {
    Idle,
    /// Awaiting the response to an expedited download (write).
    DownloadExpedited,
    /// Awaiting the segmented-download initiate response, then sending segments.
    DownloadInit { data: [u8; MAX_STRING_LEN], len: usize },
    /// Awaiting the acknowledgement of the last-sent segment.
    DownloadSeg { data: [u8; MAX_STRING_LEN], len: usize, pos: usize, last_toggle: bool },
    /// Awaiting the upload initiate response.
    UploadInit { data_type: DataType },
    /// Awaiting the next upload data segment; `toggle` is the polled toggle.
    UploadSeg { data_type: DataType, buf: heapless::Vec<u8, MAX_STRING_LEN>, toggle: bool },
}

impl State {
    spec fn model(self) -> ClientState {
        match self {
            State::Idle => ClientState::Idle,
            State::DownloadExpedited => ClientState::DownloadExpedited,
            State::DownloadInit { data, len } => ClientState::DownloadInit {
                data: data@.subrange(0, len as int),
            },
            State::DownloadSeg { data, len, pos, last_toggle } => ClientState::DownloadSeg {
                data: data@.subrange(0, len as int),
                pos: pos as int,
                last_toggle,
            },
            State::UploadInit { data_type } => ClientState::UploadInit { data_type },
            State::UploadSeg { data_type, buf, toggle } => ClientState::UploadSeg {
                data_type,
                buf: bytes_in(buf),
                toggle,
            },
        }
    }

    spec fn bounded(self) -> bool {
        match self {
            State::DownloadInit { len, .. } => len <= MAX_STRING_LEN,
            State::DownloadSeg { len, pos, .. } => pos <= len <= MAX_STRING_LEN,
            _ => true,
        }
    }
}

/// An SDO client bound to the target node's id.
#[derive(Debug)]
pub struct SdoClient {
    node: NodeId,
    state: State,
}

impl View for SdoClient {
    type V = ClientState;

    closed spec fn view(&self) -> ClientState {
        self.state.model()
    }
}

impl SdoClient {
    /// The state is well formed.
    pub closed spec fn wf(self) -> bool {
        self@.wf() && self.state.bounded()
    }

    /// The id of the node it talks to.
    pub closed spec fn target(self) -> u8 {
        self.node@
    }

    /// Create a client targeting `node`.
    pub fn new(node: NodeId) -> (c: Self)
        ensures
            c.wf(),
            c.target() == node@,
            c@ == ClientState::Idle,
    {
        Self { node, state: State::Idle }
    }

    /// The COB-ID the client transmits requests on (`0x600 + node`).
    pub fn request_cob_id(&self) -> (id: u16)
        ensures
            id == SDO_REQUEST_COB_BASE + self.target(),
    {
        request_cob_id(self.node)
    }

    /// The COB-ID the client receives responses on (`0x580 + node`).
    pub fn response_cob_id(&self) -> (id: u16)
        ensures
            id == SDO_RESPONSE_COB_BASE + self.target(),
    {
        response_cob_id(self.node)
    }

    /// Whether a transaction is in progress.
    pub fn is_busy(&self) -> (b: bool)
        ensures
            b == (self@ != ClientState::Idle),
    {
        !matches!(self.state, State::Idle)
    }

    /// Begin reading `addr`, interpreting the result as `data_type`. Returns the
    /// first request frame to transmit.
    pub fn read(&mut self, addr: Address, data_type: DataType) -> (f: SdoPayload)
        ensures
            final(self).wf(),
            final(self).target() == old(self).target(),
            (final(self)@, f@) == ClientState::begin_read(addr, data_type),
    {
        self.state = State::UploadInit { data_type };
        encode_upload_request(addr)
    }

    /// Begin writing `value` to `addr`. Returns the first request frame to
    /// transmit; expedited or segmented is chosen from the value's size.
    pub fn write(&mut self, addr: Address, value: Value) -> (f: SdoPayload)
        ensures
            final(self).wf(),
            final(self).target() == old(self).target(),
            (final(self)@, f@) == ClientState::begin_write(addr, value),
    {
        match encode_download_expedited(addr, &value) {
            Ok(frame) => {
                self.state = State::DownloadExpedited;
                frame
            },
            Err(_) => {
                let size: usize = value.size();
                let mut data = [0u8; MAX_STRING_LEN];
                let _ = value.encode_le(&mut data);
                assert(data@.subrange(0, size as int) =~= value.encoding());
                self.state = State::DownloadInit { data, len: size };
                encode_download_initiate_segmented(addr, size as u32)
            },
        }
    }

    /// Feed a server response frame and advance the transaction.
    pub fn on_response(&mut self, resp: &SdoPayload) -> (event: SdoEvent)
        requires
            old(self).wf(),
        ensures
            final(self).wf(),
            final(self).target() == old(self).target(),
            (final(self)@, event@) == old(self)@.receive(resp@),
    {
        // Any response may be an abort; handle it uniformly first.
        if let Ok((_, code)) = decode_abort(resp) {
            self.state = State::Idle;
            return SdoEvent::Aborted(code);
        }
        let mut state = State::Idle;
        core::mem::swap(&mut self.state, &mut state);
        match state {
            State::Idle => SdoEvent::Aborted(ABORT_GENERAL),
            State::DownloadExpedited => self.on_download_expedited(resp),
            State::DownloadInit { data, len } => self.on_download_init(resp, data, len),
            State::DownloadSeg { data, len, pos, last_toggle } => self.on_download_seg(
                resp,
                data,
                len,
                pos,
                last_toggle,
            ),
            State::UploadInit { data_type } => self.on_upload_init(resp, data_type),
            State::UploadSeg { data_type, buf, toggle } => self.on_upload_seg(
                resp,
                data_type,
                buf,
                toggle,
            ),
        }
    }

    fn on_download_expedited(&mut self, resp: &SdoPayload) -> (event: SdoEvent)
        requires
            old(self).wf(),
            old(self)@ == ClientState::Idle,
            resp@[0] != CS_ABORT,
        ensures
            final(self).wf(),
            final(self).target() == old(self).target(),
            (final(self)@, event@) == ClientState::DownloadExpedited.receive(resp@),
    {
        match decode_download_response(resp) {
            Ok(_) => SdoEvent::Complete(None),
            Err(_) => SdoEvent::Aborted(ABORT_GENERAL),
        }
    }

    fn on_download_init(
        &mut self,
        resp: &SdoPayload,
        data: [u8; MAX_STRING_LEN],
        len: usize,
    ) -> (event: SdoEvent)
        requires
            old(self).wf(),
            old(self)@ == ClientState::Idle,
            resp@[0] != CS_ABORT,
            len <= MAX_STRING_LEN,
        ensures
            final(self).wf(),
            final(self).target() == old(self).target(),
            (final(self)@, event@) == (ClientState::DownloadInit {
                data: data@.subrange(0, len as int),
            }).receive(resp@),
    {
        // The initiate response for a segmented download is the same frame as
        // an expedited download response.
        if decode_download_response(resp).is_err() {
            return SdoEvent::Aborted(ABORT_GENERAL);
        }
        self.send_download_segment(data, len, 0, false)
    }

    fn on_download_seg(
        &mut self,
        resp: &SdoPayload,
        data: [u8; MAX_STRING_LEN],
        len: usize,
        pos: usize,
        last_toggle: bool,
    ) -> (event: SdoEvent)
        requires
            old(self).wf(),
            old(self)@ == ClientState::Idle,
            resp@[0] != CS_ABORT,
            pos <= len <= MAX_STRING_LEN,
        ensures
            final(self).wf(),
            final(self).target() == old(self).target(),
            (final(self)@, event@) == (ClientState::DownloadSeg {
                data: data@.subrange(0, len as int),
                pos: pos as int,
                last_toggle,
            }).receive(resp@),
    {
        match decode_download_segment_response(resp) {
            Ok(t) => {
                if t != last_toggle {
                    SdoEvent::Aborted(ABORT_TOGGLE)
                } else if pos >= len {
                    SdoEvent::Complete(None)
                } else {
                    self.send_download_segment(data, len, pos, !last_toggle)
                }
            },
            Err(_) => SdoEvent::Aborted(ABORT_GENERAL),
        }
    }

    /// Emit the next download data segment starting at `pos` with `toggle`, and
    /// park in [`State::DownloadSeg`] awaiting its acknowledgement.
    fn send_download_segment(
        &mut self,
        data: [u8; MAX_STRING_LEN],
        len: usize,
        pos: usize,
        toggle: bool,
    ) -> (event: SdoEvent)
        requires
            pos <= len <= MAX_STRING_LEN,
        ensures
            final(self).wf(),
            final(self).target() == old(self).target(),
            (final(self)@, event@) == ClientState::send_segment(
                data@.subrange(0, len as int),
                pos as int,
                toggle,
            ),
    {
        let remaining: usize = len - pos;
        let last = remaining <= SEGMENT_DATA_MAX;
        let n: usize = if last {
            remaining
        } else {
            SEGMENT_DATA_MAX
        };
        let part: &[u8] = &data[pos..pos + n];
        assert(part@ =~= data@.subrange(0, len as int).subrange(pos as int, pos + n));
        let frame = data_segment(part, toggle, last);
        self.state = State::DownloadSeg { data, len, pos: pos + n, last_toggle: toggle };
        SdoEvent::Send(frame)
    }

    fn on_upload_init(&mut self, resp: &SdoPayload, data_type: DataType) -> (event: SdoEvent)
        requires
            old(self).wf(),
            old(self)@ == ClientState::Idle,
            resp@[0] != CS_ABORT,
        ensures
            final(self).wf(),
            final(self).target() == old(self).target(),
            (final(self)@, event@) == (ClientState::UploadInit { data_type }).receive(resp@),
    {
        // A small value arrives expedited; any other starts a segmented read.
        if let Ok((_, value)) = decode_upload_expedited_response(resp, data_type) {
            return SdoEvent::Complete(Some(value));
        }
        if decode_upload_initiate_segmented_response(resp).is_ok() {
            self.state = State::UploadSeg { data_type, buf: new_bytes(), toggle: false };
            return SdoEvent::Send(encode_upload_segment_request(false));
        }
        SdoEvent::Aborted(ABORT_GENERAL)
    }

    fn on_upload_seg(
        &mut self,
        resp: &SdoPayload,
        data_type: DataType,
        received: heapless::Vec<u8, MAX_STRING_LEN>,
        toggle: bool,
    ) -> (event: SdoEvent)
        requires
            old(self).wf(),
            old(self)@ == ClientState::Idle,
            resp@[0] != CS_ABORT,
        ensures
            final(self).wf(),
            final(self).target() == old(self).target(),
            (final(self)@, event@) == ClientState::take_segment(
                data_type,
                bytes_in(received),
                toggle,
                resp@,
            ),
    {
        let mut buf = received;
        let seg = match decode_data_segment(resp) {
            Ok(s) => s,
            Err(_) => return SdoEvent::Aborted(ABORT_GENERAL),
        };
        if seg.toggle != toggle {
            return SdoEvent::Aborted(ABORT_TOGGLE);
        }
        if !transfer_has_room(data_type, bytes_slice(&buf), seg.data) || extend_bytes(
            &mut buf,
            seg.data,
        ).is_err() {
            return SdoEvent::Aborted(ABORT_GENERAL);
        }
        if seg.last {
            match Value::decode_le(data_type, bytes_slice(&buf)) {
                Ok(value) => SdoEvent::Complete(Some(value)),
                Err(_) => SdoEvent::Aborted(ABORT_GENERAL),
            }
        } else {
            self.state = State::UploadSeg { data_type, buf, toggle: !toggle };
            SdoEvent::Send(encode_upload_segment_request(!toggle))
        }
    }
}

} // verus!
