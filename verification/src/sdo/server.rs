//! SDO server — services requests against an object dictionary.
//!
//! [`SdoServer`] is a state machine without I/O: feed it a decoded request frame
//! with [`SdoServer::handle`] and it reads or writes the supplied
//! [`ObjectDictionary`], returning the response frame to transmit (or `None`
//! for a client abort, which needs no reply). It handles expedited transfers
//! in a single exchange and drives segmented transfers — needed for values of
//! more than four bytes, and for empty ones — across multiple frames, holding
//! the per-transfer state between calls.
use vstd::prelude::*;

use crate::buffer::{bytes_in, bytes_slice, extend_bytes, new_bytes};
use crate::datatypes::{decoded, DataType, Value, MAX_STRING_LEN};
use crate::little_endian::le_bytes;
use crate::object_dictionary::{
    read_of, with_value, write_of, Address, ObjectDictionary, Objects,
};
use crate::sdo::{
    address_in, address_of, addressed, data_segment, decode_data_segment,
    decode_download_initiate_segmented, encode_abort, encode_download_response,
    encode_download_segment_response, encode_upload_expedited_response,
    encode_upload_initiate_segmented_response, expedited_bit, expedited_command, expedited_len,
    low_bit, number_in, request_cob_id, response_cob_id, segment_at, segment_data, specifier,
    specifier_of, toggle_bit, toggle_frame, toggle_of, transfer_has_room, transfer_limit, SdoAbortCode, SdoPayload,
    CCS_DOWNLOAD_INITIATE, CCS_DOWNLOAD_SEGMENT, CCS_UPLOAD_INITIATE, CCS_UPLOAD_SEGMENT, CS_ABORT,
    SCS_DOWNLOAD_INITIATE, SCS_DOWNLOAD_SEGMENT, SCS_UPLOAD_INITIATE, SDO_REQUEST_COB_BASE,
    SDO_RESPONSE_COB_BASE, SEGMENT_DATA_MAX,
};
use crate::types::{Error, NodeId};

verus! {

/// A segmented transfer in progress.
pub enum ServerTransfer {
    /// The client is reading `data` from us; `pos` bytes have been sent.
    Upload { addr: Address, data: Seq<u8>, pos: int, toggle: bool },
    /// The client is writing `declared` bytes to us; `buf` has arrived.
    Download { addr: Address, data_type: DataType, buf: Seq<u8>, declared: nat, toggle: bool },
}

/// The state of an SDO server.
pub struct ServerState {
    /// The node-id it serves.
    pub node: u8,
    /// The segmented transfer in progress, if any.
    pub transfer: Option<ServerTransfer>,
    /// The object written last, until it is taken.
    pub written: Option<Address>,
}

/// What a server makes of a request: its next state, the dictionary, and the
/// response to transmit.
pub struct Served {
    pub state: ServerState,
    pub objects: Objects,
    pub response: Option<Seq<u8>>,
}

/// The frame of an abort.
pub open spec fn abort_frame(addr: Address, code: SdoAbortCode) -> Seq<u8> {
    addressed(CS_ABORT, addr, le_bytes(code.spec_code() as nat, 4))
}

impl ServerState {
    /// A server that has received nothing yet.
    pub open spec fn fresh(node: u8) -> ServerState {
        ServerState { node, transfer: None, written: None }
    }

    /// A transfer holds no more than the buffers do, and what a download
    /// declared fits its object.
    pub open spec fn wf(self) -> bool {
        match self.transfer {
            Some(ServerTransfer::Upload { data, pos, .. }) => {
                &&& data.len() <= MAX_STRING_LEN
                &&& 0 <= pos <= data.len()
            },
            Some(ServerTransfer::Download { data_type, buf, declared, .. }) => {
                &&& buf.len() <= transfer_limit(data_type)
                &&& data_type.accepts_len(declared)
            },
            None => true,
        }
    }

    /// The server refuses the request and keeps its state.
    pub open spec fn refuse(self, objects: Objects, addr: Address, code: SdoAbortCode) -> Served {
        Served { state: self, objects, response: Some(abort_frame(addr, code)) }
    }

    /// The server refuses the request and ends the transfer in progress.
    pub open spec fn break_off(self, objects: Objects, addr: Address, code: SdoAbortCode) -> Served {
        ServerState { transfer: None, ..self }.refuse(objects, addr, code)
    }

    /// The first frame of a write. The object must exist and be writable.
    ///
    /// An expedited write carries the value inline; without a stated size it
    /// carries as many bytes as the object's type has (none for a
    /// variable-length one). Any other write declares its size, which must fit
    /// the object, and is answered before the segments follow.
    pub open spec fn download_initiate(self, objects: Objects, req: Seq<u8>) -> Served {
        let addr = address_in(req);
        let data_type = objects[addr].value.spec_data_type();
        let len = if low_bit(req[0]) {
            expedited_len(req[0])
        } else {
            match data_type.spec_fixed_size() {
                Some(n) => n as int,
                None => 0,
            }
        };
        if !objects.dom().contains(addr) {
            self.refuse(objects, addr, SdoAbortCode::ObjectDoesNotExist)
        } else if !objects[addr].access.writable() {
            self.refuse(objects, addr, SdoAbortCode::WriteOfReadOnly)
        } else if expedited_bit(req[0]) {
            if len > 4 || !data_type.accepts_len(len as nat) {
                self.refuse(objects, addr, SdoAbortCode::DataTypeMismatchLengthHigh)
            } else {
                Served {
                    state: ServerState { written: Some(addr), ..self },
                    objects: with_value(
                        objects,
                        addr,
                        decoded(data_type, req.subrange(4, 4 + len)),
                    ),
                    response: Some(addressed(SCS_DOWNLOAD_INITIATE, addr, Seq::empty())),
                }
            }
        } else if !low_bit(req[0]) {
            self.refuse(objects, addr, SdoAbortCode::CommandInvalid)
        } else if !data_type.accepts_len(number_in(req) as nat) {
            self.refuse(objects, addr, SdoAbortCode::DataTypeMismatchLengthHigh)
        } else {
            Served {
                state: ServerState {
                    transfer: Some(
                        ServerTransfer::Download {
                            addr,
                            data_type,
                            buf: Seq::empty(),
                            declared: number_in(req) as nat,
                            toggle: false,
                        },
                    ),
                    ..self
                },
                objects,
                response: Some(addressed(SCS_DOWNLOAD_INITIATE, addr, Seq::empty())),
            }
        }
    }

    /// The first frame of a read. A value of one to four bytes is answered
    /// inline, any other begins a segmented transfer.
    pub open spec fn upload_initiate(self, objects: Objects, req: Seq<u8>) -> Served {
        let addr = address_in(req);
        match read_of(objects, addr) {
            Err(Error::ObjectNotFound) => self.refuse(
                objects,
                addr,
                SdoAbortCode::ObjectDoesNotExist,
            ),
            Err(_) => self.refuse(objects, addr, SdoAbortCode::ReadOfWriteOnly),
            Ok(value) => {
                let data = value.encoding();
                if 1 <= data.len() <= 4 {
                    Served {
                        state: self,
                        objects,
                        response: Some(
                            addressed(
                                expedited_command(SCS_UPLOAD_INITIATE, data.len()),
                                addr,
                                data,
                            ),
                        ),
                    }
                } else {
                    Served {
                        state: ServerState {
                            transfer: Some(
                                ServerTransfer::Upload { addr, data, pos: 0, toggle: false },
                            ),
                            ..self
                        },
                        objects,
                        response: Some(addressed(0x41, addr, le_bytes(data.len(), 4))),
                    }
                }
            },
        }
    }

    /// The client polls for the next segment of a read.
    pub open spec fn upload_segment(self, objects: Objects, req: Seq<u8>) -> Served {
        match self.transfer {
            Some(ServerTransfer::Upload { addr, data, pos, toggle }) => {
                if toggle_bit(req[0]) != toggle {
                    self.break_off(objects, addr, SdoAbortCode::ToggleBitNotAlternated)
                } else {
                    Served {
                        state: ServerState {
                            transfer: if data.len() - pos <= 7 {
                                None
                            } else {
                                Some(
                                    ServerTransfer::Upload {
                                        addr,
                                        data,
                                        pos: pos + 7,
                                        toggle: !toggle,
                                    },
                                )
                            },
                            ..self
                        },
                        objects,
                        response: Some(segment_at(data, pos, toggle)),
                    }
                }
            },
            _ => self.break_off(
                objects,
                Address { index: 0, subindex: 0 },
                SdoAbortCode::CommandInvalid,
            ),
        }
    }

    /// The next segment of a write. Bytes beyond what the object's type buffers
    /// end it. The last segment completes it: what arrived must be as long as
    /// was declared, and is then written.
    pub open spec fn download_segment(self, objects: Objects, req: Seq<u8>) -> Served {
        match self.transfer {
            Some(ServerTransfer::Download { addr, data_type, buf, declared, toggle }) => {
                let all = buf + segment_data(req);
                if toggle_bit(req[0]) != toggle {
                    self.break_off(objects, addr, SdoAbortCode::ToggleBitNotAlternated)
                } else if all.len() > transfer_limit(data_type) {
                    self.break_off(objects, addr, SdoAbortCode::DataTypeMismatchLengthHigh)
                } else if !low_bit(req[0]) {
                    Served {
                        state: ServerState {
                            transfer: Some(
                                ServerTransfer::Download {
                                    addr,
                                    data_type,
                                    buf: all,
                                    declared,
                                    toggle: !toggle,
                                },
                            ),
                            ..self
                        },
                        objects,
                        response: Some(toggle_frame(SCS_DOWNLOAD_SEGMENT, toggle)),
                    }
                } else if all.len() != declared {
                    self.break_off(objects, addr, SdoAbortCode::DataTypeMismatchLengthLow)
                } else {
                    match write_of(objects, addr, decoded(data_type, all)) {
                        Ok(after) => Served {
                            state: ServerState {
                                transfer: None,
                                written: Some(addr),
                                ..self
                            },
                            objects: after,
                            response: Some(toggle_frame(SCS_DOWNLOAD_SEGMENT, toggle)),
                        },
                        Err(Error::ReadOnly) => self.break_off(
                            objects,
                            addr,
                            SdoAbortCode::WriteOfReadOnly,
                        ),
                        Err(_) => self.break_off(objects, addr, SdoAbortCode::General),
                    }
                }
            },
            _ => self.break_off(
                objects,
                Address { index: 0, subindex: 0 },
                SdoAbortCode::CommandInvalid,
            ),
        }
    }

    /// What the server makes of a request.
    pub open spec fn serve(self, objects: Objects, req: Seq<u8>) -> Served {
        let cs = specifier(req[0]);
        if cs == CCS_DOWNLOAD_INITIATE {
            self.download_initiate(objects, req)
        } else if cs == CCS_UPLOAD_INITIATE {
            self.upload_initiate(objects, req)
        } else if cs == CCS_DOWNLOAD_SEGMENT {
            self.download_segment(objects, req)
        } else if cs == CCS_UPLOAD_SEGMENT {
            self.upload_segment(objects, req)
        } else if cs == CS_ABORT {
            Served { state: ServerState { transfer: None, ..self }, objects, response: None }
        } else {
            self.refuse(objects, address_in(req), SdoAbortCode::CommandInvalid)
        }
    }
}

/// An in-progress segmented transfer held between frames.
#[derive(Debug)]
enum Transfer {
    /// The client is reading a value from us.
    Upload { addr: Address, data: [u8; MAX_STRING_LEN], len: usize, pos: usize, toggle: bool },
    /// The client is writing a value to us.
    Download {
        addr: Address,
        data_type: DataType,
        buf: heapless::Vec<u8, MAX_STRING_LEN>,
        declared: usize,
        toggle: bool,
    },
}

impl Transfer {
    spec fn model(self) -> ServerTransfer {
        match self {
            Transfer::Upload { addr, data, len, pos, toggle } => ServerTransfer::Upload {
                addr,
                data: data@.subrange(0, len as int),
                pos: pos as int,
                toggle,
            },
            Transfer::Download { addr, data_type, buf, declared, toggle } => {
                ServerTransfer::Download {
                    addr,
                    data_type,
                    buf: bytes_in(buf),
                    declared: declared as nat,
                    toggle,
                }
            },
        }
    }

    spec fn bounded(self) -> bool {
        match self {
            Transfer::Upload { len, pos, .. } => pos <= len <= MAX_STRING_LEN,
            Transfer::Download { .. } => true,
        }
    }
}

/// An SDO server bound to a node id, servicing requests against an object
/// dictionary.
#[derive(Debug)]
pub struct SdoServer {
    node: NodeId,
    transfer: Option<Transfer>,
    written: Option<Address>,
}

impl View for SdoServer {
    type V = ServerState;

    closed spec fn view(&self) -> ServerState {
        ServerState {
            node: self.node@,
            transfer: match self.transfer {
                Some(t) => Some(t.model()),
                None => None,
            },
            written: self.written,
        }
    }
}

/// Whether a response that is an array of bytes is the response `expected`.
pub open spec fn responds(r: Option<SdoPayload>, expected: Option<Seq<u8>>) -> bool {
    match r {
        Some(f) => expected == Some(f@),
        None => expected is None,
    }
}

impl SdoServer {
    /// The state is well formed, and so are the buffers that hold it.
    pub open spec fn wf(self) -> bool {
        &&& self@.wf()
        &&& self.bounded()
    }

    /// A transfer lies within its buffer.
    pub closed spec fn bounded(self) -> bool {
        self.transfer matches Some(t) ==> t.bounded()
    }

    /// Create a server for `node`.
    pub fn new(node: NodeId) -> (s: Self)
        ensures
            s.wf(),
            s@ == ServerState::fresh(node@),
    {
        Self { node, transfer: None, written: None }
    }

    /// The COB-ID this server receives requests on (`0x600 + node`).
    pub fn request_cob_id(&self) -> (id: u16)
        ensures
            id == SDO_REQUEST_COB_BASE + self@.node,
    {
        request_cob_id(self.node)
    }

    /// The COB-ID this server sends responses on (`0x580 + node`).
    pub fn response_cob_id(&self) -> (id: u16)
        ensures
            id == SDO_RESPONSE_COB_BASE + self@.node,
    {
        response_cob_id(self.node)
    }

    /// Whether a segmented transfer is currently in progress.
    pub fn is_busy(&self) -> (b: bool)
        ensures
            b == (self@.transfer is Some),
    {
        self.transfer.is_some()
    }

    /// Take the address of the object that a client most recently wrote, if any
    /// was written since the last call.
    pub fn take_write(&mut self) -> (r: Option<Address>)
        requires
            old(self).wf(),
        ensures
            final(self).wf(),
            r == old(self)@.written,
            final(self)@ == (ServerState { written: None, ..old(self)@ }),
    {
        let r = self.written;
        self.written = None;
        r
    }

    /// Handle an SDO request against `od`, returning the response to transmit.
    ///
    /// Returns `None` only for a client abort, which is unconfirmed. Any
    /// protocol or access error produces an SDO abort response frame.
    pub fn handle<const N: usize>(
        &mut self,
        od: &mut ObjectDictionary<N>,
        req: &SdoPayload,
    ) -> (r: Option<SdoPayload>)
        requires
            old(self).wf(),
            old(od).wf(),
        ensures
            final(self).wf(),
            final(od).wf(),
            final(self)@ == old(self)@.serve(old(od)@, req@).state,
            final(od)@ == old(self)@.serve(old(od)@, req@).objects,
            responds(r, old(self)@.serve(old(od)@, req@).response),
    {
        let cs: u8 = specifier_of(req[0]);
        if cs == CCS_DOWNLOAD_INITIATE {
            self.on_download_initiate(od, req)
        } else if cs == CCS_UPLOAD_INITIATE {
            self.on_upload_initiate(od, req)
        } else if cs == CCS_DOWNLOAD_SEGMENT {
            self.on_download_segment(od, req)
        } else if cs == CCS_UPLOAD_SEGMENT {
            self.on_upload_segment(Ghost(od@), req)
        } else if cs == CS_ABORT {
            self.transfer = None;
            None
        } else {
            abort(address_of(req), SdoAbortCode::CommandInvalid)
        }
    }

    fn on_download_initiate<const N: usize>(
        &mut self,
        od: &mut ObjectDictionary<N>,
        req: &SdoPayload,
    ) -> (r: Option<SdoPayload>)
        requires
            old(self).wf(),
            old(od).wf(),
            specifier(req@[0]) == CCS_DOWNLOAD_INITIATE,
        ensures
            final(self).wf(),
            final(od).wf(),
            final(self)@ == old(self)@.download_initiate(old(od)@, req@).state,
            final(od)@ == old(self)@.download_initiate(old(od)@, req@).objects,
            responds(r, old(self)@.download_initiate(old(od)@, req@).response),
    {
        let addr = address_of(req);
        let (data_type, writable) = match od.entry(addr) {
            Some(e) => (e.value.data_type(), e.access.is_writable()),
            None => return abort(addr, SdoAbortCode::ObjectDoesNotExist),
        };
        if !writable {
            return abort(addr, SdoAbortCode::WriteOfReadOnly);
        }
        let cmd: u8 = req[0];
        if cmd / 2 % 2 == 1 {
            // Expedited write: up to 4 data bytes inline.
            let len: usize = if cmd % 2 == 1 {
                (4 - cmd / 4 % 4) as usize
            } else {
                data_type.size()
            };
            if len > 4 {
                return abort(addr, SdoAbortCode::DataTypeMismatchLengthHigh);
            }
            let bytes: &[u8] = req;
            match Value::decode_le(data_type, &bytes[4..4 + len]) {
                Ok(value) => self.write_value(od, addr, value),
                Err(_) => abort(addr, SdoAbortCode::DataTypeMismatchLengthHigh),
            }
        } else {
            // Segmented write: declare the size now, receive segments later.
            let size: usize = match decode_download_initiate_segmented(req) {
                Ok((_, size)) => size as usize,
                Err(_) => return abort(addr, SdoAbortCode::CommandInvalid),
            };
            let fits = match data_type.fixed_size() {
                Some(n) => size == n,
                None => size <= MAX_STRING_LEN,
            };
            if !fits {
                return abort(addr, SdoAbortCode::DataTypeMismatchLengthHigh);
            }
            self.transfer =
            Some(
                Transfer::Download {
                    addr,
                    data_type,
                    buf: new_bytes(),
                    declared: size,
                    toggle: false,
                },
            );
            Some(encode_download_response(addr))
        }
    }

    /// Write `value` to `od`, mapping OD errors to SDO abort responses.
    fn write_value<const N: usize>(
        &mut self,
        od: &mut ObjectDictionary<N>,
        addr: Address,
        value: Value,
    ) -> (r: Option<SdoPayload>)
        requires
            old(self).wf(),
            old(od).wf(),
        ensures
            final(self).wf(),
            final(od).wf(),
            match write_of(old(od)@, addr, value) {
                Ok(after) => {
                    &&& final(od)@ == after
                    &&& final(self)@ == (ServerState { written: Some(addr), ..old(self)@ })
                    &&& responds(r, Some(addressed(SCS_DOWNLOAD_INITIATE, addr, Seq::empty())))
                },
                Err(e) => {
                    &&& final(od)@ == old(od)@
                    &&& final(self)@ == old(self)@
                    &&& responds(
                        r,
                        Some(
                            abort_frame(
                                addr,
                                match e {
                                    Error::ReadOnly => SdoAbortCode::WriteOfReadOnly,
                                    Error::TypeMismatch => SdoAbortCode::DataTypeMismatchLengthHigh,
                                    _ => SdoAbortCode::General,
                                },
                            ),
                        ),
                    )
                },
            },
    {
        match od.write(addr, value) {
            Ok(()) => {
                self.written = Some(addr);
                Some(encode_download_response(addr))
            },
            Err(Error::ReadOnly) => abort(addr, SdoAbortCode::WriteOfReadOnly),
            Err(Error::TypeMismatch) => abort(addr, SdoAbortCode::DataTypeMismatchLengthHigh),
            Err(_) => abort(addr, SdoAbortCode::General),
        }
    }

    fn on_upload_initiate<const N: usize>(
        &mut self,
        od: &ObjectDictionary<N>,
        req: &SdoPayload,
    ) -> (r: Option<SdoPayload>)
        requires
            old(self).wf(),
            od.wf(),
        ensures
            final(self).wf(),
            final(self)@ == old(self)@.upload_initiate(od@, req@).state,
            responds(r, old(self)@.upload_initiate(od@, req@).response),
    {
        let addr = address_of(req);
        let value = match od.read(addr) {
            Ok(v) => v,
            Err(Error::ObjectNotFound) => return abort(addr, SdoAbortCode::ObjectDoesNotExist),
            Err(_) => return abort(addr, SdoAbortCode::ReadOfWriteOnly),
        };
        match encode_upload_expedited_response(addr, &value) {
            Ok(frame) => Some(frame),
            Err(_) => {
                let mut data = [0u8; MAX_STRING_LEN];
                let size: usize = value.size();
                let _ = value.encode_le(&mut data);
                assert(data@.subrange(0, size as int) =~= value.encoding());
                self.transfer =
                Some(Transfer::Upload { addr, data, len: size, pos: 0, toggle: false });
                Some(encode_upload_initiate_segmented_response(addr, size as u32))
            },
        }
    }

    fn on_upload_segment(&mut self, Ghost(objects): Ghost<Objects>, req: &SdoPayload) -> (r: Option<
        SdoPayload,
    >)
        requires
            old(self).wf(),
        ensures
            final(self).wf(),
            final(self)@ == old(self)@.upload_segment(objects, req@).state,
            responds(r, old(self)@.upload_segment(objects, req@).response),
    {
        let want_toggle = toggle_of(req[0]);
        match self.transfer.take() {
            Some(Transfer::Upload { addr, data, len, pos, toggle }) => {
                if want_toggle != toggle {
                    return abort(addr, SdoAbortCode::ToggleBitNotAlternated);
                }
                let remaining: usize = len - pos;
                let last = remaining <= SEGMENT_DATA_MAX;
                let n: usize = if last {
                    remaining
                } else {
                    SEGMENT_DATA_MAX
                };
                let part: &[u8] = &data[pos..pos + n];
                assert(part@ =~= data@.subrange(0, len as int).subrange(pos as int, pos + n));
                let seg = data_segment(part, toggle, last);
                if !last {
                    self.transfer =
                    Some(Transfer::Upload { addr, data, len, pos: pos + n, toggle: !toggle });
                }
                Some(seg)
            },
            _ => abort(Address::new(0, 0), SdoAbortCode::CommandInvalid),
        }
    }

    fn on_download_segment<const N: usize>(
        &mut self,
        od: &mut ObjectDictionary<N>,
        req: &SdoPayload,
    ) -> (r: Option<SdoPayload>)
        requires
            old(self).wf(),
            old(od).wf(),
            specifier(req@[0]) == CCS_DOWNLOAD_SEGMENT,
        ensures
            final(self).wf(),
            final(od).wf(),
            final(self)@ == old(self)@.download_segment(old(od)@, req@).state,
            final(od)@ == old(self)@.download_segment(old(od)@, req@).objects,
            responds(r, old(self)@.download_segment(old(od)@, req@).response),
    {
        let seg = match decode_data_segment(req) {
            Ok(s) => s,
            Err(_) => return abort(Address::new(0, 0), SdoAbortCode::CommandInvalid),
        };
        match self.transfer.take() {
            Some(Transfer::Download { addr, data_type, buf: received, declared, toggle }) => {
                let mut buf = received;
                if seg.toggle != toggle {
                    return abort(addr, SdoAbortCode::ToggleBitNotAlternated);
                }
                if !transfer_has_room(data_type, bytes_slice(&buf), seg.data) || extend_bytes(
                    &mut buf,
                    seg.data,
                ).is_err() {
                    return abort(addr, SdoAbortCode::DataTypeMismatchLengthHigh);
                }
                let ack = encode_download_segment_response(seg.toggle);
                if seg.last {
                    let all: &[u8] = bytes_slice(&buf);
                    if all.len() != declared {
                        return abort(addr, SdoAbortCode::DataTypeMismatchLengthLow);
                    }
                    let value = match Value::decode_le(data_type, all) {
                        Ok(v) => v,
                        Err(_) => return abort(addr, SdoAbortCode::General),
                    };
                    // The final segment is acknowledged with a segment
                    // response, not a download-initiate response.
                    match od.write(addr, value) {
                        Ok(()) => {
                            self.written = Some(addr);
                            Some(ack)
                        },
                        Err(Error::ReadOnly) => abort(addr, SdoAbortCode::WriteOfReadOnly),
                        Err(_) => abort(addr, SdoAbortCode::General),
                    }
                } else {
                    self.transfer =
                    Some(Transfer::Download { addr, data_type, buf, declared, toggle: !toggle });
                    Some(ack)
                }
            },
            _ => abort(Address::new(0, 0), SdoAbortCode::CommandInvalid),
        }
    }
}

fn abort(addr: Address, code: SdoAbortCode) -> (r: Option<SdoPayload>)
    ensures
        responds(r, Some(abort_frame(addr, code))),
{
    Some(encode_abort(addr, code))
}

} // verus!
