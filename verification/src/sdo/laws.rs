//! What SDO guarantees of a client and a server that talk to each other.
use vstd::prelude::*;

use crate::datatypes::{decoded, DataType, Value, MAX_STRING_LEN};
use crate::object_dictionary::{with_value, AccessType, Address, Objects};
use crate::sdo::client::{ClientState, Outcome, ABORT_GENERAL};
use crate::sdo::server::{abort_frame, ServerState, ServerTransfer};
use crate::sdo::{
    address_in, addressed, expedited_command, law_segment_round_trip, law_toggle_frame_round_trip,
    lemma_addressed, lemma_addressed_number, lemma_expedited_command, segment_at, segment_len,
    specifier, toggle_frame, transfer_limit, SdoAbortCode, CCS_DOWNLOAD_INITIATE, CCS_UPLOAD_INITIATE,
    CCS_UPLOAD_SEGMENT, CS_ABORT, SCS_DOWNLOAD_INITIATE, SCS_DOWNLOAD_SEGMENT, SCS_UPLOAD_INITIATE,
};

verus! {

/// How a transaction ended.
pub struct Conclusion {
    pub client: ClientState,
    pub server: ServerState,
    pub objects: Objects,
    pub outcome: Outcome,
}

/// The end of a transaction whose next request is `frame`, if it ends within
/// `exchanges` requests and responses.
pub open spec fn converse(
    client: ClientState,
    server: ServerState,
    objects: Objects,
    frame: Seq<u8>,
    exchanges: nat,
) -> Option<Conclusion>
    decreases exchanges,
{
    if exchanges == 0 {
        None
    } else {
        let served = server.serve(objects, frame);
        match served.response {
            None => None,
            Some(response) => match client.receive(response) {
                (next, Outcome::Send(f)) => converse(
                    next,
                    served.state,
                    served.objects,
                    f,
                    (exchanges - 1) as nat,
                ),
                (next, outcome) => Some(
                    Conclusion {
                        client: next,
                        server: served.state,
                        objects: served.objects,
                        outcome,
                    },
                ),
            },
        }
    }
}

/// The end of a write of `value` to `addr`.
pub open spec fn written(
    server: ServerState,
    objects: Objects,
    addr: Address,
    value: Value,
    exchanges: nat,
) -> Option<Conclusion> {
    let (client, frame) = ClientState::begin_write(addr, value);
    converse(client, server, objects, frame, exchanges)
}

/// The end of a read of `addr` as `data_type`.
pub open spec fn read(
    server: ServerState,
    objects: Objects,
    addr: Address,
    data_type: DataType,
    exchanges: nat,
) -> Option<Conclusion> {
    let (client, frame) = ClientState::begin_read(addr, data_type);
    converse(client, server, objects, frame, exchanges)
}

/// Why a server refuses to write `len` bytes to `addr`, if it does.
pub open spec fn write_refusal(objects: Objects, addr: Address, len: nat) -> Option<SdoAbortCode> {
    if !objects.dom().contains(addr) {
        Some(SdoAbortCode::ObjectDoesNotExist)
    } else if !objects[addr].access.writable() {
        Some(SdoAbortCode::WriteOfReadOnly)
    } else if !objects[addr].value.spec_data_type().accepts_len(len) {
        Some(SdoAbortCode::DataTypeMismatchLengthHigh)
    } else {
        None
    }
}

/// The longest transaction: one exchange to begin it, and five segments for 32
/// bytes.
pub open spec fn enough(exchanges: nat) -> bool {
    exchanges >= 6
}

/// A response that is an abort ends the transaction with its code.
proof fn lemma_abort_received(client: ClientState, addr: Address, code: SdoAbortCode)
    ensures
        client.receive(abort_frame(addr, code)) == (
            ClientState::Idle,
            Outcome::Aborted(code.spec_code()),
        ),
{
    lemma_addressed_number(CS_ABORT, addr, code.spec_code());
}

/// The segments of a write, from `pos` on, complete it.
proof fn lemma_download(
    server: ServerState,
    objects: Objects,
    addr: Address,
    data: Seq<u8>,
    pos: int,
    toggle: bool,
    exchanges: nat,
)
    requires
        ({
            let data_type = objects[addr].value.spec_data_type();
            &&& write_refusal(objects, addr, data.len()) is None
            &&& data.len() <= MAX_STRING_LEN
            &&& 0 <= pos
            &&& pos < data.len() || pos == 0
            &&& server.transfer == Some(
                ServerTransfer::Download {
                    addr,
                    data_type,
                    buf: data.subrange(0, pos),
                    declared: data.len(),
                    toggle,
                },
            )
        }),
        exchanges >= 1,
        data.len() - pos <= 7 * exchanges,
    ensures
        ({
            let (client, outcome) = ClientState::send_segment(data, pos, toggle);
            converse(client, server, objects, segment_at(data, pos, toggle), exchanges) == Some(
                Conclusion {
                    client: ClientState::Idle,
                    server: ServerState { transfer: None, written: Some(addr), ..server },
                    objects: with_value(
                        objects,
                        addr,
                        decoded(objects[addr].value.spec_data_type(), data),
                    ),
                    outcome: Outcome::Complete(None),
                },
            )
        }),
    decreases exchanges,
{
    let n = segment_len(data.len() - pos);
    let last = data.len() - pos <= 7;
    let part = data.subrange(pos, pos + n);
    let frame = segment_at(data, pos, toggle);
    law_segment_round_trip(part, toggle, last);
    law_toggle_frame_round_trip(SCS_DOWNLOAD_SEGMENT, toggle);
    assert(data.subrange(0, pos) + part =~= data.subrange(0, pos + n));
    let (client, _) = ClientState::send_segment(data, pos, toggle);
    let served = server.serve(objects, frame);
    if last {
        assert(data.subrange(0, pos + n) =~= data);
    } else {
        assert(client.receive(toggle_frame(SCS_DOWNLOAD_SEGMENT, toggle))
            == ClientState::send_segment(data, pos + n, !toggle));
        lemma_download(
            served.state,
            objects,
            addr,
            data,
            pos + n,
            !toggle,
            (exchanges - 1) as nat,
        );
    }
}

/// A write ends, and in one of two ways. Where the object is missing, not
/// writable or of another length, the client is told so by the abort code, and
/// neither the dictionary nor the server changes. Otherwise the write
/// completes, the object holds the bytes that were sent — read as its own type
/// — and the server reports its address as written.
pub proof fn law_write(
    server: ServerState,
    objects: Objects,
    addr: Address,
    value: Value,
    exchanges: nat,
)
    requires
        value.wf(),
        enough(exchanges),
    ensures
        written(server, objects, addr, value, exchanges) matches Some(end) && {
            &&& end.client == ClientState::Idle
            &&& match write_refusal(objects, addr, value.encoding().len()) {
                Some(code) => {
                    &&& end.outcome == Outcome::Aborted(code.spec_code())
                    &&& end.objects == objects
                    &&& end.server == server
                },
                None => {
                    &&& end.outcome == Outcome::Complete(None)
                    &&& end.objects == with_value(
                        objects,
                        addr,
                        decoded(objects[addr].value.spec_data_type(), value.encoding()),
                    )
                    &&& end.server.written == Some(addr)
                    &&& end.server.node == server.node
                },
            }
        },
{
    let data = value.encoding();
    let (client, frame) = ClientState::begin_write(addr, value);
    value.lemma_encoding_len();
    if 1 <= data.len() <= 4 {
        lemma_expedited_command(CCS_DOWNLOAD_INITIATE, data.len());
        lemma_addressed(expedited_command(CCS_DOWNLOAD_INITIATE, data.len()), addr, data);
    } else {
        lemma_addressed_number(0x21, addr, data.len() as u32);
    }
    match write_refusal(objects, addr, data.len()) {
        Some(code) => {
            lemma_abort_received(client, addr, code);
        },
        None => {
            lemma_addressed(SCS_DOWNLOAD_INITIATE, addr, Seq::empty());
            if data.len() == 0 || data.len() > 4 {
                let served = server.serve(objects, frame);
                assert(data.subrange(0, 0) =~= Seq::empty());
                lemma_download(
                    served.state,
                    objects,
                    addr,
                    data,
                    0,
                    false,
                    (exchanges - 1) as nat,
                );
                assert(client.receive(addressed(SCS_DOWNLOAD_INITIATE, addr, Seq::empty()))
                    == ClientState::send_segment(data, 0, false));
            }
        },
    }
}

/// The segments of a read, from `pos` on, complete it, or lead the client to give
/// it up.
proof fn lemma_upload(
    server: ServerState,
    objects: Objects,
    addr: Address,
    data_type: DataType,
    data: Seq<u8>,
    pos: int,
    toggle: bool,
    exchanges: nat,
)
    requires
        data.len() <= MAX_STRING_LEN,
        0 <= pos,
        pos < data.len() || pos == 0,
        server.transfer == Some(ServerTransfer::Upload { addr, data, pos, toggle }),
        exchanges >= 1,
        data.len() - pos <= 7 * exchanges,
    ensures
        converse(
            ClientState::UploadSeg { data_type, buf: data.subrange(0, pos), toggle },
            server,
            objects,
            toggle_frame(CCS_UPLOAD_SEGMENT, toggle),
            exchanges,
        ) matches Some(end) && {
            &&& end.client == ClientState::Idle
            &&& end.server == (ServerState { transfer: end.server.transfer, ..server })
            &&& end.objects == objects
            &&& end.outcome == if data_type.accepts_len(data.len()) {
                Outcome::Complete(Some(decoded(data_type, data)))
            } else {
                Outcome::Aborted(ABORT_GENERAL)
            }
            &&& data_type.accepts_len(data.len()) ==> end.server.transfer is None
        },
    decreases exchanges,
{
    let n = segment_len(data.len() - pos);
    let last = data.len() - pos <= 7;
    let part = data.subrange(pos, pos + n);
    law_segment_round_trip(part, toggle, last);
    law_toggle_frame_round_trip(CCS_UPLOAD_SEGMENT, toggle);
    assert(data.subrange(0, pos) + part =~= data.subrange(0, pos + n));
    let client = ClientState::UploadSeg { data_type, buf: data.subrange(0, pos), toggle };
    let served = server.serve(objects, toggle_frame(CCS_UPLOAD_SEGMENT, toggle));
    assert(served.response == Some(segment_at(data, pos, toggle)));
    if last {
        assert(data.subrange(0, pos + n) =~= data);
    } else if pos + n > transfer_limit(data_type) {
        // More than a number has: the client gives up here.
        assert(!data_type.accepts_len(data.len()));
    } else {
        assert(client.receive(segment_at(data, pos, toggle)) == (
            ClientState::UploadSeg {
                data_type,
                buf: data.subrange(0, pos + n),
                toggle: !toggle,
            },
            Outcome::Send(toggle_frame(CCS_UPLOAD_SEGMENT, !toggle)),
        ));
        lemma_upload(
            served.state,
            objects,
            addr,
            data_type,
            data,
            pos + n,
            !toggle,
            (exchanges - 1) as nat,
        );
    }
}

/// A read ends and changes nothing in the dictionary. Where the object is
/// missing or not readable, the client is told so by the abort code. Otherwise
/// it gets the bytes of the object, read as the type it asked for, unless they
/// do not fit that type.
pub proof fn law_read(
    server: ServerState,
    objects: Objects,
    addr: Address,
    data_type: DataType,
    exchanges: nat,
)
    requires
        objects[addr].value.wf(),
        enough(exchanges),
    ensures
        read(server, objects, addr, data_type, exchanges) matches Some(end) && {
            let data = objects[addr].value.encoding();
            &&& end.client == ClientState::Idle
            &&& end.objects == objects
            &&& end.server.written == server.written
            &&& end.outcome == if !objects.dom().contains(addr) {
                Outcome::Aborted(SdoAbortCode::ObjectDoesNotExist.spec_code())
            } else if !objects[addr].access.readable() {
                Outcome::Aborted(SdoAbortCode::ReadOfWriteOnly.spec_code())
            } else if data_type.accepts_len(data.len()) {
                Outcome::Complete(Some(decoded(data_type, data)))
            } else {
                Outcome::Aborted(ABORT_GENERAL)
            }
        },
{
    let data = objects[addr].value.encoding();
    let (client, frame) = ClientState::begin_read(addr, data_type);
    objects[addr].value.lemma_encoding_len();
    lemma_addressed(CCS_UPLOAD_INITIATE, addr, Seq::empty());
    let served = server.serve(objects, frame);
    if !objects.dom().contains(addr) {
        lemma_abort_received(client, addr, SdoAbortCode::ObjectDoesNotExist);
    } else if !objects[addr].access.readable() {
        lemma_abort_received(client, addr, SdoAbortCode::ReadOfWriteOnly);
    } else if 1 <= data.len() <= 4 {
        lemma_expedited_command(SCS_UPLOAD_INITIATE, data.len());
        lemma_addressed(expedited_command(SCS_UPLOAD_INITIATE, data.len()), addr, data);
    } else {
        lemma_addressed_number(0x41, addr, data.len() as u32);
        assert(data.subrange(0, 0) =~= Seq::empty());
        lemma_upload(
            served.state,
            objects,
            addr,
            data_type,
            data,
            0,
            false,
            (exchanges - 1) as nat,
        );
    }
}

/// What is written is what is read back: a value of the object's own type,
/// written to a readable and writable object, is the result of the next read,
/// whether it travels inline or in segments, the empty string included.
pub proof fn law_read_gives_back_what_was_written(
    server: ServerState,
    objects: Objects,
    addr: Address,
    value: Value,
    exchanges: nat,
)
    requires
        value.wf(),
        enough(exchanges),
        objects.dom().contains(addr),
        objects[addr].access == AccessType::Rw,
        objects[addr].value.spec_data_type() == value.spec_data_type(),
    ensures
        written(server, objects, addr, value, exchanges) matches Some(w) && w.outcome
            == Outcome::Complete(None) && (read(
            w.server,
            w.objects,
            addr,
            value.spec_data_type(),
            exchanges,
        ) matches Some(r) && r.outcome == Outcome::Complete(Some(value))),
{
    Value::law_decode_encode(value);
    law_write(server, objects, addr, value, exchanges);
    let w = written(server, objects, addr, value, exchanges)->0;
    assert(w.objects[addr].value == value);
    law_read(w.server, w.objects, addr, value.spec_data_type(), exchanges);
}

/// Every request is answered but an abort, which never is; and a request that
/// is answered with an abort leaves the dictionary as it was.
pub proof fn law_server_answers(server: ServerState, objects: Objects, req: Seq<u8>)
    ensures
        server.serve(objects, req).response is None <==> specifier(req[0]) == CS_ABORT,
        server.serve(objects, req).response matches Some(f) && f[0] == CS_ABORT
            ==> server.serve(objects, req).objects == objects,
{
    let addr = address_in(req);
    lemma_addressed(SCS_DOWNLOAD_INITIATE, addr, Seq::empty());
    law_toggle_frame_round_trip(SCS_DOWNLOAD_SEGMENT, true);
    law_toggle_frame_round_trip(SCS_DOWNLOAD_SEGMENT, false);
}

} // verus!
