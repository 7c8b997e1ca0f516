//! What stands in the frames of a transfer, byte for byte, and what client and
//! server make of a frame by its bytes.
use vstd::prelude::*;

use crate::datatypes::{decoded, DataType, Value};
use crate::little_endian::{four_bytes, law_bytes_make_up_the_number, le_bytes, two_bytes};
use crate::object_dictionary::{Address, Objects};
use crate::sdo::client::{ClientState, Outcome};
use crate::sdo::server::{ServerState, ServerTransfer};
use crate::sdo::{
    address_in, addressed, expedited_upload_of, is_segmented_initiate, number_in, segment_at,
    segment_data, segment_frame, toggle_frame, transfer_limit, Reassembly, SdoAbortCode,
    CCS_DOWNLOAD_INITIATE, CCS_UPLOAD_SEGMENT, SCS_DOWNLOAD_SEGMENT, SCS_UPLOAD_INITIATE,
};
use crate::types::Error;

verus! {

/// The object that bytes 1 to 3 of a frame name: index, least significant byte
/// first, and subindex.
pub open spec fn named(f: Seq<u8>) -> Address {
    Address { index: two_bytes(f[1], f[2]) as u16, subindex: f[3] }
}

/// Whether a frame holds the command `cmd` in byte 0 and names the object `a`.
pub open spec fn speaks_of(f: Seq<u8>, cmd: int, a: Address) -> bool {
    &&& f.len() == 8
    &&& f[0] == cmd
    &&& two_bytes(f[1], f[2]) == a.index
    &&& f[3] == a.subindex
}

/// Whether bytes 4 to 7 of a frame hold `data`, and zeros behind it.
pub open spec fn holds(f: Seq<u8>, data: Seq<u8>) -> bool {
    forall|i: int|
        0 <= i < 4 ==> #[trigger] f[4 + i] == if i < data.len() {
            data[i]
        } else {
            0
        }
}

/// Whether bytes 4 to 7 of a frame hold the number `x`, least significant first.
pub open spec fn counts(f: Seq<u8>, x: int) -> bool {
    four_bytes(f[4], f[5], f[6], f[7]) == x
}

/// Whether a frame holds the command `cmd` in byte 0 and zeros behind it.
pub open spec fn bare(f: Seq<u8>, cmd: int) -> bool {
    f.len() == 8 && f[0] == cmd && forall|i: int| 1 <= i < 8 ==> #[trigger] f[i] == 0
}

/// Whether a frame is an abort of the transfer of `a` with the given code.
pub open spec fn aborts(f: Option<Seq<u8>>, a: Address, code: int) -> bool {
    f matches Some(p) && speaks_of(p, 0x80, a) && counts(p, code)
}

proof fn lemma_layout(cmd: u8, a: Address, data: Seq<u8>)
    requires
        data.len() <= 4,
    ensures
        speaks_of(addressed(cmd, a, data), cmd as int, a),
        holds(addressed(cmd, a, data), data),
{
    let f = addressed(cmd, a, data);
    let index = le_bytes(a.index as nat, 2);
    law_bytes_make_up_the_number(a.index, 0, index);
    assert(f[1] == index[0] && f[2] == index[1]);
}

proof fn lemma_number_layout(cmd: u8, a: Address, x: u32)
    ensures
        speaks_of(addressed(cmd, a, le_bytes(x as nat, 4)), cmd as int, a),
        counts(addressed(cmd, a, le_bytes(x as nat, 4)), x as int),
{
    let b = le_bytes(x as nat, 4);
    law_bytes_make_up_the_number(a.index, x, b);
    lemma_layout(cmd, a, b);
    let f = addressed(cmd, a, b);
    assert(f[4] == b[0] && f[5] == b[1] && f[6] == b[2] && f[7] == b[3]);
}

proof fn lemma_read(f: Seq<u8>)
    requires
        f.len() == 8,
    ensures
        address_in(f) == named(f),
        number_in(f) == four_bytes(f[4], f[5], f[6], f[7]),
{
    let s = f.subrange(1, 3);
    let t = f.subrange(4, 8);
    law_bytes_make_up_the_number(0, 0, s);
    law_bytes_make_up_the_number(0, 0, t);
    assert(s[0] == f[1] && s[1] == f[2]);
    assert(t[0] == f[4] && t[1] == f[5] && t[2] == f[6] && t[3] == f[7]);
}

/// The address and the number of a frame are where they stand in it.
pub proof fn law_fields(f: Seq<u8>)
    requires
        f.len() == 8,
    ensures
        address_in(f).index == two_bytes(f[1], f[2]),
        address_in(f).subindex == f[3],
        number_in(f) == four_bytes(f[4], f[5], f[6], f[7]),
{
    lemma_read(f);
}

/// The codes that an abort gives as its reason.
pub proof fn law_abort_codes()
    ensures
        SdoAbortCode::ToggleBitNotAlternated.spec_code() == 0x0503_0000,
        SdoAbortCode::ProtocolTimedOut.spec_code() == 0x0504_0000,
        SdoAbortCode::CommandInvalid.spec_code() == 0x0504_0001,
        SdoAbortCode::UnsupportedAccess.spec_code() == 0x0601_0000,
        SdoAbortCode::ReadOfWriteOnly.spec_code() == 0x0601_0001,
        SdoAbortCode::WriteOfReadOnly.spec_code() == 0x0601_0002,
        SdoAbortCode::ObjectDoesNotExist.spec_code() == 0x0602_0000,
        SdoAbortCode::DataTypeMismatchLengthHigh.spec_code() == 0x0607_0012,
        SdoAbortCode::DataTypeMismatchLengthLow.spec_code() == 0x0607_0013,
        SdoAbortCode::SubIndexDoesNotExist.spec_code() == 0x0609_0011,
        SdoAbortCode::General.spec_code() == 0x0800_0000,
{
}

/// The request of a write: a value of one to four bytes goes along, and the
/// command counts the bytes of the four that it does not use; any other value is
/// announced by its length. The request of a read names the object alone.
pub proof fn law_requests_by_their_bytes(a: Address, value: Value, data_type: DataType)
    requires
        value.wf(),
    ensures
        ({
            let data = value.encoding();
            let n = data.len() as int;
            let write = ClientState::begin_write(a, value).1;
            let read = ClientState::begin_read(a, data_type).1;
            &&& 1 <= n <= 4 ==> speaks_of(write, 0x23 + 4 * (4 - n), a) && holds(write, data)
            &&& n == 0 || n > 4 ==> speaks_of(write, 0x21, a) && counts(write, n)
            &&& speaks_of(read, 0x40, a) && holds(read, Seq::empty())
        }),
{
    let data = value.encoding();
    value.lemma_encoding_len();
    lemma_layout(0x40, a, Seq::empty());
    if 1 <= data.len() <= 4 {
        lemma_layout((0x23 + 4 * (4 - data.len())) as u8, a, data);
    } else {
        lemma_number_layout(0x21, a, data.len() as u32);
    }
}

/// A segment holds how many of its seven bytes are unused in bits 1 to 3 of byte
/// 0, the toggle in bit 4 and whether it is the last in bit 0, then its data and
/// zeros behind it. It is read the same way. A poll for a segment and its
/// acknowledgement hold the toggle alone.
pub proof fn law_segments_by_their_bytes(data: Seq<u8>, toggle: bool, last: bool, f: Seq<u8>)
    requires
        data.len() <= 7,
        f.len() == 8,
        f[0] < 0x20,
    ensures
        ({
            let t = if toggle {
                0x10int
            } else {
                0
            };
            let s = segment_frame(data, toggle, last);
            let poll = toggle_frame(CCS_UPLOAD_SEGMENT, toggle);
            let done = toggle_frame(SCS_DOWNLOAD_SEGMENT, toggle);
            &&& s.len() == 8
            &&& s[0] == 2 * (7 - data.len()) + t + if last {
                1int
            } else {
                0
            }
            &&& forall|i: int|
                0 <= i < 7 ==> #[trigger] s[1 + i] == if i < data.len() {
                    data[i]
                } else {
                    0
                }
            &&& bare(poll, 0x60 + t)
            &&& bare(done, 0x20 + t)
        }),
        ({
            let unused = if f[0] < 0x10 {
                f[0] as int / 2
            } else {
                (f[0] - 0x10) / 2
            };
            &&& segment_data(f).len() == 7 - unused
            &&& forall|i: int| 0 <= i < 7 - unused ==> #[trigger] segment_data(f)[i] == f[1 + i]
        }),
{
}

/// The segments of a value cut it into sevens: the one at `pos` carries the seven
/// bytes from there on, or all that are left, and is then the last.
pub proof fn law_segments_cut_into_sevens(data: Seq<u8>, pos: int, toggle: bool)
    requires
        0 <= pos <= data.len(),
    ensures
        ({
            let f = segment_at(data, pos, toggle);
            &&& f.len() == 8
            &&& f[0] % 2 == 1 <==> data.len() - pos <= 7
            &&& f[0] / 0x10 == if toggle {
                1int
            } else {
                0
            }
            &&& forall|i: int|
                0 <= i < 7 && pos + i < data.len() ==> #[trigger] f[1 + i] == data[pos + i]
            &&& data.len() - pos >= 7 ==> f[0] / 2 % 8 == 0
            &&& data.len() - pos < 7 ==> f[0] / 2 % 8 == 7 - (data.len() - pos)
        }),
{
}

/// A number takes up to eight bytes of a segmented transfer, anything else up to
/// 32.
pub proof fn law_transfer_limits(t: DataType)
    ensures
        t == DataType::VisibleString || t == DataType::OctetString || t == DataType::Domain
            ==> transfer_limit(t) == 32,
        t != DataType::VisibleString && t != DataType::OctetString && t != DataType::Domain
            ==> transfer_limit(t) == 8,
{
}

/// Collected segments must alternate their toggle, from clear on, must fit, and
/// must not go on behind the last; the data is appended in the order in which it
/// came.
pub proof fn law_reassembly(r: Reassembly, toggle: bool, last: bool, data: Seq<u8>, capacity: nat)
    ensures
        !Reassembly::start().toggle,
        !Reassembly::start().done,
        Reassembly::start().data.len() == 0,
        match r.push(toggle, last, data, capacity) {
            Ok(next) => {
                &&& !r.done && toggle == r.toggle && r.data.len() + data.len() <= capacity
                &&& next.data == r.data + data
                &&& next.toggle != toggle
                &&& next.done == last
                &&& next.push(toggle, last, data, capacity) is Err
            },
            Err(e) => {
                &&& r.done ==> e == Error::UnexpectedCommand
                &&& !r.done && toggle != r.toggle ==> e == Error::ToggleMismatch
                &&& !r.done && toggle == r.toggle ==> e == Error::Overflow && r.data.len()
                    + data.len() > capacity
            },
        },
{
}

/// How a read request is answered: by an abort where the object is missing or
/// cannot be read; with the value where it has one to four bytes; and otherwise by
/// its length, with the transfer of its bytes begun. The dictionary stays as it
/// was.
pub proof fn law_reads_are_served(s: ServerState, objects: Objects, req: Seq<u8>)
    requires
        req.len() == 8,
        0x40 <= req[0] < 0x60,
        objects[named(req)].value.wf(),
    ensures
        ({
            let a = named(req);
            let data = objects[a].value.encoding();
            let n = data.len() as int;
            let served = s.serve(objects, req);
            &&& served.objects == objects
            &&& if !objects.dom().contains(a) {
                served.state == s && aborts(served.response, a, 0x0602_0000)
            } else if !objects[a].access.readable() {
                served.state == s && aborts(served.response, a, 0x0601_0001)
            } else if 1 <= n <= 4 {
                &&& served.state == s
                &&& served.response matches Some(f) && speaks_of(f, 0x43 + 4 * (4 - n), a) && holds(
                    f,
                    data,
                )
            } else {
                &&& served.state == (ServerState {
                    transfer: Some(ServerTransfer::Upload { addr: a, data, pos: 0, toggle: false }),
                    ..s
                })
                &&& served.response matches Some(f) && speaks_of(f, 0x41, a) && counts(f, n)
            }
        }),
{
    lemma_read(req);
    let a = named(req);
    let data = objects[a].value.encoding();
    objects[a].value.lemma_encoding_len();
    lemma_number_layout(0x80, a, 0x0602_0000);
    lemma_number_layout(0x80, a, 0x0601_0001);
    if 1 <= data.len() <= 4 {
        lemma_layout((0x43 + 4 * (4 - data.len())) as u8, a, data);
    } else {
        lemma_number_layout(0x41, a, data.len() as u32);
    }
}

/// How a write that carries its value is answered: by an abort where the object is
/// missing, cannot be written or has another length; otherwise it is confirmed, and
/// the object holds those of bytes 4 to 7 that the command says are used, read as
/// the object's type — or, where it does not say, as many as the type has. No other
/// object changes, and no access rights.
pub proof fn law_inline_writes_are_served(s: ServerState, objects: Objects, req: Seq<u8>)
    requires
        req.len() == 8,
        0x20 <= req[0] < 0x40,
        req[0] / 2 % 2 == 1,
    ensures
        ({
            let a = named(req);
            let t = objects[a].value.spec_data_type();
            let n: int = if req[0] % 2 == 1 {
                if req[0] / 4 % 4 == 0 {
                    4int
                } else if req[0] / 4 % 4 == 1 {
                    3
                } else if req[0] / 4 % 4 == 2 {
                    2
                } else {
                    1
                }
            } else {
                match t.spec_fixed_size() {
                    Some(size) => size as int,
                    None => 0,
                }
            };
            let served = s.serve(objects, req);
            if !objects.dom().contains(a) {
                served.objects == objects && served.state == s && aborts(
                    served.response,
                    a,
                    0x0602_0000,
                )
            } else if !objects[a].access.writable() {
                served.objects == objects && served.state == s && aborts(
                    served.response,
                    a,
                    0x0601_0002,
                )
            } else if n > 4 || !t.accepts_len(n as nat) {
                served.objects == objects && served.state == s && aborts(
                    served.response,
                    a,
                    0x0607_0012,
                )
            } else {
                &&& served.response matches Some(f) && speaks_of(f, 0x60, a) && holds(
                    f,
                    Seq::empty(),
                )
                &&& served.state == (ServerState { written: Some(a), ..s })
                &&& served.objects.dom() == objects.dom()
                &&& served.objects[a].value == decoded(t, req.subrange(4, 4 + n))
                &&& served.objects[a].access == objects[a].access
                &&& forall|b: Address| #![trigger served.objects[b]]
                    objects.dom().contains(b) && b != a ==> served.objects[b] == objects[b]
            }
        }),
{
    lemma_read(req);
    let a = named(req);
    lemma_number_layout(0x80, a, 0x0602_0000);
    lemma_number_layout(0x80, a, 0x0601_0002);
    lemma_number_layout(0x80, a, 0x0607_0012);
    lemma_layout(0x60, a, Seq::empty());
    assert(s.serve(objects, req).objects.dom() =~= objects.dom());
}

/// How a write that announces its length is answered: by an abort where the object
/// is missing, cannot be written or has another length, or where no length is
/// given; otherwise it is confirmed, and the transfer begun with nothing received.
/// The dictionary stays as it was.
pub proof fn law_announced_writes_are_served(s: ServerState, objects: Objects, req: Seq<u8>)
    requires
        req.len() == 8,
        0x20 <= req[0] < 0x40,
        req[0] / 2 % 2 == 0,
    ensures
        ({
            let a = named(req);
            let t = objects[a].value.spec_data_type();
            let n = four_bytes(req[4], req[5], req[6], req[7]);
            let served = s.serve(objects, req);
            &&& served.objects == objects
            &&& if !objects.dom().contains(a) {
                served.state == s && aborts(served.response, a, 0x0602_0000)
            } else if !objects[a].access.writable() {
                served.state == s && aborts(served.response, a, 0x0601_0002)
            } else if req[0] % 2 == 0 {
                served.state == s && aborts(served.response, a, 0x0504_0001)
            } else if !t.accepts_len(n as nat) {
                served.state == s && aborts(served.response, a, 0x0607_0012)
            } else {
                &&& served.response matches Some(f) && speaks_of(f, 0x60, a) && holds(
                    f,
                    Seq::empty(),
                )
                &&& served.state.written == s.written && served.state.node == s.node
                &&& served.state.transfer matches Some(
                    ServerTransfer::Download { addr, data_type, buf, declared, toggle },
                )
                &&& addr == a && data_type == t && buf.len() == 0 && declared == n && !toggle
            }
        }),
{
    lemma_read(req);
    let a = named(req);
    lemma_number_layout(0x80, a, 0x0602_0000);
    lemma_number_layout(0x80, a, 0x0601_0002);
    lemma_number_layout(0x80, a, 0x0504_0001);
    lemma_number_layout(0x80, a, 0x0607_0012);
    lemma_layout(0x60, a, Seq::empty());
}

/// A poll for the next segment of a read is answered with the seven bytes that
/// follow those already sent, or all that are left, which ends the transfer. A poll
/// with the wrong toggle ends it with an abort, and so does one without a read in
/// progress. The dictionary stays as it was.
pub proof fn law_polls_are_served(s: ServerState, objects: Objects, req: Seq<u8>)
    requires
        req.len() == 8,
        0x60 <= req[0] < 0x80,
    ensures
        ({
            let served = s.serve(objects, req);
            &&& served.objects == objects
            &&& served.state.node == s.node && served.state.written == s.written
            &&& match s.transfer {
                Some(ServerTransfer::Upload { addr, data, pos, toggle }) => if toggle == (req[0]
                    >= 0x70) {
                    &&& served.response == Some(segment_at(data, pos, toggle))
                    &&& served.state.transfer == if pos + 7 >= data.len() {
                        None
                    } else {
                        Some(ServerTransfer::Upload { addr, data, pos: pos + 7, toggle: !toggle })
                    }
                } else {
                    served.state.transfer is None && aborts(served.response, addr, 0x0503_0000)
                },
                _ => served.state.transfer is None && aborts(
                    served.response,
                    (Address { index: 0, subindex: 0 }),
                    0x0504_0001,
                ),
            }
        }),
{
    lemma_number_layout(0x80, Address { index: 0, subindex: 0 }, 0x0504_0001);
    if let Some(ServerTransfer::Upload { addr, data, pos, toggle }) = s.transfer {
        lemma_number_layout(0x80, addr, 0x0503_0000);
    }
}

/// A segment of a write is appended and acknowledged with its own toggle, and the
/// next one must have the other. The last one writes the object, if as many bytes
/// came as were announced. A wrong toggle, too many bytes for the type or too few
/// in all end the transfer with an abort, and so does a segment without a write in
/// progress; the dictionary then stays as it was.
pub proof fn law_segments_are_served(s: ServerState, objects: Objects, req: Seq<u8>)
    requires
        req.len() == 8,
        req[0] < 0x20,
        s.transfer matches Some(ServerTransfer::Download { addr, data_type, .. })
            ==> objects.dom().contains(addr) && objects[addr].access.writable()
            && objects[addr].value.spec_data_type() == data_type,
        s.wf(),
    ensures
        ({
            let served = s.serve(objects, req);
            let unused = req[0] / 2 % 8;
            let part = req.subrange(1, 8 - unused);
            &&& served.state.node == s.node
            &&& match s.transfer {
                Some(ServerTransfer::Download { addr, data_type, buf, declared, toggle }) => {
                    let all = buf + part;
                    let limit: int = if data_type == DataType::VisibleString || data_type
                        == DataType::OctetString || data_type == DataType::Domain {
                        32
                    } else {
                        8
                    };
                    if toggle != (req[0] >= 0x10) {
                        served.objects == objects && served.state.transfer is None && aborts(
                            served.response,
                            addr,
                            0x0503_0000,
                        )
                    } else if all.len() > limit {
                        served.objects == objects && served.state.transfer is None && aborts(
                            served.response,
                            addr,
                            0x0607_0012,
                        )
                    } else if req[0] % 2 == 0 {
                        &&& served.objects == objects
                        &&& served.state.transfer == Some(
                            ServerTransfer::Download {
                                addr,
                                data_type,
                                buf: all,
                                declared,
                                toggle: !toggle,
                            },
                        )
                        &&& served.response matches Some(f) && bare(
                            f,
                            if toggle {
                                0x30
                            } else {
                                0x20
                            },
                        )
                    } else if all.len() != declared {
                        served.objects == objects && served.state.transfer is None && aborts(
                            served.response,
                            addr,
                            0x0607_0013,
                        )
                    } else {
                        &&& served.objects.dom() == objects.dom()
                        &&& served.objects[addr].value == decoded(data_type, all)
                        &&& served.objects[addr].access == objects[addr].access
                        &&& forall|b: Address| #![trigger served.objects[b]]
                            objects.dom().contains(b) && b != addr ==> served.objects[b]
                                == objects[b]
                        &&& served.state.transfer is None && served.state.written == Some(addr)
                        &&& served.response matches Some(f) && bare(
                            f,
                            if toggle {
                                0x30
                            } else {
                                0x20
                            },
                        )
                    }
                },
                _ => {
                    &&& served.objects == objects
                    &&& served.state.transfer is None
                    &&& aborts(served.response, (Address { index: 0, subindex: 0 }), 0x0504_0001)
                },
            }
        }),
{
    lemma_number_layout(0x80, Address { index: 0, subindex: 0 }, 0x0504_0001);
    if let Some(ServerTransfer::Download { addr, data_type, buf, declared, toggle }) = s.transfer {
        lemma_number_layout(0x80, addr, 0x0503_0000);
        lemma_number_layout(0x80, addr, 0x0607_0012);
        lemma_number_layout(0x80, addr, 0x0607_0013);
        let served = s.serve(objects, req);
        assert(served.objects.dom() =~= objects.dom());
    }
}

/// An abort ends the transfer in progress and is not answered. A command that there
/// is none of is answered by an abort and changes nothing.
pub proof fn law_other_requests(s: ServerState, objects: Objects, req: Seq<u8>)
    requires
        req.len() == 8,
        req[0] >= 0x80,
    ensures
        ({
            let served = s.serve(objects, req);
            &&& served.objects == objects
            &&& req[0] < 0xA0 ==> served.state == (ServerState { transfer: None, ..s })
                && served.response is None
            &&& req[0] >= 0xA0 ==> served.state == s && aborts(
                served.response,
                named(req),
                0x0504_0001,
            )
        }),
{
    lemma_read(req);
    lemma_number_layout(0x80, named(req), 0x0504_0001);
}

/// Whether a client gave its transaction up with the given code.
pub open spec fn gave_up(r: (ClientState, Outcome), code: int) -> bool {
    r.0 == ClientState::Idle && (r.1 matches Outcome::Aborted(c) && c == code)
}

/// What a client makes of an answer to a write: an abort ends it with the code in
/// bytes 4 to 7. A write that carried its value is complete with the confirmation.
/// One that announced its length goes on with the first seven bytes, toggle clear,
/// and after each acknowledgement with the seven that follow and the other toggle,
/// until all are sent. An acknowledgement with the wrong toggle, and any other
/// answer, ends it.
pub proof fn law_writes_proceed(c: ClientState, resp: Seq<u8>)
    requires
        resp.len() == 8,
        c is Idle || c is DownloadExpedited || c is DownloadInit || c is DownloadSeg,
    ensures
        ({
            let r = c.receive(resp);
            if resp[0] == 0x80 {
                gave_up(r, four_bytes(resp[4], resp[5], resp[6], resp[7]))
            } else {
                match c {
                    ClientState::DownloadExpedited => if resp[0] == 0x60 {
                        r == (ClientState::Idle, Outcome::Complete(None))
                    } else {
                        gave_up(r, 0x0800_0000)
                    },
                    ClientState::DownloadInit { data } => if resp[0] == 0x60 {
                        &&& r.0 == (ClientState::DownloadSeg {
                            data,
                            pos: if data.len() < 7 {
                                data.len() as int
                            } else {
                                7
                            },
                            last_toggle: false,
                        })
                        &&& r.1 == Outcome::Send(segment_at(data, 0, false))
                    } else {
                        gave_up(r, 0x0800_0000)
                    },
                    ClientState::DownloadSeg { data, pos, last_toggle } => if resp[0] < 0x20
                        || resp[0] >= 0x40 {
                        gave_up(r, 0x0800_0000)
                    } else if last_toggle != (resp[0] >= 0x30) {
                        gave_up(r, 0x0503_0000)
                    } else if pos >= data.len() {
                        r == (ClientState::Idle, Outcome::Complete(None))
                    } else {
                        &&& r.0 == (ClientState::DownloadSeg {
                            data,
                            pos: if data.len() < pos + 7 {
                                data.len() as int
                            } else {
                                pos + 7
                            },
                            last_toggle: !last_toggle,
                        })
                        &&& r.1 == Outcome::Send(segment_at(data, pos, !last_toggle))
                    },
                    _ => gave_up(r, 0x0800_0000),
                }
            }
        }),
{
    lemma_read(resp);
}

/// What a client makes of an answer to a read: an abort ends it with the code in
/// bytes 4 to 7. A value that came along completes it, if it has the length of the
/// type asked for. An announced length is answered by a poll with the toggle clear,
/// and each segment by a poll with the other toggle, until the last, which
/// completes it. A segment with the wrong toggle, more bytes than the type takes,
/// and any other answer end it.
pub proof fn law_reads_proceed(c: ClientState, resp: Seq<u8>)
    requires
        resp.len() == 8,
        c is UploadInit || c is UploadSeg,
    ensures
        ({
            let r = c.receive(resp);
            if resp[0] == 0x80 {
                gave_up(r, four_bytes(resp[4], resp[5], resp[6], resp[7]))
            } else {
                match c {
                    ClientState::UploadInit { data_type } => {
                        let n = 4 - resp[0] as int / 4 % 4;
                        if 0x40 <= resp[0] < 0x60 && resp[0] % 4 == 3 && data_type.accepts_len(
                            n as nat,
                        ) {
                            r == (
                                ClientState::Idle,
                                Outcome::Complete(
                                    Some(decoded(data_type, resp.subrange(4, 4 + n))),
                                ),
                            )
                        } else if 0x40 <= resp[0] < 0x60 && resp[0] % 4 == 1 {
                            &&& r.0 == (ClientState::UploadSeg {
                                data_type,
                                buf: Seq::empty(),
                                toggle: false,
                            })
                            &&& r.1 matches Outcome::Send(f) && bare(f, 0x60)
                        } else {
                            gave_up(r, 0x0800_0000)
                        }
                    },
                    ClientState::UploadSeg { data_type, buf, toggle } => {
                        let all = buf + resp.subrange(1, 8 - resp[0] / 2 % 8);
                        let limit: int = if data_type == DataType::VisibleString || data_type
                            == DataType::OctetString || data_type == DataType::Domain {
                            32
                        } else {
                            8
                        };
                        if resp[0] >= 0x20 {
                            gave_up(r, 0x0800_0000)
                        } else if toggle != (resp[0] >= 0x10) {
                            gave_up(r, 0x0503_0000)
                        } else if all.len() > limit {
                            gave_up(r, 0x0800_0000)
                        } else if resp[0] % 2 == 0 {
                            &&& r.0 == (ClientState::UploadSeg {
                                data_type,
                                buf: all,
                                toggle: !toggle,
                            })
                            &&& r.1 matches Outcome::Send(f) && bare(
                                f,
                                if toggle {
                                    0x60
                                } else {
                                    0x70
                                },
                            )
                        } else if data_type.accepts_len(all.len()) {
                            r == (ClientState::Idle, Outcome::Complete(Some(decoded(data_type, all))))
                        } else {
                            gave_up(r, 0x0800_0000)
                        }
                    },
                    _ => true,
                }
            }
        }),
{
    lemma_read(resp);
}

/// Which command bytes begin a segmented transfer, and what an answer that carries
/// its value gives.
pub proof fn law_initiates_by_their_bytes(f: Seq<u8>, data_type: DataType)
    requires
        f.len() == 8,
    ensures
        is_segmented_initiate(CCS_DOWNLOAD_INITIATE, f[0]) <==> 0x20 <= f[0] < 0x40 && f[0] % 4
            == 1,
        is_segmented_initiate(SCS_UPLOAD_INITIATE, f[0]) <==> 0x40 <= f[0] < 0x60 && f[0] % 4 == 1,
        ({
            let n = 4 - f[0] as int / 4 % 4;
            match expedited_upload_of(f, data_type) {
                Ok((a, v)) => {
                    &&& 0x40 <= f[0] < 0x60 && f[0] % 4 == 3
                    &&& a == named(f)
                    &&& data_type.accepts_len(n as nat)
                    &&& v == decoded(data_type, f.subrange(4, 4 + n))
                },
                Err(e) => if 0x40 <= f[0] < 0x60 && f[0] % 4 == 3 {
                    e == Error::TypeMismatch && !data_type.accepts_len(n as nat)
                } else {
                    e == Error::UnexpectedCommand
                },
            }
        }),
{
    lemma_read(f);
}

} // verus!
