//! What process data guarantees: where the objects of a PDO lie in its frame, and
//! why a PDO cannot be built or taken.
use vstd::prelude::*;

use crate::object_dictionary::{Address, Objects};
use crate::pdo::{
    lemma_pack_error, lemma_unpack_error, mapped_len, pack_of, unpack_of, MappingEntry, PdoKind,
    TransmissionType,
};
use crate::types::Error;

verus! {

/// How many bits the first `i` objects of a mapping take.
pub open spec fn bits_before(entries: Seq<MappingEntry>, i: int) -> int
    decreases i,
{
    if i <= 0 {
        0
    } else {
        bits_before(entries, i - 1) + entries[i - 1].bits
    }
}

/// A longer mapping has the same bits in front.
proof fn lemma_bits_before(entries: Seq<MappingEntry>, k: int, i: int)
    requires
        0 <= i <= k <= entries.len(),
    ensures
        bits_before(entries.take(k), i) == bits_before(entries, i),
    decreases i,
{
    if i > 0 {
        lemma_bits_before(entries, k, i - 1);
    }
}

/// Each object of a transmit PDO lies behind those mapped before it: its bytes, as
/// many as its mapped bits make up, start where the bits before it end, and are the
/// encoding of its value. Nothing stands behind the last.
pub proof fn law_fields_follow_each_other(
    entries: Seq<MappingEntry>,
    objects: Objects,
    capacity: nat,
    data: Seq<u8>,
    i: int,
)
    requires
        pack_of(entries, objects, capacity) == Ok::<Seq<u8>, Error>(data),
        0 <= i < entries.len(),
    ensures
        ({
            let a = Address { index: entries[i].index, subindex: entries[i].subindex };
            let at = bits_before(entries, i) / 8;
            let bytes = objects[a].value.encoding();
            &&& objects.dom().contains(a)
            &&& objects[a].access.readable()
            &&& entries[i].bits == 8 * bytes.len()
            &&& bits_before(entries, i) % 8 == 0
            &&& 0 <= at && at + bytes.len() <= data.len()
            &&& data.subrange(at, at + bytes.len() as int) == bytes
        }),
        8 * data.len() == bits_before(entries, entries.len() as int),
        data.len() <= capacity,
    decreases entries.len(),
{
    let front = entries.drop_last();
    let n = front.len() as int;
    let head = pack_of(front, objects, capacity)->Ok_0;
    let last = entries.last();
    let value = objects[last.address()].value;
    assert(front =~= entries.take(n));
    lemma_bits_before(entries, n, n);
    assert(data == head + value.encoding());
    if n > 0 {
        law_fields_follow_each_other(front, objects, capacity, head, 0);
    } else {
        assert(front =~= Seq::empty());
    }
    if i < n {
        law_fields_follow_each_other(front, objects, capacity, head, i);
        lemma_bits_before(entries, n, i);
        let a = Address { index: entries[i].index, subindex: entries[i].subindex };
        let at = bits_before(entries, i) / 8;
        let len = objects[a].value.encoding().len() as int;
        assert(data.subrange(at, at + len) =~= head.subrange(at, at + len));
    } else {
        assert(data.subrange(head.len() as int, data.len() as int) =~= value.encoding());
    }
}

/// A transmit PDO is not built when an object it maps is missing, cannot be read,
/// is mapped in another length than it has, or does not fit behind the others; the
/// first that fails is reported.
pub proof fn law_pack_refuses(
    entries: Seq<MappingEntry>,
    objects: Objects,
    capacity: nat,
    k: int,
)
    requires
        0 <= k < entries.len(),
        pack_of(entries.take(k), objects, capacity) is Ok,
    ensures
        ({
            let a = Address { index: entries[k].index, subindex: entries[k].subindex };
            let n = objects[a].value.encoding().len();
            let all = pack_of(entries, objects, capacity);
            if !objects.dom().contains(a) {
                all == Err::<Seq<u8>, Error>(Error::ObjectNotFound)
            } else if !objects[a].access.readable() {
                all == Err::<Seq<u8>, Error>(Error::WriteOnly)
            } else if entries[k].bits != 8 * n {
                all == Err::<Seq<u8>, Error>(Error::TypeMismatch)
            } else if bits_before(entries, k + 1) > 8 * capacity {
                all == Err::<Seq<u8>, Error>(Error::BadLength)
            } else {
                pack_of(entries.take(k + 1), objects, capacity) is Ok
            }
        }),
        entries.take(0).len() == 0 && pack_of(entries.take(0), objects, capacity) is Ok,
{
    let upto = entries.take(k);
    let more = entries.take(k + 1);
    let head = pack_of(upto, objects, capacity)->Ok_0;
    assert(more.drop_last() =~= upto);
    assert(more.last() == entries[k]);
    if k > 0 {
        law_fields_follow_each_other(upto, objects, capacity, head, 0);
    } else {
        assert(upto =~= Seq::empty());
    }
    lemma_bits_before(entries, k, k);
    if pack_of(more, objects, capacity) is Err {
        lemma_pack_error(entries, objects, capacity, k + 1);
    }
}

/// The mapped length of whole-byte objects is that of their bits.
proof fn lemma_mapped_bits(entries: Seq<MappingEntry>)
    requires
        forall|i: int| 0 <= i < entries.len() ==> (#[trigger] entries[i]).bits % 8 == 0,
    ensures
        8 * mapped_len(entries) == bits_before(entries, entries.len() as int),
    decreases entries.len(),
{
    if entries.len() > 0 {
        let front = entries.drop_last();
        let n = front.len() as int;
        assert forall|i: int| 0 <= i < front.len() implies (#[trigger] front[i]).bits % 8 == 0 by {
            assert(front[i] == entries[i]);
        }
        lemma_mapped_bits(front);
        assert(front =~= entries.take(n));
        lemma_bits_before(entries, n, n);
        assert(entries[n].bits % 8 == 0);
    }
}

/// What was taken of a receive PDO was mapped in whole bytes.
proof fn lemma_taken(entries: Seq<MappingEntry>, objects: Objects, data: Seq<u8>)
    requires
        unpack_of(entries, objects, data).1 is Ok,
    ensures
        forall|i: int| 0 <= i < entries.len() ==> (#[trigger] entries[i]).bits % 8 == 0,
        unpack_of(entries, objects, data).0.dom() == objects.dom(),
        forall|a: Address|
            objects.dom().contains(a) ==> {
                let o = #[trigger] unpack_of(entries, objects, data).0[a];
                o.access == objects[a].access && o.value.spec_data_type()
                    == objects[a].value.spec_data_type()
            },
    decreases entries.len(),
{
    if entries.len() > 0 {
        let front = entries.drop_last();
        lemma_taken(front, objects, data);
        let before = unpack_of(front, objects, data).0;
        assert forall|i: int| 0 <= i < entries.len() implies (#[trigger] entries[i]).bits % 8
            == 0 by {
            if i < front.len() {
                assert(front[i] == entries[i]);
            }
        }
        assert(unpack_of(entries, objects, data).0.dom() =~= objects.dom());
    }
}

/// A receive PDO stops at the first object that is missing, is mapped in another
/// length than its type has, reaches beyond the data or cannot be written, and
/// reports it; what came before has been written.
pub proof fn law_unpack_refuses(
    entries: Seq<MappingEntry>,
    objects: Objects,
    data: Seq<u8>,
    k: int,
)
    requires
        0 <= k < entries.len(),
        unpack_of(entries.take(k), objects, data).1 is Ok,
    ensures
        ({
            let a = Address { index: entries[k].index, subindex: entries[k].subindex };
            let bits = entries[k].bits;
            let t = objects[a].value.spec_data_type();
            let before = unpack_of(entries.take(k), objects, data).0;
            let all = unpack_of(entries, objects, data);
            if !objects.dom().contains(a) {
                all == (before, Err::<(), Error>(Error::ObjectNotFound))
            } else if bits % 8 != 0 || !t.accepts_len((bits / 8) as nat) {
                all == (before, Err::<(), Error>(Error::TypeMismatch))
            } else if bits_before(entries, k + 1) > 8 * data.len() {
                all == (before, Err::<(), Error>(Error::BadLength))
            } else if !objects[a].access.writable() {
                all == (before, Err::<(), Error>(Error::ReadOnly))
            } else {
                unpack_of(entries.take(k + 1), objects, data).1 is Ok
            }
        }),
        unpack_of(entries.take(0), objects, data) == (objects, Ok::<(), Error>(())),
{
    let upto = entries.take(k);
    let more = entries.take(k + 1);
    assert(more.drop_last() =~= upto);
    assert(more.last() == entries[k]);
    lemma_taken(upto, objects, data);
    lemma_mapped_bits(upto);
    lemma_bits_before(entries, k, k);
    let a = entries[k].address();
    let before = unpack_of(upto, objects, data).0;
    assert(before.dom().contains(a) <==> objects.dom().contains(a));
    if objects.dom().contains(a) {
        assert(before[a].access == objects[a].access);
    }
    if unpack_of(more, objects, data).1 is Err {
        lemma_unpack_error(entries, objects, data, k + 1);
    }
}

/// The transmission types by their byte: 0 is acyclic and 1 to 240 cyclic, both on
/// SYNC; 252 and 253 are on request, 254 and 255 on an event; the others are
/// reserved.
pub proof fn law_transmission_types(byte: u8)
    ensures
        match TransmissionType::of_byte(byte) {
            Some(t) => {
                &&& byte <= 240 || byte >= 252
                &&& t.byte() == byte
                &&& t.synchronous() <==> byte <= 240
                &&& t == TransmissionType::SynchronousAcyclic <==> byte == 0
                &&& t == TransmissionType::SynchronousCyclic(byte) <==> 1 <= byte <= 240
                &&& t == TransmissionType::RtrSynchronous <==> byte == 252
                &&& t == TransmissionType::RtrEvent <==> byte == 253
                &&& t == TransmissionType::EventDrivenManufacturer <==> byte == 254
                &&& t == TransmissionType::EventDrivenProfile <==> byte == 255
            },
            None => 241 <= byte <= 251,
        },
{
}

/// A mapping parameter holds the index in its upper 16 bits, the subindex in the
/// next eight and the length in bits in the lowest eight.
pub proof fn law_mapping_parameters(e: MappingEntry)
    ensures
        e.packed() == 0x1_0000 * e.index + 0x100 * e.subindex + e.bits,
        MappingEntry::of_packed(e.packed()) == e,
        e.address().index == e.index,
        e.address().subindex == e.subindex,
{
    MappingEntry::law_packed_round_trip(e, 0);
}

/// The COB-ID of a predefined PDO holds the node-id in its low seven bits and the
/// function code above them: 3, 5, 7, 9 for the transmit PDOs, 4, 6, 8, 10 for the
/// receive PDOs.
pub proof fn law_predefined_function_codes(kind: PdoKind, number: u8, node: u8)
    requires
        1 <= number <= 4,
        1 <= node <= 127,
    ensures
        ({
            let id = kind.base() + 0x100 * (number - 1) + node;
            &&& id % 0x80 == node
            &&& kind == PdoKind::Transmit ==> id / 0x80 == 2 * number + 1
            &&& kind == PdoKind::Receive ==> id / 0x80 == 2 * number + 2
        }),
{
}

} // verus!
