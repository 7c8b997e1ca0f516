//! Process Data Object (PDO) — real-time process data (CiA 301 §7.2.2).
//!
//! PDOs carry mapped process data with no protocol overhead: up to eight
//! bytes of application data per frame, laid out by the PDO mapping
//! parameters. Receive PDOs (RPDO) consume data into the OD; transmit PDOs
//! (TPDO) publish data from it.
//!
//! A [`PdoMapping`] lists the objects of a PDO in order; [`pack`] concatenates
//! their little-endian encodings and [`unpack`] takes them apart again. Objects
//! are mapped in whole bytes.
use vstd::prelude::*;

use crate::datatypes::{decoded, overwrite, DataType, Value};
use crate::object_dictionary::{
    read_of, with_value, write_of, Address, Entry, ObjectDictionary, Objects,
};
use crate::types::{Error, NodeId, Result};

pub mod laws;

verus! {

/// The direction of a PDO, from the device's point of view.
#[derive(Debug, Clone, Copy, PartialEq, Eq, Structural)]
pub enum PdoKind {
    /// A transmit PDO: the device publishes.
    Transmit,
    /// A receive PDO: the device consumes.
    Receive,
}

impl PdoKind {
    /// The COB-ID base of the first PDO of this kind.
    pub open spec fn base(self) -> u16 {
        match self {
            PdoKind::Transmit => 0x180,
            PdoKind::Receive => 0x200,
        }
    }

    /// The COB-ID that the predefined connection set gives to PDO `number`
    /// (`1..=4`) of `node`: `0x180`, `0x280`, `0x380` and `0x480` plus the
    /// node-id for transmit PDOs, `0x200` to `0x500` for receive PDOs. `None`
    /// for any other number.
    pub fn predefined_cob_id(self, number: u8, node: NodeId) -> (r: Option<u16>)
        ensures
            r is Some <==> 1 <= number <= 4,
            r matches Some(id) ==> id == self.base() + 0x100 * (number - 1) + node@,
    {
        if number < 1 || number > 4 {
            return None;
        }
        let base: u16 = match self {
            PdoKind::Transmit => 0x180,
            PdoKind::Receive => 0x200,
        };
        Some(base + 0x100 * (number as u16 - 1) + node.raw() as u16)
    }
}

/// The predefined connection set gives no two PDOs of the network the same
/// COB-ID.
pub proof fn law_predefined_cob_ids_are_distinct(
    a: PdoKind,
    m: u8,
    s: u8,
    b: PdoKind,
    n: u8,
    t: u8,
)
    requires
        1 <= m <= 4,
        1 <= n <= 4,
        1 <= s <= 127,
        1 <= t <= 127,
    ensures
        a.base() + 0x100 * (m - 1) + s == b.base() + 0x100 * (n - 1) + t ==> a == b && m == n && s
            == t,
{
}

/// Whether a PDO's COB-ID parameter (sub 1 of a communication parameter) marks
/// the PDO as existing: bit 31 is clear.
pub fn pdo_is_valid(cob_id: u32) -> (b: bool)
    ensures
        b == (cob_id < 0x8000_0000),
{
    cob_id < 0x8000_0000
}

/// The 11-bit CAN id in a PDO's COB-ID parameter.
pub fn pdo_can_id(cob_id: u32) -> (id: u16)
    ensures
        id == cob_id % 0x800,
{
    (cob_id % 0x800) as u16
}

/// When a PDO is transmitted (sub 2 of a communication parameter).
#[derive(Debug, Clone, Copy, PartialEq, Eq, Structural)]
pub enum TransmissionType {
    /// `0` — on the SYNC that follows an event.
    SynchronousAcyclic,
    /// `1..=240` — on every n-th SYNC.
    SynchronousCyclic(u8),
    /// `252` — sampled on SYNC, sent on a remote request.
    RtrSynchronous,
    /// `253` — sent on a remote request.
    RtrEvent,
    /// `254` — on a manufacturer-specific event.
    EventDrivenManufacturer,
    /// `255` — on an event that the device profile defines.
    EventDrivenProfile,
}

impl TransmissionType {
    /// The byte that stands for this type.
    pub open spec fn byte(self) -> u8 {
        match self {
            TransmissionType::SynchronousAcyclic => 0,
            TransmissionType::SynchronousCyclic(n) => n,
            TransmissionType::RtrSynchronous => 252,
            TransmissionType::RtrEvent => 253,
            TransmissionType::EventDrivenManufacturer => 254,
            TransmissionType::EventDrivenProfile => 255,
        }
    }

    /// The type that a byte stands for; `241..=251` are reserved.
    pub open spec fn of_byte(byte: u8) -> Option<TransmissionType> {
        if byte == 0 {
            Some(TransmissionType::SynchronousAcyclic)
        } else if byte <= 240 {
            Some(TransmissionType::SynchronousCyclic(byte))
        } else if byte == 252 {
            Some(TransmissionType::RtrSynchronous)
        } else if byte == 253 {
            Some(TransmissionType::RtrEvent)
        } else if byte == 254 {
            Some(TransmissionType::EventDrivenManufacturer)
        } else if byte == 255 {
            Some(TransmissionType::EventDrivenProfile)
        } else {
            None
        }
    }

    /// Decode a transmission type.
    ///
    /// Returns [`Error::Overflow`] for a reserved value (`241..=251`).
    pub fn from_byte(byte: u8) -> (r: Result<Self>)
        ensures
            match TransmissionType::of_byte(byte) {
                Some(t) => r == Ok::<TransmissionType, Error>(t),
                None => r == Err::<TransmissionType, Error>(Error::Overflow),
            },
            r matches Ok(t) ==> t.byte() == byte,
    {
        if byte == 0 {
            Ok(TransmissionType::SynchronousAcyclic)
        } else if byte <= 240 {
            Ok(TransmissionType::SynchronousCyclic(byte))
        } else if byte == 252 {
            Ok(TransmissionType::RtrSynchronous)
        } else if byte == 253 {
            Ok(TransmissionType::RtrEvent)
        } else if byte == 254 {
            Ok(TransmissionType::EventDrivenManufacturer)
        } else if byte == 255 {
            Ok(TransmissionType::EventDrivenProfile)
        } else {
            Err(Error::Overflow)
        }
    }

    /// Whether the type is SYNC-triggered.
    pub open spec fn synchronous(self) -> bool {
        self is SynchronousAcyclic || self is SynchronousCyclic
    }
}

/// One object of a PDO mapping: its address and its length in bits.
#[derive(Debug, Clone, Copy, PartialEq, Eq, Structural)]
pub struct MappingEntry {
    /// The object index.
    pub index: u16,
    /// The object subindex.
    pub subindex: u8,
    /// The mapped length in bits.
    pub bits: u8,
}

impl MappingEntry {
    /// The mapping parameter's value, `0xIIII_SSLL`.
    pub open spec fn packed(self) -> u32 {
        (self.index * 0x1_0000 + self.subindex * 0x100 + self.bits) as u32
    }

    /// The entry that a mapping parameter's value stands for.
    pub open spec fn of_packed(value: u32) -> MappingEntry {
        MappingEntry {
            index: (value / 0x1_0000) as u16,
            subindex: (value / 0x100 % 0x100) as u8,
            bits: (value % 0x100) as u8,
        }
    }

    /// The address of the mapped object.
    pub open spec fn address(self) -> Address {
        Address { index: self.index, subindex: self.subindex }
    }

    /// An entry and its parameter value determine each other.
    pub proof fn law_packed_round_trip(e: MappingEntry, value: u32)
        ensures
            MappingEntry::of_packed(e.packed()) == e,
            MappingEntry::of_packed(value).packed() == value,
    {
        let p: int = e.index * 0x1_0000 + e.subindex * 0x100 + e.bits;
        assert(p / 0x100 == e.index * 0x100 + e.subindex && p % 0x100 == e.bits);
        assert(p / 0x1_0000 == e.index);
        let v = value as int;
        assert(v / 0x100 / 0x100 == v / 0x1_0000);
        assert(v == (v / 0x100) * 0x100 + v % 0x100);
        assert(v / 0x100 == (v / 0x1_0000) * 0x100 + v / 0x100 % 0x100);
    }

    /// Map `bits` bits of the object at `index`, `subindex`.
    pub fn new(index: u16, subindex: u8, bits: u8) -> (e: Self)
        ensures
            e == (MappingEntry { index, subindex, bits }),
    {
        Self { index, subindex, bits }
    }

    /// The mapping parameter's value, `0xIIII_SSLL`.
    pub fn to_u32(self) -> (value: u32)
        ensures
            value == self.packed(),
    {
        self.index as u32 * 0x1_0000 + self.subindex as u32 * 0x100 + self.bits as u32
    }

    /// Read an entry from a mapping parameter's value.
    pub fn from_u32(value: u32) -> (e: Self)
        ensures
            e == MappingEntry::of_packed(value),
    {
        Self {
            index: (value / 0x1_0000) as u16,
            subindex: (value / 0x100 % 0x100) as u8,
            bits: (value % 0x100) as u8,
        }
    }
}

/// The objects of a PDO, in order: at most `N`. Its view is that sequence.
#[derive(Debug)]
pub struct PdoMapping<const N: usize> {
    entries: Vec<MappingEntry>,
}

impl<const N: usize> View for PdoMapping<N> {
    type V = Seq<MappingEntry>;

    closed spec fn view(&self) -> Seq<MappingEntry> {
        self.entries@
    }
}

impl<const N: usize> Default for PdoMapping<N> {
    fn default() -> (m: Self)
        ensures
            m@ == Seq::<MappingEntry>::empty(),
    {
        Self::new()
    }
}

impl<const N: usize> PdoMapping<N> {
    /// An empty mapping.
    pub fn new() -> (m: Self)
        ensures
            m@ == Seq::<MappingEntry>::empty(),
    {
        Self { entries: Vec::new() }
    }

    /// Append an object.
    ///
    /// Returns [`Error::MappingFull`] once `N` objects are mapped.
    pub fn push(&mut self, entry: MappingEntry) -> (r: Result<()>)
        ensures
            r is Ok <==> old(self)@.len() < N,
            r is Ok ==> final(self)@ == old(self)@.push(entry),
            r matches Err(e) ==> e == Error::MappingFull && final(self)@ == old(self)@,
    {
        if self.entries.len() < N {
            self.entries.push(entry);
            Ok(())
        } else {
            Err(Error::MappingFull)
        }
    }

    /// Whether nothing is mapped.
    pub fn is_empty(&self) -> (b: bool)
        ensures
            b == (self@.len() == 0),
    {
        self.entries.len() == 0
    }

    /// The mapped objects, in order.
    pub fn entries(&self) -> (s: &[MappingEntry])
        ensures
            s@ == self@,
    {
        self.entries.as_slice()
    }
}

/// The bytes of a transmit PDO with room for `capacity` bytes: the encodings of
/// the mapped objects one after the other, or why it cannot be built. Each
/// object must be readable and mapped in its full length.
pub open spec fn pack_of(entries: Seq<MappingEntry>, objects: Objects, capacity: nat) -> Result<
    Seq<u8>,
>
    decreases entries.len(),
{
    if entries.len() == 0 {
        Ok(Seq::empty())
    } else {
        match pack_of(entries.drop_last(), objects, capacity) {
            Err(e) => Err(e),
            Ok(front) => match read_of(objects, entries.last().address()) {
                Err(e) => Err(e),
                Ok(value) => {
                    let bytes = value.encoding();
                    if entries.last().bits != 8 * bytes.len() {
                        Err(Error::TypeMismatch)
                    } else if front.len() + bytes.len() > capacity {
                        Err(Error::BadLength)
                    } else {
                        Ok(front + bytes)
                    }
                },
            },
        }
    }
}

/// A prefix that cannot be packed spoils the whole.
proof fn lemma_pack_error(entries: Seq<MappingEntry>, objects: Objects, capacity: nat, k: int)
    requires
        0 <= k <= entries.len(),
        pack_of(entries.take(k), objects, capacity) is Err,
    ensures
        pack_of(entries, objects, capacity) == pack_of(entries.take(k), objects, capacity),
    decreases entries.len() - k,
{
    if k == entries.len() {
        assert(entries.take(k) =~= entries);
    } else {
        assert(entries.take(k + 1).drop_last() =~= entries.take(k));
        lemma_pack_error(entries, objects, capacity, k + 1);
    }
}

/// Pack the mapped objects of `od` into `buf`, returning the number of bytes
/// written.
///
/// Returns [`Error::ObjectNotFound`] or [`Error::WriteOnly`] for an object that
/// cannot be read, [`Error::TypeMismatch`] where the mapped length is not the
/// object's, and [`Error::BadLength`] if `buf` is too small; `buf` is then left
/// as it was.
pub fn pack<const M: usize, const N: usize>(
    mapping: &PdoMapping<M>,
    od: &ObjectDictionary<N>,
    buf: &mut [u8],
) -> (r: Result<usize>)
    requires
        od.wf(),
    ensures
        match pack_of(mapping@, od@, old(buf)@.len()) {
            Ok(bytes) => {
                &&& r == Ok::<usize, Error>(bytes.len() as usize)
                &&& bytes.len() <= old(buf)@.len()
                &&& final(buf)@ == bytes + old(buf)@.skip(bytes.len() as int)
            },
            Err(e) => r == Err::<usize, Error>(e) && final(buf)@ == old(buf)@,
        },
{
    let capacity: usize = buf.len();
    let mut bytes: Vec<u8> = Vec::new();
    let mut i: usize = 0;
    proof {
        assert(mapping@.take(0) =~= Seq::empty());
    }
    while i < mapping.entries.len()
        invariant
            i <= mapping@.len(),
            mapping@ == mapping.entries@,
            od.wf(),
            capacity == old(buf)@.len(),
            buf@ == old(buf)@,
            bytes@.len() <= capacity,
            pack_of(mapping@.take(i as int), od@, capacity as nat) == Ok::<Seq<u8>, Error>(bytes@),
        decreases mapping@.len() - i,
    {
        let entry = mapping.entries[i];
        proof {
            assert(mapping@.take(i + 1).drop_last() =~= mapping@.take(i as int));
            assert(mapping@.take(i + 1).last() == entry);
            if pack_of(mapping@.take(i + 1), od@, capacity as nat) is Err {
                lemma_pack_error(mapping@, od@, capacity as nat, i + 1);
            }
        }
        let value = match od.read(Address { index: entry.index, subindex: entry.subindex }) {
            Ok(v) => v,
            Err(e) => {
                return Err(e);
            },
        };
        let n: usize = value.size();
        if entry.bits as usize != 8 * n {
            return Err(Error::TypeMismatch);
        }
        if n > capacity - bytes.len() {
            return Err(Error::BadLength);
        }
        let mut field = [0u8; 32];
        let _ = value.encode_le(&mut field);
        let part: &[u8] = &field[0..n];
        assert(part@ =~= value.encoding());
        let ghost front = bytes@;
        bytes.extend_from_slice(part);
        assert(bytes@ =~= front + value.encoding());
        i += 1;
    }
    assert(mapping@.take(mapping@.len() as int) =~= mapping@);
    overwrite(buf, bytes.as_slice());
    Ok(bytes.len())
}

/// How many bytes the mapped objects take, whole bytes counted.
pub open spec fn mapped_len(entries: Seq<MappingEntry>) -> int
    decreases entries.len(),
{
    if entries.len() == 0 {
        0
    } else {
        mapped_len(entries.drop_last()) + entries.last().bits / 8
    }
}

/// Where the bytes of the last entry lie.
pub open spec fn last_field(entries: Seq<MappingEntry>, data: Seq<u8>) -> Seq<u8> {
    data.subrange(mapped_len(entries.drop_last()), mapped_len(entries))
}

/// The dictionary after a receive PDO with `data`, and whether every mapped
/// object was written. The objects are written in order, each with its own
/// bytes, until one is refused.
pub open spec fn unpack_of(entries: Seq<MappingEntry>, objects: Objects, data: Seq<u8>) -> (
    Objects,
    Result<()>,
)
    decreases entries.len(),
{
    if entries.len() == 0 {
        (objects, Ok(()))
    } else {
        let (before, r) = unpack_of(entries.drop_last(), objects, data);
        let entry = entries.last();
        let addr = entry.address();
        let data_type = before[addr].value.spec_data_type();
        if r is Err {
            (before, r)
        } else if !before.dom().contains(addr) {
            (before, Err(Error::ObjectNotFound))
        } else if entry.bits % 8 != 0 || !data_type.accepts_len((entry.bits / 8) as nat) {
            (before, Err(Error::TypeMismatch))
        } else if mapped_len(entries) > data.len() {
            (before, Err(Error::BadLength))
        } else {
            match write_of(before, addr, decoded(data_type, last_field(entries, data))) {
                Ok(after) => (after, Ok(())),
                Err(e) => (before, Err(e)),
            }
        }
    }
}

/// A prefix that is refused ends the unpacking.
proof fn lemma_unpack_error(entries: Seq<MappingEntry>, objects: Objects, data: Seq<u8>, k: int)
    requires
        0 <= k <= entries.len(),
        unpack_of(entries.take(k), objects, data).1 is Err,
    ensures
        unpack_of(entries, objects, data) == unpack_of(entries.take(k), objects, data),
    decreases entries.len() - k,
{
    if k == entries.len() {
        assert(entries.take(k) =~= entries);
    } else {
        assert(entries.take(k + 1).drop_last() =~= entries.take(k));
        lemma_unpack_error(entries, objects, data, k + 1);
    }
}

/// Unpack `data` into the mapped objects of `od`, in order.
///
/// Returns [`Error::ObjectNotFound`] for a missing object,
/// [`Error::TypeMismatch`] where the mapped length does not suit the object,
/// [`Error::BadLength`] if `data` is too short, and [`Error::ReadOnly`] for an
/// object that cannot be written. The objects before the refused one have then
/// been written.
pub fn unpack<const M: usize, const N: usize>(
    mapping: &PdoMapping<M>,
    od: &mut ObjectDictionary<N>,
    data: &[u8],
) -> (r: Result<()>)
    requires
        old(od).wf(),
    ensures
        final(od).wf(),
        (final(od)@, r) == unpack_of(mapping@, old(od)@, data@),
{
    let mut pos: usize = 0;
    let mut i: usize = 0;
    proof {
        assert(mapping@.take(0) =~= Seq::empty());
    }
    while i < mapping.entries.len()
        invariant
            i <= mapping@.len(),
            mapping@ == mapping.entries@,
            od.wf(),
            pos <= data@.len(),
            pos == mapped_len(mapping@.take(i as int)),
            unpack_of(mapping@.take(i as int), old(od)@, data@) == (od@, Ok::<(), Error>(())),
        decreases mapping@.len() - i,
    {
        let entry = mapping.entries[i];
        let ghost upto = mapping@.take(i + 1);
        proof {
            assert(upto.drop_last() =~= mapping@.take(i as int));
            assert(upto.last() == entry);
            if unpack_of(upto, old(od)@, data@).1 is Err {
                lemma_unpack_error(mapping@, old(od)@, data@, i + 1);
            }
        }
        let addr = Address { index: entry.index, subindex: entry.subindex };
        let data_type = match od.entry(addr) {
            Some(e) => e.value.data_type(),
            None => {
                return Err(Error::ObjectNotFound);
            },
        };
        let n: usize = (entry.bits / 8) as usize;
        let fits = match data_type.fixed_size() {
            Some(fixed) => n == fixed,
            None => n <= crate::datatypes::MAX_STRING_LEN,
        };
        if entry.bits % 8 != 0 || !fits {
            return Err(Error::TypeMismatch);
        }
        if n > data.len() - pos {
            return Err(Error::BadLength);
        }
        let value = match Value::decode_le(data_type, &data[pos..pos + n]) {
            Ok(v) => v,
            Err(e) => {
                return Err(e);
            },
        };
        match od.write(addr, value) {
            Ok(()) => {},
            Err(e) => {
                return Err(e);
            },
        }
        pos = pos + n;
        i += 1;
    }
    assert(mapping@.take(mapping@.len() as int) =~= mapping@);
    Ok(())
}

/// Every mapped object exists in both dictionaries with the same type, and can
/// be written in the second.
pub open spec fn compatible(entries: Seq<MappingEntry>, from: Objects, to: Objects) -> bool {
    forall|i: int| #![trigger entries[i]]
        0 <= i < entries.len() ==> {
            let a = entries[i].address();
            &&& from[a].value.wf()
            &&& to.dom().contains(a)
            &&& to[a].access.writable()
            &&& to[a].value.spec_data_type() == from[a].value.spec_data_type()
        }
}

/// Whether an address is mapped.
pub open spec fn maps(entries: Seq<MappingEntry>, a: Address) -> bool {
    exists|i: int| 0 <= i < entries.len() && (#[trigger] entries[i]).address() == a
}

/// What one device publishes, another that maps the same objects receives: a
/// packed PDO unpacks without error, every mapped object then has the value it
/// had at the sender, and every other object is as it was.
pub proof fn law_pack_unpack(
    entries: Seq<MappingEntry>,
    from: Objects,
    to: Objects,
    capacity: nat,
)
    requires
        compatible(entries, from, to),
        pack_of(entries, from, capacity) is Ok,
    ensures
        ({
            let bytes = pack_of(entries, from, capacity)->Ok_0;
            let (after, r) = unpack_of(entries, to, bytes);
            &&& r is Ok
            &&& after.dom() == to.dom()
            &&& forall|a: Address| #![trigger after[a]]
                to.dom().contains(a) ==> after[a] == if maps(entries, a) {
                    Entry { value: from[a].value, access: to[a].access }
                } else {
                    to[a]
                }
        }),
{
    let bytes = pack_of(entries, from, capacity)->Ok_0;
    assert(bytes.subrange(0, bytes.len() as int) =~= bytes);
    lemma_pack_unpack(entries, from, to, capacity, bytes);
}

/// A packed PDO unpacks, whatever follows it in the data.
pub proof fn lemma_pack_unpack(
    entries: Seq<MappingEntry>,
    from: Objects,
    to: Objects,
    capacity: nat,
    data: Seq<u8>,
)
    requires
        compatible(entries, from, to),
        pack_of(entries, from, capacity) matches Ok(bytes) && bytes.len() <= data.len()
            && data.subrange(0, bytes.len() as int) == bytes,
    ensures
        pack_of(entries, from, capacity)->Ok_0.len() == mapped_len(entries),
        ({
            let (after, r) = unpack_of(entries, to, data);
            &&& r is Ok
            &&& after.dom() == to.dom()
            &&& forall|a: Address| #![trigger after[a]]
                to.dom().contains(a) ==> after[a] == if maps(entries, a) {
                    Entry { value: from[a].value, access: to[a].access }
                } else {
                    to[a]
                }
        }),
    decreases entries.len(),
{
    if entries.len() > 0 {
        let front = entries.drop_last();
        let entry = entries.last();
        let addr = entry.address();
        let bytes = pack_of(entries, from, capacity)->Ok_0;
        let head = pack_of(front, from, capacity)->Ok_0;
        assert(entries[entries.len() - 1] == entry);
        assert forall|i: int| #![trigger front[i]] 0 <= i < front.len() implies {
            let a = front[i].address();
            &&& from[a].value.wf()
            &&& to.dom().contains(a)
            &&& to[a].access.writable()
            &&& to[a].value.spec_data_type() == from[a].value.spec_data_type()
        } by {
            assert(front[i] == entries[i]);
        }
        assert(data.subrange(0, head.len() as int) =~= head) by {
            assert(bytes.subrange(0, head.len() as int) =~= head);
        }
        lemma_pack_unpack(front, from, to, capacity, data);
        let value = from[addr].value;
        let (before, _) = unpack_of(front, to, data);
        Value::law_decode_encode(value);
        assert(mapped_len(entries) == head.len() + value.encoding().len());
        assert forall|i: int| 0 <= i < value.encoding().len() implies data[head.len() + i]
            == value.encoding()[i] by {
            assert(data.subrange(0, bytes.len() as int)[head.len() + i] == bytes[head.len() + i]);
        }
        assert(last_field(entries, data) =~= value.encoding());
        assert(before.dom().contains(addr));
        assert(before[addr].access == to[addr].access);
        assert(before[addr].value.spec_data_type() == value.spec_data_type());
        let (after, r) = unpack_of(entries, to, data);
        assert(after == with_value(before, addr, value));
        assert(after.dom() =~= to.dom());
        assert forall|a: Address| #![trigger after[a]] to.dom().contains(a) implies after[a]
            == if maps(entries, a) {
            Entry { value: from[a].value, access: to[a].access }
        } else {
            to[a]
        } by {
            assert(before[a] == if maps(front, a) {
                Entry { value: from[a].value, access: to[a].access }
            } else {
                to[a]
            });
            if maps(front, a) {
                let i = choose|i: int| 0 <= i < front.len() && (#[trigger] front[i]).address() == a;
                assert(entries[i].address() == a);
            }
            if a != addr && maps(entries, a) {
                let i = choose|i: int|
                    0 <= i < entries.len() && (#[trigger] entries[i]).address() == a;
                assert(front[i].address() == a);
            }
        }
    }
}

/// No object is mapped twice, and every mapped object can be read and has a
/// type whose values determine the bytes they were read from: any but `BOOLEAN`.
pub open spec fn faithful(entries: Seq<MappingEntry>, objects: Objects) -> bool {
    &&& forall|i: int, j: int|
        0 <= i < j < entries.len() ==> (#[trigger] entries[i]).address() != (
        #[trigger] entries[j]).address()
    &&& forall|i: int| #![trigger entries[i]]
        0 <= i < entries.len() ==> {
            let o = objects[entries[i].address()];
            &&& o.access.readable()
            &&& o.value.spec_data_type() != DataType::Boolean
        }
}

/// What a device receives it publishes again: where the same objects are mapped
/// into a receive and a transmit PDO, the bytes that come in go out unchanged.
pub proof fn law_unpack_pack(
    entries: Seq<MappingEntry>,
    objects: Objects,
    data: Seq<u8>,
    capacity: nat,
)
    requires
        faithful(entries, objects),
        unpack_of(entries, objects, data).1 is Ok,
        mapped_len(entries) == data.len() <= capacity,
    ensures
        pack_of(entries, unpack_of(entries, objects, data).0, capacity) == Ok::<Seq<u8>, Error>(
            data,
        ),
{
    let after = unpack_of(entries, objects, data).0;
    lemma_unpacked(entries, objects, data);
    assert(entries.take(entries.len() as int) =~= entries);
    lemma_repacked(entries, after, data, capacity, entries.len() as int);
    assert(data.take(data.len() as int) =~= data);
}

/// The mapped length of a prefix is within that of the whole.
proof fn lemma_mapped_len(entries: Seq<MappingEntry>, k: int)
    requires
        0 <= k <= entries.len(),
    ensures
        0 <= mapped_len(entries.take(k)) <= mapped_len(entries),
    decreases entries.len(),
{
    if k == entries.len() {
        assert(entries.take(k) =~= entries);
        if k > 0 {
            lemma_mapped_len(entries.drop_last(), k - 1);
        }
    } else {
        assert(entries.drop_last().take(k) =~= entries.take(k));
        lemma_mapped_len(entries.drop_last(), k);
    }
}

/// Each mapped object holds its own bytes of the data.
spec fn holds_field(entries: Seq<MappingEntry>, after: Objects, data: Seq<u8>, i: int) -> bool {
    let a = entries[i].address();
    &&& after.dom().contains(a)
    &&& after[a].access.readable()
    &&& entries[i].bits == 8 * after[a].value.encoding().len()
    &&& after[a].value.encoding() == data.subrange(
        mapped_len(entries.take(i)),
        mapped_len(entries.take(i + 1)),
    )
}

/// After unpacking, each mapped object holds its own bytes of the data, and no
/// object has changed its type or access rights.
proof fn lemma_unpacked(entries: Seq<MappingEntry>, objects: Objects, data: Seq<u8>)
    requires
        faithful(entries, objects),
        unpack_of(entries, objects, data).1 is Ok,
    ensures
        ({
            let after = unpack_of(entries, objects, data).0;
            &&& mapped_len(entries) <= data.len()
            &&& forall|a: Address| #![trigger after[a]]
                after[a].access == objects[a].access && after[a].value.spec_data_type()
                    == objects[a].value.spec_data_type() || !objects.dom().contains(a)
            &&& after.dom() == objects.dom()
            &&& forall|i: int|
                0 <= i < entries.len() ==> #[trigger] holds_field(entries, after, data, i)
        }),
    decreases entries.len(),
{
    if entries.len() > 0 {
        let front = entries.drop_last();
        let n = front.len() as int;
        let entry = entries.last();
        let addr = entry.address();
        assert(faithful(front, objects)) by {
            assert forall|i: int, j: int| 0 <= i < j < front.len() implies (
            #[trigger] front[i]).address() != (#[trigger] front[j]).address() by {
                assert(front[i] == entries[i] && front[j] == entries[j]);
            }
            assert forall|i: int| #![trigger front[i]] 0 <= i < front.len() implies {
                let o = objects[front[i].address()];
                &&& o.access.readable()
                &&& o.value.spec_data_type() != DataType::Boolean
            } by {
                assert(front[i] == entries[i]);
            }
        }
        lemma_unpacked(front, objects, data);
        let before = unpack_of(front, objects, data).0;
        let after = unpack_of(entries, objects, data).0;
        let data_type = before[addr].value.spec_data_type();
        let bytes = last_field(entries, data);
        assert(entries[n] == entry);
        lemma_mapped_len(front, 0);
        assert(bytes.len() == entry.bits / 8);
        Value::law_encode_decode(data_type, bytes);
        assert(decoded(data_type, bytes).encoding() == bytes);
        assert(after == with_value(before, addr, decoded(data_type, bytes)));
        assert(after.dom() =~= objects.dom());
        assert(entries.take(n) =~= front);
        assert(entries.take(n + 1) =~= entries);
        assert(holds_field(entries, after, data, n));
        assert forall|i: int| 0 <= i < entries.len() implies #[trigger] holds_field(
            entries,
            after,
            data,
            i,
        ) by {
            if i < n {
                assert(holds_field(front, before, data, i));
                assert(front[i] == entries[i]);
                assert(entries[i].address() != entries[n].address());
                assert(front.take(i) =~= entries.take(i));
                assert(front.take(i + 1) =~= entries.take(i + 1));
            }
        }
    }
}

/// Packing objects that hold their bytes of the data gives the data.
proof fn lemma_repacked(
    entries: Seq<MappingEntry>,
    after: Objects,
    data: Seq<u8>,
    capacity: nat,
    k: int,
)
    requires
        0 <= k <= entries.len(),
        mapped_len(entries) <= data.len() <= capacity,
        forall|i: int| 0 <= i < entries.len() ==> #[trigger] holds_field(entries, after, data, i),
    ensures
        pack_of(entries.take(k), after, capacity) == Ok::<Seq<u8>, Error>(
            data.take(mapped_len(entries.take(k))),
        ),
    decreases k,
{
    lemma_mapped_len(entries, k);
    if k == 0 {
        assert(data.take(0) =~= Seq::empty());
    } else {
        lemma_repacked(entries, after, data, capacity, k - 1);
        lemma_mapped_len(entries, k - 1);
        let upto = entries.take(k);
        assert(upto.drop_last() =~= entries.take(k - 1));
        assert(upto.last() == entries[k - 1]);
        assert(holds_field(entries, after, data, k - 1));
        let value = after[upto.last().address()].value;
        assert(data.take(mapped_len(entries.take(k - 1))) + value.encoding() =~= data.take(
            mapped_len(entries.take(k)),
        ));
    }
}

} // verus!
