//! The CANopen object dictionary (OD) model.
//!
//! Every CANopen device exposes its data as a dictionary of objects addressed
//! by a 16-bit `index` and an 8-bit `subindex` (CiA 301 §7.4). Communication
//! objects live in `0x1000..=0x1FFF`, manufacturer-specific objects in
//! `0x2000..=0x5FFF`, and standardised device-profile objects in
//! `0x6000..=0x9FFF`.
//!
//! [`ObjectDictionary`] has a compile-time capacity. Its view is the map from
//! addresses to entries; reads and writes are stated over that map.
use vstd::prelude::*;

use crate::datatypes::Value;
use crate::types::{Error, Result};

verus! {

/// The address of an object dictionary entry: a 16-bit index and 8-bit
/// subindex.
///
/// Subindex `0` conventionally holds the "number of entries" for `RECORD` and
/// `ARRAY` objects; simple `VAR` objects use subindex `0` for the value.
#[derive(Debug, Clone, Copy, PartialEq, Eq, PartialOrd, Ord, Hash, Structural)]
pub struct Address {
    /// 16-bit object index.
    pub index: u16,
    /// 8-bit subindex.
    pub subindex: u8,
}

impl Address {
    /// Construct an address from an index and subindex.
    pub fn new(index: u16, subindex: u8) -> (a: Self)
        ensures
            a == (Address { index, subindex }),
    {
        Self { index, subindex }
    }
}

/// Access rights for an object dictionary entry.
#[derive(Debug, Clone, Copy, PartialEq, Eq, Structural)]
pub enum AccessType {
    /// Read-only.
    Ro,
    /// Write-only.
    Wo,
    /// Read/write.
    Rw,
    /// Read-only constant (value fixed at design time).
    Const,
}

impl AccessType {
    /// Whether an SDO/PDO read is permitted.
    pub open spec fn readable(self) -> bool {
        self != AccessType::Wo
    }

    /// Whether an SDO/PDO write is permitted.
    pub open spec fn writable(self) -> bool {
        self == AccessType::Wo || self == AccessType::Rw
    }

    /// Whether an SDO/PDO read is permitted.
    pub fn is_readable(self) -> (b: bool)
        ensures
            b == self.readable(),
    {
        matches!(self, AccessType::Ro | AccessType::Rw | AccessType::Const)
    }

    /// Whether an SDO/PDO write is permitted.
    pub fn is_writable(self) -> (b: bool)
        ensures
            b == self.writable(),
    {
        matches!(self, AccessType::Wo | AccessType::Rw)
    }
}

/// A single object dictionary entry: a typed value and its access rights.
#[derive(Debug, Clone, Copy, PartialEq)]
pub struct Entry {
    /// The current value (its variant fixes the object's data type).
    pub value: Value,
    /// The entry's access rights.
    pub access: AccessType,
}

impl Entry {
    /// A read/write entry.
    pub fn rw(value: Value) -> (e: Self)
        ensures
            e == (Entry { value, access: AccessType::Rw }),
    {
        Self { value, access: AccessType::Rw }
    }

    /// A read-only entry.
    pub fn ro(value: Value) -> (e: Self)
        ensures
            e == (Entry { value, access: AccessType::Ro }),
    {
        Self { value, access: AccessType::Ro }
    }

    /// A read-only constant entry.
    pub fn constant(value: Value) -> (e: Self)
        ensures
            e == (Entry { value, access: AccessType::Const }),
    {
        Self { value, access: AccessType::Const }
    }
}

/// The contents of an object dictionary.
pub type Objects = Map<Address, Entry>;

/// What a read at `addr` gives: the stored value, unless the object is missing
/// or not readable.
pub open spec fn read_of(objects: Objects, addr: Address) -> Result<Value> {
    if !objects.dom().contains(addr) {
        Err(Error::ObjectNotFound)
    } else if !objects[addr].access.readable() {
        Err(Error::WriteOnly)
    } else {
        Ok(objects[addr].value)
    }
}

/// The dictionary with the value at `addr` replaced, its access rights kept.
pub open spec fn with_value(objects: Objects, addr: Address, value: Value) -> Objects {
    objects.insert(addr, Entry { value, access: objects[addr].access })
}

/// The dictionary after a device-side set of `value` at `addr`, or why it is
/// refused: the object must exist and keep its data type.
pub open spec fn set_of(objects: Objects, addr: Address, value: Value) -> Result<Objects> {
    if !objects.dom().contains(addr) {
        Err(Error::ObjectNotFound)
    } else if objects[addr].value.spec_data_type() != value.spec_data_type() {
        Err(Error::TypeMismatch)
    } else {
        Ok(with_value(objects, addr, value))
    }
}

/// The dictionary after a master's write of `value` at `addr`, or why it is
/// refused: the object must exist, be writable and keep its data type.
pub open spec fn write_of(objects: Objects, addr: Address, value: Value) -> Result<Objects> {
    if objects.dom().contains(addr) && !objects[addr].access.writable() {
        Err(Error::ReadOnly)
    } else {
        set_of(objects, addr, value)
    }
}

/// A value written to a readable object is what the next read gives.
pub proof fn law_read_after_write(objects: Objects, addr: Address, value: Value)
    ensures
        write_of(objects, addr, value) matches Ok(after) ==> {
            &&& read_of(objects, addr) is Ok ==> read_of(after, addr) == Ok::<Value, Error>(value)
            &&& after.dom() == objects.dom()
            &&& forall|other: Address| other != addr ==> read_of(after, other) == read_of(objects, other)
        },
{
    if let Ok(after) = write_of(objects, addr, value) {
        assert(after.dom() =~= objects.dom());
    }
}

/// A write never changes the data type or the access rights of any object.
pub proof fn law_write_keeps_types(objects: Objects, addr: Address, value: Value, other: Address)
    requires
        objects.dom().contains(other),
    ensures
        write_of(objects, addr, value) matches Ok(after) ==> {
            &&& after[other].access == objects[other].access
            &&& after[other].value.spec_data_type() == objects[other].value.spec_data_type()
        },
{
}

/// The dictionary with room for `capacity` objects after the entries of `list`
/// were inserted one after the other, until there was no room for one.
pub open spec fn inserted(objects: Objects, list: Seq<(Address, Entry)>, capacity: nat) -> (
    Objects,
    Result<()>,
)
    decreases list.len(),
{
    if list.len() == 0 {
        (objects, Ok(()))
    } else {
        let (before, r) = inserted(objects, list.drop_last(), capacity);
        let (addr, entry) = list.last();
        if r is Err {
            (before, r)
        } else if before.dom().contains(addr) || before.dom().len() < capacity {
            (before.insert(addr, entry), Ok(()))
        } else {
            (before, Err(Error::DictionaryFull))
        }
    }
}

/// Whether a list has an entry for an address.
pub open spec fn lists(list: Seq<(Address, Entry)>, a: Address) -> bool {
    exists|i: int| 0 <= i < list.len() && (#[trigger] list[i]).0 == a
}

/// How many of the entries of `list` stand at an address that the dictionary
/// already holds.
pub open spec fn held(objects: Objects, list: Seq<(Address, Entry)>) -> nat
    decreases list.len(),
{
    if list.len() == 0 {
        0
    } else {
        held(objects, list.drop_last()) + if objects.dom().contains(list.last().0) {
            1nat
        } else {
            0
        }
    }
}

/// No more entries are held than there are.
pub proof fn lemma_held(objects: Objects, list: Seq<(Address, Entry)>)
    ensures
        held(objects, list) <= list.len(),
    decreases list.len(),
{
    if list.len() > 0 {
        lemma_held(objects, list.drop_last());
    }
}

/// Where the dictionary has none of the addresses, none of the entries is held.
pub proof fn lemma_none_held(objects: Objects, list: Seq<(Address, Entry)>)
    requires
        forall|i: int|
            0 <= i < list.len() ==> !objects.dom().contains((#[trigger] list[i]).0),
    ensures
        held(objects, list) == 0,
    decreases list.len(),
{
    if list.len() > 0 {
        let front = list.drop_last();
        assert forall|i: int| 0 <= i < front.len() implies !objects.dom().contains(
            (#[trigger] front[i]).0,
        ) by {
            assert(front[i] == list[i]);
        }
        assert(list[list.len() - 1] == list.last());
        lemma_none_held(objects, front);
    }
}

/// A prefix that does not fit ends the insertion.
proof fn lemma_inserted_error(
    objects: Objects,
    list: Seq<(Address, Entry)>,
    capacity: nat,
    k: int,
)
    requires
        0 <= k <= list.len(),
        inserted(objects, list.take(k), capacity).1 is Err,
    ensures
        inserted(objects, list, capacity) == inserted(objects, list.take(k), capacity),
    decreases list.len() - k,
{
    if k == list.len() {
        assert(list.take(k) =~= list);
    } else {
        assert(list.take(k + 1).drop_last() =~= list.take(k));
        lemma_inserted_error(objects, list, capacity, k + 1);
    }
}

/// With enough room, entries at distinct addresses are all inserted, and every
/// other object stays as it was. An entry that replaces one needs no room.
pub proof fn law_inserted(objects: Objects, list: Seq<(Address, Entry)>, capacity: nat)
    requires
        objects.dom().finite(),
        objects.dom().len() + list.len() - held(objects, list) <= capacity,
        forall|i: int, j: int|
            0 <= i < j < list.len() ==> (#[trigger] list[i]).0 != (#[trigger] list[j]).0,
    ensures
        ({
            let (after, r) = inserted(objects, list, capacity);
            &&& r is Ok
            &&& after.dom().finite()
            &&& after.dom().len() == objects.dom().len() + list.len() - held(objects, list)
            &&& forall|a: Address| #[trigger]
                after.dom().contains(a) <==> objects.dom().contains(a) || lists(list, a)
            &&& forall|i: int|
                0 <= i < list.len() ==> after.dom().contains((#[trigger] list[i]).0)
                    && after[list[i].0] == list[i].1
            &&& forall|a: Address| #![trigger after[a]] #![trigger objects.dom().contains(a)]
                objects.dom().contains(a) && !lists(list, a) ==> after.dom().contains(a)
                    && after[a] == objects[a]
        }),
    decreases list.len(),
{
    if list.len() > 0 {
        let front = list.drop_last();
        assert forall|i: int, j: int| 0 <= i < j < front.len() implies (#[trigger] front[i]).0 != (
        #[trigger] front[j]).0 by {
            assert(front[i] == list[i] && front[j] == list[j]);
        }
        lemma_held(objects, front);
        law_inserted(objects, front, capacity);
        let (before, _) = inserted(objects, front, capacity);
        let (after, _) = inserted(objects, list, capacity);
        let last = list.last();
        assert(before.dom().contains(last.0) <==> objects.dom().contains(last.0)) by {
            if lists(front, last.0) {
                let i = choose|i: int| 0 <= i < front.len() && (#[trigger] front[i]).0 == last.0;
                assert(list[i].0 != list[list.len() - 1].0);
            }
        }
        assert(after == before.insert(last.0, last.1));
        assert forall|i: int| 0 <= i < list.len() implies after.dom().contains((#[trigger] list[i]).0)
            && after[list[i].0] == list[i].1 by {
            if i < front.len() {
                assert(front[i] == list[i]);
                assert(list[i].0 != list[list.len() - 1].0);
            }
        }
        assert forall|a: Address| #![trigger after[a]] #![trigger objects.dom().contains(a)] objects.dom().contains(a) && !lists(
            list,
            a,
        ) implies after.dom().contains(a) && after[a] == objects[a] by {
            assert(list[list.len() - 1].0 != a);
            assert(!lists(front, a)) by {
                if lists(front, a) {
                    let i = choose|i: int| 0 <= i < front.len() && (#[trigger] front[i]).0 == a;
                    assert(list[i].0 == a);
                }
            }
            assert(before[a] == objects[a]);
        }
        assert(after.dom() =~= before.dom().insert(last.0));
        assert forall|a: Address| #[trigger] after.dom().contains(a) <==> objects.dom().contains(a)
            || lists(list, a) by {
            if lists(front, a) {
                let i = choose|i: int| 0 <= i < front.len() && (#[trigger] front[i]).0 == a;
                assert(list[i].0 == a);
            }
            if a == last.0 {
                assert(list[list.len() - 1].0 == a);
            } else if lists(list, a) {
                let i = choose|i: int| 0 <= i < list.len() && (#[trigger] list[i]).0 == a;
                assert(front[i].0 == a);
            }
        }
    }
}

/// The map that a list of entries stands for.
spec fn as_objects(s: Seq<(Address, Entry)>) -> Objects
    decreases s.len(),
{
    if s.len() == 0 {
        Map::empty()
    } else {
        as_objects(s.drop_last()).insert(s.last().0, s.last().1)
    }
}

/// No address occurs twice.
spec fn distinct(s: Seq<(Address, Entry)>) -> bool {
    forall|i: int, j: int| 0 <= i < j < s.len() ==> s[i].0 != s[j].0
}

/// The map of a list without repeated addresses holds exactly its entries.
proof fn lemma_as_objects(s: Seq<(Address, Entry)>)
    requires
        distinct(s),
    ensures
        as_objects(s).dom().finite(),
        as_objects(s).dom().len() == s.len(),
        forall|i: int|
            0 <= i < s.len() ==> as_objects(s).dom().contains(#[trigger] s[i].0)
                && as_objects(s)[s[i].0] == s[i].1,
        forall|a: Address| #[trigger]
            as_objects(s).dom().contains(a) ==> exists|i: int| 0 <= i < s.len() && s[i].0 == a,
    decreases s.len(),
{
    if s.len() > 0 {
        let rest = s.drop_last();
        assert(distinct(rest));
        lemma_as_objects(rest);
        assert(!as_objects(rest).dom().contains(s.last().0));
        assert forall|i: int| 0 <= i < s.len() implies as_objects(s).dom().contains(
            #[trigger] s[i].0,
        ) && as_objects(s)[s[i].0] == s[i].1 by {
            if i < rest.len() {
                assert(rest[i] == s[i]);
            }
        }
        assert forall|a: Address| #[trigger] as_objects(s).dom().contains(a) implies exists|i: int|
            0 <= i < s.len() && s[i].0 == a by {
            if a == s.last().0 {
                assert(s[s.len() - 1].0 == a);
            } else {
                assert(as_objects(rest).dom().contains(a));
                let i = choose|i: int| 0 <= i < rest.len() && rest[i].0 == a;
                assert(s[i].0 == a);
            }
        }
    }
}

/// Replacing the entry in place replaces it in the map.
proof fn lemma_update(s: Seq<(Address, Entry)>, i: int, entry: Entry)
    requires
        distinct(s),
        0 <= i < s.len(),
    ensures
        distinct(s.update(i, (s[i].0, entry))),
        as_objects(s.update(i, (s[i].0, entry))) == as_objects(s).insert(s[i].0, entry),
{
    let t = s.update(i, (s[i].0, entry));
    assert(distinct(t));
    lemma_as_objects(s);
    lemma_as_objects(t);
    let m = as_objects(s).insert(s[i].0, entry);
    assert forall|a: Address| as_objects(t).dom().contains(a) <==> m.dom().contains(a) by {
        if as_objects(t).dom().contains(a) {
            let j = choose|j: int| 0 <= j < t.len() && t[j].0 == a;
            assert(s[j].0 == a);
        }
        if m.dom().contains(a) && a != s[i].0 {
            let j = choose|j: int| 0 <= j < s.len() && s[j].0 == a;
            assert(t[j].0 == a);
        }
        if a == s[i].0 {
            assert(t[i].0 == a);
        }
    }
    assert forall|a: Address| as_objects(t).dom().contains(a) implies as_objects(t)[a] == m[a] by {
        let j = choose|j: int| 0 <= j < t.len() && t[j].0 == a;
        assert(as_objects(t)[t[j].0] == t[j].1);
        assert(s[j].0 == a);
        assert(as_objects(s)[s[j].0] == s[j].1);
    }
    assert(as_objects(t) =~= m);
}

/// An object dictionary holding up to `N` entries, addressed by
/// `(index, subindex)`.
#[derive(Debug)]
pub struct ObjectDictionary<const N: usize> {
    entries: Vec<(Address, Entry)>,
}

impl<const N: usize> View for ObjectDictionary<N> {
    type V = Objects;

    closed spec fn view(&self) -> Objects {
        as_objects(self.entries@)
    }
}

impl<const N: usize> Default for ObjectDictionary<N> {
    fn default() -> (od: Self)
        ensures
            od.wf(),
            od@ == Objects::empty(),
    {
        Self::new()
    }
}

impl<const N: usize> ObjectDictionary<N> {
    /// No address is held twice, and the capacity is not exceeded.
    pub closed spec fn wf(self) -> bool {
        &&& distinct(self.entries@)
        &&& self.entries@.len() <= N
    }

    /// A dictionary never holds more objects than its capacity.
    pub proof fn law_capacity(self)
        requires
            self.wf(),
        ensures
            self@.dom().finite(),
            self@.dom().len() <= N,
    {
        lemma_as_objects(self.entries@);
    }

    /// Create an empty object dictionary.
    pub fn new() -> (od: Self)
        ensures
            od.wf(),
            od@ == Objects::empty(),
    {
        Self { entries: Vec::new() }
    }

    /// Where `addr` is held, if anywhere.
    fn find(&self, addr: Address) -> (r: Option<usize>)
        requires
            self.wf(),
        ensures
            r is Some <==> self@.dom().contains(addr),
            r matches Some(i) ==> {
                &&& i < self.entries@.len()
                &&& self.entries@[i as int].0 == addr
                &&& self@[addr] == self.entries@[i as int].1
            },
    {
        proof {
            lemma_as_objects(self.entries@);
        }
        let mut i: usize = 0;
        while i < self.entries.len()
            invariant
                i <= self.entries@.len(),
                distinct(self.entries@),
                forall|j: int| 0 <= j < i ==> self.entries@[j].0 != addr,
            decreases self.entries@.len() - i,
        {
            if self.entries[i].0 == addr {
                proof {
                    lemma_as_objects(self.entries@);
                }
                return Some(i);
            }
            i += 1;
        }
        None
    }

    /// Insert or replace the entry at `addr`.
    ///
    /// Returns [`Error::DictionaryFull`] when capacity `N` is exhausted.
    pub fn insert(&mut self, addr: Address, entry: Entry) -> (r: Result<()>)
        requires
            old(self).wf(),
        ensures
            final(self).wf(),
            r is Ok <==> old(self)@.dom().contains(addr) || old(self)@.dom().len() < N,
            r is Ok ==> final(self)@ == old(self)@.insert(addr, entry),
            r matches Err(e) ==> e == Error::DictionaryFull && final(self)@ == old(self)@,
    {
        let ghost before = self.entries@;
        proof {
            lemma_as_objects(before);
        }
        match self.find(addr) {
            Some(i) => {
                self.entries[i] = (addr, entry);
                proof {
                    lemma_update(before, i as int, entry);
                    assert(self.entries@ =~= before.update(i as int, (before[i as int].0, entry)));
                }
                Ok(())
            },
            None => {
                if self.entries.len() < N {
                    self.entries.push((addr, entry));
                    proof {
                        assert(self.entries@.drop_last() =~= before);
                        assert forall|i: int| 0 <= i < before.len() implies before[i].0 != addr by {
                            assert(as_objects(before).dom().contains(before[i].0));
                        }
                    }
                    Ok(())
                } else {
                    Err(Error::DictionaryFull)
                }
            },
        }
    }

    /// Insert or replace the entries of `list`, in order, until one does not fit.
    ///
    /// Returns [`Error::DictionaryFull`] when capacity `N` is exhausted.
    pub(crate) fn insert_all(&mut self, list: &[(Address, Entry)]) -> (r: Result<()>)
        requires
            old(self).wf(),
        ensures
            final(self).wf(),
            (final(self)@, r) == inserted(old(self)@, list@, N as nat),
    {
        let mut i: usize = 0;
        assert(list@.take(0) =~= Seq::empty());
        while i < list.len()
            invariant
                i <= list@.len(),
                self.wf(),
                inserted(old(self)@, list@.take(i as int), N as nat) == (self@, Ok::<(), Error>(())),
            decreases list@.len() - i,
        {
            let (addr, entry) = list[i];
            proof {
                assert(list@.take(i + 1).drop_last() =~= list@.take(i as int));
                assert(list@.take(i + 1).last() == (addr, entry));
                if inserted(old(self)@, list@.take(i + 1), N as nat).1 is Err {
                    lemma_inserted_error(old(self)@, list@, N as nat, i + 1);
                }
            }
            match self.insert(addr, entry) {
                Ok(()) => {},
                Err(e) => {
                    return Err(e);
                },
            }
            i += 1;
        }
        assert(list@.take(list@.len() as int) =~= list@);
        Ok(())
    }

    /// How many objects there are.
    pub(crate) fn len(&self) -> (n: usize)
        requires
            self.wf(),
        ensures
            n == self@.dom().len(),
            n <= N,
    {
        proof {
            lemma_as_objects(self.entries@);
        }
        self.entries.len()
    }

    /// How many of the entries of `list` stand at an address that is held.
    pub(crate) fn count_held(&self, list: &[(Address, Entry)]) -> (n: usize)
        requires
            self.wf(),
        ensures
            n == held(self@, list@),
            n <= list@.len(),
    {
        let mut n: usize = 0;
        let mut i: usize = 0;
        assert(list@.take(0) =~= Seq::empty());
        while i < list.len()
            invariant
                i <= list@.len(),
                self.wf(),
                n <= i,
                n == held(self@, list@.take(i as int)),
            decreases list@.len() - i,
        {
            proof {
                assert(list@.take(i + 1).drop_last() =~= list@.take(i as int));
                assert(list@.take(i + 1).last() == list@[i as int]);
            }
            if self.find(list[i].0).is_some() {
                n += 1;
            }
            i += 1;
        }
        assert(list@.take(list@.len() as int) =~= list@);
        n
    }

    /// Borrow the raw entry at `addr`, ignoring access rights.
    pub fn entry(&self, addr: Address) -> (r: Option<&Entry>)
        requires
            self.wf(),
        ensures
            r is Some <==> self@.dom().contains(addr),
            r matches Some(e) ==> *e == self@[addr],
    {
        match self.find(addr) {
            Some(i) => Some(&self.entries[i].1),
            None => None,
        }
    }

    /// Read the value at `addr`, honouring access rights.
    ///
    /// Returns [`Error::ObjectNotFound`] if absent, or [`Error::WriteOnly`] if
    /// the object is not readable.
    pub fn read(&self, addr: Address) -> (r: Result<Value>)
        requires
            self.wf(),
        ensures
            r == read_of(self@, addr),
    {
        match self.entry(addr) {
            None => Err(Error::ObjectNotFound),
            Some(entry) => {
                if !entry.access.is_readable() {
                    Err(Error::WriteOnly)
                } else {
                    Ok(entry.value)
                }
            },
        }
    }

    /// Write `value` at `addr`, honouring access rights and the object's data
    /// type.
    ///
    /// Returns [`Error::ObjectNotFound`] if absent, [`Error::ReadOnly`] if not
    /// writable, or [`Error::TypeMismatch`] if `value`'s type differs from the
    /// stored object's type.
    pub fn write(&mut self, addr: Address, value: Value) -> (r: Result<()>)
        requires
            old(self).wf(),
        ensures
            final(self).wf(),
            match write_of(old(self)@, addr, value) {
                Ok(after) => r is Ok && final(self)@ == after,
                Err(e) => r == Err::<(), Error>(e) && final(self)@ == old(self)@,
            },
    {
        if let Some(i) = self.find(addr) {
            if !self.entries[i].1.access.is_writable() {
                return Err(Error::ReadOnly);
            }
        }
        self.set(addr, value)
    }

    /// Set the value at `addr` from the **device side**, ignoring master access
    /// rights — those govern SDO access, not the application, so this can update
    /// a master-read-only object (e.g. publish process data into a TPDO source,
    /// or the node's error register `0x1001`). The object must exist and the
    /// value's type must match.
    ///
    /// Returns [`Error::ObjectNotFound`] if absent or [`Error::TypeMismatch`] on
    /// a type mismatch.
    pub fn set(&mut self, addr: Address, value: Value) -> (r: Result<()>)
        requires
            old(self).wf(),
        ensures
            final(self).wf(),
            match set_of(old(self)@, addr, value) {
                Ok(after) => r is Ok && final(self)@ == after,
                Err(e) => r == Err::<(), Error>(e) && final(self)@ == old(self)@,
            },
    {
        let ghost before = self.entries@;
        match self.find(addr) {
            None => Err(Error::ObjectNotFound),
            Some(i) => {
                let access = self.entries[i].1.access;
                if self.entries[i].1.value.data_type() != value.data_type() {
                    return Err(Error::TypeMismatch);
                }
                let entry = Entry { value, access };
                self.entries[i] = (addr, entry);
                proof {
                    lemma_update(before, i as int, entry);
                    assert(self.entries@ =~= before.update(i as int, (before[i as int].0, entry)));
                }
                Ok(())
            },
        }
    }
}

/// Who may do what: every object but a write-only one can be read, only a
/// read/write or a write-only one can be written, and a refusal names its reason.
pub proof fn law_access_rights(objects: Objects, addr: Address, value: Value)
    ensures
        ({
            let held = objects.dom().contains(addr);
            let o = objects[addr];
            let same_type = o.value.spec_data_type() == value.spec_data_type();
            &&& !held ==> {
                &&& read_of(objects, addr) == Err::<Value, Error>(Error::ObjectNotFound)
                &&& write_of(objects, addr, value) == Err::<Objects, Error>(Error::ObjectNotFound)
                &&& set_of(objects, addr, value) == Err::<Objects, Error>(Error::ObjectNotFound)
            }
            &&& held ==> match o.access {
                AccessType::Wo => read_of(objects, addr) == Err::<Value, Error>(Error::WriteOnly),
                _ => read_of(objects, addr) == Ok::<Value, Error>(o.value),
            }
            &&& held ==> match o.access {
                AccessType::Ro | AccessType::Const => write_of(objects, addr, value) == Err::<
                    Objects,
                    Error,
                >(Error::ReadOnly),
                AccessType::Rw | AccessType::Wo => if same_type {
                    write_of(objects, addr, value) is Ok
                } else {
                    write_of(objects, addr, value) == Err::<Objects, Error>(Error::TypeMismatch)
                },
            }
            &&& held ==> if same_type {
                set_of(objects, addr, value) is Ok
            } else {
                set_of(objects, addr, value) == Err::<Objects, Error>(Error::TypeMismatch)
            }
        }),
{
}

/// A set from the device side reaches an object whatever its access rights: it
/// then holds the value, keeps its access rights, and no other object changes. A
/// master's write has no other effect.
pub proof fn law_set(objects: Objects, addr: Address, value: Value)
    ensures
        set_of(objects, addr, value) matches Ok(after) ==> {
            &&& after.dom() == objects.dom()
            &&& after[addr].value == value
            &&& after[addr].access == objects[addr].access
            &&& forall|other: Address| other != addr ==> #[trigger] after[other] == objects[other]
        },
        write_of(objects, addr, value) is Ok ==> write_of(objects, addr, value) == set_of(
            objects,
            addr,
            value,
        ),
{
    if let Ok(after) = set_of(objects, addr, value) {
        assert(after.dom() =~= objects.dom());
    }
}

/// Entries that the dictionary holds are counted one by one.
pub proof fn law_held_counts(objects: Objects, list: Seq<(Address, Entry)>, more: (Address, Entry))
    ensures
        held(objects, Seq::empty()) == 0,
        objects.dom().contains(more.0) ==> held(objects, list.push(more)) == held(objects, list)
            + 1,
        !objects.dom().contains(more.0) ==> held(objects, list.push(more)) == held(objects, list),
{
    assert(list.push(more).drop_last() =~= list);
}

/// Inserting goes on while there is room: an entry at an address that the
/// dictionary holds replaces the one there, any other needs a free place, and the
/// first that finds none ends it.
pub proof fn law_insertion(
    objects: Objects,
    list: Seq<(Address, Entry)>,
    more: (Address, Entry),
    capacity: nat,
)
    ensures
        inserted(objects, Seq::empty(), capacity) == (objects, Ok::<(), Error>(())),
        ({
            let (before, r) = inserted(objects, list, capacity);
            let (after, r2) = inserted(objects, list.push(more), capacity);
            if r is Err {
                after == before && r2 == r
            } else if before.dom().contains(more.0) || before.dom().len() < capacity {
                &&& r2 is Ok
                &&& after.dom() == before.dom().insert(more.0)
                &&& after[more.0] == more.1
                &&& forall|a: Address| #![trigger after[a]] a != more.0 ==> after[a] == before[a]
            } else {
                after == before && r2 == Err::<(), Error>(Error::DictionaryFull)
            }
        }),
{
    assert(list.push(more).drop_last() =~= list);
}

} // verus!
