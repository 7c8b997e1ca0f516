//! The mandatory CiA 301 communication-profile objects.
//!
//! Every conformant CANopen device exposes a common baseline of objects in the
//! communication profile area (`0x1000`–`0x1FFF`): the device type, error
//! register, heartbeat time, and identity. [`StandardObjects`] builds that
//! baseline in one call.
//!
//! The identity (`0x1018`) is the same [`LssAddress`] an LSS master matches (see
//! [`crate::lss`]), and the error register (`0x1001`) / pre-defined error field
//! (`0x1003`) are exactly the objects
//! [`Node::raise_emergency`](crate::node::Node::raise_emergency) mirrors into.
use vstd::prelude::*;
use vstd::string::StringSliceAdditionalSpecFns;

use crate::datatypes::{ByteString, Value, MAX_STRING_LEN};
use crate::lss::LssAddress;
use crate::object_dictionary::{
    held, inserted, law_inserted, lemma_none_held, lists, AccessType, Address, Entry, ObjectDictionary, Objects,
};
use crate::types::{Error, Result};

verus! {

/// Builder for the mandatory CiA 301 communication-profile objects.
///
/// The objects it inserts are all node-id-independent, so it can populate a
/// dictionary before a node-id is known (e.g. an LSS-unconfigured node). COB-ID
/// objects that depend on the node-id (`0x1014` EMCY, `0x1005` SYNC) are left to
/// the application, which knows the assigned id.
#[derive(Debug, Clone, Copy)]
pub struct StandardObjects {
    /// Object `0x1000` — device type (profile and type information).
    pub device_type: u32,
    /// Object `0x1018` — the identity record (vendor / product / revision /
    /// serial), the same value an LSS master matches.
    pub identity: LssAddress,
    /// Object `0x1017` — producer heartbeat time, in milliseconds (`0` disables).
    pub producer_heartbeat_ms: u16,
    /// Number of `0x1003` pre-defined-error-field sub-entries to pre-allocate
    /// (`0` omits the object entirely).
    pub error_history_len: u8,
    /// Object `0x1008` — the manufacturer device name (a `VISIBLE_STRING`), or
    /// `None` to omit it.
    pub device_name: Option<ByteString>,
}

/// How many places in a dictionary the base objects are given.
pub const BASE_ROOM: usize = 9;

/// A place in a dictionary.
pub open spec fn at(index: u16, subindex: u8) -> Address {
    Address { index, subindex }
}

/// A constant entry.
pub open spec fn fixed(value: Value) -> Entry {
    Entry { value, access: AccessType::Const }
}

impl StandardObjects {
    /// The objects that are always there: device type, error register,
    /// heartbeat time, and the identity record.
    pub open spec fn base(self) -> Seq<(Address, Entry)> {
        seq![
            (at(0x1000, 0), fixed(Value::Unsigned32(self.device_type))),
            (at(0x1001, 0), Entry { value: Value::Unsigned8(0), access: AccessType::Ro }),
            (
                at(0x1017, 0),
                Entry {
                    value: Value::Unsigned16(self.producer_heartbeat_ms),
                    access: AccessType::Rw,
                },
            ),
            (at(0x1018, 0), fixed(Value::Unsigned8(4))),
            (at(0x1018, 1), fixed(Value::Unsigned32(self.identity.vendor_id))),
            (at(0x1018, 2), fixed(Value::Unsigned32(self.identity.product_code))),
            (at(0x1018, 3), fixed(Value::Unsigned32(self.identity.revision_number))),
            (at(0x1018, 4), fixed(Value::Unsigned32(self.identity.serial_number))),
        ]
    }

    /// The device name, where there is one.
    pub open spec fn name(self) -> Seq<(Address, Entry)> {
        match self.device_name {
            Some(name) => seq![(at(0x1008, 0), fixed(Value::VisibleString(name)))],
            None => Seq::empty(),
        }
    }

    /// The first `n` objects of the pre-defined error field: the writable count
    /// (a master writes 0 to clear), then the recorded codes.
    pub open spec fn error_field(n: nat) -> Seq<(Address, Entry)> {
        Seq::new(
            n,
            |i: int|
                if i == 0 {
                    (
                        at(0x1003, 0),
                        Entry { value: Value::Unsigned8(0), access: AccessType::Rw },
                    )
                } else {
                    (
                        at(0x1003, i as u8),
                        Entry { value: Value::Unsigned32(0), access: AccessType::Ro },
                    )
                },
        )
    }

    /// How many objects the pre-defined error field has.
    pub open spec fn error_field_len(self) -> nat {
        if self.error_history_len == 0 {
            0
        } else {
            self.error_history_len as nat + 1
        }
    }

    /// The objects to insert, in order.
    pub open spec fn list(self) -> Seq<(Address, Entry)> {
        self.base() + self.name() + Self::error_field(self.error_field_len())
    }

    /// How many places a dictionary must have for the objects: those of the base
    /// objects, the device name and the pre-defined error field.
    pub open spec fn room(self) -> nat {
        BASE_ROOM as nat + self.name().len() + self.error_field_len()
    }

    /// Whether a dictionary of `capacity` objects has the room, beside the objects
    /// it holds at other addresses.
    pub open spec fn fits(self, objects: Objects, capacity: nat) -> bool {
        objects.dom().len() - held(objects, self.list()) + self.room() <= capacity
    }

    /// No two of the objects have the same address.
    proof fn lemma_distinct(self)
        ensures
            forall|i: int, j: int|
                0 <= i < j < self.list().len() ==> (#[trigger] self.list()[i]).0 != (
                #[trigger] self.list()[j]).0,
    {
        let base = self.base();
        let name = self.name();
        let field = Self::error_field(self.error_field_len());
        let list = self.list();
        let b = base.len() as int;
        let m = b + name.len();
        assert(b == 8);
        assert forall|i: int| 0 <= i < list.len() implies list[i] == (if i < b {
            base[i]
        } else if i < m {
            name[i - b]
        } else {
            field[i - m]
        }) by {}
        assert forall|i: int| 0 <= i < b implies base[i].0.index != 0x1003 && base[i].0.index
            != 0x1008 by {}
    }

    /// A dictionary with the room gets every object of the baseline with its
    /// initial value and access right, keeps every other object it had, and gets
    /// nothing else.
    pub proof fn law_baseline(self, objects: Objects, capacity: nat)
        requires
            objects.dom().finite(),
            self.fits(objects, capacity),
        ensures
            ({
                let (after, r) = inserted(objects, self.list(), capacity);
                &&& r is Ok
                &&& forall|i: int|
                    0 <= i < self.list().len() ==> {
                        let (addr, entry) = #[trigger] self.list()[i];
                        after.dom().contains(addr) && after[addr] == entry
                    }
                &&& forall|a: Address| #[trigger]
                    after.dom().contains(a) <==> objects.dom().contains(a) || lists(self.list(), a)
                &&& forall|a: Address| #![trigger after[a]] #![trigger objects.dom().contains(a)]
                    objects.dom().contains(a) && !lists(self.list(), a) ==> after.dom().contains(a)
                        && after[a] == objects[a]
            }),
    {
        self.lemma_distinct();
        law_inserted(objects, self.list(), capacity);
    }

    /// What a dictionary with the room holds afterwards, object by object: the
    /// device type at `0x1000`, a clear error register at `0x1001`, the heartbeat
    /// time at `0x1017`, the identity at `0x1018` with its four parts in order, the
    /// name at `0x1008` if there is one, and the error field at `0x1003` if it has
    /// entries, its count writable and all of it clear. Every other object is as it
    /// was. The base objects are given nine places, the name one, and the error
    /// field one more than its entries.
    pub proof fn law_baseline_values(self, objects: Objects, capacity: nat, a: Address)
        requires
            objects.dom().finite(),
            self.fits(objects, capacity),
        ensures
            ({
                let after = inserted(objects, self.list(), capacity).0;
                let n = self.error_history_len;
                let own: Option<Entry> = if a == at(0x1000, 0) {
                    Some(
                        Entry {
                            value: Value::Unsigned32(self.device_type),
                            access: AccessType::Const,
                        },
                    )
                } else if a == at(0x1001, 0) {
                    Some(Entry { value: Value::Unsigned8(0), access: AccessType::Ro })
                } else if a == at(0x1017, 0) {
                    Some(
                        Entry {
                            value: Value::Unsigned16(self.producer_heartbeat_ms),
                            access: AccessType::Rw,
                        },
                    )
                } else if a == at(0x1018, 0) {
                    Some(Entry { value: Value::Unsigned8(4), access: AccessType::Const })
                } else if a == at(0x1018, 1) {
                    Some(
                        Entry {
                            value: Value::Unsigned32(self.identity.vendor_id),
                            access: AccessType::Const,
                        },
                    )
                } else if a == at(0x1018, 2) {
                    Some(
                        Entry {
                            value: Value::Unsigned32(self.identity.product_code),
                            access: AccessType::Const,
                        },
                    )
                } else if a == at(0x1018, 3) {
                    Some(
                        Entry {
                            value: Value::Unsigned32(self.identity.revision_number),
                            access: AccessType::Const,
                        },
                    )
                } else if a == at(0x1018, 4) {
                    Some(
                        Entry {
                            value: Value::Unsigned32(self.identity.serial_number),
                            access: AccessType::Const,
                        },
                    )
                } else if a == at(0x1008, 0) && self.device_name is Some {
                    Some(
                        Entry {
                            value: Value::VisibleString(self.device_name->0),
                            access: AccessType::Const,
                        },
                    )
                } else if a == at(0x1003, 0) && n > 0 {
                    Some(Entry { value: Value::Unsigned8(0), access: AccessType::Rw })
                } else if a.index == 0x1003 && 1 <= a.subindex <= n {
                    Some(Entry { value: Value::Unsigned32(0), access: AccessType::Ro })
                } else {
                    None
                };
                match own {
                    Some(entry) => after.dom().contains(a) && after[a] == entry,
                    None => {
                        &&& after.dom().contains(a) <==> objects.dom().contains(a)
                        &&& objects.dom().contains(a) ==> after[a] == objects[a]
                    },
                }
            }),
            self.room() == 9 + (if self.device_name is Some {
                1int
            } else {
                0
            }) + (if self.error_history_len > 0 {
                self.error_history_len + 1
            } else {
                0
            }),
    {
        self.law_baseline(objects, capacity);
        let list = self.list();
        let base = self.base();
        let b = 8int;
        let m = b + self.name().len();
        assert(base.len() == 8);
        assert forall|i: int| 0 <= i < 8 implies list[i] == base[i] by {}
        assert(list[0].0 == at(0x1000, 0) && list[1].0 == at(0x1001, 0) && list[2].0 == at(
            0x1017,
            0,
        ) && list[3].0 == at(0x1018, 0) && list[4].0 == at(0x1018, 1));
        assert(list[5].0 == at(0x1018, 2) && list[6].0 == at(0x1018, 3) && list[7].0 == at(
            0x1018,
            4,
        ));
        if self.device_name is Some {
            assert(list[8] == self.name()[0]);
        }
        if a.index == 0x1003 && a.subindex < self.error_field_len() {
            assert(list[m + a.subindex] == Self::error_field(
                self.error_field_len(),
            )[a.subindex as int]);
        }
        if lists(list, a) {
            let i = choose|i: int| 0 <= i < list.len() && (#[trigger] list[i]).0 == a;
            if i < 8 {
                assert(list[i] == base[i]);
            } else if i < m {
                assert(list[i] == self.name()[i - 8]);
            } else {
                assert(list[i] == Self::error_field(self.error_field_len())[i - m]);
            }
        }
    }

    /// A baseline with the given device type and identity, no heartbeat, and no
    /// pre-defined error field. Refine with [`with_heartbeat`](Self::with_heartbeat)
    /// and [`with_error_history`](Self::with_error_history).
    pub fn new(device_type: u32, identity: LssAddress) -> (s: Self)
        ensures
            s == (StandardObjects {
                device_type,
                identity,
                producer_heartbeat_ms: 0,
                error_history_len: 0,
                device_name: None,
            }),
    {
        Self {
            device_type,
            identity,
            producer_heartbeat_ms: 0,
            error_history_len: 0,
            device_name: None,
        }
    }

    /// Set the producer heartbeat time (`0x1017`), in milliseconds.
    pub fn with_heartbeat(self, ms: u16) -> (s: Self)
        ensures
            s == (StandardObjects { producer_heartbeat_ms: ms, ..self }),
    {
        Self { producer_heartbeat_ms: ms, ..self }
    }

    /// Pre-allocate `entries` sub-entries of the pre-defined error field
    /// (`0x1003`) so [`Node::raise_emergency`](crate::node::Node::raise_emergency)
    /// can mirror the error history into the dictionary.
    pub fn with_error_history(self, entries: u8) -> (s: Self)
        ensures
            s == (StandardObjects { error_history_len: entries, ..self }),
    {
        Self { error_history_len: entries, ..self }
    }

    /// Set the device name (`0x1008`, a `VISIBLE_STRING`), truncated to
    /// [`MAX_STRING_LEN`] bytes.
    pub fn with_device_name(self, name: &str) -> (s: Self)
        ensures
            s.device_name matches Some(b) && b.wf() && b@ == if name.spec_bytes().len()
                > MAX_STRING_LEN {
                name.spec_bytes().take(MAX_STRING_LEN as int)
            } else {
                name.spec_bytes()
            },
            s == (StandardObjects { device_name: s.device_name, ..self }),
    {
        let bytes: &[u8] = name.as_bytes();
        let end: usize = if bytes.len() > MAX_STRING_LEN {
            MAX_STRING_LEN
        } else {
            bytes.len()
        };
        let kept: &[u8] = &bytes[0..end];
        assert(kept@ =~= if name.spec_bytes().len() > MAX_STRING_LEN {
            name.spec_bytes().take(MAX_STRING_LEN as int)
        } else {
            name.spec_bytes()
        });
        // `end` is at most MAX_STRING_LEN, so from_bytes cannot fail.
        Self { device_name: ByteString::from_bytes(kept).ok(), ..self }
    }

    /// The objects to insert, in order.
    fn entries(&self) -> (v: Vec<(Address, Entry)>)
        ensures
            v@ == self.list(),
    {
        let mut v: Vec<(Address, Entry)> = Vec::new();
        // 0x1000 device type, 0x1001 error register, 0x1017 heartbeat time.
        v.push((Address::new(0x1000, 0), Entry::constant(Value::Unsigned32(self.device_type))));
        v.push((Address::new(0x1001, 0), Entry::ro(Value::Unsigned8(0))));
        v.push(
            (Address::new(0x1017, 0), Entry::rw(Value::Unsigned16(self.producer_heartbeat_ms))),
        );
        // 0x1018 identity record: sub 0 = highest sub-index (4), then the four
        // 32-bit identity values.
        let id = &self.identity;
        v.push((Address::new(0x1018, 0), Entry::constant(Value::Unsigned8(4))));
        v.push((Address::new(0x1018, 1), Entry::constant(Value::Unsigned32(id.vendor_id))));
        v.push((Address::new(0x1018, 2), Entry::constant(Value::Unsigned32(id.product_code))));
        v.push((Address::new(0x1018, 3), Entry::constant(Value::Unsigned32(id.revision_number))));
        v.push((Address::new(0x1018, 4), Entry::constant(Value::Unsigned32(id.serial_number))));
        assert(v@ =~= self.base());
        // 0x1008 manufacturer device name (optional).
        if let Some(name) = self.device_name {
            v.push((Address::new(0x1008, 0), Entry::constant(Value::VisibleString(name))));
        }
        let ghost front = v@;
        assert(front =~= self.base() + self.name());
        // 0x1003 pre-defined error field: sub 0 is the writable count, subs 1..
        // hold the recorded error codes.
        if self.error_history_len > 0 {
            v.push((Address::new(0x1003, 0), Entry::rw(Value::Unsigned8(0))));
            let mut sub: u8 = 0;
            assert(v@ =~= front + Self::error_field(1));
            while sub < self.error_history_len
                invariant
                    sub <= self.error_history_len,
                    v@ == front + Self::error_field(sub as nat + 1),
                decreases self.error_history_len - sub,
            {
                let ghost before = v@;
                sub += 1;
                v.push((Address::new(0x1003, sub), Entry::ro(Value::Unsigned32(0))));
                assert(v@ =~= front + Self::error_field(sub as nat + 1));
            }
        }
        assert(v@ =~= self.list());
        v
    }

    /// Insert the objects into `od`.
    ///
    /// Returns [`Error::DictionaryFull`](crate::Error::DictionaryFull) if the
    /// dictionary lacks capacity — it needs room for the 9 base objects, the
    /// optional device name, and the error-history entries plus their count
    /// sub-index. Existing objects at these addresses are overwritten, so what
    /// counts is the room beside the objects at other addresses. A dictionary
    /// that lacks it still gets the objects, in order, as far as they go in.
    pub fn insert_into<const N: usize>(&self, od: &mut ObjectDictionary<N>) -> (r: Result<()>)
        requires
            old(od).wf(),
        ensures
            final(od).wf(),
            final(od)@ == inserted(old(od)@, self.list(), N as nat).0,
            r == if self.fits(old(od)@, N as nat) {
                Ok(())
            } else {
                Err(Error::DictionaryFull)
            },
            (forall|i: int|
                0 <= i < self.list().len() ==> !old(od)@.dom().contains(
                    (#[trigger] self.list()[i]).0,
                )) ==> (r is Ok <==> old(od)@.dom().len() + self.room() <= N),
    {
        let list = self.entries();
        proof {
            if forall|i: int|
                0 <= i < list@.len() ==> !od@.dom().contains((#[trigger] list@[i]).0) {
                lemma_none_held(od@, list@);
            }
        }
        // The room that the base objects are given is one place more than they take.
        let missing: usize = list.len() - od.count_held(list.as_slice());
        let fits = missing < N - od.len();
        let _ = od.insert_all(list.as_slice());
        if fits {
            Ok(())
        } else {
            Err(Error::DictionaryFull)
        }
    }
}

} // verus!
