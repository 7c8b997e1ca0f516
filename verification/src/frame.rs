//! The eight-byte CAN data field.
use vstd::prelude::*;

verus! {

/// `bytes` filled up with zeros to the eight bytes of a CAN data field.
pub open spec fn padded(bytes: Seq<u8>) -> Seq<u8> {
    bytes + Seq::new((8 - bytes.len()) as nat, |i: int| 0u8)
}

/// Fill up to eight bytes with zeros to a CAN data field.
pub fn pad8(bytes: &[u8]) -> (frame: [u8; 8])
    requires
        bytes@.len() <= 8,
    ensures
        frame@ == padded(bytes@),
{
    let mut frame = [0u8; 8];
    let mut i: usize = 0;
    while i < bytes.len()
        invariant
            i <= bytes@.len() <= 8,
            forall|j: int| 0 <= j < i ==> frame@[j] == bytes@[j],
            forall|j: int| i <= j < 8 ==> frame@[j] == 0,
        decreases bytes@.len() - i,
    {
        frame[i] = bytes[i];
        i += 1;
    }
    assert(frame@ =~= padded(bytes@));
    frame
}

/// What a frame carries.
pub struct Frame {
    pub cob_id: u16,
    pub data: Seq<u8>,
}

/// Up to eight data bytes. Its view is those bytes.
#[derive(Debug, Clone, Copy, PartialEq, Eq)]
pub struct Payload {
    data: [u8; 8],
    len: u8,
}

impl View for Payload {
    type V = Seq<u8>;

    closed spec fn view(&self) -> Seq<u8> {
        self.data@.subrange(0, self.len as int)
    }
}

/// The first eight of the bytes given.
pub open spec fn clamped(bytes: Seq<u8>) -> Seq<u8> {
    if bytes.len() > 8 {
        bytes.take(8)
    } else {
        bytes
    }
}

impl Payload {
    /// The length is within the buffer, and the rest of the buffer is zero.
    #[verifier::type_invariant]
    spec fn bounded(self) -> bool {
        &&& self.len <= 8
        &&& forall|i: int| self.len <= i < 8 ==> self.data@[i] == 0
    }

    /// The first eight of the bytes given.
    pub fn new(bytes: &[u8]) -> (p: Payload)
        ensures
            p@ == clamped(bytes@),
    {
        let len: usize = if bytes.len() < 8 {
            bytes.len()
        } else {
            8
        };
        let data = pad8(&bytes[0..len]);
        let p = Payload { data, len: len as u8 };
        assert(p@ =~= clamped(bytes@));
        p
    }

    /// The bytes.
    pub fn bytes(&self) -> (b: &[u8])
        ensures
            b@ == self@,
            b@.len() <= 8,
    {
        proof {
            use_type_invariant(self);
        }
        &self.data[0..self.len as usize]
    }

    /// All eight bytes, filled up with zeros.
    pub fn padded(&self) -> (b: &[u8; 8])
        ensures
            b@ == padded(self@),
    {
        proof {
            use_type_invariant(self);
            assert(self.data@ =~= padded(self@));
        }
        &self.data
    }
}

/// Padding keeps the bytes and fills up to eight with zeros; clamping keeps the
/// first eight and drops the rest.
pub proof fn law_padding(bytes: Seq<u8>, i: int)
    ensures
        bytes.len() <= 8 ==> padded(bytes).len() == 8,
        bytes.len() <= 8 && 0 <= i < 8 ==> padded(bytes)[i] == if i < bytes.len() {
            bytes[i]
        } else {
            0
        },
        clamped(bytes).len() == if bytes.len() < 8 {
            bytes.len()
        } else {
            8
        },
        0 <= i < clamped(bytes).len() ==> clamped(bytes)[i] == bytes[i],
{
}

} // verus!
