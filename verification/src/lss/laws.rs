//! What LSS guarantees: selection by address, and discovery by Fastscan.
use vstd::arithmetic::power2::{lemma2_to64, lemma_pow2_pos, lemma_pow2_unfold, pow2};
use vstd::prelude::*;

use crate::little_endian::{four_bytes, law_bytes_make_up_the_number, le_bytes};
use crate::lss::{
    agree_from, command, command_u32, command_u8, lemma_command_u32, lemma_fastscan_frame,
    number_in, selective_frame, LssAddress, LssState, Scan, Slave, CS_CONFIGURE_NODE_ID, CS_INQUIRE_NODE_ID, CS_INQUIRE_VENDOR,
    CS_STORE_CONFIGURATION, CS_SWITCH_GLOBAL, CS_SWITCH_SELECTIVE_RESPONSE,
    CS_SWITCH_SELECTIVE_VENDOR, FASTSCAN_INIT, MODE_CONFIGURATION, MODE_WAITING,
    UNCONFIGURED_NODE_ID,
};

verus! {

/// A node that received the four messages which select `address`.
pub open spec fn selected(s: Slave, address: LssAddress) -> Slave {
    s.handle(selective_frame(address, 0)).0.handle(selective_frame(address, 1)).0.handle(
        selective_frame(address, 2),
    ).0.handle(selective_frame(address, 3)).0
}

/// The answer of a node to the last of the four messages which select
/// `address`.
pub open spec fn selection_answer(s: Slave, address: LssAddress) -> Option<Seq<u8>> {
    s.handle(selective_frame(address, 0)).0.handle(selective_frame(address, 1)).0.handle(
        selective_frame(address, 2),
    ).0.handle(selective_frame(address, 3)).1
}

/// A selective switch brings exactly the node with that address into the
/// configuration state, from any earlier state, and only that node confirms
/// it. The identity and the node-ids of every node stay as they were.
pub proof fn law_selective_switch(s: Slave, address: LssAddress)
    ensures
        selected(s, address) == (Slave {
            selective: 0,
            state: if s.address == address {
                LssState::Configuration
            } else {
                s.state
            },
            ..s
        }),
        selection_answer(s, address) == if s.address == address {
            Some(command(CS_SWITCH_SELECTIVE_RESPONSE))
        } else {
            None
        },
{
    lemma_command_u32(CS_SWITCH_SELECTIVE_VENDOR, address.part(0));
    lemma_command_u32((CS_SWITCH_SELECTIVE_VENDOR + 1) as u8, address.part(1));
    lemma_command_u32((CS_SWITCH_SELECTIVE_VENDOR + 2) as u8, address.part(2));
    lemma_command_u32((CS_SWITCH_SELECTIVE_VENDOR + 3) as u8, address.part(3));
}

/// A global switch puts every node into the requested state, without an answer.
pub proof fn law_global_switch(s: Slave, configuration: bool)
    ensures
        ({
            let mode = if configuration {
                MODE_CONFIGURATION
            } else {
                MODE_WAITING
            };
            s.handle(command_u8(CS_SWITCH_GLOBAL, mode)) == (
                Slave {
                    selective: 0,
                    state: if configuration {
                        LssState::Configuration
                    } else {
                        LssState::Waiting
                    },
                    ..s
                },
                None::<Seq<u8>>,
            )
        }),
{
}

/// In the waiting state a node ignores every configuration service: nothing
/// changes and nothing is answered.
pub proof fn law_waiting_ignores_configuration(s: Slave, req: Seq<u8>)
    requires
        s.state == LssState::Waiting,
        req[0] == CS_CONFIGURE_NODE_ID || req[0] == CS_STORE_CONFIGURATION || CS_INQUIRE_VENDOR
            <= req[0] <= CS_INQUIRE_NODE_ID,
    ensures
        s.handle(req) == (s, None::<Seq<u8>>),
{
}

/// A node-id assigned in the configuration state takes effect on the next
/// reset if it is valid, and is refused otherwise; the active node-id does not
/// change meanwhile.
pub proof fn law_configure_node_id(s: Slave, id: u8)
    requires
        s.state == LssState::Configuration,
    ensures
        ({
            let valid = 1 <= id <= 127 || id == UNCONFIGURED_NODE_ID;
            let (after, answer) = s.handle(command_u8(CS_CONFIGURE_NODE_ID, id));
            &&& after.pending_node_id == if valid {
                id
            } else {
                s.pending_node_id
            }
            &&& after.node_id == s.node_id
            &&& answer == Some(
                command_u8(
                    CS_CONFIGURE_NODE_ID,
                    if valid {
                        0
                    } else {
                        1
                    },
                ),
            )
        }),
{
}

/// The frames of the master, byte for byte: a global switch, the four messages of
/// a selective switch, the assignment of a node-id, the store request and the
/// inquiry of the node-id. All eight bytes that carry nothing are zero.
pub proof fn law_master_frames(address: LssAddress, id: u8)
    ensures
        command_u8(CS_SWITCH_GLOBAL, MODE_CONFIGURATION) == seq![4u8, 1, 0, 0, 0, 0, 0, 0],
        command_u8(CS_SWITCH_GLOBAL, MODE_WAITING) == seq![4u8, 0, 0, 0, 0, 0, 0, 0],
        command_u8(CS_CONFIGURE_NODE_ID, id) == seq![0x11u8, id, 0, 0, 0, 0, 0, 0],
        command(CS_STORE_CONFIGURATION) == seq![0x17u8, 0, 0, 0, 0, 0, 0, 0],
        command(CS_INQUIRE_NODE_ID) == seq![0x5Eu8, 0, 0, 0, 0, 0, 0, 0],
        carries(selective_frame(address, 0), 0x40, address.vendor_id),
        carries(selective_frame(address, 1), 0x41, address.product_code),
        carries(selective_frame(address, 2), 0x42, address.revision_number),
        carries(selective_frame(address, 3), 0x43, address.serial_number),
{
    assert(command_u8(CS_SWITCH_GLOBAL, MODE_CONFIGURATION) =~= seq![4u8, 1, 0, 0, 0, 0, 0, 0]);
    assert(command_u8(CS_SWITCH_GLOBAL, MODE_WAITING) =~= seq![4u8, 0, 0, 0, 0, 0, 0, 0]);
    assert(command_u8(CS_CONFIGURE_NODE_ID, id) =~= seq![0x11u8, id, 0, 0, 0, 0, 0, 0]);
    assert(command(CS_STORE_CONFIGURATION) =~= seq![0x17u8, 0, 0, 0, 0, 0, 0, 0]);
    assert(command(CS_INQUIRE_NODE_ID) =~= seq![0x5Eu8, 0, 0, 0, 0, 0, 0, 0]);
    lemma_carries(0x40, address.vendor_id);
    lemma_carries(0x41, address.product_code);
    lemma_carries(0x42, address.revision_number);
    lemma_carries(0x43, address.serial_number);
}

/// Whether a frame holds the command `cs` in byte 0, the number `x` in bytes 1 to
/// 4, least significant first, and zeros behind it.
pub open spec fn carries(f: Seq<u8>, cs: u8, x: u32) -> bool {
    &&& f.len() == 8
    &&& f[0] == cs
    &&& four_bytes(f[1], f[2], f[3], f[4]) == x
    &&& f[5] == 0 && f[6] == 0 && f[7] == 0
}

proof fn lemma_carries(cs: u8, x: u32)
    ensures
        carries(command_u32(cs, x), cs, x),
{
    let f = command_u32(cs, x);
    let b = le_bytes(x as nat, 4);
    law_bytes_make_up_the_number(0, x, b);
    assert(f[1] == b[0] && f[2] == b[1] && f[3] == b[2] && f[4] == b[3]);
}

/// The number in bytes 1 to 4 of a frame is made up of those bytes.
proof fn lemma_number_in(f: Seq<u8>)
    requires
        f.len() == 8,
    ensures
        number_in(f) == four_bytes(f[1], f[2], f[3], f[4]),
{
    let s = f.subrange(1, 5);
    law_bytes_make_up_the_number(0, 0, s);
    assert(s[0] == f[1] && s[1] == f[2] && s[2] == f[3] && s[3] == f[4]);
}

/// In the configuration state the four inquiries `0x5A` to `0x5D` are answered
/// with the vendor id, the product code, the revision number and the serial
/// number, so that the four answers together give the address; `0x5E` is answered
/// with the active node-id. Nothing changes by it.
pub proof fn law_inquiries_give_the_address(s: Slave, req: Seq<u8>)
    requires
        s.state == LssState::Configuration,
        req.len() == 8,
    ensures
        0x5A <= req[0] <= 0x5E ==> s.handle(req).0 == s && s.handle(req).1 is Some,
        req[0] == 0x5A ==> carries(s.handle(req).1->0, 0x5A, s.address.vendor_id),
        req[0] == 0x5B ==> carries(s.handle(req).1->0, 0x5B, s.address.product_code),
        req[0] == 0x5C ==> carries(s.handle(req).1->0, 0x5C, s.address.revision_number),
        req[0] == 0x5D ==> carries(s.handle(req).1->0, 0x5D, s.address.serial_number),
        req[0] == 0x5E ==> carries(s.handle(req).1->0, 0x5E, s.node_id as u32),
{
    lemma_carries(0x5A, s.address.vendor_id);
    lemma_carries(0x5B, s.address.product_code);
    lemma_carries(0x5C, s.address.revision_number);
    lemma_carries(0x5D, s.address.serial_number);
}

/// What each request does, by its bytes. `0x04` switches every node by byte 1.
/// `0x11` assigns, in the configuration state, the node-id in byte 1, which must
/// be from 1 to 127 or 255, and tells in byte 1 of the answer whether it was
/// refused. `0x17` is confirmed there. A command that is none of these, nor a
/// selective switch, an inquiry or a Fastscan, changes nothing and is not
/// answered, and outside the configuration state neither are the others.
pub proof fn law_requests_by_their_bytes(s: Slave, req: Seq<u8>)
    requires
        req.len() == 8,
    ensures
        req[0] == 0x04 ==> s.handle(req) == (
            Slave {
                selective: 0,
                state: if req[1] == 1 {
                    LssState::Configuration
                } else {
                    LssState::Waiting
                },
                ..s
            },
            None::<Seq<u8>>,
        ),
        req[0] == 0x11 && s.state == LssState::Configuration ==> ({
            let (after, answer) = s.handle(req);
            if 1 <= req[1] <= 127 || req[1] == 255 {
                &&& after == (Slave { pending_node_id: req[1], ..s })
                &&& answer matches Some(a) && carries(a, 0x11, 0)
            } else {
                &&& after == s
                &&& answer matches Some(a) && carries(a, 0x11, 1)
            }
        }),
        req[0] == 0x17 && s.state == LssState::Configuration ==> {
            &&& s.handle(req).0 == s
            &&& s.handle(req).1 matches Some(a) && carries(a, 0x17, 0)
        },
        req[0] != 0x04 && !(0x40 <= req[0] <= 0x43) && req[0] != 0x51 && (s.state
            == LssState::Waiting || (req[0] != 0x11 && req[0] != 0x17 && !(0x5A <= req[0]
            <= 0x5E))) ==> s.handle(req) == (s, None::<Seq<u8>>),
{
}

/// The four messages `0x40` to `0x43` of a selective switch carry the vendor id,
/// the product code, the revision number and the serial number. Each counts when
/// it holds the node's own value and follows the one before it; any other starts
/// the selection over. The last one that counts switches the node into the
/// configuration state, and it alone is answered, with `0x44`.
pub proof fn law_selection_by_its_bytes(s: Slave, req: Seq<u8>)
    requires
        req.len() == 8,
        0x40 <= req[0] <= 0x43,
    ensures
        ({
            let x = four_bytes(req[1], req[2], req[3], req[4]);
            let own = if req[0] == 0x40 {
                s.address.vendor_id
            } else if req[0] == 0x41 {
                s.address.product_code
            } else if req[0] == 0x42 {
                s.address.revision_number
            } else {
                s.address.serial_number
            };
            let counts = x == own && (req[0] == 0x40 || s.selective == req[0] - 0x40);
            let (after, answer) = s.handle(req);
            if counts && req[0] == 0x43 {
                &&& after == (Slave { selective: 0, state: LssState::Configuration, ..s })
                &&& answer matches Some(a) && carries(a, 0x44, 0)
            } else {
                &&& after.selective == if counts {
                    req[0] - 0x3F
                } else {
                    0
                }
                &&& after == (Slave { selective: after.selective, ..s })
                &&& answer is None
            }
        }),
{
    lemma_number_in(req);
}

/// A Fastscan request is for the nodes that wait without a node-id: any other
/// ignores it. A check of bit 32 or above is answered by each of them and starts
/// the scan over. A check of bit `b` is answered by a node that is at the identity
/// value in byte 6 and whose own value agrees with the number in bytes 1 to 4 in
/// all bits from `b` on. Where all bits are checked and byte 7 names another value,
/// the node that answers goes on to that one, or, from the serial number, into the
/// configuration state. Every answer is `0x4F`.
pub proof fn law_fastscan_by_its_bytes(s: Slave, req: Seq<u8>)
    requires
        req.len() == 8,
        req[0] == 0x51,
    ensures
        ({
            let (after, answer) = s.handle(req);
            let x = four_bytes(req[1], req[2], req[3], req[4]);
            let own = if req[6] == 0 {
                s.address.vendor_id
            } else if req[6] == 1 {
                s.address.product_code
            } else if req[6] == 2 {
                s.address.revision_number
            } else {
                s.address.serial_number
            };
            let agrees = x / pow2(req[5] as nat) as int == own as int / pow2(req[5] as nat) as int;
            let confirmed = req[5] == 0 && req[7] != req[6];
            if s.node_id != 255 || s.state != LssState::Waiting {
                after == s && answer is None
            } else if req[5] >= 32 {
                &&& after == (Slave { fs_sub: 0, ..s })
                &&& answer matches Some(a) && carries(a, 0x4F, 0)
            } else if req[6] == s.fs_sub && agrees {
                &&& answer matches Some(a) && carries(a, 0x4F, 0)
                &&& after.state == if confirmed && req[6] >= 3 {
                    LssState::Configuration
                } else {
                    LssState::Waiting
                }
                &&& after.fs_sub == if confirmed && req[6] < 3 {
                    req[7]
                } else {
                    s.fs_sub
                }
                &&& after == (Slave { state: after.state, fs_sub: after.fs_sub, ..s })
            } else {
                after == s && answer is None
            }
        }),
{
    lemma_number_in(req);
    lemma_pow2_pos(req[5] as nat);
}

/// The requests of a scan, byte for byte: the probe checks bit 32; a bit check
/// holds the value found so far, the bit and the number of the value, twice; the
/// confirmation of a value checks all its bits and names the value after it. The
/// bits are tested from 31 down, the values in the order of the address.
pub proof fn law_scan_by_its_bytes(scan: Scan, responded: bool)
    requires
        scan.wf(),
        !scan.complete(),
    ensures
        ({
            let f = scan.request();
            &&& f.len() == 8
            &&& f[0] == 0x51
            &&& scan.bit == -2 ==> f[1] == 0 && f[2] == 0 && f[3] == 0 && f[4] == 0 && f[5] == 32
                && f[6] == 0 && f[7] == 0
            &&& scan.bit > -2 ==> four_bytes(f[1], f[2], f[3], f[4]) == scan.id[scan.sub] && f[6]
                == scan.sub
            &&& scan.bit >= 0 ==> f[5] == scan.bit && f[7] == scan.sub
            &&& scan.bit == -1 ==> f[5] == 0 && f[7] == if scan.sub == 3 {
                0
            } else {
                scan.sub + 1
            }
        }),
        scan.bit == -2 && responded ==> scan.after(responded) == (Scan {
            found: true,
            bit: 31,
            ..scan
        }),
        scan.bit == -2 && !responded ==> scan.after(responded).sub == 4 && !scan.after(
            responded,
        ).found == !scan.found,
        scan.bit == -1 ==> scan.after(responded) == (Scan { sub: scan.sub + 1, bit: 31, ..scan }),
        scan.bit >= 0 ==> scan.after(responded).id[scan.sub] == scan.id[scan.sub] + (if responded {
            0
        } else {
            pow2(scan.bit as nat) as int
        }) && scan.after(responded) == (Scan {
            id: scan.id.update(scan.sub, scan.after(responded).id[scan.sub]),
            bit: scan.bit - 1,
            ..scan
        }),
{
    let f = scan.request();
    let x = if scan.bit == -2 {
        0
    } else {
        scan.id[scan.sub]
    };
    let b = le_bytes(x as nat, 4);
    law_bytes_make_up_the_number(0, x, b);
    assert(f[1] == b[0] && f[2] == b[1] && f[3] == b[2] && f[4] == b[3]);
    if scan.bit >= 0 {
        assert(scan.accepts(responded));
        scan.lemma_after(responded);
        let next = scan.after(responded);
        assert(next.id =~= scan.id.update(scan.sub, next.id[scan.sub]));
    }
}

/// No request changes a node's identity or its active node-id.
pub proof fn law_requests_keep_identity(s: Slave, req: Seq<u8>)
    ensures
        s.handle(req).0.address == s.address,
        s.handle(req).0.node_id == s.node_id,
{
}

/// Some node on the bus answers the request.
pub open spec fn answered(slaves: Seq<Slave>, req: Seq<u8>) -> bool {
    exists|i: int| 0 <= i < slaves.len() && (#[trigger] slaves[i]).handle(req).1 is Some
}

/// One exchange of a scan: the request reaches every node, and the master
/// learns whether any of them answered.
pub open spec fn exchange(scan: Scan, slaves: Seq<Slave>) -> (Scan, Seq<Slave>) {
    (
        scan.after(answered(slaves, scan.request())),
        Seq::new(slaves.len(), |i: int| slaves[i].handle(scan.request()).0),
    )
}

/// The scan and the nodes when the scan has run to its end.
pub open spec fn run(scan: Scan, slaves: Seq<Slave>) -> (Scan, Seq<Slave>)
    decreases scan.remaining(),
{
    if !scan.wf() || scan.complete() {
        (scan, slaves)
    } else {
        proof {
            scan.lemma_after(answered(slaves, scan.request()));
        }
        let (next, after) = exchange(scan, slaves);
        run(next, after)
    }
}

/// The first `n` values of the identity are those that the scan determined.
spec fn matches_upto(a: LssAddress, id: Seq<u32>, n: int) -> bool {
    forall|j: int| 0 <= j < n ==> a.part(j) == #[trigger] id[j]
}

/// The node whose identity the scan is converging on.
spec fn candidate(scan: Scan, s: Slave) -> bool {
    &&& s.fs_sub == scan.sub
    &&& scan.id[scan.sub] <= s.address.part(scan.sub) < scan.id[scan.sub] + pow2(
        (scan.bit + 1) as nat,
    )
}

/// What the exchanges of a scan keep, once a node has answered the probe.
spec fn scanning(scan: Scan, before: Seq<Slave>, slaves: Seq<Slave>) -> bool {
    &&& scan.wf()
    &&& !scan.complete()
    &&& scan.bit >= -1
    &&& scan.found
    &&& before.len() == slaves.len()
    &&& forall|i: int| #![trigger slaves[i]]
        0 <= i < slaves.len() && !before[i].scannable() ==> slaves[i] == before[i]
    &&& forall|i: int| #![trigger slaves[i]]
        0 <= i < slaves.len() && before[i].scannable() ==> {
            &&& slaves[i].scannable()
            &&& slaves[i].address == before[i].address
            &&& slaves[i].fs_sub <= scan.sub
            &&& slaves[i].fs_sub == scan.sub <==> matches_upto(
                before[i].address,
                scan.id,
                scan.sub,
            )
        }
    &&& exists|w: int|
        0 <= w < slaves.len() && (#[trigger] before[w]).scannable() && candidate(scan, slaves[w])
}

/// What holds when a scan has ended.
spec fn discovered(scan: Scan, before: Seq<Slave>, slaves: Seq<Slave>) -> bool {
    &&& scan.complete()
    &&& scan.found
    &&& before.len() == slaves.len()
    &&& exists|w: int|
        0 <= w < before.len() && (#[trigger] before[w]).scannable() && before[w].address
            == scan.address()
    &&& forall|i: int| #![trigger slaves[i]]
        0 <= i < slaves.len() && !before[i].scannable() ==> slaves[i] == before[i]
    &&& forall|i: int| #![trigger slaves[i]]
        0 <= i < slaves.len() && before[i].scannable() ==> (slaves[i].state
            == LssState::Configuration <==> before[i].address == scan.address())
}

/// A candidate whose low bits are zero agrees with a value from `bit` on
/// exactly when the value lies in the range of `2^bit` numbers above it.
proof fn lemma_agree(id: u32, x: u32, bit: nat)
    requires
        id as int % pow2(bit) as int == 0,
    ensures
        agree_from(id, x, bit) <==> id <= x < id + pow2(bit),
{
    lemma_pow2_pos(bit);
    let p = pow2(bit) as int;
    let q = id as int / p;
    let k = x as int / p;
    vstd::arithmetic::div_mod::lemma_fundamental_div_mod(id as int, p);
    vstd::arithmetic::div_mod::lemma_fundamental_div_mod(x as int, p);
    assert(id == p * q);
    if k == q {
        assert(id <= x < id + p);
    }
    if id <= x < id + p {
        assert(k == q) by (nonlinear_arith)
            requires
                p * q <= x < p * q + p,
                x == p * k + x as int % p,
                0 <= x as int % p < p,
                p > 0,
        ;
    }
}

/// One bit test halves the range that the candidate's identity lies in.
proof fn lemma_bit_test(scan: Scan, before: Seq<Slave>, slaves: Seq<Slave>)
    requires
        scanning(scan, before, slaves),
        scan.bit >= 0,
    ensures
        scanning(exchange(scan, slaves).0, before, exchange(scan, slaves).1),
{
    let req = scan.request();
    let responded = answered(slaves, req);
    let (next, after) = exchange(scan, slaves);
    let b = scan.bit as nat;
    let sub = scan.sub;
    let id = scan.id[sub];
    scan.lemma_after(responded);
    lemma_fastscan_frame(id, b as u8, sub as u8, sub as u8);
    lemma_pow2_unfold(b + 1);
    lemma_pow2_pos(b);
    let p = pow2(b) as int;
    assert(id as int % p == 0) by {
        let q = id as int / (2 * p);
        vstd::arithmetic::div_mod::lemma_fundamental_div_mod(id as int, 2 * p);
        assert(id == (2 * q) * p) by (nonlinear_arith)
            requires
                id == (2 * p) * q,
        ;
        vstd::arithmetic::div_mod::lemma_mod_multiples_basic(2 * q, p);
    }
    assert forall|i: int| 0 <= i < slaves.len() implies {
        &&& after[i] == slaves[i]
        &&& slaves[i].handle(req).1 is Some <==> slaves[i].scannable() && slaves[i].fs_sub == sub
            && id <= slaves[i].address.part(sub) < id + p
    } by {
        lemma_agree(id, slaves[i].address.part(sub), b);
    }
    assert(after =~= slaves);
    let w = choose|w: int|
        0 <= w < slaves.len() && (#[trigger] before[w]).scannable() && candidate(scan, slaves[w]);
    assert forall|i: int|
        #![trigger after[i]]
        0 <= i < after.len() && before[i].scannable() implies (after[i].fs_sub == next.sub
        <==> matches_upto(before[i].address, next.id, next.sub)) by {
        assert forall|j: int| 0 <= j < sub implies next.id[j] == scan.id[j] by {}
        assert(matches_upto(before[i].address, next.id, sub) <==> matches_upto(
            before[i].address,
            scan.id,
            sub,
        )) by {
            assert forall|j: int| 0 <= j < sub implies (before[i].address.part(j) == next.id[j]
                <==> before[i].address.part(j) == scan.id[j]) by {}
        }
    }
    if responded {
        let i = choose|i: int| 0 <= i < slaves.len() && (#[trigger] slaves[i]).handle(req).1 is Some;
        assert(before[i].scannable());
        assert(candidate(next, after[i]));
    } else {
        assert(slaves[w].handle(req).1 is None);
        assert(id + p <= slaves[w].address.part(sub));
        assert(before[w].scannable() && candidate(next, after[w]));
    }
}

/// The confirmation of a value moves exactly the nodes on that match it.
proof fn lemma_confirm(scan: Scan, before: Seq<Slave>, slaves: Seq<Slave>)
    requires
        scanning(scan, before, slaves),
        scan.bit == -1,
    ensures
        scan.sub < 3 ==> scanning(exchange(scan, slaves).0, before, exchange(scan, slaves).1),
        scan.sub == 3 ==> discovered(exchange(scan, slaves).0, before, exchange(scan, slaves).1),
{
    let req = scan.request();
    let responded = answered(slaves, req);
    let (next, after) = exchange(scan, slaves);
    let sub = scan.sub;
    let id = scan.id[sub];
    scan.lemma_after(responded);
    lemma_fastscan_frame(id, 0, sub as u8, ((sub + 1) % 4) as u8);
    lemma2_to64();
    assert forall|i: int| 0 <= i < slaves.len() implies after[i] == slaves[i].handle(req).0 by {}
    assert forall|i: int|
        #![trigger slaves[i]]
        0 <= i < slaves.len() && before[i].scannable() implies (matches_upto(
        before[i].address,
        scan.id,
        sub + 1,
    ) <==> slaves[i].fs_sub == sub && slaves[i].address.part(sub) == id) by {
        let a = before[i].address;
        if matches_upto(a, scan.id, sub + 1) {
            assert(a.part(sub) == scan.id[sub]);
            assert(matches_upto(a, scan.id, sub));
        }
    }
    assert forall|i: int| 0 <= i < slaves.len() implies agree_from(
        id,
        (#[trigger] slaves[i]).address.part(sub),
        0,
    ) == (id == slaves[i].address.part(sub)) by {
        lemma_agree(id, slaves[i].address.part(sub), 0);
    }
    let w = choose|w: int|
        0 <= w < slaves.len() && (#[trigger] before[w]).scannable() && candidate(scan, slaves[w]);
    assert(slaves[w].address.part(sub) == id);
    assert(matches_upto(before[w].address, scan.id, sub + 1));
    if sub < 3 {
        assert(next.id[next.sub] == 0);
        assert(candidate(next, after[w]));
        assert(before[w].scannable() && candidate(next, after[w]));
    } else {
        assert forall|i: int|
            #![trigger slaves[i]]
            0 <= i < slaves.len() && before[i].scannable() implies (matches_upto(
            before[i].address,
            scan.id,
            4,
        ) <==> before[i].address == scan.address()) by {
            let a = before[i].address;
            if matches_upto(a, scan.id, 4) {
                assert(a.part(0) == scan.id[0]);
                assert(a.part(1) == scan.id[1]);
                assert(a.part(2) == scan.id[2]);
                assert(a.part(3) == scan.id[3]);
            }
        }
        assert(before[w].address == next.address());
        assert forall|i: int|
            #![trigger after[i]]
            0 <= i < after.len() && before[i].scannable() implies (after[i].state
            == LssState::Configuration <==> before[i].address == next.address()) by {
            assert(after[i] == slaves[i].handle(req).0);
        }
    }
}

/// A scan that has found a node runs on to its discovery.
proof fn lemma_scan(scan: Scan, before: Seq<Slave>, slaves: Seq<Slave>)
    requires
        scanning(scan, before, slaves),
    ensures
        discovered(run(scan, slaves).0, before, run(scan, slaves).1),
    decreases scan.remaining(),
{
    let responded = answered(slaves, scan.request());
    scan.lemma_after(responded);
    let (next, after) = exchange(scan, slaves);
    if scan.bit >= 0 {
        lemma_bit_test(scan, before, slaves);
        lemma_scan(next, before, after);
    } else {
        lemma_confirm(scan, before, slaves);
        if scan.sub < 3 {
            lemma_scan(next, before, after);
        } else {
            assert(run(next, after) == (next, after));
        }
    }
}

/// The initial probe reaches every unconfigured node that waits, and no other.
proof fn lemma_probe(slaves: Seq<Slave>)
    ensures
        ({
            let req = Scan::start().request();
            &&& forall|i: int|
                #![trigger slaves[i]]
                0 <= i < slaves.len() ==> {
                    &&& slaves[i].handle(req).1 is Some <==> slaves[i].scannable()
                    &&& slaves[i].handle(req).0 == if slaves[i].scannable() {
                        Slave { fs_sub: 0, ..slaves[i] }
                    } else {
                        slaves[i]
                    }
                }
        }),
{
    lemma_fastscan_frame(0, FASTSCAN_INIT, 0, 0);
}

/// Fastscan discovers a node: on a bus with at least one unconfigured waiting
/// node, whatever the identities are and however many nodes share the bus, the
/// scan ends with the address of one of those nodes — never with an address
/// that no node has. It leaves exactly the nodes with that address in the
/// configuration state, and every node that does not take part as it was.
pub proof fn law_fastscan_discovers(slaves: Seq<Slave>)
    requires
        exists|i: int| 0 <= i < slaves.len() && (#[trigger] slaves[i]).scannable(),
    ensures
        ({
            let (scan, after) = run(Scan::start(), slaves);
            &&& scan.complete()
            &&& scan.found
            &&& after.len() == slaves.len()
            &&& exists|w: int|
                0 <= w < slaves.len() && (#[trigger] slaves[w]).scannable() && slaves[w].address
                    == scan.address()
            &&& forall|i: int| #![trigger after[i]]
                0 <= i < slaves.len() && !slaves[i].scannable() ==> after[i] == slaves[i]
            &&& forall|i: int| #![trigger after[i]]
                0 <= i < slaves.len() && slaves[i].scannable() ==> (after[i].state
                    == LssState::Configuration <==> slaves[i].address == scan.address())
        }),
{
    let start = Scan::start();
    lemma2_to64();
    lemma_probe(slaves);
    let w = choose|i: int| 0 <= i < slaves.len() && (#[trigger] slaves[i]).scannable();
    assert(slaves[w].handle(start.request()).1 is Some);
    assert(answered(slaves, start.request()));
    start.lemma_after(true);
    let (next, after) = exchange(start, slaves);
    assert forall|i: int| #![trigger after[i]] 0 <= i < after.len() implies after[i] == slaves[i].handle(
        start.request(),
    ).0 by {}
    assert(slaves[w].scannable() && candidate(next, after[w]));
    assert(scanning(next, slaves, after));
    lemma_scan(next, slaves, after);
}

/// A lone unconfigured node is found, and its exact address with it.
pub proof fn law_fastscan_finds_the_address(s: Slave)
    requires
        s.scannable(),
    ensures
        ({
            let (scan, after) = run(Scan::start(), seq![s]);
            &&& scan.complete()
            &&& scan.found
            &&& scan.address() == s.address
            &&& after[0].state == LssState::Configuration
        }),
{
    assert(seq![s][0].scannable());
    law_fastscan_discovers(seq![s]);
}

/// Where no unconfigured node waits, the scan ends at once and reports that it
/// found none, and no node changes.
pub proof fn law_fastscan_reports_no_node(slaves: Seq<Slave>)
    requires
        forall|i: int| 0 <= i < slaves.len() ==> !(#[trigger] slaves[i]).scannable(),
    ensures
        ({
            let (scan, after) = run(Scan::start(), slaves);
            scan.complete() && !scan.found && after == slaves
        }),
{
    let start = Scan::start();
    lemma2_to64();
    lemma_probe(slaves);
    start.lemma_after(false);
    let (next, after) = exchange(start, slaves);
    assert(!answered(slaves, start.request()));
    assert(after =~= slaves);
    assert(run(next, after) == (next, after));
}

/// A node starts out waiting, with nothing matched or scanned, and the node-id it
/// was given pending as well; it takes part in Fastscan when that is 255.
pub proof fn law_fresh_slave(address: LssAddress, node_id: u8)
    ensures
        ({
            let s = Slave::fresh(address, node_id);
            &&& s.address == address && s.node_id == node_id && s.pending_node_id == node_id
            &&& s.state == LssState::Waiting && s.selective == 0 && s.fs_sub == 0
            &&& s.scannable() <==> node_id == 255
        }),
{
}

/// A completed scan gives the four values it determined as the parts of the
/// address, in their order.
pub proof fn law_scanned_address(scan: Scan)
    ensures
        scan.address().vendor_id == scan.id[0],
        scan.address().product_code == scan.id[1],
        scan.address().revision_number == scan.id[2],
        scan.address().serial_number == scan.id[3],
        scan.complete() <==> scan.sub >= 4,
        ({
            let s = Scan::start();
            &&& s.id == seq![0u32, 0, 0, 0]
            &&& s.sub == 0 && s.bit == -2 && !s.found
        }),
{
}

} // verus!
