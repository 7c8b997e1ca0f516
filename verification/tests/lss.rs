//! Layer setting services.
use canopen_rs::lss::{
    decode_configure_node_id_response, decode_inquire_node_id_response, encode_configure_node_id,
    encode_fastscan, encode_inquire_node_id, encode_store, encode_switch_global,
    encode_switch_selective, is_identify_slave_response, is_switch_selective_response,
    FastscanMaster, CS_INQUIRE_VENDOR, FASTSCAN_INIT, UNCONFIGURED_NODE_ID,
};
use canopen_rs::{LssAddress, LssSlave, LssState};

fn address() -> LssAddress {
    LssAddress {
        vendor_id: 0x0000_001F,
        product_code: 0x0000_002A,
        revision_number: 0x0000_0001,
        serial_number: 0x0000_1234,
    }
}

fn frame(cs: u8) -> [u8; 8] {
    [cs, 0, 0, 0, 0, 0, 0, 0]
}

fn slave() -> LssSlave {
    LssSlave::new(address(), UNCONFIGURED_NODE_ID)
}

// --- Master encoders: known-good frames --------------------------------
#[test]
fn switch_global_frames() {
    assert_eq!(encode_switch_global(true), [0x04, 0x01, 0, 0, 0, 0, 0, 0]);
    assert_eq!(encode_switch_global(false), [0x04, 0x00, 0, 0, 0, 0, 0, 0]);
}

#[test]
fn configure_node_id_frame() {
    assert_eq!(
        encode_configure_node_id(0x7F),
        [0x11, 0x7F, 0, 0, 0, 0, 0, 0]
    );
}

#[test]
fn switch_selective_sequence() {
    let f = encode_switch_selective(&address());
    assert_eq!(f[0], [0x40, 0x1F, 0x00, 0x00, 0x00, 0, 0, 0]); // vendor id LE
    assert_eq!(f[3], [0x43, 0x34, 0x12, 0x00, 0x00, 0, 0, 0]); // serial LE
}

// --- Slave state machine ----------------------------------------------
#[test]
fn switch_global_changes_state() {
    let mut s = slave();
    assert_eq!(s.state(), LssState::Waiting);
    assert!(s.handle(&encode_switch_global(true)).is_none());
    assert_eq!(s.state(), LssState::Configuration);
    s.handle(&encode_switch_global(false));
    assert_eq!(s.state(), LssState::Waiting);
}

#[test]
fn selective_switch_matches_address() {
    let mut s = slave();
    let seq = encode_switch_selective(&address());
    assert!(s.handle(&seq[0]).is_none());
    assert!(s.handle(&seq[1]).is_none());
    assert!(s.handle(&seq[2]).is_none());
    let resp = s.handle(&seq[3]).expect("selective response");
    assert!(is_switch_selective_response(&resp));
    assert_eq!(s.state(), LssState::Configuration);
}

#[test]
fn selective_switch_rejects_wrong_address() {
    let mut s = slave();
    let mut seq = encode_switch_selective(&address());
    seq[3][1] = 0xFF; // corrupt the serial number
    for f in &seq {
        assert!(s.handle(f).is_none());
    }
    assert_eq!(s.state(), LssState::Waiting);
}

#[test]
fn configure_node_id_only_in_configuration() {
    let mut s = slave();
    // Ignored while waiting.
    assert!(s.handle(&encode_configure_node_id(0x20)).is_none());

    s.handle(&encode_switch_global(true));
    let resp = s.handle(&encode_configure_node_id(0x20)).unwrap();
    assert_eq!(decode_configure_node_id_response(&resp), Some(Ok(())));
    assert_eq!(s.pending_node_id(), 0x20);
    assert_eq!(s.node_id(), UNCONFIGURED_NODE_ID); // not active until reset
    s.adopt_pending();
    assert_eq!(s.node_id(), 0x20);
}

#[test]
fn configure_node_id_rejects_out_of_range() {
    let mut s = slave();
    s.handle(&encode_switch_global(true));
    let resp = s.handle(&encode_configure_node_id(200)).unwrap();
    assert_eq!(decode_configure_node_id_response(&resp), Some(Err(1)));
}

#[test]
fn inquiries_report_identity_in_configuration() {
    let mut s = slave();
    s.handle(&encode_switch_global(true));

    let node = s.handle(&encode_inquire_node_id()).unwrap();
    assert_eq!(
        decode_inquire_node_id_response(&node),
        Some(UNCONFIGURED_NODE_ID)
    );

    let vendor = s.handle(&frame(CS_INQUIRE_VENDOR)).unwrap();
    assert_eq!(vendor, [0x5A, 0x1F, 0x00, 0x00, 0x00, 0, 0, 0]);
}

#[test]
fn store_acknowledges() {
    let mut s = slave();
    s.handle(&encode_switch_global(true));
    assert_eq!(
        s.handle(&encode_store()).unwrap(),
        [0x17, 0, 0, 0, 0, 0, 0, 0]
    );
}

// --- Fastscan ----------------------------------------------------------
#[test]
fn fastscan_frame_layout() {
    // CS=0x51, id LE, bit_check, lss_sub, lss_next.
    assert_eq!(
        encode_fastscan(0x1234_5678, 31, 0, 0),
        [0x51, 0x78, 0x56, 0x34, 0x12, 31, 0, 0]
    );
    assert_eq!(
        encode_fastscan(0, FASTSCAN_INIT, 0, 0),
        [0x51, 0, 0, 0, 0, 32, 0, 0]
    );
}

#[test]
fn fastscan_probe_only_answered_while_unconfigured() {
    let mut s = slave();
    let probe = encode_fastscan(0, FASTSCAN_INIT, 0, 0);
    assert!(is_identify_slave_response(&s.handle(&probe).unwrap()));

    // A configured node ignores Fastscan entirely.
    let mut configured = LssSlave::new(address(), 0x20);
    assert!(configured.handle(&probe).is_none());
}

/// Drive the sans-I/O master against the slave: it should recover the exact
/// address and leave the slave in the configuration state.
fn run_fastscan(addr: LssAddress) -> (FastscanMaster, LssState) {
    let mut slave = LssSlave::new(addr, UNCONFIGURED_NODE_ID);
    let mut master = FastscanMaster::new();
    let mut steps = 0;
    while let Some(req) = master.next_request() {
        let answered = slave.handle(&req).is_some();
        master.on_response(answered);
        steps += 1;
        assert!(steps < 200, "fastscan did not converge");
    }
    (master, slave.state())
}

#[test]
fn fastscan_discovers_the_address() {
    let (master, slave_state) = run_fastscan(address());
    assert!(master.found());
    assert!(master.is_complete());
    assert_eq!(master.address(), address());
    assert_eq!(slave_state, LssState::Configuration);
}

#[test]
fn fastscan_recovers_extreme_identities() {
    for addr in [
        LssAddress {
            vendor_id: 0xFFFF_FFFF,
            product_code: 0,
            revision_number: 0x8000_0000,
            serial_number: 0x0000_0001,
        },
        LssAddress {
            vendor_id: 0xDEAD_BEEF,
            product_code: 0xCAFE_F00D,
            revision_number: 0x0BAD_C0DE,
            serial_number: 0xFEED_FACE,
        },
    ] {
        let (master, slave_state) = run_fastscan(addr);
        assert_eq!(master.address(), addr);
        assert_eq!(slave_state, LssState::Configuration);
    }
}

#[test]
fn fastscan_reports_no_node() {
    // With no slave answering, the probe fails and the scan ends unfound.
    let mut master = FastscanMaster::new();
    let _req = master.next_request().unwrap();
    master.on_response(false);
    assert!(!master.found());
    assert!(master.is_complete());
    assert!(master.next_request().is_none());
}

#[test]
fn fastscan_ignores_non_matching_slave_then_configures_match() {
    // Two unconfigured nodes; the master converges on one exact address,
    // and only that node ends up configured.
    let a = address();
    let b = LssAddress {
        serial_number: 0x9999,
        ..address()
    };
    let mut sa = LssSlave::new(a, UNCONFIGURED_NODE_ID);
    let mut sb = LssSlave::new(b, UNCONFIGURED_NODE_ID);
    let mut master = FastscanMaster::new();
    while let Some(req) = master.next_request() {
        // Either node answering is enough for the master to see a response.
        let ra = sa.handle(&req).is_some();
        let rb = sb.handle(&req).is_some();
        master.on_response(ra || rb);
    }
    assert_eq!(master.address(), a);
    assert_eq!(sa.state(), LssState::Configuration);
    assert_eq!(sb.state(), LssState::Waiting); // diverged, never selected
}

/// A tiny linear-congruential generator (glibc constants) so the sweep is
/// deterministic and dependency-free — no external `rand` crate.
fn lcg(state: &mut u32) -> u32 {
    *state = state.wrapping_mul(1_103_515_245).wrapping_add(12_345);
    *state
}

#[test]
fn fastscan_recovers_pathological_bit_patterns() {
    // All-zeros, all-ones, and the two alternating-bit patterns in every
    // field — the cases most likely to expose a bit 31 vs bit 0 masking or
    // shift error in the bisection.
    for &v in &[0x0000_0000u32, 0xFFFF_FFFF, 0xAAAA_AAAA, 0x5555_5555] {
        let addr = LssAddress {
            vendor_id: v,
            product_code: v,
            revision_number: v,
            serial_number: v,
        };
        let (master, slave_state) = run_fastscan(addr);
        assert!(master.found());
        assert_eq!(master.address(), addr, "failed to recover {addr:?}");
        assert_eq!(slave_state, LssState::Configuration);
    }

    // A different pattern in each field, so the four subs cannot alias.
    let mixed = LssAddress {
        vendor_id: 0x0000_0000,
        product_code: 0xFFFF_FFFF,
        revision_number: 0xAAAA_AAAA,
        serial_number: 0x5555_5555,
    };
    let (master, slave_state) = run_fastscan(mixed);
    assert_eq!(master.address(), mixed);
    assert_eq!(slave_state, LssState::Configuration);
}

#[test]
fn fastscan_recovers_pseudo_random_addresses() {
    // A deterministic pseudo-random sweep: every recovered address must
    // equal the slave's true one, and the slave must end configured.
    let mut seed = 0x1234_5678u32;
    for _ in 0..512 {
        let addr = LssAddress {
            vendor_id: lcg(&mut seed),
            product_code: lcg(&mut seed),
            revision_number: lcg(&mut seed),
            serial_number: lcg(&mut seed),
        };
        let (master, slave_state) = run_fastscan(addr);
        assert!(master.found());
        assert_eq!(master.address(), addr, "failed to recover {addr:?}");
        assert_eq!(slave_state, LssState::Configuration);
    }
}

#[test]
fn fastscan_converges_on_one_of_many_nodes() {
    // Several unconfigured slaves with distinct identities share the bus.
    // The master sees a response if *any* node answers, yet it must settle
    // on exactly one real address; every other node stays in Waiting.
    let addrs = [
        LssAddress {
            vendor_id: 0x1F,
            product_code: 0x2A,
            revision_number: 1,
            serial_number: 0x1000,
        },
        // Shares vendor/product/revision with the first — diverges only in
        // the serial (the last sub), the hardest case for the bisection.
        LssAddress {
            vendor_id: 0x1F,
            product_code: 0x2A,
            revision_number: 1,
            serial_number: 0x2000,
        },
        LssAddress {
            vendor_id: 0x1F,
            product_code: 0x2A,
            revision_number: 2,
            serial_number: 0x3000,
        },
        LssAddress {
            vendor_id: 0x20,
            product_code: 0x01,
            revision_number: 9,
            serial_number: 0x4000,
        },
        LssAddress {
            vendor_id: 0xDEAD_BEEF,
            product_code: 0x0000_FEED,
            revision_number: 0,
            serial_number: 0xFFFF_FFFF,
        },
    ];
    let mut slaves = [
        LssSlave::new(addrs[0], UNCONFIGURED_NODE_ID),
        LssSlave::new(addrs[1], UNCONFIGURED_NODE_ID),
        LssSlave::new(addrs[2], UNCONFIGURED_NODE_ID),
        LssSlave::new(addrs[3], UNCONFIGURED_NODE_ID),
        LssSlave::new(addrs[4], UNCONFIGURED_NODE_ID),
    ];
    let mut master = FastscanMaster::new();
    while let Some(req) = master.next_request() {
        let mut answered = false;
        for s in &mut slaves {
            answered |= s.handle(&req).is_some();
        }
        master.on_response(answered);
    }

    assert!(master.found());
    let found = master.address();
    assert!(
        addrs.contains(&found),
        "converged on a phantom address {found:?}"
    );
    // Exactly one node — the recovered one — ended up configured.
    let mut configured = 0;
    for (a, s) in addrs.iter().zip(&slaves) {
        if *a == found {
            assert_eq!(s.state(), LssState::Configuration);
            configured += 1;
        } else {
            assert_eq!(s.state(), LssState::Waiting);
        }
    }
    assert_eq!(configured, 1);
}

#[test]
fn fastscan_init_probe_resets_an_in_progress_scan() {
    // The reset probe (bit_check >= FASTSCAN_INIT) must restart the slave's
    // scan, whatever sub it had reached.
    let mut s = slave();
    // Confirm sub 0, advancing the slave to sub 1.
    let confirm_sub0 = encode_fastscan(address().vendor_id, 0, 0, 1);
    assert!(is_identify_slave_response(
        &s.handle(&confirm_sub0).unwrap()
    ));
    // A sub-0 bit frame is now ignored (the slave is scanning sub 1).
    assert!(s.handle(&encode_fastscan(0, 31, 0, 0)).is_none());

    // The reset probe answers and restarts at sub 0…
    let probe = encode_fastscan(0, FASTSCAN_INIT, 0, 0);
    assert!(is_identify_slave_response(&s.handle(&probe).unwrap()));
    // …so the sub-0 bit frame is answered again.
    assert!(s.handle(&encode_fastscan(0, 31, 0, 0)).is_some());
}

#[test]
fn fastscan_never_converges_on_a_phantom_address() {
    // Randomised multi-node stress: for many bus populations, the master —
    // which only sees "did anyone answer?" — must always land on one of the
    // *real* addresses (never a bitwise blend of several) and configure
    // exactly that node.
    let mut seed = 0x0BAD_F00Du32;
    let rand_addr = |seed: &mut u32| LssAddress {
        vendor_id: lcg(seed),
        product_code: lcg(seed),
        revision_number: lcg(seed),
        serial_number: lcg(seed),
    };
    for _ in 0..256 {
        let addrs = [
            rand_addr(&mut seed),
            rand_addr(&mut seed),
            rand_addr(&mut seed),
            rand_addr(&mut seed),
        ];
        let mut slaves = [
            LssSlave::new(addrs[0], UNCONFIGURED_NODE_ID),
            LssSlave::new(addrs[1], UNCONFIGURED_NODE_ID),
            LssSlave::new(addrs[2], UNCONFIGURED_NODE_ID),
            LssSlave::new(addrs[3], UNCONFIGURED_NODE_ID),
        ];
        let mut master = FastscanMaster::new();
        while let Some(req) = master.next_request() {
            let mut answered = false;
            for s in &mut slaves {
                answered |= s.handle(&req).is_some();
            }
            master.on_response(answered);
        }
        let found = master.address();
        assert!(
            addrs.contains(&found),
            "phantom address {found:?} for population {addrs:?}"
        );
        let configured = slaves
            .iter()
            .filter(|s| s.state() == LssState::Configuration)
            .count();
        assert_eq!(configured, 1, "population {addrs:?}");
    }
}

#[test]
fn fastscan_bit_check_at_boundaries() {
    // bit_check = 31 checks only the MSB; bit_check = 0 checks all 32 bits.
    // Both must stay within `0xFFFF_FFFF << bit_check` (no shift overflow).
    let addr = LssAddress {
        vendor_id: 0x8000_0001, // MSB and LSB set, nothing between
        ..address()
    };
    let mut s = LssSlave::new(addr, UNCONFIGURED_NODE_ID);
    // MSB set: a candidate with bit 31 clear must NOT match at bit_check 31.
    assert!(s.handle(&encode_fastscan(0x0000_0000, 31, 0, 0)).is_none());
    // A candidate with bit 31 set matches when only bit 31 is checked.
    assert!(s.handle(&encode_fastscan(0x8000_0000, 31, 0, 0)).is_some());
    // At bit_check 0 the whole word must match exactly.
    assert!(s.handle(&encode_fastscan(0x8000_0000, 0, 0, 0)).is_none());
    assert!(s.handle(&encode_fastscan(0x8000_0001, 0, 0, 0)).is_some());
}
