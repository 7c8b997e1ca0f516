//! NMT master tooling: heartbeat monitoring and node health.
//!
//! [`HeartbeatMonitor`] tracks the heartbeats a master hears from the nodes on a
//! bus and flags those that have gone silent. It is transport-agnostic: feed it
//! received frames and a timestamp. Timestamps and the timeout are numbers of
//! one unit, counted from one origin, such as milliseconds since the program
//! started.
use std::collections::BTreeMap;

use vstd::prelude::*;

use crate::nmt::{decode_heartbeat, NmtState, HEARTBEAT_COB_BASE};
use crate::types::NodeId;

verus! {

broadcast use vstd::std_specs::btree::group_btree_axioms;

/// The last-known health of a monitored node.
#[derive(Debug, Clone, Copy, PartialEq, Eq, Structural)]
pub struct NodeHealth {
    /// The NMT state last reported by the node's heartbeat.
    pub state: NmtState,
    /// When that heartbeat was received.
    pub last_seen: u64,
}

/// The node and state that a frame reports, if it is a heartbeat or boot-up
/// frame: producers use `0x700 + node`, with a node of `1..=127`.
pub open spec fn heartbeat_in(cob_id: u16, data: Seq<u8>) -> Option<(u8, NmtState)> {
    if 0x701 <= cob_id <= 0x77F && data.len() > 0 {
        match NmtState::of_wire(data[0]) {
            Ok(state) => Some(((cob_id - 0x700) as u8, state)),
            Err(_) => None,
        }
    } else {
        None
    }
}

/// Whether a heartbeat lies no further back than the timeout; one from later than
/// `now` counts as just received.
pub open spec fn fresh(health: NodeHealth, timeout: u64, now: u64) -> bool {
    now - health.last_seen <= timeout
}

/// The ids below `n` of the nodes that have gone silent, in ascending order.
pub open spec fn silent_below(
    nodes: Map<u8, NodeHealth>,
    timeout: u64,
    now: u64,
    n: nat,
) -> Seq<u8>
    decreases n,
{
    if n == 0 {
        Seq::empty()
    } else {
        let id = (n - 1) as u8;
        let front = silent_below(nodes, timeout, now, (n - 1) as nat);
        if nodes.dom().contains(id) && !fresh(nodes[id], timeout, now) {
            front.push(id)
        } else {
            front
        }
    }
}

/// The monitored nodes with an id below `n`, in ascending order.
pub open spec fn known_below(nodes: Map<u8, NodeHealth>, n: nat) -> Seq<(u8, NodeHealth)>
    decreases n,
{
    if n == 0 {
        Seq::empty()
    } else {
        let id = (n - 1) as u8;
        let front = known_below(nodes, (n - 1) as nat);
        if nodes.dom().contains(id) {
            front.push((id, nodes[id]))
        } else {
            front
        }
    }
}

/// Tracks per-node heartbeats and flags nodes that stop producing them.
///
/// A CANopen node emits a heartbeat on `0x700 + node`; a master watches those
/// frames to know each node is alive and in which state. Construct with the
/// consumer timeout, feed every received frame to [`HeartbeatMonitor::on_frame`],
/// and query [`HeartbeatMonitor::timed_out`] / [`HeartbeatMonitor::is_alive`].
#[derive(Debug)]
pub struct HeartbeatMonitor {
    nodes: BTreeMap<u8, NodeHealth>,
    timeout: u64,
}

impl View for HeartbeatMonitor {
    type V = Map<u8, NodeHealth>;

    closed spec fn view(&self) -> Map<u8, NodeHealth> {
        self.nodes@
    }
}

impl HeartbeatMonitor {
    /// The consumer timeout.
    pub closed spec fn timeout(self) -> u64 {
        self.timeout
    }

    /// Only device ids are monitored.
    pub open spec fn wf(self) -> bool {
        forall|id: u8| #[trigger] self@.dom().contains(id) ==> 1 <= id <= 127
    }

    /// Create a monitor that considers a node dead after `timeout` without a
    /// heartbeat.
    pub fn new(timeout: u64) -> (m: Self)
        ensures
            m.wf(),
            m.timeout() == timeout,
            m@ == Map::<u8, NodeHealth>::empty(),
    {
        Self { nodes: BTreeMap::new(), timeout }
    }

    /// Feed a received frame, timestamped `now`.
    ///
    /// If it is a heartbeat or boot-up frame, records it and returns the
    /// `(node, state)` it reported; otherwise returns `None`.
    pub fn on_frame(&mut self, cob_id: u16, data: &[u8], now: u64) -> (r: Option<
        (NodeId, NmtState),
    >)
        requires
            old(self).wf(),
        ensures
            final(self).wf(),
            final(self).timeout() == old(self).timeout(),
            match heartbeat_in(cob_id, data@) {
                Some((id, state)) => {
                    &&& r matches Some((node, s)) && node@ == id && s == state
                    &&& final(self)@ == old(self)@.insert(
                        id,
                        NodeHealth { state, last_seen: now },
                    )
                },
                None => r is None && final(self)@ == old(self)@,
            },
    {
        // Heartbeat producers use 0x700 + node, with node in 1..=127.
        if cob_id < HEARTBEAT_COB_BASE {
            return None;
        }
        let raw: u16 = cob_id - HEARTBEAT_COB_BASE;
        if raw > 0xFF {
            return None;
        }
        let node = match NodeId::new(raw as u8) {
            Ok(n) => n,
            Err(_) => {
                return None;
            },
        };
        if data.len() == 0 {
            return None;
        }
        let state = match decode_heartbeat(&[data[0]]) {
            Ok(s) => s,
            Err(_) => {
                return None;
            },
        };
        let _ = self.nodes.insert(node.raw(), NodeHealth { state, last_seen: now });
        assert forall|id: u8| #[trigger] self@.dom().contains(id) implies 1 <= id <= 127 by {
            assert(id == node@ || old(self)@.dom().contains(id));
        }
        Some((node, state))
    }

    /// The full health record for `node`.
    pub fn health(&self, node: NodeId) -> (r: Option<NodeHealth>)
        ensures
            r == if self@.dom().contains(node@) {
                Some(self@[node@])
            } else {
                None
            },
    {
        match self.nodes.get(&node.raw()) {
            Some(h) => Some(*h),
            None => None,
        }
    }

    /// The last state reported by `node`, if it has ever been heard from.
    pub fn state(&self, node: NodeId) -> (r: Option<NmtState>)
        ensures
            r == if self@.dom().contains(node@) {
                Some(self@[node@].state)
            } else {
                None
            },
    {
        match self.health(node) {
            Some(h) => Some(h.state),
            None => None,
        }
    }

    /// Whether a heartbeat lies no further back than the timeout.
    fn in_time(&self, health: &NodeHealth, now: u64) -> (b: bool)
        ensures
            b == fresh(*health, self.timeout(), now),
    {
        now <= health.last_seen || now - health.last_seen <= self.timeout
    }

    /// Whether `node` produced a heartbeat within the timeout as of `now`.
    pub fn is_alive(&self, node: NodeId, now: u64) -> (b: bool)
        ensures
            b == (self@.dom().contains(node@) && fresh(self@[node@], self.timeout(), now)),
    {
        match self.health(node) {
            Some(h) => self.in_time(&h, now),
            None => false,
        }
    }

    /// The nodes that have gone silent — no heartbeat within the timeout — in
    /// ascending order of their ids.
    pub fn timed_out(&self, now: u64) -> (v: Vec<NodeId>)
        requires
            self.wf(),
        ensures
            v@.map_values(|n: NodeId| n@) == silent_below(self@, self.timeout(), now, 128),
    {
        let mut v: Vec<NodeId> = Vec::new();
        let mut id: u8 = 1;
        assert(!self@.dom().contains(0));
        reveal_with_fuel(silent_below, 2);
        assert(v@.map_values(|n: NodeId| n@) =~= silent_below(self@, self.timeout(), now, 1));
        while id < 128
            invariant
                self.wf(),
                1 <= id <= 128,
                v@.map_values(|n: NodeId| n@) == silent_below(
                    self@,
                    self.timeout(),
                    now,
                    id as nat,
                ),
            decreases 128 - id,
        {
            let ghost front = v@;
            if let Ok(node) = NodeId::new(id) {
                if let Some(h) = self.health(node) {
                    if !self.in_time(&h, now) {
                        v.push(node);
                        assert(v@.map_values(|n: NodeId| n@) =~= front.map_values(
                            |n: NodeId| n@,
                        ).push(id));
                    }
                }
            }
            id += 1;
        }
        v
    }

    /// Every monitored node paired with its health record, in ascending order of
    /// the ids.
    pub fn nodes(&self) -> (v: Vec<(NodeId, NodeHealth)>)
        requires
            self.wf(),
        ensures
            v@.map_values(|p: (NodeId, NodeHealth)| (p.0@, p.1)) == known_below(self@, 128),
    {
        let mut v: Vec<(NodeId, NodeHealth)> = Vec::new();
        let mut id: u8 = 1;
        assert(!self@.dom().contains(0));
        reveal_with_fuel(known_below, 2);
        assert(v@.map_values(|p: (NodeId, NodeHealth)| (p.0@, p.1)) =~= known_below(self@, 1));
        while id < 128
            invariant
                self.wf(),
                1 <= id <= 128,
                v@.map_values(|p: (NodeId, NodeHealth)| (p.0@, p.1)) == known_below(
                    self@,
                    id as nat,
                ),
            decreases 128 - id,
        {
            let ghost front = v@;
            if let Ok(node) = NodeId::new(id) {
                if let Some(h) = self.health(node) {
                    v.push((node, h));
                    assert(v@.map_values(|p: (NodeId, NodeHealth)| (p.0@, p.1))
                        =~= front.map_values(|p: (NodeId, NodeHealth)| (p.0@, p.1)).push((id, h)));
                }
            }
            id += 1;
        }
        v
    }
}

/// A node is reported as silent exactly when it is monitored and not alive: of
/// every monitored node, one of the two holds.
pub proof fn law_silent_or_alive(nodes: Map<u8, NodeHealth>, timeout: u64, now: u64, id: u8)
    requires
        id <= 127,
    ensures
        silent_below(nodes, timeout, now, 128).contains(id) <==> nodes.dom().contains(id)
            && !fresh(nodes[id], timeout, now),
{
    lemma_silent_below(nodes, timeout, now, 128, id);
}

proof fn lemma_silent_below(
    nodes: Map<u8, NodeHealth>,
    timeout: u64,
    now: u64,
    n: nat,
    id: u8,
)
    requires
        n <= 128,
    ensures
        silent_below(nodes, timeout, now, n).contains(id) <==> id < n && nodes.dom().contains(id)
            && !fresh(nodes[id], timeout, now),
    decreases n,
{
    if n > 0 {
        lemma_silent_below(nodes, timeout, now, (n - 1) as nat, id);
        let front = silent_below(nodes, timeout, now, (n - 1) as nat);
        let all = silent_below(nodes, timeout, now, n);
        let last = (n - 1) as u8;
        if all.len() > front.len() {
            assert(all[all.len() - 1] == last);
            if front.contains(id) {
                let i = choose|i: int| 0 <= i < front.len() && front[i] == id;
                assert(all[i] == id);
            }
            if all.contains(id) && id != last {
                let i = choose|i: int| 0 <= i < all.len() && all[i] == id;
                assert(front[i] == id);
            }
        }
    }
}

/// A heartbeat or boot-up frame is one on `0x700` plus a device id with a first
/// byte that, its top bit aside, is 0, 4, 5 or 127; it reports that device and that
/// state. No other frame reports anything.
pub proof fn law_heartbeats(cob_id: u16, data: Seq<u8>)
    ensures
        match heartbeat_in(cob_id, data) {
            Some((id, state)) => {
                &&& 1 <= id <= 127
                &&& cob_id == 0x700 + id
                &&& data.len() > 0
                &&& data[0] as int % 128 == match state {
                    NmtState::Initialising => 0int,
                    NmtState::Stopped => 4,
                    NmtState::Operational => 5,
                    NmtState::PreOperational => 127,
                }
            },
            None => {
                ||| cob_id <= 0x700
                ||| cob_id > 0x77F
                ||| data.len() == 0
                ||| (data[0] as int % 128 != 0 && data[0] as int % 128 != 4 && data[0] as int % 128
                    != 5 && data[0] as int % 128 != 127)
            },
        },
{
}

/// A heartbeat keeps its node alive up to and including the moment that lies the
/// timeout after it, and not beyond.
pub proof fn law_timeout(state: NmtState, seen: u64, timeout: u64, now: u64)
    ensures
        fresh(NodeHealth { state, last_seen: seen }, timeout, now) <==> now <= seen + timeout,
{
}

/// The monitored nodes are listed in ascending order of their ids, each once and
/// with its own record, and so are the silent ones.
pub proof fn law_lists_ascend(nodes: Map<u8, NodeHealth>, timeout: u64, now: u64, id: u8)
    requires
        id <= 127,
    ensures
        ({
            let known = known_below(nodes, 128);
            let silent = silent_below(nodes, timeout, now, 128);
            &&& nodes.dom().contains(id) <==> known.contains((id, nodes[id]))
            &&& forall|i: int|
                0 <= i < known.len() ==> nodes.dom().contains((#[trigger] known[i]).0) && known[i].1
                    == nodes[known[i].0]
            &&& forall|i: int, j: int|
                0 <= i < j < known.len() ==> (#[trigger] known[i]).0 < (#[trigger] known[j]).0
            &&& forall|i: int, j: int|
                0 <= i < j < silent.len() ==> #[trigger] silent[i] < #[trigger] silent[j]
        }),
{
    lemma_known_below(nodes, timeout, now, 128, id);
}

proof fn lemma_known_below(
    nodes: Map<u8, NodeHealth>,
    timeout: u64,
    now: u64,
    n: nat,
    id: u8,
)
    requires
        n <= 128,
    ensures
        ({
            let known = known_below(nodes, n);
            let silent = silent_below(nodes, timeout, now, n);
            &&& id < n ==> (nodes.dom().contains(id) <==> known.contains((id, nodes[id])))
            &&& forall|i: int|
                0 <= i < known.len() ==> (#[trigger] known[i]).0 < n && nodes.dom().contains(
                    known[i].0,
                ) && known[i].1 == nodes[known[i].0]
            &&& forall|i: int| 0 <= i < silent.len() ==> #[trigger] silent[i] < n
            &&& forall|i: int, j: int|
                0 <= i < j < known.len() ==> (#[trigger] known[i]).0 < (#[trigger] known[j]).0
            &&& forall|i: int, j: int|
                0 <= i < j < silent.len() ==> #[trigger] silent[i] < #[trigger] silent[j]
        }),
    decreases n,
{
    if n > 0 {
        lemma_known_below(nodes, timeout, now, (n - 1) as nat, id);
        let front = known_below(nodes, (n - 1) as nat);
        let all = known_below(nodes, n);
        let last = (n - 1) as u8;
        if nodes.dom().contains(last) {
            assert(all[all.len() - 1] == (last, nodes[last]));
        }
        if id < last && nodes.dom().contains(id) {
            let i = choose|i: int| 0 <= i < front.len() && front[i] == (id, nodes[id]);
            assert(all[i] == (id, nodes[id]));
        }
        assert forall|i: int| 0 <= i < all.len() implies (#[trigger] all[i]).0 < n
            && nodes.dom().contains(all[i].0) && all[i].1 == nodes[all[i].0] by {
            if i < front.len() {
                assert(all[i] == front[i]);
            }
        }
        assert forall|i: int, j: int| 0 <= i < j < all.len() implies (#[trigger] all[i]).0 < (
        #[trigger] all[j]).0 by {
            assert(all[i] == front[i]);
            if j < front.len() {
                assert(all[j] == front[j]);
            }
        }
        if all.contains((id, nodes[id])) {
            let i = choose|i: int| 0 <= i < all.len() && all[i] == (id, nodes[id]);
            assert(nodes.dom().contains(all[i].0));
        }
        let quiet = silent_below(nodes, timeout, now, (n - 1) as nat);
        let silent = silent_below(nodes, timeout, now, n);
        assert forall|i: int| 0 <= i < silent.len() implies #[trigger] silent[i] < n by {
            if i < quiet.len() {
                assert(silent[i] == quiet[i]);
            }
        }
        assert forall|i: int, j: int| 0 <= i < j < silent.len() implies #[trigger] silent[i]
            < #[trigger] silent[j] by {
            assert(silent[i] == quiet[i]);
            if j < quiet.len() {
                assert(silent[j] == quiet[j]);
            }
        }
    }
}

} // verus!
