//! The backend's table of connected sensors.
//!
//! Every client is known by its IP address, so that a sensor that
//! reconnects (from a new port) keeps its shape. A client's entry is never
//! dropped, also not when it disconnects.

use vstd::prelude::*;
use crate::addr_table::{AddrTable, ClientAddr, strictly_sorted, addr_lt};
use crate::shape::{Shape, random_shape, test_client_shape, spec_test_client_shape, lemma_test_clients_cycle_shapes};
use crate::protocol::{AxisBits, checked_decode_frame, spec_all_finite, spec_decode, spec_encode, lemma_decode_encode};

verus! {

/// What the backend keeps of a client: its shape and its latest rotation.
#[derive(Debug, Clone, Copy, PartialEq, Eq, Structural)]
pub struct ClientEntry {
    pub shape: Shape,
    pub rotation: AxisBits,
}

/// What became of a frame received from a client.
#[derive(Debug, Clone, Copy, PartialEq, Eq, Structural)]
pub enum FrameOutcome {
    /// The frame became the client's rotation.
    Applied,
    /// An axis was infinite or NaN; the frame was dropped.
    NotFinite,
    /// The address is not registered; nothing changed.
    UnknownClient,
}

/// All registered clients, by IP address.
pub struct ClientRegistry {
    table: AddrTable<ClientEntry>,
}

impl View for ClientRegistry {
    type V = Map<ClientAddr, ClientEntry>;

    closed spec fn view(&self) -> Map<ClientAddr, ClientEntry> {
        self.table@
    }
}

/// The entry a client that was just given `shape` starts with.
pub open spec fn fresh_entry(shape: Shape) -> ClientEntry {
    ClientEntry { shape, rotation: AxisBits::spec_zero() }
}

/// The table after a client at `addr` connects, and the shape it is shown
/// as: a known client keeps its entry, a new one is entered with
/// `shape_if_new` and zero rotation.
pub open spec fn spec_register(m: Map<ClientAddr, ClientEntry>, addr: ClientAddr, shape_if_new: Shape) -> (Map<ClientAddr, ClientEntry>, Shape) {
    if m.contains_key(addr) {
        (m, m[addr].shape)
    } else {
        (m.insert(addr, fresh_entry(shape_if_new)), shape_if_new)
    }
}

/// The table after the rotation of `addr` is set: a known client keeps its
/// shape and takes the rotation; for an unknown address nothing changes.
pub open spec fn spec_set_rotation(m: Map<ClientAddr, ClientEntry>, addr: ClientAddr, rotation: AxisBits) -> Map<ClientAddr, ClientEntry> {
    if m.contains_key(addr) {
        m.insert(addr, ClientEntry { shape: m[addr].shape, rotation })
    } else {
        m
    }
}

/// The table after a frame arrives from `addr`, and what became of the
/// frame: one with an infinite or NaN axis is dropped; any other becomes
/// the rotation of a known client.
pub open spec fn spec_apply_frame(m: Map<ClientAddr, ClientEntry>, addr: ClientAddr, frame: Seq<u8>) -> (Map<ClientAddr, ClientEntry>, FrameOutcome) {
    let rotation = spec_decode(frame);
    if !spec_all_finite(rotation) {
        (m, FrameOutcome::NotFinite)
    } else if m.contains_key(addr) {
        (spec_set_rotation(m, addr, rotation), FrameOutcome::Applied)
    } else {
        (m, FrameOutcome::UnknownClient)
    }
}

impl ClientRegistry {
    /// A registry with no clients.
    pub fn new() -> (r: ClientRegistry)
        ensures
            r@ == Map::<ClientAddr, ClientEntry>::empty(),
    {
        ClientRegistry { table: AddrTable::new() }
    }

    /// The entry of `addr`, if it is registered.
    pub fn lookup(&self, addr: ClientAddr) -> (r: Option<ClientEntry>)
        ensures
            r == (if self@.contains_key(addr) { Some(self@[addr]) } else { None::<ClientEntry> }),
    {
        self.table.lookup(addr)
    }

    fn put(&mut self, addr: ClientAddr, e: ClientEntry)
        ensures
            final(self)@ == old(self)@.insert(addr, e),
    {
        self.table.put(addr, e);
    }

    /// The registered addresses in address order.
    pub fn sorted_addrs(&self) -> (v: Vec<ClientAddr>)
        ensures
            strictly_sorted(v@),
            forall|a: ClientAddr| #[trigger] v@.contains(a) <==> self@.contains_key(a),
    {
        self.table.sorted_addrs()
    }

    /// Registers a connecting client. A client already known keeps its
    /// entry, shape and rotation alike, and its shape is returned; a new
    /// client is entered with `shape_if_new` and zero rotation.
    pub fn register(&mut self, addr: ClientAddr, shape_if_new: Shape) -> (s: Shape)
        ensures
            (final(self)@, s) == spec_register(old(self)@, addr, shape_if_new),
            old(self)@.contains_key(addr) ==> final(self)@ == old(self)@ && s == old(self)@[addr].shape,
            !old(self)@.contains_key(addr) ==> final(self)@ == old(self)@.insert(addr, fresh_entry(shape_if_new))
                && s == shape_if_new,
    {
        match self.lookup(addr) {
            Some(e) => e.shape,
            None => {
                self.put(addr, ClientEntry { shape: shape_if_new, rotation: AxisBits::zero() });
                shape_if_new
            },
        }
    }

    /// Registers a connecting client, drawing a random shape only if the
    /// client is new. Returns the client's shape.
    pub fn connect(&mut self, addr: ClientAddr) -> (s: Shape)
        ensures
            (final(self)@, s) == spec_register(old(self)@, addr, s),
            old(self)@.contains_key(addr) ==> final(self)@ == old(self)@ && s == old(self)@[addr].shape,
            !old(self)@.contains_key(addr) ==> final(self)@ == old(self)@.insert(addr, fresh_entry(s)),
    {
        match self.lookup(addr) {
            Some(e) => e.shape,
            None => {
                let shape = random_shape();
                self.register(addr, shape)
            },
        }
    }

    /// Sets the rotation of a registered client, keeping its shape. Returns
    /// whether the client was registered; an unknown address changes
    /// nothing.
    pub fn set_rotation(&mut self, addr: ClientAddr, rotation: AxisBits) -> (found: bool)
        ensures
            final(self)@ == spec_set_rotation(old(self)@, addr, rotation),
            found == old(self)@.contains_key(addr),
            found ==> final(self)@ == old(self)@.insert(addr, ClientEntry { shape: old(self)@[addr].shape, rotation }),
            !found ==> final(self)@ == old(self)@,
    {
        match self.lookup(addr) {
            Some(e) => {
                self.put(addr, ClientEntry { shape: e.shape, rotation });
                true
            },
            None => false,
        }
    }

    /// Handles one frame received from `addr`: a frame with an infinite or
    /// NaN axis is dropped, any other becomes the client's rotation.
    pub fn apply_frame(&mut self, addr: ClientAddr, frame: &[u8; 12]) -> (out: FrameOutcome)
        ensures
            (final(self)@, out) == spec_apply_frame(old(self)@, addr, frame@),
            !spec_all_finite(spec_decode(frame@)) ==> out == FrameOutcome::NotFinite && final(self)@ == old(self)@,
            spec_all_finite(spec_decode(frame@)) && !old(self)@.contains_key(addr) ==> out == FrameOutcome::UnknownClient
                && final(self)@ == old(self)@,
            spec_all_finite(spec_decode(frame@)) && old(self)@.contains_key(addr) ==> out == FrameOutcome::Applied
                && final(self)@ == old(self)@.insert(addr, ClientEntry { shape: old(self)@[addr].shape, rotation: spec_decode(frame@) }),
    {
        match checked_decode_frame(frame) {
            None => FrameOutcome::NotFinite,
            Some(rotation) => {
                if self.set_rotation(addr, rotation) {
                    FrameOutcome::Applied
                } else {
                    FrameOutcome::UnknownClient
                }
            },
        }
    }

    /// Every registered client with its entry, in address order: the order
    /// in which the backend lays the shapes out.
    pub fn sorted_entries(&self) -> (v: Vec<(ClientAddr, ClientEntry)>)
        ensures
            strictly_sorted(v@.map_values(|p: (ClientAddr, ClientEntry)| p.0)),
            forall|i: int| 0 <= i < v@.len() ==> self@.contains_key(#[trigger] v@[i].0) && v@[i].1 == self@[v@[i].0],
            forall|a: ClientAddr| self@.contains_key(a) ==> exists|i: int| 0 <= i < v@.len() && #[trigger] v@[i].0 == a,
            forall|i: int, j: int| 0 <= i < j < v@.len() ==> (v@[i].0 is V4 && v@[j].0 is V4 ==> (#[trigger] v@[i]).0->V4_0 < (#[trigger] v@[j]).0->V4_0)
                && (v@[i].0 is V6 && v@[j].0 is V6 ==> v@[i].0->V6_0 < v@[j].0->V6_0) && !(v@[i].0 is V6 && v@[j].0 is V4),
    {
        let addrs = self.sorted_addrs();
        let mut v: Vec<(ClientAddr, ClientEntry)> = Vec::new();
        let mut i: usize = 0;
        while i < addrs.len()
            invariant
                i <= addrs@.len(),
                strictly_sorted(addrs@),
                forall|a: ClientAddr| #[trigger] addrs@.contains(a) <==> self@.contains_key(a),
                v@.len() == i,
                forall|j: int| 0 <= j < i ==> #[trigger] v@[j].0 == addrs@[j] && v@[j].1 == self@[addrs@[j]],
            decreases addrs@.len() - i,
        {
            let a = addrs[i];
            assert(addrs@.contains(a));
            let e = self.lookup(a);
            v.push((a, e.unwrap()));
            i = i + 1;
        }
        assert(v@.map_values(|p: (ClientAddr, ClientEntry)| p.0) =~= addrs@);
        assert forall|i: int, j: int| 0 <= i < j < v@.len() implies (v@[i].0 is V4 && v@[j].0 is V4 ==> (#[trigger] v@[i]).0->V4_0 < (#[trigger] v@[j]).0->V4_0)
            && (v@[i].0 is V6 && v@[j].0 is V6 ==> v@[i].0->V6_0 < v@[j].0->V6_0) && !(v@[i].0 is V6 && v@[j].0 is V4) by {
            assert(addr_lt(addrs@[i], addrs@[j]));
        }
        assert forall|j: int| 0 <= j < v@.len() implies self@.contains_key(#[trigger] v@[j].0) && v@[j].1 == self@[v@[j].0] by {
            assert(addrs@.contains(addrs@[j]));
        }
        assert forall|a: ClientAddr| self@.contains_key(a) implies exists|j: int| 0 <= j < v@.len() && #[trigger] v@[j].0 == a by {
            assert(addrs@.contains(a));
            let j = choose|j: int| 0 <= j < addrs@.len() && addrs@[j] == a;
            assert(v@[j].0 == a);
        }
        v
    }

    /// Sets the rotation about the vertical axis (`y`) of every client,
    /// keeping everything else; test mode turns all shapes this way.
    pub fn set_all_yaw(&mut self, y: u32)
        ensures
            final(self)@ == spec_set_all_yaw(old(self)@, y),
    {
        let addrs = self.sorted_addrs();
        let ghost start = self@;
        let mut i: usize = 0;
        while i < addrs.len()
            invariant
                i <= addrs@.len(),
                strictly_sorted(addrs@),
                forall|a: ClientAddr| #[trigger] addrs@.contains(a) <==> start.contains_key(a),
                self@.dom() == start.dom(),
                forall|j: int| 0 <= j < i ==> #[trigger] self@[addrs@[j]] == (ClientEntry {
                    shape: start[addrs@[j]].shape,
                    rotation: AxisBits { x: start[addrs@[j]].rotation.x, y, z: start[addrs@[j]].rotation.z },
                }),
                forall|j: int| i <= j < addrs@.len() ==> #[trigger] self@[addrs@[j]] == start[addrs@[j]],
            decreases addrs@.len() - i,
        {
            let a = addrs[i];
            assert(addrs@.contains(a));
            let e = self.lookup(a).unwrap();
            let ghost before = self@;
            self.put(a, ClientEntry { shape: e.shape, rotation: AxisBits { x: e.rotation.x, y, z: e.rotation.z } });
            assert forall|j: int| 0 <= j < addrs@.len() && j != i implies #[trigger] self@[addrs@[j]] == before[addrs@[j]] by {
                if j < i {
                    assert(addr_lt(addrs@[j], addrs@[i as int]));
                } else {
                    assert(addr_lt(addrs@[i as int], addrs@[j]));
                }
            }
            assert(self@.dom() =~= start.dom());
            i = i + 1;
        }
        assert(self@ =~= start.map_values(|e: ClientEntry| ClientEntry {
            shape: e.shape,
            rotation: AxisBits { x: e.rotation.x, y, z: e.rotation.z },
        })) by {
            assert forall|a: ClientAddr| #[trigger] self@.contains_key(a) implies self@[a] == (ClientEntry {
                shape: start[a].shape,
                rotation: AxisBits { x: start[a].rotation.x, y, z: start[a].rotation.z },
            }) by {
                assert(addrs@.contains(a));
                let j = choose|j: int| 0 <= j < addrs@.len() && addrs@[j] == a;
            }
        }
    }

    /// Enters the ten simulated clients of test mode: 192.168.0.1 to
    /// 192.168.0.10, with the four shapes in turn and zero rotation.
    pub fn add_test_clients(&mut self)
        ensures
            forall|i: int| 0 <= i < TEST_CLIENTS ==> #[trigger] final(self)@[test_client_addr(i)] == fresh_entry(spec_test_client_shape(i)),
            forall|a: ClientAddr| #[trigger] final(self)@.contains_key(a) <==> (old(self)@.contains_key(a) || is_test_client_addr(a)),
            forall|a: ClientAddr| old(self)@.contains_key(a) && !is_test_client_addr(a) ==> #[trigger] final(self)@[a] == old(self)@[a],
            forall|i: int| 0 <= i < 10 ==> final(self)@.contains_key(ClientAddr::V4((0xC0A8_0001 + i) as u32))
                && #[trigger] final(self)@[ClientAddr::V4((0xC0A8_0001 + i) as u32)] == (ClientEntry {
                    shape: if i % 4 == 0 { Shape::Cube } else if i % 4 == 1 { Shape::Pyramid } else if i % 4 == 2 { Shape::Torus } else { Shape::Cylinder },
                    rotation: AxisBits { x: 0, y: 0, z: 0 },
                }),
    {
        let mut i: usize = 0;
        while i < 10
            invariant
                i <= TEST_CLIENTS,
                forall|j: int| 0 <= j < i ==> #[trigger] self@[test_client_addr(j)] == fresh_entry(spec_test_client_shape(j)),
                forall|a: ClientAddr| #[trigger] self@.contains_key(a) <==> (old(self)@.contains_key(a)
                    || exists|j: int| 0 <= j < i && a == test_client_addr(j)),
                forall|a: ClientAddr| old(self)@.contains_key(a) && !is_test_client_addr(a) ==> #[trigger] self@[a] == old(self)@[a],
            decreases 10 - i,
        {
            let addr = ClientAddr::V4(0xC0A8_0001 + i as u32);
            assert(addr == test_client_addr(i as int));
            let shape = test_client_shape(i);
            self.put(addr, ClientEntry { shape, rotation: AxisBits::zero() });
            i = i + 1;
        }
        assert forall|a: ClientAddr| #[trigger] self@.contains_key(a) <==> (old(self)@.contains_key(a) || is_test_client_addr(a)) by {
            if is_test_client_addr(a) {
                let j = choose|j: int| 0 <= j < TEST_CLIENTS && a == test_client_addr(j);
            }
        }
        assert forall|i: int| 0 <= i < 10 implies self@.contains_key(ClientAddr::V4((0xC0A8_0001 + i) as u32))
            && #[trigger] self@[ClientAddr::V4((0xC0A8_0001 + i) as u32)] == (ClientEntry {
                shape: if i % 4 == 0 { Shape::Cube } else if i % 4 == 1 { Shape::Pyramid } else if i % 4 == 2 { Shape::Torus } else { Shape::Cylinder },
                rotation: AxisBits { x: 0, y: 0, z: 0 },
            }) by {
            lemma_test_clients_cycle_shapes(i);
            assert(self@[test_client_addr(i)] == fresh_entry(spec_test_client_shape(i)));
            assert(is_test_client_addr(test_client_addr(i)));
        }
    }
}

/// How many clients test mode simulates.
pub const TEST_CLIENTS: usize = 10;

/// The address of the `i`-th simulated client: 192.168.0.(i + 1).
pub open spec fn test_client_addr(i: int) -> ClientAddr {
    ClientAddr::V4((0xC0A8_0001 + i) as u32)
}

/// Whether `a` is one of the simulated clients of test mode.
pub open spec fn is_test_client_addr(a: ClientAddr) -> bool {
    exists|j: int| 0 <= j < TEST_CLIENTS && a == test_client_addr(j)
}

/// The table after every client's rotation about the vertical axis is
/// set to `y`.
pub open spec fn spec_set_all_yaw(m: Map<ClientAddr, ClientEntry>, y: u32) -> Map<ClientAddr, ClientEntry> {
    m.map_values(|e: ClientEntry| ClientEntry { shape: e.shape, rotation: AxisBits { x: e.rotation.x, y, z: e.rotation.z } })
}

/// Something that happens to the table.
#[derive(Debug, Clone, Copy)]
pub enum RegistryOp {
    /// A client connects (and would be given this shape if it is new).
    Connect(ClientAddr, Shape),
    /// A frame arrives from a client.
    Frame(ClientAddr, [u8; 12]),
    /// Test mode turns every shape.
    Yaw(u32),
}

/// The table after one operation.
pub open spec fn spec_apply_op(m: Map<ClientAddr, ClientEntry>, op: RegistryOp) -> Map<ClientAddr, ClientEntry> {
    match op {
        RegistryOp::Connect(a, s) => spec_register(m, a, s).0,
        RegistryOp::Frame(a, f) => spec_apply_frame(m, a, f@).0,
        RegistryOp::Yaw(y) => spec_set_all_yaw(m, y),
    }
}

/// The table after the operations `ops`, one after the other.
pub open spec fn spec_run_ops(m: Map<ClientAddr, ClientEntry>, ops: Seq<RegistryOp>) -> Map<ClientAddr, ClientEntry>
    decreases ops.len(),
{
    if ops.len() == 0 {
        m
    } else {
        spec_run_ops(spec_apply_op(m, ops[0]), ops.drop_first())
    }
}

/// A client, once known, stays known and keeps its shape, whatever
/// connects, reconnects, sends or disconnects afterwards: the table never
/// forgets a client and a client's shape is assigned once.
pub proof fn lemma_clients_keep_their_shape(m: Map<ClientAddr, ClientEntry>, ops: Seq<RegistryOp>, a: ClientAddr)
    requires
        m.contains_key(a),
    ensures
        spec_run_ops(m, ops).contains_key(a),
        spec_run_ops(m, ops)[a].shape == m[a].shape,
    decreases ops.len(),
{
    if ops.len() > 0 {
        let m1 = spec_apply_op(m, ops[0]);
        assert(m1.contains_key(a) && m1[a].shape == m[a].shape);
        lemma_clients_keep_their_shape(m1, ops.drop_first(), a);
    }
}

/// What the sensor sends arrives: the frame the firmware encodes for a
/// sample with finite axes becomes, at the backend, exactly the rotation of
/// the sending client, which keeps its shape.
pub proof fn lemma_sent_sample_becomes_rotation(m: Map<ClientAddr, ClientEntry>, addr: ClientAddr, s: AxisBits)
    requires
        m.contains_key(addr),
        spec_all_finite(s),
    ensures
        spec_apply_frame(m, addr, spec_encode(s))
            == (m.insert(addr, ClientEntry { shape: m[addr].shape, rotation: s }), FrameOutcome::Applied),
{
    lemma_decode_encode(s);
}

} // verus!
