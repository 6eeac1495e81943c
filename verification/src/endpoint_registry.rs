//! The backend's table of sensors keyed by their TCP endpoint (address
//! and port), as the workshop's first backend keeps it. A sensor that
//! reconnects from the same address but a new port moves its entry, shape
//! and rotation, to the new endpoint; the old endpoint is forgotten.

use vstd::prelude::*;
use crate::addr_table::{AddrTable, ClientAddr, strictly_sorted};
use crate::protocol::{AxisBits, decode_frame, spec_decode};
use crate::registry::{ClientEntry, fresh_entry};
use crate::shape::{Shape, random_shape};

verus! {

/// A client's entry together with the port it connected from.
#[derive(Debug, Clone, Copy, PartialEq, Eq, Structural)]
pub struct EndpointEntry {
    pub port: u16,
    pub entry: ClientEntry,
}

/// Registered endpoints: at most one per address.
pub struct EndpointRegistry {
    table: AddrTable<EndpointEntry>,
}

impl View for EndpointRegistry {
    type V = Map<(ClientAddr, u16), ClientEntry>;

    closed spec fn view(&self) -> Map<(ClientAddr, u16), ClientEntry> {
        Map::new(
            |k: (ClientAddr, u16)| self.table@.contains_key(k.0) && self.table@[k.0].port == k.1,
            |k: (ClientAddr, u16)| self.table@[k.0].entry,
        )
    }
}

/// A table of endpoints holds at most one endpoint per address.
pub open spec fn one_port_per_addr(m: Map<(ClientAddr, u16), ClientEntry>) -> bool {
    forall|a: ClientAddr, p: u16, q: u16| m.contains_key((a, p)) && m.contains_key((a, q)) ==> p == q
}

/// The endpoint registered for address `a`, if any.
pub open spec fn spec_port_of(m: Map<(ClientAddr, u16), ClientEntry>, a: ClientAddr) -> Option<u16> {
    if exists|p: u16| m.contains_key((a, p)) {
        Some(choose|p: u16| m.contains_key((a, p)))
    } else {
        None
    }
}

/// The table after a client connects from `(addr, port)`: if its address
/// is registered (from whatever port), the entry moves to the new endpoint
/// unchanged; otherwise the endpoint is entered with `shape_if_new` and
/// zero rotation.
pub open spec fn spec_connect_endpoint(m: Map<(ClientAddr, u16), ClientEntry>, addr: ClientAddr, port: u16, shape_if_new: Shape) -> Map<(ClientAddr, u16), ClientEntry> {
    match spec_port_of(m, addr) {
        Some(old_port) => m.remove((addr, old_port)).insert((addr, port), m[(addr, old_port)]),
        None => m.insert((addr, port), fresh_entry(shape_if_new)),
    }
}

impl EndpointRegistry {
    /// A registry with no endpoints.
    pub fn new() -> (r: EndpointRegistry)
        ensures
            r@ == Map::<(ClientAddr, u16), ClientEntry>::empty(),
            one_port_per_addr(r@),
    {
        let r = EndpointRegistry { table: AddrTable::new() };
        assert(r@ =~= Map::<(ClientAddr, u16), ClientEntry>::empty());
        r
    }

    proof fn lemma_view(&self)
        ensures
            one_port_per_addr(self@),
            forall|a: ClientAddr| #[trigger] spec_port_of(self@, a) == (if self.table@.contains_key(a) {
                Some(self.table@[a].port)
            } else {
                None::<u16>
            }),
    {
        assert forall|a: ClientAddr| #[trigger] spec_port_of(self@, a) == (if self.table@.contains_key(a) {
            Some(self.table@[a].port)
        } else {
            None::<u16>
        }) by {
            if self.table@.contains_key(a) {
                assert(self@.contains_key((a, self.table@[a].port)));
            }
        }
    }

    /// Registers a client connecting from `(addr, port)` and returns its
    /// shape: a known address keeps its entry, which moves to the new
    /// port; a new address is entered with `shape_if_new`.
    pub fn connect_with_shape(&mut self, addr: ClientAddr, port: u16, shape_if_new: Shape) -> (s: Shape)
        ensures
            final(self)@ == spec_connect_endpoint(old(self)@, addr, port, shape_if_new),
            one_port_per_addr(final(self)@),
            s == final(self)@[(addr, port)].shape,
            spec_port_of(old(self)@, addr) is Some ==> s == old(self)@[(addr, spec_port_of(old(self)@, addr)->0)].shape,
            spec_port_of(old(self)@, addr) is None ==> s == shape_if_new,
    {
        proof {
            self.lemma_view();
        }
        let e = match self.table.lookup(addr) {
            Some(found) => found.entry,
            None => ClientEntry { shape: shape_if_new, rotation: AxisBits::zero() },
        };
        let ghost before = *self;
        self.table.put(addr, EndpointEntry { port, entry: e });
        proof {
            self.lemma_view();
            assert(self@ =~= spec_connect_endpoint(before@, addr, port, shape_if_new));
        }
        e.shape
    }

    /// Registers a client connecting from `(addr, port)`, drawing a random
    /// shape only for a new address. Returns its shape.
    pub fn connect(&mut self, addr: ClientAddr, port: u16) -> (s: Shape)
        ensures
            final(self)@ == spec_connect_endpoint(old(self)@, addr, port, s),
            one_port_per_addr(final(self)@),
            spec_port_of(old(self)@, addr) is Some ==> s == old(self)@[(addr, spec_port_of(old(self)@, addr)->0)].shape,
    {
        proof {
            self.lemma_view();
        }
        let shape = match self.table.lookup(addr) {
            Some(found) => found.entry.shape,
            None => random_shape(),
        };
        self.connect_with_shape(addr, port, shape)
    }

    /// Takes a frame from `(addr, port)` as the rotation of that endpoint,
    /// if it is registered; a stale endpoint (the address reconnected from
    /// another port) changes nothing. Returns whether it was taken.
    pub fn apply_frame(&mut self, addr: ClientAddr, port: u16, frame: &[u8; 12]) -> (taken: bool)
        ensures
            taken == old(self)@.contains_key((addr, port)),
            taken ==> final(self)@ == old(self)@.insert((addr, port), ClientEntry {
                shape: old(self)@[(addr, port)].shape,
                rotation: spec_decode(frame@),
            }),
            !taken ==> final(self)@ == old(self)@,
            one_port_per_addr(final(self)@),
    {
        proof {
            self.lemma_view();
        }
        let rotation = decode_frame(frame);
        match self.table.lookup(addr) {
            Some(found) => {
                if found.port == port {
                    let ghost before = *self;
                    self.table.put(addr, EndpointEntry { port, entry: ClientEntry { shape: found.entry.shape, rotation } });
                    proof {
                        self.lemma_view();
                        assert(self@ =~= before@.insert((addr, port), ClientEntry { shape: before@[(addr, port)].shape, rotation: spec_decode(frame@) }));
                    }
                    true
                } else {
                    false
                }
            },
            None => false,
        }
    }

    /// Every registered endpoint with its entry, in address order: each
    /// address once, in strictly increasing order.
    pub fn entries(&self) -> (v: Vec<(ClientAddr, u16, ClientEntry)>)
        ensures
            strictly_sorted(v@.map_values(|p: (ClientAddr, u16, ClientEntry)| p.0)),
            forall|i: int| 0 <= i < v@.len() ==> self@.contains_key((#[trigger] v@[i].0, v@[i].1)) && v@[i].2 == self@[(v@[i].0, v@[i].1)],
            forall|a: ClientAddr, p: u16| #[trigger] self@.contains_key((a, p)) ==> exists|i: int| 0 <= i < v@.len() && #[trigger] v@[i] == (a, p, self@[(a, p)]),
    {
        let addrs = self.table.sorted_addrs();
        let mut v: Vec<(ClientAddr, u16, ClientEntry)> = Vec::new();
        let mut i: usize = 0;
        while i < addrs.len()
            invariant
                i <= addrs@.len(),
                strictly_sorted(addrs@),
                forall|a: ClientAddr| #[trigger] addrs@.contains(a) <==> self.table@.contains_key(a),
                v@.len() == i,
                forall|j: int| 0 <= j < i ==> #[trigger] v@[j] == (addrs@[j], self.table@[addrs@[j]].port, self.table@[addrs@[j]].entry),
            decreases addrs@.len() - i,
        {
            let a = addrs[i];
            assert(addrs@.contains(a));
            let e = self.table.lookup(a).unwrap();
            v.push((a, e.port, e.entry));
            i = i + 1;
        }
        assert(v@.map_values(|p: (ClientAddr, u16, ClientEntry)| p.0) =~= addrs@);
        assert forall|j: int| 0 <= j < v@.len() implies self@.contains_key((#[trigger] v@[j].0, v@[j].1)) && v@[j].2 == self@[(v@[j].0, v@[j].1)] by {
            assert(addrs@.contains(addrs@[j]));
        }
        assert forall|a: ClientAddr, p: u16| #[trigger] self@.contains_key((a, p)) implies exists|j: int| 0 <= j < v@.len() && #[trigger] v@[j] == (a, p, self@[(a, p)]) by {
            assert(addrs@.contains(a));
            let j = choose|j: int| 0 <= j < addrs@.len() && addrs@[j] == a;
            assert(v@[j] == (a, p, self@[(a, p)]));
        }
        v
    }
}

} // verus!
