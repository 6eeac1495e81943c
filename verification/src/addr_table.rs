//! Tables keyed by IP address, and the order of IP addresses.

use vstd::prelude::*;
use std::collections::HashMap;
use vstd::std_specs::hash::spec_keys_iter;
use vstd::std_specs::iter::IteratorSpec;

verus! {

broadcast use vstd::std_specs::hash::group_hash_axioms;

/// An IP address: IPv4 as its 32-bit value, IPv6 as its 128-bit value.
#[derive(Debug, Clone, Copy, PartialEq, Eq, Structural)]
pub enum ClientAddr {
    V4(u32),
    V6(u128),
}

/// The order of `std::net::IpAddr`: every IPv4 address before every IPv6
/// address, each family by its numeric value.
pub open spec fn addr_lt(a: ClientAddr, b: ClientAddr) -> bool {
    match (a, b) {
        (ClientAddr::V4(x), ClientAddr::V4(y)) => x < y,
        (ClientAddr::V4(_), ClientAddr::V6(_)) => true,
        (ClientAddr::V6(_), ClientAddr::V4(_)) => false,
        (ClientAddr::V6(x), ClientAddr::V6(y)) => x < y,
    }
}

/// Whether `a` comes before `b` in address order.
pub fn addr_less(a: ClientAddr, b: ClientAddr) -> (r: bool)
    ensures
        r == addr_lt(a, b),
        (a is V4 && b is V4) ==> (r <==> a->V4_0 < b->V4_0),
        (a is V6 && b is V6) ==> (r <==> a->V6_0 < b->V6_0),
        (a is V4 && b is V6) ==> r,
        (a is V6 && b is V4) ==> !r,
{
    match (a, b) {
        (ClientAddr::V4(x), ClientAddr::V4(y)) => x < y,
        (ClientAddr::V4(_), ClientAddr::V6(_)) => true,
        (ClientAddr::V6(_), ClientAddr::V4(_)) => false,
        (ClientAddr::V6(x), ClientAddr::V6(y)) => x < y,
    }
}

/// A sequence of addresses in strictly increasing address order.
pub open spec fn strictly_sorted(s: Seq<ClientAddr>) -> bool {
    forall|i: int, j: int| 0 <= i < j < s.len() ==> addr_lt(#[trigger] s[i], #[trigger] s[j])
}

/// A table keyed by IP address, in two hash maps: one for IPv4 and one
/// for IPv6 addresses.
pub struct AddrTable<V> {
    v4: HashMap<u32, V>,
    v6: HashMap<u128, V>,
}

impl<V> View for AddrTable<V> {
    type V = Map<ClientAddr, V>;

    closed spec fn view(&self) -> Map<ClientAddr, V> {
        Map::new(
            |a: ClientAddr|
                match a {
                    ClientAddr::V4(x) => self.v4@.contains_key(x),
                    ClientAddr::V6(x) => self.v6@.contains_key(x),
                },
            |a: ClientAddr|
                match a {
                    ClientAddr::V4(x) => self.v4@[x],
                    ClientAddr::V6(x) => self.v6@[x],
                },
        )
    }
}

/// Inserts `a` at its place in a strictly sorted vector that does not hold
/// it yet.
fn insert_sorted(v: &mut Vec<ClientAddr>, a: ClientAddr)
    requires
        strictly_sorted(old(v)@),
        !old(v)@.contains(a),
    ensures
        strictly_sorted(final(v)@),
        forall|x: ClientAddr| #[trigger] final(v)@.contains(x) <==> (old(v)@.contains(x) || x == a),
        final(v)@.len() == old(v)@.len() + 1,
{
    let mut pos: usize = 0;
    while pos < v.len() && addr_less(v[pos], a)
        invariant
            pos <= v@.len(),
            forall|i: int| 0 <= i < pos ==> addr_lt(#[trigger] v@[i], a),
        decreases v@.len() - pos,
    {
        pos = pos + 1;
    }
    let ghost before = v@;
    v.insert(pos, a);
    assert forall|i: int, j: int| 0 <= i < j < v@.len() implies addr_lt(#[trigger] v@[i], #[trigger] v@[j]) by {
        if pos < before.len() {
            assert(before[pos as int] != a);
            assert(addr_lt(a, before[pos as int]));
        }
        if j < pos {
        } else if j == pos {
        } else if i < pos {
            assert(addr_lt(before[i], a));
            if pos < before.len() {
                assert(addr_lt(a, before[j - 1])) by {
                    if j - 1 > pos {
                        assert(addr_lt(before[pos as int], before[j - 1]));
                    }
                }
            }
        } else if i == pos {
            if j - 1 > pos {
                assert(addr_lt(before[pos as int], before[j - 1]));
            }
        } else {
            assert(addr_lt(before[i - 1], before[j - 1]));
        }
    }
    assert forall|x: ClientAddr| #[trigger] v@.contains(x) <==> (before.contains(x) || x == a) by {
        if v@.contains(x) {
            let k = choose|k: int| 0 <= k < v@.len() && v@[k] == x;
            if k < pos {
                assert(before[k] == x);
            } else if k > pos {
                assert(before[k - 1] == x);
            }
        }
        if before.contains(x) {
            let k = choose|k: int| 0 <= k < before.len() && before[k] == x;
            if k < pos {
                assert(v@[k] == x);
            } else {
                assert(v@[k + 1] == x);
            }
        }
        if x == a {
            assert(v@[pos as int] == a);
        }
    }
}

impl<V: Copy> AddrTable<V> {
    /// An empty table.
    pub fn new() -> (r: AddrTable<V>)
        ensures
            r@ == Map::<ClientAddr, V>::empty(),
    {
        let r = AddrTable { v4: HashMap::new(), v6: HashMap::new() };
        assert(r@ =~= Map::<ClientAddr, V>::empty());
        r
    }

    /// The value stored for `addr`, if any.
    pub fn lookup(&self, addr: ClientAddr) -> (r: Option<V>)
        ensures
            r == (if self@.contains_key(addr) { Some(self@[addr]) } else { None::<V> }),
    {
        match addr {
            ClientAddr::V4(x) => match self.v4.get(&x) {
                Some(e) => Some(*e),
                None => None,
            },
            ClientAddr::V6(x) => match self.v6.get(&x) {
                Some(e) => Some(*e),
                None => None,
            },
        }
    }

    /// Stores `e` for `addr`, replacing what was stored for it.
    pub fn put(&mut self, addr: ClientAddr, e: V)
        ensures
            final(self)@ == old(self)@.insert(addr, e),
    {
        match addr {
            ClientAddr::V4(x) => {
                self.v4.insert(x, e);
            },
            ClientAddr::V6(x) => {
                self.v6.insert(x, e);
            },
        }
        assert(self@ =~= old(self)@.insert(addr, e));
    }

    /// The addresses in the table, in address order.
    pub fn sorted_addrs(&self) -> (v: Vec<ClientAddr>)
        ensures
            strictly_sorted(v@),
            forall|a: ClientAddr| #[trigger] v@.contains(a) <==> self@.contains_key(a),
            forall|i: int, j: int| 0 <= i < j < v@.len() ==> (v@[i] is V4 && v@[j] is V4 ==> (#[trigger] v@[i])->V4_0 < (#[trigger] v@[j])->V4_0)
                && (v@[i] is V6 && v@[j] is V6 ==> v@[i]->V6_0 < v@[j]->V6_0) && !(v@[i] is V6 && v@[j] is V4),
    {
        let mut v: Vec<ClientAddr> = Vec::new();
        let ghost ks4 = spec_keys_iter(&self.v4).remaining();
        for k in it: self.v4.keys()
            invariant
                strictly_sorted(v@),
                it.seq() == ks4,
                ks4 == spec_keys_iter(&self.v4).remaining(),
                ks4.no_duplicates(),
                forall|a: ClientAddr| #[trigger] v@.contains(a) <==> exists|i: int| 0 <= i < it.index() && a == ClientAddr::V4(*it.seq()[i]),
        {
            assert(!v@.contains(ClientAddr::V4(*k))) by {
                if v@.contains(ClientAddr::V4(*k)) {
                    let i = choose|i: int| 0 <= i < it.index() && ClientAddr::V4(*k) == ClientAddr::V4(*it.seq()[i]);
                    assert(it.seq()[i] == it.seq()[it.index()]);
                }
            }
            let ghost before = v@;
            insert_sorted(&mut v, ClientAddr::V4(*k));
            assert forall|a: ClientAddr| #[trigger] v@.contains(a) <==> exists|i: int| 0 <= i < it.index() + 1 && a == ClientAddr::V4(*it.seq()[i]) by {
                if v@.contains(a) && !before.contains(a) {
                    assert(a == ClientAddr::V4(*it.seq()[it.index()]));
                }
            }
        }
        proof {
            assert forall|a: ClientAddr| #[trigger] v@.contains(a) <==> (a is V4 && self.v4@.contains_key(a->V4_0)) by {
                if a is V4 && self.v4@.contains_key(a->V4_0) {
                    assert(ks4.unref().to_set().contains(a->V4_0));
                    assert(ks4.unref().contains(a->V4_0));
                    let i = choose|i: int| 0 <= i < ks4.len() && ks4.unref()[i] == a->V4_0;
                    assert(a == ClientAddr::V4(*ks4[i]));
                }
                if v@.contains(a) {
                    let i = choose|i: int| 0 <= i < ks4.len() && a == ClientAddr::V4(*ks4[i]);
                    assert(ks4.unref()[i] == a->V4_0);
                    assert(ks4.unref().to_set().contains(a->V4_0));
                }
            }
        }
        let ghost after_v4 = v@;
        let ghost ks6 = spec_keys_iter(&self.v6).remaining();
        for k in it: self.v6.keys()
            invariant
                strictly_sorted(v@),
                it.seq() == ks6,
                ks6 == spec_keys_iter(&self.v6).remaining(),
                ks6.no_duplicates(),
                forall|a: ClientAddr| #[trigger] after_v4.contains(a) <==> (a is V4 && self.v4@.contains_key(a->V4_0)),
                forall|a: ClientAddr| #[trigger] v@.contains(a) <==> (after_v4.contains(a)
                    || exists|i: int| 0 <= i < it.index() && a == ClientAddr::V6(*it.seq()[i])),
        {
            assert(!v@.contains(ClientAddr::V6(*k))) by {
                if v@.contains(ClientAddr::V6(*k)) {
                    assert(!after_v4.contains(ClientAddr::V6(*k)));
                    let i = choose|i: int| 0 <= i < it.index() && ClientAddr::V6(*k) == ClientAddr::V6(*it.seq()[i]);
                    assert(it.seq()[i] == it.seq()[it.index()]);
                }
            }
            let ghost before = v@;
            insert_sorted(&mut v, ClientAddr::V6(*k));
            assert forall|a: ClientAddr| #[trigger] v@.contains(a) <==> (after_v4.contains(a)
                || exists|i: int| 0 <= i < it.index() + 1 && a == ClientAddr::V6(*it.seq()[i])) by {
                if v@.contains(a) && !before.contains(a) {
                    assert(a == ClientAddr::V6(*it.seq()[it.index()]));
                }
            }
        }
        proof {
            assert forall|a: ClientAddr| #[trigger] v@.contains(a) <==> self@.contains_key(a) by {
                if a is V6 && self.v6@.contains_key(a->V6_0) {
                    assert(ks6.unref().to_set().contains(a->V6_0));
                    assert(ks6.unref().contains(a->V6_0));
                    let i = choose|i: int| 0 <= i < ks6.len() && ks6.unref()[i] == a->V6_0;
                    assert(a == ClientAddr::V6(*ks6[i]));
                }
                if v@.contains(a) && a is V6 {
                    assert(!after_v4.contains(a));
                    let i = choose|i: int| 0 <= i < ks6.len() && a == ClientAddr::V6(*ks6[i]);
                    assert(ks6.unref()[i] == a->V6_0);
                    assert(ks6.unref().to_set().contains(a->V6_0));
                }
            }
            lemma_sorted_is_ip_order(v@);
        }
        v
    }

}

/// Two listings in strictly increasing address order that hold the same
/// addresses are the same listing: the layout order depends only on who is
/// connected, not on the order of connection or of the hash table.
pub proof fn lemma_sorted_listing_unique(s1: Seq<ClientAddr>, s2: Seq<ClientAddr>)
    requires
        strictly_sorted(s1),
        strictly_sorted(s2),
        forall|a: ClientAddr| #![trigger s1.contains(a)] #![trigger s2.contains(a)] s1.contains(a) <==> s2.contains(a),
    ensures
        s1 == s2,
    decreases s1.len() + s2.len(),
{
    if s1.len() == 0 {
        if s2.len() > 0 {
            assert(s2.contains(s2[0]));
            assert(s1.contains(s2[0]));
            assert(false);
        }
        assert(s1 =~= s2);
    } else if s2.len() == 0 {
        assert(s1.contains(s1[0]));
        assert(s2.contains(s1[0]));
        assert(false);
    } else {
        // the first elements are the least of the same set
        assert(s1.contains(s1[0]));
        assert(s2.contains(s2[0]));
        let i = choose|i: int| 0 <= i < s1.len() && s1[i] == s2[0];
        let j = choose|j: int| 0 <= j < s2.len() && s2[j] == s1[0];
        if i > 0 {
            assert(addr_lt(s1[0], s1[i]));
            if j > 0 {
                assert(addr_lt(s2[0], s2[j]));
            }
        }
        if j > 0 {
            assert(addr_lt(s2[0], s2[j]));
        }
        assert(s1[0] == s2[0]);
        let t1 = s1.drop_first();
        let t2 = s2.drop_first();
        assert forall|x: int, y: int| 0 <= x < y < t1.len() implies addr_lt(#[trigger] t1[x], #[trigger] t1[y]) by {
            assert(addr_lt(s1[x + 1], s1[y + 1]));
        }
        assert forall|x: int, y: int| 0 <= x < y < t2.len() implies addr_lt(#[trigger] t2[x], #[trigger] t2[y]) by {
            assert(addr_lt(s2[x + 1], s2[y + 1]));
        }
        assert forall|a: ClientAddr| #![trigger t1.contains(a)] #![trigger t2.contains(a)] t1.contains(a) <==> t2.contains(a) by {
            if t1.contains(a) {
                let k = choose|k: int| 0 <= k < t1.len() && t1[k] == a;
                assert(s1[k + 1] == a);
                assert(addr_lt(s1[0], s1[k + 1]));
                assert(s2.contains(a));
                let l = choose|l: int| 0 <= l < s2.len() && s2[l] == a;
                assert(l != 0);
                assert(t2[l - 1] == a);
            }
            if t2.contains(a) {
                let k = choose|k: int| 0 <= k < t2.len() && t2[k] == a;
                assert(s2[k + 1] == a);
                assert(addr_lt(s2[0], s2[k + 1]));
                assert(s1.contains(a));
                let l = choose|l: int| 0 <= l < s1.len() && s1[l] == a;
                assert(l != 0);
                assert(t1[l - 1] == a);
            }
        }
        lemma_sorted_listing_unique(t1, t2);
        assert(s1 =~= s2) by {
            assert forall|k: int| 0 <= k < s1.len() implies s1[k] == s2[k] by {
                if k > 0 {
                    assert(s1[k] == t1[k - 1]);
                    assert(s2[k] == t2[k - 1]);
                }
            }
        }
    }
}

/// The address order is the order of `std::net::IpAddr`: IPv4 addresses
/// by their 32-bit value (which orders them octet by octet, most
/// significant first), then all IPv6 addresses by their 128-bit value. It
/// is a strict total order.
pub proof fn lemma_addr_order(a: ClientAddr, b: ClientAddr, c: ClientAddr)
    ensures
        forall|x: u32, y: u32| #[trigger] addr_lt(ClientAddr::V4(x), ClientAddr::V4(y)) <==> x < y,
        forall|x: u128, y: u128| #[trigger] addr_lt(ClientAddr::V6(x), ClientAddr::V6(y)) <==> x < y,
        forall|x: u32, y: u128| #[trigger] addr_lt(ClientAddr::V4(x), ClientAddr::V6(y)) && !addr_lt(ClientAddr::V6(y), ClientAddr::V4(x)),
        !addr_lt(a, a),
        addr_lt(a, b) && addr_lt(b, c) ==> addr_lt(a, c),
        a != b ==> (addr_lt(a, b) || addr_lt(b, a)),
        addr_lt(a, b) ==> !addr_lt(b, a),
{
}

/// A listing in strictly increasing address order lists the IPv4
/// addresses first, by increasing 32-bit value, then the IPv6 addresses by
/// increasing 128-bit value.
pub proof fn lemma_sorted_is_ip_order(s: Seq<ClientAddr>)
    requires
        strictly_sorted(s),
    ensures
        forall|i: int, j: int| 0 <= i < j < s.len() ==> (s[i] is V4 && s[j] is V4 ==> (#[trigger] s[i])->V4_0 < (#[trigger] s[j])->V4_0)
            && (s[i] is V6 && s[j] is V6 ==> s[i]->V6_0 < s[j]->V6_0) && !(s[i] is V6 && s[j] is V4),
{
    assert forall|i: int, j: int| 0 <= i < j < s.len() implies (s[i] is V4 && s[j] is V4 ==> (#[trigger] s[i])->V4_0 < (#[trigger] s[j])->V4_0)
        && (s[i] is V6 && s[j] is V6 ==> s[i]->V6_0 < s[j]->V6_0) && !(s[i] is V6 && s[j] is V4) by {
        assert(addr_lt(s[i], s[j]));
    }
}

} // verus!
