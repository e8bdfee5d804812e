//! Routing of probe events to the modules that registered for them.

use vstd::prelude::*;
use std::collections::{HashMap, HashSet};
use crate::probes::{ProbeEvent, ProbeType};

verus! {

broadcast use vstd::std_specs::hash::group_hash_axioms;

pub open spec fn type_index(t: ProbeType) -> int {
    match t {
        ProbeType::TcpSendMsg => 0,
        ProbeType::TcpProbe => 1,
        ProbeType::TcpRetransmitSkb => 2,
        ProbeType::TcpSendReset => 3,
        ProbeType::TcpReceiveReset => 4,
        ProbeType::SockDefReadable => 5,
        ProbeType::UdpRecvMsg => 6,
    }
}

/// Integer key of a route: the probe type and the port (None = all ports).
pub open spec fn spec_route_key(t: ProbeType, port: Option<u16>) -> u32 {
    (type_index(t) * 65537 + match port {
        None => 0,
        Some(p) => p + 1,
    }) as u32
}

pub proof fn lemma_route_key_injective(t1: ProbeType, p1: Option<u16>, t2: ProbeType, p2: Option<u16>)
    ensures
        spec_route_key(t1, p1) == spec_route_key(t2, p2) <==> (t1 == t2 && p1 == p2),
{
}

fn route_key(t: ProbeType, port: Option<u16>) -> (k: u32)
    ensures
        k == spec_route_key(t, port),
{
    let ti: u32 = match t {
        ProbeType::TcpSendMsg => 0,
        ProbeType::TcpProbe => 1,
        ProbeType::TcpRetransmitSkb => 2,
        ProbeType::TcpSendReset => 3,
        ProbeType::TcpReceiveReset => 4,
        ProbeType::SockDefReadable => 5,
        ProbeType::UdpRecvMsg => 6,
    };
    let p: u32 = match port {
        None => 0,
        Some(p) => p as u32 + 1,
    };
    ti * 65537 + p
}

/// Keeps the first occurrence of each element.
pub open spec fn dedup(s: Seq<usize>) -> Seq<usize>
    decreases s.len(),
{
    if s.len() == 0 {
        s
    } else {
        let d = dedup(s.drop_last());
        if d.contains(s.last()) {
            d
        } else {
            d.push(s.last())
        }
    }
}

pub proof fn lemma_push_contains(s: Seq<usize>, y: usize, x: usize)
    ensures
        s.push(y).contains(x) <==> (s.contains(x) || x == y),
{
    if s.push(y).contains(x) && x != y {
        let k = choose|k: int| 0 <= k < s.push(y).len() && s.push(y)[k] == x;
        assert(s[k] == x);
    }
    if s.contains(x) {
        let k = choose|k: int| 0 <= k < s.len() && s[k] == x;
        assert(s.push(y)[k] == x);
    }
    if x == y {
        assert(s.push(y)[s.len() as int] == x);
    }
}

pub proof fn lemma_dedup_push(s: Seq<usize>, x: usize)
    ensures
        dedup(s.push(x)) == if dedup(s).contains(x) { dedup(s) } else { dedup(s).push(x) },
{
    assert(s.push(x).drop_last() == s);
}

pub proof fn lemma_dedup(s: Seq<usize>)
    ensures
        forall|x: usize| dedup(s).contains(x) <==> s.contains(x),
        forall|i: int, j: int| 0 <= i < j < dedup(s).len() ==> dedup(s)[i] != dedup(s)[j],
    decreases s.len(),
{
    if s.len() > 0 {
        let t = s.drop_last();
        let y = s.last();
        lemma_dedup(t);
        assert(s == t.push(y));
        lemma_dedup_push(t, y);
        assert forall|x: usize| dedup(s).contains(x) <==> s.contains(x) by {
            lemma_push_contains(t, y, x);
            lemma_push_contains(dedup(t), y, x);
        }
    }
}

/// Maps `(ProbeType, Option<port>)` to module indices.
///
/// `None` port means the module registered for all ports on that probe type.
/// `Some(port)` means the module registered for that specific port only.
///
/// On dispatch, a module receives an event at most once even if it matches on
/// both a wildcard registration and a port-specific one.
pub struct RouteTable {
    routes: HashMap<u32, Vec<usize>>,
}

impl RouteTable {
    /// Module indices registered under a route, in registration order.
    pub closed spec fn routes(&self, t: ProbeType, port: Option<u16>) -> Seq<usize> {
        if self.routes@.contains_key(spec_route_key(t, port)) {
            self.routes@[spec_route_key(t, port)]@
        } else {
            Seq::empty()
        }
    }

    /// The modules an event of type `t` on `port` goes to, in call order:
    /// those registered for all ports, then those registered for the port,
    /// each once.
    pub open spec fn targets(&self, t: ProbeType, port: Option<u16>) -> Seq<usize> {
        dedup(self.routes(t, None) + match port {
            Some(p) => self.routes(t, Some(p)),
            None => Seq::empty(),
        })
    }

    pub fn new() -> (r: Self)
        ensures
            forall|t: ProbeType, p: Option<u16>| r.routes(t, p) == Seq::<usize>::empty(),
    {
        RouteTable { routes: HashMap::new() }
    }

    pub fn register(&mut self, probe_type: ProbeType, port: Option<u16>, module_idx: usize)
        ensures
            final(self).routes(probe_type, port) == old(self).routes(probe_type, port).push(module_idx),
            forall|t: ProbeType, p: Option<u16>|
                !(t == probe_type && p == port) ==> final(self).routes(t, p) == old(self).routes(t, p),
    {
        let key = route_key(probe_type, port);
        let mut idxs = match self.routes.remove(&key) {
            Some(v) => v,
            None => Vec::new(),
        };
        idxs.push(module_idx);
        self.routes.insert(key, idxs);
        proof {
            assert forall|t: ProbeType, p: Option<u16>|
                !(t == probe_type && p == port) implies final(self).routes(t, p) == old(self).routes(t, p) by {
                lemma_route_key_injective(t, p, probe_type, port);
            }
        }
    }

    /// Dispatch order for `event`: every module whose registration matches
    /// its probe type and port, each exactly once.
    pub fn dispatch(&self, event: &ProbeEvent) -> (r: Vec<usize>)
        ensures
            r@ == self.targets(event.spec_probe_type(), event.spec_dest_port()),
    {
        let probe_type = event.probe_type();
        let port = event.dest_port();
        let mut dispatched: HashSet<usize> = HashSet::new();
        let mut out: Vec<usize> = Vec::new();
        let ghost mut seen: Seq<usize> = Seq::empty();
        let ghost all = self.routes(probe_type, None) + match port {
            Some(p) => self.routes(probe_type, Some(p)),
            None => Seq::empty(),
        };

        let wkey = route_key(probe_type, None);
        match self.routes.get(&wkey) {
            Some(idxs) => {
                let mut i: usize = 0;
                while i < idxs.len()
                    invariant
                        i <= idxs@.len(),
                        idxs@ == self.routes(probe_type, None),
                        seen == idxs@.take(i as int),
                        out@ == dedup(seen),
                        forall|x: usize| dispatched@.contains(x) <==> seen.contains(x),
                    decreases idxs@.len() - i,
                {
                    let idx = idxs[i];
                    proof {
                        lemma_dedup(seen);
                        lemma_dedup_push(seen, idx);
                        assert(idxs@.take(i + 1) == seen.push(idx));
                        assert forall|x: usize| seen.push(idx).contains(x) <==> (seen.contains(x) || x == idx) by {
                            lemma_push_contains(seen, idx, x);
                        }
                    }
                    let ghost d0 = dispatched@;
                    let ghost s0 = seen;
                    let ghost o0 = out@;
                    assert(d0.contains(idx) <==> s0.contains(idx));
                    assert(dedup(s0).contains(idx) <==> s0.contains(idx));
                    let ins = dispatched.insert(idx);
                    assert(ins == !d0.contains(idx));
                    assert(dispatched@ == d0.insert(idx));
                    if ins {
                        out.push(idx);
                    }
                    proof {
                        seen = seen.push(idx);
                        assert(seen.drop_last() == idxs@.take(i as int));
                        assert(seen == s0.push(idx));
                        assert(dedup(seen) == if dedup(s0).contains(idx) { dedup(s0) } else { dedup(s0).push(idx) });
                        assert(out@ == dedup(seen));
                        assert forall|x: usize| dispatched@.contains(x) <==> seen.contains(x) by {
                            lemma_push_contains(s0, idx, x);
                        }
                    }
                    i += 1;
                }
                assert(idxs@.take(idxs@.len() as int) == idxs@);
            },
            None => {},
        }
        assert(seen == self.routes(probe_type, None));
        match port {
            Some(p) => {
                let pkey = route_key(probe_type, Some(p));
                match self.routes.get(&pkey) {
                    Some(idxs) => {
                        let ghost base = seen;
                        let mut i: usize = 0;
                        while i < idxs.len()
                            invariant
                                i <= idxs@.len(),
                                idxs@ == self.routes(probe_type, Some(p)),
                                seen == base + idxs@.take(i as int),
                                out@ == dedup(seen),
                                forall|x: usize| dispatched@.contains(x) <==> seen.contains(x),
                            decreases idxs@.len() - i,
                        {
                            let idx = idxs[i];
                            proof {
                                lemma_dedup(seen);
                                lemma_dedup_push(seen, idx);
                                assert forall|x: usize| seen.push(idx).contains(x) <==> (seen.contains(x) || x == idx) by {
                                    lemma_push_contains(seen, idx, x);
                                }
                            }
                            let ghost d0 = dispatched@;
                            let ghost s0 = seen;
                            assert(d0.contains(idx) <==> s0.contains(idx));
                            assert(dedup(s0).contains(idx) <==> s0.contains(idx));
                            let ins = dispatched.insert(idx);
                            if ins {
                                out.push(idx);
                            }
                            proof {
                                assert(base + idxs@.take(i + 1) == (base + idxs@.take(i as int)).push(idx));
                                seen = seen.push(idx);
                                assert(seen == s0.push(idx));
                                assert(dedup(seen) == if dedup(s0).contains(idx) { dedup(s0) } else { dedup(s0).push(idx) });
                                assert(out@ == dedup(seen));
                                assert forall|x: usize| dispatched@.contains(x) <==> seen.contains(x) by {
                                    lemma_push_contains(s0, idx, x);
                                }
                            }
                            i += 1;
                        }
                        assert(idxs@.take(idxs@.len() as int) == idxs@);
                    },
                    None => {
                        assert(seen + Seq::<usize>::empty() == seen);
                    },
                }
            },
            None => {
                assert(seen + Seq::<usize>::empty() == seen);
            },
        }
        out
    }
}

/// Law (dispatch): every module is called at most once per event, and a
/// module is called exactly when it registered for the event's probe type
/// on all ports or on the event's port.
pub proof fn law_dispatch_exactly_once(table: RouteTable, t: ProbeType, port: Option<u16>)
    ensures
        forall|i: int, j: int| 0 <= i < j < table.targets(t, port).len()
            ==> table.targets(t, port)[i] != table.targets(t, port)[j],
        forall|m: usize| table.targets(t, port).contains(m) <==> (table.routes(t, None).contains(m)
            || (port matches Some(p) && table.routes(t, Some(p)).contains(m))),
{
    let all = table.routes(t, None) + match port {
        Some(p) => table.routes(t, Some(p)),
        None => Seq::<usize>::empty(),
    };
    lemma_dedup(all);
    assert(table.targets(t, port) == dedup(all));
    assert forall|m: usize| #[trigger] table.targets(t, port).contains(m) <==> (table.routes(t, None).contains(m)
        || (port matches Some(p) && table.routes(t, Some(p)).contains(m))) by {
        assert(dedup(all).contains(m) <==> all.contains(m));
        let a = table.routes(t, None);
        if all.contains(m) {
            let k = choose|k: int| 0 <= k < all.len() && all[k] == m;
            if k >= a.len() {
                match port {
                    Some(p) => {
                        assert(table.routes(t, Some(p))[k - a.len()] == m);
                    },
                    None => {},
                }
            }
        }
        if a.contains(m) {
            let k = choose|k: int| 0 <= k < a.len() && a[k] == m;
            assert(all[k] == m);
        }
        match port {
            Some(p) => {
                if table.routes(t, Some(p)).contains(m) {
                    let k = choose|k: int| 0 <= k < table.routes(t, Some(p)).len() && table.routes(t, Some(p))[k] == m;
                    assert(all[a.len() + k] == m);
                }
            },
            None => {},
        }
    }
}

} // verus!
