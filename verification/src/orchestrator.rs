//! Turning the modules' probe requirements into a routing table and one
//! merged port configuration per probe.

use vstd::prelude::*;
use crate::probes::{ProbeRequirement, ProbeType};
use crate::router::RouteTable;

verus! {

// ── sorted port sets ─────────────────────────────────────────────────────────

pub open spec fn strictly_sorted(s: Seq<u16>) -> bool {
    forall|i: int, j: int| 0 <= i < j < s.len() ==> s[i] < s[j]
}

/// Index of the first element at or after `j` that is not below `x`.
pub open spec fn lower_bound(s: Seq<u16>, x: u16, j: int) -> int
    decreases s.len() - j,
{
    if j < 0 || j >= s.len() || s[j] >= x {
        j
    } else {
        lower_bound(s, x, j + 1)
    }
}

/// A sorted list with `x` added, if it is not there yet.
pub open spec fn insert_sorted(s: Seq<u16>, x: u16) -> Seq<u16> {
    let i = lower_bound(s, x, 0);
    if i < s.len() && s[i] == x {
        s
    } else {
        s.insert(i, x)
    }
}

/// The distinct elements of `s` in increasing order.
pub open spec fn sort_dedup(s: Seq<u16>) -> Seq<u16>
    decreases s.len(),
{
    if s.len() == 0 {
        s
    } else {
        insert_sorted(sort_dedup(s.drop_last()), s.last())
    }
}

proof fn lemma_lower_bound(s: Seq<u16>, x: u16, j: int)
    requires
        0 <= j <= s.len(),
        strictly_sorted(s),
        forall|k: int| 0 <= k < j ==> s[k] < x,
    ensures
        j <= lower_bound(s, x, j) <= s.len(),
        forall|k: int| 0 <= k < lower_bound(s, x, j) ==> s[k] < x,
        forall|k: int| lower_bound(s, x, j) <= k < s.len() ==> s[k] >= x,
    decreases s.len() - j,
{
    if j < s.len() && s[j] < x {
        lemma_lower_bound(s, x, j + 1);
    }
}

proof fn lemma_insert_sorted(s: Seq<u16>, x: u16)
    requires
        strictly_sorted(s),
    ensures
        strictly_sorted(insert_sorted(s, x)),
        insert_sorted(s, x).to_set() == s.to_set().insert(x),
{
    lemma_lower_bound(s, x, 0);
    let i = lower_bound(s, x, 0);
    if i < s.len() && s[i] == x {
        assert(s.to_set().insert(x) =~= s.to_set()) by {
            assert(s.contains(x));
        }
    } else {
        let r = s.insert(i, x);
        assert(r.to_set() =~= s.to_set().insert(x)) by {
            assert forall|y: u16| r.contains(y) <==> s.contains(y) || y == x by {
                if r.contains(y) {
                    let k = choose|k: int| 0 <= k < r.len() && r[k] == y;
                    if k < i {
                        assert(s[k] == y);
                    } else if k > i {
                        assert(s[k - 1] == y);
                    }
                }
                if s.contains(y) {
                    let k = choose|k: int| 0 <= k < s.len() && s[k] == y;
                    if k < i {
                        assert(r[k] == y);
                    } else {
                        assert(r[k + 1] == y);
                    }
                }
                if y == x {
                    assert(r[i] == x);
                }
            }
        }
    }
}

/// Law: `sort_dedup(s)` is strictly increasing and holds exactly the
/// elements of `s`.
pub proof fn law_sort_dedup(s: Seq<u16>)
    ensures
        strictly_sorted(sort_dedup(s)),
        sort_dedup(s).to_set() == s.to_set(),
    decreases s.len(),
{
    if s.len() > 0 {
        law_sort_dedup(s.drop_last());
        lemma_insert_sorted(sort_dedup(s.drop_last()), s.last());
        assert(s.to_set() =~= s.drop_last().to_set().insert(s.last())) by {
            assert(s == s.drop_last().push(s.last()));
            assert forall|y: u16| s.contains(y) <==> s.drop_last().contains(y) || y == s.last() by {
                if s.contains(y) {
                    let k = choose|k: int| 0 <= k < s.len() && s[k] == y;
                    if k < s.len() - 1 {
                        assert(s.drop_last()[k] == y);
                    }
                }
                if s.drop_last().contains(y) {
                    let k = choose|k: int| 0 <= k < s.drop_last().len() && s.drop_last()[k] == y;
                    assert(s[k] == y);
                }
            }
        }
    } else {
        assert(s.to_set() =~= Set::<u16>::empty());
    }
}

/// Two strictly increasing lists with the same elements are equal.
pub proof fn lemma_sorted_unique(a: Seq<u16>, b: Seq<u16>)
    requires
        strictly_sorted(a),
        strictly_sorted(b),
        a.to_set() == b.to_set(),
    ensures
        a == b,
    decreases a.len() + b.len(),
{
    if a.len() == 0 {
        if b.len() > 0 {
            assert(b.to_set().contains(b[0]));
            assert(!a.to_set().contains(b[0]));
        }
        assert(a =~= b);
    } else if b.len() == 0 {
        assert(a.to_set().contains(a[0]));
    } else {
        // both minima are the same element
        assert(a.to_set().contains(a[0]) && b.to_set().contains(b[0]));
        assert(b.contains(a[0]));
        assert(a.contains(b[0]));
        let ka = choose|k: int| 0 <= k < b.len() && b[k] == a[0];
        let kb = choose|k: int| 0 <= k < a.len() && a[k] == b[0];
        if a[0] != b[0] {
            if a[0] < b[0] {
                assert(ka > 0);
                assert(b[0] < b[ka]);
            } else {
                assert(kb > 0);
                assert(a[0] < a[kb]);
            }
        }
        let a1 = a.drop_first();
        let b1 = b.drop_first();
        assert(a1.to_set() =~= b1.to_set()) by {
            assert forall|y: u16| a1.contains(y) <==> b1.contains(y) by {
                if a1.contains(y) {
                    let k = choose|k: int| 0 <= k < a1.len() && a1[k] == y;
                    assert(a[k + 1] == y);
                    assert(a.to_set().contains(y));
                    let m = choose|m: int| 0 <= m < b.len() && b[m] == y;
                    assert(m != 0);
                    assert(b1[m - 1] == y);
                }
                if b1.contains(y) {
                    let k = choose|k: int| 0 <= k < b1.len() && b1[k] == y;
                    assert(b[k + 1] == y);
                    assert(b.to_set().contains(y));
                    let m = choose|m: int| 0 <= m < a.len() && a[m] == y;
                    assert(m != 0);
                    assert(a1[m - 1] == y);
                }
            }
        }
        lemma_sorted_unique(a1, b1);
        assert(a =~= b) by {
            assert forall|k: int| 0 <= k < a.len() implies a[k] == b[k] by {
                if k > 0 {
                    assert(a[k] == a1[k - 1]);
                    assert(b[k] == b1[k - 1]);
                }
            }
        }
    }
}

fn insert_sorted_exec(v: &mut Vec<u16>, x: u16)
    ensures
        final(v)@ == insert_sorted(old(v)@, x),
{
    let ghost s = v@;
    let mut i: usize = 0;
    while i < v.len() && v[i] < x
        invariant
            v@ == s,
            i <= s.len(),
            lower_bound(s, x, i as int) == lower_bound(s, x, 0),
        decreases s.len() - i,
    {
        i += 1;
    }
    if i < v.len() && v[i] == x {
        return;
    }
    v.insert(i, x);
}

// ── merged port configurations ───────────────────────────────────────────────

/// Merged port set for a single port-filtered probe.
#[derive(Debug)]
pub enum PortConfig {
    /// At least one module requested all ports; insert key `0` as sentinel.
    All,
    /// Union of all explicitly requested port lists.
    Specific(Vec<u16>),
}

/// A merged port set as contracts see it: None for all ports.
pub open spec fn port_view(c: PortConfig) -> Option<Seq<u16>> {
    match c {
        PortConfig::All => None,
        PortConfig::Specific(v) => Some(v@),
    }
}

pub open spec fn opt_port_view(c: Option<PortConfig>) -> Option<Option<Seq<u16>>> {
    match c {
        Some(p) => Some(port_view(p)),
        None => None,
    }
}

pub open spec fn opt_ports(p: Option<Vec<u16>>) -> Option<Seq<u16>> {
    match p {
        Some(v) => Some(v@),
        None => None,
    }
}

/// The merge of one more request (`None` = all ports) into a probe's port
/// set (`None` = not requested yet; inner `None` = all ports). The first
/// request is taken as it is; later specific lists are united, sorted and
/// deduplicated; all ports absorbs everything.
pub open spec fn spec_absorb(existing: Option<Option<Seq<u16>>>, incoming: Option<Seq<u16>>) -> Option<Seq<u16>> {
    match (existing, incoming) {
        (None, None) => None,
        (None, Some(p)) => Some(p),
        (Some(None), _) => None,
        (Some(Some(_)), None) => None,
        (Some(Some(e)), Some(n)) => Some(sort_dedup(e + n)),
    }
}

impl PortConfig {
    /// The keys of the kernel's port map: the ports, or the sentinel `0` for
    /// all ports (an empty list, like all ports, filters nothing).
    pub fn to_bpf_ports(&self) -> (r: Vec<u16>)
        ensures
            r@ == match port_view(*self) {
                None => seq![0u16],
                Some(p) => if p.len() == 0 {
                    seq![0u16]
                } else {
                    p
                },
            },
    {
        match self {
            PortConfig::Specific(ports) => if ports.len() > 0 {
                return ports.clone();
            },
            PortConfig::All => {},
        }
        let mut v: Vec<u16> = Vec::new();
        v.push(0);
        v
    }
}

/// Merges `incoming` (from one module's `ProbeRequirement`) into `existing`.
/// `None` incoming means "all ports" (no kernel-side filter).
pub fn absorb(existing: &mut Option<PortConfig>, incoming: Option<Vec<u16>>)
    ensures
        opt_port_view(*final(existing)) == Some(spec_absorb(opt_port_view(*old(existing)), opt_ports(incoming))),
{
    let prev = existing.take();
    let merged = match (prev, incoming) {
        (None, None) => PortConfig::All,
        (None, Some(ports)) => PortConfig::Specific(ports),
        (Some(PortConfig::All), _) => PortConfig::All,
        (Some(PortConfig::Specific(_)), None) => PortConfig::All,
        (Some(PortConfig::Specific(existing_ports)), Some(new_ports)) => {
            let ghost all = existing_ports@ + new_ports@;
            let mut out: Vec<u16> = Vec::new();
            let mut i: usize = 0;
            while i < existing_ports.len()
                invariant
                    i <= existing_ports@.len(),
                    all == existing_ports@ + new_ports@,
                    out@ == sort_dedup(all.take(i as int)),
                decreases existing_ports@.len() - i,
            {
                insert_sorted_exec(&mut out, existing_ports[i]);
                assert(all.take(i + 1).drop_last() == all.take(i as int));
                i += 1;
            }
            let mut j: usize = 0;
            while j < new_ports.len()
                invariant
                    j <= new_ports@.len(),
                    all == existing_ports@ + new_ports@,
                    out@ == sort_dedup(all.take(existing_ports@.len() + j)),
                decreases new_ports@.len() - j,
            {
                insert_sorted_exec(&mut out, new_ports[j]);
                assert(all.take(existing_ports@.len() + j + 1).drop_last() == all.take(existing_ports@.len() + j));
                j += 1;
            }
            assert(all.take(all.len() as int) == all);
            PortConfig::Specific(out)
        },
    };
    *existing = Some(merged);
}

/// Law: merging two modules' port requests for one probe gives the same
/// result in either order, and all ports absorbs any specific list.
pub proof fn law_absorb_order_free(a: Option<Seq<u16>>, b: Option<Seq<u16>>)
    ensures
        spec_absorb(Some(spec_absorb(None, a)), b) == spec_absorb(Some(spec_absorb(None, b)), a),
        (a is None || b is None) ==> spec_absorb(Some(spec_absorb(None, a)), b) is None,
{
    match (a, b) {
        (Some(x), Some(y)) => {
            law_sort_dedup(x + y);
            law_sort_dedup(y + x);
            assert((x + y).to_set() =~= (y + x).to_set()) by {
                assert forall|v: u16| (x + y).contains(v) <==> (y + x).contains(v) by {
                    if (x + y).contains(v) {
                        let k = choose|k: int| 0 <= k < (x + y).len() && (x + y)[k] == v;
                        if k < x.len() {
                            assert((y + x)[y.len() + k] == v);
                        } else {
                            assert((y + x)[k - x.len()] == v);
                        }
                    }
                    if (y + x).contains(v) {
                        let k = choose|k: int| 0 <= k < (y + x).len() && (y + x)[k] == v;
                        if k < y.len() {
                            assert((x + y)[x.len() + k] == v);
                        } else {
                            assert((x + y)[k - y.len()] == v);
                        }
                    }
                }
            }
            lemma_sorted_unique(sort_dedup(x + y), sort_dedup(y + x));
        },
        _ => {},
    }
}

// ── routes and merged configuration ──────────────────────────────────────────

pub open spec fn req_type(r: ProbeRequirement) -> ProbeType {
    match r {
        ProbeRequirement::TcpSendMsg { .. } => ProbeType::TcpSendMsg,
        ProbeRequirement::TcpProbe { .. } => ProbeType::TcpProbe,
        ProbeRequirement::TcpRetransmitSkb { .. } => ProbeType::TcpRetransmitSkb,
        ProbeRequirement::TcpSendReset { .. } => ProbeType::TcpSendReset,
        ProbeRequirement::TcpReceiveReset { .. } => ProbeType::TcpReceiveReset,
        ProbeRequirement::SockDefReadable { .. } => ProbeType::SockDefReadable,
        ProbeRequirement::UdpRecvMsg { .. } => ProbeType::UdpRecvMsg,
    }
}

pub open spec fn req_ports(r: ProbeRequirement) -> Option<Seq<u16>> {
    match r {
        ProbeRequirement::TcpSendMsg { dest_ports } => opt_ports(dest_ports),
        ProbeRequirement::TcpProbe { dest_ports } => opt_ports(dest_ports),
        ProbeRequirement::TcpRetransmitSkb { dest_ports } => opt_ports(dest_ports),
        ProbeRequirement::TcpSendReset { dest_ports } => opt_ports(dest_ports),
        ProbeRequirement::TcpReceiveReset { dest_ports } => opt_ports(dest_ports),
        ProbeRequirement::SockDefReadable { dest_ports } => opt_ports(dest_ports),
        ProbeRequirement::UdpRecvMsg { src_ports } => opt_ports(src_ports),
    }
}

/// `idx` once for every occurrence of `p` in `ports`.
pub open spec fn hits(ports: Seq<u16>, p: u16, idx: usize) -> Seq<usize>
    decreases ports.len(),
{
    if ports.len() == 0 {
        Seq::empty()
    } else {
        hits(ports.drop_last(), p, idx) + if ports.last() == p {
            seq![idx]
        } else {
            Seq::empty()
        }
    }
}

/// What registering module `idx` for requirement `r` adds to route `(t, port)`:
/// a requirement for all ports registers the module under the wildcard route,
/// a port list under each listed port.
pub open spec fn contribution(idx: usize, r: ProbeRequirement, t: ProbeType, port: Option<u16>) -> Seq<usize> {
    if req_type(r) != t {
        Seq::empty()
    } else {
        match (req_ports(r), port) {
            (None, None) => seq![idx],
            (Some(ps), Some(p)) => hits(ps, p, idx),
            _ => Seq::empty(),
        }
    }
}

/// The requirements of all modules in order, each with its module's index.
pub open spec fn flat_reqs(reqs: Seq<Seq<ProbeRequirement>>) -> Seq<(usize, ProbeRequirement)>
    decreases reqs.len(),
{
    if reqs.len() == 0 {
        Seq::empty()
    } else {
        flat_reqs(reqs.drop_last()) + reqs.last().map_values(|r: ProbeRequirement| ((reqs.len() - 1) as usize, r))
    }
}

/// Route `(t, port)` after registering `flat` in order.
pub open spec fn reg_routes(flat: Seq<(usize, ProbeRequirement)>, t: ProbeType, port: Option<u16>) -> Seq<usize>
    decreases flat.len(),
{
    if flat.len() == 0 {
        Seq::empty()
    } else {
        reg_routes(flat.drop_last(), t, port) + contribution(flat.last().0, flat.last().1, t, port)
    }
}

/// Whether any of `flat` requires probe `t`.
pub open spec fn requested(flat: Seq<(usize, ProbeRequirement)>, t: ProbeType) -> bool {
    exists|i: int| 0 <= i < flat.len() && req_type(#[trigger] flat[i].1) == t
}

/// The merged port set of probe `t` after `flat` (None = never requested).
pub open spec fn merged_ports(flat: Seq<(usize, ProbeRequirement)>, t: ProbeType) -> Option<Option<Seq<u16>>>
    decreases flat.len(),
{
    if flat.len() == 0 {
        None
    } else {
        let prev = merged_ports(flat.drop_last(), t);
        if req_type(flat.last().1) == t {
            Some(spec_absorb(prev, req_ports(flat.last().1)))
        } else {
            prev
        }
    }
}

/// Which probes to load, and the merged port filter of each port-filtered one.
#[derive(Debug)]
pub struct MergedConfigs {
    pub tcp_probe: bool,
    pub tcp_send_reset: bool,
    pub tcp_retransmit_skb: Option<PortConfig>,
    pub tcp_receive_reset: Option<PortConfig>,
    pub tcp_send_msg: Option<PortConfig>,
    pub sock_def_readable: bool,
    pub udp_recvmsg: Option<PortConfig>,
}

impl MergedConfigs {
    pub open spec fn matches_flat(&self, flat: Seq<(usize, ProbeRequirement)>) -> bool {
        &&& self.tcp_probe == requested(flat, ProbeType::TcpProbe)
        &&& self.tcp_send_reset == requested(flat, ProbeType::TcpSendReset)
        &&& self.sock_def_readable == requested(flat, ProbeType::SockDefReadable)
        &&& opt_port_view(self.tcp_retransmit_skb) == merged_ports(flat, ProbeType::TcpRetransmitSkb)
        &&& opt_port_view(self.tcp_receive_reset) == merged_ports(flat, ProbeType::TcpReceiveReset)
        &&& opt_port_view(self.tcp_send_msg) == merged_ports(flat, ProbeType::TcpSendMsg)
        &&& opt_port_view(self.udp_recvmsg) == merged_ports(flat, ProbeType::UdpRecvMsg)
    }
}

pub fn register_ports(table: &mut RouteTable, probe_type: ProbeType, dest_ports: Option<Vec<u16>>, module_idx: usize)
    ensures
        forall|t: ProbeType, p: Option<u16>|
            #[trigger] final(table).routes(t, p) == old(table).routes(t, p) + if t == probe_type {
                match (opt_ports(dest_ports), p) {
                    (None, None) => seq![module_idx],
                    (Some(ps), Some(q)) => hits(ps, q, module_idx),
                    _ => Seq::empty(),
                }
            } else {
                Seq::empty()
            },
{
    match dest_ports {
        None => {
            table.register(probe_type, None, module_idx);
            assert forall|t: ProbeType, p: Option<u16>| #[trigger] table.routes(t, p) == old(table).routes(t, p) + if t == probe_type {
                match (opt_ports(dest_ports), p) {
                    (None, None) => seq![module_idx],
                    (Some(ps), Some(q)) => hits(ps, q, module_idx),
                    _ => Seq::empty(),
                }
            } else {
                Seq::empty()
            } by {
                if !(t == probe_type && p == None::<u16>) {
                    assert(old(table).routes(t, p) + Seq::<usize>::empty() == old(table).routes(t, p));
                }
            }
        },
        Some(ports) => {
            let mut i: usize = 0;
            while i < ports.len()
                invariant
                    i <= ports@.len(),
                    forall|t: ProbeType, p: Option<u16>|
                        #[trigger] table.routes(t, p) == old(table).routes(t, p) + if t == probe_type {
                            match p {
                                Some(q) => hits(ports@.take(i as int), q, module_idx),
                                None => Seq::empty(),
                            }
                        } else {
                            Seq::empty()
                        },
                decreases ports@.len() - i,
            {
                let ghost before = *table;
                table.register(probe_type, Some(ports[i]), module_idx);
                proof {
                    assert(ports@.take(i + 1).drop_last() == ports@.take(i as int));
                    assert(ports@.take(i + 1).last() == ports@[i as int]);
                    assert forall|t: ProbeType, p: Option<u16>|
                        #[trigger] table.routes(t, p) == old(table).routes(t, p) + if t == probe_type {
                            match p {
                                Some(q) => hits(ports@.take(i + 1), q, module_idx),
                                None => Seq::empty(),
                            }
                        } else {
                            Seq::empty()
                        } by {
                        if t == probe_type {
                            match p {
                                Some(q) => {
                                    let h0 = hits(ports@.take(i as int), q, module_idx);
                                    if q == ports@[i as int] {
                                        assert(old(table).routes(t, p) + h0.push(module_idx) == (old(table).routes(t, p) + h0).push(module_idx));
                                        assert(h0 + seq![module_idx] == h0.push(module_idx));
                                    } else {
                                        assert(h0 + Seq::<usize>::empty() == h0);
                                    }
                                },
                                None => {},
                            }
                        }
                    }
                }
                i += 1;
            }
            assert(ports@.take(ports@.len() as int) == ports@);
        },
    }
}

pub open spec fn reqs_view(reqs: Seq<Vec<ProbeRequirement>>) -> Seq<Seq<ProbeRequirement>> {
    reqs.map_values(|v: Vec<ProbeRequirement>| v@)
}

fn clone_ports(p: &Option<Vec<u16>>) -> (r: Option<Vec<u16>>)
    ensures
        opt_ports(r) == opt_ports(*p),
{
    match p {
        Some(v) => Some(v.clone()),
        None => None,
    }
}

proof fn lemma_requested_push(flat: Seq<(usize, ProbeRequirement)>, x: (usize, ProbeRequirement), t: ProbeType)
    ensures
        requested(flat.push(x), t) <==> (requested(flat, t) || req_type(x.1) == t),
{
    let f2 = flat.push(x);
    if requested(f2, t) {
        let i = choose|i: int| 0 <= i < f2.len() && req_type(#[trigger] f2[i].1) == t;
        if i < flat.len() {
            assert(flat[i] == f2[i]);
        }
    }
    if requested(flat, t) {
        let i = choose|i: int| 0 <= i < flat.len() && req_type(#[trigger] flat[i].1) == t;
        assert(f2[i] == flat[i]);
    }
    if req_type(x.1) == t {
        assert(f2[flat.len() as int] == x);
    }
}

/// Builds the routing table and merges port configs: every module `idx` is
/// registered for each of its requirements (requirement order within a
/// module, modules in order), and each probe's port filters are merged.
pub fn build(requirements: &Vec<Vec<ProbeRequirement>>) -> (r: (RouteTable, MergedConfigs))
    ensures
        forall|t: ProbeType, p: Option<u16>|
            #[trigger] r.0.routes(t, p) == reg_routes(flat_reqs(reqs_view(requirements@)), t, p),
        r.1.matches_flat(flat_reqs(reqs_view(requirements@))),
{
    let ghost all = reqs_view(requirements@);
    let mut table = RouteTable::new();
    let mut cfg = MergedConfigs {
        tcp_probe: false,
        tcp_send_reset: false,
        tcp_retransmit_skb: None,
        tcp_receive_reset: None,
        tcp_send_msg: None,
        sock_def_readable: false,
        udp_recvmsg: None,
    };
    let ghost mut flat: Seq<(usize, ProbeRequirement)> = Seq::empty();
    assert(flat_reqs(all.take(0)) == flat) by {
        assert(all.take(0).len() == 0);
    }
    let mut idx: usize = 0;
    while idx < requirements.len()
        invariant
            all == reqs_view(requirements@),
            idx <= requirements@.len(),
            flat == flat_reqs(all.take(idx as int)),
            forall|t: ProbeType, p: Option<u16>| #[trigger] table.routes(t, p) == reg_routes(flat, t, p),
            cfg.matches_flat(flat),
        decreases requirements@.len() - idx,
    {
        let module_reqs = &requirements[idx];
        let ghost start = flat;
        let mut k: usize = 0;
        while k < module_reqs.len()
            invariant
                all == reqs_view(requirements@),
                idx < requirements@.len(),
                module_reqs@ == all[idx as int],
                k <= module_reqs@.len(),
                flat == start + module_reqs@.take(k as int).map_values(|r: ProbeRequirement| (idx, r)),
                forall|t: ProbeType, p: Option<u16>| #[trigger] table.routes(t, p) == reg_routes(flat, t, p),
                cfg.matches_flat(flat),
            decreases module_reqs@.len() - k,
        {
            let req = &module_reqs[k];
            let ghost x = (idx, *req);
            let ghost f2 = flat.push(x);
            proof {
                assert(f2.drop_last() == flat);
                assert(f2.last() == x);
                lemma_requested_push(flat, x, ProbeType::TcpProbe);
                lemma_requested_push(flat, x, ProbeType::TcpSendReset);
                lemma_requested_push(flat, x, ProbeType::SockDefReadable);
            }
            match req {
                ProbeRequirement::TcpProbe { dest_ports } => {
                    cfg.tcp_probe = true;
                    register_ports(&mut table, ProbeType::TcpProbe, clone_ports(dest_ports), idx);
                },
                ProbeRequirement::TcpSendReset { dest_ports } => {
                    cfg.tcp_send_reset = true;
                    register_ports(&mut table, ProbeType::TcpSendReset, clone_ports(dest_ports), idx);
                },
                ProbeRequirement::TcpRetransmitSkb { dest_ports } => {
                    absorb(&mut cfg.tcp_retransmit_skb, clone_ports(dest_ports));
                    register_ports(&mut table, ProbeType::TcpRetransmitSkb, clone_ports(dest_ports), idx);
                },
                ProbeRequirement::TcpReceiveReset { dest_ports } => {
                    absorb(&mut cfg.tcp_receive_reset, clone_ports(dest_ports));
                    register_ports(&mut table, ProbeType::TcpReceiveReset, clone_ports(dest_ports), idx);
                },
                ProbeRequirement::TcpSendMsg { dest_ports } => {
                    absorb(&mut cfg.tcp_send_msg, clone_ports(dest_ports));
                    register_ports(&mut table, ProbeType::TcpSendMsg, clone_ports(dest_ports), idx);
                },
                ProbeRequirement::SockDefReadable { dest_ports } => {
                    cfg.sock_def_readable = true;
                    register_ports(&mut table, ProbeType::SockDefReadable, clone_ports(dest_ports), idx);
                },
                ProbeRequirement::UdpRecvMsg { src_ports } => {
                    absorb(&mut cfg.udp_recvmsg, clone_ports(src_ports));
                    register_ports(&mut table, ProbeType::UdpRecvMsg, clone_ports(src_ports), idx);
                },
            }
            proof {
                flat = f2;
                assert(module_reqs@.take(k + 1).map_values(|r: ProbeRequirement| (idx, r))
                    == module_reqs@.take(k as int).map_values(|r: ProbeRequirement| (idx, r)).push(x));
                assert forall|t: ProbeType, p: Option<u16>| #[trigger] table.routes(t, p) == reg_routes(flat, t, p) by {
                    assert(reg_routes(f2, t, p) == reg_routes(f2.drop_last(), t, p) + contribution(x.0, x.1, t, p));
                }
            }
            k += 1;
        }
        proof {
            assert(module_reqs@.take(module_reqs@.len() as int) == module_reqs@);
            let tk = all.take(idx + 1);
            assert(tk.drop_last() == all.take(idx as int));
            assert(tk.last() == all[idx as int]);
            assert(tk.len() - 1 == idx);
            assert(flat_reqs(tk) == flat_reqs(tk.drop_last()) + tk.last().map_values(|r: ProbeRequirement| ((tk.len() - 1) as usize, r)));
        }
        idx += 1;
    }
    proof {
        assert(all.take(requirements@.len() as int) == all);
    }
    (table, cfg)
}

} // verus!
