//! The MySQL module: connection state from handshakes and `COM_INIT_DB`,
//! and the latency of each `COM_QUERY`, measured from the query's send to the
//! first response on the same socket.

use vstd::prelude::*;
use lru::LruCache;
use std::collections::hash_map::RandomState;
use std::collections::{HashMap, VecDeque};
use std::num::NonZeroUsize;
use std::time::{Duration, Instant};
use crate::dns_cache::DnsCache;
use crate::lru_model::{lru_wf, lru_put, lru_touch, lru_lookup, key_index, lemma_key_index, law_lookup_after_put};
use crate::modules::{Module, opt_ports_view, owned_view, cached_domain};
use crate::mysql::{spec_handshake, parse_handshake_response, spec_normalize, normalize_query};
use crate::net::{spec_fmt_ip, fmt_ip, spec_ip_key};
use crate::probes::{ProbeEvent, ProbeRequirement};
use crate::sink::TelegrafMetricsPusher;
use crate::text::{lossy_utf8, utf8_lossy};

verus! {

broadcast use vstd::std_specs::hash::group_hash_axioms;

/// Connections whose state is kept at once; the least recently used goes first.
pub const MAX_CONNECTIONS: usize = 4096;

/// How long a query waits for its response before it is dropped: 30 s, in
/// nanoseconds.
pub const PENDING_TTL_NS: u64 = 30_000_000_000;

/// The user a connection authenticated as and its current database.
pub struct ConnectionState {
    pub username: String,
    pub db: String,
}

/// The LRU map of connection states, keyed by socket.
pub type ConnLru = LruCache<u64, ConnectionState, RandomState>;

/// The entries of a connection map, most recently used first, each with the
/// text of its `(username, db)`.
pub uninterp spec fn conn_lru_entries(c: ConnLru) -> Seq<(u64, (Seq<char>, Seq<char>))>;

/// The capacity a connection map was made with.
pub uninterp spec fn conn_lru_cap(c: ConnLru) -> nat;

/// `LruCache::with_hasher` with a std `RandomState`: an empty map that holds
/// at most `cap` entries.
#[verifier::external_body]
fn conn_lru_new(cap: usize) -> (c: ConnLru)
    requires
        cap > 0,
    ensures
        conn_lru_entries(c) == Seq::<(u64, (Seq<char>, Seq<char>))>::empty(),
        conn_lru_cap(c) == cap,
{
    LruCache::with_hasher(NonZeroUsize::new(cap).unwrap(), RandomState::new())
}

/// `LruCache::contains`: whether `k` has an entry; the order is unchanged.
#[verifier::external_body]
fn conn_lru_contains(c: &ConnLru, k: &u64) -> (r: bool)
    ensures
        r == (key_index(conn_lru_entries(*c), *k) is Some),
{
    c.contains(k)
}

/// `LruCache::put`: the pair becomes the most recently used entry; a new key
/// evicts the least recently used entry when the map is full. Returns the
/// value the key had.
#[verifier::external_body]
fn conn_lru_put(c: &mut ConnLru, k: u64, v: ConnectionState) -> (r: Option<ConnectionState>)
    ensures
        conn_lru_entries(*final(c)) == lru_put(conn_lru_entries(*old(c)), k, (v.username@, v.db@), conn_lru_cap(*old(c))),
        conn_lru_cap(*final(c)) == conn_lru_cap(*old(c)),
        lru_wf(conn_lru_entries(*final(c)), conn_lru_cap(*final(c))),
        match lru_lookup(conn_lru_entries(*old(c)), k) {
            Some(old_v) => r matches Some(s) && (s.username@, s.db@) == old_v,
            None => r is None,
        },
{
    c.put(k, v)
}

/// `LruCache::get`: the state under `k`, which is promoted to most recently
/// used.
#[verifier::external_body]
fn conn_lru_get<'a>(c: &'a mut ConnLru, k: &u64) -> (r: Option<&'a ConnectionState>)
    ensures
        conn_lru_entries(*final(c)) == lru_touch(conn_lru_entries(*old(c)), *k),
        conn_lru_cap(*final(c)) == conn_lru_cap(*old(c)),
        lru_wf(conn_lru_entries(*final(c)), conn_lru_cap(*final(c))),
        match lru_lookup(conn_lru_entries(*old(c)), *k) {
            Some(v) => r matches Some(s) && (s.username@, s.db@) == v,
            None => r is None,
        },
{
    c.get(k)
}

/// `std::time::Instant`, known to Verus as an opaque type.
#[verifier::external_type_specification]
#[verifier::external_body]
pub struct ExInstant(Instant);

/// `Instant::now`: the current reading of the monotonic clock. Nothing is
/// stated of it.
#[verifier::external_body]
fn instant_now() -> Instant {
    Instant::now()
}

/// `Instant::duration_since`: the time from `earlier` to `later` (zero when
/// `earlier` is the later one). Nothing is stated of it.
#[verifier::external_body]
fn instant_since(later: &Instant, earlier: &Instant) -> Duration {
    later.duration_since(*earlier)
}

/// `Duration::as_nanos`: the whole nanoseconds of a duration. Nothing is
/// stated of it.
#[verifier::external_body]
fn duration_nanos(d: &Duration) -> u128 {
    d.as_nanos()
}

/// A query waiting for its response, as the contracts see it.
pub struct PendingView {
    pub dest_ip: Seq<u8>,
    pub ip_family: u8,
    pub dest_port: u16,
    pub send_ns: u64,
    pub query: Seq<char>,
    pub db: Seq<char>,
    pub username: Seq<char>,
    pub inserted_at: u64,
}

struct PendingQuery {
    dest_ip: [u8; 16],
    ip_family: u8,
    dest_port: u16,
    send_ns: u64,
    query: String,
    db: String,
    username: String,
    inserted_at: u64,
}

impl PendingQuery {
    spec fn view(self) -> PendingView {
        PendingView {
            dest_ip: self.dest_ip@,
            ip_family: self.ip_family,
            dest_port: self.dest_port,
            send_ns: self.send_ns,
            query: self.query@,
            db: self.db@,
            username: self.username@,
            inserted_at: self.inserted_at,
        }
    }
}

/// Entries after an unknown connection is given an empty state.
pub open spec fn conn_ensured(e: Seq<(u64, (Seq<char>, Seq<char>))>, k: u64, cap: nat) -> Seq<(u64, (Seq<char>, Seq<char>))> {
    if key_index(e, k) is Some {
        e
    } else {
        lru_put(e, k, (Seq::<char>::empty(), Seq::<char>::empty()), cap)
    }
}

/// A state read after the entry was ensured is the connection's state (empty
/// for an unknown one); putting a new state then leaves the entries that
/// putting it directly would.
proof fn lemma_rewrite_in_place(e: Seq<(u64, (Seq<char>, Seq<char>))>, k: u64, v: (Seq<char>, Seq<char>), cap: nat)
    ensures
        lru_lookup(conn_ensured(e, k, cap), k) == Some(conn_of(e, k)),
        lru_put(lru_touch(conn_ensured(e, k, cap), k), k, v, cap) == lru_put(e, k, v, cap),
{
    lemma_key_index(e, k);
    let e1 = conn_ensured(e, k, cap);
    match key_index(e, k) {
        Some(i) => {
            let t = lru_touch(e, k);
            assert(t == seq![e[i]] + e.remove(i));
            assert(key_index(t, k) == Some(0int));
            assert(t.remove(0) =~= e.remove(i));
        },
        None => {
            law_lookup_after_put(e, k, (Seq::<char>::empty(), Seq::<char>::empty()), cap);
            assert(key_index(e1, k) == Some(0int));
            let t = lru_touch(e1, k);
            assert(t =~= e1);
            assert(key_index(t, k) == Some(0int));
            let rest = if e.len() == cap { e.drop_last() } else { e };
            assert(e1.remove(0) =~= rest);
        },
    }
}

/// The module's state as the contracts see it: connection states (most
/// recently used first) and the capacity they are kept to, pending queries
/// by socket, and the expiry queue of `(inserted_at, socket)` in insertion
/// order. Times are nanoseconds since the module was made.
pub struct MysqlView {
    pub conns: Seq<(u64, (Seq<char>, Seq<char>))>,
    pub conn_cap: nat,
    pub pending: Map<u64, PendingView>,
    pub expiry: Seq<(u64, u64)>,
}

/// The view with its connection entries replaced by `conns`.
pub open spec fn with_conns(v: MysqlView, conns: Seq<(u64, (Seq<char>, Seq<char>))>) -> MysqlView {
    MysqlView { conns: conns, ..v }
}

/// The view with its pending queries and expiry queue as the expiry pass
/// leaves them.
pub open spec fn expired(v: MysqlView, now: u64) -> MysqlView {
    MysqlView { pending: spec_expire(v.pending, v.expiry, now).0, expiry: spec_expire(v.pending, v.expiry, now).1, ..v }
}

/// The view after a query is recorded for socket `k` at `now`: the
/// connection is promoted, the query is pending and queued for expiry.
pub open spec fn recorded(v: MysqlView, k: u64, p: PendingView, now: u64) -> MysqlView {
    MysqlView {
        conns: lru_touch(v.conns, k),
        conn_cap: v.conn_cap,
        pending: v.pending.insert(k, p),
        expiry: v.expiry.push((now, k)),
    }
}

/// The pending query made from a send, with the connection's state.
pub open spec fn pending_of(conn: (Seq<char>, Seq<char>), dest_ip: Seq<u8>, ip_family: u8, dest_port: u16, send_ns: u64, query: Seq<char>, now: u64) -> PendingView {
    PendingView {
        dest_ip: dest_ip,
        ip_family: ip_family,
        dest_port: dest_port,
        send_ns: send_ns,
        query: query,
        db: conn.1,
        username: conn.0,
        inserted_at: now,
    }
}

/// The view without socket `k`'s pending query.
pub open spec fn without_pending(v: MysqlView, k: u64) -> MysqlView {
    MysqlView { pending: v.pending.remove(k), ..v }
}

/// The pending query a response on socket `k` at `at_ns` reports, with
/// `at_ns`: there is one and its text is not empty.
pub open spec fn answer_of(v: MysqlView, k: u64, at_ns: u64) -> Option<(PendingView, u64)> {
    if v.pending.contains_key(k) && v.pending[k].query.len() > 0 {
        Some((v.pending[k], at_ns))
    } else {
        None
    }
}

/// The `(username, db)` of a connection; empty for one without state.
pub open spec fn conn_of(e: Seq<(u64, (Seq<char>, Seq<char>))>, k: u64) -> (Seq<char>, Seq<char>) {
    match lru_lookup(e, k) {
        Some(v) => v,
        None => (Seq::<char>::empty(), Seq::<char>::empty()),
    }
}

/// Time from `ts` to `now`, zero when `ts` is later.
pub open spec fn age(now: u64, ts: u64) -> int {
    if now >= ts {
        now - ts
    } else {
        0
    }
}

/// Drains the expiry queue from the front while its head is at least the
/// TTL old; a drained entry drops its socket's pending query when that query
/// is the one the entry was queued for.
pub open spec fn spec_expire(p: Map<u64, PendingView>, q: Seq<(u64, u64)>, now: u64) -> (Map<u64, PendingView>, Seq<(u64, u64)>)
    decreases q.len(),
{
    if q.len() == 0 || age(now, q[0].0) < PENDING_TTL_NS {
        (p, q)
    } else {
        let ts = q[0].0;
        let ptr = q[0].1;
        let p2 = if p.contains_key(ptr) && p[ptr].inserted_at == ts {
            p.remove(ptr)
        } else {
            p
        };
        spec_expire(p2, q.drop_first(), now)
    }
}

/// The text after a command byte: `payload[5..]`, decoded lossily.
pub open spec fn command_text(d: Seq<u8>) -> Seq<char> {
    lossy_utf8(d.subrange(5, d.len() as int))
}

/// The state after an event observed at `now`:
/// - a handshake response (sequence number 1) that parses sets the
///   connection's user, and its database when it names one;
/// - `COM_INIT_DB` sets the connection's database;
/// - `COM_QUERY` expires stale queries, then records the query with the
///   connection's current state (reading that state promotes it);
/// - the first response on a socket removes its pending query.
pub open spec fn mysql_step(v: MysqlView, e: ProbeEvent, now: u64) -> MysqlView {
    match e {
        ProbeEvent::TcpSendMsg { dest_ip, ip_family, dest_port, socket_ptr, timestamp_ns, payload } => {
            let d = payload@;
            let cur = conn_of(v.conns, socket_ptr);
            if d.len() > 3 && d[3] == 1 {
                match spec_handshake(d) {
                    Some((user, db)) => {
                        let nv = (user, if db.len() > 0 { db } else { cur.1 });
                        MysqlView { conns: lru_put(v.conns, socket_ptr, nv, v.conn_cap), ..v }
                    },
                    None => v,
                }
            } else if d.len() > 4 && d[3] == 0 && d[4] == 2 {
                MysqlView { conns: lru_put(v.conns, socket_ptr, (cur.0, command_text(d)), v.conn_cap), ..v }
            } else if d.len() > 4 && d[3] == 0 && d[4] == 3 {
                let pq = pending_of(cur, dest_ip@, ip_family, dest_port, timestamp_ns, command_text(d), now);
                recorded(expired(v, now), socket_ptr, pq, now)
            } else {
                v
            }
        },
        ProbeEvent::SockDefReadable { socket_ptr, .. } => without_pending(v, socket_ptr),
        _ => v,
    }
}

/// The pending query a response event completes and the response's time,
/// when it is reported: the socket has a pending query whose text is not
/// empty.
pub open spec fn mysql_answered(v: MysqlView, e: ProbeEvent) -> Option<(PendingView, u64)> {
    match e {
        ProbeEvent::SockDefReadable { socket_ptr, timestamp_ns, .. } => answer_of(v, socket_ptr, timestamp_ns),
        _ => None,
    }
}

/// The latency of one query, ready for the metrics sink.
pub struct QueryLatency {
    pub dest_ip: [u8; 16],
    pub ip_family: u8,
    pub dest_port: u16,
    pub db: String,
    pub username: String,
    /// The query with its literals replaced by `?`.
    pub query: String,
    /// From the query's send to the response, in nanoseconds (zero when the
    /// response's timestamp is the earlier one).
    pub latency_ns: u64,
    /// The destination's domain, when the DNS cache knows it.
    pub domain: Option<String>,
}

/// `r` reports pending query `p` answered at `at_ns`, with `domain`.
pub open spec fn reports(r: QueryLatency, p: PendingView, at_ns: u64, domain: Option<Seq<char>>) -> bool {
    &&& r.dest_ip@ == p.dest_ip
    &&& r.ip_family == p.ip_family
    &&& r.dest_port == p.dest_port
    &&& r.db@ == p.db
    &&& r.username@ == p.username
    &&& r.query@ == spec_normalize(p.query)
    &&& r.latency_ns == age(at_ns, p.send_ns)
    &&& owned_view(r.domain) == domain
}

/// The address a pending query's destination is looked up by.
pub open spec fn pending_ip_key(p: PendingView) -> (u8, u128) {
    spec_ip_key(spec_fmt_ip(p.dest_ip, p.ip_family))
}

/// Tracks MySQL connections and reports query latencies.
pub struct MysqlModule {
    sink: TelegrafMetricsPusher,
    ports: Vec<u16>,
    /// socket → connection state (username + current db); LRU-bounded
    connections: ConnLru,
    /// socket → query waiting for the response timestamp
    pending: HashMap<u64, PendingQuery>,
    /// insertion-ordered expiry queue; drained from the front on each query
    expiry: VecDeque<(u64, u64)>,
    /// the clock reading times are measured from
    epoch: Instant,
    /// the latest time `on_event` used, in nanoseconds since `epoch`
    last_ns: u64,
}

impl MysqlModule {
    pub closed spec fn view(&self) -> MysqlView {
        MysqlView {
            conns: conn_lru_entries(self.connections),
            conn_cap: conn_lru_cap(self.connections),
            pending: self.pending@.map_values(|p: PendingQuery| p.view()),
            expiry: self.expiry@,
        }
    }

    pub open spec fn wf(&self) -> bool {
        lru_wf(self.view().conns, self.view().conn_cap)
    }

    /// The sink the module's metrics go to.
    pub closed spec fn spec_sink(&self) -> TelegrafMetricsPusher {
        self.sink
    }

    /// The ports whose outbound payloads the module asks for.
    pub closed spec fn spec_ports(&self) -> Seq<u16> {
        self.ports@
    }

    /// The latest time `on_event` handled an event at (0 before the first).
    pub closed spec fn spec_clock(&self) -> u64 {
        self.last_ns
    }

    pub fn sink(&self) -> (r: &TelegrafMetricsPusher)
        ensures
            *r == self.spec_sink(),
    {
        &self.sink
    }

    pub fn new(sink: TelegrafMetricsPusher, ports: Vec<u16>) -> (r: Self)
        ensures
            r.spec_sink() == sink,
            r.spec_ports() == ports@,
            r.view().conns == Seq::<(u64, (Seq<char>, Seq<char>))>::empty(),
            r.view().conn_cap == MAX_CONNECTIONS,
            r.view().pending == Map::<u64, PendingView>::empty(),
            r.view().expiry == Seq::<(u64, u64)>::empty(),
            r.spec_clock() == 0,
            r.wf(),
    {
        let r = Self {
            sink,
            ports,
            connections: conn_lru_new(MAX_CONNECTIONS),
            pending: HashMap::new(),
            expiry: VecDeque::new(),
            epoch: instant_now(),
            last_ns: 0,
        };
        assert(r.view().pending =~= Map::<u64, PendingView>::empty());
        r
    }
}

impl MysqlModule {
    /// The connection's current state, read for an in-place update: an
    /// unknown connection first gets an empty state, and the read promotes the
    /// entry.
    fn current_conn(&mut self, k: u64) -> (cur: (String, String))
        requires
            old(self).wf(),
        ensures
            final(self).view() == with_conns(old(self).view(), lru_touch(conn_ensured(old(self).view().conns, k, old(self).view().conn_cap), k)),
            final(self).wf(),
            final(self).spec_sink() == old(self).spec_sink(),
            final(self).spec_ports() == old(self).spec_ports(),
            final(self).spec_clock() == old(self).spec_clock(),
            (cur.0@, cur.1@) == conn_of(old(self).view().conns, k),
    {
        let ghost v0 = self.view();
        proof {
            lemma_rewrite_in_place(v0.conns, k, (Seq::<char>::empty(), Seq::<char>::empty()), v0.conn_cap);
        }
        if !conn_lru_contains(&self.connections, &k) {
            let _ = conn_lru_put(&mut self.connections, k, ConnectionState { username: String::new(), db: String::new() });
        }
        assert(conn_lru_entries(self.connections) == conn_ensured(v0.conns, k, v0.conn_cap));
        let cur = match conn_lru_get(&mut self.connections, &k) {
            Some(s) => (s.username.clone(), s.db.clone()),
            None => (String::new(), String::new()),
        };
        assert(self.view() =~= with_conns(v0, lru_touch(conn_ensured(v0.conns, k, v0.conn_cap), k)));
        cur
    }

    /// A handshake response: the connection's user becomes `user`, and its
    /// database `db` unless `db` is empty.
    fn set_identity(&mut self, k: u64, user: String, db: String)
        requires
            old(self).wf(),
        ensures
            final(self).view() == with_conns(old(self).view(), lru_put(old(self).view().conns, k,
                (user@, if db@.len() > 0 { db@ } else { conn_of(old(self).view().conns, k).1 }), old(self).view().conn_cap)),
            final(self).wf(),
            final(self).spec_sink() == old(self).spec_sink(),
            final(self).spec_ports() == old(self).spec_ports(),
            final(self).spec_clock() == old(self).spec_clock(),
    {
        let ghost v0 = self.view();
        let cur = self.current_conn(k);
        let new_db = if db.as_str().is_empty() { cur.1 } else { db };
        let ghost nv = (user@, new_db@);
        let _ = conn_lru_put(&mut self.connections, k, ConnectionState { username: user, db: new_db });
        proof {
            lemma_rewrite_in_place(v0.conns, k, nv, v0.conn_cap);
        }
        assert(self.view() =~= with_conns(v0, lru_put(v0.conns, k, nv, v0.conn_cap)));
    }

    /// `COM_INIT_DB`: the connection's database becomes `db`.
    fn set_db(&mut self, k: u64, db: String)
        requires
            old(self).wf(),
        ensures
            final(self).view() == with_conns(old(self).view(), lru_put(old(self).view().conns, k,
                (conn_of(old(self).view().conns, k).0, db@), old(self).view().conn_cap)),
            final(self).wf(),
            final(self).spec_sink() == old(self).spec_sink(),
            final(self).spec_ports() == old(self).spec_ports(),
            final(self).spec_clock() == old(self).spec_clock(),
    {
        let ghost v0 = self.view();
        let cur = self.current_conn(k);
        let ghost nv = (cur.0@, db@);
        let _ = conn_lru_put(&mut self.connections, k, ConnectionState { username: cur.0, db });
        proof {
            lemma_rewrite_in_place(v0.conns, k, nv, v0.conn_cap);
        }
        assert(self.view() =~= with_conns(v0, lru_put(v0.conns, k, nv, v0.conn_cap)));
    }

    /// Whether the head of the expiry queue is at least the TTL old at `now`.
    fn front_expired(&self, now: u64) -> (r: bool)
        ensures
            r == (self.view().expiry.len() > 0 && age(now, self.view().expiry[0].0) >= PENDING_TTL_NS),
    {
        if self.expiry.len() == 0 {
            false
        } else {
            let ts = self.expiry[0].0;
            let a = if now >= ts { now - ts } else { 0 };
            a >= PENDING_TTL_NS
        }
    }

    /// Drops the queries that have waited the TTL, oldest first.
    fn expire(&mut self, now: u64)
        requires
            old(self).wf(),
        ensures
            final(self).view() == expired(old(self).view(), now),
            final(self).wf(),
            final(self).spec_sink() == old(self).spec_sink(),
            final(self).spec_ports() == old(self).spec_ports(),
            final(self).spec_clock() == old(self).spec_clock(),
    {
        let ghost v0 = self.view();
        let ghost sink0 = self.spec_sink();
        let ghost ports0 = self.spec_ports();
        let ghost clock0 = self.spec_clock();
        while self.front_expired(now)
            invariant
                spec_expire(self.view().pending, self.view().expiry, now) == spec_expire(v0.pending, v0.expiry, now),
                self.view().conns == v0.conns,
                self.view().conn_cap == v0.conn_cap,
                self.wf(),
                self.spec_sink() == sink0,
                self.spec_ports() == ports0,
                self.spec_clock() == clock0,
            decreases self.view().expiry.len(),
        {
            let ghost v1 = self.view();
            let (ts, ptr) = match self.expiry.pop_front() {
                Some(x) => x,
                None => (0, 0),
            };
            let stale = match self.pending.get(&ptr) {
                Some(p) => p.inserted_at == ts,
                None => false,
            };
            if stale {
                let _ = self.pending.remove(&ptr);
            }
            proof {
                let p2 = if v1.pending.contains_key(ptr) && v1.pending[ptr].inserted_at == ts {
                    v1.pending.remove(ptr)
                } else {
                    v1.pending
                };
                assert(self.view().pending =~= p2);
                assert(self.view().expiry =~= v1.expiry.drop_first());
            }
        }
    }

    /// Records a `COM_QUERY` with the connection's current user and database
    /// (reading them promotes the connection) and queues it for expiry.
    fn record_query(&mut self, k: u64, dest_ip: [u8; 16], ip_family: u8, dest_port: u16, send_ns: u64, query: String, now: u64)
        requires
            old(self).wf(),
        ensures
            final(self).view() == recorded(old(self).view(), k,
                pending_of(conn_of(old(self).view().conns, k), dest_ip@, ip_family, dest_port, send_ns, query@, now), now),
            final(self).wf(),
            final(self).spec_sink() == old(self).spec_sink(),
            final(self).spec_ports() == old(self).spec_ports(),
            final(self).spec_clock() == old(self).spec_clock(),
    {
        let ghost v0 = self.view();
        let (db, username) = match conn_lru_get(&mut self.connections, &k) {
            Some(s) => (s.db.clone(), s.username.clone()),
            None => (String::new(), String::new()),
        };
        let pq = PendingQuery { dest_ip, ip_family, dest_port, send_ns, query, db, username, inserted_at: now };
        let ghost pv = pq.view();
        let _ = self.pending.insert(k, pq);
        self.expiry.push_back((now, k));
        assert(self.view().pending =~= v0.pending.insert(k, pv));
    }

    /// A response on socket `k` at `at_ns`: the socket's pending query is
    /// removed and, when its text is not empty, reported with its latency and
    /// the destination's cached domain.
    fn answer(&mut self, k: u64, at_ns: u64, cache: &mut DnsCache) -> (r: Option<QueryLatency>)
        requires
            old(self).wf(),
            old(cache).wf(),
        ensures
            final(self).view() == without_pending(old(self).view(), k),
            final(self).wf(),
            final(self).spec_sink() == old(self).spec_sink(),
            final(self).spec_ports() == old(self).spec_ports(),
            final(self).spec_clock() == old(self).spec_clock(),
            final(cache).wf(),
            final(cache).capacity() == old(cache).capacity(),
            match answer_of(old(self).view(), k, at_ns) {
                Some((p, at)) => final(cache).entries() == lru_touch(old(cache).entries(), pending_ip_key(p))
                    && (r matches Some(q) && reports(q, p, at, old(cache).cached(spec_fmt_ip(p.dest_ip, p.ip_family)))),
                None => final(cache).entries() == old(cache).entries() && r is None,
            },
    {
        let ghost v0 = self.view();
        let removed = self.pending.remove(&k);
        assert(self.view().pending =~= v0.pending.remove(k));
        match removed {
            Some(pq) => {
                if pq.query.as_str().is_empty() {
                    None
                } else {
                    let latency_ns = at_ns.saturating_sub(pq.send_ns);
                    let query = normalize_query(pq.query.as_str());
                    let ip = fmt_ip(pq.dest_ip, pq.ip_family);
                    let domain = cached_domain(cache, &ip);
                    Some(QueryLatency {
                        dest_ip: pq.dest_ip,
                        ip_family: pq.ip_family,
                        dest_port: pq.dest_port,
                        db: pq.db,
                        username: pq.username,
                        query,
                        latency_ns,
                        domain,
                    })
                }
            },
            None => None,
        }
    }

    /// Handles an event observed `now` nanoseconds after the module was made.
    pub fn on_event_at(&mut self, event: &ProbeEvent, now: u64, cache: &mut DnsCache) -> (r: Option<QueryLatency>)
        requires
            old(self).wf(),
            old(cache).wf(),
        ensures
            final(self).view() == mysql_step(old(self).view(), *event, now),
            final(self).wf(),
            final(self).spec_sink() == old(self).spec_sink(),
            final(self).spec_ports() == old(self).spec_ports(),
            final(self).spec_clock() == old(self).spec_clock(),
            final(cache).wf(),
            final(cache).capacity() == old(cache).capacity(),
            match mysql_answered(old(self).view(), *event) {
                Some((p, at)) => final(cache).entries() == lru_touch(old(cache).entries(), pending_ip_key(p))
                    && (r matches Some(q) && reports(q, p, at, old(cache).cached(spec_fmt_ip(p.dest_ip, p.ip_family)))),
                None => final(cache).entries() == old(cache).entries() && r is None,
            },
    {
        match event {
            ProbeEvent::TcpSendMsg { dest_ip, ip_family, dest_port, socket_ptr, timestamp_ns, payload } => {
                let k = *socket_ptr;
                let n = payload.len();
                if n > 3 && payload[3] == 1 {
                    match parse_handshake_response(payload.as_slice()) {
                        Some((user, db)) => self.set_identity(k, user, db),
                        None => {},
                    }
                } else if n > 4 && payload[3] == 0 && payload[4] == 2 {
                    let db = utf8_lossy(&payload.as_slice()[5..n]);
                    self.set_db(k, db);
                } else if n > 4 && payload[3] == 0 && payload[4] == 3 {
                    self.expire(now);
                    let query = utf8_lossy(&payload.as_slice()[5..n]);
                    self.record_query(k, *dest_ip, *ip_family, *dest_port, *timestamp_ns, query, now);
                }
                None
            },
            ProbeEvent::SockDefReadable { socket_ptr, timestamp_ns, .. } => self.answer(*socket_ptr, *timestamp_ns, cache),
            _ => None,
        }
    }

    /// Nanoseconds since the module was made, saturating.
    fn clock_ns(&self) -> u64 {
        let now = instant_now();
        let d = instant_since(&now, &self.epoch);
        let n = duration_nanos(&d);
        if n > 0xffff_ffff_ffff_ffffu128 {
            u64::MAX
        } else {
            n as u64
        }
    }

    /// Handles an event at the current time: the state changes as
    /// `mysql_step` says for the time the clock gave (never earlier than the
    /// time of the previous call), and a response is reported exactly as
    /// `on_event_at` reports it.
    pub fn on_event(&mut self, event: &ProbeEvent, cache: &mut DnsCache) -> (r: Option<QueryLatency>)
        requires
            old(self).wf(),
            old(cache).wf(),
        ensures
            final(self).spec_clock() >= old(self).spec_clock(),
            final(self).view() == mysql_step(old(self).view(), *event, final(self).spec_clock()),
            final(self).wf(),
            final(self).spec_sink() == old(self).spec_sink(),
            final(self).spec_ports() == old(self).spec_ports(),
            final(cache).wf(),
            final(cache).capacity() == old(cache).capacity(),
            match mysql_answered(old(self).view(), *event) {
                Some((p, at)) => final(cache).entries() == lru_touch(old(cache).entries(), pending_ip_key(p))
                    && (r matches Some(q) && reports(q, p, at, old(cache).cached(spec_fmt_ip(p.dest_ip, p.ip_family)))),
                None => final(cache).entries() == old(cache).entries() && r is None,
            },
    {
        let reading = self.clock_ns();
        let now = if reading > self.last_ns { reading } else { self.last_ns };
        let r = self.on_event_at(event, now, cache);
        self.last_ns = now;
        r
    }
}

impl Module for MysqlModule {
    fn name(&self) -> (r: &'static str)
        ensures
            r@ == "mysql"@,
    {
        "mysql"
    }

    fn required_probes(&self) -> (r: Vec<ProbeRequirement>)
        ensures
            r@.len() == 2,
            r@[0] matches ProbeRequirement::TcpSendMsg { dest_ports } && opt_ports_view(dest_ports) == Some(self.spec_ports()),
            r@[1] matches ProbeRequirement::SockDefReadable { dest_ports } && dest_ports is None,
    {
        let mut v: Vec<ProbeRequirement> = Vec::new();
        v.push(ProbeRequirement::TcpSendMsg { dest_ports: Some(self.ports.clone()) });
        v.push(ProbeRequirement::SockDefReadable { dest_ports: None });
        v
    }
}

// ── laws ─────────────────────────────────────────────────────────────────────

/// `(socket, send time, query text)` of a `COM_QUERY` send.
pub open spec fn query_sent(e: ProbeEvent) -> Option<(u64, u64, Seq<char>)> {
    match e {
        ProbeEvent::TcpSendMsg { socket_ptr, timestamp_ns, payload, .. } => {
            let d = payload@;
            if d.len() > 4 && d[3] == 0 && d[4] == 3 {
                Some((socket_ptr, timestamp_ns, command_text(d)))
            } else {
                None
            }
        },
        _ => None,
    }
}

/// `(socket, time)` of a response event.
pub open spec fn response_on(e: ProbeEvent) -> Option<(u64, u64)> {
    match e {
        ProbeEvent::SockDefReadable { socket_ptr, timestamp_ns, .. } => Some((socket_ptr, timestamp_ns)),
        _ => None,
    }
}

/// Law: a response on the socket a query was just sent on reports that
/// query, with the send's destination, sent at the send's time and answered
/// at the response's time, so with the latency between the two.
pub proof fn law_response_reports_query(v: MysqlView, send: ProbeEvent, now: u64, resp: ProbeEvent, k: u64, t: u64, text: Seq<char>, at: u64)
    requires
        query_sent(send) == Some((k, t, text)),
        text.len() > 0,
        response_on(resp) == Some((k, at)),
    ensures
        mysql_answered(mysql_step(v, send, now), resp) matches Some((p, a)) && p.query == text && p.send_ns == t && a == at
            && p.dest_port == send->TcpSendMsg_dest_port && p.dest_ip == send->TcpSendMsg_dest_ip@
            && p.ip_family == send->TcpSendMsg_ip_family,
{
}

/// Law: a query is reported at most once: after a response on a socket, a
/// further response on it reports nothing.
pub proof fn law_reported_once(v: MysqlView, resp: ProbeEvent, now: u64, again: ProbeEvent, k: u64, at: u64, at2: u64)
    requires
        response_on(resp) == Some((k, at)),
        response_on(again) == Some((k, at2)),
    ensures
        mysql_answered(mysql_step(v, resp, now), again) is None,
{
}

/// Law: the user (and database, when named) of a handshake are what the
/// next query on that connection is recorded with.
pub proof fn law_handshake_identity_attached(v: MysqlView, hs: ProbeEvent, now: u64, send: ProbeEvent, later: u64,
    k: u64, user: Seq<char>, db: Seq<char>, t: u64, text: Seq<char>)
    requires
        hs matches ProbeEvent::TcpSendMsg { socket_ptr, payload, .. } && socket_ptr == k && payload@.len() > 3
            && payload@[3] == 1 && spec_handshake(payload@) == Some((user, db)),
        query_sent(send) == Some((k, t, text)),
    ensures
        mysql_step(mysql_step(v, hs, now), send, later).pending.contains_key(k),
        mysql_step(mysql_step(v, hs, now), send, later).pending[k].username == user,
        mysql_step(mysql_step(v, hs, now), send, later).pending[k].db == if db.len() > 0 { db } else { conn_of(v.conns, k).1 },
{
    let nv = (user, if db.len() > 0 { db } else { conn_of(v.conns, k).1 });
    law_lookup_after_put(v.conns, k, nv, v.conn_cap);
}

/// Law: `COM_INIT_DB` sets the database the next query on that connection is
/// recorded with.
pub proof fn law_init_db_attached(v: MysqlView, init: ProbeEvent, now: u64, send: ProbeEvent, later: u64,
    k: u64, t: u64, text: Seq<char>)
    requires
        init matches ProbeEvent::TcpSendMsg { socket_ptr, payload, .. } && socket_ptr == k && payload@.len() > 4
            && payload@[3] == 0 && payload@[4] == 2,
        query_sent(send) == Some((k, t, text)),
    ensures
        mysql_step(mysql_step(v, init, now), send, later).pending.contains_key(k),
        mysql_step(mysql_step(v, init, now), send, later).pending[k].db == command_text(init->TcpSendMsg_payload@),
{
    let nv = (conn_of(v.conns, k).0, command_text(init->TcpSendMsg_payload@));
    law_lookup_after_put(v.conns, k, nv, v.conn_cap);
}

/// Law: after the expiry pass the head of the queue, if any, is younger than
/// the TTL.
pub proof fn law_expiry_head_fresh(p: Map<u64, PendingView>, q: Seq<(u64, u64)>, now: u64)
    ensures
        spec_expire(p, q, now).1.len() == 0 || age(now, spec_expire(p, q, now).1[0].0) < PENDING_TTL_NS,
    decreases q.len(),
{
    if !(q.len() == 0 || age(now, q[0].0) < PENDING_TTL_NS) {
        let ts = q[0].0;
        let ptr = q[0].1;
        let p2 = if p.contains_key(ptr) && p[ptr].inserted_at == ts {
            p.remove(ptr)
        } else {
            p
        };
        law_expiry_head_fresh(p2, q.drop_first(), now);
    }
}

/// The state after events, each handled at its time, in order.
pub open spec fn run_steps(v: MysqlView, evs: Seq<(ProbeEvent, u64)>) -> MysqlView
    decreases evs.len(),
{
    if evs.len() == 0 {
        v
    } else {
        run_steps(mysql_step(v, evs[0].0, evs[0].1), evs.drop_first())
    }
}

/// Whether an event handled at `now` leaves alone the pending query of
/// socket `k` recorded at `t`: it is neither a response nor a query on `k`,
/// and if it is a query (whose expiry pass may drop old queries) it comes
/// less than the TTL after `t`.
pub open spec fn keeps_pending(e: ProbeEvent, now: u64, k: u64, t: u64) -> bool {
    &&& match response_on(e) {
        Some(r) => r.0 != k,
        None => true,
    }
    &&& match query_sent(e) {
        Some(q) => q.0 != k && age(now, t) < PENDING_TTL_NS,
        None => true,
    }
}

proof fn lemma_expire_keeps(p: Map<u64, PendingView>, q: Seq<(u64, u64)>, now: u64, k: u64)
    requires
        p.contains_key(k),
        age(now, p[k].inserted_at) < PENDING_TTL_NS,
    ensures
        spec_expire(p, q, now).0.contains_key(k),
        spec_expire(p, q, now).0[k] == p[k],
    decreases q.len(),
{
    if !(q.len() == 0 || age(now, q[0].0) < PENDING_TTL_NS) {
        let ts = q[0].0;
        let ptr = q[0].1;
        let p2 = if p.contains_key(ptr) && p[ptr].inserted_at == ts {
            p.remove(ptr)
        } else {
            p
        };
        assert(p2.contains_key(k) && p2[k] == p[k]);
        lemma_expire_keeps(p2, q.drop_first(), now, k);
    }
}

proof fn lemma_step_keeps(v: MysqlView, e: ProbeEvent, now: u64, k: u64)
    requires
        v.pending.contains_key(k),
        keeps_pending(e, now, k, v.pending[k].inserted_at),
    ensures
        mysql_step(v, e, now).pending.contains_key(k),
        mysql_step(v, e, now).pending[k] == v.pending[k],
{
    match e {
        ProbeEvent::TcpSendMsg { payload, .. } => {
            let d = payload@;
            if !(d.len() > 3 && d[3] == 1) && d.len() > 4 && d[3] == 0 && d[4] == 3 {
                lemma_expire_keeps(v.pending, v.expiry, now, k);
            }
        },
        _ => {},
    }
}

proof fn lemma_steps_keep(v: MysqlView, evs: Seq<(ProbeEvent, u64)>, k: u64)
    requires
        v.pending.contains_key(k),
        forall|i: int| 0 <= i < evs.len() ==> keeps_pending(#[trigger] evs[i].0, evs[i].1, k, v.pending[k].inserted_at),
    ensures
        run_steps(v, evs).pending.contains_key(k),
        run_steps(v, evs).pending[k] == v.pending[k],
    decreases evs.len(),
{
    if evs.len() > 0 {
        assert(keeps_pending(evs[0].0, evs[0].1, k, v.pending[k].inserted_at));
        lemma_step_keeps(v, evs[0].0, evs[0].1, k);
        let v1 = mysql_step(v, evs[0].0, evs[0].1);
        let rest = evs.drop_first();
        assert forall|i: int| 0 <= i < rest.len() implies keeps_pending(#[trigger] rest[i].0, rest[i].1, k, v1.pending[k].inserted_at) by {
            assert(rest[i] == evs[i + 1]);
        }
        lemma_steps_keep(v1, rest, k);
    }
}

/// Law: a query's response reports it even when other events come in
/// between, as long as none of them is a query or response on the same
/// socket and no query on any socket comes the TTL or more after it: the
/// report carries the query's text, its destination address, family and
/// port, its send time, the response's time and the connection's user and
/// database as they were when the query was sent;
/// after the response nothing is pending on the socket.
pub proof fn law_response_reports_query_after_other_events(v: MysqlView, send: ProbeEvent, now: u64,
    evs: Seq<(ProbeEvent, u64)>, resp: ProbeEvent, later: u64, k: u64, t: u64, text: Seq<char>, at: u64)
    requires
        query_sent(send) == Some((k, t, text)),
        text.len() > 0,
        forall|i: int| 0 <= i < evs.len() ==> keeps_pending(#[trigger] evs[i].0, evs[i].1, k, now),
        response_on(resp) == Some((k, at)),
    ensures
        mysql_answered(run_steps(mysql_step(v, send, now), evs), resp) matches Some((p, a))
            && p.query == text && p.send_ns == t && a == at
            && p.username == conn_of(v.conns, k).0 && p.db == conn_of(v.conns, k).1
            && p.dest_port == send->TcpSendMsg_dest_port && p.dest_ip == send->TcpSendMsg_dest_ip@
            && p.ip_family == send->TcpSendMsg_ip_family,
        !mysql_step(run_steps(mysql_step(v, send, now), evs), resp, later).pending.contains_key(k),
{
    let v1 = mysql_step(v, send, now);
    assert(v1.pending.contains_key(k));
    assert(v1.pending[k].inserted_at == now);
    lemma_steps_keep(v1, evs, k);
}

} // verus!
