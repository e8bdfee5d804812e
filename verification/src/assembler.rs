//! Reassembly of chunked `tcp_sendmsg` payloads into complete events.

use vstd::prelude::*;
use std::collections::HashMap;
use crate::common::KProbeChunk;
use crate::probes::ProbeEvent;

verus! {

broadcast use vstd::std_specs::hash::group_hash_axioms;

/// A session in progress, as the contracts see it.
pub struct SessionView {
    pub dest_ip: Seq<u8>,
    pub ip_family: u8,
    pub dest_port: u16,
    pub timestamp_ns: u64,
    pub data: Seq<u8>,
}

struct AssemblyBuffer {
    dest_ip: [u8; 16],
    ip_family: u8,
    dest_port: u16,
    timestamp_ns: u64,
    data: Vec<u8>,
}

impl AssemblyBuffer {
    spec fn view(self) -> SessionView {
        SessionView {
            dest_ip: self.dest_ip@,
            ip_family: self.ip_family,
            dest_port: self.dest_port,
            timestamp_ns: self.timestamp_ns,
            data: self.data@,
        }
    }
}

/// The valid bytes of a chunk.
pub open spec fn chunk_bytes(c: KProbeChunk) -> Seq<u8> {
    c.data@.subrange(0, c.len as int)
}

/// One chunk fed to the sessions: the session it belongs to grows by its
/// bytes (a new session takes the chunk's address, port and timestamp); a
/// final chunk closes the session and yields it.
pub open spec fn spec_ingest(v: Map<u64, SessionView>, c: KProbeChunk) -> (Map<u64, SessionView>, Option<SessionView>) {
    let grown = if v.contains_key(c.socket_ptr) {
        let s = v[c.socket_ptr];
        SessionView { data: s.data + chunk_bytes(c), ..s }
    } else {
        SessionView {
            dest_ip: c.dest_ip@,
            ip_family: c.ip_family,
            dest_port: c.dest_port,
            timestamp_ns: c.timestamp_ns,
            data: chunk_bytes(c),
        }
    };
    if c.complete {
        (v.remove(c.socket_ptr), Some(grown))
    } else {
        (v.insert(c.socket_ptr, grown), None)
    }
}

/// The `TcpSendMsg` event that carries a completed session.
pub open spec fn carries(e: ProbeEvent, socket: u64, s: SessionView) -> bool {
    e matches ProbeEvent::TcpSendMsg { dest_ip, ip_family, dest_port, socket_ptr, timestamp_ns, payload }
        && dest_ip@ == s.dest_ip && ip_family == s.ip_family && dest_port == s.dest_port
        && socket_ptr == socket && timestamp_ns == s.timestamp_ns && payload@ == s.data
}

/// Reassembles chunked kprobe payloads into complete `ProbeEvent`s.
///
/// Each instance is single-threaded and lives inside the event-loop task for
/// one kprobe ring buffer, so no locking is needed.
pub struct KProbeAssembler {
    sessions: HashMap<u64, AssemblyBuffer>,
}

impl KProbeAssembler {
    /// Sessions in progress, by socket.
    pub closed spec fn view(&self) -> Map<u64, SessionView> {
        self.sessions@.map_values(|b: AssemblyBuffer| b.view())
    }

    pub fn new() -> (r: Self)
        ensures
            r.view() == Map::<u64, SessionView>::empty(),
    {
        let r = Self { sessions: HashMap::new() };
        assert(r.view() =~= Map::<u64, SessionView>::empty());
        r
    }

    /// Feed one chunk in. Returns a complete `ProbeEvent` once the final chunk
    /// for a session arrives; returns `None` for intermediate chunks.
    pub fn ingest(&mut self, chunk: &KProbeChunk) -> (r: Option<ProbeEvent>)
        requires
            chunk.len <= 1024,
        ensures
            final(self).view() == spec_ingest(old(self).view(), *chunk).0,
            match spec_ingest(old(self).view(), *chunk).1 {
                Some(s) => r matches Some(e) && carries(e, chunk.socket_ptr, s),
                None => r is None,
            },
    {
        let ghost v0 = self.view();
        let key = chunk.socket_ptr;
        let mut buf = match self.sessions.remove(&key) {
            Some(b) => b,
            None => AssemblyBuffer {
                dest_ip: chunk.dest_ip,
                ip_family: chunk.ip_family,
                dest_port: chunk.dest_port,
                timestamp_ns: chunk.timestamp_ns,
                data: Vec::new(),
            },
        };
        let len = chunk.len as usize;
        if len > 0 {
            let mut more = vstd::slice::slice_to_vec(&chunk.data.as_slice()[0..len]);
            buf.data.append(&mut more);
        }
        proof {
            let g = spec_ingest(v0, *chunk);
            if v0.contains_key(key) {
                assert(buf.view().data == v0[key].data + chunk_bytes(*chunk));
            } else {
                assert(chunk_bytes(*chunk) == Seq::<u8>::empty() + chunk_bytes(*chunk));
            }
        }
        if chunk.complete {
            assert(self.view() =~= v0.remove(key));
            Some(ProbeEvent::TcpSendMsg {
                dest_ip: buf.dest_ip,
                ip_family: buf.ip_family,
                dest_port: buf.dest_port,
                socket_ptr: key,
                timestamp_ns: buf.timestamp_ns,
                payload: buf.data,
            })
        } else {
            let ghost bv = buf.view();
            self.sessions.insert(key, buf);
            assert(self.view() =~= v0.insert(key, bv));
            None
        }
    }
}

/// Sessions left and sessions completed (in order) after feeding `cs`.
pub open spec fn run_ingest(v: Map<u64, SessionView>, cs: Seq<KProbeChunk>) -> (Map<u64, SessionView>, Seq<SessionView>)
    decreases cs.len(),
{
    if cs.len() == 0 {
        (v, Seq::empty())
    } else {
        let (v1, e) = spec_ingest(v, cs[0]);
        let (v2, es) = run_ingest(v1, cs.drop_first());
        (v2, match e {
            Some(s) => seq![s] + es,
            None => es,
        })
    }
}

/// The valid bytes of the chunks, in order.
pub open spec fn concat_bytes(cs: Seq<KProbeChunk>) -> Seq<u8>
    decreases cs.len(),
{
    if cs.len() == 0 {
        Seq::empty()
    } else {
        chunk_bytes(cs[0]) + concat_bytes(cs.drop_first())
    }
}

/// The chunks of one send on `sock`: all on that socket, only the last one final.
pub open spec fn one_send(cs: Seq<KProbeChunk>, sock: u64) -> bool {
    &&& cs.len() > 0
    &&& forall|i: int| 0 <= i < cs.len() ==> #[trigger] cs[i].socket_ptr == sock
    &&& forall|i: int| 0 <= i < cs.len() - 1 ==> !#[trigger] cs[i].complete
    &&& cs[cs.len() - 1].complete
}

proof fn lemma_one_send(v: Map<u64, SessionView>, cs: Seq<KProbeChunk>, sock: u64)
    requires
        one_send(cs, sock),
    ensures
        run_ingest(v, cs).0 == v.remove(sock),
        run_ingest(v, cs).1.len() == 1,
        run_ingest(v, cs).1[0].data == (if v.contains_key(sock) { v[sock].data } else { Seq::<u8>::empty() }) + concat_bytes(cs),
        v.contains_key(sock) ==> run_ingest(v, cs).1[0].dest_port == v[sock].dest_port
            && run_ingest(v, cs).1[0].dest_ip == v[sock].dest_ip
            && run_ingest(v, cs).1[0].ip_family == v[sock].ip_family
            && run_ingest(v, cs).1[0].timestamp_ns == v[sock].timestamp_ns,
        !v.contains_key(sock) ==> run_ingest(v, cs).1[0].dest_port == cs[0].dest_port
            && run_ingest(v, cs).1[0].dest_ip == cs[0].dest_ip@
            && run_ingest(v, cs).1[0].ip_family == cs[0].ip_family
            && run_ingest(v, cs).1[0].timestamp_ns == cs[0].timestamp_ns,
    decreases cs.len(),
{
    let c = cs[0];
    assert(c.socket_ptr == sock);
    let prev = if v.contains_key(sock) { v[sock].data } else { Seq::<u8>::empty() };
    if cs.len() == 1 {
        assert(cs.drop_first().len() == 0);
        let (v1, e) = spec_ingest(v, c);
        assert(run_ingest(v1, cs.drop_first()) == (v1, Seq::<SessionView>::empty()));
        let sv = e.unwrap();
        assert(seq![sv] + Seq::<SessionView>::empty() == seq![sv]);
        assert(run_ingest(v, cs) == (v1, seq![sv]));
        assert(v1 == v.remove(sock));
        assert(concat_bytes(cs.drop_first()) == Seq::<u8>::empty());
        assert(concat_bytes(cs) == chunk_bytes(c) + Seq::<u8>::empty());
        assert(chunk_bytes(c) + Seq::<u8>::empty() == chunk_bytes(c));
        if !v.contains_key(sock) {
            assert(Seq::<u8>::empty() + chunk_bytes(c) == chunk_bytes(c));
        }
    } else {
        assert(!c.complete);
        let (v1, e) = spec_ingest(v, c);
        let rest = cs.drop_first();
        assert forall|i: int| 0 <= i < rest.len() implies #[trigger] rest[i].socket_ptr == sock by {
            assert(rest[i] == cs[i + 1]);
        }
        assert forall|i: int| 0 <= i < rest.len() - 1 implies !#[trigger] rest[i].complete by {
            assert(rest[i] == cs[i + 1]);
        }
        assert(rest[rest.len() - 1] == cs[cs.len() - 1]);
        lemma_one_send(v1, rest, sock);
        assert(e is None);
        assert(run_ingest(v, cs) == run_ingest(v1, rest));
        assert(v1.contains_key(sock));
        assert(v1[sock].data == prev + chunk_bytes(c)) by {
            if !v.contains_key(sock) {
                assert(Seq::<u8>::empty() + chunk_bytes(c) == chunk_bytes(c));
            }
        }
        assert(v1.remove(sock) =~= v.remove(sock));
        assert((prev + chunk_bytes(c)) + concat_bytes(rest) == prev + concat_bytes(cs));
    }
}

/// Law (reassembly): the chunks of one send, fed in order to an assembler
/// with no session open on that socket, yield exactly one event; its payload
/// is the chunks' valid bytes concatenated, its address, port and timestamp
/// are those of the first chunk, and no session is left on the socket while
/// every other session is untouched.
pub proof fn law_reassembly(v: Map<u64, SessionView>, cs: Seq<KProbeChunk>, sock: u64)
    requires
        one_send(cs, sock),
        !v.contains_key(sock),
    ensures
        run_ingest(v, cs).0 == v,
        run_ingest(v, cs).1.len() == 1,
        run_ingest(v, cs).1[0].data == concat_bytes(cs),
        run_ingest(v, cs).1[0].dest_port == cs[0].dest_port,
        run_ingest(v, cs).1[0].dest_ip == cs[0].dest_ip@,
        run_ingest(v, cs).1[0].ip_family == cs[0].ip_family,
        run_ingest(v, cs).1[0].timestamp_ns == cs[0].timestamp_ns,
{
    lemma_one_send(v, cs, sock);
    assert(v.remove(sock) =~= v);
    assert(Seq::<u8>::empty() + concat_bytes(cs) == concat_bytes(cs));
}

/// Law: an intermediate chunk yields nothing; a final chunk always yields an
/// event and closes its session.
pub proof fn law_final_chunk_closes(v: Map<u64, SessionView>, c: KProbeChunk)
    ensures
        !c.complete ==> spec_ingest(v, c).1 is None && spec_ingest(v, c).0.contains_key(c.socket_ptr),
        c.complete ==> spec_ingest(v, c).1 is Some && !spec_ingest(v, c).0.contains_key(c.socket_ptr),
{
}

/// The chunks of socket `s`, in order.
pub open spec fn on_socket(cs: Seq<KProbeChunk>, s: u64) -> Seq<KProbeChunk>
    decreases cs.len(),
{
    if cs.len() == 0 {
        Seq::empty()
    } else if cs.last().socket_ptr == s {
        on_socket(cs.drop_last(), s).push(cs.last())
    } else {
        on_socket(cs.drop_last(), s)
    }
}

/// The session a map holds for socket `s`, if any.
pub open spec fn session_at(v: Map<u64, SessionView>, s: u64) -> Option<SessionView> {
    if v.contains_key(s) {
        Some(v[s])
    } else {
        None
    }
}

/// The sessions a completion adds to the completed list.
pub open spec fn completed(e: Option<SessionView>) -> Seq<SessionView> {
    match e {
        Some(x) => seq![x],
        None => Seq::empty(),
    }
}

proof fn lemma_run_push(v: Map<u64, SessionView>, cs: Seq<KProbeChunk>, c: KProbeChunk)
    ensures
        run_ingest(v, cs.push(c)).0 == spec_ingest(run_ingest(v, cs).0, c).0,
        run_ingest(v, cs.push(c)).1 == run_ingest(v, cs).1 + completed(spec_ingest(run_ingest(v, cs).0, c).1),
    decreases cs.len(),
{
    let cp = cs.push(c);
    if cs.len() == 0 {
        assert(cp.drop_first() =~= Seq::<KProbeChunk>::empty());
        assert(cp[0] == c);
        let v1 = spec_ingest(v, c).0;
        let e = spec_ingest(v, c).1;
        assert(run_ingest(v1, cp.drop_first()) == (v1, Seq::<SessionView>::empty()));
        assert(run_ingest(v, cs) == (v, Seq::<SessionView>::empty()));
        assert(run_ingest(v, cp).0 == v1);
        assert(Seq::<SessionView>::empty() + completed(e) =~= completed(e));
        match e {
            Some(x) => {
                assert(seq![x] + Seq::<SessionView>::empty() =~= seq![x]);
            },
            None => {},
        }
    } else {
        let v1 = spec_ingest(v, cs[0]).0;
        let e = spec_ingest(v, cs[0]).1;
        assert(cp.drop_first() =~= cs.drop_first().push(c));
        assert(cp[0] == cs[0]);
        lemma_run_push(v1, cs.drop_first(), c);
        let tail = run_ingest(v1, cs.drop_first()).1;
        let last = completed(spec_ingest(run_ingest(v1, cs.drop_first()).0, c).1);
        assert(run_ingest(v, cp).0 == run_ingest(v1, cp.drop_first()).0);
        assert(run_ingest(v, cs).0 == run_ingest(v1, cs.drop_first()).0);
        match e {
            Some(x) => {
                assert(seq![x] + (tail + last) =~= (seq![x] + tail) + last);
            },
            None => {},
        }
    }
}

/// What feeding a chunk does to one socket's session, and what it yields,
/// depends on that session alone.
proof fn lemma_ingest_local(a: Map<u64, SessionView>, b: Map<u64, SessionView>, c: KProbeChunk, s: u64)
    requires
        session_at(a, s) == session_at(b, s),
    ensures
        c.socket_ptr == s ==> session_at(spec_ingest(a, c).0, s) == session_at(spec_ingest(b, c).0, s)
            && spec_ingest(a, c).1 == spec_ingest(b, c).1,
        c.socket_ptr != s ==> session_at(spec_ingest(a, c).0, s) == session_at(a, s),
{
}

/// Feeding chunks leaves socket `s`'s session as feeding only the chunks of
/// `s` would.
proof fn lemma_session_by_socket(v: Map<u64, SessionView>, cs: Seq<KProbeChunk>, s: u64)
    ensures
        session_at(run_ingest(v, cs).0, s) == session_at(run_ingest(v, on_socket(cs, s)).0, s),
    decreases cs.len(),
{
    if cs.len() > 0 {
        let pre = cs.drop_last();
        let c = cs.last();
        assert(cs == pre.push(c));
        lemma_session_by_socket(v, pre, s);
        lemma_run_push(v, pre, c);
        let m = run_ingest(v, pre).0;
        let mf = run_ingest(v, on_socket(pre, s)).0;
        lemma_ingest_local(m, mf, c, s);
        if c.socket_ptr == s {
            lemma_run_push(v, on_socket(pre, s), c);
        }
    }
}

/// Chunks that are all intermediate complete no session.
proof fn lemma_no_completion(v: Map<u64, SessionView>, cs: Seq<KProbeChunk>)
    requires
        forall|i: int| 0 <= i < cs.len() ==> !(#[trigger] cs[i]).complete,
    ensures
        run_ingest(v, cs).1.len() == 0,
    decreases cs.len(),
{
    if cs.len() > 0 {
        let rest = cs.drop_first();
        assert forall|i: int| 0 <= i < rest.len() implies !(#[trigger] rest[i]).complete by {
            assert(rest[i] == cs[i + 1]);
        }
        lemma_no_completion(spec_ingest(v, cs[0]).0, rest);
    }
}

/// The chunks of `s` among `cs` are on `s`; when every chunk of `s` in `cs`
/// is intermediate, so is every chunk of `on_socket(cs, s)`.
proof fn lemma_on_socket(cs: Seq<KProbeChunk>, s: u64)
    ensures
        forall|i: int| 0 <= i < on_socket(cs, s).len() ==> (#[trigger] on_socket(cs, s)[i]).socket_ptr == s,
        (forall|j: int| 0 <= j < cs.len() && (#[trigger] cs[j]).socket_ptr == s ==> !cs[j].complete)
            ==> forall|i: int| 0 <= i < on_socket(cs, s).len() ==> !(#[trigger] on_socket(cs, s)[i]).complete,
    decreases cs.len(),
{
    if cs.len() > 0 {
        let pre = cs.drop_last();
        lemma_on_socket(pre, s);
        let f = on_socket(cs, s);
        let fp = on_socket(pre, s);
        if cs.last().socket_ptr == s {
            assert(f == fp.push(cs.last()));
            assert forall|i: int| 0 <= i < f.len() implies (#[trigger] f[i]).socket_ptr == s by {
                if i < fp.len() {
                    assert(f[i] == fp[i]);
                }
            }
        } else {
            assert(f == fp);
        }
        if forall|j: int| 0 <= j < cs.len() && (#[trigger] cs[j]).socket_ptr == s ==> !cs[j].complete {
            assert forall|j: int| 0 <= j < pre.len() && (#[trigger] pre[j]).socket_ptr == s implies !pre[j].complete by {
                assert(pre[j] == cs[j]);
            }
            if cs.last().socket_ptr == s {
                assert(!cs[cs.len() - 1].complete);
                assert forall|i: int| 0 <= i < f.len() implies !(#[trigger] f[i]).complete by {
                    if i < fp.len() {
                        assert(f[i] == fp[i]);
                    }
                }
            }
        }
    }
}

/// Law (reassembly with other sockets' chunks in between): when the chunks
/// fed to an assembler with no session on socket `s` hold chunks of `s`
/// that are all intermediate but the last chunk fed, which is final, then
/// every chunk of `s` before the last yields nothing, the last yields one
/// event whose payload is the valid bytes of `s`'s chunks concatenated and
/// whose address, port and timestamp are those of the first chunk of `s`,
/// and no session is left on `s`.
pub proof fn law_reassembly_interleaved(v: Map<u64, SessionView>, cs: Seq<KProbeChunk>, s: u64)
    requires
        !v.contains_key(s),
        cs.len() > 0,
        cs.last().socket_ptr == s,
        cs.last().complete,
        forall|j: int| 0 <= j < cs.len() - 1 && (#[trigger] cs[j]).socket_ptr == s ==> !cs[j].complete,
    ensures
        forall|j: int| 0 <= j < cs.len() - 1 && (#[trigger] cs[j]).socket_ptr == s
            ==> spec_ingest(run_ingest(v, cs.take(j)).0, cs[j]).1 is None,
        spec_ingest(run_ingest(v, cs.drop_last()).0, cs.last()).1 matches Some(e)
            && e.data == concat_bytes(on_socket(cs, s))
            && e.dest_port == on_socket(cs, s)[0].dest_port
            && e.dest_ip == on_socket(cs, s)[0].dest_ip@
            && e.ip_family == on_socket(cs, s)[0].ip_family
            && e.timestamp_ns == on_socket(cs, s)[0].timestamp_ns,
        !run_ingest(v, cs).0.contains_key(s),
{
    let pre = cs.drop_last();
    let c = cs.last();
    assert(cs == pre.push(c));
    let f = on_socket(cs, s);
    let fp = on_socket(pre, s);
    assert(f == fp.push(c));
    lemma_on_socket(pre, s);
    assert forall|j: int| 0 <= j < pre.len() && (#[trigger] pre[j]).socket_ptr == s implies !pre[j].complete by {
        assert(pre[j] == cs[j]);
    }
    // `f` is one send on `s`
    assert forall|i: int| 0 <= i < f.len() implies #[trigger] f[i].socket_ptr == s by {
        if i < fp.len() {
            assert(f[i] == fp[i]);
        }
    }
    assert forall|i: int| 0 <= i < f.len() - 1 implies !#[trigger] f[i].complete by {
        assert(f[i] == fp[i]);
    }
    assert(one_send(f, s));
    lemma_one_send(v, f, s);
    lemma_run_push(v, fp, c);
    lemma_no_completion(v, fp);
    let mf = run_ingest(v, fp).0;
    assert(run_ingest(v, f).1 == completed(spec_ingest(mf, c).1)) by {
        assert(Seq::<SessionView>::empty() + completed(spec_ingest(mf, c).1) == completed(spec_ingest(mf, c).1));
    }
    // the state before the last chunk agrees with `mf` on `s`
    lemma_session_by_socket(v, pre, s);
    lemma_ingest_local(run_ingest(v, pre).0, mf, c, s);
    assert(spec_ingest(run_ingest(v, pre).0, c).1 == spec_ingest(mf, c).1);
    assert(spec_ingest(mf, c).1 == Some(run_ingest(v, f).1[0]));
    lemma_run_push(v, pre, c);
    assert forall|j: int| 0 <= j < cs.len() - 1 && (#[trigger] cs[j]).socket_ptr == s
        implies spec_ingest(run_ingest(v, cs.take(j)).0, cs[j]).1 is None by {
        assert(!cs[j].complete);
    }
}

} // verus!
