//! DNS response parsing: question names for metrics, A/AAAA answers for the
//! reverse DNS cache.

use vstd::prelude::*;
use vstd::utf8::{valid_utf8, decode_utf8};
use crate::bytes::be16;
use crate::dns_cache::DnsCache;
use crate::lru_model::lru_put;
use crate::net::{IpAddr, be32, be128, read_be32, read_be128, spec_ip_key, spec_v6_or_mapped, spec_ipv4_mapped, v6_or_mapped};
use crate::bytes::read_be16;
use crate::text::{push_char, push_str, utf8_str};
use crate::probes::{ProbeEvent, ProbeRequirement};
use crate::sink::{TelegrafMetricsPusher, line_views, influx_dns, spec_suffix, dns_tags};
use crate::config::MetricProtocol;
use crate::modules::{Module, opt_ports_view};

verus! {

/// A name with one more label: joined by `.` unless the name is still empty.
pub open spec fn append_label(name: Seq<char>, label: Seq<char>) -> Seq<char> {
    if name.len() == 0 {
        label
    } else {
        name + seq!['.'] + label
    }
}

/// Walk of a (possibly compressed) DNS name from `cur`, after `depth` steps,
/// with `first_ptr` the position of the first compression pointer followed so
/// far and `name` the labels read so far. The result is the name and the
/// position just after the name in the message: after its terminating zero,
/// or after the first pointer. At most 129 steps are taken; a label must be
/// valid UTF-8 and lie inside the message, as must a pointer and its target.
pub open spec fn walk_name(m: Seq<u8>, cur: int, depth: int, first_ptr: Option<int>, name: Seq<char>) -> Option<(Seq<char>, int)>
    decreases 129 - depth,
{
    if depth > 128 || depth < 0 || cur < 0 || cur >= m.len() {
        None
    } else {
        let b = m[cur];
        if b == 0 {
            Some((name, match first_ptr { Some(p) => p + 2, None => cur + 1 }))
        } else if b & 0xC0 == 0xC0 {
            if cur + 1 >= m.len() {
                None
            } else {
                let target = (b & 0x3F) * 256 + m[cur + 1];
                if target >= m.len() {
                    None
                } else {
                    walk_name(m, target, depth + 1, if first_ptr is None { Some(cur) } else { first_ptr }, name)
                }
            }
        } else {
            let end = cur + 1 + b;
            if end > m.len() || !valid_utf8(m.subrange(cur + 1, end)) {
                None
            } else {
                walk_name(m, end, depth + 1, first_ptr, append_label(name, decode_utf8(m.subrange(cur + 1, end))))
            }
        }
    }
}

/// The DNS name at `pos` and the position just after it in the message.
pub open spec fn spec_parse_name(m: Seq<u8>, pos: int) -> Option<(Seq<char>, int)> {
    walk_name(m, pos, 0, None, Seq::<char>::empty())
}

proof fn lemma_walk_end(m: Seq<u8>, cur: int, depth: int, first_ptr: Option<int>, name: Seq<char>)
    requires
        first_ptr matches Some(p) ==> 0 <= p && p + 2 <= m.len(),
    ensures
        walk_name(m, cur, depth, first_ptr, name) matches Some((_, e)) ==> e <= m.len(),
    decreases 129 - depth,
{
    if !(depth > 128 || depth < 0 || cur < 0 || cur >= m.len()) {
        let b = m[cur];
        if b == 0 {
        } else if b & 0xC0 == 0xC0 {
            if cur + 1 < m.len() {
                let target = (b & 0x3F) * 256 + m[cur + 1];
                if target < m.len() {
                    lemma_walk_end(m, target, depth + 1, if first_ptr is None { Some(cur) } else { first_ptr }, name);
                }
            }
        } else {
            let end = cur + 1 + b;
            if !(end > m.len() || !valid_utf8(m.subrange(cur + 1, end))) {
                lemma_walk_end(m, end, depth + 1, first_ptr, append_label(name, decode_utf8(m.subrange(cur + 1, end))));
            }
        }
    }
}

/// Parses a DNS name (with pointer compression) starting at `pos` in `msg`.
/// Returns `(name, end_pos)` where `end_pos` is the byte after the name in
/// the *original* message (not after a followed pointer).
pub fn parse_name(msg: &[u8], pos: usize) -> (r: Option<(String, usize)>)
    ensures
        match spec_parse_name(msg@, pos as int) {
            Some((n, e)) => r matches Some((s, e2)) && s@ == n && e2 == e,
            None => r is None,
        },
        r matches Some((_, e)) ==> e <= msg@.len(),
{
    proof {
        lemma_walk_end(msg@, pos as int, 0, None, Seq::<char>::empty());
    }
    let mut name = String::new();
    let mut cur = pos;
    let mut jumped = false;
    let mut end_pos = pos;
    let mut depth: usize = 0;
    let ghost mut first_ptr: Option<int> = None;
    loop
        invariant
            depth <= 129,
            jumped <==> first_ptr is Some,
            first_ptr matches Some(p) ==> p + 2 == end_pos && end_pos <= msg@.len(),
            walk_name(msg@, cur as int, depth as int, first_ptr, name@) == spec_parse_name(msg@, pos as int),
        decreases 129 - depth,
    {
        if depth > 128 || cur >= msg.len() {
            return None;
        }
        let ghost old_cur = cur as int;
        let ghost old_depth = depth as int;
        let ghost old_name = name@;
        let ghost old_fp = first_ptr;
        depth += 1;
        let byte = msg[cur];
        if byte == 0 {
            if !jumped {
                end_pos = cur + 1;
            }
            return Some((name, end_pos));
        }
        if byte & 0xC0 == 0xC0 {
            if cur + 1 >= msg.len() {
                return None;
            }
            let target = ((byte & 0x3F) as usize) * 256 + (msg[cur + 1] as usize);
            if target >= msg.len() {
                return None;
            }
            if !jumped {
                end_pos = cur + 2;
                proof {
                    first_ptr = Some(cur as int);
                }
            }
            jumped = true;
            cur = target;
            assert(walk_name(msg@, old_cur, old_depth, old_fp, old_name) == walk_name(msg@, cur as int, depth as int, first_ptr, name@));
        } else {
            let len = byte as usize;
            if len >= msg.len() - cur {
                return None;
            }
            let label_end = cur + 1 + len;
            let label = match utf8_str(&msg[cur + 1..label_end]) {
                Some(l) => l,
                None => return None,
            };
            if !name.as_str().is_empty() {
                push_char(&mut name, '.');
            }
            push_str(&mut name, label);
            cur = label_end;
            assert(msg@.subrange(old_cur + 1, cur as int) == msg@.subrange(old_cur + 1, label_end as int));
            assert(name@ == append_label(old_name, decode_utf8(msg@.subrange(old_cur + 1, cur as int))));
            assert(walk_name(msg@, old_cur, old_depth, old_fp, old_name) == walk_name(msg@, cur as int, depth as int, first_ptr, name@));
        }
    }
}

/// One question at `pos`: its name and the position after its type and class.
pub open spec fn question_step(m: Seq<u8>, pos: int) -> Option<(Seq<char>, int)> {
    match spec_parse_name(m, pos) {
        None => None,
        Some((q, next)) => if next + 4 > m.len() {
            None
        } else {
            Some((q, next + 4))
        },
    }
}

/// The names of `n` questions starting at `pos`, and the position after them.
pub open spec fn spec_questions(m: Seq<u8>, pos: int, n: nat) -> Option<(Seq<Seq<char>>, int)>
    decreases n,
{
    if n == 0 {
        Some((Seq::<Seq<char>>::empty(), pos))
    } else {
        match question_step(m, pos) {
            None => None,
            Some((q, next)) => match spec_questions(m, next, (n - 1) as nat) {
                None => None,
                Some((qs, p)) => Some((seq![q] + qs, p)),
            },
        }
    }
}

/// The address an answer record maps to its owner name, if it is an A record
/// with four bytes of data or an AAAA record with sixteen (IPv4-mapped IPv6
/// addresses taken as IPv4).
pub open spec fn answer_address(m: Seq<u8>, rtype: int, data: int, rdlen: int) -> Option<IpAddr> {
    if rtype == 1 && rdlen == 4 {
        Some(IpAddr::V4(be32(m, data) as u32))
    } else if rtype == 28 && rdlen == 16 {
        Some(spec_v6_or_mapped(be128(m, data) as u128))
    } else {
        None
    }
}

/// One answer record at `pos`: the (address, owner name) pair it gives, if it
/// is an A/AAAA record, and the position after the record.
pub open spec fn answer_step(m: Seq<u8>, pos: int) -> Option<(Seq<(IpAddr, Seq<char>)>, int)> {
    match spec_parse_name(m, pos) {
        None => None,
        Some((name, next)) => if next + 10 > m.len() {
            None
        } else {
            let rtype = be16(m, next);
            let rdlen = be16(m, next + 8);
            let data = next + 10;
            if data + rdlen > m.len() {
                None
            } else {
                let rec = match answer_address(m, rtype, data, rdlen) {
                    Some(ip) => seq![(ip, name)],
                    None => Seq::empty(),
                };
                Some((rec, data + rdlen))
            }
        },
    }
}

/// The (address, owner name) pairs of the A/AAAA records among `n` answers
/// starting at `pos`, in order, up to the first malformed record; and whether
/// all `n` records were well-formed.
pub open spec fn spec_answers(m: Seq<u8>, pos: int, n: nat) -> (Seq<(IpAddr, Seq<char>)>, bool)
    decreases n,
{
    if n == 0 {
        (Seq::empty(), true)
    } else {
        match answer_step(m, pos) {
            None => (Seq::empty(), false),
            Some((rec, next)) => {
                let rest = spec_answers(m, next, (n - 1) as nat);
                (rec + rest.0, rest.1)
            },
        }
    }
}

/// Cache entries after inserting the records in order.
pub open spec fn put_all(e: Seq<((u8, u128), Seq<char>)>, recs: Seq<(IpAddr, Seq<char>)>, cap: nat) -> Seq<((u8, u128), Seq<char>)>
    decreases recs.len(),
{
    if recs.len() == 0 {
        e
    } else {
        put_all(lru_put(e, spec_ip_key(recs[0].0), recs[0].1, cap), recs.drop_first(), cap)
    }
}

proof fn lemma_put_all_append(e: Seq<((u8, u128), Seq<char>)>, recs: Seq<(IpAddr, Seq<char>)>, r: (IpAddr, Seq<char>), cap: nat)
    ensures
        put_all(e, recs.push(r), cap) == lru_put(put_all(e, recs, cap), spec_ip_key(r.0), r.1, cap),
    decreases recs.len(),
{
    if recs.len() == 0 {
        let e1 = lru_put(e, spec_ip_key(r.0), r.1, cap);
        assert(recs.push(r).drop_first() == Seq::<(IpAddr, Seq<char>)>::empty());
        assert(put_all(e1, Seq::<(IpAddr, Seq<char>)>::empty(), cap) == e1);
        assert(recs.push(r)[0] == r);
    } else {
        assert(recs.push(r).drop_first() == recs.drop_first().push(r));
        assert(recs.push(r)[0] == recs[0]);
        lemma_put_all_append(lru_put(e, spec_ip_key(recs[0].0), recs[0].1, cap), recs.drop_first(), r, cap);
    }
}

/// Header flags of a DNS message.
pub open spec fn dns_flags(m: Seq<u8>) -> u16 {
    be16(m, 2) as u16
}

/// What parsing a DNS message gives: None for a query (QR=0) or a malformed
/// message, otherwise the question names and the RCODE. The second part is
/// the A/AAAA records it caches: those of a successful (RCODE=0) response,
/// up to the first malformed answer.
pub open spec fn spec_try_parse(m: Seq<u8>) -> (Option<(Seq<Seq<char>>, u8)>, Seq<(IpAddr, Seq<char>)>) {
    if m.len() < 12 || dns_flags(m) & 0x8000 == 0 {
        (None, Seq::empty())
    } else {
        let rcode = (dns_flags(m) & 0x000F) as u8;
        let qd = be16(m, 4) as nat;
        let an = be16(m, 6) as nat;
        match spec_questions(m, 12, qd) {
            None => (None, Seq::empty()),
            Some((qs, p)) => {
                let (recs, ok) = if rcode == 0 && an > 0 {
                    spec_answers(m, p, an)
                } else {
                    (Seq::empty(), true)
                };
                (if ok { Some((qs, rcode)) } else { None }, recs)
            },
        }
    }
}

/// Law: only successful responses feed the cache: a query, a message too
/// short to hold a header, or a response with a non-zero RCODE caches no
/// record.
pub proof fn law_only_successful_responses_cache(m: Seq<u8>)
    requires
        m.len() < 12 || dns_flags(m) & 0x8000 == 0 || dns_flags(m) & 0x000F != 0,
    ensures
        spec_try_parse(m).1.len() == 0,
{
    let f = dns_flags(m);
    assert((f & 0x000F) != 0 ==> (f & 0x000F) as u8 != 0) by (bit_vector);
}

fn read_question(msg: &[u8], pos: usize) -> (r: Option<(String, usize)>)
    requires
        msg@.len() >= 12,
    ensures
        match question_step(msg@, pos as int) {
            Some((q, next)) => r matches Some((s, n2)) && s@ == q && n2 == next && n2 <= msg@.len(),
            None => r is None,
        },
{
    let (qname, next) = match parse_name(msg, pos) {
        Some(x) => x,
        None => return None,
    };
    if next > msg.len() - 4 {
        return None;
    }
    Some((qname, next + 4))
}

/// Reads the answer record at `pos` and caches its address if it is an
/// A/AAAA record; returns the position after the record.
fn ingest_answer(msg: &[u8], pos: usize, cache: &mut DnsCache, resolved: &mut Vec<IpAddr>) -> (r: Option<usize>)
    requires
        msg@.len() >= 12,
        old(cache).wf(),
    ensures
        match answer_step(msg@, pos as int) {
            Some((rec, next)) => r matches Some(n) && n == next && next <= msg@.len()
                && final(cache).entries() == put_all(old(cache).entries(), rec, old(cache).capacity())
                && final(resolved)@ == old(resolved)@ + addresses(rec),
            None => r is None && final(cache).entries() == old(cache).entries() && final(resolved)@ == old(resolved)@,
        },
        final(cache).capacity() == old(cache).capacity(),
        final(cache).wf(),
{
    let (rec_name, next) = match parse_name(msg, pos) {
        Some(x) => x,
        None => return None,
    };
    if next > msg.len() - 10 {
        return None;
    }
    let rtype = read_be16(msg, next);
    let rdlength = read_be16(msg, next + 8) as usize;
    let data = next + 10;
    if rdlength > msg.len() - data {
        return None;
    }
    let ghost name_v = rec_name@;
    let ghost e0 = cache.entries();
    if rtype == 1 && rdlength == 4 {
        let ip = IpAddr::V4(read_be32(msg, data));
        cache.insert(ip, rec_name);
        resolved.push(ip);
        proof {
            assert(addresses(seq![(ip, name_v)]) =~= seq![ip]);
            lemma_put_all_append(e0, Seq::empty(), (ip, name_v), cache.capacity());
            assert(Seq::<(IpAddr, Seq<char>)>::empty().push((ip, name_v)) == seq![(ip, name_v)]);
        }
    } else if rtype == 28 && rdlength == 16 {
        let ip = v6_or_mapped(read_be128(msg, data));
        cache.insert(ip, rec_name);
        resolved.push(ip);
        proof {
            assert(addresses(seq![(ip, name_v)]) =~= seq![ip]);
            lemma_put_all_append(e0, Seq::empty(), (ip, name_v), cache.capacity());
            assert(Seq::<(IpAddr, Seq<char>)>::empty().push((ip, name_v)) == seq![(ip, name_v)]);
        }
    } else {
        assert(addresses(Seq::<(IpAddr, Seq<char>)>::empty()) =~= Seq::<IpAddr>::empty());
        assert(resolved@ + Seq::<IpAddr>::empty() == resolved@);
    }
    Some(data + rdlength)
}

proof fn lemma_put_all_concat(e: Seq<((u8, u128), Seq<char>)>, a: Seq<(IpAddr, Seq<char>)>, b: Seq<(IpAddr, Seq<char>)>, cap: nat)
    ensures
        put_all(e, a + b, cap) == put_all(put_all(e, a, cap), b, cap),
    decreases b.len(),
{
    if b.len() == 0 {
        assert(a + b == a);
    } else {
        lemma_put_all_concat(e, a, b.drop_last(), cap);
        assert(a + b == (a + b.drop_last()).push(b.last()));
        assert(b == b.drop_last().push(b.last()));
        lemma_put_all_append(e, a + b.drop_last(), b.last(), cap);
        lemma_put_all_append(put_all(e, a, cap), b.drop_last(), b.last(), cap);
    }
}

fn read_questions(msg: &[u8], count: usize) -> (r: Option<(Vec<String>, usize)>)
    requires
        msg@.len() >= 12,
    ensures
        match spec_questions(msg@, 12, count as nat) {
            Some((qs, p)) => r matches Some((v, p2)) && p2 == p && p2 <= msg@.len()
                && v@.len() == qs.len() && forall|i: int| 0 <= i < qs.len() ==> #[trigger] v@[i]@ == qs[i],
            None => r is None,
        },
{
    let ghost m = msg@;
    let mut pos: usize = 12;
    let mut queries: Vec<String> = Vec::new();
    let ghost mut qs: Seq<Seq<char>> = Seq::empty();
    let mut i: usize = 0;
    while i < count
        invariant
            m == msg@,
            msg@.len() >= 12,
            pos <= msg@.len(),
            i <= count,
            queries@.len() == qs.len(),
            forall|k: int| 0 <= k < qs.len() ==> #[trigger] queries@[k]@ == qs[k],
            spec_questions(m, 12, count as nat) == match spec_questions(m, pos as int, (count - i) as nat) {
                None => None,
                Some((rest, p)) => Some((qs + rest, p)),
            },
        decreases count - i,
    {
        let (qname, next) = match read_question(msg, pos) {
            Some(x) => x,
            None => return None,
        };
        pos = next;
        let ghost q = qname@;
        queries.push(qname);
        proof {
            let old_qs = qs;
            qs = qs.push(q);
            match spec_questions(m, pos as int, (count - i - 1) as nat) {
                Some((rest, p)) => {
                    assert(old_qs + (seq![q] + rest) == qs + rest);
                },
                None => {},
            }
        }
        i += 1;
    }
    assert(qs + Seq::<Seq<char>>::empty() == qs);
    Some((queries, pos))
}

fn ingest_answers(msg: &[u8], start: usize, count: usize, cache: &mut DnsCache, resolved: &mut Vec<IpAddr>) -> (ok: bool)
    requires
        msg@.len() >= 12,
        old(cache).wf(),
    ensures
        final(resolved)@ == old(resolved)@ + addresses(spec_answers(msg@, start as int, count as nat).0),
        ok == spec_answers(msg@, start as int, count as nat).1,
        final(cache).entries() == put_all(old(cache).entries(), spec_answers(msg@, start as int, count as nat).0, old(cache).capacity()),
        final(cache).capacity() == old(cache).capacity(),
        final(cache).wf(),
{
    let ghost m = msg@;
    let ghost e0 = cache.entries();
    let ghost mut recs: Seq<(IpAddr, Seq<char>)> = Seq::empty();
    let mut pos = start;
    let mut j: usize = 0;
    while j < count
        invariant
            m == msg@,
            msg@.len() >= 12,
            j <= count,
            cache.wf(),
            cache.capacity() == old(cache).capacity(),
            e0 == old(cache).entries(),
            cache.entries() == put_all(e0, recs, cache.capacity()),
            resolved@ == old(resolved)@ + addresses(recs),
            spec_answers(m, start as int, count as nat) == (recs + spec_answers(m, pos as int, (count - j) as nat).0, spec_answers(m, pos as int, (count - j) as nat).1),
        decreases count - j,
    {
        let ghost pos0 = pos as int;
        match ingest_answer(msg, pos, cache, resolved) {
            Some(next) => {
                proof {
                    let (rec, nx) = answer_step(m, pos0).unwrap();
                    lemma_addresses_concat(recs, rec);
                    lemma_put_all_concat(e0, recs, rec, cache.capacity());
                    let rest = spec_answers(m, nx, (count - j - 1) as nat);
                    assert(spec_answers(m, pos0, (count - j) as nat) == (rec + rest.0, rest.1));
                    assert(recs + (rec + rest.0) == (recs + rec) + rest.0);
                    recs = recs + rec;
                }
                pos = next;
            },
            None => {
                assert(recs + Seq::<(IpAddr, Seq<char>)>::empty() == recs);
                return false;
            },
        }
        j += 1;
    }
    assert(recs + Seq::<(IpAddr, Seq<char>)>::empty() == recs);
    true
}

/// The addresses of records.
pub open spec fn addresses(recs: Seq<(IpAddr, Seq<char>)>) -> Seq<IpAddr> {
    recs.map_values(|r: (IpAddr, Seq<char>)| r.0)
}

proof fn lemma_addresses_concat(a: Seq<(IpAddr, Seq<char>)>, b: Seq<(IpAddr, Seq<char>)>)
    ensures
        addresses(a + b) == addresses(a) + addresses(b),
{
    assert(addresses(a + b) =~= addresses(a) + addresses(b));
}

/// Parses a DNS response message like `try_parse`, also returning the
/// addresses it cached, in answer order.
pub fn parse_response(msg: &[u8], cache: &mut DnsCache) -> (r: Option<(Vec<String>, u8, Vec<IpAddr>)>)
    requires
        old(cache).wf(),
    ensures
        match spec_try_parse(msg@).0 {
            Some((qs, rc)) => r matches Some((v, rc2, ips)) && rc2 == rc && v@.len() == qs.len()
                && (forall|i: int| 0 <= i < qs.len() ==> #[trigger] v@[i]@ == qs[i])
                && ips@ == addresses(spec_try_parse(msg@).1),
            None => r is None,
        },
        final(cache).entries() == put_all(old(cache).entries(), spec_try_parse(msg@).1, old(cache).capacity()),
        final(cache).capacity() == old(cache).capacity(),
        final(cache).wf(),
{
    if msg.len() < 12 {
        return None;
    }
    let flags = read_be16(msg, 2);
    if flags & 0x8000 == 0 {
        return None;
    }
    let rcode = (flags & 0x000F) as u8;
    let qdcount = read_be16(msg, 4) as usize;
    let ancount = read_be16(msg, 6) as usize;
    let (queries, pos) = match read_questions(msg, qdcount) {
        Some(x) => x,
        None => return None,
    };
    let mut resolved: Vec<IpAddr> = Vec::new();
    if rcode == 0 && ancount > 0 {
        if !ingest_answers(msg, pos, ancount, cache, &mut resolved) {
            return None;
        }
        assert(resolved@ == Seq::<IpAddr>::empty() + addresses(spec_try_parse(msg@).1));
        assert(Seq::<IpAddr>::empty() + addresses(spec_try_parse(msg@).1) == addresses(spec_try_parse(msg@).1));
    } else {
        assert(addresses(Seq::<(IpAddr, Seq<char>)>::empty()) =~= Seq::<IpAddr>::empty());
    }
    Some((queries, rcode, resolved))
}

/// Parses a DNS response message. Updates the cache for A/AAAA records on RCODE=0.
/// Returns `(queries, rcode)` where `queries` are the question QNAMEs (for metrics).
/// Returns None for DNS queries (QR=0) or malformed messages.
pub fn try_parse(msg: &[u8], cache: &mut DnsCache) -> (r: Option<(Vec<String>, u8)>)
    requires
        old(cache).wf(),
    ensures
        match spec_try_parse(msg@).0 {
            Some((qs, rc)) => r matches Some((v, rc2)) && rc2 == rc && v@.len() == qs.len()
                && forall|i: int| 0 <= i < qs.len() ==> #[trigger] v@[i]@ == qs[i],
            None => r is None,
        },
        final(cache).entries() == put_all(old(cache).entries(), spec_try_parse(msg@).1, old(cache).capacity()),
        final(cache).capacity() == old(cache).capacity(),
        final(cache).wf(),
{
    match parse_response(msg, cache) {
        Some((queries, rcode, _)) => Some((queries, rcode)),
        None => None,
    }
}

// ── resolved addresses, sorted ───────────────────────────────────────────────

/// Position of an address in std's `IpAddr` order: IPv4 before IPv6, each by
/// value.
pub open spec fn ip_rank(ip: IpAddr) -> int {
    match ip {
        IpAddr::V4(a) => a as int,
        IpAddr::V6(b) => 0x1_0000_0000 + b,
    }
}

fn ip_less(a: &IpAddr, b: &IpAddr) -> (r: bool)
    ensures
        r == (ip_rank(*a) < ip_rank(*b)),
{
    match (a, b) {
        (IpAddr::V4(x), IpAddr::V4(y)) => *x < *y,
        (IpAddr::V4(_), IpAddr::V6(_)) => true,
        (IpAddr::V6(_), IpAddr::V4(_)) => false,
        (IpAddr::V6(x), IpAddr::V6(y)) => *x < *y,
    }
}

pub open spec fn ips_sorted(s: Seq<IpAddr>) -> bool {
    forall|i: int, j: int| 0 <= i < j < s.len() ==> ip_rank(s[i]) < ip_rank(s[j])
}

pub open spec fn ip_lower_bound(s: Seq<IpAddr>, x: IpAddr, j: int) -> int
    decreases s.len() - j,
{
    if j < 0 || j >= s.len() || ip_rank(s[j]) >= ip_rank(x) {
        j
    } else {
        ip_lower_bound(s, x, j + 1)
    }
}

pub open spec fn ip_insert_sorted(s: Seq<IpAddr>, x: IpAddr) -> Seq<IpAddr> {
    let i = ip_lower_bound(s, x, 0);
    if i < s.len() && s[i] == x {
        s
    } else {
        s.insert(i, x)
    }
}

/// The distinct addresses of `s` in std's `IpAddr` order.
pub open spec fn sorted_ips(s: Seq<IpAddr>) -> Seq<IpAddr>
    decreases s.len(),
{
    if s.len() == 0 {
        s
    } else {
        ip_insert_sorted(sorted_ips(s.drop_last()), s.last())
    }
}

proof fn lemma_ip_lower_bound(s: Seq<IpAddr>, x: IpAddr, j: int)
    requires
        0 <= j <= s.len(),
        ips_sorted(s),
        forall|k: int| 0 <= k < j ==> ip_rank(s[k]) < ip_rank(x),
    ensures
        j <= ip_lower_bound(s, x, j) <= s.len(),
        forall|k: int| 0 <= k < ip_lower_bound(s, x, j) ==> ip_rank(s[k]) < ip_rank(x),
        forall|k: int| ip_lower_bound(s, x, j) <= k < s.len() ==> ip_rank(s[k]) >= ip_rank(x),
    decreases s.len() - j,
{
    if j < s.len() && ip_rank(s[j]) < ip_rank(x) {
        lemma_ip_lower_bound(s, x, j + 1);
    }
}

proof fn lemma_ip_rank_injective(a: IpAddr, b: IpAddr)
    ensures
        ip_rank(a) == ip_rank(b) ==> a == b,
{
}

proof fn lemma_ip_insert_sorted(s: Seq<IpAddr>, x: IpAddr)
    requires
        ips_sorted(s),
    ensures
        ips_sorted(ip_insert_sorted(s, x)),
        ip_insert_sorted(s, x).to_set() == s.to_set().insert(x),
{
    lemma_ip_lower_bound(s, x, 0);
    let i = ip_lower_bound(s, x, 0);
    if i < s.len() && s[i] == x {
        assert(s.to_set().insert(x) =~= s.to_set()) by {
            assert(s.contains(x));
        }
    } else {
        if i < s.len() {
            lemma_ip_rank_injective(s[i], x);
        }
        let r = s.insert(i, x);
        assert(r.to_set() =~= s.to_set().insert(x)) by {
            assert forall|y: IpAddr| r.contains(y) <==> s.contains(y) || y == x by {
                if r.contains(y) {
                    let k = choose|k: int| 0 <= k < r.len() && r[k] == y;
                    if k < i {
                        assert(s[k] == y);
                    } else if k > i {
                        assert(s[k - 1] == y);
                    }
                }
                if s.contains(y) {
                    let k = choose|k: int| 0 <= k < s.len() && s[k] == y;
                    if k < i {
                        assert(r[k] == y);
                    } else {
                        assert(r[k + 1] == y);
                    }
                }
                if y == x {
                    assert(r[i] == x);
                }
            }
        }
    }
}

/// Law: `sorted_ips(s)` is strictly increasing in std's order and holds
/// exactly the addresses of `s`, so every answer set has one tag value.
pub proof fn law_sorted_ips(s: Seq<IpAddr>)
    ensures
        ips_sorted(sorted_ips(s)),
        sorted_ips(s).to_set() == s.to_set(),
    decreases s.len(),
{
    if s.len() > 0 {
        law_sorted_ips(s.drop_last());
        lemma_ip_insert_sorted(sorted_ips(s.drop_last()), s.last());
        assert(s.to_set() =~= s.drop_last().to_set().insert(s.last())) by {
            assert(s == s.drop_last().push(s.last()));
            assert forall|y: IpAddr| s.contains(y) <==> s.drop_last().contains(y) || y == s.last() by {
                if s.contains(y) {
                    let k = choose|k: int| 0 <= k < s.len() && s[k] == y;
                    if k < s.len() - 1 {
                        assert(s.drop_last()[k] == y);
                    }
                }
                if s.drop_last().contains(y) {
                    let k = choose|k: int| 0 <= k < s.drop_last().len() && s.drop_last()[k] == y;
                    assert(s[k] == y);
                }
            }
        }
    } else {
        assert(s.to_set() =~= Set::<IpAddr>::empty());
    }
}

fn ip_insert_sorted_exec(v: &mut Vec<IpAddr>, x: IpAddr)
    ensures
        final(v)@ == ip_insert_sorted(old(v)@, x),
{
    let ghost s = v@;
    let mut i: usize = 0;
    while i < v.len() && ip_less(&v[i], &x)
        invariant
            v@ == s,
            i <= s.len(),
            ip_lower_bound(s, x, i as int) == ip_lower_bound(s, x, 0),
        decreases s.len() - i,
    {
        i += 1;
    }
    if i < v.len() && v[i] == x {
        return;
    }
    v.insert(i, x);
}

/// The distinct addresses, sorted.
pub fn sort_ips(ips: &Vec<IpAddr>) -> (r: Vec<IpAddr>)
    ensures
        r@ == sorted_ips(ips@),
{
    let mut out: Vec<IpAddr> = Vec::new();
    let mut i: usize = 0;
    while i < ips.len()
        invariant
            i <= ips@.len(),
            out@ == sorted_ips(ips@.take(i as int)),
        decreases ips@.len() - i,
    {
        ip_insert_sorted_exec(&mut out, ips[i]);
        assert(ips@.take(i + 1).drop_last() == ips@.take(i as int));
        i += 1;
    }
    assert(ips@.take(ips@.len() as int) == ips@);
    out
}

// ── the DNS module ───────────────────────────────────────────────────────────

/// The metric line of one question.
pub open spec fn dns_line(protocol: MetricProtocol, q: Seq<char>, rcode: u8, querier: IpAddr, resolved: Seq<IpAddr>) -> Seq<char> {
    match protocol {
        MetricProtocol::Influx => influx_dns(q, rcode, querier, resolved),
        MetricProtocol::Statsd => "dns_query:1|c"@ + spec_suffix(dns_tags(q, rcode, querier, resolved)),
    }
}

/// DNS: answers feed the reverse DNS cache; every question of a response
/// becomes one metric.
pub struct DnsModule {
    pub sink: TelegrafMetricsPusher,
}

impl DnsModule {
    pub fn new(sink: TelegrafMetricsPusher) -> (r: Self)
        ensures
            r.sink == sink,
    {
        Self { sink }
    }

    /// For a UDP packet holding a DNS response: caches its A/AAAA answers and
    /// returns one metric line per question, tagged with the querier (the
    /// packet's destination) and the response's resolved addresses, sorted
    /// and deduplicated. Other events and packets give no lines.
    pub fn on_event(&self, event: &ProbeEvent, cache: &mut DnsCache) -> (lines: Vec<String>)
        requires
            old(cache).wf(),
        ensures
            final(cache).wf(),
            final(cache).capacity() == old(cache).capacity(),
            match *event {
                ProbeEvent::UdpRecvMsg { src_port, dest_ip, payload } => {
                    &&& final(cache).entries() == put_all(old(cache).entries(), spec_try_parse(payload@).1, old(cache).capacity())
                    &&& match spec_try_parse(payload@).0 {
                        Some((qs, rcode)) => line_views(lines@) == qs.map_values(|q: Seq<char>|
                            dns_line(self.sink.protocol, q, rcode, dest_ip, sorted_ips(addresses(spec_try_parse(payload@).1)))),
                        None => lines@.len() == 0,
                    }
                },
                _ => final(cache).entries() == old(cache).entries() && lines@.len() == 0,
            },
    {
        match event {
            ProbeEvent::UdpRecvMsg { src_port: _, dest_ip: querier_ip, payload } => {
                match parse_response(payload.as_slice(), cache) {
                    Some((queries, rcode, resolved)) => {
                        let ghost qs = spec_try_parse(payload@).0.unwrap().0;
                        let sorted = sort_ips(&resolved);
                        let mut lines: Vec<String> = Vec::new();
                        let mut i: usize = 0;
                        while i < queries.len()
                            invariant
                                i <= queries@.len(),
                                queries@.len() == qs.len(),
                                forall|k: int| 0 <= k < qs.len() ==> #[trigger] queries@[k]@ == qs[k],
                                line_views(lines@) == qs.take(i as int).map_values(|q: Seq<char>|
                                    dns_line(self.sink.protocol, q, rcode, *querier_ip, sorted@)),
                            decreases queries@.len() - i,
                        {
                            let mut one = self.sink.push_dns_query(queries[i].as_str(), rcode, *querier_ip, sorted.as_slice());
                            let ghost before = lines@;
                            lines.append(&mut one);
                            proof {
                                assert(line_views(lines@) =~= line_views(before) + seq![dns_line(self.sink.protocol, qs[i as int], rcode, *querier_ip, sorted@)]);
                                assert(qs.take(i + 1).map_values(|q: Seq<char>| dns_line(self.sink.protocol, q, rcode, *querier_ip, sorted@))
                                    =~= qs.take(i as int).map_values(|q: Seq<char>| dns_line(self.sink.protocol, q, rcode, *querier_ip, sorted@))
                                        + seq![dns_line(self.sink.protocol, qs[i as int], rcode, *querier_ip, sorted@)]);
                            }
                            i += 1;
                        }
                        assert(qs.take(qs.len() as int) == qs);
                        lines
                    },
                    None => Vec::new(),
                }
            },
            _ => Vec::new(),
        }
    }
}

impl Module for DnsModule {
    fn name(&self) -> (r: &'static str)
        ensures
            r@ == "dns"@,
    {
        "dns"
    }

    fn required_probes(&self) -> (r: Vec<ProbeRequirement>)
        ensures
            r@.len() == 1,
            r@[0] matches ProbeRequirement::UdpRecvMsg { src_ports } && opt_ports_view(src_ports) == Some(seq![53u16]),
    {
        let mut ports: Vec<u16> = Vec::new();
        ports.push(53);
        let mut v: Vec<ProbeRequirement> = Vec::new();
        v.push(ProbeRequirement::UdpRecvMsg { src_ports: Some(ports) });
        v
    }
}

/// Law: an answer record caches exactly what it says when it is an address
/// record: an A record (type 1, 4 bytes of data) its IPv4 address, an AAAA
/// record (type 28, 16 bytes of data) its IPv6 address (IPv4-mapped ones as
/// IPv4), each under the record's owner name; any other record caches
/// nothing. The record ends after its data in every case.
pub proof fn law_answer_caches_address_records(m: Seq<u8>, pos: int, name: Seq<char>, next: int)
    requires
        spec_parse_name(m, pos) == Some((name, next)),
        next + 10 <= m.len(),
        next + 10 + be16(m, next + 8) <= m.len(),
    ensures
        answer_step(m, pos) matches Some((recs, end))
            && end == next + 10 + be16(m, next + 8)
            && (be16(m, next) == 1 && be16(m, next + 8) == 4
                ==> recs == seq![(IpAddr::V4(be32(m, next + 10) as u32), name)])
            && (be16(m, next) == 28 && be16(m, next + 8) == 16
                ==> recs == seq![(spec_v6_or_mapped(be128(m, next + 10) as u128), name)])
            && (be16(m, next) == 28 && be16(m, next + 8) == 16 && spec_ipv4_mapped(be128(m, next + 10) as u128) is None
                ==> recs == seq![(IpAddr::V6(be128(m, next + 10) as u128), name)])
            && (!(be16(m, next) == 1 && be16(m, next + 8) == 4) && !(be16(m, next) == 28 && be16(m, next + 8) == 16)
                ==> recs.len() == 0),
{
}

} // verus!
