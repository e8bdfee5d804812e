//! Metric lines for Telegraf: InfluxDB line protocol or DogStatsD. The agent
//! sends each line as one UDP datagram.

use vstd::prelude::*;
use crate::config::MetricProtocol;
use crate::probes::{ReadableTCPProbeEvent, ReadableTCPRetransmitSkbEvent, ReadableTcpReceiveResetEvent, ReadableTcpSendResetEvent};
use crate::text::dec_string;
use crate::net::{IpAddr, ip_text, fmt_ip, spec_fmt_ip, ip_to_string, push_ip};
use crate::text::{chars_of, dec, dec_signed, push_char, push_dec, push_dec_signed, push_str};

verus! {

// ── InfluxDB helpers ──────────────────────────────────────────────────────────

/// A character as it stands in an InfluxDB tag value: `,`, `=` and space are
/// escaped with a backslash.
pub open spec fn influx_escape(c: char) -> Seq<char> {
    if c == ',' || c == '=' || c == ' ' {
        seq!['\\', c]
    } else {
        seq![c]
    }
}

/// A string escaped for use as an InfluxDB line-protocol tag value.
pub open spec fn spec_influx_tag(s: Seq<char>) -> Seq<char>
    decreases s.len(),
{
    if s.len() == 0 {
        Seq::empty()
    } else {
        influx_escape(s[0]) + spec_influx_tag(s.drop_first())
    }
}

proof fn lemma_influx_tag_step(s: Seq<char>, i: int)
    requires
        0 <= i < s.len(),
    ensures
        spec_influx_tag(s.skip(i)) == influx_escape(s[i]) + spec_influx_tag(s.skip(i + 1)),
{
    assert(s.skip(i).drop_first() == s.skip(i + 1));
    assert(s.skip(i)[0] == s[i]);
}

/// Escapes a string for use as an InfluxDB line-protocol tag value.
pub fn influx_tag(s: &str) -> (r: String)
    ensures
        r@ == spec_influx_tag(s@),
{
    let cs = chars_of(s);
    let mut out = String::new();
    let mut i: usize = 0;
    assert(s@.skip(0) == s@);
    while i < cs.len()
        invariant
            cs@ == s@,
            i <= cs@.len(),
            out@ + spec_influx_tag(s@.skip(i as int)) == spec_influx_tag(s@),
        decreases cs@.len() - i,
    {
        let c = cs[i];
        proof {
            lemma_influx_tag_step(s@, i as int);
        }
        let ghost before = out@;
        if c == ',' || c == '=' || c == ' ' {
            push_char(&mut out, '\\');
        }
        push_char(&mut out, c);
        assert(out@ == before + influx_escape(c));
        i += 1;
    }
    assert(s@.skip(cs@.len() as int) == Seq::<char>::empty());
    assert(out@ + Seq::<char>::empty() == out@);
    out
}

/// The `,domain=…` tag, present for a non-empty domain.
pub open spec fn spec_influx_domain_tag(domain: Option<Seq<char>>) -> Seq<char> {
    match domain {
        Some(d) => if d.len() > 0 {
            ",domain="@ + spec_influx_tag(d)
        } else {
            Seq::empty()
        },
        None => Seq::empty(),
    }
}

pub open spec fn opt_view(o: Option<&str>) -> Option<Seq<char>> {
    match o {
        Some(s) => Some(s@),
        None => None,
    }
}

pub fn influx_domain_tag(domain: Option<&str>) -> (r: String)
    ensures
        r@ == spec_influx_domain_tag(opt_view(domain)),
{
    let mut out = String::new();
    match domain {
        Some(d) => {
            if !d.is_empty() {
                push_str(&mut out, ",domain=");
                let t = influx_tag(d);
                push_str(&mut out, t.as_str());
            }
        },
        None => {},
    }
    out
}

/// Text of a database address by family (4 or 6; IPv4-mapped IPv6 as IPv4);
/// none for another family.
pub open spec fn db_ip_text(dest_ip: Seq<u8>, ip_family: u8) -> Seq<char> {
    if ip_family == 4 || ip_family == 6 {
        ip_text(spec_fmt_ip(dest_ip, ip_family))
    } else {
        Seq::empty()
    }
}

pub open spec fn spec_influx_db_ip(dest_ip: Seq<u8>, ip_family: u8) -> Seq<char> {
    if ip_family == 4 || ip_family == 6 {
        ",db_ip="@ + db_ip_text(dest_ip, ip_family)
    } else {
        Seq::empty()
    }
}

pub fn influx_db_ip(dest_ip: [u8; 16], ip_family: u8) -> (r: String)
    ensures
        r@ == spec_influx_db_ip(dest_ip@, ip_family),
{
    let mut out = String::new();
    if ip_family == 4 || ip_family == 6 {
        push_str(&mut out, ",db_ip=");
        push_ip(&mut out, &fmt_ip(dest_ip, ip_family));
    }
    out
}

// ── StatsD (DogStatsD) helpers ────────────────────────────────────────────────

/// A tag value for DogStatsD: `:` (key/value separator) and `,` (tag
/// separator) become `_`, so IPv6 addresses are `_`-separated.
pub open spec fn spec_statsd_val(s: Seq<char>) -> Seq<char> {
    s.map_values(|c: char| if c == ':' || c == ',' { '_' } else { c })
}

/// Escapes a value for use in a DogStatsD tag (`|#key:value`).
pub fn statsd_val(s: &str) -> (r: String)
    ensures
        r@ == spec_statsd_val(s@),
{
    let cs = chars_of(s);
    let mut out = String::new();
    let mut i: usize = 0;
    while i < cs.len()
        invariant
            cs@ == s@,
            i <= cs@.len(),
            out@ == spec_statsd_val(s@).take(i as int),
        decreases cs@.len() - i,
    {
        let c = cs[i];
        if c == ':' || c == ',' {
            push_char(&mut out, '_');
        } else {
            push_char(&mut out, c);
        }
        assert(spec_statsd_val(s@).take(i + 1) == spec_statsd_val(s@).take(i as int).push(spec_statsd_val(s@)[i as int]));
        i += 1;
    }
    assert(spec_statsd_val(s@).take(cs@.len() as int) == spec_statsd_val(s@));
    out
}

/// Law: a DogStatsD tag value holds no separator (`:` or `,`) and is as long
/// as the value it came from.
pub proof fn law_statsd_val_has_no_separators(s: Seq<char>)
    ensures
        spec_statsd_val(s).len() == s.len(),
        forall|i: int| 0 <= i < s.len() ==> spec_statsd_val(s)[i] != ':' && spec_statsd_val(s)[i] != ',',
{
}

/// Whether `c` separates parts of an InfluxDB line: `,`, `=` or space.
pub open spec fn influx_separator(c: char) -> bool {
    c == ',' || c == '=' || c == ' '
}

/// Law: in an escaped InfluxDB tag value every separator is preceded by a
/// backslash, so no separator in it ends the tag.
pub proof fn law_influx_tag_escapes_separators(s: Seq<char>)
    ensures
        forall|i: int| 0 <= i < spec_influx_tag(s).len() && influx_separator(#[trigger] spec_influx_tag(s)[i])
            ==> i > 0 && spec_influx_tag(s)[i - 1] == '\\',
    decreases s.len(),
{
    if s.len() > 0 {
        let e = influx_escape(s[0]);
        let rest = spec_influx_tag(s.drop_first());
        law_influx_tag_escapes_separators(s.drop_first());
        assert(spec_influx_tag(s) == e + rest);
        assert forall|i: int| 0 <= i < spec_influx_tag(s).len() && influx_separator(#[trigger] spec_influx_tag(s)[i])
            implies i > 0 && spec_influx_tag(s)[i - 1] == '\\' by {
            if i >= e.len() {
                assert(spec_influx_tag(s)[i] == rest[i - e.len()]);
                assert(influx_separator(rest[i - e.len()]));
                if i > e.len() {
                    assert(spec_influx_tag(s)[i - 1] == rest[i - 1 - e.len()]);
                }
            }
        }
    }
}

/// Tag list after adding `key:value`.
pub open spec fn with_tag(tags: Seq<char>, key: Seq<char>, val: Seq<char>) -> Seq<char> {
    (if tags.len() == 0 {
        tags
    } else {
        tags + seq![',']
    }) + key + seq![':'] + spec_statsd_val(val)
}

/// Tag list after adding `key:value` when the value is present and not empty.
pub open spec fn with_opt_tag(tags: Seq<char>, key: Seq<char>, val: Option<Seq<char>>) -> Seq<char> {
    match val {
        Some(v) => if v.len() > 0 {
            with_tag(tags, key, v)
        } else {
            tags
        },
        None => tags,
    }
}

/// The `|#…` suffix of a metric: empty when there are no tags.
pub open spec fn spec_suffix(tags: Seq<char>) -> Seq<char> {
    if tags.len() == 0 {
        Seq::empty()
    } else {
        "|#"@ + tags
    }
}

/// Builds the `|#tag1:val1,tag2:val2` suffix for a DogStatsD metric.
pub struct StatsdTags(pub String);

impl StatsdTags {
    pub fn new() -> (r: Self)
        ensures
            r.0@ == Seq::<char>::empty(),
    {
        StatsdTags(String::new())
    }

    pub fn add(&mut self, key: &str, val: &str)
        ensures
            final(self).0@ == with_tag(old(self).0@, key@, val@),
    {
        if !self.0.as_str().is_empty() {
            push_char(&mut self.0, ',');
        }
        push_str(&mut self.0, key);
        push_char(&mut self.0, ':');
        let v = statsd_val(val);
        push_str(&mut self.0, v.as_str());
    }

    pub fn add_opt(&mut self, key: &str, val: Option<&str>)
        ensures
            final(self).0@ == with_opt_tag(old(self).0@, key@, opt_view(val)),
    {
        match val {
            Some(v) => {
                if !v.is_empty() {
                    self.add(key, v);
                }
            },
            None => {},
        }
    }

    /// Returns the formatted suffix, empty string if no tags were added.
    pub fn suffix(&self) -> (r: String)
        ensures
            r@ == spec_suffix(self.0@),
    {
        let mut out = String::new();
        if !self.0.as_str().is_empty() {
            push_str(&mut out, "|#");
            push_str(&mut out, self.0.as_str());
        }
        out
    }
}

pub fn statsd_db_ip(dest_ip: [u8; 16], ip_family: u8) -> (r: String)
    ensures
        r@ == db_ip_text(dest_ip@, ip_family),
{
    if ip_family == 4 || ip_family == 6 {
        ip_to_string(&fmt_ip(dest_ip, ip_family))
    } else {
        String::new()
    }
}

// ── lines ─────────────────────────────────────────────────────────────────────

pub open spec fn u(n: int) -> Seq<char> {
    dec(n as nat)
}

pub open spec fn line_views(lines: Seq<String>) -> Seq<Seq<char>> {
    lines.map_values(|l: String| l@)
}

pub open spec fn influx_tcp_probe(e: ReadableTCPProbeEvent, domain: Option<Seq<char>>) -> Seq<char> {
    "bpf_tcp_probe,src_ip="@ + ip_text(e.src_addr) + ",dest_ip="@ + ip_text(e.dest_addr)
        + spec_influx_domain_tag(domain) + ",family="@ + u(e.family as int) + ",pid="@ + u(e.pid as int)
        + ",tgid="@ + u(e.tgid as int) + ",src_port="@ + u(e.src_port as int) + ",dest_port="@
        + u(e.dest_port as int) + " data_len="@ + u(e.data_len as int) + "u,snd_cwnd="@
        + u(e.snd_cwnd as int) + "u,ssthresh="@ + u(e.ssthresh as int) + "u,snd_wnd="@
        + u(e.snd_wnd as int) + "u,srtt_us="@ + u(e.srtt_us as int) + "u,rcv_wnd="@
        + u(e.rcv_wnd as int) + "u"@
}

pub open spec fn tcp_probe_tags(e: ReadableTCPProbeEvent, domain: Option<Seq<char>>) -> Seq<char> {
    let t = with_tag(Seq::empty(), "src_ip"@, ip_text(e.src_addr));
    let t = with_tag(t, "dest_ip"@, ip_text(e.dest_addr));
    let t = with_opt_tag(t, "domain"@, domain);
    let t = with_tag(t, "family"@, u(e.family as int));
    let t = with_tag(t, "pid"@, u(e.pid as int));
    let t = with_tag(t, "tgid"@, u(e.tgid as int));
    let t = with_tag(t, "src_port"@, u(e.src_port as int));
    with_tag(t, "dest_port"@, u(e.dest_port as int))
}

pub open spec fn gauge(name: Seq<char>, val: int, sfx: Seq<char>) -> Seq<char> {
    name + seq![':'] + u(val) + "|g"@ + sfx
}

pub open spec fn statsd_tcp_probe(e: ReadableTCPProbeEvent, domain: Option<Seq<char>>) -> Seq<Seq<char>> {
    let sfx = spec_suffix(tcp_probe_tags(e, domain));
    seq![
        gauge("bpf_tcp_probe.data_len"@, e.data_len as int, sfx),
        gauge("bpf_tcp_probe.snd_cwnd"@, e.snd_cwnd as int, sfx),
        gauge("bpf_tcp_probe.ssthresh"@, e.ssthresh as int, sfx),
        gauge("bpf_tcp_probe.snd_wnd"@, e.snd_wnd as int, sfx),
        gauge("bpf_tcp_probe.srtt_us"@, e.srtt_us as int, sfx),
        gauge("bpf_tcp_probe.rcv_wnd"@, e.rcv_wnd as int, sfx),
        "bpf_tcp_probe:1|c"@ + sfx,
    ]
}

fn gauge_line(name: &str, val: u64, sfx: &str) -> (r: String)
    ensures
        r@ == gauge(name@, val as int, sfx@),
{
    let mut l = String::new();
    push_str(&mut l, name);
    push_char(&mut l, ':');
    push_dec(&mut l, val);
    push_str(&mut l, "|g");
    push_str(&mut l, sfx);
    l
}

fn counter_line(name: &str, sfx: &str) -> (r: String)
    ensures
        r@ == name@ + sfx@,
{
    let mut l = String::new();
    push_str(&mut l, name);
    push_str(&mut l, sfx);
    l
}

fn one_line(l: String) -> (r: Vec<String>)
    ensures
        line_views(r@) == seq![l@],
{
    let mut v: Vec<String> = Vec::new();
    v.push(l);
    assert(line_views(v@) =~= seq![l@]);
    v
}


pub open spec fn sgn(n: int) -> Seq<char> {
    dec_signed(n)
}

pub open spec fn influx_retransmit(e: ReadableTCPRetransmitSkbEvent, domain: Option<Seq<char>>) -> Seq<char> {
    "bpf_tcp_retransmit_skb,src_ip="@ + ip_text(e.source_ip) + ",dest_ip="@ + ip_text(e.destination_ip)
        + spec_influx_domain_tag(domain) + ",family="@ + u(e.family as int) + ",state="@ + sgn(e.state as int)
        + ",pid="@ + sgn(e.pid as int) + ",src_port="@ + u(e.source_port as int) + ",dest_port="@
        + u(e.destination_port as int) + ",err="@ + sgn(e.err as int) + " count=1i"@
}

pub open spec fn retransmit_tags(e: ReadableTCPRetransmitSkbEvent, domain: Option<Seq<char>>) -> Seq<char> {
    let t = with_tag(Seq::empty(), "src_ip"@, ip_text(e.source_ip));
    let t = with_tag(t, "dest_ip"@, ip_text(e.destination_ip));
    let t = with_opt_tag(t, "domain"@, domain);
    let t = with_tag(t, "family"@, u(e.family as int));
    let t = with_tag(t, "state"@, sgn(e.state as int));
    let t = with_tag(t, "pid"@, sgn(e.pid as int));
    let t = with_tag(t, "src_port"@, u(e.source_port as int));
    let t = with_tag(t, "dest_port"@, u(e.destination_port as int));
    with_tag(t, "err"@, sgn(e.err as int))
}

pub open spec fn influx_send_reset(e: ReadableTcpSendResetEvent, domain: Option<Seq<char>>) -> Seq<char> {
    "bpf_tcp_send_reset,src_ip="@ + ip_text(e.src_ip) + ",dest_ip="@ + ip_text(e.dst_ip)
        + spec_influx_domain_tag(domain) + ",state="@ + e.state@ + ",reason="@ + e.reason@
        + ",pid="@ + sgn(e.pid as int) + ",src_port="@ + u(e.src_port as int) + ",dst_port="@
        + u(e.dst_port as int) + " count=1i"@
}

pub open spec fn send_reset_tags(e: ReadableTcpSendResetEvent, domain: Option<Seq<char>>) -> Seq<char> {
    let t = with_tag(Seq::empty(), "src_ip"@, ip_text(e.src_ip));
    let t = with_tag(t, "dest_ip"@, ip_text(e.dst_ip));
    let t = with_opt_tag(t, "domain"@, domain);
    let t = with_tag(t, "state"@, e.state@);
    let t = with_tag(t, "reason"@, e.reason@);
    let t = with_tag(t, "pid"@, sgn(e.pid as int));
    let t = with_tag(t, "src_port"@, u(e.src_port as int));
    with_tag(t, "dst_port"@, u(e.dst_port as int))
}

pub open spec fn influx_receive_reset(e: ReadableTcpReceiveResetEvent, domain: Option<Seq<char>>) -> Seq<char> {
    "bpf_tcp_receive_reset,src_ip="@ + ip_text(e.src_ip) + ",dest_ip="@ + ip_text(e.dst_ip)
        + spec_influx_domain_tag(domain) + ",family="@ + u(e.family as int) + ",pid="@ + sgn(e.pid as int)
        + ",src_port="@ + u(e.sport as int) + ",dest_port="@ + u(e.dport as int) + ",skaddr="@
        + u(e.skaddr as int) + ",sock_cookie="@ + u(e.sock_cookie as int) + " count=1i"@
}

pub open spec fn receive_reset_tags(e: ReadableTcpReceiveResetEvent, domain: Option<Seq<char>>) -> Seq<char> {
    let t = with_tag(Seq::empty(), "src_ip"@, ip_text(e.src_ip));
    let t = with_tag(t, "dest_ip"@, ip_text(e.dst_ip));
    let t = with_opt_tag(t, "domain"@, domain);
    let t = with_tag(t, "family"@, u(e.family as int));
    let t = with_tag(t, "pid"@, sgn(e.pid as int));
    let t = with_tag(t, "src_port"@, u(e.sport as int));
    let t = with_tag(t, "dest_port"@, u(e.dport as int));
    let t = with_tag(t, "skaddr"@, u(e.skaddr as int));
    with_tag(t, "sock_cookie"@, u(e.sock_cookie as int))
}

pub open spec fn influx_mysql(dest_ip: Seq<u8>, ip_family: u8, port: u16, db: Seq<char>, query: Seq<char>, latency: Seq<char>, domain: Option<Seq<char>>) -> Seq<char> {
    "mysql_query_latency,port="@ + u(port as int) + spec_influx_db_ip(dest_ip, ip_family)
        + (if db.len() == 0 { Seq::empty() } else { ",db="@ + spec_influx_tag(db) })
        + spec_influx_domain_tag(domain) + ",query="@ + spec_influx_tag(query) + " latency_ms="@ + latency
}

pub open spec fn mysql_tags(dest_ip: Seq<u8>, ip_family: u8, port: u16, db: Seq<char>, query: Seq<char>, domain: Option<Seq<char>>) -> Seq<char> {
    let t = with_tag(Seq::empty(), "port"@, u(port as int));
    let t = if db_ip_text(dest_ip, ip_family).len() > 0 { with_tag(t, "db_ip"@, db_ip_text(dest_ip, ip_family)) } else { t };
    let t = if db.len() > 0 { with_tag(t, "db"@, db) } else { t };
    let t = with_opt_tag(t, "domain"@, domain);
    with_tag(t, "query"@, query)
}

/// Name of a DNS response code.
pub open spec fn rcode_name(rcode: u8) -> Seq<char> {
    if rcode == 0 {
        "NOERROR"@
    } else if rcode == 1 {
        "FORMERR"@
    } else if rcode == 2 {
        "SERVFAIL"@
    } else if rcode == 3 {
        "NXDOMAIN"@
    } else if rcode == 4 {
        "NOTIMP"@
    } else if rcode == 5 {
        "REFUSED"@
    } else {
        "UNKNOWN"@
    }
}

pub fn decode_rcode(rcode: u8) -> (r: &'static str)
    ensures
        r@ == rcode_name(rcode),
{
    match rcode {
        0 => "NOERROR",
        1 => "FORMERR",
        2 => "SERVFAIL",
        3 => "NXDOMAIN",
        4 => "NOTIMP",
        5 => "REFUSED",
        _ => "UNKNOWN",
    }
}

/// Addresses' text joined with `&`.
pub open spec fn join_ips(ips: Seq<IpAddr>) -> Seq<char>
    decreases ips.len(),
{
    if ips.len() == 0 {
        Seq::empty()
    } else if ips.len() == 1 {
        ip_text(ips[0])
    } else {
        join_ips(ips.drop_last()) + seq!['&'] + ip_text(ips.last())
    }
}

pub fn join_resolved(ips: &[IpAddr]) -> (r: String)
    ensures
        r@ == join_ips(ips@),
{
    let mut out = String::new();
    let mut i: usize = 0;
    while i < ips.len()
        invariant
            i <= ips@.len(),
            out@ == join_ips(ips@.take(i as int)),
        decreases ips@.len() - i,
    {
        if i > 0 {
            push_char(&mut out, '&');
        }
        push_ip(&mut out, &ips[i]);
        proof {
            let next = ips@.take(i + 1);
            assert(next.drop_last() == ips@.take(i as int));
            assert(next.last() == ips@[i as int]);
        }
        i += 1;
    }
    assert(ips@.take(ips@.len() as int) == ips@);
    out
}

pub open spec fn influx_dns(domain: Seq<char>, rcode: u8, querier: IpAddr, resolved: Seq<IpAddr>) -> Seq<char> {
    "dns_query,domain="@ + spec_influx_tag(domain) + ",rcode="@ + rcode_name(rcode) + ",querier_ip="@
        + ip_text(querier) + (if resolved.len() > 0 { ",resolved_ips="@ + join_ips(resolved) } else { Seq::empty() })
        + " count=1i"@
}

pub open spec fn dns_tags(domain: Seq<char>, rcode: u8, querier: IpAddr, resolved: Seq<IpAddr>) -> Seq<char> {
    let t = with_tag(Seq::empty(), "domain"@, domain);
    let t = with_tag(t, "rcode"@, rcode_name(rcode));
    let t = with_tag(t, "querier_ip"@, ip_text(querier));
    if resolved.len() > 0 { with_tag(t, "resolved_ips"@, join_ips(resolved)) } else { t }
}

fn influx_db_tag(db: &str) -> (r: String)
    ensures
        r@ == (if db@.len() == 0 { Seq::<char>::empty() } else { ",db="@ + spec_influx_tag(db@) }),
{
    let mut l = String::new();
    if !db.is_empty() {
        push_str(&mut l, ",db=");
        push_str(&mut l, influx_tag(db).as_str());
    }
    l
}

fn resolved_tag(ips: &[IpAddr], joined: &String) -> (r: String)
    requires
        joined@ == join_ips(ips@),
    ensures
        r@ == (if ips@.len() > 0 { ",resolved_ips="@ + join_ips(ips@) } else { Seq::<char>::empty() }),
{
    let mut l = String::new();
    if ips.len() > 0 {
        push_str(&mut l, ",resolved_ips=");
        push_str(&mut l, joined.as_str());
    }
    l
}

fn signed_string(n: i64) -> (r: String)
    ensures
        r@ == dec_signed(n as int),
{
    let mut s = String::new();
    push_dec_signed(&mut s, n);
    s
}

/// Formats probe events and query metrics for Telegraf in the configured
/// protocol; each returned line is sent as one datagram.
pub struct TelegrafMetricsPusher {
    pub protocol: MetricProtocol,
}

impl TelegrafMetricsPusher {
    pub fn new(protocol: MetricProtocol) -> (r: Self)
        ensures
            r.protocol == protocol,
    {
        TelegrafMetricsPusher { protocol }
    }

    /// InfluxDB can hold multiple fields in one line; StatsD is one value per
    /// datagram, so each numeric field becomes its own gauge, plus a counter.
    pub fn push_tcp_probe(&self, e: &ReadableTCPProbeEvent, domain: Option<&str>) -> (lines: Vec<String>)
        ensures
            line_views(lines@) == match self.protocol {
                MetricProtocol::Influx => seq![influx_tcp_probe(*e, opt_view(domain))],
                MetricProtocol::Statsd => statsd_tcp_probe(*e, opt_view(domain)),
            },
    {
        match self.protocol {
            MetricProtocol::Influx => {
                let mut l = String::new();
                push_str(&mut l, "bpf_tcp_probe,src_ip=");
                push_ip(&mut l, &e.src_addr);
                push_str(&mut l, ",dest_ip=");
                push_ip(&mut l, &e.dest_addr);
                let d = influx_domain_tag(domain);
                push_str(&mut l, d.as_str());
                push_str(&mut l, ",family=");
                push_dec(&mut l, e.family as u64);
                push_str(&mut l, ",pid=");
                push_dec(&mut l, e.pid as u64);
                push_str(&mut l, ",tgid=");
                push_dec(&mut l, e.tgid as u64);
                push_str(&mut l, ",src_port=");
                push_dec(&mut l, e.src_port as u64);
                push_str(&mut l, ",dest_port=");
                push_dec(&mut l, e.dest_port as u64);
                push_str(&mut l, " data_len=");
                push_dec(&mut l, e.data_len as u64);
                push_str(&mut l, "u,snd_cwnd=");
                push_dec(&mut l, e.snd_cwnd as u64);
                push_str(&mut l, "u,ssthresh=");
                push_dec(&mut l, e.ssthresh as u64);
                push_str(&mut l, "u,snd_wnd=");
                push_dec(&mut l, e.snd_wnd as u64);
                push_str(&mut l, "u,srtt_us=");
                push_dec(&mut l, e.srtt_us as u64);
                push_str(&mut l, "u,rcv_wnd=");
                push_dec(&mut l, e.rcv_wnd as u64);
                push_str(&mut l, "u");
                one_line(l)
            },
            MetricProtocol::Statsd => {
                let mut tags = StatsdTags::new();
                tags.add("src_ip", ip_to_string(&e.src_addr).as_str());
                tags.add("dest_ip", ip_to_string(&e.dest_addr).as_str());
                tags.add_opt("domain", domain);
                tags.add("family", dec_string(e.family as u64).as_str());
                tags.add("pid", dec_string(e.pid as u64).as_str());
                tags.add("tgid", dec_string(e.tgid as u64).as_str());
                tags.add("src_port", dec_string(e.src_port as u64).as_str());
                tags.add("dest_port", dec_string(e.dest_port as u64).as_str());
                let sfx = tags.suffix();
                let mut lines: Vec<String> = Vec::new();
                lines.push(gauge_line("bpf_tcp_probe.data_len", e.data_len as u64, sfx.as_str()));
                lines.push(gauge_line("bpf_tcp_probe.snd_cwnd", e.snd_cwnd as u64, sfx.as_str()));
                lines.push(gauge_line("bpf_tcp_probe.ssthresh", e.ssthresh as u64, sfx.as_str()));
                lines.push(gauge_line("bpf_tcp_probe.snd_wnd", e.snd_wnd as u64, sfx.as_str()));
                lines.push(gauge_line("bpf_tcp_probe.srtt_us", e.srtt_us as u64, sfx.as_str()));
                lines.push(gauge_line("bpf_tcp_probe.rcv_wnd", e.rcv_wnd as u64, sfx.as_str()));
                lines.push(counter_line("bpf_tcp_probe:1|c", sfx.as_str()));
                assert(line_views(lines@) =~= statsd_tcp_probe(*e, opt_view(domain)));
                lines
            },
        }
    }

    pub fn push_tcp_retransmit_skb(&self, e: &ReadableTCPRetransmitSkbEvent, domain: Option<&str>) -> (lines: Vec<String>)
        ensures
            line_views(lines@) == match self.protocol {
                MetricProtocol::Influx => seq![influx_retransmit(*e, opt_view(domain))],
                MetricProtocol::Statsd => seq!["bpf_tcp_retransmit_skb:1|c"@ + spec_suffix(retransmit_tags(*e, opt_view(domain)))],
            },
    {
        match self.protocol {
            MetricProtocol::Influx => {
                let mut l = String::new();
                push_str(&mut l, "bpf_tcp_retransmit_skb,src_ip=");
                push_ip(&mut l, &e.source_ip);
                push_str(&mut l, ",dest_ip=");
                push_ip(&mut l, &e.destination_ip);
                let d = influx_domain_tag(domain);
                push_str(&mut l, d.as_str());
                push_str(&mut l, ",family=");
                push_dec(&mut l, e.family as u64);
                push_str(&mut l, ",state=");
                push_dec_signed(&mut l, e.state as i64);
                push_str(&mut l, ",pid=");
                push_dec_signed(&mut l, e.pid as i64);
                push_str(&mut l, ",src_port=");
                push_dec(&mut l, e.source_port as u64);
                push_str(&mut l, ",dest_port=");
                push_dec(&mut l, e.destination_port as u64);
                push_str(&mut l, ",err=");
                push_dec_signed(&mut l, e.err as i64);
                push_str(&mut l, " count=1i");
                one_line(l)
            },
            MetricProtocol::Statsd => {
                let mut tags = StatsdTags::new();
                tags.add("src_ip", ip_to_string(&e.source_ip).as_str());
                tags.add("dest_ip", ip_to_string(&e.destination_ip).as_str());
                tags.add_opt("domain", domain);
                tags.add("family", dec_string(e.family as u64).as_str());
                tags.add("state", signed_string(e.state as i64).as_str());
                tags.add("pid", signed_string(e.pid as i64).as_str());
                tags.add("src_port", dec_string(e.source_port as u64).as_str());
                tags.add("dest_port", dec_string(e.destination_port as u64).as_str());
                tags.add("err", signed_string(e.err as i64).as_str());
                let sfx = tags.suffix();
                one_line(counter_line("bpf_tcp_retransmit_skb:1|c", sfx.as_str()))
            },
        }
    }

    pub fn push_tcp_send_reset(&self, e: &ReadableTcpSendResetEvent, domain: Option<&str>) -> (lines: Vec<String>)
        ensures
            line_views(lines@) == match self.protocol {
                MetricProtocol::Influx => seq![influx_send_reset(*e, opt_view(domain))],
                MetricProtocol::Statsd => seq!["bpf_tcp_send_reset:1|c"@ + spec_suffix(send_reset_tags(*e, opt_view(domain)))],
            },
    {
        match self.protocol {
            MetricProtocol::Influx => {
                let mut l = String::new();
                push_str(&mut l, "bpf_tcp_send_reset,src_ip=");
                push_ip(&mut l, &e.src_ip);
                push_str(&mut l, ",dest_ip=");
                push_ip(&mut l, &e.dst_ip);
                let d = influx_domain_tag(domain);
                push_str(&mut l, d.as_str());
                push_str(&mut l, ",state=");
                push_str(&mut l, e.state);
                push_str(&mut l, ",reason=");
                push_str(&mut l, e.reason);
                push_str(&mut l, ",pid=");
                push_dec_signed(&mut l, e.pid as i64);
                push_str(&mut l, ",src_port=");
                push_dec(&mut l, e.src_port as u64);
                push_str(&mut l, ",dst_port=");
                push_dec(&mut l, e.dst_port as u64);
                push_str(&mut l, " count=1i");
                one_line(l)
            },
            MetricProtocol::Statsd => {
                let mut tags = StatsdTags::new();
                tags.add("src_ip", ip_to_string(&e.src_ip).as_str());
                tags.add("dest_ip", ip_to_string(&e.dst_ip).as_str());
                tags.add_opt("domain", domain);
                tags.add("state", e.state);
                tags.add("reason", e.reason);
                tags.add("pid", signed_string(e.pid as i64).as_str());
                tags.add("src_port", dec_string(e.src_port as u64).as_str());
                tags.add("dst_port", dec_string(e.dst_port as u64).as_str());
                let sfx = tags.suffix();
                one_line(counter_line("bpf_tcp_send_reset:1|c", sfx.as_str()))
            },
        }
    }

    pub fn push_tcp_receive_reset(&self, e: &ReadableTcpReceiveResetEvent, domain: Option<&str>) -> (lines: Vec<String>)
        ensures
            line_views(lines@) == match self.protocol {
                MetricProtocol::Influx => seq![influx_receive_reset(*e, opt_view(domain))],
                MetricProtocol::Statsd => seq!["bpf_tcp_receive_reset:1|c"@ + spec_suffix(receive_reset_tags(*e, opt_view(domain)))],
            },
    {
        match self.protocol {
            MetricProtocol::Influx => {
                let mut l = String::new();
                push_str(&mut l, "bpf_tcp_receive_reset,src_ip=");
                push_ip(&mut l, &e.src_ip);
                push_str(&mut l, ",dest_ip=");
                push_ip(&mut l, &e.dst_ip);
                let d = influx_domain_tag(domain);
                push_str(&mut l, d.as_str());
                push_str(&mut l, ",family=");
                push_dec(&mut l, e.family as u64);
                push_str(&mut l, ",pid=");
                push_dec_signed(&mut l, e.pid as i64);
                push_str(&mut l, ",src_port=");
                push_dec(&mut l, e.sport as u64);
                push_str(&mut l, ",dest_port=");
                push_dec(&mut l, e.dport as u64);
                push_str(&mut l, ",skaddr=");
                push_dec(&mut l, e.skaddr);
                push_str(&mut l, ",sock_cookie=");
                push_dec(&mut l, e.sock_cookie);
                push_str(&mut l, " count=1i");
                one_line(l)
            },
            MetricProtocol::Statsd => {
                let mut tags = StatsdTags::new();
                tags.add("src_ip", ip_to_string(&e.src_ip).as_str());
                tags.add("dest_ip", ip_to_string(&e.dst_ip).as_str());
                tags.add_opt("domain", domain);
                tags.add("family", dec_string(e.family as u64).as_str());
                tags.add("pid", signed_string(e.pid as i64).as_str());
                tags.add("src_port", dec_string(e.sport as u64).as_str());
                tags.add("dest_port", dec_string(e.dport as u64).as_str());
                tags.add("skaddr", dec_string(e.skaddr).as_str());
                tags.add("sock_cookie", dec_string(e.sock_cookie).as_str());
                let sfx = tags.suffix();
                one_line(counter_line("bpf_tcp_receive_reset:1|c", sfx.as_str()))
            },
        }
    }

    /// The query latency metric; `latency_ms` is the latency in milliseconds
    /// as text (the agent formats the floating-point value).
    pub fn push_mysql_query_latency(
        &self,
        dest_ip: [u8; 16],
        ip_family: u8,
        port: u16,
        db: &str,
        query: &str,
        latency_ms: &str,
        domain: Option<&str>,
    ) -> (lines: Vec<String>)
        ensures
            line_views(lines@) == match self.protocol {
                MetricProtocol::Influx => seq![influx_mysql(dest_ip@, ip_family, port, db@, query@, latency_ms@, opt_view(domain))],
                MetricProtocol::Statsd => seq!["mysql_query_latency:"@ + latency_ms@ + "|ms"@ + spec_suffix(mysql_tags(dest_ip@, ip_family, port, db@, query@, opt_view(domain)))],
            },
    {
        match self.protocol {
            MetricProtocol::Influx => {
                let mut l = String::new();
                push_str(&mut l, "mysql_query_latency,port=");
                push_dec(&mut l, port as u64);
                let ip = influx_db_ip(dest_ip, ip_family);
                push_str(&mut l, ip.as_str());
                let db_tag = influx_db_tag(db);
                push_str(&mut l, db_tag.as_str());
                let d = influx_domain_tag(domain);
                push_str(&mut l, d.as_str());
                push_str(&mut l, ",query=");
                push_str(&mut l, influx_tag(query).as_str());
                push_str(&mut l, " latency_ms=");
                push_str(&mut l, latency_ms);
                one_line(l)
            },
            MetricProtocol::Statsd => {
                let mut tags = StatsdTags::new();
                tags.add("port", dec_string(port as u64).as_str());
                let ghost t0 = tags.0@;
                let ip_str = statsd_db_ip(dest_ip, ip_family);
                if !ip_str.as_str().is_empty() {
                    tags.add("db_ip", ip_str.as_str());
                }
                let ghost t1 = tags.0@;
                assert(t1 == if db_ip_text(dest_ip@, ip_family).len() > 0 { with_tag(t0, "db_ip"@, db_ip_text(dest_ip@, ip_family)) } else { t0 });
                if !db.is_empty() {
                    tags.add("db", db);
                }
                let ghost t2 = tags.0@;
                assert(t2 == if db@.len() > 0 { with_tag(t1, "db"@, db@) } else { t1 });
                tags.add_opt("domain", domain);
                tags.add("query", query);
                let sfx = tags.suffix();
                let mut l = String::new();
                push_str(&mut l, "mysql_query_latency:");
                push_str(&mut l, latency_ms);
                push_str(&mut l, "|ms");
                push_str(&mut l, sfx.as_str());
                one_line(l)
            },
        }
    }

    /// One DNS question metric. All resolved addresses are joined with `&`
    /// into a single tag so one line is emitted per DNS response; callers
    /// pass them sorted and deduplicated so that the same answer set always
    /// gives the same tag value.
    pub fn push_dns_query(&self, domain: &str, rcode: u8, querier_ip: IpAddr, resolved_ips: &[IpAddr]) -> (lines: Vec<String>)
        ensures
            line_views(lines@) == match self.protocol {
                MetricProtocol::Influx => seq![influx_dns(domain@, rcode, querier_ip, resolved_ips@)],
                MetricProtocol::Statsd => seq!["dns_query:1|c"@ + spec_suffix(dns_tags(domain@, rcode, querier_ip, resolved_ips@))],
            },
    {
        let rcode_text = decode_rcode(rcode);
        let resolved = join_resolved(resolved_ips);
        match self.protocol {
            MetricProtocol::Influx => {
                let mut l = String::new();
                push_str(&mut l, "dns_query,domain=");
                push_str(&mut l, influx_tag(domain).as_str());
                push_str(&mut l, ",rcode=");
                push_str(&mut l, rcode_text);
                push_str(&mut l, ",querier_ip=");
                push_ip(&mut l, &querier_ip);
                let rt = resolved_tag(resolved_ips, &resolved);
                push_str(&mut l, rt.as_str());
                push_str(&mut l, " count=1i");
                one_line(l)
            },
            MetricProtocol::Statsd => {
                let mut tags = StatsdTags::new();
                tags.add("domain", domain);
                tags.add("rcode", rcode_text);
                tags.add("querier_ip", ip_to_string(&querier_ip).as_str());
                let ghost t0 = tags.0@;
                if resolved_ips.len() > 0 {
                    tags.add("resolved_ips", resolved.as_str());
                }
                assert(tags.0@ == if resolved_ips@.len() > 0 { with_tag(t0, "resolved_ips"@, join_ips(resolved_ips@)) } else { t0 });
                let sfx = tags.suffix();
                one_line(counter_line("dns_query:1|c", sfx.as_str()))
            },
        }
    }
}

/// Law: the rcode tag names the DNS RCODE as RFC 1035 does: 0 NOERROR,
/// 1 FORMERR, 2 SERVFAIL, 3 NXDOMAIN, 4 NOTIMP, 5 REFUSED; each of these
/// has its own name, and UNKNOWN names exactly the other values.
pub proof fn law_rcode_names(a: u8, b: u8)
    ensures
        rcode_name(0) == "NOERROR"@,
        rcode_name(1) == "FORMERR"@,
        rcode_name(2) == "SERVFAIL"@,
        rcode_name(3) == "NXDOMAIN"@,
        rcode_name(4) == "NOTIMP"@,
        rcode_name(5) == "REFUSED"@,
        a <= 5 && b <= 5 && a != b ==> rcode_name(a) != rcode_name(b),
        rcode_name(a) == "UNKNOWN"@ <==> a > 5,
{
    reveal_strlit("NOERROR");
    reveal_strlit("FORMERR");
    reveal_strlit("SERVFAIL");
    reveal_strlit("NXDOMAIN");
    reveal_strlit("NOTIMP");
    reveal_strlit("REFUSED");
    reveal_strlit("UNKNOWN");
    assert("NOERROR"@.len() == 7 && "NOERROR"@[0] == 'N');
    assert("FORMERR"@.len() == 7 && "FORMERR"@[0] == 'F');
    assert("SERVFAIL"@.len() == 8 && "SERVFAIL"@[0] == 'S');
    assert("NXDOMAIN"@.len() == 8 && "NXDOMAIN"@[0] == 'N');
    assert("NOTIMP"@.len() == 6 && "NOTIMP"@[0] == 'N');
    assert("REFUSED"@.len() == 7 && "REFUSED"@[0] == 'R');
    assert("UNKNOWN"@.len() == 7 && "UNKNOWN"@[0] == 'U');
}

} // verus!
