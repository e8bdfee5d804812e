//! Modules: what each one asks of the probes and what it makes of events.

use vstd::prelude::*;
use crate::dns_cache::DnsCache;
use crate::lru_model::lru_touch;
use crate::net::spec_ip_key;
use crate::probes::{ProbeEvent, ProbeRequirement};
use crate::sink::{TelegrafMetricsPusher, line_views, opt_view, influx_tcp_probe, statsd_tcp_probe,
    influx_retransmit, retransmit_tags, influx_send_reset, send_reset_tags, influx_receive_reset,
    receive_reset_tags, spec_suffix};
use crate::config::MetricProtocol;

verus! {

/// A module of the agent: its name and the probes it needs.
pub trait Module {
    fn name(&self) -> &'static str;

    fn required_probes(&self) -> Vec<ProbeRequirement>;
}

pub open spec fn opt_ports_view(p: Option<Vec<u16>>) -> Option<Seq<u16>> {
    match p {
        Some(v) => Some(v@),
        None => None,
    }
}

/// A port filter as the probes take it: an empty list, like no list, means
/// all ports.
pub open spec fn port_filter(p: Option<Seq<u16>>) -> Option<Seq<u16>> {
    match p {
        Some(s) => if s.len() == 0 {
            None
        } else {
            Some(s)
        },
        None => None,
    }
}

/// A copy of a port list with an empty list turned into no list (all ports).
fn filter_ports(p: &Option<Vec<u16>>) -> (r: Option<Vec<u16>>)
    ensures
        opt_ports_view(r) == port_filter(opt_ports_view(*p)),
{
    match p {
        Some(v) => if v.len() == 0 {
            None
        } else {
            Some(v.clone())
        },
        None => None,
    }
}

/// The name cached for an address, as text.
pub(crate) fn cached_domain(cache: &mut DnsCache, ip: &crate::net::IpAddr) -> (r: Option<String>)
    requires
        old(cache).wf(),
    ensures
        final(cache).entries() == lru_touch(old(cache).entries(), spec_ip_key(*ip)),
        final(cache).capacity() == old(cache).capacity(),
        final(cache).wf(),
        match old(cache).cached(*ip) {
            Some(d) => r matches Some(s) && s@ == d,
            None => r is None,
        },
{
    match cache.lookup(ip) {
        Some(s) => {
            let mut t = String::new();
            crate::text::push_str(&mut t, s);
            Some(t)
        },
        None => None,
    }
}

pub open spec fn owned_view(o: Option<String>) -> Option<Seq<char>> {
    match o {
        Some(s) => Some(s@),
        None => None,
    }
}

fn as_opt_str(o: &Option<String>) -> (r: Option<&str>)
    ensures
        opt_view(r) == owned_view(*o),
{
    match o {
        Some(s) => Some(s.as_str()),
        None => None,
    }
}

/// TCP metrics: every tcp_probe, retransmit and reset event becomes a metric,
/// tagged with the destination's domain when the DNS cache knows it.
pub struct TcpModule {
    pub sink: TelegrafMetricsPusher,
    pub ports: Option<Vec<u16>>,
}

/// The destination address a TCP event is tagged by, if it is one.
pub open spec fn tcp_event_dest(e: ProbeEvent) -> Option<crate::net::IpAddr> {
    match e {
        ProbeEvent::TcpProbe(x) => Some(x.dest_addr),
        ProbeEvent::TcpRetransmitSkb(x) => Some(x.destination_ip),
        ProbeEvent::TcpSendReset(x) => Some(x.dst_ip),
        ProbeEvent::TcpReceiveReset(x) => Some(x.dst_ip),
        _ => None,
    }
}

/// The metric lines for a TCP event with the given domain.
pub open spec fn tcp_event_lines(protocol: MetricProtocol, e: ProbeEvent, domain: Option<Seq<char>>) -> Seq<Seq<char>> {
    match e {
        ProbeEvent::TcpProbe(x) => match protocol {
            MetricProtocol::Influx => seq![influx_tcp_probe(x, domain)],
            MetricProtocol::Statsd => statsd_tcp_probe(x, domain),
        },
        ProbeEvent::TcpRetransmitSkb(x) => match protocol {
            MetricProtocol::Influx => seq![influx_retransmit(x, domain)],
            MetricProtocol::Statsd => seq!["bpf_tcp_retransmit_skb:1|c"@ + spec_suffix(retransmit_tags(x, domain))],
        },
        ProbeEvent::TcpSendReset(x) => match protocol {
            MetricProtocol::Influx => seq![influx_send_reset(x, domain)],
            MetricProtocol::Statsd => seq!["bpf_tcp_send_reset:1|c"@ + spec_suffix(send_reset_tags(x, domain))],
        },
        ProbeEvent::TcpReceiveReset(x) => match protocol {
            MetricProtocol::Influx => seq![influx_receive_reset(x, domain)],
            MetricProtocol::Statsd => seq!["bpf_tcp_receive_reset:1|c"@ + spec_suffix(receive_reset_tags(x, domain))],
        },
        _ => Seq::empty(),
    }
}

impl TcpModule {
    /// A TCP module on `ports`; no list or an empty list means all ports.
    pub fn new(sink: TelegrafMetricsPusher, ports: Option<Vec<u16>>) -> (r: Self)
        ensures
            r.sink == sink,
            opt_ports_view(r.ports) == port_filter(opt_ports_view(ports)),
    {
        let ports = filter_ports(&ports);
        Self { sink, ports }
    }

    /// The metric lines for an event (none for events this module does not
    /// handle); the DNS cache lookup promotes the destination's entry.
    pub fn on_event(&self, event: &ProbeEvent, cache: &mut DnsCache) -> (lines: Vec<String>)
        requires
            old(cache).wf(),
        ensures
            final(cache).wf(),
            final(cache).capacity() == old(cache).capacity(),
            match tcp_event_dest(*event) {
                Some(ip) => final(cache).entries() == lru_touch(old(cache).entries(), spec_ip_key(ip))
                    && line_views(lines@) == tcp_event_lines(self.sink.protocol, *event, old(cache).cached(ip)),
                None => final(cache).entries() == old(cache).entries() && lines@.len() == 0,
            },
    {
        match event {
            ProbeEvent::TcpProbe(e) => {
                let domain = cached_domain(cache, &e.dest_addr);
                self.sink.push_tcp_probe(e, as_opt_str(&domain))
            },
            ProbeEvent::TcpRetransmitSkb(e) => {
                let domain = cached_domain(cache, &e.destination_ip);
                self.sink.push_tcp_retransmit_skb(e, as_opt_str(&domain))
            },
            ProbeEvent::TcpSendReset(e) => {
                let domain = cached_domain(cache, &e.dst_ip);
                self.sink.push_tcp_send_reset(e, as_opt_str(&domain))
            },
            ProbeEvent::TcpReceiveReset(e) => {
                let domain = cached_domain(cache, &e.dst_ip);
                self.sink.push_tcp_receive_reset(e, as_opt_str(&domain))
            },
            _ => Vec::new(),
        }
    }
}

impl Module for TcpModule {
    fn name(&self) -> (r: &'static str)
        ensures
            r@ == "tcp"@,
    {
        "tcp"
    }

    fn required_probes(&self) -> (r: Vec<ProbeRequirement>)
        ensures
            r@.len() == 4,
            r@[0] matches ProbeRequirement::TcpProbe { dest_ports } && opt_ports_view(dest_ports) == port_filter(opt_ports_view(self.ports)),
            r@[1] matches ProbeRequirement::TcpRetransmitSkb { dest_ports } && opt_ports_view(dest_ports) == port_filter(opt_ports_view(self.ports)),
            r@[2] matches ProbeRequirement::TcpSendReset { dest_ports } && opt_ports_view(dest_ports) == port_filter(opt_ports_view(self.ports)),
            r@[3] matches ProbeRequirement::TcpReceiveReset { dest_ports } && opt_ports_view(dest_ports) == port_filter(opt_ports_view(self.ports)),
    {
        let mut v: Vec<ProbeRequirement> = Vec::new();
        v.push(ProbeRequirement::TcpProbe { dest_ports: filter_ports(&self.ports) });
        v.push(ProbeRequirement::TcpRetransmitSkb { dest_ports: filter_ports(&self.ports) });
        v.push(ProbeRequirement::TcpSendReset { dest_ports: filter_ports(&self.ports) });
        v.push(ProbeRequirement::TcpReceiveReset { dest_ports: filter_ports(&self.ports) });
        v
    }
}

/// HTTP payload capture on the configured ports.
pub struct HttpModule {
    pub ports: Vec<u16>,
}

impl HttpModule {
    pub fn new(ports: Vec<u16>) -> (r: Self)
        ensures
            r.ports@ == ports@,
    {
        Self { ports }
    }
}

impl Module for HttpModule {
    fn name(&self) -> (r: &'static str)
        ensures
            r@ == "http"@,
    {
        "http"
    }

    fn required_probes(&self) -> (r: Vec<ProbeRequirement>)
        ensures
            r@.len() == 1,
            r@[0] matches ProbeRequirement::TcpSendMsg { dest_ports } && opt_ports_view(dest_ports) == Some(self.ports@),
    {
        let mut v: Vec<ProbeRequirement> = Vec::new();
        v.push(ProbeRequirement::TcpSendMsg { dest_ports: Some(self.ports.clone()) });
        v
    }
}

} // verus!
