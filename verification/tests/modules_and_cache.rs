use metis::config::{HttpConfig, MetricProtocol, ModulesConfig, MysqlConfig, TcpConfig, TelegrafConfig};
use metis::dns::{sort_ips, DnsModule};
use metis::dns_cache::{DnsCache, CACHE_CAPACITY};
use metis::modules::{HttpModule, Module, TcpModule};
use metis::net::IpAddr;
use metis::probes::{ProbeEvent, ProbeRequirement, ReadableTcpReceiveResetEvent};
use metis::sink::TelegrafMetricsPusher;

fn v4(o: [u8; 4]) -> IpAddr {
    IpAddr::V4(u32::from_be_bytes(o))
}

fn host(i: u32) -> IpAddr {
    IpAddr::V4(0x0a00_0000 + i)
}

#[test]
fn cache_answers_what_was_inserted() {
    let mut c = DnsCache::new();
    assert_eq!(c.lookup(&v4([1, 2, 3, 4])), None);
    c.insert(v4([1, 2, 3, 4]), "a.example".to_string());
    c.insert(v4([1, 2, 3, 4]), "b.example".to_string());
    assert_eq!(c.lookup(&v4([1, 2, 3, 4])), Some("b.example"));
    // an IPv6 address with the same low bits is a different key
    assert_eq!(c.lookup(&IpAddr::V6(0x0102_0304)), None);
}

#[test]
fn cache_evicts_least_recently_used() {
    let mut c = DnsCache::new();
    for i in 0..CACHE_CAPACITY as u32 {
        c.insert(host(i), format!("h{i}"));
    }
    // touching the oldest entry makes the second oldest the next to go
    assert_eq!(c.lookup(&host(0)), Some("h0"));
    c.insert(host(100_000), "new".to_string());
    assert_eq!(c.lookup(&host(1)), None);
    assert_eq!(c.lookup(&host(0)), Some("h0"));
    assert_eq!(c.lookup(&host(2)), Some("h2"));
    assert_eq!(c.lookup(&host(100_000)), Some("new"));
}

#[test]
fn resolved_addresses_are_sorted_and_deduplicated() {
    let a = vec![v4([9, 9, 9, 9]), IpAddr::V6(1), v4([1, 1, 1, 1]), v4([9, 9, 9, 9])];
    let b = vec![IpAddr::V6(1), v4([1, 1, 1, 1]), v4([9, 9, 9, 9])];
    assert_eq!(sort_ips(&a), vec![v4([1, 1, 1, 1]), v4([9, 9, 9, 9]), IpAddr::V6(1)]);
    assert_eq!(sort_ips(&a), sort_ips(&b));
    assert_eq!(sort_ips(&vec![]), Vec::<IpAddr>::new());
}

fn dns_response(ip: [u8; 4]) -> Vec<u8> {
    let mut msg = vec![0x00, 0x01, 0x81, 0x80, 0x00, 0x01, 0x00, 0x01, 0x00, 0x00, 0x00, 0x00];
    for label in ["example", "com"] {
        msg.push(label.len() as u8);
        msg.extend_from_slice(label.as_bytes());
    }
    msg.push(0);
    msg.extend_from_slice(&[0x00, 0x01, 0x00, 0x01]);
    msg.extend_from_slice(&[0xC0, 0x0C, 0x00, 0x01, 0x00, 0x01, 0x00, 0x00, 0x00, 0x3C, 0x00, 0x04]);
    msg.extend_from_slice(&ip);
    msg
}

#[test]
fn dns_module_caches_and_reports() {
    let m = DnsModule::new(TelegrafMetricsPusher::new(MetricProtocol::Influx));
    let mut cache = DnsCache::new();
    let e = ProbeEvent::UdpRecvMsg { src_port: 53, dest_ip: v4([10, 0, 0, 7]), payload: dns_response([93, 184, 216, 34]) };
    let lines = m.on_event(&e, &mut cache);
    assert_eq!(
        lines,
        vec!["dns_query,domain=example.com,rcode=NOERROR,querier_ip=10.0.0.7,resolved_ips=93.184.216.34 count=1i".to_string()]
    );
    assert_eq!(cache.lookup(&v4([93, 184, 216, 34])), Some("example.com"));
    // a query packet (QR=0) gives nothing
    let mut q = dns_response([1, 1, 1, 1]);
    q[2] = 0x01;
    let e = ProbeEvent::UdpRecvMsg { src_port: 53, dest_ip: v4([10, 0, 0, 7]), payload: q };
    assert!(m.on_event(&e, &mut cache).is_empty());
    assert_eq!(cache.lookup(&v4([1, 1, 1, 1])), None);
    assert_eq!(m.name(), "dns");
    assert!(matches!(&m.required_probes()[..], [ProbeRequirement::UdpRecvMsg { src_ports: Some(p) }] if p == &vec![53]));
}

#[test]
fn tcp_module_tags_cached_domain() {
    let m = TcpModule::new(TelegrafMetricsPusher::new(MetricProtocol::Statsd), None);
    let mut cache = DnsCache::new();
    cache.insert(v4([10, 0, 0, 2]), "api.internal".to_string());
    let e = ProbeEvent::TcpReceiveReset(ReadableTcpReceiveResetEvent {
        pid: 1,
        skaddr: 2,
        sport: 3,
        dport: 4,
        family: 2,
        src_ip: v4([10, 0, 0, 1]),
        dst_ip: v4([10, 0, 0, 2]),
        sock_cookie: 5,
    });
    assert_eq!(
        m.on_event(&e, &mut cache),
        vec!["bpf_tcp_receive_reset:1|c|#src_ip:10.0.0.1,dest_ip:10.0.0.2,domain:api.internal,family:2,pid:1,src_port:3,dest_port:4,skaddr:2,sock_cookie:5".to_string()]
    );
    let other = ProbeEvent::SockDefReadable { socket_ptr: 1, timestamp_ns: 1, response_head: vec![] };
    assert!(m.on_event(&other, &mut cache).is_empty());
    assert_eq!(m.name(), "tcp");
    let probes = m.required_probes();
    assert_eq!(probes.len(), 4);
    assert!(matches!(&probes[0], ProbeRequirement::TcpProbe { dest_ports: None }));
    assert!(matches!(&probes[3], ProbeRequirement::TcpReceiveReset { dest_ports: None }));
}

#[test]
fn http_module_asks_for_its_ports() {
    let m = HttpModule::new(vec![80, 8080]);
    assert_eq!(m.name(), "http");
    assert!(matches!(&m.required_probes()[..], [ProbeRequirement::TcpSendMsg { dest_ports: Some(p) }] if p == &vec![80, 8080]));
}

#[test]
fn configuration_defaults() {
    let t = TelegrafConfig::default();
    assert_eq!(t.address, "127.0.0.1:8125");
    assert_eq!(t.protocol, MetricProtocol::Influx);
    assert_eq!(MetricProtocol::default(), MetricProtocol::Influx);
    let m = ModulesConfig::default();
    assert!(m.tcp.enabled && m.tcp.ports.is_none());
    assert!(m.mysql.enabled && m.mysql.ports == vec![3306]);
    assert!(!m.http.enabled && m.http.ports == vec![80]);
    assert!(m.dns.enabled);
    assert_eq!(MysqlConfig::default().ports, vec![3306]);
    assert_eq!(HttpConfig::default().ports, vec![80]);
    assert!(TcpConfig::default().enabled);
}

#[test]
fn empty_tcp_port_list_means_all_ports() {
    let m = TcpModule::new(TelegrafMetricsPusher::new(MetricProtocol::Influx), Some(vec![]));
    let probes = m.required_probes();
    assert!(matches!(&probes[0], ProbeRequirement::TcpProbe { dest_ports: None }));
    assert!(matches!(&probes[1], ProbeRequirement::TcpRetransmitSkb { dest_ports: None }));
    assert!(matches!(&probes[2], ProbeRequirement::TcpSendReset { dest_ports: None }));
    assert!(matches!(&probes[3], ProbeRequirement::TcpReceiveReset { dest_ports: None }));
    let m = TcpModule::new(TelegrafMetricsPusher::new(MetricProtocol::Influx), Some(vec![443]));
    assert!(matches!(&m.required_probes()[0], ProbeRequirement::TcpProbe { dest_ports: Some(p) } if p == &vec![443]));
}
