use metis::config::MetricProtocol;
use metis::dns_cache::DnsCache;
use metis::modules::Module;
use metis::mysql::{CLIENT_CONNECT_WITH_DB, CLIENT_PROTOCOL_41, CLIENT_SECURE_CONNECTION};
use metis::mysql_module::{MysqlModule, PENDING_TTL_NS};
use metis::net::IpAddr;
use metis::probes::{ProbeEvent, ProbeRequirement};
use metis::sink::TelegrafMetricsPusher;

const SOCK: u64 = 0xffff_8880_1234_0000;

fn module() -> MysqlModule {
    MysqlModule::new(TelegrafMetricsPusher::new(MetricProtocol::Influx), vec![3306])
}

fn ip4(o: [u8; 4]) -> [u8; 16] {
    let mut ip = [0u8; 16];
    ip[..4].copy_from_slice(&o);
    ip
}

fn send(socket: u64, ts: u64, payload: Vec<u8>) -> ProbeEvent {
    ProbeEvent::TcpSendMsg {
        dest_ip: ip4([10, 0, 0, 5]),
        ip_family: 4,
        dest_port: 3306,
        socket_ptr: socket,
        timestamp_ns: ts,
        payload,
    }
}

fn command(cmd: u8, text: &str) -> Vec<u8> {
    let mut p = vec![0, 0, 0, 0, cmd];
    p.extend_from_slice(text.as_bytes());
    p
}

fn handshake(username: &str, db: Option<&str>) -> Vec<u8> {
    let mut caps: u32 = CLIENT_PROTOCOL_41 | CLIENT_SECURE_CONNECTION;
    if db.is_some() {
        caps |= CLIENT_CONNECT_WITH_DB;
    }
    let mut p = vec![0x00, 0x00, 0x00, 0x01];
    p.extend_from_slice(&caps.to_le_bytes());
    p.extend_from_slice(&[0x00, 0x00, 0x00, 0x01]);
    p.push(0x21);
    p.extend_from_slice(&[0u8; 23]);
    p.extend_from_slice(username.as_bytes());
    p.push(0);
    p.push(0x14);
    p.extend_from_slice(&[0u8; 20]);
    if let Some(d) = db {
        p.extend_from_slice(d.as_bytes());
        p.push(0);
    }
    p
}

fn response(socket: u64, ts: u64) -> ProbeEvent {
    ProbeEvent::SockDefReadable { socket_ptr: socket, timestamp_ns: ts, response_head: vec![1, 0, 0, 1] }
}

#[test]
fn query_latency_reported_with_connection_state() {
    let mut m = module();
    let mut cache = DnsCache::new();
    assert!(m.on_event_at(&send(SOCK, 100, handshake("alice", Some("shop"))), 1, &mut cache).is_none());
    assert!(m.on_event_at(&send(SOCK, 1_000, command(3, "SELECT * FROM t WHERE id=42")), 2, &mut cache).is_none());
    let r = m.on_event_at(&response(SOCK, 3_501_000), 3, &mut cache).expect("reported");
    assert_eq!(r.username, "alice");
    assert_eq!(r.db, "shop");
    assert_eq!(r.query, "SELECT * FROM t WHERE id=?");
    assert_eq!(r.latency_ns, 3_500_000);
    assert_eq!(r.dest_port, 3306);
    assert_eq!(r.ip_family, 4);
    assert_eq!(r.dest_ip, ip4([10, 0, 0, 5]));
    assert_eq!(r.domain, None);
}

#[test]
fn second_response_reports_nothing() {
    let mut m = module();
    let mut cache = DnsCache::new();
    m.on_event_at(&send(SOCK, 10, command(3, "SELECT 1")), 0, &mut cache);
    assert!(m.on_event_at(&response(SOCK, 20), 0, &mut cache).is_some());
    assert!(m.on_event_at(&response(SOCK, 30), 0, &mut cache).is_none());
}

#[test]
fn response_on_other_socket_reports_nothing() {
    let mut m = module();
    let mut cache = DnsCache::new();
    m.on_event_at(&send(SOCK, 10, command(3, "SELECT 1")), 0, &mut cache);
    assert!(m.on_event_at(&response(SOCK + 8, 20), 0, &mut cache).is_none());
    assert!(m.on_event_at(&response(SOCK, 20), 0, &mut cache).is_some());
}

#[test]
fn init_db_changes_database_of_later_queries() {
    let mut m = module();
    let mut cache = DnsCache::new();
    m.on_event_at(&send(SOCK, 1, handshake("bob", Some("first"))), 0, &mut cache);
    m.on_event_at(&send(SOCK, 2, command(2, "second")), 0, &mut cache);
    m.on_event_at(&send(SOCK, 3, command(3, "SELECT 'x'")), 0, &mut cache);
    let r = m.on_event_at(&response(SOCK, 9), 0, &mut cache).unwrap();
    assert_eq!(r.db, "second");
    assert_eq!(r.username, "bob");
    assert_eq!(r.query, "SELECT ?");
    assert_eq!(r.latency_ns, 6);
}

#[test]
fn handshake_without_db_keeps_database() {
    let mut m = module();
    let mut cache = DnsCache::new();
    m.on_event_at(&send(SOCK, 1, command(2, "kept")), 0, &mut cache);
    m.on_event_at(&send(SOCK, 2, handshake("carol", None)), 0, &mut cache);
    m.on_event_at(&send(SOCK, 3, command(3, "SELECT 2")), 0, &mut cache);
    let r = m.on_event_at(&response(SOCK, 4), 0, &mut cache).unwrap();
    assert_eq!(r.db, "kept");
    assert_eq!(r.username, "carol");
}

#[test]
fn unknown_connection_reports_empty_identity() {
    let mut m = module();
    let mut cache = DnsCache::new();
    m.on_event_at(&send(SOCK, 5, command(3, "DELETE FROM t")), 0, &mut cache);
    let r = m.on_event_at(&response(SOCK, 4), 0, &mut cache).unwrap();
    assert_eq!(r.username, "");
    assert_eq!(r.db, "");
    // a response stamped before the send gives zero latency
    assert_eq!(r.latency_ns, 0);
}

#[test]
fn empty_query_is_not_reported() {
    let mut m = module();
    let mut cache = DnsCache::new();
    m.on_event_at(&send(SOCK, 5, command(3, "")), 0, &mut cache);
    assert!(m.on_event_at(&response(SOCK, 9), 0, &mut cache).is_none());
}

#[test]
fn other_commands_and_short_payloads_change_nothing() {
    let mut m = module();
    let mut cache = DnsCache::new();
    m.on_event_at(&send(SOCK, 5, command(0x0e, "ping")), 0, &mut cache);
    m.on_event_at(&send(SOCK, 5, vec![0, 0, 0]), 0, &mut cache);
    m.on_event_at(&send(SOCK, 5, vec![0, 0, 0, 0]), 0, &mut cache);
    assert!(m.on_event_at(&response(SOCK, 9), 0, &mut cache).is_none());
}

#[test]
fn stale_query_expires_on_next_query() {
    let mut m = module();
    let mut cache = DnsCache::new();
    m.on_event_at(&send(SOCK, 1, command(3, "SELECT 1")), 0, &mut cache);
    // another socket's query, a full TTL later, expires the first one
    m.on_event_at(&send(SOCK + 8, 2, command(3, "SELECT 2")), PENDING_TTL_NS, &mut cache);
    assert!(m.on_event_at(&response(SOCK, 3), 0, &mut cache).is_none());
    assert!(m.on_event_at(&response(SOCK + 8, 3), 0, &mut cache).is_some());
}

#[test]
fn young_query_survives_expiry_pass() {
    let mut m = module();
    let mut cache = DnsCache::new();
    m.on_event_at(&send(SOCK, 1, command(3, "SELECT 1")), 0, &mut cache);
    m.on_event_at(&send(SOCK + 8, 2, command(3, "SELECT 2")), PENDING_TTL_NS - 1, &mut cache);
    assert!(m.on_event_at(&response(SOCK, 3), 0, &mut cache).is_some());
}

#[test]
fn replaced_query_is_not_expired_by_old_queue_entry() {
    let mut m = module();
    let mut cache = DnsCache::new();
    m.on_event_at(&send(SOCK, 1, command(3, "SELECT 1")), 0, &mut cache);
    m.on_event_at(&send(SOCK, 2, command(3, "SELECT 'new'")), 10, &mut cache);
    // the first queue entry is now stale, but it no longer matches the pending query
    m.on_event_at(&send(SOCK + 8, 3, command(3, "SELECT 3")), PENDING_TTL_NS, &mut cache);
    let r = m.on_event_at(&response(SOCK, 4), 0, &mut cache).unwrap();
    assert_eq!(r.query, "SELECT ?");
    assert_eq!(r.latency_ns, 2);
}

#[test]
fn reported_query_carries_cached_domain() {
    let mut m = module();
    let mut cache = DnsCache::new();
    cache.insert(IpAddr::V4(u32::from_be_bytes([10, 0, 0, 5])), "db.internal".to_string());
    m.on_event_at(&send(SOCK, 1, command(3, "SELECT 1")), 0, &mut cache);
    let r = m.on_event_at(&response(SOCK, 2), 0, &mut cache).unwrap();
    assert_eq!(r.domain.as_deref(), Some("db.internal"));
}

#[test]
fn on_event_uses_the_clock() {
    let mut m = module();
    let mut cache = DnsCache::new();
    m.on_event(&send(SOCK, 100, command(3, "SELECT 1")), &mut cache);
    let r = m.on_event(&response(SOCK, 250), &mut cache).unwrap();
    assert_eq!(r.latency_ns, 150);
}

#[test]
fn latency_line_for_reported_query() {
    let mut m = module();
    let mut cache = DnsCache::new();
    m.on_event_at(&send(SOCK, 0, handshake("alice", Some("shop"))), 0, &mut cache);
    m.on_event_at(&send(SOCK, 1_000_000, command(3, "SELECT 1")), 0, &mut cache);
    let r = m.on_event_at(&response(SOCK, 3_500_000), 0, &mut cache).unwrap();
    let lines = m.sink().push_mysql_query_latency(r.dest_ip, r.ip_family, r.dest_port, &r.db, &r.query, "2.5", r.domain.as_deref());
    assert_eq!(lines, vec!["mysql_query_latency,port=3306,db_ip=10.0.0.5,db=shop,query=SELECT\\ ? latency_ms=2.5".to_string()]);
}

#[test]
fn mysql_module_name_and_probes() {
    let m = module();
    assert_eq!(m.name(), "mysql");
    let probes = m.required_probes();
    assert_eq!(probes.len(), 2);
    assert!(matches!(&probes[0], ProbeRequirement::TcpSendMsg { dest_ports: Some(p) } if p == &vec![3306]));
    assert!(matches!(&probes[1], ProbeRequirement::SockDefReadable { dest_ports: None }));
}

#[test]
fn query_survives_other_sockets_traffic() {
    let mut m = module();
    let mut cache = DnsCache::new();
    m.on_event_at(&send(SOCK, 1_000, command(3, "SELECT * FROM a WHERE x=1")), 5, &mut cache);
    m.on_event_at(&send(SOCK + 8, 1_100, handshake("eve", None)), 6, &mut cache);
    m.on_event_at(&send(SOCK + 8, 1_200, command(3, "SELECT 2")), PENDING_TTL_NS + 4, &mut cache);
    assert!(m.on_event_at(&response(SOCK + 8, 1_300), 7, &mut cache).is_some());
    let r = m.on_event_at(&response(SOCK, 2_000), 8, &mut cache).unwrap();
    assert_eq!(r.query, "SELECT * FROM a WHERE x=?");
    assert_eq!(r.latency_ns, 1_000);
}
