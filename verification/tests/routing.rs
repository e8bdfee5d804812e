use metis::assembler::KProbeAssembler;
use metis::common::KProbeChunk;
use metis::net::IpAddr;
use metis::orchestrator::{absorb, build, PortConfig};
use metis::probes::{ProbeEvent, ProbeRequirement, ProbeType, ReadableTcpReceiveResetEvent};
use metis::router::RouteTable;

fn send_msg(port: u16) -> ProbeEvent {
    ProbeEvent::TcpSendMsg { dest_ip: [0; 16], ip_family: 4, dest_port: port, socket_ptr: 1, timestamp_ns: 0, payload: vec![] }
}

fn receive_reset(port: u16) -> ProbeEvent {
    ProbeEvent::TcpReceiveReset(ReadableTcpReceiveResetEvent {
        pid: 0,
        skaddr: 0,
        sport: 1,
        dport: port,
        family: 2,
        src_ip: IpAddr::V4(0),
        dst_ip: IpAddr::V4(0),
        sock_cookie: 0,
    })
}

fn ports(p: &Option<PortConfig>) -> Option<Vec<u16>> {
    p.as_ref().map(|c| c.to_bpf_ports())
}

#[test]
fn module_registered_twice_is_dispatched_once() {
    let mut t = RouteTable::new();
    t.register(ProbeType::TcpSendMsg, None, 0);
    t.register(ProbeType::TcpSendMsg, Some(3306), 0);
    t.register(ProbeType::TcpSendMsg, Some(3306), 1);
    assert_eq!(t.dispatch(&send_msg(3306)), vec![0, 1]);
    assert_eq!(t.dispatch(&send_msg(80)), vec![0]);
    assert_eq!(t.dispatch(&receive_reset(3306)), Vec::<usize>::new());
}

#[test]
fn events_without_port_go_to_wildcard_routes_only() {
    let mut t = RouteTable::new();
    t.register(ProbeType::SockDefReadable, None, 2);
    t.register(ProbeType::SockDefReadable, Some(0), 3);
    let e = ProbeEvent::SockDefReadable { socket_ptr: 1, timestamp_ns: 2, response_head: vec![] };
    assert_eq!(t.dispatch(&e), vec![2]);
}

#[test]
fn build_registers_and_merges() {
    let reqs = vec![
        // a TCP module for all ports
        vec![
            ProbeRequirement::TcpProbe { dest_ports: None },
            ProbeRequirement::TcpReceiveReset { dest_ports: None },
        ],
        // a MySQL module on 3306
        vec![
            ProbeRequirement::TcpSendMsg { dest_ports: Some(vec![3306]) },
            ProbeRequirement::SockDefReadable { dest_ports: None },
        ],
        // an HTTP module on 8080 and 80
        vec![ProbeRequirement::TcpSendMsg { dest_ports: Some(vec![8080, 80, 3306]) }],
    ];
    let (table, cfg) = build(&reqs);
    assert!(cfg.tcp_probe);
    assert!(!cfg.tcp_send_reset);
    assert!(cfg.sock_def_readable);
    assert_eq!(ports(&cfg.tcp_receive_reset), Some(vec![0]));
    assert_eq!(ports(&cfg.tcp_retransmit_skb), None);
    assert_eq!(ports(&cfg.tcp_send_msg), Some(vec![80, 3306, 8080]));
    assert_eq!(ports(&cfg.udp_recvmsg), None);
    assert_eq!(table.dispatch(&send_msg(3306)), vec![1, 2]);
    assert_eq!(table.dispatch(&send_msg(8080)), vec![2]);
    assert_eq!(table.dispatch(&send_msg(22)), Vec::<usize>::new());
    assert_eq!(table.dispatch(&receive_reset(22)), vec![0]);
}

#[test]
fn absorb_merges_port_sets() {
    let mut c: Option<PortConfig> = None;
    absorb(&mut c, Some(vec![443, 80]));
    // the first request is kept as it came
    assert_eq!(ports(&c), Some(vec![443, 80]));
    absorb(&mut c, Some(vec![80, 22]));
    assert_eq!(ports(&c), Some(vec![22, 80, 443]));
    absorb(&mut c, None);
    assert_eq!(ports(&c), Some(vec![0]));
    absorb(&mut c, Some(vec![1]));
    assert_eq!(ports(&c), Some(vec![0]));
    let mut d: Option<PortConfig> = None;
    absorb(&mut d, None);
    assert_eq!(ports(&d), Some(vec![0]));
}

#[test]
fn absorb_is_order_free() {
    let reqs = [Some(vec![5432, 80]), Some(vec![80, 443]), None];
    for a in &reqs {
        for b in &reqs {
            let mut x: Option<PortConfig> = None;
            absorb(&mut x, a.clone());
            absorb(&mut x, b.clone());
            let mut y: Option<PortConfig> = None;
            absorb(&mut y, b.clone());
            absorb(&mut y, a.clone());
            assert_eq!(ports(&x), ports(&y));
        }
    }
}

#[test]
fn empty_port_list_filters_nothing_in_the_kernel() {
    assert_eq!(PortConfig::Specific(vec![]).to_bpf_ports(), vec![0]);
    assert_eq!(PortConfig::Specific(vec![22]).to_bpf_ports(), vec![22]);
    assert_eq!(PortConfig::All.to_bpf_ports(), vec![0]);
}

fn chunk(socket: u64, ts: u64, data: &[u8], complete: bool) -> KProbeChunk {
    let mut buf = [0u8; 1024];
    buf[..data.len()].copy_from_slice(data);
    let mut ip = [0u8; 16];
    ip[..4].copy_from_slice(&[10, 1, 2, 3]);
    KProbeChunk {
        socket_ptr: socket,
        timestamp_ns: ts,
        dest_ip: ip,
        dest_port: 3306,
        ip_family: 4,
        complete,
        len: data.len() as u16,
        data: buf,
    }
}

#[test]
fn chunks_are_reassembled_per_socket() {
    let mut a = KProbeAssembler::new();
    assert!(a.ingest(&chunk(1, 100, b"SELE", false)).is_none());
    assert!(a.ingest(&chunk(2, 150, b"other", false)).is_none());
    assert!(a.ingest(&chunk(1, 200, b"CT 1", false)).is_none());
    match a.ingest(&chunk(1, 300, b";", true)) {
        Some(ProbeEvent::TcpSendMsg { socket_ptr, timestamp_ns, payload, dest_port, ip_family, dest_ip }) => {
            assert_eq!(socket_ptr, 1);
            // the first chunk's timestamp is the send time
            assert_eq!(timestamp_ns, 100);
            assert_eq!(payload, b"SELECT 1;".to_vec());
            assert_eq!((dest_port, ip_family), (3306, 4));
            assert_eq!(&dest_ip[..4], &[10, 1, 2, 3]);
        }
        _ => panic!("expected a completed send"),
    }
    // socket 1 starts over; socket 2 is still open
    match a.ingest(&chunk(1, 400, b"x", true)) {
        Some(ProbeEvent::TcpSendMsg { payload, timestamp_ns, .. }) => {
            assert_eq!(payload, b"x".to_vec());
            assert_eq!(timestamp_ns, 400);
        }
        _ => panic!("expected a completed send"),
    }
    match a.ingest(&chunk(2, 500, b"", true)) {
        Some(ProbeEvent::TcpSendMsg { payload, .. }) => assert_eq!(payload, b"other".to_vec()),
        _ => panic!("expected a completed send"),
    }
}
