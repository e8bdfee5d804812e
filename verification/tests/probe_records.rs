use metis::common::{KProbeChunk, TCPProbeEvent, TcpResponseEvent, UdpPacketEvent};
use metis::net::IpAddr;
use metis::probes::{
    decode_reset_reason, decode_tcp_state, parse_ip, parse_port, response_event, retransmit_event, send_reset_event,
    tcp_probe_event, udp_event, ProbeEvent, ProbeType, RawTcpReceiveReset, RawTcpRetransmitSkb, ReadableTCPProbeEvent,
    ReadableTCPRetransmitSkbEvent, ReadableTcpReceiveResetEvent,
};

fn v4(o: [u8; 4]) -> IpAddr {
    IpAddr::V4(u32::from_be_bytes(o))
}

fn put(buf: &mut [u8], at: usize, bytes: &[u8]) {
    buf[at..at + bytes.len()].copy_from_slice(bytes);
}

fn sockaddr_in(port: u16, ip: [u8; 4]) -> [u8; 28] {
    let mut s = [0u8; 28];
    put(&mut s, 0, &2u16.to_le_bytes());
    put(&mut s, 2, &port.to_be_bytes());
    put(&mut s, 4, &ip);
    s
}

#[test]
fn tcp_probe_record_is_decoded() {
    let mut b = [0u8; 152];
    put(&mut b, 4, &(-5i32).to_le_bytes());
    put(&mut b, 8, &sockaddr_in(40000, [10, 0, 0, 1]));
    put(&mut b, 36, &sockaddr_in(443, [10, 0, 0, 2]));
    put(&mut b, 64, &40000u16.to_le_bytes());
    put(&mut b, 66, &443u16.to_le_bytes());
    put(&mut b, 68, &2u16.to_le_bytes());
    put(&mut b, 72, &7u32.to_le_bytes());
    put(&mut b, 76, &1448u16.to_le_bytes());
    put(&mut b, 88, &10u32.to_le_bytes());
    put(&mut b, 100, &1200u32.to_le_bytes());
    put(&mut b, 104, &64240u32.to_le_bytes());
    put(&mut b, 112, &99u64.to_le_bytes());
    put(&mut b, 128, &0xdead_beefu64.to_le_bytes());
    let raw = TCPProbeEvent { pid: 11, tgid: 12, ctx_buf: b };
    let e = ReadableTCPProbeEvent::try_from_raw(&raw).unwrap();
    assert_eq!((e.pid, e.tgid, e.common_pid), (11, 12, -5));
    assert_eq!(e.src_addr, v4([10, 0, 0, 1]));
    assert_eq!(e.dest_addr, v4([10, 0, 0, 2]));
    assert_eq!((e.src_port, e.dest_port, e.family, e.mark, e.data_len), (40000, 443, 2, 7, 1448));
    assert_eq!((e.snd_cwnd, e.srtt_us, e.rcv_wnd, e.sock_cookie, e.skaddr), (10, 1200, 64240, 99, 0xdead_beef));
    match tcp_probe_event(&raw) {
        Some(ProbeEvent::TcpProbe(x)) => assert_eq!(x, e),
        _ => panic!("expected a tcp_probe event"),
    }
}

#[test]
fn tcp_probe_unknown_family_has_unspecified_addresses() {
    let mut b = [0u8; 152];
    put(&mut b, 68, &1u16.to_le_bytes());
    let e = ReadableTCPProbeEvent::try_from_raw(&TCPProbeEvent { pid: 0, tgid: 0, ctx_buf: b }).unwrap();
    assert_eq!(e.src_addr, IpAddr::V4(0));
    assert_eq!(e.dest_addr, IpAddr::V4(0));
}

#[test]
fn sockaddr_addresses_and_ports() {
    assert_eq!(parse_ip(&sockaddr_in(80, [1, 2, 3, 4])), v4([1, 2, 3, 4]));
    assert_eq!(parse_port(&sockaddr_in(8080, [1, 2, 3, 4])), 8080);
    let mut s6 = [0u8; 28];
    put(&mut s6, 0, &10u16.to_le_bytes());
    put(&mut s6, 8, &[0x20, 0x01, 0x0d, 0xb8, 0, 0, 0, 0, 0, 0, 0, 0, 0, 0, 0, 1]);
    assert_eq!(parse_ip(&s6), IpAddr::V6(0x2001_0db8_0000_0000_0000_0000_0000_0001));
    // an IPv4-mapped IPv6 address is read as IPv4
    put(&mut s6, 8, &[0, 0, 0, 0, 0, 0, 0, 0, 0, 0, 0xff, 0xff, 9, 8, 7, 6]);
    assert_eq!(parse_ip(&s6), v4([9, 8, 7, 6]));
    // any other family: the first four bytes
    let mut other = [0u8; 28];
    put(&mut other, 0, &[7, 0, 1, 2]);
    assert_eq!(parse_ip(&other), v4([7, 0, 1, 2]));
}

#[test]
fn state_and_reason_names() {
    assert_eq!(decode_tcp_state(1), "ESTABLISHED");
    assert_eq!(decode_tcp_state(12), "NEW_SYN_RECV");
    assert_eq!(decode_tcp_state(0), "UNKNOWN");
    assert_eq!(decode_tcp_state(-1), "UNKNOWN");
    assert_eq!(decode_reset_reason(0), "NOT_SPECIFIED");
    assert_eq!(decode_reset_reason(16), "DISCONNECT_WITH_DATA");
    assert_eq!(decode_reset_reason(17), "UNKNOWN");
}

#[test]
fn send_reset_record_is_decoded() {
    let mut b = [0u8; 152];
    put(&mut b, 4, &42i32.to_le_bytes());
    put(&mut b, 24, &1i32.to_le_bytes());
    put(&mut b, 28, &6i32.to_le_bytes());
    put(&mut b, 32, &sockaddr_in(1000, [1, 1, 1, 1]));
    put(&mut b, 60, &sockaddr_in(2000, [2, 2, 2, 2]));
    match send_reset_event(&TCPProbeEvent { pid: 0, tgid: 0, ctx_buf: b }) {
        Some(ProbeEvent::TcpSendReset(e)) => {
            assert_eq!((e.pid, e.state, e.reason), (42, "ESTABLISHED", "FLAGS"));
            assert_eq!((e.src_ip, e.dst_ip, e.src_port, e.dst_port), (v4([1, 1, 1, 1]), v4([2, 2, 2, 2]), 1000, 2000));
        }
        _ => panic!("expected a send-reset event"),
    }
}

#[test]
fn receive_reset_record_is_decoded() {
    let mut b = [0u8; 72];
    put(&mut b, 16, &5000u16.to_le_bytes());
    put(&mut b, 18, &443u16.to_le_bytes());
    put(&mut b, 20, &2u16.to_le_bytes());
    put(&mut b, 22, &[10, 0, 0, 1]);
    put(&mut b, 26, &[10, 0, 0, 2]);
    put(&mut b, 64, &77u64.to_le_bytes());
    assert!(RawTcpReceiveReset::from_bytes(&b[..71]).is_none());
    let raw = RawTcpReceiveReset::from_bytes(&b).unwrap();
    let e = ReadableTcpReceiveResetEvent::from(raw);
    assert_eq!((e.sport, e.dport, e.family, e.sock_cookie), (5000, 443, 2, 77));
    assert_eq!((e.src_ip, e.dst_ip), (v4([10, 0, 0, 1]), v4([10, 0, 0, 2])));
}

#[test]
fn udp_records_become_events() {
    let mut raw = UdpPacketEvent { src_port: 53, len: 3, ip_family: 4, _pad: [0; 3], dest_ip: [0; 16], data: [0; 512] };
    raw.dest_ip[..4].copy_from_slice(&[127, 0, 0, 53]);
    raw.data[..3].copy_from_slice(&[1, 2, 3]);
    match udp_event(&raw) {
        Some(ProbeEvent::UdpRecvMsg { src_port, dest_ip, payload }) => {
            assert_eq!(src_port, 53);
            assert_eq!(dest_ip, v4([127, 0, 0, 53]));
            assert_eq!(payload, vec![1, 2, 3]);
        }
        _ => panic!("expected a UDP event"),
    }
    raw.len = 0;
    assert!(udp_event(&raw).is_none());
    raw.len = 513;
    assert!(udp_event(&raw).is_none());
}

#[test]
fn response_records_keep_their_head() {
    let mut raw = TcpResponseEvent { socket_ptr: 5, timestamp_ns: 6, data_len: 4, _pad: [0; 6], data: [9; 128] };
    match response_event(&raw) {
        ProbeEvent::SockDefReadable { socket_ptr, timestamp_ns, response_head } => {
            assert_eq!((socket_ptr, timestamp_ns), (5, 6));
            assert_eq!(response_head, vec![9; 4]);
        }
        _ => panic!("expected a response event"),
    }
    raw.data_len = 1000;
    match response_event(&raw) {
        ProbeEvent::SockDefReadable { response_head, .. } => assert_eq!(response_head.len(), 128),
        _ => panic!("expected a response event"),
    }
    assert_eq!(response_event(&raw).probe_type(), ProbeType::SockDefReadable);
    assert_eq!(response_event(&raw).dest_port(), None);
}

#[test]
fn ring_buffer_records_are_read_in_c_layout() {
    let mut b = vec![0u8; 1064];
    put(&mut b, 0, &0x1122_3344_5566_7788u64.to_le_bytes());
    put(&mut b, 8, &99u64.to_le_bytes());
    put(&mut b, 16, &[10, 0, 0, 9]);
    put(&mut b, 32, &3306u16.to_le_bytes());
    b[34] = 4;
    b[35] = 1;
    put(&mut b, 36, &3u16.to_le_bytes());
    put(&mut b, 38, b"abc");
    let c = KProbeChunk::from_bytes(&b).unwrap();
    assert_eq!((c.socket_ptr, c.timestamp_ns, c.dest_port, c.ip_family, c.complete, c.len), (0x1122_3344_5566_7788, 99, 3306, 4, true, 3));
    assert_eq!(&c.dest_ip[..4], &[10, 0, 0, 9]);
    assert_eq!(&c.data[..3], b"abc");
    assert!(KProbeChunk::from_bytes(&b[..1061]).is_none());

    let mut r = vec![0u8; 152];
    put(&mut r, 0, &7u64.to_le_bytes());
    put(&mut r, 8, &8u64.to_le_bytes());
    put(&mut r, 16, &2u16.to_le_bytes());
    put(&mut r, 24, &[0xAA, 0xBB]);
    let e = TcpResponseEvent::from_bytes(&r).unwrap();
    assert_eq!((e.socket_ptr, e.timestamp_ns, e.data_len, e.data[0], e.data[1]), (7, 8, 2, 0xAA, 0xBB));
    assert!(TcpResponseEvent::from_bytes(&r[..151]).is_none());

    let mut u = vec![0u8; 536];
    put(&mut u, 0, &53u16.to_le_bytes());
    put(&mut u, 2, &1u16.to_le_bytes());
    u[4] = 6;
    u[23] = 1;
    u[24] = 0x42;
    let p = UdpPacketEvent::from_bytes(&u).unwrap();
    assert_eq!((p.src_port, p.len, p.ip_family, p.dest_ip[15], p.data[0]), (53, 1, 6, 1, 0x42));
    assert!(UdpPacketEvent::from_bytes(&u[..535]).is_none());

    let mut t = vec![0u8; 160];
    put(&mut t, 0, &5u32.to_le_bytes());
    put(&mut t, 4, &6u32.to_le_bytes());
    t[159] = 9;
    let x = TCPProbeEvent::from_bytes(&t).unwrap();
    assert_eq!((x.pid, x.tgid, x.ctx_buf[151]), (5, 6, 9));
    assert!(TCPProbeEvent::from_bytes(&t[..159]).is_none());
}

#[test]
fn retransmit_record_is_decoded() {
    let mut b = [0u8; 152];
    put(&mut b, 4, &(-3i32).to_le_bytes());
    put(&mut b, 24, &1i32.to_le_bytes());
    put(&mut b, 28, &40000u16.to_le_bytes());
    put(&mut b, 30, &443u16.to_le_bytes());
    put(&mut b, 32, &10u16.to_le_bytes());
    put(&mut b, 42, &[0xfe, 0x80, 0, 0, 0, 0, 0, 0, 0, 0, 0, 0, 0, 0, 0, 1]);
    put(&mut b, 58, &[0xfe, 0x80, 0, 0, 0, 0, 0, 0, 0, 0, 0, 0, 0, 0, 0, 2]);
    put(&mut b, 76, &(-110i32).to_le_bytes());
    let raw = RawTcpRetransmitSkb::from_bytes(&b).unwrap();
    let e = ReadableTCPRetransmitSkbEvent::from(raw);
    assert_eq!((e.pid, e.state, e.err, e.family, e.source_port, e.destination_port), (-3, 1, -110, 10, 40000, 443));
    assert_eq!(e.source_ip, IpAddr::V6(0xfe80_0000_0000_0000_0000_0000_0000_0001));
    assert_eq!(e.destination_ip, IpAddr::V6(0xfe80_0000_0000_0000_0000_0000_0000_0002));
    match retransmit_event(&TCPProbeEvent { pid: 0, tgid: 0, ctx_buf: b }) {
        Some(ProbeEvent::TcpRetransmitSkb(x)) => assert_eq!(x, e),
        _ => panic!("expected a retransmit event"),
    }
    assert!(RawTcpRetransmitSkb::from_bytes(&b[..79]).is_none());
}
