use metis::config::MetricProtocol;
use metis::net::{ip_to_string, IpAddr};
use metis::probes::{
    ReadableTCPProbeEvent, ReadableTCPRetransmitSkbEvent, ReadableTcpReceiveResetEvent, ReadableTcpSendResetEvent,
};
use metis::sink::{influx_tag, statsd_val, StatsdTags, TelegrafMetricsPusher};

fn v4(o: [u8; 4]) -> IpAddr {
    IpAddr::V4(u32::from_be_bytes(o))
}

fn v6(o: [u16; 8]) -> IpAddr {
    let mut x: u128 = 0;
    for g in o {
        x = (x << 16) | g as u128;
    }
    IpAddr::V6(x)
}

fn influx() -> TelegrafMetricsPusher {
    TelegrafMetricsPusher::new(MetricProtocol::Influx)
}

fn statsd() -> TelegrafMetricsPusher {
    TelegrafMetricsPusher::new(MetricProtocol::Statsd)
}

fn probe_event() -> ReadableTCPProbeEvent {
    ReadableTCPProbeEvent {
        pid: 100,
        tgid: 101,
        common_pid: 100,
        src_addr: v4([10, 0, 0, 1]),
        dest_addr: v4([93, 184, 216, 34]),
        src_port: 40000,
        dest_port: 443,
        family: 2,
        mark: 0,
        data_len: 1448,
        snd_nxt: 0,
        snd_una: 0,
        snd_cwnd: 10,
        ssthresh: 2147483647,
        snd_wnd: 65535,
        srtt_us: 1200,
        rcv_wnd: 64240,
        sock_cookie: 7,
        skbaddr: 0,
        skaddr: 0,
    }
}

#[test]
fn influx_tag_escapes_separators() {
    assert_eq!(influx_tag("a b,c=d"), "a\\ b\\,c\\=d");
    assert_eq!(influx_tag(""), "");
    assert_eq!(statsd_val("fe80::1,x"), "fe80__1_x");
}

#[test]
fn statsd_tags_join_and_skip_empty_options() {
    let mut t = StatsdTags::new();
    assert_eq!(t.suffix(), "");
    t.add("a", "1");
    t.add_opt("b", None);
    t.add_opt("c", Some(""));
    t.add_opt("d", Some("x:y"));
    assert_eq!(t.suffix(), "|#a:1,d:x_y");
}

#[test]
fn tcp_probe_influx_line() {
    let lines = influx().push_tcp_probe(&probe_event(), Some("example.com"));
    assert_eq!(
        lines,
        vec![
            "bpf_tcp_probe,src_ip=10.0.0.1,dest_ip=93.184.216.34,domain=example.com,family=2,pid=100,tgid=101,\
             src_port=40000,dest_port=443 data_len=1448u,snd_cwnd=10u,ssthresh=2147483647u,snd_wnd=65535u,\
             srtt_us=1200u,rcv_wnd=64240u"
                .to_string()
        ]
    );
}

#[test]
fn tcp_probe_statsd_lines() {
    let lines = statsd().push_tcp_probe(&probe_event(), None);
    let sfx = "|#src_ip:10.0.0.1,dest_ip:93.184.216.34,family:2,pid:100,tgid:101,src_port:40000,dest_port:443";
    let expected: Vec<String> = vec![
        format!("bpf_tcp_probe.data_len:1448|g{}", sfx),
        format!("bpf_tcp_probe.snd_cwnd:10|g{}", sfx),
        format!("bpf_tcp_probe.ssthresh:2147483647|g{}", sfx),
        format!("bpf_tcp_probe.snd_wnd:65535|g{}", sfx),
        format!("bpf_tcp_probe.srtt_us:1200|g{}", sfx),
        format!("bpf_tcp_probe.rcv_wnd:64240|g{}", sfx),
        format!("bpf_tcp_probe:1|c{}", sfx),
    ];
    assert_eq!(lines, expected);
}

#[test]
fn retransmit_lines() {
    let e = ReadableTCPRetransmitSkbEvent {
        pid: -1,
        skbaddr: 1,
        skaddr: 2,
        state: 1,
        err: -11,
        family: 10,
        source_ip: v6([0x2001, 0xdb8, 0, 0, 0, 0, 0, 1]),
        destination_ip: v6([0x2001, 0xdb8, 0, 0, 0, 0, 0, 2]),
        source_port: 1234,
        destination_port: 80,
    };
    assert_eq!(
        influx().push_tcp_retransmit_skb(&e, None),
        vec!["bpf_tcp_retransmit_skb,src_ip=2001:db8::1,dest_ip=2001:db8::2,family=10,state=1,pid=-1,src_port=1234,dest_port=80,err=-11 count=1i".to_string()]
    );
    assert_eq!(
        statsd().push_tcp_retransmit_skb(&e, Some("h")),
        vec!["bpf_tcp_retransmit_skb:1|c|#src_ip:2001_db8__1,dest_ip:2001_db8__2,domain:h,family:10,state:1,pid:-1,src_port:1234,dest_port:80,err:-11".to_string()]
    );
}

#[test]
fn send_reset_lines() {
    let e = ReadableTcpSendResetEvent {
        pid: 9,
        state: "TCP_ESTABLISHED",
        reason: "NOT_SPECIFIED",
        skbaddr: 0,
        skaddr: 0,
        src_ip: v4([1, 2, 3, 4]),
        dst_ip: v4([5, 6, 7, 8]),
        src_port: 10,
        dst_port: 20,
    };
    assert_eq!(
        influx().push_tcp_send_reset(&e, Some("a b")),
        vec!["bpf_tcp_send_reset,src_ip=1.2.3.4,dest_ip=5.6.7.8,domain=a\\ b,state=TCP_ESTABLISHED,reason=NOT_SPECIFIED,pid=9,src_port=10,dst_port=20 count=1i".to_string()]
    );
    assert_eq!(
        statsd().push_tcp_send_reset(&e, None),
        vec!["bpf_tcp_send_reset:1|c|#src_ip:1.2.3.4,dest_ip:5.6.7.8,state:TCP_ESTABLISHED,reason:NOT_SPECIFIED,pid:9,src_port:10,dst_port:20".to_string()]
    );
}

#[test]
fn receive_reset_lines() {
    let e = ReadableTcpReceiveResetEvent {
        pid: 3,
        skaddr: 18446744073709551615,
        sport: 5000,
        dport: 443,
        family: 2,
        src_ip: v4([10, 0, 0, 1]),
        dst_ip: v4([10, 0, 0, 2]),
        sock_cookie: 9,
    };
    assert_eq!(
        influx().push_tcp_receive_reset(&e, Some("")),
        vec!["bpf_tcp_receive_reset,src_ip=10.0.0.1,dest_ip=10.0.0.2,family=2,pid=3,src_port=5000,dest_port=443,skaddr=18446744073709551615,sock_cookie=9 count=1i".to_string()]
    );
    assert_eq!(
        statsd().push_tcp_receive_reset(&e, Some("x.y")),
        vec!["bpf_tcp_receive_reset:1|c|#src_ip:10.0.0.1,dest_ip:10.0.0.2,domain:x.y,family:2,pid:3,src_port:5000,dest_port:443,skaddr:18446744073709551615,sock_cookie:9".to_string()]
    );
}

#[test]
fn mysql_latency_lines() {
    let mut ip6 = [0u8; 16];
    ip6[15] = 1;
    assert_eq!(
        influx().push_mysql_query_latency(ip6, 6, 3306, "", "SELECT ?", "1.25", None),
        vec!["mysql_query_latency,port=3306,db_ip=::1,query=SELECT\\ ? latency_ms=1.25".to_string()]
    );
    let mut ip4 = [0u8; 16];
    ip4[..4].copy_from_slice(&[192, 168, 1, 9]);
    assert_eq!(
        statsd().push_mysql_query_latency(ip4, 4, 3306, "app", "SELECT ?", "0.5", Some("db")),
        vec!["mysql_query_latency:0.5|ms|#port:3306,db_ip:192.168.1.9,db:app,domain:db,query:SELECT ?".to_string()]
    );
    // an unknown family gives no address tag
    assert_eq!(
        influx().push_mysql_query_latency([0u8; 16], 0, 1, "d", "q", "2", None),
        vec!["mysql_query_latency,port=1,db=d,query=q latency_ms=2".to_string()]
    );
}

#[test]
fn dns_lines() {
    let ips = [v4([1, 2, 3, 4]), v4([5, 6, 7, 8])];
    assert_eq!(
        influx().push_dns_query("example.com", 0, v4([10, 0, 0, 1]), &ips),
        vec!["dns_query,domain=example.com,rcode=NOERROR,querier_ip=10.0.0.1,resolved_ips=1.2.3.4&5.6.7.8 count=1i".to_string()]
    );
    assert_eq!(
        statsd().push_dns_query("example.com", 3, v4([10, 0, 0, 1]), &[]),
        vec!["dns_query:1|c|#domain:example.com,rcode:NXDOMAIN,querier_ip:10.0.0.1".to_string()]
    );
    assert_eq!(
        influx().push_dns_query("x", 9, v4([0, 0, 0, 0]), &[]),
        vec!["dns_query,domain=x,rcode=UNKNOWN,querier_ip=0.0.0.0 count=1i".to_string()]
    );
}

#[test]
fn ipv6_text_is_canonical() {
    let cases: [([u16; 8], &str); 8] = [
        ([0, 0, 0, 0, 0, 0, 0, 0], "::"),
        ([0, 0, 0, 0, 0, 0, 0, 1], "::1"),
        ([0x2001, 0xdb8, 0, 0, 0, 0, 0, 1], "2001:db8::1"),
        ([1, 0, 0, 2, 0, 0, 0, 3], "1:0:0:2::3"),
        ([1, 0, 0, 2, 3, 0, 0, 4], "1::2:3:0:0:4"),
        ([1, 0, 2, 3, 4, 5, 6, 7], "1:0:2:3:4:5:6:7"),
        ([0xfe80, 0, 0, 0, 0x1ff, 0xfe23, 0x4567, 0x890a], "fe80::1ff:fe23:4567:890a"),
        ([0, 0, 0, 0, 0, 0xffff, 0x0102, 0x0304], "::ffff:1.2.3.4"),
    ];
    for (g, text) in cases {
        assert_eq!(ip_to_string(&v6(g)), text);
    }
    assert_eq!(ip_to_string(&v4([255, 0, 10, 1])), "255.0.10.1");
}
