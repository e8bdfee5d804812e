//! What modules ask of the probe layer, the probes themselves (their port
//! filters), and the events they deliver, decoded from the kernel records.

use vstd::prelude::*;
use crate::bytes::{as_signed32, be16, le16, le32, le64, read_be16, read_le16, read_le32, read_le64, read_le_i32};
use crate::common::{TCPProbeEvent, TcpResponseEvent, UdpPacketEvent};
use crate::net::{IpAddr, be32, be128, read_be32, read_be128, spec_fmt_ip, fmt_ip};

verus! {

/// What a module needs from the probe layer.
/// `dest_ports: None` means receive events for all ports (no port filter).
#[derive(Clone, Debug)]
pub enum ProbeRequirement {
    TcpSendMsg { dest_ports: Option<Vec<u16>> },
    TcpProbe { dest_ports: Option<Vec<u16>> },
    TcpRetransmitSkb { dest_ports: Option<Vec<u16>> },
    TcpSendReset { dest_ports: Option<Vec<u16>> },
    TcpReceiveReset { dest_ports: Option<Vec<u16>> },
    /// Fires when the first response packet arrives on a tracked socket.
    /// Filtering is implicit via QUERY_START_TIMES (populated by TcpSendMsg).
    SockDefReadable { dest_ports: Option<Vec<u16>> },
    /// Inbound UDP packets, filtered on their source port.
    UdpRecvMsg { src_ports: Option<Vec<u16>> },
}

/// Probe identity without payload — used as the routing table key.
#[derive(Debug, Clone, Copy, PartialEq, Eq, Hash, Structural)]
pub enum ProbeType {
    TcpSendMsg,
    TcpProbe,
    TcpRetransmitSkb,
    TcpSendReset,
    TcpReceiveReset,
    SockDefReadable,
    UdpRecvMsg,
}

// ── probes (kernel-side attachment happens in the agent binary) ──────────────

/// The `tcp_probe` tracepoint (no port filter).
pub struct TcpProbe;

/// The `tcp_send_reset` tracepoint (no port filter).
pub struct TcpSendReset;

/// The `sock_def_readable` kprobe.
pub struct SockDefReadableProbe;

/// The `tcp_receive_reset` tracepoint, filtered on destination ports
/// (port 0 = all ports).
pub struct TcpReceiveReset {
    pub ports: Vec<u16>,
}

impl TcpReceiveReset {
    pub fn new(ports: Vec<u16>) -> (r: Self)
        ensures
            r.ports@ == ports@,
    {
        Self { ports }
    }
}

/// The `tcp_retransmit_skb` tracepoint, filtered on destination ports
/// (port 0 = all ports).
pub struct TcpRetransmitSkb {
    pub ports: Vec<u16>,
}

impl TcpRetransmitSkb {
    pub fn new(ports: Vec<u16>) -> (r: Self)
        ensures
            r.ports@ == ports@,
    {
        Self { ports }
    }
}

/// The `tcp_sendmsg` kprobe, filtered on destination ports (port 0 = all).
pub struct TcpSendMsgProbe {
    pub ports: Vec<u16>,
}

impl TcpSendMsgProbe {
    pub fn new(ports: Vec<u16>) -> (r: Self)
        ensures
            r.ports@ == ports@,
    {
        Self { ports }
    }
}

/// The `udp_recvmsg`/`udpv6_recvmsg` kprobes.
pub struct UdpRecvMsgProbe {
    /// Source ports to capture; empty = use wildcard (key 0 in the BPF map).
    pub src_ports: Vec<u16>,
}

impl UdpRecvMsgProbe {
    pub fn new(src_ports: Vec<u16>) -> (r: Self)
        ensures
            r.src_ports@ == src_ports@,
    {
        Self { src_ports }
    }
}

// ── tcp_probe ────────────────────────────────────────────────────────────────

#[derive(Debug, Clone, Copy, PartialEq, Eq, Structural)]
pub struct ReadableTCPProbeEvent {
    pub pid: u32,
    pub tgid: u32,
    pub common_pid: i32,
    pub src_addr: IpAddr,
    pub dest_addr: IpAddr,
    pub src_port: u16,
    pub dest_port: u16,
    pub family: u16,
    pub mark: u32,
    pub data_len: u16,
    pub snd_nxt: u32,
    pub snd_una: u32,
    pub snd_cwnd: u32,
    pub ssthresh: u32,
    pub snd_wnd: u32,
    pub srtt_us: u32,
    pub rcv_wnd: u32,
    pub sock_cookie: u64,
    pub skbaddr: u64,
    pub skaddr: u64,
}

/// Address in a 28-byte `sockaddr_in`/`sockaddr_in6` image at `off` of the
/// tcp_probe record, read according to the record's address family.
pub open spec fn probe_addr(buf: Seq<u8>, off: int, family: int) -> IpAddr {
    if family == 2 {
        IpAddr::V4(be32(buf, off + 4) as u32)
    } else if family == 10 {
        IpAddr::V6(be128(buf, off + 8) as u128)
    } else {
        IpAddr::V4(0)
    }
}

/// The tcp_probe tracepoint record (packed layout): pid at 4, addresses at 8
/// and 36, ports at 64 and 66, family at 68, mark at 72, data_len at 76, the
/// sequence and window fields from 80, and the cookie and addresses from 112.
pub open spec fn spec_tcp_probe(pid: u32, tgid: u32, buf: Seq<u8>) -> ReadableTCPProbeEvent {
    let family = le16(buf, 68);
    ReadableTCPProbeEvent {
        pid,
        tgid,
        common_pid: as_signed32(le32(buf, 4)) as i32,
        src_addr: probe_addr(buf, 8, family),
        dest_addr: probe_addr(buf, 36, family),
        src_port: le16(buf, 64) as u16,
        dest_port: le16(buf, 66) as u16,
        family: family as u16,
        mark: le32(buf, 72) as u32,
        data_len: le16(buf, 76) as u16,
        snd_nxt: le32(buf, 80) as u32,
        snd_una: le32(buf, 84) as u32,
        snd_cwnd: le32(buf, 88) as u32,
        ssthresh: le32(buf, 92) as u32,
        snd_wnd: le32(buf, 96) as u32,
        srtt_us: le32(buf, 100) as u32,
        rcv_wnd: le32(buf, 104) as u32,
        sock_cookie: le64(buf, 112) as u64,
        skbaddr: le64(buf, 120) as u64,
        skaddr: le64(buf, 128) as u64,
    }
}

fn read_probe_addr(buf: &[u8], off: usize, family: u16) -> (r: IpAddr)
    requires
        off + 28 <= buf.len(),
    ensures
        r == probe_addr(buf@, off as int, family as int),
{
    if family == 2 {
        IpAddr::V4(read_be32(buf, off + 4))
    } else if family == 10 {
        IpAddr::V6(read_be128(buf, off + 8))
    } else {
        IpAddr::V4(0)
    }
}

impl ReadableTCPProbeEvent {
    /// Decodes the tracepoint record carried in `ctx_buf`; the record fits,
    /// so this always succeeds.
    pub fn try_from_raw(event: &TCPProbeEvent) -> (r: Option<Self>)
        ensures
            r == Some(spec_tcp_probe(event.pid, event.tgid, event.ctx_buf@)),
    {
        let buf = event.ctx_buf.as_slice();
        let family = read_le16(buf, 68);
        Some(ReadableTCPProbeEvent {
            pid: event.pid,
            tgid: event.tgid,
            common_pid: read_le_i32(buf, 4),
            src_addr: read_probe_addr(buf, 8, family),
            dest_addr: read_probe_addr(buf, 36, family),
            src_port: read_le16(buf, 64),
            dest_port: read_le16(buf, 66),
            family,
            mark: read_le32(buf, 72),
            data_len: read_le16(buf, 76),
            snd_nxt: read_le32(buf, 80),
            snd_una: read_le32(buf, 84),
            snd_cwnd: read_le32(buf, 88),
            ssthresh: read_le32(buf, 92),
            snd_wnd: read_le32(buf, 96),
            srtt_us: read_le32(buf, 100),
            rcv_wnd: read_le32(buf, 104),
            sock_cookie: read_le64(buf, 112),
            skbaddr: read_le64(buf, 120),
            skaddr: read_le64(buf, 128),
        })
    }
}

// ── tcp_retransmit_skb ───────────────────────────────────────────────────────

/// The tcp_retransmit_skb tracepoint record (C layout, 80 bytes).
#[derive(Debug, Clone, Copy)]
pub struct RawTcpRetransmitSkb {
    pub common_type: u16,
    pub common_flags: u8,
    pub common_preempt_count: u8,
    pub common_pid: i32,
    pub skbaddr: u64,
    pub skaddr: u64,
    pub state: i32,
    pub sport: u16,
    pub dport: u16,
    pub family: u16,
    pub saddr: [u8; 4],
    pub daddr: [u8; 4],
    pub saddr_v6: [u8; 16],
    pub daddr_v6: [u8; 16],
    pub err: i32,
}

fn copy4(buf: &[u8], at: usize) -> (r: [u8; 4])
    requires
        at + 4 <= buf.len(),
    ensures
        r@ == buf@.subrange(at as int, at + 4),
{
    let r = [buf[at], buf[at + 1], buf[at + 2], buf[at + 3]];
    assert(r@ == buf@.subrange(at as int, at + 4));
    r
}

fn copy16(buf: &[u8], at: usize) -> (r: [u8; 16])
    requires
        at + 16 <= buf.len(),
    ensures
        r@ == buf@.subrange(at as int, at + 16),
{
    let r = [
        buf[at],
        buf[at + 1],
        buf[at + 2],
        buf[at + 3],
        buf[at + 4],
        buf[at + 5],
        buf[at + 6],
        buf[at + 7],
        buf[at + 8],
        buf[at + 9],
        buf[at + 10],
        buf[at + 11],
        buf[at + 12],
        buf[at + 13],
        buf[at + 14],
        buf[at + 15],
    ];
    assert(r@ == buf@.subrange(at as int, at + 16));
    r
}

impl RawTcpRetransmitSkb {
    /// Field values of the record at the start of `buf`.
    pub open spec fn decodes(self, buf: Seq<u8>) -> bool {
        &&& self.common_type == le16(buf, 0)
        &&& self.common_flags == buf[2]
        &&& self.common_preempt_count == buf[3]
        &&& self.common_pid == as_signed32(le32(buf, 4))
        &&& self.skbaddr == le64(buf, 8)
        &&& self.skaddr == le64(buf, 16)
        &&& self.state == as_signed32(le32(buf, 24))
        &&& self.sport == le16(buf, 28)
        &&& self.dport == le16(buf, 30)
        &&& self.family == le16(buf, 32)
        &&& self.saddr@ == buf.subrange(34, 38)
        &&& self.daddr@ == buf.subrange(38, 42)
        &&& self.saddr_v6@ == buf.subrange(42, 58)
        &&& self.daddr_v6@ == buf.subrange(58, 74)
        &&& self.err == as_signed32(le32(buf, 76))
    }

    /// Decodes the record; None when `buf` is shorter than it (80 bytes).
    pub fn from_bytes(buf: &[u8]) -> (r: Option<Self>)
        ensures
            buf@.len() < 80 ==> r is None,
            buf@.len() >= 80 ==> (r matches Some(raw) && raw.decodes(buf@)),
    {
        if buf.len() < 80 {
            return None;
        }
        Some(RawTcpRetransmitSkb {
            common_type: read_le16(buf, 0),
            common_flags: buf[2],
            common_preempt_count: buf[3],
            common_pid: read_le_i32(buf, 4),
            skbaddr: read_le64(buf, 8),
            skaddr: read_le64(buf, 16),
            state: read_le_i32(buf, 24),
            sport: read_le16(buf, 28),
            dport: read_le16(buf, 30),
            family: read_le16(buf, 32),
            saddr: copy4(buf, 34),
            daddr: copy4(buf, 38),
            saddr_v6: copy16(buf, 42),
            daddr_v6: copy16(buf, 58),
            err: read_le_i32(buf, 76),
        })
    }
}

#[derive(Debug, Clone, Copy, PartialEq, Eq, Structural)]
pub struct ReadableTCPRetransmitSkbEvent {
    pub pid: i32,
    pub skbaddr: u64,
    pub skaddr: u64,
    pub state: i32,
    pub err: i32,
    pub family: u16,
    pub source_ip: IpAddr,
    pub destination_ip: IpAddr,
    pub source_port: u16,
    pub destination_port: u16,
}

/// Source and destination address of a retransmit record: IPv4 for family 2,
/// IPv6 for family 10, the unspecified IPv4 address otherwise.
pub open spec fn retransmit_addrs(r: RawTcpRetransmitSkb) -> (IpAddr, IpAddr) {
    if r.family == 2 {
        (IpAddr::V4(be32(r.saddr@, 0) as u32), IpAddr::V4(be32(r.daddr@, 0) as u32))
    } else if r.family == 10 {
        (IpAddr::V6(be128(r.saddr_v6@, 0) as u128), IpAddr::V6(be128(r.daddr_v6@, 0) as u128))
    } else {
        (IpAddr::V4(0), IpAddr::V4(0))
    }
}

impl ReadableTCPRetransmitSkbEvent {
    pub open spec fn spec_from_raw(r: RawTcpRetransmitSkb) -> Self {
        ReadableTCPRetransmitSkbEvent {
            pid: r.common_pid,
            skbaddr: r.skbaddr,
            skaddr: r.skaddr,
            state: r.state,
            err: r.err,
            family: r.family,
            source_ip: retransmit_addrs(r).0,
            destination_ip: retransmit_addrs(r).1,
            source_port: r.sport,
            destination_port: r.dport,
        }
    }

    pub fn from_raw(r: RawTcpRetransmitSkb) -> (e: Self)
        ensures
            e == Self::spec_from_raw(r),
    {
        let (source_ip, destination_ip) = if r.family == 2 {
            (IpAddr::V4(read_be32(r.saddr.as_slice(), 0)), IpAddr::V4(read_be32(r.daddr.as_slice(), 0)))
        } else if r.family == 10 {
            (IpAddr::V6(read_be128(r.saddr_v6.as_slice(), 0)), IpAddr::V6(read_be128(r.daddr_v6.as_slice(), 0)))
        } else {
            (IpAddr::V4(0), IpAddr::V4(0))
        };
        ReadableTCPRetransmitSkbEvent {
            pid: r.common_pid,
            skbaddr: r.skbaddr,
            skaddr: r.skaddr,
            state: r.state,
            err: r.err,
            family: r.family,
            source_ip,
            destination_ip,
            source_port: r.sport,
            destination_port: r.dport,
        }
    }
}

impl From<RawTcpRetransmitSkb> for ReadableTCPRetransmitSkbEvent {
    fn from(r: RawTcpRetransmitSkb) -> (e: Self) {
        Self::from_raw(r)
    }
}

impl vstd::std_specs::convert::FromSpecImpl<RawTcpRetransmitSkb> for ReadableTCPRetransmitSkbEvent {
    open spec fn obeys_from_spec() -> bool {
        true
    }

    open spec fn from_spec(r: RawTcpRetransmitSkb) -> Self {
        Self::spec_from_raw(r)
    }
}

// ── tcp_receive_reset ────────────────────────────────────────────────────────

/// The tcp_receive_reset tracepoint record (C layout, 72 bytes).
#[derive(Debug, Clone, Copy)]
pub struct RawTcpReceiveReset {
    pub common_type: u16,
    pub common_flags: u8,
    pub common_preempt_count: u8,
    pub common_pid: i32,
    pub skaddr: u64,
    pub sport: u16,
    pub dport: u16,
    pub family: u16,
    pub saddr_v4: [u8; 4],
    pub daddr_v4: [u8; 4],
    pub saddr_v6: [u8; 16],
    pub daddr_v6: [u8; 16],
    pub sock_cookie: u64,
}

impl RawTcpReceiveReset {
    /// Field values of the record at the start of `buf`.
    pub open spec fn decodes(self, buf: Seq<u8>) -> bool {
        &&& self.common_type == le16(buf, 0)
        &&& self.common_flags == buf[2]
        &&& self.common_preempt_count == buf[3]
        &&& self.common_pid == as_signed32(le32(buf, 4))
        &&& self.skaddr == le64(buf, 8)
        &&& self.sport == le16(buf, 16)
        &&& self.dport == le16(buf, 18)
        &&& self.family == le16(buf, 20)
        &&& self.saddr_v4@ == buf.subrange(22, 26)
        &&& self.daddr_v4@ == buf.subrange(26, 30)
        &&& self.saddr_v6@ == buf.subrange(30, 46)
        &&& self.daddr_v6@ == buf.subrange(46, 62)
        &&& self.sock_cookie == le64(buf, 64)
    }

    /// Decodes the record; None when `buf` is shorter than it (72 bytes).
    pub fn from_bytes(buf: &[u8]) -> (r: Option<Self>)
        ensures
            buf@.len() < 72 ==> r is None,
            buf@.len() >= 72 ==> (r matches Some(raw) && raw.decodes(buf@)),
    {
        if buf.len() < 72 {
            return None;
        }
        Some(RawTcpReceiveReset {
            common_type: read_le16(buf, 0),
            common_flags: buf[2],
            common_preempt_count: buf[3],
            common_pid: read_le_i32(buf, 4),
            skaddr: read_le64(buf, 8),
            sport: read_le16(buf, 16),
            dport: read_le16(buf, 18),
            family: read_le16(buf, 20),
            saddr_v4: copy4(buf, 22),
            daddr_v4: copy4(buf, 26),
            saddr_v6: copy16(buf, 30),
            daddr_v6: copy16(buf, 46),
            sock_cookie: read_le64(buf, 64),
        })
    }
}

#[derive(Debug, Clone, Copy, PartialEq, Eq, Structural)]
pub struct ReadableTcpReceiveResetEvent {
    pub pid: i32,
    pub skaddr: u64,
    pub sport: u16,
    pub dport: u16,
    pub family: u16,
    pub src_ip: IpAddr,
    pub dst_ip: IpAddr,
    pub sock_cookie: u64,
}

/// Address of a reset record: IPv4 for family 2, IPv6 for family 10; for any
/// other family IPv4 when the IPv6 bytes are all zero, IPv6 otherwise.
pub open spec fn reset_ip(family: u16, v4: Seq<u8>, v6: Seq<u8>) -> IpAddr {
    if family == 2 {
        IpAddr::V4(be32(v4, 0) as u32)
    } else if family == 10 {
        IpAddr::V6(be128(v6, 0) as u128)
    } else if forall|k: int| 0 <= k < 16 ==> v6[k] == 0 {
        IpAddr::V4(be32(v4, 0) as u32)
    } else {
        IpAddr::V6(be128(v6, 0) as u128)
    }
}

pub fn parse_reset_ip(family: u16, v4: &[u8; 4], v6: &[u8; 16]) -> (r: IpAddr)
    ensures
        r == reset_ip(family, v4@, v6@),
{
    if family == 2 {
        IpAddr::V4(read_be32(v4.as_slice(), 0))
    } else if family == 10 {
        IpAddr::V6(read_be128(v6.as_slice(), 0))
    } else {
        let mut all_zero = true;
        let mut k: usize = 0;
        while k < 16
            invariant
                k <= 16,
                v6@.len() == 16,
                all_zero <==> forall|j: int| 0 <= j < k ==> v6@[j] == 0,
            decreases 16 - k,
        {
            if v6[k] != 0 {
                all_zero = false;
            }
            k += 1;
        }
        if all_zero {
            IpAddr::V4(read_be32(v4.as_slice(), 0))
        } else {
            IpAddr::V6(read_be128(v6.as_slice(), 0))
        }
    }
}

impl ReadableTcpReceiveResetEvent {
    pub open spec fn spec_from_raw(r: RawTcpReceiveReset) -> Self {
        ReadableTcpReceiveResetEvent {
            pid: r.common_pid,
            skaddr: r.skaddr,
            sport: r.sport,
            dport: r.dport,
            family: r.family,
            src_ip: reset_ip(r.family, r.saddr_v4@, r.saddr_v6@),
            dst_ip: reset_ip(r.family, r.daddr_v4@, r.daddr_v6@),
            sock_cookie: r.sock_cookie,
        }
    }

    pub fn from_raw(r: RawTcpReceiveReset) -> (e: Self)
        ensures
            e == Self::spec_from_raw(r),
    {
        let src_ip = parse_reset_ip(r.family, &r.saddr_v4, &r.saddr_v6);
        let dst_ip = parse_reset_ip(r.family, &r.daddr_v4, &r.daddr_v6);
        ReadableTcpReceiveResetEvent {
            pid: r.common_pid,
            skaddr: r.skaddr,
            sport: r.sport,
            dport: r.dport,
            family: r.family,
            src_ip,
            dst_ip,
            sock_cookie: r.sock_cookie,
        }
    }
}

impl From<RawTcpReceiveReset> for ReadableTcpReceiveResetEvent {
    fn from(r: RawTcpReceiveReset) -> (e: Self) {
        Self::from_raw(r)
    }
}

impl vstd::std_specs::convert::FromSpecImpl<RawTcpReceiveReset> for ReadableTcpReceiveResetEvent {
    open spec fn obeys_from_spec() -> bool {
        true
    }

    open spec fn from_spec(r: RawTcpReceiveReset) -> Self {
        Self::spec_from_raw(r)
    }
}

// ── tcp_send_reset ───────────────────────────────────────────────────────────

/// The tcp_send_reset tracepoint record (C layout, 88 bytes); the addresses
/// are `sockaddr_in`/`sockaddr_in6` images of 28 bytes.
#[derive(Debug, Clone, Copy)]
pub struct RawTcpSendReset {
    pub common_type: u16,
    pub common_flags: u8,
    pub common_preempt_count: u8,
    pub common_pid: i32,
    pub skbaddr: u64,
    pub skaddr: u64,
    pub state: i32,
    pub reason: i32,
    pub saddr: [u8; 28],
    pub daddr: [u8; 28],
}

fn copy28(buf: &[u8], at: usize) -> (r: [u8; 28])
    requires
        at + 28 <= buf.len(),
    ensures
        r@ == buf@.subrange(at as int, at + 28),
{
    let mut r = [0u8; 28];
    let mut k: usize = 0;
    while k < 28
        invariant
            k <= 28,
            at + 28 <= buf.len(),
            r@.len() == 28,
            forall|j: int| 0 <= j < k ==> r@[j] == buf@[at + j],
        decreases 28 - k,
    {
        r[k] = buf[at + k];
        k += 1;
    }
    assert(r@ == buf@.subrange(at as int, at + 28));
    r
}

impl RawTcpSendReset {
    /// Field values of the record at the start of `buf`.
    pub open spec fn decodes(self, buf: Seq<u8>) -> bool {
        &&& self.common_type == le16(buf, 0)
        &&& self.common_flags == buf[2]
        &&& self.common_preempt_count == buf[3]
        &&& self.common_pid == as_signed32(le32(buf, 4))
        &&& self.skbaddr == le64(buf, 8)
        &&& self.skaddr == le64(buf, 16)
        &&& self.state == as_signed32(le32(buf, 24))
        &&& self.reason == as_signed32(le32(buf, 28))
        &&& self.saddr@ == buf.subrange(32, 60)
        &&& self.daddr@ == buf.subrange(60, 88)
    }

    /// Decodes the record; None when `buf` is shorter than it (88 bytes).
    pub fn from_bytes(buf: &[u8]) -> (r: Option<Self>)
        ensures
            buf@.len() < 88 ==> r is None,
            buf@.len() >= 88 ==> (r matches Some(raw) && raw.decodes(buf@)),
    {
        if buf.len() < 88 {
            return None;
        }
        Some(RawTcpSendReset {
            common_type: read_le16(buf, 0),
            common_flags: buf[2],
            common_preempt_count: buf[3],
            common_pid: read_le_i32(buf, 4),
            skbaddr: read_le64(buf, 8),
            skaddr: read_le64(buf, 16),
            state: read_le_i32(buf, 24),
            reason: read_le_i32(buf, 28),
            saddr: copy28(buf, 32),
            daddr: copy28(buf, 60),
        })
    }
}

/// Address in a `sockaddr` image: its family (native order) at 0; IPv4 at 4;
/// IPv6 at 8, as IPv4 when it is IPv4-mapped; for another family the first
/// four bytes read as an IPv4 address.
pub open spec fn sockaddr_ip(b: Seq<u8>) -> IpAddr {
    let family = le16(b, 0);
    if family == 2 {
        IpAddr::V4(be32(b, 4) as u32)
    } else if family == 10 {
        if (forall|k: int| 8 <= k < 18 ==> b[k] == 0) && b[18] == 0xff && b[19] == 0xff {
            IpAddr::V4(be32(b, 20) as u32)
        } else {
            IpAddr::V6(be128(b, 8) as u128)
        }
    } else {
        IpAddr::V4(be32(b, 0) as u32)
    }
}

pub fn parse_ip(buf: &[u8; 28]) -> (r: IpAddr)
    ensures
        r == sockaddr_ip(buf@),
{
    let b = buf.as_slice();
    let family = read_le16(b, 0);
    if family == 2 {
        IpAddr::V4(read_be32(b, 4))
    } else if family == 10 {
        let mut zeros = true;
        let mut k: usize = 8;
        while k < 18
            invariant
                8 <= k <= 18,
                b@ == buf@,
                b@.len() == 28,
                zeros <==> forall|j: int| 8 <= j < k ==> b@[j] == 0,
            decreases 18 - k,
        {
            if b[k] != 0 {
                zeros = false;
            }
            k += 1;
        }
        if zeros && b[18] == 0xff && b[19] == 0xff {
            IpAddr::V4(read_be32(b, 20))
        } else {
            IpAddr::V6(read_be128(b, 8))
        }
    } else {
        IpAddr::V4(read_be32(b, 0))
    }
}

/// Port of a `sockaddr` image (network order at 2).
pub fn parse_port(buf: &[u8; 28]) -> (r: u16)
    ensures
        r == be16(buf@, 2),
{
    read_be16(buf.as_slice(), 2)
}

/// Name of a kernel TCP state.
pub open spec fn tcp_state_name(v: i32) -> Seq<char> {
    if v == 1 {
        "ESTABLISHED"@
    } else if v == 2 {
        "SYN_SENT"@
    } else if v == 3 {
        "SYN_RECV"@
    } else if v == 4 {
        "FIN_WAIT1"@
    } else if v == 5 {
        "FIN_WAIT2"@
    } else if v == 6 {
        "TIME_WAIT"@
    } else if v == 7 {
        "CLOSE"@
    } else if v == 8 {
        "CLOSE_WAIT"@
    } else if v == 9 {
        "LAST_ACK"@
    } else if v == 10 {
        "LISTEN"@
    } else if v == 11 {
        "CLOSING"@
    } else if v == 12 {
        "NEW_SYN_RECV"@
    } else {
        "UNKNOWN"@
    }
}

pub fn decode_tcp_state(v: i32) -> (r: &'static str)
    ensures
        r@ == tcp_state_name(v),
{
    match v {
        1 => "ESTABLISHED",
        2 => "SYN_SENT",
        3 => "SYN_RECV",
        4 => "FIN_WAIT1",
        5 => "FIN_WAIT2",
        6 => "TIME_WAIT",
        7 => "CLOSE",
        8 => "CLOSE_WAIT",
        9 => "LAST_ACK",
        10 => "LISTEN",
        11 => "CLOSING",
        12 => "NEW_SYN_RECV",
        _ => "UNKNOWN",
    }
}

/// Name of a kernel reset reason.
pub open spec fn reset_reason_name(v: i32) -> Seq<char> {
    if v == 0 {
        "NOT_SPECIFIED"@
    } else if v == 1 {
        "NO_SOCKET"@
    } else if v == 2 {
        "INVALID_ACK_SEQUENCE"@
    } else if v == 3 {
        "RFC7323_PAWS"@
    } else if v == 4 {
        "TOO_OLD_ACK"@
    } else if v == 5 {
        "ACK_UNSENT_DATA"@
    } else if v == 6 {
        "FLAGS"@
    } else if v == 7 {
        "OLD_ACK"@
    } else if v == 8 {
        "ABORT_ON_DATA"@
    } else if v == 9 {
        "TIMEWAIT_SOCKET"@
    } else if v == 10 {
        "INVALID_SYN"@
    } else if v == 11 {
        "ABORT_ON_CLOSE"@
    } else if v == 12 {
        "ABORT_ON_LINGER"@
    } else if v == 13 {
        "ABORT_ON_MEMORY"@
    } else if v == 14 {
        "STATE"@
    } else if v == 15 {
        "KEEPALIVE_TIMEOUT"@
    } else if v == 16 {
        "DISCONNECT_WITH_DATA"@
    } else {
        "UNKNOWN"@
    }
}

pub fn decode_reset_reason(v: i32) -> (r: &'static str)
    ensures
        r@ == reset_reason_name(v),
{
    match v {
        0 => "NOT_SPECIFIED",
        1 => "NO_SOCKET",
        2 => "INVALID_ACK_SEQUENCE",
        3 => "RFC7323_PAWS",
        4 => "TOO_OLD_ACK",
        5 => "ACK_UNSENT_DATA",
        6 => "FLAGS",
        7 => "OLD_ACK",
        8 => "ABORT_ON_DATA",
        9 => "TIMEWAIT_SOCKET",
        10 => "INVALID_SYN",
        11 => "ABORT_ON_CLOSE",
        12 => "ABORT_ON_LINGER",
        13 => "ABORT_ON_MEMORY",
        14 => "STATE",
        15 => "KEEPALIVE_TIMEOUT",
        16 => "DISCONNECT_WITH_DATA",
        _ => "UNKNOWN",
    }
}

#[derive(Debug, Clone, Copy)]
pub struct ReadableTcpSendResetEvent {
    pub pid: i32,
    pub state: &'static str,
    pub reason: &'static str,
    pub skbaddr: u64,
    pub skaddr: u64,
    pub src_ip: IpAddr,
    pub dst_ip: IpAddr,
    pub src_port: u16,
    pub dst_port: u16,
}

impl ReadableTcpSendResetEvent {
    /// The event a record gives, field by field.
    pub open spec fn from_raw_spec(self, r: RawTcpSendReset) -> bool {
        &&& self.pid == r.common_pid
        &&& self.state@ == tcp_state_name(r.state)
        &&& self.reason@ == reset_reason_name(r.reason)
        &&& self.skbaddr == r.skbaddr
        &&& self.skaddr == r.skaddr
        &&& self.src_ip == sockaddr_ip(r.saddr@)
        &&& self.dst_ip == sockaddr_ip(r.daddr@)
        &&& self.src_port == be16(r.saddr@, 2)
        &&& self.dst_port == be16(r.daddr@, 2)
    }

    pub fn from_raw(r: RawTcpSendReset) -> (e: Self)
        ensures
            e.from_raw_spec(r),
    {
        ReadableTcpSendResetEvent {
            pid: r.common_pid,
            state: decode_tcp_state(r.state),
            reason: decode_reset_reason(r.reason),
            skbaddr: r.skbaddr,
            skaddr: r.skaddr,
            src_ip: parse_ip(&r.saddr),
            dst_ip: parse_ip(&r.daddr),
            src_port: parse_port(&r.saddr),
            dst_port: parse_port(&r.daddr),
        }
    }
}

// ── events ───────────────────────────────────────────────────────────────────

/// A fully-decoded, module-ready event.
#[allow(inconsistent_fields)]
#[derive(Clone, Debug)]
pub enum ProbeEvent {
    TcpProbe(ReadableTCPProbeEvent),
    TcpRetransmitSkb(ReadableTCPRetransmitSkbEvent),
    TcpSendReset(ReadableTcpSendResetEvent),
    TcpReceiveReset(ReadableTcpReceiveResetEvent),
    /// Reassembled payload from one or more `KProbeChunk`s.
    TcpSendMsg {
        dest_ip: [u8; 16],
        ip_family: u8,
        dest_port: u16,
        socket_ptr: u64,
        timestamp_ns: u64,
        payload: Vec<u8>,
    },
    /// First inbound packet on a tracked socket; correlate with TcpSendMsg via socket_ptr.
    SockDefReadable { socket_ptr: u64, timestamp_ns: u64, response_head: Vec<u8> },
    /// An inbound UDP packet from a filtered source port.
    UdpRecvMsg { src_port: u16, dest_ip: IpAddr, payload: Vec<u8> },
}

impl ProbeEvent {
    pub open spec fn spec_probe_type(&self) -> ProbeType {
        match self {
            ProbeEvent::TcpProbe(_) => ProbeType::TcpProbe,
            ProbeEvent::TcpRetransmitSkb(_) => ProbeType::TcpRetransmitSkb,
            ProbeEvent::TcpSendReset(_) => ProbeType::TcpSendReset,
            ProbeEvent::TcpReceiveReset(_) => ProbeType::TcpReceiveReset,
            ProbeEvent::TcpSendMsg { .. } => ProbeType::TcpSendMsg,
            ProbeEvent::SockDefReadable { .. } => ProbeType::SockDefReadable,
            ProbeEvent::UdpRecvMsg { .. } => ProbeType::UdpRecvMsg,
        }
    }

    pub fn probe_type(&self) -> (t: ProbeType)
        ensures
            t == self.spec_probe_type(),
    {
        match self {
            ProbeEvent::TcpProbe(_) => ProbeType::TcpProbe,
            ProbeEvent::TcpRetransmitSkb(_) => ProbeType::TcpRetransmitSkb,
            ProbeEvent::TcpSendReset(_) => ProbeType::TcpSendReset,
            ProbeEvent::TcpReceiveReset(_) => ProbeType::TcpReceiveReset,
            ProbeEvent::TcpSendMsg { .. } => ProbeType::TcpSendMsg,
            ProbeEvent::SockDefReadable { .. } => ProbeType::SockDefReadable,
            ProbeEvent::UdpRecvMsg { .. } => ProbeType::UdpRecvMsg,
        }
    }

    /// The port routes filter this event on: the destination port, or for a
    /// UDP packet its source port; none for `SockDefReadable`.
    pub open spec fn spec_dest_port(&self) -> Option<u16> {
        match self {
            ProbeEvent::TcpProbe(e) => Some(e.dest_port),
            ProbeEvent::TcpRetransmitSkb(e) => Some(e.destination_port),
            ProbeEvent::TcpSendReset(e) => Some(e.dst_port),
            ProbeEvent::TcpReceiveReset(e) => Some(e.dport),
            ProbeEvent::TcpSendMsg { dest_port, .. } => Some(*dest_port),
            ProbeEvent::SockDefReadable { .. } => None,
            ProbeEvent::UdpRecvMsg { src_port, .. } => Some(*src_port),
        }
    }

    pub fn dest_port(&self) -> (p: Option<u16>)
        ensures
            p == self.spec_dest_port(),
    {
        match self {
            ProbeEvent::TcpProbe(e) => Some(e.dest_port),
            ProbeEvent::TcpRetransmitSkb(e) => Some(e.destination_port),
            ProbeEvent::TcpSendReset(e) => Some(e.dst_port),
            ProbeEvent::TcpReceiveReset(e) => Some(e.dport),
            ProbeEvent::TcpSendMsg { dest_port, .. } => Some(*dest_port),
            ProbeEvent::SockDefReadable { .. } => None,
            ProbeEvent::UdpRecvMsg { src_port, .. } => Some(*src_port),
        }
    }
}

/// The event for a `tcp_retransmit_skb` record (always decodable).
pub fn retransmit_event(raw: &TCPProbeEvent) -> (e: Option<ProbeEvent>)
    ensures
        e matches Some(ProbeEvent::TcpRetransmitSkb(r)) && exists|x: RawTcpRetransmitSkb|
            x.decodes(raw.ctx_buf@) && r == ReadableTCPRetransmitSkbEvent::spec_from_raw(x),
{
    match RawTcpRetransmitSkb::from_bytes(raw.ctx_buf.as_slice()) {
        Some(inner) => Some(ProbeEvent::TcpRetransmitSkb(ReadableTCPRetransmitSkbEvent::from_raw(inner))),
        None => None,
    }
}

/// The event for a `tcp_receive_reset` record (always decodable).
pub fn receive_reset_event(raw: &TCPProbeEvent) -> (e: Option<ProbeEvent>)
    ensures
        e matches Some(ProbeEvent::TcpReceiveReset(r)) && exists|x: RawTcpReceiveReset|
            x.decodes(raw.ctx_buf@) && r == ReadableTcpReceiveResetEvent::spec_from_raw(x),
{
    match RawTcpReceiveReset::from_bytes(raw.ctx_buf.as_slice()) {
        Some(inner) => Some(ProbeEvent::TcpReceiveReset(ReadableTcpReceiveResetEvent::from_raw(inner))),
        None => None,
    }
}

/// The event for a `tcp_send_reset` record (always decodable).
pub fn send_reset_event(raw: &TCPProbeEvent) -> (e: Option<ProbeEvent>)
    ensures
        e matches Some(ProbeEvent::TcpSendReset(r)) && exists|x: RawTcpSendReset|
            x.decodes(raw.ctx_buf@) && r.from_raw_spec(x),
{
    match RawTcpSendReset::from_bytes(raw.ctx_buf.as_slice()) {
        Some(inner) => Some(ProbeEvent::TcpSendReset(ReadableTcpSendResetEvent::from_raw(inner))),
        None => None,
    }
}

/// The event for a `tcp_probe` record (always decodable).
pub fn tcp_probe_event(raw: &TCPProbeEvent) -> (e: Option<ProbeEvent>)
    ensures
        e == Some(ProbeEvent::TcpProbe(spec_tcp_probe(raw.pid, raw.tgid, raw.ctx_buf@))),
{
    match ReadableTCPProbeEvent::try_from_raw(raw) {
        Some(ev) => Some(ProbeEvent::TcpProbe(ev)),
        None => None,
    }
}

/// The event for a UDP packet record; None when its length is 0 or exceeds
/// the data buffer (such records are dropped). The destination address is
/// IPv4 for family 4 and otherwise IPv6 (IPv4-mapped ones as IPv4).
pub fn udp_event(raw: &UdpPacketEvent) -> (e: Option<ProbeEvent>)
    ensures
        (raw.len == 0 || raw.len > 512) ==> e is None,
        !(raw.len == 0 || raw.len > 512) ==> (e matches Some(ProbeEvent::UdpRecvMsg { src_port, dest_ip, payload })
            && src_port == raw.src_port
            && dest_ip == spec_fmt_ip(raw.dest_ip@, if raw.ip_family == 4 { 4u8 } else { 6u8 })
            && payload@ == raw.data@.subrange(0, raw.len as int)),
{
    let len = raw.len as usize;
    if len == 0 || len > 512 {
        return None;
    }
    let family: u8 = if raw.ip_family == 4 { 4 } else { 6 };
    let dest_ip = fmt_ip(raw.dest_ip, family);
    let payload = vstd::slice::slice_to_vec(&raw.data.as_slice()[0..len]);
    Some(ProbeEvent::UdpRecvMsg { src_port: raw.src_port, dest_ip, payload })
}

/// The event for a response record: its first `data_len` bytes (at most 128).
pub fn response_event(raw: &TcpResponseEvent) -> (e: ProbeEvent)
    ensures
        e matches ProbeEvent::SockDefReadable { socket_ptr, timestamp_ns, response_head }
            && socket_ptr == raw.socket_ptr && timestamp_ns == raw.timestamp_ns
            && response_head@ == raw.data@.subrange(0, if raw.data_len < 128 { raw.data_len as int } else { 128 }),
{
    let len: usize = if raw.data_len < 128 { raw.data_len as usize } else { 128 };
    let response_head = vstd::slice::slice_to_vec(&raw.data.as_slice()[0..len]);
    ProbeEvent::SockDefReadable { socket_ptr: raw.socket_ptr, timestamp_ns: raw.timestamp_ns, response_head }
}

} // verus!
