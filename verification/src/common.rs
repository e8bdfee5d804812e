//! Event records shared with the kernel-side probes. Userspace receives them
//! from the ring buffers as bytes in C layout with little-endian integers;
//! `from_bytes` reads a record from such bytes.

use vstd::prelude::*;
use crate::bytes::{le16, le32, le64, read_le16, read_le32, read_le64};

verus! {

/// Emitted by tracepoints — always one self-contained event per kernel firing.
#[derive(Debug, Clone, Copy)]
pub struct TCPProbeEvent {
    pub pid: u32,
    pub tgid: u32,
    // 152 bytes makes sizeof = 4+4+152 = 160, exactly divisible by 4 with no
    // trailing padding. Uninitialized padding bytes would fail the BPF verifier
    // when ringbuf.output reads the full sizeof(TCPProbeEvent) off the stack.
    pub ctx_buf: [u8; 152],
}

/// Emitted by sock_def_readable when the first inbound packet arrives on a
/// tracked socket. Userspace correlates with KProbeChunk via socket_ptr.
#[derive(Debug, Clone, Copy)]
pub struct TcpResponseEvent {
    pub socket_ptr: u64,
    pub timestamp_ns: u64,
    /// Number of valid bytes in `data`. 0 = receive-queue peek failed.
    pub data_len: u16,
    pub _pad: [u8; 6],
    /// First bytes of the TCP payload peeked from sk->sk_receive_queue.
    /// For MySQL, this is the raw MySQL packet (4-byte framing header + payload).
    pub data: [u8; 128],
}

/// Kernel field offsets for `iov_iter`, detected at startup from BTF.
/// Stored in the `IOV_LAYOUT` BPF map; all offsets are in bytes from `msghdr` base.
#[derive(Clone, Copy, Debug, Default, PartialEq, Eq, Structural)]
pub struct IovLayout {
    pub iter_type_off: u32,
    pub iov_offset_off: u32,
    pub count_off: u32,
    pub ptr_off: u32,
    pub iter_iovec: u8,
    pub iter_ubuf: u8,
    pub _pad: u16,
}

/// Kernel field offsets for `struct sock_common`, detected at startup from BTF.
/// Stored in the `SOCK_LAYOUT` BPF map.
#[derive(Clone, Copy, Debug, Default)]
pub struct SockLayout {
    /// Byte offset of `skc_v6_daddr` (`struct in6_addr`) from the start of `struct sock`.
    pub v6_daddr_off: u32,
    pub _pad: [u8; 4],
}

/// Kernel field offsets for the UDP receive path, detected at startup from BTF.
/// Stored in the `UDP_LAYOUT` BPF map.
#[derive(Clone, Copy, Debug, Default, PartialEq, Eq, Structural)]
pub struct UdpLayout {
    /// Byte offset of `sk_receive_queue` (struct sk_buff_head) within `struct sock`.
    pub sk_receive_queue_off: u32,
    /// Byte offset of `data` (unsigned char *) within `struct sk_buff`.
    pub skb_data_off: u32,
}

/// Emitted by the udp_recvmsg / udpv6_recvmsg kprobes for every inbound UDP
/// packet whose source port is in the configured filter.
/// `data[..len]` holds the UDP payload (UDP header already stripped).
#[derive(Debug, Clone, Copy)]
pub struct UdpPacketEvent {
    /// Source port of the received packet (e.g. 53 for a DNS response).
    pub src_port: u16,
    /// Number of valid bytes in `data`.
    pub len: u16,
    /// 4 = IPv4, 6 = IPv6.
    pub ip_family: u8,
    pub _pad: [u8; 3],
    /// Destination IP of the received packet. IPv4 address in bytes [0..4]; IPv6 uses all 16.
    pub dest_ip: [u8; 16],
    pub data: [u8; 512],
}

/// Emitted by kprobes. Due to the 512-byte eBPF stack limit, large payloads
/// are split across multiple chunks sharing the same `socket_ptr`. The final
/// (or only) chunk carries `complete == true`. Userspace must concatenate all
/// chunks for a session before dispatching the completed event.
#[derive(Debug, Clone, Copy)]
pub struct KProbeChunk {
    /// Socket pointer — stable connection identifier, used for reassembly and
    /// for correlating with TcpResponseEvent in userspace.
    pub socket_ptr: u64,
    /// Kernel timestamp (bpf_ktime_get_ns) at the moment of the send.
    pub timestamp_ns: u64,
    /// Destination IP address in network byte order.
    /// For IPv4 the first 4 bytes hold the address; remaining bytes are zero.
    /// For IPv6 all 16 bytes are used.
    pub dest_ip: [u8; 16],
    /// Destination port — present on every chunk so routing can start early.
    pub dest_port: u16,
    /// 4 = IPv4, 6 = IPv6, 0 = unknown/unread.
    pub ip_family: u8,
    /// True when this is the last (or only) chunk for this session.
    pub complete: bool,
    /// Number of valid bytes in `data`.
    pub len: u16,
    pub data: [u8; 1024],
}

// ── reading records from ring-buffer bytes ───────────────────────────────────

/// Copies `r.len()` bytes of `buf` from `at` into `r`.
fn fill<const N: usize>(r: &mut [u8; N], buf: &[u8], at: usize)
    requires
        at + N <= buf.len(),
    ensures
        final(r)@ == buf@.subrange(at as int, at + N),
{
    let mut k: usize = 0;
    while k < N
        invariant
            k <= N,
            at + N <= buf.len(),
            r@.len() == N,
            forall|j: int| 0 <= j < k ==> r@[j] == buf@[at + j],
        decreases N - k,
    {
        r[k] = buf[at + k];
        k += 1;
    }
    assert(r@ =~= buf@.subrange(at as int, at + N));
}

/// Bytes a `TCPProbeEvent` record takes.
pub const TCP_PROBE_EVENT_SIZE: usize = 160;
/// Bytes up to the end of a `TcpResponseEvent` record's last field.
pub const TCP_RESPONSE_EVENT_SIZE: usize = 152;
/// Bytes up to the end of a `UdpPacketEvent` record's last field.
pub const UDP_PACKET_EVENT_SIZE: usize = 536;
/// Bytes up to the end of a `KProbeChunk` record's last field (the record
/// itself is padded to 1064).
pub const KPROBE_CHUNK_SIZE: usize = 1062;

impl TCPProbeEvent {
    /// Field values of the record at the start of `b`.
    pub open spec fn decodes(self, b: Seq<u8>) -> bool {
        &&& self.pid == le32(b, 0)
        &&& self.tgid == le32(b, 4)
        &&& self.ctx_buf@ == b.subrange(8, 160)
    }

    /// Reads the record; None when `buf` is shorter than it.
    pub fn from_bytes(buf: &[u8]) -> (r: Option<Self>)
        ensures
            buf@.len() < TCP_PROBE_EVENT_SIZE ==> r is None,
            buf@.len() >= TCP_PROBE_EVENT_SIZE ==> (r matches Some(e) && e.decodes(buf@)),
    {
        if buf.len() < TCP_PROBE_EVENT_SIZE {
            return None;
        }
        let mut ctx_buf = [0u8; 152];
        fill(&mut ctx_buf, buf, 8);
        Some(TCPProbeEvent { pid: read_le32(buf, 0), tgid: read_le32(buf, 4), ctx_buf })
    }
}

impl TcpResponseEvent {
    /// Field values of the record at the start of `b`.
    pub open spec fn decodes(self, b: Seq<u8>) -> bool {
        &&& self.socket_ptr == le64(b, 0)
        &&& self.timestamp_ns == le64(b, 8)
        &&& self.data_len == le16(b, 16)
        &&& self._pad@ == b.subrange(18, 24)
        &&& self.data@ == b.subrange(24, 152)
    }

    /// Reads the record; None when `buf` is shorter than it.
    pub fn from_bytes(buf: &[u8]) -> (r: Option<Self>)
        ensures
            buf@.len() < TCP_RESPONSE_EVENT_SIZE ==> r is None,
            buf@.len() >= TCP_RESPONSE_EVENT_SIZE ==> (r matches Some(e) && e.decodes(buf@)),
    {
        if buf.len() < TCP_RESPONSE_EVENT_SIZE {
            return None;
        }
        let mut pad = [0u8; 6];
        fill(&mut pad, buf, 18);
        let mut data = [0u8; 128];
        fill(&mut data, buf, 24);
        Some(TcpResponseEvent {
            socket_ptr: read_le64(buf, 0),
            timestamp_ns: read_le64(buf, 8),
            data_len: read_le16(buf, 16),
            _pad: pad,
            data,
        })
    }
}

impl UdpPacketEvent {
    /// Field values of the record at the start of `b`.
    pub open spec fn decodes(self, b: Seq<u8>) -> bool {
        &&& self.src_port == le16(b, 0)
        &&& self.len == le16(b, 2)
        &&& self.ip_family == b[4]
        &&& self._pad@ == b.subrange(5, 8)
        &&& self.dest_ip@ == b.subrange(8, 24)
        &&& self.data@ == b.subrange(24, 536)
    }

    /// Reads the record; None when `buf` is shorter than it.
    pub fn from_bytes(buf: &[u8]) -> (r: Option<Self>)
        ensures
            buf@.len() < UDP_PACKET_EVENT_SIZE ==> r is None,
            buf@.len() >= UDP_PACKET_EVENT_SIZE ==> (r matches Some(e) && e.decodes(buf@)),
    {
        if buf.len() < UDP_PACKET_EVENT_SIZE {
            return None;
        }
        let mut pad = [0u8; 3];
        fill(&mut pad, buf, 5);
        let mut dest_ip = [0u8; 16];
        fill(&mut dest_ip, buf, 8);
        let mut data = [0u8; 512];
        fill(&mut data, buf, 24);
        Some(UdpPacketEvent {
            src_port: read_le16(buf, 0),
            len: read_le16(buf, 2),
            ip_family: buf[4],
            _pad: pad,
            dest_ip,
            data,
        })
    }
}

impl KProbeChunk {
    /// Field values of the record at the start of `b`; the completion flag is
    /// set when its byte is not zero.
    pub open spec fn decodes(self, b: Seq<u8>) -> bool {
        &&& self.socket_ptr == le64(b, 0)
        &&& self.timestamp_ns == le64(b, 8)
        &&& self.dest_ip@ == b.subrange(16, 32)
        &&& self.dest_port == le16(b, 32)
        &&& self.ip_family == b[34]
        &&& self.complete == (b[35] != 0)
        &&& self.len == le16(b, 36)
        &&& self.data@ == b.subrange(38, 1062)
    }

    /// Reads the record; None when `buf` is shorter than it.
    pub fn from_bytes(buf: &[u8]) -> (r: Option<Self>)
        ensures
            buf@.len() < KPROBE_CHUNK_SIZE ==> r is None,
            buf@.len() >= KPROBE_CHUNK_SIZE ==> (r matches Some(c) && c.decodes(buf@)),
    {
        if buf.len() < KPROBE_CHUNK_SIZE {
            return None;
        }
        let mut dest_ip = [0u8; 16];
        fill(&mut dest_ip, buf, 16);
        let mut data = [0u8; 1024];
        fill(&mut data, buf, 38);
        Some(KProbeChunk {
            socket_ptr: read_le64(buf, 0),
            timestamp_ns: read_le64(buf, 8),
            dest_ip,
            dest_port: read_le16(buf, 32),
            ip_family: buf[34],
            complete: buf[35] != 0,
            len: read_le16(buf, 36),
            data,
        })
    }
}

} // verus!
