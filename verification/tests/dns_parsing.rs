use metis::dns::{parse_name, try_parse};
use metis::dns_cache::DnsCache;
use metis::net::IpAddr;

fn v4(o: [u8; 4]) -> IpAddr {
    IpAddr::V4(u32::from_be_bytes(o))
}

fn make_dns_response(domain: &str, ip: [u8; 4]) -> Vec<u8> {
    let mut msg = Vec::new();
    msg.extend_from_slice(&[0x00, 0x01]); // ID
    msg.extend_from_slice(&[0x81, 0x80]); // QR=1, RCODE=0
    msg.extend_from_slice(&[0x00, 0x01]); // QDCOUNT = 1
    msg.extend_from_slice(&[0x00, 0x01]); // ANCOUNT = 1
    msg.extend_from_slice(&[0x00, 0x00]); // NSCOUNT = 0
    msg.extend_from_slice(&[0x00, 0x00]); // ARCOUNT = 0

    for label in domain.split('.') {
        msg.push(label.len() as u8);
        msg.extend_from_slice(label.as_bytes());
    }
    msg.push(0x00);
    msg.extend_from_slice(&[0x00, 0x01]); // QTYPE = A
    msg.extend_from_slice(&[0x00, 0x01]); // QCLASS = IN

    msg.extend_from_slice(&[0xC0, 0x0C]);
    msg.extend_from_slice(&[0x00, 0x01]); // TYPE = A
    msg.extend_from_slice(&[0x00, 0x01]); // CLASS = IN
    msg.extend_from_slice(&[0x00, 0x00, 0x00, 0x3C]); // TTL = 60
    msg.extend_from_slice(&[0x00, 0x04]); // RDLENGTH = 4
    msg.extend_from_slice(&ip);

    msg
}

fn make_cname_response(query: &str, cname: &str, ip: [u8; 4]) -> Vec<u8> {
    let mut msg = Vec::new();
    msg.extend_from_slice(&[0x00, 0x02]); // ID
    msg.extend_from_slice(&[0x81, 0x80]); // QR=1, RCODE=0
    msg.extend_from_slice(&[0x00, 0x01]); // QDCOUNT = 1
    msg.extend_from_slice(&[0x00, 0x02]); // ANCOUNT = 2
    msg.extend_from_slice(&[0x00, 0x00]);
    msg.extend_from_slice(&[0x00, 0x00]);

    let qname_off = 12usize;

    for label in query.split('.') {
        msg.push(label.len() as u8);
        msg.extend_from_slice(label.as_bytes());
    }
    msg.push(0x00);
    msg.extend_from_slice(&[0x00, 0x01]); // QTYPE = A
    msg.extend_from_slice(&[0x00, 0x01]); // QCLASS = IN

    msg.push(0xC0);
    msg.push(qname_off as u8);
    msg.extend_from_slice(&[0x00, 0x05]); // TYPE = CNAME
    msg.extend_from_slice(&[0x00, 0x01]); // CLASS = IN
    msg.extend_from_slice(&[0x00, 0x00, 0x00, 0x3C]); // TTL

    let mut cname_rdata = Vec::new();
    for label in cname.split('.') {
        cname_rdata.push(label.len() as u8);
        cname_rdata.extend_from_slice(label.as_bytes());
    }
    cname_rdata.push(0x00);
    msg.extend_from_slice(&(cname_rdata.len() as u16).to_be_bytes()); // RDLENGTH
    let cname_rdata_off = msg.len();
    msg.extend_from_slice(&cname_rdata);

    msg.push(0xC0);
    msg.push(cname_rdata_off as u8);
    msg.extend_from_slice(&[0x00, 0x01]); // TYPE = A
    msg.extend_from_slice(&[0x00, 0x01]); // CLASS = IN
    msg.extend_from_slice(&[0x00, 0x00, 0x00, 0x3C]); // TTL
    msg.extend_from_slice(&[0x00, 0x04]); // RDLENGTH = 4
    msg.extend_from_slice(&ip);

    msg
}

#[test]
fn parses_a_record() {
    let ip = [93, 184, 216, 34];
    let msg = make_dns_response("example.com", ip);
    let mut cache = DnsCache::new();
    let _ = try_parse(&msg, &mut cache);
    assert_eq!(cache.lookup(&v4(ip)).unwrap(), "example.com");
}

#[test]
fn ignores_query_packets() {
    let mut msg = make_dns_response("example.com", [1, 2, 3, 4]);
    msg[2] = 0x01; // clear QR bit
    msg[3] = 0x00;
    let mut cache = DnsCache::new();
    let result = try_parse(&msg, &mut cache);
    assert!(result.is_none());
    assert!(cache.lookup(&v4([1, 2, 3, 4])).is_none());
}

#[test]
fn ignores_error_responses() {
    let mut msg = make_dns_response("example.com", [1, 2, 3, 4]);
    msg[3] = 0x03; // RCODE = NXDOMAIN
    let mut cache = DnsCache::new();
    let result = try_parse(&msg, &mut cache);
    assert!(result.is_some());
    let (queries, rcode) = result.unwrap();
    assert_eq!(rcode, 3);
    assert_eq!(queries, ["example.com"]);
    assert!(cache.lookup(&v4([1, 2, 3, 4])).is_none());
}

#[test]
fn cname_uses_canonical_name() {
    let ip = [1, 2, 3, 4];
    let msg = make_cname_response("www.example.com", "cdn.example.net", ip);
    let mut cache = DnsCache::new();
    let result = try_parse(&msg, &mut cache);
    assert!(result.is_some());
    let (queries, rcode) = result.unwrap();
    assert_eq!(rcode, 0);
    assert_eq!(queries, ["www.example.com"]);
    assert_eq!(cache.lookup(&v4(ip)).unwrap(), "cdn.example.net");
}

#[test]
fn aaaa_record_mapped_to_ipv4_is_cached_as_ipv4() {
    let mut msg = make_dns_response("mapped.test", [0, 0, 0, 0]);
    let n = msg.len();
    msg.truncate(n - 6);
    msg.extend_from_slice(&[0x00, 0x10]); // RDLENGTH = 16
    msg.extend_from_slice(&[0, 0, 0, 0, 0, 0, 0, 0, 0, 0, 0xff, 0xff, 10, 0, 0, 7]);
    let qtype_at = n - 6 - 8;
    msg[qtype_at] = 0x00;
    msg[qtype_at + 1] = 0x1c; // TYPE = AAAA
    let mut cache = DnsCache::new();
    assert!(try_parse(&msg, &mut cache).is_some());
    assert_eq!(cache.lookup(&v4([10, 0, 0, 7])).unwrap(), "mapped.test");
}

#[test]
fn truncated_answer_keeps_questions_out_but_earlier_records_in() {
    let msg = make_cname_response("www.example.com", "cdn.example.net", [5, 6, 7, 8]);
    let short = &msg[..msg.len() - 2];
    let mut cache = DnsCache::new();
    assert!(try_parse(short, &mut cache).is_none());
    assert!(cache.lookup(&v4([5, 6, 7, 8])).is_none());
}

#[test]
fn name_parsing_follows_pointers_and_reports_end() {
    let msg = make_dns_response("a.bc", [1, 1, 1, 1]);
    assert_eq!(parse_name(&msg, 12), Some(("a.bc".to_string(), 18)));
    // the answer's owner name is a pointer: two bytes long
    assert_eq!(parse_name(&msg, 22), Some(("a.bc".to_string(), 24)));
    // a pointer loop is cut off
    let looped = [0xC0, 0x00];
    assert_eq!(parse_name(&looped, 0), None);
    // invalid UTF-8 in a label
    assert_eq!(parse_name(&[1, 0xff, 0], 0), None);
}
