use metis::btf::{
    btf_kind, btf_str, btf_vlen, build_index, detect_iov, detect_layouts, detect_sock, detect_udp,
    detect_udp_layout, find_iter_enum_vals, find_struct, load_btf, member_bit_off, resolve,
    type_record_size, u32_le,
};

/// A small BTF blob under construction: type records and a string table.
struct Blob {
    types: Vec<u8>,
    strs: Vec<u8>,
}

impl Blob {
    fn new() -> Self {
        Blob { types: Vec::new(), strs: vec![0] }
    }

    fn name(&mut self, s: &str) -> u32 {
        if s.is_empty() {
            return 0;
        }
        let off = self.strs.len() as u32;
        self.strs.extend_from_slice(s.as_bytes());
        self.strs.push(0);
        off
    }

    fn header(&mut self, name: &str, kind: u32, vlen: u32, kflag: bool, size_or_type: u32) {
        let n = self.name(name);
        let info = ((kflag as u32) << 31) | (kind << 24) | vlen;
        self.types.extend_from_slice(&n.to_le_bytes());
        self.types.extend_from_slice(&info.to_le_bytes());
        self.types.extend_from_slice(&size_or_type.to_le_bytes());
    }

    fn int_type(&mut self, name: &str) {
        self.header(name, 1, 0, false, 4);
        self.types.extend_from_slice(&32u32.to_le_bytes());
    }

    fn record(&mut self, kind: u32, name: &str, kflag: bool, members: &[(&str, u32, u32)]) {
        self.header(name, kind, members.len() as u32, kflag, 8);
        for (m, ty, off) in members {
            let n = self.name(m);
            self.types.extend_from_slice(&n.to_le_bytes());
            self.types.extend_from_slice(&ty.to_le_bytes());
            self.types.extend_from_slice(&off.to_le_bytes());
        }
    }

    fn typedef(&mut self, name: &str, target: u32) {
        self.header(name, 8, 0, false, target);
    }

    fn enumeration(&mut self, name: &str, values: &[(&str, i32)]) {
        self.header(name, 6, values.len() as u32, false, 4);
        for (v, val) in values {
            let n = self.name(v);
            self.types.extend_from_slice(&n.to_le_bytes());
            self.types.extend_from_slice(&val.to_le_bytes());
        }
    }

    fn bytes(&self) -> Vec<u8> {
        let mut d = Vec::new();
        d.extend_from_slice(&0xEB9Fu16.to_le_bytes());
        d.push(1);
        d.push(0);
        d.extend_from_slice(&24u32.to_le_bytes());
        d.extend_from_slice(&0u32.to_le_bytes());
        d.extend_from_slice(&(self.types.len() as u32).to_le_bytes());
        d.extend_from_slice(&(self.types.len() as u32).to_le_bytes());
        d.extend_from_slice(&(self.strs.len() as u32).to_le_bytes());
        d.extend_from_slice(&self.types);
        d.extend_from_slice(&self.strs);
        d
    }
}

/// A kernel-like type section: ids 1..=10 as listed.
fn kernel_blob(with_enum: bool) -> Blob {
    let mut b = Blob::new();
    b.int_type("int"); // 1
    b.record(4, "msghdr", false, &[("msg_name", 1, 0), ("msg_iter", 3, 256)]); // 2
    b.record(4, "iov_iter", false, &[("iter_type", 1, 0), ("iov_offset", 1, 64), ("count", 1, 128), ("", 4, 192)]); // 3
    b.typedef("", 5); // 4
    b.record(5, "", false, &[("ubuf", 1, 0), ("__iov", 1, 0)]); // 5
    if with_enum {
        b.enumeration("iter_type", &[("ITER_UBUF", 0), ("ITER_IOVEC", 1)]); // 6
    } else {
        b.enumeration("other", &[("A", 0)]); // 6
    }
    b.record(4, "sock_common", false, &[("skc_v6_daddr", 1, 512)]); // 7
    b.record(4, "sock", true, &[("__sk_common", 7, 0), ("", 9, (3 << 24) | 64)]); // 8
    b.record(4, "", false, &[("sk_receive_queue", 1, 128)]); // 9
    b.record(4, "sk_buff", false, &[("data", 1, 1600)]); // 10
    b
}

#[test]
fn record_sizes_follow_kinds() {
    let b = kernel_blob(true);
    let tb = &b.types;
    assert_eq!(btf_kind(tb, 0), 1);
    assert_eq!(type_record_size(tb, 0), 16);
    assert_eq!(btf_kind(tb, 16), 4);
    assert_eq!(btf_vlen(tb, 16), 2);
    assert_eq!(type_record_size(tb, 16), 12 + 24);
    assert_eq!(type_record_size(tb, tb.len() - 4), 0);
    assert_eq!(u32_le(&[1, 2, 3, 4], 0), 0x0403_0201);
}

#[test]
fn index_has_one_slot_per_record() {
    let b = kernel_blob(true);
    let idx = build_index(&b.types);
    assert_eq!(idx.len(), 11);
    assert_eq!(idx[0], usize::MAX);
    assert_eq!(idx[1], 0);
    assert_eq!(idx[2], 16);
    for w in idx[1..].windows(2) {
        assert!(w[0] < w[1]);
    }
}

#[test]
fn index_of_empty_section_is_only_the_unused_slot() {
    assert_eq!(build_index(&[]), vec![usize::MAX]);
    assert_eq!(build_index(&[0u8; 11]), vec![usize::MAX]);
}

#[test]
fn strings_are_read_to_the_nul() {
    let sb = b"\0abc\0de\xff\0tail";
    assert_eq!(btf_str(sb, 1), "abc");
    assert_eq!(btf_str(sb, 2), "bc");
    assert_eq!(btf_str(sb, 0), "");
    assert_eq!(btf_str(sb, 5), "");
    assert_eq!(btf_str(sb, 9), "tail");
    assert_eq!(btf_str(sb, 100), "");
}

#[test]
fn structs_are_found_by_name() {
    let b = kernel_blob(true);
    let idx = build_index(&b.types);
    assert_eq!(find_struct(&b.types, &b.strs, &idx, "msghdr"), Some(idx[2]));
    assert_eq!(find_struct(&b.types, &b.strs, &idx, "sk_buff"), Some(idx[10]));
    // an enum of that name is not a struct
    assert_eq!(find_struct(&b.types, &b.strs, &idx, "iter_type"), None);
    assert_eq!(find_struct(&b.types, &b.strs, &idx, "missing"), None);
}

#[test]
fn typedefs_are_followed() {
    let b = kernel_blob(true);
    let idx = build_index(&b.types);
    assert_eq!(resolve(&b.types, &idx, 4), idx[5]);
    assert_eq!(resolve(&b.types, &idx, 3), idx[3]);
    assert_eq!(resolve(&b.types, &idx, 0), usize::MAX);
    assert_eq!(resolve(&b.types, &idx, 99), usize::MAX);
}

#[test]
fn typedef_loops_give_up() {
    let mut b = Blob::new();
    b.typedef("a", 2); // 1
    b.typedef("b", 1); // 2
    let idx = build_index(&b.types);
    assert_eq!(resolve(&b.types, &idx, 1), usize::MAX);
}

#[test]
fn member_offsets_include_anonymous_members() {
    let b = kernel_blob(true);
    let idx = build_index(&b.types);
    let (tb, sb) = (&b.types[..], &b.strs[..]);
    assert_eq!(member_bit_off(tb, sb, &idx, idx[3], "count", 0), Some(128));
    assert_eq!(member_bit_off(tb, sb, &idx, idx[3], "__iov", 0), Some(192));
    // kind flag: only the low 24 bits of the anonymous member's offset count
    assert_eq!(member_bit_off(tb, sb, &idx, idx[8], "sk_receive_queue", 0), Some(192));
    assert_eq!(member_bit_off(tb, sb, &idx, idx[3], "nope", 0), None);
    assert_eq!(member_bit_off(tb, sb, &idx, idx[1], "count", 0), None);
    assert_eq!(member_bit_off(tb, sb, &idx, usize::MAX, "count", 0), None);
    assert_eq!(member_bit_off(tb, sb, &idx, idx[3], "count", 7), None);
}

#[test]
fn iter_enum_values_are_read() {
    let b = kernel_blob(true);
    let idx = build_index(&b.types);
    assert_eq!(find_iter_enum_vals(&b.types, &b.strs, &idx), Some((1, 0)));
    let b = kernel_blob(false);
    let idx = build_index(&b.types);
    assert_eq!(find_iter_enum_vals(&b.types, &b.strs, &idx), None);
}

#[test]
fn iov_layout_from_btf() {
    let b = kernel_blob(true);
    let idx = build_index(&b.types);
    let l = detect_iov(&b.types, &b.strs, &idx).unwrap();
    assert_eq!((l.iter_type_off, l.iov_offset_off, l.count_off, l.ptr_off), (32, 40, 48, 56));
    assert_eq!((l.iter_iovec, l.iter_ubuf), (1, 0));
}

#[test]
fn iov_enum_values_fall_back_to_member_order() {
    let b = kernel_blob(false);
    let idx = build_index(&b.types);
    let l = detect_iov(&b.types, &b.strs, &idx).unwrap();
    // count (128) comes before the data pointer (192)
    assert_eq!((l.iter_iovec, l.iter_ubuf), (0, 1));
}

#[test]
fn sock_and_udp_layouts_from_btf() {
    let b = kernel_blob(true);
    let idx = build_index(&b.types);
    assert_eq!(detect_sock(&b.types, &b.strs, &idx).unwrap().v6_daddr_off, 64);
    let u = detect_udp(&b.types, &b.strs, &idx).unwrap();
    assert_eq!((u.sk_receive_queue_off, u.skb_data_off), (24, 200));
}

#[test]
fn blob_sections_are_split() {
    let b = kernel_blob(true);
    let (tb, sb, idx) = load_btf(&b.bytes()).unwrap();
    assert_eq!(tb, b.types);
    assert_eq!(sb, b.strs);
    assert_eq!(idx, build_index(&b.types));
}

#[test]
fn bad_blobs_are_refused() {
    let b = kernel_blob(true);
    let mut d = b.bytes();
    assert!(load_btf(&d[..23]).is_none());
    d[0] = 0;
    assert!(load_btf(&d).is_none());
    let mut d = b.bytes();
    d.truncate(d.len() - 1);
    assert!(load_btf(&d).is_none());
}

#[test]
fn layouts_from_blob() {
    let d = kernel_blob(true).bytes();
    let (iov, sock) = detect_layouts(Some(&d));
    assert_eq!((iov.iter_type_off, iov.ptr_off, iov.iter_iovec), (32, 56, 1));
    assert_eq!(sock.v6_daddr_off, 64);
    let udp = detect_udp_layout(Some(&d));
    assert_eq!((udp.sk_receive_queue_off, udp.skb_data_off), (24, 200));
}

#[test]
fn layouts_default_without_btf() {
    let (iov, sock) = detect_layouts(None);
    assert_eq!(
        (iov.iter_type_off, iov.iov_offset_off, iov.count_off, iov.ptr_off, iov.iter_iovec, iov.iter_ubuf, iov._pad),
        (16, 24, 32, 40, 0, 1, 0)
    );
    assert_eq!(sock.v6_daddr_off, 56);
    assert_eq!(sock._pad, [0; 4]);
    let udp = detect_udp_layout(Some(&[1, 2, 3]));
    assert_eq!((udp.sk_receive_queue_off, udp.skb_data_off), (320, 208));
}

#[test]
fn layouts_default_when_structs_are_missing() {
    let mut b = Blob::new();
    b.int_type("int");
    let d = b.bytes();
    let (iov, sock) = detect_layouts(Some(&d));
    assert_eq!((iov.iter_type_off, iov.ptr_off), (16, 40));
    assert_eq!(sock.v6_daddr_off, 56);
    assert_eq!(detect_udp_layout(Some(&d)).skb_data_off, 208);
}
