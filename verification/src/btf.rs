//! Kernel BTF (BPF Type Format): the offsets of the struct fields the probes
//! read, taken from the kernel's type information, with defaults where it
//! does not give them.
//!
//! A BTF blob is a 24-byte header followed by a type section (a sequence of
//! records, each a 12-byte header and kind-dependent trailing data) and a
//! string section (NUL-terminated names).

use vstd::prelude::*;
use vstd::utf8::*;
use crate::bytes::{le16, le32, as_signed32, read_le16, read_le32, read_le_i32};
use crate::common::{IovLayout, SockLayout, UdpLayout};
use crate::mysql::find_nul;
use crate::text::{utf8_str, chars_of};

verus! {

/// The magic number a BTF blob starts with.
pub const BTF_MAGIC: u16 = 0xEB9F;

/// The kind a type record's info word holds in bits 24..29.
pub open spec fn spec_kind(tb: Seq<u8>, off: int) -> int {
    (le32(tb, off + 4) / 0x100_0000) % 32
}

/// The member count a type record's info word holds in bits 0..16.
pub open spec fn spec_vlen(tb: Seq<u8>, off: int) -> int {
    le32(tb, off + 4) % 0x1_0000
}

/// The kind flag, bit 31 of a type record's info word.
pub open spec fn spec_kflag(tb: Seq<u8>, off: int) -> bool {
    le32(tb, off + 4) >= 0x8000_0000
}

/// Size of the data that follows a record header of kind `kind` with
/// `vlen` members.
pub open spec fn trailing_size(kind: int, vlen: int) -> int {
    if kind == 1 || kind == 14 || kind == 17 {
        4
    } else if kind == 3 {
        12
    } else if kind == 4 || kind == 5 || kind == 15 || kind == 19 {
        vlen * 12
    } else if kind == 6 || kind == 13 {
        vlen * 8
    } else {
        0
    }
}

/// Size of the type record at `off` (header and trailing data); 0 when no
/// header fits there.
pub open spec fn spec_record_size(tb: Seq<u8>, off: int) -> int {
    if off + 12 > tb.len() {
        0
    } else {
        12 + trailing_size(spec_kind(tb, off), spec_vlen(tb, off))
    }
}

/// Offsets of the type records from `off` on: each starts where the previous
/// one ends, as long as a whole header fits.
pub open spec fn record_offsets(tb: Seq<u8>, off: int) -> Seq<usize>
    decreases tb.len() - off,
{
    if off < 0 || off + 12 > tb.len() {
        Seq::empty()
    } else {
        proof {
            assert(spec_vlen(tb, off) >= 0);
            assert(trailing_size(spec_kind(tb, off), spec_vlen(tb, off)) >= 0);
        }
        let next = off + spec_record_size(tb, off);
        seq![off as usize] + if next + 12 > tb.len() {
            Seq::empty()
        } else {
            record_offsets(tb, next)
        }
    }
}

/// The type index: slot `id` holds the offset of type `id`'s record; slot 0
/// (type ids start at 1) holds `usize::MAX`.
pub open spec fn spec_index(tb: Seq<u8>) -> Seq<usize> {
    seq![usize::MAX] + record_offsets(tb, 0)
}

/// A name in the string section: the bytes from `off` to the next NUL (or
/// the end), read as UTF-8; empty when `off` is out of range or the bytes are
/// not valid UTF-8.
#[verifier::opaque]
pub open spec fn spec_btf_str(sb: Seq<u8>, off: int) -> Seq<char> {
    if off >= sb.len() {
        Seq::empty()
    } else {
        let end = match find_nul(sb, off) {
            Some(z) => z,
            None => sb.len() as int,
        };
        let b = sb.subrange(off, end);
        if valid_utf8(b) {
            decode_utf8(b)
        } else {
            Seq::empty()
        }
    }
}

/// The name of the type record at `off`.
pub open spec fn record_name(tb: Seq<u8>, sb: Seq<u8>, off: int) -> Seq<char> {
    spec_btf_str(sb, le32(tb, off))
}

/// Whether slot `i` of the index points at a whole record header.
pub open spec fn slot_ok(tb: Seq<u8>, idx: Seq<usize>, i: int) -> bool {
    idx[i] != usize::MAX && idx[i] + 12 <= tb.len()
}

/// Follows typedef/volatile/const/restrict links (kinds 8 to 11) from type
/// `tid`, at most `fuel` times, to the offset of the record they name;
/// `usize::MAX` when the chain breaks or is too long.
pub open spec fn spec_resolve(tb: Seq<u8>, idx: Seq<usize>, tid: int, fuel: nat) -> usize
    decreases fuel,
{
    if fuel == 0 || tid < 0 || tid >= idx.len() || !slot_ok(tb, idx, tid) {
        usize::MAX
    } else {
        let off = idx[tid] as int;
        let k = spec_kind(tb, off);
        if k == 8 || k == 9 || k == 10 || k == 11 {
            spec_resolve(tb, idx, le32(tb, off + 8), (fuel - 1) as nat)
        } else {
            idx[tid]
        }
    }
}

/// The first record, from index slot `i` on, of kind `kind` named `name`.
pub open spec fn find_named(tb: Seq<u8>, sb: Seq<u8>, idx: Seq<usize>, kind: int, name: Seq<char>, i: int) -> Option<usize>
    decreases idx.len() - i,
{
    if i < 0 || i >= idx.len() {
        None
    } else if slot_ok(tb, idx, i) && spec_kind(tb, idx[i] as int) == kind && record_name(tb, sb, idx[i] as int) == name {
        Some(idx[i])
    } else {
        find_named(tb, sb, idx, kind, name, i + 1)
    }
}

/// The record of the struct named `name`.
pub open spec fn spec_find_struct(tb: Seq<u8>, sb: Seq<u8>, idx: Seq<usize>, name: Seq<char>) -> Option<usize> {
    find_named(tb, sb, idx, 4, name, 1)
}

// ── reading records ──────────────────────────────────────────────────────────

/// The little-endian `u32` at `off`.
pub fn u32_le(data: &[u8], off: usize) -> (r: u32)
    requires
        off + 4 <= data.len(),
    ensures
        r == le32(data@, off as int),
{
    read_le32(data, off)
}

pub fn btf_kind(tb: &[u8], off: usize) -> (k: u8)
    requires
        off + 8 <= tb.len(),
    ensures
        k == spec_kind(tb@, off as int),
{
    let info = u32_le(tb, off + 4);
    let k = ((info >> 24) & 0x1f) as u8;
    assert(((info >> 24) & 0x1f) == (info / 0x100_0000) % 32) by (bit_vector);
    k
}

pub fn btf_vlen(tb: &[u8], off: usize) -> (n: usize)
    requires
        off + 8 <= tb.len(),
    ensures
        n == spec_vlen(tb@, off as int),
{
    let info = u32_le(tb, off + 4);
    assert((info & 0xffff) == info % 0x1_0000) by (bit_vector);
    (info & 0xffff) as usize
}

pub fn type_record_size(tb: &[u8], off: usize) -> (n: usize)
    ensures
        n == spec_record_size(tb@, off as int),
{
    if tb.len() < 12 || off > tb.len() - 12 {
        return 0;
    }
    let kind = btf_kind(tb, off);
    let vlen = btf_vlen(tb, off);
    let extra: usize = match kind {
        1 => 4,
        3 => 12,
        4 | 5 => vlen * 12,
        6 => vlen * 8,
        13 => vlen * 8,
        14 => 4,
        15 => vlen * 12,
        17 => 4,
        19 => vlen * 12,
        _ => 0,
    };
    12 + extra
}

/// The index of the type section's records (see `spec_index`).
pub fn build_index(tb: &[u8]) -> (idx: Vec<usize>)
    ensures
        idx@ == spec_index(tb@),
{
    let mut idx: Vec<usize> = Vec::new();
    idx.push(usize::MAX);
    let mut off: usize = 0;
    while tb.len() >= 12 && off <= tb.len() - 12
        invariant
            off <= tb@.len() + 0x10_0000,
            idx@ + record_offsets(tb@, off as int) == spec_index(tb@),
        decreases tb@.len() - off,
    {
        let ghost before = idx@;
        idx.push(off);
        let sz = type_record_size(tb, off);
        assert(record_offsets(tb@, off as int) == seq![off] + record_offsets(tb@, off + sz));
        assert(before + record_offsets(tb@, off as int) =~= idx@ + record_offsets(tb@, off + sz));
        if sz > tb.len() - off {
            assert(record_offsets(tb@, off + sz) == Seq::<usize>::empty());
            assert(idx@ =~= idx@ + Seq::<usize>::empty());
            return idx;
        }
        off = off + sz;
    }
    assert(record_offsets(tb@, off as int) == Seq::<usize>::empty());
    assert(idx@ =~= idx@ + Seq::<usize>::empty());
    idx
}

/// The offset of the first NUL at or after `off`, or the length when none.
fn nul_end(sb: &[u8], off: usize) -> (end: usize)
    requires
        off < sb.len(),
    ensures
        off <= end <= sb@.len(),
        end == match find_nul(sb@, off as int) {
            Some(z) => z,
            None => sb@.len() as int,
        },
{
    let mut i = off;
    while i < sb.len()
        invariant
            off <= i <= sb@.len(),
            find_nul(sb@, off as int) == find_nul(sb@, i as int),
        decreases sb@.len() - i,
    {
        if sb[i] == 0 {
            return i;
        }
        i += 1;
    }
    i
}

/// The name at `off` in the string section (see `spec_btf_str`).
pub fn btf_str<'a>(sb: &'a [u8], off: usize) -> (s: &'a str)
    ensures
        s@ == spec_btf_str(sb@, off as int),
{
    proof {
        reveal_strlit("");
        reveal(spec_btf_str);
    }
    if off >= sb.len() {
        return "";
    }
    let end = nul_end(sb, off);
    match utf8_str(&sb[off..end]) {
        Some(s) => s,
        None => "",
    }
}

/// Whether two texts are the same.
pub fn same_text(a: &str, b: &str) -> (r: bool)
    ensures
        r == (a@ == b@),
{
    let x = chars_of(a);
    let y = chars_of(b);
    if x.len() != y.len() {
        return false;
    }
    let mut i: usize = 0;
    while i < x.len()
        invariant
            x@ == a@,
            y@ == b@,
            x@.len() == y@.len(),
            i <= x@.len(),
            forall|j: int| 0 <= j < i ==> x@[j] == y@[j],
        decreases x@.len() - i,
    {
        if x[i] != y[i] {
            return false;
        }
        i += 1;
    }
    assert(x@ =~= y@);
    true
}

/// The record a type id leads to through typedef-like links (see
/// `spec_resolve`, with at most 8 links followed).
pub fn resolve(tb: &[u8], idx: &[usize], type_id: u32) -> (off: usize)
    ensures
        off == spec_resolve(tb@, idx@, type_id as int, 8),
{
    let mut tid = type_id as usize;
    let mut n: usize = 0;
    while n < 8
        invariant
            n <= 8,
            spec_resolve(tb@, idx@, tid as int, (8 - n) as nat) == spec_resolve(tb@, idx@, type_id as int, 8),
        decreases 8 - n,
    {
        if tid >= idx.len() {
            return usize::MAX;
        }
        let off = idx[tid];
        if off == usize::MAX || tb.len() < 12 || off > tb.len() - 12 {
            return usize::MAX;
        }
        let k = btf_kind(tb, off);
        if k == 8 || k == 9 || k == 10 || k == 11 {
            tid = u32_le(tb, off + 8) as usize;
        } else {
            return off;
        }
        n += 1;
    }
    usize::MAX
}

/// The first record (index slot 1 on) of kind `kind` named `name`.
fn find_kind_named(tb: &[u8], sb: &[u8], idx: &[usize], kind: u8, name: &str) -> (r: Option<usize>)
    ensures
        r == find_named(tb@, sb@, idx@, kind as int, name@, 1),
{
    let mut i: usize = 1;
    while i < idx.len()
        invariant
            1 <= i,
            i <= idx@.len() || idx@.len() == 0,
            find_named(tb@, sb@, idx@, kind as int, name@, i as int) == find_named(tb@, sb@, idx@, kind as int, name@, 1),
        decreases idx@.len() - i,
    {
        let off = idx[i];
        if off != usize::MAX && tb.len() >= 12 && off <= tb.len() - 12 {
            if btf_kind(tb, off) == kind {
                let n = btf_str(sb, u32_le(tb, off) as usize);
                if same_text(n, name) {
                    return Some(off);
                }
            }
        }
        i += 1;
    }
    None
}

/// The record of the struct named `name` (see `spec_find_struct`).
pub fn find_struct(tb: &[u8], sb: &[u8], idx: &[usize], name: &str) -> (r: Option<usize>)
    ensures
        r == spec_find_struct(tb@, sb@, idx@, name@),
{
    find_kind_named(tb, sb, idx, 4, name)
}

// ── members ──────────────────────────────────────────────────────────────────

/// The name of the member record at `m`.
pub open spec fn member_name(tb: Seq<u8>, sb: Seq<u8>, m: int) -> Seq<char> {
    spec_btf_str(sb, le32(tb, m))
}

/// The bit offset the member record at `m` of the struct or union at
/// `type_off` states: with the kind flag set, its low 24 bits.
pub open spec fn member_bits(tb: Seq<u8>, type_off: int, m: int) -> u32 {
    (if spec_kflag(tb, type_off) { le32(tb, m + 8) % 0x100_0000 } else { le32(tb, m + 8) }) as u32
}

/// What the member record at `m` gives for `field` on its own: a member
/// named `field` gives its offset; an anonymous member whose type (through
/// typedef-like links) holds `field` gives its offset plus the offset found
/// there (wrapping at 32 bits); otherwise nothing.
pub open spec fn member_hit(tb: Seq<u8>, sb: Seq<u8>, idx: Seq<usize>, type_off: int, m: int, field: Seq<char>, depth: nat) -> Option<u32>
    decreases 7 - depth, 0int,
{
    let name = member_name(tb, sb, m);
    if depth > 6 {
        None
    } else if name == field {
        Some(member_bits(tb, type_off, m))
    } else if name.len() == 0 {
        let inner = spec_resolve(tb, idx, le32(tb, m + 4), 8) as int;
        match spec_member_bit_off(tb, sb, idx, inner, field, depth + 1) {
            Some(b) => Some(member_bits(tb, type_off, m).wrapping_add(b)),
            None => None,
        }
    } else {
        None
    }
}

/// What members `i` on of the struct or union at `type_off` give for
/// `field`: the first member that gives something (see `member_hit`).
pub open spec fn members_from(tb: Seq<u8>, sb: Seq<u8>, idx: Seq<usize>, type_off: int, i: int, field: Seq<char>, depth: nat) -> Option<u32>
    decreases 7 - depth, 0x1_0000 - i,
{
    if depth > 6 || i < 0 || i >= spec_vlen(tb, type_off) {
        None
    } else {
        let m = type_off + 12 + i * 12;
        if m + 12 > tb.len() {
            None
        } else {
            match member_hit(tb, sb, idx, type_off, m, field, depth) {
                Some(x) => Some(x),
                None => members_from(tb, sb, idx, type_off, i + 1, field, depth),
            }
        }
    }
}

/// The bit offset of member `field` in the struct or union record at
/// `type_off`, looking into anonymous members down to depth 6 (see
/// `members_from`).
pub open spec fn spec_member_bit_off(tb: Seq<u8>, sb: Seq<u8>, idx: Seq<usize>, type_off: int, field: Seq<char>, depth: nat) -> Option<u32>
    decreases 7 - depth, 0x1_0001int,
{
    if depth > 6 || type_off < 0 || type_off == usize::MAX || type_off + 12 > tb.len() {
        None
    } else if spec_kind(tb, type_off) != 4 && spec_kind(tb, type_off) != 5 {
        None
    } else {
        members_from(tb, sb, idx, type_off, 0, field, depth)
    }
}

/// What the member record at `m` gives for `field` (see `member_hit`).
fn member_at(tb: &[u8], sb: &[u8], idx: &[usize], type_off: usize, m: usize, field: &str, depth: u32) -> (r: Option<u32>)
    requires
        depth <= 6,
        type_off + 8 <= tb.len(),
        m + 12 <= tb.len(),
    ensures
        r == member_hit(tb@, sb@, idx@, type_off as int, m as int, field@, depth as nat),
    decreases 7 - depth, 0int,
{
    let raw = u32_le(tb, m + 8);
    let bit = if u32_le(tb, type_off + 4) >= 0x8000_0000 { raw & 0x00FF_FFFF } else { raw };
    assert((raw & 0x00FF_FFFF) == raw % 0x100_0000) by (bit_vector);
    let name = btf_str(sb, u32_le(tb, m) as usize);
    if same_text(name, field) {
        return Some(bit);
    }
    if name.is_empty() {
        let inner = resolve(tb, idx, u32_le(tb, m + 4));
        match member_bit_off(tb, sb, idx, inner, field, depth + 1) {
            Some(b) => Some(bit.wrapping_add(b)),
            None => None,
        }
    } else {
        None
    }
}

/// The bit offset of member `field` in the struct or union record at
/// `type_off` (see `spec_member_bit_off`).
pub fn member_bit_off(tb: &[u8], sb: &[u8], idx: &[usize], type_off: usize, field: &str, depth: u32) -> (r: Option<u32>)
    ensures
        r == spec_member_bit_off(tb@, sb@, idx@, type_off as int, field@, depth as nat),
    decreases 7 - depth, 1int,
{
    if depth > 6 || type_off == usize::MAX || tb.len() < 12 || type_off > tb.len() - 12 {
        return None;
    }
    let kind = btf_kind(tb, type_off);
    if kind != 4 && kind != 5 {
        return None;
    }
    let vlen = btf_vlen(tb, type_off);
    let ghost target = spec_member_bit_off(tb@, sb@, idx@, type_off as int, field@, depth as nat);
    assert(target == members_from(tb@, sb@, idx@, type_off as int, 0, field@, depth as nat));
    let base = type_off + 12;
    let room = tb.len() - base;
    let mut i: usize = 0;
    while i < vlen
        invariant
            depth <= 6,
            base == type_off + 12,
            base + room == tb@.len(),
            tb@.len() <= usize::MAX,
            vlen < 0x1_0000,
            vlen == spec_vlen(tb@, type_off as int),
            i <= vlen,
            members_from(tb@, sb@, idx@, type_off as int, i as int, field@, depth as nat) == target,
            target == spec_member_bit_off(tb@, sb@, idx@, type_off as int, field@, depth as nat),
        decreases vlen - i,
    {
        if i * 12 + 12 > room {
            assert(members_from(tb@, sb@, idx@, type_off as int, i as int, field@, depth as nat) == None::<u32>);
            return None;
        }
        let m = base + i * 12;
        match member_at(tb, sb, idx, type_off, m, field, depth) {
            Some(x) => {
                assert(m == type_off + 12 + i * 12);
                assert(member_hit(tb@, sb@, idx@, type_off as int, m as int, field@, depth as nat) == Some(x));
                assert(members_from(tb@, sb@, idx@, type_off as int, i as int, field@, depth as nat) == Some(x));
                return Some(x);
            },
            None => {},
        }
        i += 1;
    }
    None
}

// ── the iter_type enum ───────────────────────────────────────────────────────

/// The values of `ITER_IOVEC` and `ITER_UBUF` among the members, from `i`
/// on, of the enum record at `off`, starting from what was found before
/// member `i` (a later member of the same name wins).
pub open spec fn enum_scan(tb: Seq<u8>, sb: Seq<u8>, off: int, i: int, iov: Option<i32>, ubuf: Option<i32>) -> (Option<i32>, Option<i32>)
    decreases 0x1_0000 - i,
{
    if i < 0 || i >= spec_vlen(tb, off) {
        (iov, ubuf)
    } else {
        let e = off + 12 + i * 8;
        if e + 8 > tb.len() {
            (iov, ubuf)
        } else {
            let name = spec_btf_str(sb, le32(tb, e));
            let val = as_signed32(le32(tb, e + 4)) as i32;
            if name == "ITER_IOVEC"@ {
                enum_scan(tb, sb, off, i + 1, Some(val), ubuf)
            } else if name == "ITER_UBUF"@ {
                enum_scan(tb, sb, off, i + 1, iov, Some(val))
            } else {
                enum_scan(tb, sb, off, i + 1, iov, ubuf)
            }
        }
    }
}

/// The `(ITER_IOVEC, ITER_UBUF)` values (low bytes) of the first enum named
/// `iter_type`, from index slot `j` on, that defines both.
pub open spec fn iter_enum_from(tb: Seq<u8>, sb: Seq<u8>, idx: Seq<usize>, j: int) -> Option<(u8, u8)>
    decreases idx.len() - j,
{
    if j < 0 || j >= idx.len() {
        None
    } else if slot_ok(tb, idx, j) && spec_kind(tb, idx[j] as int) == 6 && record_name(tb, sb, idx[j] as int) == "iter_type"@ {
        let (iv, ub) = enum_scan(tb, sb, idx[j] as int, 0, None, None);
        if iv is Some && ub is Some {
            Some((iv->0 as u8, ub->0 as u8))
        } else {
            iter_enum_from(tb, sb, idx, j + 1)
        }
    } else {
        iter_enum_from(tb, sb, idx, j + 1)
    }
}

/// The values of the enum record at `off` (see `enum_scan`).
fn scan_iter_enum(tb: &[u8], sb: &[u8], off: usize) -> (r: (Option<i32>, Option<i32>))
    requires
        off + 12 <= tb.len(),
    ensures
        r == enum_scan(tb@, sb@, off as int, 0, None, None),
{
    let vlen = btf_vlen(tb, off);
    let base = off + 12;
    let room = tb.len() - base;
    let mut iov: Option<i32> = None;
    let mut ubuf: Option<i32> = None;
    let mut i: usize = 0;
    while i < vlen
        invariant
            base == off + 12,
            base + room == tb@.len(),
            tb@.len() <= usize::MAX,
            vlen < 0x1_0000,
            vlen == spec_vlen(tb@, off as int),
            i <= vlen,
            enum_scan(tb@, sb@, off as int, i as int, iov, ubuf) == enum_scan(tb@, sb@, off as int, 0, None, None),
        decreases vlen - i,
    {
        if i * 8 + 8 > room {
            return (iov, ubuf);
        }
        let e = base + i * 8;
        let name = btf_str(sb, u32_le(tb, e) as usize);
        let val = read_le_i32(tb, e + 4);
        if same_text(name, "ITER_IOVEC") {
            iov = Some(val);
        } else if same_text(name, "ITER_UBUF") {
            ubuf = Some(val);
        }
        i += 1;
    }
    (iov, ubuf)
}

/// The `(ITER_IOVEC, ITER_UBUF)` values of the kernel's `iter_type` enum
/// (see `iter_enum_from`).
pub fn find_iter_enum_vals(tb: &[u8], sb: &[u8], idx: &[usize]) -> (r: Option<(u8, u8)>)
    ensures
        r == iter_enum_from(tb@, sb@, idx@, 1),
{
    let mut j: usize = 1;
    while j < idx.len()
        invariant
            1 <= j,
            j <= idx@.len() || idx@.len() == 0,
            iter_enum_from(tb@, sb@, idx@, j as int) == iter_enum_from(tb@, sb@, idx@, 1),
        decreases idx@.len() - j,
    {
        let off = idx[j];
        if off != usize::MAX && tb.len() >= 12 && off <= tb.len() - 12 && btf_kind(tb, off) == 6 {
            let n = btf_str(sb, u32_le(tb, off) as usize);
            if same_text(n, "iter_type") {
                let (iv, ub) = scan_iter_enum(tb, sb, off);
                match (iv, ub) {
                    (Some(a), Some(b)) => {
                        return Some((a as u8, b as u8));
                    },
                    _ => {},
                }
            }
        }
        j += 1;
    }
    None
}

// ── layouts ──────────────────────────────────────────────────────────────────

/// The `iov_iter` layout of Linux 6.4 and later, used when BTF does not give it.
pub open spec fn default_iov() -> IovLayout {
    IovLayout {
        iter_type_off: 16,
        iov_offset_off: 24,
        count_off: 32,
        ptr_off: 40,
        iter_iovec: 0,
        iter_ubuf: 1,
        _pad: 0,
    }
}

/// `skc_v6_daddr`'s offset used when BTF does not give it: the typical value
/// on x86_64 with `CONFIG_NET_NS` and `CONFIG_IPV6`.
pub const DEFAULT_V6_DADDR_OFF: u32 = 56;

/// The UDP receive-path layout used when BTF does not give it (a rough value
/// for x86_64 Linux 6.x).
pub open spec fn default_udp() -> UdpLayout {
    UdpLayout { sk_receive_queue_off: 320, skb_data_off: 208 }
}

/// Member `field`'s bit offset in the struct record at `off`.
pub open spec fn bits_of(tb: Seq<u8>, sb: Seq<u8>, idx: Seq<usize>, off: usize, field: Seq<char>) -> Option<u32> {
    spec_member_bit_off(tb, sb, idx, off as int, field, 0)
}

/// The bit offset of the data pointer in `iov_iter`: `ubuf`, else `__iov`,
/// else `iov`.
pub open spec fn iov_ptr_bits(tb: Seq<u8>, sb: Seq<u8>, idx: Seq<usize>, it: usize) -> Option<u32> {
    match bits_of(tb, sb, idx, it, "ubuf"@) {
        Some(b) => Some(b),
        None => match bits_of(tb, sb, idx, it, "__iov"@) {
            Some(b) => Some(b),
            None => bits_of(tb, sb, idx, it, "iov"@),
        },
    }
}

/// The `iov_iter` layout, in bytes from the start of `msghdr` (sums wrap at
/// 32 bits): `msg_iter`'s offset plus each member's offset within
/// `iov_iter`. The `ITER_IOVEC`/`ITER_UBUF` values come from the kernel's
/// `iter_type` enum, or, without it, from the member order (`(0, 1)` when
/// `count` comes before the data pointer, else `(1, 0)`). None when a struct
/// or member is missing.
pub open spec fn spec_detect_iov(tb: Seq<u8>, sb: Seq<u8>, idx: Seq<usize>) -> Option<IovLayout> {
    match (spec_find_struct(tb, sb, idx, "msghdr"@), spec_find_struct(tb, sb, idx, "iov_iter"@)) {
        (Some(mh), Some(it)) => {
            match (bits_of(tb, sb, idx, mh, "msg_iter"@), bits_of(tb, sb, idx, it, "iter_type"@),
                bits_of(tb, sb, idx, it, "iov_offset"@), bits_of(tb, sb, idx, it, "count"@), iov_ptr_bits(tb, sb, idx, it)) {
                (Some(mi), Some(ty), Some(io), Some(ct), Some(pt)) => {
                    let base = mi / 8;
                    let vals = match iter_enum_from(tb, sb, idx, 1) {
                        Some(p) => p,
                        None => if ct < pt { (0u8, 1u8) } else { (1u8, 0u8) },
                    };
                    Some(IovLayout {
                        iter_type_off: base.wrapping_add(ty / 8),
                        iov_offset_off: base.wrapping_add(io / 8),
                        count_off: base.wrapping_add(ct / 8),
                        ptr_off: base.wrapping_add(pt / 8),
                        iter_iovec: vals.0,
                        iter_ubuf: vals.1,
                        _pad: 0,
                    })
                },
                _ => None,
            }
        },
        _ => None,
    }
}

/// Byte offset of `skc_v6_daddr` in `sock_common`.
pub open spec fn spec_detect_sock(tb: Seq<u8>, sb: Seq<u8>, idx: Seq<usize>) -> Option<u32> {
    match spec_find_struct(tb, sb, idx, "sock_common"@) {
        Some(sc) => match bits_of(tb, sb, idx, sc, "skc_v6_daddr"@) {
            Some(b) => Some(b / 8),
            None => None,
        },
        None => None,
    }
}

/// Byte offsets of `sk_receive_queue` in `sock` and of `data` in `sk_buff`.
pub open spec fn spec_detect_udp(tb: Seq<u8>, sb: Seq<u8>, idx: Seq<usize>) -> Option<UdpLayout> {
    match (spec_find_struct(tb, sb, idx, "sock"@), spec_find_struct(tb, sb, idx, "sk_buff"@)) {
        (Some(so), Some(sk)) => match (bits_of(tb, sb, idx, so, "sk_receive_queue"@), bits_of(tb, sb, idx, sk, "data"@)) {
            (Some(q), Some(d)) => Some(UdpLayout { sk_receive_queue_off: q / 8, skb_data_off: d / 8 }),
            _ => None,
        },
        _ => None,
    }
}

fn iov_ptr_off(tb: &[u8], sb: &[u8], idx: &[usize], it: usize) -> (r: Option<u32>)
    ensures
        r == iov_ptr_bits(tb@, sb@, idx@, it),
{
    match member_bit_off(tb, sb, idx, it, "ubuf", 0) {
        Some(b) => Some(b),
        None => match member_bit_off(tb, sb, idx, it, "__iov", 0) {
            Some(b) => Some(b),
            None => member_bit_off(tb, sb, idx, it, "iov", 0),
        },
    }
}

/// The `iov_iter` layout (see `spec_detect_iov`).
pub fn detect_iov(tb: &[u8], sb: &[u8], idx: &[usize]) -> (r: Option<IovLayout>)
    ensures
        r == spec_detect_iov(tb@, sb@, idx@),
{
    let mh = match find_struct(tb, sb, idx, "msghdr") {
        Some(o) => o,
        None => return None,
    };
    let it = match find_struct(tb, sb, idx, "iov_iter") {
        Some(o) => o,
        None => return None,
    };
    let mi = member_bit_off(tb, sb, idx, mh, "msg_iter", 0);
    let ty = member_bit_off(tb, sb, idx, it, "iter_type", 0);
    let io = member_bit_off(tb, sb, idx, it, "iov_offset", 0);
    let ct = member_bit_off(tb, sb, idx, it, "count", 0);
    let pt = iov_ptr_off(tb, sb, idx, it);
    match (mi, ty, io, ct, pt) {
        (Some(mi), Some(ty), Some(io), Some(ct), Some(pt)) => {
            let base = mi / 8;
            let (iter_iovec, iter_ubuf) = match find_iter_enum_vals(tb, sb, idx) {
                Some(p) => p,
                None => if ct < pt { (0u8, 1u8) } else { (1u8, 0u8) },
            };
            Some(IovLayout {
                iter_type_off: base.wrapping_add(ty / 8),
                iov_offset_off: base.wrapping_add(io / 8),
                count_off: base.wrapping_add(ct / 8),
                ptr_off: base.wrapping_add(pt / 8),
                iter_iovec,
                iter_ubuf,
                _pad: 0,
            })
        },
        _ => None,
    }
}

/// The `sock_common` layout, when BTF gives `skc_v6_daddr`'s offset.
pub fn detect_sock(tb: &[u8], sb: &[u8], idx: &[usize]) -> (r: Option<SockLayout>)
    ensures
        match spec_detect_sock(tb@, sb@, idx@) {
            Some(o) => r matches Some(l) && l.v6_daddr_off == o && l._pad@ == seq![0u8, 0u8, 0u8, 0u8],
            None => r is None,
        },
{
    let sc = match find_struct(tb, sb, idx, "sock_common") {
        Some(o) => o,
        None => return None,
    };
    match member_bit_off(tb, sb, idx, sc, "skc_v6_daddr", 0) {
        Some(b) => {
            let l = SockLayout { v6_daddr_off: b / 8, _pad: [0u8; 4] };
            assert(l._pad@ =~= seq![0u8, 0u8, 0u8, 0u8]);
            Some(l)
        },
        None => None,
    }
}

/// The UDP receive-path layout (see `spec_detect_udp`).
pub fn detect_udp(tb: &[u8], sb: &[u8], idx: &[usize]) -> (r: Option<UdpLayout>)
    ensures
        r == spec_detect_udp(tb@, sb@, idx@),
{
    let so = match find_struct(tb, sb, idx, "sock") {
        Some(o) => o,
        None => return None,
    };
    let sk = match find_struct(tb, sb, idx, "sk_buff") {
        Some(o) => o,
        None => return None,
    };
    let q = match member_bit_off(tb, sb, idx, so, "sk_receive_queue", 0) {
        Some(b) => b,
        None => return None,
    };
    let d = match member_bit_off(tb, sb, idx, sk, "data", 0) {
        Some(b) => b,
        None => return None,
    };
    Some(UdpLayout { sk_receive_queue_off: q / 8, skb_data_off: d / 8 })
}

// ── the blob ─────────────────────────────────────────────────────────────────

/// The type and string sections of a BTF blob: its header (24 bytes, magic
/// `0xEB9F`, then little-endian header length and the sections' offsets and
/// lengths, relative to the header's end) must fit and name sections that
/// lie within the blob.
pub open spec fn spec_load_btf(d: Seq<u8>) -> Option<(Seq<u8>, Seq<u8>)> {
    if d.len() < 24 || le16(d, 0) != BTF_MAGIC {
        None
    } else {
        let hdr = le32(d, 4);
        let ts = hdr + le32(d, 8);
        let tl = le32(d, 12);
        let ss = hdr + le32(d, 16);
        let sl = le32(d, 20);
        if ts + tl > d.len() || ss + sl > d.len() {
            None
        } else {
            Some((d.subrange(ts, ts + tl), d.subrange(ss, ss + sl)))
        }
    }
}

/// The type section, the string section and the type index of a BTF blob
/// (see `spec_load_btf` and `spec_index`).
pub fn load_btf(data: &[u8]) -> (r: Option<(Vec<u8>, Vec<u8>, Vec<usize>)>)
    ensures
        match spec_load_btf(data@) {
            Some((t, s)) => r matches Some((tb, sb, idx)) && tb@ == t && sb@ == s && idx@ == spec_index(t),
            None => r is None,
        },
{
    if data.len() < 24 {
        return None;
    }
    if read_le16(data, 0) != BTF_MAGIC {
        return None;
    }
    let hdr = u32_le(data, 4) as u64;
    let ts = hdr + u32_le(data, 8) as u64;
    let tl = u32_le(data, 12) as u64;
    let ss = hdr + u32_le(data, 16) as u64;
    let sl = u32_le(data, 20) as u64;
    let n = data.len() as u64;
    if ts + tl > n || ss + sl > n {
        return None;
    }
    let ts = ts as usize;
    let tl = tl as usize;
    let ss = ss as usize;
    let sl = sl as usize;
    let tb = vstd::slice::slice_to_vec(&data[ts..ts + tl]);
    let sb = vstd::slice::slice_to_vec(&data[ss..ss + sl]);
    let idx = build_index(tb.as_slice());
    Some((tb, sb, idx))
}

/// The sections of a blob that is there and parses.
pub open spec fn blob_sections(data: Option<Seq<u8>>) -> Option<(Seq<u8>, Seq<u8>)> {
    match data {
        Some(d) => spec_load_btf(d),
        None => None,
    }
}

pub open spec fn opt_bytes(data: Option<&[u8]>) -> Option<Seq<u8>> {
    match data {
        Some(d) => Some(d@),
        None => None,
    }
}

/// Both kprobe layouts from the kernel's BTF blob (`None` when it could not
/// be read): each is what BTF gives, or its default when the blob does not
/// parse or lacks what the layout needs.
pub fn detect_layouts(data: Option<&[u8]>) -> (r: (IovLayout, SockLayout))
    ensures
        r.0 == match blob_sections(opt_bytes(data)) {
            Some((t, s)) => match spec_detect_iov(t, s, spec_index(t)) {
                Some(l) => l,
                None => default_iov(),
            },
            None => default_iov(),
        },
        r.1.v6_daddr_off == match blob_sections(opt_bytes(data)) {
            Some((t, s)) => match spec_detect_sock(t, s, spec_index(t)) {
                Some(o) => o,
                None => DEFAULT_V6_DADDR_OFF,
            },
            None => DEFAULT_V6_DADDR_OFF,
        },
        r.1._pad@ == seq![0u8, 0u8, 0u8, 0u8],
{
    let default_iov = IovLayout {
        iter_type_off: 16,
        iov_offset_off: 24,
        count_off: 32,
        ptr_off: 40,
        iter_iovec: 0,
        iter_ubuf: 1,
        _pad: 0,
    };
    let default_sock = SockLayout { v6_daddr_off: DEFAULT_V6_DADDR_OFF, _pad: [0u8; 4] };
    assert(default_sock._pad@ =~= seq![0u8, 0u8, 0u8, 0u8]);
    let btf = match data {
        Some(d) => load_btf(d),
        None => None,
    };
    match btf {
        Some((tb, sb, idx)) => {
            let iov = match detect_iov(tb.as_slice(), sb.as_slice(), idx.as_slice()) {
                Some(l) => l,
                None => default_iov,
            };
            let sock = match detect_sock(tb.as_slice(), sb.as_slice(), idx.as_slice()) {
                Some(l) => l,
                None => default_sock,
            };
            (iov, sock)
        },
        None => (default_iov, default_sock),
    }
}

/// The UDP receive-path layout from the kernel's BTF blob (`None` when it
/// could not be read), or its default when the blob does not parse or lacks
/// what the layout needs.
pub fn detect_udp_layout(data: Option<&[u8]>) -> (r: UdpLayout)
    ensures
        r == match blob_sections(opt_bytes(data)) {
            Some((t, s)) => match spec_detect_udp(t, s, spec_index(t)) {
                Some(l) => l,
                None => default_udp(),
            },
            None => default_udp(),
        },
{
    let default = UdpLayout { sk_receive_queue_off: 320, skb_data_off: 208 };
    let btf = match data {
        Some(d) => load_btf(d),
        None => None,
    };
    match btf {
        Some((tb, sb, idx)) => match detect_udp(tb.as_slice(), sb.as_slice(), idx.as_slice()) {
            Some(l) => l,
            None => default,
        },
        None => default,
    }
}

// ── laws ─────────────────────────────────────────────────────────────────────

proof fn lemma_record_offsets(tb: Seq<u8>, off: int)
    requires
        tb.len() <= usize::MAX,
    ensures
        forall|j: int| 0 <= j < record_offsets(tb, off).len() ==> off <= #[trigger] record_offsets(tb, off)[j]
            && record_offsets(tb, off)[j] + 12 <= tb.len(),
        forall|i: int, j: int| 0 <= i < j < record_offsets(tb, off).len()
            ==> record_offsets(tb, off)[i] < record_offsets(tb, off)[j],
    decreases tb.len() - off,
{
    if !(off < 0 || off + 12 > tb.len()) {
        assert(spec_vlen(tb, off) >= 0);
        let next = off + spec_record_size(tb, off);
        if next + 12 <= tb.len() {
            lemma_record_offsets(tb, next);
        }
        let r = record_offsets(tb, off);
        assert forall|j: int| 0 < j < r.len() implies r[j] == record_offsets(tb, next)[j - 1] by {}
    }
}

/// Law: every type id of the index (1 on) points at a whole record header,
/// and the records come in increasing order.
pub proof fn law_index_slots_fit(tb: Seq<u8>)
    requires
        tb.len() <= usize::MAX,
    ensures
        forall|i: int| 1 <= i < spec_index(tb).len() ==> #[trigger] spec_index(tb)[i] + 12 <= tb.len(),
        forall|i: int, j: int| 1 <= i < j < spec_index(tb).len() ==> spec_index(tb)[i] < spec_index(tb)[j],
{
    lemma_record_offsets(tb, 0);
    let r = record_offsets(tb, 0);
    assert forall|i: int| 1 <= i < spec_index(tb).len() implies spec_index(tb)[i] == r[i - 1] by {}
}

/// Law: a type record is its 12-byte header followed by the data its kind
/// defines in the BTF format: 4 bytes for INT, VAR and DECL_TAG; 12 bytes for
/// ARRAY; 12 bytes per member for STRUCT, UNION, DATASEC and ENUM64; 8 bytes
/// per value for ENUM and per parameter for FUNC_PROTO; nothing for the other
/// kinds (PTR, FWD, TYPEDEF, VOLATILE, CONST, RESTRICT, FUNC, FLOAT,
/// TYPE_TAG).
pub proof fn law_record_size_by_kind(tb: Seq<u8>, off: int)
    requires
        0 <= off,
        off + 12 <= tb.len(),
    ensures
        spec_kind(tb, off) == 1 ==> spec_record_size(tb, off) == 16,
        spec_kind(tb, off) == 3 ==> spec_record_size(tb, off) == 24,
        spec_kind(tb, off) == 4 ==> spec_record_size(tb, off) == 12 + 12 * spec_vlen(tb, off),
        spec_kind(tb, off) == 5 ==> spec_record_size(tb, off) == 12 + 12 * spec_vlen(tb, off),
        spec_kind(tb, off) == 6 ==> spec_record_size(tb, off) == 12 + 8 * spec_vlen(tb, off),
        spec_kind(tb, off) == 13 ==> spec_record_size(tb, off) == 12 + 8 * spec_vlen(tb, off),
        spec_kind(tb, off) == 14 ==> spec_record_size(tb, off) == 16,
        spec_kind(tb, off) == 15 ==> spec_record_size(tb, off) == 12 + 12 * spec_vlen(tb, off),
        spec_kind(tb, off) == 17 ==> spec_record_size(tb, off) == 16,
        spec_kind(tb, off) == 19 ==> spec_record_size(tb, off) == 12 + 12 * spec_vlen(tb, off),
        spec_kind(tb, off) == 2 || spec_kind(tb, off) == 7 || (8 <= spec_kind(tb, off) <= 12)
            || spec_kind(tb, off) == 16 || spec_kind(tb, off) == 18 ==> spec_record_size(tb, off) == 12,
        spec_index(tb).len() >= 2 ==> spec_index(tb)[1] == 0,
{
}

/// Law: the index lists the records back to back: after the record at slot
/// `i` comes, at slot `i + 1`, the record that starts right after it.
pub proof fn law_index_records_adjacent(tb: Seq<u8>, off: int)
    requires
        0 <= off,
        off + 12 <= tb.len(),
        tb.len() <= usize::MAX,
        off + spec_record_size(tb, off) + 12 <= tb.len(),
    ensures
        record_offsets(tb, off).len() >= 2,
        record_offsets(tb, off)[0] == off,
        record_offsets(tb, off)[1] == off + spec_record_size(tb, off),
{
    assert(spec_vlen(tb, off) >= 0);
    let next = off + spec_record_size(tb, off);
    assert(record_offsets(tb, off) == seq![off as usize] + record_offsets(tb, next));
    assert(record_offsets(tb, next)[0] == next as usize);
}

} // verus!
