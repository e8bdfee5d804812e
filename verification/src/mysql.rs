//! MySQL client protocol: handshake parsing and query normalization.

use vstd::prelude::*;
use crate::bytes::{le16, le24, le32, le64, read_le16, read_le24, read_le32, read_le64};
use crate::text::{lossy_utf8, utf8_lossy, chars_of, push_char};

verus! {

pub const CLIENT_PROTOCOL_41: u32 = 0x0000_0200;
pub const CLIENT_CONNECT_WITH_DB: u32 = 0x0000_0008;
pub const CLIENT_SECURE_CONNECTION: u32 = 0x0000_8000;
pub const CLIENT_PLUGIN_AUTH_LENENC_CLIENT_DATA: u32 = 0x0020_0000;

// ── byte-level specifications ────────────────────────────────────────────────

/// Index of the first NUL byte at or after `p`, if any.
pub open spec fn find_nul(d: Seq<u8>, p: int) -> Option<int>
    decreases d.len() - p,
{
    if p < 0 || p >= d.len() {
        None
    } else if d[p] == 0 {
        Some(p)
    } else {
        find_nul(d, p + 1)
    }
}

/// Where a failed scan for a NUL byte leaves the cursor.
pub open spec fn scan_end(d: Seq<u8>, p: int) -> int {
    if p < d.len() {
        d.len() as int
    } else {
        p
    }
}

/// A MySQL length-encoded integer at `p`: its value (None when malformed or
/// truncated) and the cursor position afterwards.
pub open spec fn spec_lenenc(d: Seq<u8>, p: int) -> (Option<u64>, int) {
    if !(0 <= p < d.len()) {
        (None, p)
    } else {
        let first = d[p];
        let q = p + 1;
        if first <= 250 {
            (Some(first as u64), q)
        } else if first == 252 {
            if q + 2 <= d.len() {
                (Some(le16(d, q) as u64), q + 2)
            } else {
                (None, q)
            }
        } else if first == 253 {
            if q + 3 <= d.len() {
                (Some(le24(d, q) as u64), q + 3)
            } else {
                (None, q)
            }
        } else if first == 254 {
            if q + 8 <= d.len() {
                (Some(le64(d, q) as u64), q + 8)
            } else {
                (None, q)
            }
        } else {
            (None, q)
        }
    }
}

/// Cursor position after the auth response that starts at `p`, whose encoding
/// depends on the capability flags; None when it is malformed or truncated.
pub open spec fn auth_end(d: Seq<u8>, caps: u32, p: int) -> Option<int> {
    if caps & CLIENT_PLUGIN_AUTH_LENENC_CLIENT_DATA != 0 {
        match spec_lenenc(d, p).0 {
            Some(len) => {
                let q = spec_lenenc(d, p).1;
                if q + len <= d.len() {
                    Some(q + len)
                } else {
                    None
                }
            },
            None => None,
        }
    } else if caps & CLIENT_SECURE_CONNECTION != 0 {
        if 0 <= p < d.len() && p + 1 + d[p] <= d.len() {
            Some(p + 1 + d[p])
        } else {
            None
        }
    } else {
        match find_nul(d, p) {
            Some(z) => Some(z + 1),
            None => None,
        }
    }
}

/// Capability flags of a handshake response.
pub open spec fn handshake_caps(d: Seq<u8>) -> u32 {
    le32(d, 4) as u32
}

/// `(username, database)` of a HandshakeResponse41 packet (MySQL framing
/// header included), or None when it is not one or is malformed.
pub open spec fn spec_handshake(d: Seq<u8>) -> Option<(Seq<char>, Seq<char>)> {
    let caps = handshake_caps(d);
    if d.len() < 36 || d[3] != 1 || caps & CLIENT_PROTOCOL_41 == 0 {
        None
    } else {
        match find_nul(d, 36) {
            None => None,
            Some(z) => {
                let user = lossy_utf8(d.subrange(36, z));
                match auth_end(d, caps, z + 1) {
                    None => None,
                    Some(p) => {
                        let db = if caps & CLIENT_CONNECT_WITH_DB != 0 {
                            match find_nul(d, p) {
                                Some(z2) => lossy_utf8(d.subrange(p, z2)),
                                None => Seq::<char>::empty(),
                            }
                        } else {
                            Seq::<char>::empty()
                        };
                        Some((user, db))
                    },
                }
            },
        }
    }
}

// ── byte-level parsing ───────────────────────────────────────────────────────

/// Reads a NUL-terminated string at `*pos` and moves the cursor past the NUL.
pub fn read_null_str(data: &[u8], pos: &mut usize) -> (res: Option<String>)
    ensures
        match find_nul(data@, *old(pos) as int) {
            Some(z) => res matches Some(s) && s@ == lossy_utf8(
                data@.subrange(*old(pos) as int, z),
            ) && *final(pos) == z + 1,
            None => res is None && *final(pos) == scan_end(data@, *old(pos) as int),
        },
{
    let start = *pos;
    if start >= data.len() {
        return None;
    }
    let mut i = start;
    while i < data.len()
        invariant
            start <= i <= data@.len(),
            start == *old(pos),
            find_nul(data@, start as int) == find_nul(data@, i as int),
        decreases data@.len() - i,
    {
        if data[i] == 0 {
            assert(find_nul(data@, i as int) == Some(i as int));
            let s = utf8_lossy(&data[start..i]);
            *pos = i + 1;
            return Some(s);
        }
        i += 1;
    }
    *pos = i;
    None
}

/// Skips a NUL-terminated string at `*pos`, moving the cursor past the NUL.
pub fn skip_null_str(data: &[u8], pos: &mut usize) -> (res: Option<()>)
    ensures
        match find_nul(data@, *old(pos) as int) {
            Some(z) => res is Some && *final(pos) == z + 1,
            None => res is None && *final(pos) == scan_end(data@, *old(pos) as int),
        },
{
    let start = *pos;
    if start >= data.len() {
        return None;
    }
    let mut i = start;
    while i < data.len()
        invariant
            start <= i <= data@.len(),
            start == *old(pos),
            find_nul(data@, start as int) == find_nul(data@, i as int),
        decreases data@.len() - i,
    {
        if data[i] == 0 {
            assert(find_nul(data@, i as int) == Some(i as int));
            *pos = i + 1;
            return Some(());
        }
        i += 1;
    }
    *pos = i;
    None
}

/// Reads a length-encoded integer at `*pos`.
pub fn read_lenenc_int(data: &[u8], pos: &mut usize) -> (res: Option<u64>)
    ensures
        res == spec_lenenc(data@, *old(pos) as int).0,
        *final(pos) == spec_lenenc(data@, *old(pos) as int).1,
{
    let p = *pos;
    if p >= data.len() {
        return None;
    }
    let first = data[p];
    *pos = p + 1;
    let q = p + 1;
    if first <= 250 {
        Some(first as u64)
    } else if first == 252 {
        if data.len() - q >= 2 {
            let v = read_le16(data, q) as u64;
            *pos = q + 2;
            Some(v)
        } else {
            None
        }
    } else if first == 253 {
        if data.len() - q >= 3 {
            let v = read_le24(data, q) as u64;
            *pos = q + 3;
            Some(v)
        } else {
            None
        }
    } else if first == 254 {
        if data.len() - q >= 8 {
            let v = read_le64(data, q);
            *pos = q + 8;
            Some(v)
        } else {
            None
        }
    } else {
        None
    }
}

/// Parses a `HandshakeResponse41` packet and returns `(username, database)`.
/// The database is only populated when `CLIENT_CONNECT_WITH_DB` is set in the
/// capability flags; otherwise it is an empty string.
///
/// Packet layout (MySQL framing header + payload):
///   [0..3]  payload length (3-byte LE, ignored here)
///   [3]     sequence number — must be 1
///   [4..8]  capability flags (4-byte LE)
///   [8..12] max packet size
///   [12]    character set
///   [13..36] reserved (23 zero bytes)
///   [36..]  username (null-terminated)
///           auth response (length varies by capability flags)
///           database name (null-terminated, only if CLIENT_CONNECT_WITH_DB)
pub fn parse_handshake_response(payload: &[u8]) -> (res: Option<(String, String)>)
    ensures
        match spec_handshake(payload@) {
            Some((u, d)) => res matches Some((su, sd)) && su@ == u && sd@ == d,
            None => res is None,
        },
{
    if payload.len() < 36 {
        return None;
    }
    if payload[3] != 0x01 {
        return None;
    }
    let caps = read_le32(payload, 4);
    if caps & CLIENT_PROTOCOL_41 == 0 {
        return None;
    }
    let mut pos: usize = 36;
    let username = match read_null_str(payload, &mut pos) {
        Some(u) => u,
        None => return None,
    };
    let ghost after_user = pos as int;
    if caps & CLIENT_PLUGIN_AUTH_LENENC_CLIENT_DATA != 0 {
        let len = match read_lenenc_int(payload, &mut pos) {
            Some(l) => l,
            None => return None,
        };
        if len > (payload.len() - pos) as u64 {
            return None;
        }
        pos = pos + len as usize;
    } else if caps & CLIENT_SECURE_CONNECTION != 0 {
        if pos >= payload.len() {
            return None;
        }
        let len = payload[pos] as usize;
        if len >= payload.len() - pos {
            return None;
        }
        pos = pos + 1 + len;
    } else {
        match skip_null_str(payload, &mut pos) {
            Some(_) => {},
            None => return None,
        }
    }
    assert(auth_end(payload@, caps, after_user) == Some(pos as int));
    let db = if caps & CLIENT_CONNECT_WITH_DB != 0 {
        match read_null_str(payload, &mut pos) {
            Some(d) => d,
            None => String::new(),
        }
    } else {
        String::new()
    };
    Some((username, db))
}

// ── query normalization ──────────────────────────────────────────────────────

pub open spec fn is_digit(c: char) -> bool {
    '0' <= c && c <= '9'
}

/// What `char::is_alphanumeric` answers for `c` (Unicode Alphabetic or Numeric).
pub uninterp spec fn char_is_alphanumeric(c: char) -> bool;

/// An ASCII letter or digit.
pub open spec fn ascii_alphanumeric(c: char) -> bool {
    ('a' <= c && c <= 'z') || ('A' <= c && c <= 'Z') || is_digit(c)
}

/// `char::is_alphanumeric`: the ASCII letters and digits among ASCII
/// characters; beyond ASCII, what the Unicode tables say.
pub open spec fn spec_alphanumeric(c: char) -> bool {
    if (c as u32) < 128 {
        ascii_alphanumeric(c)
    } else {
        char_is_alphanumeric(c)
    }
}

/// `char::is_alphanumeric`. The contract names its result and states it for
/// ASCII (Alphabetic or Numeric holds there of exactly the letters and
/// digits); which other characters it accepts is not stated.
#[verifier::external_body]
fn alphanumeric(c: char) -> (r: bool)
    ensures
        r == char_is_alphanumeric(c),
        (c as u32) < 128 ==> (r <==> ascii_alphanumeric(c)),
{
    c.is_alphanumeric()
}

pub open spec fn spec_is_ident_char(c: char) -> bool {
    spec_alphanumeric(c) || c == '_'
}

pub fn is_ident_char(c: char) -> (r: bool)
    ensures
        r == spec_is_ident_char(c),
{
    alphanumeric(c) || c == '_'
}

/// Position just after a quoted literal whose body starts at `j` and which is
/// closed by `q`; a backslash escapes the next character and a doubled `q`
/// stands for itself. An unterminated literal runs to the end.
pub open spec fn quoted_end(s: Seq<char>, j: int, q: char) -> int
    decreases s.len() - j,
{
    if j < 0 || j >= s.len() {
        s.len() as int
    } else if s[j] == '\\' && j + 1 < s.len() {
        quoted_end(s, j + 2, q)
    } else if s[j] == q {
        if j + 1 < s.len() && s[j + 1] == q {
            quoted_end(s, j + 2, q)
        } else {
            j + 1
        }
    } else {
        quoted_end(s, j + 1, q)
    }
}

/// Position of the first non-digit at or after `j`.
pub open spec fn digits_end(s: Seq<char>, j: int) -> int
    decreases s.len() - j,
{
    if 0 <= j < s.len() && is_digit(s[j]) {
        digits_end(s, j + 1)
    } else {
        j
    }
}

/// Position just after the numeric literal that starts with the digit at `i`:
/// its digits, then optionally a `.` followed by at least one digit and the
/// digits after it.
pub open spec fn number_end(s: Seq<char>, i: int) -> int {
    let k = digits_end(s, i + 1);
    if k + 1 < s.len() && s[k] == '.' && is_digit(s[k + 1]) {
        digits_end(s, k + 1)
    } else {
        k
    }
}

/// Does a numeric literal start at `i`: a digit not preceded by an identifier
/// character (so `col1` keeps its digit).
pub open spec fn starts_number(s: Seq<char>, i: int) -> bool {
    is_digit(s[i]) && (i == 0 || !spec_is_ident_char(s[i - 1]))
}

/// One step of normalization at `i`: the character emitted and where the next
/// step starts.
pub open spec fn norm_step(s: Seq<char>, i: int) -> (char, int) {
    let c = s[i];
    if c == '\'' || c == '"' {
        ('?', quoted_end(s, i + 1, c))
    } else if starts_number(s, i) {
        ('?', number_end(s, i))
    } else {
        (c, i + 1)
    }
}

pub proof fn lemma_quoted_end_bounds(s: Seq<char>, j: int, q: char)
    requires
        0 <= j,
    ensures
        j <= quoted_end(s, j, q) <= s.len() || (j > s.len() && quoted_end(s, j, q) == s.len()),
    decreases s.len() - j,
{
    if j < s.len() {
        if s[j] == '\\' && j + 1 < s.len() {
            lemma_quoted_end_bounds(s, j + 2, q);
        } else if s[j] == q {
            if j + 1 < s.len() && s[j + 1] == q {
                lemma_quoted_end_bounds(s, j + 2, q);
            }
        } else {
            lemma_quoted_end_bounds(s, j + 1, q);
        }
    }
}

pub proof fn lemma_digits_end_bounds(s: Seq<char>, j: int)
    requires
        0 <= j <= s.len(),
    ensures
        j <= digits_end(s, j) <= s.len(),
    decreases s.len() - j,
{
    if j < s.len() && is_digit(s[j]) {
        lemma_digits_end_bounds(s, j + 1);
    }
}

pub proof fn lemma_norm_step_advances(s: Seq<char>, i: int)
    requires
        0 <= i < s.len(),
    ensures
        i < norm_step(s, i).1 <= s.len(),
{
    let c = s[i];
    if c == '\'' || c == '"' {
        lemma_quoted_end_bounds(s, i + 1, c);
    } else if starts_number(s, i) {
        lemma_digits_end_bounds(s, i + 1);
        let k = digits_end(s, i + 1);
        if k + 1 < s.len() && s[k] == '.' && is_digit(s[k + 1]) {
            lemma_digits_end_bounds(s, k + 1);
        }
    }
}

/// The normalization of the characters of `s` from position `i` on.
pub open spec fn normalized_from(s: Seq<char>, i: int) -> Seq<char>
    decreases s.len() - i,
{
    if 0 <= i < s.len() {
        proof {
            lemma_norm_step_advances(s, i);
        }
        seq![norm_step(s, i).0] + normalized_from(s, norm_step(s, i).1)
    } else {
        Seq::<char>::empty()
    }
}

/// A query with its string and numeric literals replaced by `?`.
pub open spec fn spec_normalize(s: Seq<char>) -> Seq<char> {
    normalized_from(s, 0)
}

/// Replaces string literals and numeric literals with `?`.
pub fn normalize_query(query: &str) -> (out: String)
    ensures
        out@ == spec_normalize(query@),
{
    let chars = chars_of(query);
    let n = chars.len();
    let ghost s = chars@;
    let mut out = String::new();
    let mut i: usize = 0;
    while i < n
        invariant
            n == s.len(),
            s == chars@,
            s == query@,
            i <= n,
            out@ + normalized_from(s, i as int) == spec_normalize(s),
        decreases n - i,
    {
        proof {
            lemma_norm_step_advances(s, i as int);
        }
        let ghost step = norm_step(s, i as int);
        let ghost i0 = i as int;
        let c = chars[i];
        if c == '\'' || c == '"' {
            push_char(&mut out, '?');
            let quote = c;
            i += 1;
            while i < n
                invariant_except_break
                    i0 + 1 <= i <= n,
                    quoted_end(s, i as int, quote) == step.1,
                invariant
                    n == s.len(),
                    s == chars@,
                ensures
                    i == step.1,
                decreases n - i,
            {
                if chars[i] == '\\' && i + 1 < n {
                    i += 2;
                } else if chars[i] == quote {
                    i += 1;
                    if i < n && chars[i] == quote {
                        i += 1;
                    } else {
                        break;
                    }
                } else {
                    i += 1;
                }
            }
        } else if is_ascii_digit(c) && (i == 0 || !is_ident_char(chars[i - 1])) {
            push_char(&mut out, '?');
            i += 1;
            while i < n && is_ascii_digit(chars[i])
                invariant
                    n == s.len(),
                    s == chars@,
                    i0 + 1 <= i <= n,
                    digits_end(s, i as int) == digits_end(s, i0 + 1),
                decreases n - i,
            {
                i += 1;
            }
            if n - i > 1 && chars[i] == '.' && is_ascii_digit(chars[i + 1]) {
                i += 1;
                let ghost k1 = i as int;
                while i < n && is_ascii_digit(chars[i])
                    invariant
                        n == s.len(),
                        s == chars@,
                        k1 <= i <= n,
                        digits_end(s, i as int) == digits_end(s, k1),
                    decreases n - i,
                {
                    i += 1;
                }
            }
        } else {
            push_char(&mut out, c);
            i += 1;
        }
        assert(i == step.1);
        assert(out@ + normalized_from(s, i as int) == spec_normalize(s)) by {
            assert(normalized_from(s, i0) == seq![step.0] + normalized_from(s, step.1));
            assert(out@ == (out@.drop_last()).push(step.0));
        }
    }
    assert(normalized_from(s, n as int) == Seq::<char>::empty());
    assert(out@ + Seq::<char>::empty() == out@);
    out
}

fn is_ascii_digit(c: char) -> (r: bool)
    ensures
        r == is_digit(c),
{
    '0' <= c && c <= '9'
}

proof fn lemma_no_quotes_from(s: Seq<char>, i: int)
    requires
        0 <= i,
    ensures
        forall|k: int|
            0 <= k < normalized_from(s, i).len() ==> normalized_from(s, i)[k] != '\''
                && normalized_from(s, i)[k] != '"',
    decreases s.len() - i,
{
    if i < s.len() {
        lemma_norm_step_advances(s, i);
        lemma_no_quotes_from(s, norm_step(s, i).1);
        let rest = normalized_from(s, norm_step(s, i).1);
        assert(normalized_from(s, i) == seq![norm_step(s, i).0] + rest);
    }
}

/// Law: a normalized query holds no quote character; every string literal,
/// its quotes included, has been replaced.
pub proof fn law_normalized_has_no_quotes(s: Seq<char>)
    ensures
        forall|k: int|
            0 <= k < spec_normalize(s).len() ==> spec_normalize(s)[k] != '\''
                && spec_normalize(s)[k] != '"',
{
    lemma_no_quotes_from(s, 0);
}

proof fn lemma_literal_free_from(s: Seq<char>, i: int)
    requires
        0 <= i <= s.len(),
        forall|k: int| 0 <= k < s.len() ==> s[k] != '\'' && s[k] != '"' && !is_digit(#[trigger] s[k]),
    ensures
        normalized_from(s, i) == s.subrange(i, s.len() as int),
    decreases s.len() - i,
{
    if i < s.len() {
        lemma_literal_free_from(s, i + 1);
        assert(s.subrange(i, s.len() as int) == seq![s[i]] + s.subrange(i + 1, s.len() as int));
    } else {
        assert(s.subrange(i, s.len() as int) == Seq::<char>::empty());
    }
}

/// Law: a query without quotes and without digits is left unchanged.
pub proof fn law_literal_free_query_unchanged(s: Seq<char>)
    requires
        forall|k: int| 0 <= k < s.len() ==> s[k] != '\'' && s[k] != '"' && !is_digit(#[trigger] s[k]),
    ensures
        spec_normalize(s) == s,
{
    lemma_literal_free_from(s, 0);
    assert(s.subrange(0, s.len() as int) == s);
}

proof fn lemma_digits_end_stops(s: Seq<char>, j: int)
    requires
        0 <= j,
    ensures
        digits_end(s, j) >= j,
        0 <= digits_end(s, j) < s.len() ==> !is_digit(s[digits_end(s, j)]),
    decreases s.len() - j,
{
    if 0 <= j < s.len() && is_digit(s[j]) {
        lemma_digits_end_stops(s, j + 1);
    }
}

proof fn lemma_quoted_end_closes(s: Seq<char>, j: int, q: char)
    requires
        0 <= j,
    ensures
        quoted_end(s, j, q) < s.len() ==> quoted_end(s, j, q) >= 1 && s[quoted_end(s, j, q) - 1] == q,
    decreases s.len() - j,
{
    if j < s.len() {
        if s[j] == '\\' && j + 1 < s.len() {
            lemma_quoted_end_closes(s, j + 2, q);
        } else if s[j] == q {
            if j + 1 < s.len() && s[j + 1] == q {
                lemma_quoted_end_closes(s, j + 2, q);
            }
        } else {
            lemma_quoted_end_closes(s, j + 1, q);
        }
    }
}

/// In the normalization of `s` from `i` on, a digit is preceded by an
/// identifier character: the one emitted before it, or for the first one,
/// the character of `s` before `i`.
proof fn lemma_norm_digits(s: Seq<char>, i: int)
    requires
        0 <= i,
    ensures
        forall|k: int| 0 <= k < normalized_from(s, i).len() && is_digit(#[trigger] normalized_from(s, i)[k])
            ==> if k == 0 {
                i > 0 && spec_is_ident_char(s[i - 1])
            } else {
                spec_is_ident_char(normalized_from(s, i)[k - 1])
            },
    decreases s.len() - i,
{
    if i < s.len() {
        lemma_norm_step_advances(s, i);
        let (c, j) = norm_step(s, i);
        lemma_norm_digits(s, j);
        let out = normalized_from(s, i);
        let rest = normalized_from(s, j);
        assert(out == seq![c] + rest);
        let q = s[i];
        if rest.len() > 0 && is_digit(rest[0]) {
            // the character of `s` before `j` is an identifier character
            assert(spec_is_ident_char(s[j - 1]));
            if q == '\'' || q == '"' {
                lemma_quoted_end_closes(s, i + 1, q);
                assert(s[j - 1] == q);
                assert(!spec_is_ident_char(q));
            } else if starts_number(s, i) {
                lemma_digits_end_stops(s, i + 1);
                let k = digits_end(s, i + 1);
                if k + 1 < s.len() && s[k] == '.' && is_digit(s[k + 1]) {
                    lemma_digits_end_stops(s, k + 1);
                }
                assert(!is_digit(s[j]));
                assert(rest[0] == norm_step(s, j).0);
                assert(!starts_number(s, j));
            } else {
                assert(j == i + 1 && c == s[i]);
            }
        }
        assert forall|k: int| 0 <= k < out.len() && is_digit(#[trigger] out[k])
            implies if k == 0 {
                i > 0 && spec_is_ident_char(s[i - 1])
            } else {
                spec_is_ident_char(out[k - 1])
            } by {
            if k == 0 {
                assert(out[0] == c);
                if q == '\'' || q == '"' {
                } else if starts_number(s, i) {
                } else {
                    assert(c == s[i]);
                }
            } else {
                assert(out[k] == rest[k - 1]);
                if k > 1 {
                    assert(out[k - 1] == rest[k - 2]);
                }
            }
        }
    }
}

/// A text without quotes in which no digit starts a number normalizes to
/// itself.
proof fn lemma_fixed_from(t: Seq<char>, i: int)
    requires
        0 <= i <= t.len(),
        forall|k: int| 0 <= k < t.len() ==> #[trigger] t[k] != '\'' && t[k] != '"' && !starts_number(t, k),
    ensures
        normalized_from(t, i) == t.subrange(i, t.len() as int),
    decreases t.len() - i,
{
    if i < t.len() {
        assert(t[i] != '\'' && t[i] != '"' && !starts_number(t, i));
        lemma_fixed_from(t, i + 1);
        assert(t.subrange(i, t.len() as int) == seq![t[i]] + t.subrange(i + 1, t.len() as int));
    } else {
        assert(t.subrange(i, t.len() as int) == Seq::<char>::empty());
    }
}

/// Law: normalizing a normalized query changes nothing: it has no quote left,
/// and every digit it keeps follows an identifier character.
pub proof fn law_normalize_idempotent(s: Seq<char>)
    ensures
        spec_normalize(spec_normalize(s)) == spec_normalize(s),
{
    let o = spec_normalize(s);
    law_normalized_has_no_quotes(s);
    lemma_norm_digits(s, 0);
    assert forall|k: int| 0 <= k < o.len() implies #[trigger] o[k] != '\'' && o[k] != '"' && !starts_number(o, k) by {
        if is_digit(o[k]) {
            assert(k != 0);
        }
    }
    lemma_fixed_from(o, 0);
    assert(o.subrange(0, o.len() as int) == o);
}

/// Law: `_`, ASCII letters and ASCII digits are identifier characters, and
/// a digit right after one of them belongs to the identifier: a query with
/// no quotes in which every digit follows a letter, a digit or `_` is left
/// unchanged (so `orders_2024` keeps its digits).
pub proof fn law_identifier_digits_kept(s: Seq<char>)
    requires
        forall|k: int| 0 <= k < s.len() ==> #[trigger] s[k] != '\'' && s[k] != '"',
        forall|k: int| 0 <= k < s.len() && is_digit(#[trigger] s[k])
            ==> k > 0 && (s[k - 1] == '_' || ascii_alphanumeric(s[k - 1])),
    ensures
        spec_is_ident_char('_'),
        forall|c: char| ascii_alphanumeric(c) ==> #[trigger] spec_is_ident_char(c),
        spec_normalize(s) == s,
{
    assert forall|c: char| ascii_alphanumeric(c) implies #[trigger] spec_is_ident_char(c) by {
        assert((c as u32) < 128);
    }
    assert forall|k: int| 0 <= k < s.len() implies #[trigger] s[k] != '\'' && s[k] != '"' && !starts_number(s, k) by {
        if is_digit(s[k]) {
            assert(spec_is_ident_char(s[k - 1]));
        }
    }
    lemma_fixed_from(s, 0);
    assert(s.subrange(0, s.len() as int) == s);
}

proof fn lemma_find_nul_bounds(d: Seq<u8>, p: int)
    ensures
        find_nul(d, p) matches Some(z) ==> 0 <= p <= z < d.len() && d[z] == 0,
    decreases d.len() - p,
{
    if 0 <= p < d.len() && d[p] != 0 {
        lemma_find_nul_bounds(d, p + 1);
    }
}

/// Law: when the client connects with a database (CLIENT_CONNECT_WITH_DB), the
/// database returned is the NUL-terminated string that follows the auth
/// response, whichever encoding the flags give that response: a
/// length-encoded length (CLIENT_PLUGIN_AUTH_LENENC_CLIENT_DATA, here in its
/// one-byte form), a one-byte length (CLIENT_SECURE_CONNECTION), or a
/// NUL-terminated string. The username is the NUL-terminated string at 36.
pub proof fn law_handshake_database(d: Seq<u8>, z: int, p: int, z2: int)
    requires
        d.len() >= 36,
        d[3] == 1,
        handshake_caps(d) & CLIENT_PROTOCOL_41 != 0,
        handshake_caps(d) & CLIENT_CONNECT_WITH_DB != 0,
        find_nul(d, 36) == Some(z),
        z + 1 < d.len(),
        handshake_caps(d) & CLIENT_PLUGIN_AUTH_LENENC_CLIENT_DATA != 0 ==> d[z + 1] <= 250 && p == z + 2 + d[z + 1],
        handshake_caps(d) & CLIENT_PLUGIN_AUTH_LENENC_CLIENT_DATA == 0 && handshake_caps(d) & CLIENT_SECURE_CONNECTION != 0
            ==> p == z + 2 + d[z + 1],
        handshake_caps(d) & CLIENT_PLUGIN_AUTH_LENENC_CLIENT_DATA == 0 && handshake_caps(d) & CLIENT_SECURE_CONNECTION == 0
            ==> find_nul(d, z + 1) == Some(p - 1),
        p <= d.len(),
        find_nul(d, p) == Some(z2),
    ensures
        spec_handshake(d) == Some((lossy_utf8(d.subrange(36, z)), lossy_utf8(d.subrange(p, z2)))),
{
    let caps = handshake_caps(d);
    lemma_find_nul_bounds(d, 36);
    if caps & CLIENT_PLUGIN_AUTH_LENENC_CLIENT_DATA != 0 {
        assert(spec_lenenc(d, z + 1) == (Some(d[z + 1] as u64), z + 2));
        assert(auth_end(d, caps, z + 1) == Some(p));
    } else if caps & CLIENT_SECURE_CONNECTION != 0 {
        assert(auth_end(d, caps, z + 1) == Some(p));
    } else {
        assert(auth_end(d, caps, z + 1) == Some(p));
    }
}

} // verus!
