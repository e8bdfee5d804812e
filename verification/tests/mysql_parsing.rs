use metis::mysql::{
    normalize_query, parse_handshake_response, read_lenenc_int, read_null_str, skip_null_str,
    CLIENT_CONNECT_WITH_DB, CLIENT_PLUGIN_AUTH_LENENC_CLIENT_DATA, CLIENT_PROTOCOL_41,
    CLIENT_SECURE_CONNECTION,
};

#[test]
fn plain_string_literal() {
    assert_eq!(normalize_query("SELECT 'foo'"), "SELECT ?");
}

#[test]
fn double_quoted() {
    assert_eq!(normalize_query(r#"WHERE name = "bar""#), "WHERE name = ?");
}

#[test]
fn backslash_escape() {
    assert_eq!(normalize_query(r"WHERE x = 'it\'s'"), "WHERE x = ?");
}

#[test]
fn doubled_quote_escape() {
    assert_eq!(normalize_query("WHERE x = 'it''s'"), "WHERE x = ?");
}

#[test]
fn multiple_literals() {
    assert_eq!(
        normalize_query("INSERT INTO t VALUES ('a', 'b', 'c')"),
        "INSERT INTO t VALUES (?, ?, ?)"
    );
}

#[test]
fn no_literals() {
    assert_eq!(normalize_query("SELECT id FROM users"), "SELECT id FROM users");
}

#[test]
fn bare_integer() {
    assert_eq!(
        normalize_query("select * from txn_info where id=2388219"),
        "select * from txn_info where id=?"
    );
}

#[test]
fn decimal_number() {
    assert_eq!(normalize_query("WHERE price > 9.99"), "WHERE price > ?");
}

#[test]
fn digit_in_identifier_untouched() {
    assert_eq!(
        normalize_query("SELECT col1, table2.col FROM t"),
        "SELECT col1, table2.col FROM t"
    );
}

#[test]
fn mixed_string_and_numeric() {
    assert_eq!(
        normalize_query("WHERE name='alice' AND age=30"),
        "WHERE name=? AND age=?"
    );
}

#[test]
fn unterminated_literal_runs_to_end() {
    assert_eq!(normalize_query("SELECT 'abc"), "SELECT ?");
}

#[test]
fn trailing_dot_is_not_decimal() {
    assert_eq!(normalize_query("LIMIT 5."), "LIMIT ?.");
    assert_eq!(normalize_query("v=1.2.3"), "v=?.?");
}

#[test]
fn normalizing_twice_changes_nothing() {
    let once = normalize_query("WHERE a='x' AND b=\"y\" AND c=12.5 AND d1=3");
    assert_eq!(once, "WHERE a=? AND b=? AND c=? AND d1=?");
    assert_eq!(normalize_query(&once), once);
}

fn make_handshake_response(username: &str, db: Option<&str>) -> Vec<u8> {
    let mut caps: u32 = CLIENT_PROTOCOL_41 | CLIENT_SECURE_CONNECTION;
    if db.is_some() {
        caps |= CLIENT_CONNECT_WITH_DB;
    }

    let mut payload = Vec::new();
    payload.extend_from_slice(&[0x00, 0x00, 0x00, 0x01]);
    payload.extend_from_slice(&caps.to_le_bytes());
    payload.extend_from_slice(&[0x00, 0x00, 0x00, 0x01]);
    payload.push(0x21);
    payload.extend_from_slice(&[0u8; 23]);
    payload.extend_from_slice(username.as_bytes());
    payload.push(0x00);
    payload.push(0x14);
    payload.extend_from_slice(&[0u8; 20]);
    if let Some(d) = db {
        payload.extend_from_slice(d.as_bytes());
        payload.push(0x00);
    }
    payload
}

#[test]
fn handshake_extracts_username() {
    let pkt = make_handshake_response("alice", None);
    let (user, db) = parse_handshake_response(&pkt).unwrap();
    assert_eq!(user, "alice");
    assert_eq!(db, "");
}

#[test]
fn handshake_extracts_username_and_db() {
    let pkt = make_handshake_response("bob", Some("myapp"));
    let (user, db) = parse_handshake_response(&pkt).unwrap();
    assert_eq!(user, "bob");
    assert_eq!(db, "myapp");
}

#[test]
fn handshake_rejects_wrong_sequence() {
    let mut pkt = make_handshake_response("alice", None);
    pkt[3] = 0x00;
    assert!(parse_handshake_response(&pkt).is_none());
}

#[test]
fn handshake_rejects_short_and_pre41_packets() {
    assert!(parse_handshake_response(&[0, 0, 0, 1]).is_none());
    let mut pkt = make_handshake_response("alice", None);
    pkt[5] = 0x00; // clears CLIENT_PROTOCOL_41 (bit 9)
    assert!(parse_handshake_response(&pkt).is_none());
}

#[test]
fn handshake_with_lenenc_auth_and_missing_db_terminator() {
    let caps: u32 = CLIENT_PROTOCOL_41 | CLIENT_PLUGIN_AUTH_LENENC_CLIENT_DATA | CLIENT_CONNECT_WITH_DB;
    let mut pkt = vec![0, 0, 0, 1];
    pkt.extend_from_slice(&caps.to_le_bytes());
    pkt.extend_from_slice(&[0u8; 28]);
    pkt.extend_from_slice(b"carol\0");
    pkt.extend_from_slice(&[0xFC, 0x02, 0x00, 9, 9]);
    pkt.extend_from_slice(b"nodb");
    let (user, db) = parse_handshake_response(&pkt).unwrap();
    assert_eq!(user, "carol");
    assert_eq!(db, "");
}

#[test]
fn null_strings_and_lenenc_cursor() {
    let data = [b'a', b'b', 0, b'c'];
    let mut pos = 0;
    assert_eq!(read_null_str(&data, &mut pos).as_deref(), Some("ab"));
    assert_eq!(pos, 3);
    assert_eq!(read_null_str(&data, &mut pos), None);
    assert_eq!(pos, 4);
    let mut pos = 0;
    assert_eq!(skip_null_str(&data, &mut pos), Some(()));
    assert_eq!(pos, 3);

    let mut pos = 0;
    assert_eq!(read_lenenc_int(&[0xFD, 1, 2, 3], &mut pos), Some(0x030201));
    assert_eq!(pos, 4);
    let mut pos = 0;
    assert_eq!(read_lenenc_int(&[0xFE, 1, 0, 0, 0, 0, 0, 0, 1], &mut pos), Some(0x0100_0000_0000_0001));
    assert_eq!(pos, 9);
    let mut pos = 0;
    assert_eq!(read_lenenc_int(&[0xFB], &mut pos), None);
    assert_eq!(pos, 1);
    let mut pos = 0;
    assert_eq!(read_lenenc_int(&[0xFC, 1], &mut pos), None);
    assert_eq!(pos, 1);
}
