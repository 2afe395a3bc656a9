use sqd_portal_client::util::{decode_hex, decode_prefixed_hex, i256_from_be_slice};
use sqd_portal_client::json::JsonValue;
use sqd_portal_client::{parse_finalized_height, split_ndjson, ErrorKind};

#[test]
fn prefixed_hex_decodes_pairs() {
    let r = decode_prefixed_hex("0x0102ff").unwrap();
    assert_eq!(r, vec![0x01, 0x02, 0xff]);
}

#[test]
fn prefixed_hex_round_trip() {
    // Decoding the hex text of a byte string gives the bytes back.
    let b = vec![0x00u8, 0x12, 0xab, 0xff];
    let text = format!(
        "0x{}",
        b.iter().map(|x| format!("{:02x}", x)).collect::<Vec<_>>().join("")
    );
    assert_eq!(decode_prefixed_hex(&text).unwrap(), b);
}

#[test]
fn prefixed_hex_odd_length_pads() {
    assert_eq!(decode_prefixed_hex("0x1").unwrap(), vec![0x01]);
    assert_eq!(decode_prefixed_hex("0x123").unwrap(), vec![0x01, 0x23]);
}

#[test]
fn prefixed_hex_needs_prefix() {
    let e = decode_prefixed_hex("0102").unwrap_err();
    assert_eq!(e.kind, ErrorKind::Codec);
}

#[test]
fn hex_rejects_bad_digit() {
    let e = decode_prefixed_hex("0x0g").unwrap_err();
    assert_eq!(e.kind, ErrorKind::Codec);
    assert!(decode_hex("zz").is_err());
    assert_eq!(decode_hex("00ff").unwrap(), vec![0x00, 0xff]);
}

#[test]
fn hex_accepts_uppercase() {
    assert_eq!(decode_prefixed_hex("0xAB").unwrap(), vec![0xab]);
}

#[test]
fn i256_widens_and_checks_range() {
    let v = i256_from_be_slice(&[0x01, 0x02]).unwrap();
    assert_eq!(v.be_bytes.len(), 32);
    assert_eq!(v.be_bytes[30], 0x01);
    assert_eq!(v.be_bytes[31], 0x02);
    assert!(v.be_bytes[..30].iter().all(|b| *b == 0));

    let too_long = [0u8; 33];
    assert_eq!(i256_from_be_slice(&too_long).unwrap_err().kind, ErrorKind::Range);

    let mut negative = [0u8; 32];
    negative[0] = 0x80;
    assert_eq!(i256_from_be_slice(&negative).unwrap_err().kind, ErrorKind::Range);
}

#[test]
fn height_parses_decimal_body() {
    assert_eq!(parse_finalized_height(b"12345").unwrap(), 12345);
    assert!(parse_finalized_height(b"").is_err());
    assert!(parse_finalized_height(b"12x").is_err());
    assert!(parse_finalized_height(b"99999999999999999999999").is_err());
}

#[test]
fn ndjson_split_drops_empty_lines() {
    let lines = split_ndjson(b"one\ntwo\n\nthree\n");
    assert_eq!(lines, vec![b"one".to_vec(), b"two".to_vec(), b"three".to_vec()]);
    let empty = split_ndjson(b"\n\n");
    assert_eq!(empty.len(), 0);
}

#[test]
fn json_encoder_writes_compact_text() {
    let v = JsonValue::Obj(vec![
        ("a".to_string(), JsonValue::UInt(1)),
        ("b".to_string(), JsonValue::Arr(vec![JsonValue::Null, JsonValue::Bool(true)])),
        ("c".to_string(), JsonValue::Int(-5)),
    ]);
    assert_eq!(v.encode(), b"{\"a\":1,\"b\":[null,true],\"c\":-5}".to_vec());
}

#[test]
fn json_encoder_escapes_strings() {
    let v = JsonValue::Str("a\"b\\c\n".to_string());
    assert_eq!(v.encode(), b"\"a\\\"b\\\\c\\u000a\"".to_vec());
}
