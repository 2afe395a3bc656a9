use sqd_portal_client::json::JsonValue;
use sqd_portal_client::svm::{decode_base58, ArrowResponseParser};
use sqd_portal_client::ErrorKind;

fn obj(members: Vec<(&str, JsonValue)>) -> JsonValue {
    JsonValue::Obj(members.into_iter().map(|(k, v)| (k.to_string(), v)).collect())
}

fn s(text: &str) -> JsonValue {
    JsonValue::Str(text.to_string())
}

#[test]
fn base58_decodes_bitcoin_alphabet() {
    assert_eq!(
        decode_base58("he11owor1d").unwrap(),
        vec![0x04, 0x30, 0x5e, 0x2b, 0x24, 0x73, 0xf0, 0x58]
    );
}

#[test]
fn base58_leading_ones_are_zero_bytes() {
    assert_eq!(decode_base58("111").unwrap(), vec![0, 0, 0]);
    assert_eq!(decode_base58("").unwrap(), Vec::<u8>::new());
}

#[test]
fn base58_rejects_characters_outside_the_alphabet() {
    assert_eq!(decode_base58("0").unwrap_err().kind, ErrorKind::Codec);
    assert_eq!(decode_base58("O").unwrap_err().kind, ErrorKind::Codec);
    assert_eq!(decode_base58("I").unwrap_err().kind, ErrorKind::Codec);
    assert_eq!(decode_base58("l").unwrap_err().kind, ErrorKind::Codec);
}

#[test]
fn header_becomes_one_slot_row() {
    let line = obj(vec![
        ("header", obj(vec![
            ("number", JsonValue::UInt(300)),
            ("hash", s("21")),
            ("parentNumber", JsonValue::UInt(299)),
            ("parentHash", s("21")),
            ("height", JsonValue::UInt(280)),
            ("timestamp", JsonValue::Int(-1)),
        ])),
    ]);
    let mut p = ArrowResponseParser::new();
    p.parse_tape(&line).unwrap();
    let r = p.finish();
    assert_eq!(r.blocks.len(), 1);
    assert_eq!(r.blocks[0].slot, Some(300));
    assert_eq!(r.blocks[0].parent_slot, Some(299));
    assert_eq!(r.blocks[0].height, Some(280));
    assert_eq!(r.blocks[0].timestamp, Some(-1));
    assert_eq!(r.next_block().unwrap(), 301);
}

#[test]
fn version_legacy_becomes_the_sentinel() {
    let line = obj(vec![
        ("header", obj(vec![])),
        ("transactions", JsonValue::Arr(vec![obj(vec![("version", s("legacy"))])])),
    ]);
    let mut p = ArrowResponseParser::new();
    p.parse_tape(&line).unwrap();
    assert_eq!(p.finish().transactions[0].version, Some(i8::MIN));
}

#[test]
fn version_zero_is_kept() {
    let line = obj(vec![
        ("header", obj(vec![])),
        ("transactions", JsonValue::Arr(vec![obj(vec![(
            "version",
            JsonValue::UInt(0),
        )])])),
    ]);
    let mut p = ArrowResponseParser::new();
    p.parse_tape(&line).unwrap();
    assert_eq!(p.finish().transactions[0].version, Some(0));
}

#[test]
fn version_negative_is_refused() {
    let line = obj(vec![
        ("header", obj(vec![])),
        ("transactions", JsonValue::Arr(vec![obj(vec![(
            "version",
            JsonValue::Int(-1),
        )])])),
    ]);
    let mut p = ArrowResponseParser::new();
    assert!(p.parse_tape(&line).is_err());
}

#[test]
fn address_table_lookups_keep_their_shape() {
    // Two entries give exactly two structs, each list following the
    // absent-is-none rule.
    let line = obj(vec![
        ("header", obj(vec![])),
        ("transactions", JsonValue::Arr(vec![obj(vec![(
            "addressTableLookups",
            JsonValue::Arr(vec![
                obj(vec![
                    ("accountKey", s("21")),
                    ("writableIndexes", JsonValue::Arr(vec![
                        JsonValue::UInt(1),
                        JsonValue::UInt(2),
                    ])),
                ]),
                obj(vec![("readonlyIndexes", JsonValue::Arr(vec![JsonValue::UInt(3)]))]),
            ]),
        )])])),
    ]);
    let mut p = ArrowResponseParser::new();
    p.parse_tape(&line).unwrap();
    let r = p.finish();
    let atl = r.transactions[0].address_table_lookups.as_ref().unwrap();
    assert_eq!(atl.len(), 2);
    assert_eq!(atl[0].account_key, Some(vec![58])); // "21" in base58
    assert_eq!(atl[0].writable_indexes, Some(vec![1, 2]));
    assert_eq!(atl[0].readonly_indexes, None);
    assert_eq!(atl[1].account_key, None);
    assert_eq!(atl[1].writable_indexes, None);
    assert_eq!(atl[1].readonly_indexes, Some(vec![3]));
}

#[test]
fn absent_address_table_lookups_leave_the_column_absent() {
    let line = obj(vec![
        ("header", obj(vec![])),
        ("transactions", JsonValue::Arr(vec![obj(vec![])])),
    ]);
    let mut p = ArrowResponseParser::new();
    p.parse_tape(&line).unwrap();
    assert_eq!(p.finish().transactions[0].address_table_lookups, None);
}

#[test]
fn loaded_addresses_require_both_lists() {
    let incomplete = obj(vec![
        ("header", obj(vec![])),
        ("transactions", JsonValue::Arr(vec![obj(vec![(
            "loadedAddresses",
            obj(vec![("readonly", JsonValue::Arr(vec![s("11")]))]),
        )])])),
    ]);
    let mut p = ArrowResponseParser::new();
    assert_eq!(p.parse_tape(&incomplete).unwrap_err().kind, ErrorKind::Shape);

    let complete = obj(vec![
        ("header", obj(vec![])),
        ("transactions", JsonValue::Arr(vec![obj(vec![(
            "loadedAddresses",
            obj(vec![
                ("readonly", JsonValue::Arr(vec![s("11")])),
                ("writable", JsonValue::Arr(vec![])),
            ]),
        )])])),
    ]);
    let mut p = ArrowResponseParser::new();
    p.parse_tape(&complete).unwrap();
    let r = p.finish();
    assert_eq!(r.transactions[0].loaded_readonly_addresses, Some(vec![vec![0, 0]]));
    assert_eq!(r.transactions[0].loaded_writable_addresses, Some(vec![]));
}

#[test]
fn instruction_accounts_spread_into_positions() {
    let accounts: Vec<JsonValue> = (0..12).map(|_| s("2")).collect();
    let line = obj(vec![
        ("header", obj(vec![])),
        ("instructions", JsonValue::Arr(vec![obj(vec![
            ("accounts", JsonValue::Arr(accounts)),
            ("d1", s("0x01")),
            ("data", s("2")),
        ])])),
    ]);
    let mut p = ArrowResponseParser::new();
    p.parse_tape(&line).unwrap();
    let r = p.finish();
    let i = &r.instructions[0];
    assert_eq!(i.a0, Some(vec![1]));
    assert_eq!(i.a9, Some(vec![1]));
    assert_eq!(i.rest_of_accounts, Some(vec![vec![1], vec![1]]));
    assert_eq!(i.d1, Some(vec![0x01]));
    assert_eq!(i.data, Some(vec![1]));
}

#[test]
fn instruction_with_few_accounts_has_no_rest() {
    let line = obj(vec![
        ("header", obj(vec![])),
        ("instructions", JsonValue::Arr(vec![obj(vec![(
            "accounts",
            JsonValue::Arr(vec![s("2"), s("3")]),
        )])])),
    ]);
    let mut p = ArrowResponseParser::new();
    p.parse_tape(&line).unwrap();
    let r = p.finish();
    assert_eq!(r.instructions[0].a0, Some(vec![1]));
    assert_eq!(r.instructions[0].a1, Some(vec![2]));
    assert_eq!(r.instructions[0].a2, None);
    assert_eq!(r.instructions[0].rest_of_accounts, None);
}

#[test]
fn bigint_strings_decode_to_numbers() {
    let line = obj(vec![
        ("header", obj(vec![])),
        ("balances", JsonValue::Arr(vec![obj(vec![
            ("transactionIndex", JsonValue::UInt(5)),
            ("account", s("2")),
            ("pre", s("12345")),
            ("post", s("+67")),
        ])])),
    ]);
    let mut p = ArrowResponseParser::new();
    p.parse_tape(&line).unwrap();
    let r = p.finish();
    assert_eq!(r.balances[0].transaction_index, Some(5));
    assert_eq!(r.balances[0].pre, Some(12345));
    assert_eq!(r.balances[0].post, Some(67));
}

#[test]
fn rewards_decode_in_header_order() {
    let line = obj(vec![
        ("header", obj(vec![("number", JsonValue::UInt(9))])),
        ("rewards", JsonValue::Arr(vec![obj(vec![
            ("pubkey", s("2")),
            ("lamports", s("10")),
            ("postBalance", s("20")),
            ("rewardType", s("fee")),
            ("commission", JsonValue::UInt(5)),
        ])])),
    ]);
    let mut p = ArrowResponseParser::new();
    p.parse_tape(&line).unwrap();
    let r = p.finish();
    assert_eq!(r.rewards.len(), 1);
    assert_eq!(r.rewards[0].block_slot, Some(9));
    assert_eq!(r.rewards[0].pubkey, Some(vec![1]));
    assert_eq!(r.rewards[0].lamports, Some(10));
    assert_eq!(r.rewards[0].post_balance, Some(20));
    assert_eq!(r.rewards[0].reward_type, Some("fee".to_string()));
    assert_eq!(r.rewards[0].commission, Some(5));
}
