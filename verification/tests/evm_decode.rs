use sqd_portal_client::json::JsonValue;
use sqd_portal_client::evm::{ArrowResponseParser, LogRequest};
use sqd_portal_client::util::get_tape_json_string;
use sqd_portal_client::ErrorKind;

fn obj(members: Vec<(&str, JsonValue)>) -> JsonValue {
    JsonValue::Obj(members.into_iter().map(|(k, v)| (k.to_string(), v)).collect())
}

fn s(text: &str) -> JsonValue {
    JsonValue::Str(text.to_string())
}

#[test]
fn happy_path_single_block() {
    // One line with a header and empty child arrays: one blocks row,
    // the other tables empty, and the cursor moves to 101.
    let line = obj(vec![
        ("header", obj(vec![
            ("number", JsonValue::UInt(100)),
            ("hash", s("0xaa")),
            ("parentHash", s("0xbb")),
            ("timestamp", JsonValue::UInt(1700)),
            ("gasLimit", s("0x1")),
            ("gasUsed", s("0x0")),
            ("difficulty", s("0x0")),
            ("totalDifficulty", s("0x0")),
        ])),
        ("transactions", JsonValue::Arr(vec![])),
        ("logs", JsonValue::Arr(vec![])),
        ("traces", JsonValue::Arr(vec![])),
    ]);
    let mut p = ArrowResponseParser::new();
    p.parse_tape(&line).unwrap();
    let r = p.finish();
    assert_eq!(r.blocks.len(), 1);
    assert_eq!(r.blocks[0].number, Some(100));
    assert_eq!(r.blocks[0].hash, Some(vec![0xaa]));
    assert_eq!(r.blocks[0].parent_hash, Some(vec![0xbb]));
    assert_eq!(r.blocks[0].timestamp, Some(1700));
    let gas_limit = r.blocks[0].gas_limit.as_ref().unwrap();
    assert_eq!(gas_limit.be_bytes.len(), 32);
    assert_eq!(gas_limit.be_bytes[31], 1);
    assert_eq!(r.transactions.len(), 0);
    assert_eq!(r.logs.len(), 0);
    assert_eq!(r.traces.len(), 0);
    assert_eq!(r.next_block().unwrap(), 101);
}

#[test]
fn topics_past_the_fourth_are_dropped() {
    let line = obj(vec![
        ("header", obj(vec![("number", JsonValue::UInt(1))])),
        ("logs", JsonValue::Arr(vec![obj(vec![(
            "topics",
            JsonValue::Arr(vec![s("0x01"), s("0x02"), s("0x03"), s("0x04"), s("0x05")]),
        )])])),
    ]);
    let mut p = ArrowResponseParser::new();
    p.parse_tape(&line).unwrap();
    let r = p.finish();
    assert_eq!(r.logs.len(), 1);
    assert_eq!(r.logs[0].topic0, Some(vec![0x01]));
    assert_eq!(r.logs[0].topic1, Some(vec![0x02]));
    assert_eq!(r.logs[0].topic2, Some(vec![0x03]));
    assert_eq!(r.logs[0].topic3, Some(vec![0x04]));
}

#[test]
fn short_topic_lists_leave_trailing_topics_absent() {
    let line = obj(vec![
        ("header", obj(vec![])),
        ("logs", JsonValue::Arr(vec![obj(vec![(
            "topics",
            JsonValue::Arr(vec![s("0x01")]),
        )])])),
    ]);
    let mut p = ArrowResponseParser::new();
    p.parse_tape(&line).unwrap();
    let r = p.finish();
    assert_eq!(r.logs[0].topic0, Some(vec![0x01]));
    assert_eq!(r.logs[0].topic1, None);
    assert_eq!(r.logs[0].topic2, None);
    assert_eq!(r.logs[0].topic3, None);
}

#[test]
fn trace_without_action_or_result_keeps_row_parity() {
    let line = obj(vec![
        ("header", obj(vec![])),
        ("traces", JsonValue::Arr(vec![obj(vec![
            ("transactionIndex", JsonValue::UInt(3)),
            ("type", s("call")),
            ("subtraces", JsonValue::UInt(2)),
            ("error", s("reverted")),
        ])])),
    ]);
    let mut p = ArrowResponseParser::new();
    p.parse_tape(&line).unwrap();
    let r = p.finish();
    assert_eq!(r.traces.len(), 1);
    let t = &r.traces[0];
    assert_eq!(t.transaction_position, Some(3));
    assert_eq!(t.type_, Some("call".to_string()));
    assert_eq!(t.subtraces, Some(2));
    assert_eq!(t.error, Some("reverted".to_string()));
    assert_eq!(t.from, None);
    assert_eq!(t.to, None);
    assert_eq!(t.call_type, None);
    assert_eq!(t.gas, None);
    assert_eq!(t.input, None);
    assert_eq!(t.init, None);
    assert_eq!(t.value, None);
    assert_eq!(t.author, None);
    assert_eq!(t.reward_type, None);
    assert_eq!(t.sighash, None);
    assert_eq!(t.balance, None);
    assert_eq!(t.refund_address, None);
    assert_eq!(t.address, None);
    assert_eq!(t.code, None);
    assert_eq!(t.gas_used, None);
    assert_eq!(t.output, None);
}

#[test]
fn trace_error_column_falls_back_to_revert_reason() {
    let line = obj(vec![
        ("header", obj(vec![])),
        ("traces", JsonValue::Arr(vec![obj(vec![(
            "revertReason",
            s("out of gas"),
        )])])),
    ]);
    let mut p = ArrowResponseParser::new();
    p.parse_tape(&line).unwrap();
    let r = p.finish();
    assert_eq!(r.traces[0].error, Some("out of gas".to_string()));
}

#[test]
fn y_parity_maps_zero_and_one() {
    for (raw, want) in [(0u64, false), (1u64, true)] {
        let line = obj(vec![
            ("header", obj(vec![])),
            ("transactions", JsonValue::Arr(vec![obj(vec![(
                "yParity",
                JsonValue::UInt(raw),
            )])])),
        ]);
        let mut p = ArrowResponseParser::new();
        p.parse_tape(&line).unwrap();
        assert_eq!(p.finish().transactions[0].y_parity, Some(want));
    }
}

#[test]
fn y_parity_rejects_other_values() {
    let line = obj(vec![
        ("header", obj(vec![])),
        ("transactions", JsonValue::Arr(vec![obj(vec![(
            "yParity",
            JsonValue::UInt(2),
        )])])),
    ]);
    let mut p = ArrowResponseParser::new();
    let e = p.parse_tape(&line).unwrap_err();
    assert_eq!(e.kind, ErrorKind::Shape);
}

#[test]
fn missing_header_is_refused() {
    let line = obj(vec![("transactions", JsonValue::Arr(vec![]))]);
    let mut p = ArrowResponseParser::new();
    assert_eq!(p.parse_tape(&line).unwrap_err().kind, ErrorKind::MissingHeader);
}

#[test]
fn empty_response_has_no_next_block() {
    let p = ArrowResponseParser::new();
    assert_eq!(p.finish().next_block().unwrap_err().kind, ErrorKind::Empty);
}

#[test]
fn child_rows_are_stamped_with_their_block() {
    let line = obj(vec![
        ("header", obj(vec![
            ("number", JsonValue::UInt(7)),
            ("hash", s("0xab")),
        ])),
        ("transactions", JsonValue::Arr(vec![obj(vec![]), obj(vec![])])),
    ]);
    let mut p = ArrowResponseParser::new();
    p.parse_tape(&line).unwrap();
    let r = p.finish();
    assert_eq!(r.transactions.len(), 2);
    for tx in &r.transactions {
        assert_eq!(tx.block_number, Some(7));
        assert_eq!(tx.block_hash, Some(vec![0xab]));
    }
}

#[test]
fn null_member_reads_like_absent_member() {
    // The same transaction with `to` removed and with `to` set to null
    // decodes to identical rows.
    let with_null = obj(vec![
        ("header", obj(vec![])),
        ("transactions", JsonValue::Arr(vec![obj(vec![
            ("nonce", JsonValue::UInt(4)),
            ("to", JsonValue::Null),
        ])])),
    ]);
    let without = obj(vec![
        ("header", obj(vec![])),
        ("transactions", JsonValue::Arr(vec![obj(vec![(
            "nonce",
            JsonValue::UInt(4),
        )])])),
    ]);
    let mut p1 = ArrowResponseParser::new();
    p1.parse_tape(&with_null).unwrap();
    let mut p2 = ArrowResponseParser::new();
    p2.parse_tape(&without).unwrap();
    assert_eq!(p1.finish().transactions, p2.finish().transactions);
}

#[test]
fn transaction_json_subtree_reencodes() {
    let v = obj(vec![("err", obj(vec![("code", JsonValue::Int(-3))]))]);
    let got = get_tape_json_string(&v, "err").unwrap().unwrap();
    assert_eq!(got, b"{\"code\":-3}".to_vec());
}

#[test]
fn log_request_round_trips_and_omits_empty_arrays() {
    let q = LogRequest {
        address: vec!["0xaabb".to_string()],
        topic0: vec!["0x01".to_string(), "0x02".to_string()],
        topic1: vec![],
        topic2: vec![],
        topic3: vec![],
        transaction: true,
        transaction_traces: false,
        transaction_logs: true,
    };
    let wire = q.to_json();
    let back = LogRequest::from_json(&wire).unwrap();
    assert_eq!(back, q);

    let text = String::from_utf8(wire.encode()).unwrap();
    assert!(text.contains("\"address\""));
    assert!(text.contains("\"topic0\""));
    assert!(!text.contains("\"topic1\""));
    assert!(!text.contains("\"topic2\""));
    assert!(!text.contains("\"topic3\""));
    assert!(text.contains("\"transaction\":true"));
    assert!(text.contains("\"transactionTraces\":false"));
    assert!(text.contains("\"transactionLogs\":true"));
}
