use sqd_portal_client::json::JsonValue;
use sqd_portal_client::evm;
use sqd_portal_client::{
    evm_prepare_stream_query, evm_stream_done, evm_stream_step, ClientConfig, RetrySchedule,
    StreamConfig, StreamStep,
};

fn response_with_last_block(n: u64) -> evm::ArrowResponse {
    let line = JsonValue::Obj(vec![(
        "header".to_string(),
        JsonValue::Obj(vec![("number".to_string(), JsonValue::UInt(n))]),
    )]);
    let mut p = evm::ArrowResponseParser::new();
    p.parse_tape(&line).unwrap();
    p.finish()
}

#[test]
fn stream_stops_after_crossing_to_block() {
    // A server response ending at the upper bound yields one delivery
    // and then the stream is complete, with no head poll.
    let mut query = evm::Query::default();
    query.from_block = 10;
    query.to_block = Some(12);
    evm_prepare_stream_query(&mut query);
    assert!(query.fields.block.number);
    let config = StreamConfig::default();

    assert!(!evm_stream_done(&query));
    let step = evm_stream_step(&mut query, &config, Ok(Some(response_with_last_block(12))));
    assert!(matches!(step, StreamStep::Emit(_)));
    assert_eq!(query.from_block, 13);
    assert!(evm_stream_done(&query));
}

#[test]
fn cursor_advances_past_each_batch() {
    let mut query = evm::Query::default();
    query.from_block = 5;
    let config = StreamConfig::default();
    let first = query.from_block;
    evm_stream_step(&mut query, &config, Ok(Some(response_with_last_block(8))));
    assert!(query.from_block > first);
    assert_eq!(query.from_block, 9);
    evm_stream_step(&mut query, &config, Ok(Some(response_with_last_block(9))));
    assert_eq!(query.from_block, 10);
}

#[test]
fn at_head_with_stop_polls_nothing_and_halts() {
    // One failing call, then a no-content reply under stop_on_head:
    // exactly one retry wait was drawn, nothing is delivered.
    let cfg = ClientConfig::default();
    let mut schedule = RetrySchedule::new(&cfg);
    let wait = schedule.next_delay_ms(0);
    assert_eq!(wait, 250);

    let mut query = evm::Query::default();
    let config = StreamConfig { stop_on_head: true, ..StreamConfig::default() };
    let step = evm_stream_step(&mut query, &config, Ok(None));
    assert!(matches!(step, StreamStep::Halt));
}

#[test]
fn at_head_without_stop_polls_and_keeps_the_cursor() {
    let mut query = evm::Query::default();
    query.from_block = 42;
    let config = StreamConfig::default();
    let step = evm_stream_step(&mut query, &config, Ok(None));
    match step {
        StreamStep::Poll(ms) => assert_eq!(ms, config.head_poll_interval_millis),
        _ => panic!("expected a poll"),
    }
    assert_eq!(query.from_block, 42);
}

#[test]
fn an_error_outcome_fails_the_stream() {
    let mut query = evm::Query::default();
    let config = StreamConfig::default();
    let e = sqd_portal_client::Error::new(sqd_portal_client::ErrorKind::Transport, "boom");
    let step = evm_stream_step(&mut query, &config, Err(e));
    assert!(matches!(step, StreamStep::Fail(_)));
}

#[test]
fn retry_waits_follow_the_capped_schedule() {
    // base_i = min(250 + i * 1000, 2000); jitter is additive below one
    // backoff.
    let cfg = ClientConfig::default();
    let mut schedule = RetrySchedule::new(&cfg);
    assert_eq!(schedule.next_delay_ms(0), 250);
    assert_eq!(schedule.next_delay_ms(0), 1250);
    assert_eq!(schedule.next_delay_ms(0), 2000);
    assert_eq!(schedule.next_delay_ms(0), 2000);

    let mut jittered = RetrySchedule::new(&cfg);
    let d = jittered.next_delay_ms(123_456_789);
    assert!(d >= 250 && d < 1250);
}
