use sqd_portal_client::{evm, svm};

#[test]
fn evm_query_wire_has_tag_range_and_masks() {
    let mut q = evm::Query::default();
    q.from_block = 18123123;
    q.to_block = Some(18123222);
    q.include_all_blocks = true;
    q.logs = vec![evm::LogRequest::default()];
    let text = String::from_utf8(q.to_json_bytes()).unwrap();
    assert!(text.starts_with("{\"type\":\"evm\",\"fromBlock\":18123123,\"toBlock\":18123222,"));
    assert!(text.contains("\"includeAllBlocks\":true"));
    assert!(text.contains("\"fields\":{"));
    assert!(text.contains("\"logs\":[{"));
    assert!(text.contains("\"traces\":[]"));
    // a default log filter writes no string arrays, only its flags
    assert!(!text.contains("\"topic0\""));
}

#[test]
fn evm_query_without_to_block_writes_null() {
    let q = evm::Query::default();
    let text = String::from_utf8(q.to_json_bytes()).unwrap();
    assert!(text.contains("\"toBlock\":null"));
}

#[test]
fn svm_query_wire_is_tagged_solana() {
    let mut q = svm::Query::default();
    q.from_block = 300123123;
    q.to_block = Some(300123143);
    q.balances = vec![svm::BalanceRequest::default()];
    let text = String::from_utf8(q.to_json_bytes()).unwrap();
    assert!(text.starts_with("{\"type\":\"solana\",\"fromBlock\":300123123,"));
    assert!(text.contains("\"balances\":[{"));
    assert!(text.contains("\"tokenBalances\":[]"));
}

#[test]
fn evm_masks_round_trip() {
    let masks = [evm::TransactionFields::all(), evm::TransactionFields::default()];
    for m in masks {
        let back = evm::TransactionFields::from_json(&m.to_json()).unwrap();
        assert_eq!(back, m);
    }
    let b = evm::BlockFields::all();
    assert_eq!(evm::BlockFields::from_json(&b.to_json()).unwrap(), b);
}

#[test]
fn svm_masks_round_trip() {
    let m = svm::TransactionFields::all();
    assert_eq!(svm::TransactionFields::from_json(&m.to_json()).unwrap(), m);
    let r = svm::RewardFields::default();
    assert_eq!(svm::RewardFields::from_json(&r.to_json()).unwrap(), r);
}

#[test]
fn evm_trace_request_round_trips_and_omits_empty() {
    let q = evm::TraceRequest {
        type_: vec!["call".to_string()],
        create_from: vec![],
        call_from: vec!["0xaa".to_string()],
        call_to: vec![],
        call_sighash: vec![],
        suicide_refund_address: vec![],
        reward_author: vec![],
        transaction: true,
        transaction_logs: false,
        subtraces: true,
        parents: false,
    };
    let wire = q.to_json();
    assert_eq!(evm::TraceRequest::from_json(&wire).unwrap(), q);
    let text = String::from_utf8(wire.encode()).unwrap();
    assert!(text.contains("\"type\":[\"call\"]"));
    assert!(!text.contains("createFrom"));
    assert!(text.contains("\"subtraces\":true"));
}

#[test]
fn svm_instruction_request_round_trips_and_omits_empty() {
    let q = svm::InstructionRequest {
        program_id: vec!["TokenkegQfeZyiNwAJbNbGKPFXCWuBvf9Ss623VQ5DA".to_string()],
        d1: vec!["0x01".to_string()],
        ..svm::InstructionRequest::default()
    };
    let wire = q.to_json();
    assert_eq!(svm::InstructionRequest::from_json(&wire).unwrap(), q);
    let text = String::from_utf8(wire.encode()).unwrap();
    assert!(text.contains("\"programId\""));
    assert!(text.contains("\"d1\""));
    assert!(!text.contains("\"d2\""));
    assert!(!text.contains("\"a0\""));
    assert!(text.contains("\"isCommitted\":false"));
}

#[test]
fn svm_token_balance_request_round_trips() {
    let q = svm::TokenBalanceRequest {
        account: vec!["abc".to_string()],
        pre_owner: vec!["def".to_string()],
        transaction: true,
        ..svm::TokenBalanceRequest::default()
    };
    assert_eq!(svm::TokenBalanceRequest::from_json(&q.to_json()).unwrap(), q);
}

#[test]
fn evm_query_round_trips_through_the_wire_form() {
    let mut q = evm::Query::default();
    q.from_block = 7;
    q.to_block = Some(9);
    q.include_all_blocks = true;
    q.fields.block = evm::BlockFields::all();
    q.logs = vec![evm::LogRequest {
        address: vec!["0xaa".to_string()],
        transaction: true,
        ..evm::LogRequest::default()
    }];
    q.traces = vec![evm::TraceRequest::default()];
    let back = evm::Query::from_json(&q.to_json()).unwrap();
    assert_eq!(back, q);
}

#[test]
fn svm_query_round_trips_through_the_wire_form() {
    let mut q = svm::Query::default();
    q.from_block = 11;
    q.fields = svm::Fields::all();
    q.rewards = vec![svm::RewardRequest { pubkey: vec!["abc".to_string()] }];
    q.transactions = vec![svm::TransactionRequest::default()];
    let back = svm::Query::from_json(&q.to_json()).unwrap();
    assert_eq!(back, q);
}
