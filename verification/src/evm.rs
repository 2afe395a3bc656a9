//! The EVM dialect: the block decoder that turns one JSON block object
//! into typed rows, and the row batches a query yields.
//!
//! Every row of a child table (`transactions`, `logs`, `traces`) is
//! stamped with the `number` and `hash` of the header it came from, so
//! rows of different tables can be joined.  The decoder keeps that
//! alignment as an invariant ([`ArrowResponseParser::wf`]).

use vstd::prelude::*;
use crate::json::{JsonValue, field_of, u64_field, u8_field, hex_field, u256_field, u8_hex_field,
    string_field, u64_array_field, hex_array_field, bool_field, obj_lookup, has_member, has_key,
    str_arr_member, str_arr_entry, bool_member, str_arr_read, str_views, str_seq_is,
    spec_encode};
use crate::util::{I256, opt_bytes_view, opt_eq, opt_bytes_is, opt_string_is, opt_i256_is,
    opt_vu64_is, opt_vbytes_is, or_opt, clone_bytes, clone_opt_bytes, get_tape_u64, get_tape_u8,
    get_tape_hex, get_tape_i256, get_tape_u8_hex, get_tape_string, get_tape_array_of_u64,
    get_tape_array_of_hex, put_member, put_str_arr, str_vec_to_json, read_str_arr, read_bool,
    lemma_lookup_missing, json_obj_get};
use crate::{Error, ErrorKind};

verus! {

/// What an EVM query asks for: a block range, per-entity filter
/// predicates, and per-entity field masks.  The declared `type_` names
/// the dialect on the wire.
#[derive(Debug, Clone, PartialEq)]
pub struct Query {
    pub type_: QueryType,
    pub from_block: u64,
    pub to_block: Option<u64>,
    pub include_all_blocks: bool,
    pub fields: Fields,
    pub logs: Vec<LogRequest>,
    pub transactions: Vec<TransactionRequest>,
    pub traces: Vec<TraceRequest>,
    pub state_diffs: Vec<StateDiffRequest>,
}

#[derive(Debug, Clone, Copy, PartialEq, Eq, Structural)]
pub enum QueryType {
    Evm,
}

impl Default for QueryType {
    fn default() -> (r: QueryType)
        ensures
            r == QueryType::Evm,
    {
        QueryType::Evm
    }
}

impl Default for Query {
    fn default() -> (r: Query)
        ensures
            r.type_ == QueryType::Evm,
            r.from_block == 0,
            r.to_block is None,
            r.include_all_blocks == false,
            r.fields == Fields::default_spec(),
            r.logs@.len() == 0,
            r.transactions@.len() == 0,
            r.traces@.len() == 0,
            r.state_diffs@.len() == 0,
    {
        Query {
            type_: QueryType::Evm,
            from_block: 0,
            to_block: None,
            include_all_blocks: false,
            fields: Fields::default(),
            logs: Vec::new(),
            transactions: Vec::new(),
            traces: Vec::new(),
            state_diffs: Vec::new(),
        }
    }
}

/// A log filter: a row is selected when every non-empty member matches.
/// The flags pull related rows in with it.
#[derive(Debug, Clone, PartialEq, Default)]
pub struct LogRequest {
    pub address: Vec<String>,
    pub topic0: Vec<String>,
    pub topic1: Vec<String>,
    pub topic2: Vec<String>,
    pub topic3: Vec<String>,
    pub transaction: bool,
    pub transaction_traces: bool,
    pub transaction_logs: bool,
}

/// The wire form of a log filter: camelCase members, the string arrays
/// only when non-empty, the flags always.
pub open spec fn log_request_json_matches(q: LogRequest, v: JsonValue) -> bool {
    &&& v is Obj
    &&& str_arr_member(v, "address"@, q.address@)
    &&& str_arr_member(v, "topic0"@, q.topic0@)
    &&& str_arr_member(v, "topic1"@, q.topic1@)
    &&& str_arr_member(v, "topic2"@, q.topic2@)
    &&& str_arr_member(v, "topic3"@, q.topic3@)
    &&& bool_member(v, "transaction"@, q.transaction)
    &&& bool_member(v, "transactionTraces"@, q.transaction_traces)
    &&& bool_member(v, "transactionLogs"@, q.transaction_logs)
}

/// A log filter read back: absent arrays are empty, the flags are
/// required.
pub open spec fn log_request_parseable(v: JsonValue) -> bool {
    &&& v is Obj
    &&& str_arr_read(v, "address"@) is Ok
    &&& str_arr_read(v, "topic0"@) is Ok
    &&& str_arr_read(v, "topic1"@) is Ok
    &&& str_arr_read(v, "topic2"@) is Ok
    &&& str_arr_read(v, "topic3"@) is Ok
    &&& bool_field(v, "transaction"@) matches Ok(Some(_))
    &&& bool_field(v, "transactionTraces"@) matches Ok(Some(_))
    &&& bool_field(v, "transactionLogs"@) matches Ok(Some(_))
}

pub open spec fn log_request_parsed(q: LogRequest, v: JsonValue) -> bool {
    &&& match str_arr_read(v, "address"@) {
        Ok(vs) => str_seq_is(q.address@, vs),
        Err(_) => false,
    }
    &&& match str_arr_read(v, "topic0"@) {
        Ok(vs) => str_seq_is(q.topic0@, vs),
        Err(_) => false,
    }
    &&& match str_arr_read(v, "topic1"@) {
        Ok(vs) => str_seq_is(q.topic1@, vs),
        Err(_) => false,
    }
    &&& match str_arr_read(v, "topic2"@) {
        Ok(vs) => str_seq_is(q.topic2@, vs),
        Err(_) => false,
    }
    &&& match str_arr_read(v, "topic3"@) {
        Ok(vs) => str_seq_is(q.topic3@, vs),
        Err(_) => false,
    }
    &&& bool_field(v, "transaction"@) == Ok::<Option<bool>, crate::ErrorKind>(
        Some(q.transaction),
    )
    &&& bool_field(v, "transactionTraces"@) == Ok::<Option<bool>, crate::ErrorKind>(
        Some(q.transaction_traces),
    )
    &&& bool_field(v, "transactionLogs"@) == Ok::<Option<bool>, crate::ErrorKind>(
        Some(q.transaction_logs),
    )
}

impl LogRequest {
    /// Serialize for the wire: empty string arrays are left out, the
    /// flags always appear.
    #[verifier::rlimit(100)]
    pub fn to_json(&self) -> (r: JsonValue)
        ensures
            log_request_json_matches(*self, r),
    {
        proof {
            reveal_strlit("address");
            reveal_strlit("topic0");
            reveal_strlit("topic1");
            reveal_strlit("topic2");
            reveal_strlit("topic3");
            reveal_strlit("transaction");
            reveal_strlit("transactionTraces");
            reveal_strlit("transactionLogs");
            assert("address"@.len() == 7);
            assert("topic0"@.len() == 6);
            assert("topic1"@.len() == 6);
            assert("topic2"@.len() == 6);
            assert("topic3"@.len() == 6);
            assert("transaction"@.len() == 11);
            assert("transactionTraces"@.len() == 17);
            assert("transactionLogs"@.len() == 15);
            assert("topic0"@[5] == '0');
            assert("topic1"@[5] == '1');
            assert("topic2"@[5] == '2');
            assert("topic3"@[5] == '3');
        }
        let mut m: Vec<(String, JsonValue)> = Vec::new();
        proof {
            assert forall|k: Seq<char>| !has_key(m@, k) by {
                if has_key(m@, k) {
                    let j = choose|j: int| 0 <= j < m@.len() && (#[trigger] m@[j]).0@ == k;
                }
            }
        }
        put_str_arr(&mut m, "address", &self.address);
        put_str_arr(&mut m, "topic0", &self.topic0);
        put_str_arr(&mut m, "topic1", &self.topic1);
        put_str_arr(&mut m, "topic2", &self.topic2);
        put_str_arr(&mut m, "topic3", &self.topic3);
        put_member(&mut m, "transaction", JsonValue::Bool(self.transaction));
        put_member(&mut m, "transactionTraces", JsonValue::Bool(self.transaction_traces));
        put_member(&mut m, "transactionLogs", JsonValue::Bool(self.transaction_logs));
        JsonValue::Obj(m)
    }

    /// Read a log filter back from its wire form.
    pub fn from_json(v: &JsonValue) -> (r: Result<LogRequest, Error>)
        ensures
            r is Ok <==> log_request_parseable(*v),
            r is Ok ==> log_request_parsed(r->Ok_0, *v),
    {
        match v {
            JsonValue::Obj(_) => {},
            _ => { return Err(Error::new(ErrorKind::Shape, "log request as object")); },
        }
        let address = read_str_arr(v, "address")?;
        let topic0 = read_str_arr(v, "topic0")?;
        let topic1 = read_str_arr(v, "topic1")?;
        let topic2 = read_str_arr(v, "topic2")?;
        let topic3 = read_str_arr(v, "topic3")?;
        let transaction = read_bool(v, "transaction")?;
        let transaction_traces = read_bool(v, "transactionTraces")?;
        let transaction_logs = read_bool(v, "transactionLogs")?;
        Ok(
            LogRequest {
                address,
                topic0,
                topic1,
                topic2,
                topic3,
                transaction,
                transaction_traces,
                transaction_logs,
            },
        )
    }
}

/// A serialized log filter always reads back.
pub proof fn lemma_log_request_serial_parses(q: LogRequest, v: JsonValue)
    requires
        log_request_json_matches(q, v),
    ensures
        log_request_parseable(v),
{
    crate::util::lemma_member_parses(v, "address"@, q.address@);
    crate::util::lemma_member_parses(v, "topic0"@, q.topic0@);
    crate::util::lemma_member_parses(v, "topic1"@, q.topic1@);
    crate::util::lemma_member_parses(v, "topic2"@, q.topic2@);
    crate::util::lemma_member_parses(v, "topic3"@, q.topic3@);
}

/// Omit-empty round trip for the log filter: what `to_json` writes,
/// `from_json` accepts, and the filter it returns reads member for
/// member as the one written.
pub proof fn lemma_log_request_round_trip(q: LogRequest, v: JsonValue, q2: LogRequest)
    requires
        log_request_json_matches(q, v),
        log_request_parsed(q2, v),
    ensures
        str_seq_is(q2.address@, q.address@.map_values(|s: String| s@)),
        str_seq_is(q2.topic0@, q.topic0@.map_values(|s: String| s@)),
        str_seq_is(q2.topic1@, q.topic1@.map_values(|s: String| s@)),
        str_seq_is(q2.topic2@, q.topic2@.map_values(|s: String| s@)),
        str_seq_is(q2.topic3@, q.topic3@.map_values(|s: String| s@)),
        q2.transaction == q.transaction,
        q2.transaction_traces == q.transaction_traces,
        q2.transaction_logs == q.transaction_logs,
{
    crate::util::lemma_member_round_trip(v, "address"@, q.address@, q2.address@);
    crate::util::lemma_member_round_trip(v, "topic0"@, q.topic0@, q2.topic0@);
    crate::util::lemma_member_round_trip(v, "topic1"@, q.topic1@, q2.topic1@);
    crate::util::lemma_member_round_trip(v, "topic2"@, q.topic2@, q2.topic2@);
    crate::util::lemma_member_round_trip(v, "topic3"@, q.topic3@, q2.topic3@);
}

#[derive(Debug, Clone, PartialEq, Default)]
pub struct TransactionRequest {
    pub from: Vec<String>,
    pub to: Vec<String>,
    pub sighash: Vec<String>,
    pub logs: bool,
    pub traces: bool,
    pub state_diffs: bool,
}

#[derive(Debug, Clone, PartialEq, Default)]
pub struct TraceRequest {
    pub type_: Vec<String>,
    pub create_from: Vec<String>,
    pub call_from: Vec<String>,
    pub call_to: Vec<String>,
    pub call_sighash: Vec<String>,
    pub suicide_refund_address: Vec<String>,
    pub reward_author: Vec<String>,
    pub transaction: bool,
    pub transaction_logs: bool,
    pub subtraces: bool,
    pub parents: bool,
}

#[derive(Debug, Clone, PartialEq, Default)]
pub struct StateDiffRequest {
    pub address: Vec<String>,
    pub key: Vec<String>,
    pub kind: Vec<String>,
    pub transaction: bool,
}


/// The wire form of a transaction filter: camelCase members, the string
/// arrays only when non-empty, the flags always.
pub open spec fn transaction_request_json_matches(q: TransactionRequest, v: JsonValue) -> bool {
    &&& v is Obj
    &&& str_arr_member(v, "from"@, q.from@)
    &&& str_arr_member(v, "to"@, q.to@)
    &&& str_arr_member(v, "sighash"@, q.sighash@)
    &&& bool_member(v, "logs"@, q.logs)
    &&& bool_member(v, "traces"@, q.traces)
    &&& bool_member(v, "stateDiffs"@, q.state_diffs)
}

/// A transaction filter read back: absent arrays are empty, the flags are
/// required.
pub open spec fn transaction_request_parseable(v: JsonValue) -> bool {
    &&& v is Obj
    &&& str_arr_read(v, "from"@) is Ok
    &&& str_arr_read(v, "to"@) is Ok
    &&& str_arr_read(v, "sighash"@) is Ok
    &&& bool_field(v, "logs"@) matches Ok(Some(_))
    &&& bool_field(v, "traces"@) matches Ok(Some(_))
    &&& bool_field(v, "stateDiffs"@) matches Ok(Some(_))
}

pub open spec fn transaction_request_parsed(q: TransactionRequest, v: JsonValue) -> bool {
    &&& match str_arr_read(v, "from"@) {
        Ok(vs) => str_seq_is(q.from@, vs),
        Err(_) => false,
    }
    &&& match str_arr_read(v, "to"@) {
        Ok(vs) => str_seq_is(q.to@, vs),
        Err(_) => false,
    }
    &&& match str_arr_read(v, "sighash"@) {
        Ok(vs) => str_seq_is(q.sighash@, vs),
        Err(_) => false,
    }
    &&& bool_field(v, "logs"@) == Ok::<Option<bool>, crate::ErrorKind>(
        Some(q.logs),
    )
    &&& bool_field(v, "traces"@) == Ok::<Option<bool>, crate::ErrorKind>(
        Some(q.traces),
    )
    &&& bool_field(v, "stateDiffs"@) == Ok::<Option<bool>, crate::ErrorKind>(
        Some(q.state_diffs),
    )
}

impl TransactionRequest {
    /// Serialize for the wire: empty string arrays are left out, the
    /// flags always appear.
    #[verifier::rlimit(100)]
    pub fn to_json(&self) -> (r: JsonValue)
        ensures
            transaction_request_json_matches(*self, r),
    {
        proof {
            reveal_strlit("from");
            reveal_strlit("to");
            reveal_strlit("sighash");
            reveal_strlit("logs");
            reveal_strlit("traces");
            reveal_strlit("stateDiffs");
            assert("from"@.len() == 4);
            assert("to"@.len() == 2);
            assert("sighash"@.len() == 7);
            assert("logs"@.len() == 4);
            assert("traces"@.len() == 6);
            assert("stateDiffs"@.len() == 10);
            assert("from"@[0] == 'f');
            assert("logs"@[0] == 'l');
        }
        let mut m: Vec<(String, JsonValue)> = Vec::new();
        proof {
            assert forall|k: Seq<char>| !has_key(m@, k) by {
                if has_key(m@, k) {
                    let j = choose|j: int| 0 <= j < m@.len() && (#[trigger] m@[j]).0@ == k;
                }
            }
        }
        put_str_arr(&mut m, "from", &self.from);
        put_str_arr(&mut m, "to", &self.to);
        put_str_arr(&mut m, "sighash", &self.sighash);
        put_member(&mut m, "logs", JsonValue::Bool(self.logs));
        put_member(&mut m, "traces", JsonValue::Bool(self.traces));
        put_member(&mut m, "stateDiffs", JsonValue::Bool(self.state_diffs));
        JsonValue::Obj(m)
    }

    /// Read a transaction filter back from its wire form.
    pub fn from_json(v: &JsonValue) -> (r: Result<TransactionRequest, Error>)
        ensures
            r is Ok <==> transaction_request_parseable(*v),
            r is Ok ==> transaction_request_parsed(r->Ok_0, *v),
    {
        match v {
            JsonValue::Obj(_) => {},
            _ => { return Err(Error::new(ErrorKind::Shape, "transaction_request as object")); },
        }
        let from = read_str_arr(v, "from")?;
        let to = read_str_arr(v, "to")?;
        let sighash = read_str_arr(v, "sighash")?;
        let logs = read_bool(v, "logs")?;
        let traces = read_bool(v, "traces")?;
        let state_diffs = read_bool(v, "stateDiffs")?;
        Ok(TransactionRequest { from, to, sighash, logs, traces, state_diffs })
    }
}

/// A serialized transaction filter always reads back.
pub proof fn lemma_transaction_request_serial_parses(q: TransactionRequest, v: JsonValue)
    requires
        transaction_request_json_matches(q, v),
    ensures
        transaction_request_parseable(v),
{
    crate::util::lemma_member_parses(v, "from"@, q.from@);
    crate::util::lemma_member_parses(v, "to"@, q.to@);
    crate::util::lemma_member_parses(v, "sighash"@, q.sighash@);
}

/// Omit-empty round trip for the transaction filter: what `to_json` writes,
/// `from_json` accepts, and the filter it returns reads member for
/// member as the one written.
pub proof fn lemma_transaction_request_round_trip(q: TransactionRequest, v: JsonValue, q2: TransactionRequest)
    requires
        transaction_request_json_matches(q, v),
        transaction_request_parsed(q2, v),
    ensures
        str_seq_is(q2.from@, q.from@.map_values(|s: String| s@)),
        str_seq_is(q2.to@, q.to@.map_values(|s: String| s@)),
        str_seq_is(q2.sighash@, q.sighash@.map_values(|s: String| s@)),
        q2.logs == q.logs,
        q2.traces == q.traces,
        q2.state_diffs == q.state_diffs,
{
    crate::util::lemma_member_round_trip(v, "from"@, q.from@, q2.from@);
    crate::util::lemma_member_round_trip(v, "to"@, q.to@, q2.to@);
    crate::util::lemma_member_round_trip(v, "sighash"@, q.sighash@, q2.sighash@);
}

/// The wire form of a trace filter: camelCase members, the string
/// arrays only when non-empty, the flags always.
pub open spec fn trace_request_json_matches(q: TraceRequest, v: JsonValue) -> bool {
    &&& v is Obj
    &&& str_arr_member(v, "type"@, q.type_@)
    &&& str_arr_member(v, "createFrom"@, q.create_from@)
    &&& str_arr_member(v, "callFrom"@, q.call_from@)
    &&& str_arr_member(v, "callTo"@, q.call_to@)
    &&& str_arr_member(v, "callSighash"@, q.call_sighash@)
    &&& str_arr_member(v, "suicideRefundAddress"@, q.suicide_refund_address@)
    &&& str_arr_member(v, "rewardAuthor"@, q.reward_author@)
    &&& bool_member(v, "transaction"@, q.transaction)
    &&& bool_member(v, "transactionLogs"@, q.transaction_logs)
    &&& bool_member(v, "subtraces"@, q.subtraces)
    &&& bool_member(v, "parents"@, q.parents)
}

/// A trace filter read back: absent arrays are empty, the flags are
/// required.
pub open spec fn trace_request_parseable(v: JsonValue) -> bool {
    &&& v is Obj
    &&& str_arr_read(v, "type"@) is Ok
    &&& str_arr_read(v, "createFrom"@) is Ok
    &&& str_arr_read(v, "callFrom"@) is Ok
    &&& str_arr_read(v, "callTo"@) is Ok
    &&& str_arr_read(v, "callSighash"@) is Ok
    &&& str_arr_read(v, "suicideRefundAddress"@) is Ok
    &&& str_arr_read(v, "rewardAuthor"@) is Ok
    &&& bool_field(v, "transaction"@) matches Ok(Some(_))
    &&& bool_field(v, "transactionLogs"@) matches Ok(Some(_))
    &&& bool_field(v, "subtraces"@) matches Ok(Some(_))
    &&& bool_field(v, "parents"@) matches Ok(Some(_))
}

pub open spec fn trace_request_parsed(q: TraceRequest, v: JsonValue) -> bool {
    &&& match str_arr_read(v, "type"@) {
        Ok(vs) => str_seq_is(q.type_@, vs),
        Err(_) => false,
    }
    &&& match str_arr_read(v, "createFrom"@) {
        Ok(vs) => str_seq_is(q.create_from@, vs),
        Err(_) => false,
    }
    &&& match str_arr_read(v, "callFrom"@) {
        Ok(vs) => str_seq_is(q.call_from@, vs),
        Err(_) => false,
    }
    &&& match str_arr_read(v, "callTo"@) {
        Ok(vs) => str_seq_is(q.call_to@, vs),
        Err(_) => false,
    }
    &&& match str_arr_read(v, "callSighash"@) {
        Ok(vs) => str_seq_is(q.call_sighash@, vs),
        Err(_) => false,
    }
    &&& match str_arr_read(v, "suicideRefundAddress"@) {
        Ok(vs) => str_seq_is(q.suicide_refund_address@, vs),
        Err(_) => false,
    }
    &&& match str_arr_read(v, "rewardAuthor"@) {
        Ok(vs) => str_seq_is(q.reward_author@, vs),
        Err(_) => false,
    }
    &&& bool_field(v, "transaction"@) == Ok::<Option<bool>, crate::ErrorKind>(
        Some(q.transaction),
    )
    &&& bool_field(v, "transactionLogs"@) == Ok::<Option<bool>, crate::ErrorKind>(
        Some(q.transaction_logs),
    )
    &&& bool_field(v, "subtraces"@) == Ok::<Option<bool>, crate::ErrorKind>(
        Some(q.subtraces),
    )
    &&& bool_field(v, "parents"@) == Ok::<Option<bool>, crate::ErrorKind>(
        Some(q.parents),
    )
}

impl TraceRequest {
    /// Serialize for the wire: empty string arrays are left out, the
    /// flags always appear.
    #[verifier::rlimit(100)]
    pub fn to_json(&self) -> (r: JsonValue)
        ensures
            trace_request_json_matches(*self, r),
    {
        proof {
            reveal_strlit("type");
            reveal_strlit("createFrom");
            reveal_strlit("callFrom");
            reveal_strlit("callTo");
            reveal_strlit("callSighash");
            reveal_strlit("suicideRefundAddress");
            reveal_strlit("rewardAuthor");
            reveal_strlit("transaction");
            reveal_strlit("transactionLogs");
            reveal_strlit("subtraces");
            reveal_strlit("parents");
            assert("type"@.len() == 4);
            assert("createFrom"@.len() == 10);
            assert("callFrom"@.len() == 8);
            assert("callTo"@.len() == 6);
            assert("callSighash"@.len() == 11);
            assert("suicideRefundAddress"@.len() == 20);
            assert("rewardAuthor"@.len() == 12);
            assert("transaction"@.len() == 11);
            assert("transactionLogs"@.len() == 15);
            assert("subtraces"@.len() == 9);
            assert("parents"@.len() == 7);
            assert("callSighash"@[0] == 'c');
            assert("transaction"@[0] == 't');
        }
        let mut m: Vec<(String, JsonValue)> = Vec::new();
        proof {
            assert forall|k: Seq<char>| !has_key(m@, k) by {
                if has_key(m@, k) {
                    let j = choose|j: int| 0 <= j < m@.len() && (#[trigger] m@[j]).0@ == k;
                }
            }
        }
        put_str_arr(&mut m, "type", &self.type_);
        put_str_arr(&mut m, "createFrom", &self.create_from);
        put_str_arr(&mut m, "callFrom", &self.call_from);
        put_str_arr(&mut m, "callTo", &self.call_to);
        put_str_arr(&mut m, "callSighash", &self.call_sighash);
        put_str_arr(&mut m, "suicideRefundAddress", &self.suicide_refund_address);
        put_str_arr(&mut m, "rewardAuthor", &self.reward_author);
        put_member(&mut m, "transaction", JsonValue::Bool(self.transaction));
        put_member(&mut m, "transactionLogs", JsonValue::Bool(self.transaction_logs));
        put_member(&mut m, "subtraces", JsonValue::Bool(self.subtraces));
        put_member(&mut m, "parents", JsonValue::Bool(self.parents));
        JsonValue::Obj(m)
    }

    /// Read a trace filter back from its wire form.
    pub fn from_json(v: &JsonValue) -> (r: Result<TraceRequest, Error>)
        ensures
            r is Ok <==> trace_request_parseable(*v),
            r is Ok ==> trace_request_parsed(r->Ok_0, *v),
    {
        match v {
            JsonValue::Obj(_) => {},
            _ => { return Err(Error::new(ErrorKind::Shape, "trace_request as object")); },
        }
        let type_ = read_str_arr(v, "type")?;
        let create_from = read_str_arr(v, "createFrom")?;
        let call_from = read_str_arr(v, "callFrom")?;
        let call_to = read_str_arr(v, "callTo")?;
        let call_sighash = read_str_arr(v, "callSighash")?;
        let suicide_refund_address = read_str_arr(v, "suicideRefundAddress")?;
        let reward_author = read_str_arr(v, "rewardAuthor")?;
        let transaction = read_bool(v, "transaction")?;
        let transaction_logs = read_bool(v, "transactionLogs")?;
        let subtraces = read_bool(v, "subtraces")?;
        let parents = read_bool(v, "parents")?;
        Ok(TraceRequest { type_, create_from, call_from, call_to, call_sighash, suicide_refund_address, reward_author, transaction, transaction_logs, subtraces, parents })
    }
}

/// A serialized trace filter always reads back.
pub proof fn lemma_trace_request_serial_parses(q: TraceRequest, v: JsonValue)
    requires
        trace_request_json_matches(q, v),
    ensures
        trace_request_parseable(v),
{
    crate::util::lemma_member_parses(v, "type"@, q.type_@);
    crate::util::lemma_member_parses(v, "createFrom"@, q.create_from@);
    crate::util::lemma_member_parses(v, "callFrom"@, q.call_from@);
    crate::util::lemma_member_parses(v, "callTo"@, q.call_to@);
    crate::util::lemma_member_parses(v, "callSighash"@, q.call_sighash@);
    crate::util::lemma_member_parses(v, "suicideRefundAddress"@, q.suicide_refund_address@);
    crate::util::lemma_member_parses(v, "rewardAuthor"@, q.reward_author@);
}

/// Omit-empty round trip for the trace filter: what `to_json` writes,
/// `from_json` accepts, and the filter it returns reads member for
/// member as the one written.
pub proof fn lemma_trace_request_round_trip(q: TraceRequest, v: JsonValue, q2: TraceRequest)
    requires
        trace_request_json_matches(q, v),
        trace_request_parsed(q2, v),
    ensures
        str_seq_is(q2.type_@, q.type_@.map_values(|s: String| s@)),
        str_seq_is(q2.create_from@, q.create_from@.map_values(|s: String| s@)),
        str_seq_is(q2.call_from@, q.call_from@.map_values(|s: String| s@)),
        str_seq_is(q2.call_to@, q.call_to@.map_values(|s: String| s@)),
        str_seq_is(q2.call_sighash@, q.call_sighash@.map_values(|s: String| s@)),
        str_seq_is(q2.suicide_refund_address@, q.suicide_refund_address@.map_values(|s: String| s@)),
        str_seq_is(q2.reward_author@, q.reward_author@.map_values(|s: String| s@)),
        q2.transaction == q.transaction,
        q2.transaction_logs == q.transaction_logs,
        q2.subtraces == q.subtraces,
        q2.parents == q.parents,
{
    crate::util::lemma_member_round_trip(v, "type"@, q.type_@, q2.type_@);
    crate::util::lemma_member_round_trip(v, "createFrom"@, q.create_from@, q2.create_from@);
    crate::util::lemma_member_round_trip(v, "callFrom"@, q.call_from@, q2.call_from@);
    crate::util::lemma_member_round_trip(v, "callTo"@, q.call_to@, q2.call_to@);
    crate::util::lemma_member_round_trip(v, "callSighash"@, q.call_sighash@, q2.call_sighash@);
    crate::util::lemma_member_round_trip(v, "suicideRefundAddress"@, q.suicide_refund_address@, q2.suicide_refund_address@);
    crate::util::lemma_member_round_trip(v, "rewardAuthor"@, q.reward_author@, q2.reward_author@);
}

/// The wire form of a state-diff filter: camelCase members, the string
/// arrays only when non-empty, the flags always.
pub open spec fn state_diff_request_json_matches(q: StateDiffRequest, v: JsonValue) -> bool {
    &&& v is Obj
    &&& str_arr_member(v, "address"@, q.address@)
    &&& str_arr_member(v, "key"@, q.key@)
    &&& str_arr_member(v, "kind"@, q.kind@)
    &&& bool_member(v, "transaction"@, q.transaction)
}

/// A state-diff filter read back: absent arrays are empty, the flags are
/// required.
pub open spec fn state_diff_request_parseable(v: JsonValue) -> bool {
    &&& v is Obj
    &&& str_arr_read(v, "address"@) is Ok
    &&& str_arr_read(v, "key"@) is Ok
    &&& str_arr_read(v, "kind"@) is Ok
    &&& bool_field(v, "transaction"@) matches Ok(Some(_))
}

pub open spec fn state_diff_request_parsed(q: StateDiffRequest, v: JsonValue) -> bool {
    &&& match str_arr_read(v, "address"@) {
        Ok(vs) => str_seq_is(q.address@, vs),
        Err(_) => false,
    }
    &&& match str_arr_read(v, "key"@) {
        Ok(vs) => str_seq_is(q.key@, vs),
        Err(_) => false,
    }
    &&& match str_arr_read(v, "kind"@) {
        Ok(vs) => str_seq_is(q.kind@, vs),
        Err(_) => false,
    }
    &&& bool_field(v, "transaction"@) == Ok::<Option<bool>, crate::ErrorKind>(
        Some(q.transaction),
    )
}

impl StateDiffRequest {
    /// Serialize for the wire: empty string arrays are left out, the
    /// flags always appear.
    #[verifier::rlimit(100)]
    pub fn to_json(&self) -> (r: JsonValue)
        ensures
            state_diff_request_json_matches(*self, r),
    {
        proof {
            reveal_strlit("address");
            reveal_strlit("key");
            reveal_strlit("kind");
            reveal_strlit("transaction");
            assert("address"@.len() == 7);
            assert("key"@.len() == 3);
            assert("kind"@.len() == 4);
            assert("transaction"@.len() == 11);
        }
        let mut m: Vec<(String, JsonValue)> = Vec::new();
        proof {
            assert forall|k: Seq<char>| !has_key(m@, k) by {
                if has_key(m@, k) {
                    let j = choose|j: int| 0 <= j < m@.len() && (#[trigger] m@[j]).0@ == k;
                }
            }
        }
        put_str_arr(&mut m, "address", &self.address);
        put_str_arr(&mut m, "key", &self.key);
        put_str_arr(&mut m, "kind", &self.kind);
        put_member(&mut m, "transaction", JsonValue::Bool(self.transaction));
        JsonValue::Obj(m)
    }

    /// Read a state-diff filter back from its wire form.
    pub fn from_json(v: &JsonValue) -> (r: Result<StateDiffRequest, Error>)
        ensures
            r is Ok <==> state_diff_request_parseable(*v),
            r is Ok ==> state_diff_request_parsed(r->Ok_0, *v),
    {
        match v {
            JsonValue::Obj(_) => {},
            _ => { return Err(Error::new(ErrorKind::Shape, "state_diff_request as object")); },
        }
        let address = read_str_arr(v, "address")?;
        let key = read_str_arr(v, "key")?;
        let kind = read_str_arr(v, "kind")?;
        let transaction = read_bool(v, "transaction")?;
        Ok(StateDiffRequest { address, key, kind, transaction })
    }
}

/// A serialized state-diff filter always reads back.
pub proof fn lemma_state_diff_request_serial_parses(q: StateDiffRequest, v: JsonValue)
    requires
        state_diff_request_json_matches(q, v),
    ensures
        state_diff_request_parseable(v),
{
    crate::util::lemma_member_parses(v, "address"@, q.address@);
    crate::util::lemma_member_parses(v, "key"@, q.key@);
    crate::util::lemma_member_parses(v, "kind"@, q.kind@);
}

/// Omit-empty round trip for the state-diff filter: what `to_json` writes,
/// `from_json` accepts, and the filter it returns reads member for
/// member as the one written.
pub proof fn lemma_state_diff_request_round_trip(q: StateDiffRequest, v: JsonValue, q2: StateDiffRequest)
    requires
        state_diff_request_json_matches(q, v),
        state_diff_request_parsed(q2, v),
    ensures
        str_seq_is(q2.address@, q.address@.map_values(|s: String| s@)),
        str_seq_is(q2.key@, q.key@.map_values(|s: String| s@)),
        str_seq_is(q2.kind@, q.kind@.map_values(|s: String| s@)),
        q2.transaction == q.transaction,
{
    crate::util::lemma_member_round_trip(v, "address"@, q.address@, q2.address@);
    crate::util::lemma_member_round_trip(v, "key"@, q.key@, q2.key@);
    crate::util::lemma_member_round_trip(v, "kind"@, q.kind@, q2.kind@);
}

/// The per-entity field masks, serialized in full.
#[derive(Debug, Clone, Copy, PartialEq, Eq, Structural)]
pub struct Fields {
    pub log: LogFields,
    pub transaction: TransactionFields,
    pub trace: TraceFields,
    pub block: BlockFields,
}

impl Fields {
    /// The all-false masks.
    pub open spec fn default_spec() -> Fields {
        Fields {
            log: LogFields::default_spec(),
            transaction: TransactionFields::default_spec(),
            trace: TraceFields::default_spec(),
            block: BlockFields::default_spec(),
        }
    }

    /// Every mask bit of every entity set.
    pub fn all() -> (r: Fields)
        ensures
            r == (Fields {
                log: LogFields::all_spec(),
                transaction: TransactionFields::all_spec(),
                trace: TraceFields::all_spec(),
                block: BlockFields::all_spec(),
            }),
    {
        Fields {
            log: LogFields::all(),
            transaction: TransactionFields::all(),
            trace: TraceFields::all(),
            block: BlockFields::all(),
        }
    }
}

impl Default for Fields {
    fn default() -> (r: Fields)
        ensures
            r == Fields::default_spec(),
    {
        Fields {
            log: LogFields::default(),
            transaction: TransactionFields::default(),
            trace: TraceFields::default(),
            block: BlockFields::default(),
        }
    }
}

#[derive(Debug, Clone, Copy, PartialEq, Eq, Structural)]
pub struct LogFields {
    pub log_index: bool,
    pub transaction_index: bool,
    pub transaction_hash: bool,
    pub address: bool,
    pub data: bool,
    pub topics: bool,
}

impl LogFields {
    pub open spec fn default_spec() -> LogFields {
        LogFields {
            log_index: false,
            transaction_index: false,
            transaction_hash: false,
            address: false,
            data: false,
            topics: false,
        }
    }

    pub open spec fn all_spec() -> LogFields {
        LogFields {
            log_index: true,
            transaction_index: true,
            transaction_hash: true,
            address: true,
            data: true,
            topics: true,
        }
    }

    /// Every log mask bit set.
    pub fn all() -> (r: LogFields)
        ensures
            r == LogFields::all_spec(),
    {
        LogFields {
            log_index: true,
            transaction_index: true,
            transaction_hash: true,
            address: true,
            data: true,
            topics: true,
        }
    }
}

impl Default for LogFields {
    fn default() -> (r: LogFields)
        ensures
            r == LogFields::default_spec(),
    {
        LogFields {
            log_index: false,
            transaction_index: false,
            transaction_hash: false,
            address: false,
            data: false,
            topics: false,
        }
    }
}

#[derive(Debug, Clone, Copy, PartialEq, Eq, Structural)]
pub struct TransactionFields {
    pub transaction_index: bool,
    pub hash: bool,
    pub nonce: bool,
    pub from: bool,
    pub to: bool,
    pub input: bool,
    pub value: bool,
    pub gas: bool,
    pub gas_price: bool,
    pub max_fee_per_gas: bool,
    pub max_priority_fee_per_gas: bool,
    pub v: bool,
    pub r: bool,
    pub s: bool,
    pub y_parity: bool,
    pub chain_id: bool,
    pub sighash: bool,
    pub contract_address: bool,
    pub gas_used: bool,
    pub cumulative_gas_used: bool,
    pub effective_gas_price: bool,
    pub type_: bool,
    pub status: bool,
    pub max_fee_per_blob_gas: bool,
    pub blob_versioned_hashes: bool,
    pub l1_fee: bool,
    pub l1_fee_scalar: bool,
    pub l1_gas_price: bool,
    pub l1_gas_used: bool,
    pub l1_blob_base_fee: bool,
    pub l1_blob_base_fee_scalar: bool,
    pub l1_base_fee_scalar: bool,
}

impl TransactionFields {
    pub open spec fn default_spec() -> TransactionFields {
        TransactionFields {
            transaction_index: false,
            hash: false,
            nonce: false,
            from: false,
            to: false,
            input: false,
            value: false,
            gas: false,
            gas_price: false,
            max_fee_per_gas: false,
            max_priority_fee_per_gas: false,
            v: false,
            r: false,
            s: false,
            y_parity: false,
            chain_id: false,
            sighash: false,
            contract_address: false,
            gas_used: false,
            cumulative_gas_used: false,
            effective_gas_price: false,
            type_: false,
            status: false,
            max_fee_per_blob_gas: false,
            blob_versioned_hashes: false,
            l1_fee: false,
            l1_fee_scalar: false,
            l1_gas_price: false,
            l1_gas_used: false,
            l1_blob_base_fee: false,
            l1_blob_base_fee_scalar: false,
            l1_base_fee_scalar: false,
        }
    }

    pub open spec fn all_spec() -> TransactionFields {
        TransactionFields {
            transaction_index: true,
            hash: true,
            nonce: true,
            from: true,
            to: true,
            input: true,
            value: true,
            gas: true,
            gas_price: true,
            max_fee_per_gas: true,
            max_priority_fee_per_gas: true,
            v: true,
            r: true,
            s: true,
            y_parity: true,
            chain_id: true,
            sighash: true,
            contract_address: true,
            gas_used: true,
            cumulative_gas_used: true,
            effective_gas_price: true,
            type_: true,
            status: true,
            max_fee_per_blob_gas: true,
            blob_versioned_hashes: true,
            l1_fee: true,
            l1_fee_scalar: true,
            l1_gas_price: true,
            l1_gas_used: true,
            l1_blob_base_fee: true,
            l1_blob_base_fee_scalar: true,
            l1_base_fee_scalar: true,
        }
    }

    /// Every transaction mask bit set.
    pub fn all() -> (r: TransactionFields)
        ensures
            r == TransactionFields::all_spec(),
    {
        TransactionFields {
            transaction_index: true,
            hash: true,
            nonce: true,
            from: true,
            to: true,
            input: true,
            value: true,
            gas: true,
            gas_price: true,
            max_fee_per_gas: true,
            max_priority_fee_per_gas: true,
            v: true,
            r: true,
            s: true,
            y_parity: true,
            chain_id: true,
            sighash: true,
            contract_address: true,
            gas_used: true,
            cumulative_gas_used: true,
            effective_gas_price: true,
            type_: true,
            status: true,
            max_fee_per_blob_gas: true,
            blob_versioned_hashes: true,
            l1_fee: true,
            l1_fee_scalar: true,
            l1_gas_price: true,
            l1_gas_used: true,
            l1_blob_base_fee: true,
            l1_blob_base_fee_scalar: true,
            l1_base_fee_scalar: true,
        }
    }
}

impl Default for TransactionFields {
    fn default() -> (r: TransactionFields)
        ensures
            r == TransactionFields::default_spec(),
    {
        TransactionFields {
            transaction_index: false,
            hash: false,
            nonce: false,
            from: false,
            to: false,
            input: false,
            value: false,
            gas: false,
            gas_price: false,
            max_fee_per_gas: false,
            max_priority_fee_per_gas: false,
            v: false,
            r: false,
            s: false,
            y_parity: false,
            chain_id: false,
            sighash: false,
            contract_address: false,
            gas_used: false,
            cumulative_gas_used: false,
            effective_gas_price: false,
            type_: false,
            status: false,
            max_fee_per_blob_gas: false,
            blob_versioned_hashes: false,
            l1_fee: false,
            l1_fee_scalar: false,
            l1_gas_price: false,
            l1_gas_used: false,
            l1_blob_base_fee: false,
            l1_blob_base_fee_scalar: false,
            l1_base_fee_scalar: false,
        }
    }
}

#[derive(Debug, Clone, Copy, PartialEq, Eq, Structural)]
pub struct StateDiffFields {
    pub transaction_index: bool,
    pub address: bool,
    pub key: bool,
    pub kind: bool,
    pub prev: bool,
    pub next: bool,
}

impl Default for StateDiffFields {
    fn default() -> (r: StateDiffFields)
        ensures
            r.transaction_index == false,
            r.address == false,
            r.key == false,
            r.kind == false,
            r.prev == false,
            r.next == false,
    {
        StateDiffFields {
            transaction_index: false,
            address: false,
            key: false,
            kind: false,
            prev: false,
            next: false,
        }
    }
}

#[derive(Debug, Clone, Copy, PartialEq, Eq, Structural)]
pub struct TraceFields {
    pub transaction_index: bool,
    pub trace_address: bool,
    pub subtraces: bool,
    pub type_: bool,
    pub error: bool,
    pub revert_reason: bool,
    pub create_from: bool,
    pub create_value: bool,
    pub create_gas: bool,
    pub create_init: bool,
    pub create_result_gas_used: bool,
    pub create_result_code: bool,
    pub create_result_address: bool,
    pub call_from: bool,
    pub call_to: bool,
    pub call_value: bool,
    pub call_gas: bool,
    pub call_input: bool,
    pub call_sighash: bool,
    pub call_type: bool,
    pub call_call_type: bool,
    pub call_result_gas_used: bool,
    pub call_result_output: bool,
    pub suicide_address: bool,
    pub suicide_refund_address: bool,
    pub suicide_balance: bool,
    pub reward_author: bool,
    pub reward_value: bool,
    pub reward_type: bool,
}

impl TraceFields {
    pub open spec fn default_spec() -> TraceFields {
        TraceFields {
            transaction_index: false,
            trace_address: false,
            subtraces: false,
            type_: false,
            error: false,
            revert_reason: false,
            create_from: false,
            create_value: false,
            create_gas: false,
            create_init: false,
            create_result_gas_used: false,
            create_result_code: false,
            create_result_address: false,
            call_from: false,
            call_to: false,
            call_value: false,
            call_gas: false,
            call_input: false,
            call_sighash: false,
            call_type: false,
            call_call_type: false,
            call_result_gas_used: false,
            call_result_output: false,
            suicide_address: false,
            suicide_refund_address: false,
            suicide_balance: false,
            reward_author: false,
            reward_value: false,
            reward_type: false,
        }
    }

    pub open spec fn all_spec() -> TraceFields {
        TraceFields {
            transaction_index: true,
            trace_address: true,
            subtraces: true,
            type_: true,
            error: true,
            revert_reason: true,
            create_from: true,
            create_value: true,
            create_gas: true,
            create_init: true,
            create_result_gas_used: true,
            create_result_code: true,
            create_result_address: true,
            call_from: true,
            call_to: true,
            call_value: true,
            call_gas: true,
            call_input: true,
            call_sighash: true,
            call_type: true,
            call_call_type: true,
            call_result_gas_used: true,
            call_result_output: true,
            suicide_address: true,
            suicide_refund_address: true,
            suicide_balance: true,
            reward_author: true,
            reward_value: true,
            reward_type: true,
        }
    }

    /// Every trace mask bit set.
    pub fn all() -> (r: TraceFields)
        ensures
            r == TraceFields::all_spec(),
    {
        TraceFields {
            transaction_index: true,
            trace_address: true,
            subtraces: true,
            type_: true,
            error: true,
            revert_reason: true,
            create_from: true,
            create_value: true,
            create_gas: true,
            create_init: true,
            create_result_gas_used: true,
            create_result_code: true,
            create_result_address: true,
            call_from: true,
            call_to: true,
            call_value: true,
            call_gas: true,
            call_input: true,
            call_sighash: true,
            call_type: true,
            call_call_type: true,
            call_result_gas_used: true,
            call_result_output: true,
            suicide_address: true,
            suicide_refund_address: true,
            suicide_balance: true,
            reward_author: true,
            reward_value: true,
            reward_type: true,
        }
    }
}

impl Default for TraceFields {
    fn default() -> (r: TraceFields)
        ensures
            r == TraceFields::default_spec(),
    {
        TraceFields {
            transaction_index: false,
            trace_address: false,
            subtraces: false,
            type_: false,
            error: false,
            revert_reason: false,
            create_from: false,
            create_value: false,
            create_gas: false,
            create_init: false,
            create_result_gas_used: false,
            create_result_code: false,
            create_result_address: false,
            call_from: false,
            call_to: false,
            call_value: false,
            call_gas: false,
            call_input: false,
            call_sighash: false,
            call_type: false,
            call_call_type: false,
            call_result_gas_used: false,
            call_result_output: false,
            suicide_address: false,
            suicide_refund_address: false,
            suicide_balance: false,
            reward_author: false,
            reward_value: false,
            reward_type: false,
        }
    }
}

#[derive(Debug, Clone, Copy, PartialEq, Eq, Structural)]
pub struct BlockFields {
    pub number: bool,
    pub hash: bool,
    pub parent_hash: bool,
    pub timestamp: bool,
    pub transactions_root: bool,
    pub receipts_root: bool,
    pub state_root: bool,
    pub logs_bloom: bool,
    pub sha3_uncles: bool,
    pub extra_data: bool,
    pub miner: bool,
    pub nonce: bool,
    pub mix_hash: bool,
    pub size: bool,
    pub gas_limit: bool,
    pub gas_used: bool,
    pub difficulty: bool,
    pub total_difficulty: bool,
    pub base_fee_per_gas: bool,
    pub blob_gas_used: bool,
    pub excess_blob_gas: bool,
    pub l1_block_number: bool,
}

impl BlockFields {
    pub open spec fn default_spec() -> BlockFields {
        BlockFields {
            number: false,
            hash: false,
            parent_hash: false,
            timestamp: false,
            transactions_root: false,
            receipts_root: false,
            state_root: false,
            logs_bloom: false,
            sha3_uncles: false,
            extra_data: false,
            miner: false,
            nonce: false,
            mix_hash: false,
            size: false,
            gas_limit: false,
            gas_used: false,
            difficulty: false,
            total_difficulty: false,
            base_fee_per_gas: false,
            blob_gas_used: false,
            excess_blob_gas: false,
            l1_block_number: false,
        }
    }

    pub open spec fn all_spec() -> BlockFields {
        BlockFields {
            number: true,
            hash: true,
            parent_hash: true,
            timestamp: true,
            transactions_root: true,
            receipts_root: true,
            state_root: true,
            logs_bloom: true,
            sha3_uncles: true,
            extra_data: true,
            miner: true,
            nonce: true,
            mix_hash: true,
            size: true,
            gas_limit: true,
            gas_used: true,
            difficulty: true,
            total_difficulty: true,
            base_fee_per_gas: true,
            blob_gas_used: true,
            excess_blob_gas: true,
            l1_block_number: true,
        }
    }

    /// Every block mask bit set.
    pub fn all() -> (r: BlockFields)
        ensures
            r == BlockFields::all_spec(),
    {
        BlockFields {
            number: true,
            hash: true,
            parent_hash: true,
            timestamp: true,
            transactions_root: true,
            receipts_root: true,
            state_root: true,
            logs_bloom: true,
            sha3_uncles: true,
            extra_data: true,
            miner: true,
            nonce: true,
            mix_hash: true,
            size: true,
            gas_limit: true,
            gas_used: true,
            difficulty: true,
            total_difficulty: true,
            base_fee_per_gas: true,
            blob_gas_used: true,
            excess_blob_gas: true,
            l1_block_number: true,
        }
    }
}

impl Default for BlockFields {
    fn default() -> (r: BlockFields)
        ensures
            r == BlockFields::default_spec(),
    {
        BlockFields {
            number: false,
            hash: false,
            parent_hash: false,
            timestamp: false,
            transactions_root: false,
            receipts_root: false,
            state_root: false,
            logs_bloom: false,
            sha3_uncles: false,
            extra_data: false,
            miner: false,
            nonce: false,
            mix_hash: false,
            size: false,
            gas_limit: false,
            gas_used: false,
            difficulty: false,
            total_difficulty: false,
            base_fee_per_gas: false,
            blob_gas_used: false,
            excess_blob_gas: false,
            l1_block_number: false,
        }
    }
}




/// The wire form of the log mask: every flag always present.
pub open spec fn log_fields_json_matches(q: LogFields, v: JsonValue) -> bool {
    &&& v is Obj
    &&& bool_member(v, "logIndex"@, q.log_index)
    &&& bool_member(v, "transactionIndex"@, q.transaction_index)
    &&& bool_member(v, "transactionHash"@, q.transaction_hash)
    &&& bool_member(v, "address"@, q.address)
    &&& bool_member(v, "data"@, q.data)
    &&& bool_member(v, "topics"@, q.topics)
}

pub open spec fn log_fields_parseable(v: JsonValue) -> bool {
    &&& v is Obj
    &&& bool_field(v, "logIndex"@) matches Ok(Some(_))
    &&& bool_field(v, "transactionIndex"@) matches Ok(Some(_))
    &&& bool_field(v, "transactionHash"@) matches Ok(Some(_))
    &&& bool_field(v, "address"@) matches Ok(Some(_))
    &&& bool_field(v, "data"@) matches Ok(Some(_))
    &&& bool_field(v, "topics"@) matches Ok(Some(_))
}

pub open spec fn log_fields_parsed(q: LogFields, v: JsonValue) -> bool {
    &&& bool_field(v, "logIndex"@) == Ok::<Option<bool>, crate::ErrorKind>(
        Some(q.log_index),
    )
    &&& bool_field(v, "transactionIndex"@) == Ok::<Option<bool>, crate::ErrorKind>(
        Some(q.transaction_index),
    )
    &&& bool_field(v, "transactionHash"@) == Ok::<Option<bool>, crate::ErrorKind>(
        Some(q.transaction_hash),
    )
    &&& bool_field(v, "address"@) == Ok::<Option<bool>, crate::ErrorKind>(
        Some(q.address),
    )
    &&& bool_field(v, "data"@) == Ok::<Option<bool>, crate::ErrorKind>(
        Some(q.data),
    )
    &&& bool_field(v, "topics"@) == Ok::<Option<bool>, crate::ErrorKind>(
        Some(q.topics),
    )
}

impl LogFields {
    /// Serialize for the wire: the mask is written in full.
    #[verifier::rlimit(100)]
    pub fn to_json(&self) -> (r: JsonValue)
        ensures
            log_fields_json_matches(*self, r),
    {
        proof {
            reveal_strlit("logIndex");
            reveal_strlit("transactionIndex");
            reveal_strlit("transactionHash");
            reveal_strlit("address");
            reveal_strlit("data");
            reveal_strlit("topics");
            assert("logIndex"@.len() == 8);
            assert("transactionIndex"@.len() == 16);
            assert("transactionHash"@.len() == 15);
            assert("address"@.len() == 7);
            assert("data"@.len() == 4);
            assert("topics"@.len() == 6);
        }
        let mut m: Vec<(String, JsonValue)> = Vec::new();
        proof {
            assert forall|k: Seq<char>| !has_key(m@, k) by {
                if has_key(m@, k) {
                    let j = choose|j: int| 0 <= j < m@.len() && (#[trigger] m@[j]).0@ == k;
                }
            }
        }
        put_member(&mut m, "logIndex", JsonValue::Bool(self.log_index));
        put_member(&mut m, "transactionIndex", JsonValue::Bool(self.transaction_index));
        put_member(&mut m, "transactionHash", JsonValue::Bool(self.transaction_hash));
        put_member(&mut m, "address", JsonValue::Bool(self.address));
        put_member(&mut m, "data", JsonValue::Bool(self.data));
        put_member(&mut m, "topics", JsonValue::Bool(self.topics));
        JsonValue::Obj(m)
    }

    /// Read the log mask back from its wire form; every flag is
    /// required.
    pub fn from_json(jv: &JsonValue) -> (r: Result<LogFields, Error>)
        ensures
            r is Ok <==> log_fields_parseable(*jv),
            r is Ok ==> log_fields_parsed(r->Ok_0, *jv),
    {
        match jv {
            JsonValue::Obj(_) => {},
            _ => { return Err(Error::new(ErrorKind::Shape, "log_fields as object")); },
        }
        let log_index = read_bool(jv, "logIndex")?;
        let transaction_index = read_bool(jv, "transactionIndex")?;
        let transaction_hash = read_bool(jv, "transactionHash")?;
        let address = read_bool(jv, "address")?;
        let data = read_bool(jv, "data")?;
        let topics = read_bool(jv, "topics")?;
        Ok(LogFields { log_index, transaction_index, transaction_hash, address, data, topics })
    }
}

/// Mask round trip: what `to_json` writes, `from_json` accepts, and the
/// mask it returns is the one written.
pub proof fn lemma_log_fields_round_trip(q: LogFields, v: JsonValue, q2: LogFields)
    requires
        log_fields_json_matches(q, v),
        log_fields_parsed(q2, v),
    ensures
        q2 == q,
{
    assert(q2.log_index == q.log_index);
    assert(q2.transaction_index == q.transaction_index);
    assert(q2.transaction_hash == q.transaction_hash);
    assert(q2.address == q.address);
    assert(q2.data == q.data);
    assert(q2.topics == q.topics);
}

/// The wire form of the transaction mask: every flag always present.
pub open spec fn transaction_fields_json_matches(q: TransactionFields, v: JsonValue) -> bool {
    &&& v is Obj
    &&& bool_member(v, "transactionIndex"@, q.transaction_index)
    &&& bool_member(v, "hash"@, q.hash)
    &&& bool_member(v, "nonce"@, q.nonce)
    &&& bool_member(v, "from"@, q.from)
    &&& bool_member(v, "to"@, q.to)
    &&& bool_member(v, "input"@, q.input)
    &&& bool_member(v, "value"@, q.value)
    &&& bool_member(v, "gas"@, q.gas)
    &&& bool_member(v, "gasPrice"@, q.gas_price)
    &&& bool_member(v, "maxFeePerGas"@, q.max_fee_per_gas)
    &&& bool_member(v, "maxPriorityFeePerGas"@, q.max_priority_fee_per_gas)
    &&& bool_member(v, "v"@, q.v)
    &&& bool_member(v, "r"@, q.r)
    &&& bool_member(v, "s"@, q.s)
    &&& bool_member(v, "yParity"@, q.y_parity)
    &&& bool_member(v, "chainId"@, q.chain_id)
    &&& bool_member(v, "sighash"@, q.sighash)
    &&& bool_member(v, "contractAddress"@, q.contract_address)
    &&& bool_member(v, "gasUsed"@, q.gas_used)
    &&& bool_member(v, "cumulativeGasUsed"@, q.cumulative_gas_used)
    &&& bool_member(v, "effectiveGasPrice"@, q.effective_gas_price)
    &&& bool_member(v, "type"@, q.type_)
    &&& bool_member(v, "status"@, q.status)
    &&& bool_member(v, "maxFeePerBlobGas"@, q.max_fee_per_blob_gas)
    &&& bool_member(v, "blobVersionedHashes"@, q.blob_versioned_hashes)
    &&& bool_member(v, "l1Fee"@, q.l1_fee)
    &&& bool_member(v, "l1FeeScalar"@, q.l1_fee_scalar)
    &&& bool_member(v, "l1GasPrice"@, q.l1_gas_price)
    &&& bool_member(v, "l1GasUsed"@, q.l1_gas_used)
    &&& bool_member(v, "l1BlobBaseFee"@, q.l1_blob_base_fee)
    &&& bool_member(v, "l1BlobBaseFeeScalar"@, q.l1_blob_base_fee_scalar)
    &&& bool_member(v, "l1BaseFeeScalar"@, q.l1_base_fee_scalar)
}

pub open spec fn transaction_fields_parseable(v: JsonValue) -> bool {
    &&& v is Obj
    &&& bool_field(v, "transactionIndex"@) matches Ok(Some(_))
    &&& bool_field(v, "hash"@) matches Ok(Some(_))
    &&& bool_field(v, "nonce"@) matches Ok(Some(_))
    &&& bool_field(v, "from"@) matches Ok(Some(_))
    &&& bool_field(v, "to"@) matches Ok(Some(_))
    &&& bool_field(v, "input"@) matches Ok(Some(_))
    &&& bool_field(v, "value"@) matches Ok(Some(_))
    &&& bool_field(v, "gas"@) matches Ok(Some(_))
    &&& bool_field(v, "gasPrice"@) matches Ok(Some(_))
    &&& bool_field(v, "maxFeePerGas"@) matches Ok(Some(_))
    &&& bool_field(v, "maxPriorityFeePerGas"@) matches Ok(Some(_))
    &&& bool_field(v, "v"@) matches Ok(Some(_))
    &&& bool_field(v, "r"@) matches Ok(Some(_))
    &&& bool_field(v, "s"@) matches Ok(Some(_))
    &&& bool_field(v, "yParity"@) matches Ok(Some(_))
    &&& bool_field(v, "chainId"@) matches Ok(Some(_))
    &&& bool_field(v, "sighash"@) matches Ok(Some(_))
    &&& bool_field(v, "contractAddress"@) matches Ok(Some(_))
    &&& bool_field(v, "gasUsed"@) matches Ok(Some(_))
    &&& bool_field(v, "cumulativeGasUsed"@) matches Ok(Some(_))
    &&& bool_field(v, "effectiveGasPrice"@) matches Ok(Some(_))
    &&& bool_field(v, "type"@) matches Ok(Some(_))
    &&& bool_field(v, "status"@) matches Ok(Some(_))
    &&& bool_field(v, "maxFeePerBlobGas"@) matches Ok(Some(_))
    &&& bool_field(v, "blobVersionedHashes"@) matches Ok(Some(_))
    &&& bool_field(v, "l1Fee"@) matches Ok(Some(_))
    &&& bool_field(v, "l1FeeScalar"@) matches Ok(Some(_))
    &&& bool_field(v, "l1GasPrice"@) matches Ok(Some(_))
    &&& bool_field(v, "l1GasUsed"@) matches Ok(Some(_))
    &&& bool_field(v, "l1BlobBaseFee"@) matches Ok(Some(_))
    &&& bool_field(v, "l1BlobBaseFeeScalar"@) matches Ok(Some(_))
    &&& bool_field(v, "l1BaseFeeScalar"@) matches Ok(Some(_))
}

pub open spec fn transaction_fields_parsed(q: TransactionFields, v: JsonValue) -> bool {
    &&& bool_field(v, "transactionIndex"@) == Ok::<Option<bool>, crate::ErrorKind>(
        Some(q.transaction_index),
    )
    &&& bool_field(v, "hash"@) == Ok::<Option<bool>, crate::ErrorKind>(
        Some(q.hash),
    )
    &&& bool_field(v, "nonce"@) == Ok::<Option<bool>, crate::ErrorKind>(
        Some(q.nonce),
    )
    &&& bool_field(v, "from"@) == Ok::<Option<bool>, crate::ErrorKind>(
        Some(q.from),
    )
    &&& bool_field(v, "to"@) == Ok::<Option<bool>, crate::ErrorKind>(
        Some(q.to),
    )
    &&& bool_field(v, "input"@) == Ok::<Option<bool>, crate::ErrorKind>(
        Some(q.input),
    )
    &&& bool_field(v, "value"@) == Ok::<Option<bool>, crate::ErrorKind>(
        Some(q.value),
    )
    &&& bool_field(v, "gas"@) == Ok::<Option<bool>, crate::ErrorKind>(
        Some(q.gas),
    )
    &&& bool_field(v, "gasPrice"@) == Ok::<Option<bool>, crate::ErrorKind>(
        Some(q.gas_price),
    )
    &&& bool_field(v, "maxFeePerGas"@) == Ok::<Option<bool>, crate::ErrorKind>(
        Some(q.max_fee_per_gas),
    )
    &&& bool_field(v, "maxPriorityFeePerGas"@) == Ok::<Option<bool>, crate::ErrorKind>(
        Some(q.max_priority_fee_per_gas),
    )
    &&& bool_field(v, "v"@) == Ok::<Option<bool>, crate::ErrorKind>(
        Some(q.v),
    )
    &&& bool_field(v, "r"@) == Ok::<Option<bool>, crate::ErrorKind>(
        Some(q.r),
    )
    &&& bool_field(v, "s"@) == Ok::<Option<bool>, crate::ErrorKind>(
        Some(q.s),
    )
    &&& bool_field(v, "yParity"@) == Ok::<Option<bool>, crate::ErrorKind>(
        Some(q.y_parity),
    )
    &&& bool_field(v, "chainId"@) == Ok::<Option<bool>, crate::ErrorKind>(
        Some(q.chain_id),
    )
    &&& bool_field(v, "sighash"@) == Ok::<Option<bool>, crate::ErrorKind>(
        Some(q.sighash),
    )
    &&& bool_field(v, "contractAddress"@) == Ok::<Option<bool>, crate::ErrorKind>(
        Some(q.contract_address),
    )
    &&& bool_field(v, "gasUsed"@) == Ok::<Option<bool>, crate::ErrorKind>(
        Some(q.gas_used),
    )
    &&& bool_field(v, "cumulativeGasUsed"@) == Ok::<Option<bool>, crate::ErrorKind>(
        Some(q.cumulative_gas_used),
    )
    &&& bool_field(v, "effectiveGasPrice"@) == Ok::<Option<bool>, crate::ErrorKind>(
        Some(q.effective_gas_price),
    )
    &&& bool_field(v, "type"@) == Ok::<Option<bool>, crate::ErrorKind>(
        Some(q.type_),
    )
    &&& bool_field(v, "status"@) == Ok::<Option<bool>, crate::ErrorKind>(
        Some(q.status),
    )
    &&& bool_field(v, "maxFeePerBlobGas"@) == Ok::<Option<bool>, crate::ErrorKind>(
        Some(q.max_fee_per_blob_gas),
    )
    &&& bool_field(v, "blobVersionedHashes"@) == Ok::<Option<bool>, crate::ErrorKind>(
        Some(q.blob_versioned_hashes),
    )
    &&& bool_field(v, "l1Fee"@) == Ok::<Option<bool>, crate::ErrorKind>(
        Some(q.l1_fee),
    )
    &&& bool_field(v, "l1FeeScalar"@) == Ok::<Option<bool>, crate::ErrorKind>(
        Some(q.l1_fee_scalar),
    )
    &&& bool_field(v, "l1GasPrice"@) == Ok::<Option<bool>, crate::ErrorKind>(
        Some(q.l1_gas_price),
    )
    &&& bool_field(v, "l1GasUsed"@) == Ok::<Option<bool>, crate::ErrorKind>(
        Some(q.l1_gas_used),
    )
    &&& bool_field(v, "l1BlobBaseFee"@) == Ok::<Option<bool>, crate::ErrorKind>(
        Some(q.l1_blob_base_fee),
    )
    &&& bool_field(v, "l1BlobBaseFeeScalar"@) == Ok::<Option<bool>, crate::ErrorKind>(
        Some(q.l1_blob_base_fee_scalar),
    )
    &&& bool_field(v, "l1BaseFeeScalar"@) == Ok::<Option<bool>, crate::ErrorKind>(
        Some(q.l1_base_fee_scalar),
    )
}

impl TransactionFields {
    /// Serialize for the wire: the mask is written in full.
    #[verifier::rlimit(100)]
    pub fn to_json(&self) -> (r: JsonValue)
        ensures
            transaction_fields_json_matches(*self, r),
    {
        proof {
            reveal_strlit("transactionIndex");
            reveal_strlit("hash");
            reveal_strlit("nonce");
            reveal_strlit("from");
            reveal_strlit("to");
            reveal_strlit("input");
            reveal_strlit("value");
            reveal_strlit("gas");
            reveal_strlit("gasPrice");
            reveal_strlit("maxFeePerGas");
            reveal_strlit("maxPriorityFeePerGas");
            reveal_strlit("v");
            reveal_strlit("r");
            reveal_strlit("s");
            reveal_strlit("yParity");
            reveal_strlit("chainId");
            reveal_strlit("sighash");
            reveal_strlit("contractAddress");
            reveal_strlit("gasUsed");
            reveal_strlit("cumulativeGasUsed");
            reveal_strlit("effectiveGasPrice");
            reveal_strlit("type");
            reveal_strlit("status");
            reveal_strlit("maxFeePerBlobGas");
            reveal_strlit("blobVersionedHashes");
            reveal_strlit("l1Fee");
            reveal_strlit("l1FeeScalar");
            reveal_strlit("l1GasPrice");
            reveal_strlit("l1GasUsed");
            reveal_strlit("l1BlobBaseFee");
            reveal_strlit("l1BlobBaseFeeScalar");
            reveal_strlit("l1BaseFeeScalar");
            assert("transactionIndex"@.len() == 16);
            assert("hash"@.len() == 4);
            assert("nonce"@.len() == 5);
            assert("from"@.len() == 4);
            assert("to"@.len() == 2);
            assert("input"@.len() == 5);
            assert("value"@.len() == 5);
            assert("gas"@.len() == 3);
            assert("gasPrice"@.len() == 8);
            assert("maxFeePerGas"@.len() == 12);
            assert("maxPriorityFeePerGas"@.len() == 20);
            assert("v"@.len() == 1);
            assert("r"@.len() == 1);
            assert("s"@.len() == 1);
            assert("yParity"@.len() == 7);
            assert("chainId"@.len() == 7);
            assert("sighash"@.len() == 7);
            assert("contractAddress"@.len() == 15);
            assert("gasUsed"@.len() == 7);
            assert("cumulativeGasUsed"@.len() == 17);
            assert("effectiveGasPrice"@.len() == 17);
            assert("type"@.len() == 4);
            assert("status"@.len() == 6);
            assert("maxFeePerBlobGas"@.len() == 16);
            assert("blobVersionedHashes"@.len() == 19);
            assert("l1Fee"@.len() == 5);
            assert("l1FeeScalar"@.len() == 11);
            assert("l1GasPrice"@.len() == 10);
            assert("l1GasUsed"@.len() == 9);
            assert("l1BlobBaseFee"@.len() == 13);
            assert("l1BlobBaseFeeScalar"@.len() == 19);
            assert("l1BaseFeeScalar"@.len() == 15);
            assert("transactionIndex"@[0] == 't');
            assert("maxFeePerBlobGas"@[0] == 'm');
            assert("hash"@[0] == 'h');
            assert("from"@[0] == 'f');
            assert("type"@[0] == 't');
            assert("nonce"@[0] == 'n');
            assert("input"@[0] == 'i');
            assert("value"@[0] == 'v');
            assert("l1Fee"@[0] == 'l');
            assert("v"@[0] == 'v');
            assert("r"@[0] == 'r');
            assert("s"@[0] == 's');
            assert("yParity"@[0] == 'y');
            assert("chainId"@[0] == 'c');
            assert("sighash"@[0] == 's');
            assert("gasUsed"@[0] == 'g');
            assert("contractAddress"@[0] == 'c');
            assert("l1BaseFeeScalar"@[0] == 'l');
            assert("cumulativeGasUsed"@[0] == 'c');
            assert("effectiveGasPrice"@[0] == 'e');
            assert("blobVersionedHashes"@[0] == 'b');
            assert("l1BlobBaseFeeScalar"@[0] == 'l');
        }
        let mut m: Vec<(String, JsonValue)> = Vec::new();
        proof {
            assert forall|k: Seq<char>| !has_key(m@, k) by {
                if has_key(m@, k) {
                    let j = choose|j: int| 0 <= j < m@.len() && (#[trigger] m@[j]).0@ == k;
                }
            }
        }
        put_member(&mut m, "transactionIndex", JsonValue::Bool(self.transaction_index));
        put_member(&mut m, "hash", JsonValue::Bool(self.hash));
        put_member(&mut m, "nonce", JsonValue::Bool(self.nonce));
        put_member(&mut m, "from", JsonValue::Bool(self.from));
        put_member(&mut m, "to", JsonValue::Bool(self.to));
        put_member(&mut m, "input", JsonValue::Bool(self.input));
        put_member(&mut m, "value", JsonValue::Bool(self.value));
        put_member(&mut m, "gas", JsonValue::Bool(self.gas));
        put_member(&mut m, "gasPrice", JsonValue::Bool(self.gas_price));
        put_member(&mut m, "maxFeePerGas", JsonValue::Bool(self.max_fee_per_gas));
        put_member(&mut m, "maxPriorityFeePerGas", JsonValue::Bool(self.max_priority_fee_per_gas));
        put_member(&mut m, "v", JsonValue::Bool(self.v));
        put_member(&mut m, "r", JsonValue::Bool(self.r));
        put_member(&mut m, "s", JsonValue::Bool(self.s));
        put_member(&mut m, "yParity", JsonValue::Bool(self.y_parity));
        put_member(&mut m, "chainId", JsonValue::Bool(self.chain_id));
        put_member(&mut m, "sighash", JsonValue::Bool(self.sighash));
        put_member(&mut m, "contractAddress", JsonValue::Bool(self.contract_address));
        put_member(&mut m, "gasUsed", JsonValue::Bool(self.gas_used));
        put_member(&mut m, "cumulativeGasUsed", JsonValue::Bool(self.cumulative_gas_used));
        put_member(&mut m, "effectiveGasPrice", JsonValue::Bool(self.effective_gas_price));
        put_member(&mut m, "type", JsonValue::Bool(self.type_));
        put_member(&mut m, "status", JsonValue::Bool(self.status));
        put_member(&mut m, "maxFeePerBlobGas", JsonValue::Bool(self.max_fee_per_blob_gas));
        put_member(&mut m, "blobVersionedHashes", JsonValue::Bool(self.blob_versioned_hashes));
        put_member(&mut m, "l1Fee", JsonValue::Bool(self.l1_fee));
        put_member(&mut m, "l1FeeScalar", JsonValue::Bool(self.l1_fee_scalar));
        put_member(&mut m, "l1GasPrice", JsonValue::Bool(self.l1_gas_price));
        put_member(&mut m, "l1GasUsed", JsonValue::Bool(self.l1_gas_used));
        put_member(&mut m, "l1BlobBaseFee", JsonValue::Bool(self.l1_blob_base_fee));
        put_member(&mut m, "l1BlobBaseFeeScalar", JsonValue::Bool(self.l1_blob_base_fee_scalar));
        put_member(&mut m, "l1BaseFeeScalar", JsonValue::Bool(self.l1_base_fee_scalar));
        JsonValue::Obj(m)
    }

    /// Read the transaction mask back from its wire form; every flag is
    /// required.
    pub fn from_json(jv: &JsonValue) -> (r: Result<TransactionFields, Error>)
        ensures
            r is Ok <==> transaction_fields_parseable(*jv),
            r is Ok ==> transaction_fields_parsed(r->Ok_0, *jv),
    {
        match jv {
            JsonValue::Obj(_) => {},
            _ => { return Err(Error::new(ErrorKind::Shape, "transaction_fields as object")); },
        }
        let transaction_index = read_bool(jv, "transactionIndex")?;
        let hash = read_bool(jv, "hash")?;
        let nonce = read_bool(jv, "nonce")?;
        let from = read_bool(jv, "from")?;
        let to = read_bool(jv, "to")?;
        let input = read_bool(jv, "input")?;
        let value = read_bool(jv, "value")?;
        let gas = read_bool(jv, "gas")?;
        let gas_price = read_bool(jv, "gasPrice")?;
        let max_fee_per_gas = read_bool(jv, "maxFeePerGas")?;
        let max_priority_fee_per_gas = read_bool(jv, "maxPriorityFeePerGas")?;
        let v = read_bool(jv, "v")?;
        let r = read_bool(jv, "r")?;
        let s = read_bool(jv, "s")?;
        let y_parity = read_bool(jv, "yParity")?;
        let chain_id = read_bool(jv, "chainId")?;
        let sighash = read_bool(jv, "sighash")?;
        let contract_address = read_bool(jv, "contractAddress")?;
        let gas_used = read_bool(jv, "gasUsed")?;
        let cumulative_gas_used = read_bool(jv, "cumulativeGasUsed")?;
        let effective_gas_price = read_bool(jv, "effectiveGasPrice")?;
        let type_ = read_bool(jv, "type")?;
        let status = read_bool(jv, "status")?;
        let max_fee_per_blob_gas = read_bool(jv, "maxFeePerBlobGas")?;
        let blob_versioned_hashes = read_bool(jv, "blobVersionedHashes")?;
        let l1_fee = read_bool(jv, "l1Fee")?;
        let l1_fee_scalar = read_bool(jv, "l1FeeScalar")?;
        let l1_gas_price = read_bool(jv, "l1GasPrice")?;
        let l1_gas_used = read_bool(jv, "l1GasUsed")?;
        let l1_blob_base_fee = read_bool(jv, "l1BlobBaseFee")?;
        let l1_blob_base_fee_scalar = read_bool(jv, "l1BlobBaseFeeScalar")?;
        let l1_base_fee_scalar = read_bool(jv, "l1BaseFeeScalar")?;
        Ok(TransactionFields { transaction_index, hash, nonce, from, to, input, value, gas, gas_price, max_fee_per_gas, max_priority_fee_per_gas, v, r, s, y_parity, chain_id, sighash, contract_address, gas_used, cumulative_gas_used, effective_gas_price, type_, status, max_fee_per_blob_gas, blob_versioned_hashes, l1_fee, l1_fee_scalar, l1_gas_price, l1_gas_used, l1_blob_base_fee, l1_blob_base_fee_scalar, l1_base_fee_scalar })
    }
}

/// Mask round trip: what `to_json` writes, `from_json` accepts, and the
/// mask it returns is the one written.
pub proof fn lemma_transaction_fields_round_trip(q: TransactionFields, v: JsonValue, q2: TransactionFields)
    requires
        transaction_fields_json_matches(q, v),
        transaction_fields_parsed(q2, v),
    ensures
        q2 == q,
{
    assert(q2.transaction_index == q.transaction_index);
    assert(q2.hash == q.hash);
    assert(q2.nonce == q.nonce);
    assert(q2.from == q.from);
    assert(q2.to == q.to);
    assert(q2.input == q.input);
    assert(q2.value == q.value);
    assert(q2.gas == q.gas);
    assert(q2.gas_price == q.gas_price);
    assert(q2.max_fee_per_gas == q.max_fee_per_gas);
    assert(q2.max_priority_fee_per_gas == q.max_priority_fee_per_gas);
    assert(q2.v == q.v);
    assert(q2.r == q.r);
    assert(q2.s == q.s);
    assert(q2.y_parity == q.y_parity);
    assert(q2.chain_id == q.chain_id);
    assert(q2.sighash == q.sighash);
    assert(q2.contract_address == q.contract_address);
    assert(q2.gas_used == q.gas_used);
    assert(q2.cumulative_gas_used == q.cumulative_gas_used);
    assert(q2.effective_gas_price == q.effective_gas_price);
    assert(q2.type_ == q.type_);
    assert(q2.status == q.status);
    assert(q2.max_fee_per_blob_gas == q.max_fee_per_blob_gas);
    assert(q2.blob_versioned_hashes == q.blob_versioned_hashes);
    assert(q2.l1_fee == q.l1_fee);
    assert(q2.l1_fee_scalar == q.l1_fee_scalar);
    assert(q2.l1_gas_price == q.l1_gas_price);
    assert(q2.l1_gas_used == q.l1_gas_used);
    assert(q2.l1_blob_base_fee == q.l1_blob_base_fee);
    assert(q2.l1_blob_base_fee_scalar == q.l1_blob_base_fee_scalar);
    assert(q2.l1_base_fee_scalar == q.l1_base_fee_scalar);
}

/// The wire form of the trace mask: every flag always present.
pub open spec fn trace_fields_json_matches(q: TraceFields, v: JsonValue) -> bool {
    &&& v is Obj
    &&& bool_member(v, "transactionIndex"@, q.transaction_index)
    &&& bool_member(v, "traceAddress"@, q.trace_address)
    &&& bool_member(v, "subtraces"@, q.subtraces)
    &&& bool_member(v, "type"@, q.type_)
    &&& bool_member(v, "error"@, q.error)
    &&& bool_member(v, "revertReason"@, q.revert_reason)
    &&& bool_member(v, "createFrom"@, q.create_from)
    &&& bool_member(v, "createValue"@, q.create_value)
    &&& bool_member(v, "createGas"@, q.create_gas)
    &&& bool_member(v, "createInit"@, q.create_init)
    &&& bool_member(v, "createResultGasUsed"@, q.create_result_gas_used)
    &&& bool_member(v, "createResultCode"@, q.create_result_code)
    &&& bool_member(v, "createResultAddress"@, q.create_result_address)
    &&& bool_member(v, "callFrom"@, q.call_from)
    &&& bool_member(v, "callTo"@, q.call_to)
    &&& bool_member(v, "callValue"@, q.call_value)
    &&& bool_member(v, "callGas"@, q.call_gas)
    &&& bool_member(v, "callInput"@, q.call_input)
    &&& bool_member(v, "callSighash"@, q.call_sighash)
    &&& bool_member(v, "callType"@, q.call_type)
    &&& bool_member(v, "callCallType"@, q.call_call_type)
    &&& bool_member(v, "callResultGasUsed"@, q.call_result_gas_used)
    &&& bool_member(v, "callResultOutput"@, q.call_result_output)
    &&& bool_member(v, "suicideAddress"@, q.suicide_address)
    &&& bool_member(v, "suicideRefundAddress"@, q.suicide_refund_address)
    &&& bool_member(v, "suicideBalance"@, q.suicide_balance)
    &&& bool_member(v, "rewardAuthor"@, q.reward_author)
    &&& bool_member(v, "rewardValue"@, q.reward_value)
    &&& bool_member(v, "rewardType"@, q.reward_type)
}

pub open spec fn trace_fields_parseable(v: JsonValue) -> bool {
    &&& v is Obj
    &&& bool_field(v, "transactionIndex"@) matches Ok(Some(_))
    &&& bool_field(v, "traceAddress"@) matches Ok(Some(_))
    &&& bool_field(v, "subtraces"@) matches Ok(Some(_))
    &&& bool_field(v, "type"@) matches Ok(Some(_))
    &&& bool_field(v, "error"@) matches Ok(Some(_))
    &&& bool_field(v, "revertReason"@) matches Ok(Some(_))
    &&& bool_field(v, "createFrom"@) matches Ok(Some(_))
    &&& bool_field(v, "createValue"@) matches Ok(Some(_))
    &&& bool_field(v, "createGas"@) matches Ok(Some(_))
    &&& bool_field(v, "createInit"@) matches Ok(Some(_))
    &&& bool_field(v, "createResultGasUsed"@) matches Ok(Some(_))
    &&& bool_field(v, "createResultCode"@) matches Ok(Some(_))
    &&& bool_field(v, "createResultAddress"@) matches Ok(Some(_))
    &&& bool_field(v, "callFrom"@) matches Ok(Some(_))
    &&& bool_field(v, "callTo"@) matches Ok(Some(_))
    &&& bool_field(v, "callValue"@) matches Ok(Some(_))
    &&& bool_field(v, "callGas"@) matches Ok(Some(_))
    &&& bool_field(v, "callInput"@) matches Ok(Some(_))
    &&& bool_field(v, "callSighash"@) matches Ok(Some(_))
    &&& bool_field(v, "callType"@) matches Ok(Some(_))
    &&& bool_field(v, "callCallType"@) matches Ok(Some(_))
    &&& bool_field(v, "callResultGasUsed"@) matches Ok(Some(_))
    &&& bool_field(v, "callResultOutput"@) matches Ok(Some(_))
    &&& bool_field(v, "suicideAddress"@) matches Ok(Some(_))
    &&& bool_field(v, "suicideRefundAddress"@) matches Ok(Some(_))
    &&& bool_field(v, "suicideBalance"@) matches Ok(Some(_))
    &&& bool_field(v, "rewardAuthor"@) matches Ok(Some(_))
    &&& bool_field(v, "rewardValue"@) matches Ok(Some(_))
    &&& bool_field(v, "rewardType"@) matches Ok(Some(_))
}

pub open spec fn trace_fields_parsed(q: TraceFields, v: JsonValue) -> bool {
    &&& bool_field(v, "transactionIndex"@) == Ok::<Option<bool>, crate::ErrorKind>(
        Some(q.transaction_index),
    )
    &&& bool_field(v, "traceAddress"@) == Ok::<Option<bool>, crate::ErrorKind>(
        Some(q.trace_address),
    )
    &&& bool_field(v, "subtraces"@) == Ok::<Option<bool>, crate::ErrorKind>(
        Some(q.subtraces),
    )
    &&& bool_field(v, "type"@) == Ok::<Option<bool>, crate::ErrorKind>(
        Some(q.type_),
    )
    &&& bool_field(v, "error"@) == Ok::<Option<bool>, crate::ErrorKind>(
        Some(q.error),
    )
    &&& bool_field(v, "revertReason"@) == Ok::<Option<bool>, crate::ErrorKind>(
        Some(q.revert_reason),
    )
    &&& bool_field(v, "createFrom"@) == Ok::<Option<bool>, crate::ErrorKind>(
        Some(q.create_from),
    )
    &&& bool_field(v, "createValue"@) == Ok::<Option<bool>, crate::ErrorKind>(
        Some(q.create_value),
    )
    &&& bool_field(v, "createGas"@) == Ok::<Option<bool>, crate::ErrorKind>(
        Some(q.create_gas),
    )
    &&& bool_field(v, "createInit"@) == Ok::<Option<bool>, crate::ErrorKind>(
        Some(q.create_init),
    )
    &&& bool_field(v, "createResultGasUsed"@) == Ok::<Option<bool>, crate::ErrorKind>(
        Some(q.create_result_gas_used),
    )
    &&& bool_field(v, "createResultCode"@) == Ok::<Option<bool>, crate::ErrorKind>(
        Some(q.create_result_code),
    )
    &&& bool_field(v, "createResultAddress"@) == Ok::<Option<bool>, crate::ErrorKind>(
        Some(q.create_result_address),
    )
    &&& bool_field(v, "callFrom"@) == Ok::<Option<bool>, crate::ErrorKind>(
        Some(q.call_from),
    )
    &&& bool_field(v, "callTo"@) == Ok::<Option<bool>, crate::ErrorKind>(
        Some(q.call_to),
    )
    &&& bool_field(v, "callValue"@) == Ok::<Option<bool>, crate::ErrorKind>(
        Some(q.call_value),
    )
    &&& bool_field(v, "callGas"@) == Ok::<Option<bool>, crate::ErrorKind>(
        Some(q.call_gas),
    )
    &&& bool_field(v, "callInput"@) == Ok::<Option<bool>, crate::ErrorKind>(
        Some(q.call_input),
    )
    &&& bool_field(v, "callSighash"@) == Ok::<Option<bool>, crate::ErrorKind>(
        Some(q.call_sighash),
    )
    &&& bool_field(v, "callType"@) == Ok::<Option<bool>, crate::ErrorKind>(
        Some(q.call_type),
    )
    &&& bool_field(v, "callCallType"@) == Ok::<Option<bool>, crate::ErrorKind>(
        Some(q.call_call_type),
    )
    &&& bool_field(v, "callResultGasUsed"@) == Ok::<Option<bool>, crate::ErrorKind>(
        Some(q.call_result_gas_used),
    )
    &&& bool_field(v, "callResultOutput"@) == Ok::<Option<bool>, crate::ErrorKind>(
        Some(q.call_result_output),
    )
    &&& bool_field(v, "suicideAddress"@) == Ok::<Option<bool>, crate::ErrorKind>(
        Some(q.suicide_address),
    )
    &&& bool_field(v, "suicideRefundAddress"@) == Ok::<Option<bool>, crate::ErrorKind>(
        Some(q.suicide_refund_address),
    )
    &&& bool_field(v, "suicideBalance"@) == Ok::<Option<bool>, crate::ErrorKind>(
        Some(q.suicide_balance),
    )
    &&& bool_field(v, "rewardAuthor"@) == Ok::<Option<bool>, crate::ErrorKind>(
        Some(q.reward_author),
    )
    &&& bool_field(v, "rewardValue"@) == Ok::<Option<bool>, crate::ErrorKind>(
        Some(q.reward_value),
    )
    &&& bool_field(v, "rewardType"@) == Ok::<Option<bool>, crate::ErrorKind>(
        Some(q.reward_type),
    )
}

impl TraceFields {
    /// Serialize for the wire: the mask is written in full.
    #[verifier::rlimit(100)]
    pub fn to_json(&self) -> (r: JsonValue)
        ensures
            trace_fields_json_matches(*self, r),
    {
        proof {
            reveal_strlit("transactionIndex");
            reveal_strlit("traceAddress");
            reveal_strlit("subtraces");
            reveal_strlit("type");
            reveal_strlit("error");
            reveal_strlit("revertReason");
            reveal_strlit("createFrom");
            reveal_strlit("createValue");
            reveal_strlit("createGas");
            reveal_strlit("createInit");
            reveal_strlit("createResultGasUsed");
            reveal_strlit("createResultCode");
            reveal_strlit("createResultAddress");
            reveal_strlit("callFrom");
            reveal_strlit("callTo");
            reveal_strlit("callValue");
            reveal_strlit("callGas");
            reveal_strlit("callInput");
            reveal_strlit("callSighash");
            reveal_strlit("callType");
            reveal_strlit("callCallType");
            reveal_strlit("callResultGasUsed");
            reveal_strlit("callResultOutput");
            reveal_strlit("suicideAddress");
            reveal_strlit("suicideRefundAddress");
            reveal_strlit("suicideBalance");
            reveal_strlit("rewardAuthor");
            reveal_strlit("rewardValue");
            reveal_strlit("rewardType");
            assert("transactionIndex"@.len() == 16);
            assert("traceAddress"@.len() == 12);
            assert("subtraces"@.len() == 9);
            assert("type"@.len() == 4);
            assert("error"@.len() == 5);
            assert("revertReason"@.len() == 12);
            assert("createFrom"@.len() == 10);
            assert("createValue"@.len() == 11);
            assert("createGas"@.len() == 9);
            assert("createInit"@.len() == 10);
            assert("createResultGasUsed"@.len() == 19);
            assert("createResultCode"@.len() == 16);
            assert("createResultAddress"@.len() == 19);
            assert("callFrom"@.len() == 8);
            assert("callTo"@.len() == 6);
            assert("callValue"@.len() == 9);
            assert("callGas"@.len() == 7);
            assert("callInput"@.len() == 9);
            assert("callSighash"@.len() == 11);
            assert("callType"@.len() == 8);
            assert("callCallType"@.len() == 12);
            assert("callResultGasUsed"@.len() == 17);
            assert("callResultOutput"@.len() == 16);
            assert("suicideAddress"@.len() == 14);
            assert("suicideRefundAddress"@.len() == 20);
            assert("suicideBalance"@.len() == 14);
            assert("rewardAuthor"@.len() == 12);
            assert("rewardValue"@.len() == 11);
            assert("rewardType"@.len() == 10);
            assert("transactionIndex"@[0] == 't');
            assert("createResultCode"@[0] == 'c');
            assert("callResultOutput"@[0] == 'c');
            assert("traceAddress"@[0] == 't');
            assert("revertReason"@[0] == 'r');
            assert("callCallType"@[0] == 'c');
            assert("rewardAuthor"@[0] == 'r');
            assert("subtraces"@[0] == 's');
            assert("createGas"@[0] == 'c');
            assert("callValue"@[0] == 'c');
            assert("callInput"@[0] == 'c');
            assert("revertReason"@[2] == 'v');
            assert("rewardAuthor"@[2] == 'w');
            assert("createFrom"@[6] == 'F');
            assert("createInit"@[6] == 'I');
            assert("createFrom"@[0] == 'c');
            assert("rewardType"@[0] == 'r');
            assert("createValue"@[1] == 'r');
            assert("callSighash"@[1] == 'a');
            assert("createValue"@[0] == 'c');
            assert("rewardValue"@[0] == 'r');
            assert("createGas"@[1] == 'r');
            assert("callValue"@[1] == 'a');
            assert("callInput"@[1] == 'a');
            assert("createInit"@[0] == 'c');
            assert("createResultGasUsed"@[12] == 'G');
            assert("createResultAddress"@[12] == 'A');
            assert("createResultCode"@[1] == 'r');
            assert("callResultOutput"@[1] == 'a');
            assert("callFrom"@[4] == 'F');
            assert("callType"@[4] == 'T');
            assert("callValue"@[4] == 'V');
            assert("callInput"@[4] == 'I');
            assert("callSighash"@[0] == 'c');
            assert("suicideAddress"@[7] == 'A');
            assert("suicideBalance"@[7] == 'B');
        }
        let mut m: Vec<(String, JsonValue)> = Vec::new();
        proof {
            assert forall|k: Seq<char>| !has_key(m@, k) by {
                if has_key(m@, k) {
                    let j = choose|j: int| 0 <= j < m@.len() && (#[trigger] m@[j]).0@ == k;
                }
            }
        }
        put_member(&mut m, "transactionIndex", JsonValue::Bool(self.transaction_index));
        put_member(&mut m, "traceAddress", JsonValue::Bool(self.trace_address));
        put_member(&mut m, "subtraces", JsonValue::Bool(self.subtraces));
        put_member(&mut m, "type", JsonValue::Bool(self.type_));
        put_member(&mut m, "error", JsonValue::Bool(self.error));
        put_member(&mut m, "revertReason", JsonValue::Bool(self.revert_reason));
        put_member(&mut m, "createFrom", JsonValue::Bool(self.create_from));
        put_member(&mut m, "createValue", JsonValue::Bool(self.create_value));
        put_member(&mut m, "createGas", JsonValue::Bool(self.create_gas));
        put_member(&mut m, "createInit", JsonValue::Bool(self.create_init));
        put_member(&mut m, "createResultGasUsed", JsonValue::Bool(self.create_result_gas_used));
        put_member(&mut m, "createResultCode", JsonValue::Bool(self.create_result_code));
        put_member(&mut m, "createResultAddress", JsonValue::Bool(self.create_result_address));
        put_member(&mut m, "callFrom", JsonValue::Bool(self.call_from));
        put_member(&mut m, "callTo", JsonValue::Bool(self.call_to));
        put_member(&mut m, "callValue", JsonValue::Bool(self.call_value));
        put_member(&mut m, "callGas", JsonValue::Bool(self.call_gas));
        put_member(&mut m, "callInput", JsonValue::Bool(self.call_input));
        put_member(&mut m, "callSighash", JsonValue::Bool(self.call_sighash));
        put_member(&mut m, "callType", JsonValue::Bool(self.call_type));
        put_member(&mut m, "callCallType", JsonValue::Bool(self.call_call_type));
        put_member(&mut m, "callResultGasUsed", JsonValue::Bool(self.call_result_gas_used));
        put_member(&mut m, "callResultOutput", JsonValue::Bool(self.call_result_output));
        put_member(&mut m, "suicideAddress", JsonValue::Bool(self.suicide_address));
        put_member(&mut m, "suicideRefundAddress", JsonValue::Bool(self.suicide_refund_address));
        put_member(&mut m, "suicideBalance", JsonValue::Bool(self.suicide_balance));
        put_member(&mut m, "rewardAuthor", JsonValue::Bool(self.reward_author));
        put_member(&mut m, "rewardValue", JsonValue::Bool(self.reward_value));
        put_member(&mut m, "rewardType", JsonValue::Bool(self.reward_type));
        JsonValue::Obj(m)
    }

    /// Read the trace mask back from its wire form; every flag is
    /// required.
    pub fn from_json(jv: &JsonValue) -> (r: Result<TraceFields, Error>)
        ensures
            r is Ok <==> trace_fields_parseable(*jv),
            r is Ok ==> trace_fields_parsed(r->Ok_0, *jv),
    {
        match jv {
            JsonValue::Obj(_) => {},
            _ => { return Err(Error::new(ErrorKind::Shape, "trace_fields as object")); },
        }
        let transaction_index = read_bool(jv, "transactionIndex")?;
        let trace_address = read_bool(jv, "traceAddress")?;
        let subtraces = read_bool(jv, "subtraces")?;
        let type_ = read_bool(jv, "type")?;
        let error = read_bool(jv, "error")?;
        let revert_reason = read_bool(jv, "revertReason")?;
        let create_from = read_bool(jv, "createFrom")?;
        let create_value = read_bool(jv, "createValue")?;
        let create_gas = read_bool(jv, "createGas")?;
        let create_init = read_bool(jv, "createInit")?;
        let create_result_gas_used = read_bool(jv, "createResultGasUsed")?;
        let create_result_code = read_bool(jv, "createResultCode")?;
        let create_result_address = read_bool(jv, "createResultAddress")?;
        let call_from = read_bool(jv, "callFrom")?;
        let call_to = read_bool(jv, "callTo")?;
        let call_value = read_bool(jv, "callValue")?;
        let call_gas = read_bool(jv, "callGas")?;
        let call_input = read_bool(jv, "callInput")?;
        let call_sighash = read_bool(jv, "callSighash")?;
        let call_type = read_bool(jv, "callType")?;
        let call_call_type = read_bool(jv, "callCallType")?;
        let call_result_gas_used = read_bool(jv, "callResultGasUsed")?;
        let call_result_output = read_bool(jv, "callResultOutput")?;
        let suicide_address = read_bool(jv, "suicideAddress")?;
        let suicide_refund_address = read_bool(jv, "suicideRefundAddress")?;
        let suicide_balance = read_bool(jv, "suicideBalance")?;
        let reward_author = read_bool(jv, "rewardAuthor")?;
        let reward_value = read_bool(jv, "rewardValue")?;
        let reward_type = read_bool(jv, "rewardType")?;
        Ok(TraceFields { transaction_index, trace_address, subtraces, type_, error, revert_reason, create_from, create_value, create_gas, create_init, create_result_gas_used, create_result_code, create_result_address, call_from, call_to, call_value, call_gas, call_input, call_sighash, call_type, call_call_type, call_result_gas_used, call_result_output, suicide_address, suicide_refund_address, suicide_balance, reward_author, reward_value, reward_type })
    }
}

/// Mask round trip: what `to_json` writes, `from_json` accepts, and the
/// mask it returns is the one written.
pub proof fn lemma_trace_fields_round_trip(q: TraceFields, v: JsonValue, q2: TraceFields)
    requires
        trace_fields_json_matches(q, v),
        trace_fields_parsed(q2, v),
    ensures
        q2 == q,
{
    assert(q2.transaction_index == q.transaction_index);
    assert(q2.trace_address == q.trace_address);
    assert(q2.subtraces == q.subtraces);
    assert(q2.type_ == q.type_);
    assert(q2.error == q.error);
    assert(q2.revert_reason == q.revert_reason);
    assert(q2.create_from == q.create_from);
    assert(q2.create_value == q.create_value);
    assert(q2.create_gas == q.create_gas);
    assert(q2.create_init == q.create_init);
    assert(q2.create_result_gas_used == q.create_result_gas_used);
    assert(q2.create_result_code == q.create_result_code);
    assert(q2.create_result_address == q.create_result_address);
    assert(q2.call_from == q.call_from);
    assert(q2.call_to == q.call_to);
    assert(q2.call_value == q.call_value);
    assert(q2.call_gas == q.call_gas);
    assert(q2.call_input == q.call_input);
    assert(q2.call_sighash == q.call_sighash);
    assert(q2.call_type == q.call_type);
    assert(q2.call_call_type == q.call_call_type);
    assert(q2.call_result_gas_used == q.call_result_gas_used);
    assert(q2.call_result_output == q.call_result_output);
    assert(q2.suicide_address == q.suicide_address);
    assert(q2.suicide_refund_address == q.suicide_refund_address);
    assert(q2.suicide_balance == q.suicide_balance);
    assert(q2.reward_author == q.reward_author);
    assert(q2.reward_value == q.reward_value);
    assert(q2.reward_type == q.reward_type);
}

/// The wire form of the block mask: every flag always present.
pub open spec fn block_fields_json_matches(q: BlockFields, v: JsonValue) -> bool {
    &&& v is Obj
    &&& bool_member(v, "number"@, q.number)
    &&& bool_member(v, "hash"@, q.hash)
    &&& bool_member(v, "parentHash"@, q.parent_hash)
    &&& bool_member(v, "timestamp"@, q.timestamp)
    &&& bool_member(v, "transactionsRoot"@, q.transactions_root)
    &&& bool_member(v, "receiptsRoot"@, q.receipts_root)
    &&& bool_member(v, "stateRoot"@, q.state_root)
    &&& bool_member(v, "logsBloom"@, q.logs_bloom)
    &&& bool_member(v, "sha3Uncles"@, q.sha3_uncles)
    &&& bool_member(v, "extraData"@, q.extra_data)
    &&& bool_member(v, "miner"@, q.miner)
    &&& bool_member(v, "nonce"@, q.nonce)
    &&& bool_member(v, "mixHash"@, q.mix_hash)
    &&& bool_member(v, "size"@, q.size)
    &&& bool_member(v, "gasLimit"@, q.gas_limit)
    &&& bool_member(v, "gasUsed"@, q.gas_used)
    &&& bool_member(v, "difficulty"@, q.difficulty)
    &&& bool_member(v, "totalDifficulty"@, q.total_difficulty)
    &&& bool_member(v, "baseFeePerGas"@, q.base_fee_per_gas)
    &&& bool_member(v, "blobGasUsed"@, q.blob_gas_used)
    &&& bool_member(v, "excessBlobGas"@, q.excess_blob_gas)
    &&& bool_member(v, "l1BlockNumber"@, q.l1_block_number)
}

pub open spec fn block_fields_parseable(v: JsonValue) -> bool {
    &&& v is Obj
    &&& bool_field(v, "number"@) matches Ok(Some(_))
    &&& bool_field(v, "hash"@) matches Ok(Some(_))
    &&& bool_field(v, "parentHash"@) matches Ok(Some(_))
    &&& bool_field(v, "timestamp"@) matches Ok(Some(_))
    &&& bool_field(v, "transactionsRoot"@) matches Ok(Some(_))
    &&& bool_field(v, "receiptsRoot"@) matches Ok(Some(_))
    &&& bool_field(v, "stateRoot"@) matches Ok(Some(_))
    &&& bool_field(v, "logsBloom"@) matches Ok(Some(_))
    &&& bool_field(v, "sha3Uncles"@) matches Ok(Some(_))
    &&& bool_field(v, "extraData"@) matches Ok(Some(_))
    &&& bool_field(v, "miner"@) matches Ok(Some(_))
    &&& bool_field(v, "nonce"@) matches Ok(Some(_))
    &&& bool_field(v, "mixHash"@) matches Ok(Some(_))
    &&& bool_field(v, "size"@) matches Ok(Some(_))
    &&& bool_field(v, "gasLimit"@) matches Ok(Some(_))
    &&& bool_field(v, "gasUsed"@) matches Ok(Some(_))
    &&& bool_field(v, "difficulty"@) matches Ok(Some(_))
    &&& bool_field(v, "totalDifficulty"@) matches Ok(Some(_))
    &&& bool_field(v, "baseFeePerGas"@) matches Ok(Some(_))
    &&& bool_field(v, "blobGasUsed"@) matches Ok(Some(_))
    &&& bool_field(v, "excessBlobGas"@) matches Ok(Some(_))
    &&& bool_field(v, "l1BlockNumber"@) matches Ok(Some(_))
}

pub open spec fn block_fields_parsed(q: BlockFields, v: JsonValue) -> bool {
    &&& bool_field(v, "number"@) == Ok::<Option<bool>, crate::ErrorKind>(
        Some(q.number),
    )
    &&& bool_field(v, "hash"@) == Ok::<Option<bool>, crate::ErrorKind>(
        Some(q.hash),
    )
    &&& bool_field(v, "parentHash"@) == Ok::<Option<bool>, crate::ErrorKind>(
        Some(q.parent_hash),
    )
    &&& bool_field(v, "timestamp"@) == Ok::<Option<bool>, crate::ErrorKind>(
        Some(q.timestamp),
    )
    &&& bool_field(v, "transactionsRoot"@) == Ok::<Option<bool>, crate::ErrorKind>(
        Some(q.transactions_root),
    )
    &&& bool_field(v, "receiptsRoot"@) == Ok::<Option<bool>, crate::ErrorKind>(
        Some(q.receipts_root),
    )
    &&& bool_field(v, "stateRoot"@) == Ok::<Option<bool>, crate::ErrorKind>(
        Some(q.state_root),
    )
    &&& bool_field(v, "logsBloom"@) == Ok::<Option<bool>, crate::ErrorKind>(
        Some(q.logs_bloom),
    )
    &&& bool_field(v, "sha3Uncles"@) == Ok::<Option<bool>, crate::ErrorKind>(
        Some(q.sha3_uncles),
    )
    &&& bool_field(v, "extraData"@) == Ok::<Option<bool>, crate::ErrorKind>(
        Some(q.extra_data),
    )
    &&& bool_field(v, "miner"@) == Ok::<Option<bool>, crate::ErrorKind>(
        Some(q.miner),
    )
    &&& bool_field(v, "nonce"@) == Ok::<Option<bool>, crate::ErrorKind>(
        Some(q.nonce),
    )
    &&& bool_field(v, "mixHash"@) == Ok::<Option<bool>, crate::ErrorKind>(
        Some(q.mix_hash),
    )
    &&& bool_field(v, "size"@) == Ok::<Option<bool>, crate::ErrorKind>(
        Some(q.size),
    )
    &&& bool_field(v, "gasLimit"@) == Ok::<Option<bool>, crate::ErrorKind>(
        Some(q.gas_limit),
    )
    &&& bool_field(v, "gasUsed"@) == Ok::<Option<bool>, crate::ErrorKind>(
        Some(q.gas_used),
    )
    &&& bool_field(v, "difficulty"@) == Ok::<Option<bool>, crate::ErrorKind>(
        Some(q.difficulty),
    )
    &&& bool_field(v, "totalDifficulty"@) == Ok::<Option<bool>, crate::ErrorKind>(
        Some(q.total_difficulty),
    )
    &&& bool_field(v, "baseFeePerGas"@) == Ok::<Option<bool>, crate::ErrorKind>(
        Some(q.base_fee_per_gas),
    )
    &&& bool_field(v, "blobGasUsed"@) == Ok::<Option<bool>, crate::ErrorKind>(
        Some(q.blob_gas_used),
    )
    &&& bool_field(v, "excessBlobGas"@) == Ok::<Option<bool>, crate::ErrorKind>(
        Some(q.excess_blob_gas),
    )
    &&& bool_field(v, "l1BlockNumber"@) == Ok::<Option<bool>, crate::ErrorKind>(
        Some(q.l1_block_number),
    )
}

impl BlockFields {
    /// Serialize for the wire: the mask is written in full.
    #[verifier::rlimit(100)]
    pub fn to_json(&self) -> (r: JsonValue)
        ensures
            block_fields_json_matches(*self, r),
    {
        proof {
            reveal_strlit("number");
            reveal_strlit("hash");
            reveal_strlit("parentHash");
            reveal_strlit("timestamp");
            reveal_strlit("transactionsRoot");
            reveal_strlit("receiptsRoot");
            reveal_strlit("stateRoot");
            reveal_strlit("logsBloom");
            reveal_strlit("sha3Uncles");
            reveal_strlit("extraData");
            reveal_strlit("miner");
            reveal_strlit("nonce");
            reveal_strlit("mixHash");
            reveal_strlit("size");
            reveal_strlit("gasLimit");
            reveal_strlit("gasUsed");
            reveal_strlit("difficulty");
            reveal_strlit("totalDifficulty");
            reveal_strlit("baseFeePerGas");
            reveal_strlit("blobGasUsed");
            reveal_strlit("excessBlobGas");
            reveal_strlit("l1BlockNumber");
            assert("number"@.len() == 6);
            assert("hash"@.len() == 4);
            assert("parentHash"@.len() == 10);
            assert("timestamp"@.len() == 9);
            assert("transactionsRoot"@.len() == 16);
            assert("receiptsRoot"@.len() == 12);
            assert("stateRoot"@.len() == 9);
            assert("logsBloom"@.len() == 9);
            assert("sha3Uncles"@.len() == 10);
            assert("extraData"@.len() == 9);
            assert("miner"@.len() == 5);
            assert("nonce"@.len() == 5);
            assert("mixHash"@.len() == 7);
            assert("size"@.len() == 4);
            assert("gasLimit"@.len() == 8);
            assert("gasUsed"@.len() == 7);
            assert("difficulty"@.len() == 10);
            assert("totalDifficulty"@.len() == 15);
            assert("baseFeePerGas"@.len() == 13);
            assert("blobGasUsed"@.len() == 11);
            assert("excessBlobGas"@.len() == 13);
            assert("l1BlockNumber"@.len() == 13);
            assert("hash"@[0] == 'h');
            assert("size"@[0] == 's');
            assert("parentHash"@[0] == 'p');
            assert("sha3Uncles"@[0] == 's');
            assert("difficulty"@[0] == 'd');
            assert("timestamp"@[0] == 't');
            assert("stateRoot"@[0] == 's');
            assert("logsBloom"@[0] == 'l');
            assert("extraData"@[0] == 'e');
            assert("miner"@[0] == 'm');
            assert("nonce"@[0] == 'n');
            assert("mixHash"@[0] == 'm');
            assert("gasUsed"@[0] == 'g');
            assert("baseFeePerGas"@[0] == 'b');
            assert("excessBlobGas"@[0] == 'e');
            assert("l1BlockNumber"@[0] == 'l');
        }
        let mut m: Vec<(String, JsonValue)> = Vec::new();
        proof {
            assert forall|k: Seq<char>| !has_key(m@, k) by {
                if has_key(m@, k) {
                    let j = choose|j: int| 0 <= j < m@.len() && (#[trigger] m@[j]).0@ == k;
                }
            }
        }
        put_member(&mut m, "number", JsonValue::Bool(self.number));
        put_member(&mut m, "hash", JsonValue::Bool(self.hash));
        put_member(&mut m, "parentHash", JsonValue::Bool(self.parent_hash));
        put_member(&mut m, "timestamp", JsonValue::Bool(self.timestamp));
        put_member(&mut m, "transactionsRoot", JsonValue::Bool(self.transactions_root));
        put_member(&mut m, "receiptsRoot", JsonValue::Bool(self.receipts_root));
        put_member(&mut m, "stateRoot", JsonValue::Bool(self.state_root));
        put_member(&mut m, "logsBloom", JsonValue::Bool(self.logs_bloom));
        put_member(&mut m, "sha3Uncles", JsonValue::Bool(self.sha3_uncles));
        put_member(&mut m, "extraData", JsonValue::Bool(self.extra_data));
        put_member(&mut m, "miner", JsonValue::Bool(self.miner));
        put_member(&mut m, "nonce", JsonValue::Bool(self.nonce));
        put_member(&mut m, "mixHash", JsonValue::Bool(self.mix_hash));
        put_member(&mut m, "size", JsonValue::Bool(self.size));
        put_member(&mut m, "gasLimit", JsonValue::Bool(self.gas_limit));
        put_member(&mut m, "gasUsed", JsonValue::Bool(self.gas_used));
        put_member(&mut m, "difficulty", JsonValue::Bool(self.difficulty));
        put_member(&mut m, "totalDifficulty", JsonValue::Bool(self.total_difficulty));
        put_member(&mut m, "baseFeePerGas", JsonValue::Bool(self.base_fee_per_gas));
        put_member(&mut m, "blobGasUsed", JsonValue::Bool(self.blob_gas_used));
        put_member(&mut m, "excessBlobGas", JsonValue::Bool(self.excess_blob_gas));
        put_member(&mut m, "l1BlockNumber", JsonValue::Bool(self.l1_block_number));
        JsonValue::Obj(m)
    }

    /// Read the block mask back from its wire form; every flag is
    /// required.
    pub fn from_json(jv: &JsonValue) -> (r: Result<BlockFields, Error>)
        ensures
            r is Ok <==> block_fields_parseable(*jv),
            r is Ok ==> block_fields_parsed(r->Ok_0, *jv),
    {
        match jv {
            JsonValue::Obj(_) => {},
            _ => { return Err(Error::new(ErrorKind::Shape, "block_fields as object")); },
        }
        let number = read_bool(jv, "number")?;
        let hash = read_bool(jv, "hash")?;
        let parent_hash = read_bool(jv, "parentHash")?;
        let timestamp = read_bool(jv, "timestamp")?;
        let transactions_root = read_bool(jv, "transactionsRoot")?;
        let receipts_root = read_bool(jv, "receiptsRoot")?;
        let state_root = read_bool(jv, "stateRoot")?;
        let logs_bloom = read_bool(jv, "logsBloom")?;
        let sha3_uncles = read_bool(jv, "sha3Uncles")?;
        let extra_data = read_bool(jv, "extraData")?;
        let miner = read_bool(jv, "miner")?;
        let nonce = read_bool(jv, "nonce")?;
        let mix_hash = read_bool(jv, "mixHash")?;
        let size = read_bool(jv, "size")?;
        let gas_limit = read_bool(jv, "gasLimit")?;
        let gas_used = read_bool(jv, "gasUsed")?;
        let difficulty = read_bool(jv, "difficulty")?;
        let total_difficulty = read_bool(jv, "totalDifficulty")?;
        let base_fee_per_gas = read_bool(jv, "baseFeePerGas")?;
        let blob_gas_used = read_bool(jv, "blobGasUsed")?;
        let excess_blob_gas = read_bool(jv, "excessBlobGas")?;
        let l1_block_number = read_bool(jv, "l1BlockNumber")?;
        Ok(BlockFields { number, hash, parent_hash, timestamp, transactions_root, receipts_root, state_root, logs_bloom, sha3_uncles, extra_data, miner, nonce, mix_hash, size, gas_limit, gas_used, difficulty, total_difficulty, base_fee_per_gas, blob_gas_used, excess_blob_gas, l1_block_number })
    }
}

/// Mask round trip: what `to_json` writes, `from_json` accepts, and the
/// mask it returns is the one written.
pub proof fn lemma_block_fields_round_trip(q: BlockFields, v: JsonValue, q2: BlockFields)
    requires
        block_fields_json_matches(q, v),
        block_fields_parsed(q2, v),
    ensures
        q2 == q,
{
    assert(q2.number == q.number);
    assert(q2.hash == q.hash);
    assert(q2.parent_hash == q.parent_hash);
    assert(q2.timestamp == q.timestamp);
    assert(q2.transactions_root == q.transactions_root);
    assert(q2.receipts_root == q.receipts_root);
    assert(q2.state_root == q.state_root);
    assert(q2.logs_bloom == q.logs_bloom);
    assert(q2.sha3_uncles == q.sha3_uncles);
    assert(q2.extra_data == q.extra_data);
    assert(q2.miner == q.miner);
    assert(q2.nonce == q.nonce);
    assert(q2.mix_hash == q.mix_hash);
    assert(q2.size == q.size);
    assert(q2.gas_limit == q.gas_limit);
    assert(q2.gas_used == q.gas_used);
    assert(q2.difficulty == q.difficulty);
    assert(q2.total_difficulty == q.total_difficulty);
    assert(q2.base_fee_per_gas == q.base_fee_per_gas);
    assert(q2.blob_gas_used == q.blob_gas_used);
    assert(q2.excess_blob_gas == q.excess_blob_gas);
    assert(q2.l1_block_number == q.l1_block_number);
}


/// The wire form of the field masks: one sub-object per entity, each
/// mask written in full.
pub open spec fn fields_json_matches(q: Fields, v: JsonValue) -> bool {
    &&& v is Obj
    &&& match obj_lookup(v->Obj_0@, "log"@) {
        Some(mv) => log_fields_json_matches(q.log, mv),
        _ => false,
    }
    &&& match obj_lookup(v->Obj_0@, "transaction"@) {
        Some(mv) => transaction_fields_json_matches(q.transaction, mv),
        _ => false,
    }
    &&& match obj_lookup(v->Obj_0@, "trace"@) {
        Some(mv) => trace_fields_json_matches(q.trace, mv),
        _ => false,
    }
    &&& match obj_lookup(v->Obj_0@, "block"@) {
        Some(mv) => block_fields_json_matches(q.block, mv),
        _ => false,
    }
}

impl Fields {
    /// Serialize for the wire: every entity's mask, in full.
    #[verifier::rlimit(100)]
    pub fn to_json(&self) -> (r: JsonValue)
        ensures
            fields_json_matches(*self, r),
    {
        proof {
            reveal_strlit("log");
            reveal_strlit("transaction");
            reveal_strlit("trace");
            reveal_strlit("block");
            assert("log"@.len() == 3);
            assert("transaction"@.len() == 11);
            assert("trace"@.len() == 5);
            assert("block"@.len() == 5);
            assert("trace"@[0] == 't');
            assert("block"@[0] == 'b');
        }
        let mut m: Vec<(String, JsonValue)> = Vec::new();
        proof {
            assert forall|k: Seq<char>| !has_key(m@, k) by {
                if has_key(m@, k) {
                    let j = choose|j: int| 0 <= j < m@.len() && (#[trigger] m@[j]).0@ == k;
                }
            }
        }
        put_member(&mut m, "log", self.log.to_json());
        put_member(&mut m, "transaction", self.transaction.to_json());
        put_member(&mut m, "trace", self.trace.to_json());
        put_member(&mut m, "block", self.block.to_json());
        JsonValue::Obj(m)
    }
}

/// The wire form of a whole query: the dialect tag, the block range,
/// the masks in full, and one array per request kind; within each
/// request, empty string arrays are left out.
pub open spec fn query_json_matches(q: Query, v: JsonValue) -> bool {
    &&& v is Obj
    &&& match obj_lookup(v->Obj_0@, "type"@) {
        Some(JsonValue::Str(s)) => s@ == "evm"@,
        _ => false,
    }
    &&& obj_lookup(v->Obj_0@, "fromBlock"@) == Some(JsonValue::UInt(q.from_block))
    &&& match q.to_block {
        Some(tb) => obj_lookup(v->Obj_0@, "toBlock"@) == Some(JsonValue::UInt(tb)),
        None => obj_lookup(v->Obj_0@, "toBlock"@) == Some(JsonValue::Null),
    }
    &&& obj_lookup(v->Obj_0@, "includeAllBlocks"@) == Some(JsonValue::Bool(q.include_all_blocks))
    &&& match obj_lookup(v->Obj_0@, "fields"@) {
        Some(fv) => fields_json_matches(q.fields, fv),
        _ => false,
    }
    &&& match obj_lookup(v->Obj_0@, "logs"@) {
        Some(JsonValue::Arr(a)) => a@.len() == q.logs@.len() && forall|i: int|
            0 <= i < a@.len() ==> log_request_json_matches(q.logs@[i], #[trigger] a@[i]),
        _ => false,
    }
    &&& match obj_lookup(v->Obj_0@, "transactions"@) {
        Some(JsonValue::Arr(a)) => a@.len() == q.transactions@.len() && forall|i: int|
            0 <= i < a@.len() ==> transaction_request_json_matches(q.transactions@[i], #[trigger] a@[i]),
        _ => false,
    }
    &&& match obj_lookup(v->Obj_0@, "traces"@) {
        Some(JsonValue::Arr(a)) => a@.len() == q.traces@.len() && forall|i: int|
            0 <= i < a@.len() ==> trace_request_json_matches(q.traces@[i], #[trigger] a@[i]),
        _ => false,
    }
    &&& match obj_lookup(v->Obj_0@, "stateDiffs"@) {
        Some(JsonValue::Arr(a)) => a@.len() == q.state_diffs@.len() && forall|i: int|
            0 <= i < a@.len() ==> state_diff_request_json_matches(q.state_diffs@[i], #[trigger] a@[i]),
        _ => false,
    }
}

impl Query {
    /// Serialize the query for the wire.
    #[verifier::rlimit(100)]
    pub fn to_json(&self) -> (r: JsonValue)
        ensures
            query_json_matches(*self, r),
    {
        proof {
            reveal_strlit("type");
            reveal_strlit("fromBlock");
            reveal_strlit("toBlock");
            reveal_strlit("includeAllBlocks");
            reveal_strlit("fields");
            reveal_strlit("logs");
            reveal_strlit("transactions");
            reveal_strlit("traces");
            reveal_strlit("stateDiffs");
            assert("type"@.len() == 4);
            assert("fromBlock"@.len() == 9);
            assert("toBlock"@.len() == 7);
            assert("includeAllBlocks"@.len() == 16);
            assert("fields"@.len() == 6);
            assert("logs"@.len() == 4);
            assert("transactions"@.len() == 12);
            assert("traces"@.len() == 6);
            assert("stateDiffs"@.len() == 10);
            assert("type"@[0] == 't');
            assert("logs"@[0] == 'l');
            assert("fields"@[0] == 'f');
            assert("traces"@[0] == 't');
        }
        let mut logs_json: Vec<JsonValue> = Vec::new();
        let n_logs = self.logs.len();
        let mut i_logs: usize = 0;
        while i_logs < n_logs
            invariant
                n_logs == self.logs@.len(),
                i_logs <= n_logs,
                logs_json@.len() == i_logs,
                forall|j: int|
                    0 <= j < i_logs ==> log_request_json_matches(self.logs@[j], #[trigger] logs_json@[j]),
            decreases n_logs - i_logs,
        {
            logs_json.push(self.logs[i_logs].to_json());
            i_logs += 1;
        }
        let mut transactions_json: Vec<JsonValue> = Vec::new();
        let n_transactions = self.transactions.len();
        let mut i_transactions: usize = 0;
        while i_transactions < n_transactions
            invariant
                n_transactions == self.transactions@.len(),
                i_transactions <= n_transactions,
                transactions_json@.len() == i_transactions,
                forall|j: int|
                    0 <= j < i_transactions ==> transaction_request_json_matches(self.transactions@[j], #[trigger] transactions_json@[j]),
            decreases n_transactions - i_transactions,
        {
            transactions_json.push(self.transactions[i_transactions].to_json());
            i_transactions += 1;
        }
        let mut traces_json: Vec<JsonValue> = Vec::new();
        let n_traces = self.traces.len();
        let mut i_traces: usize = 0;
        while i_traces < n_traces
            invariant
                n_traces == self.traces@.len(),
                i_traces <= n_traces,
                traces_json@.len() == i_traces,
                forall|j: int|
                    0 <= j < i_traces ==> trace_request_json_matches(self.traces@[j], #[trigger] traces_json@[j]),
            decreases n_traces - i_traces,
        {
            traces_json.push(self.traces[i_traces].to_json());
            i_traces += 1;
        }
        let mut state_diffs_json: Vec<JsonValue> = Vec::new();
        let n_state_diffs = self.state_diffs.len();
        let mut i_state_diffs: usize = 0;
        while i_state_diffs < n_state_diffs
            invariant
                n_state_diffs == self.state_diffs@.len(),
                i_state_diffs <= n_state_diffs,
                state_diffs_json@.len() == i_state_diffs,
                forall|j: int|
                    0 <= j < i_state_diffs ==> state_diff_request_json_matches(self.state_diffs@[j], #[trigger] state_diffs_json@[j]),
            decreases n_state_diffs - i_state_diffs,
        {
            state_diffs_json.push(self.state_diffs[i_state_diffs].to_json());
            i_state_diffs += 1;
        }
        let mut m: Vec<(String, JsonValue)> = Vec::new();
        proof {
            assert forall|k: Seq<char>| !has_key(m@, k) by {
                if has_key(m@, k) {
                    let j = choose|j: int| 0 <= j < m@.len() && (#[trigger] m@[j]).0@ == k;
                }
            }
        }
        put_member(&mut m, "type", JsonValue::Str("evm".to_owned()));
        put_member(&mut m, "fromBlock", JsonValue::UInt(self.from_block));
        let to_block_json = match self.to_block {
            Some(tb) => JsonValue::UInt(tb),
            None => JsonValue::Null,
        };
        put_member(&mut m, "toBlock", to_block_json);
        put_member(&mut m, "includeAllBlocks", JsonValue::Bool(self.include_all_blocks));
        put_member(&mut m, "fields", self.fields.to_json());
        put_member(&mut m, "logs", JsonValue::Arr(logs_json));
        put_member(&mut m, "transactions", JsonValue::Arr(transactions_json));
        put_member(&mut m, "traces", JsonValue::Arr(traces_json));
        put_member(&mut m, "stateDiffs", JsonValue::Arr(state_diffs_json));
        JsonValue::Obj(m)
    }

    /// The query as JSON text, ready to send: the encoding of a wire
    /// object that matches the query.
    pub fn to_json_bytes(&self) -> (r: Vec<u8>)
        ensures
            exists|v: JsonValue| #[trigger] query_json_matches(*self, v) && r@ == spec_encode(v),
    {
        let v = self.to_json();
        let ghost gv = v;
        let out = v.encode();
        proof {
            assert(query_json_matches(*self, gv) && out@ == spec_encode(gv));
        }
        out
    }
}



/// The field masks read back: every entity's mask must be present.
pub open spec fn fields_parseable(v: JsonValue) -> bool {
    &&& v is Obj
    &&& match field_of(v, "log"@) {
        Some(mv) => log_fields_parseable(mv),
        None => false,
    }
    &&& match field_of(v, "transaction"@) {
        Some(mv) => transaction_fields_parseable(mv),
        None => false,
    }
    &&& match field_of(v, "trace"@) {
        Some(mv) => trace_fields_parseable(mv),
        None => false,
    }
    &&& match field_of(v, "block"@) {
        Some(mv) => block_fields_parseable(mv),
        None => false,
    }
}

pub open spec fn fields_parsed(q: Fields, v: JsonValue) -> bool {
    &&& match field_of(v, "log"@) {
        Some(mv) => log_fields_parsed(q.log, mv),
        None => false,
    }
    &&& match field_of(v, "transaction"@) {
        Some(mv) => transaction_fields_parsed(q.transaction, mv),
        None => false,
    }
    &&& match field_of(v, "trace"@) {
        Some(mv) => trace_fields_parsed(q.trace, mv),
        None => false,
    }
    &&& match field_of(v, "block"@) {
        Some(mv) => block_fields_parsed(q.block, mv),
        None => false,
    }
}

impl Fields {
    /// Read the masks back from their wire form.
    pub fn from_json(jv: &JsonValue) -> (r: Result<Fields, Error>)
        ensures
            r is Ok <==> fields_parseable(*jv),
            r is Ok ==> fields_parsed(r->Ok_0, *jv),
    {
        let fields = match jv {
            JsonValue::Obj(f) => f,
            _ => { return Err(Error::new(ErrorKind::Shape, "fields as object")); },
        };
        let log = match json_obj_get(fields, "log") {
            None => { return Err(Error::new(ErrorKind::Shape, "missing log mask")); },
            Some(JsonValue::Null) => {
                return Err(Error::new(ErrorKind::Shape, "missing log mask"));
            },
            Some(mv) => LogFields::from_json(mv)?,
        };
        let transaction = match json_obj_get(fields, "transaction") {
            None => { return Err(Error::new(ErrorKind::Shape, "missing transaction mask")); },
            Some(JsonValue::Null) => {
                return Err(Error::new(ErrorKind::Shape, "missing transaction mask"));
            },
            Some(mv) => TransactionFields::from_json(mv)?,
        };
        let trace = match json_obj_get(fields, "trace") {
            None => { return Err(Error::new(ErrorKind::Shape, "missing trace mask")); },
            Some(JsonValue::Null) => {
                return Err(Error::new(ErrorKind::Shape, "missing trace mask"));
            },
            Some(mv) => TraceFields::from_json(mv)?,
        };
        let block = match json_obj_get(fields, "block") {
            None => { return Err(Error::new(ErrorKind::Shape, "missing block mask")); },
            Some(JsonValue::Null) => {
                return Err(Error::new(ErrorKind::Shape, "missing block mask"));
            },
            Some(mv) => BlockFields::from_json(mv)?,
        };
        Ok(Fields { log, transaction, trace, block })
    }
}

/// The `logs` member decodes element by element; an absent member is the
/// empty list.
pub open spec fn logs_list_parseable(v: JsonValue) -> bool {
    match field_of(v, "logs"@) {
        None => true,
        Some(JsonValue::Arr(a)) => forall|i: int|
            0 <= i < a@.len() ==> log_request_parseable(#[trigger] a@[i]),
        Some(_) => false,
    }
}

pub open spec fn logs_list_parsed(xs: Seq<LogRequest>, v: JsonValue) -> bool {
    match field_of(v, "logs"@) {
        None => xs.len() == 0,
        Some(JsonValue::Arr(a)) => xs.len() == a@.len() && forall|i: int|
            0 <= i < a@.len() ==> log_request_parsed(xs[i], #[trigger] a@[i]),
        Some(_) => false,
    }
}

fn read_logs_list(jv: &JsonValue) -> (r: Result<Vec<LogRequest>, Error>)
    requires
        jv is Obj,
    ensures
        r is Ok <==> logs_list_parseable(*jv),
        r is Ok ==> logs_list_parsed(r->Ok_0@, *jv),
{
    let fields = match jv {
        JsonValue::Obj(f) => f,
        _ => { return Err(Error::new(ErrorKind::Shape, "query as object")); },
    };
    let arr = match json_obj_get(fields, "logs") {
        None => { return Ok(Vec::new()); },
        Some(JsonValue::Null) => { return Ok(Vec::new()); },
        Some(JsonValue::Arr(a)) => a,
        Some(_) => { return Err(Error::new(ErrorKind::Shape, "logs as array")); },
    };
    let n: usize = arr.len();
    let mut out: Vec<LogRequest> = Vec::new();
    let mut i: usize = 0;
    while i < n
        invariant
            jv is Obj,
            n == arr@.len(),
            i <= n,
            field_of(*jv, "logs"@) == Some(JsonValue::Arr(*arr)),
            out@.len() == i,
            forall|j: int| 0 <= j < i ==> log_request_parseable(#[trigger] arr@[j]),
            forall|j: int| 0 <= j < i ==> log_request_parsed(#[trigger] out@[j], arr@[j]),
        decreases n - i,
    {
        let one = match LogRequest::from_json(&arr[i]) {
            Ok(x) => x,
            Err(e) => {
                proof {
                    if logs_list_parseable(*jv) {
                        assert(match field_of(*jv, "logs"@) {
                            Some(JsonValue::Arr(aa)) => aa == *arr,
                            _ => false,
                        });
                        assert(log_request_parseable(arr@[i as int]));
                    }
                }
                return Err(e);
            },
        };
        out.push(one);
        i += 1;
    }
    Ok(out)
}
/// The `transactions` member decodes element by element; an absent member is the
/// empty list.
pub open spec fn transactions_list_parseable(v: JsonValue) -> bool {
    match field_of(v, "transactions"@) {
        None => true,
        Some(JsonValue::Arr(a)) => forall|i: int|
            0 <= i < a@.len() ==> transaction_request_parseable(#[trigger] a@[i]),
        Some(_) => false,
    }
}

pub open spec fn transactions_list_parsed(xs: Seq<TransactionRequest>, v: JsonValue) -> bool {
    match field_of(v, "transactions"@) {
        None => xs.len() == 0,
        Some(JsonValue::Arr(a)) => xs.len() == a@.len() && forall|i: int|
            0 <= i < a@.len() ==> transaction_request_parsed(xs[i], #[trigger] a@[i]),
        Some(_) => false,
    }
}

fn read_transactions_list(jv: &JsonValue) -> (r: Result<Vec<TransactionRequest>, Error>)
    requires
        jv is Obj,
    ensures
        r is Ok <==> transactions_list_parseable(*jv),
        r is Ok ==> transactions_list_parsed(r->Ok_0@, *jv),
{
    let fields = match jv {
        JsonValue::Obj(f) => f,
        _ => { return Err(Error::new(ErrorKind::Shape, "query as object")); },
    };
    let arr = match json_obj_get(fields, "transactions") {
        None => { return Ok(Vec::new()); },
        Some(JsonValue::Null) => { return Ok(Vec::new()); },
        Some(JsonValue::Arr(a)) => a,
        Some(_) => { return Err(Error::new(ErrorKind::Shape, "transactions as array")); },
    };
    let n: usize = arr.len();
    let mut out: Vec<TransactionRequest> = Vec::new();
    let mut i: usize = 0;
    while i < n
        invariant
            jv is Obj,
            n == arr@.len(),
            i <= n,
            field_of(*jv, "transactions"@) == Some(JsonValue::Arr(*arr)),
            out@.len() == i,
            forall|j: int| 0 <= j < i ==> transaction_request_parseable(#[trigger] arr@[j]),
            forall|j: int| 0 <= j < i ==> transaction_request_parsed(#[trigger] out@[j], arr@[j]),
        decreases n - i,
    {
        let one = match TransactionRequest::from_json(&arr[i]) {
            Ok(x) => x,
            Err(e) => {
                proof {
                    if transactions_list_parseable(*jv) {
                        assert(match field_of(*jv, "transactions"@) {
                            Some(JsonValue::Arr(aa)) => aa == *arr,
                            _ => false,
                        });
                        assert(transaction_request_parseable(arr@[i as int]));
                    }
                }
                return Err(e);
            },
        };
        out.push(one);
        i += 1;
    }
    Ok(out)
}
/// The `traces` member decodes element by element; an absent member is the
/// empty list.
pub open spec fn traces_list_parseable(v: JsonValue) -> bool {
    match field_of(v, "traces"@) {
        None => true,
        Some(JsonValue::Arr(a)) => forall|i: int|
            0 <= i < a@.len() ==> trace_request_parseable(#[trigger] a@[i]),
        Some(_) => false,
    }
}

pub open spec fn traces_list_parsed(xs: Seq<TraceRequest>, v: JsonValue) -> bool {
    match field_of(v, "traces"@) {
        None => xs.len() == 0,
        Some(JsonValue::Arr(a)) => xs.len() == a@.len() && forall|i: int|
            0 <= i < a@.len() ==> trace_request_parsed(xs[i], #[trigger] a@[i]),
        Some(_) => false,
    }
}

fn read_traces_list(jv: &JsonValue) -> (r: Result<Vec<TraceRequest>, Error>)
    requires
        jv is Obj,
    ensures
        r is Ok <==> traces_list_parseable(*jv),
        r is Ok ==> traces_list_parsed(r->Ok_0@, *jv),
{
    let fields = match jv {
        JsonValue::Obj(f) => f,
        _ => { return Err(Error::new(ErrorKind::Shape, "query as object")); },
    };
    let arr = match json_obj_get(fields, "traces") {
        None => { return Ok(Vec::new()); },
        Some(JsonValue::Null) => { return Ok(Vec::new()); },
        Some(JsonValue::Arr(a)) => a,
        Some(_) => { return Err(Error::new(ErrorKind::Shape, "traces as array")); },
    };
    let n: usize = arr.len();
    let mut out: Vec<TraceRequest> = Vec::new();
    let mut i: usize = 0;
    while i < n
        invariant
            jv is Obj,
            n == arr@.len(),
            i <= n,
            field_of(*jv, "traces"@) == Some(JsonValue::Arr(*arr)),
            out@.len() == i,
            forall|j: int| 0 <= j < i ==> trace_request_parseable(#[trigger] arr@[j]),
            forall|j: int| 0 <= j < i ==> trace_request_parsed(#[trigger] out@[j], arr@[j]),
        decreases n - i,
    {
        let one = match TraceRequest::from_json(&arr[i]) {
            Ok(x) => x,
            Err(e) => {
                proof {
                    if traces_list_parseable(*jv) {
                        assert(match field_of(*jv, "traces"@) {
                            Some(JsonValue::Arr(aa)) => aa == *arr,
                            _ => false,
                        });
                        assert(trace_request_parseable(arr@[i as int]));
                    }
                }
                return Err(e);
            },
        };
        out.push(one);
        i += 1;
    }
    Ok(out)
}
/// The `stateDiffs` member decodes element by element; an absent member is the
/// empty list.
pub open spec fn state_diffs_list_parseable(v: JsonValue) -> bool {
    match field_of(v, "stateDiffs"@) {
        None => true,
        Some(JsonValue::Arr(a)) => forall|i: int|
            0 <= i < a@.len() ==> state_diff_request_parseable(#[trigger] a@[i]),
        Some(_) => false,
    }
}

pub open spec fn state_diffs_list_parsed(xs: Seq<StateDiffRequest>, v: JsonValue) -> bool {
    match field_of(v, "stateDiffs"@) {
        None => xs.len() == 0,
        Some(JsonValue::Arr(a)) => xs.len() == a@.len() && forall|i: int|
            0 <= i < a@.len() ==> state_diff_request_parsed(xs[i], #[trigger] a@[i]),
        Some(_) => false,
    }
}

fn read_state_diffs_list(jv: &JsonValue) -> (r: Result<Vec<StateDiffRequest>, Error>)
    requires
        jv is Obj,
    ensures
        r is Ok <==> state_diffs_list_parseable(*jv),
        r is Ok ==> state_diffs_list_parsed(r->Ok_0@, *jv),
{
    let fields = match jv {
        JsonValue::Obj(f) => f,
        _ => { return Err(Error::new(ErrorKind::Shape, "query as object")); },
    };
    let arr = match json_obj_get(fields, "stateDiffs") {
        None => { return Ok(Vec::new()); },
        Some(JsonValue::Null) => { return Ok(Vec::new()); },
        Some(JsonValue::Arr(a)) => a,
        Some(_) => { return Err(Error::new(ErrorKind::Shape, "stateDiffs as array")); },
    };
    let n: usize = arr.len();
    let mut out: Vec<StateDiffRequest> = Vec::new();
    let mut i: usize = 0;
    while i < n
        invariant
            jv is Obj,
            n == arr@.len(),
            i <= n,
            field_of(*jv, "stateDiffs"@) == Some(JsonValue::Arr(*arr)),
            out@.len() == i,
            forall|j: int| 0 <= j < i ==> state_diff_request_parseable(#[trigger] arr@[j]),
            forall|j: int| 0 <= j < i ==> state_diff_request_parsed(#[trigger] out@[j], arr@[j]),
        decreases n - i,
    {
        let one = match StateDiffRequest::from_json(&arr[i]) {
            Ok(x) => x,
            Err(e) => {
                proof {
                    if state_diffs_list_parseable(*jv) {
                        assert(match field_of(*jv, "stateDiffs"@) {
                            Some(JsonValue::Arr(aa)) => aa == *arr,
                            _ => false,
                        });
                        assert(state_diff_request_parseable(arr@[i as int]));
                    }
                }
                return Err(e);
            },
        };
        out.push(one);
        i += 1;
    }
    Ok(out)
}

/// A whole query read back: the dialect tag must match, the range and
/// masks must be present, and each request array must decode.
pub open spec fn query_parseable(v: JsonValue) -> bool {
    &&& v is Obj
    &&& match string_field(v, "type"@) {
        Ok(Some(s)) => s == "evm"@,
        _ => false,
    }
    &&& u64_field(v, "fromBlock"@) matches Ok(Some(_))
    &&& u64_field(v, "toBlock"@) is Ok
    &&& bool_field(v, "includeAllBlocks"@) matches Ok(Some(_))
    &&& match field_of(v, "fields"@) {
        Some(fv) => fields_parseable(fv),
        None => false,
    }
    &&& logs_list_parseable(v)
    &&& transactions_list_parseable(v)
    &&& traces_list_parseable(v)
    &&& state_diffs_list_parseable(v)
}

pub open spec fn query_parsed(q: Query, v: JsonValue) -> bool {
    &&& u64_field(v, "fromBlock"@) == Ok::<Option<u64>, crate::ErrorKind>(Some(q.from_block))
    &&& u64_field(v, "toBlock"@) == Ok::<Option<u64>, crate::ErrorKind>(q.to_block)
    &&& bool_field(v, "includeAllBlocks"@) == Ok::<Option<bool>, crate::ErrorKind>(Some(q.include_all_blocks))
    &&& match field_of(v, "fields"@) {
        Some(fv) => fields_parsed(q.fields, fv),
        None => false,
    }
    &&& logs_list_parsed(q.logs@, v)
    &&& transactions_list_parsed(q.transactions@, v)
    &&& traces_list_parsed(q.traces@, v)
    &&& state_diffs_list_parsed(q.state_diffs@, v)
}

impl Query {
    /// Read a query back from its wire form; absent request arrays are
    /// empty.
    #[verifier::rlimit(100)]
    pub fn from_json(jv: &JsonValue) -> (r: Result<Query, Error>)
        ensures
            r is Ok <==> query_parseable(*jv),
            r is Ok ==> query_parsed(r->Ok_0, *jv),
    {
        let fields = match jv {
            JsonValue::Obj(f) => f,
            _ => { return Err(Error::new(ErrorKind::Shape, "query as object")); },
        };
        match json_obj_get(fields, "type") {
            Some(JsonValue::Str(s)) => {
                let same = crate::util::bytes_eq(s.as_str().as_bytes(), "evm".as_bytes());
                proof {
                    if same {
                        crate::util::lemma_utf8_injective(s@, "evm"@);
                    }
                }
                if !same {
                    return Err(Error::new(ErrorKind::Shape, "unexpected dialect tag"));
                }
            },
            _ => { return Err(Error::new(ErrorKind::Shape, "missing dialect tag")); },
        }
        let from_block = match get_tape_u64(jv, "fromBlock")? {
            Some(n) => n,
            None => { return Err(Error::new(ErrorKind::Shape, "missing fromBlock")); },
        };
        let to_block = get_tape_u64(jv, "toBlock")?;
        let include_all_blocks = read_bool(jv, "includeAllBlocks")?;
        let masks = match json_obj_get(fields, "fields") {
            None => { return Err(Error::new(ErrorKind::Shape, "missing fields")); },
            Some(JsonValue::Null) => {
                return Err(Error::new(ErrorKind::Shape, "missing fields"));
            },
            Some(mv) => Fields::from_json(mv)?,
        };
        let logs = read_logs_list(jv)?;
        let transactions = read_transactions_list(jv)?;
        let traces = read_traces_list(jv)?;
        let state_diffs = read_state_diffs_list(jv)?;
        Ok(Query {
            type_: QueryType::default(),
            from_block,
            to_block,
            include_all_blocks,
            fields: masks,
            logs, transactions, traces, state_diffs,
        })
    }
}

/// One row of the `blocks` table.  `size` and `timestamp` are plain
/// numbers here; the columnar sink widens them to 256-bit columns.
/// Fields the service never sends (`uncles`, `parent_beacon_block_root`,
/// `withdrawals_root`, `send_count`, `send_root`) stay `None` in every
/// row.
#[derive(Debug, Clone, PartialEq)]
pub struct BlockRow {
    pub number: Option<u64>,
    pub hash: Option<Vec<u8>>,
    pub parent_hash: Option<Vec<u8>>,
    pub nonce: Option<Vec<u8>>,
    pub sha3_uncles: Option<Vec<u8>>,
    pub logs_bloom: Option<Vec<u8>>,
    pub transactions_root: Option<Vec<u8>>,
    pub state_root: Option<Vec<u8>>,
    pub receipts_root: Option<Vec<u8>>,
    pub miner: Option<Vec<u8>>,
    pub difficulty: Option<I256>,
    pub total_difficulty: Option<I256>,
    pub extra_data: Option<Vec<u8>>,
    pub size: Option<u64>,
    pub gas_limit: Option<I256>,
    pub gas_used: Option<I256>,
    pub timestamp: Option<u64>,
    pub uncles: Option<Vec<Vec<u8>>>,
    pub base_fee_per_gas: Option<I256>,
    pub blob_gas_used: Option<I256>,
    pub excess_blob_gas: Option<I256>,
    pub parent_beacon_block_root: Option<Vec<u8>>,
    pub withdrawals_root: Option<Vec<u8>>,
    pub l1_block_number: Option<u64>,
    pub send_count: Option<u64>,
    pub send_root: Option<Vec<u8>>,
    pub mix_hash: Option<Vec<u8>>,
}

/// Every header member the blocks row reads decodes cleanly.
pub open spec fn block_row_ok(h: JsonValue) -> bool {
    &&& u64_field(h, "number"@) is Ok
    &&& hex_field(h, "hash"@) is Ok
    &&& hex_field(h, "parentHash"@) is Ok
    &&& u64_field(h, "timestamp"@) is Ok
    &&& hex_field(h, "transactionsRoot"@) is Ok
    &&& hex_field(h, "receiptsRoot"@) is Ok
    &&& hex_field(h, "stateRoot"@) is Ok
    &&& hex_field(h, "logsBloom"@) is Ok
    &&& hex_field(h, "sha3Uncles"@) is Ok
    &&& hex_field(h, "extraData"@) is Ok
    &&& hex_field(h, "miner"@) is Ok
    &&& hex_field(h, "nonce"@) is Ok
    &&& hex_field(h, "mixHash"@) is Ok
    &&& u64_field(h, "size"@) is Ok
    &&& u256_field(h, "gasLimit"@) is Ok
    &&& u256_field(h, "gasUsed"@) is Ok
    &&& u256_field(h, "difficulty"@) is Ok
    &&& u256_field(h, "totalDifficulty"@) is Ok
    &&& u256_field(h, "baseFeePerGas"@) is Ok
    &&& u256_field(h, "blobGasUsed"@) is Ok
    &&& u256_field(h, "excessBlobGas"@) is Ok
    &&& u64_field(h, "l1BlockNumber"@) is Ok
}

/// The blocks row holds exactly what the header members decode to.
pub open spec fn block_row_matches(r: BlockRow, h: JsonValue) -> bool {
    &&& opt_eq(r.number, u64_field(h, "number"@))
    &&& opt_bytes_is(r.hash, hex_field(h, "hash"@))
    &&& opt_bytes_is(r.parent_hash, hex_field(h, "parentHash"@))
    &&& opt_bytes_is(r.nonce, hex_field(h, "nonce"@))
    &&& opt_bytes_is(r.sha3_uncles, hex_field(h, "sha3Uncles"@))
    &&& opt_bytes_is(r.logs_bloom, hex_field(h, "logsBloom"@))
    &&& opt_bytes_is(r.transactions_root, hex_field(h, "transactionsRoot"@))
    &&& opt_bytes_is(r.state_root, hex_field(h, "stateRoot"@))
    &&& opt_bytes_is(r.receipts_root, hex_field(h, "receiptsRoot"@))
    &&& opt_bytes_is(r.miner, hex_field(h, "miner"@))
    &&& opt_i256_is(r.difficulty, u256_field(h, "difficulty"@))
    &&& opt_i256_is(r.total_difficulty, u256_field(h, "totalDifficulty"@))
    &&& opt_bytes_is(r.extra_data, hex_field(h, "extraData"@))
    &&& opt_eq(r.size, u64_field(h, "size"@))
    &&& opt_i256_is(r.gas_limit, u256_field(h, "gasLimit"@))
    &&& opt_i256_is(r.gas_used, u256_field(h, "gasUsed"@))
    &&& opt_eq(r.timestamp, u64_field(h, "timestamp"@))
    &&& r.uncles is None
    &&& opt_i256_is(r.base_fee_per_gas, u256_field(h, "baseFeePerGas"@))
    &&& opt_i256_is(r.blob_gas_used, u256_field(h, "blobGasUsed"@))
    &&& opt_i256_is(r.excess_blob_gas, u256_field(h, "excessBlobGas"@))
    &&& r.parent_beacon_block_root is None
    &&& r.withdrawals_root is None
    &&& opt_eq(r.l1_block_number, u64_field(h, "l1BlockNumber"@))
    &&& r.send_count is None
    &&& r.send_root is None
    &&& opt_bytes_is(r.mix_hash, hex_field(h, "mixHash"@))
}

/// The header pair stamped onto every child row of the same block.
pub struct BlockInfo {
    pub number: Option<u64>,
    pub hash: Option<Vec<u8>>,
}

/// The `BlockInfo` carries the header's own `number` and `hash`.
pub open spec fn block_info_matches(bi: BlockInfo, h: JsonValue) -> bool {
    &&& opt_eq(bi.number, u64_field(h, "number"@))
    &&& opt_bytes_is(bi.hash, hex_field(h, "hash"@))
}

/// Some blocks row carries this number and hash pair.
pub open spec fn blocks_contain(blocks: Seq<BlockRow>, num: Option<u64>, hash: Option<
    Seq<u8>,
>) -> bool {
    exists|j: int|
        0 <= j < blocks.len() && blocks[j].number == num && opt_bytes_view(#[trigger] blocks[j].hash)
            == hash
}

/// A pair found among some blocks rows is still found after one more row.
pub proof fn lemma_blocks_contain_push(
    blocks: Seq<BlockRow>,
    x: BlockRow,
    num: Option<u64>,
    hash: Option<Seq<u8>>,
)
    requires
        blocks_contain(blocks, num, hash),
    ensures
        blocks_contain(blocks.push(x), num, hash),
{
    let j = choose|j: int|
        0 <= j < blocks.len() && blocks[j].number == num && opt_bytes_view(#[trigger] blocks[j].hash)
            == hash;
    assert(blocks.push(x)[j] == blocks[j]);
}

/// One row of the `transactions` table.  `nonce` and `chain_id` are plain
/// numbers here; the columnar sink widens them to 256-bit columns.
/// Members the service never sends (`logs_bloom`, `root`,
/// `gas_used_for_l1`, `deposit_nonce`, `blob_gas_price`,
/// `deposit_receipt_version`, `blob_gas_used`, `l1_block_number`, `mint`,
/// `source_hash`) stay `None`.
#[derive(Debug, Clone, PartialEq)]
pub struct TxRow {
    pub block_hash: Option<Vec<u8>>,
    pub block_number: Option<u64>,
    pub transaction_index: Option<u64>,
    pub hash: Option<Vec<u8>>,
    pub nonce: Option<u64>,
    pub from: Option<Vec<u8>>,
    pub to: Option<Vec<u8>>,
    pub input: Option<Vec<u8>>,
    pub value: Option<I256>,
    pub gas: Option<I256>,
    pub gas_price: Option<I256>,
    pub max_fee_per_gas: Option<I256>,
    pub max_priority_fee_per_gas: Option<I256>,
    pub v: Option<u8>,
    pub r: Option<Vec<u8>>,
    pub s: Option<Vec<u8>>,
    pub y_parity: Option<bool>,
    pub chain_id: Option<u64>,
    pub sighash: Option<Vec<u8>>,
    pub contract_address: Option<Vec<u8>>,
    pub gas_used: Option<I256>,
    pub cumulative_gas_used: Option<I256>,
    pub effective_gas_price: Option<I256>,
    pub type_: Option<u8>,
    pub status: Option<u8>,
    pub max_fee_per_blob_gas: Option<I256>,
    pub blob_versioned_hashes: Option<Vec<Vec<u8>>>,
    pub l1_fee: Option<I256>,
    pub l1_fee_scalar: Option<I256>,
    pub l1_gas_price: Option<I256>,
    pub l1_gas_used: Option<I256>,
    pub l1_blob_base_fee: Option<I256>,
    pub l1_blob_base_fee_scalar: Option<I256>,
    pub l1_base_fee_scalar: Option<I256>,
    pub logs_bloom: Option<Vec<u8>>,
    pub root: Option<Vec<u8>>,
    pub gas_used_for_l1: Option<I256>,
    pub deposit_nonce: Option<u64>,
    pub blob_gas_price: Option<I256>,
    pub deposit_receipt_version: Option<u64>,
    pub blob_gas_used: Option<I256>,
    pub l1_block_number: Option<u64>,
    pub mint: Option<I256>,
    pub source_hash: Option<Vec<u8>>,
}

/// The `yParity` member as a flag: 0 is false, 1 is true, anything else
/// refuses the row.
pub open spec fn y_parity_field(tx: JsonValue) -> Result<Option<bool>, ErrorKind> {
    match u8_field(tx, "yParity"@) {
        Ok(None) => Ok(None),
        Ok(Some(v)) => if v == 0 {
            Ok(Some(false))
        } else if v == 1 {
            Ok(Some(true))
        } else {
            Err(ErrorKind::Shape)
        },
        Err(k) => Err(k),
    }
}

/// Every member the transactions row reads decodes cleanly.
pub open spec fn tx_row_ok(tx: JsonValue) -> bool {
    &&& u64_field(tx, "transactionIndex"@) is Ok
    &&& hex_field(tx, "hash"@) is Ok
    &&& u64_field(tx, "nonce"@) is Ok
    &&& hex_field(tx, "from"@) is Ok
    &&& hex_field(tx, "to"@) is Ok
    &&& hex_field(tx, "input"@) is Ok
    &&& u256_field(tx, "value"@) is Ok
    &&& u256_field(tx, "gas"@) is Ok
    &&& u256_field(tx, "gasPrice"@) is Ok
    &&& u256_field(tx, "maxFeePerGas"@) is Ok
    &&& u256_field(tx, "maxPriorityFeePerGas"@) is Ok
    &&& u8_hex_field(tx, "v"@) is Ok
    &&& hex_field(tx, "r"@) is Ok
    &&& hex_field(tx, "s"@) is Ok
    &&& y_parity_field(tx) is Ok
    &&& u64_field(tx, "chainId"@) is Ok
    &&& hex_field(tx, "sighash"@) is Ok
    &&& hex_field(tx, "contractAddress"@) is Ok
    &&& u256_field(tx, "gasUsed"@) is Ok
    &&& u256_field(tx, "cumulativeGasUsed"@) is Ok
    &&& u256_field(tx, "effectiveGasPrice"@) is Ok
    &&& u8_field(tx, "type"@) is Ok
    &&& u8_field(tx, "status"@) is Ok
    &&& u256_field(tx, "maxFeePerBlobGas"@) is Ok
    &&& hex_array_field(tx, "blobVersionedHashes"@) is Ok
    &&& u256_field(tx, "l1Fee"@) is Ok
    &&& u256_field(tx, "l1FeeScalar"@) is Ok
    &&& u256_field(tx, "l1GasPrice"@) is Ok
    &&& u256_field(tx, "l1GasUsed"@) is Ok
    &&& u256_field(tx, "l1BlobBaseFee"@) is Ok
    &&& u256_field(tx, "l1BlobBaseFeeScalar"@) is Ok
    &&& u256_field(tx, "l1BaseFeeScalar"@) is Ok
}

/// The transactions row holds exactly what the members decode to.
pub open spec fn tx_row_matches(r: TxRow, tx: JsonValue) -> bool {
    &&& opt_eq(r.transaction_index, u64_field(tx, "transactionIndex"@))
    &&& opt_bytes_is(r.hash, hex_field(tx, "hash"@))
    &&& opt_eq(r.nonce, u64_field(tx, "nonce"@))
    &&& opt_bytes_is(r.from, hex_field(tx, "from"@))
    &&& opt_bytes_is(r.to, hex_field(tx, "to"@))
    &&& opt_bytes_is(r.input, hex_field(tx, "input"@))
    &&& opt_i256_is(r.value, u256_field(tx, "value"@))
    &&& opt_i256_is(r.gas, u256_field(tx, "gas"@))
    &&& opt_i256_is(r.gas_price, u256_field(tx, "gasPrice"@))
    &&& opt_i256_is(r.max_fee_per_gas, u256_field(tx, "maxFeePerGas"@))
    &&& opt_i256_is(r.max_priority_fee_per_gas, u256_field(tx, "maxPriorityFeePerGas"@))
    &&& opt_eq(r.v, u8_hex_field(tx, "v"@))
    &&& opt_bytes_is(r.r, hex_field(tx, "r"@))
    &&& opt_bytes_is(r.s, hex_field(tx, "s"@))
    &&& opt_eq(r.y_parity, y_parity_field(tx))
    &&& opt_eq(r.chain_id, u64_field(tx, "chainId"@))
    &&& opt_bytes_is(r.sighash, hex_field(tx, "sighash"@))
    &&& opt_bytes_is(r.contract_address, hex_field(tx, "contractAddress"@))
    &&& opt_i256_is(r.gas_used, u256_field(tx, "gasUsed"@))
    &&& opt_i256_is(r.cumulative_gas_used, u256_field(tx, "cumulativeGasUsed"@))
    &&& opt_i256_is(r.effective_gas_price, u256_field(tx, "effectiveGasPrice"@))
    &&& opt_eq(r.type_, u8_field(tx, "type"@))
    &&& opt_eq(r.status, u8_field(tx, "status"@))
    &&& opt_i256_is(r.max_fee_per_blob_gas, u256_field(tx, "maxFeePerBlobGas"@))
    &&& opt_vbytes_is(r.blob_versioned_hashes, hex_array_field(tx, "blobVersionedHashes"@))
    &&& opt_i256_is(r.l1_fee, u256_field(tx, "l1Fee"@))
    &&& opt_i256_is(r.l1_fee_scalar, u256_field(tx, "l1FeeScalar"@))
    &&& opt_i256_is(r.l1_gas_price, u256_field(tx, "l1GasPrice"@))
    &&& opt_i256_is(r.l1_gas_used, u256_field(tx, "l1GasUsed"@))
    &&& opt_i256_is(r.l1_blob_base_fee, u256_field(tx, "l1BlobBaseFee"@))
    &&& opt_i256_is(r.l1_blob_base_fee_scalar, u256_field(tx, "l1BlobBaseFeeScalar"@))
    &&& opt_i256_is(r.l1_base_fee_scalar, u256_field(tx, "l1BaseFeeScalar"@))
    &&& r.logs_bloom is None
    &&& r.root is None
    &&& r.gas_used_for_l1 is None
    &&& r.deposit_nonce is None
    &&& r.blob_gas_price is None
    &&& r.deposit_receipt_version is None
    &&& r.blob_gas_used is None
    &&& r.l1_block_number is None
    &&& r.mint is None
    &&& r.source_hash is None
}

/// One row of the `logs` table.  `removed` is never sent for finalized
/// data and stays `None`.  Only the first four topics are kept.
#[derive(Debug, Clone, PartialEq)]
pub struct LogRow {
    pub removed: Option<bool>,
    pub log_index: Option<u64>,
    pub transaction_index: Option<u64>,
    pub transaction_hash: Option<Vec<u8>>,
    pub block_hash: Option<Vec<u8>>,
    pub block_number: Option<u64>,
    pub address: Option<Vec<u8>>,
    pub data: Option<Vec<u8>>,
    pub topic0: Option<Vec<u8>>,
    pub topic1: Option<Vec<u8>>,
    pub topic2: Option<Vec<u8>>,
    pub topic3: Option<Vec<u8>>,
}

/// Topic `i` of a decoded topics array: present only when the array is
/// present and long enough; any topic past the fourth is dropped.
pub open spec fn topic_at(topics: Result<Option<Seq<Seq<u8>>>, ErrorKind>, i: int) -> Option<
    Seq<u8>,
> {
    match topics {
        Ok(Some(ts)) => if i < ts.len() {
            Some(ts[i])
        } else {
            None
        },
        _ => None,
    }
}

/// Every member the logs row reads decodes cleanly.
pub open spec fn log_row_ok(lg: JsonValue) -> bool {
    &&& u64_field(lg, "logIndex"@) is Ok
    &&& u64_field(lg, "transactionIndex"@) is Ok
    &&& hex_field(lg, "transactionHash"@) is Ok
    &&& hex_field(lg, "address"@) is Ok
    &&& hex_field(lg, "data"@) is Ok
    &&& hex_array_field(lg, "topics"@) is Ok
}

/// The logs row holds exactly what the members decode to.
pub open spec fn log_row_matches(r: LogRow, lg: JsonValue) -> bool {
    &&& r.removed is None
    &&& opt_eq(r.log_index, u64_field(lg, "logIndex"@))
    &&& opt_eq(r.transaction_index, u64_field(lg, "transactionIndex"@))
    &&& opt_bytes_is(r.transaction_hash, hex_field(lg, "transactionHash"@))
    &&& opt_bytes_is(r.address, hex_field(lg, "address"@))
    &&& opt_bytes_is(r.data, hex_field(lg, "data"@))
    &&& opt_bytes_view(r.topic0) == topic_at(hex_array_field(lg, "topics"@), 0)
    &&& opt_bytes_view(r.topic1) == topic_at(hex_array_field(lg, "topics"@), 1)
    &&& opt_bytes_view(r.topic2) == topic_at(hex_array_field(lg, "topics"@), 2)
    &&& opt_bytes_view(r.topic3) == topic_at(hex_array_field(lg, "topics"@), 3)
}

/// One row of the `traces` table.  The columns fed from the `action` and
/// `result` sub-objects are all `None` whenever that sub-object is
/// absent, keeping the row count of every column equal.
#[derive(Debug, Clone, PartialEq)]
pub struct TraceRow {
    pub block_hash: Option<Vec<u8>>,
    pub block_number: Option<u64>,
    pub subtraces: Option<u64>,
    pub trace_address: Option<Vec<u64>>,
    pub transaction_hash: Option<Vec<u8>>,
    pub transaction_position: Option<u64>,
    pub type_: Option<String>,
    pub error: Option<String>,
    pub from: Option<Vec<u8>>,
    pub to: Option<Vec<u8>>,
    pub call_type: Option<String>,
    pub gas: Option<I256>,
    pub input: Option<Vec<u8>>,
    pub init: Option<Vec<u8>>,
    pub value: Option<I256>,
    pub author: Option<Vec<u8>>,
    pub reward_type: Option<String>,
    pub sighash: Option<Vec<u8>>,
    pub action_address: Option<Vec<u8>>,
    pub balance: Option<I256>,
    pub refund_address: Option<Vec<u8>>,
    pub address: Option<Vec<u8>>,
    pub code: Option<Vec<u8>>,
    pub gas_used: Option<I256>,
    pub output: Option<Vec<u8>>,
}

/// Every member the traces row reads decodes cleanly, including the
/// optional `action` and `result` sub-objects.
pub open spec fn trace_row_ok(t: JsonValue) -> bool {
    &&& u64_field(t, "transactionIndex"@) is Ok
    &&& u64_array_field(t, "traceAddress"@) is Ok
    &&& string_field(t, "type"@) is Ok
    &&& u64_field(t, "subtraces"@) is Ok
    &&& string_field(t, "error"@) is Ok
    &&& string_field(t, "revertReason"@) is Ok
    &&& match field_of(t, "action"@) {
        None => true,
        Some(a) => {
            &&& a is Obj
            &&& hex_field(a, "from"@) is Ok
            &&& hex_field(a, "to"@) is Ok
            &&& u256_field(a, "value"@) is Ok
            &&& u256_field(a, "gas"@) is Ok
            &&& hex_field(a, "input"@) is Ok
            &&& hex_field(a, "sighash"@) is Ok
            &&& string_field(a, "type"@) is Ok
            &&& hex_field(t, "init"@) is Ok
            &&& hex_field(t, "refundAddress"@) is Ok
            &&& u256_field(t, "balance"@) is Ok
            &&& hex_field(t, "rewardAuthor"@) is Ok
        },
    }
    &&& match field_of(t, "result"@) {
        None => true,
        Some(res) => {
            &&& res is Obj
            &&& u256_field(res, "gasUsed"@) is Ok
            &&& hex_field(res, "code"@) is Ok
            &&& hex_field(res, "address"@) is Ok
            &&& hex_field(res, "output"@) is Ok
        },
    }
}

/// The traces row holds exactly what the members decode to.  The `error`
/// column is the `error` member, or `revertReason` where `error` is
/// absent.
pub open spec fn trace_row_matches(r: TraceRow, t: JsonValue) -> bool {
    &&& r.transaction_hash is None
    &&& opt_eq(r.transaction_position, u64_field(t, "transactionIndex"@))
    &&& opt_vu64_is(r.trace_address, u64_array_field(t, "traceAddress"@))
    &&& opt_string_is(r.type_, string_field(t, "type"@))
    &&& opt_eq(r.subtraces, u64_field(t, "subtraces"@))
    &&& match (string_field(t, "error"@), string_field(t, "revertReason"@)) {
        (Ok(e), Ok(rr)) => opt_string_is(r.error, Ok(or_opt(e, rr))),
        _ => false,
    }
    &&& r.action_address is None
    &&& match field_of(t, "action"@) {
        None => {
            &&& r.from is None
            &&& r.to is None
            &&& r.call_type is None
            &&& r.gas is None
            &&& r.input is None
            &&& r.init is None
            &&& r.value is None
            &&& r.author is None
            &&& r.reward_type is None
            &&& r.sighash is None
            &&& r.balance is None
            &&& r.refund_address is None
        },
        Some(a) => {
            &&& opt_bytes_is(r.from, hex_field(a, "from"@))
            &&& opt_bytes_is(r.to, hex_field(a, "to"@))
            &&& opt_string_is(r.call_type, string_field(a, "type"@))
            &&& opt_i256_is(r.gas, u256_field(a, "gas"@))
            &&& opt_bytes_is(r.input, hex_field(a, "input"@))
            &&& opt_bytes_is(r.init, hex_field(t, "init"@))
            &&& opt_i256_is(r.value, u256_field(a, "value"@))
            &&& opt_bytes_is(r.author, hex_field(t, "rewardAuthor"@))
            &&& opt_string_is(r.reward_type, string_field(t, "type"@))
            &&& opt_bytes_is(r.sighash, hex_field(a, "sighash"@))
            &&& opt_i256_is(r.balance, u256_field(t, "balance"@))
            &&& opt_bytes_is(r.refund_address, hex_field(t, "refundAddress"@))
        },
    }
    &&& match field_of(t, "result"@) {
        None => {
            &&& r.address is None
            &&& r.code is None
            &&& r.gas_used is None
            &&& r.output is None
        },
        Some(res) => {
            &&& opt_bytes_is(r.address, hex_field(res, "address"@))
            &&& opt_bytes_is(r.code, hex_field(res, "code"@))
            &&& opt_i256_is(r.gas_used, u256_field(res, "gasUsed"@))
            &&& opt_bytes_is(r.output, hex_field(res, "output"@))
        },
    }
}

// ---------------------------------------------------------------------------
// The per-block decoder
// ---------------------------------------------------------------------------

/// The child-table array under `key`, or empty where it is absent.
pub open spec fn arr_of(obj: JsonValue, key: Seq<char>) -> Seq<JsonValue> {
    match field_of(obj, key) {
        Some(JsonValue::Arr(a)) => a@,
        _ => Seq::empty(),
    }
}

/// The child-table member under `key` is absent, or an array of objects
/// each of which `elem_ok` accepts.
pub open spec fn tx_objs_ok(obj: JsonValue) -> bool {
    match field_of(obj, "transactions"@) {
        None => true,
        Some(JsonValue::Arr(a)) => forall|i: int|
            0 <= i < a@.len() ==> (#[trigger] a@[i]) is Obj && tx_row_ok(a@[i]),
        Some(_) => false,
    }
}

pub open spec fn log_objs_ok(obj: JsonValue) -> bool {
    match field_of(obj, "logs"@) {
        None => true,
        Some(JsonValue::Arr(a)) => forall|i: int|
            0 <= i < a@.len() ==> (#[trigger] a@[i]) is Obj && log_row_ok(a@[i]),
        Some(_) => false,
    }
}

pub open spec fn trace_objs_ok(obj: JsonValue) -> bool {
    match field_of(obj, "traces"@) {
        None => true,
        Some(JsonValue::Arr(a)) => forall|i: int|
            0 <= i < a@.len() ==> (#[trigger] a@[i]) is Obj && trace_row_ok(a@[i]),
        Some(_) => false,
    }
}

/// One whole block object decodes cleanly: a `header` object whose
/// members decode, and three optional child arrays whose elements all
/// decode.
pub open spec fn evm_block_ok(v: JsonValue) -> bool {
    &&& v is Obj
    &&& match field_of(v, "header"@) {
        Some(h) => h is Obj && block_row_ok(h),
        None => false,
    }
    &&& tx_objs_ok(v)
    &&& log_objs_ok(v)
    &&& trace_objs_ok(v)
}

/// The header object of a block object.
pub open spec fn header_of(v: JsonValue) -> JsonValue {
    field_of(v, "header"@)->Some_0
}

/// Accumulates rows across the block objects of one response.
pub struct ArrowResponseParser {
    pub blocks: Vec<BlockRow>,
    pub transactions: Vec<TxRow>,
    pub logs: Vec<LogRow>,
    pub traces: Vec<TraceRow>,
}

/// The row batches of one decoded response.
#[derive(Debug)]
pub struct ArrowResponse {
    pub blocks: Vec<BlockRow>,
    pub transactions: Vec<TxRow>,
    pub logs: Vec<LogRow>,
    pub traces: Vec<TraceRow>,
}

/// Every child row's `(block_number, block_hash)` pair is the pair of
/// some blocks row.
pub open spec fn response_aligned(r: ArrowResponse) -> bool {
    &&& forall|i: int|
        0 <= i < r.transactions@.len() ==> blocks_contain(
            r.blocks@,
            (#[trigger] r.transactions@[i]).block_number,
            opt_bytes_view(r.transactions@[i].block_hash),
        )
    &&& forall|i: int|
        0 <= i < r.logs@.len() ==> blocks_contain(
            r.blocks@,
            (#[trigger] r.logs@[i]).block_number,
            opt_bytes_view(r.logs@[i].block_hash),
        )
    &&& forall|i: int|
        0 <= i < r.traces@.len() ==> blocks_contain(
            r.blocks@,
            (#[trigger] r.traces@[i]).block_number,
            opt_bytes_view(r.traces@[i].block_hash),
        )
}

/// The number the stream cursor moves to after this response: one past
/// the last blocks row's number.
pub open spec fn spec_next_block(blocks: Seq<BlockRow>) -> Result<u64, ErrorKind> {
    if blocks.len() == 0 {
        Err(ErrorKind::Empty)
    } else {
        match blocks.last().number {
            Some(n) => if n < u64::MAX {
                Ok((n + 1) as u64)
            } else {
                Err(ErrorKind::Range)
            },
            None => Err(ErrorKind::Empty),
        }
    }
}

impl ArrowResponse {
    /// The `from_block` of the next request in a stream: the last block
    /// number seen, plus one.  Fails on a response with no blocks row.
    pub fn next_block(&self) -> (r: Result<u64, Error>)
        ensures
            match spec_next_block(self.blocks@) {
                Ok(v) => r == Ok::<u64, Error>(v),
                Err(k) => r is Err && r->Err_0.kind == k,
            },
    {
        if self.blocks.len() == 0 {
            return Err(Error::new(ErrorKind::Empty, "no blocks in response"));
        }
        match self.blocks[self.blocks.len() - 1].number {
            Some(n) => {
                if n < u64::MAX {
                    Ok(n + 1)
                } else {
                    Err(Error::new(ErrorKind::Range, "block number at the numeric ceiling"))
                }
            },
            None => Err(Error::new(ErrorKind::Empty, "last block has no number")),
        }
    }
}

impl ArrowResponseParser {
    /// Row alignment between the child tables and the blocks table.
    pub open spec fn wf(&self) -> bool {
        &&& forall|i: int|
            0 <= i < self.transactions@.len() ==> blocks_contain(
                self.blocks@,
                (#[trigger] self.transactions@[i]).block_number,
                opt_bytes_view(self.transactions@[i].block_hash),
            )
        &&& forall|i: int|
            0 <= i < self.logs@.len() ==> blocks_contain(
                self.blocks@,
                (#[trigger] self.logs@[i]).block_number,
                opt_bytes_view(self.logs@[i].block_hash),
            )
        &&& forall|i: int|
            0 <= i < self.traces@.len() ==> blocks_contain(
                self.blocks@,
                (#[trigger] self.traces@[i]).block_number,
                opt_bytes_view(self.traces@[i].block_hash),
            )
    }

    /// An empty accumulator.
    pub fn new() -> (r: ArrowResponseParser)
        ensures
            r.blocks@.len() == 0,
            r.transactions@.len() == 0,
            r.logs@.len() == 0,
            r.traces@.len() == 0,
            r.wf(),
    {
        ArrowResponseParser {
            blocks: Vec::new(),
            transactions: Vec::new(),
            logs: Vec::new(),
            traces: Vec::new(),
        }
    }

    /// Move the accumulated rows out as one response.
    pub fn finish(self) -> (r: ArrowResponse)
        ensures
            r.blocks@ == self.blocks@,
            r.transactions@ == self.transactions@,
            r.logs@ == self.logs@,
            r.traces@ == self.traces@,
            self.wf() ==> response_aligned(r),
    {
        ArrowResponse {
            blocks: self.blocks,
            transactions: self.transactions,
            logs: self.logs,
            traces: self.traces,
        }
    }
}

impl ArrowResponseParser {
    /// Decode the `header` object into one blocks row, and hand back the
    /// `(number, hash)` pair that stamps this block's child rows.
    #[verifier::rlimit(50)]
    fn parse_header(&mut self, header: &JsonValue) -> (r: Result<BlockInfo, Error>)
        requires
            header is Obj,
            old(self).wf(),
        ensures
            final(self).wf(),
            final(self).transactions@ == old(self).transactions@,
            final(self).logs@ == old(self).logs@,
            final(self).traces@ == old(self).traces@,
            r is Ok <==> block_row_ok(*header),
            r is Err ==> final(self).blocks@ == old(self).blocks@,
            r is Ok ==> {
                &&& final(self).blocks@.len() == old(self).blocks@.len() + 1
                &&& final(self).blocks@ == old(self).blocks@.push(final(self).blocks@.last())
                &&& block_row_matches(final(self).blocks@.last(), *header)
                &&& block_info_matches(r->Ok_0, *header)
                &&& blocks_contain(
                    final(self).blocks@,
                    r->Ok_0.number,
                    opt_bytes_view(r->Ok_0.hash),
                )
            },
    {
        let number = get_tape_u64(header, "number")?;
        let hash = get_tape_hex(header, "hash")?;
        let parent_hash = get_tape_hex(header, "parentHash")?;
        let timestamp = get_tape_u64(header, "timestamp")?;
        let transactions_root = get_tape_hex(header, "transactionsRoot")?;
        let receipts_root = get_tape_hex(header, "receiptsRoot")?;
        let state_root = get_tape_hex(header, "stateRoot")?;
        let logs_bloom = get_tape_hex(header, "logsBloom")?;
        let sha3_uncles = get_tape_hex(header, "sha3Uncles")?;
        let extra_data = get_tape_hex(header, "extraData")?;
        let miner = get_tape_hex(header, "miner")?;
        let nonce = get_tape_hex(header, "nonce")?;
        let mix_hash = get_tape_hex(header, "mixHash")?;
        let size = get_tape_u64(header, "size")?;
        let gas_limit = get_tape_i256(header, "gasLimit")?;
        let gas_used = get_tape_i256(header, "gasUsed")?;
        let difficulty = get_tape_i256(header, "difficulty")?;
        let total_difficulty = get_tape_i256(header, "totalDifficulty")?;
        let base_fee_per_gas = get_tape_i256(header, "baseFeePerGas")?;
        let blob_gas_used = get_tape_i256(header, "blobGasUsed")?;
        let excess_blob_gas = get_tape_i256(header, "excessBlobGas")?;
        let l1_block_number = get_tape_u64(header, "l1BlockNumber")?;

        let info = BlockInfo { number, hash: clone_opt_bytes(&hash) };

        let row = BlockRow {
            number,
            hash,
            parent_hash,
            nonce,
            sha3_uncles,
            logs_bloom,
            transactions_root,
            state_root,
            receipts_root,
            miner,
            difficulty,
            total_difficulty,
            extra_data,
            size,
            gas_limit,
            gas_used,
            timestamp,
            uncles: None,
            base_fee_per_gas,
            blob_gas_used,
            excess_blob_gas,
            parent_beacon_block_root: None,
            withdrawals_root: None,
            l1_block_number,
            send_count: None,
            send_root: None,
            mix_hash,
        };
        let ghost rowv = row;
        self.blocks.push(row);
        proof {
            let nb = self.blocks@;
            assert(nb == old(self).blocks@.push(rowv));
            assert(nb[nb.len() - 1] == rowv);
            assert(rowv.number == info.number);
            assert(opt_bytes_view(rowv.hash) == opt_bytes_view(info.hash));
            assert(blocks_contain(nb, info.number, opt_bytes_view(info.hash)));
            assert forall|i: int| 0 <= i < self.transactions@.len() implies blocks_contain(
                nb,
                (#[trigger] self.transactions@[i]).block_number,
                opt_bytes_view(self.transactions@[i].block_hash),
            ) by {
                lemma_blocks_contain_push(
                    old(self).blocks@,
                    rowv,
                    self.transactions@[i].block_number,
                    opt_bytes_view(self.transactions@[i].block_hash),
                );
            }
            assert forall|i: int| 0 <= i < self.logs@.len() implies blocks_contain(
                nb,
                (#[trigger] self.logs@[i]).block_number,
                opt_bytes_view(self.logs@[i].block_hash),
            ) by {
                lemma_blocks_contain_push(
                    old(self).blocks@,
                    rowv,
                    self.logs@[i].block_number,
                    opt_bytes_view(self.logs@[i].block_hash),
                );
            }
            assert forall|i: int| 0 <= i < self.traces@.len() implies blocks_contain(
                nb,
                (#[trigger] self.traces@[i]).block_number,
                opt_bytes_view(self.traces@[i].block_hash),
            ) by {
                lemma_blocks_contain_push(
                    old(self).blocks@,
                    rowv,
                    self.traces@[i].block_number,
                    opt_bytes_view(self.traces@[i].block_hash),
                );
            }
        }
        Ok(info)
    }
}

impl ArrowResponseParser {
    /// Decode the optional `transactions` array, appending one row per
    /// element, each stamped with this block's pair.
    #[verifier::rlimit(100)]
    fn parse_transactions(&mut self, block_info: &BlockInfo, obj: &JsonValue) -> (r: Result<
        (),
        Error,
    >)
        requires
            obj is Obj,
            old(self).wf(),
            blocks_contain(
                old(self).blocks@,
                block_info.number,
                opt_bytes_view(block_info.hash),
            ),
        ensures
            final(self).wf(),
            final(self).blocks@ == old(self).blocks@,
            final(self).logs@ == old(self).logs@,
            final(self).traces@ == old(self).traces@,
            r is Ok <==> tx_objs_ok(*obj),
            r is Ok ==> {
                let arr = arr_of(*obj, "transactions"@);
                &&& final(self).transactions@.len() == old(self).transactions@.len() + arr.len()
                &&& forall|j: int|
                    0 <= j < arr.len() ==> {
                        let row = #[trigger] final(self).transactions@[old(
                            self,
                        ).transactions@.len() + j];
                        &&& tx_row_matches(row, arr[j])
                        &&& row.block_number == block_info.number
                        &&& opt_bytes_view(row.block_hash) == opt_bytes_view(block_info.hash)
                    }
            },
    {
        let arr = match obj {
            JsonValue::Obj(fields) => match crate::util::json_obj_get(fields, "transactions") {
                None => { return Ok(()); },
                Some(JsonValue::Null) => { return Ok(()); },
                Some(JsonValue::Arr(a)) => a,
                Some(_) => {
                    return Err(Error::new(ErrorKind::Shape, "transactions as array"));
                },
            },
            _ => { return Err(Error::new(ErrorKind::Shape, "block as object")); },
        };
        let n = arr.len();
        let mut i: usize = 0;
        while i < n
            invariant
                obj is Obj,
                field_of(*obj, "transactions"@) == Some(JsonValue::Arr(*arr)),
                n == arr@.len(),
                i <= n,
                self.blocks@ == old(self).blocks@,
                self.logs@ == old(self).logs@,
                self.traces@ == old(self).traces@,
                self.wf(),
                blocks_contain(self.blocks@, block_info.number, opt_bytes_view(block_info.hash)),
                self.transactions@.len() == old(self).transactions@.len() + i,
                forall|j: int|
                    0 <= j < i ==> (#[trigger] arr@[j]) is Obj && tx_row_ok(arr@[j]),
                forall|j: int|
                    0 <= j < i ==> {
                        let row = #[trigger] self.transactions@[old(self).transactions@.len() + j];
                        &&& tx_row_matches(row, arr@[j])
                        &&& row.block_number == block_info.number
                        &&& opt_bytes_view(row.block_hash) == opt_bytes_view(block_info.hash)
                    },
            decreases n - i,
        {
            let tx = &arr[i];
            match tx {
                JsonValue::Obj(_) => {},
                _ => { return Err(Error::new(ErrorKind::Shape, "transaction as object")); },
            }
            let transaction_index = get_tape_u64(tx, "transactionIndex")?;
            let hash = get_tape_hex(tx, "hash")?;
            let nonce = get_tape_u64(tx, "nonce")?;
            let from = get_tape_hex(tx, "from")?;
            let to = get_tape_hex(tx, "to")?;
            let input = get_tape_hex(tx, "input")?;
            let value = get_tape_i256(tx, "value")?;
            let gas = get_tape_i256(tx, "gas")?;
            let gas_price = get_tape_i256(tx, "gasPrice")?;
            let max_fee_per_gas = get_tape_i256(tx, "maxFeePerGas")?;
            let max_priority_fee_per_gas = get_tape_i256(tx, "maxPriorityFeePerGas")?;
            let v = get_tape_u8_hex(tx, "v")?;
            let sig_r = get_tape_hex(tx, "r")?;
            let sig_s = get_tape_hex(tx, "s")?;
            let y_parity_raw = get_tape_u8(tx, "yParity")?;
            let chain_id = get_tape_u64(tx, "chainId")?;
            let sighash = get_tape_hex(tx, "sighash")?;
            let contract_address = get_tape_hex(tx, "contractAddress")?;
            let gas_used = get_tape_i256(tx, "gasUsed")?;
            let cumulative_gas_used = get_tape_i256(tx, "cumulativeGasUsed")?;
            let effective_gas_price = get_tape_i256(tx, "effectiveGasPrice")?;
            let type_ = get_tape_u8(tx, "type")?;
            let status = get_tape_u8(tx, "status")?;
            let max_fee_per_blob_gas = get_tape_i256(tx, "maxFeePerBlobGas")?;
            let blob_versioned_hashes = get_tape_array_of_hex(tx, "blobVersionedHashes")?;
            let l1_fee = get_tape_i256(tx, "l1Fee")?;
            let l1_fee_scalar = get_tape_i256(tx, "l1FeeScalar")?;
            let l1_gas_price = get_tape_i256(tx, "l1GasPrice")?;
            let l1_gas_used = get_tape_i256(tx, "l1GasUsed")?;
            let l1_blob_base_fee = get_tape_i256(tx, "l1BlobBaseFee")?;
            let l1_blob_base_fee_scalar = get_tape_i256(tx, "l1BlobBaseFeeScalar")?;
            let l1_base_fee_scalar = get_tape_i256(tx, "l1BaseFeeScalar")?;

            let y_parity = match y_parity_raw {
                None => None,
                Some(0) => Some(false),
                Some(1) => Some(true),
                Some(_) => {
                    return Err(Error::new(ErrorKind::Shape, "yParity out of range"));
                },
            };

            let row = TxRow {
                block_hash: clone_opt_bytes(&block_info.hash),
                block_number: block_info.number,
                transaction_index,
                hash,
                nonce,
                from,
                to,
                input,
                value,
                gas,
                gas_price,
                max_fee_per_gas,
                max_priority_fee_per_gas,
                v,
                r: sig_r,
                s: sig_s,
                y_parity,
                chain_id,
                sighash,
                contract_address,
                gas_used,
                cumulative_gas_used,
                effective_gas_price,
                type_,
                status,
                max_fee_per_blob_gas,
                blob_versioned_hashes,
                l1_fee,
                l1_fee_scalar,
                l1_gas_price,
                l1_gas_used,
                l1_blob_base_fee,
                l1_blob_base_fee_scalar,
                l1_base_fee_scalar,
                logs_bloom: None,
                root: None,
                gas_used_for_l1: None,
                deposit_nonce: None,
                blob_gas_price: None,
                deposit_receipt_version: None,
                blob_gas_used: None,
                l1_block_number: None,
                mint: None,
                source_hash: None,
            };
            let ghost rowv = row;
            self.transactions.push(row);
            proof {
                assert(self.transactions@[old(self).transactions@.len() + i] == rowv);
                assert(tx_row_matches(rowv, arr@[i as int]));
            }
            i += 1;
        }
        proof {
            assert(tx_objs_ok(*obj));
        }
        Ok(())
    }
}

impl ArrowResponseParser {
    /// Decode the optional `logs` array, appending one row per element;
    /// topics past the fourth are dropped.
    #[verifier::rlimit(100)]
    fn parse_logs(&mut self, block_info: &BlockInfo, obj: &JsonValue) -> (r: Result<(), Error>)
        requires
            obj is Obj,
            old(self).wf(),
            blocks_contain(
                old(self).blocks@,
                block_info.number,
                opt_bytes_view(block_info.hash),
            ),
        ensures
            final(self).wf(),
            final(self).blocks@ == old(self).blocks@,
            final(self).transactions@ == old(self).transactions@,
            final(self).traces@ == old(self).traces@,
            r is Ok <==> log_objs_ok(*obj),
            r is Ok ==> {
                let arr = arr_of(*obj, "logs"@);
                &&& final(self).logs@.len() == old(self).logs@.len() + arr.len()
                &&& forall|j: int|
                    0 <= j < arr.len() ==> {
                        let row = #[trigger] final(self).logs@[old(self).logs@.len() + j];
                        &&& log_row_matches(row, arr[j])
                        &&& row.block_number == block_info.number
                        &&& opt_bytes_view(row.block_hash) == opt_bytes_view(block_info.hash)
                    }
            },
    {
        let arr = match obj {
            JsonValue::Obj(fields) => match crate::util::json_obj_get(fields, "logs") {
                None => { return Ok(()); },
                Some(JsonValue::Null) => { return Ok(()); },
                Some(JsonValue::Arr(a)) => a,
                Some(_) => {
                    return Err(Error::new(ErrorKind::Shape, "logs as array"));
                },
            },
            _ => { return Err(Error::new(ErrorKind::Shape, "block as object")); },
        };
        let n = arr.len();
        let mut i: usize = 0;
        while i < n
            invariant
                obj is Obj,
                field_of(*obj, "logs"@) == Some(JsonValue::Arr(*arr)),
                n == arr@.len(),
                i <= n,
                self.blocks@ == old(self).blocks@,
                self.transactions@ == old(self).transactions@,
                self.traces@ == old(self).traces@,
                self.wf(),
                blocks_contain(self.blocks@, block_info.number, opt_bytes_view(block_info.hash)),
                self.logs@.len() == old(self).logs@.len() + i,
                forall|j: int| 0 <= j < i ==> (#[trigger] arr@[j]) is Obj && log_row_ok(arr@[j]),
                forall|j: int|
                    0 <= j < i ==> {
                        let row = #[trigger] self.logs@[old(self).logs@.len() + j];
                        &&& log_row_matches(row, arr@[j])
                        &&& row.block_number == block_info.number
                        &&& opt_bytes_view(row.block_hash) == opt_bytes_view(block_info.hash)
                    },
            decreases n - i,
        {
            let lg = &arr[i];
            match lg {
                JsonValue::Obj(_) => {},
                _ => { return Err(Error::new(ErrorKind::Shape, "log as object")); },
            }
            let log_index = get_tape_u64(lg, "logIndex")?;
            let transaction_index = get_tape_u64(lg, "transactionIndex")?;
            let transaction_hash = get_tape_hex(lg, "transactionHash")?;
            let address = get_tape_hex(lg, "address")?;
            let data = get_tape_hex(lg, "data")?;
            let topics = get_tape_array_of_hex(lg, "topics")?;

            let mut topic0: Option<Vec<u8>> = None;
            let mut topic1: Option<Vec<u8>> = None;
            let mut topic2: Option<Vec<u8>> = None;
            let mut topic3: Option<Vec<u8>> = None;
            match &topics {
                None => {},
                Some(ts) => {
                    proof {
                        assert forall|k: int| 0 <= k < ts@.len() implies ts.deep_view()[k]
                            =~= ts@[k]@ by {
                            assert(ts.deep_view()[k] == ts@[k].deep_view());
                        }
                    }
                    if ts.len() > 0 {
                        topic0 = Some(clone_bytes(&ts[0]));
                    }
                    if ts.len() > 1 {
                        topic1 = Some(clone_bytes(&ts[1]));
                    }
                    if ts.len() > 2 {
                        topic2 = Some(clone_bytes(&ts[2]));
                    }
                    if ts.len() > 3 {
                        topic3 = Some(clone_bytes(&ts[3]));
                    }
                },
            }

            let row = LogRow {
                removed: None,
                log_index,
                transaction_index,
                transaction_hash,
                block_hash: clone_opt_bytes(&block_info.hash),
                block_number: block_info.number,
                address,
                data,
                topic0,
                topic1,
                topic2,
                topic3,
            };
            let ghost rowv = row;
            self.logs.push(row);
            proof {
                assert(self.logs@[old(self).logs@.len() + i] == rowv);
                assert(log_row_matches(rowv, arr@[i as int]));
            }
            i += 1;
        }
        proof {
            assert(log_objs_ok(*obj));
        }
        Ok(())
    }

    /// Decode the optional `traces` array, appending one row per
    /// element.  Columns fed from an absent `action` or `result`
    /// sub-object are appended as `None`, keeping every column the same
    /// length.
    #[verifier::rlimit(100)]
    fn parse_traces(&mut self, block_info: &BlockInfo, obj: &JsonValue) -> (r: Result<(), Error>)
        requires
            obj is Obj,
            old(self).wf(),
            blocks_contain(
                old(self).blocks@,
                block_info.number,
                opt_bytes_view(block_info.hash),
            ),
        ensures
            final(self).wf(),
            final(self).blocks@ == old(self).blocks@,
            final(self).transactions@ == old(self).transactions@,
            final(self).logs@ == old(self).logs@,
            r is Ok <==> trace_objs_ok(*obj),
            r is Ok ==> {
                let arr = arr_of(*obj, "traces"@);
                &&& final(self).traces@.len() == old(self).traces@.len() + arr.len()
                &&& forall|j: int|
                    0 <= j < arr.len() ==> {
                        let row = #[trigger] final(self).traces@[old(self).traces@.len() + j];
                        &&& trace_row_matches(row, arr[j])
                        &&& row.block_number == block_info.number
                        &&& opt_bytes_view(row.block_hash) == opt_bytes_view(block_info.hash)
                    }
            },
    {
        let arr = match obj {
            JsonValue::Obj(fields) => match crate::util::json_obj_get(fields, "traces") {
                None => { return Ok(()); },
                Some(JsonValue::Null) => { return Ok(()); },
                Some(JsonValue::Arr(a)) => a,
                Some(_) => {
                    return Err(Error::new(ErrorKind::Shape, "traces as array"));
                },
            },
            _ => { return Err(Error::new(ErrorKind::Shape, "block as object")); },
        };
        let n = arr.len();
        let mut i: usize = 0;
        while i < n
            invariant
                obj is Obj,
                field_of(*obj, "traces"@) == Some(JsonValue::Arr(*arr)),
                n == arr@.len(),
                i <= n,
                self.blocks@ == old(self).blocks@,
                self.transactions@ == old(self).transactions@,
                self.logs@ == old(self).logs@,
                self.wf(),
                blocks_contain(self.blocks@, block_info.number, opt_bytes_view(block_info.hash)),
                self.traces@.len() == old(self).traces@.len() + i,
                forall|j: int|
                    0 <= j < i ==> (#[trigger] arr@[j]) is Obj && trace_row_ok(arr@[j]),
                forall|j: int|
                    0 <= j < i ==> {
                        let row = #[trigger] self.traces@[old(self).traces@.len() + j];
                        &&& trace_row_matches(row, arr@[j])
                        &&& row.block_number == block_info.number
                        &&& opt_bytes_view(row.block_hash) == opt_bytes_view(block_info.hash)
                    },
            decreases n - i,
        {
            let t = &arr[i];
            let t_fields = match t {
                JsonValue::Obj(fields) => fields,
                _ => { return Err(Error::new(ErrorKind::Shape, "trace as object")); },
            };
            let transaction_index = get_tape_u64(t, "transactionIndex")?;
            let trace_address = get_tape_array_of_u64(t, "traceAddress")?;
            let type_ = get_tape_string(t, "type")?;
            let subtraces = get_tape_u64(t, "subtraces")?;
            let error = get_tape_string(t, "error")?;
            let revert_reason = get_tape_string(t, "revertReason")?;
            let error_col = match error {
                Some(e) => Some(e),
                None => revert_reason,
            };

            let action = match crate::util::json_obj_get(t_fields, "action") {
                Some(JsonValue::Null) => None,
                other => other,
            };
            let mut from: Option<Vec<u8>> = None;
            let mut to: Option<Vec<u8>> = None;
            let mut call_type: Option<String> = None;
            let mut gas: Option<I256> = None;
            let mut input: Option<Vec<u8>> = None;
            let mut init: Option<Vec<u8>> = None;
            let mut value: Option<I256> = None;
            let mut author: Option<Vec<u8>> = None;
            let mut reward_type: Option<String> = None;
            let mut sighash: Option<Vec<u8>> = None;
            let mut balance: Option<I256> = None;
            let mut refund_address: Option<Vec<u8>> = None;
            match action {
                None => {},
                Some(a) => {
                    match a {
                        JsonValue::Obj(_) => {},
                        _ => {
                            return Err(Error::new(ErrorKind::Shape, "trace action as object"));
                        },
                    }
                    from = get_tape_hex(a, "from")?;
                    to = get_tape_hex(a, "to")?;
                    value = get_tape_i256(a, "value")?;
                    gas = get_tape_i256(a, "gas")?;
                    input = get_tape_hex(a, "input")?;
                    sighash = get_tape_hex(a, "sighash")?;
                    call_type = get_tape_string(a, "type")?;
                    init = get_tape_hex(t, "init")?;
                    refund_address = get_tape_hex(t, "refundAddress")?;
                    balance = get_tape_i256(t, "balance")?;
                    author = get_tape_hex(t, "rewardAuthor")?;
                    reward_type = get_tape_string(t, "type")?;
                },
            }

            let result = match crate::util::json_obj_get(t_fields, "result") {
                Some(JsonValue::Null) => None,
                other => other,
            };
            let mut address: Option<Vec<u8>> = None;
            let mut code: Option<Vec<u8>> = None;
            let mut gas_used: Option<I256> = None;
            let mut output: Option<Vec<u8>> = None;
            match result {
                None => {},
                Some(res) => {
                    match res {
                        JsonValue::Obj(_) => {},
                        _ => {
                            return Err(Error::new(ErrorKind::Shape, "trace result as object"));
                        },
                    }
                    gas_used = get_tape_i256(res, "gasUsed")?;
                    code = get_tape_hex(res, "code")?;
                    address = get_tape_hex(res, "address")?;
                    output = get_tape_hex(res, "output")?;
                },
            }

            let row = TraceRow {
                block_hash: clone_opt_bytes(&block_info.hash),
                block_number: block_info.number,
                subtraces,
                trace_address,
                transaction_hash: None,
                transaction_position: transaction_index,
                type_,
                error: error_col,
                from,
                to,
                call_type,
                gas,
                input,
                init,
                value,
                author,
                reward_type,
                sighash,
                action_address: None,
                balance,
                refund_address,
                address,
                code,
                gas_used,
                output,
            };
            let ghost rowv = row;
            self.traces.push(row);
            proof {
                assert(self.traces@[old(self).traces@.len() + i] == rowv);
                assert(trace_row_matches(rowv, arr@[i as int]));
            }
            i += 1;
        }
        proof {
            assert(trace_objs_ok(*obj));
        }
        Ok(())
    }
}

impl ArrowResponseParser {
    /// Decode one block object: its required `header` into one blocks
    /// row, then the optional `transactions`, `logs` and `traces` arrays
    /// into child rows stamped with the header's `(number, hash)` pair.
    /// The accumulator may take many block objects before `finish`.
    #[verifier::rlimit(100)]
    pub fn parse_tape(&mut self, tape: &JsonValue) -> (r: Result<(), Error>)
        requires
            old(self).wf(),
        ensures
            final(self).wf(),
            r is Ok <==> evm_block_ok(*tape),
            r is Ok ==> ({
                let h = header_of(*tape);
                let txs = arr_of(*tape, "transactions"@);
                let lgs = arr_of(*tape, "logs"@);
                let trs = arr_of(*tape, "traces"@);
                &&& final(self).blocks@.len() == old(self).blocks@.len() + 1
                &&& final(self).blocks@ == old(self).blocks@.push(final(self).blocks@.last())
                &&& block_row_matches(final(self).blocks@.last(), h)
                &&& final(self).transactions@.len() == old(self).transactions@.len() + txs.len()
                &&& forall|j: int|
                    0 <= j < txs.len() ==> {
                        let row = #[trigger] final(self).transactions@[old(
                            self,
                        ).transactions@.len() + j];
                        &&& tx_row_matches(row, txs[j])
                        &&& row.block_number == u64_field(h, "number"@)->Ok_0
                        &&& opt_bytes_view(row.block_hash) == hex_field(h, "hash"@)->Ok_0
                    }
                &&& final(self).logs@.len() == old(self).logs@.len() + lgs.len()
                &&& forall|j: int|
                    0 <= j < lgs.len() ==> {
                        let row = #[trigger] final(self).logs@[old(self).logs@.len() + j];
                        &&& log_row_matches(row, lgs[j])
                        &&& row.block_number == u64_field(h, "number"@)->Ok_0
                        &&& opt_bytes_view(row.block_hash) == hex_field(h, "hash"@)->Ok_0
                    }
                &&& final(self).traces@.len() == old(self).traces@.len() + trs.len()
                &&& forall|j: int|
                    0 <= j < trs.len() ==> {
                        let row = #[trigger] final(self).traces@[old(self).traces@.len() + j];
                        &&& trace_row_matches(row, trs[j])
                        &&& row.block_number == u64_field(h, "number"@)->Ok_0
                        &&& opt_bytes_view(row.block_hash) == hex_field(h, "hash"@)->Ok_0
                    }
            }),
    {
        let fields = match tape {
            JsonValue::Obj(f) => f,
            _ => { return Err(Error::new(ErrorKind::Shape, "tape as object")); },
        };
        let header = match crate::util::json_obj_get(fields, "header") {
            None => { return Err(Error::new(ErrorKind::MissingHeader, "get header")); },
            Some(JsonValue::Null) => {
                return Err(Error::new(ErrorKind::MissingHeader, "get header"));
            },
            Some(h) => h,
        };
        match header {
            JsonValue::Obj(_) => {},
            _ => { return Err(Error::new(ErrorKind::Shape, "header as object")); },
        }
        let block_info = self.parse_header(header)?;
        self.parse_transactions(&block_info, tape)?;
        self.parse_logs(&block_info, tape)?;
        self.parse_traces(&block_info, tape)?;
        Ok(())
    }
}

/// Row alignment: in a well-formed accumulation, every row of
/// `transactions`, `logs` and `traces` carries the `(number, hash)` pair
/// of one of the rows of `blocks`.  The decoder establishes `wf` when
/// empty and keeps it across every `parse_tape` call, whether or not the
/// call succeeds.
pub proof fn lemma_row_alignment(p: ArrowResponseParser)
    requires
        p.wf(),
    ensures
        forall|i: int|
            0 <= i < p.transactions@.len() ==> blocks_contain(
                p.blocks@,
                (#[trigger] p.transactions@[i]).block_number,
                opt_bytes_view(p.transactions@[i].block_hash),
            ),
        forall|i: int|
            0 <= i < p.logs@.len() ==> blocks_contain(
                p.blocks@,
                (#[trigger] p.logs@[i]).block_number,
                opt_bytes_view(p.logs@[i].block_hash),
            ),
        forall|i: int|
            0 <= i < p.traces@.len() ==> blocks_contain(
                p.blocks@,
                (#[trigger] p.traces@[i]).block_number,
                opt_bytes_view(p.traces@[i].block_hash),
            ),
{
}

impl Default for ArrowResponseParser {
    /// An empty accumulator.
    fn default() -> (r: ArrowResponseParser)
        ensures
            r.blocks@.len() == 0,
            r.transactions@.len() == 0,
            r.logs@.len() == 0,
            r.traces@.len() == 0,
            r.wf(),
    {
        ArrowResponseParser::new()
    }
}

} // verus!
