//! The Solana dialect: the block decoder that turns one JSON slot object
//! into typed rows for seven tables, and the row batches a query yields.
//!
//! Every child row is stamped with the `slot` and `hash` of the header
//! it came from, as the EVM tables are stamped with number and hash.

use vstd::prelude::*;
use vstd::string::StringSliceAdditionalSpecFns;
use vstd::utf8::encode_utf8;
use crate::json::{JsonValue, field_of, u64_field, u32_field, u16_field, u8_field, i64_field,
    bool_field, string_field, hex_field, bigint_field, version_field, u64_array_field,
    u32_array_field, spec_encode, u64_items, u32_items, has_key, str_arr_member, bool_member,
    str_arr_read, str_views, str_seq_is, obj_lookup};
use crate::util::{opt_bytes_view, opt_eq, opt_bytes_is, opt_string_is, opt_vu64_is, opt_vu32_is,
    opt_vbytes_is, clone_bytes, clone_opt_bytes, json_obj_get, get_tape_u64, get_tape_u32,
    get_tape_u16, get_tape_u8, get_tape_i64, get_tape_bool, get_tape_string, get_tape_hex,
    get_tape_bigint, get_tape_version, get_tape_json_string, get_tape_array_of_u64,
    get_tape_array_of_u32, put_member, put_str_arr, read_str_arr, read_bool};
use crate::{Error, ErrorKind};

verus! {

// ---------------------------------------------------------------------------
// Base58
// ---------------------------------------------------------------------------

/// The value of one byte of base58 text over the Bitcoin alphabet
/// (digits and letters, with `0`, `O`, `I` and `l` left out).
pub open spec fn b58_val(b: u8) -> Option<u8> {
    if 49 <= b <= 57 {
        Some((b - 49) as u8)
    } else if 65 <= b <= 72 {
        Some((b - 56) as u8)
    } else if 74 <= b <= 78 {
        Some((b - 57) as u8)
    } else if 80 <= b <= 90 {
        Some((b - 58) as u8)
    } else if 97 <= b <= 107 {
        Some((b - 64) as u8)
    } else if 109 <= b <= 122 {
        Some((b - 65) as u8)
    } else {
        None
    }
}

/// The value of base58 text, read as one base-58 number.
pub open spec fn b58_nat(s: Seq<u8>) -> nat
    decreases s.len(),
{
    if s.len() == 0 {
        0
    } else {
        (b58_nat(s.drop_last()) * 58 + (match b58_val(s.last()) {
            Some(v) => v as int,
            None => 0,
        })) as nat
    }
}

/// How many leading `1` digits the text has; each stands for one zero
/// byte.
pub open spec fn b58_leading_zeros(s: Seq<u8>) -> nat
    decreases s.len(),
{
    if s.len() == 0 {
        0
    } else if s[0] == 49 {
        1 + b58_leading_zeros(s.drop_first())
    } else {
        0
    }
}

/// The shortest big-endian byte string with value `n`.
pub open spec fn min_be(n: nat) -> Seq<u8>
    decreases n,
{
    if n == 0 {
        Seq::empty()
    } else {
        min_be(n / 256).push((n % 256) as u8)
    }
}

/// Base58 text decoded: one zero byte per leading `1`, then the value's
/// shortest big-endian form.  Any byte outside the alphabet refuses the
/// text.
pub open spec fn spec_base58_decode(s: Seq<u8>) -> Option<Seq<u8>> {
    if forall|i: int| 0 <= i < s.len() ==> b58_val(#[trigger] s[i]) is Some {
        Some(Seq::new(b58_leading_zeros(s), |i: int| 0u8) + min_be(b58_nat(s)))
    } else {
        None
    }
}

/// Relies on bs58's decoder over the Bitcoin alphabet: the decoded bytes
/// are one zero byte per leading `1` digit followed by the shortest
/// big-endian form of the base-58 value, and decoding fails exactly on a
/// byte outside the alphabet.
#[verifier::external_body]
fn bs58_decode_vec(data: &str) -> (r: Result<Vec<u8>, ()>)
    ensures
        match spec_base58_decode(data.spec_bytes()) {
            Some(b) => r is Ok && r->Ok_0@ == b,
            None => r is Err,
        },
{
    bs58::decode(data).with_alphabet(bs58::Alphabet::BITCOIN).into_vec().map_err(|_e| ())
}

/// Decode base58 text over the Bitcoin alphabet.
pub fn decode_base58(data: &str) -> (r: Result<Vec<u8>, Error>)
    ensures
        match spec_base58_decode(data.spec_bytes()) {
            Some(b) => r is Ok && r->Ok_0@ == b,
            None => r is Err && r->Err_0.kind == ErrorKind::Codec,
        },
{
    match bs58_decode_vec(data) {
        Ok(v) => Ok(v),
        Err(_) => Err(Error::new(ErrorKind::Codec, "base58 decode")),
    }
}

// ---------------------------------------------------------------------------
// Readers for base58 members
// ---------------------------------------------------------------------------

pub open spec fn b58_field(obj: JsonValue, key: Seq<char>) -> Result<Option<Seq<u8>>, ErrorKind> {
    match field_of(obj, key) {
        None => Ok(None),
        Some(JsonValue::Str(s)) => match spec_base58_decode(encode_utf8(s@)) {
            Some(b) => Ok(Some(b)),
            None => Err(ErrorKind::Codec),
        },
        Some(_) => Err(ErrorKind::Shape),
    }
}

pub open spec fn b58_items(a: Seq<JsonValue>) -> Result<Seq<Seq<u8>>, ErrorKind>
    decreases a.len(),
{
    if a.len() == 0 {
        Ok(Seq::empty())
    } else {
        match b58_items(a.drop_last()) {
            Ok(init) => match a.last() {
                JsonValue::Str(s) => match spec_base58_decode(encode_utf8(s@)) {
                    Some(b) => Ok(init.push(b)),
                    None => Err(ErrorKind::Codec),
                },
                _ => Err(ErrorKind::Shape),
            },
            Err(k) => Err(k),
        }
    }
}

pub open spec fn b58_array_field(obj: JsonValue, key: Seq<char>) -> Result<
    Option<Seq<Seq<u8>>>,
    ErrorKind,
> {
    match field_of(obj, key) {
        None => Ok(None),
        Some(JsonValue::Arr(a)) => match b58_items(a@) {
            Ok(items) => Ok(Some(items)),
            Err(k) => Err(k),
        },
        Some(_) => Err(ErrorKind::Shape),
    }
}

pub fn get_tape_base58(obj: &JsonValue, name: &str) -> (r: Result<Option<Vec<u8>>, Error>)
    requires
        obj is Obj,
    ensures
        match b58_field(*obj, name@) {
            Ok(None) => r matches Ok(o) && o is None,
            Ok(Some(bs)) => r matches Ok(o) && o matches Some(v) && v@ == bs,
            Err(k) => r is Err && r->Err_0.kind == k,
        },
{
    match obj {
        JsonValue::Obj(fields) => match json_obj_get(fields, name) {
            None => Ok(None),
            Some(JsonValue::Null) => Ok(None),
            Some(JsonValue::Str(s)) => match decode_base58(s.as_str()) {
                Ok(v) => Ok(Some(v)),
                Err(e) => Err(e.context(name)),
            },
            Some(_) => Err(Error::new(ErrorKind::Shape, name)),
        },
        _ => Err(Error::new(ErrorKind::Shape, name)),
    }
}

/// Once a prefix fails, the whole array fails with the same kind.
proof fn lemma_b58_items_prefix_err(a: Seq<JsonValue>, k: int)
    requires
        0 <= k <= a.len(),
        b58_items(a.take(k)) is Err,
    ensures
        b58_items(a) is Err,
        b58_items(a) == b58_items(a.take(k)),
    decreases a.len() - k,
{
    if k < a.len() {
        assert(a.take(k + 1).drop_last() =~= a.take(k));
        lemma_b58_items_prefix_err(a, k + 1);
    } else {
        assert(a.take(k) =~= a);
    }
}

pub fn get_tape_array_of_base58(obj: &JsonValue, name: &str) -> (r: Result<
    Option<Vec<Vec<u8>>>,
    Error,
>)
    requires
        obj is Obj,
    ensures
        match b58_array_field(*obj, name@) {
            Ok(None) => r matches Ok(o) && o is None,
            Ok(Some(items)) => r matches Ok(o) && o matches Some(v) && v.deep_view() == items,
            Err(k) => r is Err && r->Err_0.kind == k,
        },
{
    let arr = match obj {
        JsonValue::Obj(fields) => match json_obj_get(fields, name) {
            None => { return Ok(None); },
            Some(JsonValue::Null) => { return Ok(None); },
            Some(JsonValue::Arr(a)) => a,
            Some(_) => { return Err(Error::new(ErrorKind::Shape, name)); },
        },
        _ => { return Err(Error::new(ErrorKind::Shape, name)); },
    };
    let n = arr.len();
    let mut out: Vec<Vec<u8>> = Vec::new();
    let mut i: usize = 0;
    proof {
        assert(arr@.take(0) =~= Seq::<JsonValue>::empty());
        assert(out.deep_view() =~= Seq::<Seq<u8>>::empty());
    }
    while i < n
        invariant
            n == arr@.len(),
            i <= n,
            field_of(*obj, name@) == Some(JsonValue::Arr(*arr)),
            b58_items(arr@.take(i as int)) is Ok,
            b58_items(arr@.take(i as int))->Ok_0 == out.deep_view(),
        decreases n - i,
    {
        proof {
            assert(arr@.take(i + 1).drop_last() =~= arr@.take(i as int));
            assert(arr@.take(i + 1).last() == arr@[i as int]);
        }
        match &arr[i] {
            JsonValue::Str(s) => match decode_base58(s.as_str()) {
                Ok(v) => {
                    let ghost prev = out.deep_view();
                    out.push(v);
                    proof {
                        assert(out.deep_view() =~~= prev.push(v@));
                    }
                },
                Err(e) => {
                    proof {
                        lemma_b58_items_prefix_err(arr@, i as int + 1);
                    }
                    return Err(e.context(name));
                },
            },
            _ => {
                proof {
                    lemma_b58_items_prefix_err(arr@, i as int + 1);
                }
                return Err(Error::new(ErrorKind::Shape, name));
            },
        }
        i += 1;
    }
    proof {
        assert(arr@.take(n as int) =~= arr@);
    }
    Ok(Some(out))
}


// ---------------------------------------------------------------------------
// The query model
// ---------------------------------------------------------------------------

/// What a Solana query asks for: a slot range, per-entity filter
/// predicates, and per-entity field masks.
#[derive(Debug, Clone, PartialEq)]
pub struct Query {
    pub type_: QueryType,
    pub from_block: u64,
    pub to_block: Option<u64>,
    pub include_all_blocks: bool,
    pub fields: Fields,
    pub instructions: Vec<InstructionRequest>,
    pub transactions: Vec<TransactionRequest>,
    pub logs: Vec<LogRequest>,
    pub balances: Vec<BalanceRequest>,
    pub token_balances: Vec<TokenBalanceRequest>,
    pub rewards: Vec<RewardRequest>,
}

#[derive(Debug, Clone, Copy, PartialEq, Eq, Structural)]
pub enum QueryType {
    Solana,
}

impl Default for QueryType {
    fn default() -> (r: QueryType)
        ensures
            r == QueryType::Solana,
    {
        QueryType::Solana
    }
}

impl Default for Query {
    fn default() -> (r: Query)
        ensures
            r.type_ == QueryType::Solana,
            r.from_block == 0,
            r.to_block is None,
            r.include_all_blocks == false,
            r.fields == Fields::default_spec(),
            r.instructions@.len() == 0,
            r.transactions@.len() == 0,
            r.logs@.len() == 0,
            r.balances@.len() == 0,
            r.token_balances@.len() == 0,
            r.rewards@.len() == 0,
    {
        Query {
            type_: QueryType::Solana,
            from_block: 0,
            to_block: None,
            include_all_blocks: false,
            fields: Fields::default(),
            instructions: Vec::new(),
            transactions: Vec::new(),
            logs: Vec::new(),
            balances: Vec::new(),
            token_balances: Vec::new(),
            rewards: Vec::new(),
        }
    }
}


/// A filter over `instruction` rows; the flags pull related rows in.
#[derive(Debug, Clone, PartialEq, Default)]
pub struct InstructionRequest {
    pub program_id: Vec<String>,
    pub d1: Vec<String>,
    pub d2: Vec<String>,
    pub d3: Vec<String>,
    pub d4: Vec<String>,
    pub d8: Vec<String>,
    pub a0: Vec<String>,
    pub a1: Vec<String>,
    pub a2: Vec<String>,
    pub a3: Vec<String>,
    pub a4: Vec<String>,
    pub a5: Vec<String>,
    pub a6: Vec<String>,
    pub a7: Vec<String>,
    pub a8: Vec<String>,
    pub a9: Vec<String>,
    pub is_committed: bool,
    pub transaction: bool,
    pub transaction_token_balances: bool,
    pub logs: bool,
    pub inner_instructions: bool,
}


/// A filter over `transaction` rows; the flags pull related rows in.
#[derive(Debug, Clone, PartialEq, Default)]
pub struct TransactionRequest {
    pub fee_payer: Vec<String>,
    pub instructions: bool,
    pub logs: bool,
}


/// A filter over `log` rows; the flags pull related rows in.
#[derive(Debug, Clone, PartialEq, Default)]
pub struct LogRequest {
    pub program_id: Vec<String>,
    pub kind: Vec<String>,
    pub transaction: bool,
    pub instruction: bool,
}


/// A filter over `balance` rows; the flags pull related rows in.
#[derive(Debug, Clone, PartialEq, Default)]
pub struct BalanceRequest {
    pub account: Vec<String>,
    pub transaction: bool,
    pub transaction_instructions: bool,
}


/// A filter over `tokenbalance` rows; the flags pull related rows in.
#[derive(Debug, Clone, PartialEq, Default)]
pub struct TokenBalanceRequest {
    pub account: Vec<String>,
    pub pre_program_id: Vec<String>,
    pub post_program_id: Vec<String>,
    pub pre_mint: Vec<String>,
    pub post_mint: Vec<String>,
    pub pre_owner: Vec<String>,
    pub post_owner: Vec<String>,
    pub transaction: bool,
    pub transaction_instructions: bool,
}


/// A filter over `reward` rows; the flags pull related rows in.
#[derive(Debug, Clone, PartialEq, Default)]
pub struct RewardRequest {
    pub pubkey: Vec<String>,
}



/// The wire form of a instruction filter: camelCase members, the string
/// arrays only when non-empty, the flags always.
pub open spec fn instruction_request_json_matches(q: InstructionRequest, v: JsonValue) -> bool {
    &&& v is Obj
    &&& str_arr_member(v, "programId"@, q.program_id@)
    &&& str_arr_member(v, "d1"@, q.d1@)
    &&& str_arr_member(v, "d2"@, q.d2@)
    &&& str_arr_member(v, "d3"@, q.d3@)
    &&& str_arr_member(v, "d4"@, q.d4@)
    &&& str_arr_member(v, "d8"@, q.d8@)
    &&& str_arr_member(v, "a0"@, q.a0@)
    &&& str_arr_member(v, "a1"@, q.a1@)
    &&& str_arr_member(v, "a2"@, q.a2@)
    &&& str_arr_member(v, "a3"@, q.a3@)
    &&& str_arr_member(v, "a4"@, q.a4@)
    &&& str_arr_member(v, "a5"@, q.a5@)
    &&& str_arr_member(v, "a6"@, q.a6@)
    &&& str_arr_member(v, "a7"@, q.a7@)
    &&& str_arr_member(v, "a8"@, q.a8@)
    &&& str_arr_member(v, "a9"@, q.a9@)
    &&& bool_member(v, "isCommitted"@, q.is_committed)
    &&& bool_member(v, "transaction"@, q.transaction)
    &&& bool_member(v, "transactionTokenBalances"@, q.transaction_token_balances)
    &&& bool_member(v, "logs"@, q.logs)
    &&& bool_member(v, "innerInstructions"@, q.inner_instructions)
}

/// A instruction filter read back: absent arrays are empty, the flags are
/// required.
pub open spec fn instruction_request_parseable(v: JsonValue) -> bool {
    &&& v is Obj
    &&& str_arr_read(v, "programId"@) is Ok
    &&& str_arr_read(v, "d1"@) is Ok
    &&& str_arr_read(v, "d2"@) is Ok
    &&& str_arr_read(v, "d3"@) is Ok
    &&& str_arr_read(v, "d4"@) is Ok
    &&& str_arr_read(v, "d8"@) is Ok
    &&& str_arr_read(v, "a0"@) is Ok
    &&& str_arr_read(v, "a1"@) is Ok
    &&& str_arr_read(v, "a2"@) is Ok
    &&& str_arr_read(v, "a3"@) is Ok
    &&& str_arr_read(v, "a4"@) is Ok
    &&& str_arr_read(v, "a5"@) is Ok
    &&& str_arr_read(v, "a6"@) is Ok
    &&& str_arr_read(v, "a7"@) is Ok
    &&& str_arr_read(v, "a8"@) is Ok
    &&& str_arr_read(v, "a9"@) is Ok
    &&& bool_field(v, "isCommitted"@) matches Ok(Some(_))
    &&& bool_field(v, "transaction"@) matches Ok(Some(_))
    &&& bool_field(v, "transactionTokenBalances"@) matches Ok(Some(_))
    &&& bool_field(v, "logs"@) matches Ok(Some(_))
    &&& bool_field(v, "innerInstructions"@) matches Ok(Some(_))
}

pub open spec fn instruction_request_parsed(q: InstructionRequest, v: JsonValue) -> bool {
    &&& match str_arr_read(v, "programId"@) {
        Ok(vs) => str_seq_is(q.program_id@, vs),
        Err(_) => false,
    }
    &&& match str_arr_read(v, "d1"@) {
        Ok(vs) => str_seq_is(q.d1@, vs),
        Err(_) => false,
    }
    &&& match str_arr_read(v, "d2"@) {
        Ok(vs) => str_seq_is(q.d2@, vs),
        Err(_) => false,
    }
    &&& match str_arr_read(v, "d3"@) {
        Ok(vs) => str_seq_is(q.d3@, vs),
        Err(_) => false,
    }
    &&& match str_arr_read(v, "d4"@) {
        Ok(vs) => str_seq_is(q.d4@, vs),
        Err(_) => false,
    }
    &&& match str_arr_read(v, "d8"@) {
        Ok(vs) => str_seq_is(q.d8@, vs),
        Err(_) => false,
    }
    &&& match str_arr_read(v, "a0"@) {
        Ok(vs) => str_seq_is(q.a0@, vs),
        Err(_) => false,
    }
    &&& match str_arr_read(v, "a1"@) {
        Ok(vs) => str_seq_is(q.a1@, vs),
        Err(_) => false,
    }
    &&& match str_arr_read(v, "a2"@) {
        Ok(vs) => str_seq_is(q.a2@, vs),
        Err(_) => false,
    }
    &&& match str_arr_read(v, "a3"@) {
        Ok(vs) => str_seq_is(q.a3@, vs),
        Err(_) => false,
    }
    &&& match str_arr_read(v, "a4"@) {
        Ok(vs) => str_seq_is(q.a4@, vs),
        Err(_) => false,
    }
    &&& match str_arr_read(v, "a5"@) {
        Ok(vs) => str_seq_is(q.a5@, vs),
        Err(_) => false,
    }
    &&& match str_arr_read(v, "a6"@) {
        Ok(vs) => str_seq_is(q.a6@, vs),
        Err(_) => false,
    }
    &&& match str_arr_read(v, "a7"@) {
        Ok(vs) => str_seq_is(q.a7@, vs),
        Err(_) => false,
    }
    &&& match str_arr_read(v, "a8"@) {
        Ok(vs) => str_seq_is(q.a8@, vs),
        Err(_) => false,
    }
    &&& match str_arr_read(v, "a9"@) {
        Ok(vs) => str_seq_is(q.a9@, vs),
        Err(_) => false,
    }
    &&& bool_field(v, "isCommitted"@) == Ok::<Option<bool>, crate::ErrorKind>(
        Some(q.is_committed),
    )
    &&& bool_field(v, "transaction"@) == Ok::<Option<bool>, crate::ErrorKind>(
        Some(q.transaction),
    )
    &&& bool_field(v, "transactionTokenBalances"@) == Ok::<Option<bool>, crate::ErrorKind>(
        Some(q.transaction_token_balances),
    )
    &&& bool_field(v, "logs"@) == Ok::<Option<bool>, crate::ErrorKind>(
        Some(q.logs),
    )
    &&& bool_field(v, "innerInstructions"@) == Ok::<Option<bool>, crate::ErrorKind>(
        Some(q.inner_instructions),
    )
}

impl InstructionRequest {
    /// Serialize for the wire: empty string arrays are left out, the
    /// flags always appear.
    #[verifier::rlimit(100)]
    pub fn to_json(&self) -> (r: JsonValue)
        ensures
            instruction_request_json_matches(*self, r),
    {
        proof {
            reveal_strlit("programId");
            reveal_strlit("d1");
            reveal_strlit("d2");
            reveal_strlit("d3");
            reveal_strlit("d4");
            reveal_strlit("d8");
            reveal_strlit("a0");
            reveal_strlit("a1");
            reveal_strlit("a2");
            reveal_strlit("a3");
            reveal_strlit("a4");
            reveal_strlit("a5");
            reveal_strlit("a6");
            reveal_strlit("a7");
            reveal_strlit("a8");
            reveal_strlit("a9");
            reveal_strlit("isCommitted");
            reveal_strlit("transaction");
            reveal_strlit("transactionTokenBalances");
            reveal_strlit("logs");
            reveal_strlit("innerInstructions");
            assert("programId"@.len() == 9);
            assert("d1"@.len() == 2);
            assert("d2"@.len() == 2);
            assert("d3"@.len() == 2);
            assert("d4"@.len() == 2);
            assert("d8"@.len() == 2);
            assert("a0"@.len() == 2);
            assert("a1"@.len() == 2);
            assert("a2"@.len() == 2);
            assert("a3"@.len() == 2);
            assert("a4"@.len() == 2);
            assert("a5"@.len() == 2);
            assert("a6"@.len() == 2);
            assert("a7"@.len() == 2);
            assert("a8"@.len() == 2);
            assert("a9"@.len() == 2);
            assert("isCommitted"@.len() == 11);
            assert("transaction"@.len() == 11);
            assert("transactionTokenBalances"@.len() == 24);
            assert("logs"@.len() == 4);
            assert("innerInstructions"@.len() == 17);
            assert("d1"@[1] == '1');
            assert("d2"@[1] == '2');
            assert("d3"@[1] == '3');
            assert("d4"@[1] == '4');
            assert("d8"@[1] == '8');
            assert("d1"@[0] == 'd');
            assert("a0"@[0] == 'a');
            assert("a1"@[0] == 'a');
            assert("a2"@[0] == 'a');
            assert("a3"@[0] == 'a');
            assert("a4"@[0] == 'a');
            assert("a5"@[0] == 'a');
            assert("a6"@[0] == 'a');
            assert("a7"@[0] == 'a');
            assert("a8"@[0] == 'a');
            assert("a9"@[0] == 'a');
            assert("d2"@[0] == 'd');
            assert("d3"@[0] == 'd');
            assert("d4"@[0] == 'd');
            assert("d8"@[0] == 'd');
            assert("a0"@[1] == '0');
            assert("a1"@[1] == '1');
            assert("a2"@[1] == '2');
            assert("a3"@[1] == '3');
            assert("a4"@[1] == '4');
            assert("a5"@[1] == '5');
            assert("a6"@[1] == '6');
            assert("a7"@[1] == '7');
            assert("a8"@[1] == '8');
            assert("a9"@[1] == '9');
            assert("isCommitted"@[0] == 'i');
            assert("transaction"@[0] == 't');
        }
        let mut m: Vec<(String, JsonValue)> = Vec::new();
        proof {
            assert forall|k: Seq<char>| !has_key(m@, k) by {
                if has_key(m@, k) {
                    let j = choose|j: int| 0 <= j < m@.len() && (#[trigger] m@[j]).0@ == k;
                }
            }
        }
        put_str_arr(&mut m, "programId", &self.program_id);
        put_str_arr(&mut m, "d1", &self.d1);
        put_str_arr(&mut m, "d2", &self.d2);
        put_str_arr(&mut m, "d3", &self.d3);
        put_str_arr(&mut m, "d4", &self.d4);
        put_str_arr(&mut m, "d8", &self.d8);
        put_str_arr(&mut m, "a0", &self.a0);
        put_str_arr(&mut m, "a1", &self.a1);
        put_str_arr(&mut m, "a2", &self.a2);
        put_str_arr(&mut m, "a3", &self.a3);
        put_str_arr(&mut m, "a4", &self.a4);
        put_str_arr(&mut m, "a5", &self.a5);
        put_str_arr(&mut m, "a6", &self.a6);
        put_str_arr(&mut m, "a7", &self.a7);
        put_str_arr(&mut m, "a8", &self.a8);
        put_str_arr(&mut m, "a9", &self.a9);
        put_member(&mut m, "isCommitted", JsonValue::Bool(self.is_committed));
        put_member(&mut m, "transaction", JsonValue::Bool(self.transaction));
        put_member(&mut m, "transactionTokenBalances", JsonValue::Bool(self.transaction_token_balances));
        put_member(&mut m, "logs", JsonValue::Bool(self.logs));
        put_member(&mut m, "innerInstructions", JsonValue::Bool(self.inner_instructions));
        JsonValue::Obj(m)
    }

    /// Read a instruction filter back from its wire form.
    pub fn from_json(v: &JsonValue) -> (r: Result<InstructionRequest, Error>)
        ensures
            r is Ok <==> instruction_request_parseable(*v),
            r is Ok ==> instruction_request_parsed(r->Ok_0, *v),
    {
        match v {
            JsonValue::Obj(_) => {},
            _ => { return Err(Error::new(ErrorKind::Shape, "instruction_request as object")); },
        }
        let program_id = read_str_arr(v, "programId")?;
        let d1 = read_str_arr(v, "d1")?;
        let d2 = read_str_arr(v, "d2")?;
        let d3 = read_str_arr(v, "d3")?;
        let d4 = read_str_arr(v, "d4")?;
        let d8 = read_str_arr(v, "d8")?;
        let a0 = read_str_arr(v, "a0")?;
        let a1 = read_str_arr(v, "a1")?;
        let a2 = read_str_arr(v, "a2")?;
        let a3 = read_str_arr(v, "a3")?;
        let a4 = read_str_arr(v, "a4")?;
        let a5 = read_str_arr(v, "a5")?;
        let a6 = read_str_arr(v, "a6")?;
        let a7 = read_str_arr(v, "a7")?;
        let a8 = read_str_arr(v, "a8")?;
        let a9 = read_str_arr(v, "a9")?;
        let is_committed = read_bool(v, "isCommitted")?;
        let transaction = read_bool(v, "transaction")?;
        let transaction_token_balances = read_bool(v, "transactionTokenBalances")?;
        let logs = read_bool(v, "logs")?;
        let inner_instructions = read_bool(v, "innerInstructions")?;
        Ok(InstructionRequest { program_id, d1, d2, d3, d4, d8, a0, a1, a2, a3, a4, a5, a6, a7, a8, a9, is_committed, transaction, transaction_token_balances, logs, inner_instructions })
    }
}

/// A serialized instruction filter always reads back.
pub proof fn lemma_instruction_request_serial_parses(q: InstructionRequest, v: JsonValue)
    requires
        instruction_request_json_matches(q, v),
    ensures
        instruction_request_parseable(v),
{
    crate::util::lemma_member_parses(v, "programId"@, q.program_id@);
    crate::util::lemma_member_parses(v, "d1"@, q.d1@);
    crate::util::lemma_member_parses(v, "d2"@, q.d2@);
    crate::util::lemma_member_parses(v, "d3"@, q.d3@);
    crate::util::lemma_member_parses(v, "d4"@, q.d4@);
    crate::util::lemma_member_parses(v, "d8"@, q.d8@);
    crate::util::lemma_member_parses(v, "a0"@, q.a0@);
    crate::util::lemma_member_parses(v, "a1"@, q.a1@);
    crate::util::lemma_member_parses(v, "a2"@, q.a2@);
    crate::util::lemma_member_parses(v, "a3"@, q.a3@);
    crate::util::lemma_member_parses(v, "a4"@, q.a4@);
    crate::util::lemma_member_parses(v, "a5"@, q.a5@);
    crate::util::lemma_member_parses(v, "a6"@, q.a6@);
    crate::util::lemma_member_parses(v, "a7"@, q.a7@);
    crate::util::lemma_member_parses(v, "a8"@, q.a8@);
    crate::util::lemma_member_parses(v, "a9"@, q.a9@);
}

/// Omit-empty round trip for the instruction filter: what `to_json` writes,
/// `from_json` accepts, and the filter it returns reads member for
/// member as the one written.
pub proof fn lemma_instruction_request_round_trip(q: InstructionRequest, v: JsonValue, q2: InstructionRequest)
    requires
        instruction_request_json_matches(q, v),
        instruction_request_parsed(q2, v),
    ensures
        str_seq_is(q2.program_id@, q.program_id@.map_values(|s: String| s@)),
        str_seq_is(q2.d1@, q.d1@.map_values(|s: String| s@)),
        str_seq_is(q2.d2@, q.d2@.map_values(|s: String| s@)),
        str_seq_is(q2.d3@, q.d3@.map_values(|s: String| s@)),
        str_seq_is(q2.d4@, q.d4@.map_values(|s: String| s@)),
        str_seq_is(q2.d8@, q.d8@.map_values(|s: String| s@)),
        str_seq_is(q2.a0@, q.a0@.map_values(|s: String| s@)),
        str_seq_is(q2.a1@, q.a1@.map_values(|s: String| s@)),
        str_seq_is(q2.a2@, q.a2@.map_values(|s: String| s@)),
        str_seq_is(q2.a3@, q.a3@.map_values(|s: String| s@)),
        str_seq_is(q2.a4@, q.a4@.map_values(|s: String| s@)),
        str_seq_is(q2.a5@, q.a5@.map_values(|s: String| s@)),
        str_seq_is(q2.a6@, q.a6@.map_values(|s: String| s@)),
        str_seq_is(q2.a7@, q.a7@.map_values(|s: String| s@)),
        str_seq_is(q2.a8@, q.a8@.map_values(|s: String| s@)),
        str_seq_is(q2.a9@, q.a9@.map_values(|s: String| s@)),
        q2.is_committed == q.is_committed,
        q2.transaction == q.transaction,
        q2.transaction_token_balances == q.transaction_token_balances,
        q2.logs == q.logs,
        q2.inner_instructions == q.inner_instructions,
{
    crate::util::lemma_member_round_trip(v, "programId"@, q.program_id@, q2.program_id@);
    crate::util::lemma_member_round_trip(v, "d1"@, q.d1@, q2.d1@);
    crate::util::lemma_member_round_trip(v, "d2"@, q.d2@, q2.d2@);
    crate::util::lemma_member_round_trip(v, "d3"@, q.d3@, q2.d3@);
    crate::util::lemma_member_round_trip(v, "d4"@, q.d4@, q2.d4@);
    crate::util::lemma_member_round_trip(v, "d8"@, q.d8@, q2.d8@);
    crate::util::lemma_member_round_trip(v, "a0"@, q.a0@, q2.a0@);
    crate::util::lemma_member_round_trip(v, "a1"@, q.a1@, q2.a1@);
    crate::util::lemma_member_round_trip(v, "a2"@, q.a2@, q2.a2@);
    crate::util::lemma_member_round_trip(v, "a3"@, q.a3@, q2.a3@);
    crate::util::lemma_member_round_trip(v, "a4"@, q.a4@, q2.a4@);
    crate::util::lemma_member_round_trip(v, "a5"@, q.a5@, q2.a5@);
    crate::util::lemma_member_round_trip(v, "a6"@, q.a6@, q2.a6@);
    crate::util::lemma_member_round_trip(v, "a7"@, q.a7@, q2.a7@);
    crate::util::lemma_member_round_trip(v, "a8"@, q.a8@, q2.a8@);
    crate::util::lemma_member_round_trip(v, "a9"@, q.a9@, q2.a9@);
}

/// The wire form of a transaction filter: camelCase members, the string
/// arrays only when non-empty, the flags always.
pub open spec fn transaction_request_json_matches(q: TransactionRequest, v: JsonValue) -> bool {
    &&& v is Obj
    &&& str_arr_member(v, "feePayer"@, q.fee_payer@)
    &&& bool_member(v, "instructions"@, q.instructions)
    &&& bool_member(v, "logs"@, q.logs)
}

/// A transaction filter read back: absent arrays are empty, the flags are
/// required.
pub open spec fn transaction_request_parseable(v: JsonValue) -> bool {
    &&& v is Obj
    &&& str_arr_read(v, "feePayer"@) is Ok
    &&& bool_field(v, "instructions"@) matches Ok(Some(_))
    &&& bool_field(v, "logs"@) matches Ok(Some(_))
}

pub open spec fn transaction_request_parsed(q: TransactionRequest, v: JsonValue) -> bool {
    &&& match str_arr_read(v, "feePayer"@) {
        Ok(vs) => str_seq_is(q.fee_payer@, vs),
        Err(_) => false,
    }
    &&& bool_field(v, "instructions"@) == Ok::<Option<bool>, crate::ErrorKind>(
        Some(q.instructions),
    )
    &&& bool_field(v, "logs"@) == Ok::<Option<bool>, crate::ErrorKind>(
        Some(q.logs),
    )
}

impl TransactionRequest {
    /// Serialize for the wire: empty string arrays are left out, the
    /// flags always appear.
    #[verifier::rlimit(100)]
    pub fn to_json(&self) -> (r: JsonValue)
        ensures
            transaction_request_json_matches(*self, r),
    {
        proof {
            reveal_strlit("feePayer");
            reveal_strlit("instructions");
            reveal_strlit("logs");
            assert("feePayer"@.len() == 8);
            assert("instructions"@.len() == 12);
            assert("logs"@.len() == 4);
        }
        let mut m: Vec<(String, JsonValue)> = Vec::new();
        proof {
            assert forall|k: Seq<char>| !has_key(m@, k) by {
                if has_key(m@, k) {
                    let j = choose|j: int| 0 <= j < m@.len() && (#[trigger] m@[j]).0@ == k;
                }
            }
        }
        put_str_arr(&mut m, "feePayer", &self.fee_payer);
        put_member(&mut m, "instructions", JsonValue::Bool(self.instructions));
        put_member(&mut m, "logs", JsonValue::Bool(self.logs));
        JsonValue::Obj(m)
    }

    /// Read a transaction filter back from its wire form.
    pub fn from_json(v: &JsonValue) -> (r: Result<TransactionRequest, Error>)
        ensures
            r is Ok <==> transaction_request_parseable(*v),
            r is Ok ==> transaction_request_parsed(r->Ok_0, *v),
    {
        match v {
            JsonValue::Obj(_) => {},
            _ => { return Err(Error::new(ErrorKind::Shape, "transaction_request as object")); },
        }
        let fee_payer = read_str_arr(v, "feePayer")?;
        let instructions = read_bool(v, "instructions")?;
        let logs = read_bool(v, "logs")?;
        Ok(TransactionRequest { fee_payer, instructions, logs })
    }
}

/// A serialized transaction filter always reads back.
pub proof fn lemma_transaction_request_serial_parses(q: TransactionRequest, v: JsonValue)
    requires
        transaction_request_json_matches(q, v),
    ensures
        transaction_request_parseable(v),
{
    crate::util::lemma_member_parses(v, "feePayer"@, q.fee_payer@);
}

/// Omit-empty round trip for the transaction filter: what `to_json` writes,
/// `from_json` accepts, and the filter it returns reads member for
/// member as the one written.
pub proof fn lemma_transaction_request_round_trip(q: TransactionRequest, v: JsonValue, q2: TransactionRequest)
    requires
        transaction_request_json_matches(q, v),
        transaction_request_parsed(q2, v),
    ensures
        str_seq_is(q2.fee_payer@, q.fee_payer@.map_values(|s: String| s@)),
        q2.instructions == q.instructions,
        q2.logs == q.logs,
{
    crate::util::lemma_member_round_trip(v, "feePayer"@, q.fee_payer@, q2.fee_payer@);
}

/// The wire form of a log filter: camelCase members, the string
/// arrays only when non-empty, the flags always.
pub open spec fn log_request_json_matches(q: LogRequest, v: JsonValue) -> bool {
    &&& v is Obj
    &&& str_arr_member(v, "programId"@, q.program_id@)
    &&& str_arr_member(v, "kind"@, q.kind@)
    &&& bool_member(v, "transaction"@, q.transaction)
    &&& bool_member(v, "instruction"@, q.instruction)
}

/// A log filter read back: absent arrays are empty, the flags are
/// required.
pub open spec fn log_request_parseable(v: JsonValue) -> bool {
    &&& v is Obj
    &&& str_arr_read(v, "programId"@) is Ok
    &&& str_arr_read(v, "kind"@) is Ok
    &&& bool_field(v, "transaction"@) matches Ok(Some(_))
    &&& bool_field(v, "instruction"@) matches Ok(Some(_))
}

pub open spec fn log_request_parsed(q: LogRequest, v: JsonValue) -> bool {
    &&& match str_arr_read(v, "programId"@) {
        Ok(vs) => str_seq_is(q.program_id@, vs),
        Err(_) => false,
    }
    &&& match str_arr_read(v, "kind"@) {
        Ok(vs) => str_seq_is(q.kind@, vs),
        Err(_) => false,
    }
    &&& bool_field(v, "transaction"@) == Ok::<Option<bool>, crate::ErrorKind>(
        Some(q.transaction),
    )
    &&& bool_field(v, "instruction"@) == Ok::<Option<bool>, crate::ErrorKind>(
        Some(q.instruction),
    )
}

impl LogRequest {
    /// Serialize for the wire: empty string arrays are left out, the
    /// flags always appear.
    #[verifier::rlimit(100)]
    pub fn to_json(&self) -> (r: JsonValue)
        ensures
            log_request_json_matches(*self, r),
    {
        proof {
            reveal_strlit("programId");
            reveal_strlit("kind");
            reveal_strlit("transaction");
            reveal_strlit("instruction");
            assert("programId"@.len() == 9);
            assert("kind"@.len() == 4);
            assert("transaction"@.len() == 11);
            assert("instruction"@.len() == 11);
            assert("transaction"@[0] == 't');
            assert("instruction"@[0] == 'i');
        }
        let mut m: Vec<(String, JsonValue)> = Vec::new();
        proof {
            assert forall|k: Seq<char>| !has_key(m@, k) by {
                if has_key(m@, k) {
                    let j = choose|j: int| 0 <= j < m@.len() && (#[trigger] m@[j]).0@ == k;
                }
            }
        }
        put_str_arr(&mut m, "programId", &self.program_id);
        put_str_arr(&mut m, "kind", &self.kind);
        put_member(&mut m, "transaction", JsonValue::Bool(self.transaction));
        put_member(&mut m, "instruction", JsonValue::Bool(self.instruction));
        JsonValue::Obj(m)
    }

    /// Read a log filter back from its wire form.
    pub fn from_json(v: &JsonValue) -> (r: Result<LogRequest, Error>)
        ensures
            r is Ok <==> log_request_parseable(*v),
            r is Ok ==> log_request_parsed(r->Ok_0, *v),
    {
        match v {
            JsonValue::Obj(_) => {},
            _ => { return Err(Error::new(ErrorKind::Shape, "log_request as object")); },
        }
        let program_id = read_str_arr(v, "programId")?;
        let kind = read_str_arr(v, "kind")?;
        let transaction = read_bool(v, "transaction")?;
        let instruction = read_bool(v, "instruction")?;
        Ok(LogRequest { program_id, kind, transaction, instruction })
    }
}

/// A serialized log filter always reads back.
pub proof fn lemma_log_request_serial_parses(q: LogRequest, v: JsonValue)
    requires
        log_request_json_matches(q, v),
    ensures
        log_request_parseable(v),
{
    crate::util::lemma_member_parses(v, "programId"@, q.program_id@);
    crate::util::lemma_member_parses(v, "kind"@, q.kind@);
}

/// Omit-empty round trip for the log filter: what `to_json` writes,
/// `from_json` accepts, and the filter it returns reads member for
/// member as the one written.
pub proof fn lemma_log_request_round_trip(q: LogRequest, v: JsonValue, q2: LogRequest)
    requires
        log_request_json_matches(q, v),
        log_request_parsed(q2, v),
    ensures
        str_seq_is(q2.program_id@, q.program_id@.map_values(|s: String| s@)),
        str_seq_is(q2.kind@, q.kind@.map_values(|s: String| s@)),
        q2.transaction == q.transaction,
        q2.instruction == q.instruction,
{
    crate::util::lemma_member_round_trip(v, "programId"@, q.program_id@, q2.program_id@);
    crate::util::lemma_member_round_trip(v, "kind"@, q.kind@, q2.kind@);
}

/// The wire form of a balance filter: camelCase members, the string
/// arrays only when non-empty, the flags always.
pub open spec fn balance_request_json_matches(q: BalanceRequest, v: JsonValue) -> bool {
    &&& v is Obj
    &&& str_arr_member(v, "account"@, q.account@)
    &&& bool_member(v, "transaction"@, q.transaction)
    &&& bool_member(v, "transactionInstructions"@, q.transaction_instructions)
}

/// A balance filter read back: absent arrays are empty, the flags are
/// required.
pub open spec fn balance_request_parseable(v: JsonValue) -> bool {
    &&& v is Obj
    &&& str_arr_read(v, "account"@) is Ok
    &&& bool_field(v, "transaction"@) matches Ok(Some(_))
    &&& bool_field(v, "transactionInstructions"@) matches Ok(Some(_))
}

pub open spec fn balance_request_parsed(q: BalanceRequest, v: JsonValue) -> bool {
    &&& match str_arr_read(v, "account"@) {
        Ok(vs) => str_seq_is(q.account@, vs),
        Err(_) => false,
    }
    &&& bool_field(v, "transaction"@) == Ok::<Option<bool>, crate::ErrorKind>(
        Some(q.transaction),
    )
    &&& bool_field(v, "transactionInstructions"@) == Ok::<Option<bool>, crate::ErrorKind>(
        Some(q.transaction_instructions),
    )
}

impl BalanceRequest {
    /// Serialize for the wire: empty string arrays are left out, the
    /// flags always appear.
    #[verifier::rlimit(100)]
    pub fn to_json(&self) -> (r: JsonValue)
        ensures
            balance_request_json_matches(*self, r),
    {
        proof {
            reveal_strlit("account");
            reveal_strlit("transaction");
            reveal_strlit("transactionInstructions");
            assert("account"@.len() == 7);
            assert("transaction"@.len() == 11);
            assert("transactionInstructions"@.len() == 23);
        }
        let mut m: Vec<(String, JsonValue)> = Vec::new();
        proof {
            assert forall|k: Seq<char>| !has_key(m@, k) by {
                if has_key(m@, k) {
                    let j = choose|j: int| 0 <= j < m@.len() && (#[trigger] m@[j]).0@ == k;
                }
            }
        }
        put_str_arr(&mut m, "account", &self.account);
        put_member(&mut m, "transaction", JsonValue::Bool(self.transaction));
        put_member(&mut m, "transactionInstructions", JsonValue::Bool(self.transaction_instructions));
        JsonValue::Obj(m)
    }

    /// Read a balance filter back from its wire form.
    pub fn from_json(v: &JsonValue) -> (r: Result<BalanceRequest, Error>)
        ensures
            r is Ok <==> balance_request_parseable(*v),
            r is Ok ==> balance_request_parsed(r->Ok_0, *v),
    {
        match v {
            JsonValue::Obj(_) => {},
            _ => { return Err(Error::new(ErrorKind::Shape, "balance_request as object")); },
        }
        let account = read_str_arr(v, "account")?;
        let transaction = read_bool(v, "transaction")?;
        let transaction_instructions = read_bool(v, "transactionInstructions")?;
        Ok(BalanceRequest { account, transaction, transaction_instructions })
    }
}

/// A serialized balance filter always reads back.
pub proof fn lemma_balance_request_serial_parses(q: BalanceRequest, v: JsonValue)
    requires
        balance_request_json_matches(q, v),
    ensures
        balance_request_parseable(v),
{
    crate::util::lemma_member_parses(v, "account"@, q.account@);
}

/// Omit-empty round trip for the balance filter: what `to_json` writes,
/// `from_json` accepts, and the filter it returns reads member for
/// member as the one written.
pub proof fn lemma_balance_request_round_trip(q: BalanceRequest, v: JsonValue, q2: BalanceRequest)
    requires
        balance_request_json_matches(q, v),
        balance_request_parsed(q2, v),
    ensures
        str_seq_is(q2.account@, q.account@.map_values(|s: String| s@)),
        q2.transaction == q.transaction,
        q2.transaction_instructions == q.transaction_instructions,
{
    crate::util::lemma_member_round_trip(v, "account"@, q.account@, q2.account@);
}

/// The wire form of a token-balance filter: camelCase members, the string
/// arrays only when non-empty, the flags always.
pub open spec fn token_balance_request_json_matches(q: TokenBalanceRequest, v: JsonValue) -> bool {
    &&& v is Obj
    &&& str_arr_member(v, "account"@, q.account@)
    &&& str_arr_member(v, "preProgramId"@, q.pre_program_id@)
    &&& str_arr_member(v, "postProgramId"@, q.post_program_id@)
    &&& str_arr_member(v, "preMint"@, q.pre_mint@)
    &&& str_arr_member(v, "postMint"@, q.post_mint@)
    &&& str_arr_member(v, "preOwner"@, q.pre_owner@)
    &&& str_arr_member(v, "postOwner"@, q.post_owner@)
    &&& bool_member(v, "transaction"@, q.transaction)
    &&& bool_member(v, "transactionInstructions"@, q.transaction_instructions)
}

/// A token-balance filter read back: absent arrays are empty, the flags are
/// required.
pub open spec fn token_balance_request_parseable(v: JsonValue) -> bool {
    &&& v is Obj
    &&& str_arr_read(v, "account"@) is Ok
    &&& str_arr_read(v, "preProgramId"@) is Ok
    &&& str_arr_read(v, "postProgramId"@) is Ok
    &&& str_arr_read(v, "preMint"@) is Ok
    &&& str_arr_read(v, "postMint"@) is Ok
    &&& str_arr_read(v, "preOwner"@) is Ok
    &&& str_arr_read(v, "postOwner"@) is Ok
    &&& bool_field(v, "transaction"@) matches Ok(Some(_))
    &&& bool_field(v, "transactionInstructions"@) matches Ok(Some(_))
}

pub open spec fn token_balance_request_parsed(q: TokenBalanceRequest, v: JsonValue) -> bool {
    &&& match str_arr_read(v, "account"@) {
        Ok(vs) => str_seq_is(q.account@, vs),
        Err(_) => false,
    }
    &&& match str_arr_read(v, "preProgramId"@) {
        Ok(vs) => str_seq_is(q.pre_program_id@, vs),
        Err(_) => false,
    }
    &&& match str_arr_read(v, "postProgramId"@) {
        Ok(vs) => str_seq_is(q.post_program_id@, vs),
        Err(_) => false,
    }
    &&& match str_arr_read(v, "preMint"@) {
        Ok(vs) => str_seq_is(q.pre_mint@, vs),
        Err(_) => false,
    }
    &&& match str_arr_read(v, "postMint"@) {
        Ok(vs) => str_seq_is(q.post_mint@, vs),
        Err(_) => false,
    }
    &&& match str_arr_read(v, "preOwner"@) {
        Ok(vs) => str_seq_is(q.pre_owner@, vs),
        Err(_) => false,
    }
    &&& match str_arr_read(v, "postOwner"@) {
        Ok(vs) => str_seq_is(q.post_owner@, vs),
        Err(_) => false,
    }
    &&& bool_field(v, "transaction"@) == Ok::<Option<bool>, crate::ErrorKind>(
        Some(q.transaction),
    )
    &&& bool_field(v, "transactionInstructions"@) == Ok::<Option<bool>, crate::ErrorKind>(
        Some(q.transaction_instructions),
    )
}

impl TokenBalanceRequest {
    /// Serialize for the wire: empty string arrays are left out, the
    /// flags always appear.
    #[verifier::rlimit(100)]
    pub fn to_json(&self) -> (r: JsonValue)
        ensures
            token_balance_request_json_matches(*self, r),
    {
        proof {
            reveal_strlit("account");
            reveal_strlit("preProgramId");
            reveal_strlit("postProgramId");
            reveal_strlit("preMint");
            reveal_strlit("postMint");
            reveal_strlit("preOwner");
            reveal_strlit("postOwner");
            reveal_strlit("transaction");
            reveal_strlit("transactionInstructions");
            assert("account"@.len() == 7);
            assert("preProgramId"@.len() == 12);
            assert("postProgramId"@.len() == 13);
            assert("preMint"@.len() == 7);
            assert("postMint"@.len() == 8);
            assert("preOwner"@.len() == 8);
            assert("postOwner"@.len() == 9);
            assert("transaction"@.len() == 11);
            assert("transactionInstructions"@.len() == 23);
            assert("account"@[0] == 'a');
            assert("preMint"@[0] == 'p');
            assert("postMint"@[1] == 'o');
            assert("preOwner"@[1] == 'r');
        }
        let mut m: Vec<(String, JsonValue)> = Vec::new();
        proof {
            assert forall|k: Seq<char>| !has_key(m@, k) by {
                if has_key(m@, k) {
                    let j = choose|j: int| 0 <= j < m@.len() && (#[trigger] m@[j]).0@ == k;
                }
            }
        }
        put_str_arr(&mut m, "account", &self.account);
        put_str_arr(&mut m, "preProgramId", &self.pre_program_id);
        put_str_arr(&mut m, "postProgramId", &self.post_program_id);
        put_str_arr(&mut m, "preMint", &self.pre_mint);
        put_str_arr(&mut m, "postMint", &self.post_mint);
        put_str_arr(&mut m, "preOwner", &self.pre_owner);
        put_str_arr(&mut m, "postOwner", &self.post_owner);
        put_member(&mut m, "transaction", JsonValue::Bool(self.transaction));
        put_member(&mut m, "transactionInstructions", JsonValue::Bool(self.transaction_instructions));
        JsonValue::Obj(m)
    }

    /// Read a token-balance filter back from its wire form.
    pub fn from_json(v: &JsonValue) -> (r: Result<TokenBalanceRequest, Error>)
        ensures
            r is Ok <==> token_balance_request_parseable(*v),
            r is Ok ==> token_balance_request_parsed(r->Ok_0, *v),
    {
        match v {
            JsonValue::Obj(_) => {},
            _ => { return Err(Error::new(ErrorKind::Shape, "token_balance_request as object")); },
        }
        let account = read_str_arr(v, "account")?;
        let pre_program_id = read_str_arr(v, "preProgramId")?;
        let post_program_id = read_str_arr(v, "postProgramId")?;
        let pre_mint = read_str_arr(v, "preMint")?;
        let post_mint = read_str_arr(v, "postMint")?;
        let pre_owner = read_str_arr(v, "preOwner")?;
        let post_owner = read_str_arr(v, "postOwner")?;
        let transaction = read_bool(v, "transaction")?;
        let transaction_instructions = read_bool(v, "transactionInstructions")?;
        Ok(TokenBalanceRequest { account, pre_program_id, post_program_id, pre_mint, post_mint, pre_owner, post_owner, transaction, transaction_instructions })
    }
}

/// A serialized token-balance filter always reads back.
pub proof fn lemma_token_balance_request_serial_parses(q: TokenBalanceRequest, v: JsonValue)
    requires
        token_balance_request_json_matches(q, v),
    ensures
        token_balance_request_parseable(v),
{
    crate::util::lemma_member_parses(v, "account"@, q.account@);
    crate::util::lemma_member_parses(v, "preProgramId"@, q.pre_program_id@);
    crate::util::lemma_member_parses(v, "postProgramId"@, q.post_program_id@);
    crate::util::lemma_member_parses(v, "preMint"@, q.pre_mint@);
    crate::util::lemma_member_parses(v, "postMint"@, q.post_mint@);
    crate::util::lemma_member_parses(v, "preOwner"@, q.pre_owner@);
    crate::util::lemma_member_parses(v, "postOwner"@, q.post_owner@);
}

/// Omit-empty round trip for the token-balance filter: what `to_json` writes,
/// `from_json` accepts, and the filter it returns reads member for
/// member as the one written.
pub proof fn lemma_token_balance_request_round_trip(q: TokenBalanceRequest, v: JsonValue, q2: TokenBalanceRequest)
    requires
        token_balance_request_json_matches(q, v),
        token_balance_request_parsed(q2, v),
    ensures
        str_seq_is(q2.account@, q.account@.map_values(|s: String| s@)),
        str_seq_is(q2.pre_program_id@, q.pre_program_id@.map_values(|s: String| s@)),
        str_seq_is(q2.post_program_id@, q.post_program_id@.map_values(|s: String| s@)),
        str_seq_is(q2.pre_mint@, q.pre_mint@.map_values(|s: String| s@)),
        str_seq_is(q2.post_mint@, q.post_mint@.map_values(|s: String| s@)),
        str_seq_is(q2.pre_owner@, q.pre_owner@.map_values(|s: String| s@)),
        str_seq_is(q2.post_owner@, q.post_owner@.map_values(|s: String| s@)),
        q2.transaction == q.transaction,
        q2.transaction_instructions == q.transaction_instructions,
{
    crate::util::lemma_member_round_trip(v, "account"@, q.account@, q2.account@);
    crate::util::lemma_member_round_trip(v, "preProgramId"@, q.pre_program_id@, q2.pre_program_id@);
    crate::util::lemma_member_round_trip(v, "postProgramId"@, q.post_program_id@, q2.post_program_id@);
    crate::util::lemma_member_round_trip(v, "preMint"@, q.pre_mint@, q2.pre_mint@);
    crate::util::lemma_member_round_trip(v, "postMint"@, q.post_mint@, q2.post_mint@);
    crate::util::lemma_member_round_trip(v, "preOwner"@, q.pre_owner@, q2.pre_owner@);
    crate::util::lemma_member_round_trip(v, "postOwner"@, q.post_owner@, q2.post_owner@);
}

/// The wire form of a reward filter: camelCase members, the string
/// arrays only when non-empty, the flags always.
pub open spec fn reward_request_json_matches(q: RewardRequest, v: JsonValue) -> bool {
    &&& v is Obj
    &&& str_arr_member(v, "pubkey"@, q.pubkey@)
}

/// A reward filter read back: absent arrays are empty, the flags are
/// required.
pub open spec fn reward_request_parseable(v: JsonValue) -> bool {
    &&& v is Obj
    &&& str_arr_read(v, "pubkey"@) is Ok
}

pub open spec fn reward_request_parsed(q: RewardRequest, v: JsonValue) -> bool {
    &&& match str_arr_read(v, "pubkey"@) {
        Ok(vs) => str_seq_is(q.pubkey@, vs),
        Err(_) => false,
    }
}

impl RewardRequest {
    /// Serialize for the wire: empty string arrays are left out, the
    /// flags always appear.
    #[verifier::rlimit(100)]
    pub fn to_json(&self) -> (r: JsonValue)
        ensures
            reward_request_json_matches(*self, r),
    {
        proof {
            reveal_strlit("pubkey");
            assert("pubkey"@.len() == 6);
        }
        let mut m: Vec<(String, JsonValue)> = Vec::new();
        proof {
            assert forall|k: Seq<char>| !has_key(m@, k) by {
                if has_key(m@, k) {
                    let j = choose|j: int| 0 <= j < m@.len() && (#[trigger] m@[j]).0@ == k;
                }
            }
        }
        put_str_arr(&mut m, "pubkey", &self.pubkey);
        JsonValue::Obj(m)
    }

    /// Read a reward filter back from its wire form.
    pub fn from_json(v: &JsonValue) -> (r: Result<RewardRequest, Error>)
        ensures
            r is Ok <==> reward_request_parseable(*v),
            r is Ok ==> reward_request_parsed(r->Ok_0, *v),
    {
        match v {
            JsonValue::Obj(_) => {},
            _ => { return Err(Error::new(ErrorKind::Shape, "reward_request as object")); },
        }
        let pubkey = read_str_arr(v, "pubkey")?;
        Ok(RewardRequest { pubkey })
    }
}

/// A serialized reward filter always reads back.
pub proof fn lemma_reward_request_serial_parses(q: RewardRequest, v: JsonValue)
    requires
        reward_request_json_matches(q, v),
    ensures
        reward_request_parseable(v),
{
    crate::util::lemma_member_parses(v, "pubkey"@, q.pubkey@);
}

/// Omit-empty round trip for the reward filter: what `to_json` writes,
/// `from_json` accepts, and the filter it returns reads member for
/// member as the one written.
pub proof fn lemma_reward_request_round_trip(q: RewardRequest, v: JsonValue, q2: RewardRequest)
    requires
        reward_request_json_matches(q, v),
        reward_request_parsed(q2, v),
    ensures
        str_seq_is(q2.pubkey@, q.pubkey@.map_values(|s: String| s@)),
{
    crate::util::lemma_member_round_trip(v, "pubkey"@, q.pubkey@, q2.pubkey@);
}

/// The per-entity field masks, serialized in full.
#[derive(Debug, Clone, Copy, PartialEq, Eq, Structural)]
pub struct Fields {
    pub instruction: InstructionFields,
    pub transaction: TransactionFields,
    pub log: LogFields,
    pub balance: BalanceFields,
    pub token_balance: TokenBalanceFields,
    pub reward: RewardFields,
    pub block: BlockFields,
}

impl Fields {
    /// The all-false masks.
    pub open spec fn default_spec() -> Fields {
        Fields {
            instruction: InstructionFields::default_spec(),
            transaction: TransactionFields::default_spec(),
            log: LogFields::default_spec(),
            balance: BalanceFields::default_spec(),
            token_balance: TokenBalanceFields::default_spec(),
            reward: RewardFields::default_spec(),
            block: BlockFields::default_spec(),
        }
    }

    /// Every mask bit of every entity set.
    pub fn all() -> (r: Fields)
        ensures
            r == (Fields {
                instruction: InstructionFields::all_spec(),
                transaction: TransactionFields::all_spec(),
                log: LogFields::all_spec(),
                balance: BalanceFields::all_spec(),
                token_balance: TokenBalanceFields::all_spec(),
                reward: RewardFields::all_spec(),
                block: BlockFields::all_spec(),
            }),
    {
        Fields {
            instruction: InstructionFields::all(),
            transaction: TransactionFields::all(),
            log: LogFields::all(),
            balance: BalanceFields::all(),
            token_balance: TokenBalanceFields::all(),
            reward: RewardFields::all(),
            block: BlockFields::all(),
        }
    }
}

impl Default for Fields {
    fn default() -> (r: Fields)
        ensures
            r == Fields::default_spec(),
    {
        Fields {
            instruction: InstructionFields::default(),
            transaction: TransactionFields::default(),
            log: LogFields::default(),
            balance: BalanceFields::default(),
            token_balance: TokenBalanceFields::default(),
            reward: RewardFields::default(),
            block: BlockFields::default(),
        }
    }
}


#[derive(Debug, Clone, Copy, PartialEq, Eq, Structural)]
pub struct InstructionFields {
    pub transaction_index: bool,
    pub instruction_address: bool,
    pub program_id: bool,
    pub accounts: bool,
    pub data: bool,
    pub d1: bool,
    pub d2: bool,
    pub d4: bool,
    pub d8: bool,
    pub error: bool,
    pub compute_units_consumed: bool,
    pub is_committed: bool,
    pub has_dropped_log_messages: bool,
}

impl InstructionFields {
    pub open spec fn default_spec() -> InstructionFields {
        InstructionFields {
            transaction_index: false,
            instruction_address: false,
            program_id: false,
            accounts: false,
            data: false,
            d1: false,
            d2: false,
            d4: false,
            d8: false,
            error: false,
            compute_units_consumed: false,
            is_committed: false,
            has_dropped_log_messages: false,
        }
    }

    pub open spec fn all_spec() -> InstructionFields {
        InstructionFields {
            transaction_index: true,
            instruction_address: true,
            program_id: true,
            accounts: true,
            data: true,
            d1: true,
            d2: true,
            d4: true,
            d8: true,
            error: true,
            compute_units_consumed: true,
            is_committed: true,
            has_dropped_log_messages: true,
        }
    }

    /// Every mask bit set.
    pub fn all() -> (r: InstructionFields)
        ensures
            r == InstructionFields::all_spec(),
    {
        InstructionFields {
            transaction_index: true,
            instruction_address: true,
            program_id: true,
            accounts: true,
            data: true,
            d1: true,
            d2: true,
            d4: true,
            d8: true,
            error: true,
            compute_units_consumed: true,
            is_committed: true,
            has_dropped_log_messages: true,
        }
    }
}

impl Default for InstructionFields {
    fn default() -> (r: InstructionFields)
        ensures
            r == InstructionFields::default_spec(),
    {
        InstructionFields {
            transaction_index: false,
            instruction_address: false,
            program_id: false,
            accounts: false,
            data: false,
            d1: false,
            d2: false,
            d4: false,
            d8: false,
            error: false,
            compute_units_consumed: false,
            is_committed: false,
            has_dropped_log_messages: false,
        }
    }
}


#[derive(Debug, Clone, Copy, PartialEq, Eq, Structural)]
pub struct TransactionFields {
    pub transaction_index: bool,
    pub version: bool,
    pub account_keys: bool,
    pub address_table_lookups: bool,
    pub num_readonly_signed_accounts: bool,
    pub num_readonly_unsigned_accounts: bool,
    pub num_required_signatures: bool,
    pub recent_blockhash: bool,
    pub signatures: bool,
    pub err: bool,
    pub fee: bool,
    pub compute_units_consumed: bool,
    pub loaded_addresses: bool,
    pub fee_payer: bool,
    pub has_dropped_log_messages: bool,
}

impl TransactionFields {
    pub open spec fn default_spec() -> TransactionFields {
        TransactionFields {
            transaction_index: false,
            version: false,
            account_keys: false,
            address_table_lookups: false,
            num_readonly_signed_accounts: false,
            num_readonly_unsigned_accounts: false,
            num_required_signatures: false,
            recent_blockhash: false,
            signatures: false,
            err: false,
            fee: false,
            compute_units_consumed: false,
            loaded_addresses: false,
            fee_payer: false,
            has_dropped_log_messages: false,
        }
    }

    pub open spec fn all_spec() -> TransactionFields {
        TransactionFields {
            transaction_index: true,
            version: true,
            account_keys: true,
            address_table_lookups: true,
            num_readonly_signed_accounts: true,
            num_readonly_unsigned_accounts: true,
            num_required_signatures: true,
            recent_blockhash: true,
            signatures: true,
            err: true,
            fee: true,
            compute_units_consumed: true,
            loaded_addresses: true,
            fee_payer: true,
            has_dropped_log_messages: true,
        }
    }

    /// Every mask bit set.
    pub fn all() -> (r: TransactionFields)
        ensures
            r == TransactionFields::all_spec(),
    {
        TransactionFields {
            transaction_index: true,
            version: true,
            account_keys: true,
            address_table_lookups: true,
            num_readonly_signed_accounts: true,
            num_readonly_unsigned_accounts: true,
            num_required_signatures: true,
            recent_blockhash: true,
            signatures: true,
            err: true,
            fee: true,
            compute_units_consumed: true,
            loaded_addresses: true,
            fee_payer: true,
            has_dropped_log_messages: true,
        }
    }
}

impl Default for TransactionFields {
    fn default() -> (r: TransactionFields)
        ensures
            r == TransactionFields::default_spec(),
    {
        TransactionFields {
            transaction_index: false,
            version: false,
            account_keys: false,
            address_table_lookups: false,
            num_readonly_signed_accounts: false,
            num_readonly_unsigned_accounts: false,
            num_required_signatures: false,
            recent_blockhash: false,
            signatures: false,
            err: false,
            fee: false,
            compute_units_consumed: false,
            loaded_addresses: false,
            fee_payer: false,
            has_dropped_log_messages: false,
        }
    }
}


#[derive(Debug, Clone, Copy, PartialEq, Eq, Structural)]
pub struct LogFields {
    pub transaction_index: bool,
    pub log_index: bool,
    pub instruction_address: bool,
    pub program_id: bool,
    pub kind: bool,
    pub message: bool,
}

impl LogFields {
    pub open spec fn default_spec() -> LogFields {
        LogFields {
            transaction_index: false,
            log_index: false,
            instruction_address: false,
            program_id: false,
            kind: false,
            message: false,
        }
    }

    pub open spec fn all_spec() -> LogFields {
        LogFields {
            transaction_index: true,
            log_index: true,
            instruction_address: true,
            program_id: true,
            kind: true,
            message: true,
        }
    }

    /// Every mask bit set.
    pub fn all() -> (r: LogFields)
        ensures
            r == LogFields::all_spec(),
    {
        LogFields {
            transaction_index: true,
            log_index: true,
            instruction_address: true,
            program_id: true,
            kind: true,
            message: true,
        }
    }
}

impl Default for LogFields {
    fn default() -> (r: LogFields)
        ensures
            r == LogFields::default_spec(),
    {
        LogFields {
            transaction_index: false,
            log_index: false,
            instruction_address: false,
            program_id: false,
            kind: false,
            message: false,
        }
    }
}


#[derive(Debug, Clone, Copy, PartialEq, Eq, Structural)]
pub struct BalanceFields {
    pub transaction_index: bool,
    pub account: bool,
    pub pre: bool,
    pub post: bool,
}

impl BalanceFields {
    pub open spec fn default_spec() -> BalanceFields {
        BalanceFields {
            transaction_index: false,
            account: false,
            pre: false,
            post: false,
        }
    }

    pub open spec fn all_spec() -> BalanceFields {
        BalanceFields {
            transaction_index: true,
            account: true,
            pre: true,
            post: true,
        }
    }

    /// Every mask bit set.
    pub fn all() -> (r: BalanceFields)
        ensures
            r == BalanceFields::all_spec(),
    {
        BalanceFields {
            transaction_index: true,
            account: true,
            pre: true,
            post: true,
        }
    }
}

impl Default for BalanceFields {
    fn default() -> (r: BalanceFields)
        ensures
            r == BalanceFields::default_spec(),
    {
        BalanceFields {
            transaction_index: false,
            account: false,
            pre: false,
            post: false,
        }
    }
}


#[derive(Debug, Clone, Copy, PartialEq, Eq, Structural)]
pub struct TokenBalanceFields {
    pub transaction_index: bool,
    pub account: bool,
    pub pre_mint: bool,
    pub post_mint: bool,
    pub pre_decimals: bool,
    pub post_decimals: bool,
    pub pre_program_id: bool,
    pub post_program_id: bool,
    pub pre_owner: bool,
    pub post_owner: bool,
    pub pre_amount: bool,
    pub post_amount: bool,
}

impl TokenBalanceFields {
    pub open spec fn default_spec() -> TokenBalanceFields {
        TokenBalanceFields {
            transaction_index: false,
            account: false,
            pre_mint: false,
            post_mint: false,
            pre_decimals: false,
            post_decimals: false,
            pre_program_id: false,
            post_program_id: false,
            pre_owner: false,
            post_owner: false,
            pre_amount: false,
            post_amount: false,
        }
    }

    pub open spec fn all_spec() -> TokenBalanceFields {
        TokenBalanceFields {
            transaction_index: true,
            account: true,
            pre_mint: true,
            post_mint: true,
            pre_decimals: true,
            post_decimals: true,
            pre_program_id: true,
            post_program_id: true,
            pre_owner: true,
            post_owner: true,
            pre_amount: true,
            post_amount: true,
        }
    }

    /// Every mask bit set.
    pub fn all() -> (r: TokenBalanceFields)
        ensures
            r == TokenBalanceFields::all_spec(),
    {
        TokenBalanceFields {
            transaction_index: true,
            account: true,
            pre_mint: true,
            post_mint: true,
            pre_decimals: true,
            post_decimals: true,
            pre_program_id: true,
            post_program_id: true,
            pre_owner: true,
            post_owner: true,
            pre_amount: true,
            post_amount: true,
        }
    }
}

impl Default for TokenBalanceFields {
    fn default() -> (r: TokenBalanceFields)
        ensures
            r == TokenBalanceFields::default_spec(),
    {
        TokenBalanceFields {
            transaction_index: false,
            account: false,
            pre_mint: false,
            post_mint: false,
            pre_decimals: false,
            post_decimals: false,
            pre_program_id: false,
            post_program_id: false,
            pre_owner: false,
            post_owner: false,
            pre_amount: false,
            post_amount: false,
        }
    }
}


#[derive(Debug, Clone, Copy, PartialEq, Eq, Structural)]
pub struct RewardFields {
    pub pubkey: bool,
    pub lamports: bool,
    pub post_balance: bool,
    pub reward_type: bool,
    pub commission: bool,
}

impl RewardFields {
    pub open spec fn default_spec() -> RewardFields {
        RewardFields {
            pubkey: false,
            lamports: false,
            post_balance: false,
            reward_type: false,
            commission: false,
        }
    }

    pub open spec fn all_spec() -> RewardFields {
        RewardFields {
            pubkey: true,
            lamports: true,
            post_balance: true,
            reward_type: true,
            commission: true,
        }
    }

    /// Every mask bit set.
    pub fn all() -> (r: RewardFields)
        ensures
            r == RewardFields::all_spec(),
    {
        RewardFields {
            pubkey: true,
            lamports: true,
            post_balance: true,
            reward_type: true,
            commission: true,
        }
    }
}

impl Default for RewardFields {
    fn default() -> (r: RewardFields)
        ensures
            r == RewardFields::default_spec(),
    {
        RewardFields {
            pubkey: false,
            lamports: false,
            post_balance: false,
            reward_type: false,
            commission: false,
        }
    }
}


#[derive(Debug, Clone, Copy, PartialEq, Eq, Structural)]
pub struct BlockFields {
    pub number: bool,
    pub hash: bool,
}

impl BlockFields {
    pub open spec fn default_spec() -> BlockFields {
        BlockFields {
            number: false,
            hash: false,
        }
    }

    pub open spec fn all_spec() -> BlockFields {
        BlockFields {
            number: true,
            hash: true,
        }
    }

    /// Every mask bit set.
    pub fn all() -> (r: BlockFields)
        ensures
            r == BlockFields::all_spec(),
    {
        BlockFields {
            number: true,
            hash: true,
        }
    }
}

impl Default for BlockFields {
    fn default() -> (r: BlockFields)
        ensures
            r == BlockFields::default_spec(),
    {
        BlockFields {
            number: false,
            hash: false,
        }
    }
}




/// The wire form of the instruction mask: every flag always present.
pub open spec fn instruction_fields_json_matches(q: InstructionFields, v: JsonValue) -> bool {
    &&& v is Obj
    &&& bool_member(v, "transactionIndex"@, q.transaction_index)
    &&& bool_member(v, "instructionAddress"@, q.instruction_address)
    &&& bool_member(v, "programId"@, q.program_id)
    &&& bool_member(v, "accounts"@, q.accounts)
    &&& bool_member(v, "data"@, q.data)
    &&& bool_member(v, "d1"@, q.d1)
    &&& bool_member(v, "d2"@, q.d2)
    &&& bool_member(v, "d4"@, q.d4)
    &&& bool_member(v, "d8"@, q.d8)
    &&& bool_member(v, "error"@, q.error)
    &&& bool_member(v, "computeUnitsConsumed"@, q.compute_units_consumed)
    &&& bool_member(v, "isCommitted"@, q.is_committed)
    &&& bool_member(v, "hasDroppedLogMessages"@, q.has_dropped_log_messages)
}

pub open spec fn instruction_fields_parseable(v: JsonValue) -> bool {
    &&& v is Obj
    &&& bool_field(v, "transactionIndex"@) matches Ok(Some(_))
    &&& bool_field(v, "instructionAddress"@) matches Ok(Some(_))
    &&& bool_field(v, "programId"@) matches Ok(Some(_))
    &&& bool_field(v, "accounts"@) matches Ok(Some(_))
    &&& bool_field(v, "data"@) matches Ok(Some(_))
    &&& bool_field(v, "d1"@) matches Ok(Some(_))
    &&& bool_field(v, "d2"@) matches Ok(Some(_))
    &&& bool_field(v, "d4"@) matches Ok(Some(_))
    &&& bool_field(v, "d8"@) matches Ok(Some(_))
    &&& bool_field(v, "error"@) matches Ok(Some(_))
    &&& bool_field(v, "computeUnitsConsumed"@) matches Ok(Some(_))
    &&& bool_field(v, "isCommitted"@) matches Ok(Some(_))
    &&& bool_field(v, "hasDroppedLogMessages"@) matches Ok(Some(_))
}

pub open spec fn instruction_fields_parsed(q: InstructionFields, v: JsonValue) -> bool {
    &&& bool_field(v, "transactionIndex"@) == Ok::<Option<bool>, crate::ErrorKind>(
        Some(q.transaction_index),
    )
    &&& bool_field(v, "instructionAddress"@) == Ok::<Option<bool>, crate::ErrorKind>(
        Some(q.instruction_address),
    )
    &&& bool_field(v, "programId"@) == Ok::<Option<bool>, crate::ErrorKind>(
        Some(q.program_id),
    )
    &&& bool_field(v, "accounts"@) == Ok::<Option<bool>, crate::ErrorKind>(
        Some(q.accounts),
    )
    &&& bool_field(v, "data"@) == Ok::<Option<bool>, crate::ErrorKind>(
        Some(q.data),
    )
    &&& bool_field(v, "d1"@) == Ok::<Option<bool>, crate::ErrorKind>(
        Some(q.d1),
    )
    &&& bool_field(v, "d2"@) == Ok::<Option<bool>, crate::ErrorKind>(
        Some(q.d2),
    )
    &&& bool_field(v, "d4"@) == Ok::<Option<bool>, crate::ErrorKind>(
        Some(q.d4),
    )
    &&& bool_field(v, "d8"@) == Ok::<Option<bool>, crate::ErrorKind>(
        Some(q.d8),
    )
    &&& bool_field(v, "error"@) == Ok::<Option<bool>, crate::ErrorKind>(
        Some(q.error),
    )
    &&& bool_field(v, "computeUnitsConsumed"@) == Ok::<Option<bool>, crate::ErrorKind>(
        Some(q.compute_units_consumed),
    )
    &&& bool_field(v, "isCommitted"@) == Ok::<Option<bool>, crate::ErrorKind>(
        Some(q.is_committed),
    )
    &&& bool_field(v, "hasDroppedLogMessages"@) == Ok::<Option<bool>, crate::ErrorKind>(
        Some(q.has_dropped_log_messages),
    )
}

impl InstructionFields {
    /// Serialize for the wire: the mask is written in full.
    #[verifier::rlimit(100)]
    pub fn to_json(&self) -> (r: JsonValue)
        ensures
            instruction_fields_json_matches(*self, r),
    {
        proof {
            reveal_strlit("transactionIndex");
            reveal_strlit("instructionAddress");
            reveal_strlit("programId");
            reveal_strlit("accounts");
            reveal_strlit("data");
            reveal_strlit("d1");
            reveal_strlit("d2");
            reveal_strlit("d4");
            reveal_strlit("d8");
            reveal_strlit("error");
            reveal_strlit("computeUnitsConsumed");
            reveal_strlit("isCommitted");
            reveal_strlit("hasDroppedLogMessages");
            assert("transactionIndex"@.len() == 16);
            assert("instructionAddress"@.len() == 18);
            assert("programId"@.len() == 9);
            assert("accounts"@.len() == 8);
            assert("data"@.len() == 4);
            assert("d1"@.len() == 2);
            assert("d2"@.len() == 2);
            assert("d4"@.len() == 2);
            assert("d8"@.len() == 2);
            assert("error"@.len() == 5);
            assert("computeUnitsConsumed"@.len() == 20);
            assert("isCommitted"@.len() == 11);
            assert("hasDroppedLogMessages"@.len() == 21);
            assert("d1"@[1] == '1');
            assert("d2"@[1] == '2');
            assert("d4"@[1] == '4');
            assert("d8"@[1] == '8');
        }
        let mut m: Vec<(String, JsonValue)> = Vec::new();
        proof {
            assert forall|k: Seq<char>| !has_key(m@, k) by {
                if has_key(m@, k) {
                    let j = choose|j: int| 0 <= j < m@.len() && (#[trigger] m@[j]).0@ == k;
                }
            }
        }
        put_member(&mut m, "transactionIndex", JsonValue::Bool(self.transaction_index));
        put_member(&mut m, "instructionAddress", JsonValue::Bool(self.instruction_address));
        put_member(&mut m, "programId", JsonValue::Bool(self.program_id));
        put_member(&mut m, "accounts", JsonValue::Bool(self.accounts));
        put_member(&mut m, "data", JsonValue::Bool(self.data));
        put_member(&mut m, "d1", JsonValue::Bool(self.d1));
        put_member(&mut m, "d2", JsonValue::Bool(self.d2));
        put_member(&mut m, "d4", JsonValue::Bool(self.d4));
        put_member(&mut m, "d8", JsonValue::Bool(self.d8));
        put_member(&mut m, "error", JsonValue::Bool(self.error));
        put_member(&mut m, "computeUnitsConsumed", JsonValue::Bool(self.compute_units_consumed));
        put_member(&mut m, "isCommitted", JsonValue::Bool(self.is_committed));
        put_member(&mut m, "hasDroppedLogMessages", JsonValue::Bool(self.has_dropped_log_messages));
        JsonValue::Obj(m)
    }

    /// Read the instruction mask back from its wire form; every flag is
    /// required.
    pub fn from_json(jv: &JsonValue) -> (r: Result<InstructionFields, Error>)
        ensures
            r is Ok <==> instruction_fields_parseable(*jv),
            r is Ok ==> instruction_fields_parsed(r->Ok_0, *jv),
    {
        match jv {
            JsonValue::Obj(_) => {},
            _ => { return Err(Error::new(ErrorKind::Shape, "instruction_fields as object")); },
        }
        let transaction_index = read_bool(jv, "transactionIndex")?;
        let instruction_address = read_bool(jv, "instructionAddress")?;
        let program_id = read_bool(jv, "programId")?;
        let accounts = read_bool(jv, "accounts")?;
        let data = read_bool(jv, "data")?;
        let d1 = read_bool(jv, "d1")?;
        let d2 = read_bool(jv, "d2")?;
        let d4 = read_bool(jv, "d4")?;
        let d8 = read_bool(jv, "d8")?;
        let error = read_bool(jv, "error")?;
        let compute_units_consumed = read_bool(jv, "computeUnitsConsumed")?;
        let is_committed = read_bool(jv, "isCommitted")?;
        let has_dropped_log_messages = read_bool(jv, "hasDroppedLogMessages")?;
        Ok(InstructionFields { transaction_index, instruction_address, program_id, accounts, data, d1, d2, d4, d8, error, compute_units_consumed, is_committed, has_dropped_log_messages })
    }
}

/// Mask round trip: what `to_json` writes, `from_json` accepts, and the
/// mask it returns is the one written.
pub proof fn lemma_instruction_fields_round_trip(q: InstructionFields, v: JsonValue, q2: InstructionFields)
    requires
        instruction_fields_json_matches(q, v),
        instruction_fields_parsed(q2, v),
    ensures
        q2 == q,
{
    assert(q2.transaction_index == q.transaction_index);
    assert(q2.instruction_address == q.instruction_address);
    assert(q2.program_id == q.program_id);
    assert(q2.accounts == q.accounts);
    assert(q2.data == q.data);
    assert(q2.d1 == q.d1);
    assert(q2.d2 == q.d2);
    assert(q2.d4 == q.d4);
    assert(q2.d8 == q.d8);
    assert(q2.error == q.error);
    assert(q2.compute_units_consumed == q.compute_units_consumed);
    assert(q2.is_committed == q.is_committed);
    assert(q2.has_dropped_log_messages == q.has_dropped_log_messages);
}

/// The wire form of the transaction mask: every flag always present.
pub open spec fn transaction_fields_json_matches(q: TransactionFields, v: JsonValue) -> bool {
    &&& v is Obj
    &&& bool_member(v, "transactionIndex"@, q.transaction_index)
    &&& bool_member(v, "version"@, q.version)
    &&& bool_member(v, "accountKeys"@, q.account_keys)
    &&& bool_member(v, "addressTableLookups"@, q.address_table_lookups)
    &&& bool_member(v, "numReadonlySignedAccounts"@, q.num_readonly_signed_accounts)
    &&& bool_member(v, "numReadonlyUnsignedAccounts"@, q.num_readonly_unsigned_accounts)
    &&& bool_member(v, "numRequiredSignatures"@, q.num_required_signatures)
    &&& bool_member(v, "recentBlockhash"@, q.recent_blockhash)
    &&& bool_member(v, "signatures"@, q.signatures)
    &&& bool_member(v, "err"@, q.err)
    &&& bool_member(v, "fee"@, q.fee)
    &&& bool_member(v, "computeUnitsConsumed"@, q.compute_units_consumed)
    &&& bool_member(v, "loadedAddresses"@, q.loaded_addresses)
    &&& bool_member(v, "feePayer"@, q.fee_payer)
    &&& bool_member(v, "hasDroppedLogMessages"@, q.has_dropped_log_messages)
}

pub open spec fn transaction_fields_parseable(v: JsonValue) -> bool {
    &&& v is Obj
    &&& bool_field(v, "transactionIndex"@) matches Ok(Some(_))
    &&& bool_field(v, "version"@) matches Ok(Some(_))
    &&& bool_field(v, "accountKeys"@) matches Ok(Some(_))
    &&& bool_field(v, "addressTableLookups"@) matches Ok(Some(_))
    &&& bool_field(v, "numReadonlySignedAccounts"@) matches Ok(Some(_))
    &&& bool_field(v, "numReadonlyUnsignedAccounts"@) matches Ok(Some(_))
    &&& bool_field(v, "numRequiredSignatures"@) matches Ok(Some(_))
    &&& bool_field(v, "recentBlockhash"@) matches Ok(Some(_))
    &&& bool_field(v, "signatures"@) matches Ok(Some(_))
    &&& bool_field(v, "err"@) matches Ok(Some(_))
    &&& bool_field(v, "fee"@) matches Ok(Some(_))
    &&& bool_field(v, "computeUnitsConsumed"@) matches Ok(Some(_))
    &&& bool_field(v, "loadedAddresses"@) matches Ok(Some(_))
    &&& bool_field(v, "feePayer"@) matches Ok(Some(_))
    &&& bool_field(v, "hasDroppedLogMessages"@) matches Ok(Some(_))
}

pub open spec fn transaction_fields_parsed(q: TransactionFields, v: JsonValue) -> bool {
    &&& bool_field(v, "transactionIndex"@) == Ok::<Option<bool>, crate::ErrorKind>(
        Some(q.transaction_index),
    )
    &&& bool_field(v, "version"@) == Ok::<Option<bool>, crate::ErrorKind>(
        Some(q.version),
    )
    &&& bool_field(v, "accountKeys"@) == Ok::<Option<bool>, crate::ErrorKind>(
        Some(q.account_keys),
    )
    &&& bool_field(v, "addressTableLookups"@) == Ok::<Option<bool>, crate::ErrorKind>(
        Some(q.address_table_lookups),
    )
    &&& bool_field(v, "numReadonlySignedAccounts"@) == Ok::<Option<bool>, crate::ErrorKind>(
        Some(q.num_readonly_signed_accounts),
    )
    &&& bool_field(v, "numReadonlyUnsignedAccounts"@) == Ok::<Option<bool>, crate::ErrorKind>(
        Some(q.num_readonly_unsigned_accounts),
    )
    &&& bool_field(v, "numRequiredSignatures"@) == Ok::<Option<bool>, crate::ErrorKind>(
        Some(q.num_required_signatures),
    )
    &&& bool_field(v, "recentBlockhash"@) == Ok::<Option<bool>, crate::ErrorKind>(
        Some(q.recent_blockhash),
    )
    &&& bool_field(v, "signatures"@) == Ok::<Option<bool>, crate::ErrorKind>(
        Some(q.signatures),
    )
    &&& bool_field(v, "err"@) == Ok::<Option<bool>, crate::ErrorKind>(
        Some(q.err),
    )
    &&& bool_field(v, "fee"@) == Ok::<Option<bool>, crate::ErrorKind>(
        Some(q.fee),
    )
    &&& bool_field(v, "computeUnitsConsumed"@) == Ok::<Option<bool>, crate::ErrorKind>(
        Some(q.compute_units_consumed),
    )
    &&& bool_field(v, "loadedAddresses"@) == Ok::<Option<bool>, crate::ErrorKind>(
        Some(q.loaded_addresses),
    )
    &&& bool_field(v, "feePayer"@) == Ok::<Option<bool>, crate::ErrorKind>(
        Some(q.fee_payer),
    )
    &&& bool_field(v, "hasDroppedLogMessages"@) == Ok::<Option<bool>, crate::ErrorKind>(
        Some(q.has_dropped_log_messages),
    )
}

impl TransactionFields {
    /// Serialize for the wire: the mask is written in full.
    #[verifier::rlimit(100)]
    pub fn to_json(&self) -> (r: JsonValue)
        ensures
            transaction_fields_json_matches(*self, r),
    {
        proof {
            reveal_strlit("transactionIndex");
            reveal_strlit("version");
            reveal_strlit("accountKeys");
            reveal_strlit("addressTableLookups");
            reveal_strlit("numReadonlySignedAccounts");
            reveal_strlit("numReadonlyUnsignedAccounts");
            reveal_strlit("numRequiredSignatures");
            reveal_strlit("recentBlockhash");
            reveal_strlit("signatures");
            reveal_strlit("err");
            reveal_strlit("fee");
            reveal_strlit("computeUnitsConsumed");
            reveal_strlit("loadedAddresses");
            reveal_strlit("feePayer");
            reveal_strlit("hasDroppedLogMessages");
            assert("transactionIndex"@.len() == 16);
            assert("version"@.len() == 7);
            assert("accountKeys"@.len() == 11);
            assert("addressTableLookups"@.len() == 19);
            assert("numReadonlySignedAccounts"@.len() == 25);
            assert("numReadonlyUnsignedAccounts"@.len() == 27);
            assert("numRequiredSignatures"@.len() == 21);
            assert("recentBlockhash"@.len() == 15);
            assert("signatures"@.len() == 10);
            assert("err"@.len() == 3);
            assert("fee"@.len() == 3);
            assert("computeUnitsConsumed"@.len() == 20);
            assert("loadedAddresses"@.len() == 15);
            assert("feePayer"@.len() == 8);
            assert("hasDroppedLogMessages"@.len() == 21);
            assert("numRequiredSignatures"@[0] == 'n');
            assert("hasDroppedLogMessages"@[0] == 'h');
            assert("recentBlockhash"@[0] == 'r');
            assert("loadedAddresses"@[0] == 'l');
            assert("err"@[0] == 'e');
            assert("fee"@[0] == 'f');
        }
        let mut m: Vec<(String, JsonValue)> = Vec::new();
        proof {
            assert forall|k: Seq<char>| !has_key(m@, k) by {
                if has_key(m@, k) {
                    let j = choose|j: int| 0 <= j < m@.len() && (#[trigger] m@[j]).0@ == k;
                }
            }
        }
        put_member(&mut m, "transactionIndex", JsonValue::Bool(self.transaction_index));
        put_member(&mut m, "version", JsonValue::Bool(self.version));
        put_member(&mut m, "accountKeys", JsonValue::Bool(self.account_keys));
        put_member(&mut m, "addressTableLookups", JsonValue::Bool(self.address_table_lookups));
        put_member(&mut m, "numReadonlySignedAccounts", JsonValue::Bool(self.num_readonly_signed_accounts));
        put_member(&mut m, "numReadonlyUnsignedAccounts", JsonValue::Bool(self.num_readonly_unsigned_accounts));
        put_member(&mut m, "numRequiredSignatures", JsonValue::Bool(self.num_required_signatures));
        put_member(&mut m, "recentBlockhash", JsonValue::Bool(self.recent_blockhash));
        put_member(&mut m, "signatures", JsonValue::Bool(self.signatures));
        put_member(&mut m, "err", JsonValue::Bool(self.err));
        put_member(&mut m, "fee", JsonValue::Bool(self.fee));
        put_member(&mut m, "computeUnitsConsumed", JsonValue::Bool(self.compute_units_consumed));
        put_member(&mut m, "loadedAddresses", JsonValue::Bool(self.loaded_addresses));
        put_member(&mut m, "feePayer", JsonValue::Bool(self.fee_payer));
        put_member(&mut m, "hasDroppedLogMessages", JsonValue::Bool(self.has_dropped_log_messages));
        JsonValue::Obj(m)
    }

    /// Read the transaction mask back from its wire form; every flag is
    /// required.
    pub fn from_json(jv: &JsonValue) -> (r: Result<TransactionFields, Error>)
        ensures
            r is Ok <==> transaction_fields_parseable(*jv),
            r is Ok ==> transaction_fields_parsed(r->Ok_0, *jv),
    {
        match jv {
            JsonValue::Obj(_) => {},
            _ => { return Err(Error::new(ErrorKind::Shape, "transaction_fields as object")); },
        }
        let transaction_index = read_bool(jv, "transactionIndex")?;
        let version = read_bool(jv, "version")?;
        let account_keys = read_bool(jv, "accountKeys")?;
        let address_table_lookups = read_bool(jv, "addressTableLookups")?;
        let num_readonly_signed_accounts = read_bool(jv, "numReadonlySignedAccounts")?;
        let num_readonly_unsigned_accounts = read_bool(jv, "numReadonlyUnsignedAccounts")?;
        let num_required_signatures = read_bool(jv, "numRequiredSignatures")?;
        let recent_blockhash = read_bool(jv, "recentBlockhash")?;
        let signatures = read_bool(jv, "signatures")?;
        let err = read_bool(jv, "err")?;
        let fee = read_bool(jv, "fee")?;
        let compute_units_consumed = read_bool(jv, "computeUnitsConsumed")?;
        let loaded_addresses = read_bool(jv, "loadedAddresses")?;
        let fee_payer = read_bool(jv, "feePayer")?;
        let has_dropped_log_messages = read_bool(jv, "hasDroppedLogMessages")?;
        Ok(TransactionFields { transaction_index, version, account_keys, address_table_lookups, num_readonly_signed_accounts, num_readonly_unsigned_accounts, num_required_signatures, recent_blockhash, signatures, err, fee, compute_units_consumed, loaded_addresses, fee_payer, has_dropped_log_messages })
    }
}

/// Mask round trip: what `to_json` writes, `from_json` accepts, and the
/// mask it returns is the one written.
pub proof fn lemma_transaction_fields_round_trip(q: TransactionFields, v: JsonValue, q2: TransactionFields)
    requires
        transaction_fields_json_matches(q, v),
        transaction_fields_parsed(q2, v),
    ensures
        q2 == q,
{
    assert(q2.transaction_index == q.transaction_index);
    assert(q2.version == q.version);
    assert(q2.account_keys == q.account_keys);
    assert(q2.address_table_lookups == q.address_table_lookups);
    assert(q2.num_readonly_signed_accounts == q.num_readonly_signed_accounts);
    assert(q2.num_readonly_unsigned_accounts == q.num_readonly_unsigned_accounts);
    assert(q2.num_required_signatures == q.num_required_signatures);
    assert(q2.recent_blockhash == q.recent_blockhash);
    assert(q2.signatures == q.signatures);
    assert(q2.err == q.err);
    assert(q2.fee == q.fee);
    assert(q2.compute_units_consumed == q.compute_units_consumed);
    assert(q2.loaded_addresses == q.loaded_addresses);
    assert(q2.fee_payer == q.fee_payer);
    assert(q2.has_dropped_log_messages == q.has_dropped_log_messages);
}

/// The wire form of the log mask: every flag always present.
pub open spec fn log_fields_json_matches(q: LogFields, v: JsonValue) -> bool {
    &&& v is Obj
    &&& bool_member(v, "transactionIndex"@, q.transaction_index)
    &&& bool_member(v, "logIndex"@, q.log_index)
    &&& bool_member(v, "instructionAddress"@, q.instruction_address)
    &&& bool_member(v, "programId"@, q.program_id)
    &&& bool_member(v, "kind"@, q.kind)
    &&& bool_member(v, "message"@, q.message)
}

pub open spec fn log_fields_parseable(v: JsonValue) -> bool {
    &&& v is Obj
    &&& bool_field(v, "transactionIndex"@) matches Ok(Some(_))
    &&& bool_field(v, "logIndex"@) matches Ok(Some(_))
    &&& bool_field(v, "instructionAddress"@) matches Ok(Some(_))
    &&& bool_field(v, "programId"@) matches Ok(Some(_))
    &&& bool_field(v, "kind"@) matches Ok(Some(_))
    &&& bool_field(v, "message"@) matches Ok(Some(_))
}

pub open spec fn log_fields_parsed(q: LogFields, v: JsonValue) -> bool {
    &&& bool_field(v, "transactionIndex"@) == Ok::<Option<bool>, crate::ErrorKind>(
        Some(q.transaction_index),
    )
    &&& bool_field(v, "logIndex"@) == Ok::<Option<bool>, crate::ErrorKind>(
        Some(q.log_index),
    )
    &&& bool_field(v, "instructionAddress"@) == Ok::<Option<bool>, crate::ErrorKind>(
        Some(q.instruction_address),
    )
    &&& bool_field(v, "programId"@) == Ok::<Option<bool>, crate::ErrorKind>(
        Some(q.program_id),
    )
    &&& bool_field(v, "kind"@) == Ok::<Option<bool>, crate::ErrorKind>(
        Some(q.kind),
    )
    &&& bool_field(v, "message"@) == Ok::<Option<bool>, crate::ErrorKind>(
        Some(q.message),
    )
}

impl LogFields {
    /// Serialize for the wire: the mask is written in full.
    #[verifier::rlimit(100)]
    pub fn to_json(&self) -> (r: JsonValue)
        ensures
            log_fields_json_matches(*self, r),
    {
        proof {
            reveal_strlit("transactionIndex");
            reveal_strlit("logIndex");
            reveal_strlit("instructionAddress");
            reveal_strlit("programId");
            reveal_strlit("kind");
            reveal_strlit("message");
            assert("transactionIndex"@.len() == 16);
            assert("logIndex"@.len() == 8);
            assert("instructionAddress"@.len() == 18);
            assert("programId"@.len() == 9);
            assert("kind"@.len() == 4);
            assert("message"@.len() == 7);
        }
        let mut m: Vec<(String, JsonValue)> = Vec::new();
        proof {
            assert forall|k: Seq<char>| !has_key(m@, k) by {
                if has_key(m@, k) {
                    let j = choose|j: int| 0 <= j < m@.len() && (#[trigger] m@[j]).0@ == k;
                }
            }
        }
        put_member(&mut m, "transactionIndex", JsonValue::Bool(self.transaction_index));
        put_member(&mut m, "logIndex", JsonValue::Bool(self.log_index));
        put_member(&mut m, "instructionAddress", JsonValue::Bool(self.instruction_address));
        put_member(&mut m, "programId", JsonValue::Bool(self.program_id));
        put_member(&mut m, "kind", JsonValue::Bool(self.kind));
        put_member(&mut m, "message", JsonValue::Bool(self.message));
        JsonValue::Obj(m)
    }

    /// Read the log mask back from its wire form; every flag is
    /// required.
    pub fn from_json(jv: &JsonValue) -> (r: Result<LogFields, Error>)
        ensures
            r is Ok <==> log_fields_parseable(*jv),
            r is Ok ==> log_fields_parsed(r->Ok_0, *jv),
    {
        match jv {
            JsonValue::Obj(_) => {},
            _ => { return Err(Error::new(ErrorKind::Shape, "log_fields as object")); },
        }
        let transaction_index = read_bool(jv, "transactionIndex")?;
        let log_index = read_bool(jv, "logIndex")?;
        let instruction_address = read_bool(jv, "instructionAddress")?;
        let program_id = read_bool(jv, "programId")?;
        let kind = read_bool(jv, "kind")?;
        let message = read_bool(jv, "message")?;
        Ok(LogFields { transaction_index, log_index, instruction_address, program_id, kind, message })
    }
}

/// Mask round trip: what `to_json` writes, `from_json` accepts, and the
/// mask it returns is the one written.
pub proof fn lemma_log_fields_round_trip(q: LogFields, v: JsonValue, q2: LogFields)
    requires
        log_fields_json_matches(q, v),
        log_fields_parsed(q2, v),
    ensures
        q2 == q,
{
    assert(q2.transaction_index == q.transaction_index);
    assert(q2.log_index == q.log_index);
    assert(q2.instruction_address == q.instruction_address);
    assert(q2.program_id == q.program_id);
    assert(q2.kind == q.kind);
    assert(q2.message == q.message);
}

/// The wire form of the balance mask: every flag always present.
pub open spec fn balance_fields_json_matches(q: BalanceFields, v: JsonValue) -> bool {
    &&& v is Obj
    &&& bool_member(v, "transactionIndex"@, q.transaction_index)
    &&& bool_member(v, "account"@, q.account)
    &&& bool_member(v, "pre"@, q.pre)
    &&& bool_member(v, "post"@, q.post)
}

pub open spec fn balance_fields_parseable(v: JsonValue) -> bool {
    &&& v is Obj
    &&& bool_field(v, "transactionIndex"@) matches Ok(Some(_))
    &&& bool_field(v, "account"@) matches Ok(Some(_))
    &&& bool_field(v, "pre"@) matches Ok(Some(_))
    &&& bool_field(v, "post"@) matches Ok(Some(_))
}

pub open spec fn balance_fields_parsed(q: BalanceFields, v: JsonValue) -> bool {
    &&& bool_field(v, "transactionIndex"@) == Ok::<Option<bool>, crate::ErrorKind>(
        Some(q.transaction_index),
    )
    &&& bool_field(v, "account"@) == Ok::<Option<bool>, crate::ErrorKind>(
        Some(q.account),
    )
    &&& bool_field(v, "pre"@) == Ok::<Option<bool>, crate::ErrorKind>(
        Some(q.pre),
    )
    &&& bool_field(v, "post"@) == Ok::<Option<bool>, crate::ErrorKind>(
        Some(q.post),
    )
}

impl BalanceFields {
    /// Serialize for the wire: the mask is written in full.
    #[verifier::rlimit(100)]
    pub fn to_json(&self) -> (r: JsonValue)
        ensures
            balance_fields_json_matches(*self, r),
    {
        proof {
            reveal_strlit("transactionIndex");
            reveal_strlit("account");
            reveal_strlit("pre");
            reveal_strlit("post");
            assert("transactionIndex"@.len() == 16);
            assert("account"@.len() == 7);
            assert("pre"@.len() == 3);
            assert("post"@.len() == 4);
        }
        let mut m: Vec<(String, JsonValue)> = Vec::new();
        proof {
            assert forall|k: Seq<char>| !has_key(m@, k) by {
                if has_key(m@, k) {
                    let j = choose|j: int| 0 <= j < m@.len() && (#[trigger] m@[j]).0@ == k;
                }
            }
        }
        put_member(&mut m, "transactionIndex", JsonValue::Bool(self.transaction_index));
        put_member(&mut m, "account", JsonValue::Bool(self.account));
        put_member(&mut m, "pre", JsonValue::Bool(self.pre));
        put_member(&mut m, "post", JsonValue::Bool(self.post));
        JsonValue::Obj(m)
    }

    /// Read the balance mask back from its wire form; every flag is
    /// required.
    pub fn from_json(jv: &JsonValue) -> (r: Result<BalanceFields, Error>)
        ensures
            r is Ok <==> balance_fields_parseable(*jv),
            r is Ok ==> balance_fields_parsed(r->Ok_0, *jv),
    {
        match jv {
            JsonValue::Obj(_) => {},
            _ => { return Err(Error::new(ErrorKind::Shape, "balance_fields as object")); },
        }
        let transaction_index = read_bool(jv, "transactionIndex")?;
        let account = read_bool(jv, "account")?;
        let pre = read_bool(jv, "pre")?;
        let post = read_bool(jv, "post")?;
        Ok(BalanceFields { transaction_index, account, pre, post })
    }
}

/// Mask round trip: what `to_json` writes, `from_json` accepts, and the
/// mask it returns is the one written.
pub proof fn lemma_balance_fields_round_trip(q: BalanceFields, v: JsonValue, q2: BalanceFields)
    requires
        balance_fields_json_matches(q, v),
        balance_fields_parsed(q2, v),
    ensures
        q2 == q,
{
    assert(q2.transaction_index == q.transaction_index);
    assert(q2.account == q.account);
    assert(q2.pre == q.pre);
    assert(q2.post == q.post);
}

/// The wire form of the token-balance mask: every flag always present.
pub open spec fn token_balance_fields_json_matches(q: TokenBalanceFields, v: JsonValue) -> bool {
    &&& v is Obj
    &&& bool_member(v, "transactionIndex"@, q.transaction_index)
    &&& bool_member(v, "account"@, q.account)
    &&& bool_member(v, "preMint"@, q.pre_mint)
    &&& bool_member(v, "postMint"@, q.post_mint)
    &&& bool_member(v, "preDecimals"@, q.pre_decimals)
    &&& bool_member(v, "postDecimals"@, q.post_decimals)
    &&& bool_member(v, "preProgramId"@, q.pre_program_id)
    &&& bool_member(v, "postProgramId"@, q.post_program_id)
    &&& bool_member(v, "preOwner"@, q.pre_owner)
    &&& bool_member(v, "postOwner"@, q.post_owner)
    &&& bool_member(v, "preAmount"@, q.pre_amount)
    &&& bool_member(v, "postAmount"@, q.post_amount)
}

pub open spec fn token_balance_fields_parseable(v: JsonValue) -> bool {
    &&& v is Obj
    &&& bool_field(v, "transactionIndex"@) matches Ok(Some(_))
    &&& bool_field(v, "account"@) matches Ok(Some(_))
    &&& bool_field(v, "preMint"@) matches Ok(Some(_))
    &&& bool_field(v, "postMint"@) matches Ok(Some(_))
    &&& bool_field(v, "preDecimals"@) matches Ok(Some(_))
    &&& bool_field(v, "postDecimals"@) matches Ok(Some(_))
    &&& bool_field(v, "preProgramId"@) matches Ok(Some(_))
    &&& bool_field(v, "postProgramId"@) matches Ok(Some(_))
    &&& bool_field(v, "preOwner"@) matches Ok(Some(_))
    &&& bool_field(v, "postOwner"@) matches Ok(Some(_))
    &&& bool_field(v, "preAmount"@) matches Ok(Some(_))
    &&& bool_field(v, "postAmount"@) matches Ok(Some(_))
}

pub open spec fn token_balance_fields_parsed(q: TokenBalanceFields, v: JsonValue) -> bool {
    &&& bool_field(v, "transactionIndex"@) == Ok::<Option<bool>, crate::ErrorKind>(
        Some(q.transaction_index),
    )
    &&& bool_field(v, "account"@) == Ok::<Option<bool>, crate::ErrorKind>(
        Some(q.account),
    )
    &&& bool_field(v, "preMint"@) == Ok::<Option<bool>, crate::ErrorKind>(
        Some(q.pre_mint),
    )
    &&& bool_field(v, "postMint"@) == Ok::<Option<bool>, crate::ErrorKind>(
        Some(q.post_mint),
    )
    &&& bool_field(v, "preDecimals"@) == Ok::<Option<bool>, crate::ErrorKind>(
        Some(q.pre_decimals),
    )
    &&& bool_field(v, "postDecimals"@) == Ok::<Option<bool>, crate::ErrorKind>(
        Some(q.post_decimals),
    )
    &&& bool_field(v, "preProgramId"@) == Ok::<Option<bool>, crate::ErrorKind>(
        Some(q.pre_program_id),
    )
    &&& bool_field(v, "postProgramId"@) == Ok::<Option<bool>, crate::ErrorKind>(
        Some(q.post_program_id),
    )
    &&& bool_field(v, "preOwner"@) == Ok::<Option<bool>, crate::ErrorKind>(
        Some(q.pre_owner),
    )
    &&& bool_field(v, "postOwner"@) == Ok::<Option<bool>, crate::ErrorKind>(
        Some(q.post_owner),
    )
    &&& bool_field(v, "preAmount"@) == Ok::<Option<bool>, crate::ErrorKind>(
        Some(q.pre_amount),
    )
    &&& bool_field(v, "postAmount"@) == Ok::<Option<bool>, crate::ErrorKind>(
        Some(q.post_amount),
    )
}

impl TokenBalanceFields {
    /// Serialize for the wire: the mask is written in full.
    #[verifier::rlimit(100)]
    pub fn to_json(&self) -> (r: JsonValue)
        ensures
            token_balance_fields_json_matches(*self, r),
    {
        proof {
            reveal_strlit("transactionIndex");
            reveal_strlit("account");
            reveal_strlit("preMint");
            reveal_strlit("postMint");
            reveal_strlit("preDecimals");
            reveal_strlit("postDecimals");
            reveal_strlit("preProgramId");
            reveal_strlit("postProgramId");
            reveal_strlit("preOwner");
            reveal_strlit("postOwner");
            reveal_strlit("preAmount");
            reveal_strlit("postAmount");
            assert("transactionIndex"@.len() == 16);
            assert("account"@.len() == 7);
            assert("preMint"@.len() == 7);
            assert("postMint"@.len() == 8);
            assert("preDecimals"@.len() == 11);
            assert("postDecimals"@.len() == 12);
            assert("preProgramId"@.len() == 12);
            assert("postProgramId"@.len() == 13);
            assert("preOwner"@.len() == 8);
            assert("postOwner"@.len() == 9);
            assert("preAmount"@.len() == 9);
            assert("postAmount"@.len() == 10);
            assert("account"@[0] == 'a');
            assert("preMint"@[0] == 'p');
            assert("postMint"@[1] == 'o');
            assert("preOwner"@[1] == 'r');
            assert("postDecimals"@[1] == 'o');
            assert("preProgramId"@[1] == 'r');
            assert("postOwner"@[1] == 'o');
            assert("preAmount"@[1] == 'r');
        }
        let mut m: Vec<(String, JsonValue)> = Vec::new();
        proof {
            assert forall|k: Seq<char>| !has_key(m@, k) by {
                if has_key(m@, k) {
                    let j = choose|j: int| 0 <= j < m@.len() && (#[trigger] m@[j]).0@ == k;
                }
            }
        }
        put_member(&mut m, "transactionIndex", JsonValue::Bool(self.transaction_index));
        put_member(&mut m, "account", JsonValue::Bool(self.account));
        put_member(&mut m, "preMint", JsonValue::Bool(self.pre_mint));
        put_member(&mut m, "postMint", JsonValue::Bool(self.post_mint));
        put_member(&mut m, "preDecimals", JsonValue::Bool(self.pre_decimals));
        put_member(&mut m, "postDecimals", JsonValue::Bool(self.post_decimals));
        put_member(&mut m, "preProgramId", JsonValue::Bool(self.pre_program_id));
        put_member(&mut m, "postProgramId", JsonValue::Bool(self.post_program_id));
        put_member(&mut m, "preOwner", JsonValue::Bool(self.pre_owner));
        put_member(&mut m, "postOwner", JsonValue::Bool(self.post_owner));
        put_member(&mut m, "preAmount", JsonValue::Bool(self.pre_amount));
        put_member(&mut m, "postAmount", JsonValue::Bool(self.post_amount));
        JsonValue::Obj(m)
    }

    /// Read the token-balance mask back from its wire form; every flag is
    /// required.
    pub fn from_json(jv: &JsonValue) -> (r: Result<TokenBalanceFields, Error>)
        ensures
            r is Ok <==> token_balance_fields_parseable(*jv),
            r is Ok ==> token_balance_fields_parsed(r->Ok_0, *jv),
    {
        match jv {
            JsonValue::Obj(_) => {},
            _ => { return Err(Error::new(ErrorKind::Shape, "token_balance_fields as object")); },
        }
        let transaction_index = read_bool(jv, "transactionIndex")?;
        let account = read_bool(jv, "account")?;
        let pre_mint = read_bool(jv, "preMint")?;
        let post_mint = read_bool(jv, "postMint")?;
        let pre_decimals = read_bool(jv, "preDecimals")?;
        let post_decimals = read_bool(jv, "postDecimals")?;
        let pre_program_id = read_bool(jv, "preProgramId")?;
        let post_program_id = read_bool(jv, "postProgramId")?;
        let pre_owner = read_bool(jv, "preOwner")?;
        let post_owner = read_bool(jv, "postOwner")?;
        let pre_amount = read_bool(jv, "preAmount")?;
        let post_amount = read_bool(jv, "postAmount")?;
        Ok(TokenBalanceFields { transaction_index, account, pre_mint, post_mint, pre_decimals, post_decimals, pre_program_id, post_program_id, pre_owner, post_owner, pre_amount, post_amount })
    }
}

/// Mask round trip: what `to_json` writes, `from_json` accepts, and the
/// mask it returns is the one written.
pub proof fn lemma_token_balance_fields_round_trip(q: TokenBalanceFields, v: JsonValue, q2: TokenBalanceFields)
    requires
        token_balance_fields_json_matches(q, v),
        token_balance_fields_parsed(q2, v),
    ensures
        q2 == q,
{
    assert(q2.transaction_index == q.transaction_index);
    assert(q2.account == q.account);
    assert(q2.pre_mint == q.pre_mint);
    assert(q2.post_mint == q.post_mint);
    assert(q2.pre_decimals == q.pre_decimals);
    assert(q2.post_decimals == q.post_decimals);
    assert(q2.pre_program_id == q.pre_program_id);
    assert(q2.post_program_id == q.post_program_id);
    assert(q2.pre_owner == q.pre_owner);
    assert(q2.post_owner == q.post_owner);
    assert(q2.pre_amount == q.pre_amount);
    assert(q2.post_amount == q.post_amount);
}

/// The wire form of the reward mask: every flag always present.
pub open spec fn reward_fields_json_matches(q: RewardFields, v: JsonValue) -> bool {
    &&& v is Obj
    &&& bool_member(v, "pubkey"@, q.pubkey)
    &&& bool_member(v, "lamports"@, q.lamports)
    &&& bool_member(v, "postBalance"@, q.post_balance)
    &&& bool_member(v, "rewardType"@, q.reward_type)
    &&& bool_member(v, "commission"@, q.commission)
}

pub open spec fn reward_fields_parseable(v: JsonValue) -> bool {
    &&& v is Obj
    &&& bool_field(v, "pubkey"@) matches Ok(Some(_))
    &&& bool_field(v, "lamports"@) matches Ok(Some(_))
    &&& bool_field(v, "postBalance"@) matches Ok(Some(_))
    &&& bool_field(v, "rewardType"@) matches Ok(Some(_))
    &&& bool_field(v, "commission"@) matches Ok(Some(_))
}

pub open spec fn reward_fields_parsed(q: RewardFields, v: JsonValue) -> bool {
    &&& bool_field(v, "pubkey"@) == Ok::<Option<bool>, crate::ErrorKind>(
        Some(q.pubkey),
    )
    &&& bool_field(v, "lamports"@) == Ok::<Option<bool>, crate::ErrorKind>(
        Some(q.lamports),
    )
    &&& bool_field(v, "postBalance"@) == Ok::<Option<bool>, crate::ErrorKind>(
        Some(q.post_balance),
    )
    &&& bool_field(v, "rewardType"@) == Ok::<Option<bool>, crate::ErrorKind>(
        Some(q.reward_type),
    )
    &&& bool_field(v, "commission"@) == Ok::<Option<bool>, crate::ErrorKind>(
        Some(q.commission),
    )
}

impl RewardFields {
    /// Serialize for the wire: the mask is written in full.
    #[verifier::rlimit(100)]
    pub fn to_json(&self) -> (r: JsonValue)
        ensures
            reward_fields_json_matches(*self, r),
    {
        proof {
            reveal_strlit("pubkey");
            reveal_strlit("lamports");
            reveal_strlit("postBalance");
            reveal_strlit("rewardType");
            reveal_strlit("commission");
            assert("pubkey"@.len() == 6);
            assert("lamports"@.len() == 8);
            assert("postBalance"@.len() == 11);
            assert("rewardType"@.len() == 10);
            assert("commission"@.len() == 10);
            assert("rewardType"@[0] == 'r');
            assert("commission"@[0] == 'c');
        }
        let mut m: Vec<(String, JsonValue)> = Vec::new();
        proof {
            assert forall|k: Seq<char>| !has_key(m@, k) by {
                if has_key(m@, k) {
                    let j = choose|j: int| 0 <= j < m@.len() && (#[trigger] m@[j]).0@ == k;
                }
            }
        }
        put_member(&mut m, "pubkey", JsonValue::Bool(self.pubkey));
        put_member(&mut m, "lamports", JsonValue::Bool(self.lamports));
        put_member(&mut m, "postBalance", JsonValue::Bool(self.post_balance));
        put_member(&mut m, "rewardType", JsonValue::Bool(self.reward_type));
        put_member(&mut m, "commission", JsonValue::Bool(self.commission));
        JsonValue::Obj(m)
    }

    /// Read the reward mask back from its wire form; every flag is
    /// required.
    pub fn from_json(jv: &JsonValue) -> (r: Result<RewardFields, Error>)
        ensures
            r is Ok <==> reward_fields_parseable(*jv),
            r is Ok ==> reward_fields_parsed(r->Ok_0, *jv),
    {
        match jv {
            JsonValue::Obj(_) => {},
            _ => { return Err(Error::new(ErrorKind::Shape, "reward_fields as object")); },
        }
        let pubkey = read_bool(jv, "pubkey")?;
        let lamports = read_bool(jv, "lamports")?;
        let post_balance = read_bool(jv, "postBalance")?;
        let reward_type = read_bool(jv, "rewardType")?;
        let commission = read_bool(jv, "commission")?;
        Ok(RewardFields { pubkey, lamports, post_balance, reward_type, commission })
    }
}

/// Mask round trip: what `to_json` writes, `from_json` accepts, and the
/// mask it returns is the one written.
pub proof fn lemma_reward_fields_round_trip(q: RewardFields, v: JsonValue, q2: RewardFields)
    requires
        reward_fields_json_matches(q, v),
        reward_fields_parsed(q2, v),
    ensures
        q2 == q,
{
    assert(q2.pubkey == q.pubkey);
    assert(q2.lamports == q.lamports);
    assert(q2.post_balance == q.post_balance);
    assert(q2.reward_type == q.reward_type);
    assert(q2.commission == q.commission);
}

/// The wire form of the block mask: every flag always present.
pub open spec fn block_fields_json_matches(q: BlockFields, v: JsonValue) -> bool {
    &&& v is Obj
    &&& bool_member(v, "number"@, q.number)
    &&& bool_member(v, "hash"@, q.hash)
}

pub open spec fn block_fields_parseable(v: JsonValue) -> bool {
    &&& v is Obj
    &&& bool_field(v, "number"@) matches Ok(Some(_))
    &&& bool_field(v, "hash"@) matches Ok(Some(_))
}

pub open spec fn block_fields_parsed(q: BlockFields, v: JsonValue) -> bool {
    &&& bool_field(v, "number"@) == Ok::<Option<bool>, crate::ErrorKind>(
        Some(q.number),
    )
    &&& bool_field(v, "hash"@) == Ok::<Option<bool>, crate::ErrorKind>(
        Some(q.hash),
    )
}

impl BlockFields {
    /// Serialize for the wire: the mask is written in full.
    #[verifier::rlimit(100)]
    pub fn to_json(&self) -> (r: JsonValue)
        ensures
            block_fields_json_matches(*self, r),
    {
        proof {
            reveal_strlit("number");
            reveal_strlit("hash");
            assert("number"@.len() == 6);
            assert("hash"@.len() == 4);
        }
        let mut m: Vec<(String, JsonValue)> = Vec::new();
        proof {
            assert forall|k: Seq<char>| !has_key(m@, k) by {
                if has_key(m@, k) {
                    let j = choose|j: int| 0 <= j < m@.len() && (#[trigger] m@[j]).0@ == k;
                }
            }
        }
        put_member(&mut m, "number", JsonValue::Bool(self.number));
        put_member(&mut m, "hash", JsonValue::Bool(self.hash));
        JsonValue::Obj(m)
    }

    /// Read the block mask back from its wire form; every flag is
    /// required.
    pub fn from_json(jv: &JsonValue) -> (r: Result<BlockFields, Error>)
        ensures
            r is Ok <==> block_fields_parseable(*jv),
            r is Ok ==> block_fields_parsed(r->Ok_0, *jv),
    {
        match jv {
            JsonValue::Obj(_) => {},
            _ => { return Err(Error::new(ErrorKind::Shape, "block_fields as object")); },
        }
        let number = read_bool(jv, "number")?;
        let hash = read_bool(jv, "hash")?;
        Ok(BlockFields { number, hash })
    }
}

/// Mask round trip: what `to_json` writes, `from_json` accepts, and the
/// mask it returns is the one written.
pub proof fn lemma_block_fields_round_trip(q: BlockFields, v: JsonValue, q2: BlockFields)
    requires
        block_fields_json_matches(q, v),
        block_fields_parsed(q2, v),
    ensures
        q2 == q,
{
    assert(q2.number == q.number);
    assert(q2.hash == q.hash);
}


/// The wire form of the field masks: one sub-object per entity, each
/// mask written in full.
pub open spec fn fields_json_matches(q: Fields, v: JsonValue) -> bool {
    &&& v is Obj
    &&& match obj_lookup(v->Obj_0@, "instruction"@) {
        Some(mv) => instruction_fields_json_matches(q.instruction, mv),
        _ => false,
    }
    &&& match obj_lookup(v->Obj_0@, "transaction"@) {
        Some(mv) => transaction_fields_json_matches(q.transaction, mv),
        _ => false,
    }
    &&& match obj_lookup(v->Obj_0@, "log"@) {
        Some(mv) => log_fields_json_matches(q.log, mv),
        _ => false,
    }
    &&& match obj_lookup(v->Obj_0@, "balance"@) {
        Some(mv) => balance_fields_json_matches(q.balance, mv),
        _ => false,
    }
    &&& match obj_lookup(v->Obj_0@, "tokenBalance"@) {
        Some(mv) => token_balance_fields_json_matches(q.token_balance, mv),
        _ => false,
    }
    &&& match obj_lookup(v->Obj_0@, "reward"@) {
        Some(mv) => reward_fields_json_matches(q.reward, mv),
        _ => false,
    }
    &&& match obj_lookup(v->Obj_0@, "block"@) {
        Some(mv) => block_fields_json_matches(q.block, mv),
        _ => false,
    }
}

impl Fields {
    /// Serialize for the wire: every entity's mask, in full.
    #[verifier::rlimit(100)]
    pub fn to_json(&self) -> (r: JsonValue)
        ensures
            fields_json_matches(*self, r),
    {
        proof {
            reveal_strlit("instruction");
            reveal_strlit("transaction");
            reveal_strlit("log");
            reveal_strlit("balance");
            reveal_strlit("tokenBalance");
            reveal_strlit("reward");
            reveal_strlit("block");
            assert("instruction"@.len() == 11);
            assert("transaction"@.len() == 11);
            assert("log"@.len() == 3);
            assert("balance"@.len() == 7);
            assert("tokenBalance"@.len() == 12);
            assert("reward"@.len() == 6);
            assert("block"@.len() == 5);
            assert("instruction"@[0] == 'i');
            assert("transaction"@[0] == 't');
        }
        let mut m: Vec<(String, JsonValue)> = Vec::new();
        proof {
            assert forall|k: Seq<char>| !has_key(m@, k) by {
                if has_key(m@, k) {
                    let j = choose|j: int| 0 <= j < m@.len() && (#[trigger] m@[j]).0@ == k;
                }
            }
        }
        put_member(&mut m, "instruction", self.instruction.to_json());
        put_member(&mut m, "transaction", self.transaction.to_json());
        put_member(&mut m, "log", self.log.to_json());
        put_member(&mut m, "balance", self.balance.to_json());
        put_member(&mut m, "tokenBalance", self.token_balance.to_json());
        put_member(&mut m, "reward", self.reward.to_json());
        put_member(&mut m, "block", self.block.to_json());
        JsonValue::Obj(m)
    }
}

/// The wire form of a whole query: the dialect tag, the block range,
/// the masks in full, and one array per request kind; within each
/// request, empty string arrays are left out.
pub open spec fn query_json_matches(q: Query, v: JsonValue) -> bool {
    &&& v is Obj
    &&& match obj_lookup(v->Obj_0@, "type"@) {
        Some(JsonValue::Str(s)) => s@ == "solana"@,
        _ => false,
    }
    &&& obj_lookup(v->Obj_0@, "fromBlock"@) == Some(JsonValue::UInt(q.from_block))
    &&& match q.to_block {
        Some(tb) => obj_lookup(v->Obj_0@, "toBlock"@) == Some(JsonValue::UInt(tb)),
        None => obj_lookup(v->Obj_0@, "toBlock"@) == Some(JsonValue::Null),
    }
    &&& obj_lookup(v->Obj_0@, "includeAllBlocks"@) == Some(JsonValue::Bool(q.include_all_blocks))
    &&& match obj_lookup(v->Obj_0@, "fields"@) {
        Some(fv) => fields_json_matches(q.fields, fv),
        _ => false,
    }
    &&& match obj_lookup(v->Obj_0@, "instructions"@) {
        Some(JsonValue::Arr(a)) => a@.len() == q.instructions@.len() && forall|i: int|
            0 <= i < a@.len() ==> instruction_request_json_matches(q.instructions@[i], #[trigger] a@[i]),
        _ => false,
    }
    &&& match obj_lookup(v->Obj_0@, "transactions"@) {
        Some(JsonValue::Arr(a)) => a@.len() == q.transactions@.len() && forall|i: int|
            0 <= i < a@.len() ==> transaction_request_json_matches(q.transactions@[i], #[trigger] a@[i]),
        _ => false,
    }
    &&& match obj_lookup(v->Obj_0@, "logs"@) {
        Some(JsonValue::Arr(a)) => a@.len() == q.logs@.len() && forall|i: int|
            0 <= i < a@.len() ==> log_request_json_matches(q.logs@[i], #[trigger] a@[i]),
        _ => false,
    }
    &&& match obj_lookup(v->Obj_0@, "balances"@) {
        Some(JsonValue::Arr(a)) => a@.len() == q.balances@.len() && forall|i: int|
            0 <= i < a@.len() ==> balance_request_json_matches(q.balances@[i], #[trigger] a@[i]),
        _ => false,
    }
    &&& match obj_lookup(v->Obj_0@, "tokenBalances"@) {
        Some(JsonValue::Arr(a)) => a@.len() == q.token_balances@.len() && forall|i: int|
            0 <= i < a@.len() ==> token_balance_request_json_matches(q.token_balances@[i], #[trigger] a@[i]),
        _ => false,
    }
    &&& match obj_lookup(v->Obj_0@, "rewards"@) {
        Some(JsonValue::Arr(a)) => a@.len() == q.rewards@.len() && forall|i: int|
            0 <= i < a@.len() ==> reward_request_json_matches(q.rewards@[i], #[trigger] a@[i]),
        _ => false,
    }
}

impl Query {
    /// Serialize the query for the wire.
    #[verifier::rlimit(100)]
    pub fn to_json(&self) -> (r: JsonValue)
        ensures
            query_json_matches(*self, r),
    {
        proof {
            reveal_strlit("type");
            reveal_strlit("fromBlock");
            reveal_strlit("toBlock");
            reveal_strlit("includeAllBlocks");
            reveal_strlit("fields");
            reveal_strlit("instructions");
            reveal_strlit("transactions");
            reveal_strlit("logs");
            reveal_strlit("balances");
            reveal_strlit("tokenBalances");
            reveal_strlit("rewards");
            assert("type"@.len() == 4);
            assert("fromBlock"@.len() == 9);
            assert("toBlock"@.len() == 7);
            assert("includeAllBlocks"@.len() == 16);
            assert("fields"@.len() == 6);
            assert("instructions"@.len() == 12);
            assert("transactions"@.len() == 12);
            assert("logs"@.len() == 4);
            assert("balances"@.len() == 8);
            assert("tokenBalances"@.len() == 13);
            assert("rewards"@.len() == 7);
            assert("type"@[0] == 't');
            assert("logs"@[0] == 'l');
            assert("toBlock"@[0] == 't');
            assert("rewards"@[0] == 'r');
            assert("instructions"@[0] == 'i');
            assert("transactions"@[0] == 't');
        }
        let mut instructions_json: Vec<JsonValue> = Vec::new();
        let n_instructions = self.instructions.len();
        let mut i_instructions: usize = 0;
        while i_instructions < n_instructions
            invariant
                n_instructions == self.instructions@.len(),
                i_instructions <= n_instructions,
                instructions_json@.len() == i_instructions,
                forall|j: int|
                    0 <= j < i_instructions ==> instruction_request_json_matches(self.instructions@[j], #[trigger] instructions_json@[j]),
            decreases n_instructions - i_instructions,
        {
            instructions_json.push(self.instructions[i_instructions].to_json());
            i_instructions += 1;
        }
        let mut transactions_json: Vec<JsonValue> = Vec::new();
        let n_transactions = self.transactions.len();
        let mut i_transactions: usize = 0;
        while i_transactions < n_transactions
            invariant
                n_transactions == self.transactions@.len(),
                i_transactions <= n_transactions,
                transactions_json@.len() == i_transactions,
                forall|j: int|
                    0 <= j < i_transactions ==> transaction_request_json_matches(self.transactions@[j], #[trigger] transactions_json@[j]),
            decreases n_transactions - i_transactions,
        {
            transactions_json.push(self.transactions[i_transactions].to_json());
            i_transactions += 1;
        }
        let mut logs_json: Vec<JsonValue> = Vec::new();
        let n_logs = self.logs.len();
        let mut i_logs: usize = 0;
        while i_logs < n_logs
            invariant
                n_logs == self.logs@.len(),
                i_logs <= n_logs,
                logs_json@.len() == i_logs,
                forall|j: int|
                    0 <= j < i_logs ==> log_request_json_matches(self.logs@[j], #[trigger] logs_json@[j]),
            decreases n_logs - i_logs,
        {
            logs_json.push(self.logs[i_logs].to_json());
            i_logs += 1;
        }
        let mut balances_json: Vec<JsonValue> = Vec::new();
        let n_balances = self.balances.len();
        let mut i_balances: usize = 0;
        while i_balances < n_balances
            invariant
                n_balances == self.balances@.len(),
                i_balances <= n_balances,
                balances_json@.len() == i_balances,
                forall|j: int|
                    0 <= j < i_balances ==> balance_request_json_matches(self.balances@[j], #[trigger] balances_json@[j]),
            decreases n_balances - i_balances,
        {
            balances_json.push(self.balances[i_balances].to_json());
            i_balances += 1;
        }
        let mut token_balances_json: Vec<JsonValue> = Vec::new();
        let n_token_balances = self.token_balances.len();
        let mut i_token_balances: usize = 0;
        while i_token_balances < n_token_balances
            invariant
                n_token_balances == self.token_balances@.len(),
                i_token_balances <= n_token_balances,
                token_balances_json@.len() == i_token_balances,
                forall|j: int|
                    0 <= j < i_token_balances ==> token_balance_request_json_matches(self.token_balances@[j], #[trigger] token_balances_json@[j]),
            decreases n_token_balances - i_token_balances,
        {
            token_balances_json.push(self.token_balances[i_token_balances].to_json());
            i_token_balances += 1;
        }
        let mut rewards_json: Vec<JsonValue> = Vec::new();
        let n_rewards = self.rewards.len();
        let mut i_rewards: usize = 0;
        while i_rewards < n_rewards
            invariant
                n_rewards == self.rewards@.len(),
                i_rewards <= n_rewards,
                rewards_json@.len() == i_rewards,
                forall|j: int|
                    0 <= j < i_rewards ==> reward_request_json_matches(self.rewards@[j], #[trigger] rewards_json@[j]),
            decreases n_rewards - i_rewards,
        {
            rewards_json.push(self.rewards[i_rewards].to_json());
            i_rewards += 1;
        }
        let mut m: Vec<(String, JsonValue)> = Vec::new();
        proof {
            assert forall|k: Seq<char>| !has_key(m@, k) by {
                if has_key(m@, k) {
                    let j = choose|j: int| 0 <= j < m@.len() && (#[trigger] m@[j]).0@ == k;
                }
            }
        }
        put_member(&mut m, "type", JsonValue::Str("solana".to_owned()));
        put_member(&mut m, "fromBlock", JsonValue::UInt(self.from_block));
        let to_block_json = match self.to_block {
            Some(tb) => JsonValue::UInt(tb),
            None => JsonValue::Null,
        };
        put_member(&mut m, "toBlock", to_block_json);
        put_member(&mut m, "includeAllBlocks", JsonValue::Bool(self.include_all_blocks));
        put_member(&mut m, "fields", self.fields.to_json());
        put_member(&mut m, "instructions", JsonValue::Arr(instructions_json));
        put_member(&mut m, "transactions", JsonValue::Arr(transactions_json));
        put_member(&mut m, "logs", JsonValue::Arr(logs_json));
        put_member(&mut m, "balances", JsonValue::Arr(balances_json));
        put_member(&mut m, "tokenBalances", JsonValue::Arr(token_balances_json));
        put_member(&mut m, "rewards", JsonValue::Arr(rewards_json));
        JsonValue::Obj(m)
    }

    /// The query as JSON text, ready to send: the encoding of a wire
    /// object that matches the query.
    pub fn to_json_bytes(&self) -> (r: Vec<u8>)
        ensures
            exists|v: JsonValue| #[trigger] query_json_matches(*self, v) && r@ == spec_encode(v),
    {
        let v = self.to_json();
        let ghost gv = v;
        let out = v.encode();
        proof {
            assert(query_json_matches(*self, gv) && out@ == spec_encode(gv));
        }
        out
    }
}



/// The field masks read back: every entity's mask must be present.
pub open spec fn fields_parseable(v: JsonValue) -> bool {
    &&& v is Obj
    &&& match field_of(v, "instruction"@) {
        Some(mv) => instruction_fields_parseable(mv),
        None => false,
    }
    &&& match field_of(v, "transaction"@) {
        Some(mv) => transaction_fields_parseable(mv),
        None => false,
    }
    &&& match field_of(v, "log"@) {
        Some(mv) => log_fields_parseable(mv),
        None => false,
    }
    &&& match field_of(v, "balance"@) {
        Some(mv) => balance_fields_parseable(mv),
        None => false,
    }
    &&& match field_of(v, "tokenBalance"@) {
        Some(mv) => token_balance_fields_parseable(mv),
        None => false,
    }
    &&& match field_of(v, "reward"@) {
        Some(mv) => reward_fields_parseable(mv),
        None => false,
    }
    &&& match field_of(v, "block"@) {
        Some(mv) => block_fields_parseable(mv),
        None => false,
    }
}

pub open spec fn fields_parsed(q: Fields, v: JsonValue) -> bool {
    &&& match field_of(v, "instruction"@) {
        Some(mv) => instruction_fields_parsed(q.instruction, mv),
        None => false,
    }
    &&& match field_of(v, "transaction"@) {
        Some(mv) => transaction_fields_parsed(q.transaction, mv),
        None => false,
    }
    &&& match field_of(v, "log"@) {
        Some(mv) => log_fields_parsed(q.log, mv),
        None => false,
    }
    &&& match field_of(v, "balance"@) {
        Some(mv) => balance_fields_parsed(q.balance, mv),
        None => false,
    }
    &&& match field_of(v, "tokenBalance"@) {
        Some(mv) => token_balance_fields_parsed(q.token_balance, mv),
        None => false,
    }
    &&& match field_of(v, "reward"@) {
        Some(mv) => reward_fields_parsed(q.reward, mv),
        None => false,
    }
    &&& match field_of(v, "block"@) {
        Some(mv) => block_fields_parsed(q.block, mv),
        None => false,
    }
}

impl Fields {
    /// Read the masks back from their wire form.
    pub fn from_json(jv: &JsonValue) -> (r: Result<Fields, Error>)
        ensures
            r is Ok <==> fields_parseable(*jv),
            r is Ok ==> fields_parsed(r->Ok_0, *jv),
    {
        let fields = match jv {
            JsonValue::Obj(f) => f,
            _ => { return Err(Error::new(ErrorKind::Shape, "fields as object")); },
        };
        let instruction = match json_obj_get(fields, "instruction") {
            None => { return Err(Error::new(ErrorKind::Shape, "missing instruction mask")); },
            Some(JsonValue::Null) => {
                return Err(Error::new(ErrorKind::Shape, "missing instruction mask"));
            },
            Some(mv) => InstructionFields::from_json(mv)?,
        };
        let transaction = match json_obj_get(fields, "transaction") {
            None => { return Err(Error::new(ErrorKind::Shape, "missing transaction mask")); },
            Some(JsonValue::Null) => {
                return Err(Error::new(ErrorKind::Shape, "missing transaction mask"));
            },
            Some(mv) => TransactionFields::from_json(mv)?,
        };
        let log = match json_obj_get(fields, "log") {
            None => { return Err(Error::new(ErrorKind::Shape, "missing log mask")); },
            Some(JsonValue::Null) => {
                return Err(Error::new(ErrorKind::Shape, "missing log mask"));
            },
            Some(mv) => LogFields::from_json(mv)?,
        };
        let balance = match json_obj_get(fields, "balance") {
            None => { return Err(Error::new(ErrorKind::Shape, "missing balance mask")); },
            Some(JsonValue::Null) => {
                return Err(Error::new(ErrorKind::Shape, "missing balance mask"));
            },
            Some(mv) => BalanceFields::from_json(mv)?,
        };
        let token_balance = match json_obj_get(fields, "tokenBalance") {
            None => { return Err(Error::new(ErrorKind::Shape, "missing tokenBalance mask")); },
            Some(JsonValue::Null) => {
                return Err(Error::new(ErrorKind::Shape, "missing tokenBalance mask"));
            },
            Some(mv) => TokenBalanceFields::from_json(mv)?,
        };
        let reward = match json_obj_get(fields, "reward") {
            None => { return Err(Error::new(ErrorKind::Shape, "missing reward mask")); },
            Some(JsonValue::Null) => {
                return Err(Error::new(ErrorKind::Shape, "missing reward mask"));
            },
            Some(mv) => RewardFields::from_json(mv)?,
        };
        let block = match json_obj_get(fields, "block") {
            None => { return Err(Error::new(ErrorKind::Shape, "missing block mask")); },
            Some(JsonValue::Null) => {
                return Err(Error::new(ErrorKind::Shape, "missing block mask"));
            },
            Some(mv) => BlockFields::from_json(mv)?,
        };
        Ok(Fields { instruction, transaction, log, balance, token_balance, reward, block })
    }
}

/// The `instructions` member decodes element by element; an absent member is the
/// empty list.
pub open spec fn instructions_list_parseable(v: JsonValue) -> bool {
    match field_of(v, "instructions"@) {
        None => true,
        Some(JsonValue::Arr(a)) => forall|i: int|
            0 <= i < a@.len() ==> instruction_request_parseable(#[trigger] a@[i]),
        Some(_) => false,
    }
}

pub open spec fn instructions_list_parsed(xs: Seq<InstructionRequest>, v: JsonValue) -> bool {
    match field_of(v, "instructions"@) {
        None => xs.len() == 0,
        Some(JsonValue::Arr(a)) => xs.len() == a@.len() && forall|i: int|
            0 <= i < a@.len() ==> instruction_request_parsed(xs[i], #[trigger] a@[i]),
        Some(_) => false,
    }
}

fn read_instructions_list(jv: &JsonValue) -> (r: Result<Vec<InstructionRequest>, Error>)
    requires
        jv is Obj,
    ensures
        r is Ok <==> instructions_list_parseable(*jv),
        r is Ok ==> instructions_list_parsed(r->Ok_0@, *jv),
{
    let fields = match jv {
        JsonValue::Obj(f) => f,
        _ => { return Err(Error::new(ErrorKind::Shape, "query as object")); },
    };
    let arr = match json_obj_get(fields, "instructions") {
        None => { return Ok(Vec::new()); },
        Some(JsonValue::Null) => { return Ok(Vec::new()); },
        Some(JsonValue::Arr(a)) => a,
        Some(_) => { return Err(Error::new(ErrorKind::Shape, "instructions as array")); },
    };
    let n: usize = arr.len();
    let mut out: Vec<InstructionRequest> = Vec::new();
    let mut i: usize = 0;
    while i < n
        invariant
            jv is Obj,
            n == arr@.len(),
            i <= n,
            field_of(*jv, "instructions"@) == Some(JsonValue::Arr(*arr)),
            out@.len() == i,
            forall|j: int| 0 <= j < i ==> instruction_request_parseable(#[trigger] arr@[j]),
            forall|j: int| 0 <= j < i ==> instruction_request_parsed(#[trigger] out@[j], arr@[j]),
        decreases n - i,
    {
        let one = match InstructionRequest::from_json(&arr[i]) {
            Ok(x) => x,
            Err(e) => {
                proof {
                    if instructions_list_parseable(*jv) {
                        assert(match field_of(*jv, "instructions"@) {
                            Some(JsonValue::Arr(aa)) => aa == *arr,
                            _ => false,
                        });
                        assert(instruction_request_parseable(arr@[i as int]));
                    }
                }
                return Err(e);
            },
        };
        out.push(one);
        i += 1;
    }
    Ok(out)
}
/// The `transactions` member decodes element by element; an absent member is the
/// empty list.
pub open spec fn transactions_list_parseable(v: JsonValue) -> bool {
    match field_of(v, "transactions"@) {
        None => true,
        Some(JsonValue::Arr(a)) => forall|i: int|
            0 <= i < a@.len() ==> transaction_request_parseable(#[trigger] a@[i]),
        Some(_) => false,
    }
}

pub open spec fn transactions_list_parsed(xs: Seq<TransactionRequest>, v: JsonValue) -> bool {
    match field_of(v, "transactions"@) {
        None => xs.len() == 0,
        Some(JsonValue::Arr(a)) => xs.len() == a@.len() && forall|i: int|
            0 <= i < a@.len() ==> transaction_request_parsed(xs[i], #[trigger] a@[i]),
        Some(_) => false,
    }
}

fn read_transactions_list(jv: &JsonValue) -> (r: Result<Vec<TransactionRequest>, Error>)
    requires
        jv is Obj,
    ensures
        r is Ok <==> transactions_list_parseable(*jv),
        r is Ok ==> transactions_list_parsed(r->Ok_0@, *jv),
{
    let fields = match jv {
        JsonValue::Obj(f) => f,
        _ => { return Err(Error::new(ErrorKind::Shape, "query as object")); },
    };
    let arr = match json_obj_get(fields, "transactions") {
        None => { return Ok(Vec::new()); },
        Some(JsonValue::Null) => { return Ok(Vec::new()); },
        Some(JsonValue::Arr(a)) => a,
        Some(_) => { return Err(Error::new(ErrorKind::Shape, "transactions as array")); },
    };
    let n: usize = arr.len();
    let mut out: Vec<TransactionRequest> = Vec::new();
    let mut i: usize = 0;
    while i < n
        invariant
            jv is Obj,
            n == arr@.len(),
            i <= n,
            field_of(*jv, "transactions"@) == Some(JsonValue::Arr(*arr)),
            out@.len() == i,
            forall|j: int| 0 <= j < i ==> transaction_request_parseable(#[trigger] arr@[j]),
            forall|j: int| 0 <= j < i ==> transaction_request_parsed(#[trigger] out@[j], arr@[j]),
        decreases n - i,
    {
        let one = match TransactionRequest::from_json(&arr[i]) {
            Ok(x) => x,
            Err(e) => {
                proof {
                    if transactions_list_parseable(*jv) {
                        assert(match field_of(*jv, "transactions"@) {
                            Some(JsonValue::Arr(aa)) => aa == *arr,
                            _ => false,
                        });
                        assert(transaction_request_parseable(arr@[i as int]));
                    }
                }
                return Err(e);
            },
        };
        out.push(one);
        i += 1;
    }
    Ok(out)
}
/// The `logs` member decodes element by element; an absent member is the
/// empty list.
pub open spec fn logs_list_parseable(v: JsonValue) -> bool {
    match field_of(v, "logs"@) {
        None => true,
        Some(JsonValue::Arr(a)) => forall|i: int|
            0 <= i < a@.len() ==> log_request_parseable(#[trigger] a@[i]),
        Some(_) => false,
    }
}

pub open spec fn logs_list_parsed(xs: Seq<LogRequest>, v: JsonValue) -> bool {
    match field_of(v, "logs"@) {
        None => xs.len() == 0,
        Some(JsonValue::Arr(a)) => xs.len() == a@.len() && forall|i: int|
            0 <= i < a@.len() ==> log_request_parsed(xs[i], #[trigger] a@[i]),
        Some(_) => false,
    }
}

fn read_logs_list(jv: &JsonValue) -> (r: Result<Vec<LogRequest>, Error>)
    requires
        jv is Obj,
    ensures
        r is Ok <==> logs_list_parseable(*jv),
        r is Ok ==> logs_list_parsed(r->Ok_0@, *jv),
{
    let fields = match jv {
        JsonValue::Obj(f) => f,
        _ => { return Err(Error::new(ErrorKind::Shape, "query as object")); },
    };
    let arr = match json_obj_get(fields, "logs") {
        None => { return Ok(Vec::new()); },
        Some(JsonValue::Null) => { return Ok(Vec::new()); },
        Some(JsonValue::Arr(a)) => a,
        Some(_) => { return Err(Error::new(ErrorKind::Shape, "logs as array")); },
    };
    let n: usize = arr.len();
    let mut out: Vec<LogRequest> = Vec::new();
    let mut i: usize = 0;
    while i < n
        invariant
            jv is Obj,
            n == arr@.len(),
            i <= n,
            field_of(*jv, "logs"@) == Some(JsonValue::Arr(*arr)),
            out@.len() == i,
            forall|j: int| 0 <= j < i ==> log_request_parseable(#[trigger] arr@[j]),
            forall|j: int| 0 <= j < i ==> log_request_parsed(#[trigger] out@[j], arr@[j]),
        decreases n - i,
    {
        let one = match LogRequest::from_json(&arr[i]) {
            Ok(x) => x,
            Err(e) => {
                proof {
                    if logs_list_parseable(*jv) {
                        assert(match field_of(*jv, "logs"@) {
                            Some(JsonValue::Arr(aa)) => aa == *arr,
                            _ => false,
                        });
                        assert(log_request_parseable(arr@[i as int]));
                    }
                }
                return Err(e);
            },
        };
        out.push(one);
        i += 1;
    }
    Ok(out)
}
/// The `balances` member decodes element by element; an absent member is the
/// empty list.
pub open spec fn balances_list_parseable(v: JsonValue) -> bool {
    match field_of(v, "balances"@) {
        None => true,
        Some(JsonValue::Arr(a)) => forall|i: int|
            0 <= i < a@.len() ==> balance_request_parseable(#[trigger] a@[i]),
        Some(_) => false,
    }
}

pub open spec fn balances_list_parsed(xs: Seq<BalanceRequest>, v: JsonValue) -> bool {
    match field_of(v, "balances"@) {
        None => xs.len() == 0,
        Some(JsonValue::Arr(a)) => xs.len() == a@.len() && forall|i: int|
            0 <= i < a@.len() ==> balance_request_parsed(xs[i], #[trigger] a@[i]),
        Some(_) => false,
    }
}

fn read_balances_list(jv: &JsonValue) -> (r: Result<Vec<BalanceRequest>, Error>)
    requires
        jv is Obj,
    ensures
        r is Ok <==> balances_list_parseable(*jv),
        r is Ok ==> balances_list_parsed(r->Ok_0@, *jv),
{
    let fields = match jv {
        JsonValue::Obj(f) => f,
        _ => { return Err(Error::new(ErrorKind::Shape, "query as object")); },
    };
    let arr = match json_obj_get(fields, "balances") {
        None => { return Ok(Vec::new()); },
        Some(JsonValue::Null) => { return Ok(Vec::new()); },
        Some(JsonValue::Arr(a)) => a,
        Some(_) => { return Err(Error::new(ErrorKind::Shape, "balances as array")); },
    };
    let n: usize = arr.len();
    let mut out: Vec<BalanceRequest> = Vec::new();
    let mut i: usize = 0;
    while i < n
        invariant
            jv is Obj,
            n == arr@.len(),
            i <= n,
            field_of(*jv, "balances"@) == Some(JsonValue::Arr(*arr)),
            out@.len() == i,
            forall|j: int| 0 <= j < i ==> balance_request_parseable(#[trigger] arr@[j]),
            forall|j: int| 0 <= j < i ==> balance_request_parsed(#[trigger] out@[j], arr@[j]),
        decreases n - i,
    {
        let one = match BalanceRequest::from_json(&arr[i]) {
            Ok(x) => x,
            Err(e) => {
                proof {
                    if balances_list_parseable(*jv) {
                        assert(match field_of(*jv, "balances"@) {
                            Some(JsonValue::Arr(aa)) => aa == *arr,
                            _ => false,
                        });
                        assert(balance_request_parseable(arr@[i as int]));
                    }
                }
                return Err(e);
            },
        };
        out.push(one);
        i += 1;
    }
    Ok(out)
}
/// The `tokenBalances` member decodes element by element; an absent member is the
/// empty list.
pub open spec fn token_balances_list_parseable(v: JsonValue) -> bool {
    match field_of(v, "tokenBalances"@) {
        None => true,
        Some(JsonValue::Arr(a)) => forall|i: int|
            0 <= i < a@.len() ==> token_balance_request_parseable(#[trigger] a@[i]),
        Some(_) => false,
    }
}

pub open spec fn token_balances_list_parsed(xs: Seq<TokenBalanceRequest>, v: JsonValue) -> bool {
    match field_of(v, "tokenBalances"@) {
        None => xs.len() == 0,
        Some(JsonValue::Arr(a)) => xs.len() == a@.len() && forall|i: int|
            0 <= i < a@.len() ==> token_balance_request_parsed(xs[i], #[trigger] a@[i]),
        Some(_) => false,
    }
}

fn read_token_balances_list(jv: &JsonValue) -> (r: Result<Vec<TokenBalanceRequest>, Error>)
    requires
        jv is Obj,
    ensures
        r is Ok <==> token_balances_list_parseable(*jv),
        r is Ok ==> token_balances_list_parsed(r->Ok_0@, *jv),
{
    let fields = match jv {
        JsonValue::Obj(f) => f,
        _ => { return Err(Error::new(ErrorKind::Shape, "query as object")); },
    };
    let arr = match json_obj_get(fields, "tokenBalances") {
        None => { return Ok(Vec::new()); },
        Some(JsonValue::Null) => { return Ok(Vec::new()); },
        Some(JsonValue::Arr(a)) => a,
        Some(_) => { return Err(Error::new(ErrorKind::Shape, "tokenBalances as array")); },
    };
    let n: usize = arr.len();
    let mut out: Vec<TokenBalanceRequest> = Vec::new();
    let mut i: usize = 0;
    while i < n
        invariant
            jv is Obj,
            n == arr@.len(),
            i <= n,
            field_of(*jv, "tokenBalances"@) == Some(JsonValue::Arr(*arr)),
            out@.len() == i,
            forall|j: int| 0 <= j < i ==> token_balance_request_parseable(#[trigger] arr@[j]),
            forall|j: int| 0 <= j < i ==> token_balance_request_parsed(#[trigger] out@[j], arr@[j]),
        decreases n - i,
    {
        let one = match TokenBalanceRequest::from_json(&arr[i]) {
            Ok(x) => x,
            Err(e) => {
                proof {
                    if token_balances_list_parseable(*jv) {
                        assert(match field_of(*jv, "tokenBalances"@) {
                            Some(JsonValue::Arr(aa)) => aa == *arr,
                            _ => false,
                        });
                        assert(token_balance_request_parseable(arr@[i as int]));
                    }
                }
                return Err(e);
            },
        };
        out.push(one);
        i += 1;
    }
    Ok(out)
}
/// The `rewards` member decodes element by element; an absent member is the
/// empty list.
pub open spec fn rewards_list_parseable(v: JsonValue) -> bool {
    match field_of(v, "rewards"@) {
        None => true,
        Some(JsonValue::Arr(a)) => forall|i: int|
            0 <= i < a@.len() ==> reward_request_parseable(#[trigger] a@[i]),
        Some(_) => false,
    }
}

pub open spec fn rewards_list_parsed(xs: Seq<RewardRequest>, v: JsonValue) -> bool {
    match field_of(v, "rewards"@) {
        None => xs.len() == 0,
        Some(JsonValue::Arr(a)) => xs.len() == a@.len() && forall|i: int|
            0 <= i < a@.len() ==> reward_request_parsed(xs[i], #[trigger] a@[i]),
        Some(_) => false,
    }
}

fn read_rewards_list(jv: &JsonValue) -> (r: Result<Vec<RewardRequest>, Error>)
    requires
        jv is Obj,
    ensures
        r is Ok <==> rewards_list_parseable(*jv),
        r is Ok ==> rewards_list_parsed(r->Ok_0@, *jv),
{
    let fields = match jv {
        JsonValue::Obj(f) => f,
        _ => { return Err(Error::new(ErrorKind::Shape, "query as object")); },
    };
    let arr = match json_obj_get(fields, "rewards") {
        None => { return Ok(Vec::new()); },
        Some(JsonValue::Null) => { return Ok(Vec::new()); },
        Some(JsonValue::Arr(a)) => a,
        Some(_) => { return Err(Error::new(ErrorKind::Shape, "rewards as array")); },
    };
    let n: usize = arr.len();
    let mut out: Vec<RewardRequest> = Vec::new();
    let mut i: usize = 0;
    while i < n
        invariant
            jv is Obj,
            n == arr@.len(),
            i <= n,
            field_of(*jv, "rewards"@) == Some(JsonValue::Arr(*arr)),
            out@.len() == i,
            forall|j: int| 0 <= j < i ==> reward_request_parseable(#[trigger] arr@[j]),
            forall|j: int| 0 <= j < i ==> reward_request_parsed(#[trigger] out@[j], arr@[j]),
        decreases n - i,
    {
        let one = match RewardRequest::from_json(&arr[i]) {
            Ok(x) => x,
            Err(e) => {
                proof {
                    if rewards_list_parseable(*jv) {
                        assert(match field_of(*jv, "rewards"@) {
                            Some(JsonValue::Arr(aa)) => aa == *arr,
                            _ => false,
                        });
                        assert(reward_request_parseable(arr@[i as int]));
                    }
                }
                return Err(e);
            },
        };
        out.push(one);
        i += 1;
    }
    Ok(out)
}

/// A whole query read back: the dialect tag must match, the range and
/// masks must be present, and each request array must decode.
pub open spec fn query_parseable(v: JsonValue) -> bool {
    &&& v is Obj
    &&& match string_field(v, "type"@) {
        Ok(Some(s)) => s == "solana"@,
        _ => false,
    }
    &&& u64_field(v, "fromBlock"@) matches Ok(Some(_))
    &&& u64_field(v, "toBlock"@) is Ok
    &&& bool_field(v, "includeAllBlocks"@) matches Ok(Some(_))
    &&& match field_of(v, "fields"@) {
        Some(fv) => fields_parseable(fv),
        None => false,
    }
    &&& instructions_list_parseable(v)
    &&& transactions_list_parseable(v)
    &&& logs_list_parseable(v)
    &&& balances_list_parseable(v)
    &&& token_balances_list_parseable(v)
    &&& rewards_list_parseable(v)
}

pub open spec fn query_parsed(q: Query, v: JsonValue) -> bool {
    &&& u64_field(v, "fromBlock"@) == Ok::<Option<u64>, crate::ErrorKind>(Some(q.from_block))
    &&& u64_field(v, "toBlock"@) == Ok::<Option<u64>, crate::ErrorKind>(q.to_block)
    &&& bool_field(v, "includeAllBlocks"@) == Ok::<Option<bool>, crate::ErrorKind>(Some(q.include_all_blocks))
    &&& match field_of(v, "fields"@) {
        Some(fv) => fields_parsed(q.fields, fv),
        None => false,
    }
    &&& instructions_list_parsed(q.instructions@, v)
    &&& transactions_list_parsed(q.transactions@, v)
    &&& logs_list_parsed(q.logs@, v)
    &&& balances_list_parsed(q.balances@, v)
    &&& token_balances_list_parsed(q.token_balances@, v)
    &&& rewards_list_parsed(q.rewards@, v)
}

impl Query {
    /// Read a query back from its wire form; absent request arrays are
    /// empty.
    #[verifier::rlimit(100)]
    pub fn from_json(jv: &JsonValue) -> (r: Result<Query, Error>)
        ensures
            r is Ok <==> query_parseable(*jv),
            r is Ok ==> query_parsed(r->Ok_0, *jv),
    {
        let fields = match jv {
            JsonValue::Obj(f) => f,
            _ => { return Err(Error::new(ErrorKind::Shape, "query as object")); },
        };
        match json_obj_get(fields, "type") {
            Some(JsonValue::Str(s)) => {
                let same = crate::util::bytes_eq(s.as_str().as_bytes(), "solana".as_bytes());
                proof {
                    if same {
                        crate::util::lemma_utf8_injective(s@, "solana"@);
                    }
                }
                if !same {
                    return Err(Error::new(ErrorKind::Shape, "unexpected dialect tag"));
                }
            },
            _ => { return Err(Error::new(ErrorKind::Shape, "missing dialect tag")); },
        }
        let from_block = match get_tape_u64(jv, "fromBlock")? {
            Some(n) => n,
            None => { return Err(Error::new(ErrorKind::Shape, "missing fromBlock")); },
        };
        let to_block = get_tape_u64(jv, "toBlock")?;
        let include_all_blocks = read_bool(jv, "includeAllBlocks")?;
        let masks = match json_obj_get(fields, "fields") {
            None => { return Err(Error::new(ErrorKind::Shape, "missing fields")); },
            Some(JsonValue::Null) => {
                return Err(Error::new(ErrorKind::Shape, "missing fields"));
            },
            Some(mv) => Fields::from_json(mv)?,
        };
        let instructions = read_instructions_list(jv)?;
        let transactions = read_transactions_list(jv)?;
        let logs = read_logs_list(jv)?;
        let balances = read_balances_list(jv)?;
        let token_balances = read_token_balances_list(jv)?;
        let rewards = read_rewards_list(jv)?;
        Ok(Query {
            type_: QueryType::default(),
            from_block,
            to_block,
            include_all_blocks,
            fields: masks,
            instructions, transactions, logs, balances, token_balances, rewards,
        })
    }
}

// ---------------------------------------------------------------------------
// Rows
// ---------------------------------------------------------------------------

/// One row of the `blocks` table: the slot header.
#[derive(Debug, Clone, PartialEq)]
pub struct BlockRow {
    pub slot: Option<u64>,
    pub hash: Option<Vec<u8>>,
    pub parent_slot: Option<u64>,
    pub parent_hash: Option<Vec<u8>>,
    pub height: Option<u64>,
    pub timestamp: Option<i64>,
}

pub open spec fn block_row_ok(h: JsonValue) -> bool {
    &&& u64_field(h, "number"@) is Ok
    &&& b58_field(h, "hash"@) is Ok
    &&& u64_field(h, "parentNumber"@) is Ok
    &&& b58_field(h, "parentHash"@) is Ok
    &&& u64_field(h, "height"@) is Ok
    &&& i64_field(h, "timestamp"@) is Ok
}

pub open spec fn block_row_matches(r: BlockRow, h: JsonValue) -> bool {
    &&& opt_eq(r.slot, u64_field(h, "number"@))
    &&& opt_bytes_is(r.hash, b58_field(h, "hash"@))
    &&& opt_eq(r.parent_slot, u64_field(h, "parentNumber"@))
    &&& opt_bytes_is(r.parent_hash, b58_field(h, "parentHash"@))
    &&& opt_eq(r.height, u64_field(h, "height"@))
    &&& opt_eq(r.timestamp, i64_field(h, "timestamp"@))
}

/// The slot pair stamped onto every child row of the same block.
pub struct BlockInfo {
    pub slot: Option<u64>,
    pub hash: Option<Vec<u8>>,
}

pub open spec fn block_info_matches(bi: BlockInfo, h: JsonValue) -> bool {
    &&& opt_eq(bi.slot, u64_field(h, "number"@))
    &&& opt_bytes_is(bi.hash, b58_field(h, "hash"@))
}

/// Some blocks row carries this slot and hash pair.
pub open spec fn blocks_contain(blocks: Seq<BlockRow>, slot: Option<u64>, hash: Option<
    Seq<u8>,
>) -> bool {
    exists|j: int|
        0 <= j < blocks.len() && blocks[j].slot == slot && opt_bytes_view(#[trigger] blocks[j].hash)
            == hash
}

/// A pair found among some blocks rows is still found after one more row.
pub proof fn lemma_blocks_contain_push(
    blocks: Seq<BlockRow>,
    x: BlockRow,
    slot: Option<u64>,
    hash: Option<Seq<u8>>,
)
    requires
        blocks_contain(blocks, slot, hash),
    ensures
        blocks_contain(blocks.push(x), slot, hash),
{
    let j = choose|j: int|
        0 <= j < blocks.len() && blocks[j].slot == slot && opt_bytes_view(#[trigger] blocks[j].hash)
            == hash;
    assert(blocks.push(x)[j] == blocks[j]);
}

/// One row of the `rewards` table.
#[derive(Debug, Clone, PartialEq)]
pub struct RewardRow {
    pub block_slot: Option<u64>,
    pub block_hash: Option<Vec<u8>>,
    pub pubkey: Option<Vec<u8>>,
    pub lamports: Option<u64>,
    pub post_balance: Option<u64>,
    pub reward_type: Option<String>,
    pub commission: Option<u8>,
}

pub open spec fn reward_row_ok(v: JsonValue) -> bool {
    &&& b58_field(v, "pubkey"@) is Ok
    &&& bigint_field(v, "lamports"@) is Ok
    &&& bigint_field(v, "postBalance"@) is Ok
    &&& string_field(v, "rewardType"@) is Ok
    &&& u8_field(v, "commission"@) is Ok
}

pub open spec fn reward_row_matches(r: RewardRow, v: JsonValue) -> bool {
    &&& opt_bytes_is(r.pubkey, b58_field(v, "pubkey"@))
    &&& opt_eq(r.lamports, bigint_field(v, "lamports"@))
    &&& opt_eq(r.post_balance, bigint_field(v, "postBalance"@))
    &&& opt_string_is(r.reward_type, string_field(v, "rewardType"@))
    &&& opt_eq(r.commission, u8_field(v, "commission"@))
}

/// One row of the `token_balances` table.
#[derive(Debug, Clone, PartialEq)]
pub struct TokenBalanceRow {
    pub block_slot: Option<u64>,
    pub block_hash: Option<Vec<u8>>,
    pub transaction_index: Option<u32>,
    pub account: Option<Vec<u8>>,
    pub pre_mint: Option<Vec<u8>>,
    pub post_mint: Option<Vec<u8>>,
    pub pre_decimals: Option<u16>,
    pub post_decimals: Option<u16>,
    pub pre_program_id: Option<Vec<u8>>,
    pub post_program_id: Option<Vec<u8>>,
    pub pre_owner: Option<Vec<u8>>,
    pub post_owner: Option<Vec<u8>>,
    pub pre_amount: Option<u64>,
    pub post_amount: Option<u64>,
}

pub open spec fn token_balance_row_ok(v: JsonValue) -> bool {
    &&& u32_field(v, "transactionIndex"@) is Ok
    &&& b58_field(v, "account"@) is Ok
    &&& b58_field(v, "preMint"@) is Ok
    &&& b58_field(v, "postMint"@) is Ok
    &&& u16_field(v, "preDecimals"@) is Ok
    &&& u16_field(v, "postDecimals"@) is Ok
    &&& b58_field(v, "preProgramId"@) is Ok
    &&& b58_field(v, "postProgramId"@) is Ok
    &&& b58_field(v, "preOwner"@) is Ok
    &&& b58_field(v, "postOwner"@) is Ok
    &&& bigint_field(v, "preAmount"@) is Ok
    &&& bigint_field(v, "postAmount"@) is Ok
}

pub open spec fn token_balance_row_matches(r: TokenBalanceRow, v: JsonValue) -> bool {
    &&& opt_eq(r.transaction_index, u32_field(v, "transactionIndex"@))
    &&& opt_bytes_is(r.account, b58_field(v, "account"@))
    &&& opt_bytes_is(r.pre_mint, b58_field(v, "preMint"@))
    &&& opt_bytes_is(r.post_mint, b58_field(v, "postMint"@))
    &&& opt_eq(r.pre_decimals, u16_field(v, "preDecimals"@))
    &&& opt_eq(r.post_decimals, u16_field(v, "postDecimals"@))
    &&& opt_bytes_is(r.pre_program_id, b58_field(v, "preProgramId"@))
    &&& opt_bytes_is(r.post_program_id, b58_field(v, "postProgramId"@))
    &&& opt_bytes_is(r.pre_owner, b58_field(v, "preOwner"@))
    &&& opt_bytes_is(r.post_owner, b58_field(v, "postOwner"@))
    &&& opt_eq(r.pre_amount, bigint_field(v, "preAmount"@))
    &&& opt_eq(r.post_amount, bigint_field(v, "postAmount"@))
}

/// One row of the `balances` table.
#[derive(Debug, Clone, PartialEq)]
pub struct BalanceRow {
    pub block_slot: Option<u64>,
    pub block_hash: Option<Vec<u8>>,
    pub transaction_index: Option<u32>,
    pub account: Option<Vec<u8>>,
    pub pre: Option<u64>,
    pub post: Option<u64>,
}

pub open spec fn balance_row_ok(v: JsonValue) -> bool {
    &&& u32_field(v, "transactionIndex"@) is Ok
    &&& b58_field(v, "account"@) is Ok
    &&& bigint_field(v, "pre"@) is Ok
    &&& bigint_field(v, "post"@) is Ok
}

pub open spec fn balance_row_matches(r: BalanceRow, v: JsonValue) -> bool {
    &&& opt_eq(r.transaction_index, u32_field(v, "transactionIndex"@))
    &&& opt_bytes_is(r.account, b58_field(v, "account"@))
    &&& opt_eq(r.pre, bigint_field(v, "pre"@))
    &&& opt_eq(r.post, bigint_field(v, "post"@))
}

/// One row of the `logs` table.
#[derive(Debug, Clone, PartialEq)]
pub struct LogRow {
    pub block_slot: Option<u64>,
    pub block_hash: Option<Vec<u8>>,
    pub transaction_index: Option<u32>,
    pub log_index: Option<u32>,
    pub instruction_address: Option<Vec<u32>>,
    pub program_id: Option<Vec<u8>>,
    pub kind: Option<String>,
    pub message: Option<String>,
}

pub open spec fn log_row_ok(v: JsonValue) -> bool {
    &&& u32_field(v, "transactionIndex"@) is Ok
    &&& u32_field(v, "logIndex"@) is Ok
    &&& u32_array_field(v, "instructionAddress"@) is Ok
    &&& b58_field(v, "programId"@) is Ok
    &&& string_field(v, "kind"@) is Ok
    &&& string_field(v, "message"@) is Ok
}

pub open spec fn log_row_matches(r: LogRow, v: JsonValue) -> bool {
    &&& opt_eq(r.transaction_index, u32_field(v, "transactionIndex"@))
    &&& opt_eq(r.log_index, u32_field(v, "logIndex"@))
    &&& opt_vu32_is(r.instruction_address, u32_array_field(v, "instructionAddress"@))
    &&& opt_bytes_is(r.program_id, b58_field(v, "programId"@))
    &&& opt_string_is(r.kind, string_field(v, "kind"@))
    &&& opt_string_is(r.message, string_field(v, "message"@))
}

/// One element of a transaction's `addressTableLookups` list.
#[derive(Debug, Clone, PartialEq)]
pub struct AddressTableLookup {
    pub account_key: Option<Vec<u8>>,
    pub writable_indexes: Option<Vec<u64>>,
    pub readonly_indexes: Option<Vec<u64>>,
}

pub open spec fn atl_ok(v: JsonValue) -> bool {
    &&& v is Obj
    &&& b58_field(v, "accountKey"@) is Ok
    &&& u64_array_field(v, "writableIndexes"@) is Ok
    &&& u64_array_field(v, "readonlyIndexes"@) is Ok
}

pub open spec fn atl_matches(r: AddressTableLookup, v: JsonValue) -> bool {
    &&& opt_bytes_is(r.account_key, b58_field(v, "accountKey"@))
    &&& opt_vu64_is(r.writable_indexes, u64_array_field(v, "writableIndexes"@))
    &&& opt_vu64_is(r.readonly_indexes, u64_array_field(v, "readonlyIndexes"@))
}

/// The `addressTableLookups` member is absent, or an array of lookup
/// objects each of which decodes.
pub open spec fn atls_ok(tx: JsonValue) -> bool {
    match field_of(tx, "addressTableLookups"@) {
        None => true,
        Some(JsonValue::Arr(a)) => forall|i: int| 0 <= i < a@.len() ==> atl_ok(#[trigger] a@[i]),
        Some(_) => false,
    }
}

/// The lookup list column holds exactly one decoded struct per array
/// element, or stays absent with the member.
pub open spec fn atls_match(o: Option<Vec<AddressTableLookup>>, tx: JsonValue) -> bool {
    match field_of(tx, "addressTableLookups"@) {
        None => o is None,
        Some(JsonValue::Arr(a)) => o matches Some(v) && v@.len() == a@.len() && forall|i: int|
            0 <= i < a@.len() ==> atl_matches(#[trigger] v@[i], a@[i]),
        Some(_) => false,
    }
}

/// The `loadedAddresses` member is absent, or an object in which both
/// the `readonly` and `writable` arrays are present and decode.
pub open spec fn loaded_ok(tx: JsonValue) -> bool {
    match field_of(tx, "loadedAddresses"@) {
        None => true,
        Some(la) => {
            &&& la is Obj
            &&& b58_array_field(la, "readonly"@) matches Ok(Some(_))
            &&& b58_array_field(la, "writable"@) matches Ok(Some(_))
        },
    }
}

/// One row of the `transactions` table.
#[derive(Debug, Clone, PartialEq)]
pub struct TxRow {
    pub block_slot: Option<u64>,
    pub block_hash: Option<Vec<u8>>,
    pub transaction_index: Option<u32>,
    pub version: Option<i8>,
    pub account_keys: Option<Vec<Vec<u8>>>,
    pub address_table_lookups: Option<Vec<AddressTableLookup>>,
    pub num_readonly_signed_accounts: Option<u32>,
    pub num_readonly_unsigned_accounts: Option<u32>,
    pub num_required_signatures: Option<u32>,
    pub recent_blockhash: Option<Vec<u8>>,
    pub signatures: Option<Vec<Vec<u8>>>,
    pub err: Option<Vec<u8>>,
    pub fee: Option<u64>,
    pub compute_units_consumed: Option<u64>,
    pub loaded_readonly_addresses: Option<Vec<Vec<u8>>>,
    pub loaded_writable_addresses: Option<Vec<Vec<u8>>>,
    pub fee_payer: Option<Vec<u8>>,
    pub has_dropped_log_messages: Option<bool>,
}

pub open spec fn tx_row_ok(tx: JsonValue) -> bool {
    &&& u32_field(tx, "transactionIndex"@) is Ok
    &&& version_field(tx, "version"@) is Ok
    &&& b58_array_field(tx, "accountKeys"@) is Ok
    &&& atls_ok(tx)
    &&& u32_field(tx, "numReadonlySignedAccounts"@) is Ok
    &&& u32_field(tx, "numReadonlyUnsignedAccounts"@) is Ok
    &&& u32_field(tx, "numRequiredSignatures"@) is Ok
    &&& b58_field(tx, "recentBlockhash"@) is Ok
    &&& b58_array_field(tx, "signatures"@) is Ok
    &&& bigint_field(tx, "fee"@) is Ok
    &&& bigint_field(tx, "computeUnitsConsumed"@) is Ok
    &&& loaded_ok(tx)
    &&& b58_field(tx, "feePayer"@) is Ok
    &&& bool_field(tx, "hasDroppedLogMessages"@) is Ok
}

pub open spec fn tx_row_matches(r: TxRow, tx: JsonValue) -> bool {
    &&& opt_eq(r.transaction_index, u32_field(tx, "transactionIndex"@))
    &&& opt_eq(r.version, version_field(tx, "version"@))
    &&& opt_vbytes_is(r.account_keys, b58_array_field(tx, "accountKeys"@))
    &&& atls_match(r.address_table_lookups, tx)
    &&& opt_eq(r.num_readonly_signed_accounts, u32_field(tx, "numReadonlySignedAccounts"@))
    &&& opt_eq(r.num_readonly_unsigned_accounts, u32_field(tx, "numReadonlyUnsignedAccounts"@))
    &&& opt_eq(r.num_required_signatures, u32_field(tx, "numRequiredSignatures"@))
    &&& opt_bytes_is(r.recent_blockhash, b58_field(tx, "recentBlockhash"@))
    &&& opt_vbytes_is(r.signatures, b58_array_field(tx, "signatures"@))
    &&& match field_of(tx, "err"@) {
        None => r.err is None,
        Some(v) => r.err matches Some(t) && t@ == spec_encode(v),
    }
    &&& opt_eq(r.fee, bigint_field(tx, "fee"@))
    &&& opt_eq(r.compute_units_consumed, bigint_field(tx, "computeUnitsConsumed"@))
    &&& match field_of(tx, "loadedAddresses"@) {
        None => r.loaded_readonly_addresses is None && r.loaded_writable_addresses is None,
        Some(la) => {
            &&& opt_vbytes_is(r.loaded_readonly_addresses, b58_array_field(la, "readonly"@))
            &&& opt_vbytes_is(r.loaded_writable_addresses, b58_array_field(la, "writable"@))
        },
    }
    &&& opt_bytes_is(r.fee_payer, b58_field(tx, "feePayer"@))
    &&& opt_eq(r.has_dropped_log_messages, bool_field(tx, "hasDroppedLogMessages"@))
}

/// One row of the `instructions` table.  The first ten accounts spread
/// into the positional columns `a0` to `a9`; any further accounts go to
/// `rest_of_accounts`, which is present only when there are more than
/// ten.
#[derive(Debug, Clone, PartialEq)]
pub struct InstructionRow {
    pub block_slot: Option<u64>,
    pub block_hash: Option<Vec<u8>>,
    pub transaction_index: Option<u32>,
    pub instruction_address: Option<Vec<u32>>,
    pub program_id: Option<Vec<u8>>,
    pub a0: Option<Vec<u8>>,
    pub a1: Option<Vec<u8>>,
    pub a2: Option<Vec<u8>>,
    pub a3: Option<Vec<u8>>,
    pub a4: Option<Vec<u8>>,
    pub a5: Option<Vec<u8>>,
    pub a6: Option<Vec<u8>>,
    pub a7: Option<Vec<u8>>,
    pub a8: Option<Vec<u8>>,
    pub a9: Option<Vec<u8>>,
    pub rest_of_accounts: Option<Vec<Vec<u8>>>,
    pub data: Option<Vec<u8>>,
    pub d1: Option<Vec<u8>>,
    pub d2: Option<Vec<u8>>,
    pub d4: Option<Vec<u8>>,
    pub d8: Option<Vec<u8>>,
    pub error: Option<String>,
    pub compute_units_consumed: Option<u64>,
    pub is_committed: Option<bool>,
    pub has_dropped_log_messages: Option<bool>,
}

/// Account `i` of a decoded accounts array, when it is long enough.
pub open spec fn account_at(accounts: Result<Option<Seq<Seq<u8>>>, ErrorKind>, i: int) -> Option<
    Seq<u8>,
> {
    match accounts {
        Ok(Some(ac)) => if i < ac.len() {
            Some(ac[i])
        } else {
            None
        },
        _ => None,
    }
}

/// The accounts past the tenth, present only when there are any.
pub open spec fn rest_accounts(accounts: Result<Option<Seq<Seq<u8>>>, ErrorKind>) -> Option<
    Seq<Seq<u8>>,
> {
    match accounts {
        Ok(Some(ac)) => if ac.len() > 10 {
            Some(ac.skip(10))
        } else {
            None
        },
        _ => None,
    }
}

pub open spec fn instruction_row_ok(v: JsonValue) -> bool {
    &&& u32_field(v, "transactionIndex"@) is Ok
    &&& u32_array_field(v, "instructionAddress"@) is Ok
    &&& b58_field(v, "programId"@) is Ok
    &&& b58_array_field(v, "accounts"@) is Ok
    &&& b58_field(v, "data"@) is Ok
    &&& hex_field(v, "d1"@) is Ok
    &&& hex_field(v, "d2"@) is Ok
    &&& hex_field(v, "d4"@) is Ok
    &&& hex_field(v, "d8"@) is Ok
    &&& string_field(v, "error"@) is Ok
    &&& bigint_field(v, "computeUnitsConsumed"@) is Ok
    &&& bool_field(v, "isCommitted"@) is Ok
    &&& bool_field(v, "hasDroppedLogMessages"@) is Ok
}

pub open spec fn instruction_row_matches(r: InstructionRow, v: JsonValue) -> bool {
    &&& opt_eq(r.transaction_index, u32_field(v, "transactionIndex"@))
    &&& opt_vu32_is(r.instruction_address, u32_array_field(v, "instructionAddress"@))
    &&& opt_bytes_is(r.program_id, b58_field(v, "programId"@))
    &&& opt_bytes_view(r.a0) == account_at(b58_array_field(v, "accounts"@), 0)
    &&& opt_bytes_view(r.a1) == account_at(b58_array_field(v, "accounts"@), 1)
    &&& opt_bytes_view(r.a2) == account_at(b58_array_field(v, "accounts"@), 2)
    &&& opt_bytes_view(r.a3) == account_at(b58_array_field(v, "accounts"@), 3)
    &&& opt_bytes_view(r.a4) == account_at(b58_array_field(v, "accounts"@), 4)
    &&& opt_bytes_view(r.a5) == account_at(b58_array_field(v, "accounts"@), 5)
    &&& opt_bytes_view(r.a6) == account_at(b58_array_field(v, "accounts"@), 6)
    &&& opt_bytes_view(r.a7) == account_at(b58_array_field(v, "accounts"@), 7)
    &&& opt_bytes_view(r.a8) == account_at(b58_array_field(v, "accounts"@), 8)
    &&& opt_bytes_view(r.a9) == account_at(b58_array_field(v, "accounts"@), 9)
    &&& match rest_accounts(b58_array_field(v, "accounts"@)) {
        None => r.rest_of_accounts is None,
        Some(rest) => r.rest_of_accounts matches Some(w) && w.deep_view() == rest,
    }
    &&& opt_bytes_is(r.data, b58_field(v, "data"@))
    &&& opt_bytes_is(r.d1, hex_field(v, "d1"@))
    &&& opt_bytes_is(r.d2, hex_field(v, "d2"@))
    &&& opt_bytes_is(r.d4, hex_field(v, "d4"@))
    &&& opt_bytes_is(r.d8, hex_field(v, "d8"@))
    &&& opt_string_is(r.error, string_field(v, "error"@))
    &&& opt_eq(r.compute_units_consumed, bigint_field(v, "computeUnitsConsumed"@))
    &&& opt_eq(r.is_committed, bool_field(v, "isCommitted"@))
    &&& opt_eq(r.has_dropped_log_messages, bool_field(v, "hasDroppedLogMessages"@))
}

// ---------------------------------------------------------------------------
// The per-block decoder
// ---------------------------------------------------------------------------

/// The child-table array under `key`, or empty where it is absent.
pub open spec fn arr_of(obj: JsonValue, key: Seq<char>) -> Seq<JsonValue> {
    match field_of(obj, key) {
        Some(JsonValue::Arr(a)) => a@,
        _ => Seq::empty(),
    }
}

pub open spec fn rewards_objs_ok(obj: JsonValue) -> bool {
    match field_of(obj, "rewards"@) {
        None => true,
        Some(JsonValue::Arr(a)) => forall|i: int|
            0 <= i < a@.len() ==> (#[trigger] a@[i]) is Obj && reward_row_ok(a@[i]),
        Some(_) => false,
    }
}

pub open spec fn token_balances_objs_ok(obj: JsonValue) -> bool {
    match field_of(obj, "tokenBalances"@) {
        None => true,
        Some(JsonValue::Arr(a)) => forall|i: int|
            0 <= i < a@.len() ==> (#[trigger] a@[i]) is Obj && token_balance_row_ok(a@[i]),
        Some(_) => false,
    }
}

pub open spec fn balances_objs_ok(obj: JsonValue) -> bool {
    match field_of(obj, "balances"@) {
        None => true,
        Some(JsonValue::Arr(a)) => forall|i: int|
            0 <= i < a@.len() ==> (#[trigger] a@[i]) is Obj && balance_row_ok(a@[i]),
        Some(_) => false,
    }
}

pub open spec fn logs_objs_ok(obj: JsonValue) -> bool {
    match field_of(obj, "logs"@) {
        None => true,
        Some(JsonValue::Arr(a)) => forall|i: int|
            0 <= i < a@.len() ==> (#[trigger] a@[i]) is Obj && log_row_ok(a@[i]),
        Some(_) => false,
    }
}

pub open spec fn txs_objs_ok(obj: JsonValue) -> bool {
    match field_of(obj, "transactions"@) {
        None => true,
        Some(JsonValue::Arr(a)) => forall|i: int|
            0 <= i < a@.len() ==> (#[trigger] a@[i]) is Obj && tx_row_ok(a@[i]),
        Some(_) => false,
    }
}

pub open spec fn instructions_objs_ok(obj: JsonValue) -> bool {
    match field_of(obj, "instructions"@) {
        None => true,
        Some(JsonValue::Arr(a)) => forall|i: int|
            0 <= i < a@.len() ==> (#[trigger] a@[i]) is Obj && instruction_row_ok(a@[i]),
        Some(_) => false,
    }
}

/// One whole slot object decodes cleanly.
pub open spec fn svm_block_ok(v: JsonValue) -> bool {
    &&& v is Obj
    &&& match field_of(v, "header"@) {
        Some(h) => h is Obj && block_row_ok(h),
        None => false,
    }
    &&& rewards_objs_ok(v)
    &&& token_balances_objs_ok(v)
    &&& balances_objs_ok(v)
    &&& logs_objs_ok(v)
    &&& txs_objs_ok(v)
    &&& instructions_objs_ok(v)
}

/// The header object of a slot object.
pub open spec fn header_of(v: JsonValue) -> JsonValue {
    field_of(v, "header"@)->Some_0
}

/// Accumulates rows across the slot objects of one response.
pub struct ArrowResponseParser {
    pub instructions: Vec<InstructionRow>,
    pub transactions: Vec<TxRow>,
    pub logs: Vec<LogRow>,
    pub balances: Vec<BalanceRow>,
    pub token_balances: Vec<TokenBalanceRow>,
    pub rewards: Vec<RewardRow>,
    pub blocks: Vec<BlockRow>,
}

/// The row batches of one decoded response.
#[derive(Debug)]
pub struct ArrowResponse {
    pub instructions: Vec<InstructionRow>,
    pub transactions: Vec<TxRow>,
    pub logs: Vec<LogRow>,
    pub balances: Vec<BalanceRow>,
    pub token_balances: Vec<TokenBalanceRow>,
    pub rewards: Vec<RewardRow>,
    pub blocks: Vec<BlockRow>,
}

/// Every child row's `(block_slot, block_hash)` pair is the pair of some
/// blocks row.
pub open spec fn response_aligned(r: ArrowResponse) -> bool {
    &&& forall|i: int|
        0 <= i < r.instructions@.len() ==> blocks_contain(
            r.blocks@,
            (#[trigger] r.instructions@[i]).block_slot,
            opt_bytes_view(r.instructions@[i].block_hash),
        )
    &&& forall|i: int|
        0 <= i < r.transactions@.len() ==> blocks_contain(
            r.blocks@,
            (#[trigger] r.transactions@[i]).block_slot,
            opt_bytes_view(r.transactions@[i].block_hash),
        )
    &&& forall|i: int|
        0 <= i < r.logs@.len() ==> blocks_contain(
            r.blocks@,
            (#[trigger] r.logs@[i]).block_slot,
            opt_bytes_view(r.logs@[i].block_hash),
        )
    &&& forall|i: int|
        0 <= i < r.balances@.len() ==> blocks_contain(
            r.blocks@,
            (#[trigger] r.balances@[i]).block_slot,
            opt_bytes_view(r.balances@[i].block_hash),
        )
    &&& forall|i: int|
        0 <= i < r.token_balances@.len() ==> blocks_contain(
            r.blocks@,
            (#[trigger] r.token_balances@[i]).block_slot,
            opt_bytes_view(r.token_balances@[i].block_hash),
        )
    &&& forall|i: int|
        0 <= i < r.rewards@.len() ==> blocks_contain(
            r.blocks@,
            (#[trigger] r.rewards@[i]).block_slot,
            opt_bytes_view(r.rewards@[i].block_hash),
        )
}

/// The slot the stream cursor moves to after this response: one past the
/// last blocks row's slot.
pub open spec fn spec_next_block(blocks: Seq<BlockRow>) -> Result<u64, ErrorKind> {
    if blocks.len() == 0 {
        Err(ErrorKind::Empty)
    } else {
        match blocks.last().slot {
            Some(n) => if n < u64::MAX {
                Ok((n + 1) as u64)
            } else {
                Err(ErrorKind::Range)
            },
            None => Err(ErrorKind::Empty),
        }
    }
}

impl ArrowResponse {
    /// The `from_block` of the next request in a stream: the last slot
    /// seen, plus one.  Fails on a response with no blocks row.
    pub fn next_block(&self) -> (r: Result<u64, Error>)
        ensures
            match spec_next_block(self.blocks@) {
                Ok(v) => r == Ok::<u64, Error>(v),
                Err(k) => r is Err && r->Err_0.kind == k,
            },
    {
        if self.blocks.len() == 0 {
            return Err(Error::new(ErrorKind::Empty, "no blocks in response"));
        }
        match self.blocks[self.blocks.len() - 1].slot {
            Some(n) => {
                if n < u64::MAX {
                    Ok(n + 1)
                } else {
                    Err(Error::new(ErrorKind::Range, "slot at the numeric ceiling"))
                }
            },
            None => Err(Error::new(ErrorKind::Empty, "last block has no slot")),
        }
    }
}

impl ArrowResponseParser {
    /// Row alignment between the six child tables and the blocks table.
    pub open spec fn wf(&self) -> bool {
        &&& forall|i: int|
            0 <= i < self.instructions@.len() ==> blocks_contain(
                self.blocks@,
                (#[trigger] self.instructions@[i]).block_slot,
                opt_bytes_view(self.instructions@[i].block_hash),
            )
        &&& forall|i: int|
            0 <= i < self.transactions@.len() ==> blocks_contain(
                self.blocks@,
                (#[trigger] self.transactions@[i]).block_slot,
                opt_bytes_view(self.transactions@[i].block_hash),
            )
        &&& forall|i: int|
            0 <= i < self.logs@.len() ==> blocks_contain(
                self.blocks@,
                (#[trigger] self.logs@[i]).block_slot,
                opt_bytes_view(self.logs@[i].block_hash),
            )
        &&& forall|i: int|
            0 <= i < self.balances@.len() ==> blocks_contain(
                self.blocks@,
                (#[trigger] self.balances@[i]).block_slot,
                opt_bytes_view(self.balances@[i].block_hash),
            )
        &&& forall|i: int|
            0 <= i < self.token_balances@.len() ==> blocks_contain(
                self.blocks@,
                (#[trigger] self.token_balances@[i]).block_slot,
                opt_bytes_view(self.token_balances@[i].block_hash),
            )
        &&& forall|i: int|
            0 <= i < self.rewards@.len() ==> blocks_contain(
                self.blocks@,
                (#[trigger] self.rewards@[i]).block_slot,
                opt_bytes_view(self.rewards@[i].block_hash),
            )
    }

    /// An empty accumulator.
    pub fn new() -> (r: ArrowResponseParser)
        ensures
            r.instructions@.len() == 0,
            r.transactions@.len() == 0,
            r.logs@.len() == 0,
            r.balances@.len() == 0,
            r.token_balances@.len() == 0,
            r.rewards@.len() == 0,
            r.blocks@.len() == 0,
            r.wf(),
    {
        ArrowResponseParser {
            instructions: Vec::new(),
            transactions: Vec::new(),
            logs: Vec::new(),
            balances: Vec::new(),
            token_balances: Vec::new(),
            rewards: Vec::new(),
            blocks: Vec::new(),
        }
    }

    /// Move the accumulated rows out as one response.
    pub fn finish(self) -> (r: ArrowResponse)
        ensures
            r.instructions@ == self.instructions@,
            r.transactions@ == self.transactions@,
            r.logs@ == self.logs@,
            r.balances@ == self.balances@,
            r.token_balances@ == self.token_balances@,
            r.rewards@ == self.rewards@,
            r.blocks@ == self.blocks@,
            self.wf() ==> response_aligned(r),
    {
        ArrowResponse {
            instructions: self.instructions,
            transactions: self.transactions,
            logs: self.logs,
            balances: self.balances,
            token_balances: self.token_balances,
            rewards: self.rewards,
            blocks: self.blocks,
        }
    }
}

impl ArrowResponseParser {
    /// Decode the `header` object into one blocks row, and hand back the
    /// `(slot, hash)` pair that stamps this block's child rows.
    #[verifier::rlimit(50)]
    fn parse_header(&mut self, header: &JsonValue) -> (r: Result<BlockInfo, Error>)
        requires
            header is Obj,
            old(self).wf(),
        ensures
            final(self).wf(),
            final(self).instructions@ == old(self).instructions@,
            final(self).transactions@ == old(self).transactions@,
            final(self).logs@ == old(self).logs@,
            final(self).balances@ == old(self).balances@,
            final(self).token_balances@ == old(self).token_balances@,
            final(self).rewards@ == old(self).rewards@,
            r is Ok <==> block_row_ok(*header),
            r is Err ==> final(self).blocks@ == old(self).blocks@,
            r is Ok ==> {
                &&& final(self).blocks@.len() == old(self).blocks@.len() + 1
                &&& final(self).blocks@ == old(self).blocks@.push(final(self).blocks@.last())
                &&& block_row_matches(final(self).blocks@.last(), *header)
                &&& block_info_matches(r->Ok_0, *header)
                &&& blocks_contain(
                    final(self).blocks@,
                    r->Ok_0.slot,
                    opt_bytes_view(r->Ok_0.hash),
                )
            },
    {
        let slot = get_tape_u64(header, "number")?;
        let hash = get_tape_base58(header, "hash")?;
        let parent_slot = get_tape_u64(header, "parentNumber")?;
        let parent_hash = get_tape_base58(header, "parentHash")?;
        let height = get_tape_u64(header, "height")?;
        let timestamp = get_tape_i64(header, "timestamp")?;

        let info = BlockInfo { slot, hash: clone_opt_bytes(&hash) };
        let row = BlockRow { slot, hash, parent_slot, parent_hash, height, timestamp };
        let ghost rowv = row;
        self.blocks.push(row);
        proof {
            let nb = self.blocks@;
            assert(nb == old(self).blocks@.push(rowv));
            assert(nb[nb.len() - 1] == rowv);
            assert(rowv.slot == info.slot);
            assert(opt_bytes_view(rowv.hash) == opt_bytes_view(info.hash));
            assert(blocks_contain(nb, info.slot, opt_bytes_view(info.hash)));
            assert forall|i: int| 0 <= i < self.instructions@.len() implies blocks_contain(
                nb,
                (#[trigger] self.instructions@[i]).block_slot,
                opt_bytes_view(self.instructions@[i].block_hash),
            ) by {
                lemma_blocks_contain_push(
                    old(self).blocks@,
                    rowv,
                    self.instructions@[i].block_slot,
                    opt_bytes_view(self.instructions@[i].block_hash),
                );
            }
            assert forall|i: int| 0 <= i < self.transactions@.len() implies blocks_contain(
                nb,
                (#[trigger] self.transactions@[i]).block_slot,
                opt_bytes_view(self.transactions@[i].block_hash),
            ) by {
                lemma_blocks_contain_push(
                    old(self).blocks@,
                    rowv,
                    self.transactions@[i].block_slot,
                    opt_bytes_view(self.transactions@[i].block_hash),
                );
            }
            assert forall|i: int| 0 <= i < self.logs@.len() implies blocks_contain(
                nb,
                (#[trigger] self.logs@[i]).block_slot,
                opt_bytes_view(self.logs@[i].block_hash),
            ) by {
                lemma_blocks_contain_push(
                    old(self).blocks@,
                    rowv,
                    self.logs@[i].block_slot,
                    opt_bytes_view(self.logs@[i].block_hash),
                );
            }
            assert forall|i: int| 0 <= i < self.balances@.len() implies blocks_contain(
                nb,
                (#[trigger] self.balances@[i]).block_slot,
                opt_bytes_view(self.balances@[i].block_hash),
            ) by {
                lemma_blocks_contain_push(
                    old(self).blocks@,
                    rowv,
                    self.balances@[i].block_slot,
                    opt_bytes_view(self.balances@[i].block_hash),
                );
            }
            assert forall|i: int| 0 <= i < self.token_balances@.len() implies blocks_contain(
                nb,
                (#[trigger] self.token_balances@[i]).block_slot,
                opt_bytes_view(self.token_balances@[i].block_hash),
            ) by {
                lemma_blocks_contain_push(
                    old(self).blocks@,
                    rowv,
                    self.token_balances@[i].block_slot,
                    opt_bytes_view(self.token_balances@[i].block_hash),
                );
            }
            assert forall|i: int| 0 <= i < self.rewards@.len() implies blocks_contain(
                nb,
                (#[trigger] self.rewards@[i]).block_slot,
                opt_bytes_view(self.rewards@[i].block_hash),
            ) by {
                lemma_blocks_contain_push(
                    old(self).blocks@,
                    rowv,
                    self.rewards@[i].block_slot,
                    opt_bytes_view(self.rewards@[i].block_hash),
                );
            }
        }
        Ok(info)
    }

    /// Decode the optional `rewards` array, one row per element.
    #[verifier::rlimit(100)]
    fn parse_rewards(&mut self, block_info: &BlockInfo, obj: &JsonValue) -> (r: Result<(), Error>)
        requires
            obj is Obj,
            old(self).wf(),
            blocks_contain(old(self).blocks@, block_info.slot, opt_bytes_view(block_info.hash)),
        ensures
            final(self).wf(),
            final(self).instructions@ == old(self).instructions@,
            final(self).transactions@ == old(self).transactions@,
            final(self).logs@ == old(self).logs@,
            final(self).balances@ == old(self).balances@,
            final(self).token_balances@ == old(self).token_balances@,
            final(self).blocks@ == old(self).blocks@,
            r is Ok <==> rewards_objs_ok(*obj),
            r is Ok ==> {
                let arr = arr_of(*obj, "rewards"@);
                &&& final(self).rewards@.len() == old(self).rewards@.len() + arr.len()
                &&& forall|j: int|
                    0 <= j < arr.len() ==> {
                        let row = #[trigger] final(self).rewards@[old(self).rewards@.len() + j];
                        &&& reward_row_matches(row, arr[j])
                        &&& row.block_slot == block_info.slot
                        &&& opt_bytes_view(row.block_hash) == opt_bytes_view(block_info.hash)
                    }
            },
    {
        let arr = match obj {
            JsonValue::Obj(fields) => match json_obj_get(fields, "rewards") {
                None => { return Ok(()); },
                Some(JsonValue::Null) => { return Ok(()); },
                Some(JsonValue::Arr(a)) => a,
                Some(_) => { return Err(Error::new(ErrorKind::Shape, "rewards as array")); },
            },
            _ => { return Err(Error::new(ErrorKind::Shape, "block as object")); },
        };
        let n = arr.len();
        let mut i: usize = 0;
        while i < n
            invariant
                obj is Obj,
                field_of(*obj, "rewards"@) == Some(JsonValue::Arr(*arr)),
                n == arr@.len(),
                i <= n,
                self.instructions@ == old(self).instructions@,
                self.transactions@ == old(self).transactions@,
                self.logs@ == old(self).logs@,
                self.balances@ == old(self).balances@,
                self.token_balances@ == old(self).token_balances@,
                self.blocks@ == old(self).blocks@,
                self.wf(),
                blocks_contain(self.blocks@, block_info.slot, opt_bytes_view(block_info.hash)),
                self.rewards@.len() == old(self).rewards@.len() + i,
                forall|j: int|
                    0 <= j < i ==> (#[trigger] arr@[j]) is Obj && reward_row_ok(arr@[j]),
                forall|j: int|
                    0 <= j < i ==> {
                        let row = #[trigger] self.rewards@[old(self).rewards@.len() + j];
                        &&& reward_row_matches(row, arr@[j])
                        &&& row.block_slot == block_info.slot
                        &&& opt_bytes_view(row.block_hash) == opt_bytes_view(block_info.hash)
                    },
            decreases n - i,
        {
            let v = &arr[i];
            match v {
                JsonValue::Obj(_) => {},
                _ => { return Err(Error::new(ErrorKind::Shape, "reward as object")); },
            }
            let pubkey = get_tape_base58(v, "pubkey")?;
            let lamports = get_tape_bigint(v, "lamports")?;
            let post_balance = get_tape_bigint(v, "postBalance")?;
            let reward_type = get_tape_string(v, "rewardType")?;
            let commission = get_tape_u8(v, "commission")?;
            let row = RewardRow {
                block_slot: block_info.slot,
                block_hash: clone_opt_bytes(&block_info.hash),
                pubkey,
                lamports,
                post_balance,
                reward_type,
                commission,
            };
            let ghost rowv = row;
            self.rewards.push(row);
            proof {
                assert(self.rewards@[old(self).rewards@.len() + i] == rowv);
                assert(reward_row_matches(rowv, arr@[i as int]));
            }
            i += 1;
        }
        proof {
            assert(rewards_objs_ok(*obj));
        }
        Ok(())
    }

    /// Decode the optional `tokenBalances` array, one row per element.
    #[verifier::rlimit(100)]
    fn parse_token_balances(&mut self, block_info: &BlockInfo, obj: &JsonValue) -> (r: Result<
        (),
        Error,
    >)
        requires
            obj is Obj,
            old(self).wf(),
            blocks_contain(old(self).blocks@, block_info.slot, opt_bytes_view(block_info.hash)),
        ensures
            final(self).wf(),
            final(self).instructions@ == old(self).instructions@,
            final(self).transactions@ == old(self).transactions@,
            final(self).logs@ == old(self).logs@,
            final(self).balances@ == old(self).balances@,
            final(self).rewards@ == old(self).rewards@,
            final(self).blocks@ == old(self).blocks@,
            r is Ok <==> token_balances_objs_ok(*obj),
            r is Ok ==> {
                let arr = arr_of(*obj, "tokenBalances"@);
                &&& final(self).token_balances@.len() == old(self).token_balances@.len()
                    + arr.len()
                &&& forall|j: int|
                    0 <= j < arr.len() ==> {
                        let row = #[trigger] final(self).token_balances@[old(
                            self,
                        ).token_balances@.len() + j];
                        &&& token_balance_row_matches(row, arr[j])
                        &&& row.block_slot == block_info.slot
                        &&& opt_bytes_view(row.block_hash) == opt_bytes_view(block_info.hash)
                    }
            },
    {
        let arr = match obj {
            JsonValue::Obj(fields) => match json_obj_get(fields, "tokenBalances") {
                None => { return Ok(()); },
                Some(JsonValue::Null) => { return Ok(()); },
                Some(JsonValue::Arr(a)) => a,
                Some(_) => {
                    return Err(Error::new(ErrorKind::Shape, "token balances as array"));
                },
            },
            _ => { return Err(Error::new(ErrorKind::Shape, "block as object")); },
        };
        let n = arr.len();
        let mut i: usize = 0;
        while i < n
            invariant
                obj is Obj,
                field_of(*obj, "tokenBalances"@) == Some(JsonValue::Arr(*arr)),
                n == arr@.len(),
                i <= n,
                self.instructions@ == old(self).instructions@,
                self.transactions@ == old(self).transactions@,
                self.logs@ == old(self).logs@,
                self.balances@ == old(self).balances@,
                self.rewards@ == old(self).rewards@,
                self.blocks@ == old(self).blocks@,
                self.wf(),
                blocks_contain(self.blocks@, block_info.slot, opt_bytes_view(block_info.hash)),
                self.token_balances@.len() == old(self).token_balances@.len() + i,
                forall|j: int|
                    0 <= j < i ==> (#[trigger] arr@[j]) is Obj && token_balance_row_ok(arr@[j]),
                forall|j: int|
                    0 <= j < i ==> {
                        let row = #[trigger] self.token_balances@[old(self).token_balances@.len()
                            + j];
                        &&& token_balance_row_matches(row, arr@[j])
                        &&& row.block_slot == block_info.slot
                        &&& opt_bytes_view(row.block_hash) == opt_bytes_view(block_info.hash)
                    },
            decreases n - i,
        {
            let v = &arr[i];
            match v {
                JsonValue::Obj(_) => {},
                _ => { return Err(Error::new(ErrorKind::Shape, "token balance as object")); },
            }
            let transaction_index = get_tape_u32(v, "transactionIndex")?;
            let account = get_tape_base58(v, "account")?;
            let pre_mint = get_tape_base58(v, "preMint")?;
            let post_mint = get_tape_base58(v, "postMint")?;
            let pre_decimals = get_tape_u16(v, "preDecimals")?;
            let post_decimals = get_tape_u16(v, "postDecimals")?;
            let pre_program_id = get_tape_base58(v, "preProgramId")?;
            let post_program_id = get_tape_base58(v, "postProgramId")?;
            let pre_owner = get_tape_base58(v, "preOwner")?;
            let post_owner = get_tape_base58(v, "postOwner")?;
            let pre_amount = get_tape_bigint(v, "preAmount")?;
            let post_amount = get_tape_bigint(v, "postAmount")?;
            let row = TokenBalanceRow {
                block_slot: block_info.slot,
                block_hash: clone_opt_bytes(&block_info.hash),
                transaction_index,
                account,
                pre_mint,
                post_mint,
                pre_decimals,
                post_decimals,
                pre_program_id,
                post_program_id,
                pre_owner,
                post_owner,
                pre_amount,
                post_amount,
            };
            let ghost rowv = row;
            self.token_balances.push(row);
            proof {
                assert(self.token_balances@[old(self).token_balances@.len() + i] == rowv);
                assert(token_balance_row_matches(rowv, arr@[i as int]));
            }
            i += 1;
        }
        proof {
            assert(token_balances_objs_ok(*obj));
        }
        Ok(())
    }

    /// Decode the optional `balances` array, one row per element.
    #[verifier::rlimit(100)]
    fn parse_balances(&mut self, block_info: &BlockInfo, obj: &JsonValue) -> (r: Result<(), Error>)
        requires
            obj is Obj,
            old(self).wf(),
            blocks_contain(old(self).blocks@, block_info.slot, opt_bytes_view(block_info.hash)),
        ensures
            final(self).wf(),
            final(self).instructions@ == old(self).instructions@,
            final(self).transactions@ == old(self).transactions@,
            final(self).logs@ == old(self).logs@,
            final(self).token_balances@ == old(self).token_balances@,
            final(self).rewards@ == old(self).rewards@,
            final(self).blocks@ == old(self).blocks@,
            r is Ok <==> balances_objs_ok(*obj),
            r is Ok ==> {
                let arr = arr_of(*obj, "balances"@);
                &&& final(self).balances@.len() == old(self).balances@.len() + arr.len()
                &&& forall|j: int|
                    0 <= j < arr.len() ==> {
                        let row = #[trigger] final(self).balances@[old(self).balances@.len() + j];
                        &&& balance_row_matches(row, arr[j])
                        &&& row.block_slot == block_info.slot
                        &&& opt_bytes_view(row.block_hash) == opt_bytes_view(block_info.hash)
                    }
            },
    {
        let arr = match obj {
            JsonValue::Obj(fields) => match json_obj_get(fields, "balances") {
                None => { return Ok(()); },
                Some(JsonValue::Null) => { return Ok(()); },
                Some(JsonValue::Arr(a)) => a,
                Some(_) => { return Err(Error::new(ErrorKind::Shape, "balances as array")); },
            },
            _ => { return Err(Error::new(ErrorKind::Shape, "block as object")); },
        };
        let n = arr.len();
        let mut i: usize = 0;
        while i < n
            invariant
                obj is Obj,
                field_of(*obj, "balances"@) == Some(JsonValue::Arr(*arr)),
                n == arr@.len(),
                i <= n,
                self.instructions@ == old(self).instructions@,
                self.transactions@ == old(self).transactions@,
                self.logs@ == old(self).logs@,
                self.token_balances@ == old(self).token_balances@,
                self.rewards@ == old(self).rewards@,
                self.blocks@ == old(self).blocks@,
                self.wf(),
                blocks_contain(self.blocks@, block_info.slot, opt_bytes_view(block_info.hash)),
                self.balances@.len() == old(self).balances@.len() + i,
                forall|j: int|
                    0 <= j < i ==> (#[trigger] arr@[j]) is Obj && balance_row_ok(arr@[j]),
                forall|j: int|
                    0 <= j < i ==> {
                        let row = #[trigger] self.balances@[old(self).balances@.len() + j];
                        &&& balance_row_matches(row, arr@[j])
                        &&& row.block_slot == block_info.slot
                        &&& opt_bytes_view(row.block_hash) == opt_bytes_view(block_info.hash)
                    },
            decreases n - i,
        {
            let v = &arr[i];
            match v {
                JsonValue::Obj(_) => {},
                _ => { return Err(Error::new(ErrorKind::Shape, "balance as object")); },
            }
            let transaction_index = get_tape_u32(v, "transactionIndex")?;
            let account = get_tape_base58(v, "account")?;
            let pre = get_tape_bigint(v, "pre")?;
            let post = get_tape_bigint(v, "post")?;
            let row = BalanceRow {
                block_slot: block_info.slot,
                block_hash: clone_opt_bytes(&block_info.hash),
                transaction_index,
                account,
                pre,
                post,
            };
            let ghost rowv = row;
            self.balances.push(row);
            proof {
                assert(self.balances@[old(self).balances@.len() + i] == rowv);
                assert(balance_row_matches(rowv, arr@[i as int]));
            }
            i += 1;
        }
        proof {
            assert(balances_objs_ok(*obj));
        }
        Ok(())
    }

    /// Decode the optional `logs` array, one row per element.
    #[verifier::rlimit(100)]
    fn parse_logs(&mut self, block_info: &BlockInfo, obj: &JsonValue) -> (r: Result<(), Error>)
        requires
            obj is Obj,
            old(self).wf(),
            blocks_contain(old(self).blocks@, block_info.slot, opt_bytes_view(block_info.hash)),
        ensures
            final(self).wf(),
            final(self).instructions@ == old(self).instructions@,
            final(self).transactions@ == old(self).transactions@,
            final(self).balances@ == old(self).balances@,
            final(self).token_balances@ == old(self).token_balances@,
            final(self).rewards@ == old(self).rewards@,
            final(self).blocks@ == old(self).blocks@,
            r is Ok <==> logs_objs_ok(*obj),
            r is Ok ==> {
                let arr = arr_of(*obj, "logs"@);
                &&& final(self).logs@.len() == old(self).logs@.len() + arr.len()
                &&& forall|j: int|
                    0 <= j < arr.len() ==> {
                        let row = #[trigger] final(self).logs@[old(self).logs@.len() + j];
                        &&& log_row_matches(row, arr[j])
                        &&& row.block_slot == block_info.slot
                        &&& opt_bytes_view(row.block_hash) == opt_bytes_view(block_info.hash)
                    }
            },
    {
        let arr = match obj {
            JsonValue::Obj(fields) => match json_obj_get(fields, "logs") {
                None => { return Ok(()); },
                Some(JsonValue::Null) => { return Ok(()); },
                Some(JsonValue::Arr(a)) => a,
                Some(_) => { return Err(Error::new(ErrorKind::Shape, "logs as array")); },
            },
            _ => { return Err(Error::new(ErrorKind::Shape, "block as object")); },
        };
        let n = arr.len();
        let mut i: usize = 0;
        while i < n
            invariant
                obj is Obj,
                field_of(*obj, "logs"@) == Some(JsonValue::Arr(*arr)),
                n == arr@.len(),
                i <= n,
                self.instructions@ == old(self).instructions@,
                self.transactions@ == old(self).transactions@,
                self.balances@ == old(self).balances@,
                self.token_balances@ == old(self).token_balances@,
                self.rewards@ == old(self).rewards@,
                self.blocks@ == old(self).blocks@,
                self.wf(),
                blocks_contain(self.blocks@, block_info.slot, opt_bytes_view(block_info.hash)),
                self.logs@.len() == old(self).logs@.len() + i,
                forall|j: int| 0 <= j < i ==> (#[trigger] arr@[j]) is Obj && log_row_ok(arr@[j]),
                forall|j: int|
                    0 <= j < i ==> {
                        let row = #[trigger] self.logs@[old(self).logs@.len() + j];
                        &&& log_row_matches(row, arr@[j])
                        &&& row.block_slot == block_info.slot
                        &&& opt_bytes_view(row.block_hash) == opt_bytes_view(block_info.hash)
                    },
            decreases n - i,
        {
            let v = &arr[i];
            match v {
                JsonValue::Obj(_) => {},
                _ => { return Err(Error::new(ErrorKind::Shape, "log as object")); },
            }
            let transaction_index = get_tape_u32(v, "transactionIndex")?;
            let log_index = get_tape_u32(v, "logIndex")?;
            let instruction_address = get_tape_array_of_u32(v, "instructionAddress")?;
            let program_id = get_tape_base58(v, "programId")?;
            let kind = get_tape_string(v, "kind")?;
            let message = get_tape_string(v, "message")?;
            let row = LogRow {
                block_slot: block_info.slot,
                block_hash: clone_opt_bytes(&block_info.hash),
                transaction_index,
                log_index,
                instruction_address,
                program_id,
                kind,
                message,
            };
            let ghost rowv = row;
            self.logs.push(row);
            proof {
                assert(self.logs@[old(self).logs@.len() + i] == rowv);
                assert(log_row_matches(rowv, arr@[i as int]));
            }
            i += 1;
        }
        proof {
            assert(logs_objs_ok(*obj));
        }
        Ok(())
    }
}

/// One bad element refuses the whole lookup list.
proof fn lemma_atls_not_ok(tx: JsonValue, list: Vec<JsonValue>, i: int)
    requires
        tx is Obj,
        field_of(tx, "addressTableLookups"@) == Some(JsonValue::Arr(list)),
        0 <= i < list@.len(),
        !atl_ok(list@[i]),
    ensures
        !atls_ok(tx),
{
    if atls_ok(tx) {
        assert(match field_of(tx, "addressTableLookups"@) {
            Some(JsonValue::Arr(a)) => a == list,
            _ => false,
        });
        assert(atl_ok(list@[i]));
    }
}

/// Decode the optional `addressTableLookups` list of one transaction:
/// one struct per element, or an absent column with the member.
fn parse_address_table_lookups(tx: &JsonValue) -> (r: Result<
    Option<Vec<AddressTableLookup>>,
    Error,
>)
    requires
        tx is Obj,
    ensures
        r is Ok <==> atls_ok(*tx),
        r is Ok ==> atls_match(r->Ok_0, *tx),
{
    let list = match tx {
        JsonValue::Obj(fields) => match json_obj_get(fields, "addressTableLookups") {
            None => { return Ok(None); },
            Some(JsonValue::Null) => { return Ok(None); },
            Some(JsonValue::Arr(a)) => a,
            Some(_) => {
                return Err(Error::new(ErrorKind::Shape, "address table lookups as array"));
            },
        },
        _ => { return Err(Error::new(ErrorKind::Shape, "transaction as object")); },
    };
    let n = list.len();
    let mut out: Vec<AddressTableLookup> = Vec::new();
    let mut i: usize = 0;
    while i < n
        invariant
            tx is Obj,
            field_of(*tx, "addressTableLookups"@) == Some(JsonValue::Arr(*list)),
            n == list@.len(),
            i <= n,
            out@.len() == i,
            forall|j: int| 0 <= j < i ==> atl_ok(#[trigger] list@[j]),
            forall|j: int| 0 <= j < i ==> atl_matches(#[trigger] out@[j], list@[j]),
        decreases n - i,
    {
        let v = &list[i];
        match v {
            JsonValue::Obj(_) => {},
            _ => {
                proof {
                    lemma_atls_not_ok(*tx, *list, i as int);
                }
                return Err(Error::new(ErrorKind::Shape, "address table lookup as object"));
            },
        }
        let account_key = match get_tape_base58(v, "accountKey") {
            Ok(x) => x,
            Err(e) => {
                proof {
                    lemma_atls_not_ok(*tx, *list, i as int);
                }
                return Err(e);
            },
        };
        let writable_indexes = match get_tape_array_of_u64(v, "writableIndexes") {
            Ok(x) => x,
            Err(e) => {
                proof {
                    lemma_atls_not_ok(*tx, *list, i as int);
                }
                return Err(e);
            },
        };
        let readonly_indexes = match get_tape_array_of_u64(v, "readonlyIndexes") {
            Ok(x) => x,
            Err(e) => {
                proof {
                    lemma_atls_not_ok(*tx, *list, i as int);
                }
                return Err(e);
            },
        };
        out.push(AddressTableLookup { account_key, writable_indexes, readonly_indexes });
        i += 1;
    }
    proof {
        assert(atls_ok(*tx));
    }
    Ok(Some(out))
}

/// Decode the optional `loadedAddresses` object of one transaction into
/// its two list columns.  When the member is present, both `readonly`
/// and `writable` are required.
fn parse_loaded_addresses(tx: &JsonValue) -> (r: Result<
    (Option<Vec<Vec<u8>>>, Option<Vec<Vec<u8>>>),
    Error,
>)
    requires
        tx is Obj,
    ensures
        r is Ok <==> loaded_ok(*tx),
        r is Ok ==> match field_of(*tx, "loadedAddresses"@) {
            None => r->Ok_0.0 is None && r->Ok_0.1 is None,
            Some(la) => {
                &&& opt_vbytes_is(r->Ok_0.0, b58_array_field(la, "readonly"@))
                &&& opt_vbytes_is(r->Ok_0.1, b58_array_field(la, "writable"@))
            },
        },
{
    let la = match tx {
        JsonValue::Obj(fields) => match json_obj_get(fields, "loadedAddresses") {
            None => { return Ok((None, None)); },
            Some(JsonValue::Null) => { return Ok((None, None)); },
            Some(v) => v,
        },
        _ => { return Err(Error::new(ErrorKind::Shape, "transaction as object")); },
    };
    match la {
        JsonValue::Obj(_) => {},
        _ => { return Err(Error::new(ErrorKind::Shape, "loaded addresses as object")); },
    }
    let readonly = match get_tape_array_of_base58(la, "readonly")? {
        Some(v) => v,
        None => { return Err(Error::new(ErrorKind::Shape, "readonly is null")); },
    };
    let writable = match get_tape_array_of_base58(la, "writable")? {
        Some(v) => v,
        None => { return Err(Error::new(ErrorKind::Shape, "writable is null")); },
    };
    Ok((Some(readonly), Some(writable)))
}

impl ArrowResponseParser {
    /// Decode the optional `transactions` array, one row per element,
    /// with the nested lookup list and loaded-address columns.
    #[verifier::rlimit(100)]
    fn parse_transactions(&mut self, block_info: &BlockInfo, obj: &JsonValue) -> (r: Result<
        (),
        Error,
    >)
        requires
            obj is Obj,
            old(self).wf(),
            blocks_contain(old(self).blocks@, block_info.slot, opt_bytes_view(block_info.hash)),
        ensures
            final(self).wf(),
            final(self).instructions@ == old(self).instructions@,
            final(self).logs@ == old(self).logs@,
            final(self).balances@ == old(self).balances@,
            final(self).token_balances@ == old(self).token_balances@,
            final(self).rewards@ == old(self).rewards@,
            final(self).blocks@ == old(self).blocks@,
            r is Ok <==> txs_objs_ok(*obj),
            r is Ok ==> {
                let arr = arr_of(*obj, "transactions"@);
                &&& final(self).transactions@.len() == old(self).transactions@.len() + arr.len()
                &&& forall|j: int|
                    0 <= j < arr.len() ==> {
                        let row = #[trigger] final(self).transactions@[old(
                            self,
                        ).transactions@.len() + j];
                        &&& tx_row_matches(row, arr[j])
                        &&& row.block_slot == block_info.slot
                        &&& opt_bytes_view(row.block_hash) == opt_bytes_view(block_info.hash)
                    }
            },
    {
        let arr = match obj {
            JsonValue::Obj(fields) => match json_obj_get(fields, "transactions") {
                None => { return Ok(()); },
                Some(JsonValue::Null) => { return Ok(()); },
                Some(JsonValue::Arr(a)) => a,
                Some(_) => {
                    return Err(Error::new(ErrorKind::Shape, "transactions as array"));
                },
            },
            _ => { return Err(Error::new(ErrorKind::Shape, "block as object")); },
        };
        let n = arr.len();
        let mut i: usize = 0;
        while i < n
            invariant
                obj is Obj,
                field_of(*obj, "transactions"@) == Some(JsonValue::Arr(*arr)),
                n == arr@.len(),
                i <= n,
                self.instructions@ == old(self).instructions@,
                self.logs@ == old(self).logs@,
                self.balances@ == old(self).balances@,
                self.token_balances@ == old(self).token_balances@,
                self.rewards@ == old(self).rewards@,
                self.blocks@ == old(self).blocks@,
                self.wf(),
                blocks_contain(self.blocks@, block_info.slot, opt_bytes_view(block_info.hash)),
                self.transactions@.len() == old(self).transactions@.len() + i,
                forall|j: int| 0 <= j < i ==> (#[trigger] arr@[j]) is Obj && tx_row_ok(arr@[j]),
                forall|j: int|
                    0 <= j < i ==> {
                        let row = #[trigger] self.transactions@[old(self).transactions@.len() + j];
                        &&& tx_row_matches(row, arr@[j])
                        &&& row.block_slot == block_info.slot
                        &&& opt_bytes_view(row.block_hash) == opt_bytes_view(block_info.hash)
                    },
            decreases n - i,
        {
            let tx = &arr[i];
            match tx {
                JsonValue::Obj(_) => {},
                _ => { return Err(Error::new(ErrorKind::Shape, "transaction as object")); },
            }
            let transaction_index = get_tape_u32(tx, "transactionIndex")?;
            let version = get_tape_version(tx, "version")?;
            let account_keys = get_tape_array_of_base58(tx, "accountKeys")?;
            let address_table_lookups = parse_address_table_lookups(tx)?;
            let num_readonly_signed_accounts = get_tape_u32(tx, "numReadonlySignedAccounts")?;
            let num_readonly_unsigned_accounts = get_tape_u32(tx, "numReadonlyUnsignedAccounts")?;
            let num_required_signatures = get_tape_u32(tx, "numRequiredSignatures")?;
            let recent_blockhash = get_tape_base58(tx, "recentBlockhash")?;
            let signatures = get_tape_array_of_base58(tx, "signatures")?;
            let err = get_tape_json_string(tx, "err")?;
            let fee = get_tape_bigint(tx, "fee")?;
            let compute_units_consumed = get_tape_bigint(tx, "computeUnitsConsumed")?;
            let loaded = parse_loaded_addresses(tx)?;
            let fee_payer = get_tape_base58(tx, "feePayer")?;
            let has_dropped_log_messages = get_tape_bool(tx, "hasDroppedLogMessages")?;

            let (loaded_readonly_addresses, loaded_writable_addresses) = loaded;
            let row = TxRow {
                block_slot: block_info.slot,
                block_hash: clone_opt_bytes(&block_info.hash),
                transaction_index,
                version,
                account_keys,
                address_table_lookups,
                num_readonly_signed_accounts,
                num_readonly_unsigned_accounts,
                num_required_signatures,
                recent_blockhash,
                signatures,
                err,
                fee,
                compute_units_consumed,
                loaded_readonly_addresses,
                loaded_writable_addresses,
                fee_payer,
                has_dropped_log_messages,
            };
            let ghost rowv = row;
            self.transactions.push(row);
            proof {
                assert(self.transactions@[old(self).transactions@.len() + i] == rowv);
                assert(tx_row_matches(rowv, arr@[i as int]));
            }
            i += 1;
        }
        proof {
            assert(txs_objs_ok(*obj));
        }
        Ok(())
    }

    /// Decode the optional `instructions` array, one row per element,
    /// spreading the first ten accounts into positional columns.
    #[verifier::rlimit(100)]
    fn parse_instructions(&mut self, block_info: &BlockInfo, obj: &JsonValue) -> (r: Result<
        (),
        Error,
    >)
        requires
            obj is Obj,
            old(self).wf(),
            blocks_contain(old(self).blocks@, block_info.slot, opt_bytes_view(block_info.hash)),
        ensures
            final(self).wf(),
            final(self).transactions@ == old(self).transactions@,
            final(self).logs@ == old(self).logs@,
            final(self).balances@ == old(self).balances@,
            final(self).token_balances@ == old(self).token_balances@,
            final(self).rewards@ == old(self).rewards@,
            final(self).blocks@ == old(self).blocks@,
            r is Ok <==> instructions_objs_ok(*obj),
            r is Ok ==> {
                let arr = arr_of(*obj, "instructions"@);
                &&& final(self).instructions@.len() == old(self).instructions@.len() + arr.len()
                &&& forall|j: int|
                    0 <= j < arr.len() ==> {
                        let row = #[trigger] final(self).instructions@[old(
                            self,
                        ).instructions@.len() + j];
                        &&& instruction_row_matches(row, arr[j])
                        &&& row.block_slot == block_info.slot
                        &&& opt_bytes_view(row.block_hash) == opt_bytes_view(block_info.hash)
                    }
            },
    {
        let arr = match obj {
            JsonValue::Obj(fields) => match json_obj_get(fields, "instructions") {
                None => { return Ok(()); },
                Some(JsonValue::Null) => { return Ok(()); },
                Some(JsonValue::Arr(a)) => a,
                Some(_) => {
                    return Err(Error::new(ErrorKind::Shape, "instructions as array"));
                },
            },
            _ => { return Err(Error::new(ErrorKind::Shape, "block as object")); },
        };
        let n = arr.len();
        let mut i: usize = 0;
        while i < n
            invariant
                obj is Obj,
                field_of(*obj, "instructions"@) == Some(JsonValue::Arr(*arr)),
                n == arr@.len(),
                i <= n,
                self.transactions@ == old(self).transactions@,
                self.logs@ == old(self).logs@,
                self.balances@ == old(self).balances@,
                self.token_balances@ == old(self).token_balances@,
                self.rewards@ == old(self).rewards@,
                self.blocks@ == old(self).blocks@,
                self.wf(),
                blocks_contain(self.blocks@, block_info.slot, opt_bytes_view(block_info.hash)),
                self.instructions@.len() == old(self).instructions@.len() + i,
                forall|j: int|
                    0 <= j < i ==> (#[trigger] arr@[j]) is Obj && instruction_row_ok(arr@[j]),
                forall|j: int|
                    0 <= j < i ==> {
                        let row = #[trigger] self.instructions@[old(self).instructions@.len() + j];
                        &&& instruction_row_matches(row, arr@[j])
                        &&& row.block_slot == block_info.slot
                        &&& opt_bytes_view(row.block_hash) == opt_bytes_view(block_info.hash)
                    },
            decreases n - i,
        {
            let v = &arr[i];
            match v {
                JsonValue::Obj(_) => {},
                _ => { return Err(Error::new(ErrorKind::Shape, "instruction as object")); },
            }
            let transaction_index = get_tape_u32(v, "transactionIndex")?;
            let instruction_address = get_tape_array_of_u32(v, "instructionAddress")?;
            let program_id = get_tape_base58(v, "programId")?;
            let accounts = get_tape_array_of_base58(v, "accounts")?;
            let data = get_tape_base58(v, "data")?;
            let d1 = get_tape_hex(v, "d1")?;
            let d2 = get_tape_hex(v, "d2")?;
            let d4 = get_tape_hex(v, "d4")?;
            let d8 = get_tape_hex(v, "d8")?;
            let error = get_tape_string(v, "error")?;
            let compute_units_consumed = get_tape_bigint(v, "computeUnitsConsumed")?;
            let is_committed = get_tape_bool(v, "isCommitted")?;
            let has_dropped_log_messages = get_tape_bool(v, "hasDroppedLogMessages")?;

            let mut a0: Option<Vec<u8>> = None;
            let mut a1: Option<Vec<u8>> = None;
            let mut a2: Option<Vec<u8>> = None;
            let mut a3: Option<Vec<u8>> = None;
            let mut a4: Option<Vec<u8>> = None;
            let mut a5: Option<Vec<u8>> = None;
            let mut a6: Option<Vec<u8>> = None;
            let mut a7: Option<Vec<u8>> = None;
            let mut a8: Option<Vec<u8>> = None;
            let mut a9: Option<Vec<u8>> = None;
            let mut rest_of_accounts: Option<Vec<Vec<u8>>> = None;
            match &accounts {
                None => {},
                Some(ac) => {
                    proof {
                        assert forall|k: int| 0 <= k < ac@.len() implies ac.deep_view()[k]
                            =~= ac@[k]@ by {
                            assert(ac.deep_view()[k] == ac@[k].deep_view());
                        }
                    }
                    if ac.len() > 0 {
                        a0 = Some(clone_bytes(&ac[0]));
                    }
                    if ac.len() > 1 {
                        a1 = Some(clone_bytes(&ac[1]));
                    }
                    if ac.len() > 2 {
                        a2 = Some(clone_bytes(&ac[2]));
                    }
                    if ac.len() > 3 {
                        a3 = Some(clone_bytes(&ac[3]));
                    }
                    if ac.len() > 4 {
                        a4 = Some(clone_bytes(&ac[4]));
                    }
                    if ac.len() > 5 {
                        a5 = Some(clone_bytes(&ac[5]));
                    }
                    if ac.len() > 6 {
                        a6 = Some(clone_bytes(&ac[6]));
                    }
                    if ac.len() > 7 {
                        a7 = Some(clone_bytes(&ac[7]));
                    }
                    if ac.len() > 8 {
                        a8 = Some(clone_bytes(&ac[8]));
                    }
                    if ac.len() > 9 {
                        a9 = Some(clone_bytes(&ac[9]));
                    }
                    if ac.len() > 10 {
                        let m = ac.len();
                        let mut rest: Vec<Vec<u8>> = Vec::new();
                        let mut k: usize = 10;
                        proof {
                            assert(rest.deep_view() =~= ac.deep_view().subrange(10, 10));
                        }
                        while k < m
                            invariant
                                m == ac@.len(),
                                10 <= k <= m,
                                rest.deep_view() == ac.deep_view().subrange(10, k as int),
                                forall|p: int|
                                    0 <= p < ac@.len() ==> ac.deep_view()[p] == ac@[p].deep_view(),
                            decreases m - k,
                        {
                            let ghost prev = rest.deep_view();
                            rest.push(clone_bytes(&ac[k]));
                            proof {
                                assert(ac@[k as int].deep_view() =~= ac@[k as int]@);
                                assert(rest.deep_view() =~~= prev.push(ac.deep_view()[k as int]));
                                assert(ac.deep_view().subrange(10, k + 1)
                                    =~= ac.deep_view().subrange(10, k as int).push(
                                    ac.deep_view()[k as int],
                                ));
                            }
                            k += 1;
                        }
                        proof {
                            assert(ac.deep_view().subrange(10, m as int) =~= ac.deep_view().skip(
                                10,
                            ));
                        }
                        rest_of_accounts = Some(rest);
                    }
                },
            }

            let row = InstructionRow {
                block_slot: block_info.slot,
                block_hash: clone_opt_bytes(&block_info.hash),
                transaction_index,
                instruction_address,
                program_id,
                a0,
                a1,
                a2,
                a3,
                a4,
                a5,
                a6,
                a7,
                a8,
                a9,
                rest_of_accounts,
                data,
                d1,
                d2,
                d4,
                d8,
                error,
                compute_units_consumed,
                is_committed,
                has_dropped_log_messages,
            };
            let ghost rowv = row;
            self.instructions.push(row);
            proof {
                assert(self.instructions@[old(self).instructions@.len() + i] == rowv);
                assert(instruction_row_matches(rowv, arr@[i as int]));
            }
            i += 1;
        }
        proof {
            assert(instructions_objs_ok(*obj));
        }
        Ok(())
    }

    /// Decode one slot object: its required `header` into one blocks
    /// row, then the six optional child arrays into child rows stamped
    /// with the header's `(slot, hash)` pair, in the order rewards,
    /// token balances, balances, logs, transactions, instructions.
    #[verifier::rlimit(100)]
    pub fn parse_tape(&mut self, tape: &JsonValue) -> (r: Result<(), Error>)
        requires
            old(self).wf(),
        ensures
            final(self).wf(),
            r is Ok <==> svm_block_ok(*tape),
            r is Ok ==> ({
                let h = header_of(*tape);
                &&& final(self).blocks@.len() == old(self).blocks@.len() + 1
                &&& final(self).blocks@ == old(self).blocks@.push(final(self).blocks@.last())
                &&& block_row_matches(final(self).blocks@.last(), h)
                &&& final(self).rewards@.len() == old(self).rewards@.len() + arr_of(
                    *tape,
                    "rewards"@,
                ).len()
                &&& forall|j: int|
                    0 <= j < arr_of(*tape, "rewards"@).len() ==> reward_row_matches(
                        #[trigger] final(self).rewards@[old(self).rewards@.len() + j],
                        arr_of(*tape, "rewards"@)[j],
                    )
                &&& final(self).token_balances@.len() == old(self).token_balances@.len() + arr_of(
                    *tape,
                    "tokenBalances"@,
                ).len()
                &&& forall|j: int|
                    0 <= j < arr_of(*tape, "tokenBalances"@).len() ==> token_balance_row_matches(
                        #[trigger] final(self).token_balances@[old(self).token_balances@.len() + j],
                        arr_of(*tape, "tokenBalances"@)[j],
                    )
                &&& final(self).balances@.len() == old(self).balances@.len() + arr_of(
                    *tape,
                    "balances"@,
                ).len()
                &&& forall|j: int|
                    0 <= j < arr_of(*tape, "balances"@).len() ==> balance_row_matches(
                        #[trigger] final(self).balances@[old(self).balances@.len() + j],
                        arr_of(*tape, "balances"@)[j],
                    )
                &&& final(self).logs@.len() == old(self).logs@.len() + arr_of(
                    *tape,
                    "logs"@,
                ).len()
                &&& forall|j: int|
                    0 <= j < arr_of(*tape, "logs"@).len() ==> log_row_matches(
                        #[trigger] final(self).logs@[old(self).logs@.len() + j],
                        arr_of(*tape, "logs"@)[j],
                    )
                &&& final(self).transactions@.len() == old(self).transactions@.len() + arr_of(
                    *tape,
                    "transactions"@,
                ).len()
                &&& forall|j: int|
                    0 <= j < arr_of(*tape, "transactions"@).len() ==> tx_row_matches(
                        #[trigger] final(self).transactions@[old(self).transactions@.len() + j],
                        arr_of(*tape, "transactions"@)[j],
                    )
                &&& final(self).instructions@.len() == old(self).instructions@.len() + arr_of(
                    *tape,
                    "instructions"@,
                ).len()
                &&& forall|j: int|
                    0 <= j < arr_of(*tape, "instructions"@).len() ==> instruction_row_matches(
                        #[trigger] final(self).instructions@[old(self).instructions@.len() + j],
                        arr_of(*tape, "instructions"@)[j],
                    )
            }),
    {
        let fields = match tape {
            JsonValue::Obj(f) => f,
            _ => { return Err(Error::new(ErrorKind::Shape, "tape as object")); },
        };
        let header = match json_obj_get(fields, "header") {
            None => { return Err(Error::new(ErrorKind::MissingHeader, "get header")); },
            Some(JsonValue::Null) => {
                return Err(Error::new(ErrorKind::MissingHeader, "get header"));
            },
            Some(h) => h,
        };
        match header {
            JsonValue::Obj(_) => {},
            _ => { return Err(Error::new(ErrorKind::Shape, "header as object")); },
        }
        let block_info = self.parse_header(header)?;
        self.parse_rewards(&block_info, tape)?;
        self.parse_token_balances(&block_info, tape)?;
        self.parse_balances(&block_info, tape)?;
        self.parse_logs(&block_info, tape)?;
        self.parse_transactions(&block_info, tape)?;
        self.parse_instructions(&block_info, tape)?;
        Ok(())
    }
}

/// Row alignment: in a well-formed accumulation, every row of the six
/// child tables carries the `(slot, hash)` pair of one of the rows of
/// `blocks`.  The decoder establishes `wf` when empty and keeps it
/// across every `parse_tape` call, whether or not the call succeeds.
pub proof fn lemma_row_alignment(p: ArrowResponseParser)
    requires
        p.wf(),
    ensures
        forall|i: int|
            0 <= i < p.transactions@.len() ==> blocks_contain(
                p.blocks@,
                (#[trigger] p.transactions@[i]).block_slot,
                opt_bytes_view(p.transactions@[i].block_hash),
            ),
        forall|i: int|
            0 <= i < p.instructions@.len() ==> blocks_contain(
                p.blocks@,
                (#[trigger] p.instructions@[i]).block_slot,
                opt_bytes_view(p.instructions@[i].block_hash),
            ),
        forall|i: int|
            0 <= i < p.logs@.len() ==> blocks_contain(
                p.blocks@,
                (#[trigger] p.logs@[i]).block_slot,
                opt_bytes_view(p.logs@[i].block_hash),
            ),
        forall|i: int|
            0 <= i < p.balances@.len() ==> blocks_contain(
                p.blocks@,
                (#[trigger] p.balances@[i]).block_slot,
                opt_bytes_view(p.balances@[i].block_hash),
            ),
        forall|i: int|
            0 <= i < p.token_balances@.len() ==> blocks_contain(
                p.blocks@,
                (#[trigger] p.token_balances@[i]).block_slot,
                opt_bytes_view(p.token_balances@[i].block_hash),
            ),
        forall|i: int|
            0 <= i < p.rewards@.len() ==> blocks_contain(
                p.blocks@,
                (#[trigger] p.rewards@[i]).block_slot,
                opt_bytes_view(p.rewards@[i].block_hash),
            ),
{
}

impl Default for ArrowResponseParser {
    /// An empty accumulator.
    fn default() -> (r: ArrowResponseParser)
        ensures
            r.instructions@.len() == 0,
            r.transactions@.len() == 0,
            r.logs@.len() == 0,
            r.balances@.len() == 0,
            r.token_balances@.len() == 0,
            r.rewards@.len() == 0,
            r.blocks@.len() == 0,
            r.wf(),
    {
        ArrowResponseParser::new()
    }
}

} // verus!
