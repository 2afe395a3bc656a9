//! A JSON value held as plain data, and the spec-level readers that the
//! row decoders are specified against.
//!
//! The service replies with one JSON object per line.  The surrounding
//! program turns each line into a [`JsonValue`] tree; everything the
//! library then does with it is verified against the spec functions here.
//! A convention used throughout: a member whose value is JSON `null` is
//! read exactly like an absent member.

use vstd::prelude::*;
use vstd::utf8::encode_utf8;
use crate::ErrorKind;

verus! {

broadcast use vstd::std_specs::vec::group_vec_axioms, vstd::seq::axiom_seq_index_decreases;

/// A JSON value.  Numbers keep their tape form: non-negative integers in
/// `UInt`, negative integers in `Int`, any other number (a float) as its
/// decimal text in `Num`.
#[derive(Debug, PartialEq)]
pub enum JsonValue {
    Null,
    Bool(bool),
    UInt(u64),
    Int(i64),
    Num(String),
    Str(String),
    Arr(Vec<JsonValue>),
    Obj(Vec<(String, JsonValue)>),
}

/// The value of the first member named `key`, scanning in order.
pub open spec fn obj_lookup(fields: Seq<(String, JsonValue)>, key: Seq<char>) -> Option<JsonValue>
    decreases fields.len(),
{
    if fields.len() == 0 {
        None
    } else if fields[0].0@ == key {
        Some(fields[0].1)
    } else {
        obj_lookup(fields.drop_first(), key)
    }
}

/// Whether some member carries this name at all, `null` or not.
pub open spec fn has_key(fields: Seq<(String, JsonValue)>, key: Seq<char>) -> bool {
    exists|j: int| 0 <= j < fields.len() && (#[trigger] fields[j]).0@ == key
}

/// Whether the object carries a member of this name at all, `null` or
/// not.
pub open spec fn has_member(v: JsonValue, key: Seq<char>) -> bool {
    v matches JsonValue::Obj(fields) && has_key(fields@, key)
}

/// One member of a wire object, key by key: an empty request
/// string-array has no member, a non-empty one is an array of strings.
pub open spec fn str_arr_entry(fields: Seq<(String, JsonValue)>, key: Seq<char>, xs: Seq<
    String,
>) -> bool {
    if xs.len() == 0 {
        !has_key(fields, key)
    } else {
        match obj_lookup(fields, key) {
            Some(JsonValue::Arr(a)) => a@.len() == xs.len() && forall|i: int|
                0 <= i < xs.len() ==> ((#[trigger] a@[i]) matches JsonValue::Str(s) && s@
                    == xs[i]@),
            _ => false,
        }
    }
}

/// The wire form of one request string-array: left out entirely when
/// empty, an array of the strings otherwise.
pub open spec fn str_arr_member(v: JsonValue, key: Seq<char>, xs: Seq<String>) -> bool {
    v is Obj && str_arr_entry(v->Obj_0@, key, xs)
}

/// The wire form of one flag: always present.
pub open spec fn bool_member(v: JsonValue, key: Seq<char>, b: bool) -> bool {
    v is Obj && obj_lookup(v->Obj_0@, key) == Some(JsonValue::Bool(b))
}

/// A member read back as a list of string views: absent or null is the
/// empty list, anything but an array of strings refuses the member.
pub open spec fn str_views(a: Seq<JsonValue>) -> Result<Seq<Seq<char>>, ErrorKind>
    decreases a.len(),
{
    if a.len() == 0 {
        Ok(Seq::empty())
    } else {
        match str_views(a.drop_last()) {
            Ok(init) => match a.last() {
                JsonValue::Str(s) => Ok(init.push(s@)),
                _ => Err(ErrorKind::Shape),
            },
            Err(k) => Err(k),
        }
    }
}

pub open spec fn str_arr_read(v: JsonValue, key: Seq<char>) -> Result<Seq<Seq<char>>, ErrorKind> {
    match field_of(v, key) {
        None => Ok(Seq::empty()),
        Some(JsonValue::Arr(a)) => str_views(a@),
        Some(_) => Err(ErrorKind::Shape),
    }
}

/// The strings and the views line up pairwise.
pub open spec fn str_seq_is(xs: Seq<String>, vs: Seq<Seq<char>>) -> bool {
    xs.len() == vs.len() && forall|i: int| 0 <= i < vs.len() ==> (#[trigger] xs[i])@ == vs[i]
}

/// Member lookup on an object, with JSON `null` collapsed to absent.
pub open spec fn field_of(obj: JsonValue, key: Seq<char>) -> Option<JsonValue> {
    match obj {
        JsonValue::Obj(fields) => match obj_lookup(fields@, key) {
            Some(JsonValue::Null) => None,
            r => r,
        },
        _ => None,
    }
}

// ---------------------------------------------------------------------------
// Scalar readers.  Each mirrors one typed accessor of the row decoders:
// absent or null gives `Ok(None)`, a value of the wrong JSON type gives
// `Err(Shape)`, one of the right type but out of width gives `Err(Range)`.
// ---------------------------------------------------------------------------

pub open spec fn u64_field(obj: JsonValue, key: Seq<char>) -> Result<Option<u64>, ErrorKind> {
    match field_of(obj, key) {
        None => Ok(None),
        Some(JsonValue::UInt(v)) => Ok(Some(v)),
        Some(_) => Err(ErrorKind::Shape),
    }
}

pub open spec fn u32_field(obj: JsonValue, key: Seq<char>) -> Result<Option<u32>, ErrorKind> {
    match field_of(obj, key) {
        None => Ok(None),
        Some(JsonValue::UInt(v)) => if v <= u32::MAX {
            Ok(Some(v as u32))
        } else {
            Err(ErrorKind::Range)
        },
        Some(_) => Err(ErrorKind::Shape),
    }
}

pub open spec fn u16_field(obj: JsonValue, key: Seq<char>) -> Result<Option<u16>, ErrorKind> {
    match field_of(obj, key) {
        None => Ok(None),
        Some(JsonValue::UInt(v)) => if v <= u16::MAX {
            Ok(Some(v as u16))
        } else {
            Err(ErrorKind::Range)
        },
        Some(_) => Err(ErrorKind::Shape),
    }
}

pub open spec fn u8_field(obj: JsonValue, key: Seq<char>) -> Result<Option<u8>, ErrorKind> {
    match field_of(obj, key) {
        None => Ok(None),
        Some(JsonValue::UInt(v)) => if v <= u8::MAX {
            Ok(Some(v as u8))
        } else {
            Err(ErrorKind::Range)
        },
        Some(_) => Err(ErrorKind::Shape),
    }
}

pub open spec fn i64_field(obj: JsonValue, key: Seq<char>) -> Result<Option<i64>, ErrorKind> {
    match field_of(obj, key) {
        None => Ok(None),
        Some(JsonValue::UInt(v)) => if v <= i64::MAX {
            Ok(Some(v as i64))
        } else {
            Err(ErrorKind::Range)
        },
        Some(JsonValue::Int(v)) => Ok(Some(v)),
        Some(_) => Err(ErrorKind::Shape),
    }
}

pub open spec fn bool_field(obj: JsonValue, key: Seq<char>) -> Result<Option<bool>, ErrorKind> {
    match field_of(obj, key) {
        None => Ok(None),
        Some(JsonValue::Bool(b)) => Ok(Some(b)),
        Some(_) => Err(ErrorKind::Shape),
    }
}

pub open spec fn string_field(obj: JsonValue, key: Seq<char>) -> Result<
    Option<Seq<char>>,
    ErrorKind,
> {
    match field_of(obj, key) {
        None => Ok(None),
        Some(JsonValue::Str(s)) => Ok(Some(s@)),
        Some(_) => Err(ErrorKind::Shape),
    }
}

// ---------------------------------------------------------------------------
// Hex text.  `0x`-prefixed, case-insensitive, an odd number of digits is
// read as if a single `0` were prepended.
// ---------------------------------------------------------------------------

/// The value of one hex digit, as a byte of text.
pub open spec fn hex_val(b: u8) -> Option<u8> {
    if 48 <= b <= 57 {
        Some((b - 48) as u8)
    } else if 97 <= b <= 102 {
        Some((b - 87) as u8)
    } else if 65 <= b <= 70 {
        Some((b - 55) as u8)
    } else {
        None
    }
}

/// Decode an even number of hex digits, two digits to a byte.
pub open spec fn spec_hex_pairs(s: Seq<u8>) -> Option<Seq<u8>>
    decreases s.len(),
{
    if s.len() % 2 != 0 {
        None
    } else if s.len() == 0 {
        Some(Seq::empty())
    } else {
        match (
            spec_hex_pairs(s.drop_last().drop_last()),
            hex_val(s[s.len() - 2]),
            hex_val(s[s.len() - 1]),
        ) {
            (Some(bs), Some(h), Some(l)) => Some(bs.push((h * 16 + l) as u8)),
            _ => None,
        }
    }
}

/// Decode `0x`-prefixed hex text, padding odd-length digit runs with one
/// leading zero digit.
pub open spec fn spec_decode_prefixed_hex(s: Seq<u8>) -> Option<Seq<u8>> {
    if s.len() < 2 || s[0] != 48 || s[1] != 120 {
        None
    } else {
        let digits = s.skip(2);
        if digits.len() % 2 == 0 {
            spec_hex_pairs(digits)
        } else {
            spec_hex_pairs(seq![48u8] + digits)
        }
    }
}

pub open spec fn hex_field(obj: JsonValue, key: Seq<char>) -> Result<Option<Seq<u8>>, ErrorKind> {
    match field_of(obj, key) {
        None => Ok(None),
        Some(JsonValue::Str(s)) => match spec_decode_prefixed_hex(encode_utf8(s@)) {
            Some(b) => Ok(Some(b)),
            None => Err(ErrorKind::Codec),
        },
        Some(_) => Err(ErrorKind::Shape),
    }
}

// ---------------------------------------------------------------------------
// Big-endian byte-string integers.
// ---------------------------------------------------------------------------

/// The unsigned value of a big-endian byte string.
pub open spec fn be_nat(s: Seq<u8>) -> nat
    decreases s.len(),
{
    if s.len() == 0 {
        0
    } else {
        (be_nat(s.drop_last()) * 256 + s.last()) as nat
    }
}

/// Left-pad to 32 bytes.
pub open spec fn pad32(s: Seq<u8>) -> Seq<u8> {
    Seq::new((32 - s.len()) as nat, |i: int| 0u8) + s
}

/// A big-endian byte string as a non-negative 256-bit value: at most 32
/// bytes and, once padded, below 2^255.
pub open spec fn u256_from_be(s: Seq<u8>) -> Result<Seq<u8>, ErrorKind> {
    if s.len() > 32 {
        Err(ErrorKind::Range)
    } else if pad32(s)[0] >= 128 {
        Err(ErrorKind::Range)
    } else {
        Ok(pad32(s))
    }
}

/// A 256-bit column value: a hex field decoded and widened.
pub open spec fn u256_field(obj: JsonValue, key: Seq<char>) -> Result<Option<Seq<u8>>, ErrorKind> {
    match hex_field(obj, key) {
        Ok(None) => Ok(None),
        Ok(Some(b)) => match u256_from_be(b) {
            Ok(p) => Ok(Some(p)),
            Err(k) => Err(k),
        },
        Err(k) => Err(k),
    }
}

/// A hex field read as a byte-wide value, as the `v` column is.
pub open spec fn u8_hex_field(obj: JsonValue, key: Seq<char>) -> Result<Option<u8>, ErrorKind> {
    match hex_field(obj, key) {
        Ok(None) => Ok(None),
        Ok(Some(b)) => if b.len() <= 32 && be_nat(b) <= 255 {
            Ok(Some(be_nat(b) as u8))
        } else {
            Err(ErrorKind::Range)
        },
        Err(k) => Err(k),
    }
}

// ---------------------------------------------------------------------------
// Decimal text.  Large counters arrive as JSON strings of decimal digits.
// ---------------------------------------------------------------------------

pub open spec fn is_dec_digits(s: Seq<u8>) -> bool {
    forall|i: int| 0 <= i < s.len() ==> 48 <= #[trigger] s[i] <= 57
}

/// The value of a run of decimal digits.
pub open spec fn dec_nat(s: Seq<u8>) -> nat
    decreases s.len(),
{
    if s.len() == 0 {
        0
    } else {
        (dec_nat(s.drop_last()) * 10 + (s.last() - 48)) as nat
    }
}

/// Decimal text as a `u64`, accepting one optional leading `+` as the
/// standard library's integer parser does.
pub open spec fn spec_parse_u64(s: Seq<u8>) -> Option<u64> {
    let digits = if s.len() > 0 && s[0] == 43 {
        s.drop_first()
    } else {
        s
    };
    if digits.len() > 0 && is_dec_digits(digits) && dec_nat(digits) <= u64::MAX {
        Some(dec_nat(digits) as u64)
    } else {
        None
    }
}

/// A decimal-string field as a `u64`.
pub open spec fn bigint_field(obj: JsonValue, key: Seq<char>) -> Result<Option<u64>, ErrorKind> {
    match field_of(obj, key) {
        None => Ok(None),
        Some(JsonValue::Str(s)) => match spec_parse_u64(encode_utf8(s@)) {
            Some(v) => Ok(Some(v)),
            None => Err(ErrorKind::Range),
        },
        Some(_) => Err(ErrorKind::Shape),
    }
}

/// A transaction version: the text `legacy` is the `i8::MIN` sentinel,
/// otherwise a non-negative value that fits in `i8`.
pub open spec fn version_field(obj: JsonValue, key: Seq<char>) -> Result<Option<i8>, ErrorKind> {
    match field_of(obj, key) {
        None => Ok(None),
        Some(JsonValue::Str(s)) => if s@ == "legacy"@ {
            Ok(Some(i8::MIN))
        } else {
            Err(ErrorKind::Shape)
        },
        Some(JsonValue::UInt(v)) => if v <= i8::MAX {
            Ok(Some(v as i8))
        } else {
            Err(ErrorKind::Range)
        },
        Some(_) => Err(ErrorKind::Shape),
    }
}

// ---------------------------------------------------------------------------
// Arrays of scalars.
// ---------------------------------------------------------------------------

pub open spec fn u64_items(a: Seq<JsonValue>) -> Result<Seq<u64>, ErrorKind>
    decreases a.len(),
{
    if a.len() == 0 {
        Ok(Seq::empty())
    } else {
        match u64_items(a.drop_last()) {
            Ok(init) => match a.last() {
                JsonValue::UInt(v) => Ok(init.push(v)),
                _ => Err(ErrorKind::Shape),
            },
            Err(k) => Err(k),
        }
    }
}

pub open spec fn u32_items(a: Seq<JsonValue>) -> Result<Seq<u32>, ErrorKind>
    decreases a.len(),
{
    if a.len() == 0 {
        Ok(Seq::empty())
    } else {
        match u32_items(a.drop_last()) {
            Ok(init) => match a.last() {
                JsonValue::UInt(v) => if v <= u32::MAX {
                    Ok(init.push(v as u32))
                } else {
                    Err(ErrorKind::Range)
                },
                _ => Err(ErrorKind::Shape),
            },
            Err(k) => Err(k),
        }
    }
}

pub open spec fn hex_items(a: Seq<JsonValue>) -> Result<Seq<Seq<u8>>, ErrorKind>
    decreases a.len(),
{
    if a.len() == 0 {
        Ok(Seq::empty())
    } else {
        match hex_items(a.drop_last()) {
            Ok(init) => match a.last() {
                JsonValue::Str(s) => match spec_decode_prefixed_hex(encode_utf8(s@)) {
                    Some(b) => Ok(init.push(b)),
                    None => Err(ErrorKind::Codec),
                },
                _ => Err(ErrorKind::Shape),
            },
            Err(k) => Err(k),
        }
    }
}

pub open spec fn u64_array_field(obj: JsonValue, key: Seq<char>) -> Result<
    Option<Seq<u64>>,
    ErrorKind,
> {
    match field_of(obj, key) {
        None => Ok(None),
        Some(JsonValue::Arr(a)) => match u64_items(a@) {
            Ok(items) => Ok(Some(items)),
            Err(k) => Err(k),
        },
        Some(_) => Err(ErrorKind::Shape),
    }
}

pub open spec fn u32_array_field(obj: JsonValue, key: Seq<char>) -> Result<
    Option<Seq<u32>>,
    ErrorKind,
> {
    match field_of(obj, key) {
        None => Ok(None),
        Some(JsonValue::Arr(a)) => match u32_items(a@) {
            Ok(items) => Ok(Some(items)),
            Err(k) => Err(k),
        },
        Some(_) => Err(ErrorKind::Shape),
    }
}

pub open spec fn hex_array_field(obj: JsonValue, key: Seq<char>) -> Result<
    Option<Seq<Seq<u8>>>,
    ErrorKind,
> {
    match field_of(obj, key) {
        None => Ok(None),
        Some(JsonValue::Arr(a)) => match hex_items(a@) {
            Ok(items) => Ok(Some(items)),
            Err(k) => Err(k),
        },
        Some(_) => Err(ErrorKind::Shape),
    }
}

// ---------------------------------------------------------------------------
// Writing a value back out as JSON text.
// ---------------------------------------------------------------------------

/// One lowercase hex digit, as a byte of text.
pub open spec fn hex_digit(v: u8) -> u8 {
    if v < 10 {
        (48 + v) as u8
    } else {
        (87 + v) as u8
    }
}

/// The decimal digits of a number, most significant first.
pub open spec fn dec_digits(n: nat) -> Seq<u8>
    decreases n,
{
    if n < 10 {
        seq![(48 + n) as u8]
    } else {
        dec_digits(n / 10).push((48 + n % 10) as u8)
    }
}

/// How one byte of string content is written inside quotes: quote and
/// backslash get a backslash, control bytes become `\u00XX`, everything
/// else stands as it is.
pub open spec fn escape_byte(b: u8) -> Seq<u8> {
    if b == 34 || b == 92 {
        seq![92u8, b]
    } else if b < 32 {
        seq![92u8, 117u8, 48u8, 48u8, hex_digit(b / 16), hex_digit(b % 16)]
    } else {
        seq![b]
    }
}

pub open spec fn escape_bytes(s: Seq<u8>) -> Seq<u8>
    decreases s.len(),
{
    if s.len() == 0 {
        Seq::empty()
    } else {
        escape_bytes(s.drop_last()) + escape_byte(s.last())
    }
}

/// A string as written: quoted and escaped.
pub open spec fn quoted(s: Seq<char>) -> Seq<u8> {
    seq![34u8] + escape_bytes(encode_utf8(s)) + seq![34u8]
}

/// The JSON text of a value, with no whitespace.
pub open spec fn spec_encode(v: JsonValue) -> Seq<u8>
    decreases v,
{
    match v {
        JsonValue::Null => seq![110u8, 117u8, 108u8, 108u8],
        JsonValue::Bool(b) => if b {
            seq![116u8, 114u8, 117u8, 101u8]
        } else {
            seq![102u8, 97u8, 108u8, 115u8, 101u8]
        },
        JsonValue::UInt(n) => dec_digits(n as nat),
        JsonValue::Int(n) => if n >= 0 {
            dec_digits(n as nat)
        } else {
            seq![45u8] + dec_digits((-(n as int)) as nat)
        },
        JsonValue::Num(s) => encode_utf8(s@),
        JsonValue::Str(s) => quoted(s@),
        JsonValue::Arr(a) => seq![91u8] + spec_encode_items(a@) + seq![93u8],
        JsonValue::Obj(f) => seq![123u8] + spec_encode_members(f@) + seq![125u8],
    }
}

/// Array elements, comma separated.
pub open spec fn spec_encode_items(a: Seq<JsonValue>) -> Seq<u8>
    decreases a,
{
    if a.len() == 0 {
        Seq::empty()
    } else if a.len() == 1 {
        spec_encode(a[0])
    } else {
        spec_encode_items(a.drop_last()) + seq![44u8] + spec_encode(a.last())
    }
}

/// Object members, comma separated, each `"key":value`.
pub open spec fn spec_encode_members(f: Seq<(String, JsonValue)>) -> Seq<u8>
    decreases f,
{
    if f.len() == 0 {
        Seq::empty()
    } else if f.len() == 1 {
        quoted(f[0].0@) + seq![58u8] + spec_encode(f[0].1)
    } else {
        spec_encode_members(f.drop_last()) + seq![44u8] + quoted(f.last().0@) + seq![58u8]
            + spec_encode(f.last().1)
    }
}

/// `u8_hex_field` shares this width test with the byte-slice reader.
pub open spec fn u8_from_be(s: Seq<u8>) -> Result<u8, ErrorKind> {
    if s.len() <= 32 && be_nat(s) <= 255 {
        Ok(be_nat(s) as u8)
    } else {
        Err(ErrorKind::Range)
    }
}

impl JsonValue {
    /// The JSON text of this value, with no whitespace.
    pub fn encode(&self) -> (r: Vec<u8>)
        ensures
            r@ == spec_encode(*self),
    {
        let mut out: Vec<u8> = Vec::new();
        encode_into(self, &mut out);
        out
    }
}

/// Append the bytes of `s` to `out`.
fn push_str_bytes(out: &mut Vec<u8>, s: &str)
    ensures
        final(out)@ == old(out)@ + encode_utf8(s@),
{
    let b = s.as_bytes();
    let n = b.len();
    let mut i: usize = 0;
    proof {
        assert(out@ =~= old(out)@ + b@.take(0));
    }
    while i < n
        invariant
            n == b@.len(),
            i <= n,
            out@ == old(out)@ + b@.take(i as int),
        decreases n - i,
    {
        out.push(b[i]);
        proof {
            assert(old(out)@ + b@.take(i + 1) =~= (old(out)@ + b@.take(i as int)).push(
                b@[i as int],
            ));
        }
        i += 1;
    }
    proof {
        assert(b@.take(n as int) =~= b@);
    }
}

/// One lowercase hex digit of text.
fn hex_digit_exec(v: u8) -> (r: u8)
    requires
        v < 16,
    ensures
        r == hex_digit(v),
{
    if v < 10 {
        48 + v
    } else {
        87 + v
    }
}

/// Append `s` quoted and escaped.
fn push_quoted(out: &mut Vec<u8>, s: &str)
    ensures
        final(out)@ == old(out)@ + quoted(s@),
{
    out.push(34);
    let b = s.as_bytes();
    let n = b.len();
    let mut i: usize = 0;
    proof {
        assert(out@ =~= old(out)@ + seq![34u8] + escape_bytes(b@.take(0)));
    }
    while i < n
        invariant
            n == b@.len(),
            i <= n,
            out@ == old(out)@ + seq![34u8] + escape_bytes(b@.take(i as int)),
        decreases n - i,
    {
        let ghost before = out@;
        let c = b[i];
        if c == 34 || c == 92 {
            out.push(92);
            out.push(c);
        } else if c < 32 {
            out.push(92);
            out.push(117);
            out.push(48);
            out.push(48);
            out.push(hex_digit_exec(c / 16));
            out.push(hex_digit_exec(c % 16));
        } else {
            out.push(c);
        }
        proof {
            assert(out@ =~= before + escape_byte(b@[i as int]));
            assert(b@.take(i + 1).drop_last() =~= b@.take(i as int));
            assert(out@ =~= old(out)@ + seq![34u8] + escape_bytes(b@.take(i + 1)));
        }
        i += 1;
    }
    out.push(34);
    proof {
        assert(b@.take(n as int) =~= b@);
        assert(out@ =~= old(out)@ + quoted(s@));
    }
}

/// Append the decimal digits of `n`.
fn push_dec_u64(out: &mut Vec<u8>, n: u64)
    ensures
        final(out)@ == old(out)@ + dec_digits(n as nat),
    decreases n,
{
    if n < 10 {
        out.push(48 + n as u8);
        proof {
            assert(out@ =~= old(out)@ + dec_digits(n as nat));
        }
    } else {
        push_dec_u64(out, n / 10);
        out.push(48 + (n % 10) as u8);
        proof {
            assert(out@ =~= old(out)@ + dec_digits(n as nat));
        }
    }
}

/// Append the JSON text of `v`.
fn encode_into(v: &JsonValue, out: &mut Vec<u8>)
    ensures
        final(out)@ == old(out)@ + spec_encode(*v),
    decreases *v,
{
    match v {
        JsonValue::Null => {
            out.push(110);
            out.push(117);
            out.push(108);
            out.push(108);
            proof {
                assert(out@ =~= old(out)@ + spec_encode(*v));
            }
        },
        JsonValue::Bool(b) => {
            if *b {
                out.push(116);
                out.push(114);
                out.push(117);
                out.push(101);
            } else {
                out.push(102);
                out.push(97);
                out.push(108);
                out.push(115);
                out.push(101);
            }
            proof {
                assert(out@ =~= old(out)@ + spec_encode(*v));
            }
        },
        JsonValue::UInt(n) => {
            push_dec_u64(out, *n);
        },
        JsonValue::Int(n) => {
            if *n >= 0 {
                push_dec_u64(out, *n as u64);
            } else {
                out.push(45);
                let m: u64 = if *n == i64::MIN {
                    9223372036854775808u64
                } else {
                    (-*n) as u64
                };
                proof {
                    assert(m as nat == (-(*n as int)) as nat);
                }
                push_dec_u64(out, m);
                proof {
                    assert(out@ =~= old(out)@ + spec_encode(*v));
                }
            }
        },
        JsonValue::Num(s) => {
            push_str_bytes(out, s.as_str());
        },
        JsonValue::Str(s) => {
            push_quoted(out, s.as_str());
        },
        JsonValue::Arr(a) => {
            out.push(91);
            let n = a.len();
            let mut i: usize = 0;
            proof {
                assert(out@ =~= old(out)@ + seq![91u8] + spec_encode_items(a@.take(0)));
            }
            while i < n
                invariant
                    n == a@.len(),
                    i <= n,
                    v == JsonValue::Arr(*a),
                    out@ == old(out)@ + seq![91u8] + spec_encode_items(a@.take(i as int)),
                decreases n - i,
            {
                let ghost before = out@;
                if i > 0 {
                    out.push(44);
                }
                proof {
                    assert(decreases_to!(*v => (*v)->Arr_0));
                    assert((*v)->Arr_0 == *a);
                    assert(decreases_to!(*a => a@));
                    assert(decreases_to!(a@ => a@[i as int]));
                    assert(decreases_to!(*v => a@[i as int]));
                }
                encode_into(&a[i], out);
                proof {
                    assert(a@.take(i + 1).drop_last() =~= a@.take(i as int));
                    assert(a@.take(i + 1).last() == a@[i as int]);
                    if i > 0 {
                        assert(out@ =~= before + seq![44u8] + spec_encode(a@[i as int]));
                    }
                    assert(out@ =~= old(out)@ + seq![91u8] + spec_encode_items(a@.take(i + 1)));
                }
                i += 1;
            }
            out.push(93);
            proof {
                assert(a@.take(n as int) =~= a@);
                assert(out@ =~= old(out)@ + spec_encode(*v));
            }
        },
        JsonValue::Obj(f) => {
            out.push(123);
            let n = f.len();
            let mut i: usize = 0;
            proof {
                assert(out@ =~= old(out)@ + seq![123u8] + spec_encode_members(f@.take(0)));
            }
            while i < n
                invariant
                    n == f@.len(),
                    i <= n,
                    v == JsonValue::Obj(*f),
                    out@ == old(out)@ + seq![123u8] + spec_encode_members(f@.take(i as int)),
                decreases n - i,
            {
                let ghost before = out@;
                if i > 0 {
                    out.push(44);
                }
                push_quoted(out, f[i].0.as_str());
                out.push(58);
                proof {
                    assert(decreases_to!(*v => (*v)->Obj_0));
                    assert((*v)->Obj_0 == *f);
                    assert(decreases_to!(*f => f@));
                    assert(decreases_to!(f@ => f@[i as int]));
                    assert(decreases_to!(f@[i as int] => f@[i as int].1));
                    assert(decreases_to!(*v => f@[i as int].1));
                }
                encode_into(&f[i].1, out);
                proof {
                    assert(f@.take(i + 1).drop_last() =~= f@.take(i as int));
                    assert(f@.take(i + 1).last() == f@[i as int]);
                    if i > 0 {
                        assert(out@ =~= before + seq![44u8] + quoted(f@[i as int].0@) + seq![58u8]
                            + spec_encode(f@[i as int].1));
                    } else {
                        assert(out@ =~= before + quoted(f@[i as int].0@) + seq![58u8]
                            + spec_encode(f@[i as int].1));
                    }
                    assert(out@ =~= old(out)@ + seq![123u8] + spec_encode_members(f@.take(i + 1)));
                }
                i += 1;
            }
            out.push(125);
            proof {
                assert(f@.take(n as int) =~= f@);
                assert(out@ =~= old(out)@ + spec_encode(*v));
            }
        },
    }
}

} // verus!
