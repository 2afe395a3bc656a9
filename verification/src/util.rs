//! Typed readers on a JSON object, and the hex and big-endian codecs.
//!
//! Every reader treats a missing member and a member set to JSON `null`
//! the same way: both give `Ok(None)`.  A member of the wrong JSON type
//! fails with a `Shape` error, one whose value does not fit the target
//! width fails with `Range`, and undecodable hex fails with `Codec`.

use vstd::prelude::*;
use vstd::utf8::{encode_utf8, decode_utf8, encode_utf8_decode_utf8};
use vstd::string::StringSliceAdditionalSpecFns;
use crate::json::{JsonValue, obj_lookup, field_of, hex_val, spec_hex_pairs,
    spec_decode_prefixed_hex, be_nat, pad32, u256_from_be, u8_from_be, is_dec_digits, dec_nat,
    spec_parse_u64, u64_field, u32_field, u16_field, u8_field, i64_field, bool_field,
    string_field, hex_field, u256_field, u8_hex_field, bigint_field, version_field, u64_items,
    u32_items, hex_items, u64_array_field, u32_array_field, hex_array_field, spec_encode,
    str_views, str_arr_read, has_key, str_arr_entry, str_arr_member, str_seq_is};
use crate::{Error, ErrorKind};

verus! {

/// Exact byte-slice equality.
pub(crate) fn bytes_eq(a: &[u8], b: &[u8]) -> (r: bool)
    ensures
        r == (a@ == b@),
{
    if a.len() != b.len() {
        assert(a@ != b@);
        return false;
    }
    let n = a.len();
    let mut i: usize = 0;
    while i < n
        invariant
            n == a@.len() == b@.len(),
            i <= n,
            forall|j: int| 0 <= j < i ==> a@[j] == b@[j],
        decreases n - i,
    {
        if a[i] != b[i] {
            return false;
        }
        i += 1;
    }
    proof {
        assert(a@ =~= b@);
    }
    true
}

/// Equal UTF-8 encodings come from equal character sequences.
pub(crate) proof fn lemma_utf8_injective(a: Seq<char>, b: Seq<char>)
    requires
        encode_utf8(a) == encode_utf8(b),
    ensures
        a == b,
{
    broadcast use encode_utf8_decode_utf8;

    assert(decode_utf8(encode_utf8(a)) == a);
    assert(decode_utf8(encode_utf8(b)) == b);
}

/// First member of `fields` named `key`, or `None`.
pub(crate) fn json_obj_get<'a>(fields: &'a Vec<(String, JsonValue)>, key: &str) -> (r: Option<
    &'a JsonValue,
>)
    ensures
        match r {
            Some(v) => obj_lookup(fields@, key@) == Some(*v),
            None => obj_lookup(fields@, key@) is None,
        },
{
    let n = fields.len();
    let mut i: usize = 0;
    proof {
        assert(fields@.skip(0) =~= fields@);
    }
    while i < n
        invariant
            n == fields@.len(),
            i <= n,
            obj_lookup(fields@, key@) == obj_lookup(fields@.skip(i as int), key@),
        decreases n - i,
    {
        let same = bytes_eq(fields[i].0.as_str().as_bytes(), key.as_bytes());
        proof {
            assert(fields@.skip(i as int)[0] == fields@[i as int]);
            if same {
                lemma_utf8_injective(fields@[i as int].0@, key@);
            }
        }
        if same {
            return Some(&fields[i].1);
        }
        proof {
            assert(fields@[i as int].0@ != key@);
            assert(fields@.skip(i as int).drop_first() =~= fields@.skip(i as int + 1));
        }
        i += 1;
    }
    proof {
        assert(fields@.skip(n as int) =~= Seq::<(String, JsonValue)>::empty());
    }
    None
}

// ---------------------------------------------------------------------------
// Hex
// ---------------------------------------------------------------------------

/// The value of one hex digit of text, if it is one.
fn hex_val_exec(b: u8) -> (r: Option<u8>)
    ensures
        r == hex_val(b),
{
    if 48 <= b && b <= 57 {
        Some(b - 48)
    } else if 97 <= b && b <= 102 {
        Some(b - 87)
    } else if 65 <= b && b <= 70 {
        Some(b - 55)
    } else {
        None
    }
}

/// A decodable digit run consists of hex digits only.
proof fn lemma_hex_pairs_digits(s: Seq<u8>)
    requires
        spec_hex_pairs(s) is Some,
    ensures
        forall|i: int| 0 <= i < s.len() ==> hex_val(#[trigger] s[i]) is Some,
    decreases s.len(),
{
    if s.len() > 0 {
        lemma_hex_pairs_digits(s.drop_last().drop_last());
        assert forall|i: int| 0 <= i < s.len() implies hex_val(#[trigger] s[i]) is Some by {
            if i < s.len() - 2 {
                assert(s.drop_last().drop_last()[i] == s[i]);
            }
        }
    }
}

/// Decode an even run of hex digits, two digits to a byte.
fn decode_hex_digits(b: &[u8]) -> (r: Result<Vec<u8>, Error>)
    ensures
        match spec_hex_pairs(b@) {
            Some(out) => r is Ok && r->Ok_0@ == out,
            None => r is Err && r->Err_0.kind == ErrorKind::Codec,
        },
{
    let n = b.len();
    if n % 2 != 0 {
        return Err(Error::new(ErrorKind::Codec, "odd number of hex digits"));
    }
    let mut out: Vec<u8> = Vec::new();
    let mut i: usize = 0;
    proof {
        assert(b@.take(0) =~= Seq::<u8>::empty());
    }
    while i < n
        invariant
            n == b@.len(),
            n % 2 == 0,
            i % 2 == 0,
            i <= n,
            spec_hex_pairs(b@.take(i as int)) == Some(out@),
        decreases n - i,
    {
        let h = hex_val_exec(b[i]);
        let l = hex_val_exec(b[i + 1]);
        if h.is_none() || l.is_none() {
            proof {
                if spec_hex_pairs(b@) is Some {
                    lemma_hex_pairs_digits(b@);
                }
            }
            return Err(Error::new(ErrorKind::Codec, "invalid hex digit"));
        }
        let hv = h.unwrap();
        let lv = l.unwrap();
        proof {
            assert(b@.take(i + 2).drop_last() =~= b@.take(i + 1));
            assert(b@.take(i + 1).drop_last() =~= b@.take(i as int));
            assert(b@.take(i + 2)[i + 2 - 2] == b@[i as int]);
            assert(b@.take(i + 2)[i + 2 - 1] == b@[i as int + 1]);
        }
        out.push(hv * 16 + lv);
        i += 2;
    }
    proof {
        assert(b@.take(n as int) =~= b@);
    }
    Ok(out)
}

/// Decode a run of hex digits without a prefix; the run must have even
/// length.
pub fn decode_hex(hex: &str) -> (r: Result<Vec<u8>, Error>)
    ensures
        match spec_hex_pairs(hex.spec_bytes()) {
            Some(out) => r is Ok && r->Ok_0@ == out,
            None => r is Err && r->Err_0.kind == ErrorKind::Codec,
        },
{
    decode_hex_digits(hex.as_bytes())
}

/// Decode `0x`-prefixed hex text; an odd run of digits is read as if a
/// single `0` were prepended.
pub fn decode_prefixed_hex(val: &str) -> (r: Result<Vec<u8>, Error>)
    ensures
        match spec_decode_prefixed_hex(val.spec_bytes()) {
            Some(out) => r is Ok && r->Ok_0@ == out,
            None => r is Err && r->Err_0.kind == ErrorKind::Codec,
        },
{
    let b = val.as_bytes();
    if b.len() < 2 || b[0] != 48 || b[1] != 120 {
        return Err(Error::new(ErrorKind::Codec, "invalid hex prefix"));
    }
    let n = b.len();
    let mut digits: Vec<u8> = Vec::new();
    if (n - 2) % 2 != 0 {
        digits.push(48);
    }
    let mut i: usize = 2;
    while i < n
        invariant
            n == b@.len(),
            2 <= i <= n,
            digits@ == (
            if (n - 2) % 2 != 0 {
                seq![48u8] + b@.skip(2).take(i - 2)
            } else {
                b@.skip(2).take(i - 2)
            }),
        decreases n - i,
    {
        proof {
            assert(b@.skip(2).take(i - 2 + 1) =~= b@.skip(2).take(i - 2).push(b@[i as int]));
        }
        digits.push(b[i]);
        i += 1;
    }
    proof {
        assert(b@.skip(2).take(n - 2) =~= b@.skip(2));
    }
    decode_hex_digits(digits.as_slice())
}

// ---------------------------------------------------------------------------
// Big-endian integers
// ---------------------------------------------------------------------------

/// A non-negative 256-bit integer, held as its 32 big-endian bytes.
#[derive(Debug, Clone, PartialEq)]
pub struct I256 {
    pub be_bytes: Vec<u8>,
}

impl I256 {
    /// 32 bytes with the sign bit clear.
    pub open spec fn wf(&self) -> bool {
        self.be_bytes@.len() == 32 && self.be_bytes@[0] < 128
    }
}

/// Widen at most 32 big-endian bytes into a non-negative 256-bit value.
pub fn i256_from_be_slice(data: &[u8]) -> (r: Result<I256, Error>)
    ensures
        match u256_from_be(data@) {
            Ok(p) => r is Ok && r->Ok_0.be_bytes@ == p && r->Ok_0.wf(),
            Err(k) => r is Err && r->Err_0.kind == k,
        },
{
    if data.len() > 32 {
        return Err(Error::new(ErrorKind::Range, "more than 32 bytes"));
    }
    let pad = 32 - data.len();
    let mut out: Vec<u8> = Vec::new();
    let mut i: usize = 0;
    while i < pad
        invariant
            i <= pad,
            out@ =~= Seq::new(i as nat, |j: int| 0u8),
        decreases pad - i,
    {
        out.push(0);
        proof {
            assert(Seq::new(i as nat, |j: int| 0u8).push(0u8) =~= Seq::new(
                i as nat + 1,
                |j: int| 0u8,
            ));
        }
        i += 1;
    }
    let mut j: usize = 0;
    let n = data.len();
    while j < n
        invariant
            n == data@.len(),
            j <= n,
            pad == 32 - n,
            out@ =~= Seq::new(pad as nat, |k: int| 0u8) + data@.take(j as int),
        decreases n - j,
    {
        out.push(data[j]);
        proof {
            assert(data@.take(j + 1) =~= data@.take(j as int).push(data@[j as int]));
        }
        j += 1;
    }
    proof {
        assert(data@.take(n as int) =~= data@);
        assert(out@ =~= pad32(data@));
    }
    if out[0] >= 128 {
        return Err(Error::new(ErrorKind::Range, "value out of 256-bit range"));
    }
    Ok(I256 { be_bytes: out })
}

/// A byte string whose value is zero is all zero bytes.
proof fn lemma_be_nat_zero(s: Seq<u8>)
    ensures
        (be_nat(s) == 0) == (forall|i: int| 0 <= i < s.len() ==> s[i] == 0),
    decreases s.len(),
{
    if s.len() > 0 {
        lemma_be_nat_zero(s.drop_last());
        if be_nat(s) == 0 {
            assert forall|i: int| 0 <= i < s.len() implies s[i] == 0 by {
                if i < s.len() - 1 {
                    assert(s.drop_last()[i] == s[i]);
                }
            }
        } else {
            if forall|i: int| 0 <= i < s.len() ==> s[i] == 0 {
                assert forall|i: int| 0 <= i < s.drop_last().len() implies s.drop_last()[i]
                    == 0 by {
                    assert(s.drop_last()[i] == s[i]);
                }
                assert(be_nat(s.drop_last()) == 0);
                assert(s.last() == 0);
            }
        }
    }
}

/// Read at most 32 big-endian bytes as a byte-wide value.
fn u8_from_be_slice(data: &[u8]) -> (r: Result<u8, Error>)
    ensures
        match u8_from_be(data@) {
            Ok(v) => r == Ok::<u8, Error>(v),
            Err(k) => r is Err && r->Err_0.kind == k,
        },
{
    if data.len() > 32 {
        return Err(Error::new(ErrorKind::Range, "more than 32 bytes"));
    }
    let n = data.len();
    if n == 0 {
        return Ok(0);
    }
    let mut i: usize = 0;
    while i < n - 1
        invariant
            n == data@.len(),
            1 <= n <= 32,
            i <= n - 1,
            forall|j: int| 0 <= j < i ==> data@[j] == 0,
        decreases n - i,
    {
        if data[i] != 0 {
            proof {
                lemma_be_nat_zero(data@.drop_last());
                assert(data@.drop_last()[i as int] != 0);
                assert(be_nat(data@.drop_last()) >= 1);
                assert(be_nat(data@) >= 256) by {
                    assert(be_nat(data@) == be_nat(data@.drop_last()) * 256 + data@.last());
                    assert(be_nat(data@.drop_last()) * 256 >= 256);
                }
            }
            return Err(Error::new(ErrorKind::Range, "value out of byte range"));
        }
        i += 1;
    }
    proof {
        assert forall|j: int| 0 <= j < data@.drop_last().len() implies data@.drop_last()[j]
            == 0 by {
            assert(data@.drop_last()[j] == data@[j]);
        }
        lemma_be_nat_zero(data@.drop_last());
        assert(be_nat(data@) == data@.last());
    }
    Ok(data[n - 1])
}

// ---------------------------------------------------------------------------
// Decimal text
// ---------------------------------------------------------------------------

/// A digit-string prefix never exceeds the whole string's value.
proof fn lemma_dec_nat_prefix(s: Seq<u8>, k: int)
    requires
        0 <= k <= s.len(),
        is_dec_digits(s),
    ensures
        dec_nat(s.take(k)) <= dec_nat(s),
    decreases s.len() - k,
{
    if k < s.len() {
        lemma_dec_nat_prefix(s, k + 1);
        assert(s.take(k + 1).drop_last() =~= s.take(k));
        assert(dec_nat(s.take(k + 1)) == dec_nat(s.take(k)) * 10 + (s[k] - 48));
        assert(dec_nat(s.take(k)) * 10 >= dec_nat(s.take(k)));
    } else {
        assert(s.take(k) =~= s);
    }
}

/// Parse decimal text as a `u64`, accepting one optional leading `+`.
pub(crate) fn parse_u64_digits(b: &[u8]) -> (r: Result<u64, Error>)
    ensures
        match spec_parse_u64(b@) {
            Some(v) => r == Ok::<u64, Error>(v),
            None => r is Err && (r->Err_0.kind == ErrorKind::Shape || r->Err_0.kind
                == ErrorKind::Range),
        },
{
    let n = b.len();
    let start: usize = if n > 0 && b[0] == 43 {
        1
    } else {
        0
    };
    let ghost digits = if b@.len() > 0 && b@[0] == 43 {
        b@.drop_first()
    } else {
        b@
    };
    proof {
        assert(digits =~= b@.subrange(start as int, n as int));
    }
    if n == start {
        return Err(Error::new(ErrorKind::Shape, "empty decimal text"));
    }
    // First pass: every byte must be a digit.
    let mut i: usize = start;
    while i < n
        invariant
            n == b@.len(),
            start <= i <= n,
            digits == b@.subrange(start as int, n as int),
            digits == (if b@.len() > 0 && b@[0] == 43 {
                b@.drop_first()
            } else {
                b@
            }),
            forall|j: int| start <= j < i ==> 48 <= #[trigger] b@[j] <= 57,
        decreases n - i,
    {
        if b[i] < 48 || b[i] > 57 {
            proof {
                assert(digits[i - start] == b@[i as int]);
                assert(!is_dec_digits(digits));
            }
            return Err(Error::new(ErrorKind::Shape, "not a decimal digit"));
        }
        i += 1;
    }
    proof {
        assert forall|j: int| 0 <= j < digits.len() implies 48 <= #[trigger] digits[j] <= 57 by {
            assert(digits[j] == b@[j + start]);
        }
        assert(is_dec_digits(digits));
    }
    // Second pass: accumulate, watching the width.
    let mut val: u64 = 0;
    let mut k: usize = start;
    proof {
        assert(digits.take(0) =~= Seq::<u8>::empty());
    }
    while k < n
        invariant
            n == b@.len(),
            start <= k <= n,
            digits == b@.subrange(start as int, n as int),
            digits == (if b@.len() > 0 && b@[0] == 43 {
                b@.drop_first()
            } else {
                b@
            }),
            is_dec_digits(digits),
            dec_nat(digits.take(k - start)) == val,
        decreases n - k,
    {
        proof {
            assert(digits[k - start] == b@[k as int]);
            assert(48 <= b@[k as int] <= 57);
        }
        let d = (b[k] - 48) as u64;
        proof {
            assert(digits.take(k - start + 1).drop_last() =~= digits.take(k - start));
            assert(digits.take(k - start + 1).last() == digits[k - start]);
        }
        if val > (u64::MAX - d) / 10 {
            proof {
                assert(val * 10 + d > u64::MAX) by (nonlinear_arith)
                    requires
                        val > (u64::MAX - d) / 10,
                        0 <= d <= 9,
                ;
                assert(dec_nat(digits.take(k - start + 1)) == val * 10 + d);
                lemma_dec_nat_prefix(digits, k - start + 1);
            }
            return Err(Error::new(ErrorKind::Range, "decimal value too wide"));
        }
        val = val * 10 + d;
        k += 1;
    }
    proof {
        assert(digits.take(n - start) =~= digits);
    }
    Ok(val)
}

// ---------------------------------------------------------------------------
// The hex codec's laws
// ---------------------------------------------------------------------------

/// The lowercase hex text of a byte string, two digits per byte.
pub open spec fn hex_of(b: Seq<u8>) -> Seq<u8>
    decreases b.len(),
{
    if b.len() == 0 {
        Seq::empty()
    } else {
        hex_of(b.drop_last()) + seq![
            crate::json::hex_digit((b.last() / 16) as u8),
            crate::json::hex_digit((b.last() % 16) as u8),
        ]
    }
}

/// Encoding doubles the length.
proof fn lemma_hex_of_len(b: Seq<u8>)
    ensures
        hex_of(b).len() == 2 * b.len(),
    decreases b.len(),
{
    if b.len() > 0 {
        lemma_hex_of_len(b.drop_last());
    }
}

/// Hex decoder parity, digit-run form: decoding the encoding of any
/// byte string gives the bytes back.
pub proof fn lemma_hex_round_trip(b: Seq<u8>)
    ensures
        spec_hex_pairs(hex_of(b)) == Some(b),
    decreases b.len(),
{
    lemma_hex_of_len(b);
    if b.len() == 0 {
        assert(hex_of(b) =~= Seq::<u8>::empty());
        assert(spec_hex_pairs(hex_of(b)) == Some(Seq::<u8>::empty()));
        assert(Seq::<u8>::empty() =~= b);
    } else {
        lemma_hex_round_trip(b.drop_last());
        let s = hex_of(b);
        let v = b.last();
        assert(s.drop_last().drop_last() =~= hex_of(b.drop_last()));
        assert(s[s.len() - 2] == crate::json::hex_digit((v / 16) as u8));
        assert(s[s.len() - 1] == crate::json::hex_digit((v % 16) as u8));
        assert(hex_val(crate::json::hex_digit((v / 16) as u8)) == Some((v / 16) as u8));
        assert(hex_val(crate::json::hex_digit((v % 16) as u8)) == Some((v % 16) as u8));
        assert((v / 16) * 16 + (v % 16) == v) by (nonlinear_arith);
        assert(spec_hex_pairs(s) == Some(b.drop_last().push(v)));
        assert(b.drop_last().push(v) =~= b);
    }
}

/// Hex decoder parity, prefixed form: for every byte string `b`,
/// decoding `0x` followed by the hex text of `b` gives `b` back.
pub proof fn lemma_decode_prefixed_hex_round_trip(b: Seq<u8>)
    ensures
        spec_decode_prefixed_hex(seq![48u8, 120u8] + hex_of(b)) == Some(b),
{
    lemma_hex_of_len(b);
    let s = seq![48u8, 120u8] + hex_of(b);
    assert(s[0] == 48 && s[1] == 120);
    assert(s.skip(2) =~= hex_of(b));
    lemma_hex_round_trip(b);
}

/// An odd run of digits after the prefix is read exactly as if one `0`
/// digit were prepended to it.
pub proof fn lemma_decode_prefixed_hex_odd_pad(digits: Seq<u8>)
    requires
        digits.len() % 2 == 1,
    ensures
        spec_decode_prefixed_hex(seq![48u8, 120u8] + digits) == spec_hex_pairs(
            seq![48u8] + digits,
        ),
{
    let s = seq![48u8, 120u8] + digits;
    assert(s[0] == 48 && s[1] == 120);
    assert(s.skip(2) =~= digits);
}

// ---------------------------------------------------------------------------
// Absent and null members read alike
// ---------------------------------------------------------------------------

/// Looking a key up ignores a removed member, provided no other member
/// shares its name.
proof fn lemma_lookup_remove(fields: Seq<(String, JsonValue)>, i: int, key: Seq<char>)
    requires
        0 <= i < fields.len(),
        forall|j: int| 0 <= j < fields.len() && j != i ==> (#[trigger] fields[j]).0@ != fields[i].0@,
    ensures
        obj_lookup(fields.remove(i), key) == (if key == fields[i].0@ {
            None
        } else {
            obj_lookup(fields, key)
        }),
    decreases fields.len(),
{
    if fields.len() > 0 {
        if i == 0 {
            assert(fields.remove(0) =~= fields.drop_first());
            if key == fields[0].0@ {
                lemma_lookup_none_without_key(fields.drop_first(), key);
            }
        } else {
            assert(fields.remove(i)[0] == fields[0]);
            if fields[0].0@ == key {
            } else {
                assert(fields.remove(i).drop_first() =~= fields.drop_first().remove(i - 1));
                assert forall|j: int|
                    0 <= j < fields.drop_first().len() && j != i - 1 implies (#[trigger] fields.drop_first()[j]).0@
                    != fields.drop_first()[i - 1].0@ by {
                    assert(fields.drop_first()[j] == fields[j + 1]);
                    assert(fields.drop_first()[i - 1] == fields[i]);
                }
                lemma_lookup_remove(fields.drop_first(), i - 1, key);
            }
        }
    }
}

/// A key that no member carries looks up to nothing.
proof fn lemma_lookup_none_without_key(fields: Seq<(String, JsonValue)>, key: Seq<char>)
    requires
        forall|j: int| 0 <= j < fields.len() ==> (#[trigger] fields[j]).0@ != key,
    ensures
        obj_lookup(fields, key) is None,
    decreases fields.len(),
{
    if fields.len() > 0 {
        assert forall|j: int| 0 <= j < fields.drop_first().len() implies (#[trigger] fields.drop_first()[j]).0@
            != key by {
            assert(fields.drop_first()[j] == fields[j + 1]);
        }
        lemma_lookup_none_without_key(fields.drop_first(), key);
    }
}

/// Appending a member changes only its own name's lookup, and only
/// where that name was free.
proof fn lemma_lookup_push_step(
    fields: Seq<(String, JsonValue)>,
    x: (String, JsonValue),
    k: Seq<char>,
)
    ensures
        obj_lookup(fields.push(x), k) == (match obj_lookup(fields, k) {
            Some(v) => Some(v),
            None => if x.0@ == k {
                Some(x.1)
            } else {
                None
            },
        }),
        has_key(fields.push(x), k) == (has_key(fields, k) || x.0@ == k),
    decreases fields.len(),
{
    let fp = fields.push(x);
    if fields.len() == 0 {
        assert(fp.len() == 1);
        assert(fp[0] == x);
        assert(fp.drop_first() =~= Seq::<(String, JsonValue)>::empty());
        if x.0@ == k {
            assert(obj_lookup(fp, k) == Some(x.1));
            assert(has_key(fp, k));
        } else {
            assert(obj_lookup(fp, k) == obj_lookup(fp.drop_first(), k));
            assert(obj_lookup(fp, k) is None);
            if has_key(fp, k) {
                let j = choose|j: int| 0 <= j < fp.len() && (#[trigger] fp[j]).0@ == k;
                assert(false);
            }
            if has_key(fields, k) {
                let j = choose|j: int| 0 <= j < fields.len() && (#[trigger] fields[j]).0@ == k;
                assert(false);
            }
        }
    } else {
        assert(fp[0] == fields[0]);
        assert(fp.drop_first() =~= fields.drop_first().push(x));
        lemma_lookup_push_step(fields.drop_first(), x, k);
        if fields[0].0@ == k {
            assert(obj_lookup(fp, k) == Some(fields[0].1));
            assert(obj_lookup(fields, k) == Some(fields[0].1));
        } else {
            assert(obj_lookup(fp, k) == obj_lookup(fields.drop_first().push(x), k));
            assert(obj_lookup(fields, k) == obj_lookup(fields.drop_first(), k));
        }
        if has_key(fp, k) {
            let j = choose|j: int| 0 <= j < fp.len() && (#[trigger] fp[j]).0@ == k;
            if j < fields.len() {
                assert(fields[j].0@ == k);
                assert(has_key(fields, k));
            } else {
                assert(fp[j] == x);
            }
        }
        if has_key(fields, k) {
            let j = choose|j: int| 0 <= j < fields.len() && (#[trigger] fields[j]).0@ == k;
            assert(fp[j].0@ == k);
            assert(has_key(fp, k));
        }
        if x.0@ == k {
            assert(fp[fields.len() as int] == x);
            assert(has_key(fp, k));
        }
    }
}

/// A name no member carries looks up to nothing.
proof fn lemma_no_key_no_lookup(fields: Seq<(String, JsonValue)>, k: Seq<char>)
    requires
        !has_key(fields, k),
    ensures
        obj_lookup(fields, k) is None,
{
    assert forall|j: int| 0 <= j < fields.len() implies (#[trigger] fields[j]).0@ != k by {
        if fields[j].0@ == k {
            assert(has_key(fields, k));
        }
    }
    lemma_lookup_none_without_key(fields, k);
}

/// Append one member under a name no member carries yet.  Every other
/// name reads as before.
pub(crate) fn put_member(members: &mut Vec<(String, JsonValue)>, key: &str, val: JsonValue)
    requires
        !has_key(old(members)@, key@),
    ensures
        obj_lookup(final(members)@, key@) == Some(val),
        has_key(final(members)@, key@),
        forall|k: Seq<char>| #![trigger obj_lookup(final(members)@, k)]
            k != key@ ==> obj_lookup(final(members)@, k) == obj_lookup(old(members)@, k),
        forall|k: Seq<char>| #![trigger has_key(final(members)@, k)]
            k != key@ ==> has_key(final(members)@, k) == has_key(old(members)@, k),
{
    let ghost oldm = members@;
    members.push((key.to_owned(), val));
    proof {
        let x = members@.last();
        assert(members@ == oldm.push(x));
        lemma_no_key_no_lookup(oldm, key@);
        lemma_lookup_push_step(oldm, x, key@);
        assert forall|k: Seq<char>| k != key@ implies obj_lookup(members@, k) == obj_lookup(
            oldm,
            k,
        ) && has_key(members@, k) == has_key(oldm, k) by {
            lemma_lookup_push_step(oldm, x, k);
        }
    }
}

/// Append a request string-array member only when it is non-empty.
/// Every other name reads as before.
pub(crate) fn put_str_arr(members: &mut Vec<(String, JsonValue)>, key: &str, xs: &Vec<String>)
    requires
        !has_key(old(members)@, key@),
    ensures
        str_arr_entry(final(members)@, key@, xs@),
        forall|k: Seq<char>| #![trigger obj_lookup(final(members)@, k)]
            k != key@ ==> obj_lookup(final(members)@, k) == obj_lookup(old(members)@, k),
        forall|k: Seq<char>| #![trigger has_key(final(members)@, k)]
            k != key@ ==> has_key(final(members)@, k) == has_key(old(members)@, k),
{
    if xs.len() == 0 {
        return;
    }
    put_member(members, key, str_vec_to_json(xs));
}

/// A name that no member carries looks up to nothing.
pub(crate) proof fn lemma_lookup_missing(fields: Seq<(String, JsonValue)>, key: Seq<char>)
    requires
        forall|j: int| 0 <= j < fields.len() ==> (#[trigger] fields[j]).0@ != key,
    ensures
        obj_lookup(fields, key) is None,
{
    lemma_lookup_none_without_key(fields, key);
}

/// A list of strings as a JSON array of strings.
pub(crate) fn str_vec_to_json(xs: &Vec<String>) -> (r: JsonValue)
    ensures
        r matches JsonValue::Arr(a) && a@.len() == xs@.len() && forall|i: int|
            0 <= i < xs@.len() ==> ((#[trigger] a@[i]) matches JsonValue::Str(s) && s@
                == xs@[i]@),
{
    let n = xs.len();
    let mut items: Vec<JsonValue> = Vec::new();
    let mut i: usize = 0;
    while i < n
        invariant
            n == xs@.len(),
            i <= n,
            items@.len() == i,
            forall|j: int|
                0 <= j < i ==> ((#[trigger] items@[j]) matches JsonValue::Str(s) && s@
                    == xs@[j]@),
        decreases n - i,
    {
        items.push(JsonValue::Str(xs[i].clone()));
        i += 1;
    }
    JsonValue::Arr(items)
}

/// A JSON array of strings as a list of strings.
pub(crate) fn str_vec_from_json(v: &JsonValue) -> (r: Result<Vec<String>, Error>)
    ensures
        r is Ok <==> (v matches JsonValue::Arr(a) && forall|i: int|
            0 <= i < a@.len() ==> (#[trigger] a@[i]) is Str),
        r is Ok ==> (v matches JsonValue::Arr(a) && r->Ok_0@.len() == a@.len() && forall|i: int|
            0 <= i < a@.len() ==> ((#[trigger] a@[i]) matches JsonValue::Str(s) && r->Ok_0@[i]@
                == s@)),
{
    let arr = match v {
        JsonValue::Arr(a) => a,
        _ => { return Err(Error::new(ErrorKind::Shape, "as array of strings")); },
    };
    let n = arr.len();
    let mut out: Vec<String> = Vec::new();
    let mut i: usize = 0;
    while i < n
        invariant
            n == arr@.len(),
            i <= n,
            v matches JsonValue::Arr(a) && a == arr,
            out@.len() == i,
            forall|j: int|
                0 <= j < i ==> ((#[trigger] arr@[j]) matches JsonValue::Str(s) && out@[j]@
                    == s@),
        decreases n - i,
    {
        match &arr[i] {
            JsonValue::Str(s) => { out.push(s.clone()); },
            _ => { return Err(Error::new(ErrorKind::Shape, "as array of strings")); },
        }
        i += 1;
    }
    Ok(out)
}

/// An array reads back as string views exactly when every element is a
/// string.
pub(crate) proof fn lemma_str_views_ok(a: Seq<JsonValue>)
    ensures
        (forall|i: int| 0 <= i < a.len() ==> (#[trigger] a[i]) is Str) <==> str_views(a) is Ok,
        str_views(a) is Ok ==> str_views(a)->Ok_0.len() == a.len() && forall|i: int|
            0 <= i < a.len() ==> str_views(a)->Ok_0[i] == (#[trigger] a[i])->Str_0@,
    decreases a.len(),
{
    if a.len() > 0 {
        lemma_str_views_ok(a.drop_last());
        if forall|i: int| 0 <= i < a.len() ==> (#[trigger] a[i]) is Str {
            assert forall|i: int| 0 <= i < a.drop_last().len() implies (#[trigger] a.drop_last()[i])
                is Str by {
                assert(a.drop_last()[i] == a[i]);
            }
        }
        if str_views(a) is Ok {
            assert forall|i: int| 0 <= i < a.len() implies (#[trigger] a[i]) is Str by {
                if i < a.len() - 1 {
                    assert(a.drop_last()[i] == a[i]);
                }
            }
            assert forall|i: int| 0 <= i < a.len() implies str_views(a)->Ok_0[i] == (
            #[trigger] a[i])->Str_0@ by {
                if i < a.len() - 1 {
                    assert(a.drop_last()[i] == a[i]);
                }
            }
        } else {
            if forall|i: int| 0 <= i < a.len() ==> (#[trigger] a[i]) is Str {
                assert(a[a.len() - 1] is Str);
            }
        }
    }
}

/// Read a member back as a list of strings: absent or null is the empty
/// list.
pub(crate) fn read_str_arr(v: &JsonValue, name: &str) -> (r: Result<Vec<String>, Error>)
    requires
        v is Obj,
    ensures
        r is Ok <==> str_arr_read(*v, name@) is Ok,
        r is Ok ==> match str_arr_read(*v, name@) {
            Ok(vs) => r->Ok_0@.len() == vs.len() && forall|i: int|
                0 <= i < vs.len() ==> (#[trigger] r->Ok_0@[i])@ == vs[i],
            Err(_) => false,
        },
{
    match v {
        JsonValue::Obj(fields) => match json_obj_get(fields, name) {
            None => Ok(Vec::new()),
            Some(JsonValue::Null) => Ok(Vec::new()),
            Some(arr) => match arr {
                JsonValue::Arr(items) => {
                    proof {
                        lemma_str_views_ok(items@);
                    }
                    match str_vec_from_json(arr) {
                        Ok(out) => {
                            proof {
                                let vs = str_arr_read(*v, name@)->Ok_0;
                                assert forall|i: int| 0 <= i < vs.len() implies (
                                #[trigger] out@[i])@ == vs[i] by {
                                    assert(items@[i] is Str);
                                    assert(vs[i] == items@[i]->Str_0@);
                                }
                            }
                            Ok(out)
                        },
                        Err(e) => Err(e.context(name)),
                    }
                },
                _ => Err(Error::new(ErrorKind::Shape, name)),
            },
        },
        _ => Err(Error::new(ErrorKind::Shape, name)),
    }
}

/// Read a flag member that must be present.
pub(crate) fn read_bool(v: &JsonValue, name: &str) -> (r: Result<bool, Error>)
    requires
        v is Obj,
    ensures
        r is Ok <==> bool_field(*v, name@) matches Ok(Some(_)),
        r is Ok ==> bool_field(*v, name@) == Ok::<Option<bool>, ErrorKind>(Some(r->Ok_0)),
{
    match get_tape_bool(v, name)? {
        Some(b) => Ok(b),
        None => Err(Error::new(ErrorKind::Shape, name)),
    }
}

/// One wire string-array member reads back as the strings it was
/// written from.
pub(crate) proof fn lemma_member_parses(v: JsonValue, key: Seq<char>, xs: Seq<String>)
    requires
        v is Obj,
        str_arr_member(v, key, xs),
    ensures
        str_arr_read(v, key) matches Ok(vs) && str_seq_is(xs, vs),
{
    if xs.len() == 0 {
        assert forall|j: int|
            0 <= j < v->Obj_0@.len() implies (#[trigger] v->Obj_0@[j]).0@ != key by {}
        lemma_lookup_missing(v->Obj_0@, key);
    } else {
        let a = obj_lookup(v->Obj_0@, key)->Some_0->Arr_0;
        lemma_str_views_ok(a@);
        let vs = str_views(a@)->Ok_0;
        assert forall|i: int| 0 <= i < vs.len() implies (#[trigger] xs[i])@ == vs[i] by {
            assert(a@[i] is Str);
            assert(vs[i] == a@[i]->Str_0@);
        }
    }
}

pub(crate) proof fn lemma_member_round_trip(v: JsonValue, key: Seq<char>, xs: Seq<String>, ys: Seq<String>)
    requires
        v is Obj,
        str_arr_member(v, key, xs),
        match str_arr_read(v, key) {
            Ok(vs) => str_seq_is(ys, vs),
            Err(_) => false,
        },
    ensures
        str_seq_is(ys, xs.map_values(|s: String| s@)),
{
    lemma_member_parses(v, key, xs);
}

/// A member's own key looks up to that member where no other member
/// shares its name.
pub(crate) proof fn lemma_lookup_hits(fields: Seq<(String, JsonValue)>, i: int)
    requires
        0 <= i < fields.len(),
        forall|j: int| 0 <= j < fields.len() && j != i ==> (#[trigger] fields[j]).0@ != fields[i].0@,
    ensures
        obj_lookup(fields, fields[i].0@) == Some(fields[i].1),
    decreases i,
{
    if i == 0 {
    } else {
        assert(fields[0].0@ != fields[i].0@);
        assert forall|j: int|
            0 <= j < fields.drop_first().len() && j != i - 1 implies (#[trigger] fields.drop_first()[j]).0@
            != fields.drop_first()[i - 1].0@ by {
            assert(fields.drop_first()[j] == fields[j + 1]);
            assert(fields.drop_first()[i - 1] == fields[i]);
        }
        lemma_lookup_hits(fields.drop_first(), i - 1);
        assert(fields.drop_first()[i - 1] == fields[i]);
    }
}

/// Absent and null parity: a member set to JSON `null` and the same
/// member removed read identically under every key, so every typed
/// reader — and with it every decoded column — sees the same value
/// either way.
pub proof fn lemma_absent_null_parity(o1: JsonValue, o2: JsonValue, i: int)
    requires
        o1 is Obj,
        o2 is Obj,
        0 <= i < o1->Obj_0@.len(),
        o1->Obj_0@[i].1 is Null,
        forall|j: int|
            0 <= j < o1->Obj_0@.len() && j != i ==> (#[trigger] o1->Obj_0@[j]).0@
                != o1->Obj_0@[i].0@,
        o2->Obj_0@ == o1->Obj_0@.remove(i),
    ensures
        forall|key: Seq<char>| #[trigger] field_of(o1, key) == field_of(o2, key),
{
    let f1 = o1->Obj_0@;
    assert forall|key: Seq<char>| #[trigger] field_of(o1, key) == field_of(o2, key) by {
        lemma_lookup_remove(f1, i, key);
        if key == f1[i].0@ {
            lemma_lookup_hits(f1, i);
        }
    }
}

// ---------------------------------------------------------------------------
// Relating row fields to the readers that produced them
// ---------------------------------------------------------------------------

pub open spec fn opt_bytes_view(o: Option<Vec<u8>>) -> Option<Seq<u8>> {
    match o {
        None => None,
        Some(v) => Some(v@),
    }
}

/// A scalar column value is what the reader gave.
pub open spec fn opt_eq<T>(o: Option<T>, s: Result<Option<T>, ErrorKind>) -> bool {
    match s {
        Ok(v) => o == v,
        Err(_) => false,
    }
}

/// A byte column value is what the reader gave.
pub open spec fn opt_bytes_is(o: Option<Vec<u8>>, s: Result<Option<Seq<u8>>, ErrorKind>) -> bool {
    match s {
        Ok(None) => o is None,
        Ok(Some(b)) => o matches Some(v) && v@ == b,
        Err(_) => false,
    }
}

/// A text column value is what the reader gave.
pub open spec fn opt_string_is(o: Option<String>, s: Result<Option<Seq<char>>, ErrorKind>) -> bool {
    match s {
        Ok(None) => o is None,
        Ok(Some(cs)) => o matches Some(v) && v@ == cs,
        Err(_) => false,
    }
}

/// A 256-bit column value holds the padded bytes the reader gave.
pub open spec fn opt_i256_is(o: Option<I256>, s: Result<Option<Seq<u8>>, ErrorKind>) -> bool {
    match s {
        Ok(None) => o is None,
        Ok(Some(p)) => o matches Some(v) && v.be_bytes@ == p && v.wf(),
        Err(_) => false,
    }
}

/// A list column of numbers is what the reader gave.
pub open spec fn opt_vu64_is(o: Option<Vec<u64>>, s: Result<Option<Seq<u64>>, ErrorKind>) -> bool {
    match s {
        Ok(None) => o is None,
        Ok(Some(items)) => o matches Some(v) && v@ == items,
        Err(_) => false,
    }
}

pub open spec fn opt_vu32_is(o: Option<Vec<u32>>, s: Result<Option<Seq<u32>>, ErrorKind>) -> bool {
    match s {
        Ok(None) => o is None,
        Ok(Some(items)) => o matches Some(v) && v@ == items,
        Err(_) => false,
    }
}

/// A list column of byte strings is what the reader gave.
pub open spec fn opt_vbytes_is(o: Option<Vec<Vec<u8>>>, s: Result<
    Option<Seq<Seq<u8>>>,
    ErrorKind,
>) -> bool {
    match s {
        Ok(None) => o is None,
        Ok(Some(items)) => o matches Some(v) && v.deep_view() == items,
        Err(_) => false,
    }
}

/// The first of two optional values, as the trace `error` column joins
/// `error` and `revertReason`.
pub open spec fn or_opt<T>(a: Option<T>, b: Option<T>) -> Option<T> {
    match a {
        Some(v) => Some(v),
        None => b,
    }
}

/// Copy a byte string.
pub fn clone_bytes(v: &Vec<u8>) -> (r: Vec<u8>)
    ensures
        r@ == v@,
{
    let n = v.len();
    let mut out: Vec<u8> = Vec::new();
    let mut i: usize = 0;
    while i < n
        invariant
            n == v@.len(),
            i <= n,
            out@ == v@.take(i as int),
        decreases n - i,
    {
        out.push(v[i]);
        proof {
            assert(v@.take(i + 1) =~= v@.take(i as int).push(v@[i as int]));
        }
        i += 1;
    }
    proof {
        assert(v@.take(n as int) =~= v@);
    }
    out
}

/// Copy an optional byte string.
pub fn clone_opt_bytes(o: &Option<Vec<u8>>) -> (r: Option<Vec<u8>>)
    ensures
        opt_bytes_view(r) == opt_bytes_view(*o),
        r is Some <==> o is Some,
{
    match o {
        None => None,
        Some(v) => Some(clone_bytes(v)),
    }
}

// ---------------------------------------------------------------------------
// Readers on a JSON object
// ---------------------------------------------------------------------------

pub fn get_tape_u64(obj: &JsonValue, name: &str) -> (r: Result<Option<u64>, Error>)
    requires
        obj is Obj,
    ensures
        match u64_field(*obj, name@) {
            Ok(v) => r == Ok::<Option<u64>, Error>(v),
            Err(k) => r is Err && r->Err_0.kind == k,
        },
{
    match obj {
        JsonValue::Obj(fields) => match json_obj_get(fields, name) {
            None => Ok(None),
            Some(JsonValue::Null) => Ok(None),
            Some(JsonValue::UInt(v)) => Ok(Some(*v)),
            Some(_) => Err(Error::new(ErrorKind::Shape, name)),
        },
        _ => Err(Error::new(ErrorKind::Shape, name)),
    }
}

pub fn get_tape_u32(obj: &JsonValue, name: &str) -> (r: Result<Option<u32>, Error>)
    requires
        obj is Obj,
    ensures
        match u32_field(*obj, name@) {
            Ok(v) => r == Ok::<Option<u32>, Error>(v),
            Err(k) => r is Err && r->Err_0.kind == k,
        },
{
    match obj {
        JsonValue::Obj(fields) => match json_obj_get(fields, name) {
            None => Ok(None),
            Some(JsonValue::Null) => Ok(None),
            Some(JsonValue::UInt(v)) => if *v <= u32::MAX as u64 {
                Ok(Some(*v as u32))
            } else {
                Err(Error::new(ErrorKind::Range, name))
            },
            Some(_) => Err(Error::new(ErrorKind::Shape, name)),
        },
        _ => Err(Error::new(ErrorKind::Shape, name)),
    }
}

pub fn get_tape_u16(obj: &JsonValue, name: &str) -> (r: Result<Option<u16>, Error>)
    requires
        obj is Obj,
    ensures
        match u16_field(*obj, name@) {
            Ok(v) => r == Ok::<Option<u16>, Error>(v),
            Err(k) => r is Err && r->Err_0.kind == k,
        },
{
    match obj {
        JsonValue::Obj(fields) => match json_obj_get(fields, name) {
            None => Ok(None),
            Some(JsonValue::Null) => Ok(None),
            Some(JsonValue::UInt(v)) => if *v <= u16::MAX as u64 {
                Ok(Some(*v as u16))
            } else {
                Err(Error::new(ErrorKind::Range, name))
            },
            Some(_) => Err(Error::new(ErrorKind::Shape, name)),
        },
        _ => Err(Error::new(ErrorKind::Shape, name)),
    }
}

pub fn get_tape_u8(obj: &JsonValue, name: &str) -> (r: Result<Option<u8>, Error>)
    requires
        obj is Obj,
    ensures
        match u8_field(*obj, name@) {
            Ok(v) => r == Ok::<Option<u8>, Error>(v),
            Err(k) => r is Err && r->Err_0.kind == k,
        },
{
    match obj {
        JsonValue::Obj(fields) => match json_obj_get(fields, name) {
            None => Ok(None),
            Some(JsonValue::Null) => Ok(None),
            Some(JsonValue::UInt(v)) => if *v <= u8::MAX as u64 {
                Ok(Some(*v as u8))
            } else {
                Err(Error::new(ErrorKind::Range, name))
            },
            Some(_) => Err(Error::new(ErrorKind::Shape, name)),
        },
        _ => Err(Error::new(ErrorKind::Shape, name)),
    }
}

pub fn get_tape_i64(obj: &JsonValue, name: &str) -> (r: Result<Option<i64>, Error>)
    requires
        obj is Obj,
    ensures
        match i64_field(*obj, name@) {
            Ok(v) => r == Ok::<Option<i64>, Error>(v),
            Err(k) => r is Err && r->Err_0.kind == k,
        },
{
    match obj {
        JsonValue::Obj(fields) => match json_obj_get(fields, name) {
            None => Ok(None),
            Some(JsonValue::Null) => Ok(None),
            Some(JsonValue::UInt(v)) => if *v <= i64::MAX as u64 {
                Ok(Some(*v as i64))
            } else {
                Err(Error::new(ErrorKind::Range, name))
            },
            Some(JsonValue::Int(v)) => Ok(Some(*v)),
            Some(_) => Err(Error::new(ErrorKind::Shape, name)),
        },
        _ => Err(Error::new(ErrorKind::Shape, name)),
    }
}

pub fn get_tape_bool(obj: &JsonValue, name: &str) -> (r: Result<Option<bool>, Error>)
    requires
        obj is Obj,
    ensures
        match bool_field(*obj, name@) {
            Ok(v) => r == Ok::<Option<bool>, Error>(v),
            Err(k) => r is Err && r->Err_0.kind == k,
        },
{
    match obj {
        JsonValue::Obj(fields) => match json_obj_get(fields, name) {
            None => Ok(None),
            Some(JsonValue::Null) => Ok(None),
            Some(JsonValue::Bool(v)) => Ok(Some(*v)),
            Some(_) => Err(Error::new(ErrorKind::Shape, name)),
        },
        _ => Err(Error::new(ErrorKind::Shape, name)),
    }
}

pub fn get_tape_string(obj: &JsonValue, name: &str) -> (r: Result<Option<String>, Error>)
    requires
        obj is Obj,
    ensures
        match string_field(*obj, name@) {
            Ok(None) => r matches Ok(o) && o is None,
            Ok(Some(cs)) => r matches Ok(o) && o matches Some(s) && s@ == cs,
            Err(k) => r is Err && r->Err_0.kind == k,
        },
{
    match obj {
        JsonValue::Obj(fields) => match json_obj_get(fields, name) {
            None => Ok(None),
            Some(JsonValue::Null) => Ok(None),
            Some(JsonValue::Str(s)) => Ok(Some(s.clone())),
            Some(_) => Err(Error::new(ErrorKind::Shape, name)),
        },
        _ => Err(Error::new(ErrorKind::Shape, name)),
    }
}

pub fn get_tape_hex(obj: &JsonValue, name: &str) -> (r: Result<Option<Vec<u8>>, Error>)
    requires
        obj is Obj,
    ensures
        match hex_field(*obj, name@) {
            Ok(None) => r matches Ok(o) && o is None,
            Ok(Some(bs)) => r matches Ok(o) && o matches Some(v) && v@ == bs,
            Err(k) => r is Err && r->Err_0.kind == k,
        },
{
    match obj {
        JsonValue::Obj(fields) => match json_obj_get(fields, name) {
            None => Ok(None),
            Some(JsonValue::Null) => Ok(None),
            Some(JsonValue::Str(s)) => match decode_prefixed_hex(s.as_str()) {
                Ok(v) => Ok(Some(v)),
                Err(e) => Err(e.context(name)),
            },
            Some(_) => Err(Error::new(ErrorKind::Shape, name)),
        },
        _ => Err(Error::new(ErrorKind::Shape, name)),
    }
}

pub fn get_tape_i256(obj: &JsonValue, name: &str) -> (r: Result<Option<I256>, Error>)
    requires
        obj is Obj,
    ensures
        match u256_field(*obj, name@) {
            Ok(None) => r matches Ok(o) && o is None,
            Ok(Some(p)) => r matches Ok(o) && o matches Some(v) && v.be_bytes@ == p && v.wf(),
            Err(k) => r is Err && r->Err_0.kind == k,
        },
{
    match get_tape_hex(obj, name) {
        Ok(None) => Ok(None),
        Ok(Some(bytes)) => match i256_from_be_slice(bytes.as_slice()) {
            Ok(v) => Ok(Some(v)),
            Err(e) => Err(e.context(name)),
        },
        Err(e) => Err(e),
    }
}

pub fn get_tape_u8_hex(obj: &JsonValue, name: &str) -> (r: Result<Option<u8>, Error>)
    requires
        obj is Obj,
    ensures
        match u8_hex_field(*obj, name@) {
            Ok(v) => r == Ok::<Option<u8>, Error>(v),
            Err(k) => r is Err && r->Err_0.kind == k,
        },
{
    match get_tape_hex(obj, name) {
        Ok(None) => Ok(None),
        Ok(Some(bytes)) => match u8_from_be_slice(bytes.as_slice()) {
            Ok(v) => Ok(Some(v)),
            Err(e) => Err(e.context(name)),
        },
        Err(e) => Err(e),
    }
}

pub fn get_tape_bigint(obj: &JsonValue, name: &str) -> (r: Result<Option<u64>, Error>)
    requires
        obj is Obj,
    ensures
        match bigint_field(*obj, name@) {
            Ok(v) => r == Ok::<Option<u64>, Error>(v),
            Err(k) => r is Err && (r->Err_0.kind == ErrorKind::Shape || r->Err_0.kind
                == ErrorKind::Range),
        },
{
    match obj {
        JsonValue::Obj(fields) => match json_obj_get(fields, name) {
            None => Ok(None),
            Some(JsonValue::Null) => Ok(None),
            Some(JsonValue::Str(s)) => match parse_u64_digits(s.as_str().as_bytes()) {
                Ok(v) => Ok(Some(v)),
                Err(e) => Err(e.context(name)),
            },
            Some(_) => Err(Error::new(ErrorKind::Shape, name)),
        },
        _ => Err(Error::new(ErrorKind::Shape, name)),
    }
}

pub fn get_tape_version(obj: &JsonValue, name: &str) -> (r: Result<Option<i8>, Error>)
    requires
        obj is Obj,
    ensures
        match version_field(*obj, name@) {
            Ok(v) => r == Ok::<Option<i8>, Error>(v),
            Err(k) => r is Err && r->Err_0.kind == k,
        },
{
    match obj {
        JsonValue::Obj(fields) => match json_obj_get(fields, name) {
            None => Ok(None),
            Some(JsonValue::Null) => Ok(None),
            Some(JsonValue::Str(s)) => {
                let is_legacy = bytes_eq(s.as_str().as_bytes(), "legacy".as_bytes());
                proof {
                    if is_legacy {
                        lemma_utf8_injective(s@, "legacy"@);
                    }
                }
                if is_legacy {
                    Ok(Some(i8::MIN))
                } else {
                    Err(Error::new(ErrorKind::Shape, name))
                }
            },
            Some(JsonValue::UInt(v)) => if *v <= i8::MAX as u64 {
                Ok(Some(*v as i8))
            } else {
                Err(Error::new(ErrorKind::Range, name))
            },
            Some(_) => Err(Error::new(ErrorKind::Shape, name)),
        },
        _ => Err(Error::new(ErrorKind::Shape, name)),
    }
}

pub fn get_tape_json_string(obj: &JsonValue, name: &str) -> (r: Result<Option<Vec<u8>>, Error>)
    requires
        obj is Obj,
    ensures
        match field_of(*obj, name@) {
            None => r matches Ok(o) && o is None,
            Some(v) => r matches Ok(o) && o matches Some(t) && t@ == spec_encode(v),
        },
{
    match obj {
        JsonValue::Obj(fields) => match json_obj_get(fields, name) {
            None => Ok(None),
            Some(JsonValue::Null) => Ok(None),
            Some(v) => Ok(Some(v.encode())),
        },
        _ => Ok(None),
    }
}

// ---------------------------------------------------------------------------
// Readers for arrays of scalars
// ---------------------------------------------------------------------------

pub fn get_tape_array_of_u64(obj: &JsonValue, name: &str) -> (r: Result<Option<Vec<u64>>, Error>)
    requires
        obj is Obj,
    ensures
        match u64_array_field(*obj, name@) {
            Ok(None) => r matches Ok(o) && o is None,
            Ok(Some(items)) => r matches Ok(o) && o matches Some(v) && v@ == items,
            Err(k) => r is Err && r->Err_0.kind == k,
        },
{
    let arr = match obj {
        JsonValue::Obj(fields) => match json_obj_get(fields, name) {
            None => { return Ok(None); },
            Some(JsonValue::Null) => { return Ok(None); },
            Some(JsonValue::Arr(a)) => a,
            Some(_) => { return Err(Error::new(ErrorKind::Shape, name)); },
        },
        _ => { return Err(Error::new(ErrorKind::Shape, name)); },
    };
    let n = arr.len();
    let mut out: Vec<u64> = Vec::new();
    let mut i: usize = 0;
    proof {
        assert(arr@.take(0) =~= Seq::<JsonValue>::empty());
    }
    while i < n
        invariant
            n == arr@.len(),
            i <= n,
            field_of(*obj, name@) == Some(JsonValue::Arr(*arr)),
            u64_items(arr@.take(i as int)) is Ok,
            u64_items(arr@.take(i as int))->Ok_0 == out@,
        decreases n - i,
    {
        proof {
            assert(arr@.take(i + 1).drop_last() =~= arr@.take(i as int));
            assert(arr@.take(i + 1).last() == arr@[i as int]);
        }
        match &arr[i] {
            JsonValue::UInt(v) => { out.push(*v); },
            _ => {
                proof {
                    lemma_u64_items_prefix_err(arr@, i as int + 1);
                }
                return Err(Error::new(ErrorKind::Shape, name));
            },
        }
        i += 1;
    }
    proof {
        assert(arr@.take(n as int) =~= arr@);
    }
    Ok(Some(out))
}

/// Once a prefix fails, the whole array fails with the same kind.
proof fn lemma_u64_items_prefix_err(a: Seq<JsonValue>, k: int)
    requires
        0 <= k <= a.len(),
        u64_items(a.take(k)) is Err,
    ensures
        u64_items(a) is Err,
        u64_items(a) == u64_items(a.take(k)),
    decreases a.len() - k,
{
    if k < a.len() {
        assert(a.take(k + 1).drop_last() =~= a.take(k));
        lemma_u64_items_prefix_err(a, k + 1);
    } else {
        assert(a.take(k) =~= a);
    }
}

proof fn lemma_u32_items_prefix_err(a: Seq<JsonValue>, k: int)
    requires
        0 <= k <= a.len(),
        u32_items(a.take(k)) is Err,
    ensures
        u32_items(a) is Err,
        u32_items(a) == u32_items(a.take(k)),
    decreases a.len() - k,
{
    if k < a.len() {
        assert(a.take(k + 1).drop_last() =~= a.take(k));
        lemma_u32_items_prefix_err(a, k + 1);
    } else {
        assert(a.take(k) =~= a);
    }
}

proof fn lemma_hex_items_prefix_err(a: Seq<JsonValue>, k: int)
    requires
        0 <= k <= a.len(),
        hex_items(a.take(k)) is Err,
    ensures
        hex_items(a) is Err,
        hex_items(a) == hex_items(a.take(k)),
    decreases a.len() - k,
{
    if k < a.len() {
        assert(a.take(k + 1).drop_last() =~= a.take(k));
        lemma_hex_items_prefix_err(a, k + 1);
    } else {
        assert(a.take(k) =~= a);
    }
}

pub fn get_tape_array_of_u32(obj: &JsonValue, name: &str) -> (r: Result<Option<Vec<u32>>, Error>)
    requires
        obj is Obj,
    ensures
        match u32_array_field(*obj, name@) {
            Ok(None) => r matches Ok(o) && o is None,
            Ok(Some(items)) => r matches Ok(o) && o matches Some(v) && v@ == items,
            Err(k) => r is Err && r->Err_0.kind == k,
        },
{
    let arr = match obj {
        JsonValue::Obj(fields) => match json_obj_get(fields, name) {
            None => { return Ok(None); },
            Some(JsonValue::Null) => { return Ok(None); },
            Some(JsonValue::Arr(a)) => a,
            Some(_) => { return Err(Error::new(ErrorKind::Shape, name)); },
        },
        _ => { return Err(Error::new(ErrorKind::Shape, name)); },
    };
    let n = arr.len();
    let mut out: Vec<u32> = Vec::new();
    let mut i: usize = 0;
    proof {
        assert(arr@.take(0) =~= Seq::<JsonValue>::empty());
    }
    while i < n
        invariant
            n == arr@.len(),
            i <= n,
            field_of(*obj, name@) == Some(JsonValue::Arr(*arr)),
            u32_items(arr@.take(i as int)) is Ok,
            u32_items(arr@.take(i as int))->Ok_0 == out@,
        decreases n - i,
    {
        proof {
            assert(arr@.take(i + 1).drop_last() =~= arr@.take(i as int));
            assert(arr@.take(i + 1).last() == arr@[i as int]);
        }
        match &arr[i] {
            JsonValue::UInt(v) => {
                if *v <= u32::MAX as u64 {
                    out.push(*v as u32);
                } else {
                    proof {
                        lemma_u32_items_prefix_err(arr@, i as int + 1);
                    }
                    return Err(Error::new(ErrorKind::Range, name));
                }
            },
            _ => {
                proof {
                    lemma_u32_items_prefix_err(arr@, i as int + 1);
                }
                return Err(Error::new(ErrorKind::Shape, name));
            },
        }
        i += 1;
    }
    proof {
        assert(arr@.take(n as int) =~= arr@);
    }
    Ok(Some(out))
}

pub fn get_tape_array_of_hex(obj: &JsonValue, name: &str) -> (r: Result<
    Option<Vec<Vec<u8>>>,
    Error,
>)
    requires
        obj is Obj,
    ensures
        match hex_array_field(*obj, name@) {
            Ok(None) => r matches Ok(o) && o is None,
            Ok(Some(items)) => r matches Ok(o) && o matches Some(v) && v.deep_view() == items,
            Err(k) => r is Err && r->Err_0.kind == k,
        },
{
    let arr = match obj {
        JsonValue::Obj(fields) => match json_obj_get(fields, name) {
            None => { return Ok(None); },
            Some(JsonValue::Null) => { return Ok(None); },
            Some(JsonValue::Arr(a)) => a,
            Some(_) => { return Err(Error::new(ErrorKind::Shape, name)); },
        },
        _ => { return Err(Error::new(ErrorKind::Shape, name)); },
    };
    let n = arr.len();
    let mut out: Vec<Vec<u8>> = Vec::new();
    let mut i: usize = 0;
    proof {
        assert(arr@.take(0) =~= Seq::<JsonValue>::empty());
        assert(out.deep_view() =~= Seq::<Seq<u8>>::empty());
    }
    while i < n
        invariant
            n == arr@.len(),
            i <= n,
            field_of(*obj, name@) == Some(JsonValue::Arr(*arr)),
            hex_items(arr@.take(i as int)) is Ok,
            hex_items(arr@.take(i as int))->Ok_0 == out.deep_view(),
        decreases n - i,
    {
        proof {
            assert(arr@.take(i + 1).drop_last() =~= arr@.take(i as int));
            assert(arr@.take(i + 1).last() == arr@[i as int]);
        }
        match &arr[i] {
            JsonValue::Str(s) => match decode_prefixed_hex(s.as_str()) {
                Ok(v) => {
                    let ghost prev = out.deep_view();
                    out.push(v);
                    proof {
                        assert(out.deep_view() =~~= prev.push(v@));
                    }
                },
                Err(e) => {
                    proof {
                        lemma_hex_items_prefix_err(arr@, i as int + 1);
                    }
                    return Err(e.context(name));
                },
            },
            _ => {
                proof {
                    lemma_hex_items_prefix_err(arr@, i as int + 1);
                }
                return Err(Error::new(ErrorKind::Shape, name));
            },
        }
        i += 1;
    }
    proof {
        assert(arr@.take(n as int) =~= arr@);
    }
    Ok(Some(out))
}

} // verus!
