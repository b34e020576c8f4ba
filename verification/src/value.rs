//! Typed values and their byte encodings.
//!
//! A value travels as a `[bytes]` cell: a four-byte length and the body, or
//! the length -1 alone for null. The bodies are produced and read by the
//! `cdrs` crate; the contracts of the few functions that call it say in full
//! which bytes it is trusted to give.

use vstd::prelude::*;
use crate::wire::{be_signed, be_unsigned, i32_bits, i32_bytes, lemma_i32_round_trip, pow256, u32_signed};

verus! {

/// A scaled integer: `unscaled` divided by ten to the power `scale`.
#[derive(Clone, Copy, Debug, PartialEq, Eq, Structural)]
pub struct Decimal {
    pub unscaled: i64,
    pub scale: u32,
}

/// The column types this codec converts.
#[derive(Clone, Copy, Debug, PartialEq, Eq, Structural)]
pub enum ColumnType {
    Int,
    Decimal,
}

/// A value of one of the supported types.
#[derive(Clone, Copy, Debug, PartialEq, Eq, Structural)]
pub enum Value {
    Int(i32),
    Decimal(Decimal),
}

/// The shortest big-endian two's complement form of `v`.
pub open spec fn varint_bytes(v: int) -> Seq<u8>
    decreases (if v >= 0 { v } else { -v }),
{
    if -128 <= v < 128 {
        seq![(v % 256) as u8]
    } else {
        varint_bytes(v / 256).push((v % 256) as u8)
    }
}

/// The body of a decimal: the scale's 32 bits as an `[int]`, then the
/// unscaled value in its shortest form.
pub open spec fn decimal_body(d: Decimal) -> Seq<u8> {
    i32_bytes(u32_signed(d.scale)) + varint_bytes(d.unscaled as int)
}

/// The body of a value, without its length.
pub open spec fn value_body(v: Value) -> Seq<u8> {
    match v {
        Value::Int(i) => i32_bytes(i),
        Value::Decimal(d) => decimal_body(d),
    }
}

/// A `[bytes]` cell: the body after its length, or the null marker.
pub open spec fn cell_bytes(body: Option<Seq<u8>>) -> Seq<u8> {
    match body {
        Some(b) => i32_bytes(b.len() as i32) + b,
        None => i32_bytes(-1i32),
    }
}

/// The cell of a nullable value.
pub open spec fn value_cell(v: Option<Value>) -> Seq<u8> {
    match v {
        Some(x) => cell_bytes(Some(value_body(x))),
        None => cell_bytes(None),
    }
}

/// The value that a body denotes when read as `ty`, if it denotes one.
pub open spec fn decode_value_spec(ty: ColumnType, s: Seq<u8>) -> Option<Value> {
    match ty {
        ColumnType::Int => if s.len() == 4 {
            Some(Value::Int(be_signed(s) as i32))
        } else {
            None
        },
        ColumnType::Decimal => if 5 <= s.len() <= 12 {
            Some(
                Value::Decimal(
                    Decimal {
                        unscaled: be_signed(s.subrange(4, s.len() as int)) as i64,
                        scale: be_unsigned(s.subrange(0, 4)) as u32,
                    },
                ),
            )
        } else {
            None
        },
    }
}

impl Value {
    /// The column type that holds this value.
    pub open spec fn spec_column_type(self) -> ColumnType {
        match self {
            Value::Int(_) => ColumnType::Int,
            Value::Decimal(_) => ColumnType::Decimal,
        }
    }

    #[verifier::when_used_as_spec(spec_column_type)]
    pub fn column_type(self) -> (ty: ColumnType)
        ensures
            ty == self.spec_column_type(),
    {
        match self {
            Value::Int(_) => ColumnType::Int,
            Value::Decimal(_) => ColumnType::Decimal,
        }
    }
}

/// `cdrs::types::to_int`: the four bytes of the number, big-endian, two's
/// complement.
#[verifier::external_body]
fn cdrs_int_body(v: i32) -> (r: Vec<u8>)
    ensures
        r@ == i32_bytes(v),
{
    cdrs::types::to_int(v)
}

/// `Decimal::into_cbytes` of `cdrs`: the scale cast to `i32` and written as
/// four big-endian bytes, followed by the unscaled value with every leading
/// byte removed that sign extension would restore.
#[verifier::external_body]
fn cdrs_decimal_body(d: Decimal) -> (r: Vec<u8>)
    ensures
        r@ == decimal_body(d),
{
    cdrs::frame::IntoBytes::into_cbytes(&cdrs::types::decimal::Decimal::new(d.unscaled, d.scale))
}

/// `Value::into_cbytes` of `cdrs`, on the value that `Value::from` makes of
/// an optional body: the body's length as four big-endian bytes and the body,
/// or the four bytes of -1 where there is none.
#[verifier::external_body]
fn cdrs_cell(body: Option<Vec<u8>>) -> (r: Vec<u8>)
    requires
        body is Some ==> body->0@.len() <= i32::MAX,
    ensures
        r@ == cell_bytes(
            match body {
                Some(b) => Some(b@),
                None => None,
            },
        ),
{
    let bytes: Option<cdrs::types::value::Bytes> = body.map(cdrs::types::value::Bytes::new);
    cdrs::frame::IntoBytes::into_cbytes(&cdrs::types::value::Value::from(bytes))
}

/// `decode_int` of `cdrs` on four bytes: it reads them big-endian and keeps
/// the 32 bits, so the result is their two's complement value. It cannot
/// fail on four bytes.
#[verifier::external_body]
fn cdrs_decode_int(bytes: &[u8]) -> (r: Option<i32>)
    requires
        bytes@.len() == 4,
    ensures
        r == Some(be_signed(bytes@) as i32),
{
    cdrs::types::data_serialization_types::decode_int(bytes).ok()
}

/// `decode_decimal` of `cdrs` on five to twelve bytes: the first four give
/// the scale's 32 bits, the rest is sign-extended to the unscaled value. It
/// panics on fewer than five bytes and on more than twelve, and cannot fail
/// in between.
#[verifier::external_body]
fn cdrs_decode_decimal(bytes: &[u8]) -> (r: Option<Decimal>)
    requires
        5 <= bytes@.len() <= 12,
    ensures
        r == Some(
            Decimal {
                unscaled: be_signed(bytes@.subrange(4, bytes@.len() as int)) as i64,
                scale: be_unsigned(bytes@.subrange(0, 4)) as u32,
            },
        ),
{
    cdrs::types::data_serialization_types::decode_decimal(bytes).ok().map(
        |d| Decimal { unscaled: d.unscaled, scale: d.scale },
    )
}

/// `Decimal::from(i64)` of `cdrs`: the number itself, with scale zero.
#[verifier::external_body]
fn cdrs_decimal_from(i: i64) -> (d: Decimal)
    ensures
        d == (Decimal { unscaled: i, scale: 0 }),
{
    let d = cdrs::types::decimal::Decimal::from(i);
    Decimal { unscaled: d.unscaled, scale: d.scale }
}

impl Value {
    /// The number, where the value is an `Int`.
    pub fn as_int(self) -> (r: Option<i32>)
        ensures
            r == (match self {
                Value::Int(i) => Some(i),
                Value::Decimal(_) => None,
            }),
    {
        match self {
            Value::Int(i) => Some(i),
            Value::Decimal(_) => None,
        }
    }

    /// The decimal, where the value is a `Decimal`.
    pub fn as_decimal(self) -> (r: Option<Decimal>)
        ensures
            r == (match self {
                Value::Int(_) => None,
                Value::Decimal(d) => Some(d),
            }),
    {
        match self {
            Value::Int(_) => None,
            Value::Decimal(d) => Some(d),
        }
    }
}

impl Decimal {
    pub fn new(unscaled: i64, scale: u32) -> (d: Decimal)
        ensures
            d == (Decimal { unscaled, scale }),
    {
        Decimal { unscaled, scale }
    }

    /// The whole number `i` as a decimal.
    pub fn from_i64(i: i64) -> (d: Decimal)
        ensures
            d == (Decimal { unscaled: i, scale: 0 }),
    {
        cdrs_decimal_from(i)
    }
}

proof fn lemma_pow256_step(n: nat)
    ensures
        pow256(n + 1) == 256 * pow256(n),
        pow256(n) >= 1,
    decreases n,
{
    if n > 0 {
        lemma_pow256_step((n - 1) as nat);
    }
}

proof fn lemma_be_signed_push(s: Seq<u8>, b: u8)
    requires
        s.len() > 0,
    ensures
        be_signed(s.push(b)) == be_signed(s) * 256 + b,
{
    let t = s.push(b);
    assert(t.drop_last() =~= s);
    lemma_pow256_step(s.len());
}

/// The shortest form of a number denotes that number.
pub proof fn lemma_varint_value(v: int)
    ensures
        varint_bytes(v).len() >= 1,
        be_signed(varint_bytes(v)) == v,
    decreases (if v >= 0 { v } else { -v }),
{
    if -128 <= v < 128 {
        let s = varint_bytes(v);
        assert(s.drop_last().len() == 0);
        reveal_with_fuel(be_unsigned, 2);
        reveal_with_fuel(pow256, 2);
    } else {
        lemma_varint_value(v / 256);
        lemma_be_signed_push(varint_bytes(v / 256), (v % 256) as u8);
    }
}

/// The bound below which a number fits in `n` bytes of two's complement.
pub open spec fn signed_limit(n: nat) -> int {
    128 * (pow256((n - 1) as nat) as int)
}

/// A number that fits in `n` bytes has a shortest form of at most `n` bytes.
pub proof fn lemma_varint_len(v: int, n: nat)
    requires
        n >= 1,
        -signed_limit(n) <= v < signed_limit(n),
    ensures
        1 <= varint_bytes(v).len() <= n,
    decreases n,
{
    if -128 <= v < 128 {
    } else {
        if n == 1 {
            reveal_with_fuel(pow256, 1);
        } else {
            lemma_pow256_step((n - 2) as nat);
            lemma_varint_len(v / 256, (n - 1) as nat);
        }
    }
}

proof fn lemma_be_unsigned_lead(s: Seq<u8>)
    requires
        s.len() >= 1,
    ensures
        s[0] * pow256((s.len() - 1) as nat) <= be_unsigned(s) < (s[0] + 1) * pow256(
            (s.len() - 1) as nat,
        ),
    decreases s.len(),
{
    let lead = s[0] as int;
    if s.len() == 1 {
        assert(s.drop_last().len() == 0);
        reveal_with_fuel(be_unsigned, 2);
        assert(pow256(0) == 1);
        assert(be_unsigned(s) == lead);
        assert(lead * 1 == lead && (lead + 1) * 1 == lead + 1) by (nonlinear_arith);
    } else {
        let t = s.drop_last();
        lemma_be_unsigned_lead(t);
        lemma_pow256_step((s.len() - 2) as nat);
        let p = pow256((s.len() - 2) as nat) as int;
        let u = be_unsigned(t) as int;
        assert(t[0] == s[0]);
        assert(pow256((s.len() - 1) as nat) == 256 * p);
        assert(be_unsigned(s) == u * 256 + s.last());
        assert(lead * p <= u < (lead + 1) * p);
        assert(lead * (256 * p) == 256 * (lead * p)) by (nonlinear_arith);
        assert((lead + 1) * (256 * p) == 256 * ((lead + 1) * p)) by (nonlinear_arith);
    }
}

/// A string of `n` bytes denotes a number that fits in `n` bytes of two's
/// complement.
pub proof fn lemma_be_signed_range(s: Seq<u8>)
    requires
        s.len() >= 1,
    ensures
        -signed_limit(s.len()) <= be_signed(s) < signed_limit(s.len()),
{
    lemma_be_unsigned_lead(s);
    lemma_pow256_step((s.len() - 1) as nat);
    let lead = s[0] as int;
    let p = pow256((s.len() - 1) as nat) as int;
    if lead >= 128 {
        assert(128 * p <= lead * p) by (nonlinear_arith)
            requires
                lead >= 128,
                p >= 1,
        ;
        assert((lead + 1) * p <= 256 * p) by (nonlinear_arith)
            requires
                lead + 1 <= 256,
                p >= 1,
        ;
    } else {
        assert((lead + 1) * p <= 128 * p) by (nonlinear_arith)
            requires
                lead + 1 <= 128,
                p >= 1,
        ;
        assert(0 <= lead * p) by (nonlinear_arith)
            requires
                lead >= 0,
                p >= 1,
        ;
    }
}

/// No byte string that denotes a number is shorter than the number's
/// shortest form.
pub proof fn lemma_varint_shortest(v: int, s: Seq<u8>)
    requires
        s.len() >= 1,
        be_signed(s) == v,
    ensures
        varint_bytes(v).len() <= s.len(),
{
    lemma_be_signed_range(s);
    lemma_varint_len(v, s.len());
}

/// Up to eight bytes denote a 64-bit number, and four bytes a 32-bit one:
/// reading a body never wraps.
pub proof fn lemma_be_signed_fits(s: Seq<u8>)
    requires
        1 <= s.len() <= 8,
    ensures
        i64::MIN <= be_signed(s) <= i64::MAX,
        s.len() <= 4 ==> i32::MIN <= be_signed(s) <= i32::MAX,
{
    lemma_be_signed_range(s);
    reveal_with_fuel(pow256, 8);
}

/// The shortest form of a 64-bit number has one to eight bytes.
pub proof fn lemma_varint_len_i64(v: i64)
    ensures
        1 <= varint_bytes(v as int).len() <= 8,
{
    reveal_with_fuel(pow256, 8);
    assert(signed_limit(8) == 0x8000_0000_0000_0000);
    lemma_varint_len(v as int, 8);
}

/// Decoding the body of a value as its own type gives the value back.
pub proof fn lemma_value_round_trip(v: Value)
    ensures
        decode_value_spec(v.spec_column_type(), value_body(v)) == Some(v),
{
    match v {
        Value::Int(i) => {
            lemma_i32_round_trip(i);
        },
        Value::Decimal(d) => {
            let head = i32_bytes(u32_signed(d.scale));
            let tail = varint_bytes(d.unscaled as int);
            let s = decimal_body(d);
            lemma_varint_len_i64(d.unscaled);
            lemma_varint_value(d.unscaled as int);
            lemma_i32_round_trip(u32_signed(d.scale));
            assert(s.subrange(0, 4) =~= head);
            assert(s.subrange(4, s.len() as int) =~= tail);
            assert(i32_bits(u32_signed(d.scale)) == d.scale);
        },
    }
}

/// The body of a value.
pub fn encode_value(v: Value) -> (r: Vec<u8>)
    ensures
        r@ == value_body(v),
        4 <= r@.len() <= 12,
{
    proof {
        match v {
            Value::Int(i) => {},
            Value::Decimal(d) => {
                lemma_varint_len_i64(d.unscaled);
            },
        }
    }
    match v {
        Value::Int(i) => cdrs_int_body(i),
        Value::Decimal(d) => cdrs_decimal_body(d),
    }
}

/// The cell of a nullable value: what a statement carries for one bound
/// parameter.
pub fn encode_cell(v: Option<Value>) -> (r: Vec<u8>)
    ensures
        r@ == value_cell(v),
{
    match v {
        Some(x) => {
            let body = encode_value(x);
            cdrs_cell(Some(body))
        },
        None => cdrs_cell(None),
    }
}

/// Reads a body as a value of type `ty`. `None` says that the bytes are no
/// encoding of that type.
pub fn decode_value(ty: ColumnType, bytes: &[u8]) -> (r: Option<Value>)
    ensures
        r == decode_value_spec(ty, bytes@),
{
    match ty {
        ColumnType::Int => {
            if bytes.len() == 4 {
                match cdrs_decode_int(bytes) {
                    Some(i) => Some(Value::Int(i)),
                    None => None,
                }
            } else {
                None
            }
        },
        ColumnType::Decimal => {
            if 5 <= bytes.len() && bytes.len() <= 12 {
                match cdrs_decode_decimal(bytes) {
                    Some(d) => Some(Value::Decimal(d)),
                    None => None,
                }
            } else {
                None
            }
        },
    }
}

} // verus!
