//! Statements and the body of the message that carries one to the server.

use vstd::prelude::*;
use vstd::utf8::encode_utf8;
use crate::error::{Error, ProtocolFault};
use crate::frame::{encode_frame, frame_bytes, Frame, FrameView, Opcode, Version, MAX_BODY_LEN};
use crate::value::{encode_cell, value_cell, Value};
use crate::wire::{i32_bytes, put_bytes, put_i32, put_u16, u16_bytes};

verus! {

/// How many replicas must answer before the server does.
#[derive(Clone, Copy, Debug, PartialEq, Eq, Structural)]
pub enum Consistency {
    Any,
    One,
    Two,
    Three,
    Quorum,
    All,
    LocalQuorum,
    EachQuorum,
    Serial,
    LocalSerial,
    LocalOne,
}

impl Consistency {
    /// The number that stands for the level on the wire.
    pub open spec fn spec_code(self) -> u16 {
        match self {
            Consistency::Any => 0x0000,
            Consistency::One => 0x0001,
            Consistency::Two => 0x0002,
            Consistency::Three => 0x0003,
            Consistency::Quorum => 0x0004,
            Consistency::All => 0x0005,
            Consistency::LocalQuorum => 0x0006,
            Consistency::EachQuorum => 0x0007,
            Consistency::Serial => 0x0008,
            Consistency::LocalSerial => 0x0009,
            Consistency::LocalOne => 0x000A,
        }
    }

    #[verifier::when_used_as_spec(spec_code)]
    pub fn code(self) -> (c: u16)
        ensures
            c == self.spec_code(),
    {
        match self {
            Consistency::Any => 0x0000,
            Consistency::One => 0x0001,
            Consistency::Two => 0x0002,
            Consistency::Three => 0x0003,
            Consistency::Quorum => 0x0004,
            Consistency::All => 0x0005,
            Consistency::LocalQuorum => 0x0006,
            Consistency::EachQuorum => 0x0007,
            Consistency::Serial => 0x0008,
            Consistency::LocalSerial => 0x0009,
            Consistency::LocalOne => 0x000A,
        }
    }
}

/// A value bound to a named parameter.
#[derive(Clone, Debug, PartialEq, Eq)]
pub struct NamedValue {
    pub name: String,
    pub value: Option<Value>,
}

/// The values bound to a statement's parameters: by position, or by name in
/// the order given.
#[derive(Clone, Debug, PartialEq, Eq)]
pub enum QueryValues {
    Simple(Vec<Option<Value>>),
    Named(Vec<NamedValue>),
}

/// A statement ready to be sent: its text, the values bound to its
/// parameters, and the consistency level. It does not change once built.
#[derive(Clone, Debug, PartialEq, Eq)]
pub struct Query {
    text: String,
    values: Option<QueryValues>,
    consistency: Consistency,
}

/// Bound values as a mathematical value.
pub enum QueryValuesView {
    Simple(Seq<Option<Value>>),
    Named(Seq<(Seq<char>, Option<Value>)>),
}

/// A statement as a mathematical value.
pub struct QueryView {
    pub text: Seq<char>,
    pub values: Option<QueryValuesView>,
    pub consistency: Consistency,
}

impl View for NamedValue {
    type V = (Seq<char>, Option<Value>);

    open spec fn view(&self) -> (Seq<char>, Option<Value>) {
        (self.name@, self.value)
    }
}

impl View for QueryValues {
    type V = QueryValuesView;

    open spec fn view(&self) -> QueryValuesView {
        match self {
            QueryValues::Simple(vs) => QueryValuesView::Simple(vs@),
            QueryValues::Named(vs) => QueryValuesView::Named(vs@.map_values(|nv: NamedValue| nv@)),
        }
    }
}

impl View for Query {
    type V = QueryView;

    closed spec fn view(&self) -> QueryView {
        QueryView {
            text: self.text@,
            values: match self.values {
                Some(vs) => Some(vs@),
                None => None,
            },
            consistency: self.consistency,
        }
    }
}

impl Query {
    /// A statement without bound values, at consistency level one.
    pub fn new(text: &str) -> (q: Query)
        ensures
            q@ == (QueryView { text: text@, values: None, consistency: Consistency::One }),
    {
        Query { text: text.to_owned(), values: None, consistency: Consistency::One }
    }

    /// A statement with bound values, at consistency level one.
    pub fn with_values(text: &str, values: QueryValues) -> (q: Query)
        ensures
            q@ == (QueryView {
                text: text@,
                values: Some(values@),
                consistency: Consistency::One,
            }),
    {
        Query { text: text.to_owned(), values: Some(values), consistency: Consistency::One }
    }

    /// The same statement at another consistency level.
    pub fn with_consistency(self, consistency: Consistency) -> (q: Query)
        ensures
            q@ == (QueryView { consistency, ..self@ }),
    {
        Query { text: self.text, values: self.values, consistency }
    }

    /// The text of the statement.
    pub fn text(&self) -> (t: &str)
        ensures
            t@ == self@.text,
    {
        self.text.as_str()
    }

    /// The values bound to the statement, if any.
    pub fn values(&self) -> (v: &Option<QueryValues>)
        ensures
            match v {
                Some(vs) => self@.values == Some(vs@),
                None => self@.values is None,
            },
    {
        &self.values
    }

    /// The consistency level.
    pub fn consistency(&self) -> (c: Consistency)
        ensures
            c == self@.consistency,
    {
        self.consistency
    }
}

/// A `[string]`: a two-byte length and the text in UTF-8.
pub open spec fn string_bytes(s: Seq<char>) -> Seq<u8> {
    u16_bytes(encode_utf8(s).len() as u16) + encode_utf8(s)
}

/// A `[long string]`: a four-byte length and the text in UTF-8.
pub open spec fn long_string_bytes(s: Seq<char>) -> Seq<u8> {
    i32_bytes(encode_utf8(s).len() as i32) + encode_utf8(s)
}

/// The cells of the values, one after the other.
pub open spec fn simple_values_bytes(vs: Seq<Option<Value>>) -> Seq<u8>
    decreases vs.len(),
{
    if vs.len() == 0 {
        Seq::empty()
    } else {
        simple_values_bytes(vs.drop_last()) + value_cell(vs.last())
    }
}

/// Each name as a `[string]` followed by the cell of its value, one pair
/// after the other.
pub open spec fn named_values_bytes(vs: Seq<(Seq<char>, Option<Value>)>) -> Seq<u8>
    decreases vs.len(),
{
    if vs.len() == 0 {
        Seq::empty()
    } else {
        named_values_bytes(vs.drop_last()) + string_bytes(vs.last().0) + value_cell(vs.last().1)
    }
}

/// Whether every name is short enough for a `[string]`.
pub open spec fn names_fit(vs: Seq<(Seq<char>, Option<Value>)>) -> bool {
    forall|i: int| 0 <= i < vs.len() ==> encode_utf8(#[trigger] vs[i].0).len() <= 0xFFFF
}

impl QueryValuesView {
    /// The number of values.
    pub open spec fn count(self) -> nat {
        match self {
            QueryValuesView::Simple(vs) => vs.len(),
            QueryValuesView::Named(vs) => vs.len(),
        }
    }

    /// The flag bit that tells the server whether names are given.
    pub open spec fn flags(self) -> u8 {
        match self {
            QueryValuesView::Simple(_) => 0x01,
            QueryValuesView::Named(_) => 0x41,
        }
    }

    /// The values as they stand in a message: their number, then each.
    pub open spec fn bytes(self) -> Seq<u8> {
        match self {
            QueryValuesView::Simple(vs) => u16_bytes(vs.len() as u16) + simple_values_bytes(vs),
            QueryValuesView::Named(vs) => u16_bytes(vs.len() as u16) + named_values_bytes(vs),
        }
    }

    /// Whether the length fields can say how many values and how long the
    /// names are.
    pub open spec fn fits(self) -> bool {
        match self {
            QueryValuesView::Simple(vs) => vs.len() <= 0xFFFF,
            QueryValuesView::Named(vs) => vs.len() <= 0xFFFF && names_fit(vs),
        }
    }
}

impl QueryView {
    /// Whether every length in the statement can be written in its field.
    pub open spec fn fits(self) -> bool {
        &&& encode_utf8(self.text).len() <= MAX_BODY_LEN
        &&& self.values is Some ==> self.values->0.fits()
    }

    /// The body of the message: the text, the consistency level, the flags,
    /// and the values where there are any.
    pub open spec fn body(self) -> Seq<u8> {
        long_string_bytes(self.text) + u16_bytes(self.consistency.spec_code()) + match self.values {
            Some(vs) => seq![vs.flags()] + vs.bytes(),
            None => seq![0u8],
        }
    }

    /// The request frame that carries the statement on stream `stream`.
    pub open spec fn frame(self, stream: u16) -> FrameView {
        FrameView {
            version: Version::Request,
            flags: 0,
            stream,
            opcode: Opcode::Query,
            body: self.body(),
        }
    }
}

fn put_simple_values(out: &mut Vec<u8>, vs: &Vec<Option<Value>>)
    ensures
        final(out)@ == old(out)@ + simple_values_bytes(vs@),
{
    let mut i: usize = 0;
    assert(vs@.subrange(0, 0) =~= Seq::<Option<Value>>::empty());
    assert(out@ =~= old(out)@ + simple_values_bytes(vs@.subrange(0, 0)));
    while i < vs.len()
        invariant
            i <= vs@.len(),
            out@ == old(out)@ + simple_values_bytes(vs@.subrange(0, i as int)),
        decreases vs@.len() - i,
    {
        let cell = encode_cell(vs[i]);
        put_bytes(out, cell.as_slice());
        proof {
            let next = vs@.subrange(0, i + 1);
            assert(next.drop_last() =~= vs@.subrange(0, i as int));
            assert(next.last() == vs@[i as int]);
            assert(out@ =~= old(out)@ + simple_values_bytes(next));
        }
        i = i + 1;
    }
    assert(vs@.subrange(0, vs@.len() as int) =~= vs@);
}

/// Appends the named values; `false`, with nothing said of `out`, where a
/// name is too long for its length field.
fn put_named_values(out: &mut Vec<u8>, vs: &Vec<NamedValue>) -> (ok: bool)
    ensures
        ok == names_fit(vs@.map_values(|nv: NamedValue| nv@)),
        ok ==> final(out)@ == old(out)@ + named_values_bytes(
            vs@.map_values(|nv: NamedValue| nv@),
        ),
{
    let ghost all = vs@.map_values(|nv: NamedValue| nv@);
    let mut i: usize = 0;
    assert(all.subrange(0, 0) =~= Seq::<(Seq<char>, Option<Value>)>::empty());
    assert(out@ =~= old(out)@ + named_values_bytes(all.subrange(0, 0)));
    while i < vs.len()
        invariant
            i <= vs@.len(),
            all == vs@.map_values(|nv: NamedValue| nv@),
            names_fit(all.subrange(0, i as int)),
            out@ == old(out)@ + named_values_bytes(all.subrange(0, i as int)),
        decreases vs@.len() - i,
    {
        let name = vs[i].name.as_str().as_bytes();
        if name.len() > 0xFFFF {
            assert(all[i as int].0 == vs@[i as int].name@);
            return false;
        }
        put_u16(out, name.len() as u16);
        put_bytes(out, name);
        let cell = encode_cell(vs[i].value);
        put_bytes(out, cell.as_slice());
        proof {
            let next = all.subrange(0, i + 1);
            assert(next.drop_last() =~= all.subrange(0, i as int));
            assert(next.last() == all[i as int]);
            assert(all[i as int] == vs@[i as int]@);
            assert(out@ =~= old(out)@ + named_values_bytes(next));
            assert forall|j: int| 0 <= j < next.len() implies encode_utf8(
                #[trigger] next[j].0,
            ).len() <= 0xFFFF by {
                if j < i {
                    assert(next[j] == all.subrange(0, i as int)[j]);
                }
            }
        }
        i = i + 1;
    }
    assert(all.subrange(0, vs@.len() as int) =~= all);
    true
}

/// The body of the message that carries `q`. It fails with
/// `ProtocolFault::Oversized` where a length does not fit its field, and only
/// then.
pub fn encode_query_body(q: &Query) -> (r: Result<Vec<u8>, Error>)
    ensures
        r is Ok <==> q@.fits(),
        r is Ok ==> r->Ok_0@ == q@.body(),
        r is Err ==> r->Err_0 == Error::ProtocolError(ProtocolFault::Oversized),
{
    let text = q.text.as_str().as_bytes();
    if text.len() > MAX_BODY_LEN {
        return Err(Error::ProtocolError(ProtocolFault::Oversized));
    }
    let mut out: Vec<u8> = Vec::new();
    put_i32(&mut out, text.len() as i32);
    put_bytes(&mut out, text);
    put_u16(&mut out, q.consistency.code());
    match &q.values {
        None => {
            out.push(0u8);
            assert(out@ =~= q@.body());
        },
        Some(QueryValues::Simple(vs)) => {
            if vs.len() > 0xFFFF {
                return Err(Error::ProtocolError(ProtocolFault::Oversized));
            }
            out.push(0x01u8);
            put_u16(&mut out, vs.len() as u16);
            put_simple_values(&mut out, vs);
            assert(out@ =~= q@.body());
        },
        Some(QueryValues::Named(vs)) => {
            if vs.len() > 0xFFFF {
                return Err(Error::ProtocolError(ProtocolFault::Oversized));
            }
            out.push(0x41u8);
            put_u16(&mut out, vs.len() as u16);
            let ok = put_named_values(&mut out, vs);
            if !ok {
                return Err(Error::ProtocolError(ProtocolFault::Oversized));
            }
            assert(out@ =~= q@.body());
        },
    }
    Ok(out)
}

/// The whole request frame for `q` on stream `stream`. It fails with
/// `ProtocolFault::Oversized` where a length does not fit its field or the
/// body is longer than a header can declare, and only then.
pub fn encode_query_frame(q: &Query, stream: u16) -> (r: Result<Vec<u8>, Error>)
    ensures
        r is Ok <==> q@.fits() && q@.body().len() <= MAX_BODY_LEN,
        r is Ok ==> r->Ok_0@ == frame_bytes(q@.frame(stream)),
        r is Err ==> r->Err_0 == Error::ProtocolError(ProtocolFault::Oversized),
{
    let body = encode_query_body(q)?;
    let frame = Frame {
        version: Version::Request,
        flags: 0,
        stream,
        opcode: Opcode::Query,
        body,
    };
    match encode_frame(&frame) {
        Some(bytes) => Ok(bytes),
        None => Err(Error::ProtocolError(ProtocolFault::Oversized)),
    }
}

} // verus!
