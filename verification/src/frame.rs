//! Frames: the nine-byte header and the body after it.

use vstd::prelude::*;
use crate::error::{Error, ProtocolFault};
use crate::wire::{
    be_signed, copy_range, get_i32, get_u16, i32_bytes, lemma_i32_round_trip,
    lemma_u16_round_trip, put_bytes, put_i32, put_u16, u16_bytes,
};

verus! {

/// The number of bytes in a frame header.
pub const HEADER_LEN: usize = 9;

/// The largest body a frame can declare.
pub const MAX_BODY_LEN: usize = 0x7FFF_FFFF;

/// Direction of a frame, as the version byte of protocol version 4 tells it.
#[derive(Clone, Copy, Debug, PartialEq, Eq, Structural)]
pub enum Version {
    Request,
    Response,
}

/// The kind of message a frame carries.
#[derive(Clone, Copy, Debug, PartialEq, Eq, Structural)]
pub enum Opcode {
    Error,
    Startup,
    Ready,
    Authenticate,
    Options,
    Supported,
    Query,
    Result,
    Prepare,
    Execute,
    Register,
    Event,
    Batch,
    AuthChallenge,
    AuthResponse,
    AuthSuccess,
}

impl Version {
    pub open spec fn spec_byte(self) -> u8 {
        match self {
            Version::Request => 0x04,
            Version::Response => 0x84,
        }
    }

    #[verifier::when_used_as_spec(spec_byte)]
    pub fn byte(self) -> (b: u8)
        ensures
            b == self.spec_byte(),
    {
        match self {
            Version::Request => 0x04,
            Version::Response => 0x84,
        }
    }

    pub open spec fn spec_from_byte(b: u8) -> Option<Version> {
        if b == 0x04 {
            Some(Version::Request)
        } else if b == 0x84 {
            Some(Version::Response)
        } else {
            None
        }
    }

    #[verifier::when_used_as_spec(spec_from_byte)]
    pub fn from_byte(b: u8) -> (v: Option<Version>)
        ensures
            v == Version::spec_from_byte(b),
    {
        if b == 0x04 {
            Some(Version::Request)
        } else if b == 0x84 {
            Some(Version::Response)
        } else {
            None
        }
    }
}

impl Opcode {
    pub open spec fn spec_byte(self) -> u8 {
        match self {
            Opcode::Error => 0x00,
            Opcode::Startup => 0x01,
            Opcode::Ready => 0x02,
            Opcode::Authenticate => 0x03,
            Opcode::Options => 0x05,
            Opcode::Supported => 0x06,
            Opcode::Query => 0x07,
            Opcode::Result => 0x08,
            Opcode::Prepare => 0x09,
            Opcode::Execute => 0x0A,
            Opcode::Register => 0x0B,
            Opcode::Event => 0x0C,
            Opcode::Batch => 0x0D,
            Opcode::AuthChallenge => 0x0E,
            Opcode::AuthResponse => 0x0F,
            Opcode::AuthSuccess => 0x10,
        }
    }

    #[verifier::when_used_as_spec(spec_byte)]
    pub fn byte(self) -> (b: u8)
        ensures
            b == self.spec_byte(),
    {
        match self {
            Opcode::Error => 0x00,
            Opcode::Startup => 0x01,
            Opcode::Ready => 0x02,
            Opcode::Authenticate => 0x03,
            Opcode::Options => 0x05,
            Opcode::Supported => 0x06,
            Opcode::Query => 0x07,
            Opcode::Result => 0x08,
            Opcode::Prepare => 0x09,
            Opcode::Execute => 0x0A,
            Opcode::Register => 0x0B,
            Opcode::Event => 0x0C,
            Opcode::Batch => 0x0D,
            Opcode::AuthChallenge => 0x0E,
            Opcode::AuthResponse => 0x0F,
            Opcode::AuthSuccess => 0x10,
        }
    }

    pub open spec fn spec_from_byte(b: u8) -> Option<Opcode> {
        if b == 0x00 {
            Some(Opcode::Error)
        } else if b == 0x01 {
            Some(Opcode::Startup)
        } else if b == 0x02 {
            Some(Opcode::Ready)
        } else if b == 0x03 {
            Some(Opcode::Authenticate)
        } else if b == 0x05 {
            Some(Opcode::Options)
        } else if b == 0x06 {
            Some(Opcode::Supported)
        } else if b == 0x07 {
            Some(Opcode::Query)
        } else if b == 0x08 {
            Some(Opcode::Result)
        } else if b == 0x09 {
            Some(Opcode::Prepare)
        } else if b == 0x0A {
            Some(Opcode::Execute)
        } else if b == 0x0B {
            Some(Opcode::Register)
        } else if b == 0x0C {
            Some(Opcode::Event)
        } else if b == 0x0D {
            Some(Opcode::Batch)
        } else if b == 0x0E {
            Some(Opcode::AuthChallenge)
        } else if b == 0x0F {
            Some(Opcode::AuthResponse)
        } else if b == 0x10 {
            Some(Opcode::AuthSuccess)
        } else {
            None
        }
    }

    #[verifier::when_used_as_spec(spec_from_byte)]
    pub fn from_byte(b: u8) -> (v: Option<Opcode>)
        ensures
            v == Opcode::spec_from_byte(b),
    {
        if b == 0x00 {
            Some(Opcode::Error)
        } else if b == 0x01 {
            Some(Opcode::Startup)
        } else if b == 0x02 {
            Some(Opcode::Ready)
        } else if b == 0x03 {
            Some(Opcode::Authenticate)
        } else if b == 0x05 {
            Some(Opcode::Options)
        } else if b == 0x06 {
            Some(Opcode::Supported)
        } else if b == 0x07 {
            Some(Opcode::Query)
        } else if b == 0x08 {
            Some(Opcode::Result)
        } else if b == 0x09 {
            Some(Opcode::Prepare)
        } else if b == 0x0A {
            Some(Opcode::Execute)
        } else if b == 0x0B {
            Some(Opcode::Register)
        } else if b == 0x0C {
            Some(Opcode::Event)
        } else if b == 0x0D {
            Some(Opcode::Batch)
        } else if b == 0x0E {
            Some(Opcode::AuthChallenge)
        } else if b == 0x0F {
            Some(Opcode::AuthResponse)
        } else if b == 0x10 {
            Some(Opcode::AuthSuccess)
        } else {
            None
        }
    }
}

/// What a frame header says.
#[derive(Clone, Copy, Debug, PartialEq, Eq, Structural)]
pub struct Header {
    pub version: Version,
    pub flags: u8,
    pub stream: u16,
    pub opcode: Opcode,
    /// The number of body bytes that follow the header.
    pub length: u32,
}

/// One message: a header and its body.
#[derive(Clone, Debug, PartialEq, Eq)]
pub struct Frame {
    pub version: Version,
    pub flags: u8,
    pub stream: u16,
    pub opcode: Opcode,
    pub body: Vec<u8>,
}

/// A frame as a mathematical value.
pub struct FrameView {
    pub version: Version,
    pub flags: u8,
    pub stream: u16,
    pub opcode: Opcode,
    pub body: Seq<u8>,
}

impl View for Frame {
    type V = FrameView;

    open spec fn view(&self) -> FrameView {
        FrameView {
            version: self.version,
            flags: self.flags,
            stream: self.stream,
            opcode: self.opcode,
            body: self.body@,
        }
    }
}

/// The nine bytes of a header.
pub open spec fn header_bytes(h: Header) -> Seq<u8> {
    seq![h.version.spec_byte(), h.flags] + u16_bytes(h.stream) + seq![h.opcode.spec_byte()]
        + i32_bytes(h.length as i32)
}

/// What nine or more bytes say as a header, or what is wrong with them.
pub open spec fn decode_header_spec(s: Seq<u8>) -> Result<Header, ProtocolFault> {
    if s.len() < HEADER_LEN {
        Err(ProtocolFault::TruncatedHeader)
    } else if Version::spec_from_byte(s[0]) is None {
        Err(ProtocolFault::BadVersion)
    } else if Opcode::spec_from_byte(s[4]) is None {
        Err(ProtocolFault::UnsupportedOpcode)
    } else if be_signed(s.subrange(5, 9)) < 0 {
        Err(ProtocolFault::NegativeLength)
    } else {
        Ok(
            Header {
                version: Version::spec_from_byte(s[0])->0,
                flags: s[1],
                stream: crate::wire::be_unsigned(s.subrange(2, 4)) as u16,
                opcode: Opcode::spec_from_byte(s[4])->0,
                length: be_signed(s.subrange(5, 9)) as u32,
            },
        )
    }
}

impl FrameView {
    /// The header that announces this frame.
    pub open spec fn header(self) -> Header {
        Header {
            version: self.version,
            flags: self.flags,
            stream: self.stream,
            opcode: self.opcode,
            length: self.body.len() as u32,
        }
    }
}

/// The bytes of a frame on the wire.
pub open spec fn frame_bytes(f: FrameView) -> Seq<u8> {
    header_bytes(f.header()) + f.body
}

/// What a byte string says as one whole frame, or what is wrong with it.
pub open spec fn decode_frame_spec(s: Seq<u8>) -> Result<FrameView, ProtocolFault> {
    match decode_header_spec(s) {
        Err(fault) => Err(fault),
        Ok(h) => if HEADER_LEN + h.length > s.len() {
            Err(ProtocolFault::TruncatedBody)
        } else if HEADER_LEN + h.length < s.len() {
            Err(ProtocolFault::TrailingBytes)
        } else {
            Ok(
                FrameView {
                    version: h.version,
                    flags: h.flags,
                    stream: h.stream,
                    opcode: h.opcode,
                    body: s.subrange(HEADER_LEN as int, s.len() as int),
                },
            )
        },
    }
}

pub proof fn lemma_version_round_trip(v: Version)
    ensures
        Version::spec_from_byte(v.spec_byte()) == Some(v),
{
}

pub proof fn lemma_opcode_round_trip(o: Opcode)
    ensures
        Opcode::spec_from_byte(o.spec_byte()) == Some(o),
{
}

/// Decoding the bytes of a header gives the header back.
pub proof fn lemma_header_round_trip(h: Header, rest: Seq<u8>)
    requires
        h.length <= MAX_BODY_LEN,
    ensures
        header_bytes(h).len() == HEADER_LEN,
        decode_header_spec(header_bytes(h) + rest) == Ok::<Header, ProtocolFault>(h),
{
    let s = header_bytes(h) + rest;
    lemma_u16_round_trip(h.stream);
    lemma_i32_round_trip(h.length as i32);
    assert(s.subrange(2, 4) =~= u16_bytes(h.stream));
    assert(s.subrange(5, 9) =~= i32_bytes(h.length as i32));
    assert(s[0] == h.version.spec_byte());
    assert(s[1] == h.flags);
    assert(s[4] == h.opcode.spec_byte());
}

/// Decoding the bytes of a frame gives the frame back.
pub proof fn lemma_frame_round_trip(f: FrameView)
    requires
        f.body.len() <= MAX_BODY_LEN,
    ensures
        decode_frame_spec(frame_bytes(f)) == Ok::<FrameView, ProtocolFault>(f),
{
    lemma_header_round_trip(f.header(), f.body);
    let s = frame_bytes(f);
    assert(s.subrange(HEADER_LEN as int, s.len() as int) =~= f.body);
}

/// A byte string that decodes to a frame is that frame's encoding, to the
/// byte.
pub proof fn lemma_frame_bytes_of_decoded(s: Seq<u8>)
    requires
        decode_frame_spec(s) is Ok,
    ensures
        frame_bytes(decode_frame_spec(s)->Ok_0) == s,
{
    let f = decode_frame_spec(s)->Ok_0;
    let h = decode_header_spec(s)->Ok_0;
    crate::wire::lemma_u16_bytes_of_value(s.subrange(2, 4));
    crate::wire::lemma_i32_bytes_of_value(s.subrange(5, 9));
    assert(f.header() == h);
    assert(frame_bytes(f) =~= s);
}

/// A frame that declares more body than the bytes after its header hold is
/// rejected, whatever else it says.
pub proof fn lemma_short_body_rejected(s: Seq<u8>)
    requires
        s.len() >= HEADER_LEN,
        be_signed(s.subrange(5, 9)) > s.len() - HEADER_LEN,
    ensures
        decode_frame_spec(s) is Err,
{
    crate::wire::lemma_i32_bytes_of_value(s.subrange(5, 9));
}

/// Reads a header from the first nine bytes.
pub fn decode_header(bytes: &[u8]) -> (r: Result<Header, ProtocolFault>)
    ensures
        r == decode_header_spec(bytes@),
{
    if bytes.len() < HEADER_LEN {
        return Err(ProtocolFault::TruncatedHeader);
    }
    let version = match Version::from_byte(bytes[0]) {
        Some(v) => v,
        None => {
            return Err(ProtocolFault::BadVersion);
        },
    };
    let opcode = match Opcode::from_byte(bytes[4]) {
        Some(o) => o,
        None => {
            return Err(ProtocolFault::UnsupportedOpcode);
        },
    };
    let length: i32 = get_i32(bytes, 5);
    if length < 0 {
        return Err(ProtocolFault::NegativeLength);
    }
    let stream: u16 = get_u16(bytes, 2);
    Ok(Header { version, flags: bytes[1], stream, opcode, length: length as u32 })
}

/// Reads one whole frame. The bytes must hold the header and exactly the
/// body it declares.
pub fn decode_frame(bytes: &[u8]) -> (r: Result<Frame, Error>)
    ensures
        match r {
            Ok(f) => decode_frame_spec(bytes@) == Ok::<FrameView, ProtocolFault>(f@),
            Err(e) => decode_frame_spec(bytes@) is Err && e == Error::ProtocolError(
                decode_frame_spec(bytes@)->Err_0,
            ),
        },
{
    let h = match decode_header(bytes) {
        Ok(h) => h,
        Err(fault) => {
            return Err(Error::ProtocolError(fault));
        },
    };
    let available: usize = bytes.len() - HEADER_LEN;
    if h.length as usize > available {
        return Err(Error::ProtocolError(ProtocolFault::TruncatedBody));
    }
    if (h.length as usize) < available {
        return Err(Error::ProtocolError(ProtocolFault::TrailingBytes));
    }
    let body = copy_range(bytes, HEADER_LEN, bytes.len());
    Ok(Frame { version: h.version, flags: h.flags, stream: h.stream, opcode: h.opcode, body })
}

/// The bytes of a frame. A body of more than `MAX_BODY_LEN` bytes cannot be
/// declared in a header: such a frame has no encoding.
pub fn encode_frame(f: &Frame) -> (r: Option<Vec<u8>>)
    ensures
        r is Some <==> f.body@.len() <= MAX_BODY_LEN,
        r is Some ==> r->0@ == frame_bytes(f@),
{
    if f.body.len() > MAX_BODY_LEN {
        return None;
    }
    let mut out: Vec<u8> = Vec::new();
    out.push(f.version.byte());
    out.push(f.flags);
    put_u16(&mut out, f.stream);
    out.push(f.opcode.byte());
    put_i32(&mut out, f.body.len() as i32);
    put_bytes(&mut out, f.body.as_slice());
    assert(out@ =~= frame_bytes(f@));
    Some(out)
}

} // verus!
