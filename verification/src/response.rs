//! What a response frame means for the request it answers.

use vstd::prelude::*;
use crate::error::{Error, ErrorView, ProtocolFault};
use crate::frame::{
    decode_frame, decode_frame_spec, encode_frame, frame_bytes, Frame, FrameView, Opcode, Version,
};
use crate::rows::{read_i32, read_string};
use crate::wire::{copy_range, get_i32, get_u16};

verus! {

/// What the body of an error message reports: the server's code and
/// message, or a protocol fault where the body holds neither. What follows
/// the message depends on the code and is not read.
pub open spec fn server_error_spec(body: Seq<u8>) -> ErrorView {
    match read_i32(body, 0) {
        None => ErrorView::ProtocolError(ProtocolFault::MalformedBody),
        Some((code, at)) => match read_string(body, at) {
            None => ErrorView::ProtocolError(ProtocolFault::MalformedBody),
            Some((message, _)) => ErrorView::ServerError { code: code as i32, message },
        },
    }
}

/// What the bytes of a response mean for the request sent on `stream`: the
/// result frame, or the failure to report.
pub open spec fn response_spec(bytes: Seq<u8>, stream: u16) -> Result<FrameView, ErrorView> {
    match decode_frame_spec(bytes) {
        Err(fault) => Err(ErrorView::ProtocolError(fault)),
        Ok(frame) => if frame.version != Version::Response {
            Err(ErrorView::ProtocolError(ProtocolFault::UnexpectedDirection))
        } else if frame.stream != stream {
            Err(ErrorView::ProtocolError(ProtocolFault::StreamMismatch))
        } else if frame.opcode == Opcode::Error {
            Err(server_error_spec(frame.body))
        } else if frame.opcode == Opcode::Result {
            Ok(frame)
        } else {
            Err(ErrorView::ProtocolError(ProtocolFault::UnexpectedOpcode))
        },
    }
}

/// The view of an outcome: of the frame where there is one, of the failure
/// where there is not.
pub open spec fn outcome_view(r: Result<Frame, Error>) -> Result<FrameView, ErrorView> {
    match r {
        Ok(frame) => Ok(frame@),
        Err(e) => Err(e@),
    }
}

/// Reads the body of an error message.
pub fn server_error(body: &[u8]) -> (e: Error)
    ensures
        e@ == server_error_spec(body@),
{
    if body.len() < 4 {
        return Error::ProtocolError(ProtocolFault::MalformedBody);
    }
    let code: i32 = get_i32(body, 0);
    if body.len() - 4 < 2 {
        return Error::ProtocolError(ProtocolFault::MalformedBody);
    }
    let n: usize = get_u16(body, 4) as usize;
    if body.len() - 6 < n {
        return Error::ProtocolError(ProtocolFault::MalformedBody);
    }
    Error::ServerError { code, message: copy_range(body, 6, 6 + n) }
}

/// Interprets the bytes received in answer to the request sent on `stream`.
/// Only a result frame of that stream is a success; an error frame gives the
/// server's error; anything else is a protocol error.
pub fn interpret_response(bytes: &[u8], stream: u16) -> (r: Result<Frame, Error>)
    ensures
        outcome_view(r) == response_spec(bytes@, stream),
{
    let frame = match decode_frame(bytes) {
        Ok(frame) => frame,
        Err(e) => {
            return Err(e);
        },
    };
    match frame.version {
        Version::Response => {},
        Version::Request => {
            return Err(Error::ProtocolError(ProtocolFault::UnexpectedDirection));
        },
    }
    if frame.stream != stream {
        return Err(Error::ProtocolError(ProtocolFault::StreamMismatch));
    }
    match frame.opcode {
        Opcode::Error => Err(server_error(frame.body.as_slice())),
        Opcode::Result => Ok(frame),
        _ => Err(Error::ProtocolError(ProtocolFault::UnexpectedOpcode)),
    }
}

/// The frame that asks a server which options it supports: the cheapest
/// request there is, sent to see whether a connection is alive.
pub open spec fn probe_frame(stream: u16) -> FrameView {
    FrameView {
        version: Version::Request,
        flags: 0,
        stream,
        opcode: Opcode::Options,
        body: Seq::empty(),
    }
}

/// Whether the bytes are the answer of a live server to the probe sent on
/// `stream`: a well-formed frame of that stream that lists the options.
pub open spec fn answers_probe(bytes: Seq<u8>, stream: u16) -> bool {
    match decode_frame_spec(bytes) {
        Err(_) => false,
        Ok(frame) => frame.version == Version::Response && frame.stream == stream && frame.opcode
            == Opcode::Supported,
    }
}

/// The bytes to send as a probe on `stream`.
pub fn encode_probe(stream: u16) -> (r: Vec<u8>)
    ensures
        r@ == frame_bytes(probe_frame(stream)),
{
    let frame = Frame {
        version: Version::Request,
        flags: 0,
        stream,
        opcode: Opcode::Options,
        body: Vec::new(),
    };
    match encode_frame(&frame) {
        Some(bytes) => bytes,
        None => Vec::new(),
    }
}

/// Whether the bytes received answer the probe sent on `stream`.
pub fn is_probe_answer(bytes: &[u8], stream: u16) -> (b: bool)
    ensures
        b == answers_probe(bytes@, stream),
{
    match decode_frame(bytes) {
        Err(_) => false,
        Ok(frame) => {
            let response = match frame.version {
                Version::Response => true,
                Version::Request => false,
            };
            let supported = match frame.opcode {
                Opcode::Supported => true,
                _ => false,
            };
            response && frame.stream == stream && supported
        },
    }
}

} // verus!
