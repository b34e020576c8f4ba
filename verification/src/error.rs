//! The failures a caller can be handed, one kind per cause.

use vstd::prelude::*;

verus! {

/// What was wrong with a message on the wire.
#[derive(Clone, Copy, Debug, PartialEq, Eq, Structural)]
pub enum ProtocolFault {
    /// Fewer bytes than a frame header has.
    TruncatedHeader,
    /// The version byte is not one this protocol version uses.
    BadVersion,
    /// The opcode byte names no known message.
    UnsupportedOpcode,
    /// The declared body length is negative.
    NegativeLength,
    /// The declared body length exceeds the bytes that follow the header.
    TruncatedBody,
    /// Bytes follow the declared end of the message.
    TrailingBytes,
    /// The frame does not travel in the direction expected.
    UnexpectedDirection,
    /// The response carries another stream id than the request.
    StreamMismatch,
    /// The response has an opcode that cannot answer a query.
    UnexpectedOpcode,
    /// The body ends before one of its parts does, or a count is negative.
    MalformedBody,
    /// The result kind is not one of the five defined.
    UnknownResultKind,
    /// A part of a request is longer than its length field can say.
    Oversized,
    /// The result names no columns, so its rows cannot be read by name.
    MissingMetadata,
    /// A column has a type this codec does not decode.
    UnsupportedColumnType,
}

/// Why a column could not be turned into a typed field.
#[derive(Clone, Copy, Debug, PartialEq, Eq, Structural)]
pub enum FieldFault {
    /// The row has no column of that name.
    MissingColumn,
    /// The column has another type than the one asked for.
    TypeMismatch,
    /// The column's bytes are not an encoding of its type.
    CorruptEncoding,
    /// The column is null and the field is not nullable.
    UnexpectedNull,
}

/// Every way a request can fail.
#[derive(Clone, Debug, PartialEq, Eq)]
pub enum Error {
    /// No connection to the node could be established.
    ConnectError,
    /// Connecting or reading took longer than allowed.
    Timeout,
    /// A message on the wire was malformed.
    ProtocolError(ProtocolFault),
    /// Every connection of the pool is lent out.
    PoolExhausted,
    /// Every node is marked unreachable.
    NoAvailableNode,
    /// A column could not be decoded into the field asked for.
    FieldDecodeError { column: String, fault: FieldFault },
    /// The server answered with a well-formed error message.
    ServerError { code: i32, message: Vec<u8> },
}

/// A failure as a mathematical value.
pub enum ErrorView {
    ConnectError,
    Timeout,
    ProtocolError(ProtocolFault),
    PoolExhausted,
    NoAvailableNode,
    FieldDecodeError { column: Seq<char>, fault: FieldFault },
    ServerError { code: i32, message: Seq<u8> },
}

impl View for Error {
    type V = ErrorView;

    open spec fn view(&self) -> ErrorView {
        match self {
            Error::ConnectError => ErrorView::ConnectError,
            Error::Timeout => ErrorView::Timeout,
            Error::ProtocolError(fault) => ErrorView::ProtocolError(*fault),
            Error::PoolExhausted => ErrorView::PoolExhausted,
            Error::NoAvailableNode => ErrorView::NoAvailableNode,
            Error::FieldDecodeError { column, fault } => ErrorView::FieldDecodeError {
                column: column@,
                fault: *fault,
            },
            Error::ServerError { code, message } => ErrorView::ServerError {
                code: *code,
                message: message@,
            },
        }
    }
}

impl Error {
    /// Whether the failure is one of the connection rather than of the
    /// request: such a connection is discarded, and the request may be tried
    /// on another node.
    pub open spec fn is_connection_failure(self) -> bool {
        self is ConnectError || self is Timeout
    }

    pub fn connection_failure(&self) -> (b: bool)
        ensures
            b == self.is_connection_failure(),
    {
        match self {
            Error::ConnectError => true,
            Error::Timeout => true,
            _ => false,
        }
    }
}

} // verus!
