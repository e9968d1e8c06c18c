//! Error taxonomy of the client.

use vstd::prelude::*;

verus! {

/// Why an inbound frame could not be turned into a response.
#[derive(Debug, Clone, Copy, PartialEq, Eq, Structural)]
pub enum DecodeError {
    /// The text is not one JSON document.
    Syntax,
    /// A JSON object was required.
    ExpectedObject,
    /// A JSON array was required.
    ExpectedArray,
    /// A JSON string was required.
    ExpectedString,
    /// A JSON integer was required.
    ExpectedInteger,
    /// A required member of an object is absent.
    MissingField,
    /// The envelope's tag names no known response.
    UnknownTag,
    /// The row operation is none of insert, delete, update.
    UnknownOp,
    /// An integer does not fit the field it is meant for.
    OutOfRange,
    /// A row value that no column type can hold.
    UnsupportedValue,
    /// A row value whose kind, width or sign is not that of its column.
    TypeMismatch,
    /// A row with more or fewer values than the table has columns.
    ColumnCount,
    /// A binary frame ends inside a field.
    Truncated,
    /// A binary frame breaks the wire format.
    Malformed,
    /// A binary string field is not UTF-8.
    InvalidUtf8,
}

/// Everything that can go wrong between `connect` and a delivered event.
#[derive(Debug, Clone, PartialEq, Eq)]
pub enum ClientError {
    /// The target URL is malformed or names no host.
    Configuration,
    /// The socket or the handshake failed; the text is the transport's report.
    Transport(String),
    /// A frame arrived that could not be decoded.
    Decode(DecodeError),
    /// The upgrade response carried no usable identity headers.
    Auth,
}

/// Mathematical model of a [`ClientError`].
pub enum ClientErrorView {
    Configuration,
    Transport(Seq<char>),
    Decode(DecodeError),
    Auth,
}

impl View for ClientError {
    type V = ClientErrorView;

    open spec fn view(&self) -> ClientErrorView {
        match self {
            ClientError::Configuration => ClientErrorView::Configuration,
            ClientError::Transport(text) => ClientErrorView::Transport(text@),
            ClientError::Decode(e) => ClientErrorView::Decode(*e),
            ClientError::Auth => ClientErrorView::Auth,
        }
    }
}

impl ClientError {
    /// A short human-readable description, for logs.
    pub fn describe(&self) -> (text: String)
        ensures
            text@ == self@.description(),
    {
        match self {
            ClientError::Configuration => "configuration error".to_owned(),
            ClientError::Transport(cause) => "transport error: ".to_owned().concat(cause.as_str()),
            ClientError::Decode(_) => "decode error".to_owned(),
            ClientError::Auth => "authentication error".to_owned(),
        }
    }
}

impl ClientErrorView {
    pub open spec fn description(self) -> Seq<char> {
        match self {
            ClientErrorView::Configuration => "configuration error"@,
            ClientErrorView::Transport(cause) => "transport error: "@ + cause,
            ClientErrorView::Decode(_) => "decode error"@,
            ClientErrorView::Auth => "authentication error"@,
        }
    }
}

} // verus!
