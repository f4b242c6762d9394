//! The closed set of failures that a client operation reports.

use vstd::prelude::*;
use vstd::string::StringExecFns;

verus! {

/// Why a wire payload could not be turned into a value.
#[derive(Clone, Copy, Debug, PartialEq, Eq, Structural)]
pub enum ConversionError {
    /// The payload ended before the value was complete.
    Truncated,
    /// A complete value was followed by further bytes.
    TrailingBytes,
    /// A tagged union carried a tag that names no variant.
    UnknownTag { tag: u8 },
    /// A text field was not UTF-8.
    InvalidUtf8,
    /// A property value was not JSON text.
    InvalidJson,
    /// An identifier was not 16 bytes long.
    InvalidIdentifierLength { len: usize },
    /// A timestamp carried a sub-second part of a second or more.
    InvalidTimestamp,
}

impl ConversionError {
    /// The text that describes this failure.
    pub open spec fn description(self) -> Seq<char> {
        match self {
            ConversionError::Truncated => "payload ended early"@,
            ConversionError::TrailingBytes => "payload has trailing bytes"@,
            ConversionError::UnknownTag { .. } => "unknown variant tag"@,
            ConversionError::InvalidUtf8 => "text is not UTF-8"@,
            ConversionError::InvalidJson => "property value is not JSON"@,
            ConversionError::InvalidIdentifierLength { .. } => "identifier is not 16 bytes long"@,
            ConversionError::InvalidTimestamp => "timestamp is out of range"@,
        }
    }

    /// Renders the failure for a reader.
    pub fn message(&self) -> (text: String)
        ensures
            text@ == self.description(),
    {
        match self {
            ConversionError::Truncated => String::from_str("payload ended early"),
            ConversionError::TrailingBytes => String::from_str("payload has trailing bytes"),
            ConversionError::UnknownTag { .. } => String::from_str("unknown variant tag"),
            ConversionError::InvalidUtf8 => String::from_str("text is not UTF-8"),
            ConversionError::InvalidJson => String::from_str("property value is not JSON"),
            ConversionError::InvalidIdentifierLength { .. } => String::from_str(
                "identifier is not 16 bytes long",
            ),
            ConversionError::InvalidTimestamp => String::from_str("timestamp is out of range"),
        }
    }
}

/// An explicit failure status returned by the remote side.
#[derive(Clone, Debug, PartialEq, Eq)]
pub struct Status {
    /// The status code the server chose.
    pub code: u32,
    /// The server's explanation.
    pub message: String,
}

/// A connection that could not be established or was lost in the middle of a call.
#[derive(Clone, Debug, PartialEq, Eq)]
pub struct TransportError {
    /// What the transport reported.
    pub message: String,
}

/// The error returned if a client operation failed.
#[derive(Clone, Debug, PartialEq, Eq)]
pub enum ClientError {
    /// A wire payload could not be turned into its domain type.
    Conversion { inner: ConversionError },
    /// The remote side answered with a failure status.
    Grpc { inner: Status },
    /// The connection could not be established or was lost.
    Transport { inner: TransportError },
    /// An internal channel was closed before every item was sent.
    ChannelClosed,
}

/// What a `ClientError` holds, as plain values.
pub enum ClientErrorView {
    Conversion { inner: ConversionError },
    Grpc { code: u32, message: Seq<char> },
    Transport { message: Seq<char> },
    ChannelClosed,
}

impl View for ClientError {
    type V = ClientErrorView;

    open spec fn view(&self) -> ClientErrorView {
        match self {
            ClientError::Conversion { inner } => ClientErrorView::Conversion { inner: *inner },
            ClientError::Grpc { inner } => ClientErrorView::Grpc {
                code: inner.code,
                message: inner.message@,
            },
            ClientError::Transport { inner } => ClientErrorView::Transport {
                message: inner.message@,
            },
            ClientError::ChannelClosed => ClientErrorView::ChannelClosed,
        }
    }
}

impl ClientErrorView {
    /// The text that describes this failure: the inner description, behind a
    /// marker that names the category.
    pub open spec fn description(self) -> Seq<char> {
        match self {
            ClientErrorView::Conversion { inner } => inner.description(),
            ClientErrorView::Grpc { message, .. } => "grpc error: "@ + message,
            ClientErrorView::Transport { message } => "transport error: "@ + message,
            ClientErrorView::ChannelClosed => "failed to send request: channel closed"@,
        }
    }
}

impl ClientError {
    /// Renders the failure for a reader.
    pub fn message(&self) -> (text: String)
        ensures
            text@ == self@.description(),
    {
        match self {
            ClientError::Conversion { inner } => inner.message(),
            ClientError::Grpc { inner } => String::from_str("grpc error: ").concat(
                inner.message.as_str(),
            ),
            ClientError::Transport { inner } => String::from_str("transport error: ").concat(
                inner.message.as_str(),
            ),
            ClientError::ChannelClosed => String::from_str(
                "failed to send request: channel closed",
            ),
        }
    }

    /// The conversion failure underneath this error, if that is its cause.
    pub fn conversion_source(&self) -> (source: Option<ConversionError>)
        ensures
            source == match self@ {
                ClientErrorView::Conversion { inner } => Some(inner),
                _ => None,
            },
    {
        match self {
            ClientError::Conversion { inner } => Some(*inner),
            _ => None,
        }
    }
}

impl From<ConversionError> for ClientError {
    fn from(err: ConversionError) -> (out: ClientError) {
        ClientError::Conversion { inner: err }
    }
}

impl vstd::std_specs::convert::FromSpecImpl<ConversionError> for ClientError {
    open spec fn obeys_from_spec() -> bool {
        true
    }

    open spec fn from_spec(err: ConversionError) -> ClientError {
        ClientError::Conversion { inner: err }
    }
}

impl From<Status> for ClientError {
    fn from(err: Status) -> (out: ClientError) {
        ClientError::Grpc { inner: err }
    }
}

impl vstd::std_specs::convert::FromSpecImpl<Status> for ClientError {
    open spec fn obeys_from_spec() -> bool {
        true
    }

    open spec fn from_spec(err: Status) -> ClientError {
        ClientError::Grpc { inner: err }
    }
}

impl From<TransportError> for ClientError {
    fn from(err: TransportError) -> (out: ClientError) {
        ClientError::Transport { inner: err }
    }
}

impl vstd::std_specs::convert::FromSpecImpl<TransportError> for ClientError {
    open spec fn obeys_from_spec() -> bool {
        true
    }

    open spec fn from_spec(err: TransportError) -> ClientError {
        ClientError::Transport { inner: err }
    }
}

} // verus!
