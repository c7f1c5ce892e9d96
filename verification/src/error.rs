//! Error types for the Wyoming wire protocol.

use vstd::prelude::*;
use vstd::string::*;
use crate::json;
use crate::json::{Json, JsonView};
use crate::text;

verus! {

/// Which I/O operation within the wire protocol failed.
#[derive(Debug, Clone, Copy, PartialEq, Eq, Structural)]
pub enum IoStage {
    /// Reading the newline-terminated header line.
    ReadHeader,
    /// Reading the extended-data JSON segment.
    ReadData,
    /// Reading the binary payload segment.
    ReadPayload,
    /// Writing the header line.
    WriteHeader,
    /// Writing the extended-data JSON segment.
    WriteData,
    /// Writing the binary payload segment.
    WritePayload,
    /// Flushing the writer after a complete event.
    Flush,
}

impl IoStage {
    /// The words that name a stage.
    pub open spec fn words(self) -> Seq<char> {
        match self {
            IoStage::ReadHeader => "header read"@,
            IoStage::ReadData => "data read"@,
            IoStage::ReadPayload => "payload read"@,
            IoStage::WriteHeader => "header write"@,
            IoStage::WriteData => "data write"@,
            IoStage::WritePayload => "payload write"@,
            IoStage::Flush => "flush"@,
        }
    }

    /// Names the stage, as in "header read".
    pub fn label(self) -> (r: &'static str)
        ensures
            r@ == self.words(),
            self is ReadHeader ==> r@ == "header read"@,
            self is ReadData ==> r@ == "data read"@,
            self is ReadPayload ==> r@ == "payload read"@,
            self is WriteHeader ==> r@ == "header write"@,
            self is WriteData ==> r@ == "data write"@,
            self is WritePayload ==> r@ == "payload write"@,
            self is Flush ==> r@ == "flush"@,
    {
        match self {
            IoStage::ReadHeader => "header read",
            IoStage::ReadData => "data read",
            IoStage::ReadPayload => "payload read",
            IoStage::WriteHeader => "header write",
            IoStage::WriteData => "data write",
            IoStage::WritePayload => "payload write",
            IoStage::Flush => "flush",
        }
    }
}

/// The word for the type of a JSON value.
pub open spec fn kind_word(value: JsonView) -> Seq<char> {
    match value {
        JsonView::Null => "null"@,
        JsonView::Bool(_) => "bool"@,
        JsonView::Unsigned(_) => "number"@,
        JsonView::Negative(_) => "number"@,
        JsonView::Decimal(_) => "number"@,
        JsonView::Text(_) => "string"@,
        JsonView::Array(_) => "array"@,
        JsonView::Object(_) => "object"@,
    }
}

/// Returns a human-readable label for a JSON value's type.
pub fn value_kind(value: &Json) -> (r: &'static str)
    ensures
        r@ == kind_word(value@),
        value is Null ==> r@ == "null"@,
        value is Bool ==> r@ == "bool"@,
        value is Unsigned || value is Negative || value is Decimal ==> r@ == "number"@,
        value is Text ==> r@ == "string"@,
        value is Array ==> r@ == "array"@,
        value is Object ==> r@ == "object"@,
{
    match value {
        Json::Null => "null",
        Json::Bool(_) => "bool",
        Json::Unsigned(_) => "number",
        Json::Negative(_) => "number",
        Json::Decimal(_) => "number",
        Json::Text(_) => "string",
        Json::Array(_) => "array",
        Json::Object(_) => "object",
    }
}

/// Errors that can occur while reading or writing Wyoming protocol events.
///
/// Each variant corresponds to a distinct failure mode in the wire protocol,
/// so callers can react to specific failures without string-matching.
#[derive(Debug)]
pub enum ProtocolError {
    /// An I/O error occurred while reading from or writing to the transport.
    Io {
        /// What the transport reported.
        source: String,
        /// Which protocol stage the error occurred in.
        stage: IoStage,
    },
    /// The header line exceeded the maximum allowed length.
    HeaderTooLong {
        /// The maximum allowed header length in bytes.
        max: usize,
    },
    /// The header line contained invalid UTF-8, for the given reason.
    HeaderNotUtf8(String),
    /// The header line was valid UTF-8 but not a valid JSON header, for the given
    /// reason.
    HeaderInvalidJson(String),
    /// The declared `data_length` exceeds the maximum allowed value.
    DataLengthExceeded {
        /// The declared data length.
        length: usize,
        /// The maximum allowed data length.
        max: usize,
    },
    /// The declared `payload_length` exceeds the maximum allowed value.
    PayloadLengthExceeded {
        /// The declared payload length.
        length: usize,
        /// The maximum allowed payload length.
        max: usize,
    },
    /// A `data` value (inline or external) was not a JSON object.
    NonObjectData(Json),
    /// The data dict is not JSON, or did not match the schema expected for the
    /// event type, for the given reason.
    InvalidEventData(String),
    /// Serialization of an event's data dict or header failed, for the given
    /// reason.
    Serialization(String),
}

/// The content of a [`ProtocolError`].
pub enum ErrorView {
    Io { source: Seq<char>, stage: IoStage },
    HeaderTooLong { max: int },
    HeaderNotUtf8(Seq<char>),
    HeaderInvalidJson(Seq<char>),
    DataLengthExceeded { length: int, max: int },
    PayloadLengthExceeded { length: int, max: int },
    NonObjectData(JsonView),
    InvalidEventData(Seq<char>),
    Serialization(Seq<char>),
}

impl View for ProtocolError {
    type V = ErrorView;

    open spec fn view(&self) -> ErrorView {
        match *self {
            ProtocolError::Io { source, stage } => ErrorView::Io { source: source@, stage },
            ProtocolError::HeaderTooLong { max } => ErrorView::HeaderTooLong { max: max as int },
            ProtocolError::HeaderNotUtf8(reason) => ErrorView::HeaderNotUtf8(reason@),
            ProtocolError::HeaderInvalidJson(reason) => ErrorView::HeaderInvalidJson(reason@),
            ProtocolError::DataLengthExceeded { length, max } => ErrorView::DataLengthExceeded {
                length: length as int,
                max: max as int,
            },
            ProtocolError::PayloadLengthExceeded { length, max } => {
                ErrorView::PayloadLengthExceeded { length: length as int, max: max as int }
            },
            ProtocolError::NonObjectData(value) => ErrorView::NonObjectData(value@),
            ProtocolError::InvalidEventData(reason) => ErrorView::InvalidEventData(reason@),
            ProtocolError::Serialization(reason) => ErrorView::Serialization(reason@),
        }
    }
}

/// The message for an error.
pub open spec fn message_text(error: ErrorView) -> Seq<char> {
    match error {
        ErrorView::Io { source, stage } => "I/O error during "@ + stage.words() + ": "@ + source,
        ErrorView::HeaderTooLong { max } => "header line exceeds maximum length of "@
            + text::decimal(max as nat) + " bytes"@,
        ErrorView::HeaderNotUtf8(reason) => "header is not valid UTF-8: "@ + reason,
        ErrorView::HeaderInvalidJson(reason) => "header is not valid JSON: "@ + reason,
        ErrorView::DataLengthExceeded { length, max } => "event data_length "@ + text::decimal(
            length as nat,
        ) + " exceeds maximum of "@ + text::decimal(max as nat),
        ErrorView::PayloadLengthExceeded { length, max } => "event payload_length "@
            + text::decimal(length as nat) + " exceeds maximum of "@ + text::decimal(max as nat),
        ErrorView::NonObjectData(value) => "expected event data to be a JSON object, got "@
            + kind_word(value),
        ErrorView::InvalidEventData(reason) => "invalid event data: "@ + reason,
        ErrorView::Serialization(reason) => "event serialization failed: "@ + reason,
    }
}

impl ProtocolError {
    /// The message for this error.
    pub fn message(&self) -> (r: String)
        ensures
            r@ == message_text(self@),
            match self {
                ProtocolError::Io { source, stage } => r@ == "I/O error during "@ + stage.words()
                    + ": "@ + source@,
                ProtocolError::HeaderTooLong { max } => r@
                    == "header line exceeds maximum length of "@ + text::decimal(*max as nat)
                    + " bytes"@,
                ProtocolError::HeaderNotUtf8(reason) => r@ == "header is not valid UTF-8: "@
                    + reason@,
                ProtocolError::HeaderInvalidJson(reason) => r@ == "header is not valid JSON: "@
                    + reason@,
                ProtocolError::DataLengthExceeded { length, max } => r@ == "event data_length "@
                    + text::decimal(*length as nat) + " exceeds maximum of "@ + text::decimal(
                    *max as nat,
                ),
                ProtocolError::PayloadLengthExceeded { length, max } => r@
                    == "event payload_length "@ + text::decimal(*length as nat)
                    + " exceeds maximum of "@ + text::decimal(*max as nat),
                ProtocolError::NonObjectData(value) => r@
                    == "expected event data to be a JSON object, got "@ + kind_word(value@),
                ProtocolError::InvalidEventData(reason) => r@ == "invalid event data: "@ + reason@,
                ProtocolError::Serialization(reason) => r@ == "event serialization failed: "@
                    + reason@,
            },
    {
        let mut r = String::new();
        match self {
            ProtocolError::Io { source, stage } => {
                r.append("I/O error during ");
                r.append(stage.label());
                r.append(": ");
                r.append(source.as_str());
            },
            ProtocolError::HeaderTooLong { max } => {
                r.append("header line exceeds maximum length of ");
                r.append(text::to_decimal(*max as u64).as_str());
                r.append(" bytes");
            },
            ProtocolError::HeaderNotUtf8(reason) => {
                r.append("header is not valid UTF-8: ");
                r.append(reason.as_str());
            },
            ProtocolError::HeaderInvalidJson(reason) => {
                r.append("header is not valid JSON: ");
                r.append(reason.as_str());
            },
            ProtocolError::DataLengthExceeded { length, max } => {
                r.append("event data_length ");
                r.append(text::to_decimal(*length as u64).as_str());
                r.append(" exceeds maximum of ");
                r.append(text::to_decimal(*max as u64).as_str());
            },
            ProtocolError::PayloadLengthExceeded { length, max } => {
                r.append("event payload_length ");
                r.append(text::to_decimal(*length as u64).as_str());
                r.append(" exceeds maximum of ");
                r.append(text::to_decimal(*max as u64).as_str());
            },
            ProtocolError::NonObjectData(value) => {
                r.append("expected event data to be a JSON object, got ");
                r.append(value_kind(value));
            },
            ProtocolError::InvalidEventData(reason) => {
                r.append("invalid event data: ");
                r.append(reason.as_str());
            },
            ProtocolError::Serialization(reason) => {
                r.append("event serialization failed: ");
                r.append(reason.as_str());
            },
        }
        proof {
            assert(r@ == message_text(self@));
        }
        r
    }
}

} // verus!
