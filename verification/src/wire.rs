//! The Wyoming wire framing: a newline-terminated JSON header line, an optional
//! extended-data JSON segment, and an optional binary payload segment.
//!
//! [`write_event`] lays an event out as bytes. [`read_event`] reads one event
//! from the bytes of a stream. A transport that receives its bytes piece by
//! piece goes through the same steps one at a time: [`take_line`] until the
//! header line is complete, [`open_frame`], [`Frame::accept_data`],
//! [`Frame::payload_needed`] and [`Frame::finish`].

use vstd::prelude::*;
use vstd::string::*;
use vstd::utf8::*;
use crate::error::{ErrorView, IoStage, ProtocolError};
use crate::event;
use crate::event::{Event, EventView};
use crate::header;
use crate::json;
use crate::json::{Json, JsonView};
use crate::text;

verus! {

broadcast use {json::lemma_array_view, json::lemma_object_view};

/// Protocol version string included in every outgoing header.
///
/// Purely informational -- the reader does not interpret it.
pub const VERSION: &'static str = "0.1.0";

/// Maximum accepted length of the JSON header line, in bytes.
///
/// Guards against a peer that never sends a newline, which would otherwise grow
/// the header buffer without bound.
pub const MAX_HEADER_LINE: usize = 65536;

/// Maximum accepted value of a header's `data_length`, in bytes.
pub const MAX_DATA_LENGTH: usize = 1048576;

/// Maximum accepted value of a header's `payload_length`, in bytes.
pub const MAX_PAYLOAD_LENGTH: usize = 10485760;

/// What a transport reports when the stream ends within a segment.
pub const EARLY_EOF: &'static str = "early eof";

/// The length of the first line of `input`, its newline included; the whole
/// length where there is no newline.
pub open spec fn line_length(input: Seq<u8>) -> int
    decreases input.len(),
{
    if input.len() == 0 {
        0
    } else if input[0] == 10 {
        1
    } else {
        1 + line_length(input.drop_first())
    }
}

/// What a header line says.
pub struct HeaderView {
    pub event_type: Seq<char>,
    pub data_length: int,
    pub payload_length: int,
    pub data: Option<JsonView>,
}

/// A length given in a header; `null` and absence stand for none.
pub open spec fn length_field(value: Option<JsonView>) -> Option<int> {
    match value {
        None => Some(0),
        Some(JsonView::Null) => Some(0),
        Some(JsonView::Unsigned(n)) => if n <= usize::MAX {
            Some(n as int)
        } else {
            None
        },
        _ => None,
    }
}

/// The data given in a header; `null` and absence stand for none.
pub open spec fn inline_field(value: Option<JsonView>) -> Option<JsonView> {
    match value {
        None => None,
        Some(JsonView::Null) => None,
        Some(data) => Some(data),
    }
}

/// The header that a JSON value describes, if it does.
pub open spec fn header_from(value: JsonView) -> Option<HeaderView> {
    let event_type = event::text_field(event::slot(value, 0, "type"@));
    let version = event::optional_text(event::slot(value, 1, "version"@));
    let data_length = length_field(event::slot(value, 2, "data_length"@));
    let payload_length = length_field(event::slot(value, 3, "payload_length"@));
    if event::is_record(value, 5) && event_type is Some && version is Some && data_length is Some
        && payload_length is Some {
        Some(
            HeaderView {
                event_type: event_type->0,
                data_length: data_length->0,
                payload_length: payload_length->0,
                data: inline_field(event::slot(value, 4, "data"@)),
            },
        )
    } else {
        None
    }
}

/// A message whose header has been read.
pub struct FrameView {
    pub event_type: Seq<char>,
    pub fields: Seq<(Seq<char>, JsonView)>,
    pub data_length: int,
    pub payload_length: int,
}

/// The message that a header opens: its inline data has to be an object, and
/// its data segment must not be too long.
pub open spec fn frame_from(header: HeaderView) -> Result<FrameView, ErrorView> {
    match header.data {
        Some(JsonView::Object(fields)) => checked_frame(header, fields),
        Some(other) => Err(ErrorView::NonObjectData(other)),
        None => checked_frame(header, Seq::empty()),
    }
}

/// The message with the given inline data, if its data segment is not too long.
pub open spec fn checked_frame(
    header: HeaderView,
    fields: Seq<(Seq<char>, JsonView)>,
) -> Result<FrameView, ErrorView> {
    if header.data_length > MAX_DATA_LENGTH {
        Err(
            ErrorView::DataLengthExceeded {
                length: header.data_length,
                max: MAX_DATA_LENGTH as int,
            },
        )
    } else {
        Ok(
            FrameView {
                event_type: header.event_type,
                fields,
                data_length: header.data_length,
                payload_length: header.payload_length,
            },
        )
    }
}

/// The text of a header line without its newline and trailing whitespace.
pub open spec fn header_text(line: Seq<u8>) -> Seq<u8> {
    encode_utf8(text::trimmed_end(decode_utf8(line)))
}

/// The message that a header line opens. A header that gives a field twice is
/// malformed; what else it holds is skipped.
pub open spec fn frame_of_line(line: Seq<u8>) -> Result<FrameView, ErrorView> {
    let text = header_text(line);
    if !valid_utf8(line) {
        Err(ErrorView::HeaderNotUtf8(text::utf8_reason(line)))
    } else {
        match json::record_of(text, header::header_names()) {
            None => Err(ErrorView::HeaderInvalidJson(header::reason_of(text))),
            Some(value) => match header_from(value) {
                None => Err(ErrorView::HeaderInvalidJson(header::reason_of(text))),
                Some(header) => frame_from(header),
            },
        }
    }
}

/// The message once its data segment has been read: the data is merged on top
/// of the inline data.
pub open spec fn with_data(frame: FrameView, data: Seq<u8>) -> Result<FrameView, ErrorView> {
    match json::json_parsed(data) {
        Err(reason) => Err(ErrorView::InvalidEventData(reason)),
        Ok(JsonView::Object(fields)) => Ok(
            FrameView { fields: json::merged(frame.fields, fields), ..frame },
        ),
        Ok(other) => Err(ErrorView::NonObjectData(other)),
    }
}

/// The length of the payload segment, if it is not too long.
pub open spec fn payload_limit(frame: FrameView) -> Result<int, ErrorView> {
    if frame.payload_length > MAX_PAYLOAD_LENGTH {
        Err(
            ErrorView::PayloadLengthExceeded {
                length: frame.payload_length,
                max: MAX_PAYLOAD_LENGTH as int,
            },
        )
    } else {
        Ok(frame.payload_length)
    }
}

/// The merged data as one value: no members at all stand for no data.
pub open spec fn frame_data(fields: Seq<(Seq<char>, JsonView)>) -> JsonView {
    if fields.len() == 0 {
        JsonView::Null
    } else {
        JsonView::Object(fields)
    }
}

/// The event that a message carries.
pub open spec fn frame_event(frame: FrameView, payload: Option<Seq<u8>>) -> Result<
    EventView,
    ErrorView,
> {
    match event::event_from(frame.event_type, frame_data(frame.fields), payload) {
        Some(event) => Ok(event),
        None => Err(
            ErrorView::InvalidEventData(
                event::data_refused(frame.event_type, frame_data(frame.fields))->0,
            ),
        ),
    }
}

/// What reading one event from a stream gives.
pub enum Outcome {
    /// The stream ended at a message boundary.
    End,
    /// An event, and the number of bytes it took.
    Event { event: EventView, used: int },
    /// The stream is malformed.
    Failed(ErrorView),
}

/// What is read from the bytes that follow the header line and the data
/// segment.
pub open spec fn payload_outcome(frame: FrameView, rest: Seq<u8>, used: int) -> Outcome {
    match payload_limit(frame) {
        Err(e) => Outcome::Failed(e),
        Ok(n) => if n > rest.len() {
            Outcome::Failed(
                ErrorView::Io { source: EARLY_EOF@, stage: IoStage::ReadPayload },
            )
        } else {
            let payload = if n > 0 {
                Some(rest.take(n))
            } else {
                None
            };
            match frame_event(frame, payload) {
                Ok(event) => Outcome::Event { event, used: used + n },
                Err(e) => Outcome::Failed(e),
            }
        },
    }
}

/// What is read from the bytes that follow the header line.
pub open spec fn data_outcome(frame: FrameView, rest: Seq<u8>, used: int) -> Outcome {
    let n = frame.data_length;
    if n <= 0 {
        payload_outcome(frame, rest, used)
    } else if n > rest.len() {
        Outcome::Failed(ErrorView::Io { source: EARLY_EOF@, stage: IoStage::ReadData })
    } else {
        match with_data(frame, rest.take(n)) {
            Err(e) => Outcome::Failed(e),
            Ok(frame) => payload_outcome(frame, rest.skip(n), used + n),
        }
    }
}

/// What is read from a stream that holds the bytes `input` and then ends.
pub open spec fn read_outcome(input: Seq<u8>) -> Outcome {
    let n = line_length(input);
    if n > MAX_HEADER_LINE {
        Outcome::Failed(ErrorView::HeaderTooLong { max: MAX_HEADER_LINE as int })
    } else if n == 0 {
        Outcome::End
    } else {
        match frame_of_line(input.take(n)) {
            Err(e) => Outcome::Failed(e),
            Ok(frame) => data_outcome(frame, input.skip(n), n),
        }
    }
}

/// A line ends at its first newline.
pub proof fn lemma_line_length(input: Seq<u8>, n: int)
    requires
        0 <= n <= input.len(),
        forall|k: int| 0 <= k < n - 1 ==> input[k] != 10,
        n < input.len() ==> n > 0,
        n > 0 && (n < input.len() || input[n - 1] == 10) ==> input[n - 1] == 10,
    ensures
        line_length(input) == n,
    decreases input.len(),
{
    if input.len() > 0 {
        if input[0] == 10 {
            assert(n == 1);
        } else {
            let rest = input.drop_first();
            assert(n > 1 || input.len() == 1);
            assert forall|k: int| 0 <= k < n - 2 implies rest[k] != 10 by {
                assert(rest[k] == input[k + 1]);
            }
            if n > 1 {
                assert(rest[n - 2] == input[n - 1]);
                lemma_line_length(rest, n - 1);
            } else {
                lemma_line_length(rest, 0);
            }
        }
    }
}

/// Bytes without a newline put before a stream belong to its first line; so a
/// line may be read in pieces.
pub proof fn law_line_pieces(seen: Seq<u8>, more: Seq<u8>)
    requires
        forall|k: int| 0 <= k < seen.len() ==> seen[k] != 10,
    ensures
        line_length(seen + more) == seen.len() + line_length(more),
    decreases seen.len(),
{
    if seen.len() == 0 {
        assert(seen + more == more);
    } else {
        assert((seen + more).drop_first() == seen.drop_first() + more);
        law_line_pieces(seen.drop_first(), more);
    }
}

/// How far a header line has been read.
#[derive(Debug, Clone, Copy, PartialEq, Eq, Structural)]
pub enum LineProgress {
    /// The newline has not been seen yet.
    Incomplete,
    /// The line is complete.
    Complete,
    /// More bytes than allowed came without a newline.
    TooLong,
}

/// Takes from `available`, the next bytes of a stream, what belongs to the line
/// collected in `buf`, and says how many bytes that were. No bytes available
/// means that the stream has ended.
///
/// `buf` never grows past one piece beyond `max_len` in response to a peer that
/// withholds the newline.
pub fn take_line(buf: &mut Vec<u8>, available: &[u8], max_len: usize) -> (r: (usize, LineProgress))
    requires
        forall|k: int| 0 <= k < old(buf)@.len() ==> old(buf)@[k] != 10,
    ensures
        r.0 <= available@.len(),
        final(buf)@ == old(buf)@ + available@.take(r.0 as int),
        r.0 == line_length(available@),
        final(buf)@.len() == line_length(old(buf)@ + available@),
        r.1 == (if final(buf)@.len() > max_len {
            LineProgress::TooLong
        } else if available@.len() == 0 || final(buf)@.last() == 10 {
            LineProgress::Complete
        } else {
            LineProgress::Incomplete
        }),
        r.1 is Incomplete ==> forall|k: int| 0 <= k < final(buf)@.len() ==> final(buf)@[k] != 10,
{
    let mut n: usize = 0;
    let mut found: bool = available.len() == 0;
    while n < available.len() && !found
        invariant
            n <= available@.len(),
            buf@ == old(buf)@ + available@.take(n as int),
            available@.len() == 0 ==> found,
            available@.len() > 0 ==> (found <==> n > 0 && available@[n - 1] == 10),
            forall|k: int| 0 <= k < n - 1 ==> available@[k] != 10,
        decreases available@.len() - n, !found as int,
    {
        let b = available[n];
        buf.push(b);
        proof {
            assert(available@.take(n + 1) == available@.take(n as int).push(b));
        }
        n = n + 1;
        found = b == 10;
    }
    proof {
        lemma_line_length(available@, n as int);
        law_line_pieces(old(buf)@, available@);
        if n > 0 {
            assert(buf@.last() == available@[n - 1]);
        }
    }
    if buf.len() > max_len {
        (n, LineProgress::TooLong)
    } else if found {
        (n, LineProgress::Complete)
    } else {
        (n, LineProgress::Incomplete)
    }
}

/// A message whose header has been read.
#[derive(Debug)]
pub struct Frame {
    /// The event type string.
    pub event_type: String,
    /// The data read so far.
    pub fields: Vec<(String, Json)>,
    /// The length of the data segment still to be read; zero for none.
    pub data_length: usize,
    /// The declared length of the payload segment; zero for none.
    pub payload_length: usize,
}

impl View for Frame {
    type V = FrameView;

    open spec fn view(&self) -> FrameView {
        FrameView {
            event_type: self.event_type@,
            fields: json::fields_view(self.fields@),
            data_length: self.data_length as int,
            payload_length: self.payload_length as int,
        }
    }
}

/// Reads a length given in a header.
fn read_length(value: Option<&Json>) -> (r: Option<usize>)
    ensures
        length_field(
            match value {
                Some(v) => Some(v@),
                None => None,
            },
        ) == (match r {
            Some(n) => Some(n as int),
            None => None,
        }),
{
    match value {
        None => Some(0),
        Some(Json::Null) => Some(0),
        Some(Json::Unsigned(n)) => if *n <= usize::MAX as u64 {
            Some(*n as usize)
        } else {
            None
        },
        _ => None,
    }
}

/// Opens the message that a parsed header describes, if it describes one.
pub fn frame_of_header(value: &Json) -> (r: Option<Result<Frame, ProtocolError>>)
    ensures
        match r {
            Some(Ok(frame)) => header_from(value@) matches Some(header) && frame_from(header)
                == Ok::<FrameView, ErrorView>(frame@),
            Some(Err(e)) => header_from(value@) matches Some(header) && frame_from(header) == Err::<
                FrameView,
                ErrorView,
            >(e@),
            None => header_from(value@) is None,
        },
{
    let event_type = event::read_text(event::slot_of(value, 0, "type"));
    let version = event::read_optional_text(event::slot_of(value, 1, "version"));
    let data_length = read_length(event::slot_of(value, 2, "data_length"));
    let payload_length = read_length(event::slot_of(value, 3, "payload_length"));
    let inline = event::slot_of(value, 4, "data");
    if !event::record(value, 5) {
        return None;
    }
    match (event_type, version, data_length, payload_length) {
        (Some(event_type), Some(_), Some(data_length), Some(payload_length)) => {
            let fields: Vec<(String, Json)> = match inline {
                None => Vec::new(),
                Some(Json::Null) => Vec::new(),
                Some(Json::Object(fields)) => {
                    let mut own: Vec<(String, Json)> = Vec::new();
                    copy_fields(&mut own, fields);
                    own
                },
                Some(other) => {
                    return Some(Err(ProtocolError::NonObjectData(other.clone())));
                },
            };
            proof {
                if inline is None || inline->0@ is Null {
                    assert(json::fields_view(fields@) == Seq::<(Seq<char>, JsonView)>::empty());
                }
            }
            if data_length > MAX_DATA_LENGTH {
                return Some(
                    Err(
                        ProtocolError::DataLengthExceeded {
                            length: data_length,
                            max: MAX_DATA_LENGTH,
                        },
                    ),
                );
            }
            Some(Ok(Frame { event_type, fields, data_length, payload_length }))
        },
        _ => None,
    }
}

/// Appends copies of `fields` to `out`.
fn copy_fields(out: &mut Vec<(String, Json)>, fields: &Vec<(String, Json)>)
    ensures
        json::fields_view(final(out)@) == json::fields_view(old(out)@) + json::fields_view(fields@),
{
    let mut i: usize = 0;
    proof {
        assert(json::fields_view(out@) == json::fields_view(old(out)@) + json::fields_view(
            fields@,
        ).take(0));
    }
    while i < fields.len()
        invariant
            i <= fields@.len(),
            json::fields_view(out@) == json::fields_view(old(out)@) + json::fields_view(
                fields@,
            ).take(i as int),
        decreases fields@.len() - i,
    {
        let name = fields[i].0.clone();
        let value = fields[i].1.clone();
        let ghost before = json::fields_view(out@);
        out.push((name, value));
        proof {
            assert(json::fields_view(out@) == before.push((name@, value@)));
            assert(json::fields_view(fields@).take(i + 1) == json::fields_view(fields@).take(
                i as int,
            ).push(json::fields_view(fields@)[i as int]));
        }
        i = i + 1;
    }
    proof {
        assert(json::fields_view(fields@).take(i as int) == json::fields_view(fields@));
    }
}

/// Opens the message that a complete header line describes.
pub fn open_frame(line: Vec<u8>) -> (r: Result<Frame, ProtocolError>)
    ensures
        match r {
            Ok(frame) => frame_of_line(line@) == Ok::<FrameView, ErrorView>(frame@),
            Err(e) => frame_of_line(line@) == Err::<FrameView, ErrorView>(e@),
        },
{
    let line_text = match text::from_utf8(line) {
        Ok(s) => s,
        Err(e) => {
            return Err(ProtocolError::HeaderNotUtf8(e));
        },
    };
    let header = text::trim_end(line_text.as_str());
    let header_bytes = header.as_str().as_bytes();
    let known: Vec<&str> = vec!["type", "version", "data_length", "payload_length", "data"];
    proof {
        assert(json::names_view(known@) == header::header_names());
    }
    if let Some(value) = json::read_record(header_bytes, &known) {
        if let Some(frame) = frame_of_header(&value) {
            return frame;
        }
    }
    Err(ProtocolError::HeaderInvalidJson(header::header_error(header_bytes)))
}

impl Frame {
    /// Merges the bytes of the data segment on top of the inline data.
    pub fn accept_data(self, data: &[u8]) -> (r: Result<Frame, ProtocolError>)
        ensures
            match r {
                Ok(frame) => with_data(self@, data@) == Ok::<FrameView, ErrorView>(frame@),
                Err(e) => with_data(self@, data@) == Err::<FrameView, ErrorView>(e@),
            },
    {
        match json::parse(data) {
            Err(e) => Err(ProtocolError::InvalidEventData(e)),
            Ok(Json::Object(external)) => {
                let mut fields = self.fields;
                json::merge(&mut fields, external);
                Ok(
                    Frame {
                        event_type: self.event_type,
                        fields,
                        data_length: self.data_length,
                        payload_length: self.payload_length,
                    },
                )
            },
            Ok(other) => Err(ProtocolError::NonObjectData(other)),
        }
    }

    /// The length of the payload segment to read.
    pub fn payload_needed(&self) -> (r: Result<usize, ProtocolError>)
        ensures
            match r {
                Ok(n) => payload_limit(self@) == Ok::<int, ErrorView>(n as int),
                Err(e) => payload_limit(self@) == Err::<int, ErrorView>(e@),
            },
    {
        if self.payload_length > MAX_PAYLOAD_LENGTH {
            Err(
                ProtocolError::PayloadLengthExceeded {
                    length: self.payload_length,
                    max: MAX_PAYLOAD_LENGTH,
                },
            )
        } else {
            Ok(self.payload_length)
        }
    }

    /// Builds the event, from the data read and the payload.
    pub fn finish(self, payload: Option<Vec<u8>>) -> (r: Result<Event, ProtocolError>)
        ensures
            match r {
                Ok(event) => frame_event(self@, event::opt_bytes(payload)) == Ok::<
                    EventView,
                    ErrorView,
                >(event@),
                Err(e) => frame_event(self@, event::opt_bytes(payload)) == Err::<
                    EventView,
                    ErrorView,
                >(e@),
            },
    {
        let data = if self.fields.len() == 0 {
            Json::Null
        } else {
            Json::Object(self.fields)
        };
        Event::from_wire(self.event_type.as_str(), data, payload)
    }
}

/// A copy of the bytes `input[from..to]`.
fn copy_bytes(input: &[u8], from: usize, to: usize) -> (r: Vec<u8>)
    requires
        from <= to <= input@.len(),
    ensures
        r@ == input@.subrange(from as int, to as int),
{
    let mut r: Vec<u8> = Vec::new();
    let mut i: usize = from;
    while i < to
        invariant
            from <= i <= to <= input@.len(),
            r@ == input@.subrange(from as int, i as int),
        decreases to - i,
    {
        r.push(input[i]);
        proof {
            assert(input@.subrange(from as int, i + 1) == input@.subrange(
                from as int,
                i as int,
            ).push(input@[i as int]));
        }
        i = i + 1;
    }
    r
}

/// Reads a single event from `input`, the bytes of a stream up to its end, and
/// says how many bytes the event took.
///
/// Returns `Ok(None)` when the stream is closed cleanly at a message boundary.
/// Returns `Err` for malformed headers and for truncated data or payload
/// segments.
///
/// 1. Reads one newline-terminated JSON header line.
/// 2. If `data_length` is present and non-zero, reads that many bytes as a UTF-8
///    JSON object. If the header line also carried an inline `data` object, the
///    freshly read data is merged on top of it.
/// 3. If `payload_length` is present and non-zero, reads that many raw bytes as
///    the binary payload.
/// 4. Dispatches on the type string to build the corresponding [`Event`].
pub fn read_event(input: &[u8]) -> (r: Result<Option<(Event, usize)>, ProtocolError>)
    ensures
        match r {
            Ok(Some((event, used))) => read_outcome(input@) == (Outcome::Event {
                event: event@,
                used: used as int,
            }),
            Ok(None) => read_outcome(input@) is End,
            Err(e) => read_outcome(input@) == Outcome::Failed(e@),
        },
{
    let mut line: Vec<u8> = Vec::new();
    let (n, progress) = take_line(&mut line, input, MAX_HEADER_LINE);
    proof {
        assert(Seq::<u8>::empty() + input@ == input@);
        assert(line@ == input@.take(n as int));
    }
    if let LineProgress::TooLong = progress {
        return Err(ProtocolError::HeaderTooLong { max: MAX_HEADER_LINE });
    }
    if n == 0 {
        return Ok(None);
    }
    let mut frame = match open_frame(line) {
        Ok(frame) => frame,
        Err(e) => {
            return Err(e);
        },
    };
    let mut used: usize = n;
    let wanted: usize = frame.data_length;
    if wanted > 0 {
        if wanted > input.len() - used {
            return Err(
                ProtocolError::Io { source: String::from_str(EARLY_EOF), stage: IoStage::ReadData },
            );
        }
        let data = copy_bytes(input, used, used + wanted);
        proof {
            assert(data@ == input@.skip(n as int).take(wanted as int));
            assert(input@.skip(n as int).skip(wanted as int) == input@.skip(n + wanted));
        }
        frame = match frame.accept_data(data.as_slice()) {
            Ok(frame) => frame,
            Err(e) => {
                return Err(e);
            },
        };
        used = used + wanted;
    }
    let length: usize = match frame.payload_needed() {
        Ok(length) => length,
        Err(e) => {
            return Err(e);
        },
    };
    if length > input.len() - used {
        return Err(
            ProtocolError::Io { source: String::from_str(EARLY_EOF), stage: IoStage::ReadPayload },
        );
    }
    let payload = if length > 0 {
        Some(copy_bytes(input, used, used + length))
    } else {
        None
    };
    proof {
        if length > 0 {
            assert(payload->0@ == input@.skip(used as int).take(length as int));
        }
    }
    match frame.finish(payload) {
        Ok(event) => Ok(Some((event, used + length))),
        Err(e) => Err(e),
    }
}

/// The length of an optional segment.
pub open spec fn segment_length(segment: Option<Seq<u8>>) -> Option<u64> {
    match segment {
        Some(bytes) => Some(bytes.len() as u64),
        None => None,
    }
}

/// The header of an event with the given segments, as a JSON value.
pub open spec fn header_value(
    event_type: Seq<char>,
    data: Option<Seq<u8>>,
    payload: Option<Seq<u8>>,
) -> JsonView {
    JsonView::Object(
        json::one("type"@, JsonView::Text(event_type)) + json::one(
            "version"@,
            JsonView::Text(VERSION@),
        ) + json::maybe("data_length"@, event::number_value(segment_length(data))) + json::maybe(
            "payload_length"@,
            event::number_value(segment_length(payload)),
        ),
    )
}

/// The bytes of an event's data segment.
pub open spec fn data_segment(event: EventView) -> Option<Seq<u8>> {
    match event::sent_data(event) {
        Some(value) => Some(json::json_text(value)),
        None => None,
    }
}

/// The bytes of an event's header, without the newline.
pub open spec fn header_bytes(event: EventView) -> Seq<u8> {
    json::json_text(
        header_value(event::type_of(event), data_segment(event), event::payload_of(event)),
    )
}

/// The bytes of an event on the wire.
pub open spec fn event_bytes(event: EventView) -> Seq<u8> {
    header_bytes(event) + seq![10u8] + event::payload_bytes(data_segment(event))
        + event::payload_bytes(event::payload_of(event))
}

/// The length of a type string up to which a header keeps to its limit.
pub const SHORT_TYPE: usize = 10000;

/// An event that a reader accepts as it was sent: its header line and its
/// segments keep to the limits, and its content survives the wire. A header
/// line keeps to the limit unless the type string is very long.
pub open spec fn deliverable(event: EventView) -> bool {
    &&& event::survives(event)
    &&& event::exact_event(event)
    &&& event::type_of(event).len() <= SHORT_TYPE || header_bytes(event).len() + 1
        <= MAX_HEADER_LINE
    &&& event::payload_bytes(data_segment(event)).len() <= MAX_DATA_LENGTH
    &&& event::payload_bytes(event::payload_of(event)).len() <= MAX_PAYLOAD_LENGTH
}

/// Reading `bytes` from a stream gives `event`, whatever follows them, and
/// leaves what follows.
pub open spec fn reads_as(bytes: Seq<u8>, event: EventView) -> bool {
    forall|rest: Seq<u8>|
        #[trigger] read_outcome(bytes + rest) == (Outcome::Event {
            event,
            used: bytes.len() as int,
        })
}

/// A typed event that keeps its segments to the limits is delivered, and comes
/// back as it was; the descriptors of an `info` event have to be exact.
pub proof fn law_typed_delivered(event: EventView)
    requires
        !(event is Unknown),
        event is Info ==> event::exact_event(event),
        event::payload_bytes(data_segment(event)).len() <= MAX_DATA_LENGTH,
        event::payload_bytes(event::payload_of(event)).len() <= MAX_PAYLOAD_LENGTH,
    ensures
        deliverable(event),
        event::read_back(event) == event,
{
    event::lemma_type_length(event);
}

/// All the events that are read from a stream that holds the bytes `input` and
/// then ends, and how reading ended.
pub open spec fn read_all(input: Seq<u8>) -> (Seq<EventView>, Outcome)
    decreases input.len(),
{
    match read_outcome(input) {
        Outcome::Event { event, used } if 0 < used <= input.len() => {
            let (later, end) = read_all(input.skip(used));
            (seq![event] + later, end)
        },
        end => (Seq::empty(), end),
    }
}

/// The bytes of some events, back to back.
pub open spec fn all_bytes(events: Seq<EventView>) -> Seq<u8>
    decreases events.len(),
{
    if events.len() == 0 {
        Seq::empty()
    } else {
        event_bytes(events[0]) + all_bytes(events.drop_first())
    }
}

/// Events written back to back are read back in order, and then the stream ends
/// cleanly. That each one by itself is read back is what [`write_event`] states
/// of it.
pub proof fn law_back_to_back(events: Seq<EventView>)
    requires
        forall|i: int|
            0 <= i < events.len() ==> reads_as(
                event_bytes(#[trigger] events[i]),
                event::read_back(events[i]),
            ),
    ensures
        read_all(all_bytes(events)) == (
            events.map_values(|e: EventView| event::read_back(e)),
            Outcome::End,
        ),
    decreases events.len(),
{
    let input = all_bytes(events);
    if events.len() == 0 {
        assert(read_outcome(input) is End);
        assert(events.map_values(|e: EventView| event::read_back(e)) == Seq::<EventView>::empty());
    } else {
        let first = event_bytes(events[0]);
        let rest = events.drop_first();
        assert forall|i: int| 0 <= i < rest.len() implies reads_as(
            event_bytes(#[trigger] rest[i]),
            event::read_back(rest[i]),
        ) by {
            assert(rest[i] == events[i + 1]);
        }
        law_back_to_back(rest);
        assert(reads_as(first, event::read_back(events[0])));
        assert(read_outcome(first + all_bytes(rest)) == (Outcome::Event {
            event: event::read_back(events[0]),
            used: first.len() as int,
        }));
        assert(input.skip(first.len() as int) == all_bytes(rest));
        assert(events.map_values(|e: EventView| event::read_back(e)) == seq![
            event::read_back(events[0]),
        ] + rest.map_values(|e: EventView| event::read_back(e)));
    }
}

/// The header names differ from one another.
proof fn lemma_header_names()
    ensures
        "type"@.len() == 4,
        "version"@.len() == 7,
        "data_length"@.len() == 11,
        "payload_length"@.len() == 14,
        "data"@.len() == 4,
        "type"@ != "data"@,
{
    reveal_strlit("type");
    reveal_strlit("version");
    reveal_strlit("data_length");
    reveal_strlit("payload_length");
    reveal_strlit("data");
    assert("type"@[0] != "data"@[0]);
}

/// The header of an event is exact, and says what went into it.
proof fn lemma_header_value(
    event_type: Seq<char>,
    data: Option<Seq<u8>>,
    payload: Option<Seq<u8>>,
)
    requires
        event::payload_bytes(data).len() <= usize::MAX,
        event::payload_bytes(payload).len() <= usize::MAX,
    ensures
        json::exact(header_value(event_type, data, payload), json::MAX_NESTING as nat),
        json::all_plain(header_value(event_type, data, payload)->Object_0),
        json::all_known(header_value(event_type, data, payload), header::header_names()),
        json::object_size(header_value(event_type, data, payload)->Object_0) <= 6 * event_type.len()
            + 1000,
        header_from(header_value(event_type, data, payload)) == Some(
            HeaderView {
                event_type,
                data_length: event::payload_bytes(data).len() as int,
                payload_length: event::payload_bytes(payload).len() as int,
                data: None,
            },
        ),
{
    broadcast use json::group_member;

    lemma_header_names();
    reveal_with_fuel(json::exact, 2);
    let names = header::header_names();
    assert(names[0] == "type"@ && names[1] == "version"@ && names[2] == "data_length"@ && names[3]
        == "payload_length"@);
    let d = event::number_value(segment_length(data));
    let p = event::number_value(segment_length(payload));
    let a = json::one("type"@, JsonView::Text(event_type));
    let b = a + json::one("version"@, JsonView::Text(VERSION@));
    let c = b + json::maybe("data_length"@, d);
    json::lemma_distinct_one(a, "version"@, JsonView::Text(VERSION@));
    json::lemma_distinct_maybe(b, "data_length"@, d);
    json::lemma_distinct_maybe(c, "payload_length"@, p);
    reveal_strlit("0.1.0");
    reveal_with_fuel(json::object_size, 5);
    let all = c + json::maybe("payload_length"@, p);
    assert(json::object_size(b) <= 6 * event_type.len() + 500) by {
        assert(b.drop_last() == a);
        assert(a.drop_last() == Seq::<(Seq<char>, JsonView)>::empty());
    }
    assert(json::object_size(c) <= json::object_size(b) + 200) by {
        if d is Some {
            assert(c.drop_last() == b);
        } else {
            assert(c == b);
        }
    }
    assert(json::object_size(all) <= json::object_size(c) + 200) by {
        if p is Some {
            assert(all.drop_last() == c);
        } else {
            assert(all == c);
        }
    }
}

/// The text of a header line is the header, without the newline after it.
proof fn lemma_header_line(header: Seq<u8>)
    requires
        valid_utf8(header),
        header.len() > 0,
        header.last() == 125u8,
    ensures
        valid_utf8(header + seq![10u8]),
        header_text(header + seq![10u8]) == header,
{
    let newline = seq![10u8];
    let brace = seq![125u8];
    reveal_with_fuel(valid_utf8, 2);
    reveal_with_fuel(decode_utf8, 2);
    assert(pop_first_scalar(newline) == Seq::<u8>::empty());
    assert(pop_first_scalar(brace) == Seq::<u8>::empty());
    assert(valid_utf8(newline));
    assert(valid_utf8(brace));
    valid_utf8_concat(header, newline);
    let line = header + newline;
    let n = header.len() as int;
    assert(!is_continuation_byte(line[n]));
    is_char_boundary_iff_not_is_continuation_byte(line, n);
    decode_utf8_split(line, n);
    assert(line.subrange(0, n) == header);
    assert(line.subrange(n, n + 1) == newline);
    assert(10u8 & 0x7f == 10u8) by (bit_vector);
    assert(125u8 & 0x7f == 125u8) by (bit_vector);
    assert(decode_utf8(newline) == seq![10u8 as char]);
    assert(!is_continuation_byte(header[n - 1]));
    is_char_boundary_iff_not_is_continuation_byte(header, n - 1);
    decode_utf8_split(header, n - 1);
    assert(header.subrange(n - 1, n) == brace);
    assert(decode_utf8(brace) == seq![125u8 as char]);
    let chars = decode_utf8(header);
    assert(chars.last() == 125u8 as char);
    let whole = decode_utf8(line);
    assert(whole == chars + seq![10u8 as char]);
    assert(whole.last() == 10u8 as char);
    assert(whole.drop_last() == chars);
    assert(text::trimmed_end(whole) == text::trimmed_end(chars));
    assert(text::trimmed_end(chars) == chars);
    decode_utf8_encode_utf8(header);
}

/// A stream that begins with a written event yields that event, and leaves the
/// rest of the stream. The premises are what `serde_json` guarantees of the
/// header and the data that were written.
proof fn lemma_read_written(event: EventView, rest: Seq<u8>)
    requires
        deliverable(event),
        header_bytes(event).len() + 1 <= MAX_HEADER_LINE,
        valid_utf8(header_bytes(event)),
        !header_bytes(event).contains(10u8),
        header_bytes(event).len() > 0,
        header_bytes(event).last() == 125u8,
        ({
            let header = header_value(
                event::type_of(event),
                data_segment(event),
                event::payload_of(event),
            );
            json::record_of(json::json_text(header), header::header_names()) == Some(header)
        }),
        event::sent_data(event) matches Some(value) ==> json::reads_as(
            json::json_text(value),
            value,
        ) && json::json_text(value).len() > 0,
    ensures
        read_outcome(event_bytes(event) + rest) == (Outcome::Event {
            event: event::read_back(event),
            used: event_bytes(event).len() as int,
        }),
{
    let header = header_bytes(event);
    let line = header + seq![10u8];
    let data = event::payload_bytes(data_segment(event));
    let payload = event::payload_bytes(event::payload_of(event));
    let input = event_bytes(event) + rest;
    let n = line.len() as int;
    assert forall|k: int| 0 <= k < n - 1 implies input[k] != 10 by {
        assert(input[k] == header[k]);
        assert(header.contains(header[k]));
    }
    assert(input[n - 1] == 10);
    lemma_line_length(input, n);
    assert(input.take(n) == line);
    lemma_header_line(header);
    lemma_header_value(event::type_of(event), data_segment(event), event::payload_of(event));
    let frame = FrameView {
        event_type: event::type_of(event),
        fields: Seq::empty(),
        data_length: data.len() as int,
        payload_length: payload.len() as int,
    };
    assert(frame_of_line(line) == Ok::<FrameView, ErrorView>(frame));
    let after_line = input.skip(n);
    assert(after_line == data + payload + rest);
    let after_data = after_line.skip(data.len() as int);
    assert(after_data == payload + rest);
    assert(after_data.take(payload.len() as int) == payload);
    event::law_event_round_trip(event);
    event::lemma_data_exact(event);
    assert(event::sent_payload(event::payload_of(event)) == (if payload.len() > 0 {
        Some(payload)
    } else {
        None
    }));
    match event::sent_data(event) {
        Some(value) => {
            assert(after_line.take(data.len() as int) == data);
            let fields = value->Object_0;
            assert(value == JsonView::Object(fields));
            assert(event::data_of(event) == value);
            json::lemma_merged_empty(fields);
        },
        None => {
            assert(after_line == after_data);
            if event::data_of(event) is Object {
                assert(event::data_of(event)->Object_0 == Seq::<(Seq<char>, JsonView)>::empty());
            }
        },
    }
}

/// Lays an event out as bytes: header line, data segment, payload segment.
///
/// The event's `data` dict (if any) is always sent as the external data
/// segment, never inlined into the header line.
///
/// A reader gets back what was written, and what follows on the stream is left
/// for it, wherever the event keeps to the reader's limits.
pub fn write_event(event: &Event) -> (r: Result<Vec<u8>, ProtocolError>)
    ensures
        r is Ok,
        r->Ok_0@ == event_bytes(event@),
        deliverable(event@) ==> reads_as(r->Ok_0@, event::read_back(event@)),
{
    let data = match event.serialize_data() {
        Ok(data) => data,
        Err(e) => {
            return Err(e);
        },
    };
    let payload = event.payload();
    let mut fields: Vec<(String, Json)> = Vec::new();
    json::put(&mut fields, "type", Json::Text(String::from_str(event.event_type())));
    json::put(&mut fields, "version", Json::Text(String::from_str(VERSION)));
    if let Some(bytes) = &data {
        json::put(&mut fields, "data_length", Json::Unsigned(bytes.len() as u64));
    }
    if let Some(bytes) = payload {
        json::put(&mut fields, "payload_length", Json::Unsigned(bytes.len() as u64));
    }
    let header = Json::Object(fields);
    proof {
        assert(header@->Object_0 == header_value(
            event::type_of(event@),
            data_segment(event@),
            event::payload_of(event@),
        )->Object_0);
        lemma_header_value(
            event::type_of(event@),
            data_segment(event@),
            event::payload_of(event@),
        );
    }
    let mut out = match json::serialize(&header) {
        Ok(bytes) => bytes,
        Err(e) => {
            return Err(ProtocolError::Serialization(e));
        },
    };
    out.push(10);
    if let Some(bytes) = &data {
        out.extend_from_slice(bytes.as_slice());
    }
    if let Some(bytes) = payload {
        out.extend_from_slice(bytes);
    }
    proof {
        assert(out@ == event_bytes(event@));
        if deliverable(event@) {
            event::lemma_data_exact(event@);
            assert forall|rest: Seq<u8>| #[trigger] read_outcome(out@ + rest) == (Outcome::Event {
                event: event::read_back(event@),
                used: out@.len() as int,
            }) by {
                lemma_read_written(event@, rest);
            }
        }
    }
    Ok(out)
}

/// A header that is read says what stands under the names of its fields; a length
/// that is missing or `null` is zero, and data that is missing or `null` is none.
pub proof fn law_header_read_by_name(fields: Seq<(Seq<char>, JsonView)>)
    ensures
        match header_from(JsonView::Object(fields)) {
            Some(header) => json::member(fields, "type"@) == Some(
                JsonView::Text(header.event_type),
            ) && (match json::member(fields, "data_length"@) {
                Some(JsonView::Unsigned(n)) => header.data_length == n,
                other => header.data_length == 0 && (other is None || other == Some(
                    JsonView::Null,
                )),
            }) && (match json::member(fields, "payload_length"@) {
                Some(JsonView::Unsigned(n)) => header.payload_length == n,
                other => header.payload_length == 0 && (other is None || other == Some(
                    JsonView::Null,
                )),
            }) && (match json::member(fields, "data"@) {
                None => header.data is None,
                Some(JsonView::Null) => header.data is None,
                Some(data) => header.data == Some(data),
            }),
            None => !(event::has_text(fields, "type"@) && (event::has_text(fields, "version"@)
                || event::unset(fields, "version"@)) && (event::has_number(
                fields,
                "data_length"@,
                usize::MAX as int,
            ) || event::unset(fields, "data_length"@)) && (event::has_number(
                fields,
                "payload_length"@,
                usize::MAX as int,
            ) || event::unset(fields, "payload_length"@))),
        },
        header_from(JsonView::Object(fields)) is Some ==> event::has_text(fields, "version"@)
            || event::unset(fields, "version"@),
{
}

/// A header may also list its fields by position: the type, the version, the two
/// lengths and the data.
pub proof fn law_header_read_by_position(
    event_type: Seq<char>,
    version: Seq<char>,
    data_length: u64,
    payload_length: u64,
    data: JsonView,
)
    requires
        data_length <= usize::MAX,
        payload_length <= usize::MAX,
        !(data is Null),
    ensures
        header_from(
            JsonView::Array(
                seq![
                    JsonView::Text(event_type),
                    JsonView::Text(version),
                    JsonView::Unsigned(data_length),
                    JsonView::Unsigned(payload_length),
                    data,
                ],
            ),
        ) == Some(
            HeaderView {
                event_type,
                data_length: data_length as int,
                payload_length: payload_length as int,
                data: Some(data),
            },
        ),
{
}

/// A header that is written gives the type string, the version and the lengths of
/// the segments that follow, each under its own name, and nothing else.
pub proof fn law_header_written_by_name(
    event_type: Seq<char>,
    data: Option<Seq<u8>>,
    payload: Option<Seq<u8>>,
    name: Seq<char>,
)
    ensures
        header_value(event_type, data, payload) matches JsonView::Object(fields) && json::member(
            fields,
            "type"@,
        ) == Some(JsonView::Text(event_type)) && json::member(fields, "version"@) == Some(
            JsonView::Text("0.1.0"@),
        ) && (match data {
            Some(bytes) => json::member(fields, "data_length"@) == Some(
                JsonView::Unsigned(bytes.len() as u64),
            ),
            None => json::member(fields, "data_length"@) is None,
        }) && (match payload {
            Some(bytes) => json::member(fields, "payload_length"@) == Some(
                JsonView::Unsigned(bytes.len() as u64),
            ),
            None => json::member(fields, "payload_length"@) is None,
        }) && (json::member(fields, name) is Some ==> name == "type"@ || name == "version"@ || name
            == "data_length"@ || name == "payload_length"@),
{
    broadcast use json::group_member;

    lemma_header_names();
}

/// The limits on a message: 64 KiB for the header line, 1 MiB for the data and
/// 10 MiB for the payload. What is within them is let through.
pub proof fn law_limits(header: HeaderView, frame: FrameView, input: Seq<u8>)
    requires
        header.data is None,
    ensures
        match frame_from(header) {
            Ok(opened) => header.data_length <= 1048576 && opened.event_type == header.event_type
                && opened.fields.len() == 0 && opened.data_length == header.data_length
                && opened.payload_length == header.payload_length,
            Err(e) => header.data_length > 1048576 && e == (ErrorView::DataLengthExceeded {
                length: header.data_length,
                max: 1048576,
            }),
        },
        match payload_limit(frame) {
            Ok(n) => n == frame.payload_length && n <= 10485760,
            Err(e) => frame.payload_length > 10485760 && e == (ErrorView::PayloadLengthExceeded {
                length: frame.payload_length,
                max: 10485760,
            }),
        },
        line_length(input) > 65536 ==> read_outcome(input) == Outcome::Failed(
            ErrorView::HeaderTooLong { max: 65536 },
        ),
        input.len() == 0 <==> read_outcome(input) is End,
{
    if input.len() > 0 {
        assert(line_length(input) >= 1) by {
            lemma_line_positive(input);
        }
        match frame_of_line(input.take(line_length(input))) {
            Err(_) => {},
            Ok(_) => {},
        }
    }
}

/// A line of a stream that has not ended is not empty.
proof fn lemma_line_positive(input: Seq<u8>)
    requires
        input.len() > 0,
    ensures
        line_length(input) >= 1,
    decreases input.len(),
{
    let rest = input.drop_first();
    if rest.len() > 0 {
        lemma_line_positive(rest);
    } else {
        assert(line_length(rest) == 0);
    }
}

/// A line goes up to and with its first newline, whatever follows.
pub proof fn law_line_end(line: Seq<u8>, rest: Seq<u8>)
    requires
        !line.contains(10u8),
    ensures
        line_length(line + seq![10u8] + rest) == line.len() + 1,
        line_length(line) == line.len(),
{
    let input = line + seq![10u8] + rest;
    let n = line.len() as int;
    assert forall|k: int| 0 <= k < n implies line[k] != 10 by {
        assert(line.contains(line[k]));
    }
    assert(input[n] == 10);
    lemma_line_length(input, n + 1);
    law_line_pieces(line, Seq::empty());
    assert(line + Seq::<u8>::empty() == line);
}

/// The segments of a message follow its header line in turn: first as many bytes
/// of data as the header says, whose members go on top of those in the header,
/// then as many bytes of payload. What comes after them is left on the stream.
pub proof fn law_segments_in_turn(
    line: Seq<u8>,
    frame: FrameView,
    data: Seq<u8>,
    fields: Seq<(Seq<char>, JsonView)>,
    payload: Seq<u8>,
    rest: Seq<u8>,
)
    requires
        line.len() <= 65535,
        !line.contains(10u8),
        frame_of_line(line + seq![10u8]) == Ok::<FrameView, ErrorView>(frame),
        frame.data_length == data.len(),
        data.len() > 0,
        json::json_parsed(data) == Ok::<JsonView, Seq<char>>(JsonView::Object(fields)),
        frame.payload_length == payload.len(),
        payload.len() <= 10485760,
    ensures
        ({
            let merged = json::merged(frame.fields, fields);
            let read = event::event_from(
                frame.event_type,
                if merged.len() == 0 {
                    JsonView::Null
                } else {
                    JsonView::Object(merged)
                },
                if payload.len() == 0 {
                    None
                } else {
                    Some(payload)
                },
            );
            match read_outcome(line + seq![10u8] + data + payload + rest) {
                Outcome::Event { event, used } => read == Some(event) && used == line.len() + 1
                    + data.len() + payload.len(),
                Outcome::Failed(e) => read is None && e is InvalidEventData,
                Outcome::End => false,
            }
        }),
{
    let head = line + seq![10u8];
    let input = head + data + payload + rest;
    let n = head.len() as int;
    assert(input == line + seq![10u8] + (data + payload + rest));
    law_line_end(line, data + payload + rest);
    assert(input.take(n) == head);
    let after = input.skip(n);
    assert(after == data + payload + rest);
    assert(after.take(data.len() as int) == data);
    let last = after.skip(data.len() as int);
    assert(last == payload + rest);
    assert(last.take(payload.len() as int) == payload);
}

/// A message without a data segment carries the data in its header.
pub proof fn law_inline_data_alone(
    line: Seq<u8>,
    frame: FrameView,
    payload: Seq<u8>,
    rest: Seq<u8>,
)
    requires
        line.len() <= 65535,
        !line.contains(10u8),
        frame_of_line(line + seq![10u8]) == Ok::<FrameView, ErrorView>(frame),
        frame.data_length == 0,
        frame.payload_length == payload.len(),
        payload.len() <= 10485760,
    ensures
        ({
            let read = event::event_from(
                frame.event_type,
                if frame.fields.len() == 0 {
                    JsonView::Null
                } else {
                    JsonView::Object(frame.fields)
                },
                if payload.len() == 0 {
                    None
                } else {
                    Some(payload)
                },
            );
            match read_outcome(line + seq![10u8] + payload + rest) {
                Outcome::Event { event, used } => read == Some(event) && used == line.len() + 1
                    + payload.len(),
                Outcome::Failed(e) => read is None && e is InvalidEventData,
                Outcome::End => false,
            }
        }),
{
    let head = line + seq![10u8];
    let input = head + payload + rest;
    let n = head.len() as int;
    assert(input == line + seq![10u8] + (payload + rest));
    law_line_end(line, payload + rest);
    assert(input.take(n) == head);
    let after = input.skip(n);
    assert(after == payload + rest);
    assert(after.take(payload.len() as int) == payload);
}

/// A stream that ends within a segment is told apart by the segment: nothing is
/// made up for what is missing.
pub proof fn law_cut_short(line: Seq<u8>, frame: FrameView, rest: Seq<u8>)
    requires
        line.len() <= 65535,
        !line.contains(10u8),
        frame_of_line(line + seq![10u8]) == Ok::<FrameView, ErrorView>(frame),
        frame.data_length >= 0,
        frame.payload_length >= 0,
    ensures
        ({
            let read = read_outcome(line + seq![10u8] + rest);
            &&& rest.len() < frame.data_length ==> read == Outcome::Failed(
                ErrorView::Io { source: "early eof"@, stage: IoStage::ReadData },
            )
            &&& frame.data_length == 0 && rest.len() < frame.payload_length <= 10485760 ==> read
                == Outcome::Failed(
                ErrorView::Io { source: "early eof"@, stage: IoStage::ReadPayload },
            )
        }),
{
    let head = line + seq![10u8];
    let input = head + rest;
    let n = head.len() as int;
    law_line_end(line, rest);
    assert(input.take(n) == head);
    assert(input.skip(n) == rest);
}

/// An event of an unrecognized type comes back as it was, wherever it carries
/// data, and a payload that is not empty if any.
pub proof fn law_unknown_comes_back(
    event_type: Seq<char>,
    fields: Seq<(Seq<char>, JsonView)>,
    payload: Option<Seq<u8>>,
)
    requires
        payload matches Some(bytes) ==> bytes.len() > 0,
    ensures
        ({
            let event = EventView::Unknown { event_type, data: JsonView::Object(fields), payload };
            event::read_back(event) == event
        }),
{
}

/// The bytes of an event are its header, a newline, its data if there is any to
/// send, and its payload if it has one.
pub proof fn law_laid_out(event: Event)
    ensures
        event_bytes(event@) == json::json_text(
            header_value(event::type_of(event@), data_segment(event@), event::payload_of(event@)),
        ) + seq![10u8] + (match data_segment(event@) {
            Some(data) => data,
            None => Seq::empty(),
        }) + (match event {
            Event::AudioChunk { audio, .. } => audio@,
            Event::Unknown { payload: Some(bytes), .. } => bytes@,
            _ => Seq::empty(),
        }),
        match event::data_of(event@) {
            JsonView::Null => data_segment(event@) is None,
            JsonView::Object(fields) => if fields.len() == 0 {
                data_segment(event@) is None
            } else {
                data_segment(event@) == Some(json::json_text(JsonView::Object(fields)))
            },
            other => data_segment(event@) == Some(json::json_text(other)),
        },
{
}

/// White space at the end of a header line, the newline and a carriage return
/// before it among it, is no part of the header.
pub proof fn law_header_text(text: Seq<char>, after: Seq<char>)
    requires
        text.len() > 0,
        !text::is_space(text[0]),
        !text::is_space(text.last()),
        forall|i: int| 0 <= i < after.len() ==> text::is_space(#[trigger] after[i]),
    ensures
        header_text(encode_utf8(text + after)) == encode_utf8(text),
{
    encode_utf8_decode_utf8(text + after);
    text::law_trimmed(Seq::empty(), text, after);
    assert(Seq::<char>::empty() + text + after == text + after);
    assert(Seq::<char>::empty() + text == text);
}

/// Data in a header has to be an object, whose members are then those of the
/// message so far.
pub proof fn law_inline_data(header: HeaderView)
    requires
        header.data_length <= 1048576,
    ensures
        match header.data {
            None => frame_from(header) matches Ok(frame) && frame.fields.len() == 0,
            Some(JsonView::Object(fields)) => frame_from(header) == Ok::<FrameView, ErrorView>(
                FrameView {
                    event_type: header.event_type,
                    fields,
                    data_length: header.data_length,
                    payload_length: header.payload_length,
                },
            ),
            Some(other) => frame_from(header) == Err::<FrameView, ErrorView>(
                ErrorView::NonObjectData(other),
            ),
        },
{
}

/// A data segment has to be an object: a member that it gives counts, and one that
/// it does not give stays as the header gave it. What is no JSON, and what is no
/// object, is refused.
pub proof fn law_data_over_inline(frame: FrameView, data: Seq<u8>, name: Seq<char>)
    ensures
        match json::json_parsed(data) {
            Err(reason) => with_data(frame, data) == Err::<FrameView, ErrorView>(
                ErrorView::InvalidEventData(reason),
            ),
            Ok(JsonView::Object(fields)) => json::distinct_names(fields) ==> (
            with_data(frame, data) matches Ok(after) && after.event_type == frame.event_type
                && after.data_length == frame.data_length && after.payload_length
                == frame.payload_length && json::member(after.fields, name) == (match json::member(
                fields,
                name,
            ) {
                Some(value) => Some(value),
                None => json::member(frame.fields, name),
            })),
            Ok(other) => with_data(frame, data) == Err::<FrameView, ErrorView>(
                ErrorView::NonObjectData(other),
            ),
        },
{
    if let Ok(JsonView::Object(fields)) = json::json_parsed(data) {
        if json::distinct_names(fields) {
            json::law_merged(frame.fields, fields, name);
        }
    }
}

/// A header line that is not UTF-8, or not the JSON of a header, is refused with
/// the reason.
pub proof fn law_line_refused(line: Seq<u8>)
    ensures
        !valid_utf8(line) ==> frame_of_line(line) == Err::<FrameView, ErrorView>(
            ErrorView::HeaderNotUtf8(text::utf8_reason(line)),
        ),
        valid_utf8(line) ==> (match json::record_of(
            header_text(line),
            seq!["type"@, "version"@, "data_length"@, "payload_length"@, "data"@],
        ) {
            None => frame_of_line(line) matches Err(ErrorView::HeaderInvalidJson(_)),
            Some(value) => match header_from(value) {
                None => frame_of_line(line) matches Err(ErrorView::HeaderInvalidJson(_)),
                Some(header) => frame_of_line(line) == frame_from(header),
            },
        }),
{
}

} // verus!
