//! The endpoint caller's decisions: what a response means for the call that
//! received it.
//!
//! A call sends one GET. When the response head arrives, its content type is
//! checked and its status decides whether the body is read. A body is parsed
//! as JSON. The outcome of a call is a document or a `CallError`; a response
//! whose status is not a success is not an error but yields the null document.
//!
//! A response that declares a content type other than `application/json` ends
//! the call with `CallError::ContentType`: the mismatch is reported like any
//! other failed call and never stops the program.

use crate::json::{parse_json, parsed_json, Json};
use vstd::prelude::*;
use vstd::utf8::{is_ascii_chars, is_ascii_chars_encode_utf8};

verus! {

/// Why a call produced no document.
#[derive(Debug, Clone, Copy, PartialEq, Eq, Structural)]
pub enum CallError {
    /// The request or the reading of the body failed in transport.
    Transport,
    /// The response declared a content type other than `application/json`.
    ContentType,
    /// The body of a successful response is not JSON.
    Decode,
}

/// What the head of a response carries that the caller decides on.
#[derive(Debug)]
pub struct Head {
    /// The status code.
    pub status: u16,
    /// The raw value of the `content-type` header, if the response has one.
    pub content_type: Option<Vec<u8>>,
}

/// Something that the driver is to put into the log.
#[derive(Debug, Clone, Copy, PartialEq, Eq, Structural)]
pub enum Notice {
    /// Information: the call to this endpoint of the scenario got a response.
    Executed { endpoint: usize },
    /// Warning: the response declares no content type.
    ContentTypeMissing,
    /// Error: the response declares a content type other than
    /// `application/json`.
    ContentTypeUnexpected,
    /// Error: the response has this status, which is not a success.
    StatusNotSuccess { status: u16 },
    /// Error: the call produced no document, for this reason.
    CallFailed { error: CallError },
}

/// What follows the head of a response.
#[derive(Debug, PartialEq)]
pub enum Verdict {
    /// The body is to be read and parsed.
    ReadBody,
    /// The call is over with this outcome; the body is not read.
    Finished(Result<Json, CallError>),
}

/// A status code from 200 to 299, as in the `http` crate's
/// `StatusCode::is_success`.
pub open spec fn status_is_success(status: u16) -> bool {
    200 <= status < 300
}

/// A byte that may stand in a header value that is text: a printable ASCII
/// character or a tab. This is the test by which the `http` crate's
/// `HeaderValue::to_str` hands out a header value as a string.
pub open spec fn is_visible_ascii(byte: u8) -> bool {
    32 <= byte < 127 || byte == 9
}

/// A header value that is text: every byte is visible ASCII.
pub open spec fn is_header_text(value: Seq<u8>) -> bool {
    forall|i: int| 0 <= i < value.len() ==> is_visible_ascii(#[trigger] value[i])
}

/// A space or a tab: the white space that header text can hold.
pub open spec fn is_blank(byte: u8) -> bool {
    byte == 32 || byte == 9
}

/// What stands before the first `;` of `value`; all of it if there is none.
pub open spec fn before_semicolon(value: Seq<u8>) -> Seq<u8>
    decreases value.len(),
{
    if value.len() == 0 || value[0] == 0x3b {
        Seq::empty()
    } else {
        seq![value[0]] + before_semicolon(value.drop_first())
    }
}

/// `text` without the blanks at its start.
pub open spec fn trim_start(text: Seq<u8>) -> Seq<u8>
    decreases text.len(),
{
    if text.len() > 0 && is_blank(text[0]) {
        trim_start(text.drop_first())
    } else {
        text
    }
}

/// `text` without the blanks at its end.
pub open spec fn trim_end(text: Seq<u8>) -> Seq<u8>
    decreases text.len(),
{
    if text.len() > 0 && is_blank(text.last()) {
        trim_end(text.drop_last())
    } else {
        text
    }
}

/// The media type that a content-type value names: what stands before the
/// first `;`, without blanks at either end. Parameters such as a charset are
/// ignored.
pub open spec fn media_type(value: Seq<u8>) -> Seq<u8> {
    trim_end(trim_start(before_semicolon(value)))
}

/// The bytes of a text of ASCII characters.
pub open spec fn ascii_bytes(text: Seq<char>) -> Seq<u8> {
    Seq::new(text.len(), |i: int| text[i] as u8)
}

/// The one media type that a response may declare.
pub open spec fn json_media_type() -> Seq<u8> {
    ascii_bytes("application/json"@)
}

impl Head {
    /// The media type that the response declares. A response without a
    /// content-type header declares none, and neither does one whose header
    /// value is not text.
    pub open spec fn media(&self) -> Option<Seq<u8>> {
        match self.content_type {
            Some(value) => if is_header_text(value@) {
                Some(media_type(value@))
            } else {
                None
            },
            None => None,
        }
    }

    /// The response declares a media type, and it is not `application/json`.
    pub open spec fn media_unexpected(&self) -> bool {
        self.media() matches Some(media) && media != json_media_type()
    }

    /// What the head of the response to the call of `endpoint` puts into the
    /// log: that the call was executed; then a warning if no content type is
    /// declared, or an error if the wrong one is; then the status, if the
    /// content type did not already fail the call and the status is not a
    /// success.
    pub open spec fn notices(&self, endpoint: usize) -> Seq<Notice> {
        seq![Notice::Executed { endpoint }] + (if self.media() is None {
            seq![Notice::ContentTypeMissing]
        } else if self.media_unexpected() {
            seq![Notice::ContentTypeUnexpected]
        } else {
            Seq::empty()
        }) + (if !self.media_unexpected() && !status_is_success(self.status) {
            seq![Notice::StatusNotSuccess { status: self.status }]
        } else {
            Seq::empty()
        })
    }

    /// What follows this head: a declared media type other than
    /// `application/json` fails the call; otherwise a success status asks for
    /// the body, and any other status ends the call with the null document.
    pub open spec fn verdict(&self) -> Verdict {
        if self.media_unexpected() {
            Verdict::Finished(Err(CallError::ContentType))
        } else if status_is_success(self.status) {
            Verdict::ReadBody
        } else {
            Verdict::Finished(Ok(Json::Null))
        }
    }
}

/// The outcome of a call whose body was handed to the JSON parser: the parsed
/// document, or `CallError::Decode` where the parser refused the body.
pub open spec fn body_outcome(parsed: Result<Json, serde_json::Error>) -> Result<Json, CallError> {
    match parsed {
        Ok(document) => Ok(document),
        Err(_) => Err(CallError::Decode),
    }
}

/// Whether `status` is a success status.
pub fn is_success(status: u16) -> (success: bool)
    ensures
        success == status_is_success(status),
{
    200 <= status && status < 300
}

/// Whether `value` is text, that is, holds only visible ASCII.
pub fn check_header_text(value: &[u8]) -> (text: bool)
    ensures
        text == is_header_text(value@),
{
    let mut at: usize = 0;
    while at < value.len()
        invariant
            at <= value.len(),
            forall|i: int| 0 <= i < at ==> is_visible_ascii(#[trigger] value@[i]),
        decreases value.len() - at,
    {
        let byte = value[at];
        if !((32 <= byte && byte < 127) || byte == 9) {
            return false;
        }
        at += 1;
    }
    true
}

/// `before_semicolon` is the part of the value in front of the first `;`.
proof fn lemma_before_semicolon(value: Seq<u8>, end: int)
    requires
        0 <= end <= value.len(),
        forall|i: int| 0 <= i < end ==> #[trigger] value[i] != 0x3b,
        end == value.len() || value[end] == 0x3b,
    ensures
        before_semicolon(value) == value.take(end),
    decreases end,
{
    if end == 0 {
        assert(value.take(0) =~= Seq::<u8>::empty());
    } else {
        let rest = value.drop_first();
        assert forall|i: int| 0 <= i < end - 1 implies #[trigger] rest[i] != 0x3b by {
            assert(value[i + 1] != 0x3b);
        }
        lemma_before_semicolon(rest, end - 1);
        assert(value.take(end) =~= seq![value[0]] + rest.take(end - 1));
    }
}

/// `trim_start` drops exactly the leading run of blanks.
proof fn lemma_trim_start(text: Seq<u8>, start: int)
    requires
        0 <= start <= text.len(),
        forall|i: int| 0 <= i < start ==> is_blank(#[trigger] text[i]),
        start == text.len() || !is_blank(text[start]),
    ensures
        trim_start(text) == text.skip(start),
    decreases start,
{
    if start == 0 {
        assert(text.skip(0) =~= text);
    } else {
        let rest = text.drop_first();
        assert(is_blank(text[0]));
        assert forall|i: int| 0 <= i < start - 1 implies is_blank(#[trigger] rest[i]) by {
            assert(is_blank(text[i + 1]));
        }
        lemma_trim_start(rest, start - 1);
        assert(text.skip(start) =~= rest.skip(start - 1));
    }
}

/// `trim_end` drops exactly the trailing run of blanks.
proof fn lemma_trim_end(text: Seq<u8>, end: int)
    requires
        0 <= end <= text.len(),
        forall|i: int| end <= i < text.len() ==> is_blank(#[trigger] text[i]),
        end == 0 || !is_blank(text[end - 1]),
    ensures
        trim_end(text) == text.take(end),
    decreases text.len() - end,
{
    if end == text.len() {
        assert(text.take(end) =~= text);
    } else {
        let rest = text.drop_last();
        assert(is_blank(text[text.len() - 1]));
        assert forall|i: int| end <= i < rest.len() implies is_blank(#[trigger] rest[i]) by {
            assert(is_blank(text[i]));
        }
        lemma_trim_end(rest, end);
        assert(text.take(end) =~= rest.take(end));
    }
}

/// The media type that the content-type value `value` names.
pub fn extract_media_type(value: &[u8]) -> (media: Vec<u8>)
    ensures
        media@ == media_type(value@),
{
    let mut stop: usize = 0;
    while stop < value.len() && value[stop] != 0x3b
        invariant
            stop <= value.len(),
            forall|i: int| 0 <= i < stop ==> #[trigger] value@[i] != 0x3b,
        decreases value.len() - stop,
    {
        stop += 1;
    }
    let ghost segment = value@.take(stop as int);
    proof {
        lemma_before_semicolon(value@, stop as int);
    }
    let mut start: usize = 0;
    while start < stop && (value[start] == 32 || value[start] == 9)
        invariant
            start <= stop <= value.len(),
            forall|i: int| 0 <= i < start ==> is_blank(#[trigger] value@[i]),
        decreases stop - start,
    {
        start += 1;
    }
    let ghost tail = segment.skip(start as int);
    proof {
        assert forall|i: int| 0 <= i < start implies is_blank(#[trigger] segment[i]) by {
            assert(is_blank(value@[i]));
        }
        lemma_trim_start(segment, start as int);
    }
    let mut end: usize = stop;
    while end > start && (value[end - 1] == 32 || value[end - 1] == 9)
        invariant
            start <= end <= stop <= value.len(),
            forall|i: int| end <= i < stop ==> is_blank(#[trigger] value@[i]),
        decreases end - start,
    {
        end -= 1;
    }
    proof {
        assert forall|i: int| end - start <= i < tail.len() implies is_blank(#[trigger] tail[i]) by {
            assert(is_blank(value@[i + start]));
        }
        lemma_trim_end(tail, end - start);
    }
    let mut media: Vec<u8> = Vec::new();
    let mut at: usize = start;
    while at < end
        invariant
            start <= at <= end <= value.len(),
            media@ == value@.subrange(start as int, at as int),
        decreases end - at,
    {
        media.push(value[at]);
        assert(media@ =~= value@.subrange(start as int, at + 1));
        at += 1;
    }
    assert(media@ =~= tail.take(end - start));
    media
}

/// Whether `media` is `application/json`, byte for byte.
pub fn is_json_media_type(media: &[u8]) -> (json: bool)
    ensures
        json == (media@ == json_media_type()),
{
    let expected = "application/json";
    proof {
        reveal_strlit("application/json");
        assert(is_ascii_chars(expected@));
    }
    let wanted: &[u8] = expected.as_bytes();
    proof {
        is_ascii_chars_encode_utf8(expected@);
        assert(wanted@ =~= json_media_type());
    }
    if media.len() != wanted.len() {
        return false;
    }
    let mut at: usize = 0;
    while at < media.len()
        invariant
            at <= media.len(),
            media.len() == wanted.len(),
            wanted@ == json_media_type(),
            forall|i: int| 0 <= i < at ==> media@[i] == wanted@[i],
        decreases media.len() - at,
    {
        if media[at] != wanted[at] {
            return false;
        }
        at += 1;
    }
    assert(media@ =~= wanted@);
    true
}

impl Head {
    /// The media type that the response declares, if it declares one.
    pub fn declared_media_type(&self) -> (media: Option<Vec<u8>>)
        ensures
            match media {
                Some(bytes) => self.media() == Some(bytes@),
                None => self.media() is None,
            },
    {
        match &self.content_type {
            Some(value) => {
                if check_header_text(value.as_slice()) {
                    Some(extract_media_type(value.as_slice()))
                } else {
                    None
                }
            },
            None => None,
        }
    }

    /// Decides what follows this head, the head of the response to the call
    /// of `endpoint`, and what it puts into the log.
    pub fn judge(&self, endpoint: usize) -> (judged: (Verdict, Vec<Notice>))
        ensures
            judged.0 == self.verdict(),
            judged.1@ == self.notices(endpoint),
    {
        let mut notices: Vec<Notice> = Vec::new();
        notices.push(Notice::Executed { endpoint });
        let unexpected = match self.declared_media_type() {
            Some(media) => !is_json_media_type(media.as_slice()),
            None => {
                notices.push(Notice::ContentTypeMissing);
                false
            },
        };
        if unexpected {
            notices.push(Notice::ContentTypeUnexpected);
            assert(notices@ =~= self.notices(endpoint));
            (Verdict::Finished(Err(CallError::ContentType)), notices)
        } else if is_success(self.status) {
            assert(notices@ =~= self.notices(endpoint));
            (Verdict::ReadBody, notices)
        } else {
            notices.push(Notice::StatusNotSuccess { status: self.status });
            assert(notices@ =~= self.notices(endpoint));
            (Verdict::Finished(Ok(Json::Null)), notices)
        }
    }
}

/// Turns the parser's answer on a body into the outcome of the call.
pub fn outcome_of_parsed(parsed: Result<Json, serde_json::Error>) -> (outcome: Result<
    Json,
    CallError,
>)
    ensures
        outcome == body_outcome(parsed),
{
    match parsed {
        Ok(document) => Ok(document),
        Err(_) => Err(CallError::Decode),
    }
}

/// Parses the body of a successful response and gives the outcome of the call.
pub fn judge_body(body: &[u8]) -> (outcome: Result<Json, CallError>)
    ensures
        outcome == body_outcome(parsed_json(body@)),
{
    outcome_of_parsed(parse_json(body))
}

} // verus!
