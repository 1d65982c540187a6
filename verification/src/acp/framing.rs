//! Byte framing: one JSON value per line.
//!
//! A frame ends at the first newline. The line is trimmed, blank lines are
//! skipped, and a line beyond the limit is refused before it is buffered in full.

use vstd::prelude::*;
use vstd::string::*;
use vstd::utf8::decode_utf8;
use vstd::utf8::encode_scalar;
use vstd::utf8::encode_utf8;
use vstd::utf8::valid_utf8;

use crate::acp::bounded;
use crate::acp::bounded_text;
use crate::json::one_line;
use crate::json::parsed_json;
use crate::json::rendered_json;
use crate::json::restorable;
use crate::json::Json;
use crate::json::JsonView;
use crate::json::MAX_DEPTH;
use crate::text::concat2;
use crate::text::concat3;
use crate::text::decimal;
use crate::text::decimal_text;
use crate::text::text_of;
use crate::text::trim;
use crate::text::trim_front;
use crate::text::trimmed;

verus! {

/// The default ceiling on one frame, in bytes.
pub const MAX_FRAME_BYTES: usize = 1_048_576;

/// Why a frame could not be read or written.
#[derive(Debug, Clone, PartialEq, Eq)]
pub enum FrameError {
    /// The line exceeded the limit.
    TooLarge { limit: usize },
    /// The line was not valid UTF-8.
    NotUtf8,
    /// The stream ended in the middle of a frame.
    Truncated,
    /// The line was not valid JSON; the detail is bounded.
    Malformed { detail: String },
    /// The underlying pipe failed, with the system's description.
    Io(String),
}

/// A framing failure as data.
pub ghost enum FrameErrorView {
    TooLarge(nat),
    NotUtf8,
    Truncated,
    Malformed(Seq<char>),
    Io(Seq<char>),
}

impl FrameErrorView {
    /// The failure in words.
    pub open spec fn rendered(self) -> Seq<char> {
        match self {
            FrameErrorView::TooLarge(limit) => "frame exceeds "@ + decimal(limit) + " bytes"@,
            FrameErrorView::NotUtf8 => "frame is not valid UTF-8"@,
            FrameErrorView::Truncated => "stream ended inside a frame"@,
            FrameErrorView::Malformed(detail) => "frame is not valid JSON: "@ + detail,
            FrameErrorView::Io(detail) => "transport i/o failed: "@ + detail,
        }
    }
}

impl View for FrameError {
    type V = FrameErrorView;

    open spec fn view(&self) -> FrameErrorView {
        match self {
            FrameError::TooLarge { limit } => FrameErrorView::TooLarge(*limit as nat),
            FrameError::NotUtf8 => FrameErrorView::NotUtf8,
            FrameError::Truncated => FrameErrorView::Truncated,
            FrameError::Malformed { detail } => FrameErrorView::Malformed(detail@),
            FrameError::Io(detail) => FrameErrorView::Io(detail@),
        }
    }
}

impl FrameError {
    /// The failure in words.
    pub fn to_string(&self) -> (text: String)
        ensures
            text@ == self@.rendered(),
    {
        match self {
            FrameError::TooLarge { limit } => {
                let digits = decimal_text(*limit as u64);
                concat3("frame exceeds ", digits.as_str(), " bytes")
            },
            FrameError::NotUtf8 => "frame is not valid UTF-8".to_owned(),
            FrameError::Truncated => "stream ended inside a frame".to_owned(),
            FrameError::Malformed { detail } => {
                concat2("frame is not valid JSON: ", detail.as_str())
            },
            FrameError::Io(detail) => concat2("transport i/o failed: ", detail.as_str()),
        }
    }

    /// The same failure once more.
    pub fn duplicate(&self) -> (copy: FrameError)
        ensures
            copy@ == self@,
    {
        match self {
            FrameError::TooLarge { limit } => FrameError::TooLarge { limit: *limit },
            FrameError::NotUtf8 => FrameError::NotUtf8,
            FrameError::Truncated => FrameError::Truncated,
            FrameError::Malformed { detail } => FrameError::Malformed { detail: detail.clone() },
            FrameError::Io(detail) => FrameError::Io(detail.clone()),
        }
    }
}

/// Where the first line of `bytes` ends: at its newline, or at the end of `bytes`
/// where there is none.
pub open spec fn line_end(bytes: Seq<u8>) -> int
    decreases bytes.len(),
{
    if bytes.len() == 0 || bytes[0] == 10 {
        0
    } else {
        1 + line_end(bytes.drop_first())
    }
}

/// What one line holds: nothing where it is blank, else a value or a failure.
pub open spec fn line_value(line: Seq<u8>) -> Result<Option<JsonView>, FrameErrorView> {
    if !valid_utf8(line) {
        Err(FrameErrorView::NotUtf8)
    } else {
        let text = trimmed(decode_utf8(line));
        if text.len() == 0 {
            Ok(None)
        } else {
            match parsed_json(text) {
                Ok(value) => Ok(Some(value)),
                Err(detail) => Err(FrameErrorView::Malformed(bounded_text(detail))),
            }
        }
    }
}

/// What the first line of `bytes` that is not blank holds, with the bytes after
/// it. Where no line is complete, there is no value and blank lines are gone.
/// A line longer than `limit` is a failure and stays where it is.
pub open spec fn next_value(bytes: Seq<u8>, limit: nat) -> (
    Seq<u8>,
    Result<Option<JsonView>, FrameErrorView>,
)
    decreases bytes.len(),
{
    let end = line_end(bytes);
    if end > limit {
        (bytes, Err(FrameErrorView::TooLarge(limit)))
    } else if end < 0 || end >= bytes.len() {
        (bytes, Ok(None))
    } else {
        let rest = bytes.skip(end + 1);
        match line_value(bytes.take(end)) {
            Ok(None) => next_value(rest, limit),
            other => (rest, other),
        }
    }
}

/// White space in ASCII, without the vertical tab.
pub open spec fn ascii_space(byte: u8) -> bool {
    byte == 0x20 || byte == 0x09 || byte == 0x0a || byte == 0x0c || byte == 0x0d
}

/// The bytes of one frame.
pub open spec fn frame_bytes(value: JsonView) -> Seq<u8> {
    encode_utf8(rendered_json(value)).push(10)
}

/// A line ends within the bytes, at the first newline.
pub proof fn lemma_line_end(bytes: Seq<u8>)
    ensures
        0 <= line_end(bytes) <= bytes.len(),
        line_end(bytes) < bytes.len() ==> bytes[line_end(bytes)] == 10,
        forall|i: int| 0 <= i < line_end(bytes) ==> bytes[i] != 10,
    decreases bytes.len(),
{
    if bytes.len() > 0 && bytes[0] != 10 {
        let rest = bytes.drop_first();
        lemma_line_end(rest);
        assert forall|i: int| 0 <= i < line_end(bytes) implies bytes[i] != 10 by {
            if i > 0 {
                assert(bytes[i] == rest[i - 1]);
            }
        }
    }
}

/// The first newline is where the line ends.
pub proof fn lemma_line_end_is(bytes: Seq<u8>, at: int)
    requires
        0 <= at <= bytes.len(),
        forall|i: int| 0 <= i < at ==> bytes[i] != 10,
        at < bytes.len() ==> bytes[at] == 10,
    ensures
        line_end(bytes) == at,
{
    lemma_line_end(bytes);
    let end = line_end(bytes);
    if end < at {
        assert(bytes[end] != 10);
    } else if at < end {
        assert(bytes[at] != 10);
    }
}

/// Accumulates bytes and yields complete frames.
#[derive(Debug, Clone)]
pub struct FrameReader {
    partial: Vec<u8>,
    max_frame_bytes: usize,
}

impl FrameReader {
    /// The bytes that were pushed and not yet taken.
    pub closed spec fn held(&self) -> Seq<u8> {
        self.partial@
    }

    /// The limit on one frame.
    pub closed spec fn limit(&self) -> nat {
        self.max_frame_bytes as nat
    }

    /// A reader with the given limit on one frame.
    pub fn new(max_frame_bytes: usize) -> (reader: FrameReader)
        ensures
            reader.held() == Seq::<u8>::empty(),
            reader.limit() == max_frame_bytes,
    {
        FrameReader { partial: Vec::new(), max_frame_bytes }
    }

    /// The limit this reader enforces.
    pub fn max_frame_bytes(&self) -> (limit: usize)
        ensures
            limit == self.limit(),
    {
        self.max_frame_bytes
    }

    /// Append bytes as they arrive from the stream.
    pub fn push(&mut self, bytes: &[u8])
        ensures
            final(self).held() == old(self).held() + bytes@,
            final(self).limit() == old(self).limit(),
    {
        let mut i: usize = 0;
        assert(self.partial@ =~= old(self).held() + bytes@.take(0));
        while i < bytes.len()
            invariant
                i <= bytes@.len(),
                self.partial@ == old(self).held() + bytes@.take(i as int),
                self.limit() == old(self).limit(),
            decreases bytes@.len() - i,
        {
            self.partial.push(bytes[i]);
            i = i + 1;
            assert(self.partial@ =~= old(self).held() + bytes@.take(i as int));
        }
        assert(bytes@.take(i as int) =~= bytes@);
    }

    /// Where the first line ends.
    fn line_end(&self) -> (end: usize)
        ensures
            end == line_end(self.held()),
            end <= self.held().len(),
    {
        let mut i: usize = 0;
        while i < self.partial.len() && self.partial[i] != 10
            invariant
                i <= self.partial@.len(),
                forall|k: int| 0 <= k < i ==> self.partial@[k] != 10,
            decreases self.partial@.len() - i,
        {
            i = i + 1;
        }
        proof {
            lemma_line_end_is(self.held(), i as int);
        }
        i
    }

    /// Take the next complete frame, skipping blank lines.
    pub fn next_frame(&mut self) -> (frame: Result<Option<Json>, FrameError>)
        ensures
            final(self).limit() == old(self).limit(),
            final(self).held() == next_value(old(self).held(), old(self).limit()).0,
            match frame {
                Ok(Some(value)) => next_value(old(self).held(), old(self).limit()).1 == Ok::<
                    Option<JsonView>,
                    FrameErrorView,
                >(Some(value@)),
                Ok(None) => next_value(old(self).held(), old(self).limit()).1 == Ok::<
                    Option<JsonView>,
                    FrameErrorView,
                >(None),
                Err(error) => next_value(old(self).held(), old(self).limit()).1 == Err::<
                    Option<JsonView>,
                    FrameErrorView,
                >(error@),
            },
    {
        loop
            invariant
                self.limit() == old(self).limit(),
                next_value(self.held(), self.limit()) == next_value(
                    old(self).held(),
                    old(self).limit(),
                ),
            decreases self.held().len(),
        {
            let end: usize = self.line_end();
            if end > self.max_frame_bytes {
                return Err(FrameError::TooLarge { limit: self.max_frame_bytes });
            }
            if end >= self.partial.len() {
                return Ok(None);
            }
            let ghost before = self.held();
            let rest = self.partial.split_off(end + 1);
            let mut line = rest;
            std::mem::swap(&mut line, &mut self.partial);
            line.truncate(end);
            proof {
                assert(line@ =~= before.take(end as int));
                assert(self.held() =~= before.skip(end + 1));
            }
            match text_of(line.as_slice()) {
                None => {
                    return Err(FrameError::NotUtf8);
                },
                Some(text) => {
                    let trimmed_text = trim(text.as_str());
                    if trimmed_text.as_str().unicode_len() > 0 {
                        return match Json::parse(trimmed_text.as_str()) {
                            Ok(value) => Ok(Some(value)),
                            Err(detail) => Err(
                                FrameError::Malformed { detail: bounded(detail.as_str()) },
                            ),
                        };
                    }
                },
            }
        }
    }

    /// Check that the stream ended between frames.
    pub fn finish(&self) -> (end: Result<(), FrameError>)
        ensures
            end is Ok <==> forall|i: int| 0 <= i < self.held().len() ==> ascii_space(self.held()[i]),
            end matches Err(error) ==> error@ == FrameErrorView::Truncated,
    {
        let mut i: usize = 0;
        while i < self.partial.len()
            invariant
                i <= self.partial@.len(),
                forall|k: int| 0 <= k < i ==> ascii_space(self.partial@[k]),
            decreases self.partial@.len() - i,
        {
            let byte: u8 = self.partial[i];
            if !(byte == 0x20 || byte == 0x09 || byte == 0x0a || byte == 0x0c || byte == 0x0d) {
                assert(!ascii_space(self.held()[i as int]));
                return Err(FrameError::Truncated);
            }
            i = i + 1;
        }
        Ok(())
    }
}

/// Only a newline is encoded with the byte of a newline.
proof fn lemma_scalar_holds_no_newline(c: char)
    requires
        c != '\n',
    ensures
        forall|i: int|
            0 <= i < encode_scalar(c as u32).len() ==> #[trigger] encode_scalar(c as u32)[i] != 10,
{
    let v = c as u32;
    assert(v != 10) by {
        assert('\n' as u32 == 10);
    }
    assert(v <= 0x7f && v != 10 ==> ((v & 0x7f) as u8) != 10u8) by (bit_vector);
    assert((0xc0u8 | ((v >> 6) & 0x1f) as u8) != 10u8) by (bit_vector);
    assert((0xe0u8 | ((v >> 12) & 0x0f) as u8) != 10u8) by (bit_vector);
    assert((0xf0u8 | ((v >> 18) & 0x7) as u8) != 10u8) by (bit_vector);
    assert((0x80u8 | (v & 0x3f) as u8) != 10u8) by (bit_vector);
    assert((0x80u8 | ((v >> 6) & 0x3f) as u8) != 10u8) by (bit_vector);
    assert((0x80u8 | ((v >> 12) & 0x3f) as u8) != 10u8) by (bit_vector);
}

/// A text without a newline is encoded without the byte of one.
proof fn lemma_text_holds_no_newline(text: Seq<char>)
    requires
        forall|i: int| 0 <= i < text.len() ==> text[i] != '\n',
    ensures
        forall|i: int|
            0 <= i < encode_utf8(text).len() ==> #[trigger] encode_utf8(text)[i] != 10,
    decreases text.len(),
{
    if text.len() > 0 {
        let rest = text.drop_first();
        assert forall|i: int| 0 <= i < rest.len() implies rest[i] != '\n' by {
            assert(rest[i] == text[i + 1]);
        }
        lemma_scalar_holds_no_newline(text[0]);
        lemma_text_holds_no_newline(rest);
        let first = encode_scalar(text[0] as u32);
        assert forall|i: int| 0 <= i < encode_utf8(text).len() implies #[trigger] encode_utf8(
            text,
        )[i] != 10 by {
            if i < first.len() {
                assert(encode_utf8(text)[i] == first[i]);
            } else {
                assert(encode_utf8(text)[i] == encode_utf8(rest)[i - first.len()]);
            }
        }
    }
}

/// Whether a reader with room for `bytes` takes `value` from them and leaves what
/// follows them.
pub open spec fn carries(bytes: Seq<u8>, value: JsonView) -> bool {
    forall|rest: Seq<u8>, limit: nat|
        bytes.len() <= limit + 1 ==> #[trigger] next_value(bytes + rest, limit) == (
            rest,
            Ok::<Option<JsonView>, FrameErrorView>(Some(value)),
        )
}

/// A text on one line, with a newline behind it, carries what it is read as.
proof fn lemma_line_carries(text: Seq<char>, value: JsonView)
    requires
        one_line(text),
        parsed_json(text) == Ok::<JsonView, Seq<char>>(value),
    ensures
        carries(encode_utf8(text).push(10), value),
{
    let line = encode_utf8(text);
    let bytes = line.push(10);
    lemma_text_holds_no_newline(text);
    vstd::utf8::encode_utf8_valid_utf8(text);
    vstd::utf8::encode_utf8_decode_utf8(text);
    assert(trim_front(text) == text);
    assert(trimmed(text) == text);
    assert forall|rest: Seq<u8>, limit: nat| bytes.len() <= limit + 1 implies #[trigger] next_value(
        bytes + rest,
        limit,
    ) == (rest, Ok::<Option<JsonView>, FrameErrorView>(Some(value))) by {
        let all = bytes + rest;
        let end = line.len() as int;
        assert forall|i: int| 0 <= i < end implies all[i] != 10 by {
            assert(all[i] == line[i]);
        }
        assert(all[end] == 10);
        lemma_line_end_is(all, end);
        assert(all.take(end) =~= line);
        assert(all.skip(end + 1) =~= rest);
    }
}

/// Bytes that arrive later do not change a frame that is complete: what the
/// reader yields depends on the line alone, however the stream was cut into reads.
pub proof fn law_later_bytes_leave_a_frame_alone(bytes: Seq<u8>, later: Seq<u8>, limit: nat)
    requires
        next_value(bytes, limit).1 is Err || next_value(bytes, limit).1->Ok_0 is Some,
    ensures
        next_value(bytes + later, limit) == (
            next_value(bytes, limit).0 + later,
            next_value(bytes, limit).1,
        ),
    decreases bytes.len(),
{
    lemma_line_end(bytes);
    let end = line_end(bytes);
    let all = bytes + later;
    assert forall|i: int| 0 <= i < end implies all[i] != 10 by {
        assert(all[i] == bytes[i]);
    }
    if end > limit {
        lemma_line_end(all);
        if line_end(all) < end {
            assert(all[line_end(all)] != 10);
        }
    } else {
        lemma_line_end_is(all, end);
        assert(all.take(end) =~= bytes.take(end));
        assert(all.skip(end + 1) =~= bytes.skip(end + 1) + later);
        if line_value(bytes.take(end)) == Ok::<Option<JsonView>, FrameErrorView>(None) {
            law_later_bytes_leave_a_frame_alone(bytes.skip(end + 1), later, limit);
        }
    }
}

/// Blank lines carry nothing: a keepalive newline leaves the next frame as it is.
pub proof fn law_blank_lines_are_skipped(blank: Seq<u8>, bytes: Seq<u8>, limit: nat)
    requires
        blank.len() <= limit,
        forall|i: int| 0 <= i < blank.len() ==> blank[i] != 10,
        line_value(blank) == Ok::<Option<JsonView>, FrameErrorView>(None),
    ensures
        next_value(blank.push(10) + bytes, limit) == next_value(bytes, limit),
{
    let all = blank.push(10) + bytes;
    let end = blank.len() as int;
    assert forall|i: int| 0 <= i < end implies all[i] != 10 by {
        assert(all[i] == blank[i]);
    }
    lemma_line_end_is(all, end);
    assert(all.take(end) =~= blank);
    assert(all.skip(end + 1) =~= bytes);
}

/// A line that grew beyond the limit is refused, whether or not its end has
/// arrived, and stays refused.
pub proof fn law_an_oversized_line_is_refused(bytes: Seq<u8>, limit: nat)
    requires
        bytes.len() > limit,
        forall|i: int| 0 <= i <= limit ==> bytes[i] != 10,
    ensures
        next_value(bytes, limit) == (
            bytes,
            Err::<Option<JsonView>, FrameErrorView>(FrameErrorView::TooLarge(limit)),
        ),
{
    lemma_line_end(bytes);
}

/// One frame as bytes: compact JSON followed by a single newline. A reader takes
/// the same value back from them.
pub fn write_frame(value: &Json) -> (bytes: Vec<u8>)
    ensures
        bytes@ == frame_bytes(value@),
        restorable(value@, MAX_DEPTH as nat) ==> carries(bytes@, value@),
{
    let text = value.render();
    proof {
        if restorable(value@, MAX_DEPTH as nat) {
            lemma_line_carries(text@, value@);
        }
    }
    let mut bytes = text.as_str().as_bytes_vec();
    bytes.push(10);
    bytes
}

/// A line is a frame once its end is there: what follows it stays for later, and what it
/// says is told, or why it says nothing. A line whose end is not there yet is waited for.
pub proof fn law_a_line_is_a_frame(line: Seq<u8>, rest: Seq<u8>, limit: nat)
    requires
        !line.contains(10),
        line.len() <= limit,
    ensures
        next_value(line, limit) == (line, Ok::<Option<JsonView>, FrameErrorView>(None)),
        line_value(line) == Ok::<Option<JsonView>, FrameErrorView>(None) ==> next_value(
            line.push(10) + rest,
            limit,
        ) == next_value(rest, limit),
        line_value(line) != Ok::<Option<JsonView>, FrameErrorView>(None) ==> next_value(
            line.push(10) + rest,
            limit,
        ) == (rest, line_value(line)),
{
    let whole = line.push(10) + rest;
    let end = line.len() as int;
    assert forall|i: int| 0 <= i < end implies line[i] != 10 by {
        assert(line.contains(line[i]));
    }
    lemma_ends_there(whole, end);
    assert(whole.take(end) =~= line);
    assert(whole.skip(end + 1) =~= rest);
    lemma_no_end(line);
}

proof fn lemma_ends_there(bytes: Seq<u8>, end: int)
    requires
        0 <= end < bytes.len(),
        bytes[end] == 10,
        forall|i: int| 0 <= i < end ==> bytes[i] != 10,
    ensures
        line_end(bytes) == end,
    decreases end,
{
    if end > 0 {
        let rest = bytes.drop_first();
        assert forall|i: int| 0 <= i < end - 1 implies rest[i] != 10 by {
            assert(bytes[i + 1] != 10);
        }
        lemma_ends_there(rest, end - 1);
    }
}

proof fn lemma_no_end(bytes: Seq<u8>)
    requires
        forall|i: int| 0 <= i < bytes.len() ==> bytes[i] != 10,
    ensures
        line_end(bytes) == bytes.len(),
    decreases bytes.len(),
{
    if bytes.len() > 0 {
        let rest = bytes.drop_first();
        assert forall|i: int| 0 <= i < rest.len() implies rest[i] != 10 by {
            assert(bytes[i + 1] != 10);
        }
        lemma_no_end(rest);
    }
}

/// What a line says: nothing where it is blank, the value of its text where that is one, and
/// otherwise why it is none, in few words.
pub proof fn law_a_line_says_what_its_text_is(line: Seq<u8>)
    ensures
        !valid_utf8(line) ==> line_value(line) == Err::<Option<JsonView>, FrameErrorView>(
            FrameErrorView::NotUtf8,
        ),
        valid_utf8(line) && trimmed(decode_utf8(line)).len() == 0 ==> line_value(line) == Ok::<
            Option<JsonView>,
            FrameErrorView,
        >(None),
        valid_utf8(line) && trimmed(decode_utf8(line)).len() > 0 ==> line_value(line) == (
        match parsed_json(trimmed(decode_utf8(line))) {
            Ok(value) => Ok::<Option<JsonView>, FrameErrorView>(Some(value)),
            Err(detail) => Err(FrameErrorView::Malformed(bounded_text(detail))),
        }),
{
}

} // verus!
