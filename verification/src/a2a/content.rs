//! What is stored of messages and artifacts, and how much of it.

use vstd::prelude::*;
use vstd::string::*;
use vstd::utf8::encode_utf8;

use crate::a2a::error::A2aError;
use crate::a2a::error::A2aErrorView;
use crate::a2a::wire::Artifact;
use crate::a2a::wire::Message;
use crate::a2a::wire::Part;
use crate::acp::result::optional;
use crate::ids::hyphenated;
use crate::ids::name_uuid;
use crate::ids::named_uuid;
use crate::ids::uuid_text;
use crate::ids::NAMESPACE_OID;
use crate::json::rendered_json;
use crate::text::byte_len;
use crate::text::utf8_len;

verus! {

/// Most parts of one message or artifact.
pub const MAX_PARTS: usize = 64;

/// Most artifacts of one task.
pub const MAX_ARTIFACTS: usize = 16;

/// Most content of one message, or of the artifacts of one task, in bytes.
pub const MAX_CONTENT_BYTES: usize = 1_048_576;

/// Most content of one file carried in a part, in bytes.
pub const MAX_INLINE_FILE_BYTES: usize = 262_144;

/// A part as it is stored, as data.
pub ghost struct EncodedView {
    pub kind: Seq<char>,
    pub mime: Option<Seq<char>>,
    pub text: Option<Seq<char>>,
    pub json: Option<Seq<char>>,
    pub blob: Option<Seq<u8>>,
    pub bytes: int,
    pub hash: Seq<char>,
}

/// A part as it is stored.
#[derive(Debug, Clone, PartialEq, Eq)]
pub struct EncodedPart {
    pub kind: &'static str,
    pub mime: Option<String>,
    pub text: Option<String>,
    pub json: Option<String>,
    pub blob: Option<Vec<u8>>,
    /// How much content the part is.
    pub bytes: usize,
    /// What the content is known by.
    pub hash: String,
}

impl View for EncodedPart {
    type V = EncodedView;

    open spec fn view(&self) -> EncodedView {
        EncodedView {
            kind: self.kind@,
            mime: optional(self.mime),
            text: optional(self.text),
            json: optional(self.json),
            blob: match self.blob {
                Some(blob) => Some(blob@),
                None => None,
            },
            bytes: self.bytes as int,
            hash: self.hash@,
        }
    }
}

/// What content is known by: an identifier made of its bytes.
pub open spec fn content_hash(content: Seq<u8>) -> Seq<char> {
    hyphenated(named_uuid(NAMESPACE_OID, content))
}

/// What content is known by: an identifier made of its bytes.
pub fn hash_of(content: &[u8]) -> (hash: String)
    ensures
        hash@ == content_hash(content@),
{
    uuid_text(name_uuid(NAMESPACE_OID, content))
}

/// How a part is stored. A file elsewhere is not.
pub open spec fn encoded(part: Part) -> Result<EncodedView, A2aErrorView> {
    match part {
        Part::Text { text } => Ok(
            EncodedView {
                kind: "text"@,
                mime: None,
                text: Some(text@),
                json: None,
                blob: None,
                bytes: utf8_len(text@) as int,
                hash: content_hash(encode_utf8(text@)),
            },
        ),
        Part::Data { data } => {
            let value = rendered_json(data@);
            Ok(
                EncodedView {
                    kind: "data"@,
                    mime: None,
                    text: None,
                    json: Some(value),
                    blob: None,
                    bytes: utf8_len(value) as int,
                    hash: content_hash(encode_utf8(value)),
                },
            )
        },
        Part::FileInline { mime_type, data } => if utf8_len(data@) > MAX_INLINE_FILE_BYTES {
            Err(A2aErrorView::TooLarge)
        } else {
            Ok(
                EncodedView {
                    kind: "file_inline"@,
                    mime: Some(mime_type@),
                    text: None,
                    json: None,
                    blob: Some(encode_utf8(data@)),
                    bytes: utf8_len(data@) as int,
                    hash: content_hash(encode_utf8(data@)),
                },
            )
        },
        Part::FileUri { mime_type: _, uri: _ } => Err(A2aErrorView::Unsupported),
    }
}

/// How a part is stored.
pub fn encode(part: &Part) -> (row: Result<EncodedPart, A2aError>)
    ensures
        match row {
            Ok(row) => encoded(*part) == Ok::<EncodedView, A2aErrorView>(row@),
            Err(error) => encoded(*part) == Err::<EncodedView, A2aErrorView>(error@),
        },
{
    match part {
        Part::Text { text } => {
            let bytes: usize = byte_len(text.as_str());
            let hash = hash_of(text.as_str().as_bytes());
            Ok(
                EncodedPart {
                    kind: "text",
                    mime: None,
                    text: Some(text.clone()),
                    json: None,
                    blob: None,
                    bytes,
                    hash,
                },
            )
        },
        Part::Data { data } => {
            let value = data.render();
            let bytes: usize = byte_len(value.as_str());
            let hash = hash_of(value.as_str().as_bytes());
            Ok(
                EncodedPart {
                    kind: "data",
                    mime: None,
                    text: None,
                    json: Some(value),
                    blob: None,
                    bytes,
                    hash,
                },
            )
        },
        Part::FileInline { mime_type, data } => {
            let bytes: usize = byte_len(data.as_str());
            if bytes > MAX_INLINE_FILE_BYTES {
                return Err(A2aError::TooLarge);
            }
            let hash = hash_of(data.as_str().as_bytes());
            let blob = data.as_str().as_bytes_vec();
            Ok(
                EncodedPart {
                    kind: "file_inline",
                    mime: Some(mime_type.clone()),
                    text: None,
                    json: None,
                    blob: Some(blob),
                    bytes,
                    hash,
                },
            )
        },
        Part::FileUri { mime_type: _, uri: _ } => Err(A2aError::Unsupported),
    }
}

/// The rows of `parts` and the content so far, where there were `before` bytes
/// already: the first part that cannot be stored, or that exceeds the bound on
/// content, is the failure.
pub open spec fn collected(parts: Seq<Part>, before: int) -> Result<
    (Seq<EncodedView>, int),
    A2aErrorView,
>
    decreases parts.len(),
{
    if parts.len() == 0 {
        Ok((Seq::empty(), before))
    } else {
        match collected(parts.drop_last(), before) {
            Err(error) => Err(error),
            Ok((rows, total)) => match encoded(parts.last()) {
                Err(error) => Err(error),
                Ok(row) => if total + row.bytes > MAX_CONTENT_BYTES {
                    Err(A2aErrorView::TooLarge)
                } else {
                    Ok((rows.push(row), total + row.bytes))
                },
            },
        }
    }
}

/// Rows as data.
pub open spec fn row_views(rows: Seq<EncodedPart>) -> Seq<EncodedView> {
    rows.map_values(|row: EncodedPart| row@)
}

/// A failure stays one.
proof fn lemma_collected_fails(parts: Seq<Part>, len: int, before: int)
    requires
        0 <= len <= parts.len(),
        collected(parts.take(len), before) is Err,
    ensures
        collected(parts, before) == collected(parts.take(len), before),
    decreases parts.len(),
{
    if len < parts.len() {
        assert(parts.drop_last().take(len) =~= parts.take(len));
        lemma_collected_fails(parts.drop_last(), len, before);
    } else {
        assert(parts.take(len) =~= parts);
    }
}

/// The rows of `parts`, where there were `before` bytes already.
fn collect(parts: &Vec<Part>, before: usize) -> (content: Result<
    (Vec<EncodedPart>, usize),
    A2aError,
>)
    requires
        before <= MAX_CONTENT_BYTES,
    ensures
        match content {
            Ok((rows, total)) => collected(parts@, before as int) == Ok::<
                (Seq<EncodedView>, int),
                A2aErrorView,
            >((row_views(rows@), total as int)) && total <= MAX_CONTENT_BYTES,
            Err(error) => collected(parts@, before as int) == Err::<
                (Seq<EncodedView>, int),
                A2aErrorView,
            >(error@),
        },
{
    let mut rows: Vec<EncodedPart> = Vec::new();
    let mut total: usize = before;
    let mut i: usize = 0;
    assert(row_views(rows@) =~= Seq::empty());
    while i < parts.len()
        invariant
            i <= parts@.len(),
            total <= MAX_CONTENT_BYTES,
            collected(parts@.take(i as int), before as int) == Ok::<
                (Seq<EncodedView>, int),
                A2aErrorView,
            >((row_views(rows@), total as int)),
        decreases parts@.len() - i,
    {
        let ghost held = rows@;
        assert(parts@.take(i + 1).drop_last() =~= parts@.take(i as int));
        assert(parts@.take(i + 1).last() == parts@[i as int]);
        match encode(&parts[i]) {
            Err(error) => {
                proof {
                    lemma_collected_fails(parts@, i + 1, before as int);
                }
                return Err(error);
            },
            Ok(row) => {
                if row.bytes > MAX_CONTENT_BYTES - total {
                    proof {
                        lemma_collected_fails(parts@, i + 1, before as int);
                    }
                    return Err(A2aError::TooLarge);
                }
                total = total + row.bytes;
                rows.push(row);
                assert(row_views(rows@) =~= row_views(held).push(row@));
            },
        }
        i = i + 1;
    }
    assert(parts@.take(i as int) =~= parts@);
    Ok((rows, total))
}

/// The rows of a message and its content in bytes.
pub open spec fn message_rows(message: Message) -> Result<(Seq<EncodedView>, int), A2aErrorView> {
    if message.parts@.len() > MAX_PARTS {
        Err(A2aErrorView::TooLarge)
    } else {
        collected(message.parts@, 0)
    }
}

/// The rows of a message and its content in bytes, where its parts can be stored
/// and stay within their bounds.
pub fn message_content(message: &Message) -> (content: Result<(Vec<EncodedPart>, usize), A2aError>)
    ensures
        match content {
            Ok((rows, total)) => message_rows(*message) == Ok::<
                (Seq<EncodedView>, int),
                A2aErrorView,
            >((row_views(rows@), total as int)) && total <= MAX_CONTENT_BYTES,
            Err(error) => message_rows(*message) == Err::<(Seq<EncodedView>, int), A2aErrorView>(
                error@,
            ),
        },
{
    if message.parts.len() > MAX_PARTS {
        return Err(A2aError::TooLarge);
    }
    collect(&message.parts, 0)
}

/// The rows of each artifact and their content in bytes.
pub open spec fn artifact_rows(artifacts: Seq<Artifact>) -> Result<
    (Seq<Seq<EncodedView>>, int),
    A2aErrorView,
>
    decreases artifacts.len(),
{
    if artifacts.len() == 0 {
        Ok((Seq::empty(), 0))
    } else {
        match artifact_rows(artifacts.drop_last()) {
            Err(error) => Err(error),
            Ok((lists, total)) => if artifacts.last().parts@.len() > MAX_PARTS {
                Err(A2aErrorView::TooLarge)
            } else {
                match collected(artifacts.last().parts@, total) {
                    Err(error) => Err(error),
                    Ok((rows, total)) => Ok((lists.push(rows), total)),
                }
            },
        }
    }
}

/// The rows of the artifacts of a task, which may not be too many.
pub open spec fn artifacts_rows(artifacts: Seq<Artifact>) -> Result<
    (Seq<Seq<EncodedView>>, int),
    A2aErrorView,
> {
    if artifacts.len() > MAX_ARTIFACTS {
        Err(A2aErrorView::TooLarge)
    } else {
        artifact_rows(artifacts)
    }
}

/// A failure stays one.
proof fn lemma_artifacts_fail(artifacts: Seq<Artifact>, len: int)
    requires
        0 <= len <= artifacts.len(),
        artifact_rows(artifacts.take(len)) is Err,
    ensures
        artifact_rows(artifacts) == artifact_rows(artifacts.take(len)),
    decreases artifacts.len(),
{
    if len < artifacts.len() {
        assert(artifacts.drop_last().take(len) =~= artifacts.take(len));
        lemma_artifacts_fail(artifacts.drop_last(), len);
    } else {
        assert(artifacts.take(len) =~= artifacts);
    }
}

/// The rows of several artifacts as data.
pub open spec fn list_views(lists: Seq<Vec<EncodedPart>>) -> Seq<Seq<EncodedView>> {
    lists.map_values(|rows: Vec<EncodedPart>| row_views(rows@))
}

/// The rows of the artifacts of a task and their content in bytes, where they can
/// be stored and stay within their bounds.
pub fn artifacts_content(artifacts: &Vec<Artifact>) -> (content: Result<
    (Vec<Vec<EncodedPart>>, usize),
    A2aError,
>)
    ensures
        match content {
            Ok((lists, total)) => artifacts_rows(artifacts@) == Ok::<
                (Seq<Seq<EncodedView>>, int),
                A2aErrorView,
            >((list_views(lists@), total as int)) && total <= MAX_CONTENT_BYTES,
            Err(error) => artifacts_rows(artifacts@) == Err::<
                (Seq<Seq<EncodedView>>, int),
                A2aErrorView,
            >(error@),
        },
{
    if artifacts.len() > MAX_ARTIFACTS {
        return Err(A2aError::TooLarge);
    }
    let mut lists: Vec<Vec<EncodedPart>> = Vec::new();
    let mut total: usize = 0;
    let mut i: usize = 0;
    assert(list_views(lists@) =~= Seq::empty());
    while i < artifacts.len()
        invariant
            i <= artifacts@.len(),
            artifacts@.len() <= MAX_ARTIFACTS,
            total <= MAX_CONTENT_BYTES,
            artifact_rows(artifacts@.take(i as int)) == Ok::<
                (Seq<Seq<EncodedView>>, int),
                A2aErrorView,
            >((list_views(lists@), total as int)),
        decreases artifacts@.len() - i,
    {
        let ghost held = lists@;
        assert(artifacts@.take(i + 1).drop_last() =~= artifacts@.take(i as int));
        assert(artifacts@.take(i + 1).last() == artifacts@[i as int]);
        if artifacts[i].parts.len() > MAX_PARTS {
            proof {
                lemma_artifacts_fail(artifacts@, i + 1);
            }
            return Err(A2aError::TooLarge);
        }
        match collect(&artifacts[i].parts, total) {
            Err(error) => {
                proof {
                    lemma_artifacts_fail(artifacts@, i + 1);
                }
                return Err(error);
            },
            Ok((rows, sum)) => {
                total = sum;
                lists.push(rows);
                assert(list_views(lists@) =~= list_views(held).push(row_views(rows@)));
            },
        }
        i = i + 1;
    }
    assert(artifacts@.take(i as int) =~= artifacts@);
    Ok((lists, total))
}

/// The content of rows.
pub open spec fn content_bytes(rows: Seq<EncodedView>) -> int
    decreases rows.len(),
{
    if rows.len() == 0 {
        0
    } else {
        content_bytes(rows.drop_last()) + rows.last().bytes
    }
}

/// What is counted is what is stored: the content of a stored message is the sum of
/// its rows, one row for each part, and within the bound.
pub proof fn law_stored_content_is_counted(parts: Seq<Part>, before: int)
    requires
        0 <= before <= MAX_CONTENT_BYTES,
        collected(parts, before) is Ok,
    ensures
        ({
            let (rows, total) = collected(parts, before)->Ok_0;
            &&& rows.len() == parts.len()
            &&& total == before + content_bytes(rows)
            &&& total <= MAX_CONTENT_BYTES
        }),
    decreases parts.len(),
{
    if parts.len() > 0 {
        law_stored_content_is_counted(parts.drop_last(), before);
        let (rows, total) = collected(parts, before)->Ok_0;
        assert(rows.drop_last() =~= collected(parts.drop_last(), before)->Ok_0.0);
    }
}

/// What is stored of a part is the part: its text, its data as text, or its file with the
/// type of it, counted and hashed as it is stored. A file that is only named, or that is
/// too large, is not stored.
pub proof fn law_a_stored_part_is_the_part(part: Part)
    ensures
        match part {
            Part::Text { text } => encoded(part) matches Ok(row) && row.kind == "text"@
                && row.text == Some(text@) && row.mime is None && row.json is None && row.blob
                is None && row.bytes == utf8_len(text@) && row.hash == content_hash(
                encode_utf8(text@),
            ),
            Part::Data { data } => encoded(part) matches Ok(row) && row.kind == "data"@
                && row.json == Some(rendered_json(data@)) && row.mime is None && row.text is None
                && row.blob is None && row.bytes == utf8_len(rendered_json(data@)) && row.hash
                == content_hash(encode_utf8(rendered_json(data@))),
            Part::FileInline { mime_type, data } => if utf8_len(data@) <= 262_144 {
                encoded(part) matches Ok(row) && row.kind == "file_inline"@ && row.mime == Some(
                    mime_type@,
                ) && row.blob == Some(encode_utf8(data@)) && row.text is None && row.json is None
                    && row.bytes == utf8_len(data@) && row.hash == content_hash(encode_utf8(data@))
            } else {
                encoded(part) == Err::<EncodedView, A2aErrorView>(A2aErrorView::TooLarge)
            },
            Part::FileUri { .. } => encoded(part) == Err::<EncodedView, A2aErrorView>(
                A2aErrorView::Unsupported,
            ),
        },
{
}

/// Every part is stored, in order, or the content is refused for a part that cannot be
/// stored or for being too large.
pub proof fn law_every_part_is_stored_or_none(parts: Seq<Part>, before: int)
    ensures
        match collected(parts, before) {
            Ok((rows, _)) => rows.len() == parts.len() && forall|i: int|
                0 <= i < parts.len() ==> encoded(#[trigger] parts[i]) == Ok::<
                    EncodedView,
                    A2aErrorView,
                >(rows[i]),
            Err(error) => error is TooLarge || exists|i: int|
                0 <= i < parts.len() && encoded(#[trigger] parts[i]) == Err::<
                    EncodedView,
                    A2aErrorView,
                >(error),
        },
    decreases parts.len(),
{
    if parts.len() > 0 {
        let rest = parts.drop_last();
        law_every_part_is_stored_or_none(rest, before);
        match collected(parts, before) {
            Ok((rows, _)) => {
                assert forall|i: int| 0 <= i < parts.len() implies encoded(#[trigger] parts[i])
                    == Ok::<EncodedView, A2aErrorView>(rows[i]) by {
                    if i < rest.len() {
                        assert(encoded(rest[i]) == Ok::<EncodedView, A2aErrorView>(rows[i]));
                    }
                }
            },
            Err(error) => {
                if !(error is TooLarge) {
                    if collected(rest, before) is Err {
                        let i = choose|i: int|
                            0 <= i < rest.len() && encoded(#[trigger] rest[i]) == Err::<
                                EncodedView,
                                A2aErrorView,
                            >(error);
                        assert(encoded(parts[i]) == Err::<EncodedView, A2aErrorView>(error));
                    } else {
                        assert(encoded(parts[parts.len() - 1]) == Err::<
                            EncodedView,
                            A2aErrorView,
                        >(error));
                    }
                }
            },
        }
    }
}

/// Content is refused as too large only where it is: a message has more parts than allowed,
/// or its content would be more than allowed.
pub proof fn law_content_within_its_bounds_is_stored(message: Message)
    requires
        message.parts@.len() <= 64,
        forall|i: int| 0 <= i < message.parts@.len() ==> encoded(#[trigger] message.parts@[i]) is Ok,
        part_bytes(message.parts@) <= 1_048_576,
    ensures
        message_rows(message) matches Ok((_, total)) && total == part_bytes(message.parts@),
{
    lemma_content_fits(message.parts@);
}

/// How much content parts are that can be stored.
pub open spec fn part_bytes(parts: Seq<Part>) -> int
    decreases parts.len(),
{
    if parts.len() == 0 {
        0
    } else {
        part_bytes(parts.drop_last()) + (match encoded(parts.last()) {
            Ok(row) => row.bytes,
            Err(_) => 0,
        })
    }
}

proof fn lemma_content_fits(parts: Seq<Part>)
    requires
        forall|i: int| 0 <= i < parts.len() ==> encoded(#[trigger] parts[i]) is Ok,
        part_bytes(parts) <= MAX_CONTENT_BYTES,
    ensures
        collected(parts, 0) matches Ok((_, total)) && total == part_bytes(parts),
        part_bytes(parts) >= 0,
    decreases parts.len(),
{
    if parts.len() > 0 {
        let rest = parts.drop_last();
        assert forall|i: int| 0 <= i < rest.len() implies encoded(#[trigger] rest[i]) is Ok by {
            assert(encoded(parts[i]) is Ok);
        }
        assert(encoded(parts[parts.len() - 1]) is Ok);
        assert(encoded(parts.last())->Ok_0.bytes >= 0);
        lemma_content_fits(rest);
    }
}

/// Every artifact is stored with its parts, in order, counted together.
pub proof fn law_every_artifact_is_stored(artifacts: Seq<Artifact>)
    requires
        artifacts_rows(artifacts) is Ok,
    ensures
        ({
            let (lists, total) = artifacts_rows(artifacts)->Ok_0;
            &&& artifacts.len() <= 16
            &&& lists.len() == artifacts.len()
            &&& forall|i: int, k: int|
                0 <= i < artifacts.len() && 0 <= k < artifacts[i].parts@.len() ==> lists[i].len()
                    == artifacts[i].parts@.len() && encoded(#[trigger] artifacts[i].parts@[k])
                    == Ok::<EncodedView, A2aErrorView>(lists[i][k])
            &&& forall|i: int| 0 <= i < artifacts.len() ==> (#[trigger] artifacts[i]).parts@.len()
                <= 64
            &&& total <= 1_048_576
        }),
{
    lemma_artifacts_stored(artifacts);
}

proof fn lemma_artifacts_stored(artifacts: Seq<Artifact>)
    requires
        artifact_rows(artifacts) is Ok,
    ensures
        ({
            let (lists, total) = artifact_rows(artifacts)->Ok_0;
            &&& lists.len() == artifacts.len()
            &&& forall|i: int, k: int|
                0 <= i < artifacts.len() && 0 <= k < artifacts[i].parts@.len() ==> lists[i].len()
                    == artifacts[i].parts@.len() && encoded(#[trigger] artifacts[i].parts@[k])
                    == Ok::<EncodedView, A2aErrorView>(lists[i][k])
            &&& forall|i: int| 0 <= i < artifacts.len() ==> (#[trigger] artifacts[i]).parts@.len()
                <= MAX_PARTS
            &&& 0 <= total <= MAX_CONTENT_BYTES
        }),
    decreases artifacts.len(),
{
    if artifacts.len() > 0 {
        let rest = artifacts.drop_last();
        let last = artifacts.len() - 1;
        lemma_artifacts_stored(rest);
        let (earlier, before) = artifact_rows(rest)->Ok_0;
        let parts = artifacts[last].parts@;
        law_every_part_is_stored_or_none(parts, before);
        law_stored_content_is_counted(parts, before);
        lemma_content_is_counted_up(parts, before);
        let (lists, total) = artifact_rows(artifacts)->Ok_0;
        assert forall|i: int, k: int|
            0 <= i < artifacts.len() && 0 <= k
                < artifacts[i].parts@.len() implies lists[i].len() == artifacts[i].parts@.len()
            && encoded(#[trigger] artifacts[i].parts@[k]) == Ok::<EncodedView, A2aErrorView>(
            lists[i][k],
        ) by {
            if i < last {
                assert(rest[i] == artifacts[i]);
                assert(lists[i] == earlier[i]);
                assert(encoded(rest[i].parts@[k]) == Ok::<EncodedView, A2aErrorView>(
                    earlier[i][k],
                ));
            }
        }
        assert forall|i: int| 0 <= i < artifacts.len() implies (
        #[trigger] artifacts[i]).parts@.len() <= MAX_PARTS by {
            if i < last {
                assert(rest[i] == artifacts[i]);
            }
        }
    }
}

proof fn lemma_content_is_counted_up(parts: Seq<Part>, before: int)
    requires
        collected(parts, before) is Ok,
    ensures
        collected(parts, before)->Ok_0.1 >= before,
    decreases parts.len(),
{
    if parts.len() > 0 {
        lemma_content_is_counted_up(parts.drop_last(), before);
    }
}

} // verus!
