//! Sessions as they are stored.
//!
//! A session is bound to an endpoint, a conversation, a working directory and the
//! backend it was negotiated with. The last three, with the protocol version and
//! the further directories, are folded into one compatibility hash.

use vstd::prelude::*;
use vstd::string::*;
use vstd::utf8::encode_utf8;

use crate::acp::schema::texts_json;
use crate::acp::schema::texts_value;
use crate::acp::schema::PROTOCOL_VERSION;
use crate::ids::hex_char;
use crate::ids::ConversationId;
use crate::ids::EndpointId;
use crate::json::rendered_json;
use crate::storage::StorageError;
use crate::storage::StorageErrorView;
use crate::text::byte_len;
use crate::text::same_text;
use crate::text::utf8_len;
use crate::text::views;
use crate::time::Timestamp;

verus! {

/// The largest session id the adapter accepts, in bytes.
pub const MAX_SESSION_ID_BYTES: usize = 256;

/// Where a session is in its life cycle.
#[derive(Debug, Clone, Copy, PartialEq, Eq, Structural)]
pub enum SessionState {
    /// The session exists and runs no prompt.
    Ready,
    /// A turn is in flight.
    Prompting,
    /// The session is finished; the row is kept as history.
    Closed,
}

impl SessionState {
    /// The stored text.
    pub open spec fn stored(self) -> Seq<char> {
        match self {
            SessionState::Ready => "ready"@,
            SessionState::Prompting => "prompting"@,
            SessionState::Closed => "closed"@,
        }
    }

    /// The stored text.
    pub fn as_str(self) -> (text: &'static str)
        ensures
            text@ == self.stored(),
    {
        match self {
            SessionState::Ready => "ready",
            SessionState::Prompting => "prompting",
            SessionState::Closed => "closed",
        }
    }

    /// The state of a stored text, read from `field`.
    pub fn from_text(text: &str, field: &str) -> (state: Result<SessionState, StorageError>)
        ensures
            match state {
                Ok(state) => text@ == state.stored(),
                Err(error) => (forall|state: SessionState| text@ != #[trigger] state.stored())
                    && error@ == (StorageErrorView::Malformed {
                    field: field@,
                    detail: "unknown session state"@,
                }),
            },
    {
        if same_text(text, "ready") {
            Ok(SessionState::Ready)
        } else if same_text(text, "prompting") {
            Ok(SessionState::Prompting)
        } else if same_text(text, "closed") {
            Ok(SessionState::Closed)
        } else {
            Err(StorageError::malformed(field, "unknown session state"))
        }
    }
}

/// A state is read back from its stored text, and only from that.
pub proof fn law_a_stored_state_is_one_state(a: SessionState, b: SessionState)
    requires
        a.stored() == b.stored(),
    ensures
        a == b,
{
    reveal_strlit("ready");
    reveal_strlit("prompting");
    reveal_strlit("closed");
    assert("ready"@[0] == 'r');
    assert("prompting"@[0] == 'p');
    assert("closed"@[0] == 'c');
}

/// What `sha2::Sha256` digests bytes to.
pub uninterp spec fn sha256_digest(bytes: Seq<u8>) -> Seq<u8>;

/// `sha2::Sha256::digest`: the digest of `bytes`, which is 32 bytes long.
#[verifier::external_body]
fn sha256(bytes: &[u8]) -> (digest: Vec<u8>)
    ensures
        digest@ == sha256_digest(bytes@),
        digest@.len() == 32,
{
    <sha2::Sha256 as sha2::Digest>::digest(bytes).to_vec()
}

/// `n` as `width` bytes, the most significant first.
pub open spec fn be_bytes(n: nat, width: nat) -> Seq<u8>
    decreases width,
{
    if width == 0 {
        Seq::empty()
    } else {
        be_bytes(n / 256, (width - 1) as nat).push((n % 256) as u8)
    }
}

/// The values in order, each behind its length in eight bytes.
pub open spec fn framed(values: Seq<Seq<u8>>) -> Seq<u8>
    decreases values.len(),
{
    if values.len() == 0 {
        Seq::empty()
    } else {
        framed(values.drop_last()) + be_bytes(values.last().len(), 8) + values.last()
    }
}

/// Every byte as two lower-case hexadecimal digits.
pub open spec fn hex_text(bytes: Seq<u8>) -> Seq<char>
    decreases bytes.len(),
{
    if bytes.len() == 0 {
        Seq::empty()
    } else {
        hex_text(bytes.drop_last()).push(hex_char(bytes.last() as int / 16)).push(
            hex_char(bytes.last() as int % 16),
        )
    }
}

/// What a session must agree on to be resumed.
pub open spec fn compatibility_values(
    backend_id: Seq<char>,
    protocol: u16,
    cwd: Seq<char>,
    roots: Seq<Seq<char>>,
) -> Seq<Seq<u8>> {
    seq![encode_utf8(backend_id), be_bytes(protocol as nat, 2), encode_utf8(cwd)]
        + roots.map_values(|root: Seq<char>| encode_utf8(root))
}

/// The compatibility hash of a session.
pub open spec fn compatibility(
    backend_id: Seq<char>,
    protocol: u16,
    cwd: Seq<char>,
    roots: Seq<Seq<char>>,
) -> Seq<char> {
    hex_text(sha256_digest(framed(compatibility_values(backend_id, protocol, cwd, roots))))
}

/// Append `n` as `width` bytes, the most significant first.
fn push_be(bytes: &mut Vec<u8>, n: u64, width: u8)
    ensures
        final(bytes)@ == old(bytes)@ + be_bytes(n as nat, width as nat),
    decreases width,
{
    if width > 0 {
        push_be(bytes, n / 256, width - 1);
        bytes.push((n % 256) as u8);
    }
    assert(bytes@ =~= old(bytes)@ + be_bytes(n as nat, width as nat));
}

/// Append a value behind its length.
fn push_framed(bytes: &mut Vec<u8>, value: &[u8], Ghost(before): Ghost<Seq<Seq<u8>>>)
    requires
        old(bytes)@ == framed(before),
    ensures
        final(bytes)@ == framed(before.push(value@)),
{
    push_be(bytes, value.len() as u64, 8);
    let mut i: usize = 0;
    let ghost start = bytes@;
    assert(bytes@ =~= start + value@.take(0));
    while i < value.len()
        invariant
            i <= value@.len(),
            bytes@ == start + value@.take(i as int),
        decreases value@.len() - i,
    {
        bytes.push(value[i]);
        i = i + 1;
        assert(bytes@ =~= start + value@.take(i as int));
    }
    assert(value@.take(i as int) =~= value@);
    assert(before.push(value@).drop_last() =~= before);
}

/// The text of one hexadecimal digit.
fn nibble(d: u8) -> (text: &'static str)
    requires
        d < 16,
    ensures
        text@ == seq![hex_char(d as int)],
{
    proof {
        reveal_strlit("0");
        reveal_strlit("1");
        reveal_strlit("2");
        reveal_strlit("3");
        reveal_strlit("4");
        reveal_strlit("5");
        reveal_strlit("6");
        reveal_strlit("7");
        reveal_strlit("8");
        reveal_strlit("9");
        reveal_strlit("a");
        reveal_strlit("b");
        reveal_strlit("c");
        reveal_strlit("d");
        reveal_strlit("e");
        reveal_strlit("f");
    }
    let text = match d {
        0 => "0",
        1 => "1",
        2 => "2",
        3 => "3",
        4 => "4",
        5 => "5",
        6 => "6",
        7 => "7",
        8 => "8",
        9 => "9",
        10 => "a",
        11 => "b",
        12 => "c",
        13 => "d",
        14 => "e",
        _ => "f",
    };
    assert(text@ =~= seq![hex_char(d as int)]);
    text
}

/// Every byte as two lower-case hexadecimal digits.
fn to_hex(bytes: &Vec<u8>) -> (text: String)
    ensures
        text@ == hex_text(bytes@),
{
    let mut text = String::new();
    let mut i: usize = 0;
    while i < bytes.len()
        invariant
            i <= bytes@.len(),
            text@ == hex_text(bytes@.take(i as int)),
        decreases bytes@.len() - i,
    {
        let ghost before = text@;
        text.append(nibble(bytes[i] / 16));
        text.append(nibble(bytes[i] % 16));
        assert(bytes@.take(i + 1).drop_last() =~= bytes@.take(i as int));
        assert(text@ =~= hex_text(bytes@.take(i + 1)));
        i = i + 1;
    }
    assert(bytes@.take(i as int) =~= bytes@);
    text
}

/// The compatibility hash of a session: what it is bound to, framed so that no two
/// bindings read the same, and digested.
pub fn compatibility_hash(backend_id: &str, protocol: u16, cwd: &str, roots: &Vec<String>) -> (hash:
    String)
    ensures
        hash@ == compatibility(backend_id@, protocol, cwd@, views(roots@)),
{
    let mut bytes: Vec<u8> = Vec::new();
    let mut version: Vec<u8> = Vec::new();
    push_be(&mut version, protocol as u64, 2);
    assert(version@ =~= be_bytes(protocol as nat, 2));
    let ghost mut done: Seq<Seq<u8>> = Seq::empty();
    push_framed(&mut bytes, backend_id.as_bytes(), Ghost(done));
    proof {
        done = done.push(encode_utf8(backend_id@));
    }
    push_framed(&mut bytes, version.as_slice(), Ghost(done));
    proof {
        done = done.push(version@);
    }
    push_framed(&mut bytes, cwd.as_bytes(), Ghost(done));
    proof {
        done = done.push(encode_utf8(cwd@));
    }
    let mut i: usize = 0;
    let ghost all = compatibility_values(backend_id@, protocol, cwd@, views(roots@));
    assert(done =~= all.take(3));
    while i < roots.len()
        invariant
            i <= roots@.len(),
            all == compatibility_values(backend_id@, protocol, cwd@, views(roots@)),
            done == all.take(3 + i),
            bytes@ == framed(done),
        decreases roots@.len() - i,
    {
        push_framed(&mut bytes, roots[i].as_str().as_bytes(), Ghost(done));
        proof {
            done = done.push(encode_utf8(roots@[i as int]@));
            assert(done =~= all.take(3 + i + 1));
        }
        i = i + 1;
    }
    assert(all.take(3 + i) =~= all);
    to_hex(&sha256(bytes.as_slice()))
}

/// A number below 256 to the power of the width is told by its bytes.
proof fn lemma_be_bytes(n: nat, width: nat)
    ensures
        be_bytes(n, width).len() == width,
    decreases width,
{
    if width > 0 {
        lemma_be_bytes(n / 256, (width - 1) as nat);
    }
}

/// The largest number that fits in `width` bytes, plus one.
pub open spec fn span_of(width: nat) -> nat
    decreases width,
{
    if width == 0 {
        1
    } else {
        256 * span_of((width - 1) as nat)
    }
}

/// Numbers that fit and read the same are the same.
proof fn lemma_be_bytes_injective(a: nat, b: nat, width: nat)
    requires
        a < span_of(width),
        b < span_of(width),
        be_bytes(a, width) == be_bytes(b, width),
    ensures
        a == b,
    decreases width,
{
    if width > 0 {
        let less = (width - 1) as nat;
        let left = be_bytes(a, width);
        let right = be_bytes(b, width);
        assert(left.drop_last() =~= be_bytes(a / 256, less));
        assert(right.drop_last() =~= be_bytes(b / 256, less));
        assert(left.last() == (a % 256) as u8);
        assert(right.last() == (b % 256) as u8);
        lemma_be_bytes_injective(a / 256, b / 256, less);
    }
}

/// One more value in front.
proof fn lemma_framed_first(values: Seq<Seq<u8>>)
    requires
        values.len() > 0,
    ensures
        framed(values) == be_bytes(values[0].len(), 8) + values[0] + framed(values.drop_first()),
    decreases values.len(),
{
    if values.len() == 1 {
        assert(values.drop_last() =~= Seq::empty());
        assert(values.drop_first() =~= Seq::empty());
        assert(framed(values) =~= be_bytes(values[0].len(), 8) + values[0] + framed(
            values.drop_first(),
        ));
    } else {
        lemma_framed_first(values.drop_last());
        assert(values.drop_last().drop_first() =~= values.drop_first().drop_last());
        assert(framed(values) =~= be_bytes(values[0].len(), 8) + values[0] + framed(
            values.drop_first(),
        ));
    }
}

/// What is hashed tells its parts apart: two lists of values that are framed the
/// same are the same list, so no two bindings of a session are confused before
/// they are digested.
pub proof fn law_framing_keeps_values_apart(a: Seq<Seq<u8>>, b: Seq<Seq<u8>>)
    requires
        framed(a) == framed(b),
        forall|i: int| 0 <= i < a.len() ==> (#[trigger] a[i]).len() <= u64::MAX,
        forall|i: int| 0 <= i < b.len() ==> (#[trigger] b[i]).len() <= u64::MAX,
    ensures
        a == b,
    decreases a.len(),
{
    if a.len() > 0 {
        lemma_framed_first(a);
        lemma_be_bytes(a[0].len(), 8);
        assert(framed(a).len() >= 8);
    }
    if b.len() > 0 {
        lemma_framed_first(b);
        lemma_be_bytes(b[0].len(), 8);
        assert(framed(b).len() >= 8);
    }
    if a.len() == 0 || b.len() == 0 {
        assert(a =~= b);
    } else {
        let whole = framed(a);
        assert(whole.take(8) =~= be_bytes(a[0].len(), 8));
        assert(whole.take(8) =~= be_bytes(b[0].len(), 8));
        assert(span_of(8) == 0x1_0000_0000_0000_0000) by {
            reveal_with_fuel(span_of, 9);
        }
        lemma_be_bytes_injective(a[0].len(), b[0].len(), 8);
        let end = 8 + a[0].len();
        assert(whole.subrange(8, end as int) =~= a[0]);
        assert(whole.subrange(8, end as int) =~= b[0]);
        assert(whole.skip(end as int) =~= framed(a.drop_first()));
        assert(whole.skip(end as int) =~= framed(b.drop_first()));
        law_framing_keeps_values_apart(a.drop_first(), b.drop_first());
        assert(a =~= seq![a[0]] + a.drop_first());
        assert(b =~= seq![b[0]] + b.drop_first());
    }
}

/// A stored session as data.
pub ghost struct SessionView {
    pub session_id: Seq<char>,
    pub endpoint_id: EndpointId,
    pub conversation_id: ConversationId,
    pub cwd: Seq<char>,
    pub additional_directories: Seq<char>,
    pub compatibility_version: u16,
    pub compatibility_hash: Seq<char>,
    pub backend_id: Seq<char>,
    pub protocol_version: u16,
    pub state: SessionState,
    pub created_at: Timestamp,
    pub updated_at: Timestamp,
}

/// A session that the agent accepted at `at`.
pub open spec fn accepted_session(
    session_id: Seq<char>,
    endpoint_id: EndpointId,
    conversation_id: ConversationId,
    cwd: Seq<char>,
    directories: Seq<Seq<char>>,
    backend_id: Seq<char>,
    at: Timestamp,
) -> SessionView {
    SessionView {
        session_id,
        endpoint_id,
        conversation_id,
        cwd,
        additional_directories: rendered_json(texts_value(directories)),
        compatibility_version: 1,
        compatibility_hash: compatibility(backend_id, PROTOCOL_VERSION, cwd, directories),
        backend_id,
        protocol_version: PROTOCOL_VERSION,
        state: SessionState::Ready,
        created_at: at,
        updated_at: at,
    }
}

/// A session id that can be stored and sent: not empty, and bounded.
pub open spec fn usable_session_id(session_id: Seq<char>) -> bool {
    session_id.len() > 0 && utf8_len(session_id) <= MAX_SESSION_ID_BYTES
}

/// One stored session.
#[derive(Debug, Clone, PartialEq, Eq)]
pub struct StoredSession {
    session_id: String,
    endpoint_id: EndpointId,
    conversation_id: ConversationId,
    cwd: String,
    additional_directories: String,
    compatibility_version: u16,
    compatibility_hash: String,
    backend_id: String,
    protocol_version: u16,
    state: SessionState,
    created_at: Timestamp,
    updated_at: Timestamp,
}

/// A session as its row holds it.
#[derive(Debug, Clone, PartialEq, Eq)]
pub struct SessionRow {
    pub session_id: String,
    pub endpoint_id: EndpointId,
    pub conversation_id: ConversationId,
    pub cwd: String,
    pub additional_directories: String,
    pub compatibility_version: i64,
    pub compatibility_hash: String,
    pub backend_id: String,
    pub protocol_version: i64,
    pub state: String,
    pub created_at: Timestamp,
    pub updated_at: Timestamp,
}

/// Whether `value` fits in sixteen bits.
pub open spec fn fits_u16(value: i64) -> bool {
    0 <= value <= u16::MAX
}

/// A field that does not fit in sixteen bits.
pub open spec fn too_wide(field: Seq<char>) -> StorageErrorView {
    StorageErrorView::Malformed { field, detail: "value does not fit in u16"@ }
}

impl View for StoredSession {
    type V = SessionView;

    closed spec fn view(&self) -> SessionView {
        SessionView {
            session_id: self.session_id@,
            endpoint_id: self.endpoint_id,
            conversation_id: self.conversation_id,
            cwd: self.cwd@,
            additional_directories: self.additional_directories@,
            compatibility_version: self.compatibility_version,
            compatibility_hash: self.compatibility_hash@,
            backend_id: self.backend_id@,
            protocol_version: self.protocol_version,
            state: self.state,
            created_at: self.created_at,
            updated_at: self.updated_at,
        }
    }
}

impl StoredSession {
    /// Record a session that the agent accepted.
    pub fn new(
        session_id: String,
        endpoint_id: EndpointId,
        conversation_id: ConversationId,
        cwd: String,
        backend_id: String,
        at: Timestamp,
    ) -> (session: Result<StoredSession, StorageError>)
        ensures
            session is Ok <==> usable_session_id(session_id@),
            session matches Ok(session) ==> session@ == accepted_session(
                session_id@,
                endpoint_id,
                conversation_id,
                cwd@,
                Seq::empty(),
                backend_id@,
                at,
            ),
            session matches Err(error) ==> error@ == (StorageErrorView::Malformed {
                field: "sessions.session_id"@,
                detail: "session id is empty or too long"@,
            }),
    {
        let none: Vec<String> = Vec::new();
        assert(views(none@) =~= Seq::<Seq<char>>::empty());
        StoredSession::new_with_workspaces(
            session_id,
            endpoint_id,
            conversation_id,
            cwd,
            &none,
            backend_id,
            at,
        )
    }

    /// Record a session that the agent accepted, with further directories.
    pub fn new_with_workspaces(
        session_id: String,
        endpoint_id: EndpointId,
        conversation_id: ConversationId,
        cwd: String,
        additional_directories: &Vec<String>,
        backend_id: String,
        at: Timestamp,
    ) -> (session: Result<StoredSession, StorageError>)
        ensures
            session is Ok <==> usable_session_id(session_id@),
            session matches Ok(session) ==> session@ == accepted_session(
                session_id@,
                endpoint_id,
                conversation_id,
                cwd@,
                views(additional_directories@),
                backend_id@,
                at,
            ),
            session matches Err(error) ==> error@ == (StorageErrorView::Malformed {
                field: "sessions.session_id"@,
                detail: "session id is empty or too long"@,
            }),
    {
        if session_id.as_str().unicode_len() == 0 || byte_len(session_id.as_str())
            > MAX_SESSION_ID_BYTES {
            return Err(
                StorageError::malformed("sessions.session_id", "session id is empty or too long"),
            );
        }
        let compatibility_hash = compatibility_hash(
            backend_id.as_str(),
            PROTOCOL_VERSION,
            cwd.as_str(),
            additional_directories,
        );
        let directories = texts_json(additional_directories).render();
        Ok(
            StoredSession {
                session_id,
                endpoint_id,
                conversation_id,
                cwd,
                additional_directories: directories,
                compatibility_version: 1,
                compatibility_hash,
                backend_id,
                protocol_version: PROTOCOL_VERSION,
                state: SessionState::Ready,
                created_at: at,
                updated_at: at,
            },
        )
    }

    /// The session that a row holds.
    pub fn from_row(row: SessionRow) -> (session: Result<StoredSession, StorageError>)
        ensures
            match session {
                Ok(session) => {
                    &&& fits_u16(row.protocol_version)
                    &&& fits_u16(row.compatibility_version)
                    &&& row.state@ == session@.state.stored()
                    &&& session@.session_id == row.session_id@
                    &&& session@.endpoint_id == row.endpoint_id
                    &&& session@.conversation_id == row.conversation_id
                    &&& session@.cwd == row.cwd@
                    &&& session@.additional_directories == row.additional_directories@
                    &&& session@.compatibility_version == row.compatibility_version
                    &&& session@.compatibility_hash == row.compatibility_hash@
                    &&& session@.backend_id == row.backend_id@
                    &&& session@.protocol_version == row.protocol_version
                    &&& session@.created_at == row.created_at
                    &&& session@.updated_at == row.updated_at
                },
                Err(error) => if !fits_u16(row.protocol_version) {
                    error@ == too_wide("sessions.protocol_version"@)
                } else if !fits_u16(row.compatibility_version) {
                    error@ == too_wide("sessions.compatibility_version"@)
                } else {
                    &&& forall|state: SessionState| row.state@ != #[trigger] state.stored()
                    &&& error@ == (StorageErrorView::Malformed {
                        field: "sessions.state"@,
                        detail: "unknown session state"@,
                    })
                },
            },
    {
        if row.protocol_version < 0 || row.protocol_version > 65535 {
            return Err(
                StorageError::malformed("sessions.protocol_version", "value does not fit in u16"),
            );
        }
        if row.compatibility_version < 0 || row.compatibility_version > 65535 {
            return Err(
                StorageError::malformed(
                    "sessions.compatibility_version",
                    "value does not fit in u16",
                ),
            );
        }
        match SessionState::from_text(row.state.as_str(), "sessions.state") {
            Err(error) => Err(error),
            Ok(state) => Ok(
                StoredSession {
                    session_id: row.session_id,
                    endpoint_id: row.endpoint_id,
                    conversation_id: row.conversation_id,
                    cwd: row.cwd,
                    additional_directories: row.additional_directories,
                    compatibility_version: row.compatibility_version as u16,
                    compatibility_hash: row.compatibility_hash,
                    backend_id: row.backend_id,
                    protocol_version: row.protocol_version as u16,
                    state,
                    created_at: row.created_at,
                    updated_at: row.updated_at,
                },
            ),
        }
    }

    /// The agent's name for the session.
    pub fn session_id(&self) -> (id: &String)
        ensures
            id@ == self@.session_id,
    {
        &self.session_id
    }

    /// The endpoint this session belongs to.
    pub fn endpoint_id(&self) -> (id: EndpointId)
        ensures
            id == self@.endpoint_id,
    {
        self.endpoint_id
    }

    /// The conversation this session serves.
    pub fn conversation_id(&self) -> (id: ConversationId)
        ensures
            id == self@.conversation_id,
    {
        self.conversation_id
    }

    /// The working directory the session was created with.
    pub fn cwd(&self) -> (cwd: &String)
        ensures
            cwd@ == self@.cwd,
    {
        &self.cwd
    }

    /// The further directories, as compact JSON.
    pub fn additional_directories(&self) -> (directories: &String)
        ensures
            directories@ == self@.additional_directories,
    {
        &self.additional_directories
    }

    /// The version of the rule behind the compatibility hash.
    pub fn compatibility_version(&self) -> (version: u16)
        ensures
            version == self@.compatibility_version,
    {
        self.compatibility_version
    }

    /// The compatibility hash.
    pub fn compatibility_hash(&self) -> (hash: &String)
        ensures
            hash@ == self@.compatibility_hash,
    {
        &self.compatibility_hash
    }

    /// The identity of the backend.
    pub fn backend_id(&self) -> (id: &String)
        ensures
            id@ == self@.backend_id,
    {
        &self.backend_id
    }

    /// The protocol version negotiated with that backend.
    pub fn protocol_version(&self) -> (version: u16)
        ensures
            version == self@.protocol_version,
    {
        self.protocol_version
    }

    /// The session's current state.
    pub fn state(&self) -> (state: SessionState)
        ensures
            state == self@.state,
    {
        self.state
    }

    /// When the row was created.
    pub fn created_at(&self) -> (at: Timestamp)
        ensures
            at == self@.created_at,
    {
        self.created_at
    }

    /// When the row was last refreshed.
    pub fn updated_at(&self) -> (at: Timestamp)
        ensures
            at == self@.updated_at,
    {
        self.updated_at
    }
}

/// What writing a session came to, where `rows` rows were written: a session id
/// that is bound to other work keeps its row.
pub fn upsert_result(rows: u64) -> (result: Result<(), StorageError>)
    ensures
        result is Ok <==> rows == 1,
        result matches Err(error) ==> error@ == StorageErrorView::IntegrityViolation(
            "sessions.session_id is bound to another conversation or cwd"@,
        ),
{
    if rows == 1 {
        Ok(())
    } else {
        Err(
            StorageError::IntegrityViolation {
                detail: "sessions.session_id is bound to another conversation or cwd".to_owned(),
            },
        )
    }
}

/// What moving a session to a state came to, where `rows` rows were changed.
pub fn set_state_result(rows: u64, session_id: &str) -> (result: Result<(), StorageError>)
    ensures
        result is Ok <==> rows == 1,
        result matches Err(error) ==> error@ == (StorageErrorView::NotFound {
            entity: "session"@,
            id: session_id@,
        }),
{
    if rows == 1 {
        Ok(())
    } else {
        Err(StorageError::NotFound { entity: "session".to_owned(), id: session_id.to_owned() })
    }
}

/// What a session is bound to is all of what it depends on: its backend, the protocol, its
/// directory and every further root, in order.
pub proof fn law_a_session_is_bound_to_all_it_depends_on(
    backend_id: Seq<char>,
    protocol: u16,
    cwd: Seq<char>,
    roots: Seq<Seq<char>>,
    i: int,
)
    ensures
        ({
            let values = compatibility_values(backend_id, protocol, cwd, roots);
            &&& values.len() == 3 + roots.len()
            &&& values[0] == encode_utf8(backend_id)
            &&& values[1] == be_bytes(protocol as nat, 2)
            &&& values[2] == encode_utf8(cwd)
            &&& 0 <= i < roots.len() ==> values[3 + i] == encode_utf8(roots[i])
            &&& compatibility(backend_id, protocol, cwd, roots) == hex_text(
                sha256_digest(framed(values)),
            )
        }),
{
}

} // verus!
