//! Requests of peers: sending a message, and asking for or cancelling its task.
//!
//! A message is reserved under its request id before anything else is done with
//! it, so that asking again is answered from the exchange that is there.

use vstd::prelude::*;
use vstd::string::*;

use crate::a2a::content::MAX_CONTENT_BYTES;
use crate::a2a::content::MAX_PARTS;
use crate::a2a::dispatcher::push_texts;
use crate::a2a::dispatcher::texts_of;
use crate::a2a::error::A2aError;
use crate::a2a::error::A2aErrorView;
use crate::a2a::store::ExchangeRecord;
use crate::a2a::wire::Part;
use crate::a2a::wire::SendParams;
use crate::a2a::wire::PROTOCOL_VERSION;
use crate::ids::parsed_uuid;
use crate::ids::EndpointId;
use crate::ids::TaskId;
use crate::text::join;
use crate::text::joined;
use crate::text::same_text;
use crate::text::views;

verus! {

/// What a peer can ask for.
#[derive(Debug, Clone, Copy, PartialEq, Eq, Structural)]
pub enum Call {
    /// Take a message.
    Send,
    /// Tell the state of a task.
    Get,
    /// Cancel a task.
    Cancel,
}

/// What a method asks for.
pub open spec fn call_of(method: Seq<char>) -> Option<Call> {
    if method == "message/send"@ {
        Some(Call::Send)
    } else if method == "tasks/get"@ {
        Some(Call::Get)
    } else if method == "tasks/cancel"@ {
        Some(Call::Cancel)
    } else {
        None
    }
}

/// What a method asks for; nothing else is served.
pub fn dispatch(method: &str) -> (call: Result<Call, A2aError>)
    ensures
        match call {
            Ok(call) => call_of(method@) == Some(call),
            Err(error) => call_of(method@) is None && error@ == A2aErrorView::Unsupported,
        },
{
    if same_text(method, "message/send") {
        Ok(Call::Send)
    } else if same_text(method, "tasks/get") {
        Ok(Call::Get)
    } else if same_text(method, "tasks/cancel") {
        Ok(Call::Cancel)
    } else {
        Err(A2aError::Unsupported)
    }
}

/// Accept one protocol version and no other.
pub fn require_version(version: &str) -> (valid: Result<(), A2aError>)
    ensures
        valid is Ok <==> version@ == PROTOCOL_VERSION@,
        valid matches Err(error) ==> error@ == A2aErrorView::Unsupported,
{
    if same_text(version, PROTOCOL_VERSION) {
        Ok(())
    } else {
        Err(A2aError::Unsupported)
    }
}

/// The task that an exchange is bound to.
pub open spec fn bound_task(row: ExchangeRecord) -> Option<u128> {
    match row.internal_task_id {
        Some(id) => parsed_uuid(id@),
        None => None,
    }
}

/// The task that an exchange is bound to. One that is bound to none, or to
/// something that is no task, needs recovery.
pub fn parse_task(row: &ExchangeRecord) -> (task: Result<TaskId, A2aError>)
    ensures
        match task {
            Ok(task) => bound_task(*row) == Some(task.bits()),
            Err(error) => bound_task(*row) is None && error@ == A2aErrorView::RecoveryNeeded,
        },
{
    match &row.internal_task_id {
        None => Err(A2aError::RecoveryNeeded),
        Some(id) => match TaskId::parse(id.as_str()) {
            Some(task) => Ok(task),
            None => Err(A2aError::RecoveryNeeded),
        },
    }
}

/// Whether one of the parts is a file elsewhere.
pub open spec fn names_a_file(parts: Seq<Part>) -> bool {
    exists|i: int| 0 <= i < parts.len() && (#[trigger] parts[i]) is FileUri
}

/// The text of a message: its text parts, one per line. A file elsewhere is not
/// fetched, so a message with one is not served.
pub open spec fn message_text(parts: Seq<Part>) -> Result<Seq<char>, A2aErrorView> {
    if names_a_file(parts) {
        Err(A2aErrorView::Unsupported)
    } else {
        Ok(joined(texts_of(parts), "\n"@))
    }
}

/// The text of a message.
pub fn text_parts(parts: &Vec<Part>) -> (text: Result<String, A2aError>)
    ensures
        match text {
            Ok(text) => message_text(parts@) == Ok::<Seq<char>, A2aErrorView>(text@),
            Err(error) => message_text(parts@) == Err::<Seq<char>, A2aErrorView>(error@),
        },
{
    let mut i: usize = 0;
    while i < parts.len()
        invariant
            i <= parts@.len(),
            forall|k: int| 0 <= k < i ==> !((#[trigger] parts@[k]) is FileUri),
        decreases parts@.len() - i,
    {
        match &parts[i] {
            Part::FileUri { mime_type: _, uri: _ } => {
                assert(parts@[i as int] is FileUri);
                return Err(A2aError::Unsupported);
            },
            _ => {},
        }
        i = i + 1;
    }
    let mut texts: Vec<String> = Vec::new();
    assert(views(texts@) =~= Seq::empty());
    push_texts(&mut texts, parts);
    assert(views(texts@) =~= texts_of(parts@));
    Ok(join(&texts, "\n"))
}

/// Why a message is refused before it is reserved, where it is.
pub open spec fn send_fault(params: SendParams, canonical: Seq<u8>) -> Option<A2aErrorView> {
    if params.protocol_version@ != PROTOCOL_VERSION@ {
        Some(A2aErrorView::Unsupported)
    } else if canonical.len() > MAX_CONTENT_BYTES || params.message.parts@.len() > MAX_PARTS {
        Some(A2aErrorView::TooLarge)
    } else {
        None
    }
}

/// The endpoints that peers may address, by name.
#[derive(Debug, Clone, PartialEq, Eq)]
pub struct ExposedEndpoint {
    pub name: String,
    pub id: EndpointId,
}

/// The endpoint with a name.
pub open spec fn exposed(endpoints: Seq<ExposedEndpoint>, name: Seq<char>) -> Option<EndpointId>
    decreases endpoints.len(),
{
    if endpoints.len() == 0 {
        None
    } else if endpoints.last().name@ == name {
        Some(endpoints.last().id)
    } else {
        exposed(endpoints.drop_last(), name)
    }
}

/// The endpoint with a name.
pub fn find_endpoint(endpoints: &Vec<ExposedEndpoint>, name: &str) -> (id: Option<EndpointId>)
    ensures
        id == exposed(endpoints@, name@),
{
    let mut left: usize = endpoints.len();
    assert(endpoints@.take(left as int) =~= endpoints@);
    while left > 0
        invariant
            left <= endpoints@.len(),
            exposed(endpoints@.take(left as int), name@) == exposed(endpoints@, name@),
        decreases left,
    {
        assert(endpoints@.take(left as int).drop_last() =~= endpoints@.take(left - 1));
        left = left - 1;
        if same_text(endpoints[left].name.as_str(), name) {
            return Some(endpoints[left].id);
        }
    }
    None
}

/// A peer calls by the name of a method; a message is refused for its version first, and
/// for its size next; and what it says is the text of its text parts, one per line, unless
/// it names a file.
pub proof fn law_messages_are_judged_as_they_are(
    method: Seq<char>,
    params: SendParams,
    canonical: Seq<u8>,
    parts: Seq<Part>,
)
    ensures
        call_of(method) == Some(Call::Send) <==> method == "message/send"@,
        call_of(method) == Some(Call::Get) <==> method == "tasks/get"@,
        call_of(method) == Some(Call::Cancel) <==> method == "tasks/cancel"@,
        send_fault(params, canonical) is None <==> {
            &&& params.protocol_version@ == PROTOCOL_VERSION@
            &&& canonical.len() <= 1_048_576
            &&& params.message.parts@.len() <= 64
        },
        send_fault(params, canonical) == Some(A2aErrorView::Unsupported)
            <==> params.protocol_version@ != PROTOCOL_VERSION@,
        send_fault(params, canonical) is Some ==> (send_fault(params, canonical)->0 is Unsupported
            || send_fault(params, canonical)->0 is TooLarge),
        (exists|i: int| 0 <= i < parts.len() && (#[trigger] parts[i]) is FileUri) ==> message_text(
            parts,
        ) == Err::<Seq<char>, A2aErrorView>(A2aErrorView::Unsupported),
        (forall|i: int| 0 <= i < parts.len() ==> !((#[trigger] parts[i]) is FileUri))
            ==> message_text(parts) == Ok::<Seq<char>, A2aErrorView>(
            joined(texts_of(parts), "\n"@),
        ),
{
    reveal_strlit("message/send");
    reveal_strlit("tasks/get");
    reveal_strlit("tasks/cancel");
    assert("message/send"@[0] == 'm');
    assert("tasks/get"@.len() == 9);
    assert("tasks/cancel"@.len() == 12);
    assert("tasks/cancel"@[0] == 't');
}

/// An endpoint that is exposed more than once under a name is the last one, and a name that
/// is not exposed has none.
pub proof fn law_the_last_exposure_counts(
    endpoints: Seq<ExposedEndpoint>,
    name: Seq<char>,
    i: int,
)
    ensures
        0 <= i < endpoints.len() && endpoints[i].name@ == name && (forall|k: int|
            i < k < endpoints.len() ==> (#[trigger] endpoints[k]).name@ != name) ==> exposed(
            endpoints,
            name,
        ) == Some(endpoints[i].id),
        (forall|k: int| 0 <= k < endpoints.len() ==> (#[trigger] endpoints[k]).name@ != name)
            ==> exposed(endpoints, name) is None,
    decreases endpoints.len(),
{
    if endpoints.len() > 0 {
        let rest = endpoints.drop_last();
        law_the_last_exposure_counts(rest, name, i);
        assert forall|k: int| 0 <= k < rest.len() implies (#[trigger] rest[k]) == endpoints[k] by {}
        assert(endpoints[endpoints.len() - 1] == endpoints.last());
        if forall|k: int| 0 <= k < endpoints.len() ==> (#[trigger] endpoints[k]).name@ != name {
            assert forall|k: int| 0 <= k < rest.len() implies (#[trigger] rest[k]).name@
                != name by {
                assert(endpoints[k].name@ != name);
            }
        }
        if 0 <= i < rest.len() && (forall|k: int|
            i < k < endpoints.len() ==> (#[trigger] endpoints[k]).name@ != name) {
            assert forall|k: int| i < k < rest.len() implies (#[trigger] rest[k]).name@
                != name by {
                assert(endpoints[k].name@ != name);
            }
        }
    }
}

} // verus!
