//! What the health listener answers: routes, metrics and the response itself.

use vstd::prelude::*;
use vstd::string::*;
use vstd::utf8::decode_utf8;
use vstd::utf8::valid_utf8;

use crate::app::health::Readiness;
use crate::app::health::MAX_REQUEST_BYTES;
use crate::net::SocketAddr;
use crate::text::byte_len;
use crate::text::decimal;
use crate::text::decimal_text;
use crate::text::same_text;
use crate::text::text_of;
use crate::text::utf8_len;

verus! {

/// What limits a run.
#[derive(Debug, Clone, Copy, PartialEq, Eq, Structural)]
pub enum PolicyLimit {
    Turns,
    Deadline,
    Inactivity,
    NoProgress,
    OutputBytes,
}

/// What is counted.
#[derive(Debug, Clone, Copy, PartialEq, Eq, Structural)]
pub enum Metric {
    LeaseAcquired,
    LeaseBusy,
    LeaseRecoveryNeeded,
    TurnStarted,
    TurnContinued,
    TurnCompleted,
    TurnBlocked,
    TurnFailed,
    PolicyExhausted(PolicyLimit),
}

impl Metric {
    /// The name under which it is told.
    pub open spec fn name(self) -> Seq<char> {
        match self {
            Metric::LeaseAcquired => "lease_acquired"@,
            Metric::LeaseBusy => "lease_busy"@,
            Metric::LeaseRecoveryNeeded => "lease_recovery_needed"@,
            Metric::TurnStarted => "turn_started"@,
            Metric::TurnContinued => "turn_continued"@,
            Metric::TurnCompleted => "turn_completed"@,
            Metric::TurnBlocked => "turn_blocked"@,
            Metric::TurnFailed => "turn_failed"@,
            Metric::PolicyExhausted(PolicyLimit::Turns) => "policy_turns"@,
            Metric::PolicyExhausted(PolicyLimit::Deadline) => "policy_deadline"@,
            Metric::PolicyExhausted(PolicyLimit::Inactivity) => "policy_inactivity"@,
            Metric::PolicyExhausted(PolicyLimit::NoProgress) => "policy_no_progress"@,
            Metric::PolicyExhausted(PolicyLimit::OutputBytes) => "policy_output_bytes"@,
        }
    }
}

/// The name under which a count is told.
pub fn metric_name(metric: Metric) -> (name: &'static str)
    ensures
        name@ == metric.name(),
{
    match metric {
        Metric::LeaseAcquired => "lease_acquired",
        Metric::LeaseBusy => "lease_busy",
        Metric::LeaseRecoveryNeeded => "lease_recovery_needed",
        Metric::TurnStarted => "turn_started",
        Metric::TurnContinued => "turn_continued",
        Metric::TurnCompleted => "turn_completed",
        Metric::TurnBlocked => "turn_blocked",
        Metric::TurnFailed => "turn_failed",
        Metric::PolicyExhausted(PolicyLimit::Turns) => "policy_turns",
        Metric::PolicyExhausted(PolicyLimit::Deadline) => "policy_deadline",
        Metric::PolicyExhausted(PolicyLimit::Inactivity) => "policy_inactivity",
        Metric::PolicyExhausted(PolicyLimit::NoProgress) => "policy_no_progress",
        Metric::PolicyExhausted(PolicyLimit::OutputBytes) => "policy_output_bytes",
    }
}

/// What is measured.
#[derive(Debug, Clone, Copy, PartialEq, Eq, Structural)]
pub struct Gauges {
    pub active_leases: u64,
    pub expired_leases: u64,
    pub recovery_needed_leases: u64,
    pub ready_turns: u64,
    pub in_flight_turns: u64,
    pub recovery_backlog: u64,
    pub projection_failures: u64,
    pub a2a_insecure_peers: u64,
    pub matrix_missing_room_keys: u64,
}

/// The line of a count.
pub open spec fn count_line(metric: Metric, value: u64) -> Seq<char> {
    "guigu_runtime_total{kind=\""@ + metric.name() + "\"} "@ + decimal(value as nat) + "\n"@
}

/// The lines of the counts.
pub open spec fn count_lines(counts: Seq<(Metric, u64)>) -> Seq<char>
    decreases counts.len(),
{
    if counts.len() == 0 {
        Seq::empty()
    } else {
        count_lines(counts.drop_last()) + count_line(counts.last().0, counts.last().1)
    }
}

/// The line of a gauge.
pub open spec fn gauge_line(name: Seq<char>, value: u64) -> Seq<char> {
    "guigu_runtime_"@ + name + " "@ + decimal(value as nat) + "\n"@
}

/// Everything that is told about the bridge's work.
pub open spec fn metrics_text(counts: Seq<(Metric, u64)>, gauges: Gauges) -> Seq<char> {
    count_lines(counts) + gauge_line("active_leases"@, gauges.active_leases) + gauge_line(
        "expired_leases"@,
        gauges.expired_leases,
    ) + gauge_line("recovery_needed_leases"@, gauges.recovery_needed_leases) + gauge_line(
        "ready_turns"@,
        gauges.ready_turns,
    ) + gauge_line("in_flight_turns"@, gauges.in_flight_turns) + gauge_line(
        "recovery_backlog"@,
        gauges.recovery_backlog,
    ) + gauge_line("projection_failures"@, gauges.projection_failures) + gauge_line(
        "a2a_insecure_peers"@,
        gauges.a2a_insecure_peers,
    ) + gauge_line("matrix_missing_room_keys"@, gauges.matrix_missing_room_keys)
}

/// Append the line of a gauge.
fn push_gauge(body: &mut String, name: &str, value: u64)
    ensures
        final(body)@ == old(body)@ + gauge_line(name@, value),
{
    let digits = decimal_text(value);
    body.append("guigu_runtime_");
    body.append(name);
    body.append(" ");
    body.append(digits.as_str());
    body.append("\n");
    assert(body@ =~= old(body)@ + gauge_line(name@, value));
}

/// Everything that is told about the bridge's work: the counts, then the gauges.
pub fn metrics_body(counts: &Vec<(Metric, u64)>, gauges: &Gauges) -> (body: String)
    ensures
        body@ == metrics_text(counts@, *gauges),
{
    let mut body = String::new();
    let mut i: usize = 0;
    assert(body@ =~= count_lines(counts@.take(0)));
    while i < counts.len()
        invariant
            i <= counts@.len(),
            body@ == count_lines(counts@.take(i as int)),
        decreases counts@.len() - i,
    {
        let ghost before = body@;
        let digits = decimal_text(counts[i].1);
        body.append("guigu_runtime_total{kind=\"");
        body.append(metric_name(counts[i].0));
        body.append("\"} ");
        body.append(digits.as_str());
        body.append("\n");
        assert(counts@.take(i + 1).drop_last() =~= counts@.take(i as int));
        assert(body@ =~= before + count_line(counts@[i as int].0, counts@[i as int].1));
        i = i + 1;
    }
    assert(counts@.take(i as int) =~= counts@);
    push_gauge(&mut body, "active_leases", gauges.active_leases);
    push_gauge(&mut body, "expired_leases", gauges.expired_leases);
    push_gauge(&mut body, "recovery_needed_leases", gauges.recovery_needed_leases);
    push_gauge(&mut body, "ready_turns", gauges.ready_turns);
    push_gauge(&mut body, "in_flight_turns", gauges.in_flight_turns);
    push_gauge(&mut body, "recovery_backlog", gauges.recovery_backlog);
    push_gauge(&mut body, "projection_failures", gauges.projection_failures);
    push_gauge(&mut body, "a2a_insecure_peers", gauges.a2a_insecure_peers);
    push_gauge(&mut body, "matrix_missing_room_keys", gauges.matrix_missing_room_keys);
    body
}

/// What is asked of the listener.
#[derive(Debug, Clone, Copy, PartialEq, Eq, Structural)]
pub enum HealthRoute {
    Live,
    Ready,
    Metrics,
    NotFound,
    NotAllowed,
    BadRequest,
}

/// Where the first line break of `text` is, or its end.
pub open spec fn break_at(text: Seq<char>) -> int
    decreases text.len(),
{
    if text.len() == 0 || text[0] == '\n' {
        0
    } else {
        1 + break_at(text.drop_first())
    }
}

/// The first line of `text`, without its line break.
pub open spec fn first_line(text: Seq<char>) -> Seq<char> {
    let end = break_at(text);
    if 0 < end < text.len() && text[end - 1] == '\r' {
        text.take(end - 1)
    } else {
        text.take(end)
    }
}

/// What a request line asks for.
pub open spec fn route_of(line: Seq<char>) -> HealthRoute {
    if line == "GET /live HTTP/1.1"@ || line == "GET /live HTTP/1.0"@ {
        HealthRoute::Live
    } else if line == "GET /ready HTTP/1.1"@ || line == "GET /ready HTTP/1.0"@ {
        HealthRoute::Ready
    } else if line == "GET /metrics HTTP/1.1"@ || line == "GET /metrics HTTP/1.0"@ {
        HealthRoute::Metrics
    } else if "GET "@.is_prefix_of(line) {
        HealthRoute::NotFound
    } else {
        HealthRoute::NotAllowed
    }
}

/// What the bytes of a request ask for. Bytes that are no text ask for nothing that
/// is allowed.
pub open spec fn request_route(bytes: Seq<u8>) -> HealthRoute {
    if bytes.len() == 0 || bytes.len() > MAX_REQUEST_BYTES {
        HealthRoute::BadRequest
    } else if valid_utf8(bytes) {
        route_of(first_line(decode_utf8(bytes)))
    } else {
        route_of(""@)
    }
}

/// A line break is within the text, or at its end.
proof fn lemma_break_at(text: Seq<char>, at: int)
    requires
        0 <= at <= text.len(),
        forall|i: int| 0 <= i < at ==> text[i] != '\n',
        at < text.len() ==> text[at] == '\n',
    ensures
        break_at(text) == at,
    decreases text.len(),
{
    if at > 0 {
        let rest = text.drop_first();
        assert forall|i: int| 0 <= i < at - 1 implies rest[i] != '\n' by {
            assert(rest[i] == text[i + 1]);
        }
        lemma_break_at(rest, at - 1);
    }
}

/// The first line of `text`, without its line break.
fn line_of(text: &str) -> (line: String)
    ensures
        line@ == first_line(text@),
{
    let total: usize = text.unicode_len();
    let mut end: usize = 0;
    while end < total && text.get_char(end) != '\n'
        invariant
            end <= total,
            total == text@.len(),
            forall|i: int| 0 <= i < end ==> text@[i] != '\n',
        decreases total - end,
    {
        end = end + 1;
    }
    proof {
        lemma_break_at(text@, end as int);
    }
    if 0 < end && end < total && text.get_char(end - 1) == '\r' {
        assert(text@.subrange(0, end - 1) =~= text@.take(end - 1));
        text.substring_char(0, end - 1).to_owned()
    } else {
        assert(text@.subrange(0, end as int) =~= text@.take(end as int));
        text.substring_char(0, end).to_owned()
    }
}

/// Whether a request line is a GET.
fn is_get(line: &str) -> (yes: bool)
    ensures
        yes == "GET "@.is_prefix_of(line@),
{
    proof {
        reveal_strlit("GET ");
    }
    if line.unicode_len() < 4 {
        return false;
    }
    assert("GET "@.is_prefix_of(line@) <==> line@.subrange(0, 4) =~= "GET "@);
    same_text(line.substring_char(0, 4), "GET ")
}

/// What a request line asks for.
fn route_line(line: &str) -> (route: HealthRoute)
    ensures
        route == route_of(line@),
{
    if same_text(line, "GET /live HTTP/1.1") || same_text(line, "GET /live HTTP/1.0") {
        HealthRoute::Live
    } else if same_text(line, "GET /ready HTTP/1.1") || same_text(line, "GET /ready HTTP/1.0") {
        HealthRoute::Ready
    } else if same_text(line, "GET /metrics HTTP/1.1") || same_text(line, "GET /metrics HTTP/1.0") {
        HealthRoute::Metrics
    } else if is_get(line) {
        HealthRoute::NotFound
    } else {
        HealthRoute::NotAllowed
    }
}

/// What the bytes of a request ask for.
pub fn route(bytes: &[u8]) -> (route: HealthRoute)
    ensures
        route == request_route(bytes@),
{
    if bytes.len() == 0 || bytes.len() > MAX_REQUEST_BYTES {
        return HealthRoute::BadRequest;
    }
    match text_of(bytes) {
        Some(text) => {
            let line = line_of(text.as_str());
            route_line(line.as_str())
        },
        None => route_line(""),
    }
}

/// The status and body of an answer, for a bridge that is live and ready or not, and
/// that tells `metrics`.
pub open spec fn answer(
    route: HealthRoute,
    live: bool,
    readiness: Readiness,
    metrics: Seq<char>,
) -> (u16, Seq<char>) {
    match route {
        HealthRoute::Live => if live {
            (200, "live=true\n"@)
        } else {
            (503, "live=false\n"@)
        },
        HealthRoute::Ready => if readiness is Ready {
            (200, "ready=true\n"@)
        } else {
            (503, "ready=false\n"@)
        },
        HealthRoute::Metrics => (200, metrics),
        HealthRoute::NotFound => (404, "not_found\n"@),
        HealthRoute::NotAllowed => (405, "method_not_allowed\n"@),
        HealthRoute::BadRequest => (400, "bad_request\n"@),
    }
}

/// The status and body of an answer.
pub fn serve(route: HealthRoute, live: bool, readiness: Readiness, metrics: String) -> (reply: (
    u16,
    String,
))
    ensures
        (reply.0, reply.1@) == answer(route, live, readiness, metrics@),
{
    match route {
        HealthRoute::Live => if live {
            (200, "live=true\n".to_owned())
        } else {
            (503, "live=false\n".to_owned())
        },
        HealthRoute::Ready => if matches!(readiness, Readiness::Ready) {
            (200, "ready=true\n".to_owned())
        } else {
            (503, "ready=false\n".to_owned())
        },
        HealthRoute::Metrics => (200, metrics),
        HealthRoute::NotFound => (404, "not_found\n".to_owned()),
        HealthRoute::NotAllowed => (405, "method_not_allowed\n".to_owned()),
        HealthRoute::BadRequest => (400, "bad_request\n".to_owned()),
    }
}

/// The words of a status.
pub open spec fn reason_phrase(status: u16) -> Seq<char> {
    if status == 200 {
        "OK"@
    } else if status == 400 {
        "Bad Request"@
    } else if status == 404 {
        "Not Found"@
    } else if status == 405 {
        "Method Not Allowed"@
    } else {
        "Service Unavailable"@
    }
}

/// The bytes of an answer, as text.
pub open spec fn response_text(status: u16, body: Seq<char>) -> Seq<char> {
    "HTTP/1.1 "@ + decimal(status as nat) + " "@ + reason_phrase(status)
        + "\r\nContent-Type: text/plain\r\nContent-Length: "@ + decimal(utf8_len(body))
        + "\r\nConnection: close\r\n\r\n"@ + body
}

/// The bytes of an answer, as text.
pub fn response(status: u16, body: &str) -> (text: String)
    ensures
        text@ == response_text(status, body@),
{
    let reason = if status == 200 {
        "OK"
    } else if status == 400 {
        "Bad Request"
    } else if status == 404 {
        "Not Found"
    } else if status == 405 {
        "Method Not Allowed"
    } else {
        "Service Unavailable"
    };
    let code = decimal_text(status as u64);
    let len = decimal_text(byte_len(body) as u64);
    let mut text = "HTTP/1.1 ".to_owned();
    text.append(code.as_str());
    text.append(" ");
    text.append(reason);
    text.append("\r\nContent-Type: text/plain\r\nContent-Length: ");
    text.append(len.as_str());
    text.append("\r\nConnection: close\r\n\r\n");
    text.append(body);
    text
}

/// Whether the listener may bind to an address: this host alone.
pub fn may_listen(address: &SocketAddr) -> (allowed: bool)
    ensures
        allowed == address.ip.loopback(),
{
    address.ip.is_loopback()
}

/// A request is told by its first line, whatever follows it, and whether the line ends with
/// a carriage return or not.
pub proof fn law_the_first_line_is_the_request(line: Seq<char>, rest: Seq<char>)
    requires
        !line.contains('\n'),
        line.len() > 0 ==> line.last() != '\r',
    ensures
        first_line(line) == line,
        first_line(line + seq!['\n'] + rest) == line,
        first_line(line + seq!['\r', '\n'] + rest) == line,
{
    let plain = line + seq!['\n'] + rest;
    let end = line.len() as int;
    assert forall|i: int| 0 <= i < end implies line[i] != '\n' by {
        assert(line.contains(line[i]));
    }
    lemma_break_at(plain, end);
    assert(plain.take(end) =~= line);
    lemma_break_at(line, end);
    assert(line.take(end) =~= line);
    let crossed = line + seq!['\r', '\n'] + rest;
    lemma_break_at(crossed, end + 1);
    assert(crossed.take(end) =~= line);
}

/// What is served for a request: three paths of the two versions of the protocol, and
/// nothing but reading them. Each is answered with what it asks for, as healthy or not.
pub proof fn law_requests_are_answered_as_they_ask(
    line: Seq<char>,
    live: bool,
    readiness: Readiness,
    metrics: Seq<char>,
)
    ensures
        ({
            let reply = answer(route_of(line), live, readiness, metrics);
            if line == "GET /live HTTP/1.1"@ || line == "GET /live HTTP/1.0"@ {
                reply == (if live {
                    (200u16, "live=true\n"@)
                } else {
                    (503u16, "live=false\n"@)
                })
            } else if line == "GET /ready HTTP/1.1"@ || line == "GET /ready HTTP/1.0"@ {
                reply == (if readiness is Ready {
                    (200u16, "ready=true\n"@)
                } else {
                    (503u16, "ready=false\n"@)
                })
            } else if line == "GET /metrics HTTP/1.1"@ || line == "GET /metrics HTTP/1.0"@ {
                reply == (200u16, metrics)
            } else if "GET "@.is_prefix_of(line) {
                reply == (404u16, "not_found\n"@)
            } else {
                reply == (405u16, "method_not_allowed\n"@)
            }
        }),
        answer(HealthRoute::BadRequest, live, readiness, metrics) == (400u16, "bad_request\n"@),
{
    reveal_strlit("GET /live HTTP/1.1");
    reveal_strlit("GET /live HTTP/1.0");
    reveal_strlit("GET /ready HTTP/1.1");
    reveal_strlit("GET /ready HTTP/1.0");
    reveal_strlit("GET /metrics HTTP/1.1");
    reveal_strlit("GET /metrics HTTP/1.0");
    assert("GET /live HTTP/1.1"@.len() == 18);
    assert("GET /ready HTTP/1.1"@.len() == 19);
    assert("GET /metrics HTTP/1.1"@.len() == 21);
}

/// Counts are exposed one after the other, each on a line of its own.
pub proof fn law_counts_are_exposed_in_order(some: Seq<(Metric, u64)>, more: Seq<(Metric, u64)>)
    ensures
        count_lines(some + more) == count_lines(some) + count_lines(more),
        count_lines(Seq::empty()) == Seq::<char>::empty(),
    decreases more.len(),
{
    if more.len() == 0 {
        assert(some + more =~= some);
        assert(count_lines(some) + count_lines(more) =~= count_lines(some));
    } else {
        law_counts_are_exposed_in_order(some, more.drop_last());
        assert((some + more).drop_last() =~= some + more.drop_last());
        assert(count_lines(some + more) =~= count_lines(some) + count_lines(more));
    }
}

/// A request that is empty or too long is none, and one that is not text asks for nothing
/// that is served; any other is told by its first line. An answer says its status, in
/// numbers and in words, and how long it is.
pub proof fn law_requests_and_responses_are_plain(bytes: Seq<u8>, status: u16, body: Seq<char>)
    ensures
        bytes.len() == 0 || bytes.len() > 4096 ==> request_route(bytes) is BadRequest,
        0 < bytes.len() <= 4096 && valid_utf8(bytes) ==> request_route(bytes) == route_of(
            first_line(decode_utf8(bytes)),
        ),
        0 < bytes.len() <= 4096 && !valid_utf8(bytes) ==> request_route(bytes) is NotAllowed,
        status == 200 ==> reason_phrase(status) == "OK"@,
        status == 400 ==> reason_phrase(status) == "Bad Request"@,
        status == 404 ==> reason_phrase(status) == "Not Found"@,
        status == 405 ==> reason_phrase(status) == "Method Not Allowed"@,
        status == 503 ==> reason_phrase(status) == "Service Unavailable"@,
        response_text(status, body) == "HTTP/1.1 "@ + decimal(status as nat) + " "@
            + reason_phrase(status) + "\r\nContent-Type: text/plain\r\nContent-Length: "@ + decimal(
            utf8_len(body),
        ) + "\r\nConnection: close\r\n\r\n"@ + body,
{
    reveal_strlit("");
    reveal_strlit("GET /live HTTP/1.1");
    reveal_strlit("GET /live HTTP/1.0");
    reveal_strlit("GET /ready HTTP/1.1");
    reveal_strlit("GET /ready HTTP/1.0");
    reveal_strlit("GET /metrics HTTP/1.1");
    reveal_strlit("GET /metrics HTTP/1.0");
    reveal_strlit("GET ");
    assert(""@.len() == 0);
    assert("GET /live HTTP/1.1"@.len() == 18);
    assert("GET /live HTTP/1.0"@.len() == 18);
    assert("GET /ready HTTP/1.1"@.len() == 19);
    assert("GET /ready HTTP/1.0"@.len() == 19);
    assert("GET /metrics HTTP/1.1"@.len() == 21);
    assert("GET /metrics HTTP/1.0"@.len() == 21);
    assert("GET "@.len() == 4);
}

/// A request that is one line without an end is that line, whatever it ends with.
pub proof fn law_a_line_without_an_end_is_kept(line: Seq<char>)
    requires
        !line.contains('\n'),
    ensures
        first_line(line) == line,
{
    let end = line.len() as int;
    assert forall|i: int| 0 <= i < end implies line[i] != '\n' by {
        assert(line.contains(line[i]));
    }
    lemma_break_at(line, end);
    assert(line.take(end) =~= line);
}

} // verus!
