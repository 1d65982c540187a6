//! Cancellation: which tasks were asked to stop, and why.
//!
//! - Two scopes. [`Cancellation::cancel`] targets one task, and
//!   [`Cancellation::cancel_all`] every task. A targeted reason is the more specific
//!   one, so it is reported in preference to the global one.
//! - The first reason wins, and repeats change nothing but the wakeup counter.
//! - What is retained is bounded. Reasons of owned tasks live in a table that
//!   [`Cancellation::retire`] empties; a reason that arrives before its task is owned
//!   waits in a table of at most [`MAX_PENDING_CANCELLATIONS`] entries, the oldest of
//!   which is displaced first; a finished task is remembered in a table of at most
//!   [`MAX_RETIRED_TASKS`] entries, so that a late `cancel` for it is dropped.
//! - A reason is cut to [`MAX_REASON_BYTES`] bytes, never inside a character.
//! - Every call bumps a version, so that a waiter is woken even by a reason that
//!   changed nothing, and re-reads [`Cancellation::reason_for`].

use vstd::prelude::*;
use vstd::string::*;
use crate::ids::TaskId;
use crate::text::{decimal, decimal_text, fit, fit_bytes, lemma_fit_bounds, utf8_len};

verus! {

/// Most reasons that wait for their task to be owned.
pub const MAX_PENDING_CANCELLATIONS: usize = 1024;

/// Most bytes kept of one reason.
pub const MAX_REASON_BYTES: usize = 128;

/// Most finished tasks that are remembered.
pub const MAX_RETIRED_TASKS: usize = 1024;

/// At most [`MAX_REASON_BYTES`] bytes of `reason`, cut at a character boundary.
pub fn bounded_reason(reason: &str) -> (kept: String)
    ensures
        kept@ == fit(reason@, MAX_REASON_BYTES as nat),
        utf8_len(kept@) <= MAX_REASON_BYTES,
{
    proof {
        lemma_fit_bounds(reason@, MAX_REASON_BYTES as nat);
    }
    fit_bytes(reason, MAX_REASON_BYTES)
}

/// An owned task and its reason, once one is recorded.
struct OwnedEntry {
    task_id: TaskId,
    reason: Option<String>,
}

/// A reason that waits for its task.
struct PendingEntry {
    task_id: TaskId,
    reason: String,
}

/// Every recorded reason, and the memory of finished tasks.
pub struct CancellationState {
    global: Option<String>,
    active: Vec<OwnedEntry>,
    pending: Vec<PendingEntry>,
    retired: Vec<TaskId>,
}

/// What a [`CancellationState`] records.
#[verifier::ext_equal]
pub ghost struct Recorded {
    /// The reason that applies to every task.
    pub global: Option<Seq<char>>,
    /// Owned tasks and their reasons.
    pub active: Seq<(TaskId, Option<Seq<char>>)>,
    /// Reasons of tasks that are not owned, oldest first.
    pub pending: Seq<(TaskId, Seq<char>)>,
    /// Finished tasks, oldest first.
    pub retired: Seq<TaskId>,
}

/// The ids of a table.
pub open spec fn keys<T>(table: Seq<(TaskId, T)>) -> Seq<TaskId> {
    table.map_values(|entry: (TaskId, T)| entry.0)
}

/// The place of `id` among `ids`, or their number where it is not among them.
pub open spec fn place(ids: Seq<TaskId>, id: TaskId) -> int
    decreases ids.len(),
{
    if ids.len() == 0 {
        0
    } else if ids[0] == id {
        0
    } else {
        1 + place(ids.drop_first(), id)
    }
}

/// Whether `id` has an entry in `table`.
pub open spec fn listed<T>(table: Seq<(TaskId, T)>, id: TaskId) -> bool {
    keys(table).contains(id)
}

/// The entry of `id` in `table`, which must have one.
pub open spec fn entry_of<T>(table: Seq<(TaskId, T)>, id: TaskId) -> T {
    table[place(keys(table), id)].1
}

/// `table` without the entry of `id`.
pub open spec fn without<T>(table: Seq<(TaskId, T)>, id: TaskId) -> Seq<(TaskId, T)> {
    if listed(table, id) {
        table.remove(place(keys(table), id))
    } else {
        table
    }
}

/// `ids` without `id`.
pub open spec fn ids_without(ids: Seq<TaskId>, id: TaskId) -> Seq<TaskId> {
    if ids.contains(id) {
        ids.remove(place(ids, id))
    } else {
        ids
    }
}

/// `table` with one more entry, the oldest one having made room where `max` are
/// held already.
pub open spec fn appended<T>(table: Seq<T>, max: nat, entry: T) -> Seq<T> {
    if table.len() >= max {
        table.drop_first().push(entry)
    } else {
        table.push(entry)
    }
}

/// The ids of finished tasks once `id` is finished, as the newest of them.
pub open spec fn remembered(retired: Seq<TaskId>, id: TaskId) -> Seq<TaskId> {
    if retired.len() >= MAX_RETIRED_TASKS {
        ids_without(retired.drop_first(), id).push(id)
    } else {
        ids_without(retired, id).push(id)
    }
}

impl Recorded {
    /// Nothing recorded.
    pub open spec fn nothing() -> Recorded {
        Recorded {
            global: None,
            active: Seq::empty(),
            pending: Seq::empty(),
            retired: Seq::empty(),
        }
    }

    /// The tables hold each id once, an id in one table only, and no more than they
    /// may; every reason fits.
    pub open spec fn wf(self) -> bool {
        &&& keys(self.active).no_duplicates()
        &&& keys(self.pending).no_duplicates()
        &&& self.retired.no_duplicates()
        &&& self.pending.len() <= MAX_PENDING_CANCELLATIONS
        &&& self.retired.len() <= MAX_RETIRED_TASKS
        &&& forall|id: TaskId| #[trigger] listed(self.active, id) ==> !listed(self.pending, id)
        &&& forall|id: TaskId| #[trigger]
            self.retired.contains(id) ==> !listed(self.active, id) && !listed(self.pending, id)
        &&& self.global matches Some(reason) ==> utf8_len(reason) <= MAX_REASON_BYTES
        &&& forall|i: int|
            0 <= i < self.active.len() ==> ((#[trigger] self.active[i]).1 matches Some(reason)
                ==> utf8_len(reason) <= MAX_REASON_BYTES)
        &&& forall|i: int|
            0 <= i < self.pending.len() ==> utf8_len((#[trigger] self.pending[i]).1)
                <= MAX_REASON_BYTES
    }

    /// The reason recorded for this very task.
    pub open spec fn targeted(self, id: TaskId) -> Option<Seq<char>> {
        if listed(self.active, id) && entry_of(self.active, id) is Some {
            entry_of(self.active, id)
        } else if listed(self.pending, id) {
            Some(entry_of(self.pending, id))
        } else {
            None
        }
    }

    /// The reason that applies to a task: its own, else the global one.
    pub open spec fn reason(self, id: TaskId) -> Option<Seq<char>> {
        match self.targeted(id) {
            Some(reason) => Some(reason),
            None => self.global,
        }
    }

    /// How many tasks hold a reason of their own.
    pub open spec fn held(self) -> nat {
        self.active.filter(|entry: (TaskId, Option<Seq<char>>)| entry.1 is Some).len()
            + self.pending.len()
    }

    /// After `id` was cancelled.
    pub open spec fn cancelled(self, id: TaskId, reason: Seq<char>) -> Recorded {
        let kept = fit(reason, MAX_REASON_BYTES as nat);
        if listed(self.active, id) {
            if entry_of(self.active, id) is None {
                Recorded {
                    active: self.active.update(place(keys(self.active), id), (id, Some(kept))),
                    ..self
                }
            } else {
                self
            }
        } else if self.retired.contains(id) || listed(self.pending, id) {
            self
        } else {
            Recorded {
                pending: appended(self.pending, MAX_PENDING_CANCELLATIONS as nat, (id, kept)),
                ..self
            }
        }
    }

    /// After every task was cancelled.
    pub open spec fn all_cancelled(self, reason: Seq<char>) -> Recorded {
        match self.global {
            Some(_) => self,
            None => Recorded { global: Some(fit(reason, MAX_REASON_BYTES as nat)), ..self },
        }
    }

    /// After the worker took `id` over.
    pub open spec fn activated(self, id: TaskId) -> Recorded {
        Recorded {
            active: if listed(self.active, id) {
                self.active
            } else {
                self.active.push(
                    (
                        id,
                        if listed(self.pending, id) {
                            Some(entry_of(self.pending, id))
                        } else {
                            None
                        },
                    ),
                )
            },
            pending: without(self.pending, id),
            retired: ids_without(self.retired, id),
            ..self
        }
    }

    /// After `id` reached a terminal state.
    pub open spec fn finished(self, id: TaskId) -> Recorded {
        Recorded {
            active: without(self.active, id),
            pending: without(self.pending, id),
            retired: remembered(self.retired, id),
            ..self
        }
    }
}

/// `place` is where the id first stands.
proof fn lemma_place(ids: Seq<TaskId>, id: TaskId)
    ensures
        0 <= place(ids, id) <= ids.len(),
        ids.contains(id) <==> place(ids, id) < ids.len(),
        place(ids, id) < ids.len() ==> ids[place(ids, id)] == id,
        forall|k: int| 0 <= k < place(ids, id) ==> ids[k] != id,
    decreases ids.len(),
{
    if ids.len() > 0 && ids[0] != id {
        let rest = ids.drop_first();
        lemma_place(rest, id);
        let p = place(rest, id);
        assert(forall|k: int| 0 <= k < rest.len() ==> rest[k] == ids[k + 1]);
        assert forall|k: int| 0 <= k < place(ids, id) implies ids[k] != id by {
            if k > 0 {
                assert(rest[k - 1] != id);
            }
        }
        if ids.contains(id) {
            let k = choose|k: int| 0 <= k < ids.len() && ids[k] == id;
            assert(rest[k - 1] == id);
            assert(rest.contains(id));
        }
        if p < rest.len() {
            assert(ids[p + 1] == id);
            assert(ids.contains(id));
        }
    } else if ids.len() > 0 {
        assert(ids.contains(id));
    }
}

/// An id that stands at `i`, and nowhere before, has its place there.
proof fn lemma_place_is(ids: Seq<TaskId>, id: TaskId, i: int)
    requires
        0 <= i <= ids.len(),
        forall|k: int| 0 <= k < i ==> ids[k] != id,
        i < ids.len() ==> ids[i] == id,
    ensures
        place(ids, id) == i,
        ids.contains(id) <==> i < ids.len(),
{
    lemma_place(ids, id);
    let p = place(ids, id);
    if p < i {
        assert(ids[p] == id);
    }
    if i < p {
        assert(ids[i] != id);
    }
}

/// What is left once an id is taken out of ids without duplicates.
proof fn lemma_ids_without(ids: Seq<TaskId>, id: TaskId)
    requires
        ids.no_duplicates(),
    ensures
        ids_without(ids, id).no_duplicates(),
        ids_without(ids, id).len() <= ids.len(),
        ids.contains(id) ==> ids_without(ids, id).len() == ids.len() - 1,
        forall|other: TaskId| #[trigger]
            ids_without(ids, id).contains(other) <==> ids.contains(other) && other != id,
{
    lemma_place(ids, id);
    let p = place(ids, id);
    let left = ids_without(ids, id);
    if ids.contains(id) {
        assert(forall|k: int| 0 <= k < p ==> left[k] == ids[k]);
        assert(forall|k: int| p <= k < left.len() ==> left[k] == ids[k + 1]);
        assert forall|other: TaskId| #[trigger] left.contains(other) <==> ids.contains(other)
            && other != id by {
            if left.contains(other) {
                let k = choose|k: int| 0 <= k < left.len() && left[k] == other;
                if k < p {
                    assert(ids[k] == other);
                } else {
                    assert(ids[k + 1] == other);
                }
            }
            if ids.contains(other) && other != id {
                let k = choose|k: int| 0 <= k < ids.len() && ids[k] == other;
                if k < p {
                    assert(left[k] == other);
                } else {
                    assert(left[k - 1] == other);
                }
            }
        }
    }
}

/// Taking an entry out of a table takes its id out of the table's ids.
proof fn lemma_without<T>(table: Seq<(TaskId, T)>, id: TaskId)
    requires
        keys(table).no_duplicates(),
    ensures
        keys(without(table, id)) == ids_without(keys(table), id),
        keys(without(table, id)).no_duplicates(),
        without(table, id).len() <= table.len(),
        forall|other: TaskId| #[trigger]
            listed(without(table, id), other) <==> listed(table, other) && other != id,
        forall|other: TaskId|
            other != id && listed(table, other) ==> #[trigger] entry_of(without(table, id), other)
                == entry_of(table, other),
        forall|i: int|
            0 <= i < without(table, id).len() ==> table.contains(#[trigger] without(table, id)[i]),
{
    let p = place(keys(table), id);
    lemma_place(keys(table), id);
    lemma_ids_without(keys(table), id);
    let left = without(table, id);
    assert(keys(left) =~= ids_without(keys(table), id));
    if listed(table, id) {
        assert(forall|k: int| 0 <= k < p ==> left[k] == table[k]);
        assert(forall|k: int| p <= k < left.len() ==> left[k] == table[k + 1]);
        assert forall|other: TaskId| other != id && listed(table, other) implies #[trigger] entry_of(
            left,
            other,
        ) == entry_of(table, other) by {
            lemma_place(keys(table), other);
            let q = place(keys(table), other);
            let r = if q < p {
                q
            } else {
                q - 1
            };
            assert(keys(left)[r] == other);
            assert forall|k: int| 0 <= k < r implies keys(left)[k] != other by {
                if k < p {
                    assert(keys(left)[k] == keys(table)[k]);
                } else {
                    assert(keys(left)[k] == keys(table)[k + 1]);
                }
            }
            lemma_place_is(keys(left), other, r);
        }
    } else {
        assert(forall|i: int| 0 <= i < left.len() ==> #[trigger] left[i] == table[i]);
    }
}

/// One more entry, for an id that has none.
proof fn lemma_pushed<T>(table: Seq<(TaskId, T)>, id: TaskId, value: T)
    requires
        keys(table).no_duplicates(),
        !listed(table, id),
    ensures
        keys(table.push((id, value))) == keys(table).push(id),
        keys(table.push((id, value))).no_duplicates(),
        forall|other: TaskId| #[trigger]
            listed(table.push((id, value)), other) <==> listed(table, other) || other == id,
        entry_of(table.push((id, value)), id) == value,
        forall|other: TaskId|
            listed(table, other) ==> #[trigger] entry_of(table.push((id, value)), other) == entry_of(
                table,
                other,
            ),
{
    let more = table.push((id, value));
    assert(keys(more) =~= keys(table).push(id));
    assert forall|k: int| 0 <= k < keys(table).len() implies keys(table)[k] != id by {
        if keys(table)[k] == id {
            assert(keys(table).contains(id));
        }
    }
    assert forall|other: TaskId| #[trigger] listed(more, other) <==> listed(table, other) || other
        == id by {
        if listed(table, other) {
            let k = choose|k: int| 0 <= k < keys(table).len() && keys(table)[k] == other;
            assert(keys(more)[k] == other);
        }
        assert(keys(more)[table.len() as int] == id);
        if listed(more, other) && other != id {
            let k = choose|k: int| 0 <= k < keys(more).len() && keys(more)[k] == other;
            assert(keys(table)[k] == other);
        }
    }
    lemma_place_is(keys(more), id, table.len() as int);
    assert forall|other: TaskId| listed(table, other) implies #[trigger] entry_of(more, other)
        == entry_of(table, other) by {
        lemma_place(keys(table), other);
        let q = place(keys(table), other);
        assert forall|k: int| 0 <= k < q implies keys(more)[k] != other by {
            assert(keys(more)[k] == keys(table)[k]);
        }
        assert(keys(more)[q] == other);
        lemma_place_is(keys(more), other, q);
    }
}

/// Dropping the oldest entry is taking its id out.
proof fn lemma_drop_first<T>(table: Seq<(TaskId, T)>)
    requires
        keys(table).no_duplicates(),
        table.len() > 0,
    ensures
        table.drop_first() == without(table, table[0].0),
{
    assert(keys(table)[0] == table[0].0);
    lemma_place_is(keys(table), table[0].0, 0);
    assert(table.drop_first() =~= table.remove(0));
}

/// Replacing the entry of an id changes no other entry.
proof fn lemma_updated<T>(table: Seq<(TaskId, T)>, id: TaskId, value: T)
    requires
        keys(table).no_duplicates(),
        listed(table, id),
    ensures
        keys(table.update(place(keys(table), id), (id, value))) == keys(table),
        entry_of(table.update(place(keys(table), id), (id, value)), id) == value,
        forall|other: TaskId|
            other != id && listed(table, other) ==> #[trigger] entry_of(
                table.update(place(keys(table), id), (id, value)),
                other,
            ) == entry_of(table, other),
{
    lemma_place(keys(table), id);
    let p = place(keys(table), id);
    let changed = table.update(p, (id, value));
    assert(keys(changed) =~= keys(table));
    assert forall|other: TaskId| other != id && listed(table, other) implies #[trigger] entry_of(
        changed,
        other,
    ) == entry_of(table, other) by {
        lemma_place(keys(table), other);
    }
}

/// What every call keeps: the tables stay disjoint, free of duplicates and bounded,
/// and every reason fits.
pub proof fn law_cancel_keeps_the_bounds(r: Recorded, id: TaskId, reason: Seq<char>)
    requires
        r.wf(),
    ensures
        r.cancelled(id, reason).wf(),
        r.all_cancelled(reason).wf(),
        r.activated(id).wf(),
        r.finished(id).wf(),
{
    let kept = fit(reason, MAX_REASON_BYTES as nat);
    lemma_fit_bounds(reason, MAX_REASON_BYTES as nat);
    lemma_place(keys(r.active), id);
    lemma_place(keys(r.pending), id);
    lemma_place(r.retired, id);
    let c = r.cancelled(id, reason);
    if listed(r.active, id) {
        if entry_of(r.active, id) is None {
            lemma_updated(r.active, id, Some(kept));
            assert forall|other: TaskId| #[trigger] listed(c.active, other) implies !listed(
                c.pending,
                other,
            ) by {
                assert(listed(r.active, other));
            }
            assert forall|other: TaskId| #[trigger] c.retired.contains(other) implies !listed(
                c.active,
                other,
            ) && !listed(c.pending, other) by {
                assert(r.retired.contains(other));
                assert(listed(c.active, other) == listed(r.active, other));
            }
            assert(c.wf());
        }
    } else if !r.retired.contains(id) && !listed(r.pending, id) {
        lemma_displaced(r.pending, id, kept);
        assert forall|other: TaskId| #[trigger] listed(c.active, other) implies !listed(
            c.pending,
            other,
        ) by {
            assert(listed(r.active, other));
        }
        assert forall|other: TaskId| #[trigger] c.retired.contains(other) implies !listed(
            c.active,
            other,
        ) && !listed(c.pending, other) by {
            assert(r.retired.contains(other));
        }
        assert(c.wf());
    }
    let a = r.activated(id);
    lemma_without(r.pending, id);
    lemma_ids_without(r.retired, id);
    if !listed(r.active, id) {
        let promoted = if listed(r.pending, id) {
            Some(entry_of(r.pending, id))
        } else {
            None
        };
        lemma_pushed(r.active, id, promoted);
    }
    assert forall|other: TaskId| #[trigger] listed(a.active, other) implies !listed(
        a.pending,
        other,
    ) by {
        if other != id {
            assert(listed(r.active, other));
        }
    }
    assert forall|i: int| 0 <= i < a.pending.len() implies utf8_len((#[trigger] a.pending[i]).1)
        <= MAX_REASON_BYTES by {
        assert(r.pending.contains(a.pending[i]));
    }
    assert(a.wf());
    let f = r.finished(id);
    lemma_without(r.active, id);
    lemma_remembered(r.retired, id);
    assert forall|other: TaskId| #[trigger] listed(f.active, other) implies !listed(
        f.pending,
        other,
    ) by {
        assert(listed(r.active, other));
    }
    assert forall|i: int| 0 <= i < f.active.len() implies ((#[trigger] f.active[i]).1 matches Some(
        kept_reason,
    ) ==> utf8_len(kept_reason) <= MAX_REASON_BYTES) by {
        assert(r.active.contains(f.active[i]));
    }
    assert forall|i: int| 0 <= i < f.pending.len() implies utf8_len((#[trigger] f.pending[i]).1)
        <= MAX_REASON_BYTES by {
        assert(r.pending.contains(f.pending[i]));
    }
    assert(f.wf());
}

/// One more waiting reason, the oldest having made room where the table was full.
proof fn lemma_displaced(pending: Seq<(TaskId, Seq<char>)>, id: TaskId, kept: Seq<char>)
    requires
        keys(pending).no_duplicates(),
        pending.len() <= MAX_PENDING_CANCELLATIONS,
        !listed(pending, id),
    ensures
        ({
            let more = appended(pending, MAX_PENDING_CANCELLATIONS as nat, (id, kept));
            let full = pending.len() >= MAX_PENDING_CANCELLATIONS;
            &&& keys(more).no_duplicates()
            &&& more.len() <= MAX_PENDING_CANCELLATIONS
            &&& listed(more, id)
            &&& entry_of(more, id) == kept
            &&& forall|other: TaskId| #[trigger]
                listed(more, other) <==> other == id || (listed(pending, other) && !(full && other
                    == pending[0].0))
            &&& forall|other: TaskId|
                other != id && listed(more, other) ==> #[trigger] entry_of(more, other) == entry_of(
                    pending,
                    other,
                )
            &&& forall|i: int|
                0 <= i < more.len() ==> #[trigger] more[i] == (id, kept) || pending.contains(
                    more[i],
                )
        }),
{
    let full = pending.len() >= MAX_PENDING_CANCELLATIONS;
    let base = if full {
        pending.drop_first()
    } else {
        pending
    };
    if full {
        lemma_drop_first(pending);
        lemma_without(pending, pending[0].0);
    }
    lemma_pushed(base, id, kept);
    let more = appended(pending, MAX_PENDING_CANCELLATIONS as nat, (id, kept));
    assert(more =~= base.push((id, kept)));
    assert forall|i: int| 0 <= i < more.len() implies #[trigger] more[i] == (id, kept)
        || pending.contains(more[i]) by {
        if i < base.len() {
            assert(more[i] == base[i]);
            if full {
                assert(base[i] == pending[i + 1]);
            } else {
                assert(base[i] == pending[i]);
            }
        }
    }
}

/// A finished task is remembered, within the bound.
proof fn lemma_remembered(retired: Seq<TaskId>, id: TaskId)
    requires
        retired.no_duplicates(),
        retired.len() <= MAX_RETIRED_TASKS,
    ensures
        remembered(retired, id).no_duplicates(),
        remembered(retired, id).len() <= MAX_RETIRED_TASKS,
        remembered(retired, id).contains(id),
        forall|other: TaskId| #[trigger]
            remembered(retired, id).contains(other) ==> other == id || retired.contains(other),
{
    let base = if retired.len() >= MAX_RETIRED_TASKS {
        retired.drop_first()
    } else {
        retired
    };
    assert(base.no_duplicates());
    lemma_ids_without(base, id);
    let left = ids_without(base, id);
    let more = remembered(retired, id);
    assert(more =~= left.push(id));
    assert forall|k: int| 0 <= k < left.len() implies left[k] != id by {
        if left[k] == id {
            assert(left.contains(id));
        }
    }
    assert(more[left.len() as int] == id);
    assert forall|other: TaskId| #[trigger] more.contains(other) implies other == id
        || retired.contains(other) by {
        let k = choose|k: int| 0 <= k < more.len() && more[k] == other;
        if k < left.len() {
            assert(left[k] == other);
            assert(left.contains(other));
            assert(base.contains(other));
            let m = choose|m: int| 0 <= m < base.len() && base[m] == other;
            if retired.len() >= MAX_RETIRED_TASKS {
                assert(retired[m + 1] == other);
            }
        }
    }
}

/// The first reason wins: cancelling a task again changes nothing, and neither does
/// cancelling every task again.
pub proof fn law_the_first_reason_wins(
    r: Recorded,
    id: TaskId,
    first: Seq<char>,
    second: Seq<char>,
)
    requires
        r.wf(),
    ensures
        r.cancelled(id, first).cancelled(id, second) == r.cancelled(id, first),
        r.all_cancelled(first).all_cancelled(second) == r.all_cancelled(first),
{
    let kept = fit(first, MAX_REASON_BYTES as nat);
    lemma_place(keys(r.active), id);
    if listed(r.active, id) {
        if entry_of(r.active, id) is None {
            lemma_updated(r.active, id, Some(kept));
        }
    } else if !r.retired.contains(id) && !listed(r.pending, id) {
        lemma_displaced(r.pending, id, kept);
    }
}

/// A task that has not finished is cancelled by the first `cancel`, whatever the
/// global reason says, and keeps the reason that was recorded first.
pub proof fn law_a_targeted_reason_takes_precedence(r: Recorded, id: TaskId, reason: Seq<char>)
    requires
        r.wf(),
        !r.retired.contains(id),
    ensures
        r.cancelled(id, reason).reason(id) == Some(
            match r.targeted(id) {
                Some(earlier) => earlier,
                None => fit(reason, MAX_REASON_BYTES as nat),
            },
        ),
{
    let kept = fit(reason, MAX_REASON_BYTES as nat);
    if listed(r.active, id) {
        if entry_of(r.active, id) is None {
            lemma_updated(r.active, id, Some(kept));
        }
    } else if !listed(r.pending, id) {
        lemma_displaced(r.pending, id, kept);
    }
}

/// Cancelling one task changes the reason of no other, except that the oldest reason
/// waiting for its task may be displaced.
pub proof fn law_cancel_leaves_other_tasks_alone(
    r: Recorded,
    id: TaskId,
    other: TaskId,
    reason: Seq<char>,
)
    requires
        r.wf(),
        other != id,
        listed(r.active, other) || !listed(r.pending, other) || r.pending.len()
            < MAX_PENDING_CANCELLATIONS || r.pending[0].0 != other,
    ensures
        r.cancelled(id, reason).reason(other) == r.reason(other),
{
    let kept = fit(reason, MAX_REASON_BYTES as nat);
    if listed(r.active, id) {
        if entry_of(r.active, id) is None {
            lemma_updated(r.active, id, Some(kept));
        }
    } else if !r.retired.contains(id) && !listed(r.pending, id) {
        lemma_displaced(r.pending, id, kept);
    }
}

/// The oldest waiting reason is the one displaced by a reason that finds the table
/// full.
pub proof fn law_the_oldest_waiting_reason_is_displaced(
    r: Recorded,
    id: TaskId,
    reason: Seq<char>,
)
    requires
        r.wf(),
        r.pending.len() == MAX_PENDING_CANCELLATIONS,
        !listed(r.active, id),
        !listed(r.pending, id),
        !r.retired.contains(id),
    ensures
        r.cancelled(id, reason).targeted(r.pending[0].0) is None,
        r.cancelled(id, reason).pending.len() == MAX_PENDING_CANCELLATIONS,
{
    lemma_displaced(r.pending, id, fit(reason, MAX_REASON_BYTES as nat));
    let oldest = r.pending[0].0;
    assert(keys(r.pending)[0] == oldest);
    assert(listed(r.pending, oldest));
    if listed(r.active, oldest) {
        assert(!listed(r.pending, oldest));
    }
    assert(!listed(r.cancelled(id, reason).pending, oldest));
}

/// Taking a task over keeps its reason and every other task's.
pub proof fn law_ownership_keeps_every_reason(r: Recorded, id: TaskId, other: TaskId)
    requires
        r.wf(),
    ensures
        r.activated(id).reason(other) == r.reason(other),
        !r.activated(id).retired.contains(id),
        listed(r.activated(id).active, id),
{
    lemma_without(r.pending, id);
    lemma_ids_without(r.retired, id);
    if listed(r.active, id) {
        assert(!listed(r.pending, id));
    } else {
        let promoted = if listed(r.pending, id) {
            Some(entry_of(r.pending, id))
        } else {
            None
        };
        lemma_pushed(r.active, id, promoted);
    }
}

/// A finished task retains nothing, and a later `cancel` for it is dropped; until it
/// is taken over again, which makes it cancellable anew.
pub proof fn law_a_finished_task_retains_nothing(r: Recorded, id: TaskId, late: Seq<char>)
    requires
        r.wf(),
    ensures
        r.finished(id).targeted(id) is None,
        r.finished(id).cancelled(id, late) == r.finished(id),
        r.finished(id).retired.contains(id),
        r.finished(id).activated(id).cancelled(id, late).reason(id) == Some(
            fit(late, MAX_REASON_BYTES as nat),
        ),
{
    lemma_without(r.active, id);
    lemma_without(r.pending, id);
    lemma_remembered(r.retired, id);
    let f = r.finished(id);
    law_cancel_keeps_the_bounds(r, id, late);
    law_cancel_keeps_the_bounds(f, id, late);
    let a = f.activated(id);
    law_ownership_keeps_every_reason(f, id, id);
    lemma_without(f.pending, id);
    lemma_pushed(f.active, id, None);
    lemma_updated(a.active, id, Some(fit(late, MAX_REASON_BYTES as nat)));
}

impl View for CancellationState {
    type V = Recorded;

    closed spec fn view(&self) -> Recorded {
        Recorded {
            global: match self.global {
                Some(reason) => Some(reason@),
                None => None,
            },
            active: self.active@.map_values(
                |entry: OwnedEntry|
                    (
                        entry.task_id,
                        match entry.reason {
                            Some(reason) => Some(reason@),
                            None => None,
                        },
                    ),
            ),
            pending: self.pending@.map_values(
                |entry: PendingEntry| (entry.task_id, entry.reason@),
            ),
            retired: self.retired@,
        }
    }
}

impl CancellationState {
    /// Nothing recorded.
    pub fn new() -> (state: CancellationState)
        ensures
            state@ == Recorded::nothing(),
    {
        let state = CancellationState {
            global: None,
            active: Vec::new(),
            pending: Vec::new(),
            retired: Vec::new(),
        };
        assert(state@ =~= Recorded::nothing());
        state
    }

    fn active_place(&self, task_id: TaskId) -> (i: usize)
        ensures
            i == place(keys(self@.active), task_id),
            i <= self.active@.len(),
            i < self.active@.len() <==> listed(self@.active, task_id),
            i < self.active@.len() ==> self.active@[i as int].task_id == task_id,
    {
        let mut i: usize = 0;
        while i < self.active.len()
            invariant
                i <= self.active@.len(),
                self.active@.len() == self@.active.len(),
                forall|k: int| 0 <= k < i ==> keys(self@.active)[k] != task_id,
            decreases self.active@.len() - i,
        {
            if self.active[i].task_id == task_id {
                proof {
                    lemma_place_is(keys(self@.active), task_id, i as int);
                }
                return i;
            }
            i = i + 1;
        }
        proof {
            lemma_place_is(keys(self@.active), task_id, i as int);
        }
        i
    }

    fn pending_place(&self, task_id: TaskId) -> (i: usize)
        ensures
            i == place(keys(self@.pending), task_id),
            i <= self.pending@.len(),
            i < self.pending@.len() <==> listed(self@.pending, task_id),
    {
        let mut i: usize = 0;
        while i < self.pending.len()
            invariant
                i <= self.pending@.len(),
                self.pending@.len() == self@.pending.len(),
                forall|k: int| 0 <= k < i ==> keys(self@.pending)[k] != task_id,
            decreases self.pending@.len() - i,
        {
            if self.pending[i].task_id == task_id {
                proof {
                    lemma_place_is(keys(self@.pending), task_id, i as int);
                }
                return i;
            }
            i = i + 1;
        }
        proof {
            lemma_place_is(keys(self@.pending), task_id, i as int);
        }
        i
    }

    fn retired_place(&self, task_id: TaskId) -> (i: usize)
        ensures
            i == place(self@.retired, task_id),
            i <= self.retired@.len(),
            i < self.retired@.len() <==> self@.retired.contains(task_id),
    {
        let mut i: usize = 0;
        while i < self.retired.len()
            invariant
                i <= self.retired@.len(),
                forall|k: int| 0 <= k < i ==> self.retired@[k] != task_id,
            decreases self.retired@.len() - i,
        {
            if self.retired[i] == task_id {
                proof {
                    lemma_place_is(self@.retired, task_id, i as int);
                }
                return i;
            }
            i = i + 1;
        }
        proof {
            lemma_place_is(self@.retired, task_id, i as int);
        }
        i
    }

    /// Retains a reason for a task that is not owned, the oldest such reason making
    /// room where the table is full.
    pub fn remember_pending(&mut self, task_id: TaskId, reason: String)
        ensures
            final(self)@ == (Recorded {
                pending: appended(
                    old(self)@.pending,
                    MAX_PENDING_CANCELLATIONS as nat,
                    (task_id, reason@),
                ),
                ..old(self)@
            }),
    {
        if self.pending.len() >= MAX_PENDING_CANCELLATIONS {
            self.displace_oldest_pending();
        }
        self.pending.push(PendingEntry { task_id, reason });
        assert(self@ =~= (Recorded {
            pending: appended(
                old(self)@.pending,
                MAX_PENDING_CANCELLATIONS as nat,
                (task_id, reason@),
            ),
            ..old(self)@
        }));
    }

    /// Drops the oldest reason that waits for its task.
    pub fn displace_oldest_pending(&mut self)
        ensures
            final(self)@ == (Recorded {
                pending: if old(self)@.pending.len() > 0 {
                    old(self)@.pending.drop_first()
                } else {
                    old(self)@.pending
                },
                ..old(self)@
            }),
    {
        if self.pending.len() > 0 {
            self.pending.remove(0);
            assert(self@.pending =~= old(self)@.pending.drop_first());
        }
    }

    /// Remembers that a task finished, as the newest of them, the oldest making room
    /// where the table is full.
    pub fn remember_retired(&mut self, task_id: TaskId)
        ensures
            final(self)@ == (Recorded {
                retired: remembered(old(self)@.retired, task_id),
                ..old(self)@
            }),
    {
        if self.retired.len() >= MAX_RETIRED_TASKS {
            self.retired.remove(0);
            assert(self@.retired =~= old(self)@.retired.drop_first());
        }
        let i: usize = self.retired_place(task_id);
        if i < self.retired.len() {
            self.retired.remove(i);
        }
        self.retired.push(task_id);
        assert(self@.retired =~= remembered(old(self)@.retired, task_id));
    }
}

/// A cancellation signal source.
pub struct Cancellation {
    state: CancellationState,
    version: u64,
}

impl Cancellation {
    /// What is recorded.
    pub closed spec fn recorded(&self) -> Recorded {
        self.state@
    }

    /// The wakeup counter.
    pub closed spec fn stamp(&self) -> u64 {
        self.version
    }

    /// What every method keeps.
    pub open spec fn wf(&self) -> bool {
        self.recorded().wf()
    }

    /// A source with nothing cancelled.
    pub fn new() -> (source: Cancellation)
        ensures
            source.wf(),
            source.recorded() == Recorded::nothing(),
            source.stamp() == 0,
    {
        Cancellation { state: CancellationState::new(), version: 0 }
    }

    /// Cancels one task. The first reason recorded for it wins; for a task that has
    /// finished nothing is recorded.
    pub fn cancel(&mut self, task_id: TaskId, reason: &str)
        requires
            old(self).wf(),
        ensures
            final(self).wf(),
            final(self).recorded() == old(self).recorded().cancelled(task_id, reason@),
            final(self).stamp() == bumped(old(self).stamp()),
    {
        proof {
            law_cancel_keeps_the_bounds(self.recorded(), task_id, reason@);
        }
        let ghost before = self.recorded();
        let owned: usize = self.state.active_place(task_id);
        if owned < self.state.active.len() {
            if self.state.active[owned].reason.is_none() {
                let entry = OwnedEntry { task_id, reason: Some(bounded_reason(reason)) };
                self.state.active.set(owned, entry);
                assert(self.recorded().active =~= before.cancelled(task_id, reason@).active);
            }
        } else if self.state.retired_place(task_id) == self.state.retired.len()
            && self.state.pending_place(task_id) == self.state.pending.len() {
            self.state.remember_pending(task_id, bounded_reason(reason));
        }
        assert(self.recorded() =~= before.cancelled(task_id, reason@));
        self.bump();
    }

    /// Cancels every task. The first reason wins.
    pub fn cancel_all(&mut self, reason: &str)
        requires
            old(self).wf(),
        ensures
            final(self).wf(),
            final(self).recorded() == old(self).recorded().all_cancelled(reason@),
            final(self).stamp() == bumped(old(self).stamp()),
    {
        proof {
            law_cancel_keeps_the_bounds(self.recorded(), arbitrary(), reason@);
        }
        if self.state.global.is_none() {
            self.state.global = Some(bounded_reason(reason));
        }
        self.bump();
    }

    /// The reason that applies to a task, if it is cancelled: its own in preference to
    /// the global one.
    pub fn reason_for(&self, task_id: TaskId) -> (reason: Option<String>)
        ensures
            reason is Some <==> self.recorded().reason(task_id) is Some,
            reason matches Some(text) ==> self.recorded().reason(task_id) == Some(text@),
    {
        let owned: usize = self.state.active_place(task_id);
        if owned < self.state.active.len() {
            if let Some(reason) = &self.state.active[owned].reason {
                return Some(reason.clone());
            }
        }
        let waiting: usize = self.state.pending_place(task_id);
        if waiting < self.state.pending.len() {
            return Some(self.state.pending[waiting].reason.clone());
        }
        match &self.state.global {
            Some(reason) => Some(reason.clone()),
            None => None,
        }
    }

    /// Takes a task over, and moves a waiting reason with it.
    pub fn activate(&mut self, task_id: TaskId)
        requires
            old(self).wf(),
        ensures
            final(self).wf(),
            final(self).recorded() == old(self).recorded().activated(task_id),
            final(self).stamp() == old(self).stamp(),
    {
        proof {
            law_cancel_keeps_the_bounds(self.recorded(), task_id, Seq::empty());
        }
        let ghost before = self.recorded();
        let retired: usize = self.state.retired_place(task_id);
        if retired < self.state.retired.len() {
            self.state.retired.remove(retired);
        }
        let waiting: usize = self.state.pending_place(task_id);
        let promoted: Option<String> = if waiting < self.state.pending.len() {
            Some(self.state.pending.remove(waiting).reason)
        } else {
            None
        };
        assert(self.recorded().pending =~= without(before.pending, task_id));
        let owned: usize = self.state.active_place(task_id);
        if owned == self.state.active.len() {
            self.state.active.push(OwnedEntry { task_id, reason: promoted });
        }
        assert(self.recorded() =~= before.activated(task_id));
    }

    /// Releases the record of a finished task, and reports whether there was one.
    pub fn retire(&mut self, task_id: TaskId) -> (released: bool)
        requires
            old(self).wf(),
        ensures
            final(self).wf(),
            final(self).recorded() == old(self).recorded().finished(task_id),
            final(self).stamp() == old(self).stamp(),
            released == (listed(old(self).recorded().active, task_id) || listed(
                old(self).recorded().pending,
                task_id,
            )),
    {
        proof {
            law_cancel_keeps_the_bounds(self.recorded(), task_id, Seq::empty());
        }
        let ghost before = self.recorded();
        let mut released = false;
        let owned: usize = self.state.active_place(task_id);
        if owned < self.state.active.len() {
            self.state.active.remove(owned);
            released = true;
        }
        assert(self.recorded().active =~= without(before.active, task_id));
        let waiting: usize = self.state.pending_place(task_id);
        if waiting < self.state.pending.len() {
            self.state.pending.remove(waiting);
            released = true;
        }
        assert(self.recorded().pending =~= without(before.pending, task_id));
        self.state.remember_retired(task_id);
        assert(self.recorded() =~= before.finished(task_id));
        released
    }

    /// Whether a task is remembered as finished.
    pub fn is_retired(&self, task_id: TaskId) -> (retired: bool)
        ensures
            retired == self.recorded().retired.contains(task_id),
    {
        self.state.retired_place(task_id) < self.state.retired.len()
    }

    /// Number of finished tasks that are remembered.
    pub fn retired_len(&self) -> (len: usize)
        ensures
            len == self.recorded().retired.len(),
    {
        self.state.retired.len()
    }

    /// How many tasks currently hold a reason of their own.
    pub fn tracked_tasks(&self) -> (count: usize)
        requires
            self.wf(),
            self.recorded().active.len() <= usize::MAX - MAX_PENDING_CANCELLATIONS,
        ensures
            count == self.recorded().held(),
    {
        let ghost reasoned = |entry: (TaskId, Option<Seq<char>>)| entry.1 is Some;
        let mut count: usize = 0;
        let mut i: usize = 0;
        assert(self.recorded().active.take(0) =~= Seq::empty());
        proof {
            reveal(Seq::filter);
        }
        while i < self.state.active.len()
            invariant
                i <= self.state.active@.len(),
                self.state.active@.len() == self.recorded().active.len(),
                count <= i,
                reasoned == (|entry: (TaskId, Option<Seq<char>>)| entry.1 is Some),
                count == self.recorded().active.take(i as int).filter(reasoned).len(),
            decreases self.state.active@.len() - i,
        {
            proof {
                let table = self.recorded().active;
                assert(table.take(i + 1).drop_last() =~= table.take(i as int));
                assert(table.take(i + 1).last() == table[i as int]);
                reveal(Seq::filter);
            }
            if self.state.active[i].reason.is_some() {
                count = count + 1;
            }
            i = i + 1;
        }
        assert(self.recorded().active.take(i as int) =~= self.recorded().active);
        count + self.state.pending.len()
    }

    /// The wakeup counter. A waiter compares it with the one it saw last.
    pub fn version(&self) -> (version: u64)
        ensures
            version == self.stamp(),
    {
        self.version
    }

    /// Describes the source without rendering a reason.
    pub fn describe(&self) -> (text: String)
        requires
            self.wf(),
            self.recorded().active.len() <= usize::MAX - MAX_PENDING_CANCELLATIONS,
        ensures
            text@ == "Cancellation { globally_cancelled: "@ + (if self.recorded().global is Some {
                "true"@
            } else {
                "false"@
            }) + ", cancelled_tasks: "@ + decimal(self.recorded().held()) + " }"@,
    {
        let mut text = "Cancellation { globally_cancelled: ".to_owned();
        if self.state.global.is_some() {
            text.append("true");
        } else {
            text.append("false");
        }
        text.append(", cancelled_tasks: ");
        let count: usize = self.tracked_tasks();
        text.append(decimal_text(count as u64).as_str());
        text.append(" }");
        text
    }

    /// Wakes every waiter.
    fn bump(&mut self)
        ensures
            final(self).recorded() == old(self).recorded(),
            final(self).stamp() == bumped(old(self).stamp()),
    {
        self.version = if self.version == u64::MAX {
            0
        } else {
            self.version + 1
        };
    }
}

/// The version after one more call, which wraps at the end of its range.
pub open spec fn bumped(version: u64) -> u64 {
    if version == u64::MAX {
        0
    } else {
        (version + 1) as u64
    }
}

impl Default for Cancellation {
    fn default() -> (source: Cancellation)
        ensures
            source.wf(),
            source.recorded() == Recorded::nothing(),
    {
        Cancellation::new()
    }
}

/// A reason for every task is the reason of each that has none of its own; and a task that
/// is over changes the reason of no other.
pub proof fn law_a_reason_for_all_reaches_every_task(
    r: Recorded,
    id: TaskId,
    other: TaskId,
    reason: Seq<char>,
)
    requires
        r.wf(),
        other != id,
    ensures
        r.all_cancelled(reason).reason(id) == Some(
            match (r.targeted(id), r.global) {
                (Some(own), _) => own,
                (None, Some(earlier)) => earlier,
                (None, None) => fit(reason, MAX_REASON_BYTES as nat),
            },
        ),
        r.finished(id).reason(other) == r.reason(other),
        r.finished(id).global == r.global,
{
    lemma_without_entry(r.active, id, other);
    lemma_without_entry(r.pending, id, other);
}

/// What is kept of others where one is taken out.
proof fn lemma_without_entry<T>(table: Seq<(TaskId, T)>, id: TaskId, other: TaskId)
    requires
        keys(table).no_duplicates(),
        other != id,
    ensures
        listed(without(table, id), other) <==> listed(table, other),
        listed(table, other) ==> entry_of(without(table, id), other) == entry_of(table, other),
{
    if listed(table, id) {
        let at = place(keys(table), id);
        lemma_placed(keys(table), id);
        let left = table.remove(at);
        assert(keys(left) =~= keys(table).remove(at));
        if listed(table, other) {
            let k = place(keys(table), other);
            lemma_placed(keys(table), other);
            assert(keys(table)[k] == other);
            let j = if k < at {
                k
            } else {
                k - 1
            };
            assert(keys(left)[j] == other);
            assert(left[j] == table[k]);
            assert(listed(left, other));
            lemma_placed(keys(left), other);
            let m = place(keys(left), other);
            if m != j {
                let a = if m < at {
                    m
                } else {
                    m + 1
                };
                assert(keys(table)[a] == other);
                assert(keys(table)[k] == other);
            }
        }
        if listed(left, other) {
            let j = choose|j: int| 0 <= j < keys(left).len() && keys(left)[j] == other;
            let k = if j < at {
                j
            } else {
                j + 1
            };
            assert(keys(table)[k] == other);
        }
    }
}

/// An id that is there is at its place.
proof fn lemma_placed(ids: Seq<TaskId>, id: TaskId)
    requires
        ids.contains(id),
    ensures
        0 <= place(ids, id) < ids.len(),
        ids[place(ids, id)] == id,
    decreases ids.len(),
{
    if ids[0] != id {
        let rest = ids.drop_first();
        let k = choose|k: int| 0 <= k < ids.len() && ids[k] == id;
        assert(rest[k - 1] == id);
        lemma_placed(rest, id);
    }
}

/// What is remembered of finished tasks is bounded: the oldest is forgotten for the newest
/// where there is no room, and every other stays.
pub proof fn law_the_newest_finished_tasks_are_remembered(
    retired: Seq<TaskId>,
    id: TaskId,
    other: TaskId,
)
    requires
        retired.no_duplicates(),
        other != id,
    ensures
        remembered(retired, id).last() == id,
        retired.len() < MAX_RETIRED_TASKS && retired.contains(other) ==> remembered(
            retired,
            id,
        ).contains(other),
        retired.len() >= MAX_RETIRED_TASKS && retired.contains(other) && retired[0] != other
            ==> remembered(retired, id).contains(other),
        remembered(retired, id).contains(other) ==> retired.contains(other),
        MAX_RETIRED_TASKS == 1024,
        MAX_PENDING_CANCELLATIONS == 1024,
        MAX_REASON_BYTES == 128,
{
    let base = if retired.len() >= MAX_RETIRED_TASKS {
        retired.drop_first()
    } else {
        retired
    };
    let left = ids_without(base, id);
    if base.contains(id) {
        lemma_placed(base, id);
    }
    assert forall|x: TaskId| x != id implies (left.contains(x) <==> base.contains(x)) by {
        if base.contains(id) {
            let at = place(base, id);
            if base.contains(x) {
                let k = choose|k: int| 0 <= k < base.len() && base[k] == x;
                let j = if k < at {
                    k
                } else {
                    k - 1
                };
                assert(left[j] == x);
            }
            if left.contains(x) {
                let j = choose|j: int| 0 <= j < left.len() && left[j] == x;
                let k = if j < at {
                    j
                } else {
                    j + 1
                };
                assert(base[k] == x);
            }
        }
    }
    let all = left.push(id);
    if left.contains(other) {
        let j = choose|j: int| 0 <= j < left.len() && left[j] == other;
        assert(all[j] == other);
    }
    if all.contains(other) {
        let j = choose|j: int| 0 <= j < all.len() && all[j] == other;
        assert(left[j] == other);
    }
    if retired.len() >= MAX_RETIRED_TASKS {
        if retired.contains(other) && retired[0] != other {
            let k = choose|k: int| 0 <= k < retired.len() && retired[k] == other;
            assert(base[k - 1] == other);
        }
        if base.contains(other) {
            let k = choose|k: int| 0 <= k < base.len() && base[k] == other;
            assert(retired[k + 1] == other);
        }
    }
}

/// Every signal makes another version, so that whoever waits for one sees it.
pub proof fn law_every_signal_is_seen(version: u64)
    ensures
        bumped(version) != version,
        version < u64::MAX ==> bumped(version) == version + 1,
{
}

} // verus!
