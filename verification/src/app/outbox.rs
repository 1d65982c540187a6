//! Sending what is stored to be sent.

use vstd::prelude::*;

use crate::time::Duration;
use crate::time::Timestamp;

verus! {

/// After how many seconds a claim that was not finished may be taken over.
pub const STALE_CLAIM_SECS: u64 = 300;

/// Up to when a claim is stale at `now`; none where that lies before time begins.
pub fn stale_before(now: Timestamp) -> (before: Option<Timestamp>)
    ensures
        match before {
            Some(before) => before.total() == now.total() - STALE_CLAIM_SECS * 1_000_000_000,
            None => now.total() - STALE_CLAIM_SECS * 1_000_000_000 < crate::time::min_instant(),
        },
{
    now.checked_sub(Duration::from_secs(STALE_CLAIM_SECS))
}

/// Where a drain is.
#[derive(Debug, Clone, Copy, PartialEq, Eq, Structural)]
pub enum DrainStage {
    /// The rows are claimed.
    Claiming,
    /// The row with this number is sent; so many were before.
    Sending { at: usize, sent: usize },
    /// The row with this number is marked as sent; so many were before.
    Marking { at: usize, sent: usize },
    /// The drain is over.
    Done,
}

/// What came of an action.
#[derive(Debug, PartialEq, Eq)]
pub enum DrainInput {
    /// How many rows were claimed; nothing where the store failed.
    Claimed(Option<usize>),
    /// Whether the row was sent.
    Sent(bool),
    /// Whether the row was marked as sent; nothing where the store failed.
    Marked(Option<bool>),
}

/// What to do next for a drain.
#[derive(Debug, Clone, Copy, PartialEq, Eq, Structural)]
pub enum DrainAction {
    /// Claim at most this many rows.
    Claim(u32),
    /// Send the row with this number.
    Send(usize),
    /// Mark the row with this number as sent.
    Mark(usize),
    /// So many rows were sent.
    Drained(usize),
    /// The store failed.
    Failed,
}

/// The row `at`, or the end.
pub open spec fn drain_at(rows: nat, at: nat, sent: nat) -> (DrainStage, DrainAction) {
    if at < rows {
        (
            DrainStage::Sending { at: at as usize, sent: sent as usize },
            DrainAction::Send(at as usize),
        )
    } else {
        (DrainStage::Done, DrainAction::Drained(sent as usize))
    }
}

/// Whether `input` answers what a drain in `stage` waits for.
pub open spec fn drain_expects(stage: DrainStage, input: DrainInput) -> bool {
    match stage {
        DrainStage::Claiming => input is Claimed,
        DrainStage::Sending { at: _, sent: _ } => input is Sent,
        DrainStage::Marking { at: _, sent: _ } => input is Marked,
        DrainStage::Done => false,
    }
}

/// How a drain of `rows` rows goes on. A row that could not be sent is passed over,
/// and counts no more than one that was sent and not marked.
pub open spec fn drain_next(rows: nat, stage: DrainStage, input: DrainInput) -> (
    DrainStage,
    DrainAction,
) {
    match (stage, input) {
        (DrainStage::Claiming, DrainInput::Claimed(Some(_))) => drain_at(rows, 0, 0),
        (DrainStage::Sending { at, sent }, DrainInput::Sent(true)) => (
            DrainStage::Marking { at, sent },
            DrainAction::Mark(at),
        ),
        (DrainStage::Sending { at, sent }, DrainInput::Sent(false)) => drain_at(
            rows,
            (at + 1) as nat,
            sent as nat,
        ),
        (DrainStage::Marking { at, sent }, DrainInput::Marked(Some(marked))) => drain_at(
            rows,
            (at + 1) as nat,
            if marked {
                (sent + 1) as nat
            } else {
                sent as nat
            },
        ),
        _ => (DrainStage::Done, DrainAction::Failed),
    }
}

/// One drain on its way.
#[derive(Debug)]
pub struct OutboxDrain {
    rows: usize,
    stage: DrainStage,
}

impl OutboxDrain {
    /// How many rows were claimed.
    pub closed spec fn rows(&self) -> nat {
        self.rows as nat
    }

    /// Where the drain is.
    pub closed spec fn stage(&self) -> DrainStage {
        self.stage
    }

    /// A drain is at one of its rows, and has sent none that it has not come to.
    pub closed spec fn wf(&self) -> bool {
        match self.stage {
            DrainStage::Sending { at, sent } => at < self.rows && sent <= at,
            DrainStage::Marking { at, sent } => at < self.rows && sent <= at,
            _ => true,
        }
    }

    /// Begin a drain of at most `batch` rows.
    pub fn new(batch: u32) -> (run: (OutboxDrain, DrainAction))
        requires
            batch > 0,
        ensures
            run.0.wf(),
            run.0.stage() is Claiming,
            run.1 == DrainAction::Claim(batch),
    {
        (OutboxDrain { rows: 0, stage: DrainStage::Claiming }, DrainAction::Claim(batch))
    }

    /// The row `at`, or the end.
    fn go_on(&mut self, at: usize, sent: usize) -> (action: DrainAction)
        requires
            at <= old(self).rows(),
            sent <= at,
        ensures
            final(self).wf(),
            final(self).rows() == old(self).rows(),
            (final(self).stage(), action) == drain_at(old(self).rows(), at as nat, sent as nat),
    {
        if at < self.rows {
            self.stage = DrainStage::Sending { at, sent };
            DrainAction::Send(at)
        } else {
            self.stage = DrainStage::Done;
            DrainAction::Drained(sent)
        }
    }

    /// Whether `input` answers what the drain waits for.
    pub fn expects(&self, input: &DrainInput) -> (yes: bool)
        ensures
            yes == drain_expects(self.stage(), *input),
    {
        match (self.stage, input) {
            (DrainStage::Claiming, DrainInput::Claimed(_)) => true,
            (DrainStage::Sending { at: _, sent: _ }, DrainInput::Sent(_)) => true,
            (DrainStage::Marking { at: _, sent: _ }, DrainInput::Marked(_)) => true,
            _ => false,
        }
    }

    /// Go on with what came of the last action.
    pub fn step(&mut self, input: DrainInput) -> (action: DrainAction)
        requires
            old(self).wf(),
            drain_expects(old(self).stage(), input),
        ensures
            final(self).wf(),
            final(self).rows() == (match input {
                DrainInput::Claimed(Some(rows)) => rows as nat,
                _ => old(self).rows(),
            }),
            (final(self).stage(), action) == drain_next(
                final(self).rows(),
                old(self).stage(),
                input,
            ),
    {
        let stage = self.stage;
        self.stage = DrainStage::Done;
        match (stage, input) {
            (DrainStage::Claiming, DrainInput::Claimed(Some(rows))) => {
                self.rows = rows;
                self.go_on(0, 0)
            },
            (DrainStage::Sending { at, sent }, DrainInput::Sent(true)) => {
                self.stage = DrainStage::Marking { at, sent };
                DrainAction::Mark(at)
            },
            (DrainStage::Sending { at, sent }, DrainInput::Sent(false)) => {
                self.go_on(at + 1, sent)
            },
            (DrainStage::Marking { at, sent }, DrainInput::Marked(Some(marked))) => {
                if marked {
                    self.go_on(at + 1, sent + 1)
                } else {
                    self.go_on(at + 1, sent)
                }
            },
            _ => DrainAction::Failed,
        }
    }
}

/// A row is marked as sent only after it was sent.
pub proof fn law_a_row_is_marked_after_it_was_sent(
    rows: nat,
    stage: DrainStage,
    input: DrainInput,
)
    requires
        drain_expects(stage, input),
        drain_next(rows, stage, input).1 is Mark,
    ensures
        input == DrainInput::Sent(true),
        stage matches DrainStage::Sending { at, sent: _ } && drain_next(rows, stage, input).1
            == DrainAction::Mark(at),
{
}

/// Where a drain is after `inputs`, and what it does next.
pub open spec fn drained_after(inputs: Seq<DrainInput>, batch: u32) -> (DrainStage, DrainAction)
    decreases inputs.len(),
{
    if inputs.len() == 0 {
        (DrainStage::Claiming, DrainAction::Claim(batch))
    } else {
        drain_next(
            claimed_in(inputs),
            drained_after(inputs.drop_last(), batch).0,
            inputs.last(),
        )
    }
}

/// How many rows were claimed.
pub open spec fn claimed_in(inputs: Seq<DrainInput>) -> nat {
    if inputs.len() > 0 {
        match inputs[0] {
            DrainInput::Claimed(Some(rows)) => rows as nat,
            _ => 0,
        }
    } else {
        0
    }
}

/// Whether every input answered what the drain waited for.
pub open spec fn answers_drain(inputs: Seq<DrainInput>, batch: u32) -> bool
    decreases inputs.len(),
{
    inputs.len() == 0 || {
        &&& answers_drain(inputs.drop_last(), batch)
        &&& drain_expects(drained_after(inputs.drop_last(), batch).0, inputs.last())
    }
}

/// How many rows were tried.
pub open spec fn tried(inputs: Seq<DrainInput>) -> nat
    decreases inputs.len(),
{
    if inputs.len() == 0 {
        0
    } else if inputs.last() is Sent {
        tried(inputs.drop_last()) + 1
    } else {
        tried(inputs.drop_last())
    }
}

/// How many rows were sent and marked as sent.
pub open spec fn marked(inputs: Seq<DrainInput>) -> nat
    decreases inputs.len(),
{
    if inputs.len() == 0 {
        0
    } else if inputs.last() == DrainInput::Marked(Some(true)) {
        marked(inputs.drop_last()) + 1
    } else {
        marked(inputs.drop_last())
    }
}

proof fn lemma_drain_so_far(inputs: Seq<DrainInput>, batch: u32)
    requires
        answers_drain(inputs, batch),
    ensures
        marked(inputs) <= tried(inputs) <= claimed_in(inputs),
        match drained_after(inputs, batch).0 {
            DrainStage::Claiming => inputs.len() == 0,
            DrainStage::Sending { at, sent } => inputs.len() > 0 && at == tried(inputs) && sent
                == marked(inputs) && at < claimed_in(inputs),
            DrainStage::Marking { at, sent } => inputs.len() > 0 && at + 1 == tried(inputs) && sent
                == marked(inputs) && sent <= at && at < claimed_in(inputs),
            DrainStage::Done => inputs.len() > 0,
        },
    decreases inputs.len(),
{
    if inputs.len() > 0 {
        let earlier = inputs.drop_last();
        lemma_drain_so_far(earlier, batch);
        if earlier.len() > 0 {
            assert(earlier[0] == inputs[0]);
        } else {
            reveal_with_fuel(tried, 2);
            reveal_with_fuel(marked, 2);
        }
    }
}

/// Every row that was claimed is tried, in order and once; one that was sent is marked
/// before the next is tried, and one that was not is passed over. The drain ends when all
/// were tried, and tells how many were sent and marked, unless the store fails.
pub proof fn law_a_drain_goes_row_by_row(inputs: Seq<DrainInput>, batch: u32)
    requires
        answers_drain(inputs, batch),
        inputs.len() > 0,
    ensures
        ({
            let action = drained_after(inputs, batch).1;
            let rows = claimed_in(inputs);
            let goes_on = if tried(inputs) < rows {
                action == DrainAction::Send(tried(inputs) as usize)
            } else {
                action == DrainAction::Drained(marked(inputs) as usize)
            };
            match inputs.last() {
                DrainInput::Claimed(None) => action == DrainAction::Failed,
                DrainInput::Claimed(Some(_)) => goes_on && tried(inputs) == 0,
                DrainInput::Sent(true) => tried(inputs) > 0 && action == DrainAction::Mark(
                    (tried(inputs) - 1) as usize,
                ),
                DrainInput::Sent(false) => goes_on,
                DrainInput::Marked(None) => action == DrainAction::Failed,
                DrainInput::Marked(Some(_)) => goes_on,
            }
        }),
        tried(inputs) <= claimed_in(inputs),
{
    let earlier = inputs.drop_last();
    lemma_drain_so_far(earlier, batch);
    lemma_drain_so_far(inputs, batch);
    if earlier.len() > 0 {
        assert(earlier[0] == inputs[0]);
    } else {
        reveal_with_fuel(tried, 2);
        reveal_with_fuel(marked, 2);
    }
}

/// A drain waits for what answers its last action, and for nothing once it is over.
pub proof fn law_a_drain_waits_for_what_it_asked(
    inputs: Seq<DrainInput>,
    batch: u32,
    next: DrainInput,
)
    requires
        answers_drain(inputs, batch),
    ensures
        inputs.len() == 0 ==> drained_after(inputs, batch).1 == DrainAction::Claim(batch),
        answers_drain(inputs.push(next), batch) <==> (match drained_after(inputs, batch).1 {
            DrainAction::Claim(_) => next is Claimed,
            DrainAction::Send(_) => next is Sent,
            DrainAction::Mark(_) => next is Marked,
            DrainAction::Drained(_) => false,
            DrainAction::Failed => false,
        }),
{
    assert(inputs.push(next).drop_last() =~= inputs);
}

/// A claim that was not kept up for five minutes may be taken over.
pub proof fn law_a_stale_claim_may_be_taken_over()
    ensures
        STALE_CLAIM_SECS == 5 * 60,
{
}

} // verus!
