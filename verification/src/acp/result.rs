//! Structured results of a turn.

use vstd::prelude::*;
use vstd::string::*;

use crate::acp::bounded;
use crate::acp::bounded_text;
use crate::text::same_text;

verus! {

/// A structured result as data.
pub ghost enum TurnResultView {
    Continue { reason: Seq<char>, next_prompt: Option<Seq<char>> },
    Completed { output: Seq<char> },
    Blocked { reason: Seq<char> },
    Failed { reason: Seq<char> },
}

/// What a turn says of its task.
#[derive(Debug, Clone, PartialEq, Eq)]
pub enum TurnResult {
    /// The task needs another turn.
    Continue { reason: String, next_prompt: Option<String> },
    /// The task is done.
    Completed { output: String },
    /// The task waits for something outside it.
    Blocked { reason: String },
    /// The task failed.
    Failed { reason: String },
}

/// An optional text as data.
pub open spec fn optional(text: Option<String>) -> Option<Seq<char>> {
    match text {
        Some(text) => Some(text@),
        None => None,
    }
}

impl View for TurnResult {
    type V = TurnResultView;

    open spec fn view(&self) -> TurnResultView {
        match self {
            TurnResult::Continue { reason, next_prompt } => TurnResultView::Continue {
                reason: reason@,
                next_prompt: optional(*next_prompt),
            },
            TurnResult::Completed { output } => TurnResultView::Completed { output: output@ },
            TurnResult::Blocked { reason } => TurnResultView::Blocked { reason: reason@ },
            TurnResult::Failed { reason } => TurnResultView::Failed { reason: reason@ },
        }
    }
}

/// A structured result as it arrives.
#[derive(Debug, Clone, PartialEq, Eq)]
pub struct WireTurnResult {
    pub kind: String,
    pub reason: Option<String>,
    pub output: Option<String>,
    pub next_prompt: Option<String>,
}

/// The reason of a result: empty when absent, and bounded.
pub open spec fn reason_given(reason: Option<Seq<char>>) -> Seq<char> {
    bounded_text(
        match reason {
            Some(text) => text,
            None => ""@,
        },
    )
}

impl WireTurnResult {
    /// What the result means, where the turn streamed `streamed`: a completed turn
    /// without an output of its own has the streamed text as its output. A kind
    /// that is none of the four means nothing.
    pub open spec fn meaning(self, streamed: Seq<char>) -> Option<TurnResultView> {
        let reason = reason_given(optional(self.reason));
        if self.kind@ == "continue"@ {
            Some(
                TurnResultView::Continue {
                    reason,
                    next_prompt: match self.next_prompt {
                        Some(text) => Some(bounded_text(text@)),
                        None => None,
                    },
                },
            )
        } else if self.kind@ == "completed"@ {
            Some(
                TurnResultView::Completed {
                    output: bounded_text(
                        match self.output {
                            Some(text) => text@,
                            None => streamed,
                        },
                    ),
                },
            )
        } else if self.kind@ == "blocked"@ {
            Some(TurnResultView::Blocked { reason })
        } else if self.kind@ == "failed"@ {
            Some(TurnResultView::Failed { reason })
        } else {
            None
        }
    }

    /// What the result means, or that its kind is unknown.
    pub fn into_result(self, streamed: String) -> (result: Result<TurnResult, String>)
        ensures
            match result {
                Ok(result) => self.meaning(streamed@) == Some(result@),
                Err(detail) => self.meaning(streamed@) is None && detail@
                    == "unknown structured turn result kind"@,
            },
    {
        let reason = match &self.reason {
            Some(text) => bounded(text.as_str()),
            None => bounded(""),
        };
        if same_text(self.kind.as_str(), "continue") {
            let next_prompt = match &self.next_prompt {
                Some(text) => Some(bounded(text.as_str())),
                None => None,
            };
            Ok(TurnResult::Continue { reason, next_prompt })
        } else if same_text(self.kind.as_str(), "completed") {
            let output = match &self.output {
                Some(text) => bounded(text.as_str()),
                None => bounded(streamed.as_str()),
            };
            Ok(TurnResult::Completed { output })
        } else if same_text(self.kind.as_str(), "blocked") {
            Ok(TurnResult::Blocked { reason })
        } else if same_text(self.kind.as_str(), "failed") {
            Ok(TurnResult::Failed { reason })
        } else {
            Err("unknown structured turn result kind".to_owned())
        }
    }
}

/// A turn's result means what its kind says: to go on, with the next prompt where there is
/// one; that the task is done, with its output or else with what was streamed; that it is
/// blocked; or that it failed. Whatever is kept is bounded, and another kind means nothing.
pub proof fn law_a_result_means_what_its_kind_says(wire: WireTurnResult, streamed: Seq<char>)
    ensures
        ({
            let reason = match wire.reason {
                Some(text) => bounded_text(text@),
                None => bounded_text(""@),
            };
            &&& wire.kind@ == "continue"@ ==> (wire.meaning(streamed) matches Some(
                TurnResultView::Continue { reason: own, next_prompt },
            ) && own == reason && (match wire.next_prompt {
                Some(text) => next_prompt == Some(bounded_text(text@)),
                None => next_prompt is None,
            }))
            &&& wire.kind@ == "completed"@ ==> wire.meaning(streamed) == Some(
                TurnResultView::Completed {
                    output: match wire.output {
                        Some(text) => bounded_text(text@),
                        None => bounded_text(streamed),
                    },
                },
            )
            &&& wire.kind@ == "blocked"@ ==> wire.meaning(streamed) == Some(
                TurnResultView::Blocked { reason },
            )
            &&& wire.kind@ == "failed"@ ==> wire.meaning(streamed) == Some(
                TurnResultView::Failed { reason },
            )
            &&& wire.kind@ != "continue"@ && wire.kind@ != "completed"@ && wire.kind@ != "blocked"@
                && wire.kind@ != "failed"@ ==> wire.meaning(streamed) is None
        }),
{
    reveal_strlit("continue");
    reveal_strlit("completed");
    reveal_strlit("blocked");
    reveal_strlit("failed");
    assert("continue"@.len() == 8);
    assert("completed"@.len() == 9);
    assert("blocked"@.len() == 7);
    assert("failed"@.len() == 6);
}

} // verus!
