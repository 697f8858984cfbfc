//! What one evaluation ends in, and how a failure is worded.

use crate::text::{decimal, join, join_all, lemma_join_holds_part, occurs_at, push_decimal, texts};
use vstd::prelude::*;

verus! {

/// The longest an evaluation may run, in seconds.
pub const EVAL_TIMEOUT_SECS: u64 = 2;

/// How one evaluation ended.
#[derive(Clone, Debug, PartialEq, Eq)]
pub enum EvaluationOutcome {
    /// The evaluator gave a value; this is its rendered text.
    Value(String),
    /// The evaluator gave no value and reported these diagnostics.
    Failure(Vec<String>),
    /// The evaluator gave neither a value nor a diagnostic.
    Inconsistent,
    /// The evaluation did not end before the deadline.
    Timeout,
}

/// The mathematical content of an [`EvaluationOutcome`].
pub enum OutcomeView {
    Value(Seq<char>),
    Failure(Seq<Seq<char>>),
    Inconsistent,
    Timeout,
}

impl View for EvaluationOutcome {
    type V = OutcomeView;

    open spec fn view(&self) -> OutcomeView {
        match self {
            EvaluationOutcome::Value(v) => OutcomeView::Value(v@),
            EvaluationOutcome::Failure(d) => OutcomeView::Failure(texts(d@)),
            EvaluationOutcome::Inconsistent => OutcomeView::Inconsistent,
            EvaluationOutcome::Timeout => OutcomeView::Timeout,
        }
    }
}

/// What the evaluator's answer amounts to: the value where there is one,
/// else all the diagnostics, else an inconsistency.
pub open spec fn checked(value: Option<Seq<char>>, diagnostics: Seq<Seq<char>>) -> OutcomeView {
    match value {
        Some(v) => OutcomeView::Value(v),
        None => if diagnostics.len() > 0 {
            OutcomeView::Failure(diagnostics)
        } else {
            OutcomeView::Inconsistent
        },
    }
}

/// The text shown for diagnostics: all of them, one per line, in a fence.
pub open spec fn diagnostics_message(diagnostics: Seq<Seq<char>>) -> Seq<char> {
    "```\n"@ + join(diagnostics, "\n"@) + "\n```"@
}

/// The text shown when the evaluator gave neither value nor diagnostic.
pub open spec fn inconsistent_message() -> Seq<char> {
    "There was no result nor error! This shouldn't really happen."@
}

/// The text shown when the deadline of `seconds` passed.
pub open spec fn timeout_message(seconds: nat) -> Seq<char> {
    "Evaluation took too long. Max eval time is "@ + decimal(seconds) + " seconds."@
}

/// What the caller is told: the value, or the message of the failure.
pub open spec fn reply_of(outcome: OutcomeView) -> Result<Seq<char>, Seq<char>> {
    match outcome {
        OutcomeView::Value(v) => Ok(v),
        OutcomeView::Failure(d) => Err(diagnostics_message(d)),
        OutcomeView::Inconsistent => Err(inconsistent_message()),
        OutcomeView::Timeout => Err(timeout_message(EVAL_TIMEOUT_SECS as nat)),
    }
}

/// The view of a reply.
pub open spec fn reply_view(reply: Result<String, String>) -> Result<Seq<char>, Seq<char>> {
    match reply {
        Ok(v) => Ok(v@),
        Err(e) => Err(e@),
    }
}

/// Turns what the evaluator handed back into an outcome. A value wins over
/// diagnostics; without a value all diagnostics are kept, in order; without
/// either the outcome is `Inconsistent`.
pub fn check_value_for_errors(value: Option<String>, diagnostics: Vec<String>) -> (out:
    EvaluationOutcome)
    ensures
        out@ == checked(
            match value {
                Some(v) => Some(v@),
                None => None,
            },
            texts(diagnostics@),
        ),
{
    match value {
        Some(v) => EvaluationOutcome::Value(v),
        None => {
            if diagnostics.len() > 0 {
                EvaluationOutcome::Failure(diagnostics)
            } else {
                EvaluationOutcome::Inconsistent
            }
        },
    }
}

/// What the caller of a worker may see happen, in any order and any number
/// of times: the worker hands back an outcome, the deadline passes, or the
/// worker breaks down.
#[derive(Clone, Debug, PartialEq, Eq)]
pub enum WorkerEvent {
    /// The worker handed back an outcome.
    Finished(EvaluationOutcome),
    /// The deadline passed.
    Elapsed,
    /// The worker broke down; this is what is known of it.
    Crashed(String),
}

/// The mathematical content of a [`WorkerEvent`].
pub enum WorkerEventView {
    Finished(OutcomeView),
    Elapsed,
    Crashed(Seq<char>),
}

impl View for WorkerEvent {
    type V = WorkerEventView;

    open spec fn view(&self) -> WorkerEventView {
        match self {
            WorkerEvent::Finished(o) => WorkerEventView::Finished(o@),
            WorkerEvent::Elapsed => WorkerEventView::Elapsed,
            WorkerEvent::Crashed(message) => WorkerEventView::Crashed(message@),
        }
    }
}

/// The wait for one worker: open until the first event settles it.
#[derive(Debug)]
pub struct Wait {
    settled: Option<EvaluationOutcome>,
}

impl View for Wait {
    type V = Option<OutcomeView>;

    closed spec fn view(&self) -> Option<OutcomeView> {
        match self.settled {
            Some(o) => Some(o@),
            None => None,
        }
    }
}

/// The wait `wait` after `event`. The first event settles it: on the worker's
/// outcome if the worker was first, on `Timeout` if the deadline was, on a
/// failure with the one message if the worker broke down. What comes later
/// changes nothing.
pub open spec fn settled(wait: Option<OutcomeView>, event: WorkerEventView) -> Option<
    OutcomeView,
> {
    match wait {
        Some(outcome) => Some(outcome),
        None => match event {
            WorkerEventView::Finished(outcome) => Some(outcome),
            WorkerEventView::Elapsed => Some(OutcomeView::Timeout),
            WorkerEventView::Crashed(message) => Some(OutcomeView::Failure(seq![message])),
        },
    }
}

/// The outcome of an evaluation whose worker was waited for until the
/// deadline, from what the wait ended with: what the worker handed back,
/// `Timeout` where the deadline came first, and a failure with the one
/// message where the worker broke down. This is a [`Wait`] with its one
/// event, in a single step.
pub fn conclude(event: WorkerEvent) -> (out: EvaluationOutcome)
    ensures
        Some(out@) == settled(None, event@),
        event is Elapsed ==> out@ == OutcomeView::Timeout,
        event matches WorkerEvent::Finished(o) ==> out == o,
{
    match event {
        WorkerEvent::Finished(outcome) => outcome,
        WorkerEvent::Elapsed => EvaluationOutcome::Timeout,
        WorkerEvent::Crashed(message) => {
            let mut diagnostics: Vec<String> = Vec::new();
            diagnostics.push(message);
            assert(texts(diagnostics@) =~= seq![message@]);
            EvaluationOutcome::Failure(diagnostics)
        },
    }
}

impl Wait {
    /// A wait that nothing has settled yet.
    pub fn new() -> (wait: Wait)
        ensures
            wait@ is None,
    {
        Wait { settled: None }
    }

    /// Takes note of `event`.
    pub fn on_event(&mut self, event: WorkerEvent)
        ensures
            final(self)@ == settled(old(self)@, event@),
    {
        if self.settled.is_none() {
            self.settled = Some(conclude(event));
        }
    }

    /// What the wait settled on, or `None` while it is open.
    pub fn into_outcome(self) -> (outcome: Option<EvaluationOutcome>)
        ensures
            match outcome {
                Some(o) => self@ == Some(o@),
                None => self@ is None,
            },
    {
        self.settled
    }
}

/// Once the deadline has passed on an open wait the outcome is `Timeout` and
/// stays so: what the worker hands back later is dropped, be it a value or
/// diagnostics.
pub proof fn lemma_timeout_is_final(late: WorkerEventView)
    ensures
        settled(None, WorkerEventView::Elapsed) == Some(OutcomeView::Timeout),
        settled(settled(None, WorkerEventView::Elapsed), late) == Some(OutcomeView::Timeout),
{
}

/// A wait that is settled stays as it is, whatever comes.
pub proof fn lemma_settled_stays(outcome: OutcomeView, late: WorkerEventView)
    ensures
        settled(Some(outcome), late) == Some(outcome),
{
}

impl EvaluationOutcome {
    /// What the caller is told: the rendered value, or the failure's message.
    pub fn into_reply(self) -> (reply: Result<String, String>)
        ensures
            reply_view(reply) == reply_of(self@),
    {
        match self {
            EvaluationOutcome::Value(v) => Ok(v),
            EvaluationOutcome::Failure(d) => {
                let mut m = String::from_str("```\n");
                let lines = join_all(&d, "\n");
                m.append(lines.as_str());
                m.append("\n```");
                Err(m)
            },
            EvaluationOutcome::Inconsistent => Err(
                String::from_str("There was no result nor error! This shouldn't really happen."),
            ),
            EvaluationOutcome::Timeout => {
                let mut m = String::from_str("Evaluation took too long. Max eval time is ");
                push_decimal(&mut m, EVAL_TIMEOUT_SECS);
                m.append(" seconds.");
                Err(m)
            },
        }
    }
}

/// Two diagnostics are both shown, the first above the second, and nothing
/// else between the fences.
pub proof fn lemma_two_diagnostics_both_shown(first: Seq<char>, second: Seq<char>)
    ensures
        reply_of(checked(None, seq![first, second])) == Err::<Seq<char>, Seq<char>>(
            "```\n"@ + first + "\n"@ + second + "\n```"@,
        ),
{
    let both = seq![first, second];
    assert(both.drop_last() =~= seq![first]);
    assert(join(seq![first], "\n"@) == first);
    assert(join(both, "\n"@) == first + "\n"@ + second);
    assert("```\n"@ + (first + "\n"@ + second) + "\n```"@ =~= "```\n"@ + first + "\n"@ + second
        + "\n```"@);
}

/// No diagnostic is left out: where the evaluator gave no value, each of its
/// diagnostics stands in the message, whole.
pub proof fn lemma_every_diagnostic_is_shown(diagnostics: Seq<Seq<char>>, i: int)
    requires
        0 <= i < diagnostics.len(),
    ensures
        reply_of(checked(None, diagnostics)) == Err::<Seq<char>, Seq<char>>(
            diagnostics_message(diagnostics),
        ),
        exists|k: int| occurs_at(diagnostics_message(diagnostics), diagnostics[i], k),
{
    let lines = join(diagnostics, "\n"@);
    let message = diagnostics_message(diagnostics);
    lemma_join_holds_part(diagnostics, "\n"@, i);
    let k = choose|k: int| occurs_at(lines, diagnostics[i], k);
    let shift = "```\n"@.len() as int;
    assert(message.subrange(shift + k, shift + k + diagnostics[i].len()) =~= lines.subrange(
        k,
        k + diagnostics[i].len(),
    ));
    assert(occurs_at(message, diagnostics[i], shift + k));
}

} // verus!
