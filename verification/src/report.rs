//! The report of a batch. Each summary line is handed back for printing as
//! soon as its outcome arrives; the failures are kept, and when the batch
//! is drained they come out together as one error that lists every one of
//! them.

use crate::batch::{batch_tasks, lemma_batch_size, outcome_of, TaskView};
use crate::outcome::{summary_of, TaskFailure, TaskFailureView, TaskOutcome, TaskOutcomeView};
use crate::route::ResolutionView;
use crate::starting_point::StartingPointView;
use crate::text::{join, views};
use vstd::prelude::*;
use vstd::string::*;

verus! {

/// The summary lines among the outcomes, in the order of their arrival.
pub open spec fn success_lines(outcomes: Seq<TaskOutcomeView>) -> Seq<Seq<char>>
    decreases outcomes.len(),
{
    if outcomes.len() == 0 {
        Seq::empty()
    } else {
        let before = success_lines(outcomes.drop_last());
        match outcomes.last() {
            TaskOutcomeView::Success(line) => before.push(line),
            TaskOutcomeView::Failure(_) => before,
        }
    }
}

/// The failures among the outcomes, in the order of their arrival.
pub open spec fn failures_in(outcomes: Seq<TaskOutcomeView>) -> Seq<TaskFailureView>
    decreases outcomes.len(),
{
    if outcomes.len() == 0 {
        Seq::empty()
    } else {
        let before = failures_in(outcomes.drop_last());
        match outcomes.last() {
            TaskOutcomeView::Success(_) => before,
            TaskOutcomeView::Failure(failure) => before.push(failure),
        }
    }
}

/// The views of a vector of failures.
pub open spec fn failure_views(failures: Seq<TaskFailure>) -> Seq<TaskFailureView> {
    failures.map_values(|failure: TaskFailure| failure@)
}

/// All the lookups of a batch that failed.
#[derive(Debug)]
pub struct BatchError {
    /// The failures, in the order of their arrival.
    pub failures: Vec<TaskFailure>,
}

impl View for BatchError {
    type V = Seq<TaskFailureView>;

    open spec fn view(&self) -> Seq<TaskFailureView> {
        failure_views(self.failures@)
    }
}

/// The first line of the report of a batch error.
pub const BATCH_ERROR_HEADLINE: &'static str = "These lookups failed:";

/// The sentences of the given failures, in order.
pub open spec fn failure_messages(failures: Seq<TaskFailureView>) -> Seq<Seq<char>> {
    failures.map_values(|failure: TaskFailureView| failure.message())
}

/// The report of the given failures: the headline, then one line for each.
pub open spec fn failure_report(failures: Seq<TaskFailureView>) -> Seq<char> {
    join(seq![BATCH_ERROR_HEADLINE@] + failure_messages(failures), '\n')
}

impl BatchError {
    /// The sentence of each failure, in order.
    pub fn messages(&self) -> (lines: Vec<String>)
        ensures
            views(lines@) == failure_messages(self@),
    {
        let mut lines: Vec<String> = Vec::new();
        let mut i: usize = 0;
        while i < self.failures.len()
            invariant
                i <= self.failures.len(),
                views(lines@) == failure_messages(self@.take(i as int)),
            decreases self.failures.len() - i,
        {
            let line = self.failures[i].message();
            assert(self@.take(i + 1) == self@.take(i as int).push(self.failures[i as int]@));
            assert(views(lines@.push(line)) == views(lines@).push(line@));
            assert(failure_messages(self@.take(i as int).push(self.failures[i as int]@))
                == failure_messages(self@.take(i as int)).push(
                self.failures[i as int]@.message(),
            ));
            lines.push(line);
            i += 1;
        }
        assert(self@.take(i as int) == self@);
        lines
    }

    /// The whole report: the headline, then the sentence of each failure on
    /// a line of its own.
    pub fn message(&self) -> (text: String)
        ensures
            text@ == failure_report(self@),
    {
        let mut text = BATCH_ERROR_HEADLINE.to_owned();
        let mut i: usize = 0;
        while i < self.failures.len()
            invariant
                i <= self.failures.len(),
                text@ == failure_report(self@.take(i as int)),
            decreases self.failures.len() - i,
        {
            let line = self.failures[i].message();
            proof {
                let head = seq![BATCH_ERROR_HEADLINE@];
                let before = self@.take(i as int);
                let after = self@.take(i + 1);
                assert(after == before.push(self.failures[i as int]@));
                assert(failure_messages(after) == failure_messages(before).push(line@));
                assert((head + failure_messages(after)).drop_last() == head + failure_messages(
                    before,
                ));
            }
            text.push('\n');
            text.append(line.as_str());
            i += 1;
        }
        assert(self@.take(i as int) == self@);
        text
    }
}

/// Takes the outcomes of a batch as they arrive.
pub struct ReportSink {
    failures: Vec<TaskFailure>,
    seen: Ghost<Seq<TaskOutcomeView>>,
}

impl ReportSink {
    #[verifier::type_invariant]
    spec fn keeps_every_failure(self) -> bool {
        failure_views(self.failures@) == failures_in(self.seen@)
    }

    /// All the outcomes recorded so far, in the order of their arrival.
    pub closed spec fn seen(&self) -> Seq<TaskOutcomeView> {
        self.seen@
    }

    /// A sink that has seen no outcome.
    pub fn new() -> (sink: Self)
        ensures
            sink.seen() == Seq::<TaskOutcomeView>::empty(),
    {
        let failures: Vec<TaskFailure> = Vec::new();
        assert(failure_views(failures@) =~= Seq::<TaskFailureView>::empty());
        ReportSink { failures, seen: Ghost(Seq::empty()) }
    }

    /// Takes one outcome. A success hands its summary line back, to be
    /// printed now; a failure is kept for the end and hands nothing back.
    pub fn record(&mut self, outcome: TaskOutcome) -> (line: Option<String>)
        ensures
            final(self).seen() == old(self).seen().push(outcome@),
            match outcome@ {
                TaskOutcomeView::Success(text) => line is Some && line->Some_0@ == text,
                TaskOutcomeView::Failure(_) => line is None,
            },
    {
        let ghost before = self.seen@;
        let ghost seen = before.push(outcome@);
        proof {
            use_type_invariant(&*self);
            assert(seen.drop_last() =~= before);
        }
        match outcome {
            TaskOutcome::Success(line) => {
                self.seen = Ghost(seen);
                Some(line)
            },
            TaskOutcome::Failure(failure) => {
                let mut taken = ReportSink::new();
                std::mem::swap(self, &mut taken);
                let mut failures = taken.failures;
                assert(failure_views(failures@.push(failure)) == failure_views(failures@).push(
                    failure@,
                ));
                failures.push(failure);
                *self = ReportSink { failures, seen: Ghost(seen) };
                None
            },
        }
    }

    /// How many of the outcomes recorded so far are failures.
    pub fn failure_count(&self) -> (count: usize)
        ensures
            count == failures_in(self.seen()).len(),
    {
        proof {
            use_type_invariant(self);
        }
        self.failures.len()
    }

    /// Ends the batch: `Ok` when no lookup failed, otherwise one error that
    /// holds every failure recorded, in the order of arrival.
    pub fn finish(self) -> (end: Result<(), BatchError>)
        ensures
            match end {
                Ok(_) => failures_in(self.seen()).len() == 0,
                Err(error) => error@.len() > 0 && error@ == failures_in(self.seen()),
            },
    {
        proof {
            use_type_invariant(&self);
        }
        if self.failures.is_empty() {
            Ok(())
        } else {
            Err(BatchError { failures: self.failures })
        }
    }
}

/// Every outcome is either a summary line or a failure: none is counted
/// twice and none is dropped.
pub proof fn lemma_every_outcome_accounted(outcomes: Seq<TaskOutcomeView>)
    ensures
        success_lines(outcomes).len() + failures_in(outcomes).len() == outcomes.len(),
    decreases outcomes.len(),
{
    if outcomes.len() > 0 {
        lemma_every_outcome_accounted(outcomes.drop_last());
    }
}

/// Outcomes that are all successes hold no failure.
pub proof fn lemma_no_failure_among_successes(outcomes: Seq<TaskOutcomeView>)
    requires
        forall|i: int| 0 <= i < outcomes.len() ==> (#[trigger] outcomes[i]) is Success,
    ensures
        failures_in(outcomes) == Seq::<TaskFailureView>::empty(),
    decreases outcomes.len(),
{
    if outcomes.len() > 0 {
        lemma_no_failure_among_successes(outcomes.drop_last());
    }
}

/// Where exactly one outcome is a failure, that failure is the only one
/// kept and every other outcome gave its summary line.
pub proof fn lemma_single_failure(outcomes: Seq<TaskOutcomeView>, bad: int)
    requires
        0 <= bad < outcomes.len(),
        outcomes[bad] is Failure,
        forall|i: int| 0 <= i < outcomes.len() && i != bad ==> (#[trigger] outcomes[i]) is Success,
    ensures
        failures_in(outcomes) == seq![outcomes[bad]->Failure_0],
        success_lines(outcomes).len() == outcomes.len() - 1,
    decreases outcomes.len(),
{
    let shorter = outcomes.drop_last();
    if bad == outcomes.len() - 1 {
        lemma_no_failure_among_successes(shorter);
    } else {
        lemma_single_failure(shorter, bad);
    }
    lemma_every_outcome_accounted(outcomes);
}

/// A lookup that has completed: the task and the answer it got.
pub struct Completion {
    pub task: TaskView,
    pub answer: ResolutionView,
}

/// The outcomes of the given completions, in their order.
pub open spec fn observed(completions: Seq<Completion>) -> Seq<TaskOutcomeView> {
    completions.map_values(|done: Completion| outcome_of(done.task, done.answer))
}

/// The tasks of the given completions, in their order.
pub open spec fn completed_tasks(completions: Seq<Completion>) -> Seq<TaskView> {
    completions.map_values(|done: Completion| done.task)
}

/// In a batch where every task completes once, in whatever order, and
/// exactly one lookup fails, all the others give their summary line: one
/// failure is kept, and the lines number one less than the pairs of a
/// starting point and an address.
pub proof fn lemma_batch_with_one_failure(
    points: Seq<StartingPointView>,
    addresses: Seq<Seq<char>>,
    completions: Seq<Completion>,
    bad: int,
)
    requires
        completed_tasks(completions).to_multiset() == batch_tasks(points, addresses).to_multiset(),
        0 <= bad < completions.len(),
        summary_of(completions[bad].answer) is Err,
        forall|i: int|
            0 <= i < completions.len() && i != bad ==> summary_of(
                (#[trigger] completions[i]).answer,
            ) is Ok,
    ensures
        success_lines(observed(completions)).len() == points.len() * addresses.len() - 1,
        failures_in(observed(completions)) == seq![
            TaskFailureView {
                context: completions[bad].task.label(),
                cause: summary_of(completions[bad].answer)->Err_0,
            },
        ],
{
    let outcomes = observed(completions);
    assert forall|i: int| 0 <= i < outcomes.len() && i != bad implies (#[trigger] outcomes[i])
        is Success by {
        assert(summary_of(completions[i].answer) is Ok);
    }
    lemma_single_failure(outcomes, bad);
    lemma_batch_size(points, addresses);
    completed_tasks(completions).to_multiset_ensures();
    batch_tasks(points, addresses).to_multiset_ensures();
}

} // verus!
