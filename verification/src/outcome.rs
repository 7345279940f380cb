//! How one lookup ended: with a summary line, or with a failure that names
//! the pair of starting point and destination.

use crate::duration::{duration_text, round_duration, rounded, RoundedDuration};
use crate::route::{total_seconds, Resolution, ResolutionView};
use vstd::prelude::*;
use vstd::std_specs::cmp::PartialEqSpecImpl;
use vstd::string::*;

verus! {

/// Why the directions service gave no route for a pair.
#[derive(Debug)]
pub enum ResolverError {
    /// The query failed on the way or at the service; the text says how.
    Service(String),
    /// The service answered, with no route at all.
    NoRoute,
}

pub enum ResolverErrorView {
    Service(Seq<char>),
    NoRoute,
}

impl View for ResolverError {
    type V = ResolverErrorView;

    open spec fn view(&self) -> ResolverErrorView {
        match self {
            ResolverError::Service(reason) => ResolverErrorView::Service(reason@),
            ResolverError::NoRoute => ResolverErrorView::NoRoute,
        }
    }
}

impl PartialEq for ResolverError {
    fn eq(&self, other: &Self) -> (same: bool) {
        match self {
            ResolverError::Service(mine) => match other {
                ResolverError::Service(theirs) => *mine == *theirs,
                ResolverError::NoRoute => false,
            },
            ResolverError::NoRoute => match other {
                ResolverError::Service(_) => false,
                ResolverError::NoRoute => true,
            },
        }
    }
}

impl Eq for ResolverError {

}

impl PartialEqSpecImpl for ResolverError {
    open spec fn obeys_eq_spec() -> bool {
        true
    }

    open spec fn eq_spec(&self, other: &Self) -> bool {
        self@ == other@
    }
}

/// A lookup that gave no summary.
#[derive(Debug)]
pub struct TaskFailure {
    /// The name of the pair: the label of the starting point, an arrow, the address.
    pub context: String,
    pub cause: ResolverError,
}

pub struct TaskFailureView {
    pub context: Seq<char>,
    pub cause: ResolverErrorView,
}

impl View for TaskFailure {
    type V = TaskFailureView;

    open spec fn view(&self) -> TaskFailureView {
        TaskFailureView { context: self.context@, cause: self.cause@ }
    }
}

impl TaskFailureView {
    /// The sentence that reports this failure. It names the pair, whatever the cause.
    pub open spec fn message(self) -> Seq<char> {
        match self.cause {
            ResolverErrorView::NoRoute => "no route returned for "@ + self.context,
            ResolverErrorView::Service(reason) => self.context + ": "@ + reason,
        }
    }
}

impl PartialEq for TaskFailure {
    fn eq(&self, other: &Self) -> (same: bool) {
        self.context == other.context && self.cause == other.cause
    }
}

impl Eq for TaskFailure {

}

impl PartialEqSpecImpl for TaskFailure {
    open spec fn obeys_eq_spec() -> bool {
        true
    }

    open spec fn eq_spec(&self, other: &Self) -> bool {
        self@ == other@
    }
}

impl TaskFailure {
    /// The sentence that reports this failure.
    pub fn message(&self) -> (text: String)
        ensures
            text@ == self@.message(),
    {
        match &self.cause {
            ResolverError::NoRoute => {
                let mut text = "no route returned for ".to_owned();
                text.append(self.context.as_str());
                text
            },
            ResolverError::Service(reason) => {
                let mut text = self.context.clone();
                text.append(": ");
                text.append(reason.as_str());
                text
            },
        }
    }
}

/// How one lookup ended.
#[derive(Debug)]
pub enum TaskOutcome {
    /// The summary line of the pair.
    Success(String),
    Failure(TaskFailure),
}

pub enum TaskOutcomeView {
    Success(Seq<char>),
    Failure(TaskFailureView),
}

impl View for TaskOutcome {
    type V = TaskOutcomeView;

    open spec fn view(&self) -> TaskOutcomeView {
        match self {
            TaskOutcome::Success(line) => TaskOutcomeView::Success(line@),
            TaskOutcome::Failure(failure) => TaskOutcomeView::Failure(failure@),
        }
    }
}

impl PartialEq for TaskOutcome {
    fn eq(&self, other: &Self) -> (same: bool) {
        match self {
            TaskOutcome::Success(mine) => match other {
                TaskOutcome::Success(theirs) => *mine == *theirs,
                TaskOutcome::Failure(_) => false,
            },
            TaskOutcome::Failure(mine) => match other {
                TaskOutcome::Success(_) => false,
                TaskOutcome::Failure(theirs) => *mine == *theirs,
            },
        }
    }
}

impl Eq for TaskOutcome {

}

impl PartialEqSpecImpl for TaskOutcome {
    open spec fn obeys_eq_spec() -> bool {
        true
    }

    open spec fn eq_spec(&self, other: &Self) -> bool {
        self@ == other@
    }
}

/// The driving time that an answer of the directions service gives: the
/// total of all the legs of the first route, rounded for display. An answer
/// without a route is a failure, and so is a query that failed.
pub open spec fn summary_of(answer: ResolutionView) -> Result<RoundedDuration, ResolverErrorView> {
    match answer {
        ResolutionView::Failed(reason) => Err(ResolverErrorView::Service(reason)),
        ResolutionView::Answered(routes) => if routes.len() == 0 {
            Err(ResolverErrorView::NoRoute)
        } else {
            Ok(rounded(total_seconds(routes[0])))
        },
    }
}

/// Turns the answer of the directions service into the driving time of the
/// first route, or into the reason why there is none.
pub fn summarize_direction_time(answer: &Resolution) -> (summary: Result<
    RoundedDuration,
    ResolverError,
>)
    ensures
        match summary {
            Ok(time) => summary_of(answer@) == Ok::<RoundedDuration, ResolverErrorView>(time),
            Err(cause) => summary_of(answer@) == Err::<RoundedDuration, ResolverErrorView>(
                cause@,
            ),
        },
{
    match answer {
        Resolution::Failed(reason) => Err(ResolverError::Service(reason.clone())),
        Resolution::Answered(routes) => {
            if routes.len() == 0 {
                Err(ResolverError::NoRoute)
            } else {
                Ok(round_duration(routes[0].total_duration()))
            }
        },
    }
}

/// The driving time of one pair, as it is displayed.
#[derive(Debug)]
pub struct RouteSummary {
    /// The label of the starting point.
    pub origin_label: String,
    pub destination_address: String,
    pub hours: u128,
    pub minutes: u8,
}

pub struct RouteSummaryView {
    pub origin_label: Seq<char>,
    pub destination_address: Seq<char>,
    pub hours: u128,
    pub minutes: u8,
}

impl View for RouteSummary {
    type V = RouteSummaryView;

    open spec fn view(&self) -> RouteSummaryView {
        RouteSummaryView {
            origin_label: self.origin_label@,
            destination_address: self.destination_address@,
            hours: self.hours,
            minutes: self.minutes,
        }
    }
}

impl RouteSummaryView {
    /// The line that shows this summary: the pair, a colon, the time.
    pub open spec fn line(self) -> Seq<char> {
        self.origin_label + " -> "@ + self.destination_address + ": "@ + duration_text(
            self.hours as nat,
            self.minutes as nat,
        )
    }
}

impl PartialEq for RouteSummary {
    fn eq(&self, other: &Self) -> (same: bool) {
        self.origin_label == other.origin_label && self.destination_address
            == other.destination_address && self.hours == other.hours && self.minutes
            == other.minutes
    }
}

impl Eq for RouteSummary {

}

impl PartialEqSpecImpl for RouteSummary {
    open spec fn obeys_eq_spec() -> bool {
        true
    }

    open spec fn eq_spec(&self, other: &Self) -> bool {
        self@ == other@
    }
}

impl RouteSummary {
    /// The line that shows this summary.
    pub fn line(&self) -> (line: String)
        ensures
            line@ == self@.line(),
    {
        let time = RoundedDuration { hours: self.hours, minutes: self.minutes }.text();
        let mut line = self.origin_label.clone();
        line.append(" -> ");
        line.append(self.destination_address.as_str());
        line.append(": ");
        line.append(time.as_str());
        line
    }
}

} // verus!
