//! A batch of route lookups: one task for every pair of a starting point
//! and a destination address, and the outcome of each task once the
//! directions service has answered.

use crate::addresses::{addresses_of, blank_lines, lemma_every_line_accounted, LINE_FEED};
use crate::duration::RoundedDuration;
use crate::outcome::{
    summarize_direction_time, summary_of, ResolverErrorView, RouteSummary, RouteSummaryView,
    TaskFailure, TaskFailureView, TaskOutcome, TaskOutcomeView,
};
use crate::route::{LocationRef, LocationRefView, Resolution, ResolutionView};
use crate::starting_point::{point_views, StartingPoint, StartingPointView};
use crate::text::{split, views};
use vstd::prelude::*;
use vstd::string::*;

verus! {

/// One lookup: the driving time from a starting point to a destination address.
#[derive(Debug)]
pub struct Task {
    pub starting_point: StartingPoint,
    pub destination_address: String,
}

pub struct TaskView {
    pub starting_point: StartingPointView,
    pub destination_address: Seq<char>,
}

impl View for Task {
    type V = TaskView;

    open spec fn view(&self) -> TaskView {
        TaskView {
            starting_point: self.starting_point@,
            destination_address: self.destination_address@,
        }
    }
}

impl TaskView {
    /// The name of the pair: the label of the starting point, an arrow, the address.
    pub open spec fn label(self) -> Seq<char> {
        self.starting_point.display_name + " -> "@ + self.destination_address
    }

    /// The summary of the pair for a route that takes the given time.
    pub open spec fn summary(self, time: RoundedDuration) -> RouteSummaryView {
        RouteSummaryView {
            origin_label: self.starting_point.display_name,
            destination_address: self.destination_address,
            hours: time.hours,
            minutes: time.minutes,
        }
    }
}

/// The outcome of a lookup for an answer of the directions service: the line
/// of the summary of the pair, or a failure that holds the label of the pair
/// and the cause.
pub open spec fn outcome_of(task: TaskView, answer: ResolutionView) -> TaskOutcomeView {
    match summary_of(answer) {
        Ok(time) => TaskOutcomeView::Success(task.summary(time).line()),
        Err(cause) => TaskOutcomeView::Failure(TaskFailureView { context: task.label(), cause }),
    }
}

/// A task fails exactly when the query failed or the answer holds no route.
pub proof fn lemma_failure_iff_no_route(task: TaskView, answer: ResolutionView)
    ensures
        outcome_of(task, answer) is Failure <==> answer is Failed
            || answer->Answered_0.len() == 0,
        answer is Answered && answer->Answered_0.len() == 0 ==> outcome_of(task, answer)
            == TaskOutcomeView::Failure(
            TaskFailureView { context: task.label(), cause: ResolverErrorView::NoRoute },
        ),
{
}

/// The views of a vector of tasks.
pub open spec fn task_views(tasks: Seq<Task>) -> Seq<TaskView> {
    tasks.map_values(|task: Task| task@)
}

impl Task {
    /// Where the route starts: the place of the starting point.
    pub fn origin(&self) -> (origin: LocationRef)
        ensures
            origin@ == LocationRefView::PlaceId(self@.starting_point.place_id),
    {
        LocationRef::PlaceId(self.starting_point.place_id.clone())
    }

    /// Where the route ends: the destination address.
    pub fn destination(&self) -> (destination: LocationRef)
        ensures
            destination@ == LocationRefView::Address(self@.destination_address),
    {
        LocationRef::Address(self.destination_address.clone())
    }

    /// The name of the pair, as it stands in summaries and in failures.
    pub fn label(&self) -> (label: String)
        ensures
            label@ == self@.label(),
    {
        let mut label = self.starting_point.display_name.clone();
        label.append(" -> ");
        label.append(self.destination_address.as_str());
        label
    }

    /// The summary of the pair for a route that takes the given time.
    pub fn summary(&self, time: RoundedDuration) -> (summary: RouteSummary)
        ensures
            summary@ == self@.summary(time),
    {
        RouteSummary {
            origin_label: self.starting_point.display_name.clone(),
            destination_address: self.destination_address.clone(),
            hours: time.hours,
            minutes: time.minutes,
        }
    }

    /// The outcome of the lookup, once the directions service has answered.
    pub fn outcome(&self, answer: &Resolution) -> (outcome: TaskOutcome)
        ensures
            outcome@ == outcome_of(self@, answer@),
    {
        match summarize_direction_time(answer) {
            Ok(time) => TaskOutcome::Success(self.summary(time).line()),
            Err(cause) => TaskOutcome::Failure(TaskFailure { context: self.label(), cause }),
        }
    }
}

/// The tasks for one destination address: one for each starting point, in
/// the order of the starting points.
pub open spec fn tasks_for(points: Seq<StartingPointView>, address: Seq<char>) -> Seq<TaskView> {
    points.map_values(
        |point: StartingPointView| TaskView { starting_point: point, destination_address: address },
    )
}

/// The tasks of a batch: those of the first address, then those of the
/// second, and so on.
pub open spec fn batch_tasks(points: Seq<StartingPointView>, addresses: Seq<Seq<char>>) -> Seq<
    TaskView,
>
    decreases addresses.len(),
{
    if addresses.len() == 0 {
        Seq::empty()
    } else {
        batch_tasks(points, addresses.drop_last()) + tasks_for(points, addresses.last())
    }
}

/// A batch has as many tasks as there are pairs of a starting point and an address.
pub proof fn lemma_batch_size(points: Seq<StartingPointView>, addresses: Seq<Seq<char>>)
    ensures
        batch_tasks(points, addresses).len() == points.len() * addresses.len(),
    decreases addresses.len(),
{
    let n = points.len();
    let m = addresses.len();
    if m == 0 {
        assert(n * m == 0) by (nonlinear_arith)
            requires
                m == 0,
        ;
    } else {
        lemma_batch_size(points, addresses.drop_last());
        assert(n * (m - 1) + n == n * m) by (nonlinear_arith);
    }
}

/// The task of the `a`-th address and the `p`-th starting point stands at
/// place `a * points.len() + p` of the batch.
pub proof fn lemma_batch_task_at(
    points: Seq<StartingPointView>,
    addresses: Seq<Seq<char>>,
    a: int,
    p: int,
)
    requires
        0 <= a < addresses.len(),
        0 <= p < points.len(),
    ensures
        0 <= a * points.len() + p < batch_tasks(points, addresses).len(),
        batch_tasks(points, addresses)[a * points.len() + p] == (TaskView {
            starting_point: points[p],
            destination_address: addresses[a],
        }),
    decreases addresses.len(),
{
    let n = points.len() as int;
    let shorter = addresses.drop_last();
    let last = addresses.len() - 1;
    lemma_batch_size(points, shorter);
    if a < last {
        lemma_batch_task_at(points, shorter, a, p);
    } else {
        assert(a * n == n * last) by (nonlinear_arith)
            requires
                a == last,
        ;
    }
}

/// A batch has one task for every pair of a starting point and an address,
/// and no other: each place of the batch holds the task of exactly one pair.
pub proof fn lemma_batch_covers_every_pair(
    points: Seq<StartingPointView>,
    addresses: Seq<Seq<char>>,
    at: int,
)
    requires
        0 <= at < batch_tasks(points, addresses).len(),
    ensures
        points.len() > 0,
        0 <= at / (points.len() as int) < addresses.len(),
        batch_tasks(points, addresses)[at] == (TaskView {
            starting_point: points[at % (points.len() as int)],
            destination_address: addresses[at / (points.len() as int)],
        }),
{
    let n = points.len() as int;
    let m = addresses.len() as int;
    lemma_batch_size(points, addresses);
    assert(n > 0 && 0 <= at / n < m && at == (at / n) * n + at % n && 0 <= at % n < n)
        by (nonlinear_arith)
        requires
            0 <= at < n * m,
            0 <= n,
            0 <= m,
    ;
    lemma_batch_task_at(points, addresses, at / n, at % n);
}

/// A text of addresses gives one task for every pair of a starting point and
/// a line that is not blank.
pub proof fn lemma_one_task_per_point_and_line(points: Seq<StartingPointView>, content: Seq<char>)
    ensures
        batch_tasks(points, addresses_of(content)).len() == points.len() * (split(
            content,
            LINE_FEED,
        ).len() - blank_lines(split(content, LINE_FEED)).len()),
{
    lemma_every_line_accounted(split(content, LINE_FEED));
    lemma_batch_size(points, addresses_of(content));
}

/// Appends the tasks for one destination address to `tasks`.
fn push_tasks_for(tasks: &mut Vec<Task>, starting_points: &Vec<StartingPoint>, address: &str)
    ensures
        task_views(final(tasks)@) == task_views(old(tasks)@) + tasks_for(
            point_views(starting_points@),
            address@,
        ),
{
    let ghost before = task_views(tasks@);
    let ghost points = point_views(starting_points@);
    let mut i: usize = 0;
    while i < starting_points.len()
        invariant
            i <= starting_points.len(),
            points == point_views(starting_points@),
            task_views(tasks@) == before + tasks_for(points.take(i as int), address@),
        decreases starting_points.len() - i,
    {
        let task = Task {
            starting_point: starting_points[i].clone(),
            destination_address: address.to_owned(),
        };
        proof {
            assert(points.take(i + 1) == points.take(i as int).push(points[i as int]));
            assert(tasks_for(points.take(i + 1), address@) == tasks_for(
                points.take(i as int),
                address@,
            ).push(task@));
            assert(task_views(tasks@.push(task)) == task_views(tasks@).push(task@));
        }
        tasks.push(task);
        i += 1;
    }
    assert(points.take(i as int) == points);
}

/// The tasks that summarize the way to one address: one for each starting
/// point, in the order of the starting points.
pub fn search_and_summarize(starting_points: Vec<StartingPoint>, ending_address: &str) -> (tasks:
    Vec<Task>)
    ensures
        task_views(tasks@) == tasks_for(point_views(starting_points@), ending_address@),
{
    let ghost points = point_views(starting_points@);
    let mut tasks: Vec<Task> = Vec::new();
    for point in it: starting_points
        invariant
            point_views(it.seq()) == points,
            task_views(tasks@) == tasks_for(points.take(it.index() as int), ending_address@),
    {
        let task = Task { starting_point: point, destination_address: ending_address.to_owned() };
        proof {
            let done = it.index() as int;
            assert(points.take(done + 1) == points.take(done).push(points[done]));
            assert(tasks_for(points.take(done + 1), ending_address@) == tasks_for(
                points.take(done),
                ending_address@,
            ).push(task@));
            assert(task_views(tasks@.push(task)) == task_views(tasks@).push(task@));
        }
        tasks.push(task);
    }
    assert(points.take(points.len() as int) == points);
    tasks
}

/// The tasks of a whole batch: for every address in turn, one task for each
/// starting point.
pub fn plan_batch(starting_points: &Vec<StartingPoint>, addresses: &Vec<String>) -> (tasks: Vec<
    Task,
>)
    ensures
        task_views(tasks@) == batch_tasks(point_views(starting_points@), views(addresses@)),
        tasks@.len() == starting_points@.len() * addresses@.len(),
{
    let mut tasks: Vec<Task> = Vec::new();
    let mut i: usize = 0;
    while i < addresses.len()
        invariant
            i <= addresses.len(),
            task_views(tasks@) == batch_tasks(
                point_views(starting_points@),
                views(addresses@).take(i as int),
            ),
        decreases addresses.len() - i,
    {
        proof {
            let all = views(addresses@);
            assert(all.take(i + 1).drop_last() == all.take(i as int));
            assert(all.take(i + 1).last() == addresses[i as int]@);
        }
        push_tasks_for(&mut tasks, starting_points, addresses[i].as_str());
        i += 1;
    }
    proof {
        assert(views(addresses@).take(i as int) == views(addresses@));
        lemma_batch_size(point_views(starting_points@), views(addresses@));
    }
    tasks
}

} // verus!
