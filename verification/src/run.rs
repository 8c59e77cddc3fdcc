//! The course of a run: which action comes next, and what the answer to it
//! makes of the run.
use crate::compact::CompactionStep;
use crate::measure::{measure_error_text, MeasureError};
use vstd::prelude::*;

verus! {

/// Why a run was given up.
#[derive(Clone, Copy, Debug, PartialEq, Eq, Structural)]
pub enum RunError {
    /// A repository could not be measured. Every report rests on the
    /// measurements, so the run ends there.
    Measure(MeasureError),
    /// The sizes of the repositories add up to more than a `u64` holds.
    TotalsOverflow,
    /// The event does not answer the action that was pending.
    UnexpectedEvent,
}

/// The diagnostic for a run that was given up.
pub open spec fn run_error_text(error: RunError) -> Seq<char> {
    match error {
        RunError::Measure(cause) => measure_error_text(cause),
        RunError::TotalsOverflow => "the sizes of the repositories are too large to add up"@,
        RunError::UnexpectedEvent => "the run received an event that answers no pending action"@,
    }
}

impl RunError {
    /// The diagnostic for this failure.
    pub fn message(&self) -> (text: &'static str)
        ensures
            text@ == run_error_text(*self),
    {
        match self {
            RunError::Measure(cause) => cause.message(),
            RunError::TotalsOverflow => "the sizes of the repositories are too large to add up",
            RunError::UnexpectedEvent => "the run received an event that answers no pending action",
        }
    }
}

/// The sizes of all repositories measured so far, added up: before and
/// after their compaction.
#[derive(Clone, Copy, Debug, PartialEq, Eq, Structural)]
pub struct RunTotals {
    pub before: u64,
    pub after: u64,
}

/// Where a run stands. The stages of one repository follow each other in
/// the order in which they are listed; the repositories follow each other
/// in the order of their discovery.
#[derive(Clone, Copy, Debug, PartialEq, Eq, Structural)]
pub enum Stage {
    /// The size of a repository is being measured before its compaction.
    MeasuringBefore { repo: usize },
    /// The size before is being shown, so that there is something to see
    /// while the compaction runs.
    Announcing { repo: usize, size_before: u64 },
    /// A step of the compaction is running.
    Compacting { repo: usize, size_before: u64, step: CompactionStep },
    /// The size is being measured again.
    MeasuringAfter { repo: usize, size_before: u64 },
    /// The change in size of the repository is being reported.
    Reporting { repo: usize, size_before: u64, size_after: u64 },
    /// The totals of the run are being reported.
    Summarizing,
    /// Nothing is left to do.
    Finished,
    /// The run was given up.
    Aborted { error: RunError },
}

/// What the caller is to do next.
#[derive(Clone, Copy, Debug, PartialEq, Eq, Structural)]
pub enum Action {
    /// Run the tool for a size report on a repository and hand the size in.
    Measure { repo: usize },
    /// Show the size of a repository before its compaction.
    Announce { repo: usize, size_before: u64 },
    /// Run a step of the compaction on a repository.
    Compact { repo: usize, step: CompactionStep },
    /// Report the change in size of a repository.
    Report { repo: usize, size_before: u64, size_after: u64 },
    /// Report the totals of the run.
    Summarize { totals: RunTotals },
    /// Stop: the run is complete.
    Finish,
    /// Stop with a diagnostic: the run has failed.
    Abort { error: RunError },
}

/// What came of an action.
#[derive(Clone, Copy, Debug, PartialEq, Eq)]
pub enum Event {
    /// A measurement gave a size, or failed.
    Measured(Result<u64, MeasureError>),
    /// A step of the compaction has ended, well or not.
    StepEnded { succeeded: bool },
    /// A line has been shown.
    Done,
}

/// A run over a number of repositories.
#[derive(Clone, Copy, Debug, PartialEq, Eq, Structural)]
pub struct Run {
    /// The number of repositories that were discovered.
    pub repos: usize,
    /// The sizes measured so far, added up.
    pub totals: RunTotals,
    /// Where the run stands.
    pub stage: Stage,
}

/// The stage with which the work on a repository begins; after the last
/// repository, the summary.
pub open spec fn entering(repo: int, repos: usize) -> Stage {
    if 0 <= repo < repos {
        Stage::MeasuringBefore { repo: repo as usize }
    } else {
        Stage::Summarizing
    }
}

/// The stage that follows a step of the compaction: the next step, and the
/// second measurement after the last.
pub open spec fn after_step(repo: usize, size_before: u64, step: CompactionStep) -> Stage {
    match step.following() {
        Some(next) => Stage::Compacting { repo, size_before, step: next },
        None => Stage::MeasuringAfter { repo, size_before },
    }
}

impl Run {
    /// A run at its beginning: nothing measured, the first repository next.
    pub open spec fn begun(repos: usize) -> Run {
        Run { repos, totals: RunTotals { before: 0, after: 0 }, stage: entering(0, repos) }
    }

    /// The same run at another stage.
    pub open spec fn at(self, stage: Stage) -> Run {
        Run { repos: self.repos, totals: self.totals, stage }
    }

    /// The run given up.
    pub open spec fn aborted(self, error: RunError) -> Run {
        self.at(Stage::Aborted { error })
    }

    /// The action that the stage of a run asks for.
    pub open spec fn pending(self) -> Action {
        match self.stage {
            Stage::MeasuringBefore { repo } => Action::Measure { repo },
            Stage::Announcing { repo, size_before } => Action::Announce { repo, size_before },
            Stage::Compacting { repo, size_before, step } => Action::Compact { repo, step },
            Stage::MeasuringAfter { repo, size_before } => Action::Measure { repo },
            Stage::Reporting { repo, size_before, size_after } => Action::Report {
                repo,
                size_before,
                size_after,
            },
            Stage::Summarizing => Action::Summarize { totals: self.totals },
            Stage::Finished => Action::Finish,
            Stage::Aborted { error } => Action::Abort { error },
        }
    }

    /// The run after an event.
    ///
    /// A size measured before the compaction is added to the total before,
    /// one measured after it to the total after. A measurement that failed
    /// ends the run, and so does a total that a `u64` cannot hold. A step of
    /// the compaction that failed does not: the next step follows as after
    /// one that succeeded. A run that is finished or given up stays as it
    /// is. Any other event that does not answer the pending action ends the
    /// run.
    pub open spec fn after(self, event: Event) -> Run {
        match (self.stage, event) {
            (Stage::Finished, _) => self,
            (Stage::Aborted { error }, _) => self,
            (Stage::MeasuringBefore { repo }, Event::Measured(Ok(size))) => {
                if self.totals.before + size > u64::MAX {
                    self.aborted(RunError::TotalsOverflow)
                } else {
                    Run {
                        repos: self.repos,
                        totals: RunTotals {
                            before: (self.totals.before + size) as u64,
                            after: self.totals.after,
                        },
                        stage: Stage::Announcing { repo, size_before: size },
                    }
                }
            },
            (Stage::MeasuringAfter { repo, size_before }, Event::Measured(Ok(size))) => {
                if self.totals.after + size > u64::MAX {
                    self.aborted(RunError::TotalsOverflow)
                } else {
                    Run {
                        repos: self.repos,
                        totals: RunTotals {
                            before: self.totals.before,
                            after: (self.totals.after + size) as u64,
                        },
                        stage: Stage::Reporting { repo, size_before, size_after: size },
                    }
                }
            },
            (Stage::MeasuringBefore { repo }, Event::Measured(Err(error))) => self.aborted(
                RunError::Measure(error),
            ),
            (Stage::MeasuringAfter { repo, size_before }, Event::Measured(Err(error))) => {
                self.aborted(RunError::Measure(error))
            },
            (Stage::Announcing { repo, size_before }, Event::Done) => self.at(
                Stage::Compacting { repo, size_before, step: CompactionStep::ExpireReflog },
            ),
            (Stage::Compacting { repo, size_before, step }, Event::StepEnded { succeeded }) => {
                self.at(after_step(repo, size_before, step))
            },
            (Stage::Reporting { repo, size_before, size_after }, Event::Done) => self.at(
                entering(repo + 1, self.repos),
            ),
            (Stage::Summarizing, Event::Done) => self.at(Stage::Finished),
            _ => self.aborted(RunError::UnexpectedEvent),
        }
    }

    /// Begins a run over `repos` repositories.
    pub fn start(repos: usize) -> (run: Run)
        ensures
            run == Run::begun(repos),
    {
        Run { repos, totals: RunTotals { before: 0, after: 0 }, stage: enter(0, repos) }
    }

    /// The action that is pending.
    pub fn action(&self) -> (action: Action)
        ensures
            action == self.pending(),
    {
        match self.stage {
            Stage::MeasuringBefore { repo } => Action::Measure { repo },
            Stage::Announcing { repo, size_before } => Action::Announce { repo, size_before },
            Stage::Compacting { repo, size_before, step } => Action::Compact { repo, step },
            Stage::MeasuringAfter { repo, size_before } => Action::Measure { repo },
            Stage::Reporting { repo, size_before, size_after } => Action::Report {
                repo,
                size_before,
                size_after,
            },
            Stage::Summarizing => Action::Summarize { totals: self.totals },
            Stage::Finished => Action::Finish,
            Stage::Aborted { error } => Action::Abort { error },
        }
    }

    /// Takes the run on by one event, and gives the action that is pending
    /// then.
    pub fn step(self, event: Event) -> (next: (Run, Action))
        ensures
            next.0 == self.after(event),
            next.1 == self.after(event).pending(),
    {
        let stage = match (self.stage, event) {
            (Stage::Finished, _) => Stage::Finished,
            (Stage::Aborted { error }, _) => Stage::Aborted { error },
            (Stage::MeasuringBefore { repo }, Event::Measured(Ok(size))) => {
                match self.totals.before.checked_add(size) {
                    Some(before) => {
                        let run = Run {
                            repos: self.repos,
                            totals: RunTotals { before, after: self.totals.after },
                            stage: Stage::Announcing { repo, size_before: size },
                        };
                        return (run, run.action());
                    },
                    None => Stage::Aborted { error: RunError::TotalsOverflow },
                }
            },
            (Stage::MeasuringAfter { repo, size_before }, Event::Measured(Ok(size))) => {
                match self.totals.after.checked_add(size) {
                    Some(after) => {
                        let run = Run {
                            repos: self.repos,
                            totals: RunTotals { before: self.totals.before, after },
                            stage: Stage::Reporting { repo, size_before, size_after: size },
                        };
                        return (run, run.action());
                    },
                    None => Stage::Aborted { error: RunError::TotalsOverflow },
                }
            },
            (Stage::MeasuringBefore { repo }, Event::Measured(Err(error))) => Stage::Aborted {
                error: RunError::Measure(error),
            },
            (Stage::MeasuringAfter { repo, size_before }, Event::Measured(Err(error))) => {
                Stage::Aborted { error: RunError::Measure(error) }
            },
            (Stage::Announcing { repo, size_before }, Event::Done) => Stage::Compacting {
                repo,
                size_before,
                step: CompactionStep::first(),
            },
            (Stage::Compacting { repo, size_before, step }, Event::StepEnded { succeeded }) => {
                match step.next() {
                    Some(next) => Stage::Compacting { repo, size_before, step: next },
                    None => Stage::MeasuringAfter { repo, size_before },
                }
            },
            (Stage::Reporting { repo, size_before, size_after }, Event::Done) => {
                match repo.checked_add(1) {
                    Some(next) => enter(next, self.repos),
                    None => Stage::Summarizing,
                }
            },
            (Stage::Summarizing, Event::Done) => Stage::Finished,
            _ => Stage::Aborted { error: RunError::UnexpectedEvent },
        };
        let run = Run { repos: self.repos, totals: self.totals, stage };
        (run, run.action())
    }
}

/// The stage with which the work on a repository begins; after the last
/// repository, the summary.
pub fn enter(repo: usize, repos: usize) -> (stage: Stage)
    ensures
        stage == entering(repo as int, repos),
{
    if repo < repos {
        Stage::MeasuringBefore { repo }
    } else {
        Stage::Summarizing
    }
}

/// What one repository goes through in a run: its size before and after,
/// and how each step of its compaction ended.
pub struct Course {
    pub size_before: u64,
    pub size_after: u64,
    pub expired: bool,
    pub packed: bool,
    pub collected: bool,
}

/// The events of one repository's course, in their order.
pub open spec fn course_events(course: Course) -> Seq<Event> {
    seq![
        Event::Measured(Ok(course.size_before)),
        Event::Done,
        Event::StepEnded { succeeded: course.expired },
        Event::StepEnded { succeeded: course.packed },
        Event::StepEnded { succeeded: course.collected },
        Event::Measured(Ok(course.size_after)),
        Event::Done,
    ]
}

/// The events of the courses of several repositories, one after the other.
pub open spec fn events_of(courses: Seq<Course>) -> Seq<Event>
    decreases courses.len(),
{
    if courses.len() == 0 {
        Seq::empty()
    } else {
        events_of(courses.drop_last()) + course_events(courses.last())
    }
}

/// The sizes before of several courses, added up.
pub open spec fn total_before(courses: Seq<Course>) -> nat
    decreases courses.len(),
{
    if courses.len() == 0 {
        0
    } else {
        total_before(courses.drop_last()) + courses.last().size_before as nat
    }
}

/// The sizes after of several courses, added up.
pub open spec fn total_after(courses: Seq<Course>) -> nat
    decreases courses.len(),
{
    if courses.len() == 0 {
        0
    } else {
        total_after(courses.drop_last()) + courses.last().size_after as nat
    }
}

/// The run after a sequence of events.
pub open spec fn after_all(run: Run, events: Seq<Event>) -> Run
    decreases events.len(),
{
    if events.len() == 0 {
        run
    } else {
        after_all(run, events.drop_last()).after(events.last())
    }
}

/// A step of the compaction that failed changes nothing in the course of
/// the run: what follows is what follows a step that succeeded.
pub proof fn lemma_failed_step_goes_on(run: Run)
    ensures
        run.after(Event::StepEnded { succeeded: false }) == run.after(
            Event::StepEnded { succeeded: true },
        ),
{
}

/// The three steps of a compaction are asked for in their order, and the
/// second measurement after the last of them.
pub proof fn lemma_steps_in_order(run: Run, repo: usize, size_before: u64, ended: Seq<bool>)
    requires
        run.stage == (Stage::Announcing { repo, size_before }),
        ended.len() == 3,
    ensures
        ({
            let first = run.after(Event::Done);
            let second = first.after(Event::StepEnded { succeeded: ended[0] });
            let third = second.after(Event::StepEnded { succeeded: ended[1] });
            let last = third.after(Event::StepEnded { succeeded: ended[2] });
            &&& first.pending() == Action::Compact { repo, step: CompactionStep::ExpireReflog }
            &&& second.pending() == Action::Compact { repo, step: CompactionStep::PackRefs }
            &&& third.pending() == Action::Compact { repo, step: CompactionStep::CollectGarbage }
            &&& last.pending() == Action::Measure { repo }
            &&& last.stage == Stage::MeasuringAfter { repo, size_before }
            &&& last.totals == run.totals
        }),
{
}

/// Events one after the other take a run where the first do and then the
/// others.
pub proof fn lemma_after_all_concat(run: Run, first: Seq<Event>, second: Seq<Event>)
    ensures
        after_all(run, first + second) == after_all(after_all(run, first), second),
    decreases second.len(),
{
    if second.len() == 0 {
        assert(first + second =~= first);
    } else {
        lemma_after_all_concat(run, first, second.drop_last());
        assert((first + second).drop_last() =~= first + second.drop_last());
    }
}

/// The course of one repository adds its two sizes to the totals and leaves
/// the run at the next repository, or at the summary after the last.
pub proof fn lemma_course(run: Run, repo: usize, course: Course)
    requires
        run.stage == (Stage::MeasuringBefore { repo }),
        run.totals.before + course.size_before <= u64::MAX,
        run.totals.after + course.size_after <= u64::MAX,
    ensures
        after_all(run, course_events(course)) == (Run {
            repos: run.repos,
            totals: RunTotals {
                before: (run.totals.before + course.size_before) as u64,
                after: (run.totals.after + course.size_after) as u64,
            },
            stage: entering(repo + 1, run.repos),
        }),
{
    let events = course_events(course);
    let e0 = Seq::<Event>::empty();
    let e1 = e0.push(events[0]);
    let e2 = e1.push(events[1]);
    let e3 = e2.push(events[2]);
    let e4 = e3.push(events[3]);
    let e5 = e4.push(events[4]);
    let e6 = e5.push(events[5]);
    let e7 = e6.push(events[6]);
    assert(e7 =~= events);
    assert(e1.drop_last() =~= e0);
    assert(e2.drop_last() =~= e1);
    assert(e3.drop_last() =~= e2);
    assert(e4.drop_last() =~= e3);
    assert(e5.drop_last() =~= e4);
    assert(e6.drop_last() =~= e5);
    assert(e7.drop_last() =~= e6);
    assert(after_all(run, e0) == run);
    assert(after_all(run, e1) == run.after(events[0]));
    assert(after_all(run, e2) == after_all(run, e1).after(events[1]));
    assert(after_all(run, e3) == after_all(run, e2).after(events[2]));
    assert(after_all(run, e4) == after_all(run, e3).after(events[3]));
    assert(after_all(run, e5) == after_all(run, e4).after(events[4]));
    assert(after_all(run, e6) == after_all(run, e5).after(events[5]));
    assert(after_all(run, e7) == after_all(run, e6).after(events[6]));
}

/// The sizes of the first courses add up to no more than those of all.
proof fn lemma_totals_grow(courses: Seq<Course>, done: int)
    requires
        0 <= done <= courses.len(),
    ensures
        total_before(courses.take(done)) <= total_before(courses),
        total_after(courses.take(done)) <= total_after(courses),
    decreases courses.len() - done,
{
    if done == courses.len() {
        assert(courses.take(done) =~= courses);
    } else {
        lemma_totals_grow(courses, done + 1);
        assert(courses.take(done + 1).drop_last() =~= courses.take(done));
    }
}

/// After the courses of its first repositories a run stands at the next
/// one, and its totals are the sums of the sizes measured so far.
pub proof fn lemma_run_progress(courses: Seq<Course>, done: int)
    requires
        courses.len() <= usize::MAX,
        0 <= done <= courses.len(),
        total_before(courses) <= u64::MAX,
        total_after(courses) <= u64::MAX,
    ensures
        after_all(Run::begun(courses.len() as usize), events_of(courses.take(done))) == (Run {
            repos: courses.len() as usize,
            totals: RunTotals {
                before: total_before(courses.take(done)) as u64,
                after: total_after(courses.take(done)) as u64,
            },
            stage: entering(done, courses.len() as usize),
        }),
    decreases done,
{
    let run = Run::begun(courses.len() as usize);
    if done == 0 {
        assert(courses.take(0) =~= Seq::<Course>::empty());
    } else {
        let earlier = courses.take(done - 1);
        let course = courses[done - 1];
        assert(courses.take(done).drop_last() =~= earlier);
        lemma_run_progress(courses, done - 1);
        lemma_totals_grow(courses, done);
        lemma_after_all_concat(run, events_of(earlier), course_events(course));
        lemma_course(after_all(run, events_of(earlier)), (done - 1) as usize, course);
    }
}

/// The totals of a run are the sums of what was measured. After the
/// courses of all its repositories a run asks for the summary, with the
/// sizes before and the sizes after of all repositories, each added up;
/// when the summary is shown the run is finished.
pub proof fn lemma_run_totals(courses: Seq<Course>)
    requires
        courses.len() <= usize::MAX,
        total_before(courses) <= u64::MAX,
        total_after(courses) <= u64::MAX,
    ensures
        ({
            let run = after_all(Run::begun(courses.len() as usize), events_of(courses));
            &&& run.pending() == Action::Summarize {
                totals: RunTotals {
                    before: total_before(courses) as u64,
                    after: total_after(courses) as u64,
                },
            }
            &&& run.after(Event::Done).pending() == Action::Finish
            &&& run.after(Event::Done).totals == run.totals
        }),
{
    lemma_run_progress(courses, courses.len() as int);
    assert(courses.take(courses.len() as int) =~= courses);
}

} // verus!
