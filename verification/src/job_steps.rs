//! The lines of a job's log under the steps of the job, and the annotations
//! that errors and warnings give.
use vstd::multiset::Multiset;
use vstd::prelude::*;
use vstd::seq_lib::lemma_multiset_commutative;

use crate::clock::{date_millis, github_date_millis};
use crate::console::LogLevel;
use crate::github::GitHubWorkflowStep;
use crate::job_log::{
    clean_job_lines, hidden_lines, in_time_order, kept_lines, line_views,
    ordered_lines_keep_their_places, sort_lines, time_key, time_order_is_a_sorted_permutation,
    time_ordered, CleanLogLine, LineView,
};
use crate::numbers::{saturated, smaller, sum_saturated};
use crate::search::{contains, contains_text, lines_of};
use crate::text::{copy_option, lower, same, text_option, to_lower};

verus! {

/// The model of a step's description.
pub struct StepView {
    pub number: i64,
    pub name: Seq<char>,
    pub status: Seq<char>,
    pub conclusion: Option<Seq<char>>,
    pub started_at: Option<Seq<char>>,
    pub completed_at: Option<Seq<char>>,
}

impl View for GitHubWorkflowStep {
    type V = StepView;

    open spec fn view(&self) -> StepView {
        StepView {
            number: self.number,
            name: self.name@,
            status: self.status@,
            conclusion: text_option(self.conclusion),
            started_at: text_option(self.started_at),
            completed_at: text_option(self.completed_at),
        }
    }
}

/// The models of a list of steps.
pub open spec fn step_views(list: Seq<GitHubWorkflowStep>) -> Seq<StepView> {
    list.map_values(|step: GitHubWorkflowStep| step@)
}

/// A step with the lines that it printed.
#[derive(Debug)]
pub struct StructuredLogStep {
    pub number: i64,
    pub name: String,
    pub status: String,
    pub conclusion: Option<String>,
    pub started_at: Option<String>,
    pub completed_at: Option<String>,
    pub lines: Vec<CleanLogLine>,
}

impl StructuredLogStep {
    /// The step's description.
    pub open spec fn step(&self) -> StepView {
        StepView {
            number: self.number,
            name: self.name@,
            status: self.status@,
            conclusion: text_option(self.conclusion),
            started_at: text_option(self.started_at),
            completed_at: text_option(self.completed_at),
        }
    }
}

/// A message that a step gives prominence to.
#[derive(Debug)]
pub struct LogAnnotation {
    pub level: LogLevel,
    pub message: String,
    pub step_number: i64,
    pub step_name: String,
}

/// The model of an annotation.
pub struct AnnotationView {
    pub level: LogLevel,
    pub message: Seq<char>,
    pub step_number: i64,
    pub step_name: Seq<char>,
}

impl View for LogAnnotation {
    type V = AnnotationView;

    open spec fn view(&self) -> AnnotationView {
        AnnotationView {
            level: self.level,
            message: self.message@,
            step_number: self.step_number,
            step_name: self.step_name@,
        }
    }
}

/// The models of a list of annotations.
pub open spec fn annotation_views(list: Seq<LogAnnotation>) -> Seq<AnnotationView> {
    list.map_values(|annotation: LogAnnotation| annotation@)
}

/// A job's log by steps.
#[derive(Debug)]
pub struct ParsedJobLog {
    pub steps: Vec<StructuredLogStep>,
    pub annotations: Vec<LogAnnotation>,
    pub line_count: usize,
    pub hidden_diagnostic_lines: usize,
}

/// When a step started and when it was completed, as far as that is known.
#[derive(Clone, Copy, Debug)]
pub struct StepTimes {
    pub started: Option<i64>,
    pub completed: Option<i64>,
}

// ---------------------------------------------------------------------------
// Which step a line belongs to

/// The step failed.
pub open spec fn failed(step: StepView) -> bool {
    step.conclusion == Some("failure"@)
}

/// The last step that had started at an instant; the first one where none had.
pub open spec fn last_started(times: Seq<StepTimes>, at: i64) -> int
    decreases times.len(),
{
    if times.len() == 0 {
        0
    } else if times.last().started is Some && times.last().started->0 <= at {
        times.len() - 1
    } else {
        last_started(times.drop_last(), at)
    }
}

/// The step that was running when a line was printed.
pub open spec fn home(times: Seq<StepTimes>, line: LineView) -> int {
    match line.millis {
        Some(at) => last_started(times, at),
        None => 0,
    }
}

/// An instant lies between the start of a step and one second after its end.
pub open spec fn within(times: StepTimes, at: i64) -> bool {
    &&& times.started is None || times.started->0 <= at
    &&& times.completed is None || at <= saturated(times.completed->0 + 1_000)
}

/// The last of the first `n` steps that failed and within which an instant lies.
pub open spec fn last_failed(
    steps: Seq<StepView>,
    times: Seq<StepTimes>,
    at: i64,
    n: int,
) -> Option<int>
    decreases n,
{
    if n <= 0 {
        None
    } else if failed(steps[n - 1]) && within(times[n - 1], at) {
        Some(n - 1)
    } else {
        last_failed(steps, times, at, n - 1)
    }
}

/// The failed step to which an error is moved that was printed while another
/// step was running: steps are timed in whole seconds, so the last error of a
/// failed step can come after the start of the steps that clean up.
pub open spec fn moved(
    steps: Seq<StepView>,
    times: Seq<StepTimes>,
    line: LineView,
) -> Option<int> {
    if failed(steps[home(times, line)]) || line.level != LogLevel::Error || line.millis is None {
        None
    } else {
        last_failed(steps, times, line.millis->0, steps.len() as int)
    }
}

/// The step under which a line is shown.
pub open spec fn destination(steps: Seq<StepView>, times: Seq<StepTimes>, line: LineView) -> int {
    match moved(steps, times, line) {
        Some(i) => i,
        None => home(times, line),
    }
}

/// The lines that stay with the step that was running.
pub open spec fn retained(
    lines: Seq<LineView>,
    steps: Seq<StepView>,
    times: Seq<StepTimes>,
    i: int,
) -> Seq<LineView>
    decreases lines.len(),
{
    if lines.len() == 0 {
        Seq::empty()
    } else {
        let before = retained(lines.drop_last(), steps, times, i);
        if home(times, lines.last()) == i && moved(steps, times, lines.last()) is None {
            before.push(lines.last())
        } else {
            before
        }
    }
}

/// The lines that are moved from step `h` to step `i`.
pub open spec fn moved_from(
    lines: Seq<LineView>,
    steps: Seq<StepView>,
    times: Seq<StepTimes>,
    h: int,
    i: int,
) -> Seq<LineView>
    decreases lines.len(),
{
    if lines.len() == 0 {
        Seq::empty()
    } else {
        let before = moved_from(lines.drop_last(), steps, times, h, i);
        if home(times, lines.last()) == h && moved(steps, times, lines.last()) == Some(i) {
            before.push(lines.last())
        } else {
            before
        }
    }
}

/// The lines that are moved to step `i` from the first `n` steps, in the order
/// of those steps.
pub open spec fn arrivals(
    lines: Seq<LineView>,
    steps: Seq<StepView>,
    times: Seq<StepTimes>,
    i: int,
    n: int,
) -> Seq<LineView>
    decreases n,
{
    if n <= 0 {
        Seq::empty()
    } else {
        arrivals(lines, steps, times, i, n - 1) + moved_from(lines, steps, times, n - 1, i)
    }
}

/// The lines that are shown under step `i`.
pub open spec fn step_lines(
    lines: Seq<LineView>,
    steps: Seq<StepView>,
    times: Seq<StepTimes>,
    i: int,
) -> Seq<LineView> {
    in_time_order(
        retained(lines, steps, times, i) + arrivals(lines, steps, times, i, steps.len() as int),
    )
}

/// The lines that are shown under each step.
pub open spec fn all_step_lines(
    lines: Seq<LineView>,
    steps: Seq<StepView>,
    times: Seq<StepTimes>,
) -> Seq<Seq<LineView>> {
    Seq::new(steps.len(), |i: int| step_lines(lines, steps, times, i))
}

proof fn lemma_last_started_range(times: Seq<StepTimes>, at: i64)
    ensures
        0 <= last_started(times, at),
        times.len() > 0 ==> last_started(times, at) < times.len(),
    decreases times.len(),
{
    if times.len() > 0 {
        lemma_last_started_range(times.drop_last(), at);
    }
}

proof fn lemma_last_failed(steps: Seq<StepView>, times: Seq<StepTimes>, at: i64, n: int)
    requires
        n <= steps.len(),
    ensures
        match last_failed(steps, times, at, n) {
            Some(i) => 0 <= i < n && failed(steps[i]) && within(times[i], at),
            None => forall|k: int|
                0 <= k < n ==> !(failed(#[trigger] steps[k]) && within(times[k], at)),
        },
    decreases n,
{
    if n > 0 {
        lemma_last_failed(steps, times, at, n - 1);
    }
}

/// Every line is shown under one of the steps.
pub proof fn every_line_has_a_step(
    steps: Seq<StepView>,
    times: Seq<StepTimes>,
    line: LineView,
)
    requires
        steps.len() > 0,
        steps.len() == times.len(),
    ensures
        0 <= home(times, line) < steps.len(),
        0 <= destination(steps, times, line) < steps.len(),
{
    if line.millis is Some {
        lemma_last_started_range(times, line.millis->0);
        lemma_last_failed(steps, times, line.millis->0, steps.len() as int);
    }
}

/// An error that was printed while a failed step was running, or within a
/// second of its end, is shown under a step that failed.
pub proof fn errors_stay_with_a_failed_step(
    steps: Seq<StepView>,
    times: Seq<StepTimes>,
    line: LineView,
    k: int,
)
    requires
        steps.len() == times.len(),
        0 <= k < steps.len(),
        line.level == LogLevel::Error,
        line.millis is Some,
        failed(steps[k]),
        within(times[k], line.millis->0),
    ensures
        failed(steps[destination(steps, times, line)]),
{
    lemma_last_failed(steps, times, line.millis->0, steps.len() as int);
}

/// A line that is not an error is shown under the step that was running when it
/// was printed.
pub proof fn other_lines_stay_with_their_step(
    steps: Seq<StepView>,
    times: Seq<StepTimes>,
    line: LineView,
)
    requires
        line.level != LogLevel::Error,
    ensures
        destination(steps, times, line) == home(times, line),
{
}

/// The number of lines under the first `k` steps.
pub open spec fn total(list: Seq<Seq<LineView>>, k: int) -> int
    decreases k,
{
    if k <= 0 {
        0
    } else {
        total(list, k - 1) + list[k - 1].len()
    }
}

proof fn lemma_arrivals_grow(
    lines: Seq<LineView>,
    steps: Seq<StepView>,
    times: Seq<StepTimes>,
    i: int,
    n: int,
)
    requires
        lines.len() > 0,
        steps.len() == times.len(),
        steps.len() > 0,
        0 <= n <= steps.len(),
    ensures
        arrivals(lines, steps, times, i, n).len() == arrivals(
            lines.drop_last(),
            steps,
            times,
            i,
            n,
        ).len() + (if moved(steps, times, lines.last()) == Some(i) && home(times, lines.last())
            < n {
            1int
        } else {
            0int
        }),
    decreases n,
{
    every_line_has_a_step(steps, times, lines.last());
    if n > 0 {
        lemma_arrivals_grow(lines, steps, times, i, n - 1);
    }
}

proof fn lemma_total_grows(
    lines: Seq<LineView>,
    steps: Seq<StepView>,
    times: Seq<StepTimes>,
    k: int,
)
    requires
        lines.len() > 0,
        steps.len() == times.len(),
        steps.len() > 0,
        0 <= k <= steps.len(),
    ensures
        total(all_step_lines(lines, steps, times), k) == total(
            all_step_lines(lines.drop_last(), steps, times),
            k,
        ) + (if destination(steps, times, lines.last()) < k {
            1int
        } else {
            0int
        }),
    decreases k,
{
    let n = steps.len() as int;
    every_line_has_a_step(steps, times, lines.last());
    if k > 0 {
        let i = k - 1;
        lemma_total_grows(lines, steps, times, i);
        lemma_arrivals_grow(lines, steps, times, i, n);
        time_order_is_a_sorted_permutation(
            retained(lines, steps, times, i) + arrivals(lines, steps, times, i, n),
        );
        time_order_is_a_sorted_permutation(
            retained(lines.drop_last(), steps, times, i) + arrivals(
                lines.drop_last(),
                steps,
                times,
                i,
                n,
            ),
        );
    }
}

proof fn lemma_total_of_nothing(steps: Seq<StepView>, times: Seq<StepTimes>, k: int)
    requires
        0 <= k <= steps.len(),
    ensures
        total(all_step_lines(Seq::empty(), steps, times), k) == 0,
    decreases k,
{
    if k > 0 {
        lemma_total_of_nothing(steps, times, k - 1);
        lemma_arrivals_of_nothing(steps, times, k - 1, steps.len() as int);
        let none = Seq::<LineView>::empty();
        assert(retained(none, steps, times, k - 1) + arrivals(
            none,
            steps,
            times,
            k - 1,
            steps.len() as int,
        ) =~= none);
    }
}

proof fn lemma_arrivals_of_nothing(steps: Seq<StepView>, times: Seq<StepTimes>, i: int, n: int)
    ensures
        arrivals(Seq::empty(), steps, times, i, n).len() == 0,
    decreases n,
{
    if n > 0 {
        lemma_arrivals_of_nothing(steps, times, i, n - 1);
    }
}

/// The lines under the first `k` steps together.
pub open spec fn shown_together(list: Seq<Seq<LineView>>, k: int) -> Multiset<LineView>
    decreases k,
{
    if k <= 0 {
        Multiset::empty()
    } else {
        shown_together(list, k - 1).add(list[k - 1].to_multiset())
    }
}

/// A multiset, with a line more where that is so.
pub open spec fn with_one(lines: Multiset<LineView>, line: LineView, more: bool) -> Multiset<
    LineView,
> {
    if more {
        lines.insert(line)
    } else {
        lines
    }
}

proof fn lemma_arrived_lines(
    lines: Seq<LineView>,
    steps: Seq<StepView>,
    times: Seq<StepTimes>,
    i: int,
    n: int,
)
    requires
        lines.len() > 0,
        steps.len() == times.len(),
        steps.len() > 0,
        0 <= n <= steps.len(),
    ensures
        arrivals(lines, steps, times, i, n).to_multiset() == with_one(
            arrivals(lines.drop_last(), steps, times, i, n).to_multiset(),
            lines.last(),
            moved(steps, times, lines.last()) == Some(i) && home(times, lines.last()) < n,
        ),
    decreases n,
{
    broadcast use vstd::seq_lib::group_to_multiset_ensures;

    every_line_has_a_step(steps, times, lines.last());
    if n > 0 {
        lemma_arrived_lines(lines, steps, times, i, n - 1);
        let less = lines.drop_last();
        lemma_multiset_commutative(
            arrivals(lines, steps, times, i, n - 1),
            moved_from(lines, steps, times, n - 1, i),
        );
        lemma_multiset_commutative(
            arrivals(less, steps, times, i, n - 1),
            moved_from(less, steps, times, n - 1, i),
        );
        assert(arrivals(lines, steps, times, i, n).to_multiset() =~= with_one(
            arrivals(less, steps, times, i, n).to_multiset(),
            lines.last(),
            moved(steps, times, lines.last()) == Some(i) && home(times, lines.last()) < n,
        ));
    }
}

proof fn lemma_step_gains(
    lines: Seq<LineView>,
    steps: Seq<StepView>,
    times: Seq<StepTimes>,
    i: int,
)
    requires
        lines.len() > 0,
        steps.len() == times.len(),
        steps.len() > 0,
        0 <= i < steps.len(),
    ensures
        step_lines(lines, steps, times, i).to_multiset() == with_one(
            step_lines(lines.drop_last(), steps, times, i).to_multiset(),
            lines.last(),
            destination(steps, times, lines.last()) == i,
        ),
{
    broadcast use vstd::seq_lib::group_to_multiset_ensures;

    let n = steps.len() as int;
    let less = lines.drop_last();
    every_line_has_a_step(steps, times, lines.last());
    lemma_arrived_lines(lines, steps, times, i, n);
    let (kept, came) = (retained(lines, steps, times, i), arrivals(lines, steps, times, i, n));
    let (kept_less, came_less) = (
        retained(less, steps, times, i),
        arrivals(less, steps, times, i, n),
    );
    lemma_multiset_commutative(kept, came);
    lemma_multiset_commutative(kept_less, came_less);
    time_order_is_a_sorted_permutation(kept + came);
    time_order_is_a_sorted_permutation(kept_less + came_less);
    assert(step_lines(lines, steps, times, i).to_multiset() =~= with_one(
        step_lines(less, steps, times, i).to_multiset(),
        lines.last(),
        destination(steps, times, lines.last()) == i,
    ));
}

proof fn lemma_shown_grows(
    lines: Seq<LineView>,
    steps: Seq<StepView>,
    times: Seq<StepTimes>,
    k: int,
)
    requires
        lines.len() > 0,
        steps.len() == times.len(),
        steps.len() > 0,
        0 <= k <= steps.len(),
    ensures
        shown_together(all_step_lines(lines, steps, times), k) == with_one(
            shown_together(all_step_lines(lines.drop_last(), steps, times), k),
            lines.last(),
            destination(steps, times, lines.last()) < k,
        ),
    decreases k,
{
    every_line_has_a_step(steps, times, lines.last());
    if k > 0 {
        lemma_shown_grows(lines, steps, times, k - 1);
        lemma_step_gains(lines, steps, times, k - 1);
        assert(shown_together(all_step_lines(lines, steps, times), k) =~= with_one(
            shown_together(all_step_lines(lines.drop_last(), steps, times), k),
            lines.last(),
            destination(steps, times, lines.last()) < k,
        ));
    }
}

proof fn lemma_nothing_is_shown(steps: Seq<StepView>, times: Seq<StepTimes>, k: int)
    requires
        0 <= k <= steps.len(),
    ensures
        shown_together(all_step_lines(Seq::empty(), steps, times), k) == Multiset::<
            LineView,
        >::empty(),
        total(all_step_lines(Seq::empty(), steps, times), k) == 0,
    decreases k,
{
    broadcast use vstd::seq_lib::group_to_multiset_ensures;

    if k > 0 {
        lemma_nothing_is_shown(steps, times, k - 1);
        lemma_total_of_nothing(steps, times, k);
        lemma_total_of_nothing(steps, times, k - 1);
        let last = step_lines(Seq::empty(), steps, times, k - 1);
        assert(last =~= Seq::<LineView>::empty());
        assert(last.to_multiset() =~= Multiset::empty());
        assert(shown_together(all_step_lines(Seq::empty(), steps, times), k)
            =~= Multiset::empty());
    }
}

/// No line is lost, none is added and none is shown twice: the steps together show
/// the very lines that there are, each as often as it is there, and as many.
pub proof fn steps_show_every_line(
    lines: Seq<LineView>,
    steps: Seq<StepView>,
    times: Seq<StepTimes>,
)
    requires
        steps.len() == times.len(),
        steps.len() > 0,
    ensures
        shown_together(all_step_lines(lines, steps, times), steps.len() as int)
            == lines.to_multiset(),
        total(all_step_lines(lines, steps, times), steps.len() as int) == lines.len(),
    decreases lines.len(),
{
    broadcast use vstd::seq_lib::group_to_multiset_ensures;

    let n = steps.len() as int;
    if lines.len() == 0 {
        assert(lines =~= Seq::empty());
        lemma_nothing_is_shown(steps, times, n);
        assert(lines.to_multiset() =~= Multiset::empty());
    } else {
        steps_show_every_line(lines.drop_last(), steps, times);
        lemma_total_grows(lines, steps, times, n);
        lemma_shown_grows(lines, steps, times, n);
        every_line_has_a_step(steps, times, lines.last());
        assert(lines =~= lines.drop_last().push(lines.last()));
    }
}

// ---------------------------------------------------------------------------
// Annotations

/// The annotations made so far, and those of them that come from a line.
pub struct Notes {
    pub all: Seq<AnnotationView>,
    pub from_lines: Seq<AnnotationView>,
}

/// One of the annotations has this level, step number and message.
pub open spec fn noted(
    list: Seq<AnnotationView>,
    level: LogLevel,
    number: i64,
    message: Seq<char>,
) -> bool {
    exists|k: int|
        0 <= k < list.len() && (#[trigger] list[k]).level == level && list[k].step_number == number
            && list[k].message == message
}

/// One of the annotations is an error of this step.
pub open spec fn error_noted(list: Seq<AnnotationView>, number: i64) -> bool {
    exists|k: int|
        0 <= k < list.len() && (#[trigger] list[k]).level == LogLevel::Error && list[k].step_number
            == number
}

/// The annotations after the lines of a step: each error and each warning is
/// noted once per step number.
pub open spec fn note_lines(notes: Notes, step: StepView, lines: Seq<LineView>) -> Notes
    decreases lines.len(),
{
    if lines.len() == 0 {
        notes
    } else {
        let before = note_lines(notes, step, lines.drop_last());
        let line = lines.last();
        let note = AnnotationView {
            level: line.level,
            message: line.text,
            step_number: step.number,
            step_name: step.name,
        };
        if (line.level == LogLevel::Error || line.level == LogLevel::Warning) && !noted(
            before.from_lines,
            line.level,
            step.number,
            line.text,
        ) {
            Notes { all: before.all.push(note), from_lines: before.from_lines.push(note) }
        } else {
            before
        }
    }
}

/// The text of the last line that speaks of an error.
pub open spec fn last_error_text(lines: Seq<LineView>) -> Option<Seq<char>>
    decreases lines.len(),
{
    if lines.len() == 0 {
        None
    } else if contains_text(lower(lines.last().text), "error"@) {
        Some(lines.last().text)
    } else {
        last_error_text(lines.drop_last())
    }
}

/// The annotations after a step: a failed step has at least one error.
pub open spec fn note_step(notes: Notes, step: StepView, lines: Seq<LineView>) -> Notes {
    let after = note_lines(notes, step, lines);
    if failed(step) && !error_noted(after.all, step.number) {
        Notes {
            all: after.all.push(
                AnnotationView {
                    level: LogLevel::Error,
                    message: match last_error_text(lines) {
                        Some(text) => text,
                        None => "Step concluded with failure."@,
                    },
                    step_number: step.number,
                    step_name: step.name,
                },
            ),
            from_lines: after.from_lines,
        }
    } else {
        after
    }
}

/// The annotations after the first `n` steps.
pub open spec fn note_steps(steps: Seq<StepView>, lines: Seq<Seq<LineView>>, n: int) -> Notes
    decreases n,
{
    if n <= 0 {
        Notes { all: Seq::empty(), from_lines: Seq::empty() }
    } else {
        note_step(note_steps(steps, lines, n - 1), steps[n - 1], lines[n - 1])
    }
}

proof fn lemma_notes_only_grow(notes: Notes, step: StepView, lines: Seq<LineView>)
    ensures
        notes.all.is_prefix_of(note_lines(notes, step, lines).all),
        notes.all.is_prefix_of(note_step(notes, step, lines).all),
    decreases lines.len(),
{
    if lines.len() > 0 {
        lemma_notes_only_grow(notes, step, lines.drop_last());
    }
}

/// Every failed step is annotated with an error.
pub proof fn failed_steps_are_annotated(
    steps: Seq<StepView>,
    lines: Seq<Seq<LineView>>,
    n: int,
    i: int,
)
    requires
        0 <= i < n <= steps.len(),
        failed(steps[i]),
    ensures
        error_noted(note_steps(steps, lines, n).all, steps[i].number),
    decreases n,
{
    let after = note_steps(steps, lines, n).all;
    if i < n - 1 {
        failed_steps_are_annotated(steps, lines, n - 1, i);
        let before = note_steps(steps, lines, n - 1).all;
        lemma_notes_only_grow(note_steps(steps, lines, n - 1), steps[n - 1], lines[n - 1]);
        let k = choose|k: int|
            0 <= k < before.len() && (#[trigger] before[k]).level == LogLevel::Error
                && before[k].step_number == steps[i].number;
        assert(after[k] == before[k]);
    } else {
        let noted_lines = note_lines(note_steps(steps, lines, i), steps[i], lines[i]).all;
        if !error_noted(noted_lines, steps[i].number) {
            assert(after[after.len() - 1].level == LogLevel::Error);
        }
    }
}

// ---------------------------------------------------------------------------
// The structured log

/// The step under which the lines of a job without steps are shown.
pub open spec fn only_step() -> StepView {
    StepView {
        number: 1,
        name: "Job output"@,
        status: "completed"@,
        conclusion: None,
        started_at: None,
        completed_at: None,
    }
}

/// The steps of a job: at least one.
pub open spec fn steps_shown(metadata: Seq<StepView>) -> Seq<StepView> {
    if metadata.len() == 0 {
        seq![only_step()]
    } else {
        metadata
    }
}

/// The times of steps by the dates of their descriptions.
pub open spec fn times_of(steps: Seq<StepView>) -> Seq<StepTimes> {
    steps.map_values(
        |step: StepView|
            StepTimes {
                started: date_millis(step.started_at),
                completed: date_millis(step.completed_at),
            },
    )
}

impl ParsedJobLog {
    /// The log shows these lines under these steps.
    pub open spec fn shows(
        &self,
        lines: Seq<LineView>,
        steps: Seq<StepView>,
        times: Seq<StepTimes>,
    ) -> bool {
        let by_step = all_step_lines(lines, steps, times);
        &&& self.steps@.len() == steps.len()
        &&& forall|i: int|
            0 <= i < steps.len() ==> (#[trigger] self.steps@[i]).step() == steps[i] && line_views(
                self.steps@[i].lines@,
            ) == by_step[i]
        &&& annotation_views(self.annotations@) == note_steps(steps, by_step, steps.len() as int).all
        &&& self.line_count == lines.len()
    }
}

/// Whether a step failed.
fn is_failed(step: &GitHubWorkflowStep) -> (r: bool)
    ensures
        r == failed(step@),
{
    match &step.conclusion {
        Some(conclusion) => same(conclusion.as_str(), "failure"),
        None => false,
    }
}

/// The step that was running when a line was printed.
fn find_home(times: &Vec<StepTimes>, millis: Option<i64>) -> (r: usize)
    requires
        times@.len() > 0,
    ensures
        r == match millis {
            Some(at) => last_started(times@, at),
            None => 0,
        },
        r < times@.len(),
{
    let at: i64 = match millis {
        Some(at) => at,
        None => {
            return 0;
        },
    };
    let mut n: usize = times.len();
    proof {
        assert(times@.take(n as int) =~= times@);
    }
    while n > 0
        invariant
            n <= times@.len(),
            times@.len() > 0,
            last_started(times@.take(n as int), at) == last_started(times@, at),
            millis == Some(at),
        decreases n,
    {
        let ghost here = times@.take(n as int);
        proof {
            assert(here.last() == times@[n - 1]);
            assert(here.drop_last() =~= times@.take(n - 1));
        }
        if let Some(started) = times[n - 1].started {
            if started <= at {
                return n - 1;
            }
        }
        n -= 1;
    }
    0
}

/// Whether an instant lies within a step.
fn is_within(times: &StepTimes, at: i64) -> (r: bool)
    ensures
        r == within(*times, at),
{
    (match times.started {
        Some(started) => started <= at,
        None => true,
    }) && (match times.completed {
        Some(completed) => at <= sum_saturated(completed, 1_000),
        None => true,
    })
}

/// The last failed step within which an instant lies.
fn find_failed(steps: &Vec<GitHubWorkflowStep>, times: &Vec<StepTimes>, at: i64) -> (r: Option<
    usize,
>)
    requires
        steps@.len() == times@.len(),
    ensures
        match r {
            Some(i) => last_failed(step_views(steps@), times@, at, steps@.len() as int) == Some(
                i as int,
            ) && i < steps@.len(),
            None => last_failed(step_views(steps@), times@, at, steps@.len() as int) is None,
        },
{
    let mut n: usize = steps.len();
    while n > 0
        invariant
            n <= steps@.len(),
            steps@.len() == times@.len(),
            last_failed(step_views(steps@), times@, at, n as int) == last_failed(
                step_views(steps@),
                times@,
                at,
                steps@.len() as int,
            ),
        decreases n,
    {
        if is_failed(&steps[n - 1]) && is_within(&times[n - 1], at) {
            return Some(n - 1);
        }
        n -= 1;
    }
    None
}

/// Where a line is shown: the step that was running, and the failed step that
/// it is moved to.
#[derive(Clone, Copy)]
struct Place {
    home: usize,
    moved: Option<usize>,
}

spec fn placed(
    place: Place,
    steps: Seq<StepView>,
    times: Seq<StepTimes>,
    line: LineView,
) -> bool {
    &&& place.home == home(times, line)
    &&& match place.moved {
        Some(i) => moved(steps, times, line) == Some(i as int),
        None => moved(steps, times, line) is None,
    }
}

fn place_line(steps: &Vec<GitHubWorkflowStep>, times: &Vec<StepTimes>, line: &CleanLogLine) -> (r:
    Place)
    requires
        steps@.len() == times@.len(),
        steps@.len() > 0,
    ensures
        placed(r, step_views(steps@), times@, line@),
{
    let at_home: usize = find_home(times, line.timestamp_millis);
    if is_failed(&steps[at_home]) || line.level != LogLevel::Error {
        return Place { home: at_home, moved: None };
    }
    match line.timestamp_millis {
        Some(at) => Place { home: at_home, moved: find_failed(steps, times, at) },
        None => Place { home: at_home, moved: None },
    }
}

/// The lines that stay with a step, and then those that are moved to it.
fn gather(
    lines: &Vec<CleanLogLine>,
    places: &Vec<Place>,
    i: usize,
    n: usize,
    Ghost(steps): Ghost<Seq<StepView>>,
    Ghost(times): Ghost<Seq<StepTimes>>,
) -> (r: Vec<CleanLogLine>)
    requires
        places@.len() == lines@.len(),
        forall|k: int|
            0 <= k < lines@.len() ==> placed(
                #[trigger] places@[k],
                steps,
                times,
                line_views(lines@)[k],
            ),
    ensures
        line_views(r@) == retained(line_views(lines@), steps, times, i as int) + arrivals(
            line_views(lines@),
            steps,
            times,
            i as int,
            n as int,
        ),
{
    let ghost all = line_views(lines@);
    let mut out: Vec<CleanLogLine> = Vec::new();
    let mut k: usize = 0;
    while k < lines.len()
        invariant
            k <= lines@.len(),
            all == line_views(lines@),
            places@.len() == lines@.len(),
            forall|k: int|
                0 <= k < lines@.len() ==> placed(#[trigger] places@[k], steps, times, all[k]),
            line_views(out@) == retained(all.take(k as int), steps, times, i as int),
        decreases lines@.len() - k,
    {
        let ghost before = line_views(out@);
        proof {
            let next = all.take(k + 1);
            assert(next.drop_last() =~= all.take(k as int));
            assert(next.last() == all[k as int]);
            assert(placed(places@[k as int], steps, times, all[k as int]));
        }
        if places[k].home == i && places[k].moved.is_none() {
            out.push(lines[k].copy());
            proof {
                assert(line_views(out@) =~= before.push(all[k as int]));
            }
        }
        k += 1;
    }
    proof {
        assert(all.take(all.len() as int) =~= all);
    }
    let ghost stayed = line_views(out@);
    let mut h: usize = 0;
    proof {
        assert(stayed + arrivals(all, steps, times, i as int, 0) =~= stayed);
    }
    while h < n
        invariant
            h <= n,
            all == line_views(lines@),
            places@.len() == lines@.len(),
            forall|k: int|
                0 <= k < lines@.len() ==> placed(#[trigger] places@[k], steps, times, all[k]),
            line_views(out@) == stayed + arrivals(all, steps, times, i as int, h as int),
        decreases n - h,
    {
        let ghost base = line_views(out@);
        let mut k: usize = 0;
        proof {
            assert(base + moved_from(all.take(0), steps, times, h as int, i as int) =~= base);
        }
        while k < lines.len()
            invariant
                k <= lines@.len(),
                all == line_views(lines@),
                places@.len() == lines@.len(),
                forall|k: int|
                    0 <= k < lines@.len() ==> placed(#[trigger] places@[k], steps, times, all[k]),
                line_views(out@) == base + moved_from(
                    all.take(k as int),
                    steps,
                    times,
                    h as int,
                    i as int,
                ),
            decreases lines@.len() - k,
        {
            let ghost before = line_views(out@);
            proof {
                let next = all.take(k + 1);
                assert(next.drop_last() =~= all.take(k as int));
                assert(next.last() == all[k as int]);
                assert(placed(places@[k as int], steps, times, all[k as int]));
            }
            let arrives: bool = match places[k].moved {
                Some(target) => places[k].home == h && target == i,
                None => false,
            };
            if arrives {
                out.push(lines[k].copy());
                proof {
                    assert(line_views(out@) =~= before.push(all[k as int]));
                    assert(line_views(out@) =~= base + moved_from(
                        all.take(k + 1),
                        steps,
                        times,
                        h as int,
                        i as int,
                    ));
                }
            }
            k += 1;
        }
        proof {
            assert(all.take(all.len() as int) =~= all);
            assert(line_views(out@) =~= stayed + arrivals(all, steps, times, i as int, h + 1));
        }
        h += 1;
    }
    out
}

/// Whether an annotation with this level, step number and message exists.
fn is_noted(list: &Vec<LogAnnotation>, level: LogLevel, number: i64, message: &str) -> (r: bool)
    ensures
        r == noted(annotation_views(list@), level, number, message@),
{
    let ghost views = annotation_views(list@);
    let mut k: usize = 0;
    while k < list.len()
        invariant
            k <= list@.len(),
            views == annotation_views(list@),
            forall|j: int|
                0 <= j < k ==> !((#[trigger] views[j]).level == level && views[j].step_number
                    == number && views[j].message == message@),
        decreases list@.len() - k,
    {
        proof {
            assert(views[k as int] == list@[k as int]@);
        }
        if list[k].level == level && list[k].step_number == number && same(
            list[k].message.as_str(),
            message,
        ) {
            return true;
        }
        k += 1;
    }
    false
}

/// Whether an error of a step is annotated.
fn is_error_noted(list: &Vec<LogAnnotation>, number: i64) -> (r: bool)
    ensures
        r == error_noted(annotation_views(list@), number),
{
    let ghost views = annotation_views(list@);
    let mut k: usize = 0;
    while k < list.len()
        invariant
            k <= list@.len(),
            views == annotation_views(list@),
            forall|j: int|
                0 <= j < k ==> !((#[trigger] views[j]).level == LogLevel::Error
                    && views[j].step_number == number),
        decreases list@.len() - k,
    {
        proof {
            assert(views[k as int] == list@[k as int]@);
        }
        if list[k].level == LogLevel::Error && list[k].step_number == number {
            return true;
        }
        k += 1;
    }
    false
}

/// The text of the last line that speaks of an error.
fn find_error_text(lines: &Vec<CleanLogLine>) -> (r: Option<String>)
    ensures
        text_option(r) == last_error_text(line_views(lines@)),
{
    let ghost all = line_views(lines@);
    let mut k: usize = lines.len();
    proof {
        assert(all.take(k as int) =~= all);
    }
    while k > 0
        invariant
            k <= lines@.len(),
            all == line_views(lines@),
            last_error_text(all.take(k as int)) == last_error_text(all),
        decreases k,
    {
        proof {
            let here = all.take(k as int);
            assert(here.last() == all[k - 1]);
            assert(here.drop_last() =~= all.take(k - 1));
        }
        if contains(to_lower(lines[k - 1].text.as_str()).as_str(), "error") {
            return Some(lines[k - 1].text.clone());
        }
        k -= 1;
    }
    None
}

fn annotate(level: LogLevel, message: &str, number: i64, name: &str) -> (r: LogAnnotation)
    ensures
        r@ == (AnnotationView { level, message: message@, step_number: number, step_name: name@ }),
{
    LogAnnotation {
        level,
        message: message.to_owned(),
        step_number: number,
        step_name: name.to_owned(),
    }
}

/// Adds the annotations of one step.
fn annotate_step(
    all: &mut Vec<LogAnnotation>,
    from_lines: &mut Vec<LogAnnotation>,
    step: &StructuredLogStep,
    step_failed: bool,
)
    requires
        step_failed == failed(step.step()),
    ensures
        (Notes {
            all: annotation_views(final(all)@),
            from_lines: annotation_views(final(from_lines)@),
        }) == note_step(
            Notes {
                all: annotation_views(old(all)@),
                from_lines: annotation_views(old(from_lines)@),
            },
            step.step(),
            line_views(step.lines@),
        ),
{
    let ghost start = Notes {
        all: annotation_views(all@),
        from_lines: annotation_views(from_lines@),
    };
    let ghost lines = line_views(step.lines@);
    let mut k: usize = 0;
    while k < step.lines.len()
        invariant
            k <= step.lines@.len(),
            lines == line_views(step.lines@),
            (Notes {
                all: annotation_views(all@),
                from_lines: annotation_views(from_lines@),
            }) == note_lines(start, step.step(), lines.take(k as int)),
        decreases step.lines@.len() - k,
    {
        let ghost before = Notes {
            all: annotation_views(all@),
            from_lines: annotation_views(from_lines@),
        };
        let line: &CleanLogLine = &step.lines[k];
        proof {
            let next = lines.take(k + 1);
            assert(next.drop_last() =~= lines.take(k as int));
            assert(next.last() == line@);
        }
        if (line.level == LogLevel::Error || line.level == LogLevel::Warning) && !is_noted(
            from_lines,
            line.level,
            step.number,
            line.text.as_str(),
        ) {
            let note: LogAnnotation = annotate(
                line.level,
                line.text.as_str(),
                step.number,
                step.name.as_str(),
            );
            let copy: LogAnnotation = annotate(
                line.level,
                line.text.as_str(),
                step.number,
                step.name.as_str(),
            );
            all.push(note);
            from_lines.push(copy);
            proof {
                assert(annotation_views(all@) =~= before.all.push(note@));
                assert(annotation_views(from_lines@) =~= before.from_lines.push(note@));
            }
        }
        k += 1;
    }
    proof {
        assert(lines.take(lines.len() as int) =~= lines);
    }
    if step_failed && !is_error_noted(all, step.number) {
        let ghost before = annotation_views(all@);
        let message: String = match find_error_text(&step.lines) {
            Some(text) => text,
            None => "Step concluded with failure.".to_owned(),
        };
        let note: LogAnnotation = annotate(
            LogLevel::Error,
            message.as_str(),
            step.number,
            step.name.as_str(),
        );
        all.push(note);
        proof {
            assert(annotation_views(all@) =~= before.push(note@));
        }
    }
}

/// Sets lines under the steps of a job, for the times that the steps took.
pub fn arrange_job_log(
    lines: Vec<CleanLogLine>,
    hidden: usize,
    steps: &Vec<GitHubWorkflowStep>,
    times: &Vec<StepTimes>,
) -> (r: ParsedJobLog)
    requires
        steps@.len() == times@.len(),
        steps@.len() > 0,
    ensures
        r.shows(line_views(lines@), step_views(steps@), times@),
        r.hidden_diagnostic_lines == hidden,
{
    let ghost all = line_views(lines@);
    let ghost views = step_views(steps@);
    let ghost by_step = all_step_lines(all, views, times@);
    let mut places: Vec<Place> = Vec::new();
    let mut k: usize = 0;
    while k < lines.len()
        invariant
            k <= lines@.len(),
            all == line_views(lines@),
            views == step_views(steps@),
            steps@.len() == times@.len(),
            steps@.len() > 0,
            places@.len() == k,
            forall|j: int| 0 <= j < k ==> placed(#[trigger] places@[j], views, times@, all[j]),
        decreases lines@.len() - k,
    {
        places.push(place_line(steps, times, &lines[k]));
        k += 1;
    }
    let mut shown: Vec<StructuredLogStep> = Vec::new();
    let mut annotations: Vec<LogAnnotation> = Vec::new();
    let mut from_lines: Vec<LogAnnotation> = Vec::new();
    let mut i: usize = 0;
    proof {
        assert(annotation_views(annotations@) =~= Seq::empty());
        assert(annotation_views(from_lines@) =~= Seq::empty());
    }
    while i < steps.len()
        invariant
            i <= steps@.len(),
            all == line_views(lines@),
            views == step_views(steps@),
            by_step == all_step_lines(all, views, times@),
            steps@.len() == times@.len(),
            places@.len() == lines@.len(),
            forall|j: int|
                0 <= j < lines@.len() ==> placed(#[trigger] places@[j], views, times@, all[j]),
            shown@.len() == i,
            forall|j: int|
                0 <= j < i ==> (#[trigger] shown@[j]).step() == views[j] && line_views(
                    shown@[j].lines@,
                ) == by_step[j],
            (Notes {
                all: annotation_views(annotations@),
                from_lines: annotation_views(from_lines@),
            }) == note_steps(views, by_step, i as int),
        decreases steps@.len() - i,
    {
        let gathered: Vec<CleanLogLine> = gather(
            &lines,
            &places,
            i,
            steps.len(),
            Ghost(views),
            Ghost(times@),
        );
        let source: &GitHubWorkflowStep = &steps[i];
        let step: StructuredLogStep = StructuredLogStep {
            number: source.number,
            name: source.name.clone(),
            status: source.status.clone(),
            conclusion: copy_option(&source.conclusion),
            started_at: copy_option(&source.started_at),
            completed_at: copy_option(&source.completed_at),
            lines: sort_lines(gathered),
        };
        proof {
            assert(views[i as int] == source@);
            assert(step.step() == views[i as int]);
            assert(line_views(step.lines@) == by_step[i as int]);
        }
        annotate_step(&mut annotations, &mut from_lines, &step, is_failed(source));
        shown.push(step);
        i += 1;
    }
    ParsedJobLog {
        steps: shown,
        annotations,
        line_count: lines.len(),
        hidden_diagnostic_lines: hidden,
    }
}

/// The step that stands for a job without steps.
fn job_output_step() -> (r: GitHubWorkflowStep)
    ensures
        r@ == only_step(),
{
    GitHubWorkflowStep {
        name: "Job output".to_owned(),
        status: "completed".to_owned(),
        conclusion: None,
        number: 1,
        started_at: None,
        completed_at: None,
    }
}

/// Structures the raw log of a job: its lines are cleaned, put in order of
/// time, and shown under the steps that printed them.
pub fn structure_job_log(raw: &str, metadata: &[GitHubWorkflowStep], local: bool) -> (r:
    ParsedJobLog)
    ensures
        r.shows(
            in_time_order(kept_lines(lines_of(raw@), local)),
            steps_shown(step_views(metadata@)),
            times_of(steps_shown(step_views(metadata@))),
        ),
        r.hidden_diagnostic_lines == smaller(
            hidden_lines(lines_of(raw@), local) as int,
            usize::MAX as int,
        ),
{
    let cleaned: (Vec<CleanLogLine>, usize) = clean_job_lines(raw, local);
    let mut steps: Vec<GitHubWorkflowStep> = Vec::new();
    let ghost wanted = steps_shown(step_views(metadata@));
    if metadata.len() == 0 {
        steps.push(job_output_step());
        proof {
            assert(step_views(steps@) =~= wanted);
        }
    } else {
        let mut i: usize = 0;
        while i < metadata.len()
            invariant
                i <= metadata@.len(),
                step_views(steps@) == step_views(metadata@).take(i as int),
            decreases metadata@.len() - i,
        {
            let ghost before = step_views(steps@);
            let step: GitHubWorkflowStep = metadata[i].copy();
            steps.push(step);
            proof {
                assert(step_views(metadata@)[i as int] == step@);
                assert(step_views(steps@) =~= before.push(step@));
                assert(step_views(steps@) =~= step_views(metadata@).take(i + 1));
            }
            i += 1;
        }
        proof {
            assert(step_views(steps@) =~= wanted);
        }
    }
    let mut times: Vec<StepTimes> = Vec::new();
    let mut i: usize = 0;
    while i < steps.len()
        invariant
            i <= steps@.len(),
            step_views(steps@) == wanted,
            times@ == times_of(wanted).take(i as int),
        decreases steps@.len() - i,
    {
        let step: &GitHubWorkflowStep = &steps[i];
        let started: Option<i64> = match &step.started_at {
            Some(text) => github_date_millis(Some(text.as_str())),
            None => None,
        };
        let completed: Option<i64> = match &step.completed_at {
            Some(text) => github_date_millis(Some(text.as_str())),
            None => None,
        };
        times.push(StepTimes { started, completed });
        proof {
            assert(step_views(steps@)[i as int] == step@);
        }
        i += 1;
        proof {
            assert(times@ =~= times_of(wanted).take(i as int));
        }
    }
    proof {
        assert(step_views(steps@).len() == steps@.len());
        assert(times@ =~= times_of(wanted));
    }
    arrange_job_log(cleaned.0, cleaned.1, &steps, &times)
}

// ---------------------------------------------------------------------------
// What the structured log shows

/// A line is at home under the last step that had started when it was printed, and under
/// the first step where none had or its time is not known.
pub proof fn lines_are_at_home_with_the_last_started_step(
    times: Seq<StepTimes>,
    line: LineView,
    k: int,
)
    requires
        0 <= k < times.len(),
    ensures
        line.millis is None ==> home(times, line) == 0,
        line.millis is Some && times[k].started is Some && times[k].started->0 <= line.millis->0
            ==> home(times, line) >= k,
        line.millis is Some && home(times, line) > 0 ==> times[home(times, line)].started is Some
            && times[home(times, line)].started->0 <= line.millis->0,
        0 <= home(times, line) < times.len(),
    decreases times.len(),
{
    if line.millis is Some {
        lemma_last_started_range(times, line.millis->0);
        if times.len() > 1 {
            let front = times.drop_last();
            lemma_last_started_range(front, line.millis->0);
            if k < front.len() {
                lines_are_at_home_with_the_last_started_step(front, line, k);
            } else {
                lines_are_at_home_with_the_last_started_step(front, line, 0);
            }
        } else {
            assert(last_started(times.drop_last(), line.millis->0) == 0);
        }
    }
}

/// An error is shown under another step than the one that was running only where that
/// one did not fail, and then under the last step that failed and that had started by
/// then and had not ended more than a second before.
pub proof fn errors_are_moved_to_the_last_failed_step(
    steps: Seq<StepView>,
    times: Seq<StepTimes>,
    line: LineView,
    k: int,
)
    requires
        steps.len() == times.len(),
        0 <= k < steps.len(),
        line.millis is Some,
        line.level == LogLevel::Error,
        steps[home(times, line)].conclusion != Some("failure"@),
    ensures
        ({
            let at = line.millis->0;
            let d = destination(steps, times, line);
            &&& d != home(times, line) ==> {
                &&& 0 <= d < steps.len()
                &&& steps[d].conclusion == Some("failure"@)
                &&& times[d].started is None || times[d].started->0 <= at
                &&& times[d].completed is None || times[d].completed->0 > i64::MAX - 1_000 || at
                    <= times[d].completed->0 + 1_000
            }
            &&& steps[k].conclusion == Some("failure"@) && (times[k].started is None
                || times[k].started->0 <= at) && (times[k].completed is None || at
                <= times[k].completed->0 + 1_000) ==> d >= k && steps[d].conclusion == Some(
                "failure"@,
            )
        }),
{
    if failed(steps[k]) && within(times[k], line.millis->0) {
        lemma_last_failed_is_last(steps, times, line.millis->0, steps.len() as int, k);
    }
    lemma_last_failed(steps, times, line.millis->0, steps.len() as int);
}

proof fn lemma_last_failed_is_last(
    steps: Seq<StepView>,
    times: Seq<StepTimes>,
    at: i64,
    n: int,
    k: int,
)
    requires
        0 <= k < n <= steps.len(),
        failed(steps[k]),
        within(times[k], at),
    ensures
        last_failed(steps, times, at, n) is Some,
        last_failed(steps, times, at, n)->0 >= k,
    decreases n,
{
    if k < n - 1 {
        lemma_last_failed_is_last(steps, times, at, n - 1, k);
    }
}

/// A line that is no error, or has no time, or was printed while a step was running that
/// failed, is shown under that step.
pub proof fn other_lines_are_never_moved(
    steps: Seq<StepView>,
    times: Seq<StepTimes>,
    line: LineView,
)
    ensures
        line.level != LogLevel::Error || line.millis is None || steps[home(times, line)].conclusion
            == Some("failure"@) ==> destination(steps, times, line) == home(times, line),
{
}

/// Each step shows the lines that belong to it, each as often as it was printed, and in
/// order of time.
pub proof fn each_step_shows_its_own_lines(
    lines: Seq<LineView>,
    steps: Seq<StepView>,
    times: Seq<StepTimes>,
    i: int,
)
    requires
        steps.len() == times.len(),
        0 <= i < steps.len(),
    ensures
        step_lines(lines, steps, times, i).to_multiset() == lines.filter(
            |line: LineView| destination(steps, times, line) == i,
        ).to_multiset(),
        time_ordered(step_lines(lines, steps, times, i)),
    decreases lines.len(),
{
    broadcast use vstd::seq_lib::group_to_multiset_ensures;

    let own = |line: LineView| destination(steps, times, line) == i;
    let n = steps.len() as int;
    time_order_is_a_sorted_permutation(
        retained(lines, steps, times, i) + arrivals(lines, steps, times, i, n),
    );
    reveal(Seq::filter);
    if lines.len() == 0 {
        assert(lines =~= Seq::empty());
        lemma_arrivals_of_nothing(steps, times, i, n);
        assert(retained(lines, steps, times, i) + arrivals(lines, steps, times, i, n)
            =~= Seq::empty());
        assert(step_lines(lines, steps, times, i) =~= lines.filter(own));
    } else {
        each_step_shows_its_own_lines(lines.drop_last(), steps, times, i);
        lemma_step_gains(lines, steps, times, i);
        let less = lines.drop_last().filter(own);
        assert(lines.filter(own) == if own(lines.last()) {
            less.push(lines.last())
        } else {
            less
        });
        assert(less.push(lines.last()).to_multiset() =~= less.to_multiset().insert(lines.last()));
    }
}

/// Where no line is moved to a step or from it, the step shows its lines in the order in
/// which they stand in the log.
pub proof fn steps_keep_the_order_of_their_lines(
    lines: Seq<LineView>,
    steps: Seq<StepView>,
    times: Seq<StepTimes>,
    i: int,
)
    requires
        steps.len() == times.len(),
        0 <= i < steps.len(),
        time_ordered(lines),
        forall|j: int|
            0 <= j < lines.len() ==> destination(steps, times, #[trigger] lines[j]) == home(
                times,
                lines[j],
            ),
    ensures
        step_lines(lines, steps, times, i) == lines.filter(
            |line: LineView| destination(steps, times, line) == i,
        ),
{
    let own = |line: LineView| destination(steps, times, line) == i;
    let n = steps.len() as int;
    lemma_unmoved(lines, steps, times, i);
    lemma_no_arrivals(lines, steps, times, i, n);
    assert(retained(lines, steps, times, i) + arrivals(lines, steps, times, i, n) =~= lines.filter(
        own,
    ));
    lemma_filter_ordered(lines, own);
    ordered_lines_keep_their_places(lines.filter(own));
}

proof fn lemma_moved_elsewhere(steps: Seq<StepView>, times: Seq<StepTimes>, line: LineView)
    requires
        steps.len() == times.len(),
        steps.len() > 0,
        destination(steps, times, line) == home(times, line),
    ensures
        moved(steps, times, line) is None,
{
    if moved(steps, times, line) is Some {
        lemma_last_failed(steps, times, line.millis->0, steps.len() as int);
    }
}

proof fn lemma_unmoved(
    lines: Seq<LineView>,
    steps: Seq<StepView>,
    times: Seq<StepTimes>,
    i: int,
)
    requires
        steps.len() == times.len(),
        steps.len() > 0,
        forall|j: int|
            0 <= j < lines.len() ==> destination(steps, times, #[trigger] lines[j]) == home(
                times,
                lines[j],
            ),
    ensures
        retained(lines, steps, times, i) == lines.filter(
            |line: LineView| destination(steps, times, line) == i,
        ),
    decreases lines.len(),
{
    reveal(Seq::filter);
    if lines.len() > 0 {
        assert forall|j: int| 0 <= j < lines.drop_last().len() implies destination(
            steps,
            times,
            #[trigger] lines.drop_last()[j],
        ) == home(times, lines.drop_last()[j]) by {
            assert(lines.drop_last()[j] == lines[j]);
        }
        lemma_unmoved(lines.drop_last(), steps, times, i);
        assert(lines[lines.len() - 1] == lines.last());
        lemma_moved_elsewhere(steps, times, lines.last());
    } else {
        assert(lines =~= Seq::empty());
    }
}

proof fn lemma_no_moves(
    lines: Seq<LineView>,
    steps: Seq<StepView>,
    times: Seq<StepTimes>,
    h: int,
    i: int,
)
    requires
        steps.len() == times.len(),
        steps.len() > 0,
        forall|j: int|
            0 <= j < lines.len() ==> destination(steps, times, #[trigger] lines[j]) == home(
                times,
                lines[j],
            ),
    ensures
        moved_from(lines, steps, times, h, i).len() == 0,
    decreases lines.len(),
{
    if lines.len() > 0 {
        assert forall|j: int| 0 <= j < lines.drop_last().len() implies destination(
            steps,
            times,
            #[trigger] lines.drop_last()[j],
        ) == home(times, lines.drop_last()[j]) by {
            assert(lines.drop_last()[j] == lines[j]);
        }
        lemma_no_moves(lines.drop_last(), steps, times, h, i);
        assert(lines[lines.len() - 1] == lines.last());
        lemma_moved_elsewhere(steps, times, lines.last());
    }
}

proof fn lemma_no_arrivals(
    lines: Seq<LineView>,
    steps: Seq<StepView>,
    times: Seq<StepTimes>,
    i: int,
    n: int,
)
    requires
        steps.len() == times.len(),
        steps.len() > 0,
        forall|j: int|
            0 <= j < lines.len() ==> destination(steps, times, #[trigger] lines[j]) == home(
                times,
                lines[j],
            ),
    ensures
        arrivals(lines, steps, times, i, n).len() == 0,
    decreases n,
{
    if n > 0 {
        lemma_no_arrivals(lines, steps, times, i, n - 1);
        lemma_no_moves(lines, steps, times, n - 1, i);
    }
}

proof fn lemma_filter_ordered(lines: Seq<LineView>, own: spec_fn(LineView) -> bool)
    requires
        time_ordered(lines),
    ensures
        time_ordered(lines.filter(own)),
        forall|k: int|
            0 <= k < lines.filter(own).len() ==> lines.contains(#[trigger] lines.filter(own)[k]),
    decreases lines.len(),
{
    reveal(Seq::filter);
    if lines.len() > 0 {
        let front = lines.drop_last();
        let less = front.filter(own);
        let all = lines.filter(own);
        assert forall|i: int, j: int| 0 <= i <= j < front.len() implies time_key(
            #[trigger] front[i],
        ) <= time_key(#[trigger] front[j]) by {
            assert(time_key(lines[i]) <= time_key(lines[j]));
        }
        lemma_filter_ordered(front, own);
        assert forall|k: int| 0 <= k < all.len() implies lines.contains(#[trigger] all[k]) by {
            if k < less.len() {
                assert(all[k] == less[k]);
                let m = choose|m: int| 0 <= m < front.len() && front[m] == less[k];
                assert(lines[m] == all[k]);
            } else {
                assert(lines[lines.len() - 1] == all[k]);
            }
        }
        assert forall|i: int, j: int| 0 <= i <= j < all.len() implies time_key(#[trigger] all[i])
            <= time_key(#[trigger] all[j]) by {
            if j < less.len() {
                assert(all[i] == less[i] && all[j] == less[j]);
            } else {
                let m = choose|m: int| 0 <= m < lines.len() && lines[m] == all[i];
                assert(time_key(lines[m]) <= time_key(lines[lines.len() - 1]));
            }
        }
    }
}

/// Each error and each warning under a step is annotated, with the step's number and
/// its own level and text.
pub proof fn errors_and_warnings_are_annotated(
    steps: Seq<StepView>,
    lines: Seq<Seq<LineView>>,
    n: int,
    i: int,
    j: int,
)
    requires
        0 <= i < n <= steps.len(),
        lines.len() == steps.len(),
        0 <= j < lines[i].len(),
        lines[i][j].level == LogLevel::Error || lines[i][j].level == LogLevel::Warning,
    ensures
        exists|k: int|
            0 <= k < note_steps(steps, lines, n).all.len() && (#[trigger] note_steps(
                steps,
                lines,
                n,
            ).all[k]).level == lines[i][j].level && note_steps(steps, lines, n).all[k].message
                == lines[i][j].text && note_steps(steps, lines, n).all[k].step_number
                == steps[i].number,
    decreases n,
{
    let before = note_steps(steps, lines, n - 1);
    let after = note_steps(steps, lines, n).all;
    lemma_notes_only_grow(before, steps[n - 1], lines[n - 1]);
    lemma_noted_lines_are_kept(steps, lines, n - 1);
    if i < n - 1 {
        errors_and_warnings_are_annotated(steps, lines, n - 1, i, j);
        let k = choose|k: int|
            0 <= k < before.all.len() && (#[trigger] before.all[k]).level == lines[i][j].level
                && before.all[k].message == lines[i][j].text && before.all[k].step_number
                == steps[i].number;
        assert(after[k] == before.all[k]);
    } else {
        lemma_line_noted(before, steps[i], lines[i], j);
        let middle = note_lines(before, steps[i], lines[i]).all;
        let k = choose|k: int|
            0 <= k < middle.len() && (#[trigger] middle[k]).level == lines[i][j].level
                && middle[k].step_number == steps[i].number && middle[k].message
                == lines[i][j].text;
        assert(after[k] == middle[k]);
    }
}

proof fn lemma_noted_lines_are_kept(steps: Seq<StepView>, lines: Seq<Seq<LineView>>, n: int)
    ensures
        forall|k: int|
            0 <= k < note_steps(steps, lines, n).from_lines.len() ==> note_steps(
                steps,
                lines,
                n,
            ).all.contains(#[trigger] note_steps(steps, lines, n).from_lines[k]),
    decreases n,
{
    if n > 0 {
        let before = note_steps(steps, lines, n - 1);
        lemma_noted_lines_are_kept(steps, lines, n - 1);
        lemma_noted_lines_stay(before, steps[n - 1], lines[n - 1]);
        let middle = note_lines(before, steps[n - 1], lines[n - 1]);
        let after = note_steps(steps, lines, n);
        assert forall|k: int| 0 <= k < after.from_lines.len() implies after.all.contains(
            #[trigger] after.from_lines[k],
        ) by {
            assert(after.from_lines[k] == middle.from_lines[k]);
            let m = choose|m: int|
                0 <= m < middle.all.len() && middle.all[m] == middle.from_lines[k];
            assert(after.all[m] == middle.all[m]);
        }
    }
}

proof fn lemma_noted_lines_stay(notes: Notes, step: StepView, lines: Seq<LineView>)
    requires
        forall|k: int|
            0 <= k < notes.from_lines.len() ==> notes.all.contains(#[trigger] notes.from_lines[k]),
    ensures
        forall|k: int|
            0 <= k < note_lines(notes, step, lines).from_lines.len() ==> note_lines(
                notes,
                step,
                lines,
            ).all.contains(#[trigger] note_lines(notes, step, lines).from_lines[k]),
    decreases lines.len(),
{
    if lines.len() > 0 {
        lemma_noted_lines_stay(notes, step, lines.drop_last());
        let before = note_lines(notes, step, lines.drop_last());
        let after = note_lines(notes, step, lines);
        assert forall|k: int| 0 <= k < after.from_lines.len() implies after.all.contains(
            #[trigger] after.from_lines[k],
        ) by {
            if k < before.from_lines.len() {
                assert(after.from_lines[k] == before.from_lines[k]);
                let m = choose|m: int|
                    0 <= m < before.all.len() && before.all[m] == before.from_lines[k];
                assert(after.all[m] == before.all[m]);
            } else {
                assert(after.all[after.all.len() - 1] == after.from_lines[k]);
            }
        }
    }
}

proof fn lemma_line_noted(notes: Notes, step: StepView, lines: Seq<LineView>, j: int)
    requires
        0 <= j < lines.len(),
        lines[j].level == LogLevel::Error || lines[j].level == LogLevel::Warning,
        forall|k: int|
            0 <= k < notes.from_lines.len() ==> notes.all.contains(#[trigger] notes.from_lines[k]),
    ensures
        noted(
            note_lines(notes, step, lines).all,
            lines[j].level,
            step.number,
            lines[j].text,
        ),
    decreases lines.len(),
{
    let before = note_lines(notes, step, lines.drop_last());
    let after = note_lines(notes, step, lines);
    lemma_noted_lines_stay(notes, step, lines.drop_last());
    let (level, text) = (lines[j].level, lines[j].text);
    if j < lines.len() - 1 {
        lemma_line_noted(notes, step, lines.drop_last(), j);
        let k = choose|k: int|
            0 <= k < before.all.len() && (#[trigger] before.all[k]).level == level
                && before.all[k].step_number == step.number && before.all[k].message == text;
        assert(after.all[k] == before.all[k]);
    } else if noted(before.from_lines, level, step.number, text) {
        let k = choose|k: int|
            0 <= k < before.from_lines.len() && (#[trigger] before.from_lines[k]).level == level
                && before.from_lines[k].step_number == step.number && before.from_lines[k].message
                == text;
        let m = choose|m: int| 0 <= m < before.all.len() && before.all[m] == before.from_lines[k];
        assert(after.all[m].level == level);
    } else {
        assert(after.all[after.all.len() - 1].level == level);
    }
}

/// What is annotated was printed by a step as an error or a warning, or is the error of a
/// step that failed; and it has the number and the name of that step.
pub proof fn annotations_come_from_their_steps(
    steps: Seq<StepView>,
    lines: Seq<Seq<LineView>>,
    n: int,
    k: int,
)
    requires
        0 <= n <= steps.len(),
        lines.len() == steps.len(),
        0 <= k < note_steps(steps, lines, n).all.len(),
    ensures
        exists|i: int|
            0 <= i < n && origin_of_note(#[trigger] steps[i], lines[i], note_steps(
                steps,
                lines,
                n,
            ).all[k]),
    decreases n,
{
    if n > 0 {
        let before = note_steps(steps, lines, n - 1);
        let middle = note_lines(before, steps[n - 1], lines[n - 1]);
        let after = note_steps(steps, lines, n);
        lemma_notes_only_grow(before, steps[n - 1], lines[n - 1]);
        if k < before.all.len() {
            annotations_come_from_their_steps(steps, lines, n - 1, k);
            assert(after.all[k] == before.all[k]);
            let i = choose|i: int|
                0 <= i < n - 1 && origin_of_note(#[trigger] steps[i], lines[i], before.all[k]);
            assert(origin_of_note(steps[i], lines[i], after.all[k]));
        } else if k < middle.all.len() {
            lemma_notes_of_lines(before, steps[n - 1], lines[n - 1], k);
            assert(after.all[k] == middle.all[k]);
            assert(origin_of_note(steps[n - 1], lines[n - 1], after.all[k]));
        } else {
            lemma_last_error_text(lines[n - 1]);
            assert(origin_of_note(steps[n - 1], lines[n - 1], after.all[k]));
        }
    }
}

/// An annotation stands for a line of the step that is an error or a warning; or the step
/// failed, and the annotation is the text of its last line that speaks of an error, or
/// says that the step failed where there is none.
pub open spec fn origin_of_note(
    step: StepView,
    lines: Seq<LineView>,
    note: AnnotationView,
) -> bool {
    &&& note.step_number == step.number
    &&& note.step_name == step.name
    &&& {
        ||| exists|j: int|
            0 <= j < lines.len() && (#[trigger] lines[j]).level == note.level && lines[j].text
                == note.message && (note.level == LogLevel::Error || note.level
                == LogLevel::Warning)
        ||| {
            &&& step.conclusion == Some("failure"@)
            &&& note.level == LogLevel::Error
            &&& {
                ||| exists|j: int|
                    0 <= j < lines.len() && (#[trigger] lines[j]).text == note.message
                        && contains_text(lower(note.message), "error"@) && forall|m: int|
                        j < m < lines.len() ==> !contains_text(
                            lower((#[trigger] lines[m]).text),
                            "error"@,
                        )
                ||| note.message == "Step concluded with failure."@ && forall|m: int|
                    0 <= m < lines.len() ==> !contains_text(
                        lower((#[trigger] lines[m]).text),
                        "error"@,
                    )
            }
        }
    }
}

proof fn lemma_last_error_text(lines: Seq<LineView>)
    ensures
        match last_error_text(lines) {
            Some(text) => exists|j: int|
                0 <= j < lines.len() && (#[trigger] lines[j]).text == text && contains_text(
                    lower(text),
                    "error"@,
                ) && forall|m: int|
                    j < m < lines.len() ==> !contains_text(
                        lower((#[trigger] lines[m]).text),
                        "error"@,
                    ),
            None => forall|m: int|
                0 <= m < lines.len() ==> !contains_text(
                    lower((#[trigger] lines[m]).text),
                    "error"@,
                ),
        },
    decreases lines.len(),
{
    if lines.len() > 0 {
        let front = lines.drop_last();
        lemma_last_error_text(front);
        if contains_text(lower(lines.last().text), "error"@) {
            assert(lines[lines.len() - 1].text == lines.last().text);
        } else if last_error_text(front) is Some {
            let text = last_error_text(front)->0;
            let j = choose|j: int|
                0 <= j < front.len() && (#[trigger] front[j]).text == text && forall|m: int|
                    j < m < front.len() ==> !contains_text(
                        lower((#[trigger] front[m]).text),
                        "error"@,
                    );
            assert(lines[j].text == text);
            assert forall|m: int| j < m < lines.len() implies !contains_text(
                lower((#[trigger] lines[m]).text),
                "error"@,
            ) by {
                if m < front.len() {
                    assert(front[m] == lines[m]);
                }
            }
        } else {
            assert forall|m: int| 0 <= m < lines.len() implies !contains_text(
                lower((#[trigger] lines[m]).text),
                "error"@,
            ) by {
                if m < front.len() {
                    assert(front[m] == lines[m]);
                }
            }
        }
    }
}

proof fn lemma_notes_of_lines(notes: Notes, step: StepView, lines: Seq<LineView>, k: int)
    requires
        notes.all.len() <= k < note_lines(notes, step, lines).all.len(),
    ensures
        ({
            let note = note_lines(notes, step, lines).all[k];
            &&& note.step_number == step.number
            &&& note.step_name == step.name
            &&& note.level == LogLevel::Error || note.level == LogLevel::Warning
            &&& exists|j: int|
                0 <= j < lines.len() && (#[trigger] lines[j]).level == note.level && lines[j].text
                    == note.message
        }),
    decreases lines.len(),
{
    if lines.len() > 0 {
        let before = note_lines(notes, step, lines.drop_last());
        let after = note_lines(notes, step, lines);
        if k < before.all.len() {
            lemma_notes_of_lines(notes, step, lines.drop_last(), k);
            let note = before.all[k];
            assert(after.all[k] == note);
            let j = choose|j: int|
                0 <= j < lines.drop_last().len() && (#[trigger] lines.drop_last()[j]).level
                    == note.level && lines.drop_last()[j].text == note.message;
            assert(lines[j] == lines.drop_last()[j]);
        } else {
            assert(lines[lines.len() - 1] == lines.last());
        }
    }
}

/// No line's annotation is made twice: of the annotations that come from lines, no two
/// agree in level, step number and message.
pub proof fn annotations_of_lines_are_distinct(
    steps: Seq<StepView>,
    lines: Seq<Seq<LineView>>,
    n: int,
)
    ensures
        distinct_notes(note_steps(steps, lines, n).from_lines),
    decreases n,
{
    if n > 0 {
        annotations_of_lines_are_distinct(steps, lines, n - 1);
        lemma_distinct_notes(note_steps(steps, lines, n - 1), steps[n - 1], lines[n - 1]);
    }
}

/// No two annotations agree in level, step number and message.
pub open spec fn distinct_notes(list: Seq<AnnotationView>) -> bool {
    forall|a: int, b: int|
        0 <= a < b < list.len() ==> !((#[trigger] list[a]).level == (#[trigger] list[b]).level
            && list[a].step_number == list[b].step_number && list[a].message == list[b].message)
}

proof fn lemma_distinct_notes(notes: Notes, step: StepView, lines: Seq<LineView>)
    requires
        distinct_notes(notes.from_lines),
    ensures
        distinct_notes(note_lines(notes, step, lines).from_lines),
    decreases lines.len(),
{
    if lines.len() > 0 {
        lemma_distinct_notes(notes, step, lines.drop_last());
    }
}

/// A log shows all that its job printed: as many lines as were cleaned, under as many
/// steps as the job has, or one where it has none.
pub proof fn a_log_shows_all_its_lines(
    log: ParsedJobLog,
    physical: Seq<Seq<char>>,
    metadata: Seq<StepView>,
    local: bool,
)
    requires
        log.shows(
            in_time_order(kept_lines(physical, local)),
            steps_shown(metadata),
            times_of(steps_shown(metadata)),
        ),
    ensures
        log.line_count == kept_lines(physical, local).len(),
        log.steps@.len() == if metadata.len() == 0 {
            1
        } else {
            metadata.len()
        },
        forall|i: int|
            0 <= i < metadata.len() ==> (#[trigger] log.steps@[i]).number == metadata[i].number
                && log.steps@[i].name@ == metadata[i].name,
        metadata.len() == 0 ==> log.steps@[0].number == 1 && log.steps@[0].name@ == "Job output"@
            && log.steps@[0].conclusion is None,
        forall|i: int|
            0 <= i < log.steps@.len() ==> line_views(
                (#[trigger] log.steps@[i]).lines@,
            ).to_multiset() == in_time_order(kept_lines(physical, local)).filter(
                |line: LineView|
                    destination(steps_shown(metadata), times_of(steps_shown(metadata)), line) == i,
            ).to_multiset(),
        annotation_views(log.annotations@) == note_steps(
            steps_shown(metadata),
            all_step_lines(
                in_time_order(kept_lines(physical, local)),
                steps_shown(metadata),
                times_of(steps_shown(metadata)),
            ),
            steps_shown(metadata).len() as int,
        ).all,
{
    let (lines, steps) = (in_time_order(kept_lines(physical, local)), steps_shown(metadata));
    let times = times_of(steps);
    if metadata.len() == 0 {
        assert(log.steps@[0].step() == only_step());
    }
    assert forall|i: int| 0 <= i < log.steps@.len() implies line_views(
        (#[trigger] log.steps@[i]).lines@,
    ).to_multiset() == lines.filter(
        |line: LineView| destination(steps, times, line) == i,
    ).to_multiset() by {
        each_step_shows_its_own_lines(lines, steps, times, i);
        assert(all_step_lines(lines, steps, times)[i] == step_lines(lines, steps, times, i));
        let own = |line: LineView| destination(steps_shown(metadata), times_of(steps_shown(metadata)), line)
            == i;
        assert(lines.filter(own) == lines.filter(
            |line: LineView| destination(steps, times, line) == i,
        ));
    }
    time_order_is_a_sorted_permutation(kept_lines(physical, local));
    assert forall|i: int| 0 <= i < metadata.len() implies (#[trigger] log.steps@[i]).number
        == metadata[i].number && log.steps@[i].name@ == metadata[i].name by {
        assert(log.steps@[i].step() == metadata[i]);
    }
}

/// A step started and was completed at the instants that its description names.
pub proof fn steps_have_the_times_of_their_dates(steps: Seq<StepView>, i: int)
    requires
        0 <= i < steps.len(),
    ensures
        times_of(steps).len() == steps.len(),
        times_of(steps)[i].started == date_millis(steps[i].started_at),
        times_of(steps)[i].completed == date_millis(steps[i].completed_at),
{
}

}
