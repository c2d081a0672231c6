//! The structured log of a workflow job: console lines cleaned, put in order of
//! time, and set under the steps that printed them, with annotations.
use vstd::prelude::*;

use crate::clock::{date_millis, iso_optional, iso_text};
use crate::console::{
    classify_console_line, command_line, commands_name_their_levels, console_class,
    control_sequences_are_taken_out, leading_run, plain_lines_are_output,
    plain_text_is_not_stripped, split_log_timestamp, stamp_candidate, stamp_split,
    strip_ansi_sequences, strip_byte_order_mark, strip_carriage_returns, without_ansi,
    without_byte_order_mark, without_carriage_returns, LogLevel,
};
use crate::numbers::smaller;
use crate::search::{
    blank, contains, contains_text, is_blank, lemma_first_position, lemma_prefix_occurs, lines,
    lines_of, matches_at, occurs_at, starts_with, trim_end, trim_end_text,
};
use crate::text::{chars_of, copy_option, same, string_range, text_option, texts, whitespace};

verus! {

// ---------------------------------------------------------------------------
// Lines

/// A line of the console as it is shown.
#[derive(Debug)]
pub struct CleanLogLine {
    pub timestamp: Option<String>,
    pub timestamp_millis: Option<i64>,
    pub text: String,
    pub level: LogLevel,
}

/// The model of a line.
pub struct LineView {
    pub timestamp: Option<Seq<char>>,
    pub millis: Option<i64>,
    pub text: Seq<char>,
    pub level: LogLevel,
}

impl View for CleanLogLine {
    type V = LineView;

    open spec fn view(&self) -> LineView {
        LineView {
            timestamp: text_option(self.timestamp),
            millis: self.timestamp_millis,
            text: self.text@,
            level: self.level,
        }
    }
}

/// The models of a list of lines.
pub open spec fn line_views(list: Seq<CleanLogLine>) -> Seq<LineView> {
    list.map_values(|line: CleanLogLine| line@)
}

/// The line with a time stamp, a level and a text.
pub open spec fn shown_line(millis: Option<i64>, level: LogLevel, text: Seq<char>) -> LineView {
    LineView { timestamp: iso_text(millis), millis, text, level }
}

impl CleanLogLine {
    /// A copy of a line.
    pub fn copy(&self) -> (r: CleanLogLine)
        ensures
            r@ == self@,
    {
        CleanLogLine {
            timestamp: copy_option(&self.timestamp),
            timestamp_millis: self.timestamp_millis,
            text: self.text.clone(),
            level: self.level,
        }
    }
}

/// What becomes of one line of the raw log: the line that is shown, if any, and
/// the number of diagnostic outputs that were kept back.
pub struct Outcome {
    pub line: Option<LineView>,
    pub hidden: nat,
}

/// The runner's or the worker's own diagnostics begin at position `i`.
pub open spec fn marker_at(s: Seq<char>, i: int) -> bool {
    occurs_at(s, "[WORKER "@, i) || occurs_at(s, "[RUNNER "@, i)
}

/// The first position from `i` on at which diagnostics begin, or the length of
/// the text where there is none.
pub open spec fn marker_from(s: Seq<char>, i: int) -> int
    decreases s.len() - i,
{
    if i >= s.len() {
        s.len() as int
    } else if marker_at(s, i) {
        i
    } else {
        marker_from(s, i + 1)
    }
}

/// What becomes of the text of a line behind its time stamp.
pub open spec fn body_outcome(body: Seq<char>, millis: Option<i64>) -> Outcome {
    let at = marker_from(body, 0);
    if "[RUNNER "@.is_prefix_of(body) || "[WORKER "@.is_prefix_of(body) {
        Outcome { line: None, hidden: 1 }
    } else {
        let cut: nat = if at < body.len() {
            1
        } else {
            0
        };
        let shown = if at < body.len() {
            trim_end_text(body.take(at))
        } else {
            body
        };
        match console_class(shown) {
            None => Outcome { line: None, hidden: cut + 1 },
            Some(class) => if class.1.len() == 0 && class.0 != LogLevel::Output {
                Outcome { line: None, hidden: cut }
            } else {
                Outcome { line: Some(shown_line(millis, class.0, class.1)), hidden: cut }
            },
        }
    }
}

/// What becomes of a line of the raw log. A line of a local log carries the
/// time stamp of the runner host and, behind it, that of the job's own output;
/// one without the second is not output of the job.
pub open spec fn line_outcome(physical: Seq<char>, local: bool) -> Outcome {
    let plain = without_ansi(without_carriage_returns(physical));
    let outer = stamp_split(plain);
    let body = without_byte_order_mark(outer.1);
    if local {
        let inner = stamp_split(body);
        if inner.0 is None {
            Outcome {
                line: None,
                hidden: if blank(body) {
                    0
                } else {
                    1
                },
            }
        } else {
            body_outcome(inner.1, inner.0)
        }
    } else {
        body_outcome(body, outer.0)
    }
}

/// The lines that are shown of a raw log, in the order in which they stand in
/// it, each only once.
pub open spec fn kept_lines(physical: Seq<Seq<char>>, local: bool) -> Seq<LineView>
    decreases physical.len(),
{
    if physical.len() == 0 {
        Seq::empty()
    } else {
        let before = kept_lines(physical.drop_last(), local);
        match line_outcome(physical.last(), local).line {
            Some(line) => if before.contains(line) {
                before
            } else {
                before.push(line)
            },
            None => before,
        }
    }
}

/// The number of diagnostic outputs of a raw log that were kept back.
pub open spec fn hidden_lines(physical: Seq<Seq<char>>, local: bool) -> nat
    decreases physical.len(),
{
    if physical.len() == 0 {
        0
    } else {
        hidden_lines(physical.drop_last(), local) + line_outcome(physical.last(), local).hidden
    }
}

/// The result of cleaning one line.
pub struct CleanedLine {
    pub line: Option<CleanLogLine>,
    pub hidden: u8,
}

impl View for CleanedLine {
    type V = Outcome;

    open spec fn view(&self) -> Outcome {
        Outcome {
            line: match self.line {
                Some(line) => Some(line@),
                None => None,
            },
            hidden: self.hidden as nat,
        }
    }
}

/// Cleans the text of a line behind its time stamp.
pub fn clean_body(body: &str, millis: Option<i64>) -> (r: CleanedLine)
    ensures
        r@ == body_outcome(body@, millis),
        r.hidden <= 2,
{
    if starts_with(body, "[RUNNER ") || starts_with(body, "[WORKER ") {
        return CleanedLine { line: None, hidden: 1 };
    }
    let a: Vec<char> = chars_of(body);
    let worker: Vec<char> = chars_of("[WORKER ");
    let runner: Vec<char> = chars_of("[RUNNER ");
    let mut at: usize = 0;
    while at < a.len() && !matches_at(a.as_slice(), worker.as_slice(), at) && !matches_at(
        a.as_slice(),
        runner.as_slice(),
        at,
    )
        invariant
            at <= a@.len(),
            a@ == body@,
            worker@ == "[WORKER "@,
            runner@ == "[RUNNER "@,
            marker_from(body@, at as int) == marker_from(body@, 0),
        decreases a@.len() - at,
    {
        at += 1;
    }
    let cut: bool = at < a.len();
    let shown: String = if cut {
        let head: String = string_range(a.as_slice(), 0, at);
        proof {
            assert(head@ =~= body@.take(at as int));
        }
        trim_end(head.as_str())
    } else {
        body.to_owned()
    };
    let hidden: u8 = if cut {
        1
    } else {
        0
    };
    match classify_console_line(shown.as_str()) {
        None => CleanedLine { line: None, hidden: hidden + 1 },
        Some(class) => if class.1.as_str().is_empty() && class.0 != LogLevel::Output {
            CleanedLine { line: None, hidden }
        } else {
            CleanedLine {
                line: Some(
                    CleanLogLine {
                        timestamp: iso_optional(millis),
                        timestamp_millis: millis,
                        text: class.1,
                        level: class.0,
                    },
                ),
                hidden,
            }
        },
    }
}

/// Cleans one line of the raw log.
pub fn clean_line(physical: &str, local: bool) -> (r: CleanedLine)
    ensures
        r@ == line_outcome(physical@, local),
        r.hidden <= 2,
{
    let plain: String = strip_ansi_sequences(strip_carriage_returns(physical).as_str());
    let outer: (Option<i64>, String) = split_log_timestamp(plain.as_str());
    let body: String = strip_byte_order_mark(outer.1.as_str());
    if local {
        let inner: (Option<i64>, String) = split_log_timestamp(body.as_str());
        if inner.0.is_none() {
            CleanedLine {
                line: None,
                hidden: if is_blank(body.as_str()) {
                    0
                } else {
                    1
                },
            }
        } else {
            clean_body(inner.1.as_str(), inner.0)
        }
    } else {
        clean_body(body.as_str(), outer.0)
    }
}

/// Whether two optional strings hold the same characters.
pub fn same_option(a: &Option<String>, b: &Option<String>) -> (r: bool)
    ensures
        r == (text_option(*a) == text_option(*b)),
{
    match (a, b) {
        (Some(x), Some(y)) => same(x.as_str(), y.as_str()),
        (None, None) => true,
        _ => false,
    }
}

/// Whether two lines are equal.
fn same_line(a: &CleanLogLine, b: &CleanLogLine) -> (r: bool)
    ensures
        r == (a@ == b@),
{
    a.timestamp_millis == b.timestamp_millis && a.level == b.level && same_option(
        &a.timestamp,
        &b.timestamp,
    ) && same(a.text.as_str(), b.text.as_str())
}

/// Whether a line is one of a list.
fn contains_line(list: &Vec<CleanLogLine>, line: &CleanLogLine) -> (r: bool)
    ensures
        r == line_views(list@).contains(line@),
{
    let mut i: usize = 0;
    while i < list.len()
        invariant
            i <= list@.len(),
            forall|k: int| 0 <= k < i ==> #[trigger] line_views(list@)[k] != line@,
        decreases list@.len() - i,
    {
        if same_line(&list[i], line) {
            proof {
                assert(line_views(list@)[i as int] == line@);
            }
            return true;
        }
        i += 1;
    }
    false
}

// ---------------------------------------------------------------------------
// Order of time

/// The key by which lines are ordered: lines without a time stamp come first.
pub open spec fn time_key(line: LineView) -> i64 {
    match line.millis {
        Some(millis) => millis,
        None => i64::MIN,
    }
}

/// A list in order of time with one more line, behind those of the same time.
pub open spec fn with_line(list: Seq<LineView>, line: LineView) -> Seq<LineView>
    decreases list.len(),
{
    if list.len() == 0 || time_key(list.last()) <= time_key(line) {
        list.push(line)
    } else {
        with_line(list.drop_last(), line).push(list.last())
    }
}

/// The lines in order of time; those of one time keep their order.
pub open spec fn in_time_order(list: Seq<LineView>) -> Seq<LineView>
    decreases list.len(),
{
    if list.len() == 0 {
        list
    } else {
        with_line(in_time_order(list.drop_last()), list.last())
    }
}

/// No line has a later time than one behind it.
pub open spec fn time_ordered(list: Seq<LineView>) -> bool {
    forall|i: int, j: int|
        0 <= i <= j < list.len() ==> time_key(#[trigger] list[i]) <= time_key(#[trigger] list[j])
}

proof fn lemma_with_line(list: Seq<LineView>, line: LineView)
    requires
        time_ordered(list),
    ensures
        time_ordered(with_line(list, line)),
        with_line(list, line).len() == list.len() + 1,
        with_line(list, line).to_multiset() == list.to_multiset().insert(line),
        forall|k: int|
            0 <= k < with_line(list, line).len() ==> with_line(list, line)[k] == line
                || list.contains(#[trigger] with_line(list, line)[k]),
    decreases list.len(),
{
    broadcast use vstd::seq_lib::group_to_multiset_ensures;

    let result = with_line(list, line);
    if list.len() == 0 || time_key(list.last()) <= time_key(line) {
        assert forall|i: int, j: int| 0 <= i <= j < result.len() implies time_key(
            #[trigger] result[i],
        ) <= time_key(#[trigger] result[j]) by {
            if j == list.len() && i < j {
                assert(time_key(list[i]) <= time_key(list.last()));
            }
        }
        assert forall|k: int| 0 <= k < result.len() implies result[k] == line || list.contains(
            #[trigger] result[k],
        ) by {
            if k < list.len() {
                assert(result[k] == list[k]);
            }
        }
    } else {
        let front = list.drop_last();
        let inner = with_line(front, line);
        assert(time_ordered(front)) by {
            assert forall|i: int, j: int| 0 <= i <= j < front.len() implies time_key(
                #[trigger] front[i],
            ) <= time_key(#[trigger] front[j]) by {
                assert(time_key(list[i]) <= time_key(list[j]));
            }
        }
        lemma_with_line(front, line);
        assert(list =~= front.push(list.last()));
        assert(result.to_multiset() =~= list.to_multiset().insert(line));
        assert forall|k: int| 0 <= k < result.len() implies result[k] == line || list.contains(
            #[trigger] result[k],
        ) by {
            if k < inner.len() {
                assert(result[k] == inner[k]);
                if inner[k] != line {
                    assert(front.contains(inner[k]));
                    let m = choose|m: int| 0 <= m < front.len() && front[m] == inner[k];
                    assert(list[m] == inner[k]);
                }
            } else {
                assert(list[list.len() - 1] == result[k]);
            }
        }
        assert forall|i: int, j: int| 0 <= i <= j < result.len() implies time_key(
            #[trigger] result[i],
        ) <= time_key(#[trigger] result[j]) by {
            if j == inner.len() && i < j {
                assert(result[i] == inner[i]);
                if inner[i] != line {
                    assert(front.contains(inner[i]));
                    let m = choose|m: int| 0 <= m < front.len() && front[m] == inner[i];
                    assert(time_key(list[m]) <= time_key(list[list.len() - 1]));
                }
            } else if i < inner.len() && j < inner.len() {
                assert(time_key(inner[i]) <= time_key(inner[j]));
            }
        }
    }
}

/// Ordering by time loses no line, adds none, and leaves no line before one of
/// an earlier time.
pub proof fn time_order_is_a_sorted_permutation(list: Seq<LineView>)
    ensures
        time_ordered(in_time_order(list)),
        in_time_order(list).to_multiset() == list.to_multiset(),
        in_time_order(list).len() == list.len(),
    decreases list.len(),
{
    broadcast use vstd::seq_lib::group_to_multiset_ensures;

    if list.len() > 0 {
        time_order_is_a_sorted_permutation(list.drop_last());
        lemma_with_line(in_time_order(list.drop_last()), list.last());
        assert(list =~= list.drop_last().push(list.last()));
    }
}

/// Lines that already stand in order of time keep their places.
pub proof fn ordered_lines_keep_their_places(list: Seq<LineView>)
    requires
        time_ordered(list),
    ensures
        in_time_order(list) == list,
    decreases list.len(),
{
    if list.len() > 0 {
        let front = list.drop_last();
        assert forall|i: int, j: int| 0 <= i <= j < front.len() implies time_key(
            #[trigger] front[i],
        ) <= time_key(#[trigger] front[j]) by {
            assert(time_key(list[i]) <= time_key(list[j]));
        }
        ordered_lines_keep_their_places(front);
        if front.len() > 0 {
            assert(time_key(list[list.len() - 2]) <= time_key(list[list.len() - 1]));
        }
        assert(front.push(list.last()) =~= list);
    }
}

fn key_of(line: &CleanLogLine) -> (r: i64)
    ensures
        r == time_key(line@),
{
    match line.timestamp_millis {
        Some(millis) => millis,
        None => i64::MIN,
    }
}

/// Puts a line at its place in a list that is in order of time.
fn insert_line(list: &mut Vec<CleanLogLine>, line: CleanLogLine)
    ensures
        line_views(final(list)@) == with_line(line_views(old(list)@), line@),
{
    let ghost before = line_views(list@);
    let length: usize = list.len();
    let mut at: usize = length;
    let ghost suffix = Seq::<LineView>::empty();
    proof {
        assert(before.take(length as int) =~= before);
        assert(with_line(before.take(at as int), line@) + suffix =~= with_line(before, line@));
    }
    while at > 0 && key_of(&list[at - 1]) > key_of(&line)
        invariant
            at <= length,
            length == list@.len(),
            before == line_views(list@),
            suffix == before.skip(at as int),
            with_line(before.take(at as int), line@) + suffix == with_line(before, line@),
        decreases at,
    {
        proof {
            let here = before.take(at as int);
            assert(here.last() == before[at - 1]);
            assert(here.drop_last() =~= before.take(at - 1));
            let longer = before.skip(at - 1);
            assert(longer =~= seq![before[at - 1]] + suffix);
            assert(with_line(before.take(at - 1), line@) + longer =~= with_line(here, line@)
                + suffix);
            suffix = longer;
        }
        at -= 1;
    }
    list.insert(at, line);
    proof {
        let here = before.take(at as int);
        if at > 0 {
            assert(here.last() == before[at - 1]);
        }
        assert(with_line(here, line@) == here.push(line@));
        assert(line_views(list@) =~= here.push(line@) + suffix);
    }
}

/// Puts lines in order of time; those of one time keep their order.
pub fn sort_lines(list: Vec<CleanLogLine>) -> (r: Vec<CleanLogLine>)
    ensures
        line_views(r@) == in_time_order(line_views(list@)),
        r@.len() == list@.len(),
{
    let ghost all = line_views(list@);
    let mut out: Vec<CleanLogLine> = Vec::new();
    for line in it: list
        invariant
            all == line_views(it.seq()),
            line_views(out@) == in_time_order(all.take(it.index())),
    {
        let ghost view = line@;
        insert_line(&mut out, line);
        proof {
            let next = all.take(it.index() + 1);
            assert(next.drop_last() =~= all.take(it.index()));
            assert(next.last() == view);
        }
    }
    proof {
        assert(all.take(all.len() as int) =~= all);
        time_order_is_a_sorted_permutation(all);
        assert(line_views(out@).len() == all.len());
    }
    out
}

/// Cleans a raw log: the lines that are shown, in order of time, and the number
/// of diagnostic outputs that were kept back.
pub fn clean_job_lines(raw: &str, local: bool) -> (r: (Vec<CleanLogLine>, usize))
    ensures
        line_views(r.0@) == in_time_order(kept_lines(lines_of(raw@), local)),
        r.1 == smaller(hidden_lines(lines_of(raw@), local) as int, usize::MAX as int),
{
    let physical: Vec<String> = lines(raw);
    let ghost all = lines_of(raw@);
    let mut out: Vec<CleanLogLine> = Vec::new();
    let mut hidden: usize = 0;
    let mut i: usize = 0;
    while i < physical.len()
        invariant
            i <= physical@.len(),
            all == texts(physical@),
            line_views(out@) == kept_lines(all.take(i as int), local),
            hidden == smaller(hidden_lines(all.take(i as int), local) as int, usize::MAX as int),
        decreases physical@.len() - i,
    {
        let ghost before = line_views(out@);
        proof {
            let next = all.take(i + 1);
            assert(next.drop_last() =~= all.take(i as int));
            assert(next.last() == physical@[i as int]@);
        }
        let cleaned: CleanedLine = clean_line(physical[i].as_str(), local);
        hidden = hidden.saturating_add(cleaned.hidden as usize);
        if let Some(line) = cleaned.line {
            if !contains_line(&out, &line) {
                out.push(line);
                proof {
                    assert(line_views(out@) =~= before.push(line@));
                }
            }
        }
        i += 1;
    }
    proof {
        assert(all.take(all.len() as int) =~= all);
    }
    (sort_lines(out), hidden)
}

/// No line is shown twice.
pub proof fn shown_lines_are_distinct(physical: Seq<Seq<char>>, local: bool)
    ensures
        kept_lines(physical, local).no_duplicates(),
    decreases physical.len(),
{
    if physical.len() > 0 {
        shown_lines_are_distinct(physical.drop_last(), local);
    }
}

// ---------------------------------------------------------------------------
// What is shown

/// No output is lost in cleaning, and nothing is made up: each line of the raw log
/// that has something to show is among the lines that are shown, and each line that is
/// shown was printed.
pub proof fn no_output_is_lost(physical: Seq<Seq<char>>, local: bool)
    ensures
        forall|i: int|
            0 <= i < physical.len() && line_outcome(#[trigger] physical[i], local).line is Some
                ==> in_time_order(kept_lines(physical, local)).contains(
                line_outcome(physical[i], local).line->0,
            ),
        forall|k: int|
            0 <= k < in_time_order(kept_lines(physical, local)).len() ==> exists|i: int|
                0 <= i < physical.len() && line_outcome(#[trigger] physical[i], local).line == Some(
                    #[trigger] in_time_order(kept_lines(physical, local))[k],
                ),
{
    broadcast use vstd::seq_lib::group_to_multiset_ensures;

    let kept = kept_lines(physical, local);
    let shown = in_time_order(kept);
    time_order_is_a_sorted_permutation(kept);
    lemma_kept(physical, local);
    assert forall|i: int|
        0 <= i < physical.len() && line_outcome(#[trigger] physical[i], local).line
            is Some implies shown.contains(line_outcome(physical[i], local).line->0) by {
        let line = line_outcome(physical[i], local).line->0;
        assert(kept.contains(line));
        assert(kept.to_multiset().count(line) > 0);
        assert(shown.to_multiset().count(line) > 0);
    }
    assert forall|k: int| 0 <= k < shown.len() implies exists|i: int|
        0 <= i < physical.len() && line_outcome(#[trigger] physical[i], local).line == Some(
            #[trigger] shown[k],
        ) by {
        assert(shown.contains(shown[k]));
        assert(shown.to_multiset().count(shown[k]) > 0);
        assert(kept.to_multiset().count(shown[k]) > 0);
        let m = choose|m: int| 0 <= m < kept.len() && kept[m] == shown[k];
        assert(kept[m] == shown[k]);
    }
}

proof fn lemma_kept(physical: Seq<Seq<char>>, local: bool)
    ensures
        forall|i: int|
            0 <= i < physical.len() && line_outcome(#[trigger] physical[i], local).line is Some
                ==> kept_lines(physical, local).contains(line_outcome(physical[i], local).line->0),
        forall|k: int|
            0 <= k < kept_lines(physical, local).len() ==> exists|i: int|
                0 <= i < physical.len() && line_outcome(#[trigger] physical[i], local).line == Some(
                    #[trigger] kept_lines(physical, local)[k],
                ),
    decreases physical.len(),
{
    if physical.len() > 0 {
        let front = physical.drop_last();
        let before = kept_lines(front, local);
        let kept = kept_lines(physical, local);
        lemma_kept(front, local);
        assert forall|i: int|
            0 <= i < physical.len() && line_outcome(#[trigger] physical[i], local).line
                is Some implies kept.contains(line_outcome(physical[i], local).line->0) by {
            let line = line_outcome(physical[i], local).line->0;
            if i < front.len() {
                assert(front[i] == physical[i]);
                let m = choose|m: int| 0 <= m < before.len() && before[m] == line;
                assert(kept[m] == line);
            } else if !before.contains(line) {
                assert(kept[before.len() as int] == line);
            }
        }
        assert forall|k: int| 0 <= k < kept.len() implies exists|i: int|
            0 <= i < physical.len() && line_outcome(#[trigger] physical[i], local).line == Some(
                #[trigger] kept[k],
            ) by {
            if k < before.len() {
                let i = choose|i: int|
                    0 <= i < front.len() && line_outcome(#[trigger] front[i], local).line == Some(
                        before[k],
                    );
                assert(physical[i] == front[i]);
            } else {
                assert(line_outcome(physical[physical.len() - 1], local).line == Some(kept[k]));
            }
        }
    }
}

/// What a log shows of its beginning stands in front of what it shows beyond that, and
/// what it keeps back of two parts is what it keeps back of each.
pub proof fn logs_are_cleaned_line_by_line(
    first: Seq<Seq<char>>,
    second: Seq<Seq<char>>,
    local: bool,
)
    ensures
        kept_lines(first, local).is_prefix_of(kept_lines(first + second, local)),
        hidden_lines(first + second, local) == hidden_lines(first, local) + hidden_lines(
            second,
            local,
        ),
    decreases second.len(),
{
    if second.len() == 0 {
        assert(first + second =~= first);
    } else {
        logs_are_cleaned_line_by_line(first, second.drop_last(), local);
        assert((first + second).drop_last() =~= first + second.drop_last());
        assert((first + second).last() == second.last());
    }
}

/// The lines of one time.
pub open spec fn of_time(list: Seq<LineView>, time: i64) -> Seq<LineView> {
    list.filter(|line: LineView| line.millis == Some(time))
}

/// The lines without a time.
pub open spec fn untimed(list: Seq<LineView>) -> Seq<LineView> {
    list.filter(|line: LineView| line.millis is None)
}

proof fn lemma_with_line_filter(
    list: Seq<LineView>,
    line: LineView,
    chosen: spec_fn(LineView) -> bool,
)
    requires
        forall|a: LineView, b: LineView|
            #![trigger chosen(a), chosen(b)]
            chosen(a) && chosen(b) ==> time_key(a) == time_key(b),
    ensures
        with_line(list, line).filter(chosen) == list.push(line).filter(chosen),
    decreases list.len(),
{
    reveal(Seq::filter);
    let whole = list.push(line);
    assert(whole.drop_last() =~= list);
    if list.len() == 0 || time_key(list.last()) <= time_key(line) {
    } else {
        let front = list.drop_last();
        let result = with_line(list, line);
        lemma_with_line_filter(front, line, chosen);
        assert(front.push(line).drop_last() =~= front);
        assert(result.drop_last() =~= with_line(front, line));
        assert(result.last() == list.last());
        assert(!(chosen(list.last()) && chosen(line)));
        assert(list.filter(chosen) == if chosen(list.last()) {
            front.filter(chosen).push(list.last())
        } else {
            front.filter(chosen)
        });
        assert(result.filter(chosen) =~= whole.filter(chosen));
    }
}

proof fn lemma_time_order_filter(list: Seq<LineView>, chosen: spec_fn(LineView) -> bool)
    requires
        forall|a: LineView, b: LineView|
            #![trigger chosen(a), chosen(b)]
            chosen(a) && chosen(b) ==> time_key(a) == time_key(b),
    ensures
        in_time_order(list).filter(chosen) == list.filter(chosen),
    decreases list.len(),
{
    if list.len() > 0 {
        let front = list.drop_last();
        let sorted = in_time_order(front);
        lemma_time_order_filter(front, chosen);
        lemma_with_line_filter(sorted, list.last(), chosen);
        assert(sorted.push(list.last()).drop_last() =~= sorted);
        reveal(Seq::filter);
    }
}

/// Lines that were printed at one time keep the order in which they were printed, and
/// so do lines without a time.
pub proof fn lines_of_one_time_keep_their_order(list: Seq<LineView>, time: i64)
    ensures
        of_time(in_time_order(list), time) == of_time(list, time),
        untimed(in_time_order(list)) == untimed(list),
{
    lemma_time_order_filter(list, |line: LineView| line.millis == Some(time));
    lemma_time_order_filter(list, |line: LineView| line.millis is None);
}

/// Of two lines that are shown, the one with the earlier time comes first, and lines
/// without a time come before all that were not printed at the beginning of time.
pub proof fn shown_lines_stand_in_order_of_time(list: Seq<LineView>, i: int, j: int)
    requires
        0 <= i < j < list.len(),
    ensures
        in_time_order(list)[j].millis is Some && in_time_order(list)[i].millis is Some
            ==> in_time_order(list)[i].millis->0 <= in_time_order(list)[j].millis->0,
        in_time_order(list)[j].millis is None && in_time_order(list)[i].millis is Some
            ==> in_time_order(list)[i].millis->0 == i64::MIN,
{
    time_order_is_a_sorted_permutation(list);
    let sorted = in_time_order(list);
    assert(time_key(sorted[i]) <= time_key(sorted[j]));
}

/// A text that is shown as it was printed: it has no control sequences, nothing of the
/// runner's own diagnostics, no workflow command, and no space behind it.
pub open spec fn ordinary(text: Seq<char>) -> bool {
    &&& forall|i: int| 0 <= i < text.len() ==> #[trigger] text[i] != '\u{1b}'
    &&& !contains_text(text, "[WORKER "@)
    &&& !contains_text(text, "[RUNNER "@)
    &&& !"##["@.is_prefix_of(text)
    &&& text.len() > 0 ==> !whitespace(text.last()) && text[0] != '\u{feff}'
}

/// A text that can stand in front of a line as its time stamp.
pub open spec fn stamp_text(stamp: Seq<char>) -> bool {
    &&& stamp.len() > 0
    &&& stamp[0] != '\u{feff}'
    &&& forall|i: int|
        0 <= i < stamp.len() ==> #[trigger] stamp[i] != ' ' && stamp[i] != '\u{1b}'
}

proof fn lemma_no_marker(body: Seq<char>, i: int)
    requires
        0 <= i <= body.len(),
        !contains_text(body, "[WORKER "@),
        !contains_text(body, "[RUNNER "@),
    ensures
        marker_from(body, i) == body.len(),
    decreases body.len() - i,
{
    if i < body.len() {
        assert(!occurs_at(body, "[WORKER "@, i));
        assert(!occurs_at(body, "[RUNNER "@, i));
        lemma_no_marker(body, i + 1);
    }
}

proof fn lemma_stamp(stamp: Seq<char>, rest: Seq<char>)
    requires
        stamp_text(stamp),
    ensures
        stamp_candidate(stamp + " "@ + rest) == Some(stamp),
        date_millis(Some(stamp)) is Some ==> stamp_split(stamp + " "@ + rest) == (
            date_millis(Some(stamp)),
            rest,
        ),
        date_millis(Some(stamp)) is None ==> stamp_split(stamp + " "@ + rest) == (
            None::<i64>,
            stamp + " "@ + rest,
        ),
{
    reveal_strlit(" ");
    let line = stamp + " "@ + rest;
    assert(line[0] == stamp[0]);
    assert(leading_run(line, '\u{feff}') == 0);
    assert(without_byte_order_mark(line) =~= line);
    assert(line[stamp.len() as int] == ' ');
    assert forall|k: int| 0 <= k < stamp.len() implies line[k] != ' ' by {
        assert(line[k] == stamp[k]);
    }
    lemma_first_position(line, ' ', stamp.len() as int);
    assert(line.take(stamp.len() as int) =~= stamp);
    assert(line.skip(stamp.len() as int + 1) =~= rest);
}

proof fn lemma_ordinary(text: Seq<char>, millis: Option<i64>)
    requires
        ordinary(text),
    ensures
        without_byte_order_mark(text) == text,
        body_outcome(text, millis) == (Outcome {
            line: Some(
                LineView {
                    timestamp: iso_text(millis),
                    millis,
                    text,
                    level: LogLevel::Output,
                },
            ),
            hidden: 0,
        }),
{
    reveal_strlit("[WORKER ");
    reveal_strlit("[RUNNER ");
    reveal_strlit("##[");
    reveal_strlit("##[endgroup]");
    reveal_strlit("##[debug]");
    assert(leading_run(text, '\u{feff}') == 0);
    assert(text.skip(0) =~= text);
    lemma_no_marker(text, 0);
    if "[WORKER "@.is_prefix_of(text) {
        lemma_prefix_occurs(text, "[WORKER "@);
        assert(occurs_at(text, "[WORKER "@, 0));
    }
    if "[RUNNER "@.is_prefix_of(text) {
        lemma_prefix_occurs(text, "[RUNNER "@);
        assert(occurs_at(text, "[RUNNER "@, 0));
    }
    assert(trim_end_text(text) == text);
    plain_lines_are_output(text);
}

/// What a job prints is shown as it was printed, with the time at which it was printed:
/// in a log that comes from GitHub, which puts one time stamp in front of a line, and in
/// one that comes from the host, which puts another in front of that.
pub proof fn printed_text_is_shown(
    host_stamp: Seq<char>,
    stamp: Seq<char>,
    text: Seq<char>,
)
    requires
        stamp_text(host_stamp),
        stamp_text(stamp),
        date_millis(Some(host_stamp)) is Some,
        date_millis(Some(stamp)) is Some,
        ordinary(text),
    ensures
        ({
            let shown = Outcome {
                line: Some(
                    LineView {
                        timestamp: iso_text(date_millis(Some(stamp))),
                        millis: date_millis(Some(stamp)),
                        text,
                        level: LogLevel::Output,
                    },
                ),
                hidden: 0,
            };
            &&& line_outcome(stamp + " "@ + text, false) == shown
            &&& line_outcome(host_stamp + " "@ + (stamp + " "@ + text), true) == shown
        }),
{
    reveal_strlit(" ");
    let line = stamp + " "@ + text;
    let twice = host_stamp + " "@ + line;
    assert(!line.contains('\u{1b}')) by {
        assert forall|i: int| 0 <= i < line.len() implies line[i] != '\u{1b}' by {
            if i < stamp.len() {
                assert(line[i] == stamp[i]);
            } else if i > stamp.len() {
                assert(line[i] == text[i - stamp.len() - 1]);
            }
        }
    }
    assert(!twice.contains('\u{1b}')) by {
        assert forall|i: int| 0 <= i < twice.len() implies twice[i] != '\u{1b}' by {
            if i < host_stamp.len() {
                assert(twice[i] == host_stamp[i]);
            } else if i > host_stamp.len() {
                assert(twice[i] == line[i - host_stamp.len() - 1]);
                assert(line.contains(line[i - host_stamp.len() - 1]));
            }
        }
    }
    if text.len() > 0 {
        assert(line.last() == text.last());
    } else {
        assert(line.last() == ' ');
    }
    assert(twice.last() == line.last());
    assert(without_carriage_returns(line) == line);
    assert(without_carriage_returns(twice) == twice);
    plain_text_is_not_stripped(line);
    plain_text_is_not_stripped(twice);
    lemma_stamp(stamp, text);
    lemma_stamp(host_stamp, line);
    assert(line[0] == stamp[0]);
    assert(leading_run(line, '\u{feff}') == 0);
    assert(without_byte_order_mark(line) =~= line);
    lemma_ordinary(text, date_millis(Some(stamp)));
}

/// What a local log holds without a time stamp of the job's own is no output of the job:
/// it is not shown, and counts as one diagnostic output unless it is blank.
pub proof fn host_output_is_kept_back(host_stamp: Seq<char>, text: Seq<char>)
    requires
        stamp_text(host_stamp),
        date_millis(Some(host_stamp)) is Some,
        ordinary(text),
        date_millis(stamp_candidate(text)) is None,
    ensures
        line_outcome(host_stamp + " "@ + text, true).line is None,
        line_outcome(host_stamp + " "@ + text, true).hidden == if text.len() == 0 {
            0nat
        } else {
            1nat
        },
{
    reveal_strlit(" ");
    let line = host_stamp + " "@ + text;
    assert(!line.contains('\u{1b}')) by {
        assert forall|i: int| 0 <= i < line.len() implies line[i] != '\u{1b}' by {
            if i < host_stamp.len() {
                assert(line[i] == host_stamp[i]);
            } else if i > host_stamp.len() {
                assert(line[i] == text[i - host_stamp.len() - 1]);
            }
        }
    }
    if text.len() > 0 {
        assert(line.last() == text.last());
        assert(!blank(text)) by {
            assert(!whitespace(text[text.len() - 1]));
        }
    } else {
        assert(line.last() == ' ');
        assert(blank(text));
    }
    plain_text_is_not_stripped(line);
    lemma_stamp(host_stamp, text);
    lemma_ordinary(text, None);
}

/// The runner's own diagnostics are never shown: a line that begins with them is kept
/// back, and of a line in which they begin only what stands in front of them is shown.
pub proof fn diagnostics_are_kept_back(
    front: Seq<char>,
    mark: Seq<char>,
    rest: Seq<char>,
    millis: Option<i64>,
)
    requires
        ordinary(front),
        mark == "[RUNNER "@ || mark == "[WORKER "@,
    ensures
        ({
            let outcome = body_outcome(front + mark + rest, millis);
            &&& outcome.hidden == 1
            &&& outcome.line == if front.len() == 0 {
                None
            } else {
                Some(
                    LineView {
                        timestamp: iso_text(millis),
                        millis,
                        text: front,
                        level: LogLevel::Output,
                    },
                )
            }
        }),
{
    reveal_strlit("[WORKER ");
    reveal_strlit("[RUNNER ");
    let body = front + mark + rest;
    let n = front.len() as int;
    assert(body.subrange(n, n + mark.len()) =~= mark);
    assert(marker_at(body, n));
    lemma_prefix_occurs(body, "[WORKER "@);
    lemma_prefix_occurs(body, "[RUNNER "@);
    assert forall|i: int| 0 <= i < n implies !marker_at(body, i) by {
        assert(body[n] == '[');
        lemma_inside(front, body, "[WORKER "@, i);
        lemma_inside(front, body, "[RUNNER "@, i);
    }
    lemma_marker_found(body, 0, n);
    assert(body.take(n) =~= front);
    lemma_ordinary(front, millis);
    reveal_strlit("##[");
    reveal_strlit("##[endgroup]");
    reveal_strlit("##[debug]");
    plain_lines_are_output(front);
}

/// What begins in a text and has an opening bracket only in front ends in the text,
/// where such a bracket stands behind it.
proof fn lemma_inside(front: Seq<char>, body: Seq<char>, mark: Seq<char>, i: int)
    requires
        front.is_prefix_of(body),
        front.len() < body.len(),
        body[front.len() as int] == '[',
        0 <= i < front.len(),
        forall|k: int| 0 < k < mark.len() ==> #[trigger] mark[k] != '[',
        !contains_text(front, mark),
    ensures
        !occurs_at(body, mark, i),
{
    let n = front.len() as int;
    if !occurs_at(body, mark, i) {
    } else if i + mark.len() <= n {
        assert forall|k: int| 0 <= k < mark.len() implies front.subrange(i, i + mark.len())[k]
            == mark[k] by {
            assert(body.subrange(i, i + mark.len())[k] == mark[k]);
            assert(front[i + k] == body[i + k]);
        }
        assert(front.subrange(i, i + mark.len()) =~= mark);
        assert(occurs_at(front, mark, i));
    } else {
        assert(body.subrange(i, i + mark.len())[n - i] == mark[n - i]);
    }
}

proof fn lemma_marker_found(body: Seq<char>, from: int, at: int)
    requires
        0 <= from <= at < body.len(),
        marker_at(body, at),
        forall|i: int| from <= i < at ==> !marker_at(body, i),
    ensures
        marker_from(body, from) == at,
    decreases at - from,
{
    if from < at {
        lemma_marker_found(body, from + 1, at);
    }
}

/// Without diagnostics in it, a line is what its class says.
proof fn lemma_unmarked(body: Seq<char>, millis: Option<i64>)
    requires
        marker_from(body, 0) == body.len(),
        !"[WORKER "@.is_prefix_of(body),
        !"[RUNNER "@.is_prefix_of(body),
    ensures
        body_outcome(body, millis) == match console_class(body) {
            None => Outcome { line: None, hidden: 1 },
            Some(class) => if class.1.len() == 0 && class.0 != LogLevel::Output {
                Outcome { line: None, hidden: 0 }
            } else {
                Outcome {
                    line: Some(
                        LineView {
                            timestamp: iso_text(millis),
                            millis,
                            text: class.1,
                            level: class.0,
                        },
                    ),
                    hidden: 0,
                }
            },
        },
{
}

/// The message of an error is shown as an error with the time at which it was printed. An
/// empty message is not shown, and does not count as kept back.
pub proof fn messages_of_errors_are_shown(
    parameters: Seq<char>,
    message: Seq<char>,
    millis: Option<i64>,
)
    requires
        forall|i: int|
            0 <= i < parameters.len() ==> #[trigger] parameters[i] != ']' && parameters[i] != '[',
        forall|i: int| 0 <= i < message.len() ==> #[trigger] message[i] != '[',
        message.len() > 0 ==> !whitespace(message.last()),
    ensures
        body_outcome(command_line("error"@, parameters, message), millis) == (Outcome {
            line: if message.len() == 0 {
                None
            } else {
                Some(
                    LineView {
                        timestamp: iso_text(millis),
                        millis,
                        text: message,
                        level: LogLevel::Error,
                    },
                )
            },
            hidden: 0,
        }),
{
    commands_name_their_levels(parameters, message);
    lemma_command_bracket("error"@, parameters, message);
    lemma_unmarked(command_line("error"@, parameters, message), millis);
}

/// Debug output and the end of a group are not shown, and count as kept back.
pub proof fn debug_output_is_kept_back(message: Seq<char>, millis: Option<i64>)
    requires
        forall|i: int| 0 <= i < message.len() ==> #[trigger] message[i] != '[',
        message.len() > 0 ==> !whitespace(message.last()),
    ensures
        body_outcome("##[debug]"@ + message, millis) == (Outcome { line: None, hidden: 1 }),
        body_outcome("##[endgroup]"@, millis) == (Outcome { line: None, hidden: 1 }),
{
    commands_name_their_levels(Seq::empty(), message);
    lemma_debug_unmarked(message);
    lemma_endgroup_unmarked();
    lemma_unmarked("##[debug]"@ + message, millis);
    lemma_unmarked("##[endgroup]"@, millis);
}

proof fn lemma_debug_unmarked(message: Seq<char>)
    requires
        forall|i: int| 0 <= i < message.len() ==> #[trigger] message[i] != '[',
    ensures
        marker_from("##[debug]"@ + message, 0) == ("##[debug]"@ + message).len(),
        !"[WORKER "@.is_prefix_of("##[debug]"@ + message),
        !"[RUNNER "@.is_prefix_of("##[debug]"@ + message),
{
    reveal_strlit("##[debug]");
    let text = "##[debug]"@ + message;
    assert forall|i: int| 0 <= i < text.len() && i != 2 implies #[trigger] text[i] != '[' by {
        if i >= 9 {
            assert(text[i] == message[i - 9]);
        }
    }
    lemma_one_bracket(text);
}

proof fn lemma_endgroup_unmarked()
    ensures
        marker_from("##[endgroup]"@, 0) == "##[endgroup]"@.len(),
        !"[WORKER "@.is_prefix_of("##[endgroup]"@),
        !"[RUNNER "@.is_prefix_of("##[endgroup]"@),
{
    reveal_strlit("##[endgroup]");
    lemma_one_bracket("##[endgroup]"@);
}

proof fn lemma_command_bracket(command: Seq<char>, parameters: Seq<char>, message: Seq<char>)
    requires
        command == "error"@ || command == "group"@,
        forall|i: int| 0 <= i < parameters.len() ==> #[trigger] parameters[i] != '[',
        forall|i: int| 0 <= i < message.len() ==> #[trigger] message[i] != '[',
    ensures
        ({
            let line = command_line(command, parameters, message);
            &&& marker_from(line, 0) == line.len()
            &&& !"[WORKER "@.is_prefix_of(line)
            &&& !"[RUNNER "@.is_prefix_of(line)
        }),
{
    reveal_strlit("##[");
    reveal_strlit("]");
    reveal_strlit("error");
    reveal_strlit("group");
    let line = command_line(command, parameters, message);
    let n = command.len() as int;
    assert(line[3] == command[0]);
    assert forall|i: int| 0 <= i < line.len() && i != 2 implies #[trigger] line[i] != '[' by {
        if 3 <= i < 3 + n {
            assert(line[i] == command[i - 3]);
        } else if 3 + n <= i < 3 + n + parameters.len() {
            assert(line[i] == parameters[i - 3 - n]);
        } else if i > 3 + n + parameters.len() {
            assert(line[i] == message[i - 4 - n - parameters.len()]);
        }
    }
    lemma_one_bracket(line);
}

/// No diagnostics begin in a text whose only opening bracket stands third.
proof fn lemma_one_bracket(text: Seq<char>)
    requires
        forall|i: int| 0 <= i < text.len() && i != 2 ==> #[trigger] text[i] != '[',
        text.len() > 3 ==> text[3] != 'W' && text[3] != 'R',
    ensures
        !contains_text(text, "[WORKER "@),
        !contains_text(text, "[RUNNER "@),
        marker_from(text, 0) == text.len(),
        !"[WORKER "@.is_prefix_of(text),
        !"[RUNNER "@.is_prefix_of(text),
{
    reveal_strlit("[WORKER ");
    reveal_strlit("[RUNNER ");
    assert forall|i: int| !#[trigger] occurs_at(text, "[WORKER "@, i) by {
        if occurs_at(text, "[WORKER "@, i) {
            assert(text.subrange(i, i + 8)[0] == text[i]);
            assert(text.subrange(i, i + 8)[1] == text[i + 1]);
        }
    }
    assert forall|i: int| !#[trigger] occurs_at(text, "[RUNNER "@, i) by {
        if occurs_at(text, "[RUNNER "@, i) {
            assert(text.subrange(i, i + 8)[0] == text[i]);
            assert(text.subrange(i, i + 8)[1] == text[i + 1]);
        }
    }
    lemma_no_marker(text, 0);
    lemma_prefix_occurs(text, "[WORKER "@);
    lemma_prefix_occurs(text, "[RUNNER "@);
}

/// Carriage returns behind a line, and a byte order mark in front of it, do not matter.
pub proof fn marks_around_a_line_do_not_matter(line: Seq<char>, local: bool)
    ensures
        line_outcome(line.push('\r'), local) == line_outcome(line, local),
        line_outcome(seq!['\u{feff}'] + line, local) == line_outcome(line, local),
{
    assert(line.push('\r').drop_last() =~= line);
    let marked = seq!['\u{feff}'] + line;
    lemma_mark_kept(line);
    let plain = without_ansi(without_carriage_returns(line));
    let with_mark = without_ansi(without_carriage_returns(marked));
    assert(with_mark == seq!['\u{feff}'] + plain);
    assert(with_mark[0] == '\u{feff}');
    assert(with_mark.drop_first() =~= plain);
    assert(leading_run(with_mark, '\u{feff}') == 1 + leading_run(plain, '\u{feff}'));
    lemma_run_range(plain);
    assert(without_byte_order_mark(with_mark) =~= without_byte_order_mark(plain));
}

proof fn lemma_run_range(s: Seq<char>)
    ensures
        0 <= leading_run(s, '\u{feff}') <= s.len(),
    decreases s.len(),
{
    if s.len() > 0 && s[0] == '\u{feff}' {
        lemma_run_range(s.drop_first());
    }
}

proof fn lemma_mark_kept(line: Seq<char>)
    ensures
        without_ansi(without_carriage_returns(seq!['\u{feff}'] + line)) == seq!['\u{feff}']
            + without_ansi(without_carriage_returns(line)),
    decreases line.len(),
{
    let marked = seq!['\u{feff}'] + line;
    if line.len() > 0 && line.last() == '\r' {
        lemma_mark_kept(line.drop_last());
        assert(marked.drop_last() =~= seq!['\u{feff}'] + line.drop_last());
        assert(marked.last() == '\r');
    } else {
        assert(marked.last() != '\r') by {
            if line.len() > 0 {
                assert(marked.last() == line.last());
            }
        }
        assert(marked[0] == '\u{feff}');
        assert(marked.drop_first() =~= line);
    }
}

/// A control sequence in a line does not matter.
pub proof fn control_sequences_do_not_matter(
    front: Seq<char>,
    inside: Seq<char>,
    end: char,
    rest: Seq<char>,
    local: bool,
)
    requires
        !front.contains('\u{1b}'),
        !rest.contains('\u{1b}'),
        rest.len() > 0,
        rest.last() != '\r',
        forall|i: int|
            0 <= i < inside.len() ==> !('a' <= #[trigger] inside[i] <= 'z') && !('A' <= inside[i]
                <= 'Z'),
        'a' <= end <= 'z' || 'A' <= end <= 'Z',
    ensures
        line_outcome(front + seq!['\u{1b}', '['] + inside + seq![end] + rest, local)
            == line_outcome(front + rest, local),
{
    let colored = front + seq!['\u{1b}', '['] + inside + seq![end] + rest;
    let plain = front + rest;
    assert(colored.last() == rest.last());
    assert(plain.last() == rest.last());
    control_sequences_are_taken_out(front, inside, end, rest);
    plain_text_is_not_stripped(rest);
    assert(!plain.contains('\u{1b}')) by {
        assert forall|i: int| 0 <= i < plain.len() implies plain[i] != '\u{1b}' by {
            if i < front.len() {
                assert(front.contains(front[i]));
            } else {
                assert(rest.contains(rest[i - front.len()]));
            }
        }
    }
    plain_text_is_not_stripped(plain);
}

}
