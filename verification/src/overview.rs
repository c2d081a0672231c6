//! The overview: how long jobs wait, what fails, what needs attention, and the
//! history of capacity.
use vstd::prelude::*;

use crate::doubles::{
    digits_by, digits_of_parts_are_near, digits_times, lemma_ratio, parts_are_at_most_one,
    products_stay_below, ratio_digits, ratio_double, small_numbers_are_held_exactly, to_double,
    whole_double, whole_doubles_are_near, whole_doubles_keep_their_order, Double,
};
use crate::numbers::{
    clamped, decimal_i64, difference_saturated, larger, saturated, signed_decimal, smaller,
    sum_saturated,
};
use crate::error::{ApiError, ErrorView};
use crate::order::{at_most, lemma_text_total, lemma_text_transitive, text_at_most};
use crate::text::{concat, concat4, same, text_option};

verus! {

// ---------------------------------------------------------------------------
// Numbers in order

/// A list in order with one more number in it.
pub open spec fn with_number(list: Seq<i64>, n: i64) -> Seq<i64>
    decreases list.len(),
{
    if list.len() == 0 || list.last() <= n {
        list.push(n)
    } else {
        with_number(list.drop_last(), n).push(list.last())
    }
}

/// The numbers of a list in order.
pub open spec fn in_order(list: Seq<i64>) -> Seq<i64>
    decreases list.len(),
{
    if list.len() == 0 {
        list
    } else {
        with_number(in_order(list.drop_last()), list.last())
    }
}

/// No number is larger than one behind it.
pub open spec fn ordered(list: Seq<i64>) -> bool {
    forall|i: int, j: int| 0 <= i <= j < list.len() ==> list[i] <= list[j]
}

proof fn lemma_with_number(list: Seq<i64>, n: i64)
    requires
        ordered(list),
    ensures
        ordered(with_number(list, n)),
        with_number(list, n).len() == list.len() + 1,
        with_number(list, n).to_multiset() == list.to_multiset().insert(n),
        forall|k: int|
            0 <= k < with_number(list, n).len() ==> with_number(list, n)[k] == n || (list.len() > 0
                && with_number(list, n)[k] <= list.last()),
    decreases list.len(),
{
    broadcast use vstd::seq_lib::group_to_multiset_ensures;

    if list.len() == 0 || list.last() <= n {
        assert forall|i: int, j: int| 0 <= i <= j < list.push(n).len() implies list.push(n)[i]
            <= list.push(n)[j] by {
            if j == list.len() && i < j {
                assert(list[i] <= list.last());
            }
        }
        assert forall|k: int| 0 <= k < list.push(n).len() implies list.push(n)[k] == n || (
        list.len() > 0 && list.push(n)[k] <= list.last()) by {
            if k < list.len() {
                assert(list[k] <= list[list.len() - 1]);
            }
        }
    } else {
        let front = list.drop_last();
        let inner = with_number(front, n);
        let result = inner.push(list.last());
        assert(ordered(front));
        lemma_with_number(front, n);
        assert(list =~= front.push(list.last()));
        assert(result.to_multiset() =~= list.to_multiset().insert(n));
        assert forall|k: int| 0 <= k < inner.len() implies inner[k] <= list.last() by {
            if inner[k] != n {
                assert(front.len() > 0 && inner[k] <= front.last());
                assert(front.last() == list[list.len() - 2]);
                assert(list[list.len() - 2] <= list[list.len() - 1]);
            }
        }
    }
}

/// Putting numbers in order loses none, adds none, and leaves none before a
/// smaller one.
pub proof fn numbers_in_order_are_a_sorted_permutation(list: Seq<i64>)
    ensures
        ordered(in_order(list)),
        in_order(list).to_multiset() == list.to_multiset(),
        in_order(list).len() == list.len(),
    decreases list.len(),
{
    broadcast use vstd::seq_lib::group_to_multiset_ensures;

    if list.len() > 0 {
        numbers_in_order_are_a_sorted_permutation(list.drop_last());
        lemma_with_number(in_order(list.drop_last()), list.last());
        assert(list =~= list.drop_last().push(list.last()));
    }
}

fn insert_number(list: &mut Vec<i64>, n: i64)
    ensures
        final(list)@ == with_number(old(list)@, n),
{
    let ghost before = list@;
    let length: usize = list.len();
    let mut at: usize = length;
    let ghost suffix = Seq::<i64>::empty();
    proof {
        assert(before.take(length as int) =~= before);
        assert(with_number(before.take(at as int), n) + suffix =~= with_number(before, n));
    }
    while at > 0 && list[at - 1] > n
        invariant
            at <= length,
            length == list@.len(),
            before == list@,
            suffix == before.skip(at as int),
            with_number(before.take(at as int), n) + suffix == with_number(before, n),
        decreases at,
    {
        proof {
            let here = before.take(at as int);
            assert(here.last() == before[at - 1]);
            assert(here.drop_last() =~= before.take(at - 1));
            let longer = before.skip(at - 1);
            assert(longer =~= seq![before[at - 1]] + suffix);
            assert(with_number(before.take(at - 1), n) + longer =~= with_number(here, n) + suffix);
            suffix = longer;
        }
        at -= 1;
    }
    list.insert(at, n);
    proof {
        let here = before.take(at as int);
        if at > 0 {
            assert(here.last() == before[at - 1]);
        }
        assert(with_number(here, n) == here.push(n));
        assert(list@ =~= here.push(n) + suffix);
    }
}

fn sort_numbers(list: &[i64]) -> (r: Vec<i64>)
    ensures
        r@ == in_order(list@),
        r@.len() == list@.len(),
{
    let mut out: Vec<i64> = Vec::new();
    let mut i: usize = 0;
    while i < list.len()
        invariant
            i <= list@.len(),
            out@ == in_order(list@.take(i as int)),
        decreases list@.len() - i,
    {
        proof {
            let next = list@.take(i + 1);
            assert(next.drop_last() =~= list@.take(i as int));
            assert(next.last() == list@[i as int]);
        }
        insert_number(&mut out, list[i]);
        i += 1;
    }
    proof {
        assert(list@.take(list@.len() as int) =~= list@);
        numbers_in_order_are_a_sorted_permutation(list@);
    }
    out
}

// ---------------------------------------------------------------------------
// Percentiles and durations

/// The number of observations up to a percentile: that part of them, rounded up.
pub open spec fn rank(count: int, percentile: int) -> int {
    smaller(
        smaller(count * clamped(percentile, 1, 100), usize::MAX as int) + 99,
        usize::MAX as int,
    ) / 100
}

/// The observation at a percentile; nothing without observations.
pub open spec fn percentile_of(values: Seq<i64>, percentile: int) -> Option<i64> {
    let n = rank(values.len() as int, percentile);
    if n == 0 || n > values.len() {
        None
    } else {
        Some(in_order(values)[n - 1])
    }
}

/// The observation at a percentile.
pub fn percentile_millis(values: &[i64], percentile: usize) -> (r: Option<i64>)
    ensures
        r == percentile_of(values@, percentile as int),
{
    let sorted: Vec<i64> = sort_numbers(values);
    let part: usize = if percentile < 1 {
        1
    } else if percentile > 100 {
        100
    } else {
        percentile
    };
    let product: usize = match sorted.len().checked_mul(part) {
        Some(n) => n,
        None => usize::MAX,
    };
    let n: usize = product.saturating_add(99) / 100;
    if n == 0 || n > sorted.len() {
        None
    } else {
        Some(sorted[n - 1])
    }
}

/// There is an observation at every percentile as soon as there is an
/// observation at all, at least that part of the observations is not larger, and
/// a higher percentile never gives a smaller one.
pub proof fn percentiles_are_observations(values: Seq<i64>, percentile: int, higher: int)
    requires
        0 < values.len() <= usize::MAX,
        values.len() * percentile + 99 <= usize::MAX,
        1 <= percentile <= higher <= 100,
    ensures
        percentile_of(values, percentile) is Some,
        in_order(values).contains(percentile_of(values, percentile)->0),
        forall|i: int|
            0 <= i < rank(values.len() as int, percentile) ==> in_order(values)[i] <= percentile_of(
                values,
                percentile,
            )->0,
        100 * rank(values.len() as int, percentile) >= values.len() * percentile,
        percentile_of(values, percentile)->0 <= percentile_of(values, higher)->0,
{
    let count = values.len() as int;
    numbers_in_order_are_a_sorted_permutation(values);
    assert(1 <= count * percentile <= count * 100) by (nonlinear_arith)
        requires
            count >= 1,
            1 <= percentile <= 100,
    ;
    assert(count * percentile <= count * higher <= count * 100) by (nonlinear_arith)
        requires
            count >= 1,
            1 <= percentile <= higher <= 100,
    ;
    let n = rank(count, percentile);
    let m = rank(count, higher);
    assert(1 <= n <= m <= count);
    assert(in_order(values)[n - 1] == percentile_of(values, percentile)->0);
}

/// Milliseconds in seconds, rounded up.
pub open spec fn seconds_up(millis: i64) -> int {
    let n = saturated(millis + 999);
    if n >= 0 {
        n / 1_000
    } else {
        -((-n) / 1_000)
    }
}

/// Milliseconds in seconds, rounded up.
pub fn millis_to_seconds(value: i64) -> (r: i64)
    ensures
        r == seconds_up(value),
{
    let n: i64 = sum_saturated(value, 999);
    if n >= 0 {
        n / 1_000
    } else {
        -((-n) / 1_000)
    }
}

/// A duration in hours and minutes, minutes and seconds, or seconds.
pub open spec fn duration_text(millis: i64) -> Seq<char> {
    let seconds = seconds_up(millis);
    if seconds >= 3_600 {
        signed_decimal(seconds / 3_600) + "h "@ + signed_decimal(seconds % 3_600 / 60) + "m"@
    } else if seconds >= 60 {
        signed_decimal(seconds / 60) + "m "@ + signed_decimal(seconds % 60) + "s"@
    } else {
        signed_decimal(seconds) + "s"@
    }
}

/// A duration in hours and minutes, minutes and seconds, or seconds.
pub fn format_duration_millis(value: i64) -> (r: String)
    ensures
        r@ == duration_text(value),
{
    let seconds: i64 = millis_to_seconds(value);
    if seconds >= 3_600 {
        concat4(
            decimal_i64(seconds / 3_600).as_str(),
            "h ",
            decimal_i64(seconds % 3_600 / 60).as_str(),
            "m",
        )
    } else if seconds >= 60 {
        concat4(
            decimal_i64(seconds / 60).as_str(),
            "m ",
            decimal_i64(seconds % 60).as_str(),
            "s",
        )
    } else {
        concat(decimal_i64(seconds).as_str(), "s")
    }
}

/// The history that a window shows, and the width of its steps, in milliseconds.
pub open spec fn window_of(window: Seq<char>) -> Option<(i64, i64)> {
    if window == "24h"@ {
        Some((86_400_000, 300_000))
    } else if window == "7d"@ {
        Some((604_800_000, 1_800_000))
    } else if window == "30d"@ {
        Some((2_592_000_000, 7_200_000))
    } else {
        None
    }
}

/// The history that a window shows, and the width of its steps.
pub fn capacity_window(window: &str) -> (r: Option<(i64, i64)>)
    ensures
        r == window_of(window@),
{
    if same(window, "24h") {
        Some((86_400_000, 300_000))
    } else if same(window, "7d") {
        Some((604_800_000, 1_800_000))
    } else if same(window, "30d") {
        Some((2_592_000_000, 7_200_000))
    } else {
        None
    }
}

/// The history that is asked for: that of a day where nothing is said.
pub fn requested_window(window: Option<&str>) -> (r: Result<(i64, i64), ApiError>)
    ensures
        match window_of(
            match window {
                Some(window) => window@,
                None => "24h"@,
            },
        ) {
            Some(found) => r == Ok::<(i64, i64), ApiError>(found),
            None => r is Err && r->Err_0@ == ErrorView::BadRequest(
                "Capacity window must be 24h, 7d, or 30d."@,
            ),
        },
{
    let name: &str = match window {
        Some(window) => window,
        None => "24h",
    };
    match capacity_window(name) {
        Some(found) => Ok(found),
        None => Err(ApiError::BadRequest("Capacity window must be 24h, 7d, or 30d.".to_owned())),
    }
}

/// No window shows more than 360 steps, and its steps fill it exactly.
pub proof fn windows_have_bounded_resolution(window: Seq<char>)
    requires
        window_of(window) is Some,
    ensures
        ({
            let found = window_of(window)->0;
            &&& found.1 > 0
            &&& found.0 % found.1 == 0
            &&& found.0 / found.1 <= 360
        }),
{
}

/// A thousand times the ratio of two numbers, in double precision: what it is before
/// it is divided by the power of two that follows.
pub open spec fn thousandfold(successful: int, completed: int) -> (int, int) {
    let (top, bottom) = (whole_double(successful), whole_double(completed));
    let product = whole_double(1_000 * ratio_digits(top, bottom));
    (product * digits_times(top, bottom), digits_by(top, bottom))
}

/// The part of completed runs that succeeded, in tenths of a percent: a thousand
/// times their ratio, as far as double precision tells it, rounded to the nearest,
/// halves up; nothing without completed runs.
pub open spec fn success_tenths(successful: i64, completed: i64) -> Option<int> {
    if completed <= 0 {
        None
    } else {
        let (top, bottom) = thousandfold(successful as int, completed as int);
        Some((2 * top + bottom) / (2 * bottom))
    }
}

/// The part of completed runs that succeeded, in tenths of a percent.
pub fn success_rate_tenths(successful: i64, completed: i64) -> (r: Option<i64>)
    requires
        successful >= 0,
    ensures
        match success_tenths(successful, completed) {
            Some(tenths) => r == Some(saturated(tenths) as i64),
            None => r is None,
        },
{
    if completed <= 0 {
        return None;
    }
    let ratio: Double = ratio_double(to_double(successful as u64), to_double(completed as u64));
    let product: u64 = to_double(1_000 * (ratio.digits as u64));
    proof {
        let (product, times) = (product as int, ratio.times as int);
        assert(0 <= product * times <= 0x8000_0000_0000_0000 * 0x1_0000_0000) by (nonlinear_arith)
            requires
                0 <= product <= 0x8000_0000_0000_0000,
                1 <= times <= 0x1_0000_0000,
        ;
    }
    let top: u128 = 2 * ((product as u128) * ratio.times) + ratio.by;
    let tenths: u128 = top / (2 * ratio.by);
    if tenths > 9_223_372_036_854_775_807u128 {
        Some(i64::MAX)
    } else {
        Some(tenths as i64)
    }
}

/// The part of runs that succeeded lies between nothing and all of them.
pub proof fn success_rates_are_parts(successful: i64, completed: i64)
    requires
        0 <= successful <= completed,
        completed > 0,
    ensures
        0 <= success_tenths(successful, completed)->0 <= 1_000,
{
    whole_doubles_keep_their_order(successful as int, completed as int);
    let (s, c) = (whole_double(successful as int), whole_double(completed as int));
    lemma_ratio(s, c);
    parts_are_at_most_one(s, c);
    let digits = ratio_digits(s, c);
    let by = digits_by(s, c);
    let product = whole_double(1_000 * digits);
    if s > 0 {
        products_stay_below(1_000 * digits, 1_000 * by);
    } else {
        lemma_ratio(0, c);
        assert(digits == 0);
        products_stay_below(0, 0);
    }
    assert(product * digits_times(s, c) == product) by (nonlinear_arith)
        requires
            digits_times(s, c) == 1,
    ;
    assert(0 <= (2 * product + by) / (2 * by) <= 1_000) by (nonlinear_arith)
        requires
            0 <= product <= 1_000 * by,
            by >= 1,
    ;
}

// ---------------------------------------------------------------------------
// The last day

/// A job of the last day.
#[derive(Debug)]
pub struct JobSample {
    pub status: String,
    pub conclusion: Option<String>,
    pub created_at: i64,
    pub started_at: Option<i64>,
}

/// A reason for which jobs failed, and how often.
#[derive(Debug)]
pub struct FailureCount {
    pub reason: String,
    pub count: u64,
}

/// The model of a failure count.
pub struct FailureView {
    pub reason: Seq<char>,
    pub count: nat,
}

impl View for FailureCount {
    type V = FailureView;

    open spec fn view(&self) -> FailureView {
        FailureView { reason: self.reason@, count: self.count as nat }
    }
}

/// The models of a list of failure counts.
pub open spec fn failure_views(list: Seq<FailureCount>) -> Seq<FailureView> {
    list.map_values(|failure: FailureCount| failure@)
}

/// How long the queued ones of the first `n` jobs have waited.
pub open spec fn waits(jobs: Seq<JobSample>, now: i64, n: int) -> Seq<i64>
    decreases n,
{
    if n <= 0 {
        Seq::empty()
    } else if jobs[n - 1].status@ == "queued"@ {
        waits(jobs, now, n - 1).push(saturated(now - jobs[n - 1].created_at) as i64)
    } else {
        waits(jobs, now, n - 1)
    }
}

/// How long the started ones of the first `n` jobs had waited.
pub open spec fn start_delays(jobs: Seq<JobSample>, n: int) -> Seq<i64>
    decreases n,
{
    if n <= 0 {
        Seq::empty()
    } else {
        let before = start_delays(jobs, n - 1);
        match jobs[n - 1].started_at {
            Some(started) => if started >= jobs[n - 1].created_at {
                before.push(saturated(started - jobs[n - 1].created_at) as i64)
            } else {
                before
            },
            None => before,
        }
    }
}

/// A conclusion that counts as a failure.
pub open spec fn failure_reason(conclusion: Option<Seq<char>>) -> Option<Seq<char>> {
    match conclusion {
        Some(text) => if text != "success"@ && text != "skipped"@ {
            Some(text)
        } else {
            None
        },
        None => None,
    }
}

/// The position of a reason in a tally, or its length.
pub open spec fn reason_position(list: Seq<FailureView>, reason: Seq<char>, from: int) -> int
    decreases list.len() - from,
{
    if from >= list.len() {
        list.len() as int
    } else if list[from].reason == reason {
        from
    } else {
        reason_position(list, reason, from + 1)
    }
}

/// A tally with one more failure.
pub open spec fn counted(list: Seq<FailureView>, reason: Seq<char>) -> Seq<FailureView> {
    let i = reason_position(list, reason, 0);
    if i < list.len() {
        list.update(i, FailureView { reason, count: list[i].count + 1 })
    } else {
        list.push(FailureView { reason, count: 1 })
    }
}

/// How often the first `n` jobs failed for each reason.
pub open spec fn tally(jobs: Seq<JobSample>, n: int) -> Seq<FailureView>
    decreases n,
{
    if n <= 0 {
        Seq::empty()
    } else {
        let before = tally(jobs, n - 1);
        match failure_reason(text_option(jobs[n - 1].conclusion)) {
            Some(reason) => counted(before, reason),
            None => before,
        }
    }
}

/// A reason comes before another: it is more frequent, or equally frequent and
/// earlier in the order of texts.
pub open spec fn ranks_before(a: FailureView, b: FailureView) -> bool {
    a.count > b.count || (a.count == b.count && text_at_most(a.reason, b.reason))
}

/// A ranking with one more reason in it.
pub open spec fn with_failure(list: Seq<FailureView>, failure: FailureView) -> Seq<FailureView>
    decreases list.len(),
{
    if list.len() == 0 || ranks_before(list.last(), failure) {
        list.push(failure)
    } else {
        with_failure(list.drop_last(), failure).push(list.last())
    }
}

/// The reasons of a tally by their rank.
pub open spec fn ranking(list: Seq<FailureView>) -> Seq<FailureView>
    decreases list.len(),
{
    if list.len() == 0 {
        list
    } else {
        with_failure(ranking(list.drop_last()), list.last())
    }
}

/// The three most frequent reasons of a tally.
pub open spec fn top_three(list: Seq<FailureView>) -> Seq<FailureView> {
    let all = ranking(list);
    if all.len() > 3 {
        all.take(3)
    } else {
        all
    }
}

proof fn lemma_ranking_length(list: Seq<FailureView>)
    ensures
        ranking(list).len() == list.len(),
    decreases list.len(),
{
    if list.len() > 0 {
        lemma_ranking_length(list.drop_last());
        lemma_with_failure_length(ranking(list.drop_last()), list.last());
    }
}

proof fn lemma_with_failure_length(list: Seq<FailureView>, failure: FailureView)
    ensures
        with_failure(list, failure).len() == list.len() + 1,
    decreases list.len(),
{
    if list.len() > 0 && !ranks_before(list.last(), failure) {
        lemma_with_failure_length(list.drop_last(), failure);
    }
}

fn is_ranked_before(a: &FailureCount, b: &FailureCount) -> (r: bool)
    ensures
        r == ranks_before(a@, b@),
{
    a.count > b.count || (a.count == b.count && at_most(a.reason.as_str(), b.reason.as_str()))
}

fn insert_failure(list: &mut Vec<FailureCount>, failure: FailureCount)
    ensures
        failure_views(final(list)@) == with_failure(failure_views(old(list)@), failure@),
{
    let ghost before = failure_views(list@);
    let length: usize = list.len();
    let mut at: usize = length;
    let ghost suffix = Seq::<FailureView>::empty();
    proof {
        assert(before.take(length as int) =~= before);
        assert(with_failure(before.take(at as int), failure@) + suffix =~= with_failure(
            before,
            failure@,
        ));
    }
    while at > 0 && !is_ranked_before(&list[at - 1], &failure)
        invariant
            at <= length,
            length == list@.len(),
            before == failure_views(list@),
            suffix == before.skip(at as int),
            with_failure(before.take(at as int), failure@) + suffix == with_failure(
                before,
                failure@,
            ),
        decreases at,
    {
        proof {
            let here = before.take(at as int);
            assert(here.last() == before[at - 1]);
            assert(before[at - 1] == list@[at - 1]@);
            assert(here.drop_last() =~= before.take(at - 1));
            let longer = before.skip(at - 1);
            assert(longer =~= seq![before[at - 1]] + suffix);
            assert(with_failure(before.take(at - 1), failure@) + longer =~= with_failure(
                here,
                failure@,
            ) + suffix);
            suffix = longer;
        }
        at -= 1;
    }
    proof {
        if at > 0 {
            assert(before.take(at as int).last() == before[at - 1]);
            assert(before[at - 1] == list@[at - 1]@);
        }
    }
    list.insert(at, failure);
    proof {
        let here = before.take(at as int);
        assert(with_failure(here, failure@) == here.push(failure@));
        assert(failure_views(list@) =~= here.push(failure@) + suffix);
    }
}

/// The number of the first `n` jobs that failed for a reason.
pub open spec fn failures_for(jobs: Seq<JobSample>, reason: Seq<char>, n: int) -> nat
    decreases n,
{
    if n <= 0 {
        0
    } else {
        failures_for(jobs, reason, n - 1) + if failure_reason(text_option(jobs[n - 1].conclusion))
            == Some(reason) {
            1nat
        } else {
            0nat
        }
    }
}

proof fn lemma_reason_position(list: Seq<FailureView>, reason: Seq<char>, from: int)
    requires
        0 <= from <= list.len(),
    ensures
        ({
            let i = reason_position(list, reason, from);
            &&& from <= i <= list.len()
            &&& i < list.len() ==> list[i].reason == reason
            &&& forall|k: int| from <= k < i ==> (#[trigger] list[k]).reason != reason
        }),
    decreases list.len() - from,
{
    if from < list.len() && list[from].reason != reason {
        lemma_reason_position(list, reason, from + 1);
    }
}

/// Each reason for which jobs failed is counted, once, with the number of jobs
/// that failed for it, and nothing else is counted.
pub proof fn failures_are_counted(jobs: Seq<JobSample>, n: int)
    requires
        0 <= n <= jobs.len(),
    ensures
        forall|i: int, j: int|
            0 <= i < j < tally(jobs, n).len() ==> (#[trigger] tally(jobs, n)[i]).reason != (
            #[trigger] tally(jobs, n)[j]).reason,
        forall|i: int|
            0 <= i < tally(jobs, n).len() ==> (#[trigger] tally(jobs, n)[i]).count > 0 && tally(
                jobs,
                n,
            )[i].count == failures_for(jobs, tally(jobs, n)[i].reason, n),
        forall|reason: Seq<char>| #[trigger]
            failures_for(jobs, reason, n) > 0 ==> exists|i: int|
                0 <= i < tally(jobs, n).len() && (#[trigger] tally(jobs, n)[i]).reason == reason,
    decreases n,
{
    if n > 0 {
        failures_are_counted(jobs, n - 1);
        let before = tally(jobs, n - 1);
        let now = tally(jobs, n);
        match failure_reason(text_option(jobs[n - 1].conclusion)) {
            Some(reason) => {
                lemma_reason_position(before, reason, 0);
                let at = reason_position(before, reason, 0);
                if at == before.len() && failures_for(jobs, reason, n - 1) > 0 {
                    let i = choose|i: int|
                        0 <= i < before.len() && (#[trigger] before[i]).reason == reason;
                    assert(before[i].reason != reason);
                }
                assert forall|i: int| 0 <= i < now.len() implies (#[trigger] now[i]).count > 0
                    && now[i].count == failures_for(jobs, now[i].reason, n) by {
                    if i < before.len() {
                        assert(before[i].count == failures_for(jobs, before[i].reason, n - 1));
                        if i != at && before[i].reason == reason {
                            assert(at < before.len());
                            if i < at {
                                assert(before[i].reason != before[at].reason);
                            } else {
                                assert(before[at].reason != before[i].reason);
                            }
                        }
                    }
                }
                assert forall|i: int, j: int| 0 <= i < j < now.len() implies (
                #[trigger] now[i]).reason != (#[trigger] now[j]).reason by {
                    if j < before.len() {
                        assert(before[i].reason != before[j].reason);
                    } else {
                        assert(before[i].reason != reason);
                    }
                }
                assert forall|other: Seq<char>| #[trigger] failures_for(jobs, other, n)
                    > 0 implies exists|i: int|
                    0 <= i < now.len() && (#[trigger] now[i]).reason == other by {
                    if other == reason {
                        if at < before.len() {
                            assert(now[at].reason == other);
                        } else {
                            assert(now[before.len() as int].reason == other);
                        }
                    } else {
                        assert(failures_for(jobs, other, n - 1) > 0);
                        let i = choose|i: int|
                            0 <= i < before.len() && (#[trigger] before[i]).reason == other;
                        assert(now[i].reason == other);
                    }
                }
            },
            None => {
                assert forall|i: int| 0 <= i < now.len() implies (#[trigger] now[i]).count > 0
                    && now[i].count == failures_for(jobs, now[i].reason, n) by {
                    assert(before[i].count == failures_for(jobs, before[i].reason, n - 1));
                }
                assert forall|other: Seq<char>| #[trigger] failures_for(jobs, other, n)
                    > 0 implies exists|i: int|
                    0 <= i < now.len() && (#[trigger] now[i]).reason == other by {
                    assert(failures_for(jobs, other, n - 1) > 0);
                }
            },
        }
    }
}

/// No reason comes before one that ranks before it.
pub open spec fn ranked(list: Seq<FailureView>) -> bool {
    forall|i: int, j: int| 0 <= i < j < list.len() ==> ranks_before(#[trigger] list[i], #[trigger] list[j])
}

proof fn lemma_ranks_transitive(a: FailureView, b: FailureView, c: FailureView)
    requires
        ranks_before(a, b),
        ranks_before(b, c),
    ensures
        ranks_before(a, c),
{
    if a.count == b.count && b.count == c.count {
        lemma_text_transitive(a.reason, b.reason, c.reason);
    }
}

proof fn lemma_with_failure(list: Seq<FailureView>, failure: FailureView)
    requires
        ranked(list),
    ensures
        ranked(with_failure(list, failure)),
        with_failure(list, failure).to_multiset() == list.to_multiset().insert(failure),
        forall|k: int|
            0 <= k < with_failure(list, failure).len() ==> (#[trigger] with_failure(
                list,
                failure,
            )[k] == failure) || list.contains(with_failure(list, failure)[k]),
    decreases list.len(),
{
    broadcast use vstd::seq_lib::group_to_multiset_ensures;

    let result = with_failure(list, failure);
    if list.len() == 0 || ranks_before(list.last(), failure) {
        assert forall|i: int, j: int| 0 <= i < j < result.len() implies ranks_before(
            #[trigger] result[i],
            #[trigger] result[j],
        ) by {
            if j == list.len() && i < list.len() - 1 {
                assert(ranks_before(list[i], list[list.len() - 1]));
                lemma_ranks_transitive(list[i], list.last(), failure);
            }
        }
        assert forall|k: int| 0 <= k < result.len() implies (#[trigger] result[k] == failure)
            || list.contains(result[k]) by {
            if k < list.len() {
                assert(result[k] == list[k]);
            }
        }
    } else {
        let front = list.drop_last();
        let inner = with_failure(front, failure);
        lemma_with_failure(front, failure);
        lemma_text_total(list.last().reason, failure.reason);
        assert(ranks_before(failure, list.last()));
        assert(list =~= front.push(list.last()));
        assert(result.to_multiset() =~= list.to_multiset().insert(failure));
        assert forall|k: int| 0 <= k < inner.len() implies ranks_before(
            #[trigger] inner[k],
            list.last(),
        ) by {
            if inner[k] != failure {
                assert(front.contains(inner[k]));
                let m = choose|m: int| 0 <= m < front.len() && front[m] == inner[k];
                assert(ranks_before(list[m], list[list.len() - 1]));
            }
        }
        assert forall|k: int| 0 <= k < result.len() implies (#[trigger] result[k] == failure)
            || list.contains(result[k]) by {
            if k < inner.len() {
                assert(result[k] == inner[k]);
                if inner[k] != failure {
                    assert(front.contains(inner[k]));
                    let m = choose|m: int| 0 <= m < front.len() && front[m] == inner[k];
                    assert(list[m] == result[k]);
                }
            } else {
                assert(list[list.len() - 1] == result[k]);
            }
        }
    }
}

/// The reasons are shown by their rank, and no reason is left out that ranks
/// before one that is shown.
pub proof fn the_most_frequent_failures_are_shown(list: Seq<FailureView>)
    ensures
        ranked(ranking(list)),
        ranking(list).to_multiset() == list.to_multiset(),
        top_three(list).len() == smaller(3, list.len() as int),
        top_three(list) == ranking(list).take(smaller(3, list.len() as int)),
    decreases list.len(),
{
    broadcast use vstd::seq_lib::group_to_multiset_ensures;

    lemma_ranking_length(list);
    assert(ranking(list).take(ranking(list).len() as int) =~= ranking(list));
    if list.len() > 0 {
        the_most_frequent_failures_are_shown(list.drop_last());
        lemma_with_failure(ranking(list.drop_last()), list.last());
        assert(list =~= list.drop_last().push(list.last()));
    }
}

/// How the jobs of the last day fared.
#[derive(Debug)]
pub struct DaySummary {
    pub oldest_wait: Option<i64>,
    pub wait_p95: Option<i64>,
    pub start_p50: Option<i64>,
    pub start_p95: Option<i64>,
    pub started_jobs: usize,
    pub failures: Vec<FailureCount>,
}

/// The largest of the first `n` numbers.
pub open spec fn largest(list: Seq<i64>, n: int) -> Option<i64>
    decreases n,
{
    if n <= 0 {
        None
    } else {
        match largest(list, n - 1) {
            Some(m) => Some(larger(m as int, list[n - 1] as int) as i64),
            None => Some(list[n - 1]),
        }
    }
}

fn find_largest(list: &[i64]) -> (r: Option<i64>)
    ensures
        r == largest(list@, list@.len() as int),
{
    let mut best: Option<i64> = None;
    let mut i: usize = 0;
    while i < list.len()
        invariant
            i <= list@.len(),
            best == largest(list@, i as int),
        decreases list@.len() - i,
    {
        best = match best {
            Some(m) => if m >= list[i] {
                Some(m)
            } else {
                Some(list[i])
            },
            None => Some(list[i]),
        };
        i += 1;
    }
    best
}

fn count_failure(list: &mut Vec<FailureCount>, reason: &str, Ghost(seen): Ghost<int>)
    requires
        forall|i: int| 0 <= i < old(list)@.len() ==> (#[trigger] old(list)@[i]).count <= seen,
        0 <= seen < u64::MAX,
    ensures
        failure_views(final(list)@) == counted(failure_views(old(list)@), reason@),
        forall|i: int| 0 <= i < final(list)@.len() ==> (#[trigger] final(list)@[i]).count <= seen + 1,
{
    let ghost before = failure_views(list@);
    let mut i: usize = 0;
    while i < list.len() && !same(list[i].reason.as_str(), reason)
        invariant
            i <= list@.len(),
            list@ == old(list)@,
            before == failure_views(list@),
            reason_position(before, reason@, i as int) == reason_position(before, reason@, 0),
        decreases list@.len() - i,
    {
        proof {
            assert(before[i as int] == list@[i as int]@);
        }
        i += 1;
    }
    if i < list.len() {
        proof {
            assert(before[i as int] == list@[i as int]@);
            assert(list@[i as int].count <= seen);
        }
        let replaced: FailureCount = FailureCount {
            reason: reason.to_owned(),
            count: list[i].count + 1,
        };
        list.set(i, replaced);
        proof {
            assert(failure_views(list@) =~= counted(before, reason@));
        }
    } else {
        list.push(FailureCount { reason: reason.to_owned(), count: 1 });
        proof {
            assert(failure_views(list@) =~= counted(before, reason@));
        }
    }
}

/// How the jobs of the last day fared: how long the queued ones have waited, how
/// long it took to start, and the three most frequent reasons of failures.
pub fn summarize_day(jobs: &[JobSample], now: i64) -> (r: DaySummary)
    ensures
        ({
            let n = jobs@.len() as int;
            let queued = waits(jobs@, now, n);
            let delays = start_delays(jobs@, n);
            &&& r.oldest_wait == largest(queued, queued.len() as int)
            &&& r.wait_p95 == percentile_of(queued, 95)
            &&& r.start_p50 == percentile_of(delays, 50)
            &&& r.start_p95 == percentile_of(delays, 95)
            &&& r.started_jobs == delays.len()
            &&& failure_views(r.failures@) == top_three(tally(jobs@, n))
        }),
{
    let mut queued: Vec<i64> = Vec::new();
    let mut delays: Vec<i64> = Vec::new();
    let mut reasons: Vec<FailureCount> = Vec::new();
    let mut i: usize = 0;
    proof {
        assert(failure_views(reasons@) =~= Seq::empty());
    }
    while i < jobs.len()
        invariant
            i <= jobs@.len(),
            queued@ == waits(jobs@, now, i as int),
            delays@ == start_delays(jobs@, i as int),
            failure_views(reasons@) == tally(jobs@, i as int),
            forall|k: int| 0 <= k < reasons@.len() ==> (#[trigger] reasons@[k]).count <= i,
        decreases jobs@.len() - i,
    {
        let job: &JobSample = &jobs[i];
        if same(job.status.as_str(), "queued") {
            queued.push(difference_saturated(now, job.created_at));
        }
        if let Some(started) = job.started_at {
            if started >= job.created_at {
                delays.push(difference_saturated(started, job.created_at));
            }
        }
        if let Some(conclusion) = &job.conclusion {
            if !same(conclusion.as_str(), "success") && !same(conclusion.as_str(), "skipped") {
                count_failure(&mut reasons, conclusion.as_str(), Ghost(i as int));
            }
        }
        i += 1;
    }
    let ghost all = failure_views(reasons@);
    let mut ranked: Vec<FailureCount> = Vec::new();
    proof {
        assert(failure_views(ranked@) =~= Seq::empty());
    }
    for failure in it: reasons
        invariant
            all == failure_views(it.seq()),
            failure_views(ranked@) == ranking(all.take(it.index())),
    {
        let ghost view = failure@;
        insert_failure(&mut ranked, failure);
        proof {
            let next = all.take(it.index() + 1);
            assert(next.drop_last() =~= all.take(it.index()));
            assert(next.last() == view);
        }
    }
    proof {
        assert(all.take(all.len() as int) =~= all);
        assert(failure_views(ranked@).len() == ranked@.len());
    }
    let ghost full = failure_views(ranked@);
    if ranked.len() > 3 {
        ranked.truncate(3);
        proof {
            assert(failure_views(ranked@) =~= full.take(3));
        }
    }
    DaySummary {
        oldest_wait: find_largest(queued.as_slice()),
        wait_p95: percentile_millis(queued.as_slice(), 95),
        start_p50: percentile_millis(delays.as_slice(), 50),
        start_p95: percentile_millis(delays.as_slice(), 95),
        started_jobs: delays.len(),
        failures: ranked,
    }
}

// ---------------------------------------------------------------------------
// What needs attention

/// Something that needs attention.
#[derive(Debug)]
pub struct Alert {
    pub level: &'static str,
    pub title: String,
    pub detail: String,
    pub href: &'static str,
}

/// The model of an alert.
pub struct AlertView {
    pub level: Seq<char>,
    pub title: Seq<char>,
    pub detail: Seq<char>,
    pub href: Seq<char>,
}

impl View for Alert {
    type V = AlertView;

    open spec fn view(&self) -> AlertView {
        AlertView {
            level: self.level@,
            title: self.title@,
            detail: self.detail@,
            href: self.href@,
        }
    }
}

/// The models of a list of alerts.
pub open spec fn alert_views(list: Seq<Alert>) -> Seq<AlertView> {
    list.map_values(|alert: Alert| alert@)
}

/// The alert about jobs that wait: from five minutes on.
pub open spec fn wait_alert(oldest: Option<i64>) -> Seq<AlertView> {
    if oldest is Some && oldest->0 >= 300_000 {
        seq![
            AlertView {
                level: "warning"@,
                title: "Jobs have been waiting for over five minutes"@,
                detail: duration_text(oldest->0),
                href: "/workflow-runs"@,
            },
        ]
    } else {
        Seq::empty()
    }
}

/// The alert about pools that nothing is started for.
pub open spec fn circuit_alert(open_circuits: i64) -> Seq<AlertView> {
    if open_circuits > 0 {
        seq![
            AlertView {
                level: "error"@,
                title: signed_decimal(open_circuits as int) + " provisioning circuit(s) open"@,
                detail: "GridOps is pausing repeated failed runner starts until the pool is retried."@,
                href: "/runner-pools"@,
            },
        ]
    } else {
        Seq::empty()
    }
}

/// The alert about webhooks that could not be processed.
pub open spec fn webhook_alert(failed_webhooks: i64) -> Seq<AlertView> {
    if failed_webhooks > 0 {
        seq![
            AlertView {
                level: "warning"@,
                title: signed_decimal(failed_webhooks as int)
                    + " webhook delivery failure(s) in 24h"@,
                detail: "Polling continues to synchronize Actions data, but delivery failures should be reviewed."@,
                href: "/webhooks"@,
            },
        ]
    } else {
        Seq::empty()
    }
}

/// What needs attention.
pub fn overview_alerts(oldest: Option<i64>, open_circuits: i64, failed_webhooks: i64) -> (r: Vec<
    Alert,
>)
    ensures
        alert_views(r@) == wait_alert(oldest) + circuit_alert(open_circuits) + webhook_alert(
            failed_webhooks,
        ),
{
    let mut out: Vec<Alert> = Vec::new();
    if let Some(age) = oldest {
        if age >= 300_000 {
            out.push(
                Alert {
                    level: "warning",
                    title: "Jobs have been waiting for over five minutes".to_owned(),
                    detail: format_duration_millis(age),
                    href: "/workflow-runs",
                },
            );
        }
    }
    proof {
        assert(alert_views(out@) =~= wait_alert(oldest));
    }
    let ghost first = alert_views(out@);
    if open_circuits > 0 {
        out.push(
            Alert {
                level: "error",
                title: concat(
                    decimal_i64(open_circuits).as_str(),
                    " provisioning circuit(s) open",
                ),
                detail: "GridOps is pausing repeated failed runner starts until the pool is retried."
                    .to_owned(),
                href: "/runner-pools",
            },
        );
    }
    proof {
        assert(alert_views(out@) =~= first + circuit_alert(open_circuits));
    }
    let ghost second = alert_views(out@);
    if failed_webhooks > 0 {
        out.push(
            Alert {
                level: "warning",
                title: concat(
                    decimal_i64(failed_webhooks).as_str(),
                    " webhook delivery failure(s) in 24h",
                ),
                detail: "Polling continues to synchronize Actions data, but delivery failures should be reviewed."
                    .to_owned(),
                href: "/webhooks",
            },
        );
    }
    proof {
        assert(alert_views(out@) =~= second + webhook_alert(failed_webhooks));
    }
    out
}

/// The state of a pool as it is shown.
pub fn shown_state(paused: bool, state: &str) -> (r: String)
    ensures
        r@ == if paused {
            "paused"@
        } else {
            state@
        },
{
    if paused {
        "paused".to_owned()
    } else {
        state.to_owned()
    }
}

// ---------------------------------------------------------------------------
// What the overview says

/// The part of runs that succeeded is told by the tenths of a percent nearest to it, but for
/// less than a two-trillionth part of a tenth.
pub proof fn success_rates_are_the_nearest(successful: i64, completed: i64)
    requires
        0 <= successful <= completed <= 9_007_199_254_740_992,
        completed > 0,
    ensures
        ({
            let tenths = success_tenths(successful, completed)->0;
            let off = 2 * tenths * completed - 2_000 * successful;
            -(completed * 4_503_599_627_372_520) <= off * 4_503_599_627_370_496 <= completed
                * 4_503_599_627_372_520
        }),
        success_tenths(0, completed) == Some(0int),
        success_tenths(completed, completed) == Some(1_000int),
        completed <= 0 <==> success_tenths(successful, completed) is None,
{
    small_numbers_are_held_exactly(successful as int);
    small_numbers_are_held_exactly(completed as int);
    small_numbers_are_held_exactly(0);
    let (s, c) = (successful as int, completed as int);
    lemma_ratio(s, c);
    lemma_ratio(0, c);
    parts_are_at_most_one(s, c);
    parts_are_at_most_one(0, c);
    assert(ratio_digits(0, c) == 0) by {
        assert(0 * digits_by(0, c) == 0);
        assert(c * digits_times(0, c) == c) by (nonlinear_arith)
            requires
                digits_times(0, c) == 1,
        ;
    }
    assert(success_tenths(0, completed) == Some(0int)) by {
        let by = digits_by(0, c);
        assert(0 * digits_times(0, c) == 0);
        assert((2 * 0 + by) / (2 * by) == 0) by (nonlinear_arith)
            requires
                by >= 1,
        ;
    }
    lemma_all_successful(completed);
    if s > 0 {
        digits_of_parts_are_near(s, c);
        lemma_near(s, c);
    } else {
        assert(success_tenths(successful, completed) == Some(0int));
        assert(0 <= c * 4_503_599_627_372_520) by (nonlinear_arith)
            requires
                c > 0,
        ;
    }
}

proof fn lemma_all_successful(completed: i64)
    requires
        0 < completed <= 9_007_199_254_740_992,
    ensures
        success_tenths(completed, completed) == Some(1_000int),
{
    let c = completed as int;
    small_numbers_are_held_exactly(c);
    lemma_ratio(c, c);
    parts_are_at_most_one(c, c);
    digits_of_parts_are_near(c, c);
    let by = digits_by(c, c);
    let digits = ratio_digits(c, c);
    assert(digits == by) by (nonlinear_arith)
        requires
            -c <= 2 * (digits * c - c * by) <= c,
            c > 0,
            digits <= by,
    ;
    products_stay_below(1_000 * digits, 1_000 * by);
    whole_doubles_are_near(1_000 * digits);
    let product = whole_double(1_000 * digits);
    assert(product * digits_times(c, c) == product) by (nonlinear_arith)
        requires
            digits_times(c, c) == 1,
    ;
    assert((2 * product + by) / (2 * by) == 1_000) by (nonlinear_arith)
        requires
            1_000 * by - 512 <= product <= 1_000 * by,
            by >= 4_503_599_627_370_496,
    ;
}

proof fn lemma_near(s: int, c: int)
    requires
        0 < s <= c <= 9_007_199_254_740_992,
        digits_by(s, c) >= 4_503_599_627_370_496,
        digits_times(s, c) == 1,
        0 <= ratio_digits(s, c) <= 9_007_199_254_740_992,
        -c <= 2 * (ratio_digits(s, c) * c - s * digits_by(s, c)) <= c,
    ensures
        ({
            let product = whole_double(1_000 * ratio_digits(s, c));
            let by = digits_by(s, c);
            let tenths = (2 * (product * digits_times(s, c)) + by) / (2 * by);
            let off = 2 * tenths * c - 2_000 * s;
            -(c * 4_503_599_627_372_520) <= off * 4_503_599_627_370_496 <= c
                * 4_503_599_627_372_520
        }),
{
    let by = digits_by(s, c);
    let digits = ratio_digits(s, c);
    let product = whole_double(1_000 * digits);
    whole_doubles_are_near(1_000 * digits);
    assert(product * digits_times(s, c) == product) by (nonlinear_arith)
        requires
            digits_times(s, c) == 1,
    ;
    let top = 2 * product + by;
    let tenths = top / (2 * by);
    vstd::arithmetic::div_mod::lemma_fundamental_div_mod(top, 2 * by);
    vstd::arithmetic::div_mod::lemma_mod_bound(top, 2 * by);
    let rest = top % (2 * by);
    assert(2 * by * tenths == 2 * product + by - rest);
    let turned = 2 * (tenths * by - product);
    assert(2 * by * tenths == 2 * (tenths * by)) by (nonlinear_arith);
    assert(-by < turned <= by);
    let off = 2 * tenths * c - 2_000 * s;
    // In units of `by`: the rounding to tenths, that of the product, and that of the ratio.
    let scaled = off * by;
    assert(scaled == turned * c + 2 * (product - 1_000 * digits) * c + 1_000 * (2 * (digits * c - s
        * by))) by (nonlinear_arith)
        requires
            scaled == (2 * tenths * c - 2_000 * s) * by,
            turned == 2 * (tenths * by - product),
    ;
    assert(-(by * c) <= turned * c <= by * c) by (nonlinear_arith)
        requires
            -by < turned <= by,
            c > 0,
    ;
    let error = 2 * (product - 1_000 * digits);
    assert(-(1_024 * c) <= error * c <= 1_024 * c) by (nonlinear_arith)
        requires
            -1_024 <= error <= 1_024,
            c > 0,
    ;
    assert(-(by * c + 2_024 * c) <= scaled <= by * c + 2_024 * c);
    let unit = 4_503_599_627_370_496int;
    assert(off * unit <= c * (unit + 2_024)) by (nonlinear_arith)
        requires
            off * by <= by * c + 2_024 * c,
            by >= unit,
            unit > 0,
            c > 0,
    ;
    assert(-(c * (unit + 2_024)) <= off * unit) by (nonlinear_arith)
        requires
            -(by * c + 2_024 * c) <= off * by,
            by >= unit,
            unit > 0,
            c > 0,
    ;
}

/// The observation at a percentile is that of the nearest rank: one rank less would not reach
/// that part of the observations. A part below one hundredth is taken for one, and one above a
/// hundred for all.
pub proof fn percentiles_have_the_nearest_rank(count: int, percentile: int)
    requires
        0 < count,
        count * 100 + 99 <= usize::MAX,
    ensures
        1 <= percentile <= 100 ==> {
            let n = rank(count, percentile);
            &&& 100 * n >= count * percentile
            &&& 100 * (n - 1) < count * percentile
        },
        percentile > 100 ==> rank(count, percentile) == count,
        percentile < 1 ==> rank(count, percentile) == rank(count, 1),
{
    if 1 <= percentile <= 100 {
        assert(0 < count * percentile <= count * 100) by (nonlinear_arith)
            requires
                count > 0,
                1 <= percentile <= 100,
        ;
    }
}

/// Milliseconds are shown in seconds, of which a part counts as a whole one.
pub proof fn seconds_are_rounded_up(millis: i64)
    requires
        0 <= millis <= i64::MAX - 999,
    ensures
        seconds_up(millis) * 1_000 >= millis,
        (seconds_up(millis) - 1) * 1_000 < millis,
{
}

/// A duration is shown in hours and minutes from an hour on, in minutes and seconds from a
/// minute on, and in seconds below that.
pub proof fn durations_are_told_in_two_units(hours: int, minutes: int, seconds: int)
    requires
        0 <= hours <= 1_000_000_000,
        0 <= minutes < 60,
        0 <= seconds < 60,
    ensures
        ({
            let text = duration_text(
                ((hours * 3_600 + minutes * 60 + seconds) * 1_000) as i64,
            );
            &&& hours > 0 ==> text == signed_decimal(hours) + "h "@ + signed_decimal(minutes)
                + "m"@
            &&& hours == 0 && minutes > 0 ==> text == signed_decimal(minutes) + "m "@
                + signed_decimal(seconds) + "s"@
            &&& hours == 0 && minutes == 0 ==> text == signed_decimal(seconds) + "s"@
        }),
{
    let total = hours * 3_600 + minutes * 60 + seconds;
    assert(seconds_up((total * 1_000) as i64) == total);
    assert(total / 3_600 == hours && total % 3_600 / 60 == minutes);
    if hours == 0 {
        assert(total / 60 == minutes && total % 60 == seconds);
    }
}

/// There is the history of a day in steps of five minutes, that of a week in steps of half an
/// hour, and that of thirty days in steps of two hours, and no other.
pub proof fn windows_are_a_day_a_week_and_a_month(window: Seq<char>)
    ensures
        window_of("24h"@) == Some((86_400_000i64, 300_000i64)),
        window_of("7d"@) == Some((604_800_000i64, 1_800_000i64)),
        window_of("30d"@) == Some((2_592_000_000i64, 7_200_000i64)),
        window != "24h"@ && window != "7d"@ && window != "30d"@ ==> window_of(window) is None,
{
    reveal_strlit("24h");
    reveal_strlit("7d");
    reveal_strlit("30d");
    assert("24h"@.len() == 3 && "7d"@.len() == 2 && "30d"@.len() == 3 && "24h"@[0] == '2'
        && "30d"@[0] == '3');
}

/// Each queued job has waited since it was created, and each job that was started had waited
/// until then; no other job counts, and none that was started before it was created.
pub proof fn waits_last_from_creation_to_start(jobs: Seq<JobSample>, now: i64, n: int)
    requires
        0 < n <= jobs.len(),
        i64::MIN <= now - jobs[n - 1].created_at <= i64::MAX,
    ensures
        ({
            let job = jobs[n - 1];
            &&& waits(jobs, now, n) == if job.status@ == "queued"@ {
                waits(jobs, now, n - 1).push((now - job.created_at) as i64)
            } else {
                waits(jobs, now, n - 1)
            }
            &&& job.started_at is None ==> start_delays(jobs, n) == start_delays(jobs, n - 1)
            &&& job.started_at is Some && job.started_at->0 < job.created_at ==> start_delays(
                jobs,
                n,
            ) == start_delays(jobs, n - 1)
            &&& job.started_at is Some && job.created_at <= job.started_at->0
                && job.started_at->0 - job.created_at <= i64::MAX ==> start_delays(jobs, n)
                == start_delays(jobs, n - 1).push((job.started_at->0 - job.created_at) as i64)
        }),
        waits(jobs, now, 0).len() == 0,
        start_delays(jobs, 0).len() == 0,
{
}

/// The longest wait is one of the waits, and none is longer.
pub proof fn the_longest_wait_is_the_largest(list: Seq<i64>, n: int)
    requires
        0 <= n <= list.len(),
    ensures
        n == 0 <==> largest(list, n) is None,
        forall|i: int| 0 <= i < n ==> #[trigger] list[i] <= largest(list, n)->0,
        n > 0 ==> exists|i: int| 0 <= i < n && #[trigger] list[i] == largest(list, n)->0,
    decreases n,
{
    if n > 0 {
        the_longest_wait_is_the_largest(list, n - 1);
        if n > 1 && largest(list, n)->0 != list[n - 1] {
            let i = choose|i: int|
                0 <= i < n - 1 && #[trigger] list[i] == largest(list, n - 1)->0;
            assert(list[i] == largest(list, n)->0);
        } else {
            assert(list[n - 1] == largest(list, n)->0);
        }
    }
}

/// A job failed for its conclusion, unless that is success or that it was skipped; one without
/// a conclusion did not fail. The more frequent reason is shown first, and of two that are
/// equally frequent the one that comes first in the order of texts.
pub proof fn failures_have_a_reason(conclusion: Seq<char>, a: FailureView, b: FailureView)
    ensures
        failure_reason(None) is None,
        failure_reason(Some("success"@)) is None,
        failure_reason(Some("skipped"@)) is None,
        conclusion != "success"@ && conclusion != "skipped"@ ==> failure_reason(Some(conclusion))
            == Some(conclusion),
        a.count > b.count ==> ranks_before(a, b) && !ranks_before(b, a),
        a.count == b.count ==> (ranks_before(a, b) <==> text_at_most(a.reason, b.reason)),
{
}

/// Attention is asked for jobs that have waited for five minutes, for circuits that are open,
/// and for deliveries that failed, and for nothing else.
pub proof fn alerts_are_raised_for_a_reason(oldest: Option<i64>, circuits: i64, webhooks: i64)
    ensures
        wait_alert(oldest).len() == if oldest is Some && oldest->0 >= 5 * 60 * 1_000 {
            1nat
        } else {
            0nat
        },
        wait_alert(oldest).len() > 0 ==> wait_alert(oldest)[0].level == "warning"@ && wait_alert(
            oldest,
        )[0].detail == duration_text(oldest->0),
        circuit_alert(circuits).len() == if circuits > 0 {
            1nat
        } else {
            0nat
        },
        circuits > 0 ==> circuit_alert(circuits)[0].level == "error"@,
        webhook_alert(webhooks).len() == if webhooks > 0 {
            1nat
        } else {
            0nat
        },
        webhooks > 0 ==> webhook_alert(webhooks)[0].level == "warning"@,
{
}

}
