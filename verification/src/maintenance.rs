//! What runs besides the reconciling of pools: reading workflow runs, samples of
//! capacity, and dropping what is kept for too long.
use vstd::prelude::*;

use crate::clock::{date_millis, github_date_millis, rfc3339_millis};
use crate::github::{GitHubWorkflowJob, GitHubWorkflowRun};
use crate::numbers::{
    clamp, clamped, difference_saturated, length_i64, max, product_saturated, saturated,
};
use crate::text::{same, text_option, texts};
use crate::webhooks::{instant, instant_or, JobRecord, RunRecord};

verus! {

// ---------------------------------------------------------------------------
// Reading workflow runs

/// The pause between two passes, in seconds.
pub open spec fn pass_interval(setting: i64) -> int {
    clamped(setting as int, 5, 3_600)
}

/// The pause between two passes, in seconds.
pub fn reconcile_interval(setting: i64) -> (r: i64)
    ensures
        r == pass_interval(setting),
{
    clamp(setting, 5, 3_600)
}

/// GitHub is asked again.
pub open spec fn sync_due(now: i64, last_sync: i64, setting: i64) -> bool {
    saturated(now - last_sync) >= clamped(setting as int, 30, 3_600) * 1_000
}

/// Whether GitHub is asked again, by when it was asked last and how often that is
/// to be done.
pub fn is_sync_due(now: i64, last_sync: i64, setting: i64) -> (r: bool)
    ensures
        r == sync_due(now, last_sync, setting),
{
    difference_saturated(now, last_sync) >= clamp(setting, 30, 3_600) * 1_000
}

/// GitHub is never asked more than twice a minute, and at least once an hour.
pub proof fn syncs_are_neither_rare_nor_frequent(now: i64, last_sync: i64, setting: i64)
    requires
        0 <= last_sync <= now,
    ensures
        sync_due(now, last_sync, setting) ==> now - last_sync >= 30_000,
        now - last_sync >= 3_600_000 ==> sync_due(now, last_sync, setting),
{
}

/// A run whose jobs are still going on.
pub open spec fn unfinished(run: GitHubWorkflowRun) -> bool {
    run.status@ == "queued"@ || run.status@ == "in_progress"@
}

/// The numbers of a list, each once, in the order in which they first occur,
/// with one more number.
pub open spec fn also_listed(list: Seq<i64>, id: i64) -> Seq<i64> {
    if list.contains(id) {
        list
    } else {
        list.push(id)
    }
}

/// The unfinished ones of the first `n` runs.
pub open spec fn unfinished_runs(runs: Seq<GitHubWorkflowRun>, n: int) -> Seq<i64>
    decreases n,
{
    if n <= 0 {
        Seq::empty()
    } else {
        let before = unfinished_runs(runs, n - 1);
        if unfinished(runs[n - 1]) {
            also_listed(before, runs[n - 1].id)
        } else {
            before
        }
    }
}

/// The unfinished runs, and behind them the first `n` runs.
pub open spec fn runs_to_read(runs: Seq<GitHubWorkflowRun>, n: int) -> Seq<i64>
    decreases n,
{
    if n <= 0 {
        unfinished_runs(runs, runs.len() as int)
    } else {
        also_listed(runs_to_read(runs, n - 1), runs[n - 1].id)
    }
}

fn push_new(list: &mut Vec<i64>, id: i64)
    ensures
        final(list)@ == also_listed(old(list)@, id),
{
    let mut i: usize = 0;
    while i < list.len()
        invariant
            i <= list@.len(),
            list@ == old(list)@,
            forall|k: int| 0 <= k < i ==> list@[k] != id,
        decreases list@.len() - i,
    {
        if list[i] == id {
            proof {
                assert(list@[i as int] == id);
            }
            return;
        }
        i += 1;
    }
    list.push(id);
}

/// How many of the newest runs are read: five, or all where there are fewer.
pub open spec fn newest_runs(count: int) -> int {
    if count < 5 {
        count
    } else {
        5
    }
}

/// The runs whose jobs are read: those that are not finished, and the five
/// newest ones.
pub fn runs_with_jobs_to_read(runs: &[GitHubWorkflowRun]) -> (r: Vec<i64>)
    ensures
        r@ == runs_to_read(runs@, newest_runs(runs@.len() as int)),
{
    let mut out: Vec<i64> = Vec::new();
    let mut i: usize = 0;
    while i < runs.len()
        invariant
            i <= runs@.len(),
            out@ == unfinished_runs(runs@, i as int),
        decreases runs@.len() - i,
    {
        if same(runs[i].status.as_str(), "queued") || same(runs[i].status.as_str(), "in_progress") {
            push_new(&mut out, runs[i].id);
        }
        i += 1;
    }
    let newest: usize = if runs.len() < 5 {
        runs.len()
    } else {
        5
    };
    let mut k: usize = 0;
    while k < newest
        invariant
            k <= newest,
            newest <= runs@.len(),
            out@ == runs_to_read(runs@, k as int),
        decreases newest - k,
    {
        push_new(&mut out, runs[k].id);
        k += 1;
    }
    out
}

proof fn lemma_unfinished_listed(runs: Seq<GitHubWorkflowRun>, n: int)
    requires
        0 <= n <= runs.len(),
    ensures
        unfinished_runs(runs, n).no_duplicates(),
        forall|i: int|
            0 <= i < n && unfinished(#[trigger] runs[i]) ==> unfinished_runs(runs, n).contains(
                runs[i].id,
            ),
    decreases n,
{
    if n > 0 {
        lemma_unfinished_listed(runs, n - 1);
        let before = unfinished_runs(runs, n - 1);
        let after = unfinished_runs(runs, n);
        assert forall|i: int| 0 <= i < n && unfinished(#[trigger] runs[i]) implies after.contains(
            runs[i].id,
        ) by {
            if i < n - 1 {
                let k = choose|k: int| 0 <= k < before.len() && before[k] == runs[i].id;
                assert(after[k] == runs[i].id);
            } else if !before.contains(runs[i].id) {
                assert(after[after.len() - 1] == runs[i].id);
            }
        }
    }
}

/// The jobs of every unfinished run and of the newest runs are read, and no run
/// is read twice.
pub proof fn unfinished_and_newest_runs_are_read(runs: Seq<GitHubWorkflowRun>, n: int)
    requires
        0 <= n <= runs.len(),
    ensures
        runs_to_read(runs, n).no_duplicates(),
        forall|i: int|
            0 <= i < runs.len() && unfinished(#[trigger] runs[i]) ==> runs_to_read(
                runs,
                n,
            ).contains(runs[i].id),
        forall|i: int| 0 <= i < n ==> runs_to_read(runs, n).contains((#[trigger] runs[i]).id),
    decreases n,
{
    lemma_unfinished_listed(runs, runs.len() as int);
    if n > 0 {
        unfinished_and_newest_runs_are_read(runs, n - 1);
        let before = runs_to_read(runs, n - 1);
        let after = runs_to_read(runs, n);
        assert forall|x: i64| before.contains(x) implies after.contains(x) by {
            let k = choose|k: int| 0 <= k < before.len() && before[k] == x;
            assert(after[k] == x);
        }
        assert(after.contains(runs[n - 1].id)) by {
            if !before.contains(runs[n - 1].id) {
                assert(after[after.len() - 1] == runs[n - 1].id);
            }
        }
    }
}

/// The name of a run: its own, or else its title.
pub open spec fn name_of_run(run: GitHubWorkflowRun) -> Seq<char> {
    match run.name {
        Some(name) => name@,
        None => match run.display_title {
            Some(title) => title@,
            None => "Workflow"@,
        },
    }
}

/// The name under which a run is kept.
pub fn run_name(run: &GitHubWorkflowRun) -> (r: String)
    ensures
        r@ == name_of_run(*run),
{
    match &run.name {
        Some(name) => name.clone(),
        None => match &run.display_title {
            Some(title) => title.clone(),
            None => "Workflow".to_owned(),
        },
    }
}

/// When a run was completed: when it changed last, if it is completed.
pub fn run_completed_at(run: &GitHubWorkflowRun, updated_at: i64) -> (r: Option<i64>)
    ensures
        r == if run.status@ == "completed"@ {
            Some(updated_at)
        } else {
            None
        },
{
    if same(run.status.as_str(), "completed") {
        Some(updated_at)
    } else {
        None
    }
}

/// The record is what GitHub's list says of a run of a repository. A run without
/// its dates counts as one of this instant.
pub open spec fn lists_run(
    record: RunRecord,
    run: GitHubWorkflowRun,
    repository_id: i64,
    now: i64,
) -> bool {
    let updated_at = instant_or(rfc3339_millis(run.updated_at@), now);
    &&& record.id == run.id
    &&& record.repository_id == repository_id
    &&& record.workflow_id == run.workflow_id
    &&& record.workflow_name@ == name_of_run(run)
    &&& record.run_number == run.run_number
    &&& record.run_attempt == run.run_attempt
    &&& record.event@ == run.event@
    &&& record.status@ == run.status@
    &&& text_option(record.conclusion) == text_option(run.conclusion)
    &&& text_option(record.head_branch) == text_option(run.head_branch)
    &&& record.head_sha@ == run.head_sha@
    &&& text_option(record.actor_login) == match run.actor {
        Some(actor) => Some(actor.login@),
        None => None,
    }
    &&& record.html_url@ == run.html_url@
    &&& record.started_at == date_millis(text_option(run.run_started_at))
    &&& record.completed_at == if run.status@ == "completed"@ {
        Some(updated_at)
    } else {
        None
    }
    &&& record.github_created_at == instant_or(rfc3339_millis(run.created_at@), now)
    &&& record.github_updated_at == updated_at
}

/// What is kept of a run that GitHub lists.
pub fn listed_run(run: GitHubWorkflowRun, repository_id: i64, now: i64) -> (r: RunRecord)
    ensures
        lists_run(r, run, repository_id, now),
{
    let updated_at: i64 = instant(github_date_millis(Some(run.updated_at.as_str())), now);
    let created_at: i64 = instant(github_date_millis(Some(run.created_at.as_str())), now);
    let started_at: Option<i64> = match &run.run_started_at {
        Some(text) => github_date_millis(Some(text.as_str())),
        None => None,
    };
    let workflow_name: String = run_name(&run);
    let completed_at: Option<i64> = run_completed_at(&run, updated_at);
    RunRecord {
        id: run.id,
        repository_id,
        workflow_id: run.workflow_id,
        workflow_name,
        run_number: run.run_number,
        run_attempt: run.run_attempt,
        event: run.event,
        status: run.status,
        conclusion: run.conclusion,
        head_branch: run.head_branch,
        head_sha: run.head_sha,
        actor_login: match run.actor {
            Some(actor) => Some(actor.login),
            None => None,
        },
        html_url: run.html_url,
        started_at,
        completed_at,
        github_created_at: created_at,
        github_updated_at: updated_at,
    }
}

/// The record is what GitHub's list says of a job. A list tells of no event.
pub open spec fn lists_job(record: JobRecord, job: GitHubWorkflowJob) -> bool {
    &&& record.id == job.id
    &&& record.run_id == job.run_id
    &&& record.name@ == job.name@
    &&& record.status@ == job.status@
    &&& text_option(record.conclusion) == text_option(job.conclusion)
    &&& record.runner_id == job.runner_id
    &&& text_option(record.runner_name) == text_option(job.runner_name)
    &&& record.runner_group_id == job.runner_group_id
    &&& text_option(record.runner_group_name) == text_option(job.runner_group_name)
    &&& record.html_url@ == job.html_url@
    &&& record.started_at == date_millis(text_option(job.started_at))
    &&& record.completed_at == date_millis(text_option(job.completed_at))
    &&& texts(record.labels@) == texts(job.labels@)
    &&& record.event@ == ""@
    &&& record.message@ == ""@
}

/// What is kept of a job that GitHub lists, and since when there is the job: since
/// it was started, or else since now.
pub fn listed_job(job: GitHubWorkflowJob, now: i64) -> (r: (JobRecord, i64))
    ensures
        lists_job(r.0, job),
        r.1 == instant_or(r.0.started_at, now),
{
    let started_at: Option<i64> = match &job.started_at {
        Some(text) => github_date_millis(Some(text.as_str())),
        None => None,
    };
    let completed_at: Option<i64> = match &job.completed_at {
        Some(text) => github_date_millis(Some(text.as_str())),
        None => None,
    };
    let record: JobRecord = JobRecord {
        id: job.id,
        run_id: job.run_id,
        name: job.name,
        status: job.status,
        conclusion: job.conclusion,
        runner_id: job.runner_id,
        runner_name: job.runner_name,
        runner_group_id: job.runner_group_id,
        runner_group_name: job.runner_group_name,
        html_url: job.html_url,
        started_at,
        completed_at,
        labels: job.labels,
        event: "".to_owned(),
        message: "".to_owned(),
    };
    (record, instant(started_at, now))
}

// ---------------------------------------------------------------------------
// Samples of capacity

/// A runner in this state can be reached.
pub open spec fn online(status: Seq<char>) -> bool {
    status == "online"@ || status == "idle"@ || status == "busy"@
}

/// The reachable ones of the first `n` runners.
pub open spec fn online_among(runners: Seq<crate::reconciler::Runner>, n: int) -> nat
    decreases n,
{
    if n <= 0 {
        0
    } else {
        online_among(runners, n - 1) + if online(runners[n - 1].status@) {
            1nat
        } else {
            0nat
        }
    }
}

/// The occupied ones of the first `n` runners.
pub open spec fn occupied_among(runners: Seq<crate::reconciler::Runner>, n: int) -> nat
    decreases n,
{
    if n <= 0 {
        0
    } else {
        occupied_among(runners, n - 1) + if runners[n - 1].busy {
            1nat
        } else {
            0nat
        }
    }
}

/// A sample of a pool's capacity.
#[derive(Debug, Clone, Copy, PartialEq, Eq, Structural)]
pub struct CapacitySample {
    pub available: i64,
    pub busy: i64,
    pub recorded_at: i64,
}

/// The minute that an instant lies in.
pub open spec fn minute_of(now: i64) -> int {
    now as int / 60_000 * 60_000
}

/// The sample of a pool's capacity at an instant.
pub open spec fn sample_of(runners: Seq<crate::reconciler::Runner>, now: i64) -> CapacitySample {
    let n = runners.len() as int;
    let reachable = online_among(runners, n);
    let occupied = occupied_among(runners, n);
    CapacitySample {
        available: saturated(
            if reachable >= occupied {
                reachable - occupied
            } else {
                0
            },
        ) as i64,
        busy: saturated(occupied as int) as i64,
        recorded_at: minute_of(now) as i64,
    }
}

/// A sample of a pool's capacity: one per minute.
pub fn capacity_sample(runners: &[crate::reconciler::Runner], now: i64) -> (r: CapacitySample)
    requires
        now >= i64::MIN + 60_000,
    ensures
        r == sample_of(runners@, now),
{
    let mut reachable: usize = 0;
    let mut occupied: usize = 0;
    let mut i: usize = 0;
    while i < runners.len()
        invariant
            i <= runners@.len(),
            reachable == online_among(runners@, i as int),
            occupied == occupied_among(runners@, i as int),
            reachable <= i,
            occupied <= i,
        decreases runners@.len() - i,
    {
        let status: &str = runners[i].status.as_str();
        if same(status, "online") || same(status, "idle") || same(status, "busy") {
            reachable += 1;
        }
        if runners[i].busy {
            occupied += 1;
        }
        i += 1;
    }
    let recorded_at: i64 = if now >= 0 {
        now / 60_000 * 60_000
    } else {
        -((-now + 59_999) / 60_000 * 60_000)
    };
    CapacitySample {
        available: length_i64(reachable.saturating_sub(occupied)),
        busy: length_i64(occupied),
        recorded_at,
    }
}

/// Samples of one minute have one time, so that a later one replaces an earlier
/// one.
pub proof fn samples_fall_on_minutes(a: i64, b: i64)
    requires
        0 <= a <= b,
    ensures
        minute_of(a) % 60_000 == 0,
        minute_of(a) <= a < minute_of(a) + 60_000,
        minute_of(a) <= minute_of(b),
        b < minute_of(a) + 60_000 ==> minute_of(a) == minute_of(b),
{
}

// ---------------------------------------------------------------------------
// Dropping what is kept for too long

/// The instant before which things are dropped that are kept for some days.
pub open spec fn cutoff_of(now: i64, days: i64) -> int {
    saturated(now - saturated(days * 86_400_000))
}

/// The instant before which things are dropped that are kept for some days.
pub fn retention_cutoff(now: i64, days: i64) -> (r: i64)
    ensures
        r == cutoff_of(now, days),
{
    difference_saturated(now, product_saturated(days, 86_400_000))
}

/// How long samples of capacity are kept, in days: as long as the longest window
/// shows, and one more.
pub const CAPACITY_RETENTION_DAYS: i64 = 31;

/// The bytes that kept logs may take.
pub open spec fn log_budget_of(setting_mb: i64) -> int {
    clamped(setting_mb as int, 100, 1_048_576) * 1_048_576
}

/// The bytes that kept logs may take.
pub fn log_budget_bytes(setting_mb: i64) -> (r: i64)
    ensures
        r == log_budget_of(setting_mb),
{
    clamp(setting_mb, 100, 1_048_576) * 1_048_576
}

/// What becomes of a kept log while logs take too much space.
#[derive(Debug, Clone, Copy, PartialEq, Eq, Structural)]
pub enum LogRemoval {
    Stop,
    Skip,
    Remove,
}

/// What becomes of the oldest log that has not been looked at.
pub open spec fn removal_of(retained: i64, budget: i64, name_ok: bool) -> LogRemoval {
    if retained <= budget {
        LogRemoval::Stop
    } else if !name_ok {
        LogRemoval::Skip
    } else {
        LogRemoval::Remove
    }
}

/// What becomes of the oldest log that has not been looked at: nothing more is
/// removed as soon as the logs fit, and a log under a name that is not one is
/// left alone.
pub fn next_log_removal(retained: i64, budget: i64, name_ok: bool) -> (r: LogRemoval)
    ensures
        r == removal_of(retained, budget, name_ok),
{
    if retained <= budget {
        LogRemoval::Stop
    } else if !name_ok {
        LogRemoval::Skip
    } else {
        LogRemoval::Remove
    }
}

/// The bytes that logs take after one was removed.
pub open spec fn bytes_after(retained: i64, size: i64) -> int {
    saturated(
        retained - if size > 0 {
            size as int
        } else {
            0
        },
    )
}

/// The bytes that logs take after one was removed.
pub fn after_log_removal(retained: i64, size_bytes: i64) -> (r: i64)
    ensures
        r == bytes_after(retained, size_bytes),
{
    difference_saturated(retained, max(size_bytes, 0))
}

/// The bytes of logs of given sizes.
pub open spec fn total_size(sizes: Seq<i64>, n: int) -> int
    decreases n,
{
    if n <= 0 {
        0
    } else {
        total_size(sizes, n - 1) + if sizes[n - 1] > 0 {
            sizes[n - 1] as int
        } else {
            0
        }
    }
}

/// What logs take after the oldest `n` of them were looked at, where each can be
/// removed.
pub open spec fn bytes_after_removals(retained: i64, budget: i64, sizes: Seq<i64>, n: int) -> int
    decreases n,
{
    if n <= 0 {
        retained as int
    } else {
        let before = bytes_after_removals(retained, budget, sizes, n - 1);
        if before <= budget {
            before
        } else {
            bytes_after(before as i64, sizes[n - 1])
        }
    }
}

proof fn lemma_total_size_grows(sizes: Seq<i64>, n: int)
    requires
        0 <= n,
    ensures
        total_size(sizes, n) >= 0,
    decreases n,
{
    if n > 0 {
        lemma_total_size_grows(sizes, n - 1);
    }
}

proof fn lemma_removals(retained: i64, budget: i64, sizes: Seq<i64>, n: int)
    requires
        0 <= n <= sizes.len(),
        retained >= 0,
        budget >= 0,
        total_size(sizes, sizes.len() as int) <= retained,
        total_size(sizes, n) <= retained,
    ensures
        0 <= bytes_after_removals(retained, budget, sizes, n) <= retained,
        bytes_after_removals(retained, budget, sizes, n) > budget ==> bytes_after_removals(
            retained,
            budget,
            sizes,
            n,
        ) == retained - total_size(sizes, n),
    decreases n,
{
    lemma_total_size_grows(sizes, n);
    if n > 0 {
        lemma_total_size_grows(sizes, n - 1);
        lemma_removals(retained, budget, sizes, n - 1);
    }
}

/// Removing the oldest logs brings what is kept within the budget, where all of
/// it can be removed.
pub proof fn removals_reach_the_budget(retained: i64, budget: i64, sizes: Seq<i64>)
    requires
        retained >= 0,
        budget >= 0,
        total_size(sizes, sizes.len() as int) == retained,
    ensures
        bytes_after_removals(retained, budget, sizes, sizes.len() as int) <= budget,
{
    lemma_removals(retained, budget, sizes, sizes.len() as int);
}

// ---------------------------------------------------------------------------
// What is kept and what is dropped

/// GitHub is asked again as soon as the seconds have passed that are set, where these are
/// half a minute to an hour; a pass follows another after what is set, within five seconds
/// to an hour.
pub proof fn intervals_are_those_that_are_set(now: i64, last_sync: i64, setting: i64)
    requires
        0 <= last_sync <= now,
    ensures
        30 <= setting <= 3_600 ==> (sync_due(now, last_sync, setting) <==> now - last_sync
            >= setting * 1_000),
        setting < 30 ==> (sync_due(now, last_sync, setting) <==> now - last_sync >= 30_000),
        setting > 3_600 ==> (sync_due(now, last_sync, setting) <==> now - last_sync >= 3_600_000),
        5 <= setting <= 3_600 ==> pass_interval(setting) == setting,
        setting < 5 ==> pass_interval(setting) == 5,
        setting > 3_600 ==> pass_interval(setting) == 3_600,
{
}

/// No run is read but the five newest and those that wait or go on: a run that is finished
/// and older is left alone.
pub proof fn finished_older_runs_are_left_alone(runs: Seq<GitHubWorkflowRun>, n: int, k: int)
    requires
        0 <= n <= runs.len(),
        0 <= k < runs_to_read(runs, n).len(),
    ensures
        exists|i: int|
            0 <= i < runs.len() && (#[trigger] runs[i]).id == runs_to_read(runs, n)[k] && (i < n
                || runs[i].status@ == "queued"@ || runs[i].status@ == "in_progress"@),
        runs.len() >= 5 ==> newest_runs(runs.len() as int) == 5,
        runs.len() < 5 ==> newest_runs(runs.len() as int) == runs.len(),
    decreases n,
{
    if n == 0 {
        lemma_unfinished(runs, runs.len() as int, k);
        let i = choose|i: int|
            0 <= i < runs.len() && (#[trigger] runs[i]).id == unfinished_runs(
                runs,
                runs.len() as int,
            )[k] && unfinished(runs[i]);
        assert(runs[i].id == runs_to_read(runs, n)[k]);
    } else {
        let before = runs_to_read(runs, n - 1);
        if k < before.len() {
            finished_older_runs_are_left_alone(runs, n - 1, k);
            let i = choose|i: int|
                0 <= i < runs.len() && (#[trigger] runs[i]).id == before[k] && (i < n - 1
                    || runs[i].status@ == "queued"@ || runs[i].status@ == "in_progress"@);
            assert(runs[i].id == runs_to_read(runs, n)[k]);
        } else {
            assert(runs[n - 1].id == runs_to_read(runs, n)[k]);
        }
    }
}

proof fn lemma_unfinished(runs: Seq<GitHubWorkflowRun>, n: int, k: int)
    requires
        0 <= n <= runs.len(),
        0 <= k < unfinished_runs(runs, n).len(),
    ensures
        exists|i: int|
            0 <= i < n && (#[trigger] runs[i]).id == unfinished_runs(runs, n)[k] && unfinished(
                runs[i],
            ),
    decreases n,
{
    if n > 0 {
        let before = unfinished_runs(runs, n - 1);
        if k < before.len() {
            lemma_unfinished(runs, n - 1, k);
            let i = choose|i: int|
                0 <= i < n - 1 && (#[trigger] runs[i]).id == before[k] && unfinished(runs[i]);
            assert(runs[i].id == unfinished_runs(runs, n)[k]);
        } else {
            assert(runs[n - 1].id == unfinished_runs(runs, n)[k]);
        }
    }
}

/// The jobs of a run that waits or goes on are read, whatever its age.
pub proof fn runs_that_go_on_are_read(runs: Seq<GitHubWorkflowRun>, n: int, i: int)
    requires
        0 <= n <= runs.len(),
        0 <= i < runs.len(),
        runs[i].status@ == "queued"@ || runs[i].status@ == "in_progress"@ || i < n,
    ensures
        runs_to_read(runs, n).contains(runs[i].id),
{
    unfinished_and_newest_runs_are_read(runs, n);
    if runs[i].status@ == "queued"@ || runs[i].status@ == "in_progress"@ {
        assert(unfinished(runs[i]));
    }
}

/// A run that GitHub lists is kept as it is listed; it is completed at its last change
/// exactly if its state says that it is completed.
pub proof fn listed_runs_are_kept_as_they_are(
    record: RunRecord,
    run: GitHubWorkflowRun,
    repository_id: i64,
    now: i64,
)
    requires
        lists_run(record, run, repository_id, now),
    ensures
        record.id == run.id,
        record.repository_id == repository_id,
        record.workflow_id == run.workflow_id,
        run.name is Some ==> record.workflow_name@ == run.name->0@,
        run.name is None && run.display_title is Some ==> record.workflow_name@
            == run.display_title->0@,
        record.run_number == run.run_number,
        record.run_attempt == run.run_attempt,
        record.event@ == run.event@,
        record.status@ == run.status@,
        text_option(record.conclusion) == text_option(run.conclusion),
        text_option(record.head_branch) == text_option(run.head_branch),
        record.head_sha@ == run.head_sha@,
        run.actor is Some ==> text_option(record.actor_login) == Some(run.actor->0.login@),
        record.html_url@ == run.html_url@,
        record.started_at == date_millis(text_option(run.run_started_at)),
        run.status@ == "completed"@ <==> record.completed_at is Some,
        record.completed_at is Some ==> record.completed_at->0 == record.github_updated_at,
        date_millis(Some(run.updated_at@)) is Some ==> record.github_updated_at == date_millis(
            Some(run.updated_at@),
        )->0,
        date_millis(Some(run.updated_at@)) is None ==> record.github_updated_at == now,
        date_millis(Some(run.created_at@)) is Some ==> record.github_created_at == date_millis(
            Some(run.created_at@),
        )->0,
{
}

/// A job that GitHub lists is kept as it is listed.
pub proof fn listed_jobs_are_kept_as_they_are(record: JobRecord, job: GitHubWorkflowJob)
    requires
        lists_job(record, job),
    ensures
        record.id == job.id,
        record.run_id == job.run_id,
        record.name@ == job.name@,
        record.status@ == job.status@,
        text_option(record.conclusion) == text_option(job.conclusion),
        record.runner_id == job.runner_id,
        text_option(record.runner_name) == text_option(job.runner_name),
        record.runner_group_id == job.runner_group_id,
        text_option(record.runner_group_name) == text_option(job.runner_group_name),
        record.html_url@ == job.html_url@,
        record.started_at == date_millis(text_option(job.started_at)),
        record.completed_at == date_millis(text_option(job.completed_at)),
        texts(record.labels@) == texts(job.labels@),
{
}

/// A sample counts as busy the runners that work, and as available the others that can be
/// reached, which are online, idle or busy; it has the time of its minute.
pub proof fn samples_count_what_works_and_what_waits(
    runners: Seq<crate::reconciler::Runner>,
    now: i64,
)
    requires
        now >= 0,
        runners.len() <= i64::MAX,
    ensures
        ({
            let working = runners.filter(|runner: crate::reconciler::Runner| runner.busy).len();
            let reachable = runners.filter(
                |runner: crate::reconciler::Runner|
                    runner.status@ == "online"@ || runner.status@ == "idle"@ || runner.status@
                        == "busy"@,
            ).len();
            let sample = sample_of(runners, now);
            &&& sample.busy == working
            &&& reachable >= working ==> sample.available + sample.busy == reachable
            &&& reachable < working ==> sample.available == 0
            &&& sample.recorded_at % 60_000 == 0
            &&& sample.recorded_at <= now < sample.recorded_at + 60_000
        }),
{
    lemma_samples(runners);
    let working = |runner: crate::reconciler::Runner| runner.busy;
    let reachable = |runner: crate::reconciler::Runner|
        runner.status@ == "online"@ || runner.status@ == "idle"@ || runner.status@ == "busy"@;
    runners.lemma_filter_len(working);
    runners.lemma_filter_len(reachable);
}

proof fn lemma_samples(runners: Seq<crate::reconciler::Runner>)
    ensures
        occupied_among(runners, runners.len() as int) == runners.filter(
            |runner: crate::reconciler::Runner| runner.busy,
        ).len(),
        online_among(runners, runners.len() as int) == runners.filter(
            |runner: crate::reconciler::Runner|
                runner.status@ == "online"@ || runner.status@ == "idle"@ || runner.status@
                    == "busy"@,
        ).len(),
    decreases runners.len(),
{
    reveal(Seq::filter);
    if runners.len() > 0 {
        lemma_samples(runners.drop_last());
        lemma_samples_prefix(runners.drop_last(), runners, runners.len() - 1);
    }
}

proof fn lemma_samples_prefix(
    less: Seq<crate::reconciler::Runner>,
    more: Seq<crate::reconciler::Runner>,
    n: int,
)
    requires
        less.is_prefix_of(more),
        n <= less.len(),
    ensures
        occupied_among(less, n) == occupied_among(more, n),
        online_among(less, n) == online_among(more, n),
    decreases n,
{
    if n > 0 {
        assert(less[n - 1] == more[n - 1]);
        lemma_samples_prefix(less, more, n - 1);
    }
}

/// What is kept for some days is dropped when it is older than as many times 24 hours, and
/// samples of capacity are kept for more than the thirty days that can be shown.
pub proof fn things_are_dropped_after_their_days(now: i64, days: i64)
    requires
        0 <= now,
        0 <= days,
        days * 86_400_000 <= i64::MAX,
    ensures
        now - cutoff_of(now, days) == days * 24 * 3_600_000,
        CAPACITY_RETENTION_DAYS == 31,
{
    assert(days * 86_400_000 == days * 24 * 3_600_000) by (nonlinear_arith);
}

/// Kept logs may take what is set in megabytes, within 100 MB to 1 TB. While they take more
/// the oldest one is removed, unless its name is none; as soon as they fit, none is.
pub proof fn the_oldest_logs_make_room(retained: i64, budget: i64, name_ok: bool, setting: i64)
    ensures
        retained <= budget ==> removal_of(retained, budget, name_ok) == LogRemoval::Stop,
        retained > budget && name_ok ==> removal_of(retained, budget, name_ok)
            == LogRemoval::Remove,
        retained > budget && !name_ok ==> removal_of(retained, budget, name_ok)
            == LogRemoval::Skip,
        100 <= setting <= 1_048_576 ==> log_budget_of(setting) == setting * 1_024 * 1_024,
        setting < 100 ==> log_budget_of(setting) == 104_857_600,
        setting > 1_048_576 ==> log_budget_of(setting) == 1_099_511_627_776,
{
    assert(setting * 1_024 * 1_024 == setting * 1_048_576) by (nonlinear_arith);
}

/// To remove a log frees its bytes, and nothing is removed where all logs fit.
pub proof fn removed_logs_free_their_bytes(retained: i64, budget: i64, sizes: Seq<i64>, n: int)
    requires
        retained >= 0,
        0 <= n <= sizes.len(),
    ensures
        n > 0 && 0 <= sizes[n - 1] ==> bytes_after(retained, sizes[n - 1]) == retained
            - sizes[n - 1],
        n > 0 && sizes[n - 1] < 0 ==> bytes_after(retained, sizes[n - 1]) == retained,
        retained <= budget ==> bytes_after_removals(retained, budget, sizes, n) == retained,
    decreases n,
{
    if n > 0 {
        removed_logs_free_their_bytes(retained, budget, sizes, n - 1);
    }
}

}
