//! Logs of runners and jobs: which part of them is kept, which is shown, and
//! where it comes from.
use vstd::prelude::*;
use vstd::utf8::{char_is_scalar, decode_utf8, encode_scalar, valid_utf8};

use crate::crypto::{
    absorbed, encode_hex, end_digest, feed_digest, hex_text, new_digest, sha256, GrowingDigest,
};
use crate::error::{fails_as, ApiError, ErrorView};
use crate::github::GitHubWorkflowStep;
use crate::job_steps::StepView;
use crate::numbers::{
    decimal, decimal_reads_back, lemma_decimal_value, parse_u64, parsed_nat, saturated,
    sum_saturated,
};
use crate::text::{
    alphanumeric, byte_len, chars_of, concat, concat3, digit, is_alphanumeric, same, string_range,
    text_option, utf8_len,
};

verus! {

/// The most that is kept of a runner's log: 100 MB.
pub const MAX_ARCHIVED_LOG_BYTES: i64 = 104_857_600;

/// The most that is shown of a log that is kept: its last 1 MB.
pub const MAX_ARCHIVED_LOG_VIEW_BYTES: u64 = 1_000_000;

/// The most of a job's log that is structured: its last 25 MB.
pub const MAX_STRUCTURED_LOG_BYTES: usize = 26_214_400;

// ---------------------------------------------------------------------------
// Names of files

/// The name of a file in the log directory itself: letters, digits, hyphens,
/// underscores and full stops, 1 to 128 of them, and neither of the names that
/// stand for directories.
pub open spec fn log_name_ok(name: Seq<char>) -> bool {
    &&& 0 < name.len() <= 128
    &&& name != "."@
    &&& name != ".."@
    &&& forall|i: int|
        0 <= i < name.len() ==> alphanumeric(#[trigger] name[i]) || name[i] == '-' || name[i] == '_'
            || name[i] == '.'
}

/// Whether a name is that of a file in the log directory itself.
pub fn is_safe_log_name(name: &str) -> (r: bool)
    ensures
        r == log_name_ok(name@),
{
    let a: Vec<char> = chars_of(name);
    if a.len() == 0 || a.len() > 128 || same(name, ".") || same(name, "..") {
        return false;
    }
    let mut i: usize = 0;
    while i < a.len()
        invariant
            i <= a@.len(),
            a@ == name@,
            forall|k: int|
                0 <= k < i ==> alphanumeric(#[trigger] name@[k]) || name@[k] == '-' || name@[k]
                    == '_' || name@[k] == '.',
        decreases a@.len() - i,
    {
        if !(is_alphanumeric(a[i]) || a[i] == '-' || a[i] == '_' || a[i] == '.') {
            proof {
                assert(!alphanumeric(name@[i as int]));
            }
            return false;
        }
        i += 1;
    }
    true
}

/// Refuses the name of a file that is not in the log directory itself.
pub fn safe_log_path(name: &str) -> (r: Result<(), ApiError>)
    ensures
        fails_as(
            r,
            if log_name_ok(name@) {
                None
            } else {
                Some(ErrorView::BadRequest("Archived log path is invalid."@))
            },
        ),
{
    if is_safe_log_name(name) {
        Ok(())
    } else {
        Err(ApiError::BadRequest("Archived log path is invalid.".to_owned()))
    }
}

/// A name that is accepted cannot lead out of the log directory.
pub proof fn accepted_names_stay_in_their_directory(name: Seq<char>)
    requires
        log_name_ok(name),
    ensures
        !name.contains('/'),
        !name.contains('\\'),
        !name.contains('\u{0}'),
        name != ".."@,
{
}

// ---------------------------------------------------------------------------
// Keeping logs

/// How many of the next bytes of a log are kept, where some are kept already.
pub open spec fn kept_of(size: i64, chunk: nat) -> int {
    let room = MAX_ARCHIVED_LOG_BYTES - size;
    if room <= 0 {
        0
    } else if chunk <= room {
        chunk as int
    } else {
        room
    }
}

/// How many of the next bytes of a log are kept.
pub fn retained_bytes(size: i64, chunk: usize) -> (r: usize)
    requires
        0 <= size,
    ensures
        r == kept_of(size, chunk as nat),
        r <= chunk,
{
    if size >= MAX_ARCHIVED_LOG_BYTES {
        return 0;
    }
    let room: u64 = (MAX_ARCHIVED_LOG_BYTES - size) as u64;
    if (chunk as u64) <= room {
        chunk
    } else {
        room as usize
    }
}

/// Whether nothing more of a log is kept.
pub fn archive_full(size: i64) -> (r: bool)
    ensures
        r == (size >= MAX_ARCHIVED_LOG_BYTES),
{
    size >= MAX_ARCHIVED_LOG_BYTES
}

/// What is kept of a log so far: how much it is, and the digest of it.
pub struct KeptLog {
    pub size: i64,
    pub digest: GrowingDigest,
}

impl KeptLog {
    /// What was kept so far.
    pub open spec fn view(&self) -> Seq<u8> {
        absorbed(self.digest)
    }

    /// The size is that of what was kept, and within the limit.
    pub open spec fn wf(&self) -> bool {
        self.size == self@.len() && self.size <= MAX_ARCHIVED_LOG_BYTES
    }

    /// Nothing is kept yet.
    pub fn new() -> (r: KeptLog)
        ensures
            r.wf(),
            r@ == Seq::<u8>::empty(),
    {
        KeptLog { size: 0, digest: new_digest() }
    }

    /// Keeps of the next bytes of a log what there is room for: how many they are.
    pub fn keep(&mut self, chunk: &[u8]) -> (r: usize)
        requires
            old(self).wf(),
        ensures
            final(self).wf(),
            r == kept_of(old(self).size, chunk@.len()),
            r <= chunk@.len(),
            final(self)@ == old(self)@ + chunk@.take(r as int),
    {
        let count: usize = retained_bytes(self.size, chunk.len());
        let kept: &[u8] = vstd::slice::slice_subrange(chunk, 0, count);
        proof {
            assert(kept@ =~= chunk@.take(count as int));
        }
        feed_digest(&mut self.digest, kept);
        self.size = self.size + count as i64;
        count
    }

    /// The checksum under which a log is kept: the digest of what is kept of it, in
    /// hexadecimal.
    pub fn checksum(self) -> (r: String)
        ensures
            r@ == hex_text(sha256(self@)),
    {
        let digest: Vec<u8> = end_digest(self.digest);
        encode_hex(digest.as_slice())
    }
}

/// What is kept of a log that comes in pieces.
pub open spec fn kept_pieces(pieces: Seq<Seq<u8>>) -> Seq<u8>
    decreases pieces.len(),
{
    if pieces.len() == 0 {
        Seq::empty()
    } else {
        let before = kept_pieces(pieces.drop_last());
        before + pieces.last().take(kept_of(before.len() as i64, pieces.last().len()))
    }
}

/// All the bytes of a log that comes in pieces.
pub open spec fn whole_log(pieces: Seq<Seq<u8>>) -> Seq<u8>
    decreases pieces.len(),
{
    if pieces.len() == 0 {
        Seq::empty()
    } else {
        whole_log(pieces.drop_last()) + pieces.last()
    }
}

/// However a log comes in pieces, what is kept of it, and so its checksum, is the
/// same: all of it up to the limit.
pub proof fn kept_logs_do_not_depend_on_their_pieces(pieces: Seq<Seq<u8>>)
    ensures
        kept_pieces(pieces) == if whole_log(pieces).len() <= MAX_ARCHIVED_LOG_BYTES {
            whole_log(pieces)
        } else {
            whole_log(pieces).take(MAX_ARCHIVED_LOG_BYTES as int)
        },
    decreases pieces.len(),
{
    if pieces.len() > 0 {
        kept_logs_do_not_depend_on_their_pieces(pieces.drop_last());
        let before = whole_log(pieces.drop_last());
        let last = pieces.last();
        assert(last.take(last.len() as int) =~= last);
        if before.len() > MAX_ARCHIVED_LOG_BYTES {
            assert(last.take(0) =~= Seq::empty());
            assert(kept_pieces(pieces) =~= whole_log(pieces).take(MAX_ARCHIVED_LOG_BYTES as int));
        } else if before.len() + last.len() > MAX_ARCHIVED_LOG_BYTES {
            assert(kept_pieces(pieces) =~= whole_log(pieces).take(MAX_ARCHIVED_LOG_BYTES as int));
        }
    }
}

/// The size of what is kept after the first `n` pieces of a log.
pub open spec fn kept_size(chunks: Seq<nat>, n: int) -> int
    decreases n,
{
    if n <= 0 {
        0
    } else {
        let before = kept_size(chunks, n - 1);
        before + kept_of(before as i64, chunks[n - 1])
    }
}

/// The size of the first `n` pieces of a log.
pub open spec fn whole_size(chunks: Seq<nat>, n: int) -> int
    decreases n,
{
    if n <= 0 {
        0
    } else {
        whole_size(chunks, n - 1) + chunks[n - 1]
    }
}

/// What is kept of a log is all of it up to the limit, and never more than the
/// limit, however it comes in pieces.
pub proof fn archives_are_bounded(chunks: Seq<nat>, n: int)
    requires
        0 <= n <= chunks.len(),
    ensures
        0 <= kept_size(chunks, n) <= MAX_ARCHIVED_LOG_BYTES,
        kept_size(chunks, n) == if whole_size(chunks, n) <= MAX_ARCHIVED_LOG_BYTES {
            whole_size(chunks, n)
        } else {
            MAX_ARCHIVED_LOG_BYTES as int
        },
    decreases n,
{
    if n > 0 {
        archives_are_bounded(chunks, n - 1);
    }
}

/// When a log that is kept now is dropped.
pub open spec fn expiry_of(now: i64, retention_days: i64) -> int {
    saturated(now + saturated(retention_days * 86_400_000))
}

/// When a log that is kept now is dropped.
pub fn log_expiry(now: i64, retention_days: i64) -> (r: i64)
    ensures
        r == expiry_of(now, retention_days),
{
    sum_saturated(now, crate::numbers::product_saturated(retention_days, 86_400_000))
}

// ---------------------------------------------------------------------------
// Showing logs

/// How much of a running log is asked for: up to 5000 lines.
pub open spec fn stream_tail_ok(tail: Seq<char>) -> bool {
    tail == "0"@ || (parsed_nat(tail) is Some && 1 <= parsed_nat(tail)->0 <= 5_000)
}

/// How much of a running log is asked for: 500 lines where nothing is said.
pub fn stream_tail(tail: Option<&str>) -> (r: Result<String, ApiError>)
    ensures
        ({
            let value = match tail {
                Some(tail) => tail@,
                None => "500"@,
            };
            if stream_tail_ok(value) {
                r is Ok && r->Ok_0@ == value
            } else {
                r is Err && r->Err_0@ == ErrorView::BadRequest(
                    "Log stream tail must be from 0 to 5000."@,
                )
            }
        }),
{
    let value: String = match tail {
        Some(tail) => tail.to_owned(),
        None => "500".to_owned(),
    };
    let valid: bool = same(value.as_str(), "0") || match parse_u64(value.as_str()) {
        Some(lines) => 1 <= lines && lines <= 5_000,
        None => false,
    };
    if valid {
        Ok(value)
    } else {
        Err(ApiError::BadRequest("Log stream tail must be from 0 to 5000.".to_owned()))
    }
}

/// Where the part of a kept log begins that is shown, and what is said in front
/// of it.
pub fn archived_view(size: u64) -> (r: (u64, &'static str))
    ensures
        if size > MAX_ARCHIVED_LOG_VIEW_BYTES {
            r.0 == size - MAX_ARCHIVED_LOG_VIEW_BYTES && r.1@
                == "[GridOps is showing the final 1 MB of this retained log.]\n"@
        } else {
            r.0 == 0 && r.1@ == ""@
        },
{
    if size > MAX_ARCHIVED_LOG_VIEW_BYTES {
        (
            size - MAX_ARCHIVED_LOG_VIEW_BYTES,
            "[GridOps is showing the final 1 MB of this retained log.]\n",
        )
    } else {
        (0, "")
    }
}

/// Where the part of a log begins that is structured, and whether that leaves
/// something out.
pub fn structured_window(length: usize) -> (r: (usize, bool))
    ensures
        r.1 == (length > MAX_STRUCTURED_LOG_BYTES),
        r.0 == if r.1 {
            length - MAX_STRUCTURED_LOG_BYTES
        } else {
            0
        },
{
    if length > MAX_STRUCTURED_LOG_BYTES {
        (length - MAX_STRUCTURED_LOG_BYTES, true)
    } else {
        (0, false)
    }
}

/// The text of bytes, in which a replacement character stands for what is no UTF-8.
pub uninterp spec fn lossy_text(bytes: Seq<u8>) -> Seq<char>;

/// `String::from_utf8_lossy`. The text is named; it is what the bytes encode where
/// they are valid UTF-8. What is no UTF-8 can grow to three times its size.
#[verifier::external_body]
pub(crate) fn read_lossy(bytes: &[u8]) -> (r: String)
    requires
        bytes@.len() <= isize::MAX / 3,
    ensures
        r@ == lossy_text(bytes@),
        valid_utf8(bytes@) ==> r@ == decode_utf8(bytes@),
{
    String::from_utf8_lossy(bytes).into_owned()
}

/// The part of a log that is structured: its end, where it is longer than that.
pub open spec fn structured_part(log: Seq<u8>) -> Seq<u8> {
    if log.len() > MAX_STRUCTURED_LOG_BYTES {
        log.skip(log.len() - MAX_STRUCTURED_LOG_BYTES)
    } else {
        log
    }
}

/// The text of a log that is structured, and whether that leaves something out.
pub fn structured_text(log: &[u8]) -> (r: (String, bool))
    ensures
        r.0@ == lossy_text(structured_part(log@)),
        valid_utf8(structured_part(log@)) ==> r.0@ == decode_utf8(structured_part(log@)),
        r.1 == (log@.len() > MAX_STRUCTURED_LOG_BYTES),
{
    let (start, truncated): (usize, bool) = structured_window(log.len());
    let part: &[u8] = vstd::slice::slice_subrange(log, start, log.len());
    proof {
        assert(part@ =~= structured_part(log@));
    }
    (read_lossy(part), truncated)
}

/// The text of a kept log that is shown: what is read of it from where the part
/// begins that is shown, behind what is said in front of it.
pub fn archived_text(size: u64, read: &[u8]) -> (r: String)
    requires
        read@.len() <= isize::MAX / 3,
    ensures
        r@ == (if size > MAX_ARCHIVED_LOG_VIEW_BYTES {
            "[GridOps is showing the final 1 MB of this retained log.]\n"@
        } else {
            ""@
        }) + lossy_text(read@),
        valid_utf8(read@) ==> lossy_text(read@) == decode_utf8(read@),
{
    let (_, said): (u64, &'static str) = archived_view(size);
    let text: String = read_lossy(read);
    concat(said, text.as_str())
}

/// The longest end of a text that takes no more than `limit` bytes.
pub open spec fn newest_part(s: Seq<char>, limit: nat) -> Seq<char>
    decreases s.len(),
{
    if utf8_len(s) <= limit || s.len() == 0 {
        s
    } else {
        newest_part(s.drop_first(), limit)
    }
}

/// The number of bytes that a character takes.
fn char_width(c: char) -> (r: usize)
    ensures
        r == encode_scalar(c as u32).len(),
        1 <= r <= 4,
{
    let v: u32 = c as u32;
    proof {
        char_is_scalar(c);
    }
    if v <= 0x7f {
        1
    } else if v <= 0x7ff {
        2
    } else if v <= 0xffff {
        3
    } else {
        4
    }
}

proof fn lemma_utf8_len_step(s: Seq<char>, k: int)
    requires
        0 < k <= s.len(),
    ensures
        utf8_len(s.skip(k - 1)) == encode_scalar(s[k - 1] as u32).len() + utf8_len(s.skip(k)),
{
    let here = s.skip(k - 1);
    assert(here[0] == s[k - 1]);
    assert(here.drop_first() =~= s.skip(k));
}

proof fn lemma_newest_part(s: Seq<char>, limit: nat, k: int)
    requires
        0 <= k <= s.len(),
        utf8_len(s.skip(k)) <= limit,
        k > 0 ==> utf8_len(s.skip(k - 1)) > limit,
    ensures
        newest_part(s, limit) == s.skip(k),
    decreases k,
{
    if k == 0 {
        assert(s.skip(0) =~= s);
    } else {
        lemma_utf8_suffix(s, 0, k - 1);
        assert(s.skip(0) =~= s);
        let rest = s.drop_first();
        assert(rest.skip(k - 1) =~= s.skip(k));
        if k > 1 {
            assert(rest.skip(k - 2) =~= s.skip(k - 1));
        }
        lemma_newest_part(rest, limit, k - 1);
    }
}

proof fn lemma_utf8_suffix(s: Seq<char>, a: int, b: int)
    requires
        0 <= a <= b <= s.len(),
    ensures
        utf8_len(s.skip(a)) >= utf8_len(s.skip(b)),
    decreases b - a,
{
    if a < b {
        lemma_utf8_suffix(s, a + 1, b);
        lemma_utf8_len_step(s, a + 1);
    }
}

/// The part of a job's log that is structured, and whether that leaves something
/// out.
pub fn truncate_log_text(logs: String) -> (r: (String, bool))
    ensures
        r.0@ == newest_part(logs@, MAX_STRUCTURED_LOG_BYTES as nat),
        r.1 == (utf8_len(logs@) > MAX_STRUCTURED_LOG_BYTES),
{
    if byte_len(logs.as_str()) <= MAX_STRUCTURED_LOG_BYTES {
        return (logs, false);
    }
    let a: Vec<char> = chars_of(logs.as_str());
    let mut k: usize = a.len();
    let mut size: usize = 0;
    proof {
        assert(a@.skip(k as int) =~= Seq::<char>::empty());
        assert(utf8_len(a@.skip(k as int)) == 0);
    }
    while k > 0 && size + char_width(a[k - 1]) <= MAX_STRUCTURED_LOG_BYTES
        invariant
            k <= a@.len(),
            size == utf8_len(a@.skip(k as int)),
            size <= MAX_STRUCTURED_LOG_BYTES,
        decreases k,
    {
        proof {
            lemma_utf8_len_step(a@, k as int);
        }
        size = size + char_width(a[k - 1]);
        k -= 1;
    }
    proof {
        if k > 0 {
            lemma_utf8_len_step(a@, k as int);
        }
        lemma_newest_part(a@, MAX_STRUCTURED_LOG_BYTES as nat, k as int);
    }
    let kept: String = string_range(a.as_slice(), k, a.len());
    proof {
        assert(kept@ =~= a@.skip(k as int));
    }
    (kept, true)
}

proof fn lemma_newest_part_fits(s: Seq<char>, limit: nat)
    ensures
        utf8_len(newest_part(s, limit)) <= limit,
        utf8_len(s) > limit ==> utf8_len(newest_part(s, limit)) + 3 >= limit,
        exists|k: int| 0 <= k <= s.len() && newest_part(s, limit) == #[trigger] s.skip(k),
    decreases s.len(),
{
    if utf8_len(s) <= limit || s.len() == 0 {
        assert(s.skip(0) =~= s);
    } else {
        let rest = s.drop_first();
        assert(s.skip(0) =~= s);
        assert(s.skip(1) =~= rest);
        lemma_utf8_len_step(s, 1);
        lemma_newest_part_fits(rest, limit);
        let k = choose|k: int| 0 <= k <= rest.len() && newest_part(rest, limit) == #[trigger] rest.skip(k);
        assert(s.skip(k + 1) =~= rest.skip(k));
    }
}

/// What is structured of a log is an end of it that fits the limit: all of a log
/// within the limit, and of a longer one as much as whole characters allow.
pub proof fn structured_logs_fit(logs: Seq<char>)
    ensures
        utf8_len(newest_part(logs, MAX_STRUCTURED_LOG_BYTES as nat)) <= MAX_STRUCTURED_LOG_BYTES,
        utf8_len(logs) <= MAX_STRUCTURED_LOG_BYTES ==> newest_part(
            logs,
            MAX_STRUCTURED_LOG_BYTES as nat,
        ) == logs,
        utf8_len(logs) > MAX_STRUCTURED_LOG_BYTES ==> utf8_len(
            newest_part(logs, MAX_STRUCTURED_LOG_BYTES as nat),
        ) >= MAX_STRUCTURED_LOG_BYTES - 3,
        exists|k: int|
            0 <= k <= logs.len() && newest_part(logs, MAX_STRUCTURED_LOG_BYTES as nat)
                == #[trigger] logs.skip(k),
{
    lemma_newest_part_fits(logs, MAX_STRUCTURED_LOG_BYTES as nat);
}

// ---------------------------------------------------------------------------
// The log of a job

/// What GitHub answers when it is asked for the log of a job.
#[derive(Debug, Clone, Copy, PartialEq, Eq, Structural)]
pub enum JobLogAnswer {
    NotThere,
    Log,
    Failed,
}

/// What the status of GitHub's answer says of the log of a job.
pub open spec fn log_answer_of(status: u16) -> JobLogAnswer {
    if status == 404 || status == 409 || status == 410 {
        JobLogAnswer::NotThere
    } else if status >= 400 && status <= 599 {
        JobLogAnswer::Failed
    } else {
        JobLogAnswer::Log
    }
}

/// What the status of GitHub's answer says of the log of a job.
pub fn job_log_answer(status: u16) -> (r: JobLogAnswer)
    ensures
        r == log_answer_of(status),
{
    if status == 404 || status == 409 || status == 410 {
        JobLogAnswer::NotThere
    } else if status >= 400 && status <= 599 {
        JobLogAnswer::Failed
    } else {
        JobLogAnswer::Log
    }
}

/// A log, where it comes from, and whether something of it is left out.
#[derive(Debug)]
pub struct ChosenLog {
    pub logs: String,
    pub source: &'static str,
    pub truncated: bool,
}

/// The log that is shown of a job: GitHub's, or else the runner's, or else none
/// yet.
pub fn choose_job_log(remote: Option<(String, bool)>, local: Option<(String, bool)>) -> (r:
    ChosenLog)
    ensures
        match remote {
            Some(found) => r.logs@ == found.0@ && r.source@ == "github"@ && r.truncated == found.1,
            None => match local {
                Some(found) => r.logs@ == found.0@ && r.source@ == "runner"@ && r.truncated
                    == found.1,
                None => r.logs@ == Seq::<char>::empty() && r.source@ == "pending"@ && !r.truncated,
            },
        },
{
    match remote {
        Some(found) => ChosenLog { logs: found.0, source: "github", truncated: found.1 },
        None => match local {
            Some(found) => ChosenLog { logs: found.0, source: "runner", truncated: found.1 },
            None => ChosenLog { logs: String::new(), source: "pending", truncated: false },
        },
    }
}

/// Whether the log is the runner's own, whose lines carry two time stamps.
pub fn is_local_source(source: &str) -> (r: bool)
    ensures
        r == (source@ == "runner"@),
{
    same(source, "runner")
}

/// The step that stands for a job whose steps GitHub does not tell, by what is
/// kept of the job.
pub fn fallback_step(
    name: &str,
    status: &str,
    conclusion: Option<String>,
    started_at: Option<i64>,
    completed_at: Option<i64>,
) -> (r: GitHubWorkflowStep)
    ensures
        r@ == (StepView {
            number: 1,
            name: name@,
            status: status@,
            conclusion: text_option(conclusion),
            started_at: kept_instant(started_at),
            completed_at: kept_instant(completed_at),
        }),
{
    GitHubWorkflowStep {
        name: name.to_owned(),
        status: status.to_owned(),
        conclusion,
        number: 1,
        started_at: match started_at {
            Some(millis) => Some(crate::clock::iso(millis)),
            None => None,
        },
        completed_at: match completed_at {
            Some(millis) => Some(crate::clock::iso(millis)),
            None => None,
        },
    }
}

/// The text of an instant that is kept: empty for one outside the calendar.
pub open spec fn kept_instant(value: Option<i64>) -> Option<Seq<char>> {
    match value {
        Some(millis) => Some(
            match crate::clock::millis_rfc3339(millis) {
                Some(text) => text,
                None => Seq::empty(),
            },
        ),
        None => None,
    }
}

/// The time that is shown of a job: GitHub's, or else the one that is kept.
pub fn shown_instant(remote: Option<String>, kept: Option<i64>) -> (r: Option<String>)
    ensures
        text_option(r) == match remote {
            Some(text) => Some(text@),
            None => kept_instant(kept),
        },
{
    match remote {
        Some(text) => Some(text),
        None => match kept {
            Some(millis) => Some(crate::clock::iso(millis)),
            None => None,
        },
    }
}

/// The full name of a repository, where both of its parts are known.
pub fn repository_full_name(owner: Option<&str>, name: Option<&str>) -> (r: Option<String>)
    ensures
        text_option(r) == match (owner, name) {
            (Some(owner), Some(name)) => Some(owner@ + "/"@ + name@),
            _ => None,
        },
{
    match (owner, name) {
        (Some(owner), Some(name)) => Some(concat3(owner, "/", name)),
        _ => None,
    }
}

// ---------------------------------------------------------------------------
// What is kept and shown of logs

/// Of a log, all is kept while it is within 100 MB, and the rest of a piece that passes
/// that is not kept.
pub proof fn a_hundred_megabytes_are_kept(size: i64, chunk: nat)
    requires
        0 <= size <= 104_857_600,
    ensures
        size + chunk <= 104_857_600 ==> kept_of(size, chunk) == chunk,
        size + chunk > 104_857_600 ==> size + kept_of(size, chunk) == 104_857_600,
{
}

/// Of a job's log its last 25 MB are structured, and all of it where it is shorter.
pub proof fn the_end_of_a_log_is_structured(log: Seq<u8>)
    ensures
        log.len() <= 26_214_400 ==> structured_part(log) == log,
        log.len() > 26_214_400 ==> structured_part(log).len() == 26_214_400,
        forall|i: int|
            0 <= i < structured_part(log).len() ==> #[trigger] structured_part(log)[i] == log[log.len()
                - structured_part(log).len() + i],
{
}

/// What is shown of a text is its end: all of it where it fits, and otherwise so much of it
/// that with one character more it would not fit.
pub proof fn the_newest_part_is_as_long_as_fits(s: Seq<char>, limit: nat)
    ensures
        ({
            let part = newest_part(s, limit);
            &&& part.len() <= s.len()
            &&& part == s.skip(s.len() - part.len())
            &&& utf8_len(part) <= limit
            &&& utf8_len(s) <= limit ==> part == s
            &&& utf8_len(s) > limit ==> part.len() < s.len() && utf8_len(
                s.skip(s.len() - part.len() - 1),
            ) > limit
        }),
    decreases s.len(),
{
    assert(s.skip(0) =~= s);
    if s.len() == 0 {
        assert(s =~= Seq::<char>::empty());
        assert(utf8_len(Seq::<char>::empty()) == 0);
    } else if utf8_len(s) > limit {
        let rest = s.drop_first();
        the_newest_part_is_as_long_as_fits(rest, limit);
        let part = newest_part(rest, limit);
        let k = rest.len() - part.len();
        assert(rest.skip(k) =~= s.skip(k + 1));
        if utf8_len(rest) > limit {
            assert(rest.skip(k - 1) =~= s.skip(k));
        } else {
            assert(s.skip(0) =~= s);
        }
    }
}

/// A log is kept for as many times 24 hours as its days.
pub proof fn logs_are_kept_for_their_days(now: i64, days: i64)
    requires
        0 <= now,
        0 <= days,
        now + days * 86_400_000 <= i64::MAX,
    ensures
        expiry_of(now, days) == now + days * 24 * 3_600_000,
{
    assert(days * 86_400_000 == days * 24 * 3_600_000) by (nonlinear_arith);
    assert(days * 86_400_000 >= 0) by (nonlinear_arith)
        requires
            days >= 0,
    ;
}

/// A log that is not there, not there yet or gone is no failure; any other error is.
pub proof fn missing_logs_are_no_failure(status: u16)
    ensures
        log_answer_of(404) == JobLogAnswer::NotThere,
        log_answer_of(409) == JobLogAnswer::NotThere,
        log_answer_of(410) == JobLogAnswer::NotThere,
        400 <= status < 600 && status != 404 && status != 409 && status != 410 ==> log_answer_of(
            status,
        ) == JobLogAnswer::Failed,
        200 <= status < 300 ==> log_answer_of(status) == JobLogAnswer::Log,
{
}

/// The name of a log holds letters, digits, hyphens, underscores and full stops, at most
/// 128 of them, and is none of the names for directories.
pub proof fn log_names_are_plain(name: Seq<char>)
    requires
        name.len() > 0,
        name.len() <= 128,
        name != "."@,
        name != ".."@,
    ensures
        log_name_ok(name) <==> forall|i: int|
            0 <= i < name.len() ==> ('a' <= #[trigger] name[i] <= 'z' || 'A' <= name[i] <= 'Z'
                || '0' <= name[i] <= '9' || name[i] == '-' || name[i] == '_' || name[i] == '.'),
{
    if log_name_ok(name) {
        assert forall|i: int| 0 <= i < name.len() implies ('a' <= #[trigger] name[i] <= 'z' || 'A'
            <= name[i] <= 'Z' || '0' <= name[i] <= '9' || name[i] == '-' || name[i] == '_'
            || name[i] == '.') by {
            assert(alphanumeric(name[i]) || name[i] == '-' || name[i] == '_' || name[i] == '.');
        }
    }
}

/// A stream begins with none of the lines that there are, or with the last 1 to 5000 of them.
pub proof fn streams_begin_with_a_bounded_tail(n: nat)
    ensures
        stream_tail_ok(decimal(n)) <==> n <= 5_000,
        !stream_tail_ok("all"@),
        !stream_tail_ok(Seq::empty()),
{
    decimal_reads_back(n);
    lemma_decimal_value(n);
    reveal_strlit("0");
    reveal_strlit("all");
    assert(decimal(0) =~= "0"@);
    if n > 0 {
        decimal_reads_back(0);
        assert(parsed_nat(decimal(n)) != parsed_nat(decimal(0)));
    }
    assert("all"@[0] == 'a');
    assert("0"@.len() == 1 && "all"@.len() == 3);
    assert(!digit("all"@[0]));
}

}
