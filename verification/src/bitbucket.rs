//! Runners of Bitbucket Pipelines.
use vstd::prelude::*;

use crate::search::{contains_char, has_line_break};
use crate::text::{
    byte_len, chars_of, concat3, concat5, digit, is_digit, is_lowercase_letter, lowercase_letter,
    string_range, texts, utf8_len,
};

verus! {

/// What a runner of Bitbucket Pipelines is registered for: one repository, or a
/// whole workspace. With a workspace one pool of local capacity serves several
/// repositories without a second set of credentials.
#[derive(Debug, Clone)]
pub enum BitbucketRunnerTarget {
    Workspace { workspace: String },
    Repository { workspace: String, repository: String },
}

/// A runner as Bitbucket describes it.
#[derive(Debug, Clone)]
pub struct BitbucketRunner {
    pub uuid: String,
    pub name: String,
    pub labels: Vec<String>,
    pub state: Option<BitbucketRunnerState>,
    pub oauth_client: BitbucketRunnerOAuthClient,
}

/// The state of a runner.
#[derive(Debug, Clone)]
pub struct BitbucketRunnerState {
    pub status: Option<String>,
    pub cordoned: Option<bool>,
}

/// The credentials of a runner. Bitbucket gives the secret exactly once, when
/// the runner is created: it is sealed at once and never shown.
#[derive(Debug, Clone)]
pub struct BitbucketRunnerOAuthClient {
    pub id: String,
    pub secret: Option<String>,
}

/// A workspace as Bitbucket describes it.
#[derive(Debug, Clone)]
pub struct BitbucketWorkspace {
    pub uuid: String,
    pub slug: String,
    pub name: Option<String>,
}

/// A part of a path: not empty, at most 255 bytes, and without characters that
/// would end it.
pub open spec fn segment_ok(value: Seq<char>) -> bool {
    &&& value.len() > 0
    &&& utf8_len(value) <= 255
    &&& !value.contains('/')
    &&& !value.contains('?')
    &&& !value.contains('#')
    &&& !value.contains('\\')
    &&& !value.contains('\r')
    &&& !value.contains('\n')
}

/// Whether a text can be part of a path.
pub fn valid_segment(value: &str) -> (r: bool)
    ensures
        r == segment_ok(value@),
{
    !value.is_empty() && byte_len(value) <= 255 && !contains_char(value, '/') && !contains_char(
        value,
        '?',
    ) && !contains_char(value, '#') && !contains_char(value, '\\') && !has_line_break(value)
}

impl BitbucketRunnerTarget {
    /// What is wrong with the target, if anything is.
    pub open spec fn error(&self) -> Option<Seq<char>> {
        match self {
            BitbucketRunnerTarget::Workspace { workspace } => if segment_ok(workspace@) {
                None
            } else {
                Some("Bitbucket workspace is invalid"@)
            },
            BitbucketRunnerTarget::Repository { workspace, repository } => if segment_ok(
                workspace@,
            ) && segment_ok(repository@) {
                None
            } else {
                Some("Bitbucket workspace or repository is invalid"@)
            },
        }
    }

    /// The path of the target's runners.
    pub open spec fn path(&self) -> Seq<char> {
        match self {
            BitbucketRunnerTarget::Workspace { workspace } => "workspaces/"@ + workspace@
                + "/pipelines-config/runners"@,
            BitbucketRunnerTarget::Repository { workspace, repository } => "repositories/"@
                + workspace@ + "/"@ + repository@ + "/pipelines-config/runners"@,
        }
    }

    /// Checks the target.
    pub fn validate(&self) -> (r: Result<(), String>)
        ensures
            crate::models::fails_with(r, self.error()),
    {
        match self {
            BitbucketRunnerTarget::Workspace { workspace } => {
                if valid_segment(workspace.as_str()) {
                    Ok(())
                } else {
                    Err("Bitbucket workspace is invalid".to_owned())
                }
            },
            BitbucketRunnerTarget::Repository { workspace, repository } => {
                if valid_segment(workspace.as_str()) && valid_segment(repository.as_str()) {
                    Ok(())
                } else {
                    Err("Bitbucket workspace or repository is invalid".to_owned())
                }
            },
        }
    }

    /// The path of the target's runners.
    pub fn runner_path(&self) -> (r: String)
        ensures
            r@ == self.path(),
    {
        match self {
            BitbucketRunnerTarget::Workspace { workspace } => concat3(
                "workspaces/",
                workspace.as_str(),
                "/pipelines-config/runners",
            ),
            BitbucketRunnerTarget::Repository { workspace, repository } => concat5(
                "repositories/",
                workspace.as_str(),
                "/",
                repository.as_str(),
                "/pipelines-config/runners",
            ),
        }
    }
}

/// Small letters, digits and full stops.
pub open spec fn label_chars_ok(label: Seq<char>) -> bool {
    forall|i: int|
        0 <= i < label.len() ==> lowercase_letter(#[trigger] label[i]) || digit(label[i])
            || label[i] == '.'
}

/// Whether a label has only small letters, digits and full stops.
pub fn has_label_chars(label: &str) -> (r: bool)
    ensures
        r == label_chars_ok(label@),
{
    let a: Vec<char> = chars_of(label);
    let mut i: usize = 0;
    while i < a.len()
        invariant
            i <= a@.len(),
            a@ == label@,
            forall|k: int|
                0 <= k < i ==> lowercase_letter(#[trigger] label@[k]) || digit(label@[k])
                    || label@[k] == '.',
        decreases a@.len() - i,
    {
        if !(is_lowercase_letter(a[i]) || is_digit(a[i]) || a[i] == '.') {
            proof {
                assert(!lowercase_letter(label@[i as int]));
            }
            return false;
        }
        i += 1;
    }
    true
}

/// A label that Bitbucket takes.
pub open spec fn remote_label_ok(label: Seq<char>) -> bool {
    label.len() > 0 && utf8_len(label) <= 255 && label_chars_ok(label)
}

/// What is wrong with a request for a runner, if anything is.
pub open spec fn creation_error(
    target: Option<Seq<char>>,
    name: Seq<char>,
    labels: Seq<Seq<char>>,
) -> Option<Seq<char>> {
    if target is Some {
        target
    } else if name.len() == 0 || utf8_len(name) > 255 || name.contains('\r') || name.contains(
        '\n',
    ) {
        Some("Bitbucket runner name is invalid"@)
    } else if labels.len() > 10 || exists|i: int|
        0 <= i < labels.len() && !remote_label_ok(#[trigger] labels[i]) {
        Some("Bitbucket runner labels must contain lowercase letters, numbers, or dots"@)
    } else {
        None
    }
}

/// The path of a request for a new runner, where it can be made.
pub fn creation_path(target: &BitbucketRunnerTarget, name: &str, labels: &[String]) -> (r: Result<
    String,
    String,
>)
    ensures
        match creation_error(target.error(), name@, texts(labels@)) {
            Some(message) => r is Err && r->Err_0@ == message,
            None => r is Ok && r->Ok_0@ == target.path(),
        },
{
    if let Err(message) = target.validate() {
        return Err(message);
    }
    if name.is_empty() || byte_len(name) > 255 || has_line_break(name) {
        return Err("Bitbucket runner name is invalid".to_owned());
    }
    let mut valid: bool = labels.len() <= 10;
    let mut i: usize = 0;
    while i < labels.len()
        invariant
            i <= labels@.len(),
            valid == (labels@.len() <= 10 && forall|k: int|
                0 <= k < i ==> remote_label_ok(#[trigger] texts(labels@)[k])),
        decreases labels@.len() - i,
    {
        let label: &str = labels[i].as_str();
        proof {
            assert(texts(labels@)[i as int] == label@);
        }
        if label.is_empty() || byte_len(label) > 255 || !has_label_chars(label) {
            valid = false;
        }
        i += 1;
    }
    if !valid {
        return Err(
            "Bitbucket runner labels must contain lowercase letters, numbers, or dots".to_owned(),
        );
    }
    Ok(target.runner_path())
}

/// The path of a request for a workspace, where it can be made.
pub fn workspace_path(workspace: &str) -> (r: Result<String, String>)
    ensures
        if segment_ok(workspace@) {
            r is Ok && r->Ok_0@ == "workspaces/"@ + workspace@
        } else {
            r is Err && r->Err_0@ == "Bitbucket workspace is invalid"@
        },
{
    if valid_segment(workspace) {
        Ok(crate::text::concat("workspaces/", workspace))
    } else {
        Err("Bitbucket workspace is invalid".to_owned())
    }
}

// ---------------------------------------------------------------------------
// Removing runners

/// The text is a UUID in one of its usual forms.
pub uninterp spec fn uuid_text(text: Seq<char>) -> bool;

/// `uuid::Uuid::parse_str`: whether it accepts the text. The answer is named.
#[verifier::external_body]
fn parses_as_uuid(text: &str) -> (r: bool)
    ensures
        r == uuid_text(text@),
{
    uuid::Uuid::parse_str(text).is_ok()
}

/// A curly bracket.
pub open spec fn brace(c: char) -> bool {
    c == '{' || c == '}'
}

/// A text without curly brackets in front of it.
pub open spec fn without_leading_braces(s: Seq<char>) -> Seq<char>
    decreases s.len(),
{
    if s.len() > 0 && brace(s[0]) {
        without_leading_braces(s.drop_first())
    } else {
        s
    }
}

/// A text without curly brackets behind it.
pub open spec fn without_trailing_braces(s: Seq<char>) -> Seq<char>
    decreases s.len(),
{
    if s.len() > 0 && brace(s.last()) {
        without_trailing_braces(s.drop_last())
    } else {
        s
    }
}

proof fn lemma_leading_braces(s: Seq<char>, i: int)
    requires
        0 <= i <= s.len(),
        forall|k: int| 0 <= k < i ==> brace(s[k]),
        i < s.len() ==> !brace(s[i]),
    ensures
        without_leading_braces(s) == s.skip(i),
    decreases i,
{
    if i == 0 {
        assert(s.skip(0) =~= s);
    } else {
        lemma_leading_braces(s.drop_first(), i - 1);
        assert(s.drop_first().skip(i - 1) =~= s.skip(i));
    }
}

proof fn lemma_trailing_braces(s: Seq<char>, i: int)
    requires
        0 <= i <= s.len(),
        forall|k: int| i <= k < s.len() ==> brace(s[k]),
        i > 0 ==> !brace(s[i - 1]),
    ensures
        without_trailing_braces(s) == s.take(i),
    decreases s.len() - i,
{
    if i == s.len() {
        assert(s.take(i) =~= s);
    } else {
        lemma_trailing_braces(s.drop_last(), i);
        assert(s.drop_last().take(i) =~= s.take(i));
    }
}

/// A string without curly brackets at its ends.
pub fn strip_braces(value: &str) -> (r: String)
    ensures
        r@ == without_trailing_braces(without_leading_braces(value@)),
{
    let a: Vec<char> = chars_of(value);
    let mut from: usize = 0;
    while from < a.len() && (a[from] == '{' || a[from] == '}')
        invariant
            from <= a@.len(),
            forall|k: int| 0 <= k < from ==> brace(a@[k]),
        decreases a@.len() - from,
    {
        from += 1;
    }
    let mut to: usize = a.len();
    while to > from && (a[to - 1] == '{' || a[to - 1] == '}')
        invariant
            from <= to <= a@.len(),
            forall|k: int| to <= k < a@.len() ==> brace(a@[k]),
        decreases to,
    {
        to -= 1;
    }
    proof {
        lemma_leading_braces(a@, from as int);
        let rest = a@.skip(from as int);
        assert forall|k: int| to - from <= k < rest.len() implies brace(rest[k]) by {
            assert(rest[k] == a@[from + k]);
        }
        lemma_trailing_braces(rest, to - from);
        assert(rest.take(to - from) =~= a@.subrange(from as int, to as int));
    }
    string_range(a.as_slice(), from, to)
}

/// Whether a text is a UUID, with or without curly brackets.
pub fn valid_uuid(value: &str) -> (r: bool)
    ensures
        r == uuid_text(without_trailing_braces(without_leading_braces(value@))),
{
    parses_as_uuid(strip_braces(value).as_str())
}

/// What is wrong with a request to delete a runner, if anything is.
pub open spec fn removal_error(target: Option<Seq<char>>, uuid_ok: bool) -> Option<Seq<char>> {
    if target is Some {
        target
    } else if !uuid_ok {
        Some("Bitbucket runner UUID is invalid"@)
    } else {
        None
    }
}

/// The path of a request to delete a runner, for whether its name is a UUID.
pub fn removal_path_for(target: &BitbucketRunnerTarget, runner_uuid: &str, uuid_ok: bool) -> (r:
    Result<String, String>)
    ensures
        match removal_error(target.error(), uuid_ok) {
            Some(message) => r is Err && r->Err_0@ == message,
            None => r is Ok && r->Ok_0@ == target.path() + "/"@ + runner_uuid@,
        },
{
    if let Err(message) = target.validate() {
        return Err(message);
    }
    if !uuid_ok {
        return Err("Bitbucket runner UUID is invalid".to_owned());
    }
    Ok(concat3(target.runner_path().as_str(), "/", runner_uuid))
}

/// The path of a request to delete a runner, where it can be made.
pub fn removal_path(target: &BitbucketRunnerTarget, runner_uuid: &str) -> (r: Result<
    String,
    String,
>)
    ensures
        match removal_error(
            target.error(),
            uuid_text(without_trailing_braces(without_leading_braces(runner_uuid@))),
        ) {
            Some(message) => r is Err && r->Err_0@ == message,
            None => r is Ok && r->Ok_0@ == target.path() + "/"@ + runner_uuid@,
        },
{
    let uuid_ok: bool = valid_uuid(runner_uuid);
    removal_path_for(target, runner_uuid, uuid_ok)
}

/// A target that passes the check stays within its own part of the path: the
/// names in it hold no separator.
pub proof fn accepted_targets_cannot_leave_their_path(target: BitbucketRunnerTarget)
    requires
        target.error() is None,
    ensures
        match target {
            BitbucketRunnerTarget::Workspace { workspace } => !workspace@.contains('/'),
            BitbucketRunnerTarget::Repository { workspace, repository } => !workspace@.contains('/')
                && !repository@.contains('/'),
        },
{
}

/// A runner can be asked for exactly at a target in order, under a name of 1 to 255 bytes on
/// one line, and with at most ten labels of small letters, digits and full stops.
pub proof fn requests_for_runners_in_order(
    target: Option<Seq<char>>,
    name: Seq<char>,
    labels: Seq<Seq<char>>,
)
    ensures
        creation_error(target, name, labels) is None <==> {
            &&& target is None
            &&& name.len() > 0 && utf8_len(name) <= 255
            &&& !name.contains('\n') && !name.contains('\r')
            &&& labels.len() <= 10
            &&& forall|i: int|
                0 <= i < labels.len() ==> (#[trigger] labels[i]).len() > 0 && utf8_len(labels[i])
                    <= 255 && label_chars_ok(labels[i])
        },
        label_chars_ok(name) <==> forall|i: int|
            0 <= i < name.len() ==> ('a' <= #[trigger] name[i] <= 'z' || '0' <= name[i] <= '9'
                || name[i] == '.'),
        target is Some ==> removal_error(target, true) == target,
        removal_error(None, false) is Some,
        removal_error(None, true) is None,
{
    if creation_error(target, name, labels) is None {
        assert forall|i: int| 0 <= i < labels.len() implies (#[trigger] labels[i]).len() > 0
            && utf8_len(labels[i]) <= 255 && label_chars_ok(labels[i]) by {
            assert(remote_label_ok(labels[i]));
        }
    }
    if label_chars_ok(name) {
        assert forall|i: int| 0 <= i < name.len() implies ('a' <= #[trigger] name[i] <= 'z' || '0'
            <= name[i] <= '9' || name[i] == '.') by {
            assert(lowercase_letter(name[i]) || digit(name[i]) || name[i] == '.');
        }
    }
}

/// A part of a path is in order exactly if it has 1 to 255 bytes and nothing in it that would
/// end it; the target of a runner is in order exactly if its parts are.
pub proof fn targets_in_order(workspace: String, repository: String)
    ensures
        segment_ok(workspace@) <==> 1 <= workspace@.len() && utf8_len(workspace@) <= 255 && forall|
            i: int,
        |
            0 <= i < workspace@.len() ==> #[trigger] workspace@[i] != '/' && workspace@[i] != '?'
                && workspace@[i] != '#' && workspace@[i] != '\\' && workspace@[i] != '\r'
                && workspace@[i] != '\n',
        (BitbucketRunnerTarget::Workspace { workspace }).error() is None <==> segment_ok(
            workspace@,
        ),
        (BitbucketRunnerTarget::Repository { workspace, repository }).error() is None
            <==> segment_ok(workspace@) && segment_ok(repository@),
        (BitbucketRunnerTarget::Workspace { workspace }).path() == "workspaces/"@ + workspace@
            + "/pipelines-config/runners"@,
        (BitbucketRunnerTarget::Repository { workspace, repository }).path() == "repositories/"@
            + workspace@ + "/"@ + repository@ + "/pipelines-config/runners"@,
{
    let text = workspace@;
    if segment_ok(text) {
        assert forall|i: int| 0 <= i < text.len() implies #[trigger] text[i] != '/' && text[i]
            != '?' && text[i] != '#' && text[i] != '\\' && text[i] != '\r' && text[i] != '\n' by {
            assert(text.contains(text[i]));
        }
    }
}

}
