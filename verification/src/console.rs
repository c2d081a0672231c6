//! Lines of a job's console output: terminal control sequences, time stamps,
//! workflow commands, and the diagnostics of the runner that are kept out.
use vstd::prelude::*;

use crate::clock::{date_millis, github_date_millis};
use crate::search::{
    find_char, first_position, lemma_first_position, split_once, starts_with, strip_prefix,
    trim_end, trim_end_text,
};
use crate::text::{
    chars_of, concat, is_lowercase_letter, is_uppercase_letter, lowercase_letter, same, string_of,
    string_range, text_option, uppercase_letter, whitespace,
};

verus! {

// ---------------------------------------------------------------------------
// Terminal control sequences

/// An ASCII letter.
pub open spec fn letter(c: char) -> bool {
    lowercase_letter(c) || uppercase_letter(c)
}

/// The position behind the first letter of a text, or its length where it
/// holds no letter.
pub open spec fn past_letter(s: Seq<char>) -> int
    decreases s.len(),
{
    if s.len() == 0 {
        0
    } else if letter(s[0]) {
        1
    } else {
        1 + past_letter(s.drop_first())
    }
}

proof fn lemma_past_letter(s: Seq<char>, i: int)
    requires
        0 <= i <= s.len(),
        forall|k: int| 0 <= k < i ==> !letter(s[k]),
        i < s.len() ==> letter(s[i]),
    ensures
        past_letter(s) == if i < s.len() {
            i + 1
        } else {
            i
        },
    decreases i,
{
    if i > 0 {
        lemma_past_letter(s.drop_first(), i - 1);
    }
}

proof fn lemma_past_letter_range(s: Seq<char>)
    ensures
        0 <= past_letter(s) <= s.len(),
    decreases s.len(),
{
    if s.len() > 0 && !letter(s[0]) {
        lemma_past_letter_range(s.drop_first());
    }
}

/// A text without its terminal control sequences. A sequence is an escape
/// character, an opening bracket and everything up to the next letter; an
/// escape character without a bracket behind it is dropped alone.
pub open spec fn without_ansi(s: Seq<char>) -> Seq<char>
    decreases s.len(),
    via without_ansi_decreases
{
    if s.len() == 0 {
        Seq::empty()
    } else if s[0] != '\u{1b}' {
        seq![s[0]] + without_ansi(s.drop_first())
    } else if s.len() > 1 && s[1] == '[' {
        without_ansi(s.skip(2 + past_letter(s.skip(2))))
    } else {
        without_ansi(s.drop_first())
    }
}

#[via_fn]
proof fn without_ansi_decreases(s: Seq<char>) {
    if s.len() > 1 {
        lemma_past_letter_range(s.skip(2));
    }
}

/// A string without its terminal control sequences.
pub fn strip_ansi_sequences(value: &str) -> (r: String)
    ensures
        r@ == without_ansi(value@),
{
    let a: Vec<char> = chars_of(value);
    let length: usize = a.len();
    let mut out: Vec<char> = Vec::new();
    let mut i: usize = 0;
    proof {
        assert(a@.skip(0) =~= a@);
        assert(out@ + without_ansi(a@.skip(0)) =~= without_ansi(a@));
    }
    while i < length
        invariant
            i <= length,
            length == a@.len(),
            a@ == value@,
            out@ + without_ansi(a@.skip(i as int)) == without_ansi(a@),
        decreases length - i,
    {
        let ghost rest = a@.skip(i as int);
        let ghost before = out@;
        proof {
            assert(rest[0] == a@[i as int]);
            assert(rest.drop_first() =~= a@.skip(i + 1));
        }
        if a[i] != '\u{1b}' {
            out.push(a[i]);
            i += 1;
            proof {
                assert(out@ + without_ansi(a@.skip(i as int)) =~= before + without_ansi(rest));
            }
        } else if i + 1 < length && a[i + 1] == '[' {
            let mut j: usize = i + 2;
            let ghost tail = a@.skip(i + 2);
            while j < length && !(is_lowercase_letter(a[j]) || is_uppercase_letter(a[j]))
                invariant
                    i + 2 <= j <= length,
                    length == a@.len(),
                    tail == a@.skip(i + 2),
                    forall|k: int| 0 <= k < j - i - 2 ==> !letter(#[trigger] tail[k]),
                decreases length - j,
            {
                proof {
                    assert(tail[j - i - 2] == a@[j as int]);
                }
                j += 1;
            }
            proof {
                if j < length {
                    assert(tail[j - i - 2] == a@[j as int]);
                }
                lemma_past_letter(tail, j - i - 2);
                assert(rest[1] == a@[i + 1]);
                assert(rest.skip(2) =~= tail);
            }
            if j < length {
                j += 1;
            }
            proof {
                assert(rest.skip(2 + past_letter(tail)) =~= a@.skip(j as int));
            }
            i = j;
        } else {
            proof {
                if rest.len() > 1 {
                    assert(rest[1] == a@[i + 1]);
                }
            }
            i += 1;
        }
    }
    proof {
        assert(out@ + without_ansi(a@.skip(i as int)) =~= out@);
    }
    string_of(out.as_slice())
}

/// What is left of a text without control sequences holds no escape character.
pub proof fn stripped_text_has_no_escape(s: Seq<char>)
    ensures
        !without_ansi(s).contains('\u{1b}'),
    decreases s.len(),
{
    if s.len() > 0 {
        if s[0] != '\u{1b}' {
            stripped_text_has_no_escape(s.drop_first());
            let rest = without_ansi(s.drop_first());
            assert forall|i: int| 0 <= i < (seq![s[0]] + rest).len() implies (seq![s[0]] + rest)[i]
                != '\u{1b}' by {
                if i > 0 {
                    assert(rest.contains(rest[i - 1]));
                }
            }
        } else if s.len() > 1 && s[1] == '[' {
            lemma_past_letter_range(s.skip(2));
            stripped_text_has_no_escape(s.skip(2 + past_letter(s.skip(2))));
        } else {
            stripped_text_has_no_escape(s.drop_first());
        }
    }
}

/// A text without escape characters is left as it is.
pub proof fn plain_text_is_not_stripped(s: Seq<char>)
    requires
        !s.contains('\u{1b}'),
    ensures
        without_ansi(s) == s,
    decreases s.len(),
{
    if s.len() > 0 {
        assert(s.contains(s[0]));
        assert forall|i: int| 0 <= i < s.drop_first().len() implies s.drop_first()[i]
            != '\u{1b}' by {
            assert(s.contains(s[i + 1]));
        }
        plain_text_is_not_stripped(s.drop_first());
        assert(seq![s[0]] + s.drop_first() =~= s);
    } else {
        assert(without_ansi(s) =~= s);
    }
}

// ---------------------------------------------------------------------------
// Time stamps

/// The number of times that `c` stands at the start of a text.
pub open spec fn leading_run(s: Seq<char>, c: char) -> int
    decreases s.len(),
{
    if s.len() > 0 && s[0] == c {
        1 + leading_run(s.drop_first(), c)
    } else {
        0
    }
}

proof fn lemma_leading_run(s: Seq<char>, c: char, i: int)
    requires
        0 <= i <= s.len(),
        forall|k: int| 0 <= k < i ==> s[k] == c,
        i < s.len() ==> s[i] != c,
    ensures
        leading_run(s, c) == i,
    decreases i,
{
    if i > 0 {
        lemma_leading_run(s.drop_first(), c, i - 1);
    }
}

/// A text without the byte order marks in front of it.
pub open spec fn without_byte_order_mark(s: Seq<char>) -> Seq<char> {
    s.skip(leading_run(s, '\u{feff}'))
}

/// A text without the carriage returns behind it.
pub open spec fn without_carriage_returns(s: Seq<char>) -> Seq<char>
    decreases s.len(),
{
    if s.len() > 0 && s.last() == '\r' {
        without_carriage_returns(s.drop_last())
    } else {
        s
    }
}

proof fn lemma_without_carriage_returns(s: Seq<char>, i: int)
    requires
        0 <= i <= s.len(),
        forall|k: int| i <= k < s.len() ==> s[k] == '\r',
        i > 0 ==> s[i - 1] != '\r',
    ensures
        without_carriage_returns(s) == s.take(i),
    decreases s.len() - i,
{
    if i == s.len() {
        assert(s.take(i) =~= s);
    } else {
        lemma_without_carriage_returns(s.drop_last(), i);
        assert(s.drop_last().take(i) =~= s.take(i));
    }
}

/// A string without the byte order marks in front of it.
pub fn strip_byte_order_mark(value: &str) -> (r: String)
    ensures
        r@ == without_byte_order_mark(value@),
{
    let a: Vec<char> = chars_of(value);
    let mut i: usize = 0;
    while i < a.len() && a[i] == '\u{feff}'
        invariant
            i <= a@.len(),
            forall|k: int| 0 <= k < i ==> a@[k] == '\u{feff}',
        decreases a@.len() - i,
    {
        i += 1;
    }
    let out: String = string_range(a.as_slice(), i, a.len());
    proof {
        lemma_leading_run(a@, '\u{feff}', i as int);
        assert(out@ =~= a@.skip(i as int));
    }
    out
}

/// A string without the carriage returns behind it.
pub fn strip_carriage_returns(value: &str) -> (r: String)
    ensures
        r@ == without_carriage_returns(value@),
{
    let a: Vec<char> = chars_of(value);
    let mut i: usize = a.len();
    while i > 0 && a[i - 1] == '\r'
        invariant
            i <= a@.len(),
            forall|k: int| i <= k < a@.len() ==> a@[k] == '\r',
        decreases i,
    {
        i -= 1;
    }
    let out: String = string_range(a.as_slice(), 0, i);
    proof {
        lemma_without_carriage_returns(a@, i as int);
        assert(out@ =~= a@.take(i as int));
    }
    out
}

/// What stands in front of the first space of a line, where a time stamp is
/// expected; nothing where there is no space.
pub open spec fn stamp_candidate(value: Seq<char>) -> Option<Seq<char>> {
    let line = without_byte_order_mark(value);
    if line.contains(' ') {
        Some(line.take(first_position(line, ' ')))
    } else {
        None
    }
}

/// A line split into its time stamp and what follows it, where the text in
/// front of the first space stands for the instant `parsed`.
pub open spec fn stamped(value: Seq<char>, parsed: Option<i64>) -> (Option<i64>, Seq<char>) {
    let line = without_byte_order_mark(value);
    if line.contains(' ') && parsed is Some {
        (parsed, line.skip(first_position(line, ' ') + 1))
    } else {
        (None, line)
    }
}

/// A line split into its time stamp and what follows it.
pub open spec fn stamp_split(value: Seq<char>) -> (Option<i64>, Seq<char>) {
    stamped(value, date_millis(stamp_candidate(value)))
}

/// What stands in front of the first space of a line.
pub fn timestamp_candidate(value: &str) -> (r: Option<String>)
    ensures
        text_option(r) == stamp_candidate(value@),
{
    let line: String = strip_byte_order_mark(value);
    let a: Vec<char> = chars_of(line.as_str());
    match find_char(a.as_slice(), ' ', 0) {
        Some(i) => {
            let out: String = string_range(a.as_slice(), 0, i);
            proof {
                lemma_first_position(line@, ' ', i as int);
                assert(line@[i as int] == ' ');
                assert(out@ =~= line@.take(i as int));
            }
            Some(out)
        },
        None => None,
    }
}

/// The time stamp and the rest of a line, for what the text in front of its
/// first space stands for.
pub fn apply_timestamp(value: &str, parsed: Option<i64>) -> (r: (Option<i64>, String))
    ensures
        (r.0, r.1@) == stamped(value@, parsed),
{
    let line: String = strip_byte_order_mark(value);
    if parsed.is_none() {
        return (None, line);
    }
    let a: Vec<char> = chars_of(line.as_str());
    let length: usize = a.len();
    match find_char(a.as_slice(), ' ', 0) {
        Some(i) => {
            let rest: String = string_range(a.as_slice(), i + 1, length);
            proof {
                lemma_first_position(line@, ' ', i as int);
                assert(line@[i as int] == ' ');
                assert(rest@ =~= line@.skip(i + 1));
            }
            (parsed, rest)
        },
        None => (None, line),
    }
}

/// Splits a line into its time stamp and what follows it.
pub fn split_log_timestamp(value: &str) -> (r: (Option<i64>, String))
    ensures
        (r.0, r.1@) == stamp_split(value@),
{
    let parsed: Option<i64> = match timestamp_candidate(value) {
        Some(candidate) => github_date_millis(Some(candidate.as_str())),
        None => None,
    };
    apply_timestamp(value, parsed)
}

// ---------------------------------------------------------------------------
// Workflow commands

/// What a line of the console is.
#[derive(Clone, Copy, Debug, PartialEq, Eq, Structural)]
pub enum LogLevel {
    Output,
    Group,
    Error,
    Warning,
    Notice,
    Command,
}

impl LogLevel {
    /// The name of the level.
    pub open spec fn label(self) -> Seq<char> {
        match self {
            LogLevel::Output => "output"@,
            LogLevel::Group => "group"@,
            LogLevel::Error => "error"@,
            LogLevel::Warning => "warning"@,
            LogLevel::Notice => "notice"@,
            LogLevel::Command => "command"@,
        }
    }

    /// The name of the level.
    pub fn as_str(&self) -> (r: &'static str)
        ensures
            r@ == self.label(),
    {
        match self {
            LogLevel::Output => "output",
            LogLevel::Group => "group",
            LogLevel::Error => "error",
            LogLevel::Warning => "warning",
            LogLevel::Notice => "notice",
            LogLevel::Command => "command",
        }
    }
}

/// The message of a line that begins with `##[`, the command and, after any
/// parameters, a closing bracket.
pub open spec fn command_message(value: Seq<char>, command: Seq<char>) -> Option<Seq<char>> {
    let mark = "##["@ + command;
    let rest = value.skip(mark.len() as int);
    if mark.is_prefix_of(value) && rest.contains(']') {
        Some(rest.skip(first_position(rest, ']') + 1))
    } else {
        None
    }
}

/// The message of a workflow command in a line.
pub fn github_command_message(value: &str, command: &str) -> (r: Option<String>)
    ensures
        text_option(r) == command_message(value@, command@),
{
    let mark: String = concat("##[", command);
    match strip_prefix(value, mark.as_str()) {
        Some(rest) => {
            proof {
                assert(value@.skip(mark@.len() as int) =~= rest@);
                assert(value@.take(mark@.len() as int) =~= mark@);
            }
            match split_once(rest.as_str(), ']') {
                Some(parts) => {
                    proof {
                        let i = parts.0@.len() as int;
                        assert(rest@[i] == ']');
                        assert forall|k: int| 0 <= k < i implies rest@[k] != ']' by {
                            assert(parts.0@.contains(parts.0@[k]));
                        }
                        lemma_first_position(rest@, ']', i);
                        assert(rest@.skip(i + 1) =~= parts.1@);
                    }
                    Some(parts.1)
                },
                None => None,
            }
        },
        None => None,
    }
}

/// The level and the text of a line of the console; nothing for the end of a
/// group and for debug output, which are not shown.
pub open spec fn console_class(value: Seq<char>) -> Option<(LogLevel, Seq<char>)> {
    let line = trim_end_text(value);
    if line == "##[endgroup]"@ || "##[debug]"@.is_prefix_of(line) {
        None
    } else if command_message(line, "group"@) is Some {
        Some((LogLevel::Group, command_message(line, "group"@)->0))
    } else if command_message(line, "error"@) is Some {
        Some((LogLevel::Error, command_message(line, "error"@)->0))
    } else if command_message(line, "warning"@) is Some {
        Some((LogLevel::Warning, command_message(line, "warning"@)->0))
    } else if command_message(line, "notice"@) is Some {
        Some((LogLevel::Notice, command_message(line, "notice"@)->0))
    } else if command_message(line, "command"@) is Some {
        Some((LogLevel::Command, command_message(line, "command"@)->0))
    } else if command_message(line, "section"@) is Some {
        Some((LogLevel::Group, command_message(line, "section"@)->0))
    } else {
        Some((LogLevel::Output, line))
    }
}

/// The characters of a classified line.
pub open spec fn class_text(class: Option<(LogLevel, String)>) -> Option<(LogLevel, Seq<char>)> {
    match class {
        Some(found) => Some((found.0, found.1@)),
        None => None,
    }
}

/// The level and the text of a line of the console.
pub fn classify_console_line(value: &str) -> (r: Option<(LogLevel, String)>)
    ensures
        class_text(r) == console_class(value@),
{
    let line: String = trim_end(value);
    if same(line.as_str(), "##[endgroup]") || starts_with(line.as_str(), "##[debug]") {
        return None;
    }
    if let Some(text) = github_command_message(line.as_str(), "group") {
        return Some((LogLevel::Group, text));
    }
    if let Some(text) = github_command_message(line.as_str(), "error") {
        return Some((LogLevel::Error, text));
    }
    if let Some(text) = github_command_message(line.as_str(), "warning") {
        return Some((LogLevel::Warning, text));
    }
    if let Some(text) = github_command_message(line.as_str(), "notice") {
        return Some((LogLevel::Notice, text));
    }
    if let Some(text) = github_command_message(line.as_str(), "command") {
        return Some((LogLevel::Command, text));
    }
    if let Some(text) = github_command_message(line.as_str(), "section") {
        return Some((LogLevel::Group, text));
    }
    Some((LogLevel::Output, line))
}

/// A line that begins with no workflow command is output, as it is but for the white
/// space behind it.
pub proof fn plain_lines_are_output(line: Seq<char>)
    requires
        !"##["@.is_prefix_of(line),
    ensures
        console_class(line) == Some((LogLevel::Output, trim_end_text(line))),
{
    reveal_strlit("##[");
    reveal_strlit("##[endgroup]");
    reveal_strlit("##[debug]");
    let text = trim_end_text(line);
    lemma_trim_end_prefix(line);
    assert(!"##["@.is_prefix_of(text)) by {
        if "##["@.is_prefix_of(text) {
            assert(line.take(3) =~= text.take(3));
        }
    }
    if text == "##[endgroup]"@ {
        assert(text.take(3) =~= "##["@);
    }
    if "##[debug]"@.is_prefix_of(text) {
        assert(text.take(3) =~= "##[debug]"@.take(3));
        assert("##[debug]"@.take(3) =~= "##["@);
    }
    lemma_no_command(text, "group"@);
    lemma_no_command(text, "error"@);
    lemma_no_command(text, "warning"@);
    lemma_no_command(text, "notice"@);
    lemma_no_command(text, "command"@);
    lemma_no_command(text, "section"@);
}

proof fn lemma_trim_end_prefix(s: Seq<char>)
    ensures
        trim_end_text(s).is_prefix_of(s),
    decreases s.len(),
{
    if s.len() > 0 {
        lemma_trim_end_prefix(s.drop_last());
        if whitespace(s.last()) {
            let text = trim_end_text(s);
            assert(s.take(text.len() as int) =~= s.drop_last().take(text.len() as int));
        }
    }
}

proof fn lemma_no_command(line: Seq<char>, command: Seq<char>)
    requires
        !"##["@.is_prefix_of(line),
    ensures
        command_message(line, command) is None,
{
    reveal_strlit("##[");
    let mark = "##["@ + command;
    if mark.is_prefix_of(line) {
        assert(line.take(3) =~= mark.take(3));
        assert(mark.take(3) =~= "##["@);
    }
}

/// The line of a workflow command with parameters and a message.
pub open spec fn command_line(
    command: Seq<char>,
    parameters: Seq<char>,
    message: Seq<char>,
) -> Seq<char> {
    "##["@ + command + parameters + "]"@ + message
}

/// A workflow command gives its message the level that the command names; a section is
/// a group. The end of a group and debug output are not shown.
pub proof fn commands_name_their_levels(parameters: Seq<char>, message: Seq<char>)
    requires
        forall|i: int| 0 <= i < parameters.len() ==> #[trigger] parameters[i] != ']',
        message.len() > 0 ==> !whitespace(message.last()),
    ensures
        console_class(command_line("group"@, parameters, message)) == Some(
            (LogLevel::Group, message),
        ),
        console_class(command_line("error"@, parameters, message)) == Some(
            (LogLevel::Error, message),
        ),
        console_class(command_line("warning"@, parameters, message)) == Some(
            (LogLevel::Warning, message),
        ),
        console_class(command_line("notice"@, parameters, message)) == Some(
            (LogLevel::Notice, message),
        ),
        console_class(command_line("command"@, parameters, message)) == Some(
            (LogLevel::Command, message),
        ),
        console_class(command_line("section"@, parameters, message)) == Some(
            (LogLevel::Group, message),
        ),
        console_class("##[debug]"@ + message) is None,
        console_class("##[endgroup]"@) is None,
{
    reveal_strlit("##[endgroup]");
    reveal_strlit("##[debug]");
    lemma_group_lines(parameters, message);
    lemma_error_lines(parameters, message);
    lemma_warning_lines(parameters, message);
    lemma_notice_lines(parameters, message);
    lemma_command_lines(parameters, message);
    lemma_section_lines(parameters, message);
    let debug = "##[debug]"@ + message;
    assert(debug.take(9) =~= "##[debug]"@);
    if message.len() > 0 {
        assert(debug.last() == message.last());
    } else {
        assert(debug.last() == ']');
    }
    assert("##[endgroup]"@.last() == ']');
}

proof fn lemma_group_lines(parameters: Seq<char>, message: Seq<char>)
    requires
        forall|i: int| 0 <= i < parameters.len() ==> #[trigger] parameters[i] != ']',
        message.len() > 0 ==> !whitespace(message.last()),
    ensures
        console_class(command_line("group"@, parameters, message)) == Some(
            (LogLevel::Group, message),
        ),
{
    let line = command_line("group"@, parameters, message);
    reveal_strlit("group");
    lemma_command("group"@, parameters, message);
    assert(line[3] == 'g' && line[4] == 'r') by {
        reveal_strlit("##[");
    }
    assert(line != "##[endgroup]"@ && !"##[debug]"@.is_prefix_of(line)) by {
        reveal_strlit("##[endgroup]");
        reveal_strlit("##[debug]");
        assert(line.take(9)[3] == line[3]);
    }
}

proof fn lemma_error_lines(parameters: Seq<char>, message: Seq<char>)
    requires
        forall|i: int| 0 <= i < parameters.len() ==> #[trigger] parameters[i] != ']',
        message.len() > 0 ==> !whitespace(message.last()),
    ensures
        console_class(command_line("error"@, parameters, message)) == Some(
            (LogLevel::Error, message),
        ),
{
    let line = command_line("error"@, parameters, message);
    reveal_strlit("error");
    lemma_command("error"@, parameters, message);
    reveal_strlit("group");
    lemma_other_command("error"@, "group"@, parameters, message);
    assert(line[3] == 'e' && line[4] == 'r') by {
        reveal_strlit("##[");
    }
    assert(line != "##[endgroup]"@ && !"##[debug]"@.is_prefix_of(line)) by {
        reveal_strlit("##[endgroup]");
        reveal_strlit("##[debug]");
        assert(line.take(9)[3] == line[3]);
    }
}

proof fn lemma_warning_lines(parameters: Seq<char>, message: Seq<char>)
    requires
        forall|i: int| 0 <= i < parameters.len() ==> #[trigger] parameters[i] != ']',
        message.len() > 0 ==> !whitespace(message.last()),
    ensures
        console_class(command_line("warning"@, parameters, message)) == Some(
            (LogLevel::Warning, message),
        ),
{
    let line = command_line("warning"@, parameters, message);
    reveal_strlit("warning");
    lemma_command("warning"@, parameters, message);
    reveal_strlit("group");
    lemma_other_command("warning"@, "group"@, parameters, message);
    reveal_strlit("error");
    lemma_other_command("warning"@, "error"@, parameters, message);
    assert(line[3] == 'w' && line[4] == 'a') by {
        reveal_strlit("##[");
    }
    assert(line != "##[endgroup]"@ && !"##[debug]"@.is_prefix_of(line)) by {
        reveal_strlit("##[endgroup]");
        reveal_strlit("##[debug]");
        assert(line.take(9)[3] == line[3]);
    }
}

proof fn lemma_notice_lines(parameters: Seq<char>, message: Seq<char>)
    requires
        forall|i: int| 0 <= i < parameters.len() ==> #[trigger] parameters[i] != ']',
        message.len() > 0 ==> !whitespace(message.last()),
    ensures
        console_class(command_line("notice"@, parameters, message)) == Some(
            (LogLevel::Notice, message),
        ),
{
    let line = command_line("notice"@, parameters, message);
    reveal_strlit("notice");
    lemma_command("notice"@, parameters, message);
    reveal_strlit("group");
    lemma_other_command("notice"@, "group"@, parameters, message);
    reveal_strlit("error");
    lemma_other_command("notice"@, "error"@, parameters, message);
    reveal_strlit("warning");
    lemma_other_command("notice"@, "warning"@, parameters, message);
    assert(line[3] == 'n' && line[4] == 'o') by {
        reveal_strlit("##[");
    }
    assert(line != "##[endgroup]"@ && !"##[debug]"@.is_prefix_of(line)) by {
        reveal_strlit("##[endgroup]");
        reveal_strlit("##[debug]");
        assert(line.take(9)[3] == line[3]);
    }
}

proof fn lemma_command_lines(parameters: Seq<char>, message: Seq<char>)
    requires
        forall|i: int| 0 <= i < parameters.len() ==> #[trigger] parameters[i] != ']',
        message.len() > 0 ==> !whitespace(message.last()),
    ensures
        console_class(command_line("command"@, parameters, message)) == Some(
            (LogLevel::Command, message),
        ),
{
    let line = command_line("command"@, parameters, message);
    reveal_strlit("command");
    lemma_command("command"@, parameters, message);
    reveal_strlit("group");
    lemma_other_command("command"@, "group"@, parameters, message);
    reveal_strlit("error");
    lemma_other_command("command"@, "error"@, parameters, message);
    reveal_strlit("warning");
    lemma_other_command("command"@, "warning"@, parameters, message);
    reveal_strlit("notice");
    lemma_other_command("command"@, "notice"@, parameters, message);
    assert(line[3] == 'c' && line[4] == 'o') by {
        reveal_strlit("##[");
    }
    assert(line != "##[endgroup]"@ && !"##[debug]"@.is_prefix_of(line)) by {
        reveal_strlit("##[endgroup]");
        reveal_strlit("##[debug]");
        assert(line.take(9)[3] == line[3]);
    }
}

proof fn lemma_section_lines(parameters: Seq<char>, message: Seq<char>)
    requires
        forall|i: int| 0 <= i < parameters.len() ==> #[trigger] parameters[i] != ']',
        message.len() > 0 ==> !whitespace(message.last()),
    ensures
        console_class(command_line("section"@, parameters, message)) == Some(
            (LogLevel::Group, message),
        ),
{
    let line = command_line("section"@, parameters, message);
    reveal_strlit("section");
    lemma_command("section"@, parameters, message);
    reveal_strlit("group");
    lemma_other_command("section"@, "group"@, parameters, message);
    reveal_strlit("error");
    lemma_other_command("section"@, "error"@, parameters, message);
    reveal_strlit("warning");
    lemma_other_command("section"@, "warning"@, parameters, message);
    reveal_strlit("notice");
    lemma_other_command("section"@, "notice"@, parameters, message);
    reveal_strlit("command");
    lemma_other_command("section"@, "command"@, parameters, message);
    assert(line[3] == 's' && line[4] == 'e') by {
        reveal_strlit("##[");
    }
    assert(line != "##[endgroup]"@ && !"##[debug]"@.is_prefix_of(line)) by {
        reveal_strlit("##[endgroup]");
        reveal_strlit("##[debug]");
        assert(line.take(9)[3] == line[3]);
    }
}

proof fn lemma_command(command: Seq<char>, parameters: Seq<char>, message: Seq<char>)
    requires
        forall|i: int| 0 <= i < parameters.len() ==> #[trigger] parameters[i] != ']',
        message.len() > 0 ==> !whitespace(message.last()),
    ensures
        command_message(command_line(command, parameters, message), command) == Some(message),
        trim_end_text(command_line(command, parameters, message)) == command_line(
            command,
            parameters,
            message,
        ),
{
    reveal_strlit("##[");
    reveal_strlit("]");
    let line = command_line(command, parameters, message);
    let mark = "##["@ + command;
    let rest = line.skip(mark.len() as int);
    assert(line.take(mark.len() as int) =~= mark);
    assert(rest =~= parameters + "]"@ + message);
    assert(rest[parameters.len() as int] == ']');
    lemma_first_position(rest, ']', parameters.len() as int);
    assert(rest.skip(parameters.len() as int + 1) =~= message);
    if message.len() > 0 {
        assert(line.last() == message.last());
    } else {
        assert(line.last() == ']');
    }
}

proof fn lemma_other_command(
    command: Seq<char>,
    other: Seq<char>,
    parameters: Seq<char>,
    message: Seq<char>,
)
    requires
        command.len() > 0,
        other.len() > 0,
        other[0] != command[0],
    ensures
        command_message(command_line(command, parameters, message), other) is None,
{
    reveal_strlit("##[");
    let line = command_line(command, parameters, message);
    let mark = "##["@ + other;
    if mark.is_prefix_of(line) {
        assert(mark[3] == other[0]);
        assert(line.take(mark.len() as int)[3] == line[3]);
        assert(line[3] == command[0]);
    }
}

/// A control sequence is taken out of a text, and nothing else: what stands in front of
/// it stays, and what stands behind it is stripped in its turn.
pub proof fn control_sequences_are_taken_out(
    front: Seq<char>,
    inside: Seq<char>,
    end: char,
    rest: Seq<char>,
)
    requires
        !front.contains('\u{1b}'),
        forall|i: int|
            0 <= i < inside.len() ==> !('a' <= #[trigger] inside[i] <= 'z') && !('A' <= inside[i]
                <= 'Z'),
        'a' <= end <= 'z' || 'A' <= end <= 'Z',
    ensures
        without_ansi(front + seq!['\u{1b}', '['] + inside + seq![end] + rest) == front
            + without_ansi(rest),
    decreases front.len(),
{
    let whole = front + seq!['\u{1b}', '['] + inside + seq![end] + rest;
    if front.len() > 0 {
        let less = front.drop_first();
        assert forall|i: int| 0 <= i < less.len() implies less[i] != '\u{1b}' by {
            assert(front.contains(front[i + 1]));
        }
        control_sequences_are_taken_out(less, inside, end, rest);
        assert(front.contains(front[0]));
        assert(whole[0] == front[0]);
        assert(whole.drop_first() =~= less + seq!['\u{1b}', '['] + inside + seq![end] + rest);
        assert(seq![front[0]] + (less + without_ansi(rest)) =~= front + without_ansi(rest));
    } else {
        let tail = whole.skip(2);
        assert(whole[0] == '\u{1b}' && whole[1] == '[');
        assert(tail =~= inside + seq![end] + rest);
        assert forall|k: int| 0 <= k < inside.len() implies !letter(tail[k]) by {
            assert(tail[k] == inside[k]);
        }
        assert(tail[inside.len() as int] == end);
        lemma_past_letter(tail, inside.len() as int);
        assert(whole.skip(2 + past_letter(tail)) =~= rest);
        assert(front + without_ansi(rest) =~= without_ansi(rest));
    }
}

/// Carriage returns are dropped behind a line, and nowhere else.
pub proof fn only_returns_at_the_end_are_dropped(line: Seq<char>, count: nat)
    requires
        line.len() > 0 ==> line.last() != '\r',
    ensures
        without_carriage_returns(line + Seq::new(count, |i: int| '\r')) == line,
{
    let whole = line + Seq::new(count, |i: int| '\r');
    lemma_without_carriage_returns(whole, line.len() as int);
    assert(whole.take(line.len() as int) =~= line);
}

}
