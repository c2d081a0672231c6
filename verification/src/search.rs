//! Searching, splitting, trimming and joining of texts.
use vstd::prelude::*;

use crate::text::{chars_of, is_whitespace, string_of, string_range, texts, whitespace};

verus! {

// ---------------------------------------------------------------------------
// Occurrences

/// `needle` stands in `s` at position `i`.
pub open spec fn occurs_at(s: Seq<char>, needle: Seq<char>, i: int) -> bool {
    &&& 0 <= i
    &&& i + needle.len() <= s.len()
    &&& s.subrange(i, i + needle.len()) == needle
}

/// `needle` stands somewhere in `s`.
pub open spec fn contains_text(s: Seq<char>, needle: Seq<char>) -> bool {
    exists|i: int| #[trigger] occurs_at(s, needle, i)
}

/// Whether `needle` stands in `s` at position `i`.
pub fn matches_at(s: &[char], needle: &[char], i: usize) -> (r: bool)
    requires
        i <= s@.len(),
    ensures
        r == occurs_at(s@, needle@, i as int),
{
    let length: usize = s.len();
    if needle.len() > length - i {
        return false;
    }
    let mut j: usize = 0;
    while j < needle.len()
        invariant
            length == s@.len(),
            i <= s@.len(),
            needle@.len() <= s@.len() - i,
            j <= needle@.len(),
            forall|k: int| 0 <= k < j ==> s@[i + k] == needle@[k],
        decreases needle@.len() - j,
    {
        if s[i + j] != needle[j] {
            proof {
                if s@.subrange(i as int, i + needle@.len()) == needle@ {
                    assert(s@.subrange(i as int, i + needle@.len())[j as int] == needle@[j as int]);
                }
            }
            return false;
        }
        j += 1;
    }
    proof {
        assert(s@.subrange(i as int, i + needle@.len()) =~= needle@);
    }
    true
}

/// The first position at or after `from` at which `needle` stands in `s`.
pub fn find_from(s: &[char], needle: &[char], from: usize) -> (r: Option<usize>)
    requires
        from <= s@.len(),
    ensures
        match r {
            Some(i) => from <= i && occurs_at(s@, needle@, i as int) && forall|k: int|
                from <= k < i ==> !#[trigger] occurs_at(s@, needle@, k),
            None => forall|k: int| from <= k ==> !#[trigger] occurs_at(s@, needle@, k),
        },
{
    let mut i: usize = from;
    while i < s.len()
        invariant
            from <= i <= s@.len(),
            forall|k: int| from <= k < i ==> !#[trigger] occurs_at(s@, needle@, k),
        decreases s@.len() - i,
    {
        if matches_at(s, needle, i) {
            return Some(i);
        }
        i += 1;
    }
    if matches_at(s, needle, i) {
        Some(i)
    } else {
        None
    }
}

/// Whether `needle` stands somewhere in `s`.
pub fn contains(s: &str, needle: &str) -> (r: bool)
    ensures
        r == contains_text(s@, needle@),
{
    let a: Vec<char> = chars_of(s);
    let b: Vec<char> = chars_of(needle);
    match find_from(a.as_slice(), b.as_slice(), 0) {
        Some(i) => {
            proof {
                assert(occurs_at(s@, needle@, i as int));
            }
            true
        },
        None => false,
    }
}

/// Whether `prefix` begins `s`.
pub fn starts_with(s: &str, prefix: &str) -> (r: bool)
    ensures
        r == prefix@.is_prefix_of(s@),
{
    let a: Vec<char> = chars_of(s);
    let b: Vec<char> = chars_of(prefix);
    let r: bool = matches_at(a.as_slice(), b.as_slice(), 0);
    proof {
        lemma_prefix_occurs(s@, prefix@);
    }
    r
}

/// A text begins with another exactly where it occurs at the start.
pub proof fn lemma_prefix_occurs(s: Seq<char>, prefix: Seq<char>)
    ensures
        prefix.is_prefix_of(s) == occurs_at(s, prefix, 0),
{
    if prefix.len() <= s.len() {
        assert(s.subrange(0, prefix.len() as int) =~= s.take(prefix.len() as int));
    }
}

/// What follows `prefix` in `s`, where `s` begins with it.
pub fn strip_prefix(s: &str, prefix: &str) -> (r: Option<String>)
    ensures
        match r {
            Some(rest) => s@ == prefix@ + rest@,
            None => !prefix@.is_prefix_of(s@),
        },
{
    if starts_with(s, prefix) {
        let a: Vec<char> = chars_of(s);
        let b: Vec<char> = chars_of(prefix);
        let rest: String = string_range(a.as_slice(), b.len(), a.len());
        proof {
            assert(s@ =~= prefix@ + rest@);
        }
        Some(rest)
    } else {
        None
    }
}

/// Whether a character occurs in a string.
pub fn contains_char(s: &str, c: char) -> (r: bool)
    ensures
        r == s@.contains(c),
{
    let a: Vec<char> = chars_of(s);
    match find_char(a.as_slice(), c, 0) {
        Some(i) => {
            proof {
                assert(s@[i as int] == c);
            }
            true
        },
        None => false,
    }
}

/// The first position at or after `from` that holds `c`.
pub fn find_char(s: &[char], c: char, from: usize) -> (r: Option<usize>)
    requires
        from <= s@.len(),
    ensures
        match r {
            Some(i) => from <= i < s@.len() && s@[i as int] == c && forall|k: int|
                from <= k < i ==> s@[k] != c,
            None => forall|k: int| from <= k < s@.len() ==> s@[k] != c,
        },
{
    let mut i: usize = from;
    while i < s.len()
        invariant
            from <= i <= s@.len(),
            forall|k: int| from <= k < i ==> s@[k] != c,
        decreases s@.len() - i,
    {
        if s[i] == c {
            return Some(i);
        }
        i += 1;
    }
    None
}

/// Whether a string holds a carriage return or a line feed.
pub fn has_line_break(s: &str) -> (r: bool)
    ensures
        r == (s@.contains('\r') || s@.contains('\n')),
{
    contains_char(s, '\r') || contains_char(s, '\n')
}

/// The parts before and after the first `c` of a string.
pub fn split_once(s: &str, c: char) -> (r: Option<(String, String)>)
    ensures
        match r {
            Some(parts) => s@ == parts.0@ + seq![c] + parts.1@ && !parts.0@.contains(c),
            None => !s@.contains(c),
        },
{
    let a: Vec<char> = chars_of(s);
    let length: usize = a.len();
    match find_char(a.as_slice(), c, 0) {
        Some(i) => {
            let head: String = string_range(a.as_slice(), 0, i);
            let tail: String = string_range(a.as_slice(), i + 1, length);
            proof {
                assert(s@ =~= head@ + seq![c] + tail@);
            }
            Some((head, tail))
        },
        None => None,
    }
}

// ---------------------------------------------------------------------------
// Trimming

/// A text without its leading white space.
pub open spec fn trim_start_text(s: Seq<char>) -> Seq<char>
    decreases s.len(),
{
    if s.len() > 0 && whitespace(s[0]) {
        trim_start_text(s.drop_first())
    } else {
        s
    }
}

/// A text without its trailing white space.
pub open spec fn trim_end_text(s: Seq<char>) -> Seq<char>
    decreases s.len(),
{
    if s.len() > 0 && whitespace(s.last()) {
        trim_end_text(s.drop_last())
    } else {
        s
    }
}

/// A text without white space at either end.
pub open spec fn trimmed(s: Seq<char>) -> Seq<char> {
    trim_end_text(trim_start_text(s))
}

/// The text holds nothing but white space.
pub open spec fn blank(s: Seq<char>) -> bool {
    forall|i: int| 0 <= i < s.len() ==> whitespace(#[trigger] s[i])
}

proof fn lemma_trim_start(s: Seq<char>, i: int)
    requires
        0 <= i <= s.len(),
        forall|k: int| 0 <= k < i ==> whitespace(s[k]),
        i < s.len() ==> !whitespace(s[i]),
    ensures
        trim_start_text(s) == s.skip(i),
    decreases i,
{
    if i == 0 {
        assert(s.skip(0) =~= s);
    } else {
        lemma_trim_start(s.drop_first(), i - 1);
        assert(s.drop_first().skip(i - 1) =~= s.skip(i));
    }
}

proof fn lemma_trim_end(s: Seq<char>, i: int)
    requires
        0 <= i <= s.len(),
        forall|k: int| i <= k < s.len() ==> whitespace(s[k]),
        i > 0 ==> !whitespace(s[i - 1]),
    ensures
        trim_end_text(s) == s.take(i),
    decreases s.len() - i,
{
    if i == s.len() {
        assert(s.take(i) =~= s);
    } else {
        assert(whitespace(s.last()));
        lemma_trim_end(s.drop_last(), i);
        assert(s.drop_last().take(i) =~= s.take(i));
    }
}

/// A string without white space at either end.
pub fn trim(s: &str) -> (r: String)
    ensures
        r@ == trimmed(s@),
{
    let a: Vec<char> = chars_of(s);
    let mut from: usize = 0;
    while from < a.len() && is_whitespace(a[from])
        invariant
            from <= a@.len(),
            forall|k: int| 0 <= k < from ==> whitespace(a@[k]),
        decreases a@.len() - from,
    {
        from += 1;
    }
    let mut to: usize = a.len();
    while to > from && is_whitespace(a[to - 1])
        invariant
            from <= to <= a@.len(),
            forall|k: int| to <= k < a@.len() ==> whitespace(a@[k]),
        decreases to,
    {
        to -= 1;
    }
    proof {
        lemma_trim_start(a@, from as int);
        let rest = a@.skip(from as int);
        assert forall|k: int| to - from <= k < rest.len() implies whitespace(rest[k]) by {
            assert(rest[k] == a@[from + k]);
        }
        lemma_trim_end(rest, to - from);
        assert(rest.take(to - from) =~= a@.subrange(from as int, to as int));
    }
    string_range(a.as_slice(), from, to)
}

/// A string without trailing white space.
pub fn trim_end(s: &str) -> (r: String)
    ensures
        r@ == trim_end_text(s@),
{
    let a: Vec<char> = chars_of(s);
    let mut to: usize = a.len();
    while to > 0 && is_whitespace(a[to - 1])
        invariant
            to <= a@.len(),
            forall|k: int| to <= k < a@.len() ==> whitespace(a@[k]),
        decreases to,
    {
        to -= 1;
    }
    let out: String = string_range(a.as_slice(), 0, to);
    proof {
        lemma_trim_end(a@, to as int);
        assert(out@ =~= a@.take(to as int));
    }
    out
}

/// Whether a string holds nothing but white space.
pub fn is_blank(s: &str) -> (r: bool)
    ensures
        r == blank(s@),
{
    let a: Vec<char> = chars_of(s);
    let mut i: usize = 0;
    while i < a.len()
        invariant
            i <= a@.len(),
            a@ == s@,
            forall|k: int| 0 <= k < i ==> whitespace(#[trigger] s@[k]),
        decreases a@.len() - i,
    {
        if !is_whitespace(a[i]) {
            proof {
                assert(!whitespace(s@[i as int]));
            }
            return false;
        }
        i += 1;
    }
    true
}

/// Trimming leaves nothing exactly where there is only white space.
pub proof fn lemma_trimmed_empty(s: Seq<char>)
    ensures
        (trimmed(s).len() == 0) == blank(s),
    decreases s.len(),
{
    if s.len() == 0 {
    } else if whitespace(s[0]) {
        lemma_trimmed_empty(s.drop_first());
        if blank(s.drop_first()) {
            assert forall|i: int| 0 <= i < s.len() implies whitespace(#[trigger] s[i]) by {
                if i > 0 {
                    assert(s.drop_first()[i - 1] == s[i]);
                }
            }
        }
        if blank(s) {
            assert forall|i: int| 0 <= i < s.drop_first().len() implies whitespace(
                #[trigger] s.drop_first()[i],
            ) by {
                assert(s.drop_first()[i] == s[i + 1]);
            }
        }
    } else {
        lemma_trim_end_keeps_first(s);
        assert(!whitespace(s[0]));
    }
}

proof fn lemma_trim_end_keeps_first(s: Seq<char>)
    requires
        s.len() > 0,
        !whitespace(s[0]),
    ensures
        trim_end_text(s).len() > 0,
    decreases s.len(),
{
    if whitespace(s.last()) {
        assert(s.len() > 1);
        lemma_trim_end_keeps_first(s.drop_last());
    }
}

// ---------------------------------------------------------------------------
// Lines, words and lists

/// A line without the carriage return that ends it.
pub open spec fn without_carriage_return(s: Seq<char>) -> Seq<char> {
    if s.len() > 0 && s.last() == '\r' {
        s.drop_last()
    } else {
        s
    }
}

/// The position of the first `c` of a text, or the text's length.
pub open spec fn first_position(s: Seq<char>, c: char) -> int
    decreases s.len(),
{
    if s.len() == 0 || s[0] == c {
        0
    } else {
        1 + first_position(s.drop_first(), c)
    }
}

/// The first position of a character is the one that no earlier one equals.
pub proof fn lemma_first_position(s: Seq<char>, c: char, i: int)
    requires
        0 <= i <= s.len(),
        forall|k: int| 0 <= k < i ==> s[k] != c,
        i < s.len() ==> s[i] == c,
    ensures
        first_position(s, c) == i,
    decreases i,
{
    if i > 0 {
        lemma_first_position(s.drop_first(), c, i - 1);
    }
}

/// The first position lies in the text or at its end.
pub proof fn lemma_first_position_range(s: Seq<char>, c: char)
    ensures
        0 <= first_position(s, c) <= s.len(),
        first_position(s, c) < s.len() ==> s[first_position(s, c)] == c,
        forall|k: int| 0 <= k < first_position(s, c) ==> s[k] != c,
    decreases s.len(),
{
    if s.len() > 0 && s[0] != c {
        lemma_first_position_range(s.drop_first(), c);
        assert forall|k: int| 0 <= k < first_position(s, c) implies s[k] != c by {
            if k > 0 {
                assert(s.drop_first()[k - 1] == s[k]);
            }
        }
    }
}

/// The lines of a text: each ends before a line feed, and before the carriage
/// return in front of it where there is one; an unfinished last line counts
/// where it is not empty.
pub open spec fn lines_of(s: Seq<char>) -> Seq<Seq<char>>
    decreases s.len(),
    via lines_of_decreases
{
    let i = first_position(s, '\n');
    if s.len() == 0 {
        Seq::empty()
    } else if i == s.len() {
        seq![s]
    } else {
        seq![without_carriage_return(s.take(i))] + lines_of(s.skip(i + 1))
    }
}

#[via_fn]
proof fn lines_of_decreases(s: Seq<char>) {
    lemma_first_position_range(s, '\n');
}

/// The lines of a string.
pub fn lines(s: &str) -> (r: Vec<String>)
    ensures
        texts(r@) == lines_of(s@),
{
    let a: Vec<char> = chars_of(s);
    let mut out: Vec<String> = Vec::new();
    let mut from: usize = 0;
    proof {
        assert(a@.skip(0) =~= a@);
        assert(texts(out@) + lines_of(a@.skip(0)) =~= lines_of(a@));
    }
    while from < a.len()
        invariant
            from <= a@.len(),
            a@ == s@,
            texts(out@) + lines_of(a@.skip(from as int)) == lines_of(a@),
        decreases a@.len() - from,
    {
        let ghost rest = a@.skip(from as int);
        let ghost before = out@;
        match find_char(a.as_slice(), '\n', from) {
            Some(i) => {
                let mut to: usize = i;
                if to > from && a[to - 1] == '\r' {
                    to -= 1;
                }
                let line: String = string_range(a.as_slice(), from, to);
                proof {
                    assert forall|k: int| 0 <= k < i - from implies rest[k] != '\n' by {
                        assert(rest[k] == a@[from + k]);
                    }
                    lemma_first_position(rest, '\n', i - from);
                    assert(line@ =~= without_carriage_return(rest.take(i - from)));
                    assert(rest.skip(i - from + 1) =~= a@.skip(i + 1));
                }
                out.push(line);
                from = i + 1;
                proof {
                    assert(texts(out@) =~= texts(before) + seq![line@]);
                    assert(texts(out@) + lines_of(a@.skip(from as int)) =~= texts(before)
                        + lines_of(rest));
                }
            },
            None => {
                let line: String = string_range(a.as_slice(), from, a.len());
                proof {
                    assert forall|k: int| 0 <= k < rest.len() implies rest[k] != '\n' by {
                        assert(rest[k] == a@[from + k]);
                    }
                    lemma_first_position(rest, '\n', rest.len() as int);
                    assert(line@ =~= rest);
                }
                out.push(line);
                from = a.len();
                proof {
                    assert(texts(out@) =~= texts(before) + seq![line@]);
                    assert(texts(out@) + lines_of(a@.skip(from as int)) =~= texts(before)
                        + lines_of(rest));
                }
            },
        }
    }
    proof {
        assert(texts(out@) + lines_of(a@.skip(from as int)) =~= texts(out@));
    }
    out
}

/// The pieces of a text between its occurrences of `c`: at least one.
pub open spec fn pieces_of(s: Seq<char>, c: char) -> Seq<Seq<char>>
    decreases s.len(),
    via pieces_of_decreases
{
    let i = first_position(s, c);
    if i == s.len() {
        seq![s]
    } else {
        seq![s.take(i)] + pieces_of(s.skip(i + 1), c)
    }
}

#[via_fn]
proof fn pieces_of_decreases(s: Seq<char>, c: char) {
    lemma_first_position_range(s, c);
}

/// The pieces of a string between its occurrences of `c`.
pub fn pieces(s: &str, c: char) -> (r: Vec<String>)
    ensures
        texts(r@) == pieces_of(s@, c),
{
    let a: Vec<char> = chars_of(s);
    let length: usize = a.len();
    let mut out: Vec<String> = Vec::new();
    let mut from: usize = 0;
    proof {
        assert(a@.skip(0) =~= a@);
        assert(texts(out@) + pieces_of(a@.skip(0), c) =~= pieces_of(a@, c));
    }
    loop
        invariant_except_break
            texts(out@) + pieces_of(a@.skip(from as int), c) == pieces_of(a@, c),
        invariant
            from <= length,
            length == a@.len(),
            a@ == s@,
        ensures
            texts(out@) == pieces_of(a@, c),
        decreases length - from,
    {
        let ghost rest = a@.skip(from as int);
        let ghost before = out@;
        match find_char(a.as_slice(), c, from) {
            Some(i) => {
                let piece: String = string_range(a.as_slice(), from, i);
                proof {
                    assert forall|k: int| 0 <= k < i - from implies rest[k] != c by {
                        assert(rest[k] == a@[from + k]);
                    }
                    assert(rest[i - from] == c);
                    lemma_first_position(rest, c, i - from);
                    assert(piece@ =~= rest.take(i - from));
                    assert(rest.skip(i - from + 1) =~= a@.skip(i + 1));
                }
                out.push(piece);
                from = i + 1;
                proof {
                    assert(texts(out@) =~= texts(before) + seq![piece@]);
                    assert(texts(out@) + pieces_of(a@.skip(from as int), c) =~= texts(before)
                        + pieces_of(rest, c));
                }
            },
            None => {
                let piece: String = string_range(a.as_slice(), from, length);
                proof {
                    assert forall|k: int| 0 <= k < rest.len() implies rest[k] != c by {
                        assert(rest[k] == a@[from + k]);
                    }
                    lemma_first_position(rest, c, rest.len() as int);
                    assert(piece@ =~= rest);
                }
                out.push(piece);
                proof {
                    assert(texts(out@) =~= texts(before) + seq![piece@]);
                }
                break;
            },
        }
    }
    out
}

/// A text without `c` is its own only piece.
pub proof fn lemma_single_piece(s: Seq<char>, c: char)
    requires
        !s.contains(c),
    ensures
        pieces_of(s, c) == seq![s],
{
    assert forall|k: int| 0 <= k < s.len() implies s[k] != c by {
        assert(s.contains(s[k]));
    }
    lemma_first_position(s, c, s.len() as int);
}

/// Trimming leaves a text alone that has no white space at either end.
pub proof fn lemma_trimmed_same(s: Seq<char>)
    requires
        s.len() > 0 ==> !whitespace(s[0]) && !whitespace(s.last()),
    ensures
        trimmed(s) == s,
{
}

/// The length of the run of white space that begins a text.
pub open spec fn leading_space(s: Seq<char>) -> int
    decreases s.len(),
{
    if s.len() > 0 && whitespace(s[0]) {
        1 + leading_space(s.drop_first())
    } else {
        0
    }
}

/// The length of the run without white space that begins a text.
pub open spec fn leading_word(s: Seq<char>) -> int
    decreases s.len(),
{
    if s.len() > 0 && !whitespace(s[0]) {
        1 + leading_word(s.drop_first())
    } else {
        0
    }
}

pub proof fn lemma_leading_space(s: Seq<char>, i: int)
    requires
        0 <= i <= s.len(),
        forall|k: int| 0 <= k < i ==> whitespace(s[k]),
        i < s.len() ==> !whitespace(s[i]),
    ensures
        leading_space(s) == i,
    decreases i,
{
    if i > 0 {
        lemma_leading_space(s.drop_first(), i - 1);
    }
}

pub proof fn lemma_leading_word(s: Seq<char>, i: int)
    requires
        0 <= i <= s.len(),
        forall|k: int| 0 <= k < i ==> !whitespace(s[k]),
        i < s.len() ==> whitespace(s[i]),
    ensures
        leading_word(s) == i,
    decreases i,
{
    if i > 0 {
        lemma_leading_word(s.drop_first(), i - 1);
    }
}

proof fn lemma_leading_range(s: Seq<char>)
    ensures
        0 <= leading_space(s) <= s.len(),
        0 <= leading_word(s) <= s.len(),
        s.len() > 0 ==> leading_space(s) + leading_word(s) > 0,
    decreases s.len(),
{
    if s.len() > 0 {
        lemma_leading_range(s.drop_first());
    }
}

/// The words of a text: its longest runs without white space.
pub open spec fn words_of(s: Seq<char>) -> Seq<Seq<char>>
    decreases s.len(),
    via words_of_decreases
{
    if s.len() == 0 {
        Seq::empty()
    } else if whitespace(s[0]) {
        words_of(s.skip(leading_space(s)))
    } else {
        seq![s.take(leading_word(s))] + words_of(s.skip(leading_word(s)))
    }
}

#[via_fn]
proof fn words_of_decreases(s: Seq<char>) {
    lemma_leading_range(s);
}

/// The words of a string.
pub fn words(s: &str) -> (r: Vec<String>)
    ensures
        texts(r@) == words_of(s@),
{
    let a: Vec<char> = chars_of(s);
    let mut out: Vec<String> = Vec::new();
    let mut from: usize = 0;
    proof {
        assert(a@.skip(0) =~= a@);
        assert(texts(out@) + words_of(a@.skip(0)) =~= words_of(a@));
    }
    while from < a.len()
        invariant
            from <= a@.len(),
            a@ == s@,
            texts(out@) + words_of(a@.skip(from as int)) == words_of(a@),
        decreases a@.len() - from,
    {
        let ghost rest = a@.skip(from as int);
        let ghost before = out@;
        let space: bool = is_whitespace(a[from]);
        let mut to: usize = from + 1;
        while to < a.len() && is_whitespace(a[to]) == space
            invariant
                from < to <= a@.len(),
                forall|k: int| from <= k < to ==> whitespace(a@[k]) == space,
            decreases a@.len() - to,
        {
            to += 1;
        }
        proof {
            assert forall|k: int| 0 <= k < to - from implies whitespace(rest[k]) == space by {
                assert(rest[k] == a@[from + k]);
            }
            if to < a@.len() {
                assert(rest[to - from] == a@[to as int]);
            }
            assert(rest[0] == a@[from as int]);
            assert(rest.skip(to - from) =~= a@.skip(to as int));
            if space {
                lemma_leading_space(rest, to - from);
            } else {
                lemma_leading_word(rest, to - from);
            }
        }
        if !space {
            let word: String = string_range(a.as_slice(), from, to);
            proof {
                assert(word@ =~= rest.take(to - from));
            }
            out.push(word);
            proof {
                assert(texts(out@) =~= texts(before) + seq![word@]);
                assert(texts(out@) + words_of(a@.skip(to as int)) =~= texts(before) + words_of(rest));
            }
        }
        from = to;
    }
    proof {
        assert(texts(out@) + words_of(a@.skip(from as int)) =~= texts(out@));
    }
    out
}

/// The texts of a list one after the other with a separator between them.
pub open spec fn joined(list: Seq<Seq<char>>, separator: Seq<char>) -> Seq<char>
    decreases list.len(),
{
    if list.len() == 0 {
        Seq::empty()
    } else if list.len() == 1 {
        list[0]
    } else {
        joined(list.drop_last(), separator) + separator + list.last()
    }
}

/// The strings of a list with a separator between them.
pub fn join(list: &[String], separator: &str) -> (r: String)
    ensures
        r@ == joined(texts(list@), separator@),
{
    let mut out: String = String::new();
    let mut i: usize = 0;
    while i < list.len()
        invariant
            i <= list@.len(),
            out@ == joined(texts(list@).take(i as int), separator@),
        decreases list@.len() - i,
    {
        let ghost next = texts(list@).take(i + 1);
        if i > 0 {
            out.append(separator);
        }
        out.append(list[i].as_str());
        proof {
            assert(next.drop_last() =~= texts(list@).take(i as int));
            assert(next.last() == list@[i as int]@);
            if i == 0 {
                assert(out@ =~= next[0]);
            }
        }
        i += 1;
    }
    proof {
        assert(texts(list@).take(list@.len() as int) =~= texts(list@));
    }
    out
}

/// A text with every `from` replaced by `to`.
pub open spec fn replaced_char(s: Seq<char>, from: char, to: char) -> Seq<char> {
    s.map_values(|c: char| if c == from { to } else { c })
}

/// The string with every `from` replaced by `to`.
pub fn replace_char(s: &str, from: char, to: char) -> (r: String)
    ensures
        r@ == replaced_char(s@, from, to),
{
    let a: Vec<char> = chars_of(s);
    let mut out: String = String::new();
    let mut i: usize = 0;
    while i < a.len()
        invariant
            i <= a@.len(),
            a@ == s@,
            out@ == replaced_char(s@, from, to).take(i as int),
        decreases a@.len() - i,
    {
        out.push(if a[i] == from { to } else { a[i] });
        i += 1;
        proof {
            assert(out@ =~= replaced_char(s@, from, to).take(i as int));
        }
    }
    proof {
        assert(replaced_char(s@, from, to).take(s@.len() as int) =~= replaced_char(s@, from, to));
    }
    out
}

/// The first `limit` characters of a text, or all of a shorter one.
pub open spec fn first_chars(s: Seq<char>, limit: nat) -> Seq<char> {
    if s.len() <= limit {
        s
    } else {
        s.take(limit as int)
    }
}

/// The first `limit` characters of a string, or all of a shorter one.
pub fn take_chars(s: &str, limit: usize) -> (r: String)
    ensures
        r@ == first_chars(s@, limit as nat),
{
    let a: Vec<char> = chars_of(s);
    if a.len() <= limit {
        string_of(a.as_slice())
    } else {
        let out: String = string_range(a.as_slice(), 0, limit);
        proof {
            assert(out@ =~= s@.take(limit as int));
        }
        out
    }
}

/// Whether a string is one of a list.
pub fn list_contains(list: &[String], value: &str) -> (r: bool)
    ensures
        r == texts(list@).contains(value@),
{
    let mut i: usize = 0;
    while i < list.len()
        invariant
            i <= list@.len(),
            forall|k: int| 0 <= k < i ==> #[trigger] list@[k]@ != value@,
        decreases list@.len() - i,
    {
        if crate::text::same(list[i].as_str(), value) {
            proof {
                assert(texts(list@)[i as int] == value@);
            }
            return true;
        }
        i += 1;
    }
    proof {
        assert forall|k: int| 0 <= k < texts(list@).len() implies texts(list@)[k] != value@ by {
            assert(list@[k]@ != value@);
        }
    }
    false
}

// ---------------------------------------------------------------------------
// What texts are made of

proof fn lemma_trimmed_start(s: Seq<char>)
    ensures
        trim_start_text(s).len() <= s.len(),
        trim_start_text(s) == s.skip(s.len() - trim_start_text(s).len()),
        trim_start_text(s).len() > 0 ==> !whitespace(trim_start_text(s)[0]),
        forall|i: int|
            0 <= i < s.len() - trim_start_text(s).len() ==> whitespace(#[trigger] s[i]),
    decreases s.len(),
{
    if s.len() > 0 && whitespace(s[0]) {
        let rest = s.drop_first();
        lemma_trimmed_start(rest);
        let left = trim_start_text(rest);
        assert(rest.skip(rest.len() - left.len()) =~= s.skip(s.len() - left.len()));
        assert forall|i: int| 0 <= i < s.len() - left.len() implies whitespace(
            #[trigger] s[i],
        ) by {
            if i > 0 {
                assert(rest[i - 1] == s[i]);
            }
        }
    } else {
        assert(s.skip(0) =~= s);
    }
}

proof fn lemma_trimmed_end(s: Seq<char>)
    ensures
        trim_end_text(s).len() <= s.len(),
        trim_end_text(s) == s.take(trim_end_text(s).len() as int),
        trim_end_text(s).len() > 0 ==> !whitespace(trim_end_text(s).last()),
        forall|i: int| trim_end_text(s).len() <= i < s.len() ==> whitespace(#[trigger] s[i]),
    decreases s.len(),
{
    if s.len() > 0 && whitespace(s.last()) {
        let rest = s.drop_last();
        lemma_trimmed_end(rest);
        let left = trim_end_text(rest);
        assert(rest.take(left.len() as int) =~= s.take(left.len() as int));
        assert forall|i: int| left.len() <= i < s.len() implies whitespace(#[trigger] s[i]) by {
            if i < rest.len() {
                assert(rest[i] == s[i]);
            }
        }
    } else {
        assert(s.take(s.len() as int) =~= s);
    }
}

/// A trimmed text has no white space at its ends; what was taken from it is white space in
/// front of it and behind it; and a text without white space at its ends stays as it is.
pub proof fn trimmed_texts_have_no_space_at_their_ends(s: Seq<char>)
    ensures
        trimmed(s).len() > 0 ==> !whitespace(trimmed(s)[0]) && !whitespace(trimmed(s).last()),
        s.len() > 0 && !whitespace(s[0]) && !whitespace(s.last()) ==> trimmed(s) == s,
        exists|from: int, to: int|
            0 <= from <= to <= s.len() && trimmed(s) == #[trigger] s.subrange(from, to) && (forall|
                i: int,
            |
                0 <= i < from || to <= i < s.len() ==> whitespace(#[trigger] s[i])),
        blank(s) <==> trimmed(s).len() == 0,
{
    let left = trim_start_text(s);
    let both = trim_end_text(left);
    lemma_trimmed_start(s);
    lemma_trimmed_end(left);
    let from = s.len() - left.len();
    let to = from + both.len();
    assert(both =~= s.subrange(from, to));
    assert forall|i: int| 0 <= i < from || to <= i < s.len() implies whitespace(
        #[trigger] s[i],
    ) by {
        if i >= to {
            assert(left[i - from] == s[i]);
        }
    }
    if both.len() > 0 {
        assert(both[0] == left[0]);
        assert(s[from] == both[0]);
    }
    if s.len() > 0 && !whitespace(s[0]) && !whitespace(s.last()) {
        if from > 0 {
            assert(whitespace(s[0]));
        }
        if to < s.len() {
            assert(whitespace(s[s.len() - 1]));
        }
        assert(s.subrange(0, s.len() as int) =~= s);
    }
}

/// The lines of a text are what stands between its line feeds: a line without one, with a
/// line feed behind it, comes first, without a carriage return at its end, and then come the
/// lines of the rest; what stands behind the last line feed is a line where it is not empty.
pub proof fn lines_end_at_line_feeds(line: Seq<char>, rest: Seq<char>)
    requires
        !line.contains('\n'),
    ensures
        (line.len() == 0 || line.last() != '\r') ==> lines_of(line + "\n"@ + rest) == seq![line]
            + lines_of(rest),
        lines_of(line.push('\r') + "\n"@ + rest) == seq![line] + lines_of(rest),
        line.len() > 0 ==> lines_of(line) == seq![line],
        lines_of(Seq::empty()) == Seq::<Seq<char>>::empty(),
{
    reveal_strlit("\n");
    let a = line + "\n"@ + rest;
    let with_return = line.push('\r');
    let b = with_return + "\n"@ + rest;
    assert forall|k: int| 0 <= k < line.len() implies line[k] != '\n' by {
        assert(line.contains(line[k]));
    }
    assert(a[line.len() as int] == '\n');
    lemma_first_position(a, '\n', line.len() as int);
    assert(a.take(line.len() as int) =~= line);
    assert(a.skip(line.len() as int + 1) =~= rest);
    assert(b[with_return.len() as int] == '\n');
    assert forall|k: int| 0 <= k < with_return.len() implies b[k] != '\n' by {
        if k < line.len() {
            assert(b[k] == line[k]);
        }
    }
    lemma_first_position(b, '\n', with_return.len() as int);
    assert(b.take(with_return.len() as int) =~= with_return);
    assert(b.skip(with_return.len() as int + 1) =~= rest);
    assert(without_carriage_return(with_return) =~= line);
    lemma_first_position(line, '\n', line.len() as int);
}

/// The first characters of a text are all of it where it is short, and as many as are asked
/// for otherwise.
pub proof fn first_chars_are_the_beginning(s: Seq<char>, limit: nat)
    ensures
        s.len() <= limit ==> first_chars(s, limit) == s,
        s.len() > limit ==> first_chars(s, limit).len() == limit,
        first_chars(s, limit).is_prefix_of(s),
{
}

/// Joined texts are one after the other, with the separator between them.
pub proof fn joined_texts_follow_each_other(
    list: Seq<Seq<char>>,
    last: Seq<char>,
    separator: Seq<char>,
)
    ensures
        joined(Seq::empty(), separator).len() == 0,
        joined(seq![last], separator) == last,
        list.len() > 0 ==> joined(list.push(last), separator) == joined(list, separator)
            + separator + last,
{
    let one = seq![last];
    assert(one.drop_last() =~= Seq::empty());
    assert(joined(one, separator) =~= last);
    assert(list.push(last).drop_last() =~= list);
}

}
