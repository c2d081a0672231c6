//! Values that are stored as JSON text.
use vstd::prelude::*;

use crate::config::str_option;
use crate::numbers::{
    decimal, lemma_decimal_value, parsed_int, signed_decimal, signed_decimal_reads_back,
};
use crate::text::{digit, texts};

verus! {

/// The list of strings that a JSON text stands for; nothing for any other text.
pub uninterp spec fn json_strings(text: Seq<char>) -> Option<Seq<Seq<char>>>;

/// The JSON text of a list of strings.
pub uninterp spec fn strings_json(list: Seq<Seq<char>>) -> Seq<char>;

/// The blanks that may stand round a JSON value.
pub open spec fn json_blank(c: char) -> bool {
    c == ' ' || c == '\t' || c == '\n' || c == '\r'
}

/// A JSON text without the blanks round its value.
pub open spec fn bare_json(text: Seq<char>) -> Seq<char>
    decreases text.len(),
{
    if text.len() > 0 && json_blank(text[0]) {
        bare_json(text.drop_first())
    } else if text.len() > 0 && json_blank(text.last()) {
        bare_json(text.drop_last())
    } else {
        text
    }
}

/// The number of 64 bits with a sign that a JSON text stands for, which is written
/// in decimal, with no zero in front of it, no fraction and no exponent; nothing for
/// any other text.
pub open spec fn json_integer(text: Seq<char>) -> Option<i64> {
    match parsed_int(bare_json(text)) {
        Some(n) => if i64::MIN <= n <= i64::MAX && bare_json(text) == signed_decimal(n) {
            Some(n as i64)
        } else {
            None
        },
        None => None,
    }
}

/// The truth value that a JSON text stands for; nothing for any other text.
pub open spec fn json_truth(text: Seq<char>) -> Option<bool> {
    if bare_json(text) == "true"@ {
        Some(true)
    } else if bare_json(text) == "false"@ {
        Some(false)
    } else {
        None
    }
}

/// `serde_json::from_str` to a list of strings. The result is named.
#[verifier::external_body]
fn parse_strings(text: &str) -> (r: Option<Vec<String>>)
    ensures
        match r {
            Some(list) => json_strings(text@) == Some(texts(list@)),
            None => json_strings(text@) is None,
        },
{
    serde_json::from_str::<Vec<String>>(text).ok()
}

/// `serde_json::to_string` of a list of strings, which always succeeds. The text
/// is named, and reading it gives the list back.
#[verifier::external_body]
fn write_strings(list: &[String]) -> (r: String)
    ensures
        r@ == strings_json(texts(list@)),
        json_strings(r@) == Some(texts(list@)),
{
    serde_json::to_string(list).expect("strings can always be written")
}

/// `serde_json::from_str` to a number, which takes whole numbers alone: `1.0`, `1e2`,
/// `-0` and `01` are none.
#[verifier::external_body]
fn parse_integer(text: &str) -> (r: Option<i64>)
    ensures
        r == json_integer(text@),
{
    serde_json::from_str::<i64>(text).ok()
}

/// `serde_json::from_str` to a truth value.
#[verifier::external_body]
fn parse_truth(text: &str) -> (r: Option<bool>)
    ensures
        r == json_truth(text@),
{
    serde_json::from_str::<bool>(text).ok()
}

/// `serde_json::to_string` of a number, which always succeeds. The text is the
/// number in decimal.
#[verifier::external_body]
fn write_integer(n: i64) -> (r: String)
    ensures
        r@ == signed_decimal(n as int),
{
    serde_json::to_string(&n).expect("numbers can always be written")
}

/// `serde_json::to_string` of a truth value, which always succeeds. The text is
/// `true` or `false`.
#[verifier::external_body]
fn write_truth(flag: bool) -> (r: String)
    ensures
        r@ == (if flag {
            "true"@
        } else {
            "false"@
        }),
{
    serde_json::to_string(&flag).expect("truth values can always be written")
}

/// The JSON text of a text: in quotation marks, with its special characters
/// escaped.
pub uninterp spec fn text_json(text: Seq<char>) -> Seq<char>;

/// `serde_json::to_string` of a text, which always succeeds. The result is named.
#[verifier::external_body]
pub(crate) fn write_text(text: &str) -> (r: String)
    ensures
        r@ == text_json(text@),
{
    serde_json::to_string(text).expect("texts can always be written")
}

/// The strings of a stored list; none for a text that is no list.
pub open spec fn stored_strings(text: Seq<char>) -> Seq<Seq<char>> {
    match json_strings(text) {
        Some(list) => list,
        None => Seq::empty(),
    }
}

/// The strings of a stored list; none for a text that is no list.
pub fn json_array(text: &str) -> (r: Vec<String>)
    ensures
        texts(r@) == stored_strings(text@),
{
    match parse_strings(text) {
        Some(list) => list,
        None => {
            let none: Vec<String> = Vec::new();
            proof {
                assert(texts(none@) =~= Seq::empty());
            }
            none
        },
    }
}

/// The text under which a list is stored. Reading it gives the list back.
pub fn encode_strings(list: &[String]) -> (r: String)
    ensures
        r@ == strings_json(texts(list@)),
        stored_strings(r@) == texts(list@),
{
    write_strings(list)
}

/// A number in decimal is a JSON text that stands for it.
pub proof fn numbers_read_back(n: i64)
    ensures
        json_integer(signed_decimal(n as int)) == Some(n),
{
    let text = signed_decimal(n as int);
    signed_decimal_reads_back(n as int);
    let size = if n < 0 {
        -n as nat
    } else {
        n as nat
    };
    lemma_decimal_value(size);
    assert(digit(decimal(size).last()) && digit(decimal(size)[0]));
    assert(text.last() == decimal(size).last());
    assert(bare_json(text) == text);
}

/// The words for the truth values are JSON texts that stand for them.
pub proof fn flags_read_back(flag: bool)
    ensures
        json_truth(if flag { "true"@ } else { "false"@ }) == Some(flag),
{
    reveal_strlit("true");
    reveal_strlit("false");
    assert("true"@.len() == 4);
    assert(bare_json("true"@) == "true"@);
    assert(bare_json("false"@) == "false"@);
}

/// The text under which a number is stored. Reading it gives the number back.
pub fn encode_number(n: i64) -> (r: String)
    ensures
        r@ == signed_decimal(n as int),
        forall|fallback: i64| #[trigger] number_or(Some(r@), fallback) == n,
{
    proof {
        numbers_read_back(n);
    }
    write_integer(n)
}

/// The text under which a truth value is stored. Reading it gives the value
/// back.
pub fn encode_flag(flag: bool) -> (r: String)
    ensures
        r@ == (if flag {
            "true"@
        } else {
            "false"@
        }),
        forall|fallback: bool| #[trigger] flag_or(Some(r@), fallback) == flag,
{
    proof {
        flags_read_back(flag);
    }
    write_truth(flag)
}

/// A stored number; the fallback where there is none.
pub open spec fn number_or(text: Option<Seq<char>>, fallback: i64) -> i64 {
    match text {
        Some(text) => match json_integer(text) {
            Some(n) => n,
            None => fallback,
        },
        None => fallback,
    }
}

/// A stored truth value; the fallback where there is none.
pub open spec fn flag_or(text: Option<Seq<char>>, fallback: bool) -> bool {
    match text {
        Some(text) => match json_truth(text) {
            Some(flag) => flag,
            None => fallback,
        },
        None => fallback,
    }
}

/// A stored number; the fallback where there is none.
pub fn stored_number(text: Option<&str>, fallback: i64) -> (r: i64)
    ensures
        r == number_or(str_option(text), fallback),
{
    match text {
        Some(text) => match parse_integer(text) {
            Some(n) => n,
            None => fallback,
        },
        None => fallback,
    }
}

/// A stored truth value; the fallback where there is none.
pub fn stored_flag(text: Option<&str>, fallback: bool) -> (r: bool)
    ensures
        r == flag_or(str_option(text), fallback),
{
    match text {
        Some(text) => match parse_truth(text) {
            Some(flag) => flag,
            None => fallback,
        },
        None => fallback,
    }
}

}
