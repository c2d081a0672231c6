//! Ordering of texts, and sorting of lists without duplicates.
use vstd::prelude::*;

use crate::text::{chars_of, texts};

verus! {

/// `a` comes before `b` in the order of their characters, or equals it.
pub open spec fn text_at_most(a: Seq<char>, b: Seq<char>) -> bool
    decreases a.len(),
{
    if a.len() == 0 {
        true
    } else if b.len() == 0 {
        false
    } else if a[0] == b[0] {
        text_at_most(a.drop_first(), b.drop_first())
    } else {
        a[0] < b[0]
    }
}

/// `a` comes strictly before `b` in the order of their characters.
pub open spec fn text_before(a: Seq<char>, b: Seq<char>) -> bool {
    !text_at_most(b, a)
}

pub proof fn lemma_text_reflexive(a: Seq<char>)
    ensures
        text_at_most(a, a),
    decreases a.len(),
{
    if a.len() > 0 {
        lemma_text_reflexive(a.drop_first());
    }
}

pub proof fn lemma_text_total(a: Seq<char>, b: Seq<char>)
    ensures
        text_at_most(a, b) || text_at_most(b, a),
    decreases a.len(),
{
    if a.len() > 0 && b.len() > 0 && a[0] == b[0] {
        lemma_text_total(a.drop_first(), b.drop_first());
    }
}

pub proof fn lemma_text_antisymmetric(a: Seq<char>, b: Seq<char>)
    requires
        text_at_most(a, b),
        text_at_most(b, a),
    ensures
        a == b,
    decreases a.len(),
{
    if a.len() > 0 && b.len() > 0 {
        assert(a[0] == b[0]);
        let rest_a = a.drop_first();
        let rest_b = b.drop_first();
        lemma_text_antisymmetric(rest_a, rest_b);
        assert(a.len() == rest_a.len() + 1);
        assert(b.len() == rest_b.len() + 1);
        assert forall|i: int| 0 <= i < a.len() implies a[i] == b[i] by {
            if i > 0 {
                assert(rest_a[i - 1] == a[i]);
                assert(rest_b[i - 1] == b[i]);
            }
        }
    }
    assert(a =~= b);
}

pub proof fn lemma_text_transitive(a: Seq<char>, b: Seq<char>, c: Seq<char>)
    requires
        text_at_most(a, b),
        text_at_most(b, c),
    ensures
        text_at_most(a, c),
    decreases a.len(),
{
    if a.len() > 0 && b.len() > 0 && c.len() > 0 && a[0] == b[0] && b[0] == c[0] {
        lemma_text_transitive(a.drop_first(), b.drop_first(), c.drop_first());
    }
}

/// Whether `x` comes before `y` in the order of their characters, or equals it.
pub fn at_most_chars(x: &[char], y: &[char]) -> (r: bool)
    ensures
        r == text_at_most(x@, y@),
{
    let mut i: usize = 0;
    proof {
        assert(x@.skip(0) =~= x@);
        assert(y@.skip(0) =~= y@);
    }
    while i < x.len() && i < y.len() && x[i] == y[i]
        invariant
            i <= x@.len(),
            i <= y@.len(),
            text_at_most(x@.skip(i as int), y@.skip(i as int)) == text_at_most(x@, y@),
        decreases x@.len() - i,
    {
        proof {
            assert(x@.skip(i as int).drop_first() =~= x@.skip(i + 1));
            assert(y@.skip(i as int).drop_first() =~= y@.skip(i + 1));
        }
        i += 1;
    }
    if i == x.len() {
        true
    } else if i == y.len() {
        false
    } else {
        x[i] < y[i]
    }
}

/// Whether `a` comes before `b` in the order of their characters, or equals it.
pub fn at_most(a: &str, b: &str) -> (r: bool)
    ensures
        r == text_at_most(a@, b@),
{
    let x: Vec<char> = chars_of(a);
    let y: Vec<char> = chars_of(b);
    at_most_chars(x.as_slice(), y.as_slice())
}

/// Each text comes strictly before the next ones.
pub open spec fn strictly_sorted(list: Seq<Seq<char>>) -> bool {
    forall|i: int, j: int|
        0 <= i < j < list.len() ==> #[trigger] text_before(list[i], list[j])
}

/// The list holds exactly the texts of `source`, each once, in order.
pub open spec fn sorted_set_of(list: Seq<Seq<char>>, source: Seq<Seq<char>>) -> bool {
    &&& strictly_sorted(list)
    &&& forall|t: Seq<char>| list.contains(t) <==> source.contains(t)
}

/// There is one sorted list without duplicates of given texts.
pub proof fn lemma_sorted_set_unique(
    a: Seq<Seq<char>>,
    b: Seq<Seq<char>>,
    source: Seq<Seq<char>>,
)
    requires
        sorted_set_of(a, source),
        sorted_set_of(b, source),
    ensures
        a == b,
    decreases a.len(),
{
    if a.len() == 0 {
        if b.len() > 0 {
            assert(b.contains(b[0]));
            assert(a.contains(b[0]));
        }
        assert(a =~= b);
    } else {
        assert(a.contains(a[0]));
        assert(b.contains(a[0]));
        assert(b.len() > 0);
        assert(b.contains(b[0]));
        assert(a.contains(b[0]));
        let i = choose|i: int| 0 <= i < b.len() && b[i] == a[0];
        let j = choose|j: int| 0 <= j < a.len() && a[j] == b[0];
        if i > 0 && j > 0 {
            assert(text_before(b[0], b[i]));
            assert(text_before(a[0], a[j]));
            lemma_text_total(a[0], b[0]);
        }
        assert(a[0] == b[0]);
        let rest_a = a.drop_first();
        let rest_b = b.drop_first();
        let rest = rest_a;
        assert(strictly_sorted(rest_a)) by {
            assert forall|p: int, q: int| 0 <= p < q < rest_a.len() implies #[trigger] text_before(
                rest_a[p],
                rest_a[q],
            ) by {
                assert(text_before(a[p + 1], a[q + 1]));
            }
        }
        assert(strictly_sorted(rest_b)) by {
            assert forall|p: int, q: int| 0 <= p < q < rest_b.len() implies #[trigger] text_before(
                rest_b[p],
                rest_b[q],
            ) by {
                assert(text_before(b[p + 1], b[q + 1]));
            }
        }
        assert forall|t: Seq<char>| rest_b.contains(t) <==> rest.contains(t) by {
            if rest_b.contains(t) {
                let p = choose|p: int| 0 <= p < rest_b.len() && rest_b[p] == t;
                assert(b[p + 1] == t);
                assert(text_before(b[0], b[p + 1]));
                lemma_text_reflexive(t);
                assert(b.contains(t));
                assert(a.contains(t));
                let q = choose|q: int| 0 <= q < a.len() && a[q] == t;
                assert(q > 0);
                assert(rest_a[q - 1] == t);
            }
            if rest.contains(t) {
                let p = choose|p: int| 0 <= p < rest_a.len() && rest_a[p] == t;
                assert(a[p + 1] == t);
                assert(text_before(a[0], a[p + 1]));
                lemma_text_reflexive(t);
                assert(a.contains(t));
                assert(b.contains(t));
                let q = choose|q: int| 0 <= q < b.len() && b[q] == t;
                assert(q > 0);
                assert(rest_b[q - 1] == t);
            }
        }
        lemma_sorted_set_unique(rest_a, rest_b, rest);
        assert(a =~= seq![a[0]] + rest_a);
        assert(b =~= seq![b[0]] + rest_b);
    }
}

/// The strings of a list in order, each once.
pub fn sorted_unique(list: &[String]) -> (r: Vec<String>)
    ensures
        sorted_set_of(texts(r@), texts(list@)),
{
    let mut out: Vec<String> = Vec::new();
    let mut i: usize = 0;
    while i < list.len()
        invariant
            i <= list@.len(),
            sorted_set_of(texts(out@), texts(list@).take(i as int)),
        decreases list@.len() - i,
    {
        let ghost before = texts(out@);
        let ghost t = list@[i as int]@;
        proof {
            let taken = texts(list@).take(i as int);
            let next = texts(list@).take(i + 1);
            assert(next =~= taken.push(t));
            assert forall|u: Seq<char>| next.contains(u) <==> taken.contains(u) || u == t by {
                if taken.contains(u) {
                    let k = choose|k: int| 0 <= k < taken.len() && taken[k] == u;
                    assert(next[k] == u);
                }
                if u == t {
                    assert(next[i as int] == u);
                }
            }
        }
        insert_sorted(&mut out, list[i].as_str());
        i += 1;
    }
    proof {
        assert(texts(list@).take(list@.len() as int) =~= texts(list@));
    }
    out
}

/// Puts a string at its place in a sorted list, unless it stands there already.
fn insert_sorted(list: &mut Vec<String>, value: &str)
    requires
        strictly_sorted(texts(old(list)@)),
    ensures
        strictly_sorted(texts(final(list)@)),
        forall|t: Seq<char>|
            texts(final(list)@).contains(t) <==> texts(old(list)@).contains(t) || t == value@,
{
    let ghost before = texts(list@);
    let mut at: usize = 0;
    while at < list.len() && !at_most(value, list[at].as_str())
        invariant
            at <= list@.len(),
            before == texts(list@),
            forall|k: int| 0 <= k < at ==> text_before(#[trigger] before[k], value@),
        decreases list@.len() - at,
    {
        proof {
            assert(before[at as int] == list@[at as int]@);
        }
        at += 1;
    }
    if at < list.len() && crate::text::same(list[at].as_str(), value) {
        proof {
            assert(before[at as int] == value@);
            assert(texts(list@) == before);
        }
        return;
    }
    proof {
        if at < list@.len() {
            assert(before[at as int] == list@[at as int]@);
            lemma_text_antisymmetric_contra(value@, before[at as int]);
        }
    }
    list.insert(at, value.to_owned());
    proof {
        let after = texts(list@);
        assert(after =~= before.insert(at as int, value@));
        assert forall|i: int, j: int| 0 <= i < j < after.len() implies #[trigger] text_before(
            after[i],
            after[j],
        ) by {
            let oi = if i < at { i } else { i - 1 };
            let oj = if j < at { j } else { j - 1 };
            if i != at && j != at {
                assert(text_before(before[oi], before[oj]));
            } else if j == at {
                assert(after[i] == before[i]);
            } else {
                assert(after[j] == before[oj]);
                if oj > at {
                    assert(text_before(before[at as int], before[oj]));
                    if text_at_most(before[oj], value@) {
                        lemma_text_transitive(before[oj], value@, before[at as int]);
                    }
                }
            }
        }
        assert forall|t: Seq<char>|
            after.contains(t) <==> before.contains(t) || t == value@ by {
            if before.contains(t) {
                let k = choose|k: int| 0 <= k < before.len() && before[k] == t;
                if k < at {
                    assert(after[k] == t);
                } else {
                    assert(after[k + 1] == t);
                }
            }
            if t == value@ {
                assert(after[at as int] == t);
            }
            if after.contains(t) {
                let k = choose|k: int| 0 <= k < after.len() && after[k] == t;
                if k < at {
                    assert(before[k] == t);
                } else if k > at {
                    assert(before[k - 1] == t);
                }
            }
        }
    }
}

proof fn lemma_text_antisymmetric_contra(a: Seq<char>, b: Seq<char>)
    requires
        text_at_most(a, b),
        a != b,
    ensures
        text_before(a, b),
{
    if text_at_most(b, a) {
        lemma_text_antisymmetric(a, b);
    }
}

/// The numbers grow from one to the next.
pub open spec fn increasing(list: Seq<i64>) -> bool {
    forall|i: int, j: int| 0 <= i < j < list.len() ==> list[i] < list[j]
}

/// The list holds exactly the numbers of `source`, each once, in order.
pub open spec fn increasing_set_of(list: Seq<i64>, source: Seq<i64>) -> bool {
    &&& increasing(list)
    &&& forall|n: i64| list.contains(n) <==> source.contains(n)
}

/// The numbers of a list in order, each once.
pub fn increasing_unique(list: &[i64]) -> (r: Vec<i64>)
    ensures
        increasing_set_of(r@, list@),
{
    let mut out: Vec<i64> = Vec::new();
    let mut i: usize = 0;
    while i < list.len()
        invariant
            i <= list@.len(),
            increasing_set_of(out@, list@.take(i as int)),
        decreases list@.len() - i,
    {
        let value: i64 = list[i];
        let ghost before = out@;
        proof {
            let taken = list@.take(i as int);
            let next = list@.take(i + 1);
            assert(next =~= taken.push(value));
            assert forall|u: i64| next.contains(u) <==> taken.contains(u) || u == value by {
                if taken.contains(u) {
                    let k = choose|k: int| 0 <= k < taken.len() && taken[k] == u;
                    assert(next[k] == u);
                }
                if u == value {
                    assert(next[i as int] == u);
                }
            }
        }
        let mut at: usize = 0;
        while at < out.len() && out[at] < value
            invariant
                at <= out@.len(),
                forall|k: int| 0 <= k < at ==> out@[k] < value,
            decreases out@.len() - at,
        {
            at += 1;
        }
        if at == out.len() || out[at] != value {
            out.insert(at, value);
            proof {
                assert(out@ =~= before.insert(at as int, value));
                assert forall|p: int, q: int| 0 <= p < q < out@.len() implies out@[p]
                    < out@[q] by {
                    let bp = if p < at {
                        p
                    } else {
                        p - 1
                    };
                    let bq = if q < at {
                        q
                    } else {
                        q - 1
                    };
                    if p != at && q != at {
                        assert(before[bp] < before[bq]);
                    } else if p == at && bq > at {
                        assert(before[at as int] < before[bq]);
                    }
                }
                assert(increasing(out@));
                assert forall|u: i64| out@.contains(u) <==> before.contains(u) || u == value by {
                    if before.contains(u) {
                        let k = choose|k: int| 0 <= k < before.len() && before[k] == u;
                        if k < at {
                            assert(out@[k] == u);
                        } else {
                            assert(out@[k + 1] == u);
                        }
                    }
                    if u == value {
                        assert(out@[at as int] == u);
                    }
                    if out@.contains(u) {
                        let k = choose|k: int| 0 <= k < out@.len() && out@[k] == u;
                        if k < at {
                            assert(before[k] == u);
                        } else if k > at {
                            assert(before[k - 1] == u);
                        }
                    }
                }
            }
        } else {
            proof {
                assert(before[at as int] == value);
            }
        }
        i += 1;
    }
    proof {
        assert(list@.take(list@.len() as int) =~= list@);
    }
    out
}

/// An ordered list without repetition has as many numbers as its source has
/// different ones, and those.
pub proof fn lemma_increasing_set(list: Seq<i64>, source: Seq<i64>)
    requires
        increasing_set_of(list, source),
    ensures
        list.to_set() == source.to_set(),
        list.len() == source.to_set().len(),
        list.no_duplicates(),
{
    list.unique_seq_to_set();
    assert forall|n: i64| list.to_set().contains(n) <==> source.to_set().contains(n) by {
        assert(list.contains(n) <==> source.contains(n));
    }
    assert(list.to_set() =~= source.to_set());
}

/// There is one ordered list without repetition of given numbers.
pub proof fn one_list_orders_the_numbers(a: Seq<i64>, b: Seq<i64>, source: Seq<i64>)
    requires
        increasing_set_of(a, source),
        increasing_set_of(b, source),
    ensures
        a == b,
{
    lemma_increasing_set(a, source);
    lemma_increasing_set(b, source);
    lemma_increasing_prefix(a, b, source, a.len() as int);
    assert(a =~= b);
}

proof fn lemma_increasing_prefix(a: Seq<i64>, b: Seq<i64>, source: Seq<i64>, n: int)
    requires
        increasing_set_of(a, source),
        increasing_set_of(b, source),
        a.len() == b.len(),
        0 <= n <= a.len(),
    ensures
        forall|i: int| 0 <= i < n ==> a[i] == b[i],
    decreases n,
{
    if n > 0 {
        lemma_increasing_prefix(a, b, source, n - 1);
        assert(b.contains(b[n - 1]));
        assert(a.contains(b[n - 1]));
        let i = choose|i: int| 0 <= i < a.len() && a[i] == b[n - 1];
        assert(a.contains(a[n - 1]));
        assert(b.contains(a[n - 1]));
        let j = choose|j: int| 0 <= j < b.len() && b[j] == a[n - 1];
        if i < n - 1 {
            assert(b[i] == b[n - 1]);
        }
        if j < n - 1 {
            assert(a[j] == a[n - 1]);
        }
    }
}

/// Texts are ordered by their first characters that differ, and a text comes before those
/// that it is the beginning of.
pub proof fn texts_are_ordered_by_their_first_difference(
    common: Seq<char>,
    a: char,
    rest: Seq<char>,
    b: char,
    other: Seq<char>,
)
    requires
        a != b,
    ensures
        text_at_most(common.push(a) + rest, common.push(b) + other) <==> a < b,
        text_at_most(common, common + rest),
        text_before(common, common.push(a) + rest),
    decreases common.len(),
{
    let x = common.push(a) + rest;
    let y = common.push(b) + other;
    if common.len() == 0 {
        assert(x[0] == a && y[0] == b);
    } else {
        let less = common.drop_first();
        texts_are_ordered_by_their_first_difference(less, a, rest, b, other);
        assert(x[0] == common[0] && y[0] == common[0]);
        assert(x.drop_first() =~= less.push(a) + rest);
        assert(y.drop_first() =~= less.push(b) + other);
        assert((common + rest)[0] == common[0]);
        assert((common + rest).drop_first() =~= less + rest);
    }
}

}
