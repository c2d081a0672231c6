//! Finding repositories: searching, ordering and paging them, and choosing those
//! of a pool.
use vstd::prelude::*;

use crate::error::{fails_as, ApiError, ErrorView};
use crate::numbers::{clamp, clamped, decimal_i64, length_i64, saturated, signed_decimal, sum_saturated};
use crate::order::{
    at_most_chars, increasing_unique, lemma_increasing_set, lemma_text_reflexive,
    lemma_text_total, lemma_text_transitive, sorted_set_of, sorted_unique, text_at_most,
};
use crate::pages::{bounded_pagination, items_before, page_shown};
use crate::search::{contains_text, find_from, occurs_at, trim, trimmed};
use crate::text::{byte_len, chars_of, concat5, texts, utf8_len};

verus! {

/// A text in small letters, by the rules of Unicode.
pub uninterp spec fn lowercased(text: Seq<char>) -> Seq<char>;

/// `str::to_lowercase`. The result is named.
#[verifier::external_body]
pub(crate) fn to_lowercase(text: &str) -> (r: String)
    ensures
        r@ == lowercased(text@),
{
    text.to_lowercase()
}

// ---------------------------------------------------------------------------
// Searching

/// The text that repositories are searched for: without white space around it,
/// and at most 100 bytes.
pub fn repository_query(query: &Option<String>) -> (r: Result<String, ApiError>)
    ensures
        ({
            let text = match *query {
                Some(query) => trimmed(query@),
                None => Seq::empty(),
            };
            if utf8_len(text) > 100 {
                r is Err && r->Err_0@ == ErrorView::BadRequest(
                    "Repository search is limited to 100 characters."@,
                )
            } else {
                r is Ok && r->Ok_0@ == text
            }
        }),
{
    let text: String = match query {
        Some(query) => trim(query.as_str()),
        None => String::new(),
    };
    if byte_len(text.as_str()) > 100 {
        Err(
            ApiError::BadRequest("Repository search is limited to 100 characters.".to_owned()),
        )
    } else {
        Ok(text)
    }
}

/// The text that everything is searched for: without white space around it, and
/// 2 to 100 bytes.
pub fn search_query(query: &str) -> (r: Result<String, ApiError>)
    ensures
        if 2 <= utf8_len(trimmed(query@)) <= 100 {
            r is Ok && r->Ok_0@ == trimmed(query@)
        } else {
            r is Err && r->Err_0@ == ErrorView::BadRequest("Search requires 2-100 characters."@)
        },
{
    let text: String = trim(query);
    let length: usize = byte_len(text.as_str());
    if 2 <= length && length <= 100 {
        Ok(text)
    } else {
        Err(ApiError::BadRequest("Search requires 2-100 characters.".to_owned()))
    }
}

/// Positions of a list in the order of their keys, with one more position behind
/// those with the same key.
pub open spec fn with_position(list: Seq<int>, keys: Seq<Seq<char>>, i: int) -> Seq<int>
    decreases list.len(),
{
    if list.len() == 0 || text_at_most(keys[list.last()], keys[i]) {
        list.push(i)
    } else {
        with_position(list.drop_last(), keys, i).push(list.last())
    }
}

/// The positions among the first `n` whose keys hold a text, in the order of
/// their keys.
pub open spec fn matches_in_order(keys: Seq<Seq<char>>, needle: Seq<char>, n: int) -> Seq<int>
    decreases n,
{
    if n <= 0 {
        Seq::empty()
    } else {
        let before = matches_in_order(keys, needle, n - 1);
        if contains_text(keys[n - 1], needle) {
            with_position(before, keys, n - 1)
        } else {
            before
        }
    }
}

/// Positions as mathematical numbers.
pub open spec fn positions(list: Seq<usize>) -> Seq<int> {
    list.map_values(|i: usize| i as int)
}

/// The characters of each item of a list.
pub open spec fn char_lists(list: Seq<Vec<char>>) -> Seq<Seq<char>> {
    list.map_values(|chars: Vec<char>| chars@)
}

fn insert_position(list: &mut Vec<usize>, keys: &Vec<Vec<char>>, i: usize)
    requires
        i < keys@.len(),
        forall|k: int| 0 <= k < old(list)@.len() ==> #[trigger] old(list)@[k] < keys@.len(),
    ensures
        positions(final(list)@) == with_position(positions(old(list)@), char_lists(keys@), i as int),
        forall|k: int| 0 <= k < final(list)@.len() ==> #[trigger] final(list)@[k] < keys@.len(),
{
    let ghost before = positions(list@);
    let ghost all = char_lists(keys@);
    let length: usize = list.len();
    let mut at: usize = length;
    let ghost suffix = Seq::<int>::empty();
    proof {
        assert(before.take(length as int) =~= before);
        assert(with_position(before.take(at as int), all, i as int) + suffix =~= with_position(
            before,
            all,
            i as int,
        ));
    }
    while at > 0 && !at_most_chars(keys[list[at - 1]].as_slice(), keys[i].as_slice())
        invariant
            at <= length,
            length == list@.len(),
            list@ == old(list)@,
            i < keys@.len(),
            forall|k: int| 0 <= k < list@.len() ==> #[trigger] list@[k] < keys@.len(),
            before == positions(list@),
            all == char_lists(keys@),
            suffix == before.skip(at as int),
            with_position(before.take(at as int), all, i as int) + suffix == with_position(
                before,
                all,
                i as int,
            ),
        decreases at,
    {
        proof {
            let here = before.take(at as int);
            assert(here.last() == before[at - 1]);
            assert(before[at - 1] == list@[at - 1] as int);
            assert(all[list@[at - 1] as int] == keys@[list@[at - 1] as int]@);
            assert(all[i as int] == keys@[i as int]@);
            assert(here.drop_last() =~= before.take(at - 1));
            let longer = before.skip(at - 1);
            assert(longer =~= seq![before[at - 1]] + suffix);
            assert(with_position(before.take(at - 1), all, i as int) + longer =~= with_position(
                here,
                all,
                i as int,
            ) + suffix);
            suffix = longer;
        }
        at -= 1;
    }
    proof {
        if at > 0 {
            assert(before.take(at as int).last() == before[at - 1]);
            assert(before[at - 1] == list@[at - 1] as int);
            assert(all[list@[at - 1] as int] == keys@[list@[at - 1] as int]@);
            assert(all[i as int] == keys@[i as int]@);
        }
    }
    let ghost earlier = list@;
    list.insert(at, i);
    proof {
        let here = before.take(at as int);
        assert(with_position(here, all, i as int) == here.push(i as int));
        assert(positions(list@) =~= here.push(i as int) + suffix);
        assert forall|k: int| 0 <= k < list@.len() implies #[trigger] list@[k] < keys@.len() by {
            if k < at {
                assert(list@[k] == earlier[k]);
            } else if k > at {
                assert(list@[k] == earlier[k - 1]);
            }
        }
    }
}

/// A page of the items that were found, by their positions.
#[derive(Debug)]
pub struct FoundPage {
    pub positions: Vec<usize>,
    pub total: i64,
    pub page: i64,
}

impl FoundPage {
    /// The page shows what a search of the keys finds.
    pub open spec fn shows(
        &self,
        keys: Seq<Seq<char>>,
        needle: Seq<char>,
        requested_page: i64,
        per_page: i64,
    ) -> bool {
        let found = matches_in_order(keys, needle, keys.len() as int);
        let total = saturated(found.len() as int);
        let before = items_before(self.page as int, per_page as int);
        &&& self.total == total
        &&& self.page == page_shown(requested_page as int, total, per_page as int)
        &&& positions(self.positions@) == part_of(found, before, per_page as int)
    }
}

/// The part of a list behind its first `before` items, at most `limit` of them.
pub open spec fn part_of(list: Seq<int>, before: int, limit: int) -> Seq<int> {
    if before < 0 || before >= list.len() {
        Seq::empty()
    } else if before + limit >= list.len() {
        list.skip(before)
    } else {
        list.subrange(before, before + limit)
    }
}

/// A page of the items whose keys hold a text, in the order of their keys.
pub fn find_page(keys: &[String], needle: &str, requested_page: i64, per_page: i64) -> (r: FoundPage)
    requires
        1 <= per_page <= 100,
        requested_page >= 1,
    ensures
        r.shows(texts(keys@), needle@, requested_page, per_page),
        forall|k: int| 0 <= k < r.positions@.len() ==> #[trigger] r.positions@[k] < keys@.len(),
{
    let ghost all = texts(keys@);
    let wanted: Vec<char> = chars_of(needle);
    let mut lists: Vec<Vec<char>> = Vec::new();
    let mut i: usize = 0;
    while i < keys.len()
        invariant
            i <= keys@.len(),
            all == texts(keys@),
            char_lists(lists@) == all.take(i as int),
        decreases keys@.len() - i,
    {
        let ghost before = char_lists(lists@);
        let list: Vec<char> = chars_of(keys[i].as_str());
        lists.push(list);
        i += 1;
        proof {
            assert(char_lists(lists@) =~= before.push(list@));
            assert(char_lists(lists@) =~= all.take(i as int));
        }
    }
    proof {
        assert(all.take(all.len() as int) =~= all);
        assert(char_lists(lists@).len() == lists@.len());
    }
    let mut found: Vec<usize> = Vec::new();
    let mut n: usize = 0;
    proof {
        assert(positions(found@) =~= Seq::empty());
    }
    while n < lists.len()
        invariant
            n <= lists@.len(),
            all == char_lists(lists@),
            lists@.len() == keys@.len(),
            wanted@ == needle@,
            positions(found@) == matches_in_order(all, needle@, n as int),
            forall|k: int| 0 <= k < found@.len() ==> #[trigger] found@[k] < lists@.len(),
        decreases lists@.len() - n,
    {
        proof {
            assert(all[n as int] == lists@[n as int]@);
        }
        match find_from(lists[n].as_slice(), wanted.as_slice(), 0) {
            Some(at) => {
                proof {
                    assert(occurs_at(all[n as int], needle@, at as int));
                }
                insert_position(&mut found, &lists, n);
            },
            None => {
                proof {
                    assert forall|k: int| !#[trigger] occurs_at(all[n as int], needle@, k) by {
                        if k >= 0 {
                            assert(!occurs_at(lists@[n as int]@, wanted@, k));
                        }
                    }
                }
            },
        }
        n += 1;
    }
    let total: i64 = length_i64(found.len());
    let (page, before) = bounded_pagination(requested_page, total, per_page);
    let ghost whole = positions(found@);
    let mut shown: Vec<usize> = Vec::new();
    proof {
        assert(whole.len() == found@.len());
    }
    if before >= 0 && (before as u64) < found.len() as u64 {
        let from: usize = before as usize;
        let limit: usize = per_page as usize;
        let to: usize = if limit >= found.len() - from {
            found.len()
        } else {
            from + limit
        };
        let mut k: usize = from;
        while k < to
            invariant
                from <= k <= to <= found@.len(),
                found@.len() == whole.len(),
                whole == positions(found@),
                positions(shown@) == whole.subrange(from as int, k as int),
                lists@.len() == keys@.len(),
                forall|k: int| 0 <= k < found@.len() ==> #[trigger] found@[k] < lists@.len(),
                forall|k: int| 0 <= k < shown@.len() ==> #[trigger] shown@[k] < keys@.len(),
            decreases to - k,
        {
            let ghost earlier = positions(shown@);
            shown.push(found[k]);
            proof {
                assert(positions(shown@) =~= earlier.push(whole[k as int]));
                assert(positions(shown@) =~= whole.subrange(from as int, k + 1));
            }
            k += 1;
        }
        proof {
            if to == found@.len() {
                assert(whole.subrange(from as int, to as int) =~= whole.skip(from as int));
            }
            assert(positions(shown@) == part_of(whole, before as int, per_page as int));
        }
    } else {
        proof {
            assert(positions(shown@) =~= Seq::empty());
            assert(part_of(whole, before as int, per_page as int) =~= Seq::<int>::empty());
        }
    }
    FoundPage { positions: shown, total, page }
}

/// The names of a list in small letters.
pub open spec fn lowercased_all(list: Seq<Seq<char>>) -> Seq<Seq<char>> {
    list.map_values(|text: Seq<char>| lowercased(text))
}

/// A page of the repositories whose full names hold a text, whatever the case,
/// in the order of their names.
pub fn repository_page(full_names: &[String], query: &str, requested_page: i64, per_page: i64) -> (r:
    FoundPage)
    requires
        1 <= per_page <= 100,
        requested_page >= 1,
    ensures
        r.shows(lowercased_all(texts(full_names@)), lowercased(query@), requested_page, per_page),
        forall|k: int|
            0 <= k < r.positions@.len() ==> #[trigger] r.positions@[k] < full_names@.len(),
{
    let ghost wanted = lowercased_all(texts(full_names@));
    let mut keys: Vec<String> = Vec::new();
    let mut i: usize = 0;
    while i < full_names.len()
        invariant
            i <= full_names@.len(),
            wanted == lowercased_all(texts(full_names@)),
            texts(keys@) == wanted.take(i as int),
            keys@.len() == i,
        decreases full_names@.len() - i,
    {
        let ghost before = texts(keys@);
        let key: String = to_lowercase(full_names[i].as_str());
        keys.push(key);
        i += 1;
        proof {
            assert(texts(keys@) =~= before.push(key@));
            assert(texts(keys@) =~= wanted.take(i as int));
        }
    }
    proof {
        assert(wanted.take(wanted.len() as int) =~= wanted);
    }
    let needle: String = to_lowercase(query);
    find_page(keys.as_slice(), needle.as_str(), requested_page, per_page)
}

proof fn lemma_with_position(list: Seq<int>, keys: Seq<Seq<char>>, i: int)
    ensures
        with_position(list, keys, i).to_multiset() == list.to_multiset().insert(i),
        with_position(list, keys, i).len() == list.len() + 1,
    decreases list.len(),
{
    broadcast use vstd::seq_lib::group_to_multiset_ensures;

    if list.len() > 0 && !text_at_most(keys[list.last()], keys[i]) {
        let front = list.drop_last();
        lemma_with_position(front, keys, i);
        assert(list =~= front.push(list.last()));
        assert(with_position(list, keys, i).to_multiset() =~= list.to_multiset().insert(i));
    }
}

/// A search finds every item whose key holds the text, and no other, each once.
pub proof fn searches_find_exactly_the_matches(keys: Seq<Seq<char>>, needle: Seq<char>, n: int)
    requires
        0 <= n <= keys.len(),
    ensures
        forall|i: int|
            #![trigger matches_in_order(keys, needle, n).to_multiset().count(i)]
            matches_in_order(keys, needle, n).to_multiset().count(i) == if 0 <= i < n
                && contains_text(keys[i], needle) {
                1nat
            } else {
                0nat
            },
    decreases n,
{
    broadcast use vstd::seq_lib::group_to_multiset_ensures;

    if n > 0 {
        searches_find_exactly_the_matches(keys, needle, n - 1);
        lemma_with_position(matches_in_order(keys, needle, n - 1), keys, n - 1);
    }
}

/// Positions in the order of their keys.
pub open spec fn in_key_order(list: Seq<int>, keys: Seq<Seq<char>>) -> bool {
    forall|i: int, j: int|
        0 <= i <= j < list.len() ==> text_at_most(#[trigger] keys[list[i]], #[trigger] keys[list[j]])
}

proof fn lemma_with_position_ordered(list: Seq<int>, keys: Seq<Seq<char>>, i: int)
    requires
        in_key_order(list, keys),
    ensures
        in_key_order(with_position(list, keys, i), keys),
        forall|k: int|
            0 <= k < with_position(list, keys, i).len() ==> (#[trigger] with_position(
                list,
                keys,
                i,
            )[k] == i || list.contains(with_position(list, keys, i)[k])),
    decreases list.len(),
{
    let placed = with_position(list, keys, i);
    lemma_text_reflexive(keys[i]);
    if list.len() == 0 {
        assert(placed =~= seq![i]);
    } else if text_at_most(keys[list.last()], keys[i]) {
        assert forall|a: int, b: int| 0 <= a <= b < placed.len() implies text_at_most(
            #[trigger] keys[placed[a]],
            #[trigger] keys[placed[b]],
        ) by {
            if b == list.len() && a < b {
                assert(text_at_most(keys[list[a]], keys[list[list.len() - 1]]));
                lemma_text_transitive(keys[list[a]], keys[list.last()], keys[i]);
            } else if b < list.len() {
                assert(text_at_most(keys[list[a]], keys[list[b]]));
            }
        }
        assert forall|k: int| 0 <= k < placed.len() implies (#[trigger] placed[k] == i
            || list.contains(placed[k])) by {
            if k < list.len() {
                assert(placed[k] == list[k]);
            }
        }
    } else {
        let front = list.drop_last();
        let last = list.last();
        assert forall|a: int, b: int| 0 <= a <= b < front.len() implies text_at_most(
            #[trigger] keys[front[a]],
            #[trigger] keys[front[b]],
        ) by {
            assert(text_at_most(keys[list[a]], keys[list[b]]));
        }
        lemma_with_position_ordered(front, keys, i);
        lemma_text_total(keys[i], keys[last]);
        lemma_text_reflexive(keys[last]);
        let inner = with_position(front, keys, i);
        assert(placed == inner.push(last));
        assert forall|k: int| 0 <= k < inner.len() implies text_at_most(
            keys[#[trigger] inner[k]],
            keys[last],
        ) && (inner[k] == i || list.contains(inner[k])) by {
            if inner[k] != i {
                let a = choose|a: int| 0 <= a < front.len() && front[a] == inner[k];
                assert(list[a] == inner[k]);
                assert(text_at_most(keys[list[a]], keys[list[list.len() - 1]]));
            }
        }
        assert forall|a: int, b: int| 0 <= a <= b < placed.len() implies text_at_most(
            #[trigger] keys[placed[a]],
            #[trigger] keys[placed[b]],
        ) by {
            if b < inner.len() {
                assert(text_at_most(keys[inner[a]], keys[inner[b]]));
            } else if a < inner.len() {
                assert(text_at_most(keys[inner[a]], keys[last]));
            }
        }
        assert forall|k: int| 0 <= k < placed.len() implies (#[trigger] placed[k] == i
            || list.contains(placed[k])) by {
            if k < inner.len() {
                assert(placed[k] == inner[k]);
            } else {
                assert(list[list.len() - 1] == placed[k]);
            }
        }
    }
}

/// What a search finds is in the order of its keys.
pub proof fn matches_are_in_order(keys: Seq<Seq<char>>, needle: Seq<char>, n: int)
    ensures
        in_key_order(matches_in_order(keys, needle, n), keys),
    decreases n,
{
    if n > 0 {
        matches_are_in_order(keys, needle, n - 1);
        if contains_text(keys[n - 1], needle) {
            lemma_with_position_ordered(matches_in_order(keys, needle, n - 1), keys, n - 1);
        }
    }
}

// ---------------------------------------------------------------------------
// Choosing the repositories of a pool

/// A repository that may be chosen.
#[derive(Debug, Clone, Copy)]
pub struct RepositoryChoice {
    pub id: i64,
    pub archived: bool,
}

/// The positions of the repositories among the first `n` that are in use, in the
/// order of their keys.
pub open spec fn offered(
    keys: Seq<Seq<char>>,
    choices: Seq<RepositoryChoice>,
    n: int,
) -> Seq<int>
    decreases n,
{
    if n <= 0 {
        Seq::empty()
    } else {
        let before = offered(keys, choices, n - 1);
        if choices[n - 1].archived {
            before
        } else {
            with_position(before, keys, n - 1)
        }
    }
}

/// The positions of the repositories that are offered for a pool: those in use, in
/// the order of their full names, whatever the case.
pub fn offered_repositories(full_names: &[String], choices: &[RepositoryChoice]) -> (r: Vec<usize>)
    requires
        full_names@.len() == choices@.len(),
    ensures
        positions(r@) == offered(
            lowercased_all(texts(full_names@)),
            choices@,
            choices@.len() as int,
        ),
        forall|k: int| 0 <= k < r@.len() ==> #[trigger] r@[k] < full_names@.len(),
{
    let ghost wanted = lowercased_all(texts(full_names@));
    let mut keys: Vec<Vec<char>> = Vec::new();
    let mut i: usize = 0;
    while i < full_names.len()
        invariant
            i <= full_names@.len(),
            wanted == lowercased_all(texts(full_names@)),
            char_lists(keys@) == wanted.take(i as int),
            keys@.len() == i,
        decreases full_names@.len() - i,
    {
        let ghost before = char_lists(keys@);
        let key: Vec<char> = chars_of(to_lowercase(full_names[i].as_str()).as_str());
        keys.push(key);
        i += 1;
        proof {
            assert(char_lists(keys@) =~= before.push(key@));
            assert(char_lists(keys@) =~= wanted.take(i as int));
        }
    }
    proof {
        assert(wanted.take(wanted.len() as int) =~= wanted);
    }
    let mut out: Vec<usize> = Vec::new();
    let mut n: usize = 0;
    proof {
        assert(positions(out@) =~= Seq::empty());
    }
    while n < choices.len()
        invariant
            n <= choices@.len(),
            keys@.len() == choices@.len(),
            char_lists(keys@) == wanted,
            positions(out@) == offered(wanted, choices@, n as int),
            forall|k: int| 0 <= k < out@.len() ==> #[trigger] out@[k] < keys@.len(),
        decreases choices@.len() - n,
    {
        if !choices[n].archived {
            insert_position(&mut out, &keys, n);
        }
        n += 1;
    }
    out
}

/// What is offered is in the order of its keys.
pub proof fn offers_are_in_order(keys: Seq<Seq<char>>, choices: Seq<RepositoryChoice>, n: int)
    ensures
        in_key_order(offered(keys, choices, n), keys),
    decreases n,
{
    if n > 0 {
        offers_are_in_order(keys, choices, n - 1);
        lemma_with_position_ordered(offered(keys, choices, n - 1), keys, n - 1);
    }
}

/// Every repository in use is offered once, and no archived one.
pub proof fn repositories_in_use_are_offered(
    keys: Seq<Seq<char>>,
    choices: Seq<RepositoryChoice>,
    n: int,
)
    requires
        0 <= n <= choices.len(),
    ensures
        forall|i: int|
            #![trigger offered(keys, choices, n).to_multiset().count(i)]
            offered(keys, choices, n).to_multiset().count(i) == if 0 <= i < n
                && !choices[i].archived {
                1nat
            } else {
                0nat
            },
    decreases n,
{
    broadcast use vstd::seq_lib::group_to_multiset_ensures;

    if n > 0 {
        repositories_in_use_are_offered(keys, choices, n - 1);
        lemma_with_position(offered(keys, choices, n - 1), keys, n - 1);
    }
}

/// Positions in the order of their numbers, with one more position behind those
/// with the same number.
pub open spec fn with_choice(list: Seq<int>, choices: Seq<RepositoryChoice>, i: int) -> Seq<int>
    decreases list.len(),
{
    if list.len() == 0 || choices[list.last()].id <= choices[i].id {
        list.push(i)
    } else {
        with_choice(list.drop_last(), choices, i).push(list.last())
    }
}

/// The positions among the first `n` of the repositories that are asked for and
/// not archived, in the order of their numbers.
pub open spec fn chosen(choices: Seq<RepositoryChoice>, requested: Seq<i64>, n: int) -> Seq<int>
    decreases n,
{
    if n <= 0 {
        Seq::empty()
    } else {
        let before = chosen(choices, requested, n - 1);
        if requested.contains(choices[n - 1].id) && !choices[n - 1].archived {
            with_choice(before, choices, n - 1)
        } else {
            before
        }
    }
}

fn insert_choice(list: &mut Vec<usize>, choices: &[RepositoryChoice], i: usize)
    requires
        i < choices@.len(),
        forall|k: int| 0 <= k < old(list)@.len() ==> #[trigger] old(list)@[k] < choices@.len(),
    ensures
        positions(final(list)@) == with_choice(positions(old(list)@), choices@, i as int),
        forall|k: int| 0 <= k < final(list)@.len() ==> #[trigger] final(list)@[k] < choices@.len(),
{
    let ghost before = positions(list@);
    let length: usize = list.len();
    let mut at: usize = length;
    let ghost suffix = Seq::<int>::empty();
    proof {
        assert(before.take(length as int) =~= before);
        assert(with_choice(before.take(at as int), choices@, i as int) + suffix =~= with_choice(
            before,
            choices@,
            i as int,
        ));
    }
    while at > 0 && choices[list[at - 1]].id > choices[i].id
        invariant
            at <= length,
            length == list@.len(),
            list@ == old(list)@,
            i < choices@.len(),
            forall|k: int| 0 <= k < list@.len() ==> #[trigger] list@[k] < choices@.len(),
            before == positions(list@),
            suffix == before.skip(at as int),
            with_choice(before.take(at as int), choices@, i as int) + suffix == with_choice(
                before,
                choices@,
                i as int,
            ),
        decreases at,
    {
        proof {
            let here = before.take(at as int);
            assert(here.last() == before[at - 1]);
            assert(before[at - 1] == list@[at - 1] as int);
            assert(here.drop_last() =~= before.take(at - 1));
            let longer = before.skip(at - 1);
            assert(longer =~= seq![before[at - 1]] + suffix);
            assert(with_choice(before.take(at - 1), choices@, i as int) + longer =~= with_choice(
                here,
                choices@,
                i as int,
            ) + suffix);
            suffix = longer;
        }
        at -= 1;
    }
    proof {
        if at > 0 {
            assert(before.take(at as int).last() == before[at - 1]);
            assert(before[at - 1] == list@[at - 1] as int);
        }
    }
    let ghost earlier = list@;
    list.insert(at, i);
    proof {
        let here = before.take(at as int);
        assert(with_choice(here, choices@, i as int) == here.push(i as int));
        assert(positions(list@) =~= here.push(i as int) + suffix);
        assert forall|k: int| 0 <= k < list@.len() implies #[trigger] list@[k] < choices@.len() by {
            if k < at {
                assert(list@[k] == earlier[k]);
            } else if k > at {
                assert(list@[k] == earlier[k - 1]);
            }
        }
    }
}

fn is_requested(requested: &[i64], id: i64) -> (r: bool)
    ensures
        r == requested@.contains(id),
{
    let mut i: usize = 0;
    while i < requested.len()
        invariant
            i <= requested@.len(),
            forall|k: int| 0 <= k < i ==> requested@[k] != id,
        decreases requested@.len() - i,
    {
        if requested[i] == id {
            proof {
                assert(requested@[i as int] == id);
            }
            return true;
        }
        i += 1;
    }
    false
}

/// The repositories of a pool, by their positions among those that may be
/// chosen: all that are asked for must be there.
pub fn selected_available_repositories(choices: &[RepositoryChoice], requested: &[i64]) -> (r:
    Result<Vec<usize>, ApiError>)
    ensures
        ({
            let found = chosen(choices@, requested@, choices@.len() as int);
            if found.len() == requested@.to_set().len() {
                r is Ok && positions(r->Ok_0@) == found
            } else {
                r is Err && r->Err_0@ == ErrorView::BadRequest(
                    "One or more selected repositories are unavailable or you cannot administer their GitHub App installation."@,
                )
            }
        }),
        r is Ok ==> forall|k: int|
            0 <= k < r->Ok_0@.len() ==> #[trigger] r->Ok_0@[k] < choices@.len(),
{
    let mut found: Vec<usize> = Vec::new();
    let mut n: usize = 0;
    proof {
        assert(positions(found@) =~= Seq::empty());
    }
    while n < choices.len()
        invariant
            n <= choices@.len(),
            positions(found@) == chosen(choices@, requested@, n as int),
            forall|k: int| 0 <= k < found@.len() ==> #[trigger] found@[k] < choices@.len(),
        decreases choices@.len() - n,
    {
        if is_requested(requested, choices[n].id) && !choices[n].archived {
            insert_choice(&mut found, choices, n);
        }
        n += 1;
    }
    let distinct: Vec<i64> = increasing_unique(requested);
    proof {
        lemma_increasing_set(distinct@, requested@);
        assert(positions(found@).len() == found@.len());
    }
    if found.len() != distinct.len() {
        return Err(
            ApiError::BadRequest(
                "One or more selected repositories are unavailable or you cannot administer their GitHub App installation."
                    .to_owned(),
            ),
        );
    }
    Ok(found)
}

/// The connections that are looked up for a pool: those that are asked for, in
/// order, each once.
pub fn requested_connections(connection_ids: &[String]) -> (r: Vec<String>)
    ensures
        sorted_set_of(texts(r@), texts(connection_ids@)),
{
    sorted_unique(connection_ids)
}

/// Refuses connections of which some were not found.
pub fn check_connections(requested: usize, found: usize) -> (r: Result<(), ApiError>)
    ensures
        fails_as(
            r,
            if found == requested {
                None
            } else {
                Some(
                    ErrorView::BadRequest(
                        "One or more Bitbucket workspace connections do not exist."@,
                    ),
                )
            },
        ),
{
    if found == requested {
        Ok(())
    } else {
        Err(
            ApiError::BadRequest(
                "One or more Bitbucket workspace connections do not exist.".to_owned(),
            ),
        )
    }
}

// ---------------------------------------------------------------------------
// Reading the repositories of an installation

/// The last page of a list of which the total is known: at least the first, at
/// most the hundredth.
pub open spec fn last_page_of(total: i64) -> int {
    clamped(saturated(total + 99) / 100, 1, 100)
}

/// The last page of a list of which the total is known.
pub fn last_repository_page(total: i64) -> (r: i64)
    ensures
        r == last_page_of(total),
{
    let n: i64 = sum_saturated(total, 99);
    if n < 100 {
        1
    } else {
        clamp(n / 100, 1, 100)
    }
}

/// Refuses a list that came back with fewer items than were announced.
pub fn check_repository_total(loaded: usize, expected: i64, installation_id: i64) -> (r: Result<
    (),
    ApiError,
>)
    ensures
        fails_as(
            r,
            if saturated(loaded as int) < expected {
                Some(
                    ErrorView::Internal(
                        "GitHub returned "@ + signed_decimal(saturated(loaded as int)) + " of "@
                            + signed_decimal(expected as int)
                            + " repositories for installation "@ + signed_decimal(
                            installation_id as int,
                        ),
                    ),
                )
            } else {
                None
            },
        ),
{
    let count: i64 = length_i64(loaded);
    if count < expected {
        let head: String = concat5(
            "GitHub returned ",
            decimal_i64(count).as_str(),
            " of ",
            decimal_i64(expected).as_str(),
            " repositories for installation ",
        );
        return Err(
            ApiError::Internal(
                crate::text::concat(head.as_str(), decimal_i64(installation_id).as_str()),
            ),
        );
    }
    Ok(())
}

/// The pages up to the last one hold every announced item, up to ten thousand.
pub proof fn pages_hold_every_repository(total: i64)
    requires
        0 <= total <= 10_000,
    ensures
        100 * last_page_of(total) >= total,
        total > 0 ==> 100 * (last_page_of(total) - 1) < total,
{
}

/// A page shows the items behind those of the pages before it, as many as it holds, and the
/// last page those that are left.
pub proof fn pages_show_their_part(list: Seq<int>, before: int, limit: int, i: int)
    requires
        0 <= before,
        0 <= limit,
    ensures
        0 <= i < part_of(list, before, limit).len() ==> part_of(list, before, limit)[i]
            == list[before + i],
        part_of(list, before, limit).len() == if before >= list.len() {
            0
        } else if before + limit >= list.len() {
            list.len() - before
        } else {
            limit
        },
{
}

/// The repositories that are chosen are those that are asked for and in use, each once, in the
/// order of their numbers.
pub proof fn asked_repositories_are_chosen(
    choices: Seq<RepositoryChoice>,
    requested: Seq<i64>,
    n: int,
)
    requires
        0 <= n <= choices.len(),
    ensures
        forall|i: int|
            #![trigger chosen(choices, requested, n).to_multiset().count(i)]
            chosen(choices, requested, n).to_multiset().count(i) == if 0 <= i < n
                && requested.contains(choices[i].id) && !choices[i].archived {
                1nat
            } else {
                0nat
            },
        forall|a: int, b: int|
            0 <= a <= b < chosen(choices, requested, n).len() ==> choices[#[trigger] chosen(
                choices,
                requested,
                n,
            )[a]].id <= choices[#[trigger] chosen(choices, requested, n)[b]].id,
    decreases n,
{
    broadcast use vstd::seq_lib::group_to_multiset_ensures;

    if n > 0 {
        asked_repositories_are_chosen(choices, requested, n - 1);
        let before = chosen(choices, requested, n - 1);
        if requested.contains(choices[n - 1].id) && !choices[n - 1].archived {
            lemma_with_choice(before, choices, n - 1);
        }
        let all = chosen(choices, requested, n);
        assert forall|i: int| #![trigger all.to_multiset().count(i)]
            all.to_multiset().count(i) == (if 0 <= i < n && requested.contains(choices[i].id)
                && !choices[i].archived {
                1nat
            } else {
                0nat
            }) by {
            assert(before.to_multiset().count(i) == before.to_multiset().count(i));
        }
    }
}

proof fn lemma_with_choice(list: Seq<int>, choices: Seq<RepositoryChoice>, i: int)
    requires
        forall|a: int, b: int|
            0 <= a <= b < list.len() ==> choices[#[trigger] list[a]].id <= choices[
            #[trigger] list[b]].id,
    ensures
        with_choice(list, choices, i).to_multiset() == list.to_multiset().insert(i),
        forall|a: int, b: int|
            0 <= a <= b < with_choice(list, choices, i).len() ==> choices[#[trigger] with_choice(
                list,
                choices,
                i,
            )[a]].id <= choices[#[trigger] with_choice(list, choices, i)[b]].id,
        forall|k: int|
            0 <= k < with_choice(list, choices, i).len() ==> with_choice(list, choices, i)[k] == i
                || list.contains(#[trigger] with_choice(list, choices, i)[k]),
    decreases list.len(),
{
    broadcast use vstd::seq_lib::group_to_multiset_ensures;

    let result = with_choice(list, choices, i);
    if list.len() == 0 || choices[list.last()].id <= choices[i].id {
        assert forall|a: int, b: int| 0 <= a <= b < result.len() implies choices[
        #[trigger] result[a]].id <= choices[#[trigger] result[b]].id by {
            if b == list.len() && a < b {
                assert(result[a] == list[a]);
                assert(choices[list[a]].id <= choices[list[list.len() - 1]].id);
            } else if b < list.len() {
                assert(result[a] == list[a] && result[b] == list[b]);
            }
        }
        assert forall|k: int| 0 <= k < result.len() implies result[k] == i || list.contains(
            #[trigger] result[k],
        ) by {
            if k < list.len() {
                assert(result[k] == list[k]);
            }
        }
    } else {
        let front = list.drop_last();
        let inner = with_choice(front, choices, i);
        assert forall|a: int, b: int| 0 <= a <= b < front.len() implies choices[
        #[trigger] front[a]].id <= choices[#[trigger] front[b]].id by {
            assert(front[a] == list[a] && front[b] == list[b]);
        }
        lemma_with_choice(front, choices, i);
        assert(list =~= front.push(list.last()));
        assert(result.to_multiset() =~= list.to_multiset().insert(i));
        assert forall|k: int| 0 <= k < result.len() implies result[k] == i || list.contains(
            #[trigger] result[k],
        ) by {
            if k < inner.len() {
                assert(result[k] == inner[k]);
                if inner[k] != i {
                    let m = choose|m: int| 0 <= m < front.len() && front[m] == inner[k];
                    assert(list[m] == result[k]);
                }
            } else {
                assert(list[list.len() - 1] == result[k]);
            }
        }
        assert forall|a: int, b: int| 0 <= a <= b < result.len() implies choices[
        #[trigger] result[a]].id <= choices[#[trigger] result[b]].id by {
            if b == inner.len() && a < b {
                assert(result[a] == inner[a]);
                if inner[a] != i {
                    let m = choose|m: int| 0 <= m < front.len() && front[m] == inner[a];
                    assert(list[m] == inner[a]);
                    assert(choices[list[m]].id <= choices[list[list.len() - 1]].id);
                }
            } else if b < inner.len() {
                assert(result[a] == inner[a] && result[b] == inner[b]);
            }
        }
    }
}

}
