//! Pages of lists, search patterns, labels of pools, and addresses at GitHub.
use vstd::prelude::*;

use crate::autoscaling::RepositoryCapacity;
use crate::bitbucket::{has_label_chars, label_chars_ok};
use crate::error::{ApiError, ErrorView};
use crate::numbers::{
    clamp, clamped, decimal_i64, difference_saturated, larger, max, min, product_saturated,
    saturated, signed_decimal, smaller, sum_saturated,
};
use crate::order::{sorted_set_of, sorted_unique};
use crate::search::{replace_char, replaced_char};
use crate::text::{chars_of, concat, concat4, concat5, copy_strings, same, string_of, texts};
use crate::web::{join_url, url_joined};

verus! {

// ---------------------------------------------------------------------------
// Pages

/// The number of items on a page where nothing is said.
pub const DEFAULT_PAGE_SIZE: i64 = 25;

/// The page that is asked for: the first where nothing is said, and at most the
/// millionth.
pub open spec fn page_asked(page: Option<i64>) -> int {
    match page {
        Some(page) => clamped(page as int, 1, 1_000_000),
        None => 1,
    }
}

/// The number of items on a page that is asked for: 1 to 100.
pub open spec fn size_asked(per_page: Option<i64>, default: int) -> int {
    match per_page {
        Some(size) => clamped(size as int, 1, 100),
        None => default,
    }
}

/// The page that is asked for.
pub fn query_page(page: Option<i64>) -> (r: i64)
    ensures
        r == page_asked(page),
{
    match page {
        Some(page) => clamp(page, 1, 1_000_000),
        None => 1,
    }
}

/// The number of items on a page that is asked for.
pub fn query_page_size(per_page: Option<i64>, default: i64) -> (r: i64)
    requires
        1 <= default <= 100,
    ensures
        r == size_asked(per_page, default as int),
        1 <= r <= 100,
{
    match per_page {
        Some(size) => clamp(size, 1, 100),
        None => default,
    }
}

/// The page and the number of items on it that are asked for.
pub fn pagination(page: Option<i64>, per_page: Option<i64>) -> (r: (i64, i64))
    ensures
        r.0 == page_asked(page),
        r.1 == size_asked(per_page, DEFAULT_PAGE_SIZE as int),
{
    (query_page(page), query_page_size(per_page, DEFAULT_PAGE_SIZE))
}

/// The number of pages that a list takes.
pub open spec fn page_count(total: int, per_page: int) -> int {
    if total <= 0 {
        0
    } else {
        saturated(total + per_page - 1) / per_page
    }
}

/// The page that is shown: the one that is asked for, at most the last one.
pub open spec fn page_shown(requested: int, total: int, per_page: int) -> int {
    smaller(requested, larger(page_count(total, per_page), 1))
}

/// The number of items in front of a page.
pub open spec fn items_before(page: int, per_page: int) -> int {
    saturated(saturated(page - 1) * per_page)
}

/// The page that is shown, and the number of items in front of it.
pub fn bounded_pagination(requested_page: i64, total: i64, per_page: i64) -> (r: (i64, i64))
    requires
        per_page >= 1,
    ensures
        r.0 == page_shown(requested_page as int, total as int, per_page as int),
        r.1 == items_before(r.0 as int, per_page as int),
{
    let pages: i64 = if total <= 0 {
        0
    } else {
        sum_saturated(total, per_page - 1) / per_page
    };
    let page: i64 = min(requested_page, max(pages, 1));
    (page, product_saturated(difference_saturated(page, 1), per_page))
}

/// A page that is shown of a list with items is never empty, and the pages that
/// can be shown cover the list.
pub proof fn shown_pages_hold_items(requested: int, total: int, per_page: int)
    requires
        1 <= requested,
        1 <= per_page,
        0 <= total <= i64::MAX - per_page,
    ensures
        ({
            let page = page_shown(requested, total, per_page);
            let before = items_before(page, per_page);
            &&& 1 <= page <= requested
            &&& before == (page - 1) * per_page
            &&& total > 0 ==> before < total
            &&& total == 0 ==> page == 1 && before == 0
            &&& requested * per_page < total + per_page ==> page == requested
        }),
{
    let count = page_count(total, per_page);
    let page = page_shown(requested, total, per_page);
    assert((page - 1) * per_page >= 0) by (nonlinear_arith)
        requires
            0 <= page - 1,
            1 <= per_page,
    ;
    if total > 0 {
        let top = total + per_page - 1;
        assert(count == top / per_page);
        vstd::arithmetic::div_mod::lemma_fundamental_div_mod(top, per_page);
        vstd::arithmetic::div_mod::lemma_mod_bound(top, per_page);
        assert(count >= 1) by (nonlinear_arith)
            requires
                top == per_page * count + top % per_page,
                top >= per_page,
                0 <= top % per_page < per_page,
                per_page >= 1,
        ;
        assert(count <= top) by (nonlinear_arith)
            requires
                top == per_page * count + top % per_page,
                0 <= top % per_page,
                count >= 1,
                per_page >= 1,
        ;
        assert((page - 1) * per_page < total) by (nonlinear_arith)
            requires
                page <= count,
                top == per_page * count + top % per_page,
                0 <= top % per_page,
                top == total + per_page - 1,
                per_page >= 1,
        ;
        if requested * per_page < total + per_page {
            assert(requested <= count) by (nonlinear_arith)
                requires
                    requested * per_page <= top,
                    top == per_page * count + top % per_page,
                    top % per_page < per_page,
                    per_page >= 1,
            ;
        }
    } else if requested * per_page < total + per_page {
        assert(requested <= 1) by (nonlinear_arith)
            requires
                requested * per_page < per_page,
                per_page >= 1,
        ;
    }
    assert(saturated(page - 1) == page - 1);
    assert(items_before(page, per_page) == saturated((page - 1) * per_page));
    if total == 0 {
        assert(page == 1);
        assert((page - 1) * per_page == 0) by (nonlinear_arith)
            requires
                page == 1,
        ;
    }
}

// ---------------------------------------------------------------------------
// Search patterns

/// A character that means something in a pattern.
pub open spec fn wildcard(c: char) -> bool {
    c == '\\' || c == '%' || c == '_'
}

/// A text with a backslash in front of each character that means something in a
/// pattern.
pub open spec fn escaped(s: Seq<char>) -> Seq<char>
    decreases s.len(),
{
    if s.len() == 0 {
        Seq::empty()
    } else if wildcard(s.last()) {
        escaped(s.drop_last()).push('\\').push(s.last())
    } else {
        escaped(s.drop_last()).push(s.last())
    }
}

/// A pattern that finds every text that holds the value.
pub fn like_pattern(value: &str) -> (r: String)
    ensures
        r@ == seq!['%'] + escaped(value@) + seq!['%'],
{
    let a: Vec<char> = chars_of(value);
    let mut out: Vec<char> = Vec::new();
    out.push('%');
    let mut i: usize = 0;
    proof {
        assert(out@ =~= seq!['%'] + escaped(a@.take(0)));
    }
    while i < a.len()
        invariant
            i <= a@.len(),
            a@ == value@,
            out@ == seq!['%'] + escaped(a@.take(i as int)),
        decreases a@.len() - i,
    {
        let ghost before = out@;
        proof {
            let next = a@.take(i + 1);
            assert(next.drop_last() =~= a@.take(i as int));
            assert(next.last() == a@[i as int]);
        }
        let c: char = a[i];
        if c == '\\' || c == '%' || c == '_' {
            out.push('\\');
        }
        out.push(c);
        proof {
            assert(out@ =~= seq!['%'] + escaped(a@.take(i + 1)));
        }
        i += 1;
    }
    proof {
        assert(a@.take(a@.len() as int) =~= a@);
    }
    out.push('%');
    let r: String = string_of(out.as_slice());
    proof {
        assert(r@ =~= seq!['%'] + escaped(value@) + seq!['%']);
    }
    r
}

/// What a pattern without free wildcards stands for: each backslash makes the
/// character behind it stand for itself.
pub open spec fn unescaped(s: Seq<char>) -> Seq<char>
    decreases s.len(),
{
    if s.len() == 0 {
        Seq::empty()
    } else if s[0] == '\\' && s.len() > 1 {
        seq![s[1]] + unescaped(s.skip(2))
    } else {
        seq![s[0]] + unescaped(s.skip(1))
    }
}

/// The pattern has no wildcard that does not stand for itself: every character
/// that means something comes behind a backslash.
pub open spec fn no_free_wildcard(s: Seq<char>) -> bool
    decreases s.len(),
{
    if s.len() == 0 {
        true
    } else if s[0] == '\\' {
        s.len() > 1 && no_free_wildcard(s.skip(2))
    } else {
        !wildcard(s[0]) && no_free_wildcard(s.skip(1))
    }
}

proof fn lemma_escape_step(s: Seq<char>, c: char)
    requires
        no_free_wildcard(s),
    ensures
        wildcard(c) ==> no_free_wildcard(s.push('\\').push(c)) && unescaped(s.push('\\').push(c))
            == unescaped(s).push(c),
        !wildcard(c) ==> no_free_wildcard(s.push(c)) && unescaped(s.push(c)) == unescaped(s).push(c),
    decreases s.len(),
{
    let two = s.push('\\').push(c);
    let one = s.push(c);
    if s.len() == 0 {
        assert(two.skip(2) =~= Seq::<char>::empty());
        assert(one.skip(1) =~= Seq::<char>::empty());
        assert(unescaped(two.skip(2)) =~= Seq::<char>::empty());
        assert(unescaped(one.skip(1)) =~= Seq::<char>::empty());
        assert(unescaped(s).push(c) =~= seq![c] + Seq::<char>::empty());
        reveal_with_fuel(unescaped, 2);
        reveal_with_fuel(no_free_wildcard, 2);
    } else if s[0] == '\\' {
        let rest = s.skip(2);
        lemma_escape_step(rest, c);
        assert(two.skip(2) =~= rest.push('\\').push(c));
        assert(one.skip(2) =~= rest.push(c));
        assert(seq![s[1]] + unescaped(rest).push(c) =~= unescaped(s).push(c));
    } else {
        let rest = s.skip(1);
        lemma_escape_step(rest, c);
        assert(two.skip(1) =~= rest.push('\\').push(c));
        assert(one.skip(1) =~= rest.push(c));
        assert(seq![s[0]] + unescaped(rest).push(c) =~= unescaped(s).push(c));
    }
}

/// Nothing that is searched for acts as a wildcard, and it is searched for as it
/// was given.
pub proof fn searches_are_literal(s: Seq<char>)
    ensures
        no_free_wildcard(escaped(s)),
        unescaped(escaped(s)) == s,
    decreases s.len(),
{
    if s.len() > 0 {
        searches_are_literal(s.drop_last());
        lemma_escape_step(escaped(s.drop_last()), s.last());
        assert(s.drop_last().push(s.last()) =~= s);
    } else {
        assert(unescaped(escaped(s)) =~= s);
    }
}

// ---------------------------------------------------------------------------
// Labels

/// The labels of a pool: the given ones and its name, in order, each once; at
/// most 20.
pub fn normalized_pool_labels(name: &str, additional: &[String]) -> (r: Result<
    Vec<String>,
    ApiError,
>)
    ensures
        match r {
            Ok(labels) => sorted_set_of(texts(labels@), texts(additional@).push(name@))
                && labels@.len() <= 20,
            Err(error) => error@ == ErrorView::BadRequest(
                "A runner pool can have at most 20 labels including its pool-name label."@,
            ) && exists|all: Seq<Seq<char>>| #[trigger]
                sorted_set_of(all, texts(additional@).push(name@)) && all.len() > 20,
        },
{
    let mut all: Vec<String> = copy_strings(additional);
    all.push(name.to_owned());
    proof {
        assert(texts(all@) =~= texts(additional@).push(name@));
    }
    let labels: Vec<String> = sorted_unique(all.as_slice());
    if labels.len() > 20 {
        proof {
            assert(sorted_set_of(texts(labels@), texts(additional@).push(name@)));
        }
        return Err(
            ApiError::BadRequest(
                "A runner pool can have at most 20 labels including its pool-name label."
                    .to_owned(),
            ),
        );
    }
    Ok(labels)
}

/// The label that stands for a pool at Bitbucket.
pub open spec fn remote_pool_label(pool_name: Seq<char>) -> Seq<char> {
    "gridops."@ + replaced_char(pool_name, '-', '.')
}

/// The labels of a pool but for its name.
pub open spec fn other_labels(labels: Seq<Seq<char>>, pool_name: Seq<char>) -> Seq<Seq<char>>
    decreases labels.len(),
{
    if labels.len() == 0 {
        Seq::empty()
    } else {
        let before = other_labels(labels.drop_last(), pool_name);
        if labels.last() != pool_name {
            before.push(labels.last())
        } else {
            before
        }
    }
}

/// Bitbucket takes the labels: at most ten, each of small letters, digits and
/// full stops.
pub open spec fn remote_labels_ok(labels: Seq<Seq<char>>) -> bool {
    &&& labels.len() <= 10
    &&& forall|i: int|
        0 <= i < labels.len() ==> (#[trigger] labels[i]).len() > 0 && label_chars_ok(labels[i])
}

/// The labels with which a runner of a pool registers at Bitbucket.
pub fn bitbucket_runner_labels(pool_name: &str, labels: &[String]) -> (r: Result<
    Vec<String>,
    ApiError,
>)
    ensures
        ({
            let wanted = seq![remote_pool_label(pool_name@)] + other_labels(
                texts(labels@),
                pool_name@,
            );
            match r {
                Ok(output) => sorted_set_of(texts(output@), wanted) && remote_labels_ok(
                    texts(output@),
                ),
                Err(error) => error@ == ErrorView::BadRequest(
                    "Bitbucket runner labels must use lowercase letters, numbers, and dots; at most 10 are allowed."@,
                ) && exists|all: Seq<Seq<char>>| #[trigger]
                    sorted_set_of(all, wanted) && !remote_labels_ok(all),
            }
        }),
{
    let mut all: Vec<String> = Vec::new();
    all.push(concat("gridops.", replace_char(pool_name, '-', '.').as_str()));
    let ghost first = seq![remote_pool_label(pool_name@)];
    let mut i: usize = 0;
    proof {
        assert(texts(all@) =~= first + other_labels(texts(labels@).take(0), pool_name@));
    }
    while i < labels.len()
        invariant
            i <= labels@.len(),
            texts(all@) == first + other_labels(texts(labels@).take(i as int), pool_name@),
        decreases labels@.len() - i,
    {
        let ghost before = texts(all@);
        proof {
            let next = texts(labels@).take(i + 1);
            assert(next.drop_last() =~= texts(labels@).take(i as int));
            assert(next.last() == labels@[i as int]@);
        }
        if !same(labels[i].as_str(), pool_name) {
            all.push(labels[i].clone());
            proof {
                assert(texts(all@) =~= before.push(labels@[i as int]@));
                assert(texts(all@) =~= first + other_labels(
                    texts(labels@).take(i + 1),
                    pool_name@,
                ));
            }
        }
        i += 1;
    }
    proof {
        assert(texts(labels@).take(labels@.len() as int) =~= texts(labels@));
    }
    let output: Vec<String> = sorted_unique(all.as_slice());
    let mut valid: bool = output.len() <= 10;
    let mut k: usize = 0;
    proof {
        assert(texts(output@).len() == output@.len());
    }
    while k < output.len()
        invariant
            k <= output@.len(),
            texts(output@).len() == output@.len(),
            valid == (output@.len() <= 10 && forall|j: int|
                0 <= j < k ==> (#[trigger] texts(output@)[j]).len() > 0 && label_chars_ok(
                    texts(output@)[j],
                )),
        decreases output@.len() - k,
    {
        proof {
            assert(texts(output@)[k as int] == output@[k as int]@);
        }
        if output[k].as_str().is_empty() || !has_label_chars(output[k].as_str()) {
            valid = false;
        }
        k += 1;
    }
    if !valid {
        return Err(
            ApiError::BadRequest(
                "Bitbucket runner labels must use lowercase letters, numbers, and dots; at most 10 are allowed."
                    .to_owned(),
            ),
        );
    }
    Ok(output)
}

/// The labels of a pool that are shown for editing: those but for its name.
pub fn additional_labels(labels: &[String], pool_name: &str) -> (r: Vec<String>)
    ensures
        texts(r@) == other_labels(texts(labels@), pool_name@),
{
    let mut out: Vec<String> = Vec::new();
    let mut i: usize = 0;
    proof {
        assert(texts(out@) =~= other_labels(texts(labels@).take(0), pool_name@));
    }
    while i < labels.len()
        invariant
            i <= labels@.len(),
            texts(out@) == other_labels(texts(labels@).take(i as int), pool_name@),
        decreases labels@.len() - i,
    {
        let ghost before = texts(out@);
        proof {
            let next = texts(labels@).take(i + 1);
            assert(next.drop_last() =~= texts(labels@).take(i as int));
            assert(next.last() == labels@[i as int]@);
        }
        if !same(labels[i].as_str(), pool_name) {
            out.push(labels[i].clone());
            proof {
                assert(texts(out@) =~= before.push(labels@[i as int]@));
            }
        }
        i += 1;
    }
    proof {
        assert(texts(labels@).take(labels@.len() as int) =~= texts(labels@));
    }
    out
}

// ---------------------------------------------------------------------------
// Addresses and actions

/// The address at which a runner registers itself.
pub fn runner_registration_url(account_login: &str, repository: Option<&RepositoryCapacity>) -> (r:
    String)
    ensures
        r@ == match repository {
            Some(repository) => "https://github.com/"@ + repository.owner@ + "/"@
                + repository.name@,
            None => "https://github.com/"@ + account_login@,
        },
{
    match repository {
        Some(repository) => concat4(
            "https://github.com/",
            repository.owner.as_str(),
            "/",
            repository.name.as_str(),
        ),
        None => concat("https://github.com/", account_login),
    }
}

/// The address at GitHub at which an installation is managed.
pub fn github_installation_settings_url(account_type: &str, account_login: &str, id: i64) -> (r:
    String)
    ensures
        r@ == if account_type@ == "Organization"@ {
            "https://github.com/organizations/"@ + account_login@ + "/settings/installations/"@
                + signed_decimal(id as int)
        } else {
            "https://github.com/settings/installations/"@ + signed_decimal(id as int)
        },
{
    let number: String = decimal_i64(id);
    if same(account_type, "Organization") {
        concat4(
            "https://github.com/organizations/",
            account_login,
            "/settings/installations/",
            number.as_str(),
        )
    } else {
        concat("https://github.com/settings/installations/", number.as_str())
    }
}

/// The address at which webhooks are delivered, for what joining it to the base
/// address gave.
pub fn webhook_url_from(override_url: Option<&str>, joined: Option<String>) -> (r: String)
    ensures
        r@ == match override_url {
            Some(url) => url@,
            None => match joined {
                Some(url) => url@,
                None => "/api/webhooks/github"@,
            },
        },
{
    match override_url {
        Some(url) => url.to_owned(),
        None => match joined {
            Some(url) => url,
            None => "/api/webhooks/github".to_owned(),
        },
    }
}

/// The address at which webhooks are delivered: the one that is set, or the one
/// below the base address.
pub fn effective_webhook_url(base_url: &str, override_url: Option<&str>) -> (r: String)
    ensures
        r@ == match override_url {
            Some(url) => url@,
            None => match url_joined(base_url@, "/api/webhooks/github"@) {
                Some(url) => url,
                None => "/api/webhooks/github"@,
            },
        },
{
    webhook_url_from(override_url, join_url(base_url, "/api/webhooks/github"))
}

/// The end of the path for an action on a workflow run.
pub fn workflow_action_endpoint(action: &str) -> (r: Result<&'static str, ApiError>)
    ensures
        if action@ == "cancel"@ {
            r is Ok && r->Ok_0@ == "cancel"@
        } else if action@ == "force-cancel"@ {
            r is Ok && r->Ok_0@ == "force-cancel"@
        } else if action@ == "rerun"@ {
            r is Ok && r->Ok_0@ == "rerun"@
        } else if action@ == "rerun-failed"@ {
            r is Ok && r->Ok_0@ == "rerun-failed-jobs"@
        } else {
            r is Err && r->Err_0@ == ErrorView::BadRequest("Workflow action is invalid."@)
        },
{
    if same(action, "cancel") {
        Ok("cancel")
    } else if same(action, "force-cancel") {
        Ok("force-cancel")
    } else if same(action, "rerun") {
        Ok("rerun")
    } else if same(action, "rerun-failed") {
        Ok("rerun-failed-jobs")
    } else {
        Err(ApiError::BadRequest("Workflow action is invalid.".to_owned()))
    }
}

/// The path at GitHub for an action on a workflow run.
pub fn workflow_action_path(owner: &str, repository: &str, run_id: i64, endpoint: &str) -> (r:
    String)
    ensures
        r@ == "/repos/"@ + owner@ + "/"@ + repository@ + "/actions/runs/"@ + signed_decimal(
            run_id as int,
        ) + "/"@ + endpoint@,
{
    let head: String = concat5("/repos/", owner, "/", repository, "/actions/runs/");
    concat4(head.as_str(), decimal_i64(run_id).as_str(), "/", endpoint)
}

/// The page and its size are those that are asked for, within 1 to a million and 1 to a
/// hundred; where nothing is asked for, the first page is shown, and 25 items on it.
pub proof fn pages_are_those_that_are_asked_for(n: i64, default: int)
    ensures
        1 <= n <= 1_000_000 ==> page_asked(Some(n)) == n,
        n < 1 ==> page_asked(Some(n)) == 1,
        n > 1_000_000 ==> page_asked(Some(n)) == 1_000_000,
        page_asked(None) == 1,
        1 <= n <= 100 ==> size_asked(Some(n), default) == n,
        n < 1 ==> size_asked(Some(n), default) == 1,
        n > 100 ==> size_asked(Some(n), default) == 100,
        size_asked(None, default) == default,
        DEFAULT_PAGE_SIZE == 25,
{
}

/// A list takes as many pages as hold it, and none too many.
pub proof fn lists_take_the_pages_that_hold_them(total: int, per_page: int)
    requires
        1 <= per_page,
        0 <= total <= i64::MAX - per_page,
    ensures
        page_count(total, per_page) * per_page >= total,
        total > 0 ==> (page_count(total, per_page) - 1) * per_page < total,
        total == 0 ==> page_count(total, per_page) == 0,
{
    if total > 0 {
        let top = total + per_page - 1;
        let count = top / per_page;
        vstd::arithmetic::div_mod::lemma_fundamental_div_mod(top, per_page);
        vstd::arithmetic::div_mod::lemma_mod_bound(top, per_page);
        assert(count * per_page == top - top % per_page) by (nonlinear_arith)
            requires
                top == per_page * count + top % per_page,
        ;
        assert((count - 1) * per_page == count * per_page - per_page) by (nonlinear_arith);
    } else {
        assert(0 * per_page == 0);
    }
}

/// The labels of a pool that are shown for editing are all but its name, in their order.
pub proof fn other_labels_are_all_but_the_name(labels: Seq<Seq<char>>, name: Seq<char>)
    ensures
        other_labels(labels, name) == labels.filter(|label: Seq<char>| label != name),
    decreases labels.len(),
{
    reveal(Seq::filter);
    if labels.len() > 0 {
        other_labels_are_all_but_the_name(labels.drop_last(), name);
    }
}

/// Bitbucket takes at most ten labels, none of them empty, of small letters, digits and full
/// stops; the label for a pool has full stops in place of its hyphens.
pub proof fn labels_for_bitbucket_are_plain(labels: Seq<Seq<char>>, name: Seq<char>, i: int)
    ensures
        remote_labels_ok(labels) ==> labels.len() <= 10,
        remote_labels_ok(labels) && 0 <= i < labels.len() ==> labels[i].len() > 0
            && !labels[i].contains('-') && !labels[i].contains(' ') && !labels[i].contains(','),
        labels.len() > 10 ==> !remote_labels_ok(labels),
        remote_pool_label(name).len() == name.len() + 8,
        !remote_pool_label(name).contains('-'),
        forall|k: int|
            0 <= k < name.len() && name[k] != '-' ==> #[trigger] remote_pool_label(name)[k + 8]
                == name[k],
{
    if remote_labels_ok(labels) && 0 <= i < labels.len() {
        let label = labels[i];
        assert(label_chars_ok(label));
        assert forall|k: int| 0 <= k < label.len() implies label[k] != '-' && label[k] != ' '
            && label[k] != ',' by {}
    }
    reveal_strlit("gridops.");
    let remote = remote_pool_label(name);
    assert forall|k: int| 0 <= k < remote.len() implies remote[k] != '-' by {
        if k >= 8 {
            assert(remote[k] == replaced_char(name, '-', '.')[k - 8]);
        }
    }
    assert forall|k: int| 0 <= k < name.len() && name[k] != '-' implies #[trigger] remote[k + 8]
        == name[k] by {
        assert(remote[k + 8] == replaced_char(name, '-', '.')[k]);
    }
}

}
