//! The paginator: the slicing of an ordered result into pages, with the numbers that
//! describe a page.

use crate::models::error_report::{Model, PaginationInfo};
use crate::services::query::{
    creation_keys, matching, matching_positions, newest_between, newest_first, Predicate,
};
use crate::utils::ranking::{descending_order, lemma_descending_order};
use vstd::prelude::*;

verus! {

/// The largest page size that is ever served.
pub const MAX_PAGE_SIZE: u64 = 100;

/// The page number that is served for a requested one: pages count from one.
pub open spec fn effective_page(page: u64) -> int {
    if page < 1 {
        1
    } else {
        page as int
    }
}

/// The page size that is served for a requested one: at least one, at most a hundred.
pub open spec fn effective_page_size(page_size: u64) -> int {
    if page_size < 1 {
        1
    } else if page_size > MAX_PAGE_SIZE {
        MAX_PAGE_SIZE as int
    } else {
        page_size as int
    }
}

/// Number of pages that `total` items fill: `total / per_page`, rounded up.
pub open spec fn page_count(total: int, per_page: int) -> int {
    (total + per_page - 1) / per_page
}

/// Where page `page` of `per_page` items begins among `total` items.
pub open spec fn page_start(total: int, page: int, per_page: int) -> int {
    if (page - 1) * per_page < total {
        (page - 1) * per_page
    } else {
        total
    }
}

/// Where page `page` of `per_page` items ends among `total` items.
pub open spec fn page_end(total: int, page: int, per_page: int) -> int {
    if page * per_page < total {
        page * per_page
    } else {
        total
    }
}

/// The items of page `page`, for pages of `per_page` items that count from one.
pub open spec fn page_items<T>(items: Seq<T>, page: int, per_page: int) -> Seq<T> {
    items.subrange(
        page_start(items.len() as int, page, per_page),
        page_end(items.len() as int, page, per_page),
    )
}

/// The numbers that describe a page of a result of `total` items.
pub open spec fn pagination_of(total: int, page: u64, page_size: u64) -> PaginationInfo {
    PaginationInfo {
        page: effective_page(page) as u64,
        per_page: effective_page_size(page_size) as u64,
        total: total as u64,
        total_pages: page_count(total, effective_page_size(page_size)) as u64,
    }
}

/// The page of reports that a request is answered with.
pub open spec fn listed(
    reports: Seq<Model>,
    predicate: Predicate,
    page: u64,
    page_size: u64,
) -> Seq<Model> {
    page_items(
        newest_first(matching(reports, predicate)),
        effective_page(page),
        effective_page_size(page_size),
    )
}

/// The page size that is served for a requested one.
pub fn clamp_page_size(page_size: u64) -> (served: u64)
    ensures
        served == effective_page_size(page_size),
        1 <= served <= MAX_PAGE_SIZE,
{
    if page_size < 1 {
        1
    } else if page_size > MAX_PAGE_SIZE {
        MAX_PAGE_SIZE
    } else {
        page_size
    }
}

/// The page number that is served for a requested one.
pub fn clamp_page(page: u64) -> (served: u64)
    ensures
        served == effective_page(page),
        1 <= served,
{
    if page < 1 {
        1
    } else {
        page
    }
}

/// Number of pages that `total` items fill with `per_page` items on a page.
pub fn count_pages(total: u64, per_page: u64) -> (pages: u64)
    requires
        per_page >= 1,
    ensures
        pages == page_count(total as int, per_page as int),
{
    proof {
        lemma_page_count(total as int, per_page as int);
    }
    let whole = total / per_page;
    if total % per_page == 0 {
        whole
    } else {
        whole + 1
    }
}

/// Rounding up: the page count is the quotient, and one more where a remainder is left.
pub proof fn lemma_page_count(total: int, per_page: int)
    requires
        0 <= total,
        1 <= per_page,
    ensures
        page_count(total, per_page) == if total % per_page == 0 {
            total / per_page
        } else {
            total / per_page + 1
        },
        (page_count(total, per_page) - 1) * per_page < total || total == 0,
        total <= page_count(total, per_page) * per_page,
        0 <= page_count(total, per_page) <= total,
{
    let q = total / per_page;
    let r = total % per_page;
    assert(total == q * per_page + r) by {
        vstd::arithmetic::div_mod::lemma_fundamental_div_mod(total, per_page);
        assert(per_page * q == q * per_page) by (nonlinear_arith);
    }
    assert(0 <= q <= total) by (nonlinear_arith)
        requires
            total == q * per_page + r,
            0 <= r < per_page,
            1 <= per_page,
            0 <= total,
    ;
    if r == 0 {
        assert(total + per_page - 1 == q * per_page + (per_page - 1));
        vstd::arithmetic::div_mod::lemma_fundamental_div_mod_converse(
            total + per_page - 1,
            per_page,
            q,
            per_page - 1,
        );
        assert((q - 1) * per_page < total || total == 0) by (nonlinear_arith)
            requires
                total == q * per_page,
                1 <= per_page,
                0 <= q,
        ;
    } else {
        assert(total + per_page - 1 == (q + 1) * per_page + (r - 1)) by (nonlinear_arith)
            requires
                total == q * per_page + r,
        ;
        vstd::arithmetic::div_mod::lemma_fundamental_div_mod_converse(
            total + per_page - 1,
            per_page,
            q + 1,
            r - 1,
        );
        assert(total <= (q + 1) * per_page) by (nonlinear_arith)
            requires
                total == q * per_page + r,
                r < per_page,
        ;
        assert(q + 1 <= total) by (nonlinear_arith)
            requires
                total == q * per_page + r,
                1 <= r,
                1 <= per_page,
                0 <= q,
        ;
    }
}

/// Serves one page of the reports that meet `predicate`, newest first, with the
/// numbers that describe it. A page past the last one is empty.
pub fn paginate(reports: &Vec<Model>, predicate: &Predicate, page: u64, page_size: u64) -> (served:
    (Vec<Model>, PaginationInfo))
    ensures
        served.0@ == listed(reports@, *predicate, page, page_size),
        served.1 == pagination_of(
            matching(reports@, *predicate).len() as int,
            page,
            page_size,
        ),
{
    let positions = matching_positions(reports, predicate);
    let page = clamp_page(page);
    let per_page = clamp_page_size(page_size);
    let total: usize = positions.len();
    let ghost found = matching(reports@, *predicate);
    assert(found.len() == total);
    proof {
        lemma_descending_order(creation_keys(found));
    }
    assert((page - 1) * per_page <= u64::MAX * MAX_PAGE_SIZE) by (nonlinear_arith)
        requires
            0 <= page - 1 <= u64::MAX,
            0 <= per_page <= MAX_PAGE_SIZE,
    ;
    let first: u128 = (page - 1) as u128 * (per_page as u128);
    let start: usize = if first < total as u128 {
        first as usize
    } else {
        total
    };
    let last: u128 = first + per_page as u128;
    let end: usize = if last < total as u128 {
        last as usize
    } else {
        total
    };
    assert(start == page_start(total as int, page as int, per_page as int)) by (nonlinear_arith)
        requires
            first == (page - 1) * per_page,
            start == if first < total {
                first as int
            } else {
                total as int
            },
    ;
    assert(end == page_end(total as int, page as int, per_page as int)) by (nonlinear_arith)
        requires
            first == (page - 1) * per_page,
            last == first + per_page,
            end == if last < total {
                last as int
            } else {
                total as int
            },
    ;
    let errors = newest_between(reports, &positions, start, end);
    let pagination = PaginationInfo {
        page,
        per_page,
        total: total as u64,
        total_pages: count_pages(total as u64, per_page),
    };
    (errors, pagination)
}

/// The pages one to `last_page`, one after the other.
pub open spec fn pages_up_to<T>(items: Seq<T>, per_page: int, last_page: int) -> Seq<T>
    decreases last_page,
{
    if last_page <= 0 {
        Seq::empty()
    } else {
        pages_up_to(items, per_page, last_page - 1) + page_items(items, last_page, per_page)
    }
}

/// The first pages, one after the other, are the first items: nothing is left out,
/// nothing comes twice and the order is kept.
pub proof fn lemma_pages_concatenate<T>(items: Seq<T>, per_page: int, last_page: int)
    requires
        per_page >= 1,
        last_page >= 0,
    ensures
        pages_up_to(items, per_page, last_page) == items.take(
            page_end(items.len() as int, last_page, per_page),
        ),
    decreases last_page,
{
    let total = items.len() as int;
    if last_page == 0 {
        assert(0 * per_page == 0) by (nonlinear_arith);
        assert(items.take(page_end(total, 0, per_page)) =~= Seq::<T>::empty());
    } else {
        lemma_pages_concatenate(items, per_page, last_page - 1);
        assert((last_page - 1) * per_page <= last_page * per_page) by (nonlinear_arith)
            requires
                per_page >= 1,
        ;
        assert((last_page - 1) * per_page >= 0) by (nonlinear_arith)
            requires
                per_page >= 1,
                last_page >= 1,
        ;
        assert(page_start(total, last_page, per_page) == page_end(total, last_page - 1, per_page));
        assert(items.take(page_end(total, last_page - 1, per_page)) + page_items(
            items,
            last_page,
            per_page,
        ) =~= items.take(page_end(total, last_page, per_page)));
    }
}

/// All pages, one after the other, are the whole result: every item once, in order.
pub proof fn lemma_all_pages_give_all<T>(items: Seq<T>, per_page: int)
    requires
        per_page >= 1,
    ensures
        pages_up_to(items, per_page, page_count(items.len() as int, per_page)) == items,
{
    let total = items.len() as int;
    lemma_page_count(total, per_page);
    lemma_pages_concatenate(items, per_page, page_count(total, per_page));
    assert(items.take(total) =~= items);
}

/// A page holds no more items than a page may hold, and a page past the last one
/// holds none.
pub proof fn lemma_page_bounds<T>(items: Seq<T>, page: int, per_page: int)
    requires
        per_page >= 1,
        page >= 1,
    ensures
        page_items(items, page, per_page).len() <= per_page,
        page > page_count(items.len() as int, per_page) ==> page_items(items, page, per_page).len()
            == 0,
{
    let total = items.len() as int;
    lemma_page_count(total, per_page);
    assert(page * per_page == (page - 1) * per_page + per_page) by (nonlinear_arith);
    assert((page - 1) * per_page >= 0) by (nonlinear_arith)
        requires
            per_page >= 1,
            page >= 1,
    ;
    if page > page_count(total, per_page) {
        assert((page - 1) * per_page >= page_count(total, per_page) * per_page)
            by (nonlinear_arith)
            requires
                page - 1 >= page_count(total, per_page),
                per_page >= 1,
        ;
    }
}

/// Every report that a listing shows is a stored report that meets the predicate.
pub proof fn lemma_listed_meet_predicate(
    reports: Seq<Model>,
    predicate: Predicate,
    page: u64,
    page_size: u64,
)
    requires
        reports.len() <= usize::MAX,
    ensures
        forall|i: int|
            0 <= i < listed(reports, predicate, page, page_size).len() ==> {
                &&& predicate.accepts(#[trigger] listed(reports, predicate, page, page_size)[i])
                &&& reports.contains(listed(reports, predicate, page, page_size)[i])
            },
{
    broadcast use vstd::seq_lib::group_filter_ensures;

    let found = matching(reports, predicate);
    let shown = listed(reports, predicate, page, page_size);
    let wanted = |report: Model| predicate.accepts(report);
    let total = found.len() as int;
    let number = effective_page(page);
    let size = effective_page_size(page_size);
    assert(found.len() <= reports.len());
    lemma_descending_order(creation_keys(found));
    assert(0 <= (number - 1) * size <= number * size) by (nonlinear_arith)
        requires
            number >= 1,
            size >= 1,
    ;
    assert(newest_first(found).len() == total);
    assert forall|i: int| 0 <= i < shown.len() implies predicate.accepts(#[trigger] shown[i])
        && reports.contains(shown[i]) by {
        let rank = page_start(total, number, size) + i;
        assert(0 <= rank < total);
        let at = descending_order(creation_keys(found))[rank];
        assert(at < total);
        assert(shown[i] == found[at as int]);
        assert(wanted(found[at as int]));
        assert(found.contains(found[at as int]));
        reports.lemma_filter_contains_rev(wanted, found[at as int]);
    }
}

/// A listing that filters by machine shows no report of another machine.
pub proof fn lemma_machine_filter_is_exact(
    reports: Seq<Model>,
    predicate: Predicate,
    page: u64,
    page_size: u64,
)
    requires
        reports.len() <= usize::MAX,
        predicate.machine is Some,
    ensures
        forall|i: int|
            0 <= i < listed(reports, predicate, page, page_size).len() ==> (#[trigger] listed(
                reports,
                predicate,
                page,
                page_size,
            )[i]).machine@ == predicate.machine.unwrap()@,
{
    lemma_listed_meet_predicate(reports, predicate, page, page_size);
}

} // verus!
