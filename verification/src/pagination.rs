//! The pagination contract shared by every list operation.
//!
//! A list operation first narrows the store down to the matching records in
//! insertion order, then omits the first `skip` of them and returns at most
//! `limit`.  [`page`] is the mathematical statement of that rule; the store
//! methods promise their results equal it.

use vstd::prelude::*;

use crate::error::AppError;

verus! {

/// Default number of records a list operation returns when the caller
/// does not name a limit.
pub fn get_50() -> (r: i64)
    ensures
        r == 50,
{
    50
}

/// The page of `s` described by `skip` and `limit`: drop the first `skip`
/// elements, keep at most `limit` of the rest, preserving order.
pub open spec fn page<A>(s: Seq<A>, skip: int, limit: int) -> Seq<A>
    recommends
        skip >= 0,
        limit >= 0,
{
    let lo = if skip <= s.len() { skip } else { s.len() as int };
    let hi = if skip + limit <= s.len() { skip + limit } else { s.len() as int };
    s.subrange(lo, hi)
}

/// How a page grows when one more matching record is appended to the
/// underlying sequence: a record before the page leaves it unchanged, a
/// record inside the window is appended, a record past the window is cut off.
pub proof fn lemma_page_push<A>(s: Seq<A>, x: A, skip: int, limit: int)
    requires
        skip >= 0,
        limit >= 0,
    ensures
        s.len() < skip ==> page(s.push(x), skip, limit) == page(s, skip, limit),
        skip <= s.len() < skip + limit ==> page(s.push(x), skip, limit) == page(
            s,
            skip,
            limit,
        ).push(x),
        s.len() >= skip + limit ==> page(s.push(x), skip, limit) == page(s, skip, limit),
{
    if s.len() < skip {
        assert(page(s.push(x), skip, limit) =~= page(s, skip, limit));
    } else if s.len() < skip + limit {
        assert(page(s.push(x), skip, limit) =~= page(s, skip, limit).push(x));
    } else {
        assert(page(s.push(x), skip, limit) =~= page(s, skip, limit));
    }
}

/// The number of records a page holds, as a function of the underlying
/// length alone.
pub proof fn lemma_page_len<A>(s: Seq<A>, skip: int, limit: int)
    requires
        skip >= 0,
        limit >= 0,
    ensures
        page(s, skip, limit).len() == if s.len() <= skip {
            0int
        } else if s.len() <= skip + limit {
            s.len() - skip
        } else {
            limit
        },
{
}

/// Every element of a page comes from the underlying sequence, at an offset
/// shifted by `skip`.
pub proof fn lemma_page_elements<A>(s: Seq<A>, skip: int, limit: int)
    requires
        skip >= 0,
        limit >= 0,
    ensures
        forall|i: int|
            0 <= i < page(s, skip, limit).len() ==> #[trigger] page(s, skip, limit)[i] == s[skip
                + i],
{
}

/// Adjacent pages partition the matching records: for any window size `k`,
/// the page starting at 0 followed by the page starting at `k` is exactly
/// the first `2 * k` records, with no overlap and no gap.
pub proof fn lemma_pagination_partition<A>(s: Seq<A>, k: int)
    requires
        k >= 0,
    ensures
        page(s, 0, k) + page(s, k, k) == page(s, 0, 2 * k),
{
    assert(page(s, 0, k) + page(s, k, k) =~= page(s, 0, 2 * k));
}

/// How a filter grows when one more record is appended to the underlying
/// sequence.
pub proof fn lemma_filter_push<A>(s: Seq<A>, x: A, pred: spec_fn(A) -> bool)
    ensures
        s.push(x).filter(pred) == if pred(x) {
            s.filter(pred).push(x)
        } else {
            s.filter(pred)
        },
{
    reveal(Seq::filter);
    assert(s.push(x).drop_last() =~= s);
    assert(s.push(x).last() == x);
}

/// Every element of a filtered sequence occurs in the underlying one.
pub proof fn lemma_filter_subset<A>(s: Seq<A>, pred: spec_fn(A) -> bool)
    ensures
        forall|x: A| s.filter(pred).contains(x) ==> s.contains(x),
    decreases s.len(),
{
    reveal(Seq::filter);
    if s.len() > 0 {
        let prefix = s.drop_last();
        lemma_filter_subset(prefix, pred);
        assert forall|x: A| s.filter(pred).contains(x) implies s.contains(x) by {
            let f = s.filter(pred);
            let i = choose|i: int| 0 <= i < f.len() && f[i] == x;
            if pred(s.last()) && i == f.len() - 1 {
                assert(x == s.last());
                assert(s[s.len() - 1] == x);
            } else {
                assert(prefix.filter(pred)[i] == x);
                assert(prefix.filter(pred).contains(x));
                assert(prefix.contains(x));
                let j = choose|j: int| 0 <= j < prefix.len() && prefix[j] == x;
                assert(s[j] == x);
            }
        }
    }
}

/// Validated pagination parameters for list operations that take no other
/// filter.  `skip` is non-negative and defaults to 0; `limit` lies in
/// 1..=50 and defaults to 50.
#[derive(Debug)]
pub struct Pagination {
    pub skip: i64,
    pub limit: i64,
}

impl Pagination {
    /// The structural constraints every validated value satisfies.
    pub open spec fn spec_valid(&self) -> bool {
        &&& self.skip >= 0
        &&& 1 <= self.limit <= 50
    }

    /// Builds validated pagination parameters, applying the defaults for
    /// omitted values and rejecting out-of-range ones before any storage
    /// or permission check runs.
    pub fn new(skip: Option<i64>, limit: Option<i64>) -> (r: Result<Pagination, AppError>)
        ensures
            r matches Ok(p) ==> {
                &&& p.spec_valid()
                &&& p.skip == skip.unwrap_or(0)
                &&& p.limit == limit.unwrap_or(50)
            },
            r is Ok <==> (skip.unwrap_or(0) >= 0 && 1 <= limit.unwrap_or(50) <= 50),
            r is Err ==> r->Err_0 is ValidationFailed,
    {
        let skip: i64 = match skip {
            Some(s) => s,
            None => 0,
        };
        let limit: i64 = match limit {
            Some(l) => l,
            None => get_50(),
        };
        if skip < 0 {
            return Err(AppError::ValidationFailed("skip must be non-negative".to_owned()));
        }
        if limit < 1 || limit > 50 {
            return Err(
                AppError::ValidationFailed("limit outside of allowed range 1..=50".to_owned()),
            );
        }
        Ok(Pagination { skip, limit })
    }
}

} // verus!
