use vstd::prelude::*;
use std::ops::RangeInclusive;

verus! {

/// Which pages to render.
#[derive(Debug, Clone)]
pub enum Pages {
    /// Every page number from 0 through the page count.
    All,
    /// The page numbers of the range that exist in the document.
    Range(RangeInclusive<u32>),
    /// One page number, as given.
    Single(u32),
}

/// The page numbers from `lo` through `hi`, ascending; none when `lo > hi`.
pub open spec fn span(lo: int, hi: int) -> Seq<u32> {
    if lo > hi {
        seq![]
    } else {
        Seq::new((hi - lo + 1) as nat, |i: int| (lo + i) as u32)
    }
}

/// Whether a range yields no item: it was iterated to its end, or its bounds are reversed.
pub open spec fn range_is_empty(r: RangeInclusive<u32>) -> bool {
    r@.exhausted || r@.start > r@.end
}

/// The page numbers that a selection stands for in a document of `page_count` pages.
pub open spec fn resolve_spec(p: Pages, page_count: u32) -> Seq<u32> {
    match p {
        Pages::All => span(0, page_count as int),
        Pages::Single(n) => seq![n],
        Pages::Range(r) => if range_is_empty(r) {
            seq![]
        } else {
            span(
                if r@.start < 1 { 1 } else { r@.start as int },
                if r@.end < page_count { r@.end as int } else { page_count as int },
            )
        },
    }
}

/// Relies on `RangeInclusive`'s `Clone`, which lets `Pages` be cloned; nothing is claimed
/// of the copy.
pub assume_specification<Idx: Clone>[ <RangeInclusive<Idx> as Clone>::clone ](
    r: &RangeInclusive<Idx>,
) -> RangeInclusive<Idx>;

/// Relies on `RangeInclusive::start`: the range's lower bound.
#[verifier::external_body]
fn range_start(r: &RangeInclusive<u32>) -> (s: u32)
    ensures
        s == r@.start,
{
    *r.start()
}

/// Relies on `RangeInclusive::end`: the range's upper bound.
#[verifier::external_body]
fn range_end(r: &RangeInclusive<u32>) -> (e: u32)
    ensures
        e == r@.end,
{
    *r.end()
}

/// Relies on `RangeInclusive::is_empty`: true when the range is exhausted or its start
/// exceeds its end.
#[verifier::external_body]
fn range_empty(r: &RangeInclusive<u32>) -> (b: bool)
    ensures
        b == range_is_empty(*r),
{
    r.is_empty()
}

fn span_vec(lo: u32, hi: u32) -> (r: Vec<u32>)
    ensures
        r@ == span(lo as int, hi as int),
{
    let mut v: Vec<u32> = Vec::new();
    if lo > hi {
        assert(v@ =~= span(lo as int, hi as int));
        return v;
    }
    let mut p: u64 = lo as u64;
    while p <= hi as u64
        invariant
            lo <= hi,
            lo <= p <= hi as u64 + 1,
            v@.len() == p - lo,
            forall|i: int| 0 <= i < v@.len() ==> v@[i] == lo + i,
        decreases hi as u64 + 1 - p,
    {
        v.push(p as u32);
        p = p + 1;
    }
    assert(v@ =~= span(lo as int, hi as int));
    v
}

impl Pages {
    /// The ordered page numbers to render from a document of `page_count` pages.
    ///
    /// A range keeps only the pages from 1 through `page_count`; a single page is kept as
    /// given; all pages run from 0 through `page_count`.
    pub fn resolve(&self, page_count: u32) -> (r: Vec<u32>)
        ensures
            r@ == resolve_spec(*self, page_count),
    {
        match self {
            Pages::All => span_vec(0, page_count),
            Pages::Single(n) => {
                let mut v: Vec<u32> = Vec::new();
                v.push(*n);
                assert(v@ =~= seq![*n]);
                v
            },
            Pages::Range(r) => {
                if range_empty(r) {
                    let v: Vec<u32> = Vec::new();
                    assert(v@ =~= seq![]);
                    v
                } else {
                    let a = range_start(r);
                    let b = range_end(r);
                    let lo = if a < 1 { 1 } else { a };
                    let hi = if b < page_count { b } else { page_count };
                    span_vec(lo, hi)
                }
            },
        }
    }
}

/// A range `a..=b` with `a <= b`, resolved against `page_count` pages, gives exactly the
/// integers from `max(a, 1)` through `min(b, page_count)` in ascending order, and nothing
/// when that interval is empty.
pub proof fn lemma_range_resolution(pages: Pages, page_count: u32)
    requires
        pages is Range,
        !pages->Range_0@.exhausted,
        pages->Range_0@.start <= pages->Range_0@.end,
    ensures
        ({
            let s = resolve_spec(pages, page_count);
            let a = pages->Range_0@.start as int;
            let b = pages->Range_0@.end as int;
            let lo = if a < 1 { 1 } else { a };
            let hi = if b < page_count { b } else { page_count as int };
            &&& s.len() == if lo <= hi { hi - lo + 1 } else { 0 }
            &&& forall|i: int, j: int| 0 <= i < j < s.len() ==> s[i] < s[j]
            &&& forall|n: u32| s.contains(n) <==> lo <= n <= hi
        }),
{
    let s = resolve_spec(pages, page_count);
    let a = pages->Range_0@.start as int;
    let b = pages->Range_0@.end as int;
    let lo = if a < 1 { 1 } else { a };
    let hi = if b < page_count { b } else { page_count as int };
    assert forall|n: u32| s.contains(n) <==> lo <= n <= hi by {
        if lo <= n <= hi {
            assert(s[n - lo] == n);
        }
    }
}

} // verus!
