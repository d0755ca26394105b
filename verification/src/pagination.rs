//! Pagination model: a finite remote listing served in fixed-size pages
//! behind an opaque cursor. The first request carries no cursor; each
//! response hands back the cursor for the next page, and a response that is
//! not truncated clears it, ending the epoch.

use vstd::prelude::*;

use crate::models::ObjectInfo;

verus! {

/// How many fetches a listing of `n` records takes at `p` records per page:
/// the ceiling of `n / p`.
pub open spec fn pages_needed(n: nat, p: nat) -> nat
    recommends
        p > 0,
{
    ((n + p - 1) as int / p as int) as nat
}

/// The records the `i`-th fetch returns (counting from zero).
pub open spec fn listing_page(listing: Seq<ObjectInfo>, p: nat, i: nat) -> Seq<ObjectInfo> {
    let n = listing.len() as int;
    let lo = if (i * p) as int <= n { (i * p) as int } else { n };
    let hi = if ((i + 1) * p) as int <= n { ((i + 1) * p) as int } else { n };
    listing.subrange(lo, hi)
}

/// Whether the `i`-th response is truncated, so a cursor remains after it.
pub open spec fn page_truncated(listing: Seq<ObjectInfo>, p: nat, i: nat) -> bool {
    (((i + 1) * p) as int) < listing.len()
}

/// What has been loaded after `k` fetches.
pub open spec fn loaded_after(listing: Seq<ObjectInfo>, p: nat, k: nat) -> Seq<ObjectInfo> {
    let n = listing.len() as int;
    listing.take(if (k * p) as int <= n { (k * p) as int } else { n })
}

/// No two records share a key.
pub open spec fn keys_distinct(s: Seq<ObjectInfo>) -> bool {
    forall|i: int, j: int| 0 <= i < j < s.len() ==> s[i].key@ != s[j].key@
}

/// Each fetch appends exactly its page to what was loaded before it.
pub proof fn lemma_fetch_appends_page(listing: Seq<ObjectInfo>, p: nat, k: nat)
    ensures
        loaded_after(listing, p, k + 1) == loaded_after(listing, p, k) + listing_page(
            listing,
            p,
            k,
        ),
{
    let n = listing.len() as int;
    let lo = if (k * p) as int <= n { (k * p) as int } else { n };
    let hi = if ((k + 1) * p) as int <= n { ((k + 1) * p) as int } else { n };
    assert(((k * p) as int) <= ((k + 1) * p) as int) by (nonlinear_arith);
    assert(loaded_after(listing, p, k + 1) =~= loaded_after(listing, p, k) + listing_page(
        listing,
        p,
        k,
    ));
}

/// The bounds that make `pages_needed` the ceiling of `n / p`.
pub proof fn lemma_pages_needed_bounds(n: nat, p: nat)
    requires
        p > 0,
    ensures
        pages_needed(n, p) * p >= n,
        n > 0 ==> (pages_needed(n, p) - 1) * p < n,
        n == 0 ==> pages_needed(n, p) == 0,
{
    let m = (n + p - 1) as int;
    let pi = p as int;
    let q = m / pi;
    let r = m % pi;
    vstd::arithmetic::div_mod::lemma_fundamental_div_mod(m, pi);
    assert(0 <= r < pi) by (nonlinear_arith)
        requires pi > 0, r == m % pi;
    assert(q * pi >= n) by (nonlinear_arith)
        requires m == pi * q + r, 0 <= r < pi, m == n + p - 1, pi == p, p > 0;
    if n > 0 {
        assert((q - 1) * pi < n) by (nonlinear_arith)
            requires m == pi * q + r, 0 <= r < pi, m == n + p - 1, pi == p, p > 0, n > 0;
    }
    if n == 0 {
        assert(q == 0) by (nonlinear_arith)
            requires m == pi * q + r, 0 <= r < pi, m == n + p - 1, pi == p, p > 0, n == 0;
    }
    assert(pages_needed(n, p) == q);
}

/// Pagination termination: fetching a finite listing of `n` records at `p`
/// records per page ends after exactly the ceiling of `n / p` fetches. At
/// that point everything is loaded, in order and nothing twice, so distinct
/// keys stay distinct; the cursor remains present after every earlier
/// fetch and is cleared by the last one.
pub proof fn lemma_pagination_terminates(listing: Seq<ObjectInfo>, p: nat)
    requires
        p > 0,
    ensures
        loaded_after(listing, p, pages_needed(listing.len(), p)) == listing,
        forall|k: nat| k < pages_needed(listing.len(), p)
            ==> (#[trigger] page_truncated(listing, p, k)
                <==> k + 1 < pages_needed(listing.len(), p)),
        keys_distinct(listing) ==> keys_distinct(
            loaded_after(listing, p, pages_needed(listing.len(), p)),
        ),
{
    let n = listing.len();
    let kk = pages_needed(n, p);
    lemma_pages_needed_bounds(n, p);
    assert(((kk * p) as int) >= n as int);
    assert(loaded_after(listing, p, kk) =~= listing);
    assert forall|k: nat| k < kk implies (#[trigger] page_truncated(listing, p, k)
        <==> k + 1 < kk) by {
        if k + 1 < kk {
            assert((((k + 1) * p) as int) <= ((kk - 1) * p) as int) by (nonlinear_arith)
                requires k + 1 <= kk - 1;
            assert(n > 0);
            assert((((kk - 1) * p) as int) < n as int);
        } else {
            assert(k + 1 == kk);
            assert((((k + 1) * p) as int) >= n as int);
        }
    }
}

} // verus!
