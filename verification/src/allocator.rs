//! Region allocator for the memshare service.
//!
//! A [`GapAllocator`] hands out sub-ranges of a fixed address region. It keeps
//! the live allocations sorted by address and places each new one in the first
//! gap, in address order, that can hold it at the requested alignment.

use std::ops::Range;
use vstd::arithmetic::div_mod::{lemma_fundamental_div_mod, lemma_mod_bound, lemma_mod_multiples_basic};
use vstd::prelude::*;

verus! {

/// The smallest multiple of `align` that is at least `x` (for `align > 0`).
pub open spec fn round_up(x: int, align: int) -> int {
    if x % align == 0 {
        x
    } else {
        x + (align - x % align)
    }
}

/// Mathematical model of a [`GapAllocator`]: the managed region `[region_start, region_end)`
/// and the live allocations, each a half-open range `(start, end)`, in the order the
/// allocator keeps them.
pub struct GapAllocatorView {
    pub region_start: int,
    pub region_end: int,
    pub allocations: Seq<(int, int)>,
}

impl GapAllocatorView {
    /// The region's ends are `u64` addresses, and the allocations are non-empty, strictly
    /// ordered by address, pairwise disjoint, and lie inside the region.
    pub open spec fn well_formed(self) -> bool {
        &&& 0 <= self.region_start <= u64::MAX
        &&& 0 <= self.region_end <= u64::MAX
        &&& forall|i: int|
            0 <= i < self.allocations.len() ==> #[trigger] self.allocations[i].0
                < self.allocations[i].1
        &&& forall|i: int, j: int|
            0 <= i < j < self.allocations.len() ==> #[trigger] self.allocations[i].1
                <= #[trigger] self.allocations[j].0
        &&& forall|i: int|
            0 <= i < self.allocations.len() ==> self.region_start <= #[trigger] self.allocations[i].0
                && self.allocations[i].1 <= self.region_end
    }

    /// Start of gap `k` (`0 <= k <= allocations.len()`): the region start for the first
    /// gap, else the end of the allocation just before it.
    pub open spec fn gap_start(self, k: int) -> int {
        if k == 0 {
            self.region_start
        } else {
            self.allocations[k - 1].1
        }
    }

    /// End of gap `k`: the start of the allocation just after it, or the region end for
    /// the last gap.
    pub open spec fn gap_end(self, k: int) -> int {
        if k == self.allocations.len() {
            self.region_end
        } else {
            self.allocations[k].0
        }
    }

    /// Gap `k` holds `size` bytes starting at its first `align`-aligned address.
    pub open spec fn fits(self, k: int, size: int, align: int) -> bool {
        let aligned = round_up(self.gap_start(k), align);
        aligned < self.gap_end(k) && size <= self.gap_end(k) - aligned
    }

    /// The first gap, from gap `k` on, that fits a request.
    pub open spec fn first_fit_from(self, k: int, size: int, align: int) -> Option<int>
        decreases self.allocations.len() + 1 - k,
    {
        if k > self.allocations.len() {
            None
        } else if self.fits(k, size, align) {
            Some(k)
        } else {
            self.first_fit_from(k + 1, size, align)
        }
    }

    /// The first gap of the whole allocator that fits a request.
    pub open spec fn first_fit(self, size: int, align: int) -> Option<int> {
        self.first_fit_from(0, size, align)
    }

    /// Rounding every gap start up to `align`, from gap `k` up to the first gap that
    /// fits, stays within `u64`.
    pub open spec fn round_up_in_range_from(self, k: int, size: int, align: int) -> bool
        decreases self.allocations.len() + 1 - k,
    {
        if k > self.allocations.len() {
            true
        } else {
            &&& round_up(self.gap_start(k), align) <= u64::MAX
            &&& (self.fits(k, size, align) || self.round_up_in_range_from(k + 1, size, align))
        }
    }

    /// `[addr, addr + size)` is an `align`-aligned block inside the region that overlaps no
    /// allocation.
    pub open spec fn is_free(self, addr: int, size: int, align: int) -> bool {
        &&& addr % align == 0
        &&& self.region_start <= addr
        &&& addr + size <= self.region_end
        &&& forall|i: int|
            0 <= i < self.allocations.len() ==> addr + size <= #[trigger] self.allocations[i].0
                || self.allocations[i].1 <= addr
    }

    /// The allocator after `[addr, addr + size)` is recorded as allocation number `k`.
    pub open spec fn with_allocation(self, k: int, addr: int, size: int) -> GapAllocatorView {
        GapAllocatorView { allocations: self.allocations.insert(k, (addr, addr + size)), ..self }
    }

    /// The allocator after allocation number `k` is dropped.
    pub open spec fn without(self, k: int) -> GapAllocatorView {
        GapAllocatorView { allocations: self.allocations.remove(k), ..self }
    }

    /// The index of the allocation that starts at `start`, if there is one.
    pub open spec fn find_allocation(self, start: int) -> Option<int> {
        if exists|i: int| 0 <= i < self.allocations.len() && #[trigger] self.allocations[i].0 == start {
            Some(
                choose|i: int| 0 <= i < self.allocations.len() && #[trigger] self.allocations[i].0 == start,
            )
        } else {
            None
        }
    }
}

/// Facts about [`round_up`]: it is a multiple of `align`, at least `x` and below `x + align`,
/// and no larger than any aligned address at or above `x`.
pub proof fn lemma_round_up(x: int, align: int)
    requires
        align > 0,
    ensures
        round_up(x, align) % align == 0,
        x <= round_up(x, align) < x + align,
        forall|b: int| x <= b && #[trigger] (b % align) == 0 ==> round_up(x, align) <= b,
{
    lemma_fundamental_div_mod(x, align);
    lemma_mod_bound(x, align);
    let q = x / align;
    let r = x % align;
    if r != 0 {
        assert(round_up(x, align) == (q + 1) * align) by (nonlinear_arith)
            requires
                x == align * q + r,
                round_up(x, align) == x + (align - r),
        ;
        lemma_mod_multiples_basic(q + 1, align);
    }
    assert forall|b: int| x <= b && #[trigger] (b % align) == 0 implies round_up(x, align) <= b by {
        lemma_fundamental_div_mod(b, align);
        let qb = b / align;
        if r != 0 {
            assert(q < qb) by (nonlinear_arith)
                requires
                    x == align * q + r,
                    b == align * qb,
                    x <= b,
                    0 < r < align,
            ;
            assert((q + 1) * align <= b) by (nonlinear_arith)
                requires
                    q + 1 <= qb,
                    b == align * qb,
                    align > 0,
            ;
        }
    }
}

/// Properties of the first-fit search from gap `k`: what it returns fits, no gap skipped
/// before it fits, and when nothing is returned no gap from `k` on fits.
pub proof fn lemma_first_fit_from(v: GapAllocatorView, k: int, size: int, align: int)
    requires
        0 <= k,
    ensures
        match v.first_fit_from(k, size, align) {
            Some(j) => k <= j <= v.allocations.len() && v.fits(j, size, align) && forall|i: int|
                k <= i < j ==> !#[trigger] v.fits(i, size, align),
            None => forall|i: int| k <= i <= v.allocations.len() ==> !#[trigger] v.fits(i, size, align),
        },
    decreases v.allocations.len() + 1 - k,
{
    if k <= v.allocations.len() && !v.fits(k, size, align) {
        lemma_first_fit_from(v, k + 1, size, align);
        assert forall|i: int| k <= i < k + 1 implies !#[trigger] v.fits(i, size, align) by {
            assert(i == k);
        }
    }
}

/// Gap starts never lie before the region start, and each gap starts no later than
/// every allocation after it begins.
proof fn lemma_gap_bounds(v: GapAllocatorView, k: int)
    requires
        v.well_formed(),
        0 <= k <= v.allocations.len(),
    ensures
        v.region_start <= v.gap_start(k),
        forall|i: int| 0 <= i < k ==> #[trigger] v.allocations[i].1 <= v.gap_start(k),
        forall|i: int| k <= i < v.allocations.len() ==> v.gap_end(k) <= #[trigger] v.allocations[i].0,
        k < v.allocations.len() ==> v.gap_end(k) <= v.region_end,
        k == v.allocations.len() ==> v.gap_end(k) == v.region_end,
{
    if k > 0 {
        assert(v.allocations[k - 1].0 < v.allocations[k - 1].1);
        assert forall|i: int| 0 <= i < k implies #[trigger] v.allocations[i].1 <= v.gap_start(k) by {
            if i < k - 1 {
                assert(v.allocations[i].1 <= v.allocations[k - 1].0);
            }
        }
    }
    if k < v.allocations.len() {
        assert forall|i: int| k <= i < v.allocations.len() implies v.gap_end(k)
            <= #[trigger] v.allocations[i].0 by {
            if k < i {
                assert(v.allocations[k].1 <= v.allocations[i].0);
                assert(v.allocations[k].0 < v.allocations[k].1);
            }
        }
    }
}

/// Recording the first aligned block of a fitting gap keeps the allocator well formed.
pub proof fn lemma_with_allocation_well_formed(v: GapAllocatorView, k: int, size: int, align: int)
    requires
        v.well_formed(),
        0 <= k <= v.allocations.len(),
        size > 0,
        align > 0,
        v.fits(k, size, align),
    ensures
        v.with_allocation(k, round_up(v.gap_start(k), align), size).well_formed(),
{
    let a = round_up(v.gap_start(k), align);
    lemma_gap_bounds(v, k);
    lemma_round_up(v.gap_start(k), align);
    let w = v.with_allocation(k, a, size);
    let s = w.allocations;
    assert forall|i: int| 0 <= i < s.len() implies v.region_start <= #[trigger] s[i].0 && s[i].1
        <= v.region_end by {
        if i > k {
            assert(s[i] == v.allocations[i - 1]);
        }
    }
    assert forall|i: int, j: int| 0 <= i < j < s.len() implies #[trigger] s[i].1
        <= #[trigger] s[j].0 by {
        if j < k {
        } else if j == k {
            assert(v.allocations[i].1 <= v.gap_start(k));
        } else if i == k {
            assert(s[j] == v.allocations[j - 1]);
        } else if i < k {
            assert(s[j] == v.allocations[j - 1]);
        } else {
            assert(s[i] == v.allocations[i - 1]);
            assert(s[j] == v.allocations[j - 1]);
        }
    }
    assert forall|i: int| 0 <= i < s.len() implies #[trigger] s[i].0 < s[i].1 by {
        if i > k {
            assert(s[i] == v.allocations[i - 1]);
        }
    }
}

/// Removing an allocation keeps the allocator well formed.
pub proof fn lemma_without_well_formed(v: GapAllocatorView, k: int)
    requires
        v.well_formed(),
        0 <= k < v.allocations.len(),
    ensures
        v.without(k).well_formed(),
{
    let s = v.without(k).allocations;
    assert forall|i: int| 0 <= i < s.len() implies s[i] == v.allocations[if i < k {
        i
    } else {
        i + 1
    }] by {}
    assert forall|i: int, j: int| 0 <= i < j < s.len() implies #[trigger] s[i].1
        <= #[trigger] s[j].0 by {
        let oi = if i < k {
            i
        } else {
            i + 1
        };
        let oj = if j < k {
            j
        } else {
            j + 1
        };
        assert(v.allocations[oi].1 <= v.allocations[oj].0);
    }
    assert forall|i: int| 0 <= i < s.len() implies #[trigger] s[i].0 < s[i].1 && v.region_start
        <= s[i].0 && s[i].1 <= v.region_end by {
        let oi = if i < k {
            i
        } else {
            i + 1
        };
        assert(v.allocations[oi].0 < v.allocations[oi].1);
    }
}

/// Law: first fit finds the lowest free block. For a request of `size > 0` bytes at
/// alignment `align > 0`, when some gap fits, its first aligned address is free and no
/// free aligned address lies below it; when no gap fits, no aligned block of that size is
/// free anywhere in the region.
pub proof fn lemma_first_fit_is_lowest_free(v: GapAllocatorView, size: int, align: int)
    requires
        v.well_formed(),
        size > 0,
        align > 0,
    ensures
        match v.first_fit(size, align) {
            Some(k) => {
                let a = round_up(v.gap_start(k), align);
                &&& v.is_free(a, size, align)
                &&& forall|b: int| #[trigger] v.is_free(b, size, align) ==> a <= b
            },
            None => forall|b: int| !#[trigger] v.is_free(b, size, align),
        },
{
    lemma_first_fit_from(v, 0, size, align);
    let n = v.allocations.len();
    // Every free block lies in some gap, and that gap fits the request.
    assert forall|b: int| #[trigger] v.is_free(b, size, align) implies exists|k: int|
        0 <= k <= n && #[trigger] v.fits(k, size, align) && round_up(v.gap_start(k), align) <= b && (
        forall|j: int| 0 <= j < k ==> v.allocations[j].1 <= b) by {
        // k: the number of allocations that end at or before b.
        lemma_free_block_in_gap(v, b, size, align, 0);
        let k = choose|g: int| #[trigger] gap_holds(v, g, b, size);
        lemma_gap_bounds(v, k);
        lemma_round_up(v.gap_start(k), align);
        assert(#[trigger] v.fits(k, size, align));
    }
    match v.first_fit(size, align) {
        Some(k) => {
            let a = round_up(v.gap_start(k), align);
            lemma_gap_bounds(v, k);
            lemma_round_up(v.gap_start(k), align);
            assert forall|i: int| 0 <= i < n implies a + size <= #[trigger] v.allocations[i].0
                || v.allocations[i].1 <= a by {
                if i < k {
                    assert(v.allocations[i].1 <= v.gap_start(k));
                } else {
                    assert(v.gap_end(k) <= v.allocations[i].0);
                }
            }
            assert(v.is_free(a, size, align));
            assert forall|b: int| #[trigger] v.is_free(b, size, align) implies a <= b by {
                let k2 = choose|k2: int|
                    0 <= k2 <= n && v.fits(k2, size, align) && round_up(v.gap_start(k2), align) <= b
                        && (forall|j: int| 0 <= j < k2 ==> v.allocations[j].1 <= b);
                assert(k <= k2);
                if k < k2 {
                    // gap k ends at allocation k, which ends at or before b
                    assert(v.allocations[k].1 <= b);
                    assert(v.allocations[k].0 < v.allocations[k].1);
                }
            }
        },
        None => {
            assert forall|b: int| !#[trigger] v.is_free(b, size, align) by {
                if v.is_free(b, size, align) {
                    let k2 = choose|k2: int|
                        0 <= k2 <= n && v.fits(k2, size, align) && round_up(v.gap_start(k2), align)
                            <= b && (forall|j: int| 0 <= j < k2 ==> v.allocations[j].1 <= b);
                    assert(!v.fits(k2, size, align));
                }
            }
        },
    }
}

/// Gap `k` contains the block `[b, b + size)`, and every allocation before it ends at or
/// before `b`.
spec fn gap_holds(v: GapAllocatorView, k: int, b: int, size: int) -> bool {
    &&& 0 <= k <= v.allocations.len()
    &&& v.gap_start(k) <= b
    &&& b + size <= v.gap_end(k)
    &&& forall|j: int| 0 <= j < k ==> #[trigger] v.allocations[j].1 <= b
}

/// A free block lies in some gap at or after `k`, given that every allocation before `k`
/// ends at or before it.
proof fn lemma_free_block_in_gap(v: GapAllocatorView, b: int, size: int, align: int, k: int)
    requires
        v.well_formed(),
        size > 0,
        align > 0,
        v.is_free(b, size, align),
        0 <= k <= v.allocations.len(),
        forall|j: int| 0 <= j < k ==> #[trigger] v.allocations[j].1 <= b,
    ensures
        exists|g: int| #[trigger] gap_holds(v, g, b, size),
    decreases v.allocations.len() - k,
{
    let n = v.allocations.len();
    if k > 0 {
        assert(v.allocations[k - 1].1 <= b);
    }
    if k == n {
        assert(gap_holds(v, k, b, size));
    } else if b + size <= v.allocations[k].0 {
        assert(gap_holds(v, k, b, size));
    } else {
        assert(v.allocations[k].1 <= b);
        assert forall|j: int| 0 <= j < k + 1 implies #[trigger] v.allocations[j].1 <= b by {
            if j < k {
            }
        }
        lemma_free_block_in_gap(v, b, size, align, k + 1);
    }
}

/// Law: freeing the block that an allocation just returned succeeds and gives back
/// exactly the allocator as it was before that allocation.
pub proof fn lemma_dealloc_undoes_alloc(v: GapAllocatorView, size: int, align: int)
    requires
        v.well_formed(),
        size > 0,
        align > 0,
        v.first_fit(size, align) is Some,
    ensures
        ({
            let k = v.first_fit(size, align)->0;
            let a = round_up(v.gap_start(k), align);
            let w = v.with_allocation(k, a, size);
            &&& w.find_allocation(a) == Some(k)
            &&& w.without(k) == v
        }),
{
    lemma_first_fit_from(v, 0, size, align);
    let k = v.first_fit(size, align)->0;
    let a = round_up(v.gap_start(k), align);
    let w = v.with_allocation(k, a, size);
    lemma_with_allocation_well_formed(v, k, size, align);
    assert(w.allocations[k].0 == a);
    let i = choose|i: int| 0 <= i < w.allocations.len() && #[trigger] w.allocations[i].0 == a;
    if i < k {
        assert(w.allocations[i].1 <= w.allocations[k].0);
        assert(w.allocations[i].0 < w.allocations[i].1);
    } else if i > k {
        assert(w.allocations[k].1 <= w.allocations[i].0);
        assert(w.allocations[k].0 < w.allocations[k].1);
    }
    assert(w.allocations.remove(k) =~= v.allocations);
}

/// The allocations held as ranges, seen as `(start, end)` pairs.
pub open spec fn ranges_view(s: Seq<Range<u64>>) -> Seq<(int, int)> {
    s.map_values(|r: Range<u64>| (r.start as int, r.end as int))
}

/// Rounding gap starts up never overflows when both ends of the region are at least
/// `align - 1` below `u64::MAX`.
pub proof fn lemma_round_up_in_range(v: GapAllocatorView, k: int, size: int, align: int)
    requires
        v.well_formed(),
        align > 0,
        0 <= k,
        v.region_start + align - 1 <= u64::MAX,
        v.region_end + align - 1 <= u64::MAX,
    ensures
        v.round_up_in_range_from(k, size, align),
    decreases v.allocations.len() + 1 - k,
{
    if k <= v.allocations.len() {
        lemma_gap_bounds(v, k);
        lemma_round_up(v.gap_start(k), align);
        if k > 0 {
            assert(v.region_start <= v.allocations[k - 1].0);
            assert(v.allocations[k - 1].1 <= v.region_end);
        }
        lemma_round_up_in_range(v, k + 1, size, align);
    }
}

/// Law: an allocation records exactly the block it hands out: afterwards the allocations
/// are the earlier ones plus `[a, a + size)`, where `a` is the address returned.
pub proof fn lemma_allocation_records_block(v: GapAllocatorView, size: int, align: int)
    requires
        v.well_formed(),
        size > 0,
        align > 0,
        v.first_fit(size, align) is Some,
    ensures
        ({
            let k = v.first_fit(size, align)->0;
            let a = round_up(v.gap_start(k), align);
            let w = v.with_allocation(k, a, size);
            &&& w.region_start == v.region_start
            &&& w.region_end == v.region_end
            &&& w.allocations.len() == v.allocations.len() + 1
            &&& forall|p: (int, int)|
                #[trigger] w.allocations.contains(p) <==> v.allocations.contains(p) || p == (
                    a,
                    a + size,
                )
        }),
{
    lemma_first_fit_from(v, 0, size, align);
    let k = v.first_fit(size, align)->0;
    let a = round_up(v.gap_start(k), align);
    let w = v.with_allocation(k, a, size);
    assert forall|p: (int, int)| #[trigger] w.allocations.contains(p) <==> v.allocations.contains(p)
        || p == (a, a + size) by {
        if w.allocations.contains(p) {
            let i = choose|i: int| 0 <= i < w.allocations.len() && w.allocations[i] == p;
            if i < k {
                assert(v.allocations[i] == p);
            } else if i > k {
                assert(v.allocations[i - 1] == p);
            }
        }
        if v.allocations.contains(p) {
            let i = choose|i: int| 0 <= i < v.allocations.len() && v.allocations[i] == p;
            if i < k {
                assert(w.allocations[i] == p);
            } else {
                assert(w.allocations[i + 1] == p);
            }
        }
        if p == (a, a + size) {
            assert(w.allocations[k] == p);
        }
    }
}

/// Law: freeing drops exactly the allocation that starts at the given address: afterwards
/// the allocations are the earlier ones except that one, and the region is unchanged.
pub proof fn lemma_dealloc_drops_block(v: GapAllocatorView, start: int)
    requires
        v.well_formed(),
        v.find_allocation(start) is Some,
    ensures
        ({
            let w = v.without(v.find_allocation(start)->0);
            &&& w.region_start == v.region_start
            &&& w.region_end == v.region_end
            &&& w.allocations.len() + 1 == v.allocations.len()
            &&& forall|p: (int, int)|
                #[trigger] w.allocations.contains(p) <==> v.allocations.contains(p) && p.0 != start
        }),
{
    let k = v.find_allocation(start)->0;
    let w = v.without(k);
    assert(v.allocations[k].0 == start);
    assert forall|p: (int, int)| #[trigger] w.allocations.contains(p) <==> v.allocations.contains(p)
        && p.0 != start by {
        if w.allocations.contains(p) {
            let i = choose|i: int| 0 <= i < w.allocations.len() && w.allocations[i] == p;
            let oi = if i < k {
                i
            } else {
                i + 1
            };
            assert(v.allocations[oi] == p);
            if oi < k {
                assert(v.allocations[oi].1 <= v.allocations[k].0);
                assert(v.allocations[oi].0 < v.allocations[oi].1);
            } else {
                assert(v.allocations[k].1 <= v.allocations[oi].0);
                assert(v.allocations[k].0 < v.allocations[k].1);
            }
        }
        if v.allocations.contains(p) && p.0 != start {
            let i = choose|i: int| 0 <= i < v.allocations.len() && v.allocations[i] == p;
            assert(i != k);
            if i < k {
                assert(w.allocations[i] == p);
            } else {
                assert(w.allocations[i - 1] == p);
            }
        }
    }
}

/// Simple gap-based region allocator.
pub struct GapAllocator {
    region: Range<u64>,
    allocs: Vec<Range<u64>>,
}

impl View for GapAllocator {
    type V = GapAllocatorView;

    closed spec fn view(&self) -> GapAllocatorView {
        GapAllocatorView {
            region_start: self.region.start as int,
            region_end: self.region.end as int,
            allocations: ranges_view(self.allocs@),
        }
    }
}

/// The first multiple of `align` at or above `x`.
fn next_multiple_of(x: u64, align: u64) -> (r: u64)
    requires
        align > 0,
        round_up(x as int, align as int) <= u64::MAX,
    ensures
        r == round_up(x as int, align as int),
{
    let rem = x % align;
    if rem == 0 {
        x
    } else {
        x + (align - rem)
    }
}

impl GapAllocator {
    #[verifier::type_invariant]
    spec fn inv(self) -> bool {
        self@.well_formed()
    }

    /// Create a new GapAllocator for the given region.
    pub fn new(region: Range<u64>) -> (r: Self)
        ensures
            r@.region_start == region.start,
            r@.region_end == region.end,
            r@.allocations == Seq::<(int, int)>::empty(),
            r@.well_formed(),
    {
        let r = Self { region, allocs: Vec::new() };
        assert(r@.allocations =~= Seq::<(int, int)>::empty());
        r
    }

    /// Allocate a region of the given size and alignment.
    ///
    /// Returns the lowest `align`-aligned address at which `size` bytes fit between the
    /// existing allocations, or `None` when `size` is zero or nothing fits.
    pub fn allocate(&mut self, size: u64, align: u64) -> (r: Option<u64>)
        requires
            size > 0 ==> align > 0,
            size > 0 ==> old(self)@.round_up_in_range_from(0, size as int, align as int),
        ensures
            size == 0 ==> r is None && final(self)@ == old(self)@,
            size > 0 ==> match old(self)@.first_fit(size as int, align as int) {
                None => r is None && final(self)@ == old(self)@,
                Some(k) => {
                    let a = round_up(old(self)@.gap_start(k), align as int);
                    &&& r == Some(a as u64)
                    &&& final(self)@ == old(self)@.with_allocation(k, a, size as int)
                },
            },
            r matches Some(a) ==> old(self)@.is_free(a as int, size as int, align as int) && forall|
                b: int,
            | #[trigger] old(self)@.is_free(b, size as int, align as int) ==> a <= b,
            r is None && size > 0 ==> forall|b: int| !#[trigger] old(self)@.is_free(b, size as int, align as int),
            final(self)@.well_formed(),
    {
        proof {
            use_type_invariant(&*self);
        }
        if size == 0 {
            return None;
        }
        let ghost v = self@;
        let n = self.allocs.len();
        let mut idx: usize = 0;
        loop
            invariant
                self@ == v,
                old(self)@ == v,
                v.well_formed(),
                n == v.allocations.len(),
                n == self.allocs@.len(),
                idx <= n,
                size > 0,
                align > 0,
                v.first_fit(size as int, align as int) == v.first_fit_from(
                    idx as int,
                    size as int,
                    align as int,
                ),
                v.round_up_in_range_from(idx as int, size as int, align as int),
            decreases n - idx,
        {
            let gap_start = if idx == 0 {
                self.region.start
            } else {
                self.allocs[idx - 1].end
            };
            let gap_end = if idx == n {
                self.region.end
            } else {
                self.allocs[idx].start
            };
            assert(gap_start == v.gap_start(idx as int));
            assert(gap_end == v.gap_end(idx as int));
            let aligned_start = next_multiple_of(gap_start, align);
            if !(aligned_start >= gap_end || size > gap_end - aligned_start) {
                assert(v.fits(idx as int, size as int, align as int));
                assert(v.first_fit(size as int, align as int) == Some(idx as int));
                proof {
                    lemma_with_allocation_well_formed(v, idx as int, size as int, align as int);
                    lemma_first_fit_is_lowest_free(v, size as int, align as int);
                }
                let mut allocs: Vec<Range<u64>> = Vec::new();
                std::mem::swap(&mut allocs, &mut self.allocs);
                allocs.insert(idx, aligned_start..aligned_start + size);
                assert(ranges_view(allocs@) =~= v.allocations.insert(
                    idx as int,
                    (aligned_start as int, aligned_start + size),
                ));
                self.allocs = allocs;
                return Some(aligned_start);
            }
            if idx == n {
                assert(!v.fits(idx as int, size as int, align as int));
                assert(v.first_fit_from(idx as int + 1, size as int, align as int) is None);
                assert(v.first_fit(size as int, align as int) is None);
                proof {
                    lemma_first_fit_is_lowest_free(v, size as int, align as int);
                }
                return None;
            }
            idx = idx + 1;
        }
    }

    /// Deallocate the region starting at the given address.
    ///
    /// Returns whether an allocation started there; if one did, it is dropped.
    pub fn dealloc(&mut self, start: u64) -> (r: bool)
        ensures
            match old(self)@.find_allocation(start as int) {
                Some(k) => r && final(self)@ == old(self)@.without(k),
                None => !r && final(self)@ == old(self)@,
            },
            final(self)@.well_formed(),
    {
        proof {
            use_type_invariant(&*self);
        }
        let ghost v = self@;
        match find_by_start(&self.allocs, start, Ghost(v)) {
            Some(idx) => {
                proof {
                    lemma_without_well_formed(v, idx as int);
                    assert(v.allocations[idx as int].0 == start);
                    let i = choose|i: int|
                        0 <= i < v.allocations.len() && #[trigger] v.allocations[i].0 == start;
                    if i < idx {
                        assert(v.allocations[i].1 <= v.allocations[idx as int].0);
                        assert(v.allocations[i].0 < v.allocations[i].1);
                    } else if i > idx {
                        assert(v.allocations[idx as int].1 <= v.allocations[i].0);
                        assert(v.allocations[idx as int].0 < v.allocations[idx as int].1);
                    }
                }
                let mut allocs: Vec<Range<u64>> = Vec::new();
                std::mem::swap(&mut allocs, &mut self.allocs);
                allocs.remove(idx);
                assert(ranges_view(allocs@) =~= v.allocations.remove(idx as int));
                self.allocs = allocs;
                true
            },
            None => false,
        }
    }
}

/// Binary search for the allocation that starts at `start`.
fn find_by_start(allocs: &Vec<Range<u64>>, start: u64, Ghost(v): Ghost<GapAllocatorView>) -> (r:
    Option<usize>)
    requires
        v.well_formed(),
        v.allocations == ranges_view(allocs@),
    ensures
        match r {
            Some(i) => i < allocs@.len() && allocs@[i as int].start == start,
            None => forall|i: int|
                0 <= i < v.allocations.len() ==> #[trigger] v.allocations[i].0 != start,
        },
{
    let mut lo: usize = 0;
    let mut hi: usize = allocs.len();
    while lo < hi
        invariant
            v.well_formed(),
            v.allocations == ranges_view(allocs@),
            lo <= hi <= allocs@.len(),
            forall|i: int| 0 <= i < lo ==> #[trigger] v.allocations[i].0 < start,
            forall|i: int| hi <= i < v.allocations.len() ==> #[trigger] v.allocations[i].0 > start,
        decreases hi - lo,
    {
        let mid = lo + (hi - lo) / 2;
        let s = allocs[mid].start;
        assert(s == v.allocations[mid as int].0);
        if s < start {
            assert forall|i: int| 0 <= i < mid + 1 implies #[trigger] v.allocations[i].0 < start by {
                if i < mid {
                    assert(v.allocations[i].1 <= v.allocations[mid as int].0);
                    assert(v.allocations[i].0 < v.allocations[i].1);
                }
            }
            lo = mid + 1;
        } else if s > start {
            assert forall|i: int| mid <= i < v.allocations.len() implies #[trigger] v.allocations[i].0
                > start by {
                if i > mid {
                    assert(v.allocations[mid as int].1 <= v.allocations[i].0);
                    assert(v.allocations[mid as int].0 < v.allocations[mid as int].1);
                }
            }
            hi = mid;
        } else {
            return Some(mid);
        }
    }
    None
}

} // verus!
