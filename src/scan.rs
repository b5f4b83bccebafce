//! Row-major scans over a rectangle of tile coordinates, as spec functions.
//!
//! Columns run over `[c0, c1)` and rows over `[r0, r1)`; each row is visited
//! left to right, rows top to bottom.
use vstd::prelude::*;

verus! {

/// The last tile of row `r`, among columns `[c0, c_end)`, that satisfies `p`.
pub open spec fn last_in_row(p: spec_fn(int, int) -> bool, r: int, c0: int, c_end: int) -> Option<(int, int)>
    decreases c_end - c0,
{
    if c_end <= c0 {
        None
    } else if p(c_end - 1, r) {
        Some((c_end - 1, r))
    } else {
        last_in_row(p, r, c0, c_end - 1)
    }
}

/// The last tile, in row-major order over columns `[c0, c1)` and rows
/// `[r0, r_end)`, that satisfies `p`.
pub open spec fn last_in_rows(p: spec_fn(int, int) -> bool, c0: int, c1: int, r0: int, r_end: int) -> Option<(int, int)>
    decreases r_end - r0,
{
    if r_end <= r0 {
        None
    } else {
        match last_in_row(p, r_end - 1, c0, c1) {
            Some(t) => Some(t),
            None => last_in_rows(p, c0, c1, r0, r_end - 1),
        }
    }
}

/// Every tile of row `r`, among columns `[c0, c_end)`, that satisfies `p`, left to right.
pub open spec fn all_in_row(p: spec_fn(int, int) -> bool, r: int, c0: int, c_end: int) -> Seq<(int, int)>
    decreases c_end - c0,
{
    if c_end <= c0 {
        Seq::empty()
    } else if p(c_end - 1, r) {
        all_in_row(p, r, c0, c_end - 1).push((c_end - 1, r))
    } else {
        all_in_row(p, r, c0, c_end - 1)
    }
}

/// Every tile, in row-major order over columns `[c0, c1)` and rows `[r0, r_end)`,
/// that satisfies `p`.
pub open spec fn all_in_rows(p: spec_fn(int, int) -> bool, c0: int, c1: int, r0: int, r_end: int) -> Seq<(int, int)>
    decreases r_end - r0,
{
    if r_end <= r0 {
        Seq::empty()
    } else {
        all_in_rows(p, c0, c1, r0, r_end - 1) + all_in_row(p, r_end - 1, c0, c1)
    }
}

/// What a forward scan has found once it has reached column `c` of row `r`.
pub open spec fn last_so_far(p: spec_fn(int, int) -> bool, c0: int, c1: int, r0: int, r: int, c: int) -> Option<(int, int)> {
    match last_in_row(p, r, c0, c) {
        Some(t) => Some(t),
        None => last_in_rows(p, c0, c1, r0, r),
    }
}

/// A tile found by `last_in_row` lies in the row's range and satisfies `p`.
pub proof fn lemma_last_in_row_found(p: spec_fn(int, int) -> bool, r: int, c0: int, c_end: int)
    ensures
        last_in_row(p, r, c0, c_end) matches Some(t) ==> (t.1 == r && c0 <= t.0 < c_end && p(t.0, t.1)),
        last_in_row(p, r, c0, c_end) is None ==> forall|c: int| c0 <= c < c_end ==> !#[trigger] p(c, r),
    decreases c_end - c0,
{
    if c_end > c0 {
        lemma_last_in_row_found(p, r, c0, c_end - 1);
    }
}

/// A tile found by `last_in_rows` lies in the rectangle and satisfies `p`;
/// where none is found, no tile of the rectangle satisfies `p`.
pub proof fn lemma_last_in_rows_found(p: spec_fn(int, int) -> bool, c0: int, c1: int, r0: int, r_end: int)
    ensures
        last_in_rows(p, c0, c1, r0, r_end) matches Some(t) ==> (r0 <= t.1 < r_end && c0 <= t.0 < c1 && p(t.0, t.1)),
        last_in_rows(p, c0, c1, r0, r_end) is None ==> forall|c: int, r: int|
            c0 <= c < c1 && r0 <= r < r_end ==> !#[trigger] p(c, r),
    decreases r_end - r0,
{
    if r_end > r0 {
        lemma_last_in_row_found(p, r_end - 1, c0, c1);
        lemma_last_in_rows_found(p, c0, c1, r0, r_end - 1);
    }
}

/// Each tile listed by `all_in_row` lies in the row's range and satisfies `p`.
pub proof fn lemma_all_in_row_members(p: spec_fn(int, int) -> bool, r: int, c0: int, c_end: int)
    ensures
        forall|i: int| 0 <= i < all_in_row(p, r, c0, c_end).len() ==> {
            let t = #[trigger] all_in_row(p, r, c0, c_end)[i];
            t.1 == r && c0 <= t.0 < c_end && p(t.0, t.1)
        },
    decreases c_end - c0,
{
    if c_end > c0 {
        lemma_all_in_row_members(p, r, c0, c_end - 1);
        let s = all_in_row(p, r, c0, c_end - 1);
        if p(c_end - 1, r) {
            assert forall|i: int| 0 <= i < s.push((c_end - 1, r)).len() implies {
                let t = #[trigger] s.push((c_end - 1, r))[i];
                t.1 == r && c0 <= t.0 < c_end && p(t.0, t.1)
            } by {
                if i < s.len() {
                    assert(s.push((c_end - 1, r))[i] == s[i]);
                }
            }
        }
    }
}

/// Each tile listed by `all_in_rows` lies in the rectangle and satisfies `p`.
pub proof fn lemma_all_in_rows_members(p: spec_fn(int, int) -> bool, c0: int, c1: int, r0: int, r_end: int)
    ensures
        forall|i: int| 0 <= i < all_in_rows(p, c0, c1, r0, r_end).len() ==> {
            let t = #[trigger] all_in_rows(p, c0, c1, r0, r_end)[i];
            r0 <= t.1 < r_end && c0 <= t.0 < c1 && p(t.0, t.1)
        },
    decreases r_end - r0,
{
    if r_end > r0 {
        lemma_all_in_rows_members(p, c0, c1, r0, r_end - 1);
        lemma_all_in_row_members(p, r_end - 1, c0, c1);
        let a = all_in_rows(p, c0, c1, r0, r_end - 1);
        let b = all_in_row(p, r_end - 1, c0, c1);
        assert forall|i: int| 0 <= i < (a + b).len() implies {
            let t = #[trigger] (a + b)[i];
            r0 <= t.1 < r_end && c0 <= t.0 < c1 && p(t.0, t.1)
        } by {
            if i < a.len() {
                assert((a + b)[i] == a[i]);
            } else {
                assert((a + b)[i] == b[i - a.len()]);
            }
        }
    }
}

/// Every tile of the row range that satisfies `p` is listed by `all_in_row`.
pub proof fn lemma_all_in_row_complete(p: spec_fn(int, int) -> bool, r: int, c0: int, c_end: int, c: int)
    requires
        c0 <= c < c_end,
        p(c, r),
    ensures
        all_in_row(p, r, c0, c_end).contains((c, r)),
    decreases c_end - c0,
{
    let s = all_in_row(p, r, c0, c_end - 1);
    if c == c_end - 1 {
        assert(s.push((c, r))[s.len() as int] == (c, r));
    } else {
        lemma_all_in_row_complete(p, r, c0, c_end - 1, c);
        let i = choose|i: int| 0 <= i < s.len() && s[i] == (c, r);
        if p(c_end - 1, r) {
            assert(s.push((c_end - 1, r))[i] == (c, r));
        }
    }
}

/// Every tile of the rectangle that satisfies `p` is listed by `all_in_rows`.
pub proof fn lemma_all_in_rows_complete(p: spec_fn(int, int) -> bool, c0: int, c1: int, r0: int, r_end: int, c: int, r: int)
    requires
        c0 <= c < c1,
        r0 <= r < r_end,
        p(c, r),
    ensures
        all_in_rows(p, c0, c1, r0, r_end).contains((c, r)),
    decreases r_end - r0,
{
    let a = all_in_rows(p, c0, c1, r0, r_end - 1);
    let b = all_in_row(p, r_end - 1, c0, c1);
    if r == r_end - 1 {
        lemma_all_in_row_complete(p, r, c0, c1, c);
        let i = choose|i: int| 0 <= i < b.len() && b[i] == (c, r);
        assert((a + b)[a.len() + i] == (c, r));
    } else {
        lemma_all_in_rows_complete(p, c0, c1, r0, r_end - 1, c, r);
        let i = choose|i: int| 0 <= i < a.len() && a[i] == (c, r);
        assert((a + b)[i] == (c, r));
    }
}

} // verus!
