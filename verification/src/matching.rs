//! The matching-window scan at the heart of the Jaro metric, together with
//! the transposition count and the common-prefix count.
//!
//! The scan is specified by a small recursive model: `scan_state` walks the
//! source sequence left to right, and each source character claims the first
//! not-yet-consumed equal character inside its window of the target.  The
//! executable functions are proved to compute exactly what the model says.

use vstd::prelude::*;
use vstd::string::StrSliceExecFns;

verus! {

/// Lower end (inclusive) of the matching window around source index `i`.
pub open spec fn window_lo(i: int, limit: int) -> int {
    if i >= limit {
        i - limit
    } else {
        0
    }
}

/// Upper end (exclusive) of the matching window around source index `i`,
/// for a target of length `n`.  The window may be empty.
pub open spec fn window_hi(i: int, limit: int, n: int) -> int {
    if i + limit + 1 <= n {
        i + limit + 1
    } else {
        n
    }
}

/// Whether target position `j` can absorb the character `c`: in range,
/// equal to `c`, and not yet consumed by an earlier match.
pub open spec fn hit_at(c: char, y: Seq<char>, used: Seq<bool>, j: int) -> bool {
    0 <= j < y.len() && j < used.len() && y[j] == c && !used[j]
}

/// Position of the first not-yet-consumed occurrence of `c` in `y[j..hi)`,
/// if any.
pub open spec fn first_hit(c: char, y: Seq<char>, used: Seq<bool>, j: int, hi: int) -> Option<
    int,
>
    decreases hi - j,
{
    if j >= hi {
        None
    } else if hit_at(c, y, used, j) {
        Some(j)
    } else {
        first_hit(c, y, used, j + 1, hi)
    }
}

/// The scanner's state after some prefix of the source has been processed:
/// the characters matched so far, in source order, and the consumption
/// flags of the target.
pub ghost struct ScanState {
    pub matched: Seq<char>,
    pub used: Seq<bool>,
}

/// State of the scan of `x` against `y` after the first `i` source
/// characters have been processed.
pub open spec fn scan_state(x: Seq<char>, y: Seq<char>, limit: int, i: int) -> ScanState
    decreases i,
{
    if i <= 0 {
        ScanState { matched: Seq::empty(), used: Seq::new(y.len(), |j: int| false) }
    } else {
        let prev = scan_state(x, y, limit, i - 1);
        let lo = window_lo(i - 1, limit);
        let hi = window_hi(i - 1, limit, y.len() as int);
        match first_hit(x[i - 1], y, prev.used, lo, hi) {
            Some(j) => ScanState {
                matched: prev.matched.push(x[i - 1]),
                used: prev.used.update(j, true),
            },
            None => prev,
        }
    }
}

/// The characters of `x` that find a partner in `y`, in scan order.
pub open spec fn matched_chars(x: Seq<char>, y: Seq<char>, limit: int) -> Seq<char> {
    scan_state(x, y, limit, x.len() as int).matched
}

/// Skipping positions that cannot hit does not change the first hit.
proof fn lemma_first_hit_skip(c: char, y: Seq<char>, used: Seq<bool>, lo: int, j: int, hi: int)
    requires
        lo <= j,
        forall|k: int| lo <= k < j ==> !hit_at(c, y, used, k),
    ensures
        first_hit(c, y, used, lo, hi) == first_hit(c, y, used, j, hi),
    decreases j - lo,
{
    if lo < j {
        lemma_first_hit_skip(c, y, used, lo + 1, j, hi);
    }
}

/// First not-yet-consumed occurrence of `c` in `y[lo..hi)`, if any.
fn find_in_window(c: char, y: &Vec<char>, used: &Vec<bool>, lo: usize, hi: usize) -> (r: Option<
    usize,
>)
    requires
        used@.len() == y@.len(),
        hi <= y@.len(),
    ensures
        match r {
            Some(j) => lo <= j < hi && first_hit(c, y@, used@, lo as int, hi as int) == Some(
                j as int,
            ),
            None => first_hit(c, y@, used@, lo as int, hi as int) is None,
        },
{
    let mut j: usize = lo;
    while j < hi
        invariant
            lo <= j,
            hi <= y@.len(),
            used@.len() == y@.len(),
            forall|k: int| lo <= k < j ==> !hit_at(c, y@, used@, k),
        decreases hi - j,
    {
        if y[j] == c && !used[j] {
            proof {
                lemma_first_hit_skip(c, y@, used@, lo as int, j as int, hi as int);
            }
            return Some(j);
        }
        j += 1;
    }
    proof {
        lemma_first_hit_skip(c, y@, used@, lo as int, j as int, hi as int);
    }
    None
}

/// Scan `x` against `y`: collect, in source order, every character of `x`
/// for which a not-yet-consumed equal character of `y` lies inside the
/// window of half the longer length around its own index.
pub fn scan_matches(x: &Vec<char>, y: &Vec<char>, limit: usize) -> (m: Vec<char>)
    ensures
        m@ == matched_chars(x@, y@, limit as int),
{
    let mut used: Vec<bool> = Vec::new();
    let mut k: usize = 0;
    while k < y.len()
        invariant
            k <= y@.len(),
            used@.len() == k,
            forall|j: int| 0 <= j < k ==> !used@[j],
        decreases y@.len() - k,
    {
        used.push(false);
        k += 1;
    }
    assert(used@ =~= Seq::new(y@.len(), |j: int| false));

    let mut matched: Vec<char> = Vec::new();
    let mut i: usize = 0;
    while i < x.len()
        invariant
            i <= x@.len(),
            used@.len() == y@.len(),
            scan_state(x@, y@, limit as int, i as int).matched == matched@,
            scan_state(x@, y@, limit as int, i as int).used == used@,
        decreases x@.len() - i,
    {
        let c = x[i];
        let lo: usize = if i >= limit {
            i - limit
        } else {
            0
        };
        let wide: u128 = i as u128 + limit as u128 + 1;
        let hi: usize = if wide <= y.len() as u128 {
            i + limit + 1
        } else {
            y.len()
        };
        assert(lo as int == window_lo(i as int, limit as int));
        assert(hi as int == window_hi(i as int, limit as int, y@.len() as int));
        match find_in_window(c, y, &used, lo, hi) {
            Some(j) => {
                matched.push(c);
                used.set(j, true);
            },
            None => {},
        }
        i += 1;
    }
    matched
}

/// Number of `true` flags among the first `n` entries.
pub open spec fn count_true(s: Seq<bool>, n: int) -> int
    decreases n,
{
    if n <= 0 {
        0
    } else {
        count_true(s, n - 1) + (if s[n - 1] {
            1int
        } else {
            0int
        })
    }
}

proof fn lemma_count_true_bounds(s: Seq<bool>, n: int)
    ensures
        0 <= count_true(s, n),
        count_true(s, n) <= (if n >= 0 {
            n
        } else {
            0
        }),
    decreases n,
{
    if n > 0 {
        lemma_count_true_bounds(s, n - 1);
    }
}

/// `count_true` reads only the first `n` entries.
proof fn lemma_count_true_agree(s: Seq<bool>, t: Seq<bool>, n: int)
    requires
        forall|k: int| 0 <= k < n ==> s[k] == t[k],
    ensures
        count_true(s, n) == count_true(t, n),
    decreases n,
{
    if n > 0 {
        lemma_count_true_agree(s, t, n - 1);
    }
}

/// Setting a clear flag raises the count by one.
proof fn lemma_count_true_update(s: Seq<bool>, j: int, n: int)
    requires
        0 <= j < n,
        n <= s.len(),
        !s[j],
    ensures
        count_true(s.update(j, true), n) == count_true(s, n) + 1,
    decreases n,
{
    if j == n - 1 {
        lemma_count_true_agree(s.update(j, true), s, n - 1);
        assert(s.update(j, true)[n - 1]);
    } else {
        lemma_count_true_update(s, j, n - 1);
        assert(s.update(j, true)[n - 1] == s[n - 1]);
    }
}

proof fn lemma_count_true_all_false(s: Seq<bool>, n: int)
    requires
        forall|k: int| 0 <= k < n ==> !s[k],
    ensures
        count_true(s, n) == 0,
    decreases n,
{
    if n > 0 {
        lemma_count_true_all_false(s, n - 1);
    }
}

proof fn lemma_first_hit_is_hit(c: char, y: Seq<char>, used: Seq<bool>, j: int, hi: int, r: int)
    requires
        first_hit(c, y, used, j, hi) == Some(r),
    ensures
        j <= r < hi,
        hit_at(c, y, used, r),
    decreases hi - j,
{
    if j < hi && !hit_at(c, y, used, j) {
        lemma_first_hit_is_hit(c, y, used, j + 1, hi, r);
    }
}

/// The scan consumes one distinct target position per matched character,
/// so the match count can exceed neither the scanned prefix of the source
/// nor the length of the target.
pub proof fn lemma_scan_bounds(x: Seq<char>, y: Seq<char>, limit: int, i: int)
    ensures
        scan_state(x, y, limit, i).used.len() == y.len(),
        0 <= scan_state(x, y, limit, i).matched.len(),
        scan_state(x, y, limit, i).matched.len() <= (if i >= 0 {
            i
        } else {
            0
        }),
        scan_state(x, y, limit, i).matched.len() as int == count_true(
            scan_state(x, y, limit, i).used,
            y.len() as int,
        ),
    decreases i,
{
    if i <= 0 {
        lemma_count_true_all_false(scan_state(x, y, limit, i).used, y.len() as int);
    } else {
        lemma_scan_bounds(x, y, limit, i - 1);
        let prev = scan_state(x, y, limit, i - 1);
        let lo = window_lo(i - 1, limit);
        let hi = window_hi(i - 1, limit, y.len() as int);
        match first_hit(x[i - 1], y, prev.used, lo, hi) {
            Some(j) => {
                lemma_first_hit_is_hit(x[i - 1], y, prev.used, lo, hi, j);
                lemma_count_true_update(prev.used, j, y.len() as int);
            },
            None => {},
        }
    }
}

/// The match count is bounded by both lengths.
pub proof fn lemma_matched_chars_len(x: Seq<char>, y: Seq<char>, limit: int)
    ensures
        0 <= matched_chars(x, y, limit).len() <= x.len(),
        matched_chars(x, y, limit).len() <= y.len(),
{
    lemma_scan_bounds(x, y, limit, x.len() as int);
    lemma_count_true_bounds(scan_state(x, y, limit, x.len() as int).used, y.len() as int);
}

/// Against an empty target nothing matches.
pub proof fn lemma_scan_empty_target(x: Seq<char>, y: Seq<char>, limit: int, i: int)
    requires
        y.len() == 0,
    ensures
        scan_state(x, y, limit, i).matched.len() == 0,
    decreases i,
{
    if i > 0 {
        lemma_scan_empty_target(x, y, limit, i - 1);
        let prev = scan_state(x, y, limit, i - 1);
        let lo = window_lo(i - 1, limit);
        let hi = window_hi(i - 1, limit, y.len() as int);
        if first_hit(x[i - 1], y, prev.used, lo, hi) is Some {
            let j = first_hit(x[i - 1], y, prev.used, lo, hi)->0;
            lemma_first_hit_is_hit(x[i - 1], y, prev.used, lo, hi, j);
        }
    }
}

/// Scanning a sequence against itself matches every character with its
/// own position: earlier positions are already consumed, and a
/// character's own position always lies inside its window.
pub proof fn lemma_scan_self(s: Seq<char>, limit: int, i: int)
    requires
        0 <= i <= s.len(),
        0 <= limit,
    ensures
        scan_state(s, s, limit, i).matched == s.take(i),
        scan_state(s, s, limit, i).used == Seq::new(s.len(), |j: int| j < i),
    decreases i,
{
    if i == 0 {
        assert(scan_state(s, s, limit, 0).matched =~= s.take(0));
        assert(scan_state(s, s, limit, 0).used =~= Seq::new(s.len(), |j: int| j < 0));
    } else {
        lemma_scan_self(s, limit, i - 1);
        let prev = scan_state(s, s, limit, i - 1);
        let c = s[i - 1];
        let lo = window_lo(i - 1, limit);
        let hi = window_hi(i - 1, limit, s.len() as int);
        assert(lo <= i - 1 < hi);
        assert(forall|k: int| lo <= k < i - 1 ==> !hit_at(c, s, prev.used, k));
        lemma_first_hit_skip(c, s, prev.used, lo, i - 1, hi);
        assert(hit_at(c, s, prev.used, i - 1));
        assert(first_hit(c, s, prev.used, lo, hi) == Some(i - 1));
        assert(scan_state(s, s, limit, i).matched =~= s.take(i));
        assert(scan_state(s, s, limit, i).used =~= Seq::new(s.len(), |j: int| j < i));
    }
}

/// Number of positions among the first `n` at which the two sequences
/// carry different characters.
pub open spec fn diff_count(s: Seq<char>, t: Seq<char>, n: int) -> int
    decreases n,
{
    if n <= 0 {
        0
    } else {
        diff_count(s, t, n - 1) + (if s[n - 1] != t[n - 1] {
            1int
        } else {
            0int
        })
    }
}

/// The Jaro transposition count of two matched-character sequences: the
/// number of index-by-index disagreements, halved (each disorder is seen
/// once from either side).
pub open spec fn transposition_count(s: Seq<char>, t: Seq<char>) -> int {
    let n = if s.len() <= t.len() {
        s.len() as int
    } else {
        t.len() as int
    };
    diff_count(s, t, n) / 2
}

pub proof fn lemma_diff_count_bounds(s: Seq<char>, t: Seq<char>, n: int)
    ensures
        0 <= diff_count(s, t, n),
        diff_count(s, t, n) <= (if n >= 0 {
            n
        } else {
            0
        }),
    decreases n,
{
    if n > 0 {
        lemma_diff_count_bounds(s, t, n - 1);
    }
}

/// Sequences that agree on the first `n` positions disagree nowhere there.
pub proof fn lemma_diff_count_equal(s: Seq<char>, t: Seq<char>, n: int)
    requires
        forall|k: int| 0 <= k < n ==> s[k] == t[k],
    ensures
        diff_count(s, t, n) == 0,
    decreases n,
{
    if n > 0 {
        lemma_diff_count_equal(s, t, n - 1);
    }
}

/// Count the index-by-index disagreements of the two sequences, halved.
pub fn count_transpositions(s: &Vec<char>, t: &Vec<char>) -> (r: usize)
    ensures
        r as int == transposition_count(s@, t@),
{
    let n: usize = if s.len() <= t.len() {
        s.len()
    } else {
        t.len()
    };
    let mut diffs: usize = 0;
    let mut i: usize = 0;
    while i < n
        invariant
            i <= n,
            n <= s@.len(),
            n <= t@.len(),
            diffs <= i,
            diffs as int == diff_count(s@, t@, i as int),
        decreases n - i,
    {
        if s[i] != t[i] {
            diffs += 1;
        }
        i += 1;
    }
    diffs / 2
}

/// Length of the common prefix of `a` and `b`, counted from position `i`.
pub open spec fn common_prefix_from(a: Seq<char>, b: Seq<char>, i: int) -> int
    decreases a.len() + b.len() - 2 * i,
{
    if 0 <= i && i < a.len() && i < b.len() && a[i] == b[i] {
        1 + common_prefix_from(a, b, i + 1)
    } else {
        0
    }
}

/// Length of the longest common prefix of `a` and `b`.
pub open spec fn common_prefix_chars(a: Seq<char>, b: Seq<char>) -> int {
    common_prefix_from(a, b, 0)
}

pub proof fn lemma_common_prefix_nonneg(a: Seq<char>, b: Seq<char>, i: int)
    ensures
        common_prefix_from(a, b, i) >= 0,
    decreases a.len() + b.len() - 2 * i,
{
    if 0 <= i && i < a.len() && i < b.len() && a[i] == b[i] {
        lemma_common_prefix_nonneg(a, b, i + 1);
    }
}

/// Characters agreeing on `[i, k)` push the common prefix at least to `k`.
proof fn lemma_common_prefix_ge(a: Seq<char>, b: Seq<char>, i: int, k: int)
    requires
        0 <= i <= k,
        k <= a.len(),
        k <= b.len(),
        forall|j: int| i <= j < k ==> a[j] == b[j],
    ensures
        common_prefix_from(a, b, i) >= k - i,
    decreases k - i,
{
    if i < k {
        lemma_common_prefix_ge(a, b, i + 1, k);
    } else {
        lemma_common_prefix_nonneg(a, b, i);
    }
}

/// Agreement on `[i, k)` followed by the end of a sequence or a mismatch
/// pins the common prefix exactly.
proof fn lemma_common_prefix_eq(a: Seq<char>, b: Seq<char>, i: int, k: int)
    requires
        0 <= i <= k,
        k <= a.len(),
        k <= b.len(),
        forall|j: int| i <= j < k ==> a[j] == b[j],
        k == a.len() || k == b.len() || a[k] != b[k],
    ensures
        common_prefix_from(a, b, i) == k - i,
    decreases k - i,
{
    if i < k {
        lemma_common_prefix_eq(a, b, i + 1, k);
    }
}

/// Walk the two sequences in lockstep from the start and count the equal
/// leading pairs, stopping once `bound` of them have been seen.
pub fn common_prefix(a: &Vec<char>, b: &Vec<char>, bound: usize) -> (r: usize)
    ensures
        r as int == (if bound as int <= common_prefix_chars(a@, b@) {
            bound as int
        } else {
            common_prefix_chars(a@, b@)
        }),
{
    let n: usize = if a.len() <= b.len() {
        a.len()
    } else {
        b.len()
    };
    let cap: usize = if bound <= n {
        bound
    } else {
        n
    };
    let mut k: usize = 0;
    while k < cap && a[k] == b[k]
        invariant
            k <= cap,
            cap <= a@.len(),
            cap <= b@.len(),
            cap <= bound,
            cap == (if bound <= n {
                bound
            } else {
                n
            }),
            n == (if a@.len() <= b@.len() {
                a@.len()
            } else {
                b@.len()
            }),
            forall|j: int| 0 <= j < k ==> a@[j] == b@[j],
        decreases cap - k,
    {
        k += 1;
    }
    proof {
        if k < cap {
            // stopped on a mismatch, so the common prefix ends exactly here
            lemma_common_prefix_eq(a@, b@, 0, k as int);
        } else if cap < bound {
            // the shorter sequence ran out before the bound was reached
            lemma_common_prefix_eq(a@, b@, 0, k as int);
        } else {
            // the bound was reached; the common prefix extends at least here
            lemma_common_prefix_ge(a@, b@, 0, k as int);
        }
    }
    k
}

/// The characters of `s` collected into a vector, one per unicode scalar.
pub fn chars_of(s: &str) -> (v: Vec<char>)
    ensures
        v@ == s@,
{
    let n = s.unicode_len();
    let mut v: Vec<char> = Vec::new();
    let mut i: usize = 0;
    while i < n
        invariant
            i <= n,
            n == s@.len(),
            v@.len() == i,
            forall|j: int| 0 <= j < i ==> v@[j] == s@[j],
        decreases n - i,
    {
        v.push(s.get_char(i));
        i += 1;
    }
    assert(v@ =~= s@);
    v
}

} // verus!
