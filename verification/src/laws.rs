//! The laws of the two metrics, stated over the exact rational scores and
//! proved once and for all.  Scores are compared as fractions: `n1/d1` and
//! `n2/d2` with positive denominators compare as `n1 * d2` and `n2 * d1`.

use crate::matching;
use crate::{
    jaro_den, jaro_match_count, jaro_matched, jaro_num, jaro_transpositions, match_limit,
    winkler_den, winkler_num, winkler_prefix, JaroScore, WinklerScore,
};
use vstd::prelude::*;

verus! {

/// Empty-input law: if either input is empty, the Jaro score is zero, and
/// so is the Jaro-Winkler score for any non-negative prefix bound.
pub proof fn lemma_empty_input(a: Seq<char>, b: Seq<char>, bound: int)
    requires
        a.len() == 0 || b.len() == 0,
        0 <= bound,
    ensures
        jaro_num(a, b) == 0,
        jaro_den(a, b) == 1,
        winkler_num(a, b, bound) == 0,
        winkler_den(a, b) == 10,
{
    if b.len() == 0 {
        matching::lemma_scan_empty_target(a, b, match_limit(a, b), a.len() as int);
    }
}

/// Range law for Jaro: the score is a well-formed fraction in `[0, 1]`.
pub proof fn lemma_jaro_range(a: Seq<char>, b: Seq<char>)
    ensures
        0 < jaro_den(a, b),
        0 <= jaro_num(a, b) <= jaro_den(a, b),
{
    let la = a.len() as int;
    let lb = b.len() as int;
    let m = jaro_match_count(a, b);
    let t = jaro_transpositions(a, b);
    matching::lemma_matched_chars_len(a, b, match_limit(a, b));
    matching::lemma_matched_chars_len(b, a, match_limit(b, a));
    let p = jaro_matched(a, b);
    let q = jaro_matched(b, a);
    let n = if p.len() <= q.len() {
        p.len() as int
    } else {
        q.len() as int
    };
    matching::lemma_diff_count_bounds(p, q, n);
    if la != 0 && lb != 0 && m != 0 {
        assert(1 <= m && m <= la && m <= lb);
        assert(0 <= t && t <= m);
        assert(0 <= m * m * lb + m * m * la + (m - t) * la * lb) by (nonlinear_arith)
            requires
                1 <= m,
                1 <= la,
                1 <= lb,
                0 <= t <= m,
        ;
        assert(m * m * lb + m * m * la + (m - t) * la * lb <= 3 * la * lb * m)
            by (nonlinear_arith)
            requires
                1 <= m,
                m <= la,
                m <= lb,
                0 <= t,
        ;
        assert(0 < 3 * la * lb * m) by (nonlinear_arith)
            requires
                1 <= m,
                1 <= la,
                1 <= lb,
        ;
    }
}

/// Range law for Jaro-Winkler: for any prefix bound up to ten, the score
/// is a well-formed fraction in `[0, 1]`.  (With the bonus constant fixed
/// at one tenth, a bound above ten could push the score past one.)
pub proof fn lemma_winkler_range(a: Seq<char>, b: Seq<char>, bound: int)
    requires
        0 <= bound <= 10,
    ensures
        0 < winkler_den(a, b),
        0 <= winkler_num(a, b, bound) <= winkler_den(a, b),
{
    lemma_jaro_range(a, b);
    matching::lemma_common_prefix_nonneg(a, b, 0);
    let l = winkler_prefix(a, b, bound);
    let jn = jaro_num(a, b);
    let jd = jaro_den(a, b);
    assert(0 <= l <= 10);
    assert(0 <= l * (jd - jn)) by (nonlinear_arith)
        requires
            0 <= l,
            jn <= jd,
    ;
    assert(l * (jd - jn) <= 10 * (jd - jn)) by (nonlinear_arith)
        requires
            0 <= l <= 10,
            jn <= jd,
    ;
}

/// Identity law: a non-empty string compared with itself matches every
/// character in place, with no transpositions, so both scores are exactly
/// one.
pub proof fn lemma_identity(s: Seq<char>, bound: int)
    requires
        s.len() > 0,
    ensures
        jaro_num(s, s) == jaro_den(s, s),
        0 < jaro_den(s, s),
        winkler_num(s, s, bound) == winkler_den(s, s),
{
    let n = s.len() as int;
    let limit = match_limit(s, s);
    matching::lemma_scan_self(s, limit, n);
    assert(jaro_matched(s, s) == s.take(n));
    assert(jaro_match_count(s, s) == n);
    matching::lemma_diff_count_equal(s.take(n), s.take(n), n);
    assert(jaro_transpositions(s, s) == 0);
    assert(n * n * n + n * n * n + (n - 0) * n * n == 3 * n * n * n) by (nonlinear_arith);
    assert(jaro_num(s, s) == jaro_den(s, s));
    lemma_jaro_range(s, s);
}

/// Bonus monotonicity: the Winkler adjustment never lowers the score, and
/// when the Jaro score is below one it raises it exactly when the two
/// strings share at least one leading character.  (When the Jaro score is
/// already one the bonus is zero whatever the prefix, so the two scores
/// coincide there even for strings with a common prefix.)
pub proof fn lemma_bonus_monotone(a: Seq<char>, b: Seq<char>, bound: int)
    requires
        1 <= bound,
    ensures
        winkler_num(a, b, bound) * jaro_den(a, b) >= jaro_num(a, b) * winkler_den(a, b),
        jaro_num(a, b) < jaro_den(a, b) ==> ((winkler_num(a, b, bound) * jaro_den(a, b)
            == jaro_num(a, b) * winkler_den(a, b)) <==> matching::common_prefix_chars(a, b) == 0),
{
    lemma_jaro_range(a, b);
    matching::lemma_common_prefix_nonneg(a, b, 0);
    let l = winkler_prefix(a, b, bound);
    let jn = jaro_num(a, b);
    let jd = jaro_den(a, b);
    assert(0 <= l);
    assert(winkler_num(a, b, bound) * jd - jn * winkler_den(a, b) == l * (jd - jn) * jd)
        by (nonlinear_arith)
        requires
            winkler_num(a, b, bound) == 10 * jn + l * (jd - jn),
            winkler_den(a, b) == 10 * jd,
    ;
    assert(0 <= l * (jd - jn) * jd) by (nonlinear_arith)
        requires
            0 <= l,
            jn <= jd,
            0 < jd,
    ;
    if jn < jd {
        assert((l * (jd - jn) * jd == 0) <==> l == 0) by (nonlinear_arith)
            requires
                0 <= l,
                jn < jd,
                0 < jd,
        ;
        assert(l == 0 <==> matching::common_prefix_chars(a, b) == 0);
    }
}

/// Bound monotonicity: raising the prefix bound never lowers the
/// Jaro-Winkler score (the denominator does not depend on the bound), and
/// raises it exactly while the lower bound still lies below the common
/// prefix and the Jaro score is below one.
pub proof fn lemma_bound_monotone(a: Seq<char>, b: Seq<char>, bound1: int, bound2: int)
    requires
        0 <= bound1 <= bound2,
    ensures
        winkler_num(a, b, bound1) <= winkler_num(a, b, bound2),
        winkler_num(a, b, bound1) < winkler_num(a, b, bound2) <==> (bound1 < bound2 && bound1
            < matching::common_prefix_chars(a, b) && jaro_num(a, b) < jaro_den(a, b)),
{
    lemma_jaro_range(a, b);
    matching::lemma_common_prefix_nonneg(a, b, 0);
    let cp = matching::common_prefix_chars(a, b);
    let l1 = winkler_prefix(a, b, bound1);
    let l2 = winkler_prefix(a, b, bound2);
    let jn = jaro_num(a, b);
    let jd = jaro_den(a, b);
    assert(l1 <= l2);
    assert(l1 < l2 <==> (bound1 < bound2 && bound1 < cp));
    assert(winkler_num(a, b, bound2) - winkler_num(a, b, bound1) == (l2 - l1) * (jd - jn))
        by (nonlinear_arith)
        requires
            winkler_num(a, b, bound1) == 10 * jn + l1 * (jd - jn),
            winkler_num(a, b, bound2) == 10 * jn + l2 * (jd - jn),
    ;
    assert(0 <= (l2 - l1) * (jd - jn)) by (nonlinear_arith)
        requires
            l1 <= l2,
            jn <= jd,
    ;
    assert(0 < (l2 - l1) * (jd - jn) <==> (l1 < l2 && jn < jd)) by (nonlinear_arith)
        requires
            l1 <= l2,
            jn <= jd,
    ;
}

/// Determinism: the contract of `jaro_distance` pins every field of the
/// result, so any two results for the same pair of inputs are equal.
pub proof fn lemma_jaro_deterministic(a: Seq<char>, b: Seq<char>, s1: JaroScore, s2: JaroScore)
    requires
        s1.lhs_len == a.len(),
        s1.rhs_len == b.len(),
        s1.matches as int == jaro_match_count(a, b),
        s1.transpositions as int == jaro_transpositions(a, b),
        s2.lhs_len == a.len(),
        s2.rhs_len == b.len(),
        s2.matches as int == jaro_match_count(a, b),
        s2.transpositions as int == jaro_transpositions(a, b),
    ensures
        s1 == s2,
{
}

/// Determinism for `jaro_winkler_distance`: its contract pins every field
/// of the result, so any two results for the same inputs are equal.
pub proof fn lemma_winkler_deterministic(
    a: Seq<char>,
    b: Seq<char>,
    bound: int,
    s1: WinklerScore,
    s2: WinklerScore,
)
    requires
        s1.jaro.lhs_len == a.len(),
        s1.jaro.rhs_len == b.len(),
        s1.jaro.matches as int == jaro_match_count(a, b),
        s1.jaro.transpositions as int == jaro_transpositions(a, b),
        s1.prefix as int == winkler_prefix(a, b, bound),
        s2.jaro.lhs_len == a.len(),
        s2.jaro.rhs_len == b.len(),
        s2.jaro.matches as int == jaro_match_count(a, b),
        s2.jaro.transpositions as int == jaro_transpositions(a, b),
        s2.prefix as int == winkler_prefix(a, b, bound),
    ensures
        s1 == s2,
{
}

} // verus!
