//! Jaro and Jaro-Winkler string similarity.
//!
//! The two public entry points, [`jaro_distance`] and [`jaro_winkler_distance`],
//! compare two character sequences and return the exact outcome of the
//! classical algorithms: the number of characters matched inside the bounded
//! matching window, the transposition count, and (for Jaro-Winkler) the length
//! of the common prefix that earns the bonus.  The similarity score itself is
//! an exact rational number determined by those counts; callers that want a
//! floating-point rendering divide the numerator by the denominator.

use vstd::prelude::*;

pub mod laws;
pub mod matching;

verus! {

/// How many leading characters may count toward the Winkler prefix bonus.
/// Four is the customary choice for Latin scripts, two for scripts where
/// shorter stems carry more information.
pub enum PrefixLength {
    One,
    Two,
    Three,
    Four,
}

impl PrefixLength {
    /// The numeric bound this option stands for.
    pub open spec fn bound(&self) -> int {
        match self {
            PrefixLength::One => 1,
            PrefixLength::Two => 2,
            PrefixLength::Three => 3,
            PrefixLength::Four => 4,
        }
    }

    pub fn to_isize(&self) -> (r: isize)
        ensures
            r as int == self.bound(),
            1 <= r <= 4,
    {
        match self {
            PrefixLength::One => 1,
            PrefixLength::Two => 2,
            PrefixLength::Three => 3,
            PrefixLength::Four => 4,
        }
    }
}

/// Half the longer length, less one, floored at zero: the bound on how far
/// from its own index a character may find its partner.
pub open spec fn match_limit(a: Seq<char>, b: Seq<char>) -> int {
    let n = if a.len() >= b.len() {
        a.len() as int
    } else {
        b.len() as int
    };
    if n / 2 >= 1 {
        n / 2 - 1
    } else {
        0
    }
}

/// The characters of `a` that find a partner inside the matching window
/// of `b`, in scan order.
pub open spec fn jaro_matched(a: Seq<char>, b: Seq<char>) -> Seq<char> {
    matching::matched_chars(a, b, match_limit(a, b))
}

/// The Jaro match count `m`.
pub open spec fn jaro_match_count(a: Seq<char>, b: Seq<char>) -> int {
    jaro_matched(a, b).len() as int
}

/// The Jaro transposition count `t`: index-by-index disagreements between
/// the two matched-character sequences, halved.
pub open spec fn jaro_transpositions(a: Seq<char>, b: Seq<char>) -> int {
    matching::transposition_count(jaro_matched(a, b), jaro_matched(b, a))
}

/// Numerator of the exact Jaro score
/// `(m/len(a) + m/len(b) + (m - t)/m) / 3` over the common denominator
/// `3 * len(a) * len(b) * m`; zero when either input is empty or nothing
/// matches.
pub open spec fn jaro_num(a: Seq<char>, b: Seq<char>) -> int {
    let la = a.len() as int;
    let lb = b.len() as int;
    let m = jaro_match_count(a, b);
    let t = jaro_transpositions(a, b);
    if la == 0 || lb == 0 || m == 0 {
        0
    } else {
        m * m * lb + m * m * la + (m - t) * la * lb
    }
}

/// Denominator of the exact Jaro score; one in the degenerate cases so
/// that the score is always a well-formed fraction.
pub open spec fn jaro_den(a: Seq<char>, b: Seq<char>) -> int {
    let la = a.len() as int;
    let lb = b.len() as int;
    let m = jaro_match_count(a, b);
    if la == 0 || lb == 0 || m == 0 {
        1
    } else {
        3 * la * lb * m
    }
}

/// How many leading characters earn the Winkler bonus: the length of the
/// common prefix, capped at `bound`.
pub open spec fn winkler_prefix(a: Seq<char>, b: Seq<char>, bound: int) -> int {
    let p = matching::common_prefix_chars(a, b);
    if bound <= p {
        bound
    } else {
        p
    }
}

/// Numerator of the exact Jaro-Winkler score
/// `jaro + prefix * 0.1 * (1 - jaro)` over the denominator
/// `10 * jaro_den`.
pub open spec fn winkler_num(a: Seq<char>, b: Seq<char>, bound: int) -> int {
    10 * jaro_num(a, b) + winkler_prefix(a, b, bound) * (jaro_den(a, b) - jaro_num(a, b))
}

/// Denominator of the exact Jaro-Winkler score.
pub open spec fn winkler_den(a: Seq<char>, b: Seq<char>) -> int {
    10 * jaro_den(a, b)
}

/// The exact outcome of the Jaro computation on one pair of inputs.  The
/// similarity score is the fraction `num() / den()`; callers wanting a
/// floating-point score perform that one division themselves.
#[derive(Clone, Copy, Debug, PartialEq, Eq, Structural)]
pub struct JaroScore {
    /// Character count of the first input.
    pub lhs_len: usize,
    /// Character count of the second input.
    pub rhs_len: usize,
    /// Characters of the first input matched inside the window of the second.
    pub matches: usize,
    /// Half the index-by-index disagreements of the two matched sequences.
    pub transpositions: usize,
}

impl JaroScore {
    /// Numerator of the exact score.
    pub open spec fn num(&self) -> int {
        let la = self.lhs_len as int;
        let lb = self.rhs_len as int;
        let m = self.matches as int;
        let t = self.transpositions as int;
        if la == 0 || lb == 0 || m == 0 {
            0
        } else {
            m * m * lb + m * m * la + (m - t) * la * lb
        }
    }

    /// Denominator of the exact score.
    pub open spec fn den(&self) -> int {
        let la = self.lhs_len as int;
        let lb = self.rhs_len as int;
        let m = self.matches as int;
        if la == 0 || lb == 0 || m == 0 {
            1
        } else {
            3 * la * lb * m
        }
    }
}

/// The exact outcome of the Jaro-Winkler computation: the Jaro outcome
/// plus the number of leading characters that earn the prefix bonus.
#[derive(Clone, Copy, Debug, PartialEq, Eq, Structural)]
pub struct WinklerScore {
    /// The underlying Jaro outcome.
    pub jaro: JaroScore,
    /// Leading matching characters counted toward the bonus.
    pub prefix: usize,
}

impl WinklerScore {
    /// Numerator of the exact score.
    pub open spec fn num(&self) -> int {
        10 * self.jaro.num() + (self.prefix as int) * (self.jaro.den() - self.jaro.num())
    }

    /// Denominator of the exact score.
    pub open spec fn den(&self) -> int {
        10 * self.jaro.den()
    }
}

fn jaro_core(a: &Vec<char>, b: &Vec<char>) -> (score: JaroScore)
    ensures
        score.lhs_len == a@.len(),
        score.rhs_len == b@.len(),
        score.matches as int == jaro_match_count(a@, b@),
        score.transpositions as int == jaro_transpositions(a@, b@),
{
    if a.len() == 0 || b.len() == 0 {
        proof {
            if b@.len() == 0 {
                matching::lemma_scan_empty_target(a@, b@, match_limit(a@, b@), a@.len() as int);
            }
        }
        return JaroScore { lhs_len: a.len(), rhs_len: b.len(), matches: 0, transpositions: 0 };
    }
    let max_len: usize = if a.len() >= b.len() {
        a.len()
    } else {
        b.len()
    };
    let half: usize = max_len / 2;
    let limit: usize = if half >= 1 {
        half - 1
    } else {
        0
    };
    assert(limit as int == match_limit(a@, b@));
    assert(limit as int == match_limit(b@, a@));
    let lhs_matched = matching::scan_matches(a, b, limit);
    let rhs_matched = matching::scan_matches(b, a, limit);
    let transpositions = matching::count_transpositions(&lhs_matched, &rhs_matched);
    JaroScore {
        lhs_len: a.len(),
        rhs_len: b.len(),
        matches: lhs_matched.len(),
        transpositions,
    }
}

/// The Jaro similarity of the two strings, as an exact fraction.  The
/// score is `1` exactly for two equal non-empty strings and `0` when
/// either string is empty or no characters match inside the window.
pub fn jaro_distance(lhs: &str, rhs: &str) -> (score: JaroScore)
    ensures
        score.lhs_len == lhs@.len(),
        score.rhs_len == rhs@.len(),
        score.matches as int == jaro_match_count(lhs@, rhs@),
        score.transpositions as int == jaro_transpositions(lhs@, rhs@),
        score.num() == jaro_num(lhs@, rhs@),
        score.den() == jaro_den(lhs@, rhs@),
        0 <= score.num() <= score.den(),
        0 < score.den(),
{
    let a = matching::chars_of(lhs);
    let b = matching::chars_of(rhs);
    let score = jaro_core(&a, &b);
    proof {
        laws::lemma_jaro_range(lhs@, rhs@);
    }
    score
}

/// The Jaro-Winkler similarity of the two strings, as an exact fraction:
/// the Jaro score, raised by one tenth of its distance to `1` for each
/// leading matching character, up to `prefix_length`.
pub fn jaro_winkler_distance(lhs: &str, rhs: &str, prefix_length: &PrefixLength) -> (score:
    WinklerScore)
    ensures
        score.jaro.lhs_len == lhs@.len(),
        score.jaro.rhs_len == rhs@.len(),
        score.jaro.matches as int == jaro_match_count(lhs@, rhs@),
        score.jaro.transpositions as int == jaro_transpositions(lhs@, rhs@),
        score.prefix as int == winkler_prefix(lhs@, rhs@, prefix_length.bound()),
        score.num() == winkler_num(lhs@, rhs@, prefix_length.bound()),
        score.den() == winkler_den(lhs@, rhs@),
        0 <= score.num() <= score.den(),
        0 < score.den(),
{
    let a = matching::chars_of(lhs);
    let b = matching::chars_of(rhs);
    let jaro = jaro_core(&a, &b);
    let bound_isize = prefix_length.to_isize();
    let bound: usize = bound_isize as usize;
    let prefix = matching::common_prefix(&a, &b, bound);
    proof {
        laws::lemma_winkler_range(lhs@, rhs@, prefix_length.bound());
    }
    WinklerScore { jaro, prefix }
}

} // verus!
