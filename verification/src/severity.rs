//! How a reading compares with the configured threshold.
//!
//! A reading is a whole number of millidegrees Celsius; a threshold `T` need
//! not be. The three bounds are `T`, `1.2 * T` and `1.5 * T`, and a whole
//! number `t` lies above them exactly when `6 * t`, `5 * t` and `4 * t` lie
//! above `6 * T`, which they do exactly when they lie above the whole part
//! of `6 * T`. So a threshold is kept as that whole part: its sixths of a
//! millidegree, rounded down. Nothing is lost by it, whatever `T` is.

use vstd::arithmetic::div_mod::lemma_fundamental_div_mod;
use vstd::prelude::*;

verus! {

/// A threshold: the largest whole number of sixths of a millidegree Celsius
/// that is not above it.
#[derive(Clone, Copy, Debug, PartialEq, Eq, Structural)]
pub struct Threshold {
    pub sixths: i128,
}

impl Threshold {
    /// The threshold of a whole number of millidegrees.
    pub fn from_millidegrees(millidegrees: i64) -> (t: Threshold)
        ensures
            t.sixths == 6 * millidegrees,
    {
        let m: i128 = millidegrees as i128;
        Threshold { sixths: 6 * m }
    }

    /// The threshold of which `sixths` is the whole part, in sixths of a
    /// millidegree.
    pub fn from_sixths(sixths: i128) -> (t: Threshold)
        ensures
            t.sixths == sixths,
    {
        Threshold { sixths }
    }
}

/// How far a reading lies above the threshold, in rising order.
#[derive(Clone, Copy, Debug, PartialEq, Eq, Structural)]
pub enum Severity {
    /// Not above the threshold, or no threshold is set.
    Normal,
    /// Above the threshold, not above 1.2 times the threshold.
    Single,
    /// Above 1.2 times the threshold, not above 1.5 times the threshold.
    Double,
    /// Above 1.5 times the threshold.
    Triple,
}

impl Severity {
    /// The position of a level in the rising order, `Normal` being 0.
    pub open spec fn rank(self) -> nat {
        match self {
            Severity::Normal => 0,
            Severity::Single => 1,
            Severity::Double => 2,
            Severity::Triple => 3,
        }
    }

    /// The marker shown beside a reading: one `!` for each step of the level.
    pub open spec fn marker_text(self) -> Seq<char> {
        Seq::new(self.rank(), |i: int| '!')
    }

    /// The marker shown beside a reading of this level.
    pub fn marker(self) -> (m: &'static str)
        ensures
            m@ == self.marker_text(),
    {
        proof {
            reveal_strlit("");
            reveal_strlit("!");
            reveal_strlit("!!");
            reveal_strlit("!!!");
        }
        let m = match self {
            Severity::Normal => "",
            Severity::Single => "!",
            Severity::Double => "!!",
            Severity::Triple => "!!!",
        };
        m
    }
}

/// The level of a reading of `temp` millidegrees against the threshold.
/// Without a threshold every reading is `Normal`.
pub open spec fn classify(threshold: Option<Threshold>, temp: nat) -> Severity {
    match threshold {
        None => Severity::Normal,
        Some(t) => if 4 * temp > t.sixths {
            Severity::Triple
        } else if 5 * temp > t.sixths {
            Severity::Double
        } else if 6 * temp > t.sixths {
            Severity::Single
        } else {
            Severity::Normal
        },
    }
}

/// Classifies a reading of `temp` millidegrees against the threshold.
pub fn severity(threshold: Option<Threshold>, temp: u64) -> (s: Severity)
    ensures
        s == classify(threshold, temp as nat),
{
    match threshold {
        None => Severity::Normal,
        Some(t) => {
            let x: i128 = temp as i128;
            if 4 * x > t.sixths {
                Severity::Triple
            } else if 5 * x > t.sixths {
                Severity::Double
            } else if 6 * x > t.sixths {
                Severity::Single
            } else {
                Severity::Normal
            }
        },
    }
}

/// A warmer reading is never classified lower than a cooler one, whatever
/// the threshold, and with no threshold every reading is `Normal`.
pub proof fn lemma_severity_monotonic(threshold: Option<Threshold>, cooler: nat, warmer: nat)
    requires
        cooler <= warmer,
    ensures
        classify(threshold, cooler).rank() <= classify(threshold, warmer).rank(),
        classify(None, cooler) == Severity::Normal,
{
}

/// For a positive threshold of `T` whole millidegrees the four levels are
/// the four bands that `T`, `1.2 * T` and `1.5 * T` cut the temperatures
/// into, in rising order, and the marker grows by one `!` from band to band.
pub proof fn lemma_severity_bands(millidegrees: i64, temp: nat)
    requires
        millidegrees > 0,
    ensures
        ({
            let level = classify(Some(Threshold { sixths: (6 * millidegrees) as i128 }), temp);
            &&& temp <= millidegrees <==> level == Severity::Normal
            &&& millidegrees < temp && 5 * temp <= 6 * millidegrees <==> level == Severity::Single
            &&& 6 * millidegrees < 5 * temp && 2 * temp <= 3 * millidegrees <==> level
                == Severity::Double
            &&& 3 * millidegrees < 2 * temp <==> level == Severity::Triple
            &&& level.marker_text().len() == level.rank()
        }),
{
}

/// A threshold of `n / d` millidegrees, whatever fraction that is, is kept
/// as the whole part of `6 * n / d` without loss: a reading is classified
/// as it compares with `n / d`, with 1.2 times and with 1.5 times `n / d`.
pub proof fn lemma_threshold_exact(threshold: Threshold, n: int, d: int, temp: nat)
    requires
        d > 0,
        threshold.sixths == (6 * n) / d,
    ensures
        ({
            let level = classify(Some(threshold), temp);
            &&& level == Severity::Triple <==> 2 * temp * d > 3 * n
            &&& level == Severity::Double <==> 5 * temp * d > 6 * n && 2 * temp * d <= 3 * n
            &&& level == Severity::Single <==> temp * d > n && 5 * temp * d <= 6 * n
            &&& level == Severity::Normal <==> temp * d <= n
        }),
{
    let s = (6 * n) / d;
    let t = temp as int;
    lemma_fundamental_div_mod(6 * n, d);
    lemma_above_floor(4 * t, s, 6 * n, d);
    lemma_above_floor(5 * t, s, 6 * n, d);
    lemma_above_floor(6 * t, s, 6 * n, d);
    assert(4 * temp * d > 6 * n <==> 2 * temp * d > 3 * n) by (nonlinear_arith);
    assert(6 * temp * d > 6 * n <==> temp * d > n) by (nonlinear_arith);
    assert(temp * d > n && d > 0 ==> 5 * temp * d > 5 * n) by (nonlinear_arith);
}

/// A whole number lies above the whole part of `x / d` exactly when its
/// `d`-fold lies above `x`.
proof fn lemma_above_floor(k: int, s: int, x: int, d: int)
    requires
        d > 0,
        x == d * s + x % d,
        0 <= x % d < d,
    ensures
        k > s <==> k * d > x,
{
    assert(k > s ==> k * d >= (s + 1) * d) by (nonlinear_arith)
        requires
            d > 0,
    ;
    assert((s + 1) * d == d * s + d) by (nonlinear_arith);
    assert(k <= s ==> k * d <= s * d) by (nonlinear_arith)
        requires
            d > 0,
    ;
    assert(s * d == d * s) by (nonlinear_arith);
}

} // verus!
