//! Geographic coordinates and great-circle distance.
//!
//! Coordinates are stored in integer microdegrees (one millionth of a
//! degree, about 0.11 m of latitude), so all geometry is exact integer
//! arithmetic. Distances are returned in whole meters, computed by the
//! haversine formula with Earth radius 6371 km, evaluated in fixed-point
//! arithmetic at a scale of one billion (angles in nanoradians, trig
//! values in billionths).
//!
//! Every executable function here returns exactly the value of its spec
//! counterpart, so the distance is a pure function of the two coordinates,
//! symmetric in its arguments, and zero on equal points.

use vstd::prelude::*;
use vstd::arithmetic::div_mod::{lemma_div_is_ordered, lemma_div_multiples_vanish};
use vstd::arithmetic::mul::lemma_mul_inequality;

verus! {

/// Fixed-point scale: trig values are stored in billionths, angles in
/// nanoradians.
pub const SCALE: u128 = 1_000_000_000;

/// Pi in nanoradians, rounded to the nearest unit.
pub const PI_NANO: u128 = 3_141_592_654;

/// Pi / 2 in nanoradians.
pub const HALF_PI_NANO: u128 = 1_570_796_327;

/// sqrt(1/2) in billionths; the switch point of the arcsine evaluation.
pub const SQRT_HALF_NANO: u128 = 707_106_781;

/// Nanoradians per microdegree, times 10^12 (pi / 180 * 1000 * 10^12).
pub const NANORAD_NUM: u128 = 17_453_292_519_943;

/// Denominator for the microdegree-to-nanoradian conversion.
pub const NANORAD_DEN: u128 = 1_000_000_000_000;

/// The square of SCALE: the scale of squared trig values.
pub const SCALE_SQ: u128 = 1_000_000_000_000_000_000;

/// A point on Earth. `latitude` and `longitude` are in microdegrees:
/// `39_904_200` means 39.9042 degrees. Valid latitudes lie in
/// [-90_000_000, 90_000_000] and longitudes in [-180_000_000, 180_000_000].
#[derive(Clone, Copy, Debug, PartialEq, Eq, Structural)]
pub struct Location {
    pub latitude: i64,
    pub longitude: i64,
}

impl Location {
    pub fn new(latitude: i64, longitude: i64) -> (r: Self)
        ensures
            r.latitude == latitude,
            r.longitude == longitude,
    {
        Self { latitude, longitude }
    }
}

/// Absolute value of an integer.
pub open spec fn abs_int(a: int) -> int {
    if a >= 0 {
        a
    } else {
        -a
    }
}

/// Absolute difference of two integers; symmetric in its arguments.
pub open spec fn abs_diff(a: int, b: int) -> int {
    if a >= b {
        a - b
    } else {
        b - a
    }
}

/// Microdegrees to nanoradians, rounded down.
pub open spec fn nanorad(micro: int) -> int {
    micro * NANORAD_NUM / (NANORAD_DEN as int)
}

/// Fixed-point sine for angles in [0, pi/2], by the Taylor polynomial of
/// degree 9, clamped to [0, SCALE].
pub open spec fn sin_poly(x: int) -> int {
    let x2 = x * x / (SCALE as int);
    let t3 = x * x2 / (6 * (SCALE as int));
    let t5 = t3 * x2 / (20 * (SCALE as int));
    let t7 = t5 * x2 / (42 * (SCALE as int));
    let t9 = t7 * x2 / (72 * (SCALE as int));
    let pos = x + t5 + t9;
    let neg = t3 + t7;
    let v = if pos >= neg {
        pos - neg
    } else {
        0
    };
    if v > SCALE {
        SCALE as int
    } else {
        v
    }
}

/// Fixed-point cosine for angles in [0, pi/2], by the Taylor polynomial of
/// degree 10, clamped to [0, SCALE].
pub open spec fn cos_poly(x: int) -> int {
    let x2 = x * x / (SCALE as int);
    let c2 = x2 / 2;
    let c4 = c2 * x2 / (12 * (SCALE as int));
    let c6 = c4 * x2 / (30 * (SCALE as int));
    let c8 = c6 * x2 / (56 * (SCALE as int));
    let c10 = c8 * x2 / (90 * (SCALE as int));
    let pos = SCALE + c4 + c8;
    let neg = c2 + c6 + c10;
    let v = if pos >= neg {
        pos - neg
    } else {
        0
    };
    if v > SCALE {
        SCALE as int
    } else {
        v
    }
}

/// Sine of a half-angle in [0, pi], folded into [0, pi/2] by the identity
/// sin(pi - y) == sin(y); larger inputs are clamped to pi.
pub open spec fn sin_folded(y: int) -> int {
    let y1 = if y > PI_NANO {
        PI_NANO as int
    } else {
        y
    };
    let y2 = if y1 > HALF_PI_NANO {
        PI_NANO - y1
    } else {
        y1
    };
    sin_poly(y2)
}

/// The floor of the square root of a non-negative integer.
pub open spec fn sqrt_floor(v: int) -> int {
    choose|r: int| 0 <= r && #[trigger] (r * r) <= v < (r + 1) * (r + 1)
}

/// One step of the arcsine Taylor series: `term` is the previous term,
/// `acc` the partial sum, `n` the number of terms already added beyond the
/// first. Twelve further terms are added, each clamped to SCALE.
pub open spec fn asin_series(x2: int, term: int, acc: int, n: nat) -> int
    decreases 12 - n,
{
    if n >= 12 {
        acc
    } else {
        let t_raw = term * x2 * ((2 * n + 1) * (2 * n + 1)) / ((2 * n + 2) * (2 * n + 3) * (SCALE as int));
        let t = if t_raw > SCALE {
            SCALE as int
        } else {
            t_raw
        };
        asin_series(x2, t, acc + t, n + 1)
    }
}

/// Fixed-point arcsine for values in [0, sqrt(1/2)] (in billionths),
/// clamped to [0, pi/2].
pub open spec fn asin_poly(x: int) -> int {
    let x2 = x * x / (SCALE as int);
    let acc = asin_series(x2, x, x, 0);
    if acc > HALF_PI_NANO {
        HALF_PI_NANO as int
    } else {
        acc
    }
}

/// Great-circle distance in meters between two coordinates: the haversine
/// formula with Earth radius 6371 km, evaluated in fixed point.
pub open spec fn distance_m_spec(a: Location, b: Location) -> int {
    let dlat_half = nanorad(abs_diff(b.latitude as int, a.latitude as int)) / 2;
    let dlon_half = nanorad(abs_diff(b.longitude as int, a.longitude as int)) / 2;
    let s_lat = sin_folded(dlat_half);
    let s_lon = sin_folded(dlon_half);
    let lat1 = nanorad(abs_int(a.latitude as int));
    let lat2 = nanorad(abs_int(b.latitude as int));
    let c1 = cos_poly(if lat1 > HALF_PI_NANO { HALF_PI_NANO as int } else { lat1 });
    let c2 = cos_poly(if lat2 > HALF_PI_NANO { HALF_PI_NANO as int } else { lat2 });
    let h_raw = s_lat * s_lat + (c1 * c2 / (SCALE as int)) * (s_lon * s_lon) / (SCALE as int);
    let h = if h_raw > SCALE_SQ {
        SCALE_SQ as int
    } else {
        h_raw
    };
    let root_h = sqrt_floor(h);
    let root_ch = sqrt_floor(SCALE_SQ - h);
    let half_c = if root_h <= SQRT_HALF_NANO {
        asin_poly(root_h)
    } else {
        HALF_PI_NANO - asin_poly(root_ch)
    };
    2 * half_c * 6_371 / 1_000_000
}

/// Multiplies two bounded values and divides by a positive scale, all in
/// one exact integer expression.
fn mul_div(a: u128, b: u128, d: u128) -> (r: u128)
    requires
        a < 0x1_0000_0000_0000_0000,
        b < 0x1_0000_0000_0000_0000,
        1 <= d,
    ensures
        r == a * b / (d as int),
        b <= d ==> r <= a,
        a <= d ==> r <= b,
{
    proof {
        assert(a * b < 0x1_0000_0000_0000_0000 * 0x1_0000_0000_0000_0000) by (nonlinear_arith)
            requires
                0 <= a < 0x1_0000_0000_0000_0000,
                0 <= b < 0x1_0000_0000_0000_0000,
        ;
        if b <= d {
            lemma_mul_inequality(b as int, d as int, a as int);
            lemma_div_is_ordered(a * b, a * d, d as int);
            lemma_div_multiples_vanish(a as int, d as int);
        }
        if a <= d {
            lemma_mul_inequality(a as int, d as int, b as int);
            assert(a * b == b * a) by (nonlinear_arith);
            assert(b * d == d * b) by (nonlinear_arith);
            lemma_div_is_ordered(b * a, b * d, d as int);
            lemma_div_multiples_vanish(b as int, d as int);
        }
    }
    a * b / d
}

/// Microdegrees to nanoradians (executable form).
fn to_nanorad(micro: u128) -> (r: u128)
    requires
        micro < 0x1_0000_0000_0000_0000,
    ensures
        r == nanorad(micro as int),
{
    mul_div(micro, NANORAD_NUM, NANORAD_DEN)
}

/// Executable fixed-point sine on [0, pi/2].
fn sin_fixed(x: u128) -> (r: u128)
    requires
        x <= HALF_PI_NANO,
    ensures
        r == sin_poly(x as int),
        r <= SCALE,
{
    let x2: u128 = mul_div(x, x, SCALE);
    proof {
        assert(x * x <= HALF_PI_NANO * HALF_PI_NANO) by (nonlinear_arith)
            requires
                0 <= x <= HALF_PI_NANO,
        ;
        lemma_div_is_ordered((x * x) as int, (HALF_PI_NANO * HALF_PI_NANO) as int, SCALE as int);
    }
    let t3: u128 = mul_div(x, x2, 6 * SCALE);
    let t5: u128 = mul_div(t3, x2, 20 * SCALE);
    let t7: u128 = mul_div(t5, x2, 42 * SCALE);
    let t9: u128 = mul_div(t7, x2, 72 * SCALE);
    let pos: u128 = x + t5 + t9;
    let neg: u128 = t3 + t7;
    let v: u128 = if pos >= neg {
        pos - neg
    } else {
        0
    };
    if v > SCALE {
        SCALE
    } else {
        v
    }
}

/// Executable fixed-point cosine on [0, pi/2].
fn cos_fixed(x: u128) -> (r: u128)
    requires
        x <= HALF_PI_NANO,
    ensures
        r == cos_poly(x as int),
        r <= SCALE,
{
    let x2: u128 = mul_div(x, x, SCALE);
    proof {
        assert(x * x <= HALF_PI_NANO * HALF_PI_NANO) by (nonlinear_arith)
            requires
                0 <= x <= HALF_PI_NANO,
        ;
        lemma_div_is_ordered((x * x) as int, (HALF_PI_NANO * HALF_PI_NANO) as int, SCALE as int);
    }
    let c2: u128 = x2 / 2;
    let c4: u128 = mul_div(c2, x2, 12 * SCALE);
    let c6: u128 = mul_div(c4, x2, 30 * SCALE);
    let c8: u128 = mul_div(c6, x2, 56 * SCALE);
    let c10: u128 = mul_div(c8, x2, 90 * SCALE);
    let pos: u128 = SCALE + c4 + c8;
    let neg: u128 = c2 + c6 + c10;
    let v: u128 = if pos >= neg {
        pos - neg
    } else {
        0
    };
    if v > SCALE {
        SCALE
    } else {
        v
    }
}

/// Executable sine of a half-angle, folded into [0, pi/2].
fn sin_half(y: u128) -> (r: u128)
    ensures
        r == sin_folded(y as int),
        r <= SCALE,
{
    let y1: u128 = if y > PI_NANO {
        PI_NANO
    } else {
        y
    };
    let y2: u128 = if y1 > HALF_PI_NANO {
        PI_NANO - y1
    } else {
        y1
    };
    sin_fixed(y2)
}

/// Floor of the square root, by binary search.
fn isqrt(v: u128) -> (r: u128)
    requires
        v <= 1_000_000_000_000_000_000,
    ensures
        r * r <= v,
        v < (r + 1) * (r + 1),
        r <= SCALE,
        r == sqrt_floor(v as int),
{
    let mut lo: u128 = 0;
    let mut hi: u128 = 1_000_000_001;
    proof {
        assert(1_000_000_000_000_000_000 < 1_000_000_001u128 * 1_000_000_001);
    }
    while hi - lo > 1
        invariant
            lo < hi <= 1_000_000_001,
            lo * lo <= v,
            v < hi * hi,
        decreases hi - lo,
    {
        let mid: u128 = lo + (hi - lo) / 2;
        proof {
            assert(mid * mid <= 1_000_000_001 * 1_000_000_001) by (nonlinear_arith)
                requires
                    0 <= mid <= 1_000_000_001,
            ;
        }
        if mid * mid <= v {
            lo = mid;
        } else {
            hi = mid;
        }
    }
    proof {
        lemma_sqrt_floor_unique(v as int, lo as int);
    }
    lo
}

/// The floor of the square root is the unique integer whose square brackets
/// the argument.
pub proof fn lemma_sqrt_floor_unique(v: int, r: int)
    requires
        0 <= r,
        r * r <= v,
        v < (r + 1) * (r + 1),
    ensures
        sqrt_floor(v) == r,
{
    assert(exists|s: int| 0 <= s && #[trigger] (s * s) <= v < (s + 1) * (s + 1)) by {
        assert(0 <= r && r * r <= v < (r + 1) * (r + 1));
    }
    let s = choose|s: int| 0 <= s && #[trigger] (s * s) <= v < (s + 1) * (s + 1);
    assert(0 <= s && s * s <= v < (s + 1) * (s + 1));
    if s < r {
        assert((s + 1) * (s + 1) <= r * r) by (nonlinear_arith)
            requires
                0 <= s,
                s < r,
        ;
    }
    if r < s {
        assert((r + 1) * (r + 1) <= s * s) by (nonlinear_arith)
            requires
                0 <= r,
                r < s,
        ;
    }
}

/// Executable fixed-point arcsine on [0, SCALE].
fn asin_fixed(x: u128) -> (r: u128)
    requires
        x <= SCALE,
    ensures
        r == asin_poly(x as int),
        r <= HALF_PI_NANO,
{
    let x2: u128 = mul_div(x, x, SCALE);
    let mut term: u128 = x;
    let mut acc: u128 = x;
    let mut n: usize = 0;
    while n < 12
        invariant
            n <= 12,
            x2 <= SCALE,
            term <= SCALE,
            acc <= SCALE + n * SCALE,
            asin_series(x2 as int, term as int, acc as int, n as nat) == asin_series(
                x2 as int,
                x as int,
                x as int,
                0,
            ),
        decreases 12 - n,
    {
        let odd: u128 = 2 * (n as u128) + 1;
        proof {
            assert(odd * odd <= 23 * 23) by (nonlinear_arith)
                requires
                    0 <= odd <= 23,
            ;
            assert((odd + 1) * (odd + 2) <= 24 * 25) by (nonlinear_arith)
                requires
                    0 <= odd <= 23,
            ;
            assert((odd + 1) * (odd + 2) >= 1) by (nonlinear_arith)
                requires
                    0 <= odd,
            ;
        }
        proof {
            assert(term * x2 <= SCALE * SCALE) by (nonlinear_arith)
                requires
                    0 <= term <= SCALE,
                    0 <= x2 <= SCALE,
            ;
        }
        let num1: u128 = mul_div(term, x2, 1);
        let sq: u128 = odd * odd;
        let num: u128 = mul_div(num1, sq, (odd + 1) * (odd + 2) * SCALE);
        let t: u128 = if num > SCALE {
            SCALE
        } else {
            num
        };
        proof {
            assert(num == term * x2 * ((2 * (n as int) + 1) * (2 * (n as int) + 1)) / ((2 * (
            n as int) + 2) * (2 * (n as int) + 3) * (SCALE as int)));
            assert(asin_series(x2 as int, term as int, acc as int, n as nat) == asin_series(
                x2 as int,
                t as int,
                acc + t,
                (n + 1) as nat,
            ));
        }
        term = t;
        acc = acc + t;
        n = n + 1;
    }
    if acc > HALF_PI_NANO {
        HALF_PI_NANO
    } else {
        acc
    }
}

/// Great-circle distance in meters between `a` and `b` (haversine formula,
/// Earth radius 6371 km). Exactly equal to its specification
/// `distance_m_spec`, hence symmetric and zero on equal points.
#[verifier::rlimit(60)]
#[verifier::spinoff_prover]
pub fn distance_m(a: Location, b: Location) -> (r: u64)
    ensures
        r == distance_m_spec(a, b),
        r <= 20_015_087,
{
    let lat_a: i128 = a.latitude as i128;
    let lat_b: i128 = b.latitude as i128;
    let lon_a: i128 = a.longitude as i128;
    let lon_b: i128 = b.longitude as i128;
    let dlat: u128 = if lat_b >= lat_a {
        (lat_b - lat_a) as u128
    } else {
        (lat_a - lat_b) as u128
    };
    let dlon: u128 = if lon_b >= lon_a {
        (lon_b - lon_a) as u128
    } else {
        (lon_a - lon_b) as u128
    };
    let abs_lat_a: u128 = if lat_a >= 0 {
        lat_a as u128
    } else {
        (-lat_a) as u128
    };
    let abs_lat_b: u128 = if lat_b >= 0 {
        lat_b as u128
    } else {
        (-lat_b) as u128
    };
    let dlat_half: u128 = to_nanorad(dlat) / 2;
    let dlon_half: u128 = to_nanorad(dlon) / 2;
    let s_lat: u128 = sin_half(dlat_half);
    let s_lon: u128 = sin_half(dlon_half);
    let lat1_rad: u128 = to_nanorad(abs_lat_a);
    let lat2_rad: u128 = to_nanorad(abs_lat_b);
    let c1: u128 = cos_fixed(
        if lat1_rad > HALF_PI_NANO {
            HALF_PI_NANO
        } else {
            lat1_rad
        },
    );
    let c2: u128 = cos_fixed(
        if lat2_rad > HALF_PI_NANO {
            HALF_PI_NANO
        } else {
            lat2_rad
        },
    );
    proof {
        assert(s_lat * s_lat <= SCALE_SQ) by (nonlinear_arith)
            requires
                0 <= s_lat <= SCALE,
                SCALE * SCALE == SCALE_SQ,
        ;
        assert(s_lon * s_lon <= SCALE_SQ) by (nonlinear_arith)
            requires
                0 <= s_lon <= SCALE,
                SCALE * SCALE == SCALE_SQ,
        ;
    }
    let hs_lat: u128 = mul_div(s_lat, s_lat, 1);
    let s_lon_sq: u128 = mul_div(s_lon, s_lon, 1);
    let cc: u128 = mul_div(c1, c2, SCALE);
    let cross: u128 = mul_div(cc, s_lon_sq, SCALE);
    let h_raw: u128 = hs_lat + cross;
    let h: u128 = if h_raw > SCALE_SQ {
        SCALE_SQ
    } else {
        h_raw
    };
    let root_h: u128 = isqrt(h);
    let root_ch: u128 = isqrt(SCALE_SQ - h);
    let half_c: u128 = if root_h <= SQRT_HALF_NANO {
        asin_fixed(root_h)
    } else {
        HALF_PI_NANO - asin_fixed(root_ch)
    };
    let c: u128 = 2 * half_c;
    let meters: u128 = c * 6_371 / 1_000_000;
    proof {
        lemma_div_is_ordered((c * 6_371) as int, (2 * HALF_PI_NANO * 6_371) as int, 1_000_000);
    }
    meters as u64
}

/// The distance between two coordinates does not depend on the order of
/// its arguments.
pub proof fn lemma_distance_symmetric(a: Location, b: Location)
    ensures
        distance_m_spec(a, b) == distance_m_spec(b, a),
{
    assert(abs_diff(b.latitude as int, a.latitude as int) == abs_diff(
        a.latitude as int,
        b.latitude as int,
    ));
    assert(abs_diff(b.longitude as int, a.longitude as int) == abs_diff(
        a.longitude as int,
        b.longitude as int,
    ));
}

/// On a zero argument every term of the arcsine series is zero, so the
/// sum stays zero.
proof fn lemma_asin_series_zero(n: nat)
    ensures
        asin_series(0, 0, 0, n) == 0,
    decreases 12 - n,
{
    if n >= 12 {
        assert(asin_series(0, 0, 0, n) == 0);
    } else {
        assert((2 * n + 2) * (2 * n + 3) * (SCALE as int) >= 1) by (nonlinear_arith)
            requires
                n >= 0,
                (SCALE as int) >= 1,
        ;
        assert(0int * 0int * ((2 * n + 1) * (2 * n + 1)) == 0);
        lemma_asin_series_zero(n + 1);
        assert(asin_series(0, 0, 0, n) == asin_series(0, 0, 0, n + 1));
    }
}

/// The distance from a point to itself is zero.
pub proof fn lemma_distance_zero(a: Location)
    ensures
        distance_m_spec(a, a) == 0,
{
    lemma_asin_series_zero(0);
    lemma_sqrt_floor_unique(0, 0);
    assert(nanorad(0) == 0);
    assert(sin_poly(0) == 0);
    assert(sin_folded(0) == 0);
    assert(asin_poly(0) == 0);
    assert(abs_diff(a.latitude as int, a.latitude as int) == 0);
    assert(abs_diff(a.longitude as int, a.longitude as int) == 0);
    let s_lat = sin_folded(nanorad(0) / 2);
    assert(s_lat == 0);
    let lat1 = nanorad(abs_int(a.latitude as int));
    let c1 = cos_poly(if lat1 > HALF_PI_NANO { HALF_PI_NANO as int } else { lat1 });
    let h_raw = s_lat * s_lat + (c1 * c1 / (SCALE as int)) * (s_lat * s_lat) / (SCALE as int);
    assert(h_raw == 0);
    assert(sqrt_floor(0) == 0);
    assert(2 * asin_poly(0) * 6_371 / 1_000_000 == 0);
}

} // verus!
