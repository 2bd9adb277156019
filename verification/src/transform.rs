//! The transform-matrix algebra engine: parses `transform` attribute
//! function lists into affine matrices, composes them left to right, and
//! canonicalizes the product to its shortest textual form.
//!
//! Matrix entries are decimal fixed-point values scaled by `10^6`;
//! rotation and skew angles go through truncated series approximations of
//! sine, cosine and tangent at the same scale. Entries clamp to `10^15`
//! in magnitude.

use vstd::prelude::*;
use crate::numfmt::{fmt_scaled, format_scaled, parse_scaled, pow10, scan_number};
use crate::path_data::{in_cap, is_alpha, lemma_scan_number_props};

verus! {

/// A 2x3 affine matrix `[a c e; b d f]`, entries scaled by `10^6`.
#[derive(Clone, Copy)]
pub struct Matrix {
    pub a: i64,
    pub b: i64,
    pub c: i64,
    pub d: i64,
    pub e: i64,
    pub f: i64,
}

/// The unit of the fixed-point matrix scale (`10^6`).
pub open spec fn unit() -> int {
    1_000_000
}

/// The identity matrix.
pub open spec fn identity_spec() -> (int, int, int, int, int, int) {
    (1_000_000, 0, 0, 1_000_000, 0, 0)
}

impl Matrix {
    /// The entries as integers, in `(a, b, c, d, e, f)` order.
    pub open spec fn view(self) -> (int, int, int, int, int, int) {
        (self.a as int, self.b as int, self.c as int, self.d as int, self.e as int, self.f as int)
    }

    /// All entries within the clamp bound.
    pub open spec fn wf(self) -> bool {
        in_cap(self.a as int) && in_cap(self.b as int) && in_cap(self.c as int) && in_cap(
            self.d as int,
        ) && in_cap(self.e as int) && in_cap(self.f as int)
    }

    /// The identity matrix, executable.
    pub fn identity() -> (r: Matrix)
        ensures
            r.view() == identity_spec(),
            r.wf(),
    {
        Matrix { a: 1_000_000, b: 0, c: 0, d: 1_000_000, e: 0, f: 0 }
    }
}

/// Signed division rounding half away from zero (for positive divisors).
pub open spec fn rdiv(v: int, d: int) -> int {
    if v >= 0 {
        (v + d / 2) / d
    } else {
        -((-v + d / 2) / d)
    }
}

/// One product entry: the fixed-point product of two entries, rounded
/// back to the matrix scale and clamped.
pub open spec fn mul_entry(x: int, y: int, z: int, w: int, add: int) -> int {
    clamp_cap_i(rdiv(x * y + z * w, unit()) + add)
}

/// Clamps a signed value into the coordinate range.
pub open spec fn clamp_cap_i(v: int) -> int {
    if v > 1_000_000_000_000_000 {
        1_000_000_000_000_000
    } else if v < -1_000_000_000_000_000 {
        -1_000_000_000_000_000
    } else {
        v
    }
}

/// The matrix product `s * o` (postmultiplication, as transform lists
/// compose left to right).
pub open spec fn mat_mul_spec(s: (int, int, int, int, int, int), o: (int, int, int, int, int, int))
    -> (int, int, int, int, int, int) {
    (
        mul_entry(s.0, o.0, s.2, o.1, 0),
        mul_entry(s.1, o.0, s.3, o.1, 0),
        mul_entry(s.0, o.2, s.2, o.3, 0),
        mul_entry(s.1, o.2, s.3, o.3, 0),
        clamp_cap_i(mul_entry(s.0, o.4, s.2, o.5, 0) + s.4),
        clamp_cap_i(mul_entry(s.1, o.4, s.3, o.5, 0) + s.5),
    )
}

/// Rounded division, executable.
pub fn rdiv_x(v: i128, d: i128) -> (r: i128)
    requires
        d >= 1,
        -2_100_000_000_000_000_000_000_000_000_000 <= v <= 2_100_000_000_000_000_000_000_000_000_000,
        d <= 1_000_000_000_000,
    ensures
        r == rdiv(v as int, d as int),
        v >= 0 ==> 0 <= r <= v,
        v < 0 ==> v <= r <= 0,
{
    proof {
        if v >= 0 {
            assert((v as int + (d as int) / 2) / (d as int) <= v as int) by (nonlinear_arith)
                requires
                    d as int >= 1 && v as int >= 0,
            ;
        } else {
            assert((-(v as int) + (d as int) / 2) / (d as int) <= -(v as int)) by (nonlinear_arith)
                requires
                    d as int >= 1 && (v as int) < 0,
            ;
        }
    }
    if v >= 0 {
        (v + d / 2) / d
    } else {
        -((-v + d / 2) / d)
    }
}

/// One product entry, executable.
pub fn mul_entry_x(x: i64, y: i64, z: i64, w: i64, add: i64) -> (r: i64)
    requires
        in_cap(x as int),
        in_cap(y as int),
        in_cap(z as int),
        in_cap(w as int),
        in_cap(add as int),
    ensures
        r == mul_entry(x as int, y as int, z as int, w as int, add as int),
        in_cap(r as int),
{
    proof {
        assert((x as int) * (y as int) <= 1_000_000_000_000_000_000_000_000_000_000 && (x as int) * (
        y as int) >= -1_000_000_000_000_000_000_000_000_000_000) by (nonlinear_arith)
            requires
                in_cap(x as int) && in_cap(y as int),
        ;
        assert((z as int) * (w as int) <= 1_000_000_000_000_000_000_000_000_000_000 && (z as int) * (
        w as int) >= -1_000_000_000_000_000_000_000_000_000_000) by (nonlinear_arith)
            requires
                in_cap(z as int) && in_cap(w as int),
        ;
    }
    let p: i128 = (x as i128) * (y as i128) + (z as i128) * (w as i128);
    let q = rdiv_x(p, 1_000_000);
    let q2: i128 = q + (add as i128);
    if q2 > 1_000_000_000_000_000 {
        1_000_000_000_000_000
    } else if q2 < -1_000_000_000_000_000 {
        -1_000_000_000_000_000
    } else {
        q2 as i64
    }
}

impl Matrix {
    /// The matrix product `self * other`, executable.
    pub fn multiply(&self, other: &Matrix) -> (r: Matrix)
        requires
            self.wf(),
            other.wf(),
        ensures
            r.view() == mat_mul_spec(self.view(), other.view()),
            r.wf(),
    {
        let a = mul_entry_x(self.a, other.a, self.c, other.b, 0);
        let b = mul_entry_x(self.b, other.a, self.d, other.b, 0);
        let c = mul_entry_x(self.a, other.c, self.c, other.d, 0);
        let d = mul_entry_x(self.b, other.c, self.d, other.d, 0);
        let e0 = mul_entry_x(self.a, other.e, self.c, other.f, 0);
        let f0 = mul_entry_x(self.b, other.e, self.d, other.f, 0);
        let e1: i128 = (e0 as i128) + (self.e as i128);
        let f1: i128 = (f0 as i128) + (self.f as i128);
        let e = if e1 > 1_000_000_000_000_000 {
            1_000_000_000_000_000
        } else if e1 < -1_000_000_000_000_000 {
            -1_000_000_000_000_000
        } else {
            e1 as i64
        };
        let f = if f1 > 1_000_000_000_000_000 {
            1_000_000_000_000_000
        } else if f1 < -1_000_000_000_000_000 {
            -1_000_000_000_000_000
        } else {
            f1 as i64
        };
        Matrix { a, b, c, d, e, f }
    }
}

// ---------------------------------------------------------------------
// Fixed-point trigonometry (degrees at scale 10^6)
// ---------------------------------------------------------------------
/// The radian measure (scale `10^12`) of `r` degrees (scale `10^6`),
/// for `0 <= r <= 45` degrees.
pub open spec fn rad_of(r: int) -> int {
    r * 3_141_592_653_590 / 180_000_000
}

/// Truncated sine series at radian scale `10^12`, for arguments in
/// `[0, pi/4]`.
pub open spec fn sin_poly(x: int) -> int {
    let t = 1_000_000_000_000;
    let x2 = x * x / t;
    let t3 = x * x2 / t;
    let t5 = t3 * x2 / t;
    let t7 = t5 * x2 / t;
    let t9 = t7 * x2 / t;
    x - t3 / 6 + t5 / 120 - t7 / 5040 + t9 / 362880
}

/// Truncated cosine series at radian scale `10^12`, for arguments in
/// `[0, pi/4]`.
pub open spec fn cos_poly(x: int) -> int {
    let t = 1_000_000_000_000;
    let x2 = x * x / t;
    let x4 = x2 * x2 / t;
    let x6 = x4 * x2 / t;
    let x8 = x6 * x2 / t;
    t - x2 / 2 + x4 / 24 - x6 / 720 + x8 / 40320
}

/// Sine of `r` degrees (scale `10^6`) at radian scale `10^12`, for
/// `0 <= r <= 90` degrees, via the octant reduction.
pub open spec fn sin_ref(r: int) -> int {
    if r <= 45_000_000 {
        sin_poly(rad_of(r))
    } else {
        cos_poly(rad_of(90_000_000 - r))
    }
}

/// Cosine of `r` degrees, as `sin_ref`.
pub open spec fn cos_ref(r: int) -> int {
    if r <= 45_000_000 {
        cos_poly(rad_of(r))
    } else {
        sin_poly(rad_of(90_000_000 - r))
    }
}

/// Sine and cosine of `a` degrees (scale `10^6`), at scale `10^12`,
/// reduced through the quadrants; the result may be negative.
pub open spec fn sincos_spec(a: int) -> (int, int) {
    let d = if a >= 0 {
        a % 360_000_000
    } else {
        (360_000_000 - ((-a) % 360_000_000)) % 360_000_000
    };
    let q = d / 90_000_000;
    let r = d % 90_000_000;
    let s = sin_ref(r);
    let c = cos_ref(r);
    if q == 0 {
        (s, c)
    } else if q == 1 {
        (c, -s)
    } else if q == 2 {
        (-s, -c)
    } else {
        (-c, s)
    }
}

/// One series step: the fixed-point product `a * b / 10^12` of two
/// non-negative values no larger than the scale unit's square root
/// budget.
fn mulstep(a: i64, b: i64) -> (r: i64)
    requires
        0 <= a <= 1_000_000_000_000,
        0 <= b <= 1_000_000_000_000,
    ensures
        r == (a as int) * (b as int) / 1_000_000_000_000,
        0 <= r <= a,
        r <= b,
{
    proof {
        assert(0 <= (a as int) * (b as int) <= 1_000_000_000_000_000_000_000_000 && (a as int) * (
        b as int) / 1_000_000_000_000 <= a as int && (a as int) * (b as int) / 1_000_000_000_000
            <= b as int && (a as int) * (b as int) / 1_000_000_000_000 >= 0) by (nonlinear_arith)
            requires
                0 <= a as int <= 1_000_000_000_000 && 0 <= b as int <= 1_000_000_000_000,
        ;
    }
    let r: i128 = (a as i128) * (b as i128) / 1_000_000_000_000;
    r as i64
}

/// Executable sine series: exactly `sin_poly`.
pub fn sin_poly_x(x: i64) -> (r: i64)
    requires
        0 <= x <= 785_398_163_398,
    ensures
        r == sin_poly(x as int),
        -3_000_000_000_000 <= r <= 3_000_000_000_000,
{
    let x2 = mulstep(x, x);
    let t3 = mulstep(x, x2);
    let t5 = mulstep(t3, x2);
    let t7 = mulstep(t5, x2);
    let t9 = mulstep(t7, x2);
    let r: i64 = x - t3 / 6 + t5 / 120 - t7 / 5040 + t9 / 362880;
    proof {
        assert(r == sin_poly(x as int));
    }
    r
}

/// Executable cosine series: exactly `cos_poly`.
pub fn cos_poly_x(x: i64) -> (r: i64)
    requires
        0 <= x <= 785_398_163_398,
    ensures
        r == cos_poly(x as int),
        -3_000_000_000_000 <= r <= 3_000_000_000_000,
{
    let x2 = mulstep(x, x);
    let x4 = mulstep(x2, x2);
    let x6 = mulstep(x4, x2);
    let x8 = mulstep(x6, x2);
    let r: i64 = 1_000_000_000_000 - x2 / 2 + x4 / 24 - x6 / 720 + x8 / 40320;
    proof {
        assert(r == cos_poly(x as int));
    }
    r
}

/// Degrees (scale `10^6`, at most 45) to radians (scale `10^12`),
/// executable.
pub fn rad_of_x(r: i64) -> (x: i64)
    requires
        0 <= r <= 45_000_000,
    ensures
        x == rad_of(r as int),
        0 <= x <= 785_398_163_398,
{
    let w: i128 = (r as i128) * 3_141_592_653_590 / 180_000_000;
    proof {
        assert((r as int) * 3_141_592_653_590 / 180_000_000 <= 785_398_163_398 && (r as int)
            * 3_141_592_653_590 / 180_000_000 >= 0) by (nonlinear_arith)
            requires
                0 <= r as int <= 45_000_000,
        ;
    }
    w as i64
}

/// Sine and cosine of `a` degrees (scale `10^6`) at scale `10^12`:
/// exactly `sincos_spec`.
pub fn sincos_x(a: i64) -> (r: (i64, i64))
    requires
        in_cap(a as int),
    ensures
        r.0 == sincos_spec(a as int).0,
        r.1 == sincos_spec(a as int).1,
        -3_000_000_000_000 <= r.0 <= 3_000_000_000_000,
        -3_000_000_000_000 <= r.1 <= 3_000_000_000_000,
{
    let d: i64 = if a >= 0 {
        a % 360_000_000
    } else {
        (360_000_000 - ((-a) % 360_000_000)) % 360_000_000
    };
    let q = d / 90_000_000;
    let r = d % 90_000_000;
    let (s, c) = if r <= 45_000_000 {
        let x = rad_of_x(r);
        (sin_poly_x(x), cos_poly_x(x))
    } else {
        let x = rad_of_x(90_000_000 - r);
        (cos_poly_x(x), sin_poly_x(x))
    };
    if q == 0 {
        (s, c)
    } else if q == 1 {
        (c, -s)
    } else if q == 2 {
        (-s, -c)
    } else {
        (-c, s)
    }
}

/// Tangent of `a` degrees, at matrix scale `10^6`: the sine/cosine
/// quotient, clamped where the cosine vanishes.
pub open spec fn tan_spec(a: int) -> int {
    let sc = sincos_spec(a);
    if sc.1 == 0 {
        if sc.0 >= 0 {
            1_000_000_000_000_000
        } else {
            -1_000_000_000_000_000
        }
    } else {
        clamp_cap_i(rdiv_signed(sc.0 * 1_000_000, sc.1))
    }
}

/// Signed rounded division by a signed divisor.
pub open spec fn rdiv_signed(v: int, d: int) -> int {
    let av = if v >= 0 {
        v
    } else {
        -v
    };
    let ad = if d >= 0 {
        d
    } else {
        -d
    };
    let m = (av + ad / 2) / ad;
    if (v >= 0) == (d >= 0) {
        m
    } else {
        -m
    }
}

/// Sine at matrix scale `10^6` (rounded from scale `10^12`).
pub open spec fn sin6_spec(a: int) -> int {
    rdiv(sincos_spec(a).0, 1_000_000)
}

/// Cosine at matrix scale `10^6`.
pub open spec fn cos6_spec(a: int) -> int {
    rdiv(sincos_spec(a).1, 1_000_000)
}

/// Sine and cosine at matrix scale, executable.
pub fn sincos6_x(a: i64) -> (r: (i64, i64))
    requires
        in_cap(a as int),
    ensures
        r.0 == sin6_spec(a as int),
        r.1 == cos6_spec(a as int),
        -3_000_001 <= r.0 <= 3_000_001,
        -3_000_001 <= r.1 <= 3_000_001,
{
    let (s, c) = sincos_x(a);
    let s6 = rdiv_x(s as i128, 1_000_000);
    let c6 = rdiv_x(c as i128, 1_000_000);
    proof {
        assert(rdiv(s as int, 1_000_000) <= 3_000_001 && rdiv(s as int, 1_000_000) >= -3_000_001);
        assert(rdiv(c as int, 1_000_000) <= 3_000_001 && rdiv(c as int, 1_000_000) >= -3_000_001);
    }
    (s6 as i64, c6 as i64)
}

/// Tangent at matrix scale, executable: exactly `tan_spec`.
pub fn tan6_x(a: i64) -> (r: i64)
    requires
        in_cap(a as int),
    ensures
        r == tan_spec(a as int),
        in_cap(r as int),
{
    let (s, c) = sincos_x(a);
    if c == 0 {
        if s >= 0 {
            1_000_000_000_000_000
        } else {
            -1_000_000_000_000_000
        }
    } else {
        let v: i128 = (s as i128) * 1_000_000;
        let av: i128 = if v >= 0 {
            v
        } else {
            -v
        };
        let ad: i128 = if c >= 0 {
            c as i128
        } else {
            -(c as i128)
        };
        let m = (av + ad / 2) / ad;
        proof {
            assert((av as int + (ad as int) / 2) / (ad as int) >= 0) by (nonlinear_arith)
                requires
                    av as int >= 0 && ad as int >= 1,
            ;
        }
        let sm: i128 = if (v >= 0) == (c >= 0) {
            m
        } else {
            -m
        };
        let r = if sm > 1_000_000_000_000_000 {
            1_000_000_000_000_000i128
        } else if sm < -1_000_000_000_000_000 {
            -1_000_000_000_000_000i128
        } else {
            sm
        };
        r as i64
    }
}

// ---------------------------------------------------------------------
// Parsing `transform` attribute text
// ---------------------------------------------------------------------
/// The first position at or after `i` holding an ascii letter.
pub open spec fn next_alpha(s: Seq<char>, i: int) -> int
    decreases s.len() - i,
{
    if 0 <= i < s.len() && !is_alpha(s[i]) {
        next_alpha(s, i + 1)
    } else {
        i
    }
}

/// The end of the letter run starting at `i`.
pub open spec fn scan_alpha(s: Seq<char>, i: int) -> int
    decreases s.len() - i,
{
    if 0 <= i < s.len() && is_alpha(s[i]) {
        scan_alpha(s, i + 1)
    } else {
        i
    }
}

/// The position just after the next `(` at or after `i` (or the text's
/// end when there is none).
pub open spec fn skip_to_open(s: Seq<char>, i: int) -> int
    decreases s.len() - i,
{
    if 0 <= i < s.len() {
        if s[i] == '(' {
            i + 1
        } else {
            skip_to_open(s, i + 1)
        }
    } else {
        i
    }
}

/// Does a numeral begin at this character?
pub open spec fn is_num_start(c: char) -> bool {
    crate::numfmt::is_digit(c) || c == '-' || c == '+' || c == '.'
}

/// The first position at or after `i` holding `)` or a numeral start.
pub open spec fn next_arg_pos(s: Seq<char>, i: int) -> int
    decreases s.len() - i,
{
    if 0 <= i < s.len() && !(s[i] == ')' || is_num_start(s[i])) {
        next_arg_pos(s, i + 1)
    } else {
        i
    }
}

/// Bounds for the four scanners above.
pub proof fn lemma_scans(s: Seq<char>, i: int)
    requires
        0 <= i <= s.len(),
    ensures
        i <= next_alpha(s, i) <= s.len(),
        i <= scan_alpha(s, i) <= s.len(),
        i <= skip_to_open(s, i) <= s.len(),
        skip_to_open(s, i) == s.len() || skip_to_open(s, i) >= i + 1,
        i <= next_arg_pos(s, i) <= s.len(),
    decreases s.len() - i,
{
    if i < s.len() {
        lemma_scans(s, i + 1);
    }
}

/// The argument list of one function call: the numerals up to the
/// closing `)`, and the position after it. A malformed numeral start is
/// skipped one character at a time.
pub open spec fn scan_args(s: Seq<char>, i: int, p: nat) -> (Seq<int>, int)
    decreases s.len() - i,
        when 0 <= i <= s.len()
        via scan_args_dec
{
    let j = next_arg_pos(s, i);
    if j >= s.len() {
        (Seq::empty(), j)
    } else if s[j] == ')' {
        (Seq::empty(), j + 1)
    } else {
        let sc = scan_number(s, j, p);
        if !sc.ok {
            scan_args(s, j + 1, p)
        } else {
            let rest = scan_args(s, sc.end, p);
            (seq![sc.val] + rest.0, rest.1)
        }
    }
}

#[via_fn]
proof fn scan_args_dec(s: Seq<char>, i: int, p: nat) {
    lemma_scans(s, i);
    let j = next_arg_pos(s, i);
    if j < s.len() && s[j] != ')' {
        lemma_scan_number_props(s, j, p);
    }
}

/// Argument scanning stays in bounds and clamps every value.
pub proof fn lemma_scan_args(s: Seq<char>, i: int, p: nat)
    requires
        0 <= i <= s.len(),
    ensures
        i <= scan_args(s, i, p).1 <= s.len(),
        forall|q: int|
            0 <= q < scan_args(s, i, p).0.len() ==> in_cap(#[trigger] scan_args(s, i, p).0[q]),
    decreases s.len() - i,
{
    lemma_scans(s, i);
    let j = next_arg_pos(s, i);
    if j < s.len() && s[j] != ')' {
        lemma_scan_number_props(s, j, p);
        let sc = scan_number(s, j, p);
        if !sc.ok {
            lemma_scan_args(s, j + 1, p);
        } else {
            lemma_scan_args(s, sc.end, p);
        }
    }
}

/// A matrix entry tuple, all entries clamped.
pub open spec fn tuple_wf(t: (int, int, int, int, int, int)) -> bool {
    in_cap(t.0) && in_cap(t.1) && in_cap(t.2) && in_cap(t.3) && in_cap(t.4) && in_cap(t.5)
}

/// The matrix of one named call, if the name is recognized: standard
/// definitions of `translate`, `scale`, `rotate` (about an optional
/// centre), `skewX`, `skewY` and `matrix`. Missing optional arguments
/// default; a `matrix` call without exactly six arguments, and any
/// unrecognized name, yields nothing.
pub open spec fn make_fn(name: Seq<char>, args: Seq<int>) -> Option<(int, int, int, int, int, int)> {
    if name == "translate"@ {
        let tx = if args.len() >= 1 {
            args[0]
        } else {
            0
        };
        let ty = if args.len() >= 2 {
            args[1]
        } else {
            0
        };
        Some((1_000_000, 0, 0, 1_000_000, tx, ty))
    } else if name == "scale"@ {
        let sx = if args.len() >= 1 {
            args[0]
        } else {
            1_000_000
        };
        let sy = if args.len() >= 2 {
            args[1]
        } else {
            sx
        };
        Some((sx, 0, 0, sy, 0, 0))
    } else if name == "rotate"@ {
        let ang = if args.len() >= 1 {
            args[0]
        } else {
            0
        };
        let cx = if args.len() >= 2 {
            args[1]
        } else {
            0
        };
        let cy = if args.len() >= 3 {
            args[2]
        } else {
            0
        };
        let rot = (cos6_spec(ang), sin6_spec(ang), -sin6_spec(ang), cos6_spec(ang), 0int, 0int);
        let t1 = (1_000_000int, 0int, 0int, 1_000_000int, cx, cy);
        let t2 = (1_000_000int, 0int, 0int, 1_000_000int, -cx, -cy);
        Some(mat_mul_spec(mat_mul_spec(t1, rot), t2))
    } else if name == "skewX"@ {
        let ang = if args.len() >= 1 {
            args[0]
        } else {
            0
        };
        Some((1_000_000, 0, tan_spec(ang), 1_000_000, 0, 0))
    } else if name == "skewY"@ {
        let ang = if args.len() >= 1 {
            args[0]
        } else {
            0
        };
        Some((1_000_000, tan_spec(ang), 0, 1_000_000, 0, 0))
    } else if name == "matrix"@ {
        if args.len() == 6 {
            Some((args[0], args[1], args[2], args[3], args[4], args[5]))
        } else {
            None
        }
    } else {
        None
    }
}

/// The matrices of all function calls in the text, in source order.
pub open spec fn scan_transforms(s: Seq<char>, i: int, p: nat) -> Seq<(int, int, int, int, int, int)>
    decreases s.len() - i,
        when 0 <= i <= s.len()
        via scan_transforms_dec
{
    let j = next_alpha(s, i);
    if j >= s.len() {
        Seq::empty()
    } else {
        let k = scan_alpha(s, j);
        let l = skip_to_open(s, k);
        if l >= s.len() {
            Seq::empty()
        } else {
            let am = scan_args(s, l, p);
            let rest = scan_transforms(s, am.1, p);
            match make_fn(s.subrange(j, k), am.0) {
                Some(t) => seq![t] + rest,
                None => rest,
            }
        }
    }
}

#[via_fn]
proof fn scan_transforms_dec(s: Seq<char>, i: int, p: nat) {
    lemma_scans(s, i);
    let j = next_alpha(s, i);
    if j < s.len() {
        lemma_scans(s, j);
        let k = scan_alpha(s, j);
        lemma_scans(s, k);
        let l = skip_to_open(s, k);
        if l < s.len() {
            lemma_scan_args(s, l, p);
        }
    }
}

// ---------------------------------------------------------------------
// Executable parsing and canonicalization
// ---------------------------------------------------------------------
/// The first letter position, executable.
fn next_alpha_x(v: &Vec<char>, i: usize) -> (r: usize)
    requires
        i <= v@.len(),
    ensures
        r == next_alpha(v@, i as int),
        i <= r <= v@.len(),
    decreases v@.len() - i,
{
    if i < v.len() {
        let u = v[i] as u32;
        if !((65 <= u && u <= 90) || (97 <= u && u <= 122)) {
            return next_alpha_x(v, i + 1);
        }
    }
    i
}

/// The end of a letter run, executable.
fn scan_alpha_x(v: &Vec<char>, i: usize) -> (r: usize)
    requires
        i <= v@.len(),
    ensures
        r == scan_alpha(v@, i as int),
        i <= r <= v@.len(),
    decreases v@.len() - i,
{
    if i < v.len() {
        let u = v[i] as u32;
        if (65 <= u && u <= 90) || (97 <= u && u <= 122) {
            return scan_alpha_x(v, i + 1);
        }
    }
    i
}

/// The position after the next `(`, executable.
fn skip_to_open_x(v: &Vec<char>, i: usize) -> (r: usize)
    requires
        i <= v@.len(),
    ensures
        r == skip_to_open(v@, i as int),
        i <= r <= v@.len(),
        r == v@.len() || r >= i + 1,
    decreases v@.len() - i,
{
    proof {
        lemma_scans(v@, i as int);
    }
    if i < v.len() {
        if v[i] == '(' {
            i + 1
        } else {
            skip_to_open_x(v, i + 1)
        }
    } else {
        i
    }
}

/// The next argument position, executable.
fn next_arg_pos_x(v: &Vec<char>, i: usize) -> (r: usize)
    requires
        i <= v@.len(),
    ensures
        r == next_arg_pos(v@, i as int),
        i <= r <= v@.len(),
    decreases v@.len() - i,
{
    if i < v.len() {
        let c = v[i];
        let u = c as u32;
        let numstart = (48 <= u && u <= 57) || c == '-' || c == '+' || c == '.';
        if !(c == ')' || numstart) {
            return next_arg_pos_x(v, i + 1);
        }
    }
    i
}

/// Reads one call's arguments, executable: exactly `scan_args`.
fn scan_args_x(v: &Vec<char>, i: usize, out: &mut Vec<i64>) -> (r: usize)
    requires
        i <= v@.len(),
    ensures
        r == scan_args(v@, i as int, 6).1,
        i <= r <= v@.len(),
        final(out)@.len() == old(out)@.len() + scan_args(v@, i as int, 6).0.len(),
        forall|q: int|
            0 <= q < final(out)@.len() ==> (#[trigger] final(out)@[q]) as int == (old(out)@
                + scan_args(v@, i as int, 6).0.map_values(|x: int| x as i64))[q],
        forall|q: int|
            old(out)@.len() <= q < final(out)@.len() ==> in_cap((#[trigger] final(out)@[q]) as int),
    decreases v@.len() - i,
{
    proof {
        lemma_scan_args(v@, i as int, 6);
    }
    let j = next_arg_pos_x(v, i);
    if j >= v.len() {
        proof {
            assert(final(out)@ =~= old(out)@ + scan_args(v@, i as int, 6).0.map_values(
                |x: int| x as i64,
            ));
        }
        j
    } else if v[j] == ')' {
        proof {
            assert(final(out)@ =~= old(out)@ + scan_args(v@, i as int, 6).0.map_values(
                |x: int| x as i64,
            ));
        }
        j + 1
    } else {
        proof {
            lemma_scan_number_props(v@, j as int, 6);
        }
        let (ok, val, end) = parse_scaled(v, j, 6);
        if !ok {
            scan_args_x(v, j + 1, out)
        } else {
            out.push(val);
            let ghost mid = out@;
            let r = scan_args_x(v, end, out);
            proof {
                assert(out@ =~= old(out)@ + scan_args(v@, i as int, 6).0.map_values(
                    |x: int| x as i64,
                ));
            }
            r
        }
    }
}

/// Is the character range `[i, j)` of `v` the text of `w`?
fn seg_eq(v: &Vec<char>, i: usize, j: usize, w: &str) -> (r: bool)
    requires
        i <= j <= v@.len(),
    ensures
        r == (v@.subrange(i as int, j as int) == w@),
{
    let n = w.unicode_len();
    if j - i != n {
        proof {
            assert(v@.subrange(i as int, j as int).len() != w@.len());
        }
        return false;
    }
    let mut k: usize = 0;
    while k < n
        invariant
            i <= j <= v@.len(),
            n == w@.len(),
            j - i == n,
            k <= n,
            forall|q: int| 0 <= q < k ==> v@[i + q] == w@[q],
        decreases n - k,
    {
        if v[i + k] != w.get_char(k) {
            proof {
                assert(v@.subrange(i as int, j as int)[k as int] != w@[k as int]);
            }
            return false;
        }
        k = k + 1;
    }
    proof {
        assert(v@.subrange(i as int, j as int) =~= w@);
    }
    true
}

/// The matrices of a vector of matrices.
pub open spec fn mats_view(ms: Seq<Matrix>) -> Seq<(int, int, int, int, int, int)> {
    Seq::new(ms.len(), |k: int| ms[k].view())
}

/// Builds the matrix of one named call, executable: exactly `make_fn`.
fn make_fn_x(v: &Vec<char>, i: usize, j: usize, args: &Vec<i64>) -> (r: Option<Matrix>)
    requires
        i <= j <= v@.len(),
        forall|q: int| 0 <= q < args@.len() ==> in_cap((#[trigger] args@[q]) as int),
    ensures
        match r {
            Some(m) => make_fn(v@.subrange(i as int, j as int), crate::path_data::vals_int(args@))
                == Some(m.view()) && m.wf(),
            None => make_fn(v@.subrange(i as int, j as int), crate::path_data::vals_int(args@))
                is None,
        },
{
    let ghost vals = crate::path_data::vals_int(args@);
    if seg_eq(v, i, j, "translate") {
        let tx = if args.len() >= 1 {
            args[0]
        } else {
            0
        };
        let ty = if args.len() >= 2 {
            args[1]
        } else {
            0
        };
        Some(Matrix { a: 1_000_000, b: 0, c: 0, d: 1_000_000, e: tx, f: ty })
    } else if seg_eq(v, i, j, "scale") {
        let sx = if args.len() >= 1 {
            args[0]
        } else {
            1_000_000
        };
        let sy = if args.len() >= 2 {
            args[1]
        } else {
            sx
        };
        Some(Matrix { a: sx, b: 0, c: 0, d: sy, e: 0, f: 0 })
    } else if seg_eq(v, i, j, "rotate") {
        let ang = if args.len() >= 1 {
            args[0]
        } else {
            0
        };
        let cx = if args.len() >= 2 {
            args[1]
        } else {
            0
        };
        let cy = if args.len() >= 3 {
            args[2]
        } else {
            0
        };
        let (s6, c6) = sincos6_x(ang);
        let rot = Matrix { a: c6, b: s6, c: -s6, d: c6, e: 0, f: 0 };
        let t1 = Matrix { a: 1_000_000, b: 0, c: 0, d: 1_000_000, e: cx, f: cy };
        let t2 = Matrix { a: 1_000_000, b: 0, c: 0, d: 1_000_000, e: -cx, f: -cy };
        let m = t1.multiply(&rot).multiply(&t2);
        Some(m)
    } else if seg_eq(v, i, j, "skewX") {
        let ang = if args.len() >= 1 {
            args[0]
        } else {
            0
        };
        let t = tan6_x(ang);
        Some(Matrix { a: 1_000_000, b: 0, c: t, d: 1_000_000, e: 0, f: 0 })
    } else if seg_eq(v, i, j, "skewY") {
        let ang = if args.len() >= 1 {
            args[0]
        } else {
            0
        };
        let t = tan6_x(ang);
        Some(Matrix { a: 1_000_000, b: t, c: 0, d: 1_000_000, e: 0, f: 0 })
    } else if seg_eq(v, i, j, "matrix") {
        if args.len() == 6 {
            Some(
                Matrix {
                    a: args[0],
                    b: args[1],
                    c: args[2],
                    d: args[3],
                    e: args[4],
                    f: args[5],
                },
            )
        } else {
            None
        }
    } else {
        None
    }
}

/// Collects the matrices of every call in the text, executable: exactly
/// `scan_transforms`.
fn scan_transforms_x(v: &Vec<char>, i: usize, out: &mut Vec<Matrix>)
    requires
        i <= v@.len(),
    ensures
        mats_view(final(out)@) == mats_view(old(out)@) + scan_transforms(v@, i as int, 6),
        forall|q: int|
            old(out)@.len() <= q < final(out)@.len() ==> (#[trigger] final(out)@[q]).wf(),
    decreases v@.len() - i,
{
    let ghost specms = scan_transforms(v@, i as int, 6);
    let j = next_alpha_x(v, i);
    if j >= v.len() {
        proof {
            assert(mats_view(out@) =~= mats_view(out@) + specms);
        }
        return ;
    }
    let k = scan_alpha_x(v, j);
    let l = skip_to_open_x(v, k);
    if l >= v.len() {
        proof {
            assert(mats_view(out@) =~= mats_view(out@) + specms);
        }
        return ;
    }
    let mut args: Vec<i64> = Vec::new();
    proof {
        lemma_scan_args(v@, l as int, 6);
    }
    let m = scan_args_x(v, l, &mut args);
    proof {
        assert(crate::path_data::vals_int(args@) =~= scan_args(v@, l as int, 6).0);
    }
    let mf = make_fn_x(v, j, k, &args);
    match mf {
        Some(mat) => {
            out.push(mat);
            let ghost mid = out@;
            scan_transforms_x(v, m, out);
            proof {
                assert(mats_view(out@) =~= mats_view(old(out)@) + specms);
                assert forall|q: int|
                    old(out)@.len() <= q < out@.len() implies (#[trigger] out@[q]).wf() by {
                    if q < mid.len() {
                        assert(mats_view(out@)[q] == mats_view(mid)[q]);
                        assert(out@[q].view() == mat.view());
                    }
                }
            }
        },
        None => {
            scan_transforms_x(v, m, out);
            proof {
                assert(mats_view(out@) =~= mats_view(old(out)@) + specms);
            }
        },
    }
}

/// The product of the matrices from `k` on, starting from `acc`.
pub open spec fn fold_mats(
    ms: Seq<(int, int, int, int, int, int)>,
    k: int,
    acc: (int, int, int, int, int, int),
) -> (int, int, int, int, int, int)
    decreases ms.len() - k,
{
    if k < 0 || k >= ms.len() {
        acc
    } else {
        fold_mats(ms, k + 1, mat_mul_spec(acc, ms[k]))
    }
}

/// One output number: the entry brought to the output precision and
/// rendered.
pub open spec fn outnum(v: int, fp: nat) -> Seq<char> {
    fmt_scaled(rdiv(v, pow10((6 - fp) as nat) as int), fp)
}

/// The canonical text of a combined matrix: nothing for the identity,
/// else the shortest of the translate, scale and general matrix forms.
pub open spec fn out_text(m: (int, int, int, int, int, int), fp: nat) -> Seq<char> {
    if m == identity_spec() {
        Seq::<char>::empty()
    } else if m.0 == 1_000_000 && m.3 == 1_000_000 && m.1 == 0 && m.2 == 0 {
        "translate("@ + outnum(m.4, fp) + " "@ + outnum(m.5, fp) + ")"@
    } else if m.1 == 0 && m.2 == 0 && m.4 == 0 && m.5 == 0 {
        if m.0 == m.3 {
            "scale("@ + outnum(m.0, fp) + ")"@
        } else {
            "scale("@ + outnum(m.0, fp) + " "@ + outnum(m.3, fp) + ")"@
        }
    } else {
        "matrix("@ + outnum(m.0, fp) + " "@ + outnum(m.1, fp) + " "@ + outnum(m.2, fp) + " "@
            + outnum(m.3, fp) + " "@ + outnum(m.4, fp) + " "@ + outnum(m.5, fp) + ")"@
    }
}

/// The canonical text of a whole `transform` attribute: parse, compose
/// left to right, canonicalize. Empty input text (no calls) and the
/// identity both yield the empty text, which drops the attribute.
pub open spec fn transforms_out(s: Seq<char>, fp: nat) -> Seq<char> {
    let ms = scan_transforms(s, 0, 6);
    if ms.len() == 0 {
        Seq::<char>::empty()
    } else {
        out_text(fold_mats(ms, 0, identity_spec()), fp)
    }
}

/// One output number, executable.
fn outnum_x(v: i64, fp: u32, out: &mut Vec<char>)
    requires
        in_cap(v as int),
        fp <= 6,
    ensures
        final(out)@ == old(out)@ + outnum(v as int, fp as nat),
{
    proof {
        crate::numfmt::lemma_pow10_bounds();
        crate::numfmt::lemma_pow10_mono((6 - fp) as nat, 9);
        crate::numfmt::lemma_pow10_pos((6 - fp) as nat);
    }
    let q = crate::numfmt::pow10_u64(6 - fp);
    let w = rdiv_x(v as i128, q as i128);
    let mut t = format_scaled(w as i64, fp);
    let ghost tv = t@;
    out.append(&mut t);
    proof {
        assert(out@ =~= old(out)@ + outnum(v as int, fp as nat));
    }
}

/// Canonicalizes a `transform` attribute's text: exactly
/// `transforms_out`.
pub fn optimize_transform_chars(v: &Vec<char>, fp: u32) -> (r: Vec<char>)
    requires
        fp <= 6,
    ensures
        r@ == transforms_out(v@, fp as nat),
{
    let mut ms: Vec<Matrix> = Vec::new();
    scan_transforms_x(v, 0, &mut ms);
    proof {
        assert(mats_view(ms@) =~= scan_transforms(v@, 0, 6));
    }
    if ms.len() == 0 {
        let r: Vec<char> = Vec::new();
        proof {
            assert(r@ =~= transforms_out(v@, fp as nat));
        }
        return r;
    }
    let ghost msv = mats_view(ms@);
    let mut acc = Matrix::identity();
    let mut k: usize = 0;
    while k < ms.len()
        invariant
            k <= ms@.len(),
            msv == mats_view(ms@),
            msv.len() == ms@.len(),
            forall|q: int| 0 <= q < ms@.len() ==> (#[trigger] ms@[q]).wf(),
            acc.wf(),
            fold_mats(msv, k as int, acc.view()) == fold_mats(msv, 0, identity_spec()),
        decreases ms@.len() - k,
    {
        acc = acc.multiply(&ms[k]);
        k = k + 1;
    }
    let ghost m = fold_mats(msv, 0, identity_spec());
    proof {
        assert(acc.view() == m);
    }
    let mut out: Vec<char> = Vec::new();
    let is_ident = acc.a == 1_000_000 && acc.b == 0 && acc.c == 0 && acc.d == 1_000_000 && acc.e
        == 0 && acc.f == 0;
    if is_ident {
        proof {
            assert(m == identity_spec());
            assert(out@ =~= transforms_out(v@, fp as nat));
        }
        return out;
    }
    proof {
        assert(m != identity_spec());
    }
    if acc.a == 1_000_000 && acc.d == 1_000_000 && acc.b == 0 && acc.c == 0 {
        crate::strutil::push_str_chars(&mut out, "translate(");
        outnum_x(acc.e, fp, &mut out);
        crate::strutil::push_str_chars(&mut out, " ");
        outnum_x(acc.f, fp, &mut out);
        crate::strutil::push_str_chars(&mut out, ")");
        proof {
            assert(out@ =~= transforms_out(v@, fp as nat));
        }
        out
    } else if acc.b == 0 && acc.c == 0 && acc.e == 0 && acc.f == 0 {
        crate::strutil::push_str_chars(&mut out, "scale(");
        outnum_x(acc.a, fp, &mut out);
        if acc.a != acc.d {
            crate::strutil::push_str_chars(&mut out, " ");
            outnum_x(acc.d, fp, &mut out);
        }
        crate::strutil::push_str_chars(&mut out, ")");
        proof {
            assert(out@ =~= transforms_out(v@, fp as nat));
        }
        out
    } else {
        crate::strutil::push_str_chars(&mut out, "matrix(");
        outnum_x(acc.a, fp, &mut out);
        crate::strutil::push_str_chars(&mut out, " ");
        outnum_x(acc.b, fp, &mut out);
        crate::strutil::push_str_chars(&mut out, " ");
        outnum_x(acc.c, fp, &mut out);
        crate::strutil::push_str_chars(&mut out, " ");
        outnum_x(acc.d, fp, &mut out);
        crate::strutil::push_str_chars(&mut out, " ");
        outnum_x(acc.e, fp, &mut out);
        crate::strutil::push_str_chars(&mut out, " ");
        outnum_x(acc.f, fp, &mut out);
        crate::strutil::push_str_chars(&mut out, ")");
        proof {
            assert(out@ =~= transforms_out(v@, fp as nat));
        }
        out
    }
}

} // verus!
