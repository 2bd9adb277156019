//! The path-data micro-compiler: a cursor lexer over the `d` attribute
//! grammar, a normalized command list with absolute coordinates, and a
//! re-encoder that picks the shortest valid textual form per command.
//!
//! Coordinates are decimal fixed-point values scaled by `10^p` (see the
//! numeric codec): relative input coordinates are converted to absolute
//! ones during parsing, so every later decision is exact integer
//! arithmetic. Coordinates clamp to `10^15` in magnitude.

use vstd::prelude::*;
use crate::numfmt::{fmt_scaled, format_scaled, is_digit, parse_scaled, scan_number};

verus! {

/// One normalized path command; every coordinate is absolute.
#[derive(Clone, Copy)]
pub enum PathCmd {
    /// Start a subpath at (x, y).
    Move(i64, i64),
    /// Straight line to (x, y).
    Line(i64, i64),
    /// Horizontal line to x (y unchanged).
    Horiz(i64),
    /// Vertical line to y (x unchanged).
    Vert(i64),
    /// Cubic curve: control points and target (c1x, c1y, c2x, c2y, x, y).
    Cubic(i64, i64, i64, i64, i64, i64),
    /// Smooth cubic curve: (c2x, c2y, x, y).
    SmoothCubic(i64, i64, i64, i64),
    /// Quadratic curve: (c1x, c1y, x, y).
    Quad(i64, i64, i64, i64),
    /// Smooth quadratic curve: target only.
    SmoothQuad(i64, i64),
    /// Arc: (rx, ry, rotation, large-arc, sweep, x, y); radii and
    /// rotation are never relative.
    Arc(i64, i64, i64, bool, bool, i64, i64),
    /// Close the subpath: the pen returns to the subpath start.
    Close,
}

/// Does a coordinate lie within the clamp bound?
pub open spec fn in_cap(x: int) -> bool {
    -1_000_000_000_000_000 <= x <= 1_000_000_000_000_000
}

/// Clamped addition: the sum, brought back into the coordinate range.
pub open spec fn cadd(a: int, b: int) -> int {
    if a + b > 1_000_000_000_000_000 {
        1_000_000_000_000_000
    } else if a + b < -1_000_000_000_000_000 {
        -1_000_000_000_000_000
    } else {
        a + b
    }
}

/// Clamped addition, executable.
pub fn cadd_x(a: i64, b: i64) -> (r: i64)
    requires
        in_cap(a as int),
        in_cap(b as int),
    ensures
        r == cadd(a as int, b as int),
        in_cap(r as int),
{
    let s = a + b;
    if s > 1_000_000_000_000_000 {
        1_000_000_000_000_000
    } else if s < -1_000_000_000_000_000 {
        -1_000_000_000_000_000
    } else {
        s
    }
}

/// Is `c` a list separator (whitespace or comma)?
pub open spec fn is_sep(c: char) -> bool {
    c == ' ' || c == ',' || c == '\t' || c == '\n' || c == '\r'
}

/// The first position at or after `i` that holds no separator.
pub open spec fn skip_seps(s: Seq<char>, i: int) -> int
    decreases s.len() - i,
{
    if 0 <= i < s.len() && is_sep(s[i]) {
        skip_seps(s, i + 1)
    } else {
        i
    }
}

/// `skip_seps` moves forward, stays in bounds, and stops on a
/// non-separator.
pub proof fn lemma_skip_seps(s: Seq<char>, i: int)
    requires
        0 <= i <= s.len(),
    ensures
        i <= skip_seps(s, i) <= s.len(),
        skip_seps(s, i) < s.len() ==> !is_sep(s[skip_seps(s, i)]),
    decreases s.len() - i,
{
    if 0 <= i < s.len() && is_sep(s[i]) {
        lemma_skip_seps(s, i + 1);
    }
}

/// Skips separators, executable.
pub fn skip_seps_x(v: &Vec<char>, i: usize) -> (r: usize)
    requires
        i <= v@.len(),
    ensures
        r == skip_seps(v@, i as int),
        i <= r <= v@.len(),
    decreases v@.len() - i,
{
    if i < v.len() {
        let c = v[i];
        if c == ' ' || c == ',' || c == '\t' || c == '\n' || c == '\r' {
            return skip_seps_x(v, i + 1);
        }
    }
    i
}

/// Basic facts about one numeral scan: the end stays in bounds, moves
/// strictly forward on success, and the value is clamped.
pub proof fn lemma_scan_number_props(s: Seq<char>, i: int, p: nat)
    requires
        0 <= i <= s.len(),
    ensures
        i <= scan_number(s, i, p).end <= s.len(),
        scan_number(s, i, p).ok ==> scan_number(s, i, p).end > i,
        in_cap(scan_number(s, i, p).val),
{
    let sgn_end = if 0 <= i < s.len() && (s[i] == '-' || s[i] == '+') {
        i + 1
    } else {
        i
    };
    crate::numfmt::lemma_scan_digits(s, sgn_end);
    let int_end = crate::numfmt::scan_digits(s, sgn_end);
    let has_dot = 0 <= int_end < s.len() && s[int_end] == '.';
    if has_dot {
        crate::numfmt::lemma_scan_digits(s, int_end + 1);
    }
    let frac_end = if has_dot {
        crate::numfmt::scan_digits(s, int_end + 1)
    } else {
        int_end
    };
    let ok = int_end > sgn_end || (has_dot && frac_end > int_end + 1);
    if ok {
        let d0 = crate::numfmt::acc_sat(s, sgn_end, int_end, 0);
        crate::numfmt::lemma_acc_sat_bound(s, sgn_end, int_end, 0);
        let df = if has_dot {
            crate::numfmt::acc_frac(s, int_end + 1, frac_end, d0, 0)
        } else {
            (d0, 0int)
        };
        if has_dot {
            crate::numfmt::lemma_acc_frac_bound(s, int_end + 1, frac_end, d0, 0);
        }
        let e_mark = 0 <= frac_end < s.len() && (s[frac_end] == 'e' || s[frac_end] == 'E');
        let es = if e_mark && frac_end + 1 < s.len() && (s[frac_end + 1] == '-' || s[frac_end + 1]
            == '+') {
            frac_end + 2
        } else {
            frac_end + 1
        };
        if e_mark && es <= s.len() {
            crate::numfmt::lemma_scan_digits(s, es);
        }
        let e_end = if e_mark {
            crate::numfmt::scan_digits(s, es)
        } else {
            frac_end
        };
        let e_any = e_mark && e_end > es;
        if e_any {
            crate::numfmt::lemma_acc_exp_bound(s, es, e_end, 0);
        }
        let eval = if e_any {
            crate::numfmt::acc_exp(s, es, e_end, 0)
        } else {
            0
        };
        let eneg = e_any && s[frac_end + 1] == '-';
        let sa = (if eneg {
            -eval
        } else {
            eval
        }) + p - df.1;
        if sa >= 0 {
            crate::numfmt::lemma_mul10_clamp_bound(df.0, sa as nat);
        } else {
            let k = (-sa) as nat;
            if k <= 33 {
                crate::numfmt::lemma_pow10_pos(k);
            }
        }
    }
}

/// A parsing mode: which command's argument groups the lexer is reading.
#[derive(Clone, Copy)]
pub enum PathMode {
    MoveTo,
    LineTo,
    HorizTo,
    VertTo,
    CubicTo,
    SmoothCubicTo,
    QuadTo,
    SmoothQuadTo,
    ArcTo,
}

/// The mode a command letter selects, with its relative flag; `None` for
/// letters outside the grammar (`z` is handled separately).
pub open spec fn mode_of_letter(c: char) -> Option<(PathMode, bool)> {
    if c == 'M' {
        Some((PathMode::MoveTo, false))
    } else if c == 'm' {
        Some((PathMode::MoveTo, true))
    } else if c == 'L' {
        Some((PathMode::LineTo, false))
    } else if c == 'l' {
        Some((PathMode::LineTo, true))
    } else if c == 'H' {
        Some((PathMode::HorizTo, false))
    } else if c == 'h' {
        Some((PathMode::HorizTo, true))
    } else if c == 'V' {
        Some((PathMode::VertTo, false))
    } else if c == 'v' {
        Some((PathMode::VertTo, true))
    } else if c == 'C' {
        Some((PathMode::CubicTo, false))
    } else if c == 'c' {
        Some((PathMode::CubicTo, true))
    } else if c == 'S' {
        Some((PathMode::SmoothCubicTo, false))
    } else if c == 's' {
        Some((PathMode::SmoothCubicTo, true))
    } else if c == 'Q' {
        Some((PathMode::QuadTo, false))
    } else if c == 'q' {
        Some((PathMode::QuadTo, true))
    } else if c == 'T' {
        Some((PathMode::SmoothQuadTo, false))
    } else if c == 't' {
        Some((PathMode::SmoothQuadTo, true))
    } else if c == 'A' {
        Some((PathMode::ArcTo, false))
    } else if c == 'a' {
        Some((PathMode::ArcTo, true))
    } else {
        None
    }
}

/// The mode a command letter selects, executable.
pub fn mode_of_letter_x(c: char) -> (r: Option<(PathMode, bool)>)
    ensures
        r == mode_of_letter(c),
{
    match c {
        'M' => Some((PathMode::MoveTo, false)),
        'm' => Some((PathMode::MoveTo, true)),
        'L' => Some((PathMode::LineTo, false)),
        'l' => Some((PathMode::LineTo, true)),
        'H' => Some((PathMode::HorizTo, false)),
        'h' => Some((PathMode::HorizTo, true)),
        'V' => Some((PathMode::VertTo, false)),
        'v' => Some((PathMode::VertTo, true)),
        'C' => Some((PathMode::CubicTo, false)),
        'c' => Some((PathMode::CubicTo, true)),
        'S' => Some((PathMode::SmoothCubicTo, false)),
        's' => Some((PathMode::SmoothCubicTo, true)),
        'Q' => Some((PathMode::QuadTo, false)),
        'q' => Some((PathMode::QuadTo, true)),
        'T' => Some((PathMode::SmoothQuadTo, false)),
        't' => Some((PathMode::SmoothQuadTo, true)),
        'A' => Some((PathMode::ArcTo, false)),
        'a' => Some((PathMode::ArcTo, true)),
        _ => None,
    }
}

/// How many numeric arguments one group of this mode takes (the arc's two
/// flags are read separately).
pub open spec fn mode_arity(m: PathMode) -> nat {
    match m {
        PathMode::MoveTo => 2,
        PathMode::LineTo => 2,
        PathMode::HorizTo => 1,
        PathMode::VertTo => 1,
        PathMode::CubicTo => 6,
        PathMode::SmoothCubicTo => 4,
        PathMode::QuadTo => 4,
        PathMode::SmoothQuadTo => 2,
        PathMode::ArcTo => 3,
    }
}

/// Is `c` an ascii letter?
pub open spec fn is_alpha(c: char) -> bool {
    (65 <= c as u32 <= 90) || (97 <= c as u32 <= 122)
}

/// The outcome of reading a run of numerals.
pub struct CoordScan {
    pub ok: bool,
    pub vals: Seq<int>,
    pub end: int,
}

/// Reads `n` numerals, each preceded by optional separators.
pub open spec fn read_coords(s: Seq<char>, i: int, n: nat, p: nat) -> CoordScan
    decreases n,
{
    if n == 0 {
        CoordScan { ok: true, vals: Seq::empty(), end: i }
    } else {
        let j = skip_seps(s, i);
        let sc = scan_number(s, j, p);
        if !sc.ok {
            CoordScan { ok: false, vals: Seq::empty(), end: i }
        } else {
            let rest = read_coords(s, sc.end, (n - 1) as nat, p);
            if !rest.ok {
                CoordScan { ok: false, vals: Seq::empty(), end: i }
            } else {
                CoordScan { ok: true, vals: seq![sc.val] + rest.vals, end: rest.end }
            }
        }
    }
}

/// Reading coordinates moves forward (strictly, when one was asked for
/// and found), stays in bounds, yields `n` clamped values.
pub proof fn lemma_read_coords(s: Seq<char>, i: int, n: nat, p: nat)
    requires
        0 <= i <= s.len(),
    ensures
        i <= read_coords(s, i, n, p).end <= s.len(),
        read_coords(s, i, n, p).ok && n > 0 ==> read_coords(s, i, n, p).end > i,
        read_coords(s, i, n, p).ok ==> read_coords(s, i, n, p).vals.len() == n,
        forall|q: int|
            0 <= q < read_coords(s, i, n, p).vals.len() ==> in_cap(
                #[trigger] read_coords(s, i, n, p).vals[q],
            ),
    decreases n,
{
    if n > 0 {
        lemma_skip_seps(s, i);
        let j = skip_seps(s, i);
        lemma_scan_number_props(s, j, p);
        let sc = scan_number(s, j, p);
        if sc.ok {
            lemma_read_coords(s, sc.end, (n - 1) as nat, p);
        }
    }
}

/// Reads `n` numerals, executable.
#[verifier::rlimit(30)]
pub fn read_coords_x(v: &Vec<char>, i: usize, n: usize, p: u32) -> (r: (bool, Vec<i64>, usize))
    requires
        i <= v@.len(),
        p <= 9,
    ensures
        r.0 == read_coords(v@, i as int, n as nat, p as nat).ok,
        r.2 == read_coords(v@, i as int, n as nat, p as nat).end,
        i <= r.2 <= v@.len(),
        r.0 ==> r.1@.len() == n,
        forall|q: int|
            0 <= q < r.1@.len() ==> (#[trigger] r.1@[q]) as int == read_coords(
                v@,
                i as int,
                n as nat,
                p as nat,
            ).vals[q] && in_cap(r.1@[q] as int),
    decreases n,
{
    proof {
        lemma_read_coords(v@, i as int, n as nat, p as nat);
    }
    if n == 0 {
        (true, Vec::new(), i)
    } else {
        let j = skip_seps_x(v, i);
        let (ok, val, end) = parse_scaled(v, j, p);
        if !ok {
            (false, Vec::new(), i)
        } else {
            let (rok, rest, rend) = read_coords_x(v, end, n - 1, p);
            if !rok {
                (false, Vec::new(), i)
            } else {
                let mut out: Vec<i64> = Vec::new();
                out.push(val);
                let mut k: usize = 0;
                while k < rest.len()
                    invariant
                        k <= rest@.len(),
                        out@.len() == k + 1,
                        out@[0] == val,
                        forall|q: int| 0 <= q < k ==> out@[q + 1] == rest@[q],
                    decreases rest@.len() - k,
                {
                    let x = rest[k];
                    out.push(x);
                    k = k + 1;
                }
                proof {
                    let spec_vals = read_coords(v@, i as int, n as nat, p as nat).vals;
                    assert forall|q: int| 0 <= q < out@.len() implies (#[trigger] out@[q]) as int
                        == spec_vals[q] && in_cap(out@[q] as int) by {
                        if q > 0 {
                            assert(out@[q] == rest@[q - 1]);
                        }
                        assert(in_cap(spec_vals[q]));
                    }
                }
                (true, out, rend)
            }
        }
    }
}

/// The outcome of reading one arc flag.
pub struct FlagScan {
    pub ok: bool,
    pub val: bool,
    pub end: int,
}

/// Reads one `0`/`1` flag after optional separators.
pub open spec fn scan_flag(s: Seq<char>, i: int) -> FlagScan {
    let j = skip_seps(s, i);
    if 0 <= j < s.len() && (s[j] == '0' || s[j] == '1') {
        FlagScan { ok: true, val: s[j] == '1', end: j + 1 }
    } else {
        FlagScan { ok: false, val: false, end: i }
    }
}

/// Reads one flag, executable.
pub fn scan_flag_x(v: &Vec<char>, i: usize) -> (r: (bool, bool, usize))
    requires
        i <= v@.len(),
    ensures
        r.0 == scan_flag(v@, i as int).ok,
        r.1 == scan_flag(v@, i as int).val,
        r.2 == scan_flag(v@, i as int).end,
        i <= r.2 <= v@.len(),
        r.0 ==> r.2 > i,
{
    proof {
        lemma_skip_seps(v@, i as int);
    }
    let j = skip_seps_x(v, i);
    if j < v.len() && (v[j] == '0' || v[j] == '1') {
        (true, v[j] == '1', j + 1)
    } else {
        (false, false, i)
    }
}

/// What one argument group produces: the command, and the new pen and
/// subpath-start positions.
pub struct GroupResult {
    pub cmd: PathCmd,
    pub pen: (int, int),
    pub start: (int, int),
}

/// One coordinate, made absolute: relative values add the pen coordinate,
/// with clamping.
pub open spec fn adj(rel: bool, pen_c: int, v: int) -> int {
    if rel {
        cadd(pen_c, v)
    } else {
        v
    }
}

/// Builds the normalized command for one argument group and moves the
/// pen; a move also resets the subpath start.
pub open spec fn apply_group(
    m: PathMode,
    rel: bool,
    vals: Seq<int>,
    f1: bool,
    f2: bool,
    pen: (int, int),
    start: (int, int),
) -> GroupResult {
    match m {
        PathMode::MoveTo => {
            let x = adj(rel, pen.0, vals[0]);
            let y = adj(rel, pen.1, vals[1]);
            GroupResult { cmd: PathCmd::Move(x as i64, y as i64), pen: (x, y), start: (x, y) }
        },
        PathMode::LineTo => {
            let x = adj(rel, pen.0, vals[0]);
            let y = adj(rel, pen.1, vals[1]);
            GroupResult { cmd: PathCmd::Line(x as i64, y as i64), pen: (x, y), start }
        },
        PathMode::HorizTo => {
            let x = adj(rel, pen.0, vals[0]);
            GroupResult { cmd: PathCmd::Horiz(x as i64), pen: (x, pen.1), start }
        },
        PathMode::VertTo => {
            let y = adj(rel, pen.1, vals[0]);
            GroupResult { cmd: PathCmd::Vert(y as i64), pen: (pen.0, y), start }
        },
        PathMode::CubicTo => {
            let ax = adj(rel, pen.0, vals[0]);
            let ay = adj(rel, pen.1, vals[1]);
            let bx = adj(rel, pen.0, vals[2]);
            let by = adj(rel, pen.1, vals[3]);
            let x = adj(rel, pen.0, vals[4]);
            let y = adj(rel, pen.1, vals[5]);
            GroupResult {
                cmd: PathCmd::Cubic(ax as i64, ay as i64, bx as i64, by as i64, x as i64, y as i64),
                pen: (x, y),
                start,
            }
        },
        PathMode::SmoothCubicTo => {
            let bx = adj(rel, pen.0, vals[0]);
            let by = adj(rel, pen.1, vals[1]);
            let x = adj(rel, pen.0, vals[2]);
            let y = adj(rel, pen.1, vals[3]);
            GroupResult {
                cmd: PathCmd::SmoothCubic(bx as i64, by as i64, x as i64, y as i64),
                pen: (x, y),
                start,
            }
        },
        PathMode::QuadTo => {
            let ax = adj(rel, pen.0, vals[0]);
            let ay = adj(rel, pen.1, vals[1]);
            let x = adj(rel, pen.0, vals[2]);
            let y = adj(rel, pen.1, vals[3]);
            GroupResult {
                cmd: PathCmd::Quad(ax as i64, ay as i64, x as i64, y as i64),
                pen: (x, y),
                start,
            }
        },
        PathMode::SmoothQuadTo => {
            let x = adj(rel, pen.0, vals[0]);
            let y = adj(rel, pen.1, vals[1]);
            GroupResult { cmd: PathCmd::SmoothQuad(x as i64, y as i64), pen: (x, y), start }
        },
        PathMode::ArcTo => {
            let x = adj(rel, pen.0, vals[3]);
            let y = adj(rel, pen.1, vals[4]);
            GroupResult {
                cmd: PathCmd::Arc(
                    vals[0] as i64,
                    vals[1] as i64,
                    vals[2] as i64,
                    f1,
                    f2,
                    x as i64,
                    y as i64,
                ),
                pen: (x, y),
                start,
            }
        },
    }
}

/// After the first group of a move, repetition continues as lines; every
/// other mode repeats itself.
pub open spec fn next_mode(m: PathMode) -> PathMode {
    match m {
        PathMode::MoveTo => PathMode::LineTo,
        _ => m,
    }
}

/// The normalized command list read from `s` starting at `i`, in mode
/// `mode`, with the given pen and subpath-start positions.
///
/// Letters switch the mode; `z`/`Z` emits a close, returns the pen to
/// the subpath start and awaits a new command letter; an unrecognized
/// letter, a malformed group, or a group with no preceding letter ends
/// parsing, keeping what was already emitted.
pub open spec fn run_path(
    s: Seq<char>,
    i: int,
    mode: Option<(PathMode, bool)>,
    pen: (int, int),
    start: (int, int),
    p: nat,
) -> Seq<PathCmd>
    decreases s.len() - i,
        when 0 <= i <= s.len()
        via run_path_dec
{
    let j = skip_seps(s, i);
    if j >= s.len() {
        Seq::empty()
    } else if s[j] == 'Z' || s[j] == 'z' {
        seq![PathCmd::Close] + run_path(s, j + 1, None, start, start, p)
    } else if mode_of_letter(s[j]) is Some {
        run_path(s, j + 1, mode_of_letter(s[j]), pen, start, p)
    } else if is_alpha(s[j]) {
        Seq::empty()
    } else {
        match mode {
            None => Seq::empty(),
            Some((m, rel)) => {
                if m is ArcTo {
                    let c1 = read_coords(s, j, 3, p);
                    let fl1 = scan_flag(s, c1.end);
                    let fl2 = scan_flag(s, fl1.end);
                    let c2 = read_coords(s, fl2.end, 2, p);
                    if c1.ok && fl1.ok && fl2.ok && c2.ok {
                        let g = apply_group(
                            m,
                            rel,
                            c1.vals + c2.vals,
                            fl1.val,
                            fl2.val,
                            pen,
                            start,
                        );
                        seq![g.cmd] + run_path(s, c2.end, Some((m, rel)), g.pen, g.start, p)
                    } else {
                        Seq::empty()
                    }
                } else {
                    let c = read_coords(s, j, mode_arity(m), p);
                    if c.ok {
                        let g = apply_group(m, rel, c.vals, false, false, pen, start);
                        seq![g.cmd] + run_path(s, c.end, Some((next_mode(m), rel)), g.pen, g.start, p)
                    } else {
                        Seq::empty()
                    }
                }
            },
        }
    }
}

#[via_fn]
proof fn run_path_dec(
    s: Seq<char>,
    i: int,
    mode: Option<(PathMode, bool)>,
    pen: (int, int),
    start: (int, int),
    p: nat,
) {
    lemma_skip_seps(s, i);
    let j = skip_seps(s, i);
    if j < s.len() {
        match mode {
            Some((m, rel)) => {
                if m is ArcTo {
                    lemma_read_coords(s, j, 3, p);
                    let c1 = read_coords(s, j, 3, p);
                    lemma_skip_seps(s, c1.end);
                    let fl1 = scan_flag(s, c1.end);
                    if fl1.ok {
                        lemma_skip_seps(s, fl1.end);
                    }
                    let fl2 = scan_flag(s, fl1.end);
                    if fl1.ok && fl2.ok {
                        lemma_read_coords(s, fl2.end, 2, p);
                    }
                } else {
                    lemma_read_coords(s, j, mode_arity(m), p);
                }
            },
            None => {},
        }
    }
}

/// Are all of a command's coordinates within the clamp bound?
pub open spec fn cmd_in_cap(c: PathCmd) -> bool {
    match c {
        PathCmd::Move(x, y) => in_cap(x as int) && in_cap(y as int),
        PathCmd::Line(x, y) => in_cap(x as int) && in_cap(y as int),
        PathCmd::Horiz(x) => in_cap(x as int),
        PathCmd::Vert(y) => in_cap(y as int),
        PathCmd::Cubic(a, b, cc, d, x, y) => in_cap(a as int) && in_cap(b as int) && in_cap(
            cc as int,
        ) && in_cap(d as int) && in_cap(x as int) && in_cap(y as int),
        PathCmd::SmoothCubic(cc, d, x, y) => in_cap(cc as int) && in_cap(d as int) && in_cap(
            x as int,
        ) && in_cap(y as int),
        PathCmd::Quad(a, b, x, y) => in_cap(a as int) && in_cap(b as int) && in_cap(x as int)
            && in_cap(y as int),
        PathCmd::SmoothQuad(x, y) => in_cap(x as int) && in_cap(y as int),
        PathCmd::Arc(rx, ry, rot, _, _, x, y) => in_cap(rx as int) && in_cap(ry as int) && in_cap(
            rot as int,
        ) && in_cap(x as int) && in_cap(y as int),
        PathCmd::Close => true,
    }
}

/// The integer values of a vector of scaled coordinates.
pub open spec fn vals_int(vs: Seq<i64>) -> Seq<int> {
    Seq::new(vs.len(), |k: int| vs[k] as int)
}

/// Builds one command group, executable.
#[verifier::rlimit(100)]
fn apply_group_x(
    m: PathMode,
    rel: bool,
    vals: &Vec<i64>,
    f1: bool,
    f2: bool,
    pen: (i64, i64),
    start: (i64, i64),
) -> (r: (PathCmd, (i64, i64), (i64, i64)))
    requires
        vals@.len() == (if m is ArcTo {
            5int
        } else {
            mode_arity(m) as int
        }),
        forall|q: int| 0 <= q < vals@.len() ==> in_cap(#[trigger] vals@[q] as int),
        in_cap(pen.0 as int),
        in_cap(pen.1 as int),
        in_cap(start.0 as int),
        in_cap(start.1 as int),
    ensures
        ({
            let g = apply_group(
                m,
                rel,
                vals_int(vals@),
                f1,
                f2,
                (pen.0 as int, pen.1 as int),
                (start.0 as int, start.1 as int),
            );
            r.0 == g.cmd && (r.1.0 as int, r.1.1 as int) == g.pen && (r.2.0 as int, r.2.1 as int)
                == g.start
        }),
        cmd_in_cap(r.0),
        in_cap(r.1.0 as int) && in_cap(r.1.1 as int) && in_cap(r.2.0 as int) && in_cap(
            r.2.1 as int,
        ),
{
    match m {
        PathMode::MoveTo => {
            let x = if rel {
                cadd_x(pen.0, vals[0])
            } else {
                vals[0]
            };
            let y = if rel {
                cadd_x(pen.1, vals[1])
            } else {
                vals[1]
            };
            (PathCmd::Move(x, y), (x, y), (x, y))
        },
        PathMode::LineTo => {
            let x = if rel {
                cadd_x(pen.0, vals[0])
            } else {
                vals[0]
            };
            let y = if rel {
                cadd_x(pen.1, vals[1])
            } else {
                vals[1]
            };
            (PathCmd::Line(x, y), (x, y), start)
        },
        PathMode::HorizTo => {
            let x = if rel {
                cadd_x(pen.0, vals[0])
            } else {
                vals[0]
            };
            (PathCmd::Horiz(x), (x, pen.1), start)
        },
        PathMode::VertTo => {
            let y = if rel {
                cadd_x(pen.1, vals[0])
            } else {
                vals[0]
            };
            (PathCmd::Vert(y), (pen.0, y), start)
        },
        PathMode::CubicTo => {
            let ax = if rel {
                cadd_x(pen.0, vals[0])
            } else {
                vals[0]
            };
            let ay = if rel {
                cadd_x(pen.1, vals[1])
            } else {
                vals[1]
            };
            let bx = if rel {
                cadd_x(pen.0, vals[2])
            } else {
                vals[2]
            };
            let by = if rel {
                cadd_x(pen.1, vals[3])
            } else {
                vals[3]
            };
            let x = if rel {
                cadd_x(pen.0, vals[4])
            } else {
                vals[4]
            };
            let y = if rel {
                cadd_x(pen.1, vals[5])
            } else {
                vals[5]
            };
            (PathCmd::Cubic(ax, ay, bx, by, x, y), (x, y), start)
        },
        PathMode::SmoothCubicTo => {
            let bx = if rel {
                cadd_x(pen.0, vals[0])
            } else {
                vals[0]
            };
            let by = if rel {
                cadd_x(pen.1, vals[1])
            } else {
                vals[1]
            };
            let x = if rel {
                cadd_x(pen.0, vals[2])
            } else {
                vals[2]
            };
            let y = if rel {
                cadd_x(pen.1, vals[3])
            } else {
                vals[3]
            };
            (PathCmd::SmoothCubic(bx, by, x, y), (x, y), start)
        },
        PathMode::QuadTo => {
            let ax = if rel {
                cadd_x(pen.0, vals[0])
            } else {
                vals[0]
            };
            let ay = if rel {
                cadd_x(pen.1, vals[1])
            } else {
                vals[1]
            };
            let x = if rel {
                cadd_x(pen.0, vals[2])
            } else {
                vals[2]
            };
            let y = if rel {
                cadd_x(pen.1, vals[3])
            } else {
                vals[3]
            };
            (PathCmd::Quad(ax, ay, x, y), (x, y), start)
        },
        PathMode::SmoothQuadTo => {
            let x = if rel {
                cadd_x(pen.0, vals[0])
            } else {
                vals[0]
            };
            let y = if rel {
                cadd_x(pen.1, vals[1])
            } else {
                vals[1]
            };
            (PathCmd::SmoothQuad(x, y), (x, y), start)
        },
        PathMode::ArcTo => {
            let x = if rel {
                cadd_x(pen.0, vals[3])
            } else {
                vals[3]
            };
            let y = if rel {
                cadd_x(pen.1, vals[4])
            } else {
                vals[4]
            };
            (PathCmd::Arc(vals[0], vals[1], vals[2], f1, f2, x, y), (x, y), start)
        },
    }
}

/// Reads path data from position `i` on, appending the normalized
/// commands to `out`: exactly `run_path`.
#[verifier::rlimit(100)]
fn parse_path_rec(
    v: &Vec<char>,
    i: usize,
    mode: Option<(PathMode, bool)>,
    pen: (i64, i64),
    start: (i64, i64),
    p: u32,
    out: &mut Vec<PathCmd>,
)
    requires
        i <= v@.len(),
        p <= 9,
        in_cap(pen.0 as int),
        in_cap(pen.1 as int),
        in_cap(start.0 as int),
        in_cap(start.1 as int),
    ensures
        final(out)@ == old(out)@ + run_path(
            v@,
            i as int,
            mode,
            (pen.0 as int, pen.1 as int),
            (start.0 as int, start.1 as int),
            p as nat,
        ),
        forall|k: int|
            old(out)@.len() <= k < final(out)@.len() ==> cmd_in_cap(#[trigger] final(out)@[k]),
    decreases v@.len() - i,
{
    let ghost spec_cmds = run_path(
        v@,
        i as int,
        mode,
        (pen.0 as int, pen.1 as int),
        (start.0 as int, start.1 as int),
        p as nat,
    );
    let j = skip_seps_x(v, i);
    if j >= v.len() {
        proof {
            assert(out@ =~= out@ + spec_cmds);
        }
        return ;
    }
    let c = v[j];
    if c == 'Z' || c == 'z' {
        out.push(PathCmd::Close);
        let ghost mid = out@;
        parse_path_rec(v, j + 1, None, start, start, p, out);
        proof {
            assert(out@ =~= old(out)@ + spec_cmds);
        }
        return ;
    }
    let lm = mode_of_letter_x(c);
    match lm {
        Some(newm) => {
            parse_path_rec(v, j + 1, Some(newm), pen, start, p, out);
            proof {
                assert(out@ =~= old(out)@ + spec_cmds);
            }
            return ;
        },
        None => {},
    }
    let u = c as u32;
    if (65 <= u && u <= 90) || (97 <= u && u <= 122) {
        proof {
            assert(is_alpha(v@[j as int]));
            assert(out@ =~= out@ + spec_cmds);
        }
        return ;
    }
    match mode {
        None => {
            proof {
                assert(out@ =~= out@ + spec_cmds);
            }
        },
        Some((m, rel)) => {
            match m {
                PathMode::ArcTo => {
                    proof {
                        lemma_read_coords(v@, j as int, 3, p as nat);
                    }
                    let (ok1, vs1, e1) = read_coords_x(v, j, 3, p);
                    let (fok1, fv1, e2) = scan_flag_x(v, e1);
                    let (fok2, fv2, e3) = scan_flag_x(v, e2);
                    proof {
                        lemma_read_coords(v@, e3 as int, 2, p as nat);
                    }
                    let (ok2, vs2, e4) = read_coords_x(v, e3, 2, p);
                    if ok1 && fok1 && fok2 && ok2 {
                        let mut allv: Vec<i64> = Vec::new();
                        allv.push(vs1[0]);
                        allv.push(vs1[1]);
                        allv.push(vs1[2]);
                        allv.push(vs2[0]);
                        allv.push(vs2[1]);
                        proof {
                            let c1 = read_coords(v@, j as int, 3, p as nat);
                            let c2 = read_coords(
                                v@,
                                scan_flag(v@, scan_flag(v@, c1.end).end).end,
                                2,
                                p as nat,
                            );
                            assert(vals_int(allv@) =~= c1.vals + c2.vals);
                        }
                        let g = apply_group_x(m, rel, &allv, fv1, fv2, pen, start);
                        out.push(g.0);
                        parse_path_rec(v, e4, Some((m, rel)), g.1, g.2, p, out);
                        proof {
                            assert(out@ =~= old(out)@ + spec_cmds);
                        }
                    } else {
                        proof {
                            assert(out@ =~= out@ + spec_cmds);
                        }
                    }
                },
                _ => {
                    let n: usize = match m {
                        PathMode::MoveTo => 2,
                        PathMode::LineTo => 2,
                        PathMode::HorizTo => 1,
                        PathMode::VertTo => 1,
                        PathMode::CubicTo => 6,
                        PathMode::SmoothCubicTo => 4,
                        PathMode::QuadTo => 4,
                        PathMode::SmoothQuadTo => 2,
                        PathMode::ArcTo => 3,
                    };
                    proof {
                        assert(n as nat == mode_arity(m));
                        lemma_read_coords(v@, j as int, n as nat, p as nat);
                    }
                    let (ok1, vs1, e1) = read_coords_x(v, j, n, p);
                    if ok1 {
                        proof {
                            assert(vals_int(vs1@) =~= read_coords(
                                v@,
                                j as int,
                                mode_arity(m),
                                p as nat,
                            ).vals);
                        }
                        let g = apply_group_x(m, rel, &vs1, false, false, pen, start);
                        let nm: PathMode = match m {
                            PathMode::MoveTo => PathMode::LineTo,
                            _ => m,
                        };
                        out.push(g.0);
                        parse_path_rec(v, e1, Some((nm, rel)), g.1, g.2, p, out);
                        proof {
                            assert(nm == next_mode(m));
                            assert(out@ =~= old(out)@ + spec_cmds);
                        }
                    } else {
                        proof {
                            assert(out@ =~= out@ + spec_cmds);
                        }
                    }
                },
            }
        },
    }
}

/// Parses a `d` attribute's text into the normalized command list.
pub fn parse_path_data(d: &Vec<char>, p: u32) -> (r: Vec<PathCmd>)
    requires
        p <= 9,
    ensures
        r@ == run_path(d@, 0, None, (0, 0), (0, 0), p as nat),
        forall|k: int| 0 <= k < r@.len() ==> cmd_in_cap(#[trigger] r@[k]),
{
    let mut out: Vec<PathCmd> = Vec::new();
    parse_path_rec(d, 0, None, (0, 0), (0, 0), p, &mut out);
    out
}

// ---------------------------------------------------------------------
// Re-encoding: shortest valid textual form per command
// ---------------------------------------------------------------------
/// The separator written before a rendered number: nothing when the
/// number begins with `-`, else one space.
pub open spec fn sep_for(t: Seq<char>) -> Seq<char> {
    if t.len() > 0 && t[0] == '-' {
        Seq::empty()
    } else {
        seq![' ']
    }
}

/// The rendered arguments from position `k` on, each with its separator.
pub open spec fn join_more(parts: Seq<Seq<char>>, k: int) -> Seq<char>
    decreases parts.len() - k,
{
    if k < 0 || k >= parts.len() {
        Seq::empty()
    } else {
        sep_for(parts[k]) + parts[k] + join_more(parts, k + 1)
    }
}

/// One candidate encoding: the command letter, the first argument
/// directly after it, later arguments behind separators.
pub open spec fn cand_text(letter: char, parts: Seq<Seq<char>>) -> Seq<char> {
    if parts.len() == 0 {
        seq![letter]
    } else {
        seq![letter] + parts[0] + join_more(parts, 1)
    }
}

/// The shortest candidate from position `k` on; a tie keeps the earlier
/// candidate.
pub open spec fn pick_from(cands: Seq<Seq<char>>, k: int) -> Seq<char>
    decreases cands.len() - k,
{
    if k < 0 || k >= cands.len() {
        Seq::empty()
    } else if k == cands.len() - 1 {
        cands[k]
    } else {
        let rest = pick_from(cands, k + 1);
        if cands[k].len() <= rest.len() {
            cands[k]
        } else {
            rest
        }
    }
}

/// The rendered text of one flag.
pub open spec fn flag_text(b: bool) -> Seq<char> {
    if b {
        seq!['1']
    } else {
        seq!['0']
    }
}

/// Every candidate encoding of a command at the given pen position:
/// absolute first, then relative; a line whose one axis does not move
/// also offers the horizontal or vertical degenerate form (absolute,
/// then relative).
pub open spec fn cmd_candidates(c: PathCmd, pen: (int, int), p: nat) -> Seq<Seq<char>> {
    match c {
        PathCmd::Move(x, y) => seq![
            cand_text('M', seq![fmt_scaled(x as int, p), fmt_scaled(y as int, p)]),
            cand_text('m', seq![fmt_scaled(x - pen.0, p), fmt_scaled(y - pen.1, p)]),
        ],
        PathCmd::Line(x, y) => seq![
            cand_text('L', seq![fmt_scaled(x as int, p), fmt_scaled(y as int, p)]),
            cand_text('l', seq![fmt_scaled(x - pen.0, p), fmt_scaled(y - pen.1, p)]),
        ] + (if y == pen.1 {
            seq![
                cand_text('H', seq![fmt_scaled(x as int, p)]),
                cand_text('h', seq![fmt_scaled(x - pen.0, p)]),
            ]
        } else {
            Seq::empty()
        }) + (if x == pen.0 {
            seq![
                cand_text('V', seq![fmt_scaled(y as int, p)]),
                cand_text('v', seq![fmt_scaled(y - pen.1, p)]),
            ]
        } else {
            Seq::empty()
        }),
        PathCmd::Horiz(x) => seq![
            cand_text('H', seq![fmt_scaled(x as int, p)]),
            cand_text('h', seq![fmt_scaled(x - pen.0, p)]),
        ],
        PathCmd::Vert(y) => seq![
            cand_text('V', seq![fmt_scaled(y as int, p)]),
            cand_text('v', seq![fmt_scaled(y - pen.1, p)]),
        ],
        PathCmd::Cubic(ax, ay, bx, by, x, y) => seq![
            cand_text(
                'C',
                seq![
                    fmt_scaled(ax as int, p),
                    fmt_scaled(ay as int, p),
                    fmt_scaled(bx as int, p),
                    fmt_scaled(by as int, p),
                    fmt_scaled(x as int, p),
                    fmt_scaled(y as int, p),
                ],
            ),
            cand_text(
                'c',
                seq![
                    fmt_scaled(ax - pen.0, p),
                    fmt_scaled(ay - pen.1, p),
                    fmt_scaled(bx - pen.0, p),
                    fmt_scaled(by - pen.1, p),
                    fmt_scaled(x - pen.0, p),
                    fmt_scaled(y - pen.1, p),
                ],
            ),
        ],
        PathCmd::SmoothCubic(bx, by, x, y) => seq![
            cand_text(
                'S',
                seq![
                    fmt_scaled(bx as int, p),
                    fmt_scaled(by as int, p),
                    fmt_scaled(x as int, p),
                    fmt_scaled(y as int, p),
                ],
            ),
            cand_text(
                's',
                seq![
                    fmt_scaled(bx - pen.0, p),
                    fmt_scaled(by - pen.1, p),
                    fmt_scaled(x - pen.0, p),
                    fmt_scaled(y - pen.1, p),
                ],
            ),
        ],
        PathCmd::Quad(ax, ay, x, y) => seq![
            cand_text(
                'Q',
                seq![
                    fmt_scaled(ax as int, p),
                    fmt_scaled(ay as int, p),
                    fmt_scaled(x as int, p),
                    fmt_scaled(y as int, p),
                ],
            ),
            cand_text(
                'q',
                seq![
                    fmt_scaled(ax - pen.0, p),
                    fmt_scaled(ay - pen.1, p),
                    fmt_scaled(x - pen.0, p),
                    fmt_scaled(y - pen.1, p),
                ],
            ),
        ],
        PathCmd::SmoothQuad(x, y) => seq![
            cand_text('T', seq![fmt_scaled(x as int, p), fmt_scaled(y as int, p)]),
            cand_text('t', seq![fmt_scaled(x - pen.0, p), fmt_scaled(y - pen.1, p)]),
        ],
        PathCmd::Arc(rx, ry, rot, f1, f2, x, y) => seq![
            cand_text(
                'A',
                seq![
                    fmt_scaled(rx as int, p),
                    fmt_scaled(ry as int, p),
                    fmt_scaled(rot as int, p),
                    flag_text(f1),
                    flag_text(f2),
                    fmt_scaled(x as int, p),
                    fmt_scaled(y as int, p),
                ],
            ),
            cand_text(
                'a',
                seq![
                    fmt_scaled(rx as int, p),
                    fmt_scaled(ry as int, p),
                    fmt_scaled(rot as int, p),
                    flag_text(f1),
                    flag_text(f2),
                    fmt_scaled(x - pen.0, p),
                    fmt_scaled(y - pen.1, p),
                ],
            ),
        ],
        PathCmd::Close => seq![seq!['z']],
    }
}

/// The chosen (shortest) encoding of one command.
pub open spec fn cmd_text(c: PathCmd, pen: (int, int), p: nat) -> Seq<char> {
    pick_from(cmd_candidates(c, pen, p), 0)
}

/// The pen and subpath-start positions after a command.
pub open spec fn cmd_target(c: PathCmd, pen: (int, int), start: (int, int)) -> (
    (int, int),
    (int, int),
) {
    match c {
        PathCmd::Move(x, y) => ((x as int, y as int), (x as int, y as int)),
        PathCmd::Line(x, y) => ((x as int, y as int), start),
        PathCmd::Horiz(x) => ((x as int, pen.1), start),
        PathCmd::Vert(y) => ((pen.0, y as int), start),
        PathCmd::Cubic(ax, ay, bx, by, x, y) => ((x as int, y as int), start),
        PathCmd::SmoothCubic(bx, by, x, y) => ((x as int, y as int), start),
        PathCmd::Quad(ax, ay, x, y) => ((x as int, y as int), start),
        PathCmd::SmoothQuad(x, y) => ((x as int, y as int), start),
        PathCmd::Arc(rx, ry, rot, f1, f2, x, y) => ((x as int, y as int), start),
        PathCmd::Close => (start, start),
    }
}

/// The full re-encoded path text from command `k` on.
pub open spec fn encode_path(cs: Seq<PathCmd>, k: int, pen: (int, int), start: (int, int), p: nat) -> Seq<char>
    decreases cs.len() - k,
{
    if k < 0 || k >= cs.len() {
        Seq::empty()
    } else {
        let t = cmd_text(cs[k], pen, p);
        let ps = cmd_target(cs[k], pen, start);
        t + encode_path(cs, k + 1, ps.0, ps.1, p)
    }
}

/// The views of a vector of rendered arguments.
pub open spec fn vecs_view(parts: Seq<Vec<char>>) -> Seq<Seq<char>> {
    Seq::new(parts.len(), |k: int| parts[k]@)
}

/// Appends the characters of `src` to `out`.
fn append_chars(out: &mut Vec<char>, src: &Vec<char>)
    ensures
        final(out)@ == old(out)@ + src@,
{
    let mut k: usize = 0;
    while k < src.len()
        invariant
            k <= src@.len(),
            out@ == old(out)@ + src@.take(k as int),
        decreases src@.len() - k,
    {
        let c = src[k];
        out.push(c);
        proof {
            assert(out@ =~= old(out)@ + src@.take(k + 1));
        }
        k = k + 1;
    }
    proof {
        assert(out@ =~= old(out)@ + src@);
    }
}

/// Renders one candidate: letter, then the arguments with separators.
fn cand_x(letter: char, parts: &Vec<Vec<char>>) -> (r: Vec<char>)
    ensures
        r@ == cand_text(letter, vecs_view(parts@)),
{
    let ghost pv = vecs_view(parts@);
    let mut r: Vec<char> = Vec::new();
    r.push(letter);
    if parts.len() == 0 {
        proof {
            assert(r@ =~= cand_text(letter, pv));
        }
        return r;
    }
    append_chars(&mut r, &parts[0]);
    proof {
        assert(r@ =~= seq![letter] + pv[0]);
    }
    let mut k: usize = 1;
    while k < parts.len()
        invariant
            1 <= k <= parts@.len(),
            pv == vecs_view(parts@),
            pv.len() == parts@.len(),
            r@ + join_more(pv, k as int) == cand_text(letter, pv),
        decreases parts@.len() - k,
    {
        let first_char_minus = parts[k].len() > 0 && parts[k][0] == '-';
        if !first_char_minus {
            r.push(' ');
        }
        append_chars(&mut r, &parts[k]);
        proof {
            assert(r@ + join_more(pv, k + 1) =~= cand_text(letter, pv));
        }
        k = k + 1;
    }
    proof {
        assert(r@ =~= cand_text(letter, pv));
    }
    r
}

/// The position of the shortest candidate from `k` on (ties keep the
/// earliest).
fn pick_idx(cands: &Vec<Vec<char>>, k: usize) -> (r: usize)
    requires
        k < cands@.len(),
    ensures
        k <= r < cands@.len(),
        cands@[r as int]@ == pick_from(vecs_view(cands@), k as int),
    decreases cands@.len() - k,
{
    if k == cands.len() - 1 {
        k
    } else {
        let r2 = pick_idx(cands, k + 1);
        if cands[k].len() <= cands[r2].len() {
            k
        } else {
            r2
        }
    }
}

/// Encodes one command, appending the shortest candidate; hands back the
/// new pen and subpath-start positions.
#[verifier::rlimit(100)]
fn encode_cmd(c: &PathCmd, pen: (i64, i64), start: (i64, i64), p: u32, out: &mut Vec<char>) -> (r:
    ((i64, i64), (i64, i64)))
    requires
        p <= 9,
        cmd_in_cap(*c),
        in_cap(pen.0 as int),
        in_cap(pen.1 as int),
        in_cap(start.0 as int),
        in_cap(start.1 as int),
    ensures
        final(out)@ == old(out)@ + cmd_text(*c, (pen.0 as int, pen.1 as int), p as nat),
        ({
            let ps = cmd_target(*c, (pen.0 as int, pen.1 as int), (start.0 as int, start.1 as int));
            (r.0.0 as int, r.0.1 as int) == ps.0 && (r.1.0 as int, r.1.1 as int) == ps.1
        }),
        in_cap(r.0.0 as int) && in_cap(r.0.1 as int) && in_cap(r.1.0 as int) && in_cap(
            r.1.1 as int,
        ),
{
    let ghost pint = (pen.0 as int, pen.1 as int);
    let ghost cands_spec = cmd_candidates(*c, pint, p as nat);
    let mut cands: Vec<Vec<char>> = Vec::new();
    let mut new_pen = pen;
    let mut new_start = start;
    match *c {
        PathCmd::Move(x, y) => {
            let mut pa: Vec<Vec<char>> = Vec::new();
            pa.push(format_scaled(x, p));
            pa.push(format_scaled(y, p));
            cands.push(cand_x('M', &pa));
            let mut pr: Vec<Vec<char>> = Vec::new();
            pr.push(format_scaled(x - pen.0, p));
            pr.push(format_scaled(y - pen.1, p));
            cands.push(cand_x('m', &pr));
            new_pen = (x, y);
            new_start = (x, y);
            proof {
                assert(vecs_view(pa@) =~= seq![
                    fmt_scaled(x as int, p as nat),
                    fmt_scaled(y as int, p as nat),
                ]);
                assert(vecs_view(pr@) =~= seq![
                    fmt_scaled(x - pen.0, p as nat),
                    fmt_scaled(y - pen.1, p as nat),
                ]);
                assert(vecs_view(cands@) =~= cands_spec);
            }
        },
        PathCmd::Line(x, y) => {
            let mut pa: Vec<Vec<char>> = Vec::new();
            pa.push(format_scaled(x, p));
            pa.push(format_scaled(y, p));
            cands.push(cand_x('L', &pa));
            let mut pr: Vec<Vec<char>> = Vec::new();
            pr.push(format_scaled(x - pen.0, p));
            pr.push(format_scaled(y - pen.1, p));
            cands.push(cand_x('l', &pr));
            if y == pen.1 {
                let mut ph: Vec<Vec<char>> = Vec::new();
                ph.push(format_scaled(x, p));
                cands.push(cand_x('H', &ph));
                let mut phr: Vec<Vec<char>> = Vec::new();
                phr.push(format_scaled(x - pen.0, p));
                cands.push(cand_x('h', &phr));
                proof {
                    assert(vecs_view(ph@) =~= seq![fmt_scaled(x as int, p as nat)]);
                    assert(vecs_view(phr@) =~= seq![fmt_scaled(x - pen.0, p as nat)]);
                }
            }
            if x == pen.0 {
                let mut pv: Vec<Vec<char>> = Vec::new();
                pv.push(format_scaled(y, p));
                cands.push(cand_x('V', &pv));
                let mut pvr: Vec<Vec<char>> = Vec::new();
                pvr.push(format_scaled(y - pen.1, p));
                cands.push(cand_x('v', &pvr));
                proof {
                    assert(vecs_view(pv@) =~= seq![fmt_scaled(y as int, p as nat)]);
                    assert(vecs_view(pvr@) =~= seq![fmt_scaled(y - pen.1, p as nat)]);
                }
            }
            new_pen = (x, y);
            proof {
                assert(vecs_view(pa@) =~= seq![
                    fmt_scaled(x as int, p as nat),
                    fmt_scaled(y as int, p as nat),
                ]);
                assert(vecs_view(pr@) =~= seq![
                    fmt_scaled(x - pen.0, p as nat),
                    fmt_scaled(y - pen.1, p as nat),
                ]);
                assert(vecs_view(cands@) =~= cands_spec);
            }
        },
        PathCmd::Horiz(x) => {
            let mut pa: Vec<Vec<char>> = Vec::new();
            pa.push(format_scaled(x, p));
            cands.push(cand_x('H', &pa));
            let mut pr: Vec<Vec<char>> = Vec::new();
            pr.push(format_scaled(x - pen.0, p));
            cands.push(cand_x('h', &pr));
            new_pen = (x, pen.1);
            proof {
                assert(vecs_view(pa@) =~= seq![fmt_scaled(x as int, p as nat)]);
                assert(vecs_view(pr@) =~= seq![fmt_scaled(x - pen.0, p as nat)]);
                assert(vecs_view(cands@) =~= cands_spec);
            }
        },
        PathCmd::Vert(y) => {
            let mut pa: Vec<Vec<char>> = Vec::new();
            pa.push(format_scaled(y, p));
            cands.push(cand_x('V', &pa));
            let mut pr: Vec<Vec<char>> = Vec::new();
            pr.push(format_scaled(y - pen.1, p));
            cands.push(cand_x('v', &pr));
            new_pen = (pen.0, y);
            proof {
                assert(vecs_view(pa@) =~= seq![fmt_scaled(y as int, p as nat)]);
                assert(vecs_view(pr@) =~= seq![fmt_scaled(y - pen.1, p as nat)]);
                assert(vecs_view(cands@) =~= cands_spec);
            }
        },
        PathCmd::Cubic(ax, ay, bx, by, x, y) => {
            let mut pa: Vec<Vec<char>> = Vec::new();
            pa.push(format_scaled(ax, p));
            pa.push(format_scaled(ay, p));
            pa.push(format_scaled(bx, p));
            pa.push(format_scaled(by, p));
            pa.push(format_scaled(x, p));
            pa.push(format_scaled(y, p));
            cands.push(cand_x('C', &pa));
            let mut pr: Vec<Vec<char>> = Vec::new();
            pr.push(format_scaled(ax - pen.0, p));
            pr.push(format_scaled(ay - pen.1, p));
            pr.push(format_scaled(bx - pen.0, p));
            pr.push(format_scaled(by - pen.1, p));
            pr.push(format_scaled(x - pen.0, p));
            pr.push(format_scaled(y - pen.1, p));
            cands.push(cand_x('c', &pr));
            new_pen = (x, y);
            proof {
                assert(vecs_view(pa@) =~= seq![
                    fmt_scaled(ax as int, p as nat),
                    fmt_scaled(ay as int, p as nat),
                    fmt_scaled(bx as int, p as nat),
                    fmt_scaled(by as int, p as nat),
                    fmt_scaled(x as int, p as nat),
                    fmt_scaled(y as int, p as nat),
                ]);
                assert(vecs_view(pr@) =~= seq![
                    fmt_scaled(ax - pen.0, p as nat),
                    fmt_scaled(ay - pen.1, p as nat),
                    fmt_scaled(bx - pen.0, p as nat),
                    fmt_scaled(by - pen.1, p as nat),
                    fmt_scaled(x - pen.0, p as nat),
                    fmt_scaled(y - pen.1, p as nat),
                ]);
                assert(vecs_view(cands@) =~= cands_spec);
            }
        },
        PathCmd::SmoothCubic(bx, by, x, y) => {
            let mut pa: Vec<Vec<char>> = Vec::new();
            pa.push(format_scaled(bx, p));
            pa.push(format_scaled(by, p));
            pa.push(format_scaled(x, p));
            pa.push(format_scaled(y, p));
            cands.push(cand_x('S', &pa));
            let mut pr: Vec<Vec<char>> = Vec::new();
            pr.push(format_scaled(bx - pen.0, p));
            pr.push(format_scaled(by - pen.1, p));
            pr.push(format_scaled(x - pen.0, p));
            pr.push(format_scaled(y - pen.1, p));
            cands.push(cand_x('s', &pr));
            new_pen = (x, y);
            proof {
                assert(vecs_view(pa@) =~= seq![
                    fmt_scaled(bx as int, p as nat),
                    fmt_scaled(by as int, p as nat),
                    fmt_scaled(x as int, p as nat),
                    fmt_scaled(y as int, p as nat),
                ]);
                assert(vecs_view(pr@) =~= seq![
                    fmt_scaled(bx - pen.0, p as nat),
                    fmt_scaled(by - pen.1, p as nat),
                    fmt_scaled(x - pen.0, p as nat),
                    fmt_scaled(y - pen.1, p as nat),
                ]);
                assert(vecs_view(cands@) =~= cands_spec);
            }
        },
        PathCmd::Quad(ax, ay, x, y) => {
            let mut pa: Vec<Vec<char>> = Vec::new();
            pa.push(format_scaled(ax, p));
            pa.push(format_scaled(ay, p));
            pa.push(format_scaled(x, p));
            pa.push(format_scaled(y, p));
            cands.push(cand_x('Q', &pa));
            let mut pr: Vec<Vec<char>> = Vec::new();
            pr.push(format_scaled(ax - pen.0, p));
            pr.push(format_scaled(ay - pen.1, p));
            pr.push(format_scaled(x - pen.0, p));
            pr.push(format_scaled(y - pen.1, p));
            cands.push(cand_x('q', &pr));
            new_pen = (x, y);
            proof {
                assert(vecs_view(pa@) =~= seq![
                    fmt_scaled(ax as int, p as nat),
                    fmt_scaled(ay as int, p as nat),
                    fmt_scaled(x as int, p as nat),
                    fmt_scaled(y as int, p as nat),
                ]);
                assert(vecs_view(pr@) =~= seq![
                    fmt_scaled(ax - pen.0, p as nat),
                    fmt_scaled(ay - pen.1, p as nat),
                    fmt_scaled(x - pen.0, p as nat),
                    fmt_scaled(y - pen.1, p as nat),
                ]);
                assert(vecs_view(cands@) =~= cands_spec);
            }
        },
        PathCmd::SmoothQuad(x, y) => {
            let mut pa: Vec<Vec<char>> = Vec::new();
            pa.push(format_scaled(x, p));
            pa.push(format_scaled(y, p));
            cands.push(cand_x('T', &pa));
            let mut pr: Vec<Vec<char>> = Vec::new();
            pr.push(format_scaled(x - pen.0, p));
            pr.push(format_scaled(y - pen.1, p));
            cands.push(cand_x('t', &pr));
            new_pen = (x, y);
            proof {
                assert(vecs_view(pa@) =~= seq![
                    fmt_scaled(x as int, p as nat),
                    fmt_scaled(y as int, p as nat),
                ]);
                assert(vecs_view(pr@) =~= seq![
                    fmt_scaled(x - pen.0, p as nat),
                    fmt_scaled(y - pen.1, p as nat),
                ]);
                assert(vecs_view(cands@) =~= cands_spec);
            }
        },
        PathCmd::Arc(rx, ry, rot, f1, f2, x, y) => {
            let fl1: Vec<char> = if f1 {
                let mut t: Vec<char> = Vec::new();
                t.push('1');
                t
            } else {
                let mut t: Vec<char> = Vec::new();
                t.push('0');
                t
            };
            let fl2: Vec<char> = if f2 {
                let mut t: Vec<char> = Vec::new();
                t.push('1');
                t
            } else {
                let mut t: Vec<char> = Vec::new();
                t.push('0');
                t
            };
            let mut pa: Vec<Vec<char>> = Vec::new();
            pa.push(format_scaled(rx, p));
            pa.push(format_scaled(ry, p));
            pa.push(format_scaled(rot, p));
            pa.push(fl1.clone());
            pa.push(fl2.clone());
            pa.push(format_scaled(x, p));
            pa.push(format_scaled(y, p));
            cands.push(cand_x('A', &pa));
            let mut pr: Vec<Vec<char>> = Vec::new();
            pr.push(format_scaled(rx, p));
            pr.push(format_scaled(ry, p));
            pr.push(format_scaled(rot, p));
            pr.push(fl1);
            pr.push(fl2);
            pr.push(format_scaled(x - pen.0, p));
            pr.push(format_scaled(y - pen.1, p));
            cands.push(cand_x('a', &pr));
            new_pen = (x, y);
            proof {
                assert(vecs_view(pa@) =~= seq![
                    fmt_scaled(rx as int, p as nat),
                    fmt_scaled(ry as int, p as nat),
                    fmt_scaled(rot as int, p as nat),
                    flag_text(f1),
                    flag_text(f2),
                    fmt_scaled(x as int, p as nat),
                    fmt_scaled(y as int, p as nat),
                ]);
                assert(vecs_view(pr@) =~= seq![
                    fmt_scaled(rx as int, p as nat),
                    fmt_scaled(ry as int, p as nat),
                    fmt_scaled(rot as int, p as nat),
                    flag_text(f1),
                    flag_text(f2),
                    fmt_scaled(x - pen.0, p as nat),
                    fmt_scaled(y - pen.1, p as nat),
                ]);
                assert(vecs_view(cands@) =~= cands_spec);
            }
        },
        PathCmd::Close => {
            let mut t: Vec<char> = Vec::new();
            t.push('z');
            cands.push(t);
            new_pen = start;
            proof {
                assert(vecs_view(cands@) =~= cands_spec);
            }
        },
    }
    let k = pick_idx(&cands, 0);
    append_chars(out, &cands[k]);
    (new_pen, new_start)
}

/// Re-encodes a whole command list from a fresh pen at the origin.
pub fn encode_path_data(cmds: &Vec<PathCmd>, p: u32) -> (r: Vec<char>)
    requires
        p <= 9,
        forall|k: int| 0 <= k < cmds@.len() ==> cmd_in_cap(#[trigger] cmds@[k]),
    ensures
        r@ == encode_path(cmds@, 0, (0, 0), (0, 0), p as nat),
{
    let mut out: Vec<char> = Vec::new();
    let mut pen: (i64, i64) = (0, 0);
    let mut start: (i64, i64) = (0, 0);
    let mut k: usize = 0;
    while k < cmds.len()
        invariant
            k <= cmds@.len(),
            p <= 9,
            forall|q: int| 0 <= q < cmds@.len() ==> cmd_in_cap(#[trigger] cmds@[q]),
            in_cap(pen.0 as int) && in_cap(pen.1 as int) && in_cap(start.0 as int) && in_cap(
                start.1 as int,
            ),
            out@ + encode_path(
                cmds@,
                k as int,
                (pen.0 as int, pen.1 as int),
                (start.0 as int, start.1 as int),
                p as nat,
            ) == encode_path(cmds@, 0, (0, 0), (0, 0), p as nat),
        decreases cmds@.len() - k,
    {
        let ghost pre = out@;
        let (np, ns) = encode_cmd(&cmds[k], pen, start, p, &mut out);
        proof {
            assert(out@ + encode_path(
                cmds@,
                k + 1,
                (np.0 as int, np.1 as int),
                (ns.0 as int, ns.1 as int),
                p as nat,
            ) =~= encode_path(cmds@, 0, (0, 0), (0, 0), p as nat));
        }
        pen = np;
        start = ns;
        k = k + 1;
    }
    proof {
        assert(out@ =~= encode_path(cmds@, 0, (0, 0), (0, 0), p as nat));
    }
    out
}

} // verus!
