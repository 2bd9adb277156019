//! Shared numeric codec: decimal fixed-point numbers.
//!
//! A numeric value is held as an integer `m` scaled by `10^p` for a
//! precision `p` (so `m = 10500`, `p = 3` stands for `10.5`). Rounding to
//! `p` fractional digits happens when a numeral is read, which makes all
//! later arithmetic on coordinates exact. Formatting renders the shortest
//! decimal form and strips a redundant leading `0` before the decimal
//! point (`0.5` becomes `.5`, `-0.5` becomes `-.5`).
//!
//! Reading saturates: accumulated digit values cap at `10^31` and the
//! final scaled value clamps to `10^15` in magnitude, so that every
//! computation fits fixed-width integers.

use vstd::prelude::*;

verus! {

/// Ten to the `n`.
pub open spec fn pow10(n: nat) -> nat
    decreases n,
{
    if n == 0 {
        1
    } else {
        10 * pow10((n - 1) as nat)
    }
}

/// Ten to the `n`, executable.
pub fn pow10_u64(n: u32) -> (r: u64)
    requires
        n <= 18,
    ensures
        r == pow10(n as nat),
{
    let mut r: u64 = 1;
    let mut i: u32 = 0;
    proof {
        lemma_pow10_bounds();
    }
    while i < n
        invariant
            i <= n <= 18,
            r == pow10(i as nat),
            r <= pow10(18),
            pow10(18) == 1_000_000_000_000_000_000,
        decreases n - i,
    {
        proof {
            lemma_pow10_mono(i as nat + 1, 18);
        }
        r = r * 10;
        i = i + 1;
    }
    r
}

/// Concrete values of the powers of ten used for bounds.
pub proof fn lemma_pow10_bounds()
    ensures
        pow10(18) == 1_000_000_000_000_000_000,
        pow10(15) == 1_000_000_000_000_000,
        pow10(9) == 1_000_000_000,
{
    reveal_with_fuel(pow10, 20);
    assert(pow10(18) == 1_000_000_000_000_000_000 && pow10(15) == 1_000_000_000_000_000 && pow10(9)
        == 1_000_000_000);
}

/// Powers of ten grow with the exponent.
pub proof fn lemma_pow10_mono(a: nat, b: nat)
    requires
        a <= b,
    ensures
        pow10(a) <= pow10(b),
        pow10(a) >= 1,
    decreases b,
{
    if a == b {
        lemma_pow10_pos(a);
    } else {
        lemma_pow10_mono(a, (b - 1) as nat);
    }
}

/// Powers of ten are positive.
pub proof fn lemma_pow10_pos(n: nat)
    ensures
        pow10(n) >= 1,
    decreases n,
{
    if n > 0 {
        lemma_pow10_pos((n - 1) as nat);
    }
}

/// Is `c` a decimal digit?
pub open spec fn is_digit(c: char) -> bool {
    48 <= c as u32 <= 57
}

/// The numeric value of a digit character.
pub open spec fn digit_val(c: char) -> int {
    c as u32 - 48
}

/// The character for digit `d`.
pub open spec fn digit_char(d: int) -> char {
    if d == 0 {
        '0'
    } else if d == 1 {
        '1'
    } else if d == 2 {
        '2'
    } else if d == 3 {
        '3'
    } else if d == 4 {
        '4'
    } else if d == 5 {
        '5'
    } else if d == 6 {
        '6'
    } else if d == 7 {
        '7'
    } else if d == 8 {
        '8'
    } else {
        '9'
    }
}

/// The character for digit `d`, executable.
pub fn digit_char_u64(d: u64) -> (c: char)
    requires
        d < 10,
    ensures
        c == digit_char(d as int),
{
    if d == 0 {
        '0'
    } else if d == 1 {
        '1'
    } else if d == 2 {
        '2'
    } else if d == 3 {
        '3'
    } else if d == 4 {
        '4'
    } else if d == 5 {
        '5'
    } else if d == 6 {
        '6'
    } else if d == 7 {
        '7'
    } else if d == 8 {
        '8'
    } else {
        '9'
    }
}

/// The decimal digits of `n`, most significant first, no leading zeros
/// (just `0` for zero).
pub open spec fn dec_digits(n: nat) -> Seq<char>
    decreases n,
{
    if n < 10 {
        seq![digit_char(n as int)]
    } else {
        dec_digits(n / 10) + seq![digit_char((n % 10) as int)]
    }
}

/// The decimal digits of `n`, executable.
pub fn dec_digits_u64(n: u64) -> (r: Vec<char>)
    ensures
        r@ == dec_digits(n as nat),
    decreases n,
{
    if n < 10 {
        let mut r: Vec<char> = Vec::new();
        r.push(digit_char_u64(n));
        proof {
            assert(r@ =~= dec_digits(n as nat));
        }
        r
    } else {
        let mut r = dec_digits_u64(n / 10);
        r.push(digit_char_u64(n % 10));
        proof {
            assert(r@ =~= dec_digits(n as nat));
        }
        r
    }
}

/// Exactly `w` decimal digits of `n` (mod `10^w`), leading zeros kept.
pub open spec fn fixed_digits(n: nat, w: nat) -> Seq<char>
    decreases w,
{
    if w == 0 {
        Seq::empty()
    } else {
        fixed_digits(n / 10, (w - 1) as nat) + seq![digit_char((n % 10) as int)]
    }
}

/// Exactly `w` digits of `n`, executable.
pub fn fixed_digits_u64(n: u64, w: u32) -> (r: Vec<char>)
    ensures
        r@ == fixed_digits(n as nat, w as nat),
    decreases w,
{
    if w == 0 {
        let r: Vec<char> = Vec::new();
        proof {
            assert(r@ =~= fixed_digits(n as nat, w as nat));
        }
        r
    } else {
        let mut r = fixed_digits_u64(n / 10, w - 1);
        r.push(digit_char_u64(n % 10));
        proof {
            assert(r@ =~= fixed_digits(n as nat, w as nat));
        }
        r
    }
}

/// `s` with every trailing `0` removed.
pub open spec fn strip_trailing_zeros(s: Seq<char>) -> Seq<char>
    decreases s.len(),
{
    if s.len() > 0 && s.last() == '0' {
        strip_trailing_zeros(s.drop_last())
    } else {
        s
    }
}

/// The rendered text of the scaled value `m` at precision `p`: shortest
/// decimal form, trailing fractional zeros dropped, a leading `0` before
/// the decimal point dropped, `-` for negative values.
pub open spec fn fmt_scaled(m: int, p: nat) -> Seq<char> {
    let a = (if m < 0 {
        -m
    } else {
        m
    }) as nat;
    let ip = a / pow10(p);
    let fp = a % pow10(p);
    let sign: Seq<char> = if m < 0 {
        seq!['-']
    } else {
        Seq::empty()
    };
    if fp == 0 {
        sign + dec_digits(ip)
    } else {
        let frac = strip_trailing_zeros(fixed_digits(fp, p));
        sign + (if ip == 0 {
            Seq::empty()
        } else {
            dec_digits(ip)
        }) + seq!['.'] + frac
    }
}

/// Renders the scaled value `m` at precision `p`.
pub fn format_scaled(m: i64, p: u32) -> (r: Vec<char>)
    requires
        p <= 9,
        -1_000_000_000_000_000_000 <= m <= 1_000_000_000_000_000_000,
    ensures
        r@ == fmt_scaled(m as int, p as nat),
{
    proof {
        lemma_pow10_bounds();
        lemma_pow10_mono(p as nat, 9);
    }
    let a: u64 = if m < 0 {
        (-m) as u64
    } else {
        m as u64
    };
    let q = pow10_u64(p);
    let ip = a / q;
    let fp = a % q;
    let mut r: Vec<char> = Vec::new();
    if m < 0 {
        r.push('-');
    }
    if fp == 0 {
        let mut d = dec_digits_u64(ip);
        r.append(&mut d);
        proof {
            assert(r@ =~= fmt_scaled(m as int, p as nat));
        }
        r
    } else {
        if ip != 0 {
            let mut d = dec_digits_u64(ip);
            r.append(&mut d);
        }
        r.push('.');
        let mut f = fixed_digits_u64(fp, p);
        while f.len() > 0 && f[f.len() - 1] == '0'
            invariant
                strip_trailing_zeros(f@) == strip_trailing_zeros(fixed_digits(
                    fp as nat,
                    p as nat,
                )),
            decreases f@.len(),
        {
            f.pop();
        }
        proof {
            assert(strip_trailing_zeros(f@) == f@);
        }
        r.append(&mut f);
        proof {
            assert(r@ =~= fmt_scaled(m as int, p as nat));
        }
        r
    }
}

/// Is `c` a decimal digit? Executable.
pub fn is_digit_c(c: char) -> (r: bool)
    ensures
        r == is_digit(c),
{
    let u = c as u32;
    48 <= u && u <= 57
}

/// The first position at or after `i` that does not hold a digit.
pub open spec fn scan_digits(s: Seq<char>, i: int) -> int
    decreases s.len() - i,
{
    if 0 <= i < s.len() && is_digit(s[i]) {
        scan_digits(s, i + 1)
    } else {
        i
    }
}

/// `scan_digits` moves forward, stays in bounds, and passes digits only.
pub proof fn lemma_scan_digits(s: Seq<char>, i: int)
    requires
        0 <= i <= s.len(),
    ensures
        i <= scan_digits(s, i) <= s.len(),
        forall|q: int| i <= q < scan_digits(s, i) ==> is_digit(#[trigger] s[q]),
    decreases s.len() - i,
{
    if 0 <= i < s.len() && is_digit(s[i]) {
        lemma_scan_digits(s, i + 1);
    }
}

/// The first non-digit position, executable.
pub fn scan_digits_x(v: &Vec<char>, i: usize) -> (r: usize)
    requires
        i <= v@.len(),
    ensures
        r == scan_digits(v@, i as int),
        i <= r <= v@.len(),
    decreases v@.len() - i,
{
    if i < v.len() && is_digit_c(v[i]) {
        scan_digits_x(v, i + 1)
    } else {
        i
    }
}

/// Digit accumulation over `s[i..j]`, saturating at `10^31`: further
/// digits leave the value unchanged.
pub open spec fn acc_sat(s: Seq<char>, i: int, j: int, acc: int) -> int
    decreases j - i,
{
    if i >= j {
        acc
    } else if acc >= 10_000_000_000_000_000_000_000_000_000_000 {
        acc_sat(s, i + 1, j, acc)
    } else {
        acc_sat(s, i + 1, j, acc * 10 + digit_val(s[i]))
    }
}

/// Saturating accumulation keeps its bounds.
pub proof fn lemma_acc_sat_bound(s: Seq<char>, i: int, j: int, acc: int)
    requires
        0 <= acc <= 100_000_000_000_000_000_000_000_000_000_009,
        forall|q: int| i <= q < j ==> is_digit(#[trigger] s[q]),
    ensures
        0 <= acc_sat(s, i, j, acc) <= 100_000_000_000_000_000_000_000_000_000_009,
    decreases j - i,
{
    if i < j {
        if acc >= 10_000_000_000_000_000_000_000_000_000_000 {
            lemma_acc_sat_bound(s, i + 1, j, acc);
        } else {
            lemma_acc_sat_bound(s, i + 1, j, acc * 10 + digit_val(s[i]));
        }
    }
}

/// Saturating accumulation, executable.
pub fn acc_sat_x(v: &Vec<char>, i: usize, j: usize, acc: i128) -> (r: i128)
    requires
        i <= j <= v@.len(),
        0 <= acc <= 100_000_000_000_000_000_000_000_000_000_009,
        forall|q: int| i <= q < j ==> is_digit(#[trigger] v@[q]),
    ensures
        r == acc_sat(v@, i as int, j as int, acc as int),
        0 <= r <= 100_000_000_000_000_000_000_000_000_000_009,
    decreases j - i,
{
    if i >= j {
        acc
    } else if acc >= 10_000_000_000_000_000_000_000_000_000_000 {
        acc_sat_x(v, i + 1, j, acc)
    } else {
        let d = (v[i] as u32 - 48) as i128;
        acc_sat_x(v, i + 1, j, acc * 10 + d)
    }
}

/// Fraction-digit accumulation: saturates like `acc_sat`, and counts how
/// many digits actually entered the value.
pub open spec fn acc_frac(s: Seq<char>, i: int, j: int, acc: int, flen: int) -> (int, int)
    decreases j - i,
{
    if i >= j {
        (acc, flen)
    } else if acc >= 10_000_000_000_000_000_000_000_000_000_000 {
        acc_frac(s, i + 1, j, acc, flen)
    } else {
        acc_frac(s, i + 1, j, acc * 10 + digit_val(s[i]), flen + 1)
    }
}

/// Fraction accumulation keeps its bounds.
pub proof fn lemma_acc_frac_bound(s: Seq<char>, i: int, j: int, acc: int, flen: int)
    requires
        i <= j,
        0 <= acc <= 100_000_000_000_000_000_000_000_000_000_009,
        0 <= flen,
        forall|q: int| i <= q < j ==> is_digit(#[trigger] s[q]),
    ensures
        0 <= acc_frac(s, i, j, acc, flen).0 <= 100_000_000_000_000_000_000_000_000_000_009,
        flen <= acc_frac(s, i, j, acc, flen).1 <= flen + (j - i),
    decreases j - i,
{
    if i < j {
        if acc >= 10_000_000_000_000_000_000_000_000_000_000 {
            lemma_acc_frac_bound(s, i + 1, j, acc, flen);
        } else {
            lemma_acc_frac_bound(s, i + 1, j, acc * 10 + digit_val(s[i]), flen + 1);
        }
    }
}

/// Fraction accumulation, executable.
pub fn acc_frac_x(v: &Vec<char>, i: usize, j: usize, acc: i128, flen: usize) -> (r: (i128, usize))
    requires
        i <= j <= v@.len(),
        0 <= acc <= 100_000_000_000_000_000_000_000_000_000_009,
        flen <= i,
        forall|q: int| i <= q < j ==> is_digit(#[trigger] v@[q]),
    ensures
        r.0 == acc_frac(v@, i as int, j as int, acc as int, flen as int).0,
        r.1 == acc_frac(v@, i as int, j as int, acc as int, flen as int).1,
        0 <= r.0 <= 100_000_000_000_000_000_000_000_000_000_009,
        r.1 <= j,
    decreases j - i,
{
    if i >= j {
        (acc, flen)
    } else if acc >= 10_000_000_000_000_000_000_000_000_000_000 {
        acc_frac_x(v, i + 1, j, acc, flen)
    } else {
        let d = (v[i] as u32 - 48) as i128;
        acc_frac_x(v, i + 1, j, acc * 10 + d, flen + 1)
    }
}

/// Exponent-digit accumulation, saturating at four digits.
pub open spec fn acc_exp(s: Seq<char>, i: int, j: int, acc: int) -> int
    decreases j - i,
{
    if i >= j {
        acc
    } else if acc >= 10000 {
        acc_exp(s, i + 1, j, acc)
    } else {
        acc_exp(s, i + 1, j, acc * 10 + digit_val(s[i]))
    }
}

/// Exponent accumulation keeps its bounds.
pub proof fn lemma_acc_exp_bound(s: Seq<char>, i: int, j: int, acc: int)
    requires
        0 <= acc <= 100009,
        forall|q: int| i <= q < j ==> is_digit(#[trigger] s[q]),
    ensures
        0 <= acc_exp(s, i, j, acc) <= 100009,
    decreases j - i,
{
    if i < j {
        if acc >= 10000 {
            lemma_acc_exp_bound(s, i + 1, j, acc);
        } else {
            lemma_acc_exp_bound(s, i + 1, j, acc * 10 + digit_val(s[i]));
        }
    }
}

/// Exponent accumulation, executable.
pub fn acc_exp_x(v: &Vec<char>, i: usize, j: usize, acc: i64) -> (r: i64)
    requires
        i <= j <= v@.len(),
        0 <= acc <= 100009,
        forall|q: int| i <= q < j ==> is_digit(#[trigger] v@[q]),
    ensures
        r == acc_exp(v@, i as int, j as int, acc as int),
        0 <= r <= 100009,
    decreases j - i,
{
    if i >= j {
        acc
    } else if acc >= 10000 {
        acc_exp_x(v, i + 1, j, acc)
    } else {
        let d = (v[i] as u32 - 48) as i64;
        acc_exp_x(v, i + 1, j, acc * 10 + d)
    }
}

/// Multiplies by ten `k` times, clamping at `10^15`.
pub open spec fn mul10_clamp(vv: int, k: nat) -> int
    decreases k,
{
    if k == 0 {
        vv
    } else if vv * 10 >= 1_000_000_000_000_000 {
        mul10_clamp(1_000_000_000_000_000, (k - 1) as nat)
    } else {
        mul10_clamp(vv * 10, (k - 1) as nat)
    }
}

/// Clamped multiplication keeps its bounds.
pub proof fn lemma_mul10_clamp_bound(vv: int, k: nat)
    requires
        0 <= vv <= 100_000_000_000_000_000_000_000_000_000_009,
    ensures
        0 <= mul10_clamp(vv, k) <= 100_000_000_000_000_000_000_000_000_000_009,
    decreases k,
{
    if k > 0 {
        if vv * 10 >= 1_000_000_000_000_000 {
            lemma_mul10_clamp_bound(1_000_000_000_000_000, (k - 1) as nat);
        } else {
            lemma_mul10_clamp_bound(vv * 10, (k - 1) as nat);
        }
    }
}

/// Clamped multiplication, executable.
pub fn mul10_clamp_x(vv: i128, k: u64) -> (r: i128)
    requires
        0 <= vv <= 100_000_000_000_000_000_000_000_000_000_009,
    ensures
        r == mul10_clamp(vv as int, k as nat),
        0 <= r <= 100_000_000_000_000_000_000_000_000_000_009,
    decreases k,
{
    if k == 0 {
        vv
    } else if vv >= 100_000_000_000_000 {
        proof {
            lemma_mul10_clamp_bound(1_000_000_000_000_000, (k - 1) as nat);
        }
        if vv * 10 >= 1_000_000_000_000_000 {
            mul10_clamp_x(1_000_000_000_000_000, k - 1)
        } else {
            mul10_clamp_x(vv * 10, k - 1)
        }
    } else {
        mul10_clamp_x(vv * 10, k - 1)
    }
}

/// Divides a non-negative value by `10^k`, rounding half away from zero.
pub open spec fn round_div_pow10(vv: int, k: nat) -> int {
    if k > 33 {
        0
    } else {
        (vv + (pow10(k) as int) / 2) / (pow10(k) as int)
    }
}

/// Division by a power of ten, executable.
pub fn round_div_pow10_x(vv: i128, k: u64) -> (r: i128)
    requires
        0 <= vv <= 100_000_000_000_000_000_000_000_000_000_009,
    ensures
        r == round_div_pow10(vv as int, k as nat),
        0 <= r <= 100_000_000_000_000_000_000_000_000_000_009,
{
    if k > 33 {
        proof {
            if (k as nat) <= 33 {
                assert(false);
            }
        }
        0
    } else {
        let q = pow10_i128(k as u32);
        proof {
            lemma_pow10_pos(k as nat);
            assert((vv as int + (q as int) / 2) / (q as int) <= vv as int) by (nonlinear_arith)
                requires
                    q as int >= 1 && vv as int >= 0,
            ;
        }
        (vv + q / 2) / q
    }
}

/// Ten to the `n` as a wide integer, executable.
pub fn pow10_i128(n: u32) -> (r: i128)
    requires
        n <= 33,
    ensures
        r == pow10(n as nat),
        r >= 1,
{
    let mut r: i128 = 1;
    let mut i: u32 = 0;
    proof {
        reveal_with_fuel(pow10, 35);
        assert(pow10(33) == 1_000_000_000_000_000_000_000_000_000_000_000);
    }
    while i < n
        invariant
            i <= n <= 33,
            r == pow10(i as nat),
            pow10(33) == 1_000_000_000_000_000_000_000_000_000_000_000,
        decreases n - i,
    {
        proof {
            lemma_pow10_mono(i as nat + 1, 33);
        }
        r = r * 10;
        i = i + 1;
    }
    r
}

/// Clamps a non-negative scaled value at `10^15`.
pub open spec fn clamp_cap(vv: int) -> int {
    if vv > 1_000_000_000_000_000 {
        1_000_000_000_000_000
    } else {
        vv
    }
}

/// The outcome of reading one numeral: whether one was there, its scaled
/// value, and the position after it.
pub struct NumScan {
    pub ok: bool,
    pub val: int,
    pub end: int,
}

/// Reads one signed decimal numeral (optional fraction, optional
/// exponent) at position `i`, as a value scaled by `10^p` and rounded
/// half away from zero to `p` fractional digits. `ok` is false when no
/// digit is present; the exponent marker is consumed only when digits
/// follow it.
pub open spec fn scan_number(s: Seq<char>, i: int, p: nat) -> NumScan {
    let neg = 0 <= i < s.len() && s[i] == '-';
    let sgn_end = if 0 <= i < s.len() && (s[i] == '-' || s[i] == '+') {
        i + 1
    } else {
        i
    };
    let int_end = scan_digits(s, sgn_end);
    let has_dot = 0 <= int_end < s.len() && s[int_end] == '.';
    let frac_end = if has_dot {
        scan_digits(s, int_end + 1)
    } else {
        int_end
    };
    let ok = int_end > sgn_end || (has_dot && frac_end > int_end + 1);
    if !ok {
        NumScan { ok: false, val: 0, end: i }
    } else {
        let d0 = acc_sat(s, sgn_end, int_end, 0);
        let df = if has_dot {
            acc_frac(s, int_end + 1, frac_end, d0, 0)
        } else {
            (d0, 0int)
        };
        let e_mark = 0 <= frac_end < s.len() && (s[frac_end] == 'e' || s[frac_end] == 'E');
        let es = if e_mark && frac_end + 1 < s.len() && (s[frac_end + 1] == '-' || s[frac_end + 1]
            == '+') {
            frac_end + 2
        } else {
            frac_end + 1
        };
        let e_end = if e_mark {
            scan_digits(s, es)
        } else {
            frac_end
        };
        let e_any = e_mark && e_end > es;
        let end = if e_any {
            e_end
        } else {
            frac_end
        };
        let eneg = e_any && s[frac_end + 1] == '-';
        let eval = if e_any {
            acc_exp(s, es, e_end, 0)
        } else {
            0
        };
        let sa = (if eneg {
            -eval
        } else {
            eval
        }) + p - df.1;
        let mag = if sa >= 0 {
            mul10_clamp(df.0, sa as nat)
        } else {
            round_div_pow10(df.0, (-sa) as nat)
        };
        let mag2 = clamp_cap(mag);
        NumScan {
            ok: true,
            val: if neg {
                -mag2
            } else {
                mag2
            },
            end,
        }
    }
}

/// Reads one numeral, executable: exactly `scan_number`.
#[verifier::rlimit(50)]
pub fn parse_scaled(v: &Vec<char>, i: usize, p: u32) -> (r: (bool, i64, usize))
    requires
        i <= v@.len(),
        p <= 9,
    ensures
        r.0 == scan_number(v@, i as int, p as nat).ok,
        r.1 == scan_number(v@, i as int, p as nat).val,
        r.2 == scan_number(v@, i as int, p as nat).end,
        i <= r.2 <= v@.len(),
        -1_000_000_000_000_000 <= r.1 <= 1_000_000_000_000_000,
{
    let ghost sc = scan_number(v@, i as int, p as nat);
    let neg = i < v.len() && v[i] == '-';
    let sgn_end = if i < v.len() && (v[i] == '-' || v[i] == '+') {
        i + 1
    } else {
        i
    };
    proof {
        lemma_scan_digits(v@, sgn_end as int);
    }
    let int_end = scan_digits_x(v, sgn_end);
    let has_dot = int_end < v.len() && v[int_end] == '.';
    let frac_end = if has_dot {
        proof {
            lemma_scan_digits(v@, int_end + 1);
        }
        scan_digits_x(v, int_end + 1)
    } else {
        int_end
    };
    let ok = int_end > sgn_end || (has_dot && frac_end > int_end + 1);
    if !ok {
        (false, 0, i)
    } else {
        let d0 = acc_sat_x(v, sgn_end, int_end, 0);
        let (dv, flen) = if has_dot {
            acc_frac_x(v, int_end + 1, frac_end, d0, 0)
        } else {
            (d0, 0usize)
        };
        let e_mark = frac_end < v.len() && (v[frac_end] == 'e' || v[frac_end] == 'E');
        let mut e_any = false;
        let mut end = frac_end;
        let mut eval: i64 = 0;
        let mut eneg = false;
        if e_mark {
            let es = if frac_end + 1 < v.len() && (v[frac_end + 1] == '-' || v[frac_end + 1]
                == '+') {
                frac_end + 2
            } else {
                frac_end + 1
            };
            proof {
                lemma_scan_digits(v@, es as int);
            }
            let e_end = scan_digits_x(v, es);
            if e_end > es {
                e_any = true;
                end = e_end;
                eneg = v[frac_end + 1] == '-';
                eval = acc_exp_x(v, es, e_end, 0);
            }
        }
        let sa: i128 = (if eneg {
            -(eval as i128)
        } else {
            eval as i128
        }) + (p as i128) - (flen as i128);
        let mag = if sa >= 0 {
            mul10_clamp_x(dv, sa as u64)
        } else if sa < -33 {
            0
        } else {
            round_div_pow10_x(dv, (-sa) as u64)
        };
        let mag2: i64 = if mag > 1_000_000_000_000_000 {
            1_000_000_000_000_000
        } else {
            mag as i64
        };
        let val = if neg {
            -mag2
        } else {
            mag2
        };
        (true, val, end)
    }
}

/// The rendered text with the leading zero kept (`0.5` stays `0.5`).
pub open spec fn fmt_scaled_full(m: int, p: nat) -> Seq<char> {
    let a = (if m < 0 {
        -m
    } else {
        m
    }) as nat;
    let ip = a / pow10(p);
    let fp = a % pow10(p);
    let sign: Seq<char> = if m < 0 {
        seq!['-']
    } else {
        Seq::empty()
    };
    if fp == 0 {
        sign + dec_digits(ip)
    } else {
        sign + dec_digits(ip) + seq!['.'] + strip_trailing_zeros(fixed_digits(fp, p))
    }
}

/// Renders the scaled value, keeping the leading zero.
pub fn format_scaled_full(m: i64, p: u32) -> (r: Vec<char>)
    requires
        p <= 9,
        -1_000_000_000_000_000_000 <= m <= 1_000_000_000_000_000_000,
    ensures
        r@ == fmt_scaled_full(m as int, p as nat),
{
    proof {
        lemma_pow10_bounds();
        lemma_pow10_mono(p as nat, 9);
    }
    let a: u64 = if m < 0 {
        (-m) as u64
    } else {
        m as u64
    };
    let q = pow10_u64(p);
    let ip = a / q;
    let fp = a % q;
    let mut r: Vec<char> = Vec::new();
    if m < 0 {
        r.push('-');
    }
    let mut d = dec_digits_u64(ip);
    r.append(&mut d);
    if fp == 0 {
        proof {
            assert(r@ =~= fmt_scaled_full(m as int, p as nat));
        }
        r
    } else {
        r.push('.');
        let mut f = fixed_digits_u64(fp, p);
        while f.len() > 0 && f[f.len() - 1] == '0'
            invariant
                strip_trailing_zeros(f@) == strip_trailing_zeros(fixed_digits(
                    fp as nat,
                    p as nat,
                )),
            decreases f@.len(),
        {
            f.pop();
        }
        proof {
            assert(strip_trailing_zeros(f@) == f@);
        }
        r.append(&mut f);
        proof {
            assert(r@ =~= fmt_scaled_full(m as int, p as nat));
        }
        r
    }
}

// ---------------------------------------------------------------------
// Round trip: scanning a rendered numeral recovers the value
// ---------------------------------------------------------------------
/// The numeric value of a digit text, most significant first.
pub open spec fn dval(s: Seq<char>) -> int
    decreases s.len(),
{
    if s.len() == 0 {
        0
    } else {
        dval(s.drop_last()) * 10 + digit_val(s.last())
    }
}

/// Rendering a digit and reading it back is the identity.
pub proof fn lemma_digit_roundtrip(d: int)
    requires
        0 <= d < 10,
    ensures
        digit_val(digit_char(d)) == d,
        is_digit(digit_char(d)),
{
    assert(digit_val(digit_char(0)) == 0 && is_digit(digit_char(0)));
    assert(digit_val(digit_char(1)) == 1 && is_digit(digit_char(1)));
    assert(digit_val(digit_char(2)) == 2 && is_digit(digit_char(2)));
    assert(digit_val(digit_char(3)) == 3 && is_digit(digit_char(3)));
    assert(digit_val(digit_char(4)) == 4 && is_digit(digit_char(4)));
    assert(digit_val(digit_char(5)) == 5 && is_digit(digit_char(5)));
    assert(digit_val(digit_char(6)) == 6 && is_digit(digit_char(6)));
    assert(digit_val(digit_char(7)) == 7 && is_digit(digit_char(7)));
    assert(digit_val(digit_char(8)) == 8 && is_digit(digit_char(8)));
    assert(digit_val(digit_char(9)) == 9 && is_digit(digit_char(9)));
}

/// Digit texts have non-negative values.
pub proof fn lemma_dval_nonneg(s: Seq<char>)
    requires
        forall|q: int| 0 <= q < s.len() ==> is_digit(#[trigger] s[q]),
    ensures
        dval(s) >= 0,
    decreases s.len(),
{
    if s.len() > 0 {
        lemma_dval_nonneg(s.drop_last());
        assert(dval(s.drop_last()) * 10 >= 0) by (nonlinear_arith)
            requires
                dval(s.drop_last()) >= 0,
        ;
    }
}

/// A digit text's value, split at its first digit.
pub proof fn lemma_dval_first(s: Seq<char>)
    requires
        s.len() > 0,
    ensures
        dval(s) == digit_val(s[0]) * pow10((s.len() - 1) as nat) + dval(s.drop_first()),
    decreases s.len(),
{
    if s.len() == 1 {
        assert(s.drop_last() =~= Seq::<char>::empty());
        assert(s.drop_first() =~= Seq::<char>::empty());
        assert(pow10(0) == 1);
        assert(s.last() == s[0]);
        assert(digit_val(s[0]) * 1 == digit_val(s[0])) by (nonlinear_arith);
    } else {
        lemma_dval_first(s.drop_last());
        assert(s.drop_last()[0] == s[0]);
        assert(s.drop_last().drop_first() =~= s.drop_first().drop_last());
        assert(s.drop_first().last() == s.last());
        let w = (s.len() - 2) as nat;
        assert(dval(s) == (digit_val(s[0]) * pow10(w) + dval(s.drop_first().drop_last())) * 10
            + digit_val(s.last()));
        assert((digit_val(s[0]) * pow10(w) + dval(s.drop_first().drop_last())) * 10 == digit_val(
            s[0],
        ) * (pow10(w) * 10) + dval(s.drop_first().drop_last()) * 10) by (nonlinear_arith);
        assert(pow10(w) * 10 == pow10((w + 1) as nat));
    }
}

/// The decimal rendering of `n` is a digit text whose value is `n`.
pub proof fn lemma_dec_digits_props(n: nat)
    ensures
        dec_digits(n).len() >= 1,
        forall|q: int| 0 <= q < dec_digits(n).len() ==> is_digit(#[trigger] dec_digits(n)[q]),
        dval(dec_digits(n)) == n,
    decreases n,
{
    if n < 10 {
        let s = dec_digits(n);
        assert(s.drop_last() =~= Seq::<char>::empty());
        lemma_digit_roundtrip(n as int);
        assert(s.last() == digit_char(n as int));
        assert(dval(s) == dval(s.drop_last()) * 10 + digit_val(s.last()));
        assert(dval(Seq::<char>::empty()) == 0);
        assert(0 * 10 + digit_val(digit_char(n as int)) == n) by (nonlinear_arith)
            requires
                digit_val(digit_char(n as int)) == n,
        ;
    } else {
        lemma_dec_digits_props(n / 10);
        let s = dec_digits(n);
        assert(s.drop_last() =~= dec_digits(n / 10));
        assert(s.last() == digit_char((n % 10) as int));
        lemma_digit_roundtrip((n % 10) as int);
        assert(dval(s) == (n / 10) * 10 + n % 10);
        assert((n / 10) * 10 + n % 10 == n) by (nonlinear_arith);
    }
}

/// The fixed-width rendering of `n mod 10^w` is `w` digits whose value
/// is `n mod 10^w`.
pub proof fn lemma_fixed_digits_props(n: nat, w: nat)
    ensures
        fixed_digits(n, w).len() == w,
        forall|q: int| 0 <= q < w ==> is_digit(#[trigger] fixed_digits(n, w)[q]),
        dval(fixed_digits(n, w)) == n % pow10(w),
    decreases w,
{
    if w == 0 {
        assert(pow10(0) == 1);
        assert(n % 1 == 0) by (nonlinear_arith);
    } else {
        lemma_fixed_digits_props(n / 10, (w - 1) as nat);
        let s = fixed_digits(n, w);
        assert(s.drop_last() =~= fixed_digits(n / 10, (w - 1) as nat));
        lemma_digit_roundtrip((n % 10) as int);
        let pw = pow10((w - 1) as nat) as int;
        assert(dval(s) == ((n / 10) as int % pw) * 10 + n % 10);
        lemma_pow10_pos((w - 1) as nat);
        let q = (n / 10) as int / pw;
        let r = (n / 10) as int % pw;
        assert((n / 10) as int == q * pw + r && 0 <= r < pw) by (nonlinear_arith)
            requires
                pw >= 1 && q == (n / 10) as int / pw && r == (n / 10) as int % pw,
        ;
        assert(n as int == q * (pw * 10) + (r * 10 + n % 10)) by (nonlinear_arith)
            requires
                (n / 10) as int == q * pw + r,
        ;
        assert(0 <= r * 10 + n % 10 < pw * 10) by (nonlinear_arith)
            requires
                0 <= r < pw,
        ;
        assert(n as int % (pw * 10) == r * 10 + n % 10) by (nonlinear_arith)
            requires
                n as int == q * (pw * 10) + (r * 10 + n % 10) && 0 <= r * 10 + n % 10 < pw * 10,
        ;
        assert(pw * 10 == pow10(w));
    }
}

/// Stripping trailing zeros divides the value by the matching power of
/// ten, exactly.
pub proof fn lemma_strip_props(s: Seq<char>)
    requires
        forall|q: int| 0 <= q < s.len() ==> is_digit(#[trigger] s[q]),
    ensures
        strip_trailing_zeros(s).len() <= s.len(),
        forall|q: int|
            0 <= q < strip_trailing_zeros(s).len() ==> is_digit(
                #[trigger] strip_trailing_zeros(s)[q],
            ),
        dval(s) == dval(strip_trailing_zeros(s)) * pow10((s.len() - strip_trailing_zeros(s).len()) as nat),
    decreases s.len(),
{
    let f = strip_trailing_zeros(s);
    if s.len() > 0 && s.last() == '0' {
        assert(forall|q: int|
            0 <= q < s.drop_last().len() ==> is_digit(#[trigger] s.drop_last()[q]));
        lemma_strip_props(s.drop_last());
        assert(digit_val(s.last()) == 0);
        assert(dval(s) == dval(s.drop_last()) * 10);
        let k = (s.drop_last().len() - f.len()) as nat;
        assert(dval(s.drop_last()) == dval(f) * pow10(k));
        assert(dval(f) * pow10(k) * 10 == dval(f) * (pow10(k) * 10)) by (nonlinear_arith);
        assert(pow10(k) * 10 == pow10((k + 1) as nat));
    } else {
        assert(pow10(0) == 1);
        assert(dval(f) * 1 == dval(f)) by (nonlinear_arith);
    }
}

/// Scanning stops exactly at the end of a known digit run.
pub proof fn lemma_scan_digits_exact(s: Seq<char>, i: int, j: int)
    requires
        0 <= i <= j <= s.len(),
        forall|q: int| i <= q < j ==> is_digit(#[trigger] s[q]),
        j == s.len() || !is_digit(s[j]),
    ensures
        scan_digits(s, i) == j,
    decreases j - i,
{
    if i < j {
        lemma_scan_digits_exact(s, i + 1, j);
    }
}

/// Saturating accumulation of a digit run equals the positional value,
/// as long as the result stays below the saturation bound.
pub proof fn lemma_acc_sat_value(s: Seq<char>, i: int, j: int, acc: int)
    requires
        0 <= i <= j <= s.len(),
        forall|q: int| i <= q < j ==> is_digit(#[trigger] s[q]),
        acc >= 0,
        acc * pow10((j - i) as nat) + dval(s.subrange(i, j)) < 10_000_000_000_000_000_000_000_000_000_000,
    ensures
        acc_sat(s, i, j, acc) == acc * pow10((j - i) as nat) + dval(s.subrange(i, j)),
    decreases j - i,
{
    let t = s.subrange(i, j);
    assert(forall|q: int| 0 <= q < t.len() ==> is_digit(#[trigger] t[q]));
    lemma_dval_nonneg(t);
    lemma_pow10_pos((j - i) as nat);
    if i >= j {
        assert(t =~= Seq::<char>::empty());
        assert(pow10(0) == 1);
        assert(acc_sat(s, i, j, acc) == acc);
        assert(acc * 1 == acc) by (nonlinear_arith);
    } else {
        lemma_dval_first(t);
        assert(t[0] == s[i]);
        assert(t.drop_first() =~= s.subrange(i + 1, j));
        let acc2 = acc * 10 + digit_val(s[i]);
        assert(acc < 10_000_000_000_000_000_000_000_000_000_000) by {
            assert(acc <= acc * pow10((j - i) as nat)) by (nonlinear_arith)
                requires
                    acc >= 0 && pow10((j - i) as nat) >= 1,
            ;
            lemma_dval_nonneg(t);
        };
        assert(acc_sat(s, i, j, acc) == acc_sat(s, i + 1, j, acc2));
        assert(acc2 * pow10((j - i - 1) as nat) + dval(s.subrange(i + 1, j)) == acc * pow10(
            (j - i) as nat,
        ) + dval(t)) by {
            assert(pow10((j - i) as nat) == 10 * pow10((j - i - 1) as nat));
            assert((acc * 10 + digit_val(s[i])) * pow10((j - i - 1) as nat) == acc * (10 * pow10(
                (j - i - 1) as nat,
            )) + digit_val(s[i]) * pow10((j - i - 1) as nat)) by (nonlinear_arith);
            lemma_dval_first(t);
        };
        assert(acc2 >= 0);
        lemma_acc_sat_value(s, i + 1, j, acc2);
        assert(acc_sat(s, i + 1, j, acc2) == acc2 * pow10((j - i - 1) as nat) + dval(
            s.subrange(i + 1, j),
        ));
    }
}

/// Fraction accumulation of a digit run: the combined value, and the
/// run's length.
pub proof fn lemma_acc_frac_value(s: Seq<char>, i: int, j: int, acc: int)
    requires
        0 <= i <= j <= s.len(),
        forall|q: int| i <= q < j ==> is_digit(#[trigger] s[q]),
        acc >= 0,
        acc * pow10((j - i) as nat) + dval(s.subrange(i, j)) < 10_000_000_000_000_000_000_000_000_000_000,
    ensures
        acc_frac(s, i, j, acc, 0).0 == acc * pow10((j - i) as nat) + dval(s.subrange(i, j)),
        acc_frac(s, i, j, acc, 0).1 == j - i,
{
    lemma_acc_frac_gen(s, i, j, acc, 0);
}

/// Fraction accumulation, generalized over the running length.
pub proof fn lemma_acc_frac_gen(s: Seq<char>, i: int, j: int, acc: int, fl: int)
    requires
        0 <= i <= j <= s.len(),
        forall|q: int| i <= q < j ==> is_digit(#[trigger] s[q]),
        acc >= 0,
        acc * pow10((j - i) as nat) + dval(s.subrange(i, j)) < 10_000_000_000_000_000_000_000_000_000_000,
    ensures
        acc_frac(s, i, j, acc, fl).0 == acc * pow10((j - i) as nat) + dval(s.subrange(i, j)),
        acc_frac(s, i, j, acc, fl).1 == fl + (j - i),
    decreases j - i,
{
    let t = s.subrange(i, j);
    assert(forall|q: int| 0 <= q < t.len() ==> is_digit(#[trigger] t[q]));
    lemma_dval_nonneg(t);
    lemma_pow10_pos((j - i) as nat);
    if i >= j {
        assert(t =~= Seq::<char>::empty());
        assert(pow10(0) == 1);
        assert(acc_frac(s, i, j, acc, fl) == (acc, fl));
        assert(acc * 1 == acc) by (nonlinear_arith);
    } else {
        lemma_dval_first(t);
        assert(t[0] == s[i]);
        assert(t.drop_first() =~= s.subrange(i + 1, j));
        let acc2 = acc * 10 + digit_val(s[i]);
        assert(acc < 10_000_000_000_000_000_000_000_000_000_000) by {
            assert(acc <= acc * pow10((j - i) as nat)) by (nonlinear_arith)
                requires
                    acc >= 0 && pow10((j - i) as nat) >= 1,
            ;
            lemma_dval_nonneg(t);
        };
        assert(acc_frac(s, i, j, acc, fl) == acc_frac(s, i + 1, j, acc2, fl + 1));
        assert(acc2 * pow10((j - i - 1) as nat) + dval(s.subrange(i + 1, j)) == acc * pow10(
            (j - i) as nat,
        ) + dval(t)) by {
            assert(pow10((j - i) as nat) == 10 * pow10((j - i - 1) as nat));
            assert((acc * 10 + digit_val(s[i])) * pow10((j - i - 1) as nat) == acc * (10 * pow10(
                (j - i - 1) as nat,
            )) + digit_val(s[i]) * pow10((j - i - 1) as nat)) by (nonlinear_arith);
            lemma_dval_first(t);
        };
        lemma_acc_frac_gen(s, i + 1, j, acc2, fl + 1);
        assert(acc_frac(s, i + 1, j, acc2, fl + 1).0 == acc2 * pow10((j - i - 1) as nat) + dval(
            s.subrange(i + 1, j),
        ));
    }
}

/// Clamped multiplication is exact while the product stays in range.
pub proof fn lemma_mul10_exact(v: int, k: nat)
    requires
        0 <= v,
        v * pow10(k) <= 1_000_000_000_000_000,
    ensures
        mul10_clamp(v, k) == v * pow10(k),
    decreases k,
{
    lemma_pow10_pos(k);
    if k == 0 {
        assert(pow10(0) == 1);
        assert(v * 1 == v) by (nonlinear_arith);
    } else {
        assert(pow10(k) == 10 * pow10((k - 1) as nat));
        lemma_pow10_pos((k - 1) as nat);
        assert(v * 10 * pow10((k - 1) as nat) == v * pow10(k)) by (nonlinear_arith)
            requires
                pow10(k) == 10 * pow10((k - 1) as nat),
        ;
        assert(v * 10 <= v * 10 * pow10((k - 1) as nat)) by (nonlinear_arith)
            requires
                v >= 0 && pow10((k - 1) as nat) >= 1,
        ;
        if v * 10 >= 1_000_000_000_000_000 {
            assert(v * 10 == 1_000_000_000_000_000);
            assert(1_000_000_000_000_000 * pow10((k - 1) as nat) <= 1_000_000_000_000_000);
            assert(pow10((k - 1) as nat) == 1) by (nonlinear_arith)
                requires
                    1_000_000_000_000_000 * pow10((k - 1) as nat) <= 1_000_000_000_000_000
                        && pow10((k - 1) as nat) >= 1,
            ;
            lemma_mul10_exact(1_000_000_000_000_000, (k - 1) as nat);
        } else {
            lemma_mul10_exact(v * 10, (k - 1) as nat);
        }
    }
}

/// Does the text after a rendered numeral leave the numeral intact? A
/// following digit, decimal point or exponent mark would extend it;
/// anything else (a space, a sign, a command letter, the end) stops the
/// scanner exactly at the boundary.
pub open spec fn numeral_boundary(rest: Seq<char>) -> bool {
    rest.len() == 0 || !(is_digit(rest[0]) || rest[0] == '.' || rest[0] == 'e' || rest[0] == 'E')
}

/// Round trip of the numeric codec: scanning a rendered numeral (with
/// any boundary text behind it) succeeds, recovers the scaled value
/// exactly, and stops right after the numeral. This is what makes
/// re-encoded path data decode to the same coordinates.
#[verifier::rlimit(100)]
pub proof fn lemma_scan_of_fmt(m: int, p: nat, rest: Seq<char>)
    requires
        p <= 9,
        -1_000_000_000_000_000 <= m <= 1_000_000_000_000_000,
        numeral_boundary(rest),
    ensures
        scan_number(fmt_scaled(m, p) + rest, 0, p).ok,
        scan_number(fmt_scaled(m, p) + rest, 0, p).val == m,
        scan_number(fmt_scaled(m, p) + rest, 0, p).end == fmt_scaled(m, p).len(),
{
    let pw = pow10(p) as int;
    lemma_pow10_pos(p);
    lemma_pow10_bounds();
    lemma_pow10_mono(p, 9);
    let a = (if m < 0 { -m } else { m }) as nat;
    let ip = a / pow10(p);
    let fp = a % pow10(p);
    assert(a == ip * pow10(p) + fp && fp < pow10(p)) by (nonlinear_arith)
        requires
            ip == a / pow10(p) && fp == a % pow10(p) && pow10(p) >= 1,
    ;
    lemma_dec_digits_props(ip);
    let ipd = dec_digits(ip);
    let f = fmt_scaled(m, p);
    let s = f + rest;
    let sg: int = if m < 0 { 1 } else { 0 };
    let sign: Seq<char> = if m < 0 { seq!['-'] } else { Seq::empty() };
    if fp == 0 {
        assert(f == sign + ipd);
        let l = f.len() as int;
        assert(l == sg + ipd.len());
        assert(s.subrange(sg, l) =~= ipd);
        assert(forall|q: int| sg <= q < l ==> is_digit(#[trigger] s[q]));
        lemma_scan_digits_exact(s, sg, l);
        let sgn_end = if 0 <= 0 < s.len() && (s[0] == '-' || s[0] == '+') { 0 + 1 } else { 0 };
        assert(s[0] == f[0]);
        if m < 0 {
            assert(s[0] == '-');
        } else {
            assert(is_digit(s[0]));
            assert(s[0] != '-' && s[0] != '+');
        }
        assert(sgn_end == sg);
        assert(scan_digits(s, sg) == l);
        assert(l > sg);
        let has_dot = 0 <= l < s.len() && s[l] == '.';
        assert(!has_dot) by {
            if (l as int) < s.len() {
                assert(s[l as int] == rest[0]);
            }
        };
        lemma_acc_sat_value(s, sg, l, 0);
        assert(0 * pow10((l - sg) as nat) == 0) by (nonlinear_arith);
        let d0 = acc_sat(s, sg, l, 0);
        assert(d0 == ip);
        let e_mark = 0 <= l < s.len() && (s[l] == 'e' || s[l] == 'E');
        assert(!e_mark) by {
            if (l as int) < s.len() {
                assert(s[l as int] == rest[0]);
            }
        };
        let sa = 0 + p - 0;
        lemma_mul10_exact(ip as int, p);
        assert(ip * pow10(p) <= 1_000_000_000_000_000);
        assert(mul10_clamp(ip as int, p) == a);
        assert(clamp_cap(a as int) == a);
        assert(scan_number(s, 0, p).val == m);
        assert(scan_number(s, 0, p).end == l);
    } else {
        let fx = fixed_digits(fp, p);
        lemma_fixed_digits_props(fp, p);
        assert(dval(fx) == fp % pow10(p));
        assert(fp % pow10(p) == fp) by (nonlinear_arith)
            requires
                0 <= fp < pow10(p),
        ;
        let fr = strip_trailing_zeros(fx);
        lemma_strip_props(fx);
        let t = (fx.len() - fr.len()) as nat;
        assert(dval(fr) * pow10(t) == fp);
        lemma_dval_nonneg(fr);
        assert(fr.len() > 0) by {
            if fr.len() == 0 {
                assert(dval(fr) == 0);
                assert(0 * pow10(t) == 0) by (nonlinear_arith);
            }
        };
        let ipart: Seq<char> = if ip == 0 { Seq::empty() } else { ipd };
        assert(f == sign + ipart + seq!['.'] + fr);
        let ie = sg + ipart.len() as int;
        let l = f.len() as int;
        assert(l == ie + 1 + fr.len());
        assert(s.subrange(sg, ie) =~= ipart);
        assert(s[ie] == '.');
        assert(s.subrange(ie + 1, l) =~= fr);
        assert(forall|q: int| sg <= q < ie ==> is_digit(#[trigger] s[q]));
        assert(forall|q: int| ie + 1 <= q < l ==> is_digit(#[trigger] s[q]));
        let sgn_end = if 0 <= 0 < s.len() && (s[0] == '-' || s[0] == '+') { 0 + 1 } else { 0 };
        assert(s[0] == f[0]);
        if m < 0 {
            assert(s[0] == '-');
        } else {
            if ip == 0 {
                assert(s[0] == '.');
            } else {
                assert(is_digit(s[0]));
            }
            assert(s[0] != '-' && s[0] != '+');
        }
        assert(sgn_end == sg);
        lemma_scan_digits_exact(s, sg, ie);
        assert(scan_digits(s, sg) == ie);
        let has_dot = 0 <= ie < s.len() && s[ie] == '.';
        assert(has_dot);
        lemma_scan_digits_exact(s, ie + 1, l);
        assert(scan_digits(s, ie + 1) == l) by {
            if (l as int) < s.len() {
                assert(s[l as int] == rest[0]);
            }
        };
        let ok = ie > sg || (has_dot && l > ie + 1);
        assert(ok);
        lemma_acc_sat_value(s, sg, ie, 0);
        assert(0 * pow10((ie - sg) as nat) == 0) by (nonlinear_arith);
        let d0 = acc_sat(s, sg, ie, 0);
        assert(d0 == dval(ipart));
        assert(dval(ipart) == ip) by {
            if ip == 0 {
            } else {
            }
        };
        let frlen = fr.len() as int;
        lemma_pow10_mono(frlen as nat, p);
        lemma_pow10_pos(t);
        lemma_pow10_pos(frlen as nat);
        assert(d0 * pow10(frlen as nat) + dval(fr) < 10_000_000_000_000_000_000_000_000_000_000)
            by {
            assert(ip * pow10(frlen as nat) <= ip * pow10(p)) by (nonlinear_arith)
                requires
                    ip >= 0 && pow10(frlen as nat) <= pow10(p),
            ;
            assert(dval(fr) <= dval(fr) * pow10(t)) by (nonlinear_arith)
                requires
                    dval(fr) >= 0 && pow10(t) >= 1,
            ;
        };
        lemma_acc_frac_value(s, ie + 1, l, d0);
        let dd = acc_frac(s, ie + 1, l, d0, 0);
        assert(dd.0 == ip * pow10(frlen as nat) + dval(fr));
        assert(dd.1 == frlen);
        let e_mark = 0 <= l < s.len() && (s[l] == 'e' || s[l] == 'E');
        assert(!e_mark) by {
            if (l as int) < s.len() {
                assert(s[l as int] == rest[0]);
            }
        };
        let sa = 0 + p - dd.1;
        assert(frlen <= p);
        assert(sa == t) by {
            assert(fx.len() == p);
        };
        assert(dd.0 * pow10(t) == a) by {
            assert((ip * pow10(frlen as nat) + dval(fr)) * pow10(t) == ip * (pow10(
                frlen as nat,
            ) * pow10(t)) + dval(fr) * pow10(t)) by (nonlinear_arith);
            lemma_pow10_mul(frlen as nat, t);
            assert(pow10(frlen as nat) * pow10(t) == pow10((frlen + t) as nat));
            assert(frlen + t == p);
        };
        assert(dd.0 >= 0) by {
            assert(ip * pow10(frlen as nat) >= 0) by (nonlinear_arith)
                requires
                    ip >= 0 && pow10(frlen as nat) >= 1,
            ;
        };
        lemma_mul10_exact(dd.0, t);
        assert(mul10_clamp(dd.0, t) == a);
        assert(clamp_cap(a as int) == a);
        assert(scan_number(s, 0, p).ok);
        assert(scan_number(s, 0, p).val == m);
        assert(scan_number(s, 0, p).end == l);
    }
}

/// Powers of ten multiply by adding exponents.
pub proof fn lemma_pow10_mul(x: nat, y: nat)
    ensures
        pow10(x) * pow10(y) == pow10((x + y) as nat),
    decreases x,
{
    if x == 0 {
        assert(pow10(0) == 1);
        assert(1 * pow10(y) == pow10(y)) by (nonlinear_arith);
    } else {
        lemma_pow10_mul((x - 1) as nat, y);
        assert(pow10(x) == 10 * pow10((x - 1) as nat));
        assert((10 * pow10((x - 1) as nat)) * pow10(y) == 10 * (pow10((x - 1) as nat) * pow10(y)))
            by (nonlinear_arith);
    }
}

} // verus!
