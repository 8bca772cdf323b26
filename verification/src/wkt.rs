//! Canonical WKT-style text rendering.
//!
//! Every scalar is rendered as its minimal decimal form: integral values
//! print without a fractional part, and fractional parts carry no trailing
//! zeros.  The spec functions here define that form over micro-unit counts,
//! and the exec functions build it exactly.

use vstd::prelude::*;
use vstd::string::StringExecFns;

use itertools::Itertools;

use crate::scalar::Coord;

verus! {

/// The decimal digit character for `d`.
pub open spec fn spec_digit_char(d: int) -> char {
    if d == 0 {
        '0'
    } else if d == 1 {
        '1'
    } else if d == 2 {
        '2'
    } else if d == 3 {
        '3'
    } else if d == 4 {
        '4'
    } else if d == 5 {
        '5'
    } else if d == 6 {
        '6'
    } else if d == 7 {
        '7'
    } else if d == 8 {
        '8'
    } else {
        '9'
    }
}

/// The decimal digits of `n`, most significant first, without leading
/// zeros (a single `'0'` for zero).
pub open spec fn spec_digits(n: nat) -> Seq<char>
    decreases n,
{
    if n < 10 {
        seq![spec_digit_char(n as int)]
    } else {
        spec_digits(n / 10).push(spec_digit_char((n % 10) as int))
    }
}

/// `k` copies of `'0'`.
pub open spec fn spec_zeros(k: nat) -> Seq<char>
    decreases k,
{
    if k == 0 {
        Seq::empty()
    } else {
        spec_zeros((k - 1) as nat).push('0')
    }
}

/// 10 to the power `k`.
pub open spec fn spec_pow10(k: nat) -> nat
    decreases k,
{
    if k == 0 {
        1
    } else {
        10 * spec_pow10((k - 1) as nat)
    }
}

/// The digits of `n` left-padded with zeros to width `w`.
pub open spec fn spec_padded(n: nat, w: nat) -> Seq<char> {
    spec_zeros((w - spec_digits(n).len()) as nat) + spec_digits(n)
}

/// `s` with every trailing `'0'` removed.
pub open spec fn spec_strip_trailing_zeros(s: Seq<char>) -> Seq<char>
    decreases s.len(),
{
    if s.len() > 0 && s.last() == '0' {
        spec_strip_trailing_zeros(s.drop_last())
    } else {
        s
    }
}

/// The minimal rendering of the fractional part `f` of a scalar, where `f`
/// counts micro-units: six zero-padded digits with trailing zeros removed.
pub open spec fn spec_frac_text(f: nat) -> Seq<char> {
    spec_strip_trailing_zeros(spec_padded(f, 6))
}

/// The minimal decimal rendering of the non-negative value `a / 1_000_000`.
pub open spec fn spec_mag_text(a: nat) -> Seq<char> {
    if a % 1000000 == 0 {
        spec_digits(a / 1000000)
    } else {
        spec_digits(a / 1000000) + seq!['.'] + spec_frac_text(a % 1000000)
    }
}

/// The minimal decimal rendering of the scalar value `m / 1_000_000`.
pub open spec fn spec_scalar_text(m: int) -> Seq<char> {
    if m >= 0 {
        spec_mag_text(m as nat)
    } else {
        seq!['-'] + spec_mag_text((-m) as nat)
    }
}

/// The rendering of one coordinate pair: x and y separated by a space.
pub open spec fn spec_coord_text(c: (int, int)) -> Seq<char> {
    spec_scalar_text(c.0) + seq![' '] + spec_scalar_text(c.1)
}

/// `parts` concatenated with `sep` between consecutive parts.
pub open spec fn spec_join(parts: Seq<Seq<char>>, sep: Seq<char>) -> Seq<char>
    decreases parts.len(),
{
    if parts.len() == 0 {
        Seq::empty()
    } else if parts.len() == 1 {
        parts[0]
    } else {
        parts[0] + sep + spec_join(parts.drop_first(), sep)
    }
}

/// Every digit sequence has at least one character.
pub proof fn lemma_digits_len_pos(n: nat)
    ensures
        spec_digits(n).len() >= 1,
    decreases n,
{
    if n >= 10 {
        lemma_digits_len_pos(n / 10);
    }
}

/// A number below `10^w` has at most `w` digits.
pub proof fn lemma_digits_len_le(n: nat, w: nat)
    requires
        w >= 1,
        n < spec_pow10(w),
    ensures
        spec_digits(n).len() <= w,
    decreases w,
{
    if n < 10 {
    } else {
        assert(spec_pow10(w) == 10 * spec_pow10((w - 1) as nat));
        if w == 1 {
            assert(spec_pow10(1nat) == 10) by {
                reveal_with_fuel(spec_pow10, 2);
            }
            assert(false);
        } else {
            assert(n / 10 < spec_pow10((w - 1) as nat));
            lemma_digits_len_le(n / 10, (w - 1) as nat);
        }
    }
}

proof fn lemma_strip_padded_step(n: nat, w: nat)
    requires
        n >= 1,
        n % 10 == 0,
        spec_digits(n).len() <= w,
    ensures
        spec_digits(n / 10).len() == spec_digits(n).len() - 1,
        spec_strip_trailing_zeros(spec_padded(n, w)) == spec_strip_trailing_zeros(
            spec_padded(n / 10, (w - 1) as nat),
        ),
{
    assert(n >= 10);
    lemma_digits_len_pos(n / 10);
    let zs = spec_zeros((w - spec_digits(n).len()) as nat);
    let d = spec_digits(n / 10);
    assert(spec_digits(n) == d.push(spec_digit_char((n % 10) as int)));
    assert(spec_digit_char((n % 10) as int) == '0');
    assert(spec_padded(n, w) =~= (zs + d).push('0'));
    assert(spec_padded(n / 10, (w - 1) as nat) == zs + d);
    assert((zs + d).push('0').last() == '0');
    assert((zs + d).push('0').drop_last() =~= zs + d);
}

proof fn lemma_strip_padded_exact(n: nat, w: nat)
    requires
        n % 10 != 0,
        spec_digits(n).len() <= w,
    ensures
        spec_strip_trailing_zeros(spec_padded(n, w)) == spec_padded(n, w),
{
    lemma_digits_len_pos(n);
    let d = spec_digits(n);
    if n < 10 {
        assert(d.last() == spec_digit_char(n as int));
    } else {
        assert(d.last() == spec_digit_char((n % 10) as int));
    }
    assert(d.last() != '0');
    assert(spec_padded(n, w).last() == d.last());
}

fn digit_str(d: u64) -> (r: &'static str)
    requires
        d < 10,
    ensures
        r@ == seq![spec_digit_char(d as int)],
{
    if d == 0 {
        proof {
            reveal_strlit("0");
            assert("0"@ =~= seq![spec_digit_char(0)]);
        }
        "0"
    } else if d == 1 {
        proof {
            reveal_strlit("1");
            assert("1"@ =~= seq![spec_digit_char(1)]);
        }
        "1"
    } else if d == 2 {
        proof {
            reveal_strlit("2");
            assert("2"@ =~= seq![spec_digit_char(2)]);
        }
        "2"
    } else if d == 3 {
        proof {
            reveal_strlit("3");
            assert("3"@ =~= seq![spec_digit_char(3)]);
        }
        "3"
    } else if d == 4 {
        proof {
            reveal_strlit("4");
            assert("4"@ =~= seq![spec_digit_char(4)]);
        }
        "4"
    } else if d == 5 {
        proof {
            reveal_strlit("5");
            assert("5"@ =~= seq![spec_digit_char(5)]);
        }
        "5"
    } else if d == 6 {
        proof {
            reveal_strlit("6");
            assert("6"@ =~= seq![spec_digit_char(6)]);
        }
        "6"
    } else if d == 7 {
        proof {
            reveal_strlit("7");
            assert("7"@ =~= seq![spec_digit_char(7)]);
        }
        "7"
    } else if d == 8 {
        proof {
            reveal_strlit("8");
            assert("8"@ =~= seq![spec_digit_char(8)]);
        }
        "8"
    } else {
        proof {
            reveal_strlit("9");
            assert("9"@ =~= seq![spec_digit_char(9)]);
        }
        "9"
    }
}

/// Append the decimal digits of `n`.
fn push_digits(n: u64, out: &mut String)
    ensures
        final(out)@ == old(out)@ + spec_digits(n as nat),
    decreases n,
{
    if n >= 10 {
        push_digits(n / 10, out);
        let ghost mid = out@;
        out.append(digit_str(n % 10));
        proof {
            assert(mid + seq![spec_digit_char((n % 10) as int)] =~= mid.push(
                spec_digit_char((n % 10) as int),
            ));
            assert(old(out)@ + spec_digits((n / 10) as nat).push(
                spec_digit_char((n % 10) as int),
            ) =~= (old(out)@ + spec_digits((n / 10) as nat)).push(
                spec_digit_char((n % 10) as int),
            ));
        }
    } else {
        out.append(digit_str(n));
    }
}

/// Append `k` copies of `'0'`.
fn push_zeros(k: usize, out: &mut String)
    ensures
        final(out)@ == old(out)@ + spec_zeros(k as nat),
{
    let mut i: usize = 0;
    proof {
        assert(out@ + spec_zeros(0) =~= out@);
    }
    while i < k
        invariant
            i <= k,
            out@ == old(out)@ + spec_zeros(i as nat),
        decreases k - i,
    {
        let ghost before = out@;
        out.append("0");
        proof {
            reveal_strlit("0");
            assert(before + "0"@ =~= before.push('0'));
            assert(spec_zeros((i + 1) as nat) == spec_zeros(i as nat).push('0'));
            assert((old(out)@ + spec_zeros(i as nat)).push('0') =~= old(out)@ + spec_zeros(
                (i + 1) as nat,
            ));
        }
        i = i + 1;
    }
}

/// How many decimal digits `n` has.
fn digit_count(n: u64) -> (c: usize)
    ensures
        c == spec_digits(n as nat).len(),
{
    proof {
        assert(spec_pow10(20) > u64::MAX as nat) by {
            reveal_with_fuel(spec_pow10, 21);
        }
        lemma_digits_len_le(n as nat, 20);
    }
    let mut m = n;
    let mut c: usize = 1;
    while m >= 10
        invariant
            spec_digits(n as nat).len() == spec_digits(m as nat).len() + c - 1,
            c >= 1,
            spec_digits(n as nat).len() <= 20,
        decreases m,
    {
        proof {
            lemma_digits_len_pos((m / 10) as nat);
        }
        m = m / 10;
        c = c + 1;
    }
    c
}

/// Append the minimal rendering of the fractional micro-unit count `frac`.
fn push_frac(frac: u64, out: &mut String)
    requires
        1 <= frac < 1000000,
    ensures
        final(out)@ == old(out)@ + spec_frac_text(frac as nat),
{
    proof {
        assert(spec_pow10(6) == 1000000) by {
            reveal_with_fuel(spec_pow10, 7);
        }
        lemma_digits_len_le(frac as nat, 6);
    }
    let mut f = frac;
    let mut w: usize = 6;
    while f % 10 == 0
        invariant
            1 <= f,
            w <= 6,
            spec_digits(f as nat).len() <= w,
            spec_strip_trailing_zeros(spec_padded(f as nat, w as nat)) == spec_frac_text(
                frac as nat,
            ),
        decreases f,
    {
        proof {
            lemma_strip_padded_step(f as nat, w as nat);
            lemma_digits_len_pos((f / 10) as nat);
        }
        f = f / 10;
        w = w - 1;
    }
    proof {
        lemma_strip_padded_exact(f as nat, w as nat);
        lemma_digits_len_pos(f as nat);
    }
    let c = digit_count(f);
    let ghost start = out@;
    push_zeros(w - c, out);
    push_digits(f, out);
    proof {
        assert((start + spec_zeros((w - c) as nat)) + spec_digits(f as nat) =~= start + (spec_zeros(
            (w - c) as nat,
        ) + spec_digits(f as nat)));
        assert(spec_zeros((w - c) as nat) + spec_digits(f as nat) == spec_padded(
            f as nat,
            w as nat,
        ));
    }
}

/// Append the minimal decimal rendering of the value `a / 1_000_000`.
fn push_mag(a: u64, out: &mut String)
    ensures
        final(out)@ == old(out)@ + spec_mag_text(a as nat),
{
    let ip = a / 1000000;
    let fp = a % 1000000;
    push_digits(ip, out);
    if fp > 0 {
        let ghost mid = out@;
        out.append(".");
        proof {
            reveal_strlit(".");
            assert(mid + "."@ =~= mid.push('.'));
        }
        push_frac(fp, out);
        proof {
            assert(old(out)@ + (spec_digits((a as nat) / 1000000) + seq!['.'] + spec_frac_text(
                (a as nat) % 1000000,
            )) =~= ((old(out)@ + spec_digits((a as nat) / 1000000)).push('.')) + spec_frac_text(
                (a as nat) % 1000000,
            ));
        }
    }
}

/// Append the minimal decimal rendering of a scalar's micro-unit count `m`.
pub fn push_scalar_text(m: i64, out: &mut String)
    ensures
        final(out)@ == old(out)@ + spec_scalar_text(m as int),
{
    if m >= 0 {
        push_mag(m as u64, out);
    } else {
        let ghost start = out@;
        out.append("-");
        proof {
            reveal_strlit("-");
            assert(start + "-"@ =~= start.push('-'));
        }
        let a = (-(m as i128)) as u64;
        push_mag(a, out);
        proof {
            assert(start + (seq!['-'] + spec_mag_text((-(m as int)) as nat)) =~= (start.push(
                '-',
            )) + spec_mag_text((-(m as int)) as nat));
        }
    }
}

/// Append the rendering of one coordinate: x, a space, then y.
pub fn push_coord_text(c: &Coord, out: &mut String)
    ensures
        final(out)@ == old(out)@ + spec_coord_text(c@),
{
    let ghost start = out@;
    push_scalar_text(c.x().micros(), out);
    let ghost mid = out@;
    out.append(" ");
    proof {
        reveal_strlit(" ");
        assert(mid + " "@ =~= mid.push(' '));
    }
    push_scalar_text(c.y().micros(), out);
    proof {
        assert(start + (spec_scalar_text(c@.0) + seq![' '] + spec_scalar_text(c@.1)) =~= ((start
            + spec_scalar_text(c@.0)).push(' ')) + spec_scalar_text(c@.1));
    }
}

/// The rendering of one coordinate as its own string.
pub fn coord_text(c: &Coord) -> (r: String)
    ensures
        r@ == spec_coord_text(c@),
{
    let mut out = String::new();
    push_coord_text(c, &mut out);
    proof {
        assert(Seq::<char>::empty() + spec_coord_text(c@) =~= spec_coord_text(c@));
    }
    out
}

/// The comma-separated list of the coordinate renderings, without
/// surrounding parentheses.
pub open spec fn spec_coords_body(v: Seq<(int, int)>) -> Seq<char> {
    spec_join(v.map_values(|c: (int, int)| spec_coord_text(c)), ", "@)
}

/// Render a coordinate sequence as its comma-separated list.
pub fn coords_body_text(coords: &Vec<Coord>) -> (r: String)
    ensures
        r@ == spec_coords_body(crate::scalar::coord_views(coords@)),
{
    let n = coords.len();
    let mut parts: Vec<String> = Vec::new();
    let mut i: usize = 0;
    while i < n
        invariant
            n == coords@.len(),
            i <= n,
            parts@.len() == i as int,
            forall|k: int| 0 <= k < i as int ==> parts@[k]@ == spec_coord_text(coords@[k]@),
        decreases n - i,
    {
        let c = coords[i];
        parts.push(coord_text(&c));
        i = i + 1;
    }
    let joined = join_with(&parts, ", ");
    proof {
        assert(parts@.map_values(|p: String| p@) =~= crate::scalar::coord_views(
            coords@,
        ).map_values(|c: (int, int)| spec_coord_text(c)));
    }
    joined
}

/// Relies on itertools' `Itertools::join`: the iterator's items are written
/// in order, with `sep` written between consecutive items and nothing else,
/// and an empty iterator gives an empty string.
#[verifier::external_body]
pub fn join_with(parts: &Vec<String>, sep: &str) -> (r: String)
    ensures
        r@ == spec_join(parts@.map_values(|p: String| p@), sep@),
{
    parts.iter().join(sep)
}

} // verus!
