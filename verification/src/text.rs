//! Decimal rendering of fixed-point values, scores, and trajectories.
//!
//! The engine's callers persist trajectories as text; the rendering
//! itself is pure string building and is specified here exactly.

use vstd::prelude::*;

use crate::fixed::SCALE;
use crate::score::Score;

verus! {

/// The decimal digit character for `d` (meaningful for `0 <= d <= 9`).
pub open spec fn dec_digit(d: int) -> char {
    if d == 0 {
        '0'
    } else if d == 1 {
        '1'
    } else if d == 2 {
        '2'
    } else if d == 3 {
        '3'
    } else if d == 4 {
        '4'
    } else if d == 5 {
        '5'
    } else if d == 6 {
        '6'
    } else if d == 7 {
        '7'
    } else if d == 8 {
        '8'
    } else {
        '9'
    }
}

/// The decimal digits of `n`, most significant first, no leading
/// zeros (a single `'0'` for zero).
pub open spec fn dec_str(n: nat) -> Seq<char>
    decreases n,
{
    if n < 10 {
        seq![dec_digit(n as int)]
    } else {
        dec_str(n / 10).push(dec_digit((n % 10) as int))
    }
}

/// Exactly `width` decimal digits of `n`, zero-padded on the left.
pub open spec fn dec_pad(n: nat, width: nat) -> Seq<char>
    decreases width,
{
    if width == 0 {
        Seq::empty()
    } else {
        dec_pad(n / 10, (width - 1) as nat).push(dec_digit((n % 10) as int))
    }
}

/// The decimal rendering of the fixed-point value `v`: an optional
/// minus sign, the whole part, a point, and six fraction digits.
pub open spec fn fixed_str(v: int) -> Seq<char> {
    let m = if v < 0 {
        -v
    } else {
        v
    };
    let sign: Seq<char> = if v < 0 {
        seq!['-']
    } else {
        Seq::empty()
    };
    sign + dec_str((m / (SCALE as int)) as nat) + seq!['.'] + dec_pad(
        (m % (SCALE as int)) as nat,
        6,
    )
}

/// The rendering of a score: its fixed-point value, or `inf`.
pub open spec fn score_str(s: Score) -> Seq<char> {
    match s {
        Score::Finite(v) => fixed_str(v as int),
        Score::Infinite => seq!['i', 'n', 'f'],
    }
}

/// Scores joined by newlines, in order.
pub open spec fn scores_joined(ss: Seq<Score>) -> Seq<char>
    decreases ss.len(),
{
    if ss.len() == 0 {
        Seq::empty()
    } else if ss.len() == 1 {
        score_str(ss[0])
    } else {
        scores_joined(ss.drop_last()) + seq!['\n'] + score_str(ss.last())
    }
}

/// The coordinates of one particle joined by `", "`, in order.
pub open spec fn coords_joined(p: Seq<i64>) -> Seq<char>
    decreases p.len(),
{
    if p.len() == 0 {
        Seq::empty()
    } else if p.len() == 1 {
        fixed_str(p[0] as int)
    } else {
        coords_joined(p.drop_last()) + seq![',', ' '] + fixed_str(p.last() as int)
    }
}

/// Particles joined by newlines, each rendered as its coordinates
/// joined by `", "`.
pub open spec fn particles_joined(ps: Seq<Vec<i64>>) -> Seq<char>
    decreases ps.len(),
{
    if ps.len() == 0 {
        Seq::empty()
    } else if ps.len() == 1 {
        coords_joined(ps[0]@)
    } else {
        particles_joined(ps.drop_last()) + seq!['\n'] + coords_joined(ps.last()@)
    }
}

/// Appends the single decimal digit `d`.
fn push_digit(s: &mut String, d: u64)
    requires
        d <= 9,
    ensures
        final(s)@ == old(s)@.push(dec_digit(d as int)),
{
    proof {
        reveal_strlit("0");
        reveal_strlit("1");
        reveal_strlit("2");
        reveal_strlit("3");
        reveal_strlit("4");
        reveal_strlit("5");
        reveal_strlit("6");
        reveal_strlit("7");
        reveal_strlit("8");
        reveal_strlit("9");
    }
    let d_str = if d == 0 {
        "0"
    } else if d == 1 {
        "1"
    } else if d == 2 {
        "2"
    } else if d == 3 {
        "3"
    } else if d == 4 {
        "4"
    } else if d == 5 {
        "5"
    } else if d == 6 {
        "6"
    } else if d == 7 {
        "7"
    } else {
        "8"
    };
    let d_str = if d == 9 {
        "9"
    } else {
        d_str
    };
    s.append(d_str);
    proof {
        assert(s@ =~= old(s)@.push(dec_digit(d as int)));
    }
}

/// Appends the decimal digits of `n`.
fn push_dec(s: &mut String, n: u64)
    ensures
        final(s)@ == old(s)@ + dec_str(n as nat),
    decreases n,
{
    if n >= 10 {
        push_dec(s, n / 10);
    }
    push_digit(s, n % 10);
    proof {
        assert(s@ =~= old(s)@ + dec_str(n as nat));
    }
}

/// Appends exactly `width` decimal digits of `n`, zero-padded.
fn push_dec_pad(s: &mut String, n: u64, width: u64)
    ensures
        final(s)@ == old(s)@ + dec_pad(n as nat, width as nat),
    decreases width,
{
    if width > 0 {
        push_dec_pad(s, n / 10, width - 1);
        push_digit(s, n % 10);
    }
    proof {
        assert(s@ =~= old(s)@ + dec_pad(n as nat, width as nat));
    }
}

/// Appends the decimal rendering of the fixed-point value `v`.
pub fn push_fixed(s: &mut String, v: i64)
    ensures
        final(s)@ == old(s)@ + fixed_str(v as int),
{
    let m: u64 = if v < 0 {
        proof {
            reveal_strlit("-");
        }
        s.append("-");
        (-(v as i128)) as u64
    } else {
        v as u64
    };
    push_dec(s, m / 1_000_000);
    proof {
        reveal_strlit(".");
    }
    s.append(".");
    push_dec_pad(s, m % 1_000_000, 6);
    proof {
        assert(s@ =~= old(s)@ + fixed_str(v as int));
    }
}

/// Renders the fixed-point value `v` in decimal.
pub fn format_fixed(v: i64) -> (r: String)
    ensures
        r@ == fixed_str(v as int),
{
    let mut s = String::new();
    push_fixed(&mut s, v);
    proof {
        assert(s@ =~= fixed_str(v as int));
    }
    s
}

/// Renders a score in decimal, or as `inf`.
pub fn format_score(sc: Score) -> (r: String)
    ensures
        r@ == score_str(sc),
{
    match sc {
        Score::Finite(v) => format_fixed(v),
        Score::Infinite => {
            proof {
                reveal_strlit("inf");
            }
            let r = String::new().concat("inf");
            proof {
                assert(r@ =~= score_str(sc));
            }
            r
        },
    }
}

/// Renders scores joined by newlines, in order.
pub fn format_scores(ss: &Vec<Score>) -> (r: String)
    ensures
        r@ == scores_joined(ss@),
{
    let mut s = String::new();
    let mut i: usize = 0;
    while i < ss.len()
        invariant
            0 <= i <= ss@.len(),
            s@ == scores_joined(ss@.take(i as int)),
        decreases ss@.len() - i,
    {
        if i > 0 {
            proof {
                reveal_strlit("\n");
            }
            s.append("\n");
        }
        let entry = format_score(ss[i]);
        s.append(entry.as_str());
        proof {
            assert(ss@.take(i + 1).drop_last() =~= ss@.take(i as int));
            assert(ss@.take(i + 1).last() == ss@[i as int]);
            assert(s@ =~= scores_joined(ss@.take(i + 1)));
        }
        i = i + 1;
    }
    proof {
        assert(ss@.take(ss@.len() as int) =~= ss@);
    }
    s
}

/// Renders one particle: its coordinates joined by `", "`.
pub fn format_coords(p: &Vec<i64>) -> (r: String)
    ensures
        r@ == coords_joined(p@),
{
    let mut s = String::new();
    let mut i: usize = 0;
    while i < p.len()
        invariant
            0 <= i <= p@.len(),
            s@ == coords_joined(p@.take(i as int)),
        decreases p@.len() - i,
    {
        if i > 0 {
            proof {
                reveal_strlit(", ");
            }
            s.append(", ");
        }
        push_fixed(&mut s, p[i]);
        proof {
            assert(p@.take(i + 1).drop_last() =~= p@.take(i as int));
            assert(p@.take(i + 1).last() == p@[i as int]);
            assert(s@ =~= coords_joined(p@.take(i + 1)));
        }
        i = i + 1;
    }
    proof {
        assert(p@.take(p@.len() as int) =~= p@);
    }
    s
}

/// Renders particles joined by newlines.
pub fn format_particles(ps: &Vec<Vec<i64>>) -> (r: String)
    ensures
        r@ == particles_joined(ps@),
{
    let mut s = String::new();
    let mut i: usize = 0;
    while i < ps.len()
        invariant
            0 <= i <= ps@.len(),
            s@ == particles_joined(ps@.take(i as int)),
        decreases ps@.len() - i,
    {
        if i > 0 {
            proof {
                reveal_strlit("\n");
            }
            s.append("\n");
        }
        let entry = format_coords(&ps[i]);
        s.append(entry.as_str());
        proof {
            assert(ps@.take(i + 1).drop_last() =~= ps@.take(i as int));
            assert(ps@.take(i + 1).last() == ps@[i as int]);
            assert(s@ =~= particles_joined(ps@.take(i + 1)));
        }
        i = i + 1;
    }
    proof {
        assert(ps@.take(ps@.len() as int) =~= ps@);
    }
    s
}

} // verus!
