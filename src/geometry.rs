//! Scaling an image's cell area to fit a box while keeping its proportions.
use vstd::prelude::*;

verus! {

/// `a / b` rounded to the nearest integer, halves rounded up.
pub open spec fn round_div(a: nat, b: nat) -> nat {
    (2 * a + b) / (2 * b)
}

pub open spec fn at_least_one(x: nat) -> nat {
    if x == 0 {
        1
    } else {
        x
    }
}

/// The size of a `width` by `height` area scaled by the smaller of the two
/// ratios that take it to `nwidth` by `nheight`, each side rounded and at
/// least one. A side of zero length has no ratio of its own: the other
/// side's ratio applies, and with both sides empty the result is one cell.
pub open spec fn fitted(width: nat, height: nat, nwidth: nat, nheight: nat) -> (nat, nat) {
    if width == 0 && height == 0 {
        (1, 1)
    } else if width == 0 {
        (1, at_least_one(nheight))
    } else if height == 0 {
        (at_least_one(nwidth), 1)
    } else if nwidth * height <= nheight * width {
        (at_least_one(nwidth), at_least_one(round_div(height * nwidth, width)))
    } else {
        (at_least_one(round_div(width * nheight, height)), at_least_one(nheight))
    }
}

proof fn lemma_round_within(a: nat, b: nat, m: nat)
    requires
        b > 0,
        a <= m * b,
    ensures
        round_div(a, b) <= m,
{
    let q = (2 * a + b) / (2 * b);
    vstd::arithmetic::div_mod::lemma_fundamental_div_mod((2 * a + b) as int, (2 * b) as int);
    vstd::arithmetic::div_mod::lemma_mod_pos_bound((2 * a + b) as int, (2 * b) as int);
    assert(q <= m) by (nonlinear_arith)
        requires
            2 * a + b == (2 * b) * q + (2 * a + b) % (2 * b),
            (2 * a + b) % (2 * b) >= 0,
            a <= m * b,
            b > 0,
    ;
}

/// Scales a `width` by `height` area to fit within `nwidth` by `nheight`,
/// keeping its proportions.
pub fn fit_area_proportionally(width: u16, height: u16, nwidth: u16, nheight: u16) -> (r: (u16, u16))
    ensures
        (r.0 as nat, r.1 as nat) == fitted(width as nat, height as nat, nwidth as nat, nheight as nat),
{
    if width == 0 && height == 0 {
        return (1, 1);
    } else if width == 0 {
        return (1, if nheight == 0 { 1 } else { nheight });
    } else if height == 0 {
        return (if nwidth == 0 { 1 } else { nwidth }, 1);
    }
    let w = width as u64;
    let h = height as u64;
    let nw = nwidth as u64;
    let nh = nheight as u64;
    assert(nw * h <= 0xffff * 0xffff) by (nonlinear_arith)
        requires
            nw <= 0xffff,
            h <= 0xffff,
    ;
    assert(nh * w <= 0xffff * 0xffff) by (nonlinear_arith)
        requires
            nh <= 0xffff,
            w <= 0xffff,
    ;
    if nw * h <= nh * w {
        let s = (2 * (h * nw) + w) / (2 * w);
        proof {
            assert(h * nw == nw * h) by (nonlinear_arith);
            lemma_round_within((h * nw) as nat, w as nat, nh as nat);
        }
        let a = if nw == 0 { 1 } else { nw };
        let b = if s == 0 { 1 } else { s };
        (a as u16, b as u16)
    } else {
        let s = (2 * (w * nh) + h) / (2 * h);
        proof {
            assert(w * nh == nh * w) by (nonlinear_arith);
            assert(w * nh <= nw * h);
            lemma_round_within((w * nh) as nat, h as nat, nw as nat);
        }
        let a = if s == 0 { 1 } else { s };
        let b = if nh == 0 { 1 } else { nh };
        (a as u16, b as u16)
    }
}

} // verus!
