//! Texture mip chains for RGBA8 images: each level halves the previous one
//! (never below one texel) by averaging 2×2 blocks, clamping at the edges.

use vstd::prelude::*;
use vstd::arithmetic::div_mod::lemma_fundamental_div_mod_converse;

verus! {

/// The next level's size along one axis.
pub open spec fn half(n: u32) -> u32 {
    if n / 2 >= 1 {
        n / 2
    } else {
        1
    }
}

/// Channel `c` of texel `(x, y)` of a `w`-wide RGBA8 image.
pub open spec fn texel(w: u32, d: Seq<u8>, x: int, y: int, c: int) -> int {
    d[(y * w + x) * 4 + c] as int
}

/// Channel `c` of texel `(x, y)` of the next level: the floor of the mean
/// of the 2×2 block at `(2x, 2y)`, with the second row and column clamped to
/// the image.
pub open spec fn down_value(w: u32, h: u32, d: Seq<u8>, x: int, y: int, c: int) -> u8 {
    let x0 = 2 * x;
    let y0 = 2 * y;
    let x1 = if x0 + 1 <= w - 1 {
        x0 + 1
    } else {
        w - 1
    };
    let y1 = if y0 + 1 <= h - 1 {
        y0 + 1
    } else {
        h - 1
    };
    ((texel(w, d, x0, y0, c) + texel(w, d, x1, y0, c) + texel(w, d, x0, y1, c) + texel(
        w,
        d,
        x1,
        y1,
        c,
    )) / 4) as u8
}

/// The next level of a `w`×`h` image, row-major RGBA8.
pub open spec fn downsample(w: u32, h: u32, d: Seq<u8>) -> Seq<u8> {
    let nw = half(w);
    let nh = half(h);
    Seq::new(
        (nw * nh * 4) as nat,
        |o: int| down_value(w, h, d, (o / 4) % (nw as int), (o / 4) / (nw as int), o % 4),
    )
}

/// The mip chain from a `w`×`h` level down to 1×1.
pub open spec fn mip_chain(w: u32, h: u32, d: Seq<u8>) -> Seq<(u32, u32, Seq<u8>)>
    decreases at_least_one(w) + at_least_one(h),
{
    if w <= 1 && h <= 1 {
        seq![(w, h, d)]
    } else {
        seq![(w, h, d)] + mip_chain(half(w), half(h), downsample(w, h, d))
    }
}

/// The size used for the first level: at least one texel each way.
pub open spec fn at_least_one(n: u32) -> u32 {
    if n >= 1 {
        n
    } else {
        1
    }
}

/// The views of the levels.
pub open spec fn levels_view(v: Seq<(u32, u32, Vec<u8>)>) -> Seq<(u32, u32, Seq<u8>)> {
    v.map_values(|l: (u32, u32, Vec<u8>)| (l.0, l.1, l.2@))
}

proof fn lemma_index_bounds(w: u32, h: u32, x: int, y: int, c: int)
    requires
        0 <= x < w,
        0 <= y < h,
        0 <= c < 4,
    ensures
        0 <= (y * w + x) * 4 + c < (w as int) * (h as int) * 4,
{
    assert(y * w + x < (w as int) * (h as int)) by (nonlinear_arith)
        requires
            0 <= x < w,
            0 <= y < h,
    ;
    assert(0 <= y * w) by (nonlinear_arith)
        requires
            0 <= y,
            0 <= w,
    ;
}

proof fn lemma_out_index(nw: int, x: int, y: int, c: int)
    requires
        0 <= x < nw,
        0 <= y,
        0 <= c < 4,
    ensures
        ((y * nw + x) * 4 + c) / 4 == y * nw + x,
        ((y * nw + x) * 4 + c) % 4 == c,
        (y * nw + x) % nw == x,
        (y * nw + x) / nw == y,
{
    lemma_fundamental_div_mod_converse((y * nw + x) * 4 + c, 4, y * nw + x, c);
    lemma_fundamental_div_mod_converse(y * nw + x, nw, y, x);
}

fn texel_at(w: u32, h: u32, d: &Vec<u8>, x: u32, y: u32, c: u32) -> (r: u32)
    requires
        x < w,
        y < h,
        c < 4,
        (w as int) * (h as int) * 4 <= u32::MAX,
        d@.len() >= (w as int) * (h as int) * 4,
    ensures
        r == texel(w, d@, x as int, y as int, c as int),
{
    proof {
        lemma_index_bounds(w, h, x as int, y as int, c as int);
        assert(y * w <= (h - 1) * w) by (nonlinear_arith)
            requires
                y < h,
        ;
    }
    let i = ((y * w + x) * 4 + c) as usize;
    d[i] as u32
}

/// One level down.
fn downsample_level(w: u32, h: u32, d: &Vec<u8>) -> (r: Vec<u8>)
    requires
        w >= 1,
        h >= 1,
        (w as int) * (h as int) * 4 <= u32::MAX,
        d@.len() >= (w as int) * (h as int) * 4,
    ensures
        r@ == downsample(w, h, d@),
{
    let nw: u32 = if w / 2 >= 1 {
        w / 2
    } else {
        1
    };
    let nh: u32 = if h / 2 >= 1 {
        h / 2
    } else {
        1
    };
    assert(nw <= w && nh <= h);
    assert((nw as int) * (nh as int) <= (w as int) * (h as int)) by (nonlinear_arith)
        requires
            1 <= nw <= w,
            1 <= nh <= h,
    ;
    let ghost target = downsample(w, h, d@);
    let mut next: Vec<u8> = Vec::new();
    let mut y: u32 = 0;
    while y < nh
        invariant
            nw == half(w),
            nh == half(h),
            1 <= nw <= w,
            1 <= nh <= h,
            (nw as int) * (nh as int) <= (w as int) * (h as int),
            (w as int) * (h as int) * 4 <= u32::MAX,
            d@.len() >= (w as int) * (h as int) * 4,
            target == downsample(w, h, d@),
            y <= nh,
            next@.len() == (y as int) * (nw as int) * 4,
            forall|o: int| 0 <= o < next@.len() ==> next@[o] == #[trigger] target[o],
        decreases nh - y,
    {
        let mut x: u32 = 0;
        while x < nw
            invariant
                nw == half(w),
                nh == half(h),
                1 <= nw <= w,
                1 <= nh <= h,
                (nw as int) * (nh as int) <= (w as int) * (h as int),
                (w as int) * (h as int) * 4 <= u32::MAX,
                d@.len() >= (w as int) * (h as int) * 4,
                target == downsample(w, h, d@),
                y < nh,
                x <= nw,
                next@.len() == ((y as int) * (nw as int) + x) * 4,
                forall|o: int| 0 <= o < next@.len() ==> next@[o] == #[trigger] target[o],
            decreases nw - x,
        {
            assert(2 * x < w && 2 * y < h);
            let x0 = 2 * x;
            let y0 = 2 * y;
            let x1 = if x0 + 1 <= w - 1 {
                x0 + 1
            } else {
                w - 1
            };
            let y1 = if y0 + 1 <= h - 1 {
                y0 + 1
            } else {
                h - 1
            };
            let mut c: u32 = 0;
            while c < 4
                invariant
                    nw == half(w),
                    nh == half(h),
                    1 <= nw <= w,
                    1 <= nh <= h,
                    (nw as int) * (nh as int) <= (w as int) * (h as int),
                    (w as int) * (h as int) * 4 <= u32::MAX,
                    d@.len() >= (w as int) * (h as int) * 4,
                    target == downsample(w, h, d@),
                    y < nh,
                    x < nw,
                    x0 == 2 * x,
                    y0 == 2 * y,
                    x0 < w,
                    y0 < h,
                    x1 == (if x0 + 1 <= w - 1 {
                        x0 + 1
                    } else {
                        w - 1
                    }),
                    y1 == (if y0 + 1 <= h - 1 {
                        y0 + 1
                    } else {
                        h - 1
                    }),
                    c <= 4,
                    next@.len() == ((y as int) * (nw as int) + x) * 4 + c,
                    forall|o: int| 0 <= o < next@.len() ==> next@[o] == #[trigger] target[o],
                decreases 4 - c,
            {
                let a = texel_at(w, h, d, x0, y0, c);
                let b = texel_at(w, h, d, x1, y0, c);
                let e = texel_at(w, h, d, x0, y1, c);
                let f = texel_at(w, h, d, x1, y1, c);
                let v = ((a + b + e + f) / 4) as u8;
                proof {
                    let o = ((y as int) * (nw as int) + x) * 4 + c;
                    lemma_out_index(nw as int, x as int, y as int, c as int);
                    assert(((y as int) * (nw as int) + x) < (nw as int) * (nh as int)) by (nonlinear_arith)
                        requires
                            x < nw,
                            y < nh,
                    ;
                    assert(o < (nw as int) * (nh as int) * 4);
                    assert(target[o] == down_value(w, h, d@, x as int, y as int, c as int));
                    assert(v == down_value(w, h, d@, x as int, y as int, c as int));
                }
                next.push(v);
                c = c + 1;
            }
            x = x + 1;
        }
        assert(((y as int) * (nw as int) + nw) * 4 == ((y + 1) as int) * (nw as int) * 4)
            by (nonlinear_arith);
        y = y + 1;
    }
    assert((nh as int) * (nw as int) * 4 == (nw * nh * 4) as nat) by (nonlinear_arith)
        requires
            (nw as int) * (nh as int) <= (w as int) * (h as int),
            (w as int) * (h as int) * 4 <= u32::MAX,
    ;
    assert(next@ =~= target);
    next
}

/// The mip levels of a `width`×`height` RGBA8 image, largest first, each
/// as `(w, h, rgba)`, down to 1×1.
pub fn rgba_mip_levels(width: u32, height: u32, rgba: Vec<u8>) -> (levels: Vec<(u32, u32, Vec<u8>)>)
    requires
        (at_least_one(width) as int) * (at_least_one(height) as int) * 4 <= u32::MAX,
        (at_least_one(width) == 1 && at_least_one(height) == 1) || rgba@.len() >= (at_least_one(
            width,
        ) as int) * (at_least_one(height) as int) * 4,
    ensures
        levels_view(levels@) == mip_chain(at_least_one(width), at_least_one(height), rgba@),
{
    let mut levels: Vec<(u32, u32, Vec<u8>)> = Vec::new();
    let mut w: u32 = if width >= 1 {
        width
    } else {
        1
    };
    let mut h: u32 = if height >= 1 {
        height
    } else {
        1
    };
    let mut data = rgba;
    let ghost full = mip_chain(w, h, data@);
    assert(levels_view(levels@) =~= Seq::<(u32, u32, Seq<u8>)>::empty());
    loop
        invariant_except_break
            w >= 1,
            h >= 1,
            (w as int) * (h as int) * 4 <= u32::MAX,
            (w == 1 && h == 1) || data@.len() >= (w as int) * (h as int) * 4,
            full == levels_view(levels@) + mip_chain(w, h, data@),
        ensures
            full == levels_view(levels@),
        decreases w + h,
    {
        let copy = vstd::slice::slice_to_vec(data.as_slice());
        let ghost before = levels_view(levels@);
        proof {
            assert(levels_view(levels@.push((w, h, copy))) =~= levels_view(levels@).push(
                (w, h, data@),
            ));
        }
        levels.push((w, h, copy));
        if w == 1 && h == 1 {
            assert(mip_chain(w, h, data@) == seq![(w, h, data@)]);
            assert(full =~= levels_view(levels@));
            break;
        }
        let next = downsample_level(w, h, &data);
        let nw: u32 = if w / 2 >= 1 {
            w / 2
        } else {
            1
        };
        let nh: u32 = if h / 2 >= 1 {
            h / 2
        } else {
            1
        };
        assert((nw as int) * (nh as int) <= (w as int) * (h as int)) by (nonlinear_arith)
            requires
                1 <= nw <= w,
                1 <= nh <= h,
        ;
        proof {
            assert(mip_chain(w, h, data@) == seq![(w, h, data@)] + mip_chain(nw, nh, next@));
            assert(levels_view(levels@) == before.push((w, h, data@)));
            assert(levels_view(levels@) + mip_chain(nw, nh, next@) =~= before + mip_chain(
                w,
                h,
                data@,
            ));
            assert(next@.len() == (nw as int) * (nh as int) * 4);
        }
        w = nw;
        h = nh;
        data = next;
    }
    levels
}

/// Each level of a chain is the previous one halved (never below one
/// texel), with the RGBA8 size of its dimensions.
pub open spec fn halves_each_step(c: Seq<(u32, u32, Seq<u8>)>) -> bool {
    forall|i: int|
        0 <= i < c.len() - 1 ==> #[trigger] c[i + 1].0 == half(c[i].0) && c[i + 1].1 == half(c[i].1)
            && c[i + 1].2.len() == (c[i + 1].0 as int) * (c[i + 1].1 as int) * 4
}

/// A mip chain starts at the given level, halves both sizes (never below
/// one texel) from each level to the next, and ends at 1×1, with the
/// level's RGBA8 size at each step.
#[verifier::spinoff_prover]
pub proof fn law_mip_chain_shape(w: u32, h: u32, d: Seq<u8>)
    requires
        w >= 1,
        h >= 1,
    ensures
        mip_chain(w, h, d).len() >= 1,
        mip_chain(w, h, d)[0] == (w, h, d),
        mip_chain(w, h, d).last().0 == 1 && mip_chain(w, h, d).last().1 == 1,
        halves_each_step(mip_chain(w, h, d)),
    decreases w + h,
{
    if !(w <= 1 && h <= 1) {
        let nd = downsample(w, h, d);
        law_mip_chain_shape(half(w), half(h), nd);
        let rest = mip_chain(half(w), half(h), nd);
        let c = mip_chain(w, h, d);
        assert(c == seq![(w, h, d)] + rest);
        assert(nd.len() == (half(w) as int) * (half(h) as int) * 4) by (nonlinear_arith)
            requires
                nd.len() == (half(w) * half(h) * 4) as nat,
                half(w) >= 1,
                half(h) >= 1,
                half(w) <= w,
                half(h) <= h,
        {
        }
        assert forall|i: int| 0 <= i < c.len() - 1 implies #[trigger] c[i + 1].0 == half(c[i].0)
            && c[i + 1].1 == half(c[i].1) && c[i + 1].2.len() == (c[i + 1].0 as int) * (
            c[i + 1].1 as int) * 4 by {
            if i > 0 {
                assert(c[i + 1] == rest[i] && c[i] == rest[i - 1]);
                let j = i - 1;
                assert(0 <= j < rest.len() - 1);
                assert(rest[j + 1].0 == half(rest[j].0));
            } else {
                assert(c[1] == rest[0]);
                assert(rest[0] == (half(w), half(h), nd));
            }
        }
        assert(halves_each_step(c));
    } else {
        assert(halves_each_step(mip_chain(w, h, d)));
    }
}

/// Each texel of the next level is the floor of the mean of the four
/// texels of its 2×2 block in the previous level, the block's second column
/// and row clamped to the image: every one of the four counts with weight
/// one quarter.
pub proof fn law_downsample_block_mean(w: u32, h: u32, d: Seq<u8>, x: int, y: int, c: int)
    requires
        w >= 1,
        h >= 1,
        0 <= x < half(w),
        0 <= y < half(h),
        0 <= c < 4,
    ensures
        downsample(w, h, d).len() == (half(w) as int) * (half(h) as int) * 4,
        0 <= (y * half(w) + x) * 4 + c < downsample(w, h, d).len(),
        ({
            let x1 = if 2 * x + 1 < w {
                2 * x + 1
            } else {
                w - 1
            };
            let y1 = if 2 * y + 1 < h {
                2 * y + 1
            } else {
                h - 1
            };
            downsample(w, h, d)[(y * half(w) + x) * 4 + c] as int == (d[((2 * y) * w + 2 * x) * 4
                + c] as int + d[((2 * y) * w + x1) * 4 + c] as int + d[(y1 * w + 2 * x) * 4 + c] as int
                + d[(y1 * w + x1) * 4 + c] as int) / 4
        }),
{
    let nw = half(w);
    let nh = half(h);
    assert((nw * nh * 4) as nat == (nw as int) * (nh as int) * 4) by (nonlinear_arith)
        requires
            1 <= nw <= w,
            1 <= nh <= h,
            (nw as int) * (nh as int) * 4 >= 0,
    {
    }
    lemma_index_bounds(nw, nh, x, y, c);
    lemma_out_index(nw as int, x, y, c);
    let o = (y * nw + x) * 4 + c;
    assert(downsample(w, h, d)[o] == down_value(w, h, d, x, y, c));
}

/// Each level of a mip chain after the first is the previous level
/// downsampled.
pub proof fn law_chain_downsamples(w: u32, h: u32, d: Seq<u8>, i: int)
    requires
        0 <= i < mip_chain(w, h, d).len() - 1,
    ensures
        ({
            let c = mip_chain(w, h, d);
            c[i + 1].2 == downsample(c[i].0, c[i].1, c[i].2)
        }),
    decreases at_least_one(w) + at_least_one(h),
{
    let c = mip_chain(w, h, d);
    if !(w <= 1 && h <= 1) {
        let rest = mip_chain(half(w), half(h), downsample(w, h, d));
        assert(c == seq![(w, h, d)] + rest);
        if i == 0 {
            assert(c[1] == rest[0]);
        } else {
            assert(c[i + 1] == rest[i] && c[i] == rest[i - 1]);
            law_chain_downsamples(half(w), half(h), downsample(w, h, d), i - 1);
        }
    }
}

} // verus!
