//! PNG textures to RGBA8: the `png` crate decodes the first frame (palette
//! and low bit depths expanded); each color type is then widened to four
//! channels here.

use vstd::prelude::*;

use crate::text::{push_str, string_from};

verus! {

/// The color type of a decoded PNG frame.
#[derive(Debug, Clone, Copy, PartialEq, Eq, Structural)]
pub enum PngColor {
    Grayscale,
    Rgb,
    Indexed,
    GrayscaleAlpha,
    Rgba,
}

/// What the `png` crate makes of a file: the first frame's width, height,
/// color type and samples, or the failure (`true` when reading the header
/// failed, `false` when decoding the frame did) with the error's text.
pub uninterp spec fn png_decode(png: Seq<u8>) -> Result<(u32, u32, PngColor, Seq<u8>), (bool, Seq<char>)>;

/// Decodes the first frame of a PNG with `png::Decoder` (transformations
/// `EXPAND`): `read_info`, then `next_frame` into a buffer of
/// `output_buffer_size` bytes, cut to the frame's `buffer_size`. The result
/// is named, not stated: it is what the decoder computes from the bytes.
#[verifier::external_body]
fn png_first_frame(png: &[u8]) -> (r: Result<(u32, u32, PngColor, Vec<u8>), (bool, String)>)
    ensures
        png_decode(png@) == match r {
            Ok(f) => Ok::<_, (bool, Seq<char>)>((f.0, f.1, f.2, f.3@)),
            Err(e) => Err::<(u32, u32, PngColor, Seq<u8>), _>((e.0, e.1@)),
        },
{
    let mut d = png::Decoder::new(std::io::Cursor::new(png));
    d.set_transformations(png::Transformations::EXPAND);
    let mut rd = d.read_info().map_err(|e| (true, e.to_string()))?;
    let mut buf = vec![0u8; rd.output_buffer_size()];
    let info = rd.next_frame(&mut buf).map_err(|e| (false, e.to_string()))?;
    buf.truncate(info.buffer_size());
    let c = match info.color_type {
        png::ColorType::Grayscale => PngColor::Grayscale,
        png::ColorType::Rgb => PngColor::Rgb,
        png::ColorType::Indexed => PngColor::Indexed,
        png::ColorType::GrayscaleAlpha => PngColor::GrayscaleAlpha,
        png::ColorType::Rgba => PngColor::Rgba,
    };
    Ok((info.width, info.height, c, buf))
}

/// RGBA8 samples of a decoded frame, or `None` for a color type that is not
/// widened (palette indices). Trailing samples that do not fill a pixel are
/// dropped.
pub open spec fn expand_rgba(color: PngColor, buf: Seq<u8>) -> Option<Seq<u8>> {
    match color {
        PngColor::Rgba => Some(buf),
        PngColor::Rgb => Some(
            Seq::new(
                (buf.len() / 3 * 4) as nat,
                |i: int|
                    if i % 4 == 3 {
                        255u8
                    } else {
                        buf[(i / 4) * 3 + i % 4]
                    },
            ),
        ),
        PngColor::Grayscale => Some(
            Seq::new(
                (buf.len() * 4) as nat,
                |i: int|
                    if i % 4 == 3 {
                        255u8
                    } else {
                        buf[i / 4]
                    },
            ),
        ),
        PngColor::GrayscaleAlpha => Some(
            Seq::new(
                (buf.len() / 2 * 4) as nat,
                |i: int|
                    if i % 4 == 3 {
                        buf[(i / 4) * 2 + 1]
                    } else {
                        buf[(i / 4) * 2]
                    },
            ),
        ),
        PngColor::Indexed => None,
    }
}

/// The RGBA8 decode of a PNG, from what the decoder returned.
pub open spec fn rgba8_of(
    decoded: Result<(u32, u32, PngColor, Seq<u8>), (bool, Seq<char>)>,
) -> Result<(u32, u32, Seq<u8>), Seq<char>> {
    match decoded {
        Err((true, m)) => Err("png header: "@ + m),
        Err((false, m)) => Err("png frame: "@ + m),
        Ok((w, h, c, buf)) => match expand_rgba(c, buf) {
            Some(rgba) => Ok((w, h, rgba)),
            None => Err("unsupported png color type: Indexed"@),
        },
    }
}

/// Widens `buf`, `per` samples per pixel, to four channels: channel `k < 3`
/// of pixel `p` is sample `pick[k]` of the pixel, the alpha is sample
/// `pick[3]` or opaque when `pick[3]` is `per` (no alpha sample).
fn widen(buf: &Vec<u8>, per: usize, pick: [usize; 4]) -> (out: Vec<u8>)
    requires
        1 <= per <= 3,
        forall|k: int| 0 <= k < 4 ==> pick@[k] <= per,
        forall|k: int| 0 <= k < 3 ==> pick@[k] < per,
    ensures
        out@.len() == (buf@.len() as int) / (per as int) * 4,
        forall|i: int|
            0 <= i < out@.len() ==> #[trigger] out@[i] == if pick@[i % 4] == per {
                255u8
            } else {
                buf@[(i / 4) * (per as int) + pick@[i % 4] as int]
            },
{
    let mut out: Vec<u8> = Vec::new();
    let blen = buf.len();
    let n = blen / per;
    let mut p: usize = 0;
    let mut base: usize = 0;
    while p < n
        invariant
            1 <= per <= 3,
            blen == buf@.len(),
            n == (buf@.len() as int) / (per as int),
            forall|k: int| 0 <= k < 4 ==> pick@[k] <= per,
            forall|k: int| 0 <= k < 3 ==> pick@[k] < per,
            p <= n,
            base == p * per,
            out@.len() == 4 * p,
            forall|i: int|
                0 <= i < out@.len() ==> #[trigger] out@[i] == if pick@[i % 4] == per {
                    255u8
                } else {
                    buf@[(i / 4) * (per as int) + pick@[i % 4] as int]
                },
        decreases n - p,
    {
        assert(base + per <= buf@.len()) by (nonlinear_arith)
            requires
                p < n,
                n == (buf@.len() as int) / (per as int),
                1 <= per,
                base == p * per,
        {
            assert(n * per <= buf@.len());
            assert((p + 1) * per <= n * per);
        }
        assert(base + per <= buf.len());
        let mut k: usize = 0;
        while k < 4
            invariant
                1 <= per <= 3,
                blen == buf@.len(),
                forall|j: int| 0 <= j < 4 ==> pick@[j] <= per,
                base == p * per,
                base + per <= buf@.len(),
                k <= 4,
                out@.len() == 4 * p + k,
                forall|i: int|
                    0 <= i < out@.len() ==> #[trigger] out@[i] == if pick@[i % 4] == per {
                        255u8
                    } else {
                        buf@[(i / 4) * (per as int) + pick@[i % 4] as int]
                    },
            decreases 4 - k,
        {
            let s = pick[k];
            assert(s <= per);
            let v: u8 = if s == per {
                255
            } else {
                buf[base + s]
            };
            let ghost i = out@.len() as int;
            assert(i / 4 == p && i % 4 == k) by (nonlinear_arith)
                requires
                    i == 4 * p + k,
                    k < 4,
            ;
            out.push(v);
            k = k + 1;
        }
        p = p + 1;
        base = base + per;
        assert(base == p * per) by (nonlinear_arith)
            requires
                base == (p - 1) * per + per,
        ;
    }
    out
}

/// Decodes a PNG texture to `(width, height, rgba8)`.
pub fn decode_rgba8(png: &[u8]) -> (r: Result<(u32, u32, Vec<u8>), String>)
    ensures
        match rgba8_of(png_decode(png@)) {
            Ok((w, h, rgba)) => r matches Ok(t) && t.0 == w && t.1 == h && t.2@ == rgba,
            Err(m) => r matches Err(e) && e@ == m,
        },
{
    let (w, h, color, buf) = match png_first_frame(png) {
        Ok(f) => f,
        Err((header, m)) => {
            let mut e = if header {
                string_from("png header: ")
            } else {
                string_from("png frame: ")
            };
            push_str(&mut e, m.as_str());
            return Err(e);
        },
    };
    match expand_frame(color, buf) {
        Ok(rgba) => Ok((w, h, rgba)),
        Err(e) => Err(e),
    }
}

/// Widens a decoded frame's samples to RGBA8 by its color type.
pub fn expand_frame(color: PngColor, buf: Vec<u8>) -> (r: Result<Vec<u8>, String>)
    ensures
        match expand_rgba(color, buf@) {
            Some(rgba) => r matches Ok(v) && v@ == rgba,
            None => r matches Err(e) && e@ == "unsupported png color type: Indexed"@,
        },
{
    match color {
        PngColor::Rgba => Ok(buf),
        PngColor::Rgb => {
            let out = widen(&buf, 3, [0, 1, 2, 3]);
            assert(out@ =~= expand_rgba(color, buf@)->0);
            Ok(out)
        },
        PngColor::Grayscale => {
            let out = widen(&buf, 1, [0, 0, 0, 1]);
            assert(out@ =~= expand_rgba(color, buf@)->0);
            Ok(out)
        },
        PngColor::GrayscaleAlpha => {
            let out = widen(&buf, 2, [0, 0, 0, 1]);
            assert(out@ =~= expand_rgba(color, buf@)->0);
            Ok(out)
        },
        PngColor::Indexed => Err(string_from("unsupported png color type: Indexed")),
    }
}

} // verus!
