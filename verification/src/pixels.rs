//! RGBA images held as plain bytes, and the pixel operations of the atlas packer:
//! vertical flip, window extraction and edge extrusion.
use vstd::prelude::*;
use vstd::arithmetic::div_mod::lemma_fundamental_div_mod_converse;

verus! {

/// Largest width or height, in pixels, that the pixel operations accept: the
/// largest round size for which the bytes of an image, and of the same image with
/// a border around it, can be counted in `usize` whatever the width of `usize`.
pub const MAX_DIMENSION: u32 = 16384;

/// An RGBA image with 8 bits per channel, rows top to bottom, four bytes per pixel.
#[derive(Debug, Clone)]
pub struct Image {
    pub width: u32,
    pub height: u32,
    pub data: Vec<u8>,
}

/// The byte of channel `c` of the pixel at column `x`, row `y`, in a buffer of the given width.
pub open spec fn texel(data: Seq<u8>, width: int, x: int, y: int, c: int) -> u8 {
    data[(y * width + x) * 4 + c]
}

/// The byte of channel `c` of the pixel with row-major number `q`.
pub open spec fn flat_texel(data: Seq<u8>, q: int, c: int) -> u8 {
    data[q * 4 + c]
}

/// `v` limited to the range `lo..=hi`.
pub open spec fn clamp(v: int, lo: int, hi: int) -> int {
    if v < lo {
        lo
    } else if v > hi {
        hi
    } else {
        v
    }
}

/// The number of bytes that a `width` by `height` image takes.
pub fn byte_count(width: u32, height: u32) -> (n: u128)
    ensures
        n == width as nat * height as nat * 4,
{
    assert(width * height <= 0xFFFF_FFFF * 0xFFFF_FFFF) by (nonlinear_arith)
        requires
            width <= 0xFFFF_FFFF,
            height <= 0xFFFF_FFFF,
    ;
    assert(0 <= width * height) by (nonlinear_arith)
        requires
            0 <= width,
            0 <= height,
    ;
    let a: u128 = (width as u128) * (height as u128);
    a * 4
}

impl Image {
    /// The buffer holds exactly `width * height` pixels.
    pub open spec fn wf(&self) -> bool {
        self.data@.len() == self.width as nat * self.height as nat * 4
    }

    /// The byte of channel `c` of the pixel at `(x, y)`.
    pub open spec fn at(&self, x: int, y: int, c: int) -> u8 {
        texel(self.data@, self.width as int, x, y, c)
    }

    /// Both dimensions are within what the pixel operations accept.
    pub open spec fn within_limits(&self) -> bool {
        self.width <= MAX_DIMENSION && self.height <= MAX_DIMENSION
    }

    /// Makes an image from its dimensions and bytes, or `None` when the number of
    /// bytes is not `width * height * 4`.
    pub fn from_raw(width: u32, height: u32, data: Vec<u8>) -> (r: Option<Image>)
        ensures
            r is Some <==> data@.len() == width as nat * height as nat * 4,
            r matches Some(img) ==> img.width == width && img.height == height && img.data@
                == data@ && img.wf(),
    {
        let n: u128 = byte_count(width, height);
        if data.len() as u128 == n {
            Some(Image { width, height, data })
        } else {
            None
        }
    }

    /// Tests that the buffer holds exactly `width * height` pixels.
    pub fn is_well_formed(&self) -> (r: bool)
        ensures
            r == self.wf(),
    {
        let n: u128 = byte_count(self.width, self.height);
        self.data.len() as u128 == n
    }
}

/// A pixel inside a `w` by `h` image has a row-major number below `w * h`.
pub proof fn lemma_flat_index(w: int, h: int, x: int, y: int)
    requires
        0 <= x < w,
        0 <= y < h,
    ensures
        0 <= y * w + x < w * h,
{
    assert(y * w + x < w * h) by (nonlinear_arith)
        requires
            0 <= x < w,
            0 <= y < h,
    ;
    assert(0 <= y * w) by (nonlinear_arith)
        requires
            0 <= y,
            0 < w,
    ;
}

/// A row-major number below `w * h` splits into a column below `w` and a row below `h`.
pub proof fn lemma_flat_split(w: int, h: int, q: int)
    requires
        0 < w,
        0 <= q < w * h,
    ensures
        0 <= q % w < w,
        0 <= q / w < h,
        q == (q / w) * w + q % w,
{
    vstd::arithmetic::div_mod::lemma_fundamental_div_mod(q, w);
    vstd::arithmetic::div_mod::lemma_mod_bound(q, w);
    let d = q / w;
    let r = q % w;
    assert(q == w * d + r);
    assert(d < h) by (nonlinear_arith)
        requires
            q == w * d + r,
            0 <= r,
            q < w * h,
            0 < w,
    ;
    assert(0 <= d) by (nonlinear_arith)
        requires
            q == w * d + r,
            r < w,
            0 <= q,
            0 < w,
    ;
    assert(w * d == d * w) by (nonlinear_arith);
}

/// How an output coordinate maps to a source coordinate: shifted by one and clamped
/// into the source when extruding, offset by `origin` when taking a window.
pub open spec fn source_coord(extrude: bool, origin: int, limit: int, t: int) -> int {
    if extrude {
        clamp(t - 1, 0, limit - 1)
    } else {
        origin + t
    }
}

fn source_of(extrude: bool, origin: u32, limit: u32, t: u32) -> (s: u32)
    requires
        extrude ==> limit >= 1,
        !extrude ==> origin + t < limit,
    ensures
        s == source_coord(extrude, origin as int, limit as int, t as int),
        s < limit,
{
    if extrude {
        if t < 1 {
            0
        } else if t - 1 > limit - 1 {
            limit - 1
        } else {
            t - 1
        }
    } else {
        origin + t
    }
}

/// Builds an `ow` by `oh` image whose every pixel is copied from the source pixel that
/// `source_coord` names.
fn gather(src: &Image, ow: u32, oh: u32, extrude: bool, x0: u32, y0: u32) -> (out: Image)
    requires
        src.wf(),
        src.within_limits(),
        ow <= MAX_DIMENSION + 2,
        oh <= MAX_DIMENSION + 2,
        extrude ==> src.width >= 1 && src.height >= 1,
        !extrude ==> x0 + ow <= src.width && y0 + oh <= src.height,
    ensures
        out.width == ow,
        out.height == oh,
        out.wf(),
        forall|x: int, y: int, c: int|
            0 <= x < ow && 0 <= y < oh && 0 <= c < 4 ==> #[trigger] out.at(x, y, c) == src.at(
                source_coord(extrude, x0 as int, src.width as int, x),
                source_coord(extrude, y0 as int, src.height as int, y),
                c,
            ),
{
    let w: usize = src.width as usize;
    let h: usize = src.height as usize;
    assert(ow * oh <= 16386 * 16386) by (nonlinear_arith)
        requires
            ow <= 16386,
            oh <= 16386,
    ;
    let n: usize = (ow as usize) * (oh as usize);
    let mut data: Vec<u8> = Vec::new();
    let mut p: usize = 0;
    while p < n
        invariant
            p <= n,
            n == ow * oh,
            n <= 16386 * 16386,
            w == src.width,
            h == src.height,
            src.wf(),
            src.within_limits(),
            extrude ==> src.width >= 1 && src.height >= 1,
            !extrude ==> x0 + ow <= src.width && y0 + oh <= src.height,
            data@.len() == p * 4,
            forall|q: int, c: int|
                0 <= q < p && 0 <= c < 4 ==> #[trigger] flat_texel(data@, q, c) == src.at(
                    source_coord(extrude, x0 as int, src.width as int, q % (ow as int)),
                    source_coord(extrude, y0 as int, src.height as int, q / (ow as int)),
                    c,
                ),
        decreases n - p,
    {
        proof {
            assert(ow > 0) by (nonlinear_arith)
                requires
                    p < ow * oh,
                    p >= 0,
                    oh >= 0,
            ;
            lemma_flat_split(ow as int, oh as int, p as int);
        }
        let x: u32 = (p % (ow as usize)) as u32;
        let y: u32 = (p / (ow as usize)) as u32;
        let sx: usize = source_of(extrude, x0, src.width, x) as usize;
        let sy: usize = source_of(extrude, y0, src.height, y) as usize;
        proof {
            lemma_flat_index(w as int, h as int, sx as int, sy as int);
            assert(w * h <= 16384 * 16384) by (nonlinear_arith)
                requires
                    w <= 16384,
                    h <= 16384,
            ;
            assert(src.width as nat * src.height as nat * 4 == (w * h) * 4) by (nonlinear_arith)
                requires
                    w == src.width,
                    h == src.height,
            ;
        }
        let base: usize = (sy * w + sx) * 4;
        let b0: u8 = src.data[base];
        let b1: u8 = src.data[base + 1];
        let b2: u8 = src.data[base + 2];
        let b3: u8 = src.data[base + 3];
        let ghost prev = data@;
        data.push(b0);
        data.push(b1);
        data.push(b2);
        data.push(b3);
        proof {
            assert forall|q: int, c: int| 0 <= q < p + 1 && 0 <= c < 4 implies #[trigger] flat_texel(
                data@,
                q,
                c,
            ) == src.at(
                source_coord(extrude, x0 as int, src.width as int, q % (ow as int)),
                source_coord(extrude, y0 as int, src.height as int, q / (ow as int)),
                c,
            ) by {
                if q < p {
                    assert(flat_texel(data@, q, c) == flat_texel(prev, q, c));
                } else {
                    assert(data@[p * 4 + c] == src.data@[base + c]);
                }
            }
        }
        p = p + 1;
    }
    let out = Image { width: ow, height: oh, data };
    proof {
        assert(ow as nat * oh as nat * 4 == n * 4) by (nonlinear_arith)
            requires
                n == ow * oh,
        ;
        assert forall|x: int, y: int, c: int| 0 <= x < ow && 0 <= y < oh && 0 <= c < 4 implies #[trigger] out.at(
            x,
            y,
            c,
        ) == src.at(
            source_coord(extrude, x0 as int, src.width as int, x),
            source_coord(extrude, y0 as int, src.height as int, y),
            c,
        ) by {
            let q = y * ow + x;
            lemma_flat_index(ow as int, oh as int, x, y);
            lemma_fundamental_div_mod_converse(q, ow as int, y, x);
            assert(out.at(x, y, c) == flat_texel(out.data@, q, c));
        }
    }
    out
}

/// The `w` by `h` window of `src` whose top-left corner is at `(x0, y0)`.
pub fn crop(src: &Image, x0: u32, y0: u32, w: u32, h: u32) -> (out: Image)
    requires
        src.wf(),
        src.within_limits(),
        x0 + w <= src.width,
        y0 + h <= src.height,
    ensures
        out.width == w,
        out.height == h,
        out.wf(),
        forall|x: int, y: int, c: int|
            0 <= x < w && 0 <= y < h && 0 <= c < 4 ==> #[trigger] out.at(x, y, c) == src.at(
                x0 + x,
                y0 + y,
                c,
            ),
{
    gather(src, w, h, false, x0, y0)
}

/// The pixel of the extruded image at `(x, y)`, as a coordinate of the source image:
/// the nearest source pixel.
pub open spec fn extruded_source(limit: int, t: int) -> int {
    clamp(t - 1, 0, limit - 1)
}

/// Replicates the edges of `src` one pixel outward: the result is two pixels wider and
/// taller, holds the source image at offset `(1, 1)`, and every border pixel repeats the
/// nearest source pixel.
pub fn extrude(src: &Image) -> (out: Image)
    requires
        src.wf(),
        src.within_limits(),
        src.width >= 1,
        src.height >= 1,
    ensures
        out.width == src.width + 2,
        out.height == src.height + 2,
        out.wf(),
        forall|x: int, y: int, c: int|
            0 <= x < out.width && 0 <= y < out.height && 0 <= c < 4 ==> #[trigger] out.at(
                x,
                y,
                c,
            ) == src.at(
                extruded_source(src.width as int, x),
                extruded_source(src.height as int, y),
                c,
            ),
{
    gather(src, src.width + 2, src.height + 2, true, 0, 0)
}

/// What extrusion promises of any image `out` that relates to `src` as the result of
/// `extrude` does: the interior is the source image, the left border column repeats the
/// first column of the source, and the four corners repeat its corners.
pub proof fn lemma_extrusion_edges(src: Image, out: Image, y: int, c: int)
    requires
        src.width >= 1,
        src.height >= 1,
        out.width == src.width + 2,
        out.height == src.height + 2,
        forall|x: int, y: int, c: int|
            0 <= x < out.width && 0 <= y < out.height && 0 <= c < 4 ==> #[trigger] out.at(
                x,
                y,
                c,
            ) == src.at(
                extruded_source(src.width as int, x),
                extruded_source(src.height as int, y),
                c,
            ),
        0 <= y < src.height,
        0 <= c < 4,
    ensures
        out.at(0, y + 1, c) == src.at(0, y, c),
        out.at(src.width + 1, y + 1, c) == src.at(src.width - 1, y, c),
        forall|x: int| 0 <= x < src.width ==> out.at(x + 1, y + 1, c) == src.at(x, y, c),
        out.at(0, 0, c) == src.at(0, 0, c),
        out.at(src.width + 1, 0, c) == src.at(src.width - 1, 0, c),
        out.at(0, src.height + 1, c) == src.at(0, src.height - 1, c),
        out.at(src.width + 1, src.height + 1, c) == src.at(src.width - 1, src.height - 1, c),
{
    let w = src.width as int;
    let h = src.height as int;
    assert(out.at(0, y + 1, c) == src.at(extruded_source(w, 0), extruded_source(h, y + 1), c));
    assert(out.at(w + 1, y + 1, c) == src.at(
        extruded_source(w, w + 1),
        extruded_source(h, y + 1),
        c,
    ));
    assert(out.at(0, 0, c) == src.at(extruded_source(w, 0), extruded_source(h, 0), c));
    assert(out.at(w + 1, 0, c) == src.at(extruded_source(w, w + 1), extruded_source(h, 0), c));
    assert(out.at(0, h + 1, c) == src.at(extruded_source(w, 0), extruded_source(h, h + 1), c));
    assert(out.at(w + 1, h + 1, c) == src.at(
        extruded_source(w, w + 1),
        extruded_source(h, h + 1),
        c,
    ));
    assert forall|x: int| 0 <= x < w implies out.at(x + 1, y + 1, c) == src.at(x, y, c) by {
        assert(out.at(x + 1, y + 1, c) == src.at(
            extruded_source(w, x + 1),
            extruded_source(h, y + 1),
            c,
        ));
    }
}

/// Turns the image upside down. Trusted: `image::imageops::flip_vertical_in_place`
/// keeps the dimensions and exchanges row `y` with row `height - 1 - y`, pixel by pixel.
#[verifier::external_body]
pub(crate) fn flip_rows(img: &Image) -> (out: Image)
    requires
        img.wf(),
    ensures
        out.width == img.width,
        out.height == img.height,
        out.wf(),
        forall|x: int, y: int, c: int|
            0 <= x < img.width && 0 <= y < img.height && 0 <= c < 4 ==> #[trigger] out.at(
                x,
                y,
                c,
            ) == img.at(x, img.height - 1 - y, c),
{
    let mut buf = image::RgbaImage::from_raw(img.width, img.height, img.data.clone()).unwrap();
    image::imageops::flip_vertical_in_place(&mut buf);
    Image { width: buf.width(), height: buf.height(), data: buf.into_raw() }
}

/// Flips an image vertically: row `y` of the result is row `height - 1 - y` of the input.
pub fn flip_vertical(img: &Image) -> (out: Image)
    requires
        img.wf(),
    ensures
        out.width == img.width,
        out.height == img.height,
        out.wf(),
        forall|x: int, y: int, c: int|
            0 <= x < img.width && 0 <= y < img.height && 0 <= c < 4 ==> #[trigger] out.at(
                x,
                y,
                c,
            ) == img.at(x, img.height - 1 - y, c),
{
    flip_rows(img)
}

/// The bytes of an image are determined by its pixels: two buffers of one size whose
/// pixels agree everywhere are equal.
pub proof fn lemma_image_determined(a: Seq<u8>, b: Seq<u8>, width: int, height: int)
    requires
        0 <= width,
        0 <= height,
        a.len() == width * height * 4,
        b.len() == width * height * 4,
        forall|x: int, y: int, c: int|
            0 <= x < width && 0 <= y < height && 0 <= c < 4 ==> #[trigger] texel(a, width, x, y, c)
                == texel(b, width, x, y, c),
    ensures
        a == b,
{
    assert forall|i: int| 0 <= i < a.len() implies a[i] == b[i] by {
        let q = i / 4;
        let c = i % 4;
        assert(0 <= q < width * height);
        assert(width > 0) by (nonlinear_arith)
            requires
                0 <= q < width * height,
                0 <= width,
        ;
        lemma_flat_split(width, height, q);
        let x = q % width;
        let y = q / width;
        assert(texel(a, width, x, y, c) == texel(b, width, x, y, c));
        assert((y * width + x) * 4 + c == i);
    }
    assert(a =~= b);
}

} // verus!
