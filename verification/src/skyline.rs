//! The skyline bin packer of the `texture_packer` crate, as the atlas packer sees it:
//! a bin that is given images one by one, assigns each a frame, and can be flattened
//! into one image.
use vstd::prelude::*;
use crate::pixels::{texel, Image};

verus! {

/// Layout settings of a bin.
#[derive(Debug, Clone, Copy)]
pub struct PackerConfig {
    /// Largest width of the packed area.
    pub max_width: u32,
    /// Largest height of the packed area.
    pub max_height: u32,
    /// Whether images may be turned by 90 degrees.
    pub allow_rotation: bool,
    /// Whether the flattened image always has the largest size.
    pub force_max_dimensions: bool,
    /// Free pixels around the packed area.
    pub border_padding: u32,
    /// Free pixels between two frames.
    pub texture_padding: u32,
    /// Pixels repeated around each image by the bin itself.
    pub texture_extrusion: u32,
    /// Whether transparent margins are cut off.
    pub trim: bool,
    /// Whether frames are outlined for debugging.
    pub texture_outlines: bool,
}

impl PackerConfig {
    /// The settings under which a bin keeps every image as it is given: same size,
    /// same orientation, same pixels. The packed area is not empty, and the limits
    /// are small enough that no frame coordinate can overflow.
    pub open spec fn plain(self) -> bool {
        &&& !self.allow_rotation
        &&& !self.force_max_dimensions
        &&& !self.trim
        &&& !self.texture_outlines
        &&& self.texture_extrusion == 0
        &&& 1 <= self.max_width <= 16384
        &&& 1 <= self.max_height <= 16384
        &&& self.border_padding <= 16384
        &&& self.texture_padding <= 16384
    }
}

/// A bin of the skyline packer: a `texture_packer::TexturePacker` that holds RGBA
/// images under string keys. Nothing of its inside is visible here; what it holds
/// is spoken of through `bin_entries` and `bin_limits`.
#[verifier::external_body]
pub struct SkylineBin {
    inner: texture_packer::TexturePacker<'static, image::RgbaImage, String>,
}

/// What a bin was given and accepted, oldest first: for each image its key, its
/// frame `(x, y, w, h)` in the packed area, and its bytes.
pub uninterp spec fn bin_entries(bin: SkylineBin) -> Seq<(Seq<char>, (u32, u32, u32, u32), Seq<u8>)>;

/// The limits a bin was made with: `(max_width, max_height, border_padding, texture_padding)`.
pub uninterp spec fn bin_limits(bin: SkylineBin) -> (u32, u32, u32, u32);

/// Where the skyline heuristic puts a `w` by `h` image into a bin with the given limits
/// that already accepted images of the sizes `placed`, in that order: the top-left
/// corner of the new frame, or `None` when the image does not fit.
pub uninterp spec fn skyline_position(
    limits: (u32, u32, u32, u32),
    placed: Seq<(u32, u32)>,
    w: u32,
    h: u32,
) -> Option<(u32, u32)>;

/// The sizes of the accepted images, oldest first.
pub open spec fn sizes_of(entries: Seq<(Seq<char>, (u32, u32, u32, u32), Seq<u8>)>) -> Seq<
    (u32, u32),
> {
    Seq::new(entries.len(), |i: int| (entries[i].1.2, entries[i].1.3))
}

/// Entry `i` is the newest one under its key: the bin answers for that key with it.
pub open spec fn is_live(entries: Seq<(Seq<char>, (u32, u32, u32, u32), Seq<u8>)>, i: int) -> bool {
    &&& 0 <= i < entries.len()
    &&& forall|j: int| i < j < entries.len() ==> (#[trigger] entries[j]).0 != entries[i].0
}

/// The frame that the bin holds under `key`: that of the newest entry with that key.
pub open spec fn frame_of(
    entries: Seq<(Seq<char>, (u32, u32, u32, u32), Seq<u8>)>,
    key: Seq<char>,
) -> Option<(u32, u32, u32, u32)>
    decreases entries.len(),
{
    if entries.len() == 0 {
        None
    } else if entries.last().0 == key {
        Some(entries.last().1)
    } else {
        frame_of(entries.drop_last(), key)
    }
}

/// The pixel `(x, y)` lies inside the frame.
pub open spec fn covers(frame: (u32, u32, u32, u32), x: int, y: int) -> bool {
    frame.0 <= x < frame.0 + frame.2 && frame.1 <= y < frame.1 + frame.3
}

/// Two frames share at least one pixel.
pub open spec fn frames_overlap(a: (u32, u32, u32, u32), b: (u32, u32, u32, u32)) -> bool {
    &&& a.0 < b.0 + b.2
    &&& b.0 < a.0 + a.2
    &&& a.1 < b.1 + b.3
    &&& b.1 < a.1 + a.3
}

/// No two live frames share a pixel, and every live frame ends below 16384 in both
/// directions, border included.
pub open spec fn exportable(
    entries: Seq<(Seq<char>, (u32, u32, u32, u32), Seq<u8>)>,
    border: u32,
) -> bool {
    &&& forall|i: int, j: int|
        is_live(entries, i) && is_live(entries, j) && i != j ==> !frames_overlap(
            (#[trigger] entries[i]).1,
            (#[trigger] entries[j]).1,
        )
    &&& forall|i: int|
        is_live(entries, i) ==> {
            let f = (#[trigger] entries[i]).1;
            f.2 >= 1 && f.3 >= 1 && f.0 + f.2 + border <= 16384 && f.1 + f.3 + border <= 16384
        }
}

/// `(width, height)` is the size of the flattened bin: the furthest right and bottom
/// edges of the live frames, plus the border.
pub open spec fn is_extent(
    entries: Seq<(Seq<char>, (u32, u32, u32, u32), Seq<u8>)>,
    border: u32,
    width: int,
    height: int,
) -> bool {
    &&& forall|i: int|
        is_live(entries, i) ==> {
            let f = (#[trigger] entries[i]).1;
            f.0 + f.2 + border <= width && f.1 + f.3 + border <= height
        }
    &&& exists|i: int|
        is_live(entries, i) && {
            let f = (#[trigger] entries[i]).1;
            f.0 + f.2 + border == width
        }
    &&& exists|i: int|
        is_live(entries, i) && {
            let f = (#[trigger] entries[i]).1;
            f.1 + f.3 + border == height
        }
}

/// The `width` by `height` image with the bytes `data` shows the live entries at their
/// frames and is transparent black elsewhere.
pub open spec fn shows_entries(
    data: Seq<u8>,
    width: int,
    height: int,
    entries: Seq<(Seq<char>, (u32, u32, u32, u32), Seq<u8>)>,
) -> bool {
    &&& forall|i: int, x: int, y: int, c: int|
        is_live(entries, i) && covers((#[trigger] entries[i]).1, x, y) && 0 <= x < width && 0 <= y
            < height && 0 <= c < 4 ==> #[trigger] texel(data, width, x, y, c) == texel(
            entries[i].2,
            entries[i].1.2 as int,
            x - entries[i].1.0,
            y - entries[i].1.1,
            c,
        )
    &&& forall|x: int, y: int, c: int|
        0 <= x < width && 0 <= y < height && 0 <= c < 4 && (forall|i: int|
            is_live(entries, i) ==> !covers((#[trigger] entries[i]).1, x, y)) ==> #[trigger] texel(
            data,
            width,
            x,
            y,
            c,
        ) == 0
}

/// Makes an empty bin. Trusted: `TexturePacker::new_skyline` returns a bin that holds
/// nothing and keeps the given limits.
#[verifier::external_body]
pub(crate) fn new_bin(config: &PackerConfig) -> (bin: SkylineBin)
    requires
        config.plain(),
    ensures
        bin_entries(bin) == Seq::<(Seq<char>, (u32, u32, u32, u32), Seq<u8>)>::empty(),
        bin_limits(bin) == (
            config.max_width,
            config.max_height,
            config.border_padding,
            config.texture_padding,
        ),
{
    let config = texture_packer::TexturePackerConfig {
        max_width: config.max_width,
        max_height: config.max_height,
        allow_rotation: config.allow_rotation,
        force_max_dimensions: config.force_max_dimensions,
        border_padding: config.border_padding,
        texture_padding: config.texture_padding,
        texture_extrusion: config.texture_extrusion,
        trim: config.trim,
        texture_outlines: config.texture_outlines,
    };
    SkylineBin { inner: texture_packer::TexturePacker::new_skyline(config) }
}

/// Gives one image to the bin. Trusted: `TexturePacker::pack_own` either refuses the
/// image and leaves the bin as it was, or accepts it, keeps its size and bytes, and
/// records it under `key` in a frame whose corner the skyline heuristic chooses from
/// the limits and the sizes accepted so far; an older entry under the same key is
/// no longer answered for.
#[verifier::external_body]
pub(crate) fn bin_insert(bin: &mut SkylineBin, key: &str, img: &Image) -> (accepted: bool)
    requires
        img.wf(),
        1 <= img.width <= 16386,
        1 <= img.height <= 16386,
        1 <= bin_limits(*old(bin)).0 <= 16384,
        1 <= bin_limits(*old(bin)).1 <= 16384,
        bin_limits(*old(bin)).2 <= 16384,
        bin_limits(*old(bin)).3 <= 16384,
    ensures
        bin_limits(*final(bin)) == bin_limits(*old(bin)),
        accepted == skyline_position(
            bin_limits(*old(bin)),
            sizes_of(bin_entries(*old(bin))),
            img.width,
            img.height,
        ) is Some,
        accepted ==> bin_entries(*final(bin)) == bin_entries(*old(bin)).push(
            (
                key@,
                (
                    skyline_position(
                        bin_limits(*old(bin)),
                        sizes_of(bin_entries(*old(bin))),
                        img.width,
                        img.height,
                    )->Some_0.0,
                    skyline_position(
                        bin_limits(*old(bin)),
                        sizes_of(bin_entries(*old(bin))),
                        img.width,
                        img.height,
                    )->Some_0.1,
                    img.width,
                    img.height,
                ),
                img.data@,
            ),
        ),
        !accepted ==> bin_entries(*final(bin)) == bin_entries(*old(bin)),
{
    let texture = image::RgbaImage::from_raw(img.width, img.height, img.data.clone()).unwrap();
    bin.inner.pack_own(key.to_string(), texture).is_ok()
}

/// Looks a frame up by key. Trusted: `TexturePacker::get_frame` returns the frame of
/// the newest entry under that key, if there is one.
#[verifier::external_body]
pub(crate) fn bin_frame(bin: &SkylineBin, key: &str) -> (frame: Option<(u32, u32, u32, u32)>)
    ensures
        frame == frame_of(bin_entries(*bin), key@),
{
    bin.inner.get_frame(&key.to_string()).map(|f| (f.frame.x, f.frame.y, f.frame.w, f.frame.h))
}

/// Flattens the bin into one image. Trusted: `ImageExporter::export` succeeds when the
/// bin holds at least one image; the image it returns reaches to the furthest live
/// frame plus the border, shows every live entry at its frame and is transparent
/// black elsewhere.
#[verifier::external_body]
pub(crate) fn bin_export(bin: &SkylineBin) -> (flat: Result<Image, String>)
    requires
        exportable(bin_entries(*bin), bin_limits(*bin).2),
    ensures
        bin_entries(*bin).len() > 0 ==> flat is Ok,
        flat matches Ok(img) ==> {
            &&& img.wf()
            &&& is_extent(bin_entries(*bin), bin_limits(*bin).2, img.width as int, img.height as int)
            &&& shows_entries(img.data@, img.width as int, img.height as int, bin_entries(*bin))
        },
{
    match texture_packer::exporter::ImageExporter::export(&bin.inner, None) {
        Ok(img) => {
            let buf = img.to_rgba8();
            Ok(Image { width: buf.width(), height: buf.height(), data: buf.into_raw() })
        },
        Err(e) => Err(e),
    }
}

} // verus!
