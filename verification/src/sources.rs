//! From source files to prepared images: which files are tilesets, what keys their
//! sprites get, and how each sprite is flipped and extruded before it is packed.
use vstd::prelude::*;
use vstd::string::*;
use crate::error::CustomError;
use crate::ordering::{index_views, path_order, path_views, sorted_indices};
use crate::packer::{
    atlas_full_error, atlas_full_message, lemma_pack_deterministic, pack_outcome, pack_prepared,
    same_prepared, same_result, PreparedSprite,
};
use crate::atlas::AtlasOutput;
use crate::paths::{file_stem, file_stem_of};
use crate::pixels::{
    extrude, extruded_source, flip_vertical, lemma_image_determined, Image, MAX_DIMENSION,
};
use crate::text::{has_prefix, starts_with, str_chars};
use crate::tileset::{
    grid_of, is_tile, slice_tiles, tile_count, tile_grid, tile_key, tile_key_of, TileGridSpec,
};

verus! {

/// One decoded source file: its path relative to the images directory, with `/`
/// between components, and its pixels.
#[derive(Debug)]
pub struct SourceImage {
    pub path: String,
    pub image: Image,
}

/// The directory, relative to the images directory, whose files are tilesets.
pub open spec fn tileset_prefix() -> Seq<char> {
    "tilesets/"@
}

impl SourceImage {
    /// The buffer has the length that the size of the image asks for, and the
    /// image is not empty.
    pub open spec fn valid(&self) -> bool {
        &&& self.image.wf()
        &&& 1 <= self.image.width
        &&& 1 <= self.image.height
    }

    /// How the file is turned down when it cannot be packed: an image that is not
    /// valid is a validation error that names the file; a valid image that is larger
    /// than anything the atlas can hold is a build error that names the file's stem.
    pub open spec fn rejected_with(&self, e: CustomError) -> bool {
        if self.valid() {
            e is BuildError && e.detail() == atlas_full_message(file_stem_of(self.path@))
        } else {
            e is ValidationError && e.detail() == invalid_image_message(self.path@)
        }
    }

    /// The image is valid and within the size that can be handled.
    pub open spec fn acceptable(&self) -> bool {
        &&& self.image.wf()
        &&& 1 <= self.image.width <= MAX_DIMENSION
        &&& 1 <= self.image.height <= MAX_DIMENSION
    }

    /// The file lies under the tilesets directory.
    pub open spec fn is_tileset(&self) -> bool {
        has_prefix(self.path@, tileset_prefix())
    }

    /// The tile size of the file, read from its stem.
    pub open spec fn grid(&self) -> TileGridSpec {
        grid_of(file_stem_of(self.path@))
    }

    /// The number of tiles in one row of the file.
    pub open spec fn columns(&self) -> int {
        tile_count(self.image.width, self.grid().tile_width)
    }

    /// The number of sprites that the file yields: its tiles if it is a tileset, one
    /// otherwise.
    pub open spec fn sprite_count(&self) -> int {
        if self.is_tileset() {
            self.columns() * tile_count(self.image.height, self.grid().tile_height)
        } else {
            1
        }
    }

    /// The key of sprite `t` of the file: the stem, followed for a tile by an
    /// underscore and the tile's number.
    pub open spec fn sprite_key(&self, t: int) -> Seq<char> {
        if self.is_tileset() {
            tile_key_of(file_stem_of(self.path@), t as nat)
        } else {
            file_stem_of(self.path@)
        }
    }

    /// The size of each sprite of the file before extrusion.
    pub open spec fn sprite_size(&self) -> (u32, u32) {
        if self.is_tileset() {
            (self.grid().tile_width, self.grid().tile_height)
        } else {
            (self.image.width, self.image.height)
        }
    }

    /// The top-left corner of sprite `t` in the file's image.
    pub open spec fn sprite_origin(&self, t: int) -> (int, int) {
        if self.is_tileset() {
            (
                (t % self.columns()) * self.grid().tile_width,
                (t / self.columns()) * self.grid().tile_height,
            )
        } else {
            (0, 0)
        }
    }

    /// `p` is sprite `t` of the file, prepared: it has the sprite's key and size, and
    /// its image is the sprite turned upside down with its edges repeated one pixel
    /// outward.
    pub open spec fn prepares(&self, t: int, p: PreparedSprite) -> bool {
        let (sw, sh) = self.sprite_size();
        let (ox, oy) = self.sprite_origin(t);
        &&& p.key@ == self.sprite_key(t)
        &&& p.source_size == self.sprite_size()
        &&& p.image.wf()
        &&& p.image.width == sw + 2
        &&& p.image.height == sh + 2
        &&& forall|x: int, y: int, c: int|
            0 <= x < sw + 2 && 0 <= y < sh + 2 && 0 <= c < 4 ==> #[trigger] p.image.at(x, y, c)
                == self.image.at(
                ox + extruded_source(sw as int, x),
                oy + (sh - 1 - extruded_source(sh as int, y)),
                c,
            )
    }

    /// Tests whether the image is well formed, not empty, and within the size that can
    /// be handled.
    pub fn is_acceptable(&self) -> (r: bool)
        ensures
            r == self.acceptable(),
    {
        self.image.is_well_formed() && 1 <= self.image.width && self.image.width <= MAX_DIMENSION
            && 1 <= self.image.height && self.image.height <= MAX_DIMENSION
    }

    /// The error that turns the file down.
    pub fn rejection(&self) -> (e: CustomError)
        ensures
            self.rejected_with(e),
    {
        if self.image.is_well_formed() && 1 <= self.image.width && 1 <= self.image.height {
            let stem = file_stem(self.path.as_str());
            atlas_full_error(stem.as_str())
        } else {
            invalid_image_error(self.path.as_str())
        }
    }

    /// Tests whether the file lies under the tilesets directory.
    pub fn under_tilesets(&self) -> (r: bool)
        ensures
            r == self.is_tileset(),
    {
        let path = str_chars(self.path.as_str());
        let prefix = str_chars("tilesets/");
        starts_with(&path, &prefix)
    }
}

/// Flips and extrudes one sprite image and gives it its key.
fn finish_sprite(key: String, part: &Image) -> (p: PreparedSprite)
    requires
        part.wf(),
        part.within_limits(),
        part.width >= 1,
        part.height >= 1,
    ensures
        p.key == key,
        p.source_size == (part.width, part.height),
        p.image.wf(),
        p.image.width == part.width + 2,
        p.image.height == part.height + 2,
        p.ready(),
        forall|x: int, y: int, c: int|
            0 <= x < part.width + 2 && 0 <= y < part.height + 2 && 0 <= c < 4
                ==> #[trigger] p.image.at(x, y, c) == part.at(
                extruded_source(part.width as int, x),
                part.height - 1 - extruded_source(part.height as int, y),
                c,
            ),
{
    let flipped = flip_vertical(part);
    let image = extrude(&flipped);
    proof {
        assert forall|x: int, y: int, c: int|
            0 <= x < part.width + 2 && 0 <= y < part.height + 2 && 0 <= c < 4
                implies #[trigger] image.at(x, y, c) == part.at(
            extruded_source(part.width as int, x),
            part.height - 1 - extruded_source(part.height as int, y),
            c,
        ) by {
            let sx = extruded_source(part.width as int, x);
            let sy = extruded_source(part.height as int, y);
            assert(image.at(x, y, c) == flipped.at(sx, sy, c));
            assert(flipped.at(sx, sy, c) == part.at(sx, part.height - 1 - sy, c));
        }
    }
    PreparedSprite { key, source_size: (part.width, part.height), image }
}

/// Appends the prepared sprites of one source file to `out`: its tiles in row-major
/// order if it is a tileset, the whole image otherwise.
pub fn prepare_source(src: &SourceImage, out: &mut Vec<PreparedSprite>)
    requires
        src.acceptable(),
    ensures
        final(out)@.len() == old(out)@.len() + src.sprite_count(),
        forall|j: int| 0 <= j < old(out)@.len() ==> final(out)@[j] == old(out)@[j],
        forall|t: int|
            0 <= t < src.sprite_count() ==> src.prepares(t, #[trigger] final(out)@[old(out)@.len() + t])
                && final(out)@[old(out)@.len() + t].ready(),
{
    let stem = file_stem(src.path.as_str());
    if !src.under_tilesets() {
        let p = finish_sprite(stem, &src.image);
        out.push(p);
        return;
    }
    let grid = tile_grid(stem.as_str());
    let tiles = slice_tiles(&src.image, grid);
    let ghost cols = src.columns();
    let ghost rows = tile_count(src.image.height, grid.tile_height);
    let ghost base = old(out)@.len();
    proof {
        let tw = grid.tile_width as int;
        let th = grid.tile_height as int;
        vstd::arithmetic::div_mod::lemma_fundamental_div_mod(src.image.width as int, tw);
        vstd::arithmetic::div_mod::lemma_fundamental_div_mod(src.image.height as int, th);
        vstd::arithmetic::div_mod::lemma_mod_bound(src.image.width as int, tw);
        vstd::arithmetic::div_mod::lemma_mod_bound(src.image.height as int, th);
        assert(0 <= cols && (cols >= 1 ==> tw <= src.image.width)) by (nonlinear_arith)
            requires
                src.image.width == tw * cols + (src.image.width as int % tw),
                0 <= src.image.width as int % tw < tw,
                tw >= 1,
        ;
        assert(0 <= rows && (rows >= 1 ==> th <= src.image.height)) by (nonlinear_arith)
            requires
                src.image.height == th * rows + (src.image.height as int % th),
                0 <= src.image.height as int % th < th,
                th >= 1,
        ;
        assert(cols <= src.image.width && rows <= src.image.height) by (nonlinear_arith)
            requires
                src.image.width == tw * cols + (src.image.width as int % tw),
                src.image.height == th * rows + (src.image.height as int % th),
                0 <= src.image.width as int % tw,
                0 <= src.image.height as int % th,
                tw >= 1,
                th >= 1,
                cols >= 0,
                rows >= 0,
        ;
        assert(cols * rows <= 16384 * 16384) by (nonlinear_arith)
            requires
                0 <= cols <= 16384,
                0 <= rows <= 16384,
        ;
        assert(cols * rows > 0 ==> cols >= 1 && rows >= 1) by (nonlinear_arith)
            requires
                cols >= 0,
                rows >= 0,
        ;
    }
    let mut t: usize = 0;
    while t < tiles.len()
        invariant
            t <= tiles@.len(),
            tiles@.len() == cols * rows,
            tiles@.len() <= 16384 * 16384,
            tiles@.len() > 0 ==> grid.tile_width <= MAX_DIMENSION && grid.tile_height
                <= MAX_DIMENSION,
            tiles@.len() == src.sprite_count(),
            grid == src.grid(),
            cols == src.columns(),
            src.is_tileset(),
            stem@ == file_stem_of(src.path@),
            forall|k: int| 0 <= k < tiles@.len() ==> is_tile(src.image, grid, k, #[trigger] tiles@[k]),
            out@.len() == base + t,
            base == old(out)@.len(),
            forall|j: int| 0 <= j < base ==> out@[j] == old(out)@[j],
            forall|k: int|
                0 <= k < t ==> src.prepares(k, #[trigger] out@[base + k]) && out@[base + k].ready(),
        decreases tiles.len() - t,
    {
        let key = tile_key(stem.as_str(), t as u32);
        let ghost tile = tiles@[t as int];
        assert(is_tile(src.image, grid, t as int, tile));
        let p = finish_sprite(key, &tiles[t]);
        proof {
            let sw = grid.tile_width as int;
            let sh = grid.tile_height as int;
            let (ox, oy) = src.sprite_origin(t as int);
            assert forall|x: int, y: int, c: int|
                0 <= x < sw + 2 && 0 <= y < sh + 2 && 0 <= c < 4 implies #[trigger] p.image.at(
                x,
                y,
                c,
            ) == src.image.at(
                ox + extruded_source(sw, x),
                oy + (sh - 1 - extruded_source(sh, y)),
                c,
            ) by {
                let sx = extruded_source(sw, x);
                let sy = sh - 1 - extruded_source(sh, y);
                assert(p.image.at(x, y, c) == tile.at(sx, sy, c));
                assert(tile.at(sx, sy, c) == src.image.at(
                    (t as int % cols) * grid.tile_width + sx,
                    (t as int / cols) * grid.tile_height + sy,
                    c,
                ));
            }
            assert(src.prepares(t as int, p));
        }
        let ghost before = out@;
        out.push(p);
        proof {
            assert forall|k: int| 0 <= k < t + 1 implies src.prepares(k, #[trigger] out@[base + k])
                && out@[base + k].ready() by {
                if k < t {
                    assert(out@[base + k] == before[base + k]);
                }
            }
        }
        t = t + 1;
    }
}

/// The paths of the source files, in the order given.
pub open spec fn source_paths(sources: Seq<SourceImage>) -> Seq<Seq<char>> {
    Seq::new(sources.len(), |i: int| sources[i].path@)
}

/// The order in which the source files are packed: by path.
pub open spec fn packing_order(sources: Seq<SourceImage>) -> Seq<int> {
    sorted_indices(source_paths(sources), sources.len())
}

/// The number of sprites that the first `i` files in packing order yield.
pub open spec fn sprites_before(sources: Seq<SourceImage>, order: Seq<int>, i: nat) -> int
    decreases i,
{
    if i == 0 {
        0
    } else {
        sprites_before(sources, order, (i - 1) as nat) + sources[order[i - 1]].sprite_count()
    }
}

/// The place among all prepared sprites of sprite `t` of the file that is packed
/// as number `i`.
pub open spec fn sprite_slot(sources: Seq<SourceImage>, order: Seq<int>, i: int, t: int) -> int {
    sprites_before(sources, order, i as nat) + t
}

/// `prepared` holds, file by file in packing order, the prepared sprites of the first
/// `n` files.
pub open spec fn prepared_upto(
    sources: Seq<SourceImage>,
    order: Seq<int>,
    prepared: Seq<PreparedSprite>,
    n: nat,
) -> bool {
    &&& prepared.len() == sprites_before(sources, order, n)
    &&& forall|i: int, t: int|
        0 <= i < n && 0 <= t < sources[order[i]].sprite_count() ==> sources[order[i]].prepares(
            t,
            #[trigger] prepared[sprite_slot(sources, order, i, t)],
        )
    &&& forall|j: int| 0 <= j < prepared.len() ==> (#[trigger] prepared[j]).ready()
}

/// `prepared` holds the prepared sprites of all source files, file by file in
/// packing order.
pub open spec fn is_preparation(sources: Seq<SourceImage>, prepared: Seq<PreparedSprite>) -> bool {
    prepared_upto(sources, packing_order(sources), prepared, sources.len())
}

/// The detail of the error for a source image that cannot be handled.
pub open spec fn invalid_image_message(path: Seq<char>) -> Seq<char> {
    "invalid image '"@ + path + "'"@
}

/// The files at the given positions, in that order.
pub open spec fn files_in(sources: Seq<SourceImage>, order: Seq<int>) -> Seq<SourceImage> {
    Seq::new(order.len(), |i: int| sources[order[i]])
}

/// The source files in the order in which they are packed.
pub open spec fn sorted_files(sources: Seq<SourceImage>) -> Seq<SourceImage> {
    files_in(sources, packing_order(sources))
}

/// File `k` of the list is the first whose image cannot be handled.
pub open spec fn first_unacceptable(files: Seq<SourceImage>, k: int) -> bool {
    &&& 0 <= k < files.len()
    &&& !files[k].acceptable()
    &&& forall|j: int| 0 <= j < k ==> (#[trigger] files[j]).acceptable()
}

/// Every source image can be handled.
pub open spec fn all_acceptable(sources: Seq<SourceImage>) -> bool {
    forall|j: int| 0 <= j < sources.len() ==> (#[trigger] sources[j]).acceptable()
}

/// Finds the first file, in the given order, whose image cannot be handled.
pub fn find_unacceptable(sources: &Vec<SourceImage>, order: &Vec<usize>) -> (r: Option<usize>)
    requires
        forall|i: int| 0 <= i < order@.len() ==> #[trigger] order@[i] < sources@.len(),
    ensures
        r matches Some(k) ==> k < order@.len() && first_unacceptable(
            files_in(sources@, index_views(order@)),
            k as int,
        ),
        r is None ==> all_acceptable(files_in(sources@, index_views(order@))),
{
    let ghost files = files_in(sources@, index_views(order@));
    let mut k: usize = 0;
    while k < order.len()
        invariant
            k <= order@.len(),
            files == files_in(sources@, index_views(order@)),
            forall|i: int| 0 <= i < order@.len() ==> #[trigger] order@[i] < sources@.len(),
            forall|j: int| 0 <= j < k ==> (#[trigger] files[j]).acceptable(),
        decreases order.len() - k,
    {
        assert(files[k as int] == sources@[order@[k as int] as int]);
        if !sources[order[k]].is_acceptable() {
            return Some(k);
        }
        k = k + 1;
    }
    None
}

fn collect_paths(sources: &Vec<SourceImage>) -> (paths: Vec<Vec<char>>)
    ensures
        path_views(paths@) == source_paths(sources@),
        paths@.len() == sources@.len(),
{
    let mut paths: Vec<Vec<char>> = Vec::new();
    let mut i: usize = 0;
    while i < sources.len()
        invariant
            i <= sources@.len(),
            paths@.len() == i,
            forall|j: int| 0 <= j < i ==> (#[trigger] paths@[j])@ == sources@[j].path@,
        decreases sources.len() - i,
    {
        paths.push(str_chars(sources[i].path.as_str()));
        i = i + 1;
    }
    proof {
        assert(path_views(paths@) =~= source_paths(sources@));
    }
    paths
}

/// Prepares every sprite of every source file, file by file in the order of the paths.
pub fn prepare_sources(sources: &Vec<SourceImage>) -> (prepared: Vec<PreparedSprite>)
    requires
        all_acceptable(sources@),
    ensures
        is_preparation(sources@, prepared@),
{
    let paths = collect_paths(sources);
    let order = path_order(&paths);
    let ghost ord = packing_order(sources@);
    assert(ord == index_views(order@));
    let n: usize = sources.len();
    let mut prepared: Vec<PreparedSprite> = Vec::new();
    let mut i: usize = 0;
    while i < n
        invariant
            i <= n,
            n == sources@.len(),
            order@.len() == n,
            ord == index_views(order@),
            forall|j: int| 0 <= j < order@.len() ==> #[trigger] order@[j] < n,
            all_acceptable(sources@),
            prepared_upto(sources@, ord, prepared@, i as nat),
        decreases n - i,
    {
        let ghost before = prepared@;
        let which: usize = order[i];
        assert(ord[i as int] == which as int);
        assert(sources@[which as int].acceptable());
        prepare_source(&sources[which], &mut prepared);
        proof {
            let srcs = sources@;
            assert(sprites_before(srcs, ord, (i + 1) as nat) == sprites_before(srcs, ord, i as nat)
                + srcs[ord[i as int]].sprite_count());
            assert forall|a: int, t: int|
                0 <= a < i + 1 && 0 <= t < srcs[ord[a]].sprite_count() implies srcs[ord[a]].prepares(
                t,
                #[trigger] prepared@[sprite_slot(srcs, ord, a, t)],
            ) by {
                if a < i {
                    lemma_slot_bound(srcs, ord, a, t, i as nat);
                    assert(prepared@[sprite_slot(srcs, ord, a, t)] == before[sprite_slot(
                        srcs,
                        ord,
                        a,
                        t,
                    )]);
                    assert(srcs[ord[a]].prepares(t, before[sprite_slot(srcs, ord, a, t)]));
                } else {
                    assert(sprite_slot(srcs, ord, a, t) == before.len() + t);
                }
            }
            assert forall|j: int| 0 <= j < prepared@.len() implies (#[trigger] prepared@[j]).ready() by {
                if j < before.len() {
                    assert(prepared@[j] == before[j]);
                } else {
                    let t = j - before.len();
                    assert(prepared@[before.len() + t].ready());
                }
            }
        }
        i = i + 1;
    }
    prepared
}

/// The sprites of a file packed earlier lie before those of a file packed later.
proof fn lemma_slot_bound(sources: Seq<SourceImage>, order: Seq<int>, a: int, t: int, i: nat)
    requires
        0 <= a < i,
        0 <= t < sources[order[a]].sprite_count(),
    ensures
        0 <= sprite_slot(sources, order, a, t) < sprites_before(sources, order, i),
    decreases i,
{
    lemma_before_nonneg(sources, order, a as nat);
    if a < i - 1 {
        lemma_slot_bound(sources, order, a, t, (i - 1) as nat);
        lemma_sprite_count_nonneg(sources[order[i - 1]]);
    }
}

fn invalid_image_error(path: &str) -> (e: CustomError)
    ensures
        e is ValidationError,
        e.detail() == invalid_image_message(path@),
{
    CustomError::ValidationError(String::from_str("invalid image '").concat(path).concat("'"))
}

/// What packing the source files yields: the error that turns down the first file,
/// in packing order, that cannot be handled, or else what packing their prepared
/// sprites yields.
pub open spec fn atlas_outcome(sources: Seq<SourceImage>, r: Result<AtlasOutput, CustomError>) -> bool {
    &&& forall|k: int| #[trigger]
        first_unacceptable(sorted_files(sources), k) ==> (r matches Err(e) && sorted_files(
            sources,
        )[k].rejected_with(e))
    &&& all_acceptable(sorted_files(sources)) ==> exists|prepared: Seq<PreparedSprite>| #[trigger]
        is_preparation(sources, prepared) && pack_outcome(prepared, r)
}

/// Every file is packed: the files in packing order can all be handled exactly
/// when the files as given can.
proof fn lemma_sorted_files_cover(sources: Seq<SourceImage>)
    ensures
        all_acceptable(sorted_files(sources)) == all_acceptable(sources),
        sorted_files(sources).len() == sources.len(),
{
    let order = packing_order(sources);
    let files = sorted_files(sources);
    crate::ordering::lemma_sorted_indices_order(source_paths(sources), sources.len());
    if all_acceptable(files) {
        assert forall|j: int| 0 <= j < sources.len() implies (#[trigger] sources[j]).acceptable() by {
            assert(order.contains(j));
            let i = choose|i: int| 0 <= i < order.len() && order[i] == j;
            assert(files[i].acceptable());
        }
    }
    if all_acceptable(sources) {
        assert forall|i: int| 0 <= i < files.len() implies (#[trigger] files[i]).acceptable() by {
            assert(0 <= order[i] < sources.len());
            assert(sources[order[i]].acceptable());
        }
    }
}

/// Packs the given source images into one atlas: orders them by path, slices the
/// tilesets into tiles, flips and extrudes every sprite, packs the sprites into a
/// bounded bin, and lists where each one lies. The first file, in that order, whose
/// buffer has the wrong length or is empty is a validation error; the first that is
/// larger than anything the atlas can hold is a build error, as is every sprite
/// that the bin refuses.
pub fn pack_atlas(sources: &Vec<SourceImage>) -> (r: Result<AtlasOutput, CustomError>)
    ensures
        atlas_outcome(sources@, r),
{
    let paths = collect_paths(sources);
    let order = path_order(&paths);
    let ghost files = sorted_files(sources@);
    assert(files == files_in(sources@, index_views(order@)));
    proof {
        lemma_sorted_files_cover(sources@);
    }
    match find_unacceptable(sources, &order) {
        Some(k) => {
            let which: usize = order[k];
            assert(files[k as int] == sources@[which as int]);
            let r = Err(sources[which].rejection());
            proof {
                assert forall|j: int| #[trigger] first_unacceptable(files, j) implies j == k by {
                    if j < k {
                        assert(files[j].acceptable());
                    } else if k < j {
                        assert(files[k as int].acceptable());
                    }
                }
                assert(!files[k as int].acceptable());
            }
            r
        },
        None => {
            let prepared = prepare_sources(sources);
            let r = pack_prepared(&prepared);
            proof {
                assert(is_preparation(sources@, prepared@) && pack_outcome(prepared@, r));
                assert forall|k: int| #[trigger] first_unacceptable(files, k) implies false by {
                    assert(files[k].acceptable());
                }
            }
            r
        },
    }
}

/// A source file yields no negative number of sprites.
proof fn lemma_sprite_count_nonneg(src: SourceImage)
    ensures
        src.sprite_count() >= 0,
{
    let g = src.grid();
    let cols = src.image.width as int / g.tile_width as int;
    let rows = src.image.height as int / g.tile_height as int;
    assert(g.tile_width >= 1 && g.tile_height >= 1);
    vstd::arithmetic::div_mod::lemma_div_pos_is_pos(src.image.width as int, g.tile_width as int);
    vstd::arithmetic::div_mod::lemma_div_pos_is_pos(src.image.height as int, g.tile_height as int);
    assert(cols * rows >= 0) by (nonlinear_arith)
        requires
            cols >= 0,
            rows >= 0,
    ;
}

/// Every prepared sprite is some sprite of some file.
proof fn lemma_slot_cover(sources: Seq<SourceImage>, order: Seq<int>, n: nat, j: int)
    requires
        0 <= j < sprites_before(sources, order, n),
    ensures
        exists|i: int, t: int|
            0 <= i < n && 0 <= t < sources[order[i]].sprite_count() && j == #[trigger] sprite_slot(
                sources,
                order,
                i,
                t,
            ),
    decreases n,
{
    if n > 0 {
        let m = (n - 1) as nat;
        let before = sprites_before(sources, order, m);
        lemma_sprite_count_nonneg(sources[order[n - 1]]);
        if j < before {
            lemma_slot_cover(sources, order, m, j);
            let (i, t) = choose|i: int, t: int|
                0 <= i < m && 0 <= t < sources[order[i]].sprite_count() && j == #[trigger] sprite_slot(
                    sources,
                    order,
                    i,
                    t,
                );
            assert(0 <= i < n && 0 <= t < sources[order[i]].sprite_count() && j == sprite_slot(
                sources,
                order,
                i,
                t,
            ));
        } else {
            lemma_before_nonneg(sources, order, m);
            let t = j - before;
            assert(0 <= n - 1 < n && 0 <= t < sources[order[n - 1]].sprite_count() && j
                == sprite_slot(sources, order, n - 1, t));
        }
    }
}

proof fn lemma_before_nonneg(sources: Seq<SourceImage>, order: Seq<int>, i: nat)
    ensures
        sprites_before(sources, order, i) >= 0,
    decreases i,
{
    if i > 0 {
        lemma_before_nonneg(sources, order, (i - 1) as nat);
        lemma_sprite_count_nonneg(sources[order[i - 1]]);
    }
}

/// The prepared sprites of a list of source files are determined by the files.
pub proof fn lemma_preparation_unique(
    sources: Seq<SourceImage>,
    a: Seq<PreparedSprite>,
    b: Seq<PreparedSprite>,
)
    requires
        is_preparation(sources, a),
        is_preparation(sources, b),
    ensures
        same_prepared(a, b),
{
    let order = packing_order(sources);
    let n = sources.len();
    assert forall|j: int| 0 <= j < a.len() implies {
        &&& (#[trigger] a[j]).key@ == b[j].key@
        &&& a[j].source_size == b[j].source_size
        &&& a[j].image.width == b[j].image.width
        &&& a[j].image.height == b[j].image.height
        &&& a[j].image.data@ == b[j].image.data@
    } by {
        lemma_slot_cover(sources, order, n, j);
        let (i, t) = choose|i: int, t: int|
            0 <= i < n && 0 <= t < sources[order[i]].sprite_count() && j == #[trigger] sprite_slot(
                sources,
                order,
                i,
                t,
            );
        let src = sources[order[i]];
        assert(src.prepares(t, a[sprite_slot(sources, order, i, t)]));
        assert(src.prepares(t, b[sprite_slot(sources, order, i, t)]));
        let w = a[j].image.width as int;
        let h = a[j].image.height as int;
        assert forall|x: int, y: int, c: int|
            0 <= x < w && 0 <= y < h && 0 <= c < 4 implies #[trigger] crate::pixels::texel(
            a[j].image.data@,
            w,
            x,
            y,
            c,
        ) == crate::pixels::texel(b[j].image.data@, w, x, y, c) by {
            assert(a[j].image.at(x, y, c) == b[j].image.at(x, y, c));
        }
        assert(a[j].image.data@.len() == w * h * 4) by (nonlinear_arith)
            requires
                a[j].image.data@.len() == a[j].image.width as nat * a[j].image.height as nat * 4,
                w == a[j].image.width,
                h == a[j].image.height,
        ;
        assert(b[j].image.data@.len() == w * h * 4) by (nonlinear_arith)
            requires
                b[j].image.data@.len() == b[j].image.width as nat * b[j].image.height as nat * 4,
                w == b[j].image.width,
                h == b[j].image.height,
        ;
        lemma_image_determined(a[j].image.data@, b[j].image.data@, w, h);
    }
}

/// Among files of which one cannot be handled, one is the first such.
proof fn lemma_first_unacceptable(files: Seq<SourceImage>, n: int) -> (k: int)
    requires
        0 <= n <= files.len(),
        exists|j: int| 0 <= j < n && !(#[trigger] files[j]).acceptable(),
    ensures
        first_unacceptable(files, k),
    decreases n,
{
    if exists|j: int| 0 <= j < n - 1 && !(#[trigger] files[j]).acceptable() {
        lemma_first_unacceptable(files, n - 1)
    } else {
        let j = choose|j: int| 0 <= j < n && !(#[trigger] files[j]).acceptable();
        assert(j == n - 1);
        assert forall|i: int| 0 <= i < n - 1 implies (#[trigger] files[i]).acceptable() by {}
        n - 1
    }
}

/// Atlas packing is deterministic: two packings of the same source files yield the
/// same atlas image and the same sprite table, or the same error.
pub proof fn lemma_packing_is_deterministic(
    sources: Seq<SourceImage>,
    r1: Result<AtlasOutput, CustomError>,
    r2: Result<AtlasOutput, CustomError>,
)
    requires
        atlas_outcome(sources, r1),
        atlas_outcome(sources, r2),
    ensures
        same_result(r1, r2),
{
    let files = sorted_files(sources);
    if all_acceptable(files) {
        let a = choose|p: Seq<PreparedSprite>| #[trigger]
            is_preparation(sources, p) && pack_outcome(p, r1);
        let b = choose|p: Seq<PreparedSprite>| #[trigger]
            is_preparation(sources, p) && pack_outcome(p, r2);
        lemma_preparation_unique(sources, a, b);
        lemma_pack_deterministic(a, b, r1, r2);
    } else {
        let k = lemma_first_unacceptable(files, files.len() as int);
        assert(first_unacceptable(files, k));
    }
}

/// Two listings hold the same files.
pub open spec fn same_files(a: Seq<SourceImage>, b: Seq<SourceImage>) -> bool {
    &&& a.len() == b.len()
    &&& forall|i: int| 0 <= i < a.len() ==> b.contains(#[trigger] a[i])
    &&& forall|i: int| 0 <= i < b.len() ==> a.contains(#[trigger] b[i])
}

/// No two files of a listing have the same path.
pub open spec fn distinct_paths(files: Seq<SourceImage>) -> bool {
    forall|i: int, j: int|
        0 <= i < j < files.len() ==> (#[trigger] files[i]).path@ != (#[trigger] files[j]).path@
}

/// The paths of the files rise strictly.
pub open spec fn strictly_sorted(files: Seq<SourceImage>) -> bool {
    forall|i: int, j: int|
        0 <= i < j < files.len() ==> crate::text::lex_lt(
            (#[trigger] files[i]).path@,
            (#[trigger] files[j]).path@,
        )
}

/// Files with distinct paths are strictly sorted in packing order, and each of
/// them is there.
proof fn lemma_sorted_files_strict(sources: Seq<SourceImage>)
    requires
        distinct_paths(sources),
    ensures
        strictly_sorted(sorted_files(sources)),
        sorted_files(sources).len() == sources.len(),
        forall|j: int| 0 <= j < sources.len() ==> sorted_files(sources).contains(#[trigger] sources[j]),
        forall|i: int|
            0 <= i < sources.len() ==> sources.contains(#[trigger] sorted_files(sources)[i]),
{
    let paths = source_paths(sources);
    let order = packing_order(sources);
    let files = sorted_files(sources);
    crate::ordering::lemma_sorted_indices_order(paths, sources.len());
    assert forall|i: int, j: int| 0 <= i < j < files.len() implies crate::text::lex_lt(
        (#[trigger] files[i]).path@,
        (#[trigger] files[j]).path@,
    ) by {
        let a = order[i];
        let b = order[j];
        assert(a != b);
        assert(paths[a] == sources[a].path@ && paths[b] == sources[b].path@);
        assert(!crate::text::lex_lt(paths[b], paths[a]));
        if a < b {
            assert(sources[a].path@ != sources[b].path@);
        } else {
            assert(sources[b].path@ != sources[a].path@);
        }
        crate::ordering::lemma_lex_total(paths[a], paths[b]);
    }
    assert forall|j: int| 0 <= j < sources.len() implies files.contains(#[trigger] sources[j]) by {
        assert(order.contains(j));
        let i = choose|i: int| 0 <= i < order.len() && order[i] == j;
        assert(files[i] == sources[j]);
    }
    assert forall|i: int| 0 <= i < sources.len() implies sources.contains(#[trigger] files[i]) by {
        assert(0 <= order[i] < sources.len());
        assert(sources[order[i]] == files[i]);
    }
}

/// Two strictly sorted listings of the same files are the same listing.
proof fn lemma_strictly_sorted_unique(a: Seq<SourceImage>, b: Seq<SourceImage>)
    requires
        strictly_sorted(a),
        strictly_sorted(b),
        same_files(a, b),
    ensures
        a == b,
    decreases a.len(),
{
    if a.len() == 0 {
        assert(a =~= b);
    } else {
        let n = a.len() as int;
        let x = a[n - 1];
        let y = b[n - 1];
        assert(b.contains(x));
        let k = choose|k: int| 0 <= k < n && b[k] == x;
        assert(a.contains(y));
        let m = choose|m: int| 0 <= m < n && a[m] == y;
        if k < n - 1 {
            assert(crate::text::lex_lt(b[k].path@, b[n - 1].path@));
            if m < n - 1 {
                assert(crate::text::lex_lt(a[m].path@, a[n - 1].path@));
                crate::ordering::lemma_lex_transitive(x.path@, y.path@, x.path@);
            }
            crate::ordering::lemma_lex_irreflexive(x.path@);
            assert(false);
        }
        assert(x == y);
        let ra = a.drop_last();
        let rb = b.drop_last();
        assert forall|i: int| 0 <= i < ra.len() implies rb.contains(#[trigger] ra[i]) by {
            assert(ra[i] == a[i]);
            assert(b.contains(a[i]));
            let j = choose|j: int| 0 <= j < n && b[j] == a[i];
            if j == n - 1 {
                assert(crate::text::lex_lt(a[i].path@, a[n - 1].path@));
                crate::ordering::lemma_lex_irreflexive(x.path@);
                assert(false);
            }
            assert(rb[j] == ra[i]);
        }
        assert forall|i: int| 0 <= i < rb.len() implies ra.contains(#[trigger] rb[i]) by {
            assert(rb[i] == b[i]);
            assert(a.contains(b[i]));
            let j = choose|j: int| 0 <= j < n && a[j] == b[i];
            if j == n - 1 {
                assert(crate::text::lex_lt(b[i].path@, b[n - 1].path@));
                crate::ordering::lemma_lex_irreflexive(x.path@);
                assert(false);
            }
            assert(ra[j] == rb[i]);
        }
        assert forall|i: int, j: int| 0 <= i < j < ra.len() implies crate::text::lex_lt(
            (#[trigger] ra[i]).path@,
            (#[trigger] ra[j]).path@,
        ) by {
            assert(ra[i] == a[i] && ra[j] == a[j]);
        }
        assert forall|i: int, j: int| 0 <= i < j < rb.len() implies crate::text::lex_lt(
            (#[trigger] rb[i]).path@,
            (#[trigger] rb[j]).path@,
        ) by {
            assert(rb[i] == b[i] && rb[j] == b[j]);
        }
        lemma_strictly_sorted_unique(ra, rb);
        assert(a =~= ra.push(x));
        assert(b =~= rb.push(y));
    }
}

/// The number of sprites before a file depends only on the files in packing order.
proof fn lemma_same_sprites_before(a: Seq<SourceImage>, b: Seq<SourceImage>, i: nat)
    requires
        sorted_files(a) == sorted_files(b),
        i <= a.len(),
        a.len() == b.len(),
    ensures
        sprites_before(a, packing_order(a), i) == sprites_before(b, packing_order(b), i),
    decreases i,
{
    if i > 0 {
        lemma_same_sprites_before(a, b, (i - 1) as nat);
        crate::ordering::lemma_sorted_indices_order(source_paths(a), a.len());
        crate::ordering::lemma_sorted_indices_order(source_paths(b), b.len());
        assert(sorted_files(a)[i - 1] == a[packing_order(a)[i - 1]]);
        assert(sorted_files(b)[i - 1] == b[packing_order(b)[i - 1]]);
    }
}

/// The atlas does not depend on the order in which the files were listed: whatever
/// packing yields for one listing of files with distinct paths, it yields for every
/// other listing of the same files.
pub proof fn lemma_packing_ignores_listing_order(
    a: Seq<SourceImage>,
    b: Seq<SourceImage>,
    r: Result<AtlasOutput, CustomError>,
)
    requires
        same_files(a, b),
        distinct_paths(a),
        distinct_paths(b),
        atlas_outcome(a, r),
    ensures
        sorted_files(a) == sorted_files(b),
        atlas_outcome(b, r),
{
    let fa = sorted_files(a);
    let fb = sorted_files(b);
    lemma_sorted_files_strict(a);
    lemma_sorted_files_strict(b);
    assert forall|i: int| 0 <= i < fa.len() implies fb.contains(#[trigger] fa[i]) by {
        assert(a.contains(fa[i]));
        let j = choose|j: int| 0 <= j < a.len() && a[j] == fa[i];
        assert(b.contains(a[j]));
        let k = choose|k: int| 0 <= k < b.len() && b[k] == a[j];
        assert(fb.contains(b[k]));
    }
    assert forall|i: int| 0 <= i < fb.len() implies fa.contains(#[trigger] fb[i]) by {
        assert(b.contains(fb[i]));
        let j = choose|j: int| 0 <= j < b.len() && b[j] == fb[i];
        assert(a.contains(b[j]));
        let k = choose|k: int| 0 <= k < a.len() && a[k] == b[j];
        assert(fa.contains(a[k]));
    }
    lemma_strictly_sorted_unique(fa, fb);
    if all_acceptable(fa) {
        let p = choose|p: Seq<PreparedSprite>| #[trigger]
            is_preparation(a, p) && pack_outcome(p, r);
        let oa = packing_order(a);
        let ob = packing_order(b);
        let n = a.len();
        lemma_same_sprites_before(a, b, n);
        assert forall|i: int, t: int|
            0 <= i < n && 0 <= t < b[ob[i]].sprite_count() implies b[ob[i]].prepares(
            t,
            #[trigger] p[sprite_slot(b, ob, i, t)],
        ) by {
            assert(fa[i] == a[oa[i]] && fb[i] == b[ob[i]]);
            lemma_same_sprites_before(a, b, i as nat);
            assert(sprite_slot(b, ob, i, t) == sprite_slot(a, oa, i, t));
            assert(a[oa[i]].prepares(t, p[sprite_slot(a, oa, i, t)]));
        }
        assert(is_preparation(b, p));
    }
}

/// A tileset of exactly `cols` by `rows` tiles yields `cols * rows` sprites, and the
/// sprite with the row-major number `t` has the key made of the stem, an underscore
/// and `t`.
pub proof fn lemma_tileset_sprites(src: SourceImage, cols: nat, rows: nat)
    requires
        src.is_tileset(),
        src.image.width == cols * src.grid().tile_width,
        src.image.height == rows * src.grid().tile_height,
    ensures
        src.sprite_count() == cols * rows,
        src.columns() == cols,
        forall|t: int|
            0 <= t < cols * rows ==> #[trigger] src.sprite_key(t) == file_stem_of(src.path@)
                + seq!['_'] + crate::text::decimal_seq(t as nat),
        forall|t: int|
            0 <= t < cols * rows ==> #[trigger] src.sprite_origin(t) == (
                (t % (cols as int)) * src.grid().tile_width,
                (t / (cols as int)) * src.grid().tile_height,
            ),
{
    crate::tileset::lemma_exact_grid(cols, rows, src.grid(), src.image.width, src.image.height);
}

} // verus!
