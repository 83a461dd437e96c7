//! The atlas packer: gives prepared images to a skyline bin in order, checks the
//! layout the bin chose, and assembles the atlas with its sprite table.
use vstd::prelude::*;
use vstd::string::*;
use crate::atlas::{
    check_layout, check_spacing, layout_ok, lemma_table_spaced, lemma_table_valid, spacing_ok,
    table_from_slots, table_spaced, table_upto, table_valid,
    table_view, AtlasOutput, PackedSprite, Rect, SpriteEntry,
};
use crate::error::CustomError;
use crate::paths::{extension_of, has_extension, join, join_of};
use crate::pixels::{lemma_image_determined, texel, Image};
use crate::staleness::{tree_stale, Scanned};
use crate::skyline::{
    covers,
    bin_entries, bin_export, bin_frame, bin_insert, bin_limits, exportable, frame_of, is_extent,
    is_live, new_bin, shows_entries, sizes_of, skyline_position, PackerConfig,
};

verus! {

/// Largest width of an atlas.
pub const ATLAS_MAX_WIDTH: u32 = 2048;

/// Largest height of an atlas.
pub const ATLAS_MAX_HEIGHT: u32 = 2048;

/// Free pixels kept around the packed area.
pub const BORDER_PADDING: u32 = 2;

/// Free pixels kept between two sprites.
pub const TEXTURE_PADDING: u32 = 2;

/// Largest width of the area in which the bin places sprites: the atlas without the
/// border on its right side.
pub const BIN_MAX_WIDTH: u32 = 2046;

/// Largest height of the area in which the bin places sprites: the atlas without the
/// border on its lower side.
pub const BIN_MAX_HEIGHT: u32 = 2046;

/// The limits of the atlas bin: `(max_width, max_height, border_padding, texture_padding)`.
pub open spec fn atlas_limits() -> (u32, u32, u32, u32) {
    (BIN_MAX_WIDTH, BIN_MAX_HEIGHT, BORDER_PADDING, TEXTURE_PADDING)
}

/// The settings of the atlas bin: bounded so that the atlas with its border stays
/// within the atlas limits, fixed padding, no rotation, no trimming, no outlines.
pub fn atlas_config() -> (config: PackerConfig)
    ensures
        config.plain(),
        config.max_width == BIN_MAX_WIDTH,
        config.max_height == BIN_MAX_HEIGHT,
        config.max_width + config.border_padding == ATLAS_MAX_WIDTH,
        config.max_height + config.border_padding == ATLAS_MAX_HEIGHT,
        config.border_padding == BORDER_PADDING,
        config.texture_padding == TEXTURE_PADDING,
{
    PackerConfig {
        max_width: BIN_MAX_WIDTH,
        max_height: BIN_MAX_HEIGHT,
        allow_rotation: false,
        force_max_dimensions: false,
        border_padding: BORDER_PADDING,
        texture_padding: TEXTURE_PADDING,
        texture_extrusion: 0,
        trim: false,
        texture_outlines: false,
    }
}

/// An image ready to be packed: flipped and extruded, with its key and the size it
/// had before extrusion.
#[derive(Debug)]
pub struct PreparedSprite {
    pub key: String,
    pub source_size: (u32, u32),
    pub image: Image,
}

impl PreparedSprite {
    /// The image is well formed, not empty, and small enough for the bin to measure.
    pub open spec fn ready(&self) -> bool {
        &&& self.image.wf()
        &&& 1 <= self.image.width <= 16386
        &&& 1 <= self.image.height <= 16386
    }
}

/// The keys of the prepared images, in order.
pub open spec fn keys_of(prepared: Seq<PreparedSprite>) -> Seq<Seq<char>> {
    Seq::new(prepared.len(), |i: int| prepared[i].key@)
}

/// The sizes before extrusion of the prepared images, in order.
pub open spec fn sources_of(prepared: Seq<PreparedSprite>) -> Seq<(u32, u32)> {
    Seq::new(prepared.len(), |i: int| prepared[i].source_size)
}

/// The stored sizes of the prepared images, in order.
pub open spec fn image_sizes(prepared: Seq<PreparedSprite>) -> Seq<(u32, u32)> {
    Seq::new(prepared.len(), |i: int| (prepared[i].image.width, prepared[i].image.height))
}

/// Where the bin puts image `k` after it accepted all images before it.
pub open spec fn planned_position(prepared: Seq<PreparedSprite>, k: int) -> Option<(u32, u32)> {
    skyline_position(
        atlas_limits(),
        image_sizes(prepared).take(k),
        prepared[k].image.width,
        prepared[k].image.height,
    )
}

/// The bin accepts each of the first `n` images.
pub open spec fn all_placed(prepared: Seq<PreparedSprite>, n: int) -> bool {
    forall|k: int| 0 <= k < n ==> (#[trigger] planned_position(prepared, k)) is Some
}

/// Image `k` is the first that the bin refuses.
pub open spec fn first_refused(prepared: Seq<PreparedSprite>, k: int) -> bool {
    &&& 0 <= k < prepared.len()
    &&& all_placed(prepared, k)
    &&& planned_position(prepared, k) is None
}

/// The bin entry of image `k`: its key, its frame at the planned position, its bytes.
pub open spec fn planned_entry(prepared: Seq<PreparedSprite>, k: int) -> (
    Seq<char>,
    (u32, u32, u32, u32),
    Seq<u8>,
) {
    (
        prepared[k].key@,
        (
            planned_position(prepared, k)->Some_0.0,
            planned_position(prepared, k)->Some_0.1,
            prepared[k].image.width,
            prepared[k].image.height,
        ),
        prepared[k].image.data@,
    )
}

/// The bin entries of the first `n` images.
pub open spec fn planned_entries(prepared: Seq<PreparedSprite>, n: int) -> Seq<
    (Seq<char>, (u32, u32, u32, u32), Seq<u8>),
> {
    Seq::new(n as nat, |k: int| planned_entry(prepared, k))
}

/// No later image has the key of image `i`.
pub open spec fn key_is_final(keys: Seq<Seq<char>>, i: int) -> bool {
    forall|j: int| i < j < keys.len() ==> #[trigger] keys[j] != keys[i]
}

/// The frame of each image in the finished bin, or `None` for an image whose key a
/// later image took over.
pub open spec fn planned_slots(prepared: Seq<PreparedSprite>) -> Seq<Option<Rect>> {
    Seq::new(
        prepared.len(),
        |i: int|
            if key_is_final(keys_of(prepared), i) {
                let f = planned_entry(prepared, i).1;
                Some(Rect { x: f.0, y: f.1, w: f.2, h: f.3 })
            } else {
                None
            },
    )
}

/// The detail of the error for an image that the bin refused.
pub open spec fn atlas_full_message(key: Seq<char>) -> Seq<char> {
    "failed to pack sprite '"@ + key + "'. Atlas full?"@
}

/// The detail of the error for a layout that breaks the layout rules.
pub open spec fn invalid_layout_message() -> Seq<char> {
    "atlas layout violates the packing invariant"@
}

/// The error for an image that cannot be placed in the atlas.
pub fn atlas_full_error(key: &str) -> (e: CustomError)
    ensures
        e is BuildError,
        e.detail() == atlas_full_message(key@),
{
    CustomError::BuildError(
        String::from_str("failed to pack sprite '").concat(key).concat("'. Atlas full?"),
    )
}

fn invalid_layout_error() -> (e: CustomError)
    ensures
        e is BuildError,
        e.detail() == invalid_layout_message(),
{
    CustomError::BuildError(String::from_str("atlas layout violates the packing invariant"))
}

/// Tests whether no later image has the key of image `i`.
pub fn is_last_with_key(prepared: &Vec<PreparedSprite>, i: usize) -> (r: bool)
    requires
        i < prepared@.len(),
    ensures
        r == key_is_final(keys_of(prepared@), i as int),
{
    let ghost keys = keys_of(prepared@);
    let n: usize = prepared.len();
    let mut j: usize = i + 1;
    while j < prepared.len()
        invariant
            i < j <= prepared@.len(),
            keys == keys_of(prepared@),
            forall|k: int| i < k < j ==> #[trigger] keys[k] != keys[i as int],
        decreases prepared.len() - j,
    {
        if prepared[j].key == prepared[i].key {
            assert(keys[j as int] == keys[i as int]);
            return false;
        }
        assert(keys[j as int] != keys[i as int]);
        j = j + 1;
    }
    true
}

/// Builds the sprite table: one entry for each framed image, in the order of the images.
pub fn build_sprite_table(prepared: &Vec<PreparedSprite>, slots: &Vec<Option<Rect>>) -> (table: Vec<
    PackedSprite,
>)
    requires
        prepared@.len() == slots@.len(),
    ensures
        table_view(table@) == table_upto(
            keys_of(prepared@),
            sources_of(prepared@),
            slots@,
            prepared@.len(),
        ),
{
    let mut table: Vec<PackedSprite> = Vec::new();
    let mut i: usize = 0;
    while i < prepared.len()
        invariant
            i <= prepared@.len(),
            prepared@.len() == slots@.len(),
            table_view(table@) == table_upto(
                keys_of(prepared@),
                sources_of(prepared@),
                slots@,
                i as nat,
            ),
        decreases prepared.len() - i,
    {
        let ghost before = table_view(table@);
        match slots[i] {
            None => {},
            Some(r) => {
                let sprite = PackedSprite {
                    key: prepared[i].key.clone(),
                    rect: r,
                    source_size: prepared[i].source_size,
                    extruded: true,
                };
                table.push(sprite);
                assert(table_view(table@) =~= before.push(
                    SpriteEntry {
                        key: keys_of(prepared@)[i as int],
                        rect: r,
                        source_size: sources_of(prepared@)[i as int],
                        extruded: true,
                    },
                ));
            },
        }
        i = i + 1;
    }
    table
}

/// What makes a flattened image acceptable for a list of frames: it is well formed,
/// within the atlas limits, and every frame lies inside it.
pub open spec fn flat_ok(flat: Image, slots: Seq<Option<Rect>>) -> bool {
    &&& flat.wf()
    &&& flat.width <= ATLAS_MAX_WIDTH
    &&& flat.height <= ATLAS_MAX_HEIGHT
    &&& forall|i: int|
        0 <= i < slots.len() ==> ((#[trigger] slots[i]) matches Some(r) ==> r.inside(
            flat.width - BORDER_PADDING,
            flat.height - BORDER_PADDING,
        ))
}

fn check_flat(flat: &Image, slots: &Vec<Option<Rect>>) -> (ok: bool)
    ensures
        ok == flat_ok(*flat, slots@),
{
    if !flat.is_well_formed() || flat.width > ATLAS_MAX_WIDTH || flat.height > ATLAS_MAX_HEIGHT {
        return false;
    }
    let mut i: usize = 0;
    while i < slots.len()
        invariant
            i <= slots@.len(),
            forall|k: int|
                0 <= k < i ==> ((#[trigger] slots@[k]) matches Some(r) ==> r.inside(
                    flat.width - BORDER_PADDING,
                    flat.height - BORDER_PADDING,
                )),
        decreases slots.len() - i,
    {
        match slots[i] {
            None => {},
            Some(r) => {
                if flat.width < BORDER_PADDING || flat.height < BORDER_PADDING || !r.fits(
                    flat.width - BORDER_PADDING,
                    flat.height - BORDER_PADDING,
                ) {
                    return false;
                }
            },
        }
        i = i + 1;
    }
    true
}

/// A table from frames that obey the layout rules and lie inside the flattened image
/// obeys the table rules within that image.
proof fn lemma_table_in_flat(
    keys: Seq<Seq<char>>,
    sources: Seq<(u32, u32)>,
    slots: Seq<Option<Rect>>,
    width: int,
    height: int,
)
    requires
        layout_ok(keys, slots, ATLAS_MAX_WIDTH, ATLAS_MAX_HEIGHT, BORDER_PADDING),
        sources.len() == slots.len(),
        forall|i: int|
            0 <= i < slots.len() ==> ((#[trigger] slots[i]) matches Some(r) ==> r.inside(
                width,
                height,
            )),
    ensures
        table_valid(table_upto(keys, sources, slots, slots.len()), width, height),
{
    lemma_table_valid(
        keys,
        sources,
        slots,
        slots.len(),
        ATLAS_MAX_WIDTH,
        ATLAS_MAX_HEIGHT,
        BORDER_PADDING,
    );
    let table = table_upto(keys, sources, slots, slots.len());
    assert forall|t: int| 0 <= t < table.len() implies (#[trigger] table[t]).rect.inside(
        width,
        height,
    ) by {
        let i = choose|i: int|
            0 <= i < slots.len() && slots[i] == Some(table[t].rect) && keys[i] == table[t].key;
        assert(slots[i] matches Some(r) ==> r.inside(width, height));
    }
}

/// What holds of an atlas assembled from the given frames and flattened image: it
/// has the image and one sprite for each frame, every sprite keeps the border free
/// on all four sides, and any two sprites are at least the padding apart.
pub open spec fn assembled(
    prepared: Seq<PreparedSprite>,
    slots: Seq<Option<Rect>>,
    flat: Image,
    atlas: AtlasOutput,
) -> bool {
    &&& atlas.wf()
    &&& atlas.width == flat.width
    &&& atlas.height == flat.height
    &&& atlas.pixels@ == flat.data@
    &&& table_view(atlas.sprites@) == table_upto(
        keys_of(prepared),
        sources_of(prepared),
        slots,
        prepared.len(),
    )
    &&& table_valid(
        table_view(atlas.sprites@),
        atlas.width - BORDER_PADDING,
        atlas.height - BORDER_PADDING,
    )
    &&& table_spaced(table_view(atlas.sprites@), BORDER_PADDING, TEXTURE_PADDING)
}

fn finish_atlas(prepared: &Vec<PreparedSprite>, slots: &Vec<Option<Rect>>, flat: Image) -> (r:
    Result<AtlasOutput, CustomError>)
    requires
        layout_ok(keys_of(prepared@), slots@, ATLAS_MAX_WIDTH, ATLAS_MAX_HEIGHT, BORDER_PADDING),
        spacing_ok(slots@, BORDER_PADDING, TEXTURE_PADDING),
    ensures
        r is Ok <==> flat_ok(flat, slots@),
        r matches Ok(atlas) ==> assembled(prepared@, slots@, flat, atlas),
        r matches Err(e) ==> e is BuildError && e.detail() == invalid_layout_message(),
{
    if !check_flat(&flat, slots) {
        return Err(invalid_layout_error());
    }
    let sprites = build_sprite_table(prepared, slots);
    proof {
        lemma_table_in_flat(
            keys_of(prepared@),
            sources_of(prepared@),
            slots@,
            flat.width - BORDER_PADDING,
            flat.height - BORDER_PADDING,
        );
        lemma_table_spaced(
            keys_of(prepared@),
            sources_of(prepared@),
            slots@,
            ATLAS_MAX_WIDTH,
            ATLAS_MAX_HEIGHT,
            BORDER_PADDING,
            TEXTURE_PADDING,
        );
        let table = table_view(sprites@);
        assert forall|i: int| 0 <= i < table.len() implies (#[trigger] table[i]).rect.inside(
            flat.width as int,
            flat.height as int,
        ) by {
            assert(table[i].rect.inside(
                flat.width - BORDER_PADDING,
                flat.height - BORDER_PADDING,
            ));
        }
    }
    Ok(AtlasOutput { width: flat.width, height: flat.height, pixels: flat.data, sprites })
}

/// Assembles an atlas from the frames that a bin assigned and the image it was
/// flattened into. `slots[i]` is the frame of image `i`, or `None` when a later image
/// took over its key. Succeeds exactly when the frames obey the layout and spacing
/// rules and the flattened image is well formed, within the atlas limits and holds
/// every frame with the border around it.
pub fn assemble_atlas(prepared: &Vec<PreparedSprite>, slots: &Vec<Option<Rect>>, flat: Image) -> (r:
    Result<AtlasOutput, CustomError>)
    ensures
        r is Ok <==> layout_ok(
            keys_of(prepared@),
            slots@,
            ATLAS_MAX_WIDTH,
            ATLAS_MAX_HEIGHT,
            BORDER_PADDING,
        ) && spacing_ok(slots@, BORDER_PADDING, TEXTURE_PADDING) && flat_ok(flat, slots@),
        r matches Ok(atlas) ==> assembled(prepared@, slots@, flat, atlas),
        r matches Err(e) ==> e is BuildError && e.detail() == invalid_layout_message(),
{
    let keys = collect_keys(prepared);
    assert(Seq::new(keys@.len(), |i: int| keys@[i]@) =~= keys_of(prepared@));
    if !check_layout(&keys, slots, ATLAS_MAX_WIDTH, ATLAS_MAX_HEIGHT, BORDER_PADDING) {
        return Err(invalid_layout_error());
    }
    if !check_spacing(slots, BORDER_PADDING, TEXTURE_PADDING) {
        return Err(invalid_layout_error());
    }
    finish_atlas(prepared, slots, flat)
}

fn collect_keys(prepared: &Vec<PreparedSprite>) -> (keys: Vec<String>)
    ensures
        keys@.len() == prepared@.len(),
        forall|i: int| 0 <= i < keys@.len() ==> (#[trigger] keys@[i])@ == prepared@[i].key@,
{
    let mut keys: Vec<String> = Vec::new();
    let mut i: usize = 0;
    while i < prepared.len()
        invariant
            i <= prepared@.len(),
            keys@.len() == i,
            forall|k: int| 0 <= k < i ==> (#[trigger] keys@[k])@ == prepared@[k].key@,
        decreases prepared.len() - i,
    {
        keys.push(prepared[i].key.clone());
        i = i + 1;
    }
    keys
}

/// An entry that no later entry overrides is the one the bin answers with for its key.
pub proof fn lemma_frame_of_live(
    entries: Seq<(Seq<char>, (u32, u32, u32, u32), Seq<u8>)>,
    i: int,
)
    requires
        is_live(entries, i),
    ensures
        frame_of(entries, entries[i].0) == Some(entries[i].1),
    decreases entries.len(),
{
    if i < entries.len() - 1 {
        let rest = entries.drop_last();
        assert(entries[entries.len() - 1].0 != entries[i].0);
        assert forall|j: int| i < j < rest.len() implies (#[trigger] rest[j]).0 != rest[i].0 by {
            assert(rest[j] == entries[j]);
        }
        lemma_frame_of_live(rest, i);
    }
}

/// An image is live in the finished bin exactly when its key is final.
proof fn lemma_live_iff_final(prepared: Seq<PreparedSprite>, i: int)
    requires
        0 <= i < prepared.len(),
    ensures
        is_live(planned_entries(prepared, prepared.len() as int), i) == key_is_final(
            keys_of(prepared),
            i,
        ),
{
    let entries = planned_entries(prepared, prepared.len() as int);
    let keys = keys_of(prepared);
    if key_is_final(keys, i) {
        assert forall|j: int| i < j < entries.len() implies (#[trigger] entries[j]).0
            != entries[i].0 by {
            assert(keys[j] != keys[i]);
        }
    }
    if is_live(entries, i) {
        assert forall|j: int| i < j < keys.len() implies #[trigger] keys[j] != keys[i] by {
            assert(entries[j].0 != entries[i].0);
        }
    }
}

/// Frames that obey the layout rules can be flattened.
proof fn lemma_layout_exportable(prepared: Seq<PreparedSprite>)
    requires
        layout_ok(
            keys_of(prepared),
            planned_slots(prepared),
            ATLAS_MAX_WIDTH,
            ATLAS_MAX_HEIGHT,
            BORDER_PADDING,
        ),
    ensures
        exportable(planned_entries(prepared, prepared.len() as int), BORDER_PADDING),
{
    let entries = planned_entries(prepared, prepared.len() as int);
    let slots = planned_slots(prepared);
    assert forall|i: int, j: int| is_live(entries, i) && is_live(entries, j) && i != j implies !
    crate::skyline::frames_overlap((#[trigger] entries[i]).1, (#[trigger] entries[j]).1) by {
        lemma_live_iff_final(prepared, i);
        lemma_live_iff_final(prepared, j);
        let a = slots[i]->Some_0;
        let b = slots[j]->Some_0;
        assert(slots[i] == Some(a) && slots[j] == Some(b));
        if i < j {
            assert(!a.overlaps(b));
        } else {
            assert(!b.overlaps(a));
        }
    }
    assert forall|i: int| is_live(entries, i) implies {
        let f = (#[trigger] entries[i]).1;
        f.2 >= 1 && f.3 >= 1 && f.0 + f.2 + BORDER_PADDING <= 16384 && f.1 + f.3 + BORDER_PADDING
            <= 16384
    } by {
        lemma_live_iff_final(prepared, i);
        let a = slots[i]->Some_0;
        assert(slots[i] == Some(a));
        assert(a.inside(ATLAS_MAX_WIDTH - BORDER_PADDING, ATLAS_MAX_HEIGHT - BORDER_PADDING));
    }
}

/// An image that reaches exactly to the furthest frame of a valid layout is
/// acceptable for that layout.
proof fn lemma_extent_flat_ok(prepared: Seq<PreparedSprite>, flat: Image)
    requires
        layout_ok(
            keys_of(prepared),
            planned_slots(prepared),
            ATLAS_MAX_WIDTH,
            ATLAS_MAX_HEIGHT,
            BORDER_PADDING,
        ),
        flat.wf(),
        is_extent(
            planned_entries(prepared, prepared.len() as int),
            BORDER_PADDING,
            flat.width as int,
            flat.height as int,
        ),
    ensures
        flat_ok(flat, planned_slots(prepared)),
{
    let entries = planned_entries(prepared, prepared.len() as int);
    let slots = planned_slots(prepared);
    let iw = choose|i: int|
        is_live(entries, i) && {
            let f = (#[trigger] entries[i]).1;
            f.0 + f.2 + BORDER_PADDING == flat.width as int
        };
    lemma_live_iff_final(prepared, iw);
    assert(slots[iw] == Some(slots[iw]->Some_0));
    assert(slots[iw]->Some_0.inside(
        ATLAS_MAX_WIDTH - BORDER_PADDING,
        ATLAS_MAX_HEIGHT - BORDER_PADDING,
    ));
    let ih = choose|i: int|
        is_live(entries, i) && {
            let f = (#[trigger] entries[i]).1;
            f.1 + f.3 + BORDER_PADDING == flat.height as int
        };
    lemma_live_iff_final(prepared, ih);
    assert(slots[ih] == Some(slots[ih]->Some_0));
    assert(slots[ih]->Some_0.inside(
        ATLAS_MAX_WIDTH - BORDER_PADDING,
        ATLAS_MAX_HEIGHT - BORDER_PADDING,
    ));
    assert forall|i: int| 0 <= i < slots.len() implies ((#[trigger] slots[i]) matches Some(r)
        ==> r.inside(flat.width - BORDER_PADDING, flat.height - BORDER_PADDING)) by {
        if slots[i] is Some {
            lemma_live_iff_final(prepared, i);
            let f = entries[i].1;
            assert(f.0 + f.2 + BORDER_PADDING <= flat.width && f.1 + f.3 + BORDER_PADDING
                <= flat.height);
            assert(slots[i]->Some_0.inside(
                ATLAS_MAX_WIDTH - BORDER_PADDING,
                ATLAS_MAX_HEIGHT - BORDER_PADDING,
            ));
        }
    }
}

/// What packing the prepared images yields. Packing succeeds exactly when the bin
/// accepts every image and the frames it chose obey the layout and spacing rules. The
/// atlas then is well formed and within the atlas limits, lists one sprite for each
/// framed image, keeps the border free around every sprite and the padding between
/// any two, reaches exactly to the furthest frame plus the border, and shows every
/// framed image at its frame. Otherwise the error names the first image that the bin refused, or
/// reports the broken layout.
pub open spec fn pack_outcome(prepared: Seq<PreparedSprite>, r: Result<AtlasOutput, CustomError>) -> bool {
    &&& r is Ok <==> all_placed(prepared, prepared.len() as int) && layout_ok(
        keys_of(prepared),
        planned_slots(prepared),
        ATLAS_MAX_WIDTH,
        ATLAS_MAX_HEIGHT,
        BORDER_PADDING,
    ) && spacing_ok(planned_slots(prepared), BORDER_PADDING, TEXTURE_PADDING)
    &&& r matches Ok(atlas) ==> {
        &&& atlas.wf()
        &&& atlas.width <= ATLAS_MAX_WIDTH
        &&& atlas.height <= ATLAS_MAX_HEIGHT
        &&& table_valid(
            table_view(atlas.sprites@),
            atlas.width - BORDER_PADDING,
            atlas.height - BORDER_PADDING,
        )
        &&& table_spaced(table_view(atlas.sprites@), BORDER_PADDING, TEXTURE_PADDING)
        &&& table_view(atlas.sprites@) == table_upto(
            keys_of(prepared),
            sources_of(prepared),
            planned_slots(prepared),
            prepared.len(),
        )
        &&& prepared.len() == 0 ==> atlas.width == 0 && atlas.height == 0
        &&& prepared.len() > 0 ==> is_extent(
            planned_entries(prepared, prepared.len() as int),
            BORDER_PADDING,
            atlas.width as int,
            atlas.height as int,
        ) && shows_entries(
            atlas.pixels@,
            atlas.width as int,
            atlas.height as int,
            planned_entries(prepared, prepared.len() as int),
        )
    }
    &&& r matches Err(e) ==> {
        &&& e is BuildError
        &&& all_placed(prepared, prepared.len() as int) ==> e.detail() == invalid_layout_message()
        &&& !all_placed(prepared, prepared.len() as int) ==> exists|k: int|
            #[trigger] first_refused(prepared, k) && e.detail() == atlas_full_message(
                prepared[k].key@,
            )
    }
}

/// Packs prepared images into one atlas. The images go into a skyline bin in the
/// given order; an image that the bin refuses ends the packing with an error that
/// names it. The frames the bin chose are checked against the layout rules before
/// the bin is flattened. Of two images with one key the later one is kept.
pub fn pack_prepared(prepared: &Vec<PreparedSprite>) -> (r: Result<AtlasOutput, CustomError>)
    requires
        forall|i: int| 0 <= i < prepared@.len() ==> (#[trigger] prepared@[i]).ready(),
    ensures
        pack_outcome(prepared@, r),
{
    let n: usize = prepared.len();
    if n == 0 {
        assert(planned_slots(prepared@) =~= Seq::<Option<Rect>>::empty());
        let atlas = AtlasOutput::empty();
        assert(table_view(atlas.sprites@) =~= Seq::<SpriteEntry>::empty());
        return Ok(atlas);
    }
    let config = atlas_config();
    let mut bin = new_bin(&config);
    let mut k: usize = 0;
    assert(bin_entries(bin) =~= planned_entries(prepared@, 0));
    while k < n
        invariant
            k <= n,
            n == prepared@.len(),
            forall|i: int| 0 <= i < prepared@.len() ==> (#[trigger] prepared@[i]).ready(),
            bin_limits(bin) == atlas_limits(),
            bin_entries(bin) == planned_entries(prepared@, k as int),
            all_placed(prepared@, k as int),
        decreases n - k,
    {
        proof {
            assert(prepared@[k as int].ready());
            assert(sizes_of(planned_entries(prepared@, k as int)) =~= image_sizes(prepared@).take(
                k as int,
            ));
        }
        let accepted = bin_insert(&mut bin, prepared[k].key.as_str(), &prepared[k].image);
        if !accepted {
            assert(first_refused(prepared@, k as int));
            assert(planned_position(prepared@, k as int) is None);
            return Err(atlas_full_error(prepared[k].key.as_str()));
        }
        proof {
            assert(planned_position(prepared@, k as int) is Some);
            assert(bin_entries(bin) =~= planned_entries(prepared@, k + 1));
        }
        k = k + 1;
    }
    let ghost entries = planned_entries(prepared@, n as int);
    let mut slots: Vec<Option<Rect>> = Vec::new();
    let mut i: usize = 0;
    while i < n
        invariant
            i <= n,
            n == prepared@.len(),
            entries == planned_entries(prepared@, n as int),
            bin_entries(bin) == entries,
            slots@.len() == i,
            forall|t: int| 0 <= t < i ==> #[trigger] slots@[t] == planned_slots(prepared@)[t],
        decreases n - i,
    {
        if is_last_with_key(prepared, i) {
            let found = bin_frame(&bin, prepared[i].key.as_str());
            proof {
                lemma_live_iff_final(prepared@, i as int);
                lemma_frame_of_live(entries, i as int);
            }
            match found {
                Some(f) => {
                    slots.push(Some(Rect { x: f.0, y: f.1, w: f.2, h: f.3 }));
                },
                None => {
                    assert(false);
                    slots.push(None);
                },
            }
        } else {
            slots.push(None);
        }
        i = i + 1;
    }
    assert(slots@ =~= planned_slots(prepared@));
    let keys = collect_keys(prepared);
    assert(Seq::new(keys@.len(), |i: int| keys@[i]@) =~= keys_of(prepared@));
    if !check_layout(&keys, &slots, ATLAS_MAX_WIDTH, ATLAS_MAX_HEIGHT, BORDER_PADDING) {
        return Err(invalid_layout_error());
    }
    if !check_spacing(&slots, BORDER_PADDING, TEXTURE_PADDING) {
        return Err(invalid_layout_error());
    }
    proof {
        lemma_layout_exportable(prepared@);
    }
    match bin_export(&bin) {
        Ok(flat) => {
            proof {
                lemma_extent_flat_ok(prepared@, flat);
            }
            finish_atlas(prepared, &slots, flat)
        },
        Err(_) => {
            assert(false);
            Err(invalid_layout_error())
        },
    }
}

/// The file name of the atlas image.
pub open spec fn atlas_name() -> Seq<char> {
    "atlas.png"@
}

/// Where the packer reads and writes.
#[derive(Debug)]
pub struct AtlasContext {
    /// The directory that holds the source images.
    pub images_dir: String,
    /// The atlas image.
    pub atlas_path: String,
    /// The directory that receives the atlas image.
    pub atlas_dir: String,
    /// Whether progress is reported.
    pub verbose: bool,
}

impl AtlasContext {
    /// The context for an assets directory and an atlas directory: the images lie in
    /// `images` under the assets directory, the atlas is `atlas.png` in the atlas
    /// directory.
    pub fn new(assets_dir: &str, atlas_dir: &str, verbose: bool) -> (ctx: AtlasContext)
        ensures
            ctx.images_dir@ == join_of(assets_dir@, "images"@),
            ctx.atlas_dir@ == atlas_dir@,
            ctx.atlas_path@ == join_of(atlas_dir@, atlas_name()),
            ctx.verbose == verbose,
    {
        AtlasContext {
            images_dir: join(assets_dir, "images"),
            atlas_path: join(atlas_dir, "atlas.png"),
            atlas_dir: String::from_str(atlas_dir),
            verbose,
        }
    }

    /// The message to report, if progress is reported at all.
    pub fn info(&self, msg: &str) -> (line: Option<String>)
        ensures
            line is Some == self.verbose,
            line matches Some(l) ==> l@ == msg@,
    {
        if self.verbose {
            Some(String::from_str(msg))
        } else {
            None
        }
    }
}

/// What counts as a source of the atlas: a file with the extension `png` that is not
/// the atlas image itself.
pub open spec fn atlas_source(path: Seq<char>, is_dir: bool, atlas_path: Seq<char>) -> bool {
    &&& !is_dir
    &&& extension_of(path) == Some("png"@)
    &&& path != atlas_path
}

/// Tests whether a file counts as a source of the atlas that is written to
/// `atlas_path`.
pub fn is_atlas_source(path: &str, is_dir: bool, atlas_path: &str) -> (r: bool)
    ensures
        r == atlas_source(path@, is_dir, atlas_path@),
{
    if is_dir {
        return false;
    }
    if String::from_str(path) == String::from_str(atlas_path) {
        return false;
    }
    has_extension(path, "png")
}

/// What one entry of the walk says of an atlas written at time `t`: nothing, when
/// it is no source of the atlas or not newer than the atlas; that the atlas is
/// stale, when it is a newer source; an error, when the walk failed at it or it is
/// a source whose time could not be read.
pub open spec fn entry_verdict(entry: Scanned, atlas_path: Seq<char>, t: u64) -> Option<
    Result<bool, Seq<char>>,
> {
    match entry {
        Scanned::Unreadable(reason) => Some(Err(reason@)),
        Scanned::Found { path, is_dir, mtime } => if !atlas_source(path@, is_dir, atlas_path) {
            None
        } else {
            match mtime {
                Err(reason) => Some(Err(reason@)),
                Ok(m) => if m > t {
                    Some(Ok(true))
                } else {
                    None
                },
            }
        },
    }
}

/// What the walk from entry `from` on says of an atlas written at time `t`: what the
/// first entry says that says anything, and that the atlas is fresh when none does.
pub open spec fn walk_verdict(entries: Seq<Scanned>, atlas_path: Seq<char>, t: u64, from: int) -> Result<
    bool,
    Seq<char>,
>
    decreases entries.len() - from,
{
    if from < 0 || from >= entries.len() {
        Ok(false)
    } else {
        match entry_verdict(entries[from], atlas_path, t) {
            Some(v) => v,
            None => walk_verdict(entries, atlas_path, t, from + 1),
        }
    }
}

/// Whether the atlas must be packed again, or the reason why that cannot be told. A
/// missing atlas is stale, whatever the walk found; an atlas whose time cannot be
/// read is an error; otherwise the walk decides, entry by entry.
pub open spec fn repack_verdict(
    entries: Seq<Scanned>,
    atlas_path: Seq<char>,
    atlas_mtime: Result<Option<u64>, String>,
) -> Result<bool, Seq<char>> {
    match atlas_mtime {
        Ok(None) => Ok(true),
        Err(reason) => Err(reason@),
        Ok(Some(t)) => walk_verdict(entries, atlas_path, t, 0),
    }
}

/// Every entry of the walk was read, and so was its time.
pub open spec fn all_read(entries: Seq<Scanned>) -> bool {
    forall|i: int|
        0 <= i < entries.len() ==> (#[trigger] entries[i] matches Scanned::Found { mtime, .. }
            && mtime is Ok)
}

/// The times of the entries, in order; zero where none was read.
pub open spec fn read_mtimes(entries: Seq<Scanned>) -> Seq<u64> {
    Seq::new(
        entries.len(),
        |i: int|
            match entries[i] {
                Scanned::Found { mtime: Ok(m), .. } => m,
                _ => 0,
            },
    )
}

/// Which of the entries count as sources of the atlas.
pub open spec fn atlas_relevance(entries: Seq<Scanned>, atlas_path: Seq<char>) -> Seq<bool> {
    Seq::new(
        entries.len(),
        |i: int|
            match entries[i] {
                Scanned::Found { path, is_dir, .. } => atlas_source(path@, is_dir, atlas_path),
                Scanned::Unreadable(_) => false,
            },
    )
}

/// When everything was read, the walk says that the atlas is stale exactly when
/// some source of the atlas is strictly newer than it.
pub proof fn lemma_walk_is_tree_stale(entries: Seq<Scanned>, atlas_path: Seq<char>, t: u64, from: int)
    requires
        all_read(entries),
        0 <= from <= entries.len(),
    ensures
        walk_verdict(entries, atlas_path, t, from) == Ok::<bool, Seq<char>>(
            exists|i: int|
                from <= i < entries.len() && atlas_relevance(entries, atlas_path)[i]
                    && #[trigger] read_mtimes(entries)[i] > t,
        ),
    decreases entries.len() - from,
{
    let rel = atlas_relevance(entries, atlas_path);
    let times = read_mtimes(entries);
    if from < entries.len() {
        lemma_walk_is_tree_stale(entries, atlas_path, t, from + 1);
        assert(entries[from] matches Scanned::Found { mtime, .. } && mtime is Ok);
        let later = exists|i: int| from + 1 <= i < entries.len() && rel[i] && #[trigger] times[i] > t;
        let here = exists|i: int| from <= i < entries.len() && rel[i] && #[trigger] times[i] > t;
        if rel[from] && times[from] > t {
            assert(here);
        } else {
            if later {
                let i = choose|i: int| from + 1 <= i < entries.len() && rel[i] && #[trigger] times[i] > t;
                assert(from <= i < entries.len() && rel[i] && times[i] > t);
            }
            if here {
                let i = choose|i: int| from <= i < entries.len() && rel[i] && #[trigger] times[i] > t;
                assert(i != from);
                assert(from + 1 <= i < entries.len() && rel[i] && times[i] > t);
            }
        }
    }
}

/// Decides whether the atlas must be packed again. `entries` is the walk through the
/// images directory, empty when that directory is missing; `atlas_path` is where
/// the atlas is written, in the same form as the paths of the walk; `atlas_mtime`
/// is the time of the atlas as it was read, `Ok(None)` when the atlas does not exist.
///
/// A missing atlas is stale whatever the walk found. Otherwise the entries are
/// taken in turn: the first one at which the walk failed, or which is a source
/// image whose time could not be read, gives an I/O error; the first source image
/// that is strictly newer than the atlas makes the atlas stale. Directories, files
/// of other kinds and the atlas itself are passed over.
pub fn should_repack(entries: &Vec<Scanned>, atlas_path: &str, atlas_mtime: Result<
    Option<u64>,
    String,
>) -> (r: Result<bool, CustomError>)
    ensures
        repack_verdict(entries@, atlas_path@, atlas_mtime) matches Ok(stale) ==> r == Ok::<
            bool,
            CustomError,
        >(stale),
        repack_verdict(entries@, atlas_path@, atlas_mtime) matches Err(reason) ==> (r matches Err(
            e,
        ) && e is IoError && e.detail() == reason),
        atlas_mtime == Ok::<Option<u64>, String>(None) ==> r == Ok::<bool, CustomError>(true),
        all_read(entries@) ==> (atlas_mtime matches Ok(m) ==> r == Ok::<bool, CustomError>(
            tree_stale(read_mtimes(entries@), atlas_relevance(entries@, atlas_path@), m),
        )),
{
    let t = match atlas_mtime {
        Ok(None) => {
            return Ok(true);
        },
        Err(reason) => {
            return Err(CustomError::IoError(reason));
        },
        Ok(Some(t)) => t,
    };
    proof {
        if all_read(entries@) {
            lemma_walk_is_tree_stale(entries@, atlas_path@, t, 0);
            let rel = atlas_relevance(entries@, atlas_path@);
            let times = read_mtimes(entries@);
            let found = exists|i: int| 0 <= i < entries@.len() && rel[i] && #[trigger] times[i] > t;
            if found {
                let i = choose|i: int| 0 <= i < entries@.len() && rel[i] && #[trigger] times[i] > t;
                assert(0 <= i < times.len() && rel[i] && times[i] > t);
            }
            if tree_stale(times, rel, Some(t)) {
                let i = choose|i: int| 0 <= i < times.len() && rel[i] && #[trigger] times[i] > t;
                assert(0 <= i < entries@.len() && rel[i] && times[i] > t);
            }
            assert(found == tree_stale(times, rel, Some(t)));
        }
    }
    let mut i: usize = 0;
    while i < entries.len()
        invariant
            i <= entries@.len(),
            atlas_mtime == Ok::<Option<u64>, String>(Some(t)),
            all_read(entries@) ==> walk_verdict(entries@, atlas_path@, t, 0) == Ok::<
                bool,
                Seq<char>,
            >(tree_stale(read_mtimes(entries@), atlas_relevance(entries@, atlas_path@), Some(t))),
            walk_verdict(entries@, atlas_path@, t, 0) == walk_verdict(
                entries@,
                atlas_path@,
                t,
                i as int,
            ),
        decreases entries.len() - i,
    {
        match &entries[i] {
            Scanned::Unreadable(reason) => {
                return Err(CustomError::IoError(reason.clone()));
            },
            Scanned::Found { path, is_dir, mtime } => {
                if is_atlas_source(path.as_str(), *is_dir, atlas_path) {
                    match mtime {
                        Err(reason) => {
                            return Err(CustomError::IoError(reason.clone()));
                        },
                        Ok(m) => {
                            if *m > t {
                                return Ok(true);
                            }
                        },
                    }
                }
            },
        }
        i = i + 1;
    }
    Ok(false)
}

/// Two lists of prepared images agree in every key, size and byte.
pub open spec fn same_prepared(a: Seq<PreparedSprite>, b: Seq<PreparedSprite>) -> bool {
    &&& a.len() == b.len()
    &&& forall|i: int|
        0 <= i < a.len() ==> {
            &&& (#[trigger] a[i]).key@ == b[i].key@
            &&& a[i].source_size == b[i].source_size
            &&& a[i].image.width == b[i].image.width
            &&& a[i].image.height == b[i].image.height
            &&& a[i].image.data@ == b[i].image.data@
        }
}

/// Two errors are of one kind and carry one detail.
pub open spec fn same_error(e: CustomError, f: CustomError) -> bool {
    &&& e.detail() == f.detail()
    &&& e is GitError == f is GitError
    &&& e is IoError == f is IoError
    &&& e is TomlError == f is TomlError
    &&& e is ValidationError == f is ValidationError
    &&& e is BuildError == f is BuildError
    &&& e is ProcessError == f is ProcessError
}

/// Two packing results are the same: the same atlas image and sprite table, or the
/// same error.
pub open spec fn same_result(
    r1: Result<AtlasOutput, CustomError>,
    r2: Result<AtlasOutput, CustomError>,
) -> bool {
    match (r1, r2) {
        (Ok(a), Ok(b)) => {
            &&& a.width == b.width
            &&& a.height == b.height
            &&& a.pixels@ == b.pixels@
            &&& table_view(a.sprites@) == table_view(b.sprites@)
        },
        (Err(e), Err(f)) => same_error(e, f),
        _ => false,
    }
}

/// The plan of a packing depends only on the keys, sizes and bytes of the images.
proof fn lemma_same_plan(a: Seq<PreparedSprite>, b: Seq<PreparedSprite>)
    requires
        same_prepared(a, b),
    ensures
        keys_of(a) == keys_of(b),
        sources_of(a) == sources_of(b),
        image_sizes(a) == image_sizes(b),
        forall|k: int| 0 <= k < a.len() ==> planned_position(a, k) == planned_position(b, k),
        forall|n: int|
            0 <= n <= a.len() ==> #[trigger] planned_entries(a, n) == planned_entries(b, n),
        forall|n: int| 0 <= n <= a.len() ==> #[trigger] all_placed(a, n) == all_placed(b, n),
        planned_slots(a) == planned_slots(b),
{
    assert(keys_of(a) =~= keys_of(b));
    assert(sources_of(a) =~= sources_of(b));
    assert(image_sizes(a) =~= image_sizes(b));
    assert forall|n: int| 0 <= n <= a.len() implies #[trigger] planned_entries(a, n)
        == planned_entries(b, n) by {
        assert(planned_entries(a, n) =~= planned_entries(b, n));
    }
    assert forall|n: int| 0 <= n <= a.len() implies #[trigger] all_placed(a, n) == all_placed(
        b,
        n,
    ) by {
        if all_placed(a, n) {
            assert forall|k: int| 0 <= k < n implies (#[trigger] planned_position(b, k)) is Some by {
                assert(planned_position(a, k) is Some);
            }
        }
        if all_placed(b, n) {
            assert forall|k: int| 0 <= k < n implies (#[trigger] planned_position(a, k)) is Some by {
                assert(planned_position(b, k) is Some);
            }
        }
    }
    assert(planned_slots(a) =~= planned_slots(b));
}

/// The size of a flattened bin is determined by its entries.
proof fn lemma_extent_unique(
    entries: Seq<(Seq<char>, (u32, u32, u32, u32), Seq<u8>)>,
    border: u32,
    w1: int,
    h1: int,
    w2: int,
    h2: int,
)
    requires
        is_extent(entries, border, w1, h1),
        is_extent(entries, border, w2, h2),
    ensures
        w1 == w2,
        h1 == h2,
{
    let i1 = choose|i: int|
        is_live(entries, i) && {
            let f = (#[trigger] entries[i]).1;
            f.0 + f.2 + border == w1
        };
    let i2 = choose|i: int|
        is_live(entries, i) && {
            let f = (#[trigger] entries[i]).1;
            f.0 + f.2 + border == w2
        };
    let j1 = choose|i: int|
        is_live(entries, i) && {
            let f = (#[trigger] entries[i]).1;
            f.1 + f.3 + border == h1
        };
    let j2 = choose|i: int|
        is_live(entries, i) && {
            let f = (#[trigger] entries[i]).1;
            f.1 + f.3 + border == h2
        };
    assert(entries[i1].1.0 + entries[i1].1.2 + border <= w2);
    assert(entries[i2].1.0 + entries[i2].1.2 + border <= w1);
    assert(entries[j1].1.1 + entries[j1].1.3 + border <= h2);
    assert(entries[j2].1.1 + entries[j2].1.3 + border <= h1);
}

/// The bytes of a flattened bin are determined by its entries.
proof fn lemma_shown_unique(
    entries: Seq<(Seq<char>, (u32, u32, u32, u32), Seq<u8>)>,
    width: int,
    height: int,
    a: Seq<u8>,
    b: Seq<u8>,
)
    requires
        0 <= width,
        0 <= height,
        a.len() == width * height * 4,
        b.len() == width * height * 4,
        shows_entries(a, width, height, entries),
        shows_entries(b, width, height, entries),
    ensures
        a == b,
{
    assert forall|x: int, y: int, c: int|
        0 <= x < width && 0 <= y < height && 0 <= c < 4 implies #[trigger] texel(a, width, x, y, c)
        == texel(b, width, x, y, c) by {
        if exists|i: int| is_live(entries, i) && covers((#[trigger] entries[i]).1, x, y) {
            let i = choose|i: int| is_live(entries, i) && covers((#[trigger] entries[i]).1, x, y);
            let e = entries[i];
            assert(texel(a, width, x, y, c) == texel(e.2, e.1.2 as int, x - e.1.0, y - e.1.1, c));
            assert(texel(b, width, x, y, c) == texel(e.2, e.1.2 as int, x - e.1.0, y - e.1.1, c));
        } else {
            assert(texel(a, width, x, y, c) == 0);
            assert(texel(b, width, x, y, c) == 0);
        }
    }
    lemma_image_determined(a, b, width, height);
}

/// Packing is deterministic: whatever packing yields for one list of prepared
/// images, it yields for every list with the same keys, sizes and bytes.
pub proof fn lemma_pack_deterministic(
    a: Seq<PreparedSprite>,
    b: Seq<PreparedSprite>,
    r1: Result<AtlasOutput, CustomError>,
    r2: Result<AtlasOutput, CustomError>,
)
    requires
        same_prepared(a, b),
        pack_outcome(a, r1),
        pack_outcome(b, r2),
    ensures
        same_result(r1, r2),
{
    lemma_same_plan(a, b);
    let n = a.len() as int;
    assert(planned_entries(a, n) == planned_entries(b, n));
    assert(all_placed(a, n) == all_placed(b, n));
    match (r1, r2) {
        (Ok(x), Ok(y)) => {
            if n == 0 {
                assert(x.width as nat * x.height as nat * 4 == 0) by (nonlinear_arith)
                    requires
                        x.width == 0,
                ;
                assert(y.width as nat * y.height as nat * 4 == 0) by (nonlinear_arith)
                    requires
                        y.width == 0,
                ;
                assert(x.pixels@ =~= y.pixels@);
            } else {
                let entries = planned_entries(a, n);
                lemma_extent_unique(
                    entries,
                    BORDER_PADDING,
                    x.width as int,
                    x.height as int,
                    y.width as int,
                    y.height as int,
                );
                lemma_shown_unique(entries, x.width as int, x.height as int, x.pixels@, y.pixels@);
            }
        },
        (Err(e), Err(f)) => {
            if !all_placed(a, n) {
                let k1 = choose|k: int| #[trigger]
                    first_refused(a, k) && e.detail() == atlas_full_message(a[k].key@);
                let k2 = choose|k: int| #[trigger]
                    first_refused(b, k) && f.detail() == atlas_full_message(b[k].key@);
                assert(all_placed(a, k2) == all_placed(b, k2));
                if k1 < k2 {
                    assert(planned_position(a, k1) is Some);
                } else if k2 < k1 {
                    assert(planned_position(a, k2) is Some);
                }
                assert(k1 == k2);
            }
        },
        _ => {},
    }
}

} // verus!
