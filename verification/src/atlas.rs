//! The packed atlas and its sprite table: the rectangle type, the layout rules that
//! every atlas obeys, and the assembly of an atlas from the frames a bin assigned.
use vstd::prelude::*;
use vstd::string::*;
use crate::pixels::texel;
use crate::skyline::frames_overlap;

verus! {

/// A rectangle in atlas pixels, origin at the top-left corner.
#[derive(Debug, Clone, Copy, PartialEq, Eq, Structural)]
pub struct Rect {
    pub x: u32,
    pub y: u32,
    pub w: u32,
    pub h: u32,
}

impl Rect {
    /// The rectangle as the tuple `(x, y, w, h)`.
    pub open spec fn frame(self) -> (u32, u32, u32, u32) {
        (self.x, self.y, self.w, self.h)
    }

    /// The two rectangles share at least one pixel.
    pub open spec fn overlaps(self, other: Rect) -> bool {
        frames_overlap(self.frame(), other.frame())
    }

    /// The rectangle is not empty and lies within `[0, width) x [0, height)`.
    pub open spec fn inside(self, width: int, height: int) -> bool {
        &&& self.w >= 1
        &&& self.h >= 1
        &&& self.x + self.w <= width
        &&& self.y + self.h <= height
    }

    /// The rectangle one pixel smaller on every side.
    pub open spec fn inner(self) -> Rect
        recommends
            self.w >= 2,
            self.h >= 2,
    {
        Rect { x: (self.x + 1) as u32, y: (self.y + 1) as u32, w: (self.w - 2) as u32, h: (self.h - 2) as u32 }
    }

    /// The two rectangles are at least `gap` pixels apart, to the side or above and
    /// below each other.
    pub open spec fn apart(self, other: Rect, gap: int) -> bool {
        ||| self.x + self.w + gap <= other.x
        ||| other.x + other.w + gap <= self.x
        ||| self.y + self.h + gap <= other.y
        ||| other.y + other.h + gap <= self.y
    }

    /// Tests whether the two rectangles are at least `gap` pixels apart.
    pub fn is_apart(&self, other: &Rect, gap: u32) -> (r: bool)
        ensures
            r == self.apart(*other, gap as int),
    {
        self.x as u64 + self.w as u64 + gap as u64 <= other.x as u64 || other.x as u64
            + other.w as u64 + gap as u64 <= self.x as u64 || self.y as u64 + self.h as u64
            + gap as u64 <= other.y as u64 || other.y as u64 + other.h as u64 + gap as u64
            <= self.y as u64
    }

    /// Tests whether the two rectangles share a pixel.
    pub fn intersects(&self, other: &Rect) -> (r: bool)
        ensures
            r == self.overlaps(*other),
    {
        (self.x as u64) < other.x as u64 + other.w as u64 && (other.x as u64) < self.x as u64
            + self.w as u64 && (self.y as u64) < other.y as u64 + other.h as u64 && (
        other.y as u64) < self.y as u64 + self.h as u64
    }

    /// Tests whether the rectangle is not empty and lies within the given size.
    pub fn fits(&self, width: u32, height: u32) -> (r: bool)
        ensures
            r == self.inside(width as int, height as int),
    {
        self.w >= 1 && self.h >= 1 && self.x as u64 + self.w as u64 <= width as u64
            && self.y as u64 + self.h as u64 <= height as u64
    }
}

/// One entry of the sprite table.
#[derive(Debug)]
pub struct PackedSprite {
    /// The name under which the runtime finds the sprite.
    pub key: String,
    /// Where the stored image lies in the atlas, extruded border included.
    pub rect: Rect,
    /// The size of the image before extrusion.
    pub source_size: (u32, u32),
    /// Whether the stored image carries a one-pixel extruded border.
    pub extruded: bool,
}

/// A sprite table entry as a mathematical value.
pub struct SpriteEntry {
    pub key: Seq<char>,
    pub rect: Rect,
    pub source_size: (u32, u32),
    pub extruded: bool,
}

impl View for PackedSprite {
    type V = SpriteEntry;

    open spec fn view(&self) -> SpriteEntry {
        SpriteEntry {
            key: self.key@,
            rect: self.rect,
            source_size: self.source_size,
            extruded: self.extruded,
        }
    }
}

/// The entries of a sprite table as mathematical values.
pub open spec fn table_view(sprites: Seq<PackedSprite>) -> Seq<SpriteEntry> {
    Seq::new(sprites.len(), |i: int| sprites[i]@)
}

/// The rules that every sprite table obeys within an atlas of the given size: every
/// rectangle lies inside the atlas, no two rectangles share a pixel, no key occurs twice.
pub open spec fn table_valid(table: Seq<SpriteEntry>, width: int, height: int) -> bool {
    &&& forall|i: int| 0 <= i < table.len() ==> (#[trigger] table[i]).rect.inside(width, height)
    &&& forall|i: int, j: int|
        0 <= i < table.len() && 0 <= j < table.len() && i != j ==> !(#[trigger] table[i]).rect.overlaps(
            (#[trigger] table[j]).rect,
        )
    &&& forall|i: int, j: int|
        0 <= i < table.len() && 0 <= j < table.len() && i != j ==> (#[trigger] table[i]).key
            != (#[trigger] table[j]).key
}

/// A packed atlas: one RGBA image and the table of the sprites it holds.
#[derive(Debug)]
pub struct AtlasOutput {
    pub width: u32,
    pub height: u32,
    pub pixels: Vec<u8>,
    pub sprites: Vec<PackedSprite>,
}

impl AtlasOutput {
    /// The image has the stated size and the sprite table obeys the layout rules.
    pub open spec fn wf(&self) -> bool {
        &&& self.pixels@.len() == self.width as nat * self.height as nat * 4
        &&& table_valid(table_view(self.sprites@), self.width as int, self.height as int)
    }

    /// The byte of channel `c` of the atlas pixel at `(x, y)`.
    pub open spec fn at(&self, x: int, y: int, c: int) -> u8 {
        texel(self.pixels@, self.width as int, x, y, c)
    }

    /// The atlas without any sprite.
    pub fn empty() -> (atlas: AtlasOutput)
        ensures
            atlas.wf(),
            atlas.width == 0,
            atlas.height == 0,
            atlas.pixels@.len() == 0,
            atlas.sprites@.len() == 0,
    {
        AtlasOutput { width: 0, height: 0, pixels: Vec::new(), sprites: Vec::new() }
    }

    /// The position in the table of the sprite with the given key.
    pub fn find(&self, key: &str) -> (r: Option<usize>)
        ensures
            r matches Some(i) ==> i < self.sprites@.len() && self.sprites@[i as int].key@ == key@
                && forall|j: int| 0 <= j < i ==> self.sprites@[j].key@ != key@,
            r is None ==> forall|j: int|
                0 <= j < self.sprites@.len() ==> self.sprites@[j].key@ != key@,
    {
        let wanted = String::from_str(key);
        let mut i: usize = 0;
        while i < self.sprites.len()
            invariant
                i <= self.sprites@.len(),
                wanted@ == key@,
                forall|j: int| 0 <= j < i ==> self.sprites@[j].key@ != key@,
            decreases self.sprites.len() - i,
        {
            if self.sprites[i].key == wanted {
                return Some(i);
            }
            i = i + 1;
        }
        None
    }
}

/// The layout rules over the frames assigned to a list of images, where `slots[i]` is
/// the frame of image `i` or `None` when a later image took over its key: every frame
/// is non-empty and ends at least `border` pixels before the limits, no two frames
/// share a pixel, and no two framed images have the same key.
pub open spec fn layout_ok(
    keys: Seq<Seq<char>>,
    slots: Seq<Option<Rect>>,
    max_width: u32,
    max_height: u32,
    border: u32,
) -> bool {
    &&& keys.len() == slots.len()
    &&& forall|i: int|
        0 <= i < slots.len() ==> ((#[trigger] slots[i]) matches Some(r) ==> r.inside(
            max_width - border,
            max_height - border,
        ))
    &&& forall|i: int, j: int|
        0 <= i < j < slots.len() ==> ((#[trigger] slots[i]) matches Some(a) ==> ((
        #[trigger] slots[j]) matches Some(b) ==> !a.overlaps(b) && keys[i] != keys[j]))
}

/// Tests the layout rules.
pub fn check_layout(
    keys: &Vec<String>,
    slots: &Vec<Option<Rect>>,
    max_width: u32,
    max_height: u32,
    border: u32,
) -> (ok: bool)
    ensures
        ok == layout_ok(
            Seq::new(keys@.len(), |i: int| keys@[i]@),
            slots@,
            max_width,
            max_height,
            border,
        ),
{
    let ghost ks = Seq::new(keys@.len(), |i: int| keys@[i]@);
    if keys.len() != slots.len() {
        return false;
    }
    let n: usize = slots.len();
    let mut i: usize = 0;
    while i < n
        invariant
            i <= n,
            n == slots@.len(),
            n == keys@.len(),
            ks == Seq::new(keys@.len(), |i: int| keys@[i]@),
            forall|a: int|
                0 <= a < i ==> ((#[trigger] slots@[a]) matches Some(r) ==> r.inside(
                    max_width - border,
                    max_height - border,
                )),
            forall|a: int, b: int|
                0 <= a < i && a < b < n ==> ((#[trigger] slots@[a]) matches Some(ra) ==> ((
                #[trigger] slots@[b]) matches Some(rb) ==> !ra.overlaps(rb) && ks[a] != ks[b])),
        decreases n - i,
    {
        match slots[i] {
            None => {},
            Some(r) => {
                if border > max_width || border > max_height || !r.fits(
                    max_width - border,
                    max_height - border,
                ) {
                    assert(!slots@[i as int]->Some_0.inside(
                        max_width - border,
                        max_height - border,
                    ));
                    return false;
                }
                let mut j: usize = i + 1;
                while j < n
                    invariant
                        i < j <= n,
                        n == slots@.len(),
                        n == keys@.len(),
                        ks == Seq::new(keys@.len(), |i: int| keys@[i]@),
                        slots@[i as int] == Some(r),
                        forall|b: int|
                            i < b < j ==> ((#[trigger] slots@[b]) matches Some(rb) ==> !r.overlaps(
                                rb,
                            ) && ks[i as int] != ks[b]),
                    decreases n - j,
                {
                    match slots[j] {
                        None => {},
                        Some(rb) => {
                            if r.intersects(&rb) || keys[i] == keys[j] {
                                assert(ks[i as int] == keys@[i as int]@);
                                assert(ks[j as int] == keys@[j as int]@);
                                return false;
                            }
                            assert(ks[i as int] == keys@[i as int]@);
                            assert(ks[j as int] == keys@[j as int]@);
                        },
                    }
                    j = j + 1;
                }
            },
        }
        i = i + 1;
    }
    true
}

/// The sprite table for the first `n` images: one entry for each framed image, in
/// the order of the images.
pub open spec fn table_upto(
    keys: Seq<Seq<char>>,
    sources: Seq<(u32, u32)>,
    slots: Seq<Option<Rect>>,
    n: nat,
) -> Seq<SpriteEntry>
    decreases n,
{
    if n == 0 {
        Seq::empty()
    } else {
        let rest = table_upto(keys, sources, slots, (n - 1) as nat);
        match slots[n - 1] {
            Some(r) => rest.push(
                SpriteEntry { key: keys[n - 1], rect: r, source_size: sources[n - 1], extruded: true },
            ),
            None => rest,
        }
    }
}

/// Every entry of the table for the first `n` images comes from a framed image
/// among them.
pub open spec fn table_from_slots(
    table: Seq<SpriteEntry>,
    keys: Seq<Seq<char>>,
    slots: Seq<Option<Rect>>,
    n: nat,
) -> bool {
    forall|t: int|
        0 <= t < table.len() ==> exists|i: int|
            0 <= i < n && slots[i] == Some((#[trigger] table[t]).rect) && keys[i] == table[t].key
}

/// A table built from frames that obey the layout rules obeys the table rules, within
/// any size that leaves the border free.
pub proof fn lemma_table_valid(
    keys: Seq<Seq<char>>,
    sources: Seq<(u32, u32)>,
    slots: Seq<Option<Rect>>,
    n: nat,
    max_width: u32,
    max_height: u32,
    border: u32,
)
    requires
        layout_ok(keys, slots, max_width, max_height, border),
        sources.len() == slots.len(),
        n <= slots.len(),
    ensures
        table_valid(
            table_upto(keys, sources, slots, n),
            max_width - border,
            max_height - border,
        ),
        table_from_slots(table_upto(keys, sources, slots, n), keys, slots, n),
    decreases n,
{
    if n > 0 {
        let m = (n - 1) as nat;
        lemma_table_valid(keys, sources, slots, m, max_width, max_height, border);
        let rest = table_upto(keys, sources, slots, m);
        let table = table_upto(keys, sources, slots, n);
        match slots[n - 1] {
            None => {
                assert(table == rest);
                assert forall|t: int| 0 <= t < table.len() implies exists|i: int|
                    0 <= i < n && slots[i] == Some((#[trigger] table[t]).rect) && keys[i]
                        == table[t].key by {
                    let i = choose|i: int|
                        0 <= i < m && slots[i] == Some(rest[t].rect) && keys[i] == rest[t].key;
                    assert(0 <= i < n && slots[i] == Some(table[t].rect) && keys[i] == table[t].key);
                }
            },
            Some(r) => {
                let e = SpriteEntry {
                    key: keys[n - 1],
                    rect: r,
                    source_size: sources[n - 1],
                    extruded: true,
                };
                assert(table == rest.push(e));
                assert forall|t: int| 0 <= t < table.len() implies exists|i: int|
                    0 <= i < n && slots[i] == Some((#[trigger] table[t]).rect) && keys[i]
                        == table[t].key by {
                    if t < rest.len() {
                        let i = choose|i: int|
                            0 <= i < m && slots[i] == Some(rest[t].rect) && keys[i] == rest[t].key;
                        assert(0 <= i < n && slots[i] == Some(table[t].rect) && keys[i]
                            == table[t].key);
                    } else {
                        assert(0 <= n - 1 < n && slots[n - 1] == Some(table[t].rect) && keys[n - 1]
                            == table[t].key);
                    }
                }
                assert forall|t: int| 0 <= t < table.len() implies (#[trigger] table[t]).rect.inside(
                    max_width - border,
                    max_height - border,
                ) by {
                    if t == rest.len() {
                        assert(slots[n - 1] matches Some(r) ==> r.inside(
                            max_width - border,
                            max_height - border,
                        ));
                    } else {
                        assert(table[t] == rest[t]);
                    }
                }
                assert forall|s: int, t: int|
                    0 <= s < table.len() && 0 <= t < table.len() && s != t implies !(
                #[trigger] table[s]).rect.overlaps((#[trigger] table[t]).rect) && table[s].key
                    != table[t].key by {
                    if s < rest.len() && t < rest.len() {
                        assert(table[s] == rest[s]);
                        assert(table[t] == rest[t]);
                    } else {
                        let old_t = if s < rest.len() {
                            s
                        } else {
                            t
                        };
                        let i = choose|i: int|
                            0 <= i < m && slots[i] == Some(rest[old_t].rect) && keys[i]
                                == rest[old_t].key;
                        assert(table[old_t] == rest[old_t]);
                        assert(slots[i] is Some && slots[n - 1] is Some);
                        assert(!rest[old_t].rect.overlaps(r) && keys[i] != keys[n - 1]);
                    }
                }
            },
        }
    }
}

/// The spacing rules over the frames assigned to a list of images: every frame keeps
/// `border` pixels free to the left and above, and any two frames are at least
/// `padding` pixels apart.
pub open spec fn spacing_ok(slots: Seq<Option<Rect>>, border: u32, padding: u32) -> bool {
    &&& forall|i: int|
        0 <= i < slots.len() ==> ((#[trigger] slots[i]) matches Some(r) ==> r.x >= border && r.y
            >= border)
    &&& forall|i: int, j: int|
        0 <= i < j < slots.len() ==> ((#[trigger] slots[i]) matches Some(a) ==> ((
        #[trigger] slots[j]) matches Some(b) ==> a.apart(b, padding as int)))
}

/// Tests the spacing rules.
pub fn check_spacing(slots: &Vec<Option<Rect>>, border: u32, padding: u32) -> (ok: bool)
    ensures
        ok == spacing_ok(slots@, border, padding),
{
    let n: usize = slots.len();
    let mut i: usize = 0;
    while i < n
        invariant
            i <= n,
            n == slots@.len(),
            forall|a: int|
                0 <= a < i ==> ((#[trigger] slots@[a]) matches Some(r) ==> r.x >= border && r.y
                    >= border),
            forall|a: int, b: int|
                0 <= a < i && a < b < n ==> ((#[trigger] slots@[a]) matches Some(ra) ==> ((
                #[trigger] slots@[b]) matches Some(rb) ==> ra.apart(rb, padding as int))),
        decreases n - i,
    {
        match slots[i] {
            None => {},
            Some(r) => {
                if r.x < border || r.y < border {
                    return false;
                }
                let mut j: usize = i + 1;
                while j < n
                    invariant
                        i < j <= n,
                        n == slots@.len(),
                        slots@[i as int] == Some(r),
                        forall|b: int|
                            i < b < j ==> ((#[trigger] slots@[b]) matches Some(rb) ==> r.apart(
                                rb,
                                padding as int,
                            )),
                    decreases n - j,
                {
                    match slots[j] {
                        None => {},
                        Some(rb) => {
                            if !r.is_apart(&rb, padding) {
                                return false;
                            }
                        },
                    }
                    j = j + 1;
                }
            },
        }
        i = i + 1;
    }
    true
}

/// The spacing rules over a sprite table: every rectangle keeps `border` pixels free
/// to the left and above, and any two rectangles are at least `padding` pixels apart.
pub open spec fn table_spaced(table: Seq<SpriteEntry>, border: u32, padding: u32) -> bool {
    &&& forall|i: int|
        0 <= i < table.len() ==> (#[trigger] table[i]).rect.x >= border && table[i].rect.y
            >= border
    &&& forall|i: int, j: int|
        0 <= i < table.len() && 0 <= j < table.len() && i != j ==> (#[trigger] table[i]).rect.apart(
            (#[trigger] table[j]).rect,
            padding as int,
        )
}

/// A table built from frames that obey the layout and spacing rules obeys the
/// spacing rules.
pub proof fn lemma_table_spaced(
    keys: Seq<Seq<char>>,
    sources: Seq<(u32, u32)>,
    slots: Seq<Option<Rect>>,
    max_width: u32,
    max_height: u32,
    border: u32,
    padding: u32,
)
    requires
        layout_ok(keys, slots, max_width, max_height, border),
        spacing_ok(slots, border, padding),
        sources.len() == slots.len(),
    ensures
        table_spaced(table_upto(keys, sources, slots, slots.len()), border, padding),
{
    let n = slots.len();
    let table = table_upto(keys, sources, slots, n);
    lemma_table_valid(keys, sources, slots, n, max_width, max_height, border);
    assert forall|t: int| 0 <= t < table.len() implies (#[trigger] table[t]).rect.x >= border
        && table[t].rect.y >= border by {
        let i = choose|i: int|
            0 <= i < n && slots[i] == Some(table[t].rect) && keys[i] == table[t].key;
        assert(slots[i] matches Some(r) ==> r.x >= border && r.y >= border);
    }
    assert forall|s: int, t: int|
        0 <= s < table.len() && 0 <= t < table.len() && s != t implies (#[trigger] table[s]).rect.apart(
        (#[trigger] table[t]).rect,
        padding as int,
    ) by {
        let i = choose|i: int|
            0 <= i < n && slots[i] == Some(table[s].rect) && keys[i] == table[s].key;
        let j = choose|j: int|
            0 <= j < n && slots[j] == Some(table[t].rect) && keys[j] == table[t].key;
        assert(table[s].key != table[t].key);
        assert(i != j);
        if i < j {
            assert(slots[i] is Some && slots[j] is Some);
            assert(table[s].rect.apart(table[t].rect, padding as int));
        } else {
            assert(slots[j] is Some && slots[i] is Some);
            assert(table[t].rect.apart(table[s].rect, padding as int));
        }
    }
}

} // verus!
