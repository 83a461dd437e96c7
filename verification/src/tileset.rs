//! Tilesets: the tile size encoded in a file name and the slicing of a tileset image
//! into its tiles.
use vstd::prelude::*;
use vstd::string::*;
use crate::pixels::{crop, Image};
use crate::text::{
    decimal_seq, digit_char, push_decimal, push_str_chars, str_chars, string_from_chars,
};

verus! {

/// The tile size used when a file name states none.
pub const DEFAULT_TILE_SIZE: u32 = 16;

/// The size of one tile of a tileset.
#[derive(Debug, Clone, Copy, PartialEq, Eq, Structural)]
pub struct TileGridSpec {
    pub tile_width: u32,
    pub tile_height: u32,
}

/// `c` is one of the ten decimal digits.
pub open spec fn is_digit(c: char) -> bool {
    48 <= c as u32 <= 57
}

/// The value of a decimal digit.
pub open spec fn digit_value(c: char) -> nat {
    (c as u32 - 48) as nat
}

/// Where the run of digits that ends just before `end` begins.
pub open spec fn digits_start(s: Seq<char>, end: int) -> int
    decreases end,
{
    if end > 0 && end <= s.len() && is_digit(s[end - 1]) {
        digits_start(s, end - 1)
    } else {
        end
    }
}

/// The number that a sequence of digits denotes.
pub open spec fn number_value(s: Seq<char>) -> nat
    decreases s.len(),
{
    if s.len() == 0 {
        0
    } else {
        number_value(s.drop_last()) * 10 + digit_value(s.last())
    }
}

/// The two numbers of a stem that ends in `_<W>x<H>`, where `<W>` and `<H>` are
/// non-empty runs of digits; `None` for any other stem.
pub open spec fn parse_grid(stem: Seq<char>) -> Option<(nat, nat)> {
    let n = stem.len() as int;
    let hs = digits_start(stem, n);
    if hs == n || hs < 1 || stem[hs - 1] != 'x' {
        None
    } else {
        let ws = digits_start(stem, hs - 1);
        if ws == hs - 1 || ws < 1 || stem[ws - 1] != '_' {
            None
        } else {
            Some((number_value(stem.subrange(ws, hs - 1)), number_value(stem.subrange(hs, n))))
        }
    }
}

/// The tile size that a file stem states: the numbers of its `_<W>x<H>` ending when
/// both are between 1 and `u32::MAX`, the default size otherwise.
pub open spec fn grid_of(stem: Seq<char>) -> TileGridSpec {
    match parse_grid(stem) {
        Some((w, h)) => if 1 <= w <= u32::MAX && 1 <= h <= u32::MAX {
            TileGridSpec { tile_width: w as u32, tile_height: h as u32 }
        } else {
            TileGridSpec { tile_width: DEFAULT_TILE_SIZE, tile_height: DEFAULT_TILE_SIZE }
        },
        None => TileGridSpec { tile_width: DEFAULT_TILE_SIZE, tile_height: DEFAULT_TILE_SIZE },
    }
}

fn digit_at(s: &Vec<char>, i: usize) -> (d: Option<u32>)
    requires
        i < s@.len(),
    ensures
        d is Some == is_digit(s@[i as int]),
        d matches Some(v) ==> v == digit_value(s@[i as int]) && v <= 9,
{
    let code: u32 = s[i] as u32;
    if 48 <= code && code <= 57 {
        Some(code - 48)
    } else {
        None
    }
}

fn find_digits_start(s: &Vec<char>, end: usize) -> (start: usize)
    requires
        end <= s@.len(),
    ensures
        start == digits_start(s@, end as int),
        start <= end,
        forall|k: int| start <= k < end ==> is_digit(s@[k]),
{
    let mut i: usize = end;
    while i > 0 && digit_at(s, i - 1).is_some()
        invariant
            i <= end <= s@.len(),
            digits_start(s@, end as int) == digits_start(s@, i as int),
            forall|k: int| i <= k < end ==> is_digit(s@[k]),
        decreases i,
    {
        i = i - 1;
    }
    i
}

/// Appending a digit never makes the number smaller.
proof fn lemma_number_grows(s: Seq<char>)
    requires
        s.len() > 0,
    ensures
        number_value(s) >= number_value(s.drop_last()),
{
}

fn read_number(s: &Vec<char>, start: usize, end: usize) -> (r: Option<u32>)
    requires
        start <= end <= s@.len(),
        forall|k: int| start <= k < end ==> is_digit(s@[k]),
    ensures
        r is Some == (number_value(s@.subrange(start as int, end as int)) <= u32::MAX),
        r matches Some(v) ==> v == number_value(s@.subrange(start as int, end as int)),
{
    let mut acc: u64 = 0;
    let mut i: usize = start;
    assert(s@.subrange(start as int, start as int).len() == 0);
    while i < end
        invariant
            start <= i <= end <= s@.len(),
            forall|k: int| start <= k < end ==> is_digit(s@[k]),
            acc == number_value(s@.subrange(start as int, i as int)),
            acc <= u32::MAX,
        decreases end - i,
    {
        let d = digit_at(s, i);
        let ghost next = s@.subrange(start as int, i + 1);
        proof {
            assert(next.drop_last() == s@.subrange(start as int, i as int));
            assert(next.last() == s@[i as int]);
        }
        match d {
            None => {
                assert(false);
            },
            Some(v) => {
                acc = acc * 10 + v as u64;
                if acc > 0xFFFF_FFFF {
                    proof {
                        lemma_number_monotone(s@, start as int, i + 1, end as int);
                    }
                    return None;
                }
            },
        }
        i = i + 1;
    }
    Some(acc as u32)
}

/// A longer run of digits denotes a number at least as large.
proof fn lemma_number_monotone(s: Seq<char>, start: int, mid: int, end: int)
    requires
        0 <= start <= mid <= end <= s.len(),
    ensures
        number_value(s.subrange(start, mid)) <= number_value(s.subrange(start, end)),
    decreases end - mid,
{
    if mid < end {
        lemma_number_monotone(s, start, mid, end - 1);
        assert(s.subrange(start, end).drop_last() == s.subrange(start, end - 1));
        lemma_number_grows(s.subrange(start, end));
    }
}

/// Reads the tile size that a file stem states.
pub fn tile_grid(stem: &str) -> (grid: TileGridSpec)
    ensures
        grid == grid_of(stem@),
        grid.tile_width >= 1,
        grid.tile_height >= 1,
{
    let fallback = TileGridSpec { tile_width: DEFAULT_TILE_SIZE, tile_height: DEFAULT_TILE_SIZE };
    let s = str_chars(stem);
    let n: usize = s.len();
    let hs = find_digits_start(&s, n);
    if hs == n || hs < 1 || s[hs - 1] != 'x' {
        return fallback;
    }
    let ws = find_digits_start(&s, hs - 1);
    if ws == hs - 1 || ws < 1 || s[ws - 1] != '_' {
        return fallback;
    }
    let w = read_number(&s, ws, hs - 1);
    let h = read_number(&s, hs, n);
    match (w, h) {
        (Some(w), Some(h)) => if w >= 1 && h >= 1 {
            TileGridSpec { tile_width: w, tile_height: h }
        } else {
            fallback
        },
        _ => fallback,
    }
}

/// How many whole tiles fit into `extent` pixels.
pub open spec fn tile_count(extent: u32, tile: u32) -> int {
    extent as int / tile as int
}

/// `tile` is tile number `k` of `img`, counted row by row from the top-left: it has
/// the tile size and its pixels are those of the image at the tile's place.
pub open spec fn is_tile(img: Image, grid: TileGridSpec, k: int, tile: Image) -> bool {
    let cols = tile_count(img.width, grid.tile_width);
    &&& tile.wf()
    &&& tile.width == grid.tile_width
    &&& tile.height == grid.tile_height
    &&& forall|x: int, y: int, c: int|
        0 <= x < grid.tile_width && 0 <= y < grid.tile_height && 0 <= c < 4
            ==> #[trigger] tile.at(x, y, c) == img.at(
            (k % cols) * grid.tile_width + x,
            (k / cols) * grid.tile_height + y,
            c,
        )
}

/// Slices a tileset image into its tiles, row by row from the top-left. Pixels beyond
/// the last whole tile of a row or column belong to no tile.
pub fn slice_tiles(img: &Image, grid: TileGridSpec) -> (tiles: Vec<Image>)
    requires
        img.wf(),
        img.within_limits(),
        grid.tile_width >= 1,
        grid.tile_height >= 1,
    ensures
        tiles@.len() == tile_count(img.width, grid.tile_width) * tile_count(
            img.height,
            grid.tile_height,
        ),
        forall|k: int| 0 <= k < tiles@.len() ==> is_tile(*img, grid, k, #[trigger] tiles@[k]),
{
    let cols: u32 = img.width / grid.tile_width;
    let rows: u32 = img.height / grid.tile_height;
    let ghost tw = grid.tile_width as int;
    let ghost th = grid.tile_height as int;
    proof {
        vstd::arithmetic::div_mod::lemma_fundamental_div_mod(img.width as int, tw);
        vstd::arithmetic::div_mod::lemma_fundamental_div_mod(img.height as int, th);
        vstd::arithmetic::div_mod::lemma_mod_bound(img.width as int, tw);
        vstd::arithmetic::div_mod::lemma_mod_bound(img.height as int, th);
        assert(cols * tw <= img.width) by (nonlinear_arith)
            requires
                img.width == tw * cols + (img.width as int % tw),
                0 <= img.width as int % tw,
        ;
        assert(rows * th <= img.height) by (nonlinear_arith)
            requires
                img.height == th * rows + (img.height as int % th),
                0 <= img.height as int % th,
        ;
        assert(cols <= img.width) by (nonlinear_arith)
            requires
                cols * tw <= img.width,
                tw >= 1,
                cols >= 0,
        ;
        assert(rows <= img.height) by (nonlinear_arith)
            requires
                rows * th <= img.height,
                th >= 1,
                rows >= 0,
        ;
        assert(cols * rows <= 16384 * 16384) by (nonlinear_arith)
            requires
                0 <= cols <= 16384,
                0 <= rows <= 16384,
        ;
    }
    let n: usize = (cols as usize) * (rows as usize);
    let mut tiles: Vec<Image> = Vec::new();
    let mut k: usize = 0;
    while k < n
        invariant
            k <= n,
            n == cols * rows,
            cols == tile_count(img.width, grid.tile_width),
            rows == tile_count(img.height, grid.tile_height),
            cols * tw <= img.width,
            rows * th <= img.height,
            tw == grid.tile_width,
            th == grid.tile_height,
            tw >= 1,
            th >= 1,
            img.wf(),
            img.within_limits(),
            tiles@.len() == k,
            forall|t: int| 0 <= t < k ==> is_tile(*img, grid, t, #[trigger] tiles@[t]),
        decreases n - k,
    {
        proof {
            assert(cols > 0) by (nonlinear_arith)
                requires
                    k < cols * rows,
                    k >= 0,
                    rows >= 0,
            ;
            crate::pixels::lemma_flat_split(cols as int, rows as int, k as int);
        }
        let col: u32 = (k % (cols as usize)) as u32;
        let row: u32 = (k / (cols as usize)) as u32;
        proof {
            assert(col * tw + tw <= cols * tw) by (nonlinear_arith)
                requires
                    0 <= col < cols,
                    tw >= 1,
            ;
            assert(row * th + th <= rows * th) by (nonlinear_arith)
                requires
                    0 <= row < rows,
                    th >= 1,
            ;
            assert(0 <= col * tw && 0 <= row * th) by (nonlinear_arith)
                requires
                    0 <= col,
                    0 <= row,
                    tw >= 1,
                    th >= 1,
            ;
        }
        let x0: u32 = col * grid.tile_width;
        let y0: u32 = row * grid.tile_height;
        let tile = crop(img, x0, y0, grid.tile_width, grid.tile_height);
        proof {
            assert forall|x: int, y: int, c: int|
                0 <= x < grid.tile_width && 0 <= y < grid.tile_height && 0 <= c < 4 implies #[trigger] tile.at(
                x,
                y,
                c,
            ) == img.at(
                (k as int % cols as int) * grid.tile_width + x,
                (k as int / cols as int) * grid.tile_height + y,
                c,
            ) by {
                assert(tile.at(x, y, c) == img.at(x0 + x, y0 + y, c));
            }
            assert(is_tile(*img, grid, k as int, tile));
        }
        tiles.push(tile);
        k = k + 1;
    }
    tiles
}

/// An image of exactly `cols` by `rows` tiles is sliced into `cols * rows` tiles.
pub proof fn lemma_exact_grid(cols: nat, rows: nat, grid: TileGridSpec, width: u32, height: u32)
    requires
        grid.tile_width >= 1,
        grid.tile_height >= 1,
        width == cols * grid.tile_width,
        height == rows * grid.tile_height,
    ensures
        tile_count(width, grid.tile_width) == cols,
        tile_count(height, grid.tile_height) == rows,
        tile_count(width, grid.tile_width) * tile_count(height, grid.tile_height) == cols * rows,
{
    vstd::arithmetic::div_mod::lemma_fundamental_div_mod_converse(
        width as int,
        grid.tile_width as int,
        cols as int,
        0,
    );
    vstd::arithmetic::div_mod::lemma_fundamental_div_mod_converse(
        height as int,
        grid.tile_height as int,
        rows as int,
        0,
    );
}

/// The key of tile number `index` of the tileset with the given stem.
pub open spec fn tile_key_of(stem: Seq<char>, index: nat) -> Seq<char> {
    stem + seq!['_'] + decimal_seq(index)
}

/// Builds the key of a tile: the stem, an underscore, and the tile's number.
pub fn tile_key(stem: &str, index: u32) -> (key: String)
    ensures
        key@ == tile_key_of(stem@, index as nat),
{
    let mut out: Vec<char> = Vec::new();
    push_str_chars(&mut out, stem);
    out.push('_');
    push_decimal(&mut out, index);
    proof {
        assert(out@ =~= stem@ + seq!['_'] + decimal_seq(index as nat));
    }
    string_from_chars(&out)
}

/// The decimal representation of a number is a non-empty run of digits that denotes
/// that number.
pub proof fn lemma_decimal_is_number(n: nat)
    ensures
        decimal_seq(n).len() >= 1,
        forall|i: int| 0 <= i < decimal_seq(n).len() ==> is_digit(#[trigger] decimal_seq(n)[i]),
        number_value(decimal_seq(n)) == n,
    decreases n,
{
    let d = decimal_seq(n);
    if n < 10 {
        assert(d =~= seq![digit_char(n)]);
        assert(is_digit(digit_char(n)) && digit_value(digit_char(n)) == n);
        assert(d.drop_last() =~= Seq::<char>::empty());
        assert(number_value(d.drop_last()) == 0);
    } else {
        let rest = decimal_seq(n / 10);
        let c = digit_char(n % 10);
        lemma_decimal_is_number(n / 10);
        assert(d == rest.push(c));
        assert(is_digit(c) && digit_value(c) == n % 10);
        assert(d.drop_last() =~= rest);
        assert(d.last() == c);
        assert forall|i: int| 0 <= i < d.len() implies is_digit(#[trigger] d[i]) by {
            if i < rest.len() {
                assert(d[i] == rest[i]);
            }
        }
    }
}

/// A run of digits that ends just before `end` begins where the digits begin.
pub proof fn lemma_digits_start(s: Seq<char>, p: int, end: int)
    requires
        0 <= p <= end <= s.len(),
        forall|k: int| p <= k < end ==> is_digit(#[trigger] s[k]),
        p > 0 ==> !is_digit(s[p - 1]),
    ensures
        digits_start(s, end) == p,
    decreases end - p,
{
    if p < end {
        assert(is_digit(s[end - 1]));
        lemma_digits_start(s, p, end - 1);
    }
}

/// A stem that ends in an underscore, a width, an `x` and a height, both written in
/// decimal and between 1 and `u32::MAX`, states a grid of that width and height.
pub proof fn lemma_named_grid(head: Seq<char>, w: nat, h: nat)
    requires
        1 <= w <= u32::MAX,
        1 <= h <= u32::MAX,
    ensures
        grid_of(head + seq!['_'] + decimal_seq(w) + seq!['x'] + decimal_seq(h)) == (TileGridSpec {
            tile_width: w as u32,
            tile_height: h as u32,
        }),
{
    let dw = decimal_seq(w);
    let dh = decimal_seq(h);
    let stem = head + seq!['_'] + dw + seq!['x'] + dh;
    lemma_decimal_is_number(w);
    lemma_decimal_is_number(h);
    let n = stem.len() as int;
    let u = head.len() as int;
    let ws = u + 1;
    let x = ws + dw.len();
    let hs = x + 1;
    assert(n == hs + dh.len());
    assert(stem[u] == '_');
    assert(stem[x] == 'x');
    assert forall|k: int| ws <= k < x implies is_digit(#[trigger] stem[k]) by {
        assert(stem[k] == dw[k - ws]);
    }
    assert forall|k: int| hs <= k < n implies is_digit(#[trigger] stem[k]) by {
        assert(stem[k] == dh[k - hs]);
    }
    assert(!is_digit('_') && !is_digit('x'));
    lemma_digits_start(stem, hs, n);
    lemma_digits_start(stem, ws, x);
    assert(stem.subrange(ws, x) =~= dw);
    assert(stem.subrange(hs, n) =~= dh);
    assert(parse_grid(stem) == Some((w, h)));
}

} // verus!
