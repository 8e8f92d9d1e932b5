//! Composite cover art for playlists: up to five cover images arranged on a
//! 600×600 canvas and encoded as JPEG.
//!
//! | covers | layout |
//! |--------|--------|
//! | 1 | the image scaled to 600×600 |
//! | 2 | left and right halves (300×600 each) |
//! | 3 | left half, and two 300×300 squares stacked on the right |
//! | 4 | 2×2 grid of 300×300 squares |
//! | 5 or more | 2×2 grid of covers 2–5, cover 1 scaled to 220×220 in the middle on a white 240×240 square |

use vstd::prelude::*;
use crate::raster::{black, filled, paint, painted, white};

verus! {

/// Side of the finished square canvas.
pub const CANVAS: u32 = 600;
/// Side of a grid square.
pub const TILE: u32 = 300;
/// Width of the white border round the centred cover.
pub const BORDER: u32 = 10;
/// Side of the centred cover.
pub const OVERLAY_SIZE: u32 = 220;

/// One step of painting the canvas.
#[derive(PartialEq, Eq, Structural, Clone, Copy, Debug)]
pub enum PaintStep {
    /// Cover `tile`, scaled to `w`×`h`, with its top-left corner at (`x`, `y`).
    Tile { tile: usize, x: u32, y: u32, w: u32, h: u32 },
    /// A white `size`×`size` square with its top-left corner at (`x`, `y`).
    White { x: u32, y: u32, size: u32 },
}

/// Covers `first`..`first + 3` in a 2×2 grid, row by row.
pub open spec fn grid_steps(first: usize) -> Seq<PaintStep> {
    seq![
        PaintStep::Tile { tile: first, x: 0, y: 0, w: 300, h: 300 },
        PaintStep::Tile { tile: (first + 1) as usize, x: 300, y: 0, w: 300, h: 300 },
        PaintStep::Tile { tile: (first + 2) as usize, x: 0, y: 300, w: 300, h: 300 },
        PaintStep::Tile { tile: (first + 3) as usize, x: 300, y: 300, w: 300, h: 300 },
    ]
}

/// How `n` decoded covers are painted (see the module table).
pub open spec fn cover_steps(n: nat) -> Seq<PaintStep> {
    if n == 1 {
        seq![PaintStep::Tile { tile: 0, x: 0, y: 0, w: 600, h: 600 }]
    } else if n == 2 {
        seq![
            PaintStep::Tile { tile: 0, x: 0, y: 0, w: 300, h: 600 },
            PaintStep::Tile { tile: 1, x: 300, y: 0, w: 300, h: 600 },
        ]
    } else if n == 3 {
        seq![
            PaintStep::Tile { tile: 0, x: 0, y: 0, w: 300, h: 600 },
            PaintStep::Tile { tile: 1, x: 300, y: 0, w: 300, h: 300 },
            PaintStep::Tile { tile: 2, x: 300, y: 300, w: 300, h: 300 },
        ]
    } else if n == 4 {
        grid_steps(0)
    } else {
        grid_steps(1) + seq![
            PaintStep::White { x: 180, y: 180, size: 240 },
            PaintStep::Tile { tile: 0, x: 190, y: 190, w: 220, h: 220 },
        ]
    }
}

/// Step `i` of `steps` paints cover `t`.
pub open spec fn paints_tile(steps: Seq<PaintStep>, i: int, t: usize) -> bool {
    &&& 0 <= i < steps.len()
    &&& steps[i] matches PaintStep::Tile { tile, .. }
    &&& tile == t
}

/// Some step of `steps` paints cover `t`.
pub open spec fn is_painted(steps: Seq<PaintStep>, t: usize) -> bool {
    exists|i: int| #[trigger] paints_tile(steps, i, t)
}

/// Every decoded cover that the layout has room for is painted, and none
/// twice: with `n` covers, each of the first `n` (the first five when there
/// are more) has a step of its own.
pub proof fn law_cover_plan_paints_each_cover_once(n: nat)
    requires
        n >= 1,
    ensures
        forall|t: usize| t < n && t < 5 ==> #[trigger] is_painted(cover_steps(n), t),
        forall|i: int, j: int, t: usize|
            paints_tile(cover_steps(n), i, t) && paints_tile(cover_steps(n), j, t) ==> i == j,
{
    let s = cover_steps(n);
    assert forall|t: usize| t < n && t < 5 implies #[trigger] is_painted(s, t) by {
        if n <= 4 {
            assert(paints_tile(s, t as int, t));
        } else if t == 0 {
            assert(paints_tile(s, 5, t));
        } else {
            assert(paints_tile(s, t - 1, t));
        }
    }
}

/// Pixel (`px`, `py`) lies in the area that step `i` of `steps` paints.
pub open spec fn step_covers(steps: Seq<PaintStep>, i: int, px: int, py: int) -> bool {
    &&& 0 <= i < steps.len()
    &&& match steps[i] {
        PaintStep::Tile { x, y, w, h, .. } => x <= px < x + w && y <= py < y + h,
        PaintStep::White { x, y, size } => x <= px < x + size && y <= py < y + size,
    }
}

/// Some step of `steps` paints pixel (`px`, `py`).
pub open spec fn pixel_painted(steps: Seq<PaintStep>, px: int, py: int) -> bool {
    exists|i: int| #[trigger] step_covers(steps, i, px, py)
}

/// After the four grid tiles: a white square centred on the canvas, then
/// the first cover, square, centred too and inside the white square.
pub open spec fn overlay_centred(steps: Seq<PaintStep>) -> bool {
    &&& steps.len() == 6
    &&& steps[4] matches PaintStep::White { x, y, size }
    &&& steps[5] matches PaintStep::Tile { tile, x: tx, y: ty, w, h }
    &&& tile == 0 && w == h
    &&& x + size / 2 == 300 && y + size / 2 == 300
    &&& tx + w / 2 == 300 && ty + h / 2 == 300
    &&& x < tx && tx + w < x + size && y < ty && ty + h < y + size
}

/// With one to four covers the tiles fill the 600×600 canvas without
/// overlapping: every pixel is painted by exactly one step. With more, the
/// four grid tiles fill it the same way and the first cover sits centred
/// on it inside a white square centred there too.
pub proof fn law_cover_plan_fills_canvas(n: nat)
    requires
        n >= 1,
    ensures
        forall|px: int, py: int| 0 <= px < 600 && 0 <= py < 600 ==> #[trigger] pixel_painted(cover_steps(n), px, py),
        n <= 4 ==> forall|i: int, j: int, px: int, py: int|
            step_covers(cover_steps(n), i, px, py) && step_covers(cover_steps(n), j, px, py) ==> i == j,
        n >= 5 ==> forall|i: int, j: int, px: int, py: int|
            0 <= i < 4 && 0 <= j < 4 && step_covers(cover_steps(n), i, px, py) && step_covers(cover_steps(n), j, px, py)
                ==> i == j,
        n >= 5 ==> overlay_centred(cover_steps(n)),
{
    let s = cover_steps(n);
    assert forall|px: int, py: int| 0 <= px < 600 && 0 <= py < 600 implies #[trigger] pixel_painted(s, px, py) by {
        if n == 1 {
            assert(step_covers(s, 0, px, py));
        } else if n == 2 || n == 3 {
            if px < 300 {
                assert(step_covers(s, 0, px, py));
            } else if n == 2 || py < 300 {
                assert(step_covers(s, 1, px, py));
            } else {
                assert(step_covers(s, 2, px, py));
            }
        } else {
            if py < 300 && px < 300 {
                assert(step_covers(s, 0, px, py));
            } else if py < 300 {
                assert(step_covers(s, 1, px, py));
            } else if px < 300 {
                assert(step_covers(s, 2, px, py));
            } else {
                assert(step_covers(s, 3, px, py));
            }
        }
    }
}

/// Step `i` paints cover `t` with its top-left corner at (`x`, `y`).
pub open spec fn places(steps: Seq<PaintStep>, i: int, t: usize, x: u32, y: u32) -> bool {
    0 <= i < steps.len() && steps[i] == (PaintStep::Tile {
        tile: t,
        x,
        y,
        w: steps[i]->w,
        h: steps[i]->h,
    })
}

/// Covers are laid out in reading order: a cover with a lower index sits in
/// a higher row, or in the same row further left. With five or more covers
/// the first one is the centred overlay and stands outside that order.
pub proof fn law_cover_plan_reading_order(n: nat, i: int, a: usize, xa: u32, ya: u32, j: int, b: usize, xb: u32, yb: u32)
    requires
        n >= 1,
        places(cover_steps(n), i, a, xa, ya),
        places(cover_steps(n), j, b, xb, yb),
        a < b,
        !(n >= 5 && a == 0),
    ensures
        ya < yb || (ya == yb && xa < xb),
{
}

fn tile_step(tile: usize, x: u32, y: u32, w: u32, h: u32) -> (r: PaintStep)
    ensures
        r == (PaintStep::Tile { tile, x, y, w, h }),
{
    PaintStep::Tile { tile, x, y, w, h }
}

fn push_grid(v: &mut Vec<PaintStep>, first: usize)
    requires
        first <= 1,
    ensures
        final(v)@ == old(v)@ + grid_steps(first),
{
    v.push(tile_step(first, 0, 0, TILE, TILE));
    v.push(tile_step(first + 1, TILE, 0, TILE, TILE));
    v.push(tile_step(first + 2, 0, TILE, TILE, TILE));
    v.push(tile_step(first + 3, TILE, TILE, TILE, TILE));
    assert(final(v)@ =~= old(v)@ + grid_steps(first));
}

/// The painting steps for `n` decoded covers.
pub fn cover_plan(n: usize) -> (r: Vec<PaintStep>)
    requires
        n >= 1,
    ensures
        r@ == cover_steps(n as nat),
        forall|i: int| 0 <= i < r@.len() ==> (#[trigger] r@[i] matches PaintStep::Tile { tile, .. } ==> tile < n),
{
    let mut v: Vec<PaintStep> = Vec::new();
    if n == 1 {
        v.push(tile_step(0, 0, 0, CANVAS, CANVAS));
    } else if n == 2 {
        v.push(tile_step(0, 0, 0, TILE, CANVAS));
        v.push(tile_step(1, TILE, 0, TILE, CANVAS));
    } else if n == 3 {
        v.push(tile_step(0, 0, 0, TILE, CANVAS));
        v.push(tile_step(1, TILE, 0, TILE, TILE));
        v.push(tile_step(2, TILE, TILE, TILE, TILE));
    } else if n == 4 {
        push_grid(&mut v, 0);
    } else {
        push_grid(&mut v, 1);
        let total = OVERLAY_SIZE + 2 * BORDER;
        let offset = (CANVAS - total) / 2;
        v.push(PaintStep::White { x: offset, y: offset, size: total });
        v.push(tile_step(0, offset + BORDER, offset + BORDER, OVERLAY_SIZE, OVERLAY_SIZE));
    }
    assert(v@ =~= cover_steps(n as nat));
    v
}

/// Declares `image::ImageError`.
#[verifier::external_type_specification]
#[verifier::external_body]
pub struct ExImageError(image::ImageError);

/// Whether `image::load_from_memory` decodes `bytes`; it depends on the
/// bytes alone.
pub uninterp spec fn decodable(bytes: Seq<u8>) -> bool;

/// The RGB bytes, row by row, of the image `bytes` decodes to, scaled to
/// exactly `w`×`h` with the Lanczos3 filter (`image::load_from_memory`,
/// `DynamicImage::resize_exact`, `to_rgb8`); `None` when the bytes do not
/// decode. It depends on its arguments alone.
pub uninterp spec fn resized_rgb(bytes: Seq<u8>, w: u32, h: u32) -> Option<Seq<u8>>;

/// The JPEG that the image crate's encoder makes of the `w`×`h` RGB image
/// `rgb` (default settings). It depends on its arguments alone.
pub uninterp spec fn jpeg_of(w: u32, h: u32, rgb: Seq<u8>) -> Seq<u8>;

/// Whether `image::load_from_memory(bytes)` succeeds. Claimed: the answer is
/// `decodable(bytes)`.
#[verifier::external_body]
fn decodes(bytes: &Vec<u8>) -> (r: bool)
    ensures
        r == decodable(bytes@),
{
    image::load_from_memory(bytes.as_slice()).is_ok()
}

/// The image in `bytes`, scaled to `w`×`h` with `resize_exact(w, h,
/// Lanczos3)`, as RGB bytes. Claimed: the result is `resized_rgb(bytes, w,
/// h)`; it is present exactly when `decodable(bytes)`, and then holds
/// `w * h * 3` bytes (`resize_exact` gives exactly the size asked for).
#[verifier::external_body]
fn decode_resized(bytes: &Vec<u8>, w: u32, h: u32) -> (r: Option<Vec<u8>>)
    requires
        1 <= w,
        1 <= h,
    ensures
        r is Some <==> decodable(bytes@),
        match r {
            Some(v) => resized_rgb(bytes@, w, h) == Some(v@) && v@.len() == w * h * 3,
            None => resized_rgb(bytes@, w, h) is None,
        },
{
    match image::load_from_memory(bytes.as_slice()) {
        Ok(img) => Some(img.resize_exact(w, h, image::imageops::FilterType::Lanczos3).to_rgb8().into_raw()),
        Err(_) => None,
    }
}

/// The `w`×`h` RGB image `rgb` encoded with `DynamicImage::write_to` as JPEG
/// into a byte vector. Claimed: it succeeds, with `jpeg_of(w, h, rgb)`; the
/// JPEG encoder refuses only sides outside 1 to 65535, and writing into a
/// vector does not fail.
#[verifier::external_body]
fn encode_jpeg(w: u32, h: u32, rgb: &Vec<u8>) -> (r: Result<Vec<u8>, image::ImageError>)
    requires
        1 <= w <= 65535,
        1 <= h <= 65535,
        rgb@.len() == w * h * 3,
    ensures
        r is Ok,
        match r {
            Ok(b) => b@ == jpeg_of(w, h, rgb@),
            Err(_) => false,
        },
{
    let img = image::RgbImage::from_raw(w, h, rgb.clone()).expect("the buffer has w * h * 3 bytes");
    let mut buf = std::io::Cursor::new(Vec::new());
    match image::DynamicImage::ImageRgb8(img).write_to(&mut buf, image::ImageFormat::Jpeg) {
        Ok(()) => Ok(buf.into_inner()),
        Err(e) => Err(e),
    }
}

/// The byte views of a list of images.
pub open spec fn image_views(v: Seq<Vec<u8>>) -> Seq<Seq<u8>> {
    v.map_values(|b: Vec<u8>| b@)
}

/// The images of `s` that decode, in order.
pub open spec fn decodable_images(s: Seq<Seq<u8>>) -> Seq<Seq<u8>>
    decreases s.len(),
{
    if s.len() == 0 {
        Seq::empty()
    } else if decodable(s.last()) {
        decodable_images(s.drop_last()).push(s.last())
    } else {
        decodable_images(s.drop_last())
    }
}

proof fn lemma_none_decodable(s: Seq<Seq<u8>>)
    ensures
        decodable_images(s).len() == 0 <==> forall|i: int| 0 <= i < s.len() ==> !decodable(#[trigger] s[i]),
    decreases s.len(),
{
    if s.len() > 0 {
        lemma_none_decodable(s.drop_last());
        if decodable_images(s).len() == 0 {
            assert forall|i: int| 0 <= i < s.len() implies !decodable(#[trigger] s[i]) by {
                if i < s.len() - 1 {
                    assert(s[i] == s.drop_last()[i]);
                }
            }
        } else if forall|i: int| 0 <= i < s.len() ==> !decodable(#[trigger] s[i]) {
            assert(!decodable(s[s.len() - 1]));
            assert forall|i: int| 0 <= i < s.drop_last().len() implies !decodable(#[trigger] s.drop_last()[i]) by {
                assert(s.drop_last()[i] == s[i]);
            }
        }
    }
}

/// The canvas (`side` pixels wide) after the painting steps `steps`, in
/// order, each tile being the decoded cover `tiles[tile]` scaled to its
/// place.
pub open spec fn paint_steps(canvas: Seq<u8>, side: nat, steps: Seq<PaintStep>, tiles: Seq<Seq<u8>>) -> Seq<u8>
    decreases steps.len(),
{
    if steps.len() == 0 {
        canvas
    } else {
        let prev = paint_steps(canvas, side, steps.drop_last(), tiles);
        match steps.last() {
            PaintStep::Tile { tile, x, y, w, h } => match resized_rgb(tiles[tile as int], w, h) {
                Some(p) => painted(prev, side, p, w as nat, h as nat, x as nat, y as nat),
                None => prev,
            },
            PaintStep::White { x, y, size } => painted(prev, side, white(size as nat), size as nat, size as nat, x as nat, y as nat),
        }
    }
}

/// The painting steps fit on a 600×600 canvas and name covers that exist.
pub open spec fn steps_fit(steps: Seq<PaintStep>, n: nat) -> bool {
    forall|q: int| 0 <= q < steps.len() ==> match #[trigger] steps[q] {
        PaintStep::Tile { tile, x, y, w, h } => tile < n && 1 <= w <= 600 && 1 <= h <= 600 && x <= 600 && y <= 600,
        PaintStep::White { x, y, size } => 1 <= size <= 600 && x <= 600 && y <= 600,
    }
}

proof fn lemma_cover_steps_fit(n: nat)
    requires
        n >= 1,
    ensures
        steps_fit(cover_steps(n), n),
{
    let s = cover_steps(n);
    if n >= 5 {
        assert(s == grid_steps(1) + seq![
            PaintStep::White { x: 180, y: 180, size: 240 },
            PaintStep::Tile { tile: 0, x: 190, y: 190, w: 220, h: 220 },
        ]);
        assert forall|q: int| 0 <= q < s.len() implies match #[trigger] s[q] {
            PaintStep::Tile { tile, x, y, w, h } => tile < n && 1 <= w <= 600 && 1 <= h <= 600 && x <= 600 && y <= 600,
            PaintStep::White { x, y, size } => 1 <= size <= 600 && x <= 600 && y <= 600,
        } by {
            if q < 4 {
                assert(s[q] == grid_steps(1)[q]);
            }
        }
    } else if n == 4 {
        assert forall|q: int| 0 <= q < s.len() implies match #[trigger] s[q] {
            PaintStep::Tile { tile, x, y, w, h } => tile < n && 1 <= w <= 600 && 1 <= h <= 600 && x <= 600 && y <= 600,
            PaintStep::White { x, y, size } => 1 <= size <= 600 && x <= 600 && y <= 600,
        } by {
            assert(s[q] == grid_steps(0)[q]);
        }
    }
}

/// Collects the positions of the images that decode, in order.
fn decodable_positions(images: &Vec<Vec<u8>>, limit: usize) -> (r: Vec<usize>)
    requires
        limit <= images@.len(),
    ensures
        r@.len() == decodable_images(image_views(images@).take(limit as int)).len(),
        forall|t: int| 0 <= t < r@.len() ==> #[trigger] r@[t] < limit,
        forall|t: int| 0 <= t < r@.len() ==> images@[r@[t] as int]@ == #[trigger] decodable_images(image_views(images@).take(limit as int))[t],
{
    let ghost views = image_views(images@);
    let mut r: Vec<usize> = Vec::new();
    let mut i: usize = 0;
    while i < limit
        invariant
            i <= limit <= images@.len(),
            views == image_views(images@),
            r@.len() == decodable_images(views.take(i as int)).len(),
            forall|t: int| 0 <= t < r@.len() ==> #[trigger] r@[t] < i,
            forall|t: int| 0 <= t < r@.len() ==> images@[r@[t] as int]@ == #[trigger] decodable_images(views.take(i as int))[t],
        decreases limit - i,
    {
        let ghost before = decodable_images(views.take(i as int));
        assert(views.take(i + 1).drop_last() =~= views.take(i as int));
        assert(views.take(i + 1).last() == images@[i as int]@);
        if decodes(&images[i]) {
            r.push(i);
            proof {
                let after = decodable_images(views.take(i + 1));
                assert(after == before.push(images@[i as int]@));
                assert forall|t: int| 0 <= t < r@.len() implies #[trigger] r@[t] < i + 1
                    && images@[r@[t] as int]@ == after[t] by {
                    if t < r@.len() - 1 {
                        assert(after[t] == before[t]);
                    }
                }
            }
        } else {
            proof {
                assert(decodable_images(views.take(i + 1)) == before);
            }
        }
        i = i + 1;
    }
    r
}

/// Paints the steps onto a black `side`×`side` canvas from the covers at
/// `positions` and encodes the result as JPEG.
fn paint_and_encode(images: &Vec<Vec<u8>>, positions: &Vec<usize>, steps: &Vec<PaintStep>, side: u32, Ghost(tiles): Ghost<Seq<Seq<u8>>>)
    -> (r: Result<Vec<u8>, image::ImageError>)
    requires
        side == 300 || side == 600,
        steps_fit(steps@, positions@.len() as nat),
        tiles.len() == positions@.len(),
        forall|t: int| 0 <= t < positions@.len() ==> #[trigger] positions@[t] < images@.len(),
        forall|t: int| 0 <= t < positions@.len() ==> images@[positions@[t] as int]@ == #[trigger] tiles[t],
    ensures
        r matches Ok(b) && b@ == jpeg_of(side, side, paint_steps(black(side as nat, side as nat), side as nat, steps@, tiles)),
{
    let s: usize = side as usize;
    let len: usize = if side == 300 { 270000 } else { 1080000 };
    assert(len == s * s * 3) by (nonlinear_arith)
        requires
            s == side as usize,
            side == 300 || side == 600,
            len == (if side == 300 { 270000usize } else { 1080000usize }),
    ;
    let mut canvas = filled(len, 0);
    let mut k: usize = 0;
    while k < steps.len()
        invariant
            k <= steps@.len(),
            s == side,
            side == 300 || side == 600,
            canvas@.len() == s * s * 3,
            steps_fit(steps@, positions@.len() as nat),
            tiles.len() == positions@.len(),
            forall|t: int| 0 <= t < positions@.len() ==> #[trigger] positions@[t] < images@.len(),
            forall|t: int| 0 <= t < positions@.len() ==> images@[positions@[t] as int]@ == #[trigger] tiles[t],
            canvas@ == paint_steps(black(side as nat, side as nat), side as nat, steps@.take(k as int), tiles),
        decreases steps@.len() - k,
    {
        assert(steps@.take(k + 1).drop_last() =~= steps@.take(k as int));
        assert(steps@.take(k + 1).last() == steps@[k as int]);
        let step = steps[k];
        match step {
            PaintStep::Tile { tile, x, y, w, h } => {
                let pos = positions[tile];
                assert(images@[pos as int]@ == tiles[tile as int]);
                match decode_resized(&images[pos], w, h) {
                    Some(p) => {
                        paint(&mut canvas, s, &p, w as usize, h as usize, x as usize, y as usize);
                    },
                    None => {},
                }
            },
            PaintStep::White { x, y, size } => {
                let z = size as usize;
                assert(z * z * 3 <= 1080000) by (nonlinear_arith)
                    requires
                        z <= 600,
                ;
                let square = filled(z * z * 3, 255);
                paint(&mut canvas, s, &square, z, z, x as usize, y as usize);
            },
        }
        k = k + 1;
    }
    assert(steps@.take(steps@.len() as int) =~= steps@);
    encode_jpeg(side, side, &canvas)
}

/// Why no composite cover was made.
#[derive(Debug)]
pub enum CoverError {
    /// No cover images were given.
    NoImages,
    /// None of the given images could be decoded.
    NothingDecoded,
    /// JPEG encoding failed.
    Encoding,
}

/// The composite canvas: the decodable covers painted by
/// [`cover_steps`] onto a black 600×600 canvas.
pub open spec fn composite_pixels(images: Seq<Seq<u8>>) -> Seq<u8> {
    let tiles = decodable_images(images);
    paint_steps(black(600, 600), 600, cover_steps(tiles.len()), tiles)
}

proof fn lemma_decodable_len(s: Seq<Seq<u8>>)
    ensures
        decodable_images(s).len() <= s.len(),
    decreases s.len(),
{
    if s.len() > 0 {
        lemma_decodable_len(s.drop_last());
    }
}

proof fn lemma_views_decodable(images: Seq<Vec<u8>>, limit: int)
    requires
        0 <= limit <= images.len(),
    ensures
        (decodable_images(image_views(images).take(limit)).len() == 0)
            <==> (forall|i: int| 0 <= i < images.len() && i < limit ==> !decodable(#[trigger] images[i]@)),
{
    let v = image_views(images).take(limit);
    lemma_none_decodable(v);
    if decodable_images(v).len() == 0 {
        assert forall|i: int| 0 <= i < images.len() && i < limit implies !decodable(#[trigger] images[i]@) by {
            assert(v[i] == images[i]@);
        }
    } else {
        if forall|i: int| 0 <= i < images.len() && i < limit ==> !decodable(#[trigger] images[i]@) {
            assert forall|i: int| 0 <= i < v.len() implies !decodable(#[trigger] v[i]) by {
                assert(v[i] == images[i]@);
            }
        }
    }
}

/// Builds a square JPEG composite from the decodable images among
/// `cover_images` (see the module table for the layouts). Images that
/// cannot be decoded are skipped; it succeeds exactly when one decodes, and
/// the JPEG is that of [`composite_pixels`].
pub fn composite_cover(cover_images: &Vec<Vec<u8>>) -> (r: Result<Vec<u8>, CoverError>)
    ensures
        (r matches Err(CoverError::NoImages)) <==> cover_images@.len() == 0,
        (r matches Err(CoverError::NothingDecoded)) <==> (cover_images@.len() > 0
            && forall|i: int| 0 <= i < cover_images@.len() ==> !decodable(#[trigger] cover_images@[i]@)),
        r is Ok <==> exists|i: int| 0 <= i < cover_images@.len() && decodable(#[trigger] cover_images@[i]@),
        r matches Ok(b) ==> b@ == jpeg_of(CANVAS, CANVAS, composite_pixels(image_views(cover_images@))),
{
    let ghost views = image_views(cover_images@);
    if cover_images.len() == 0 {
        return Err(CoverError::NoImages);
    }
    let positions = decodable_positions(cover_images, cover_images.len());
    proof {
        assert(views.take(cover_images@.len() as int) =~= views);
        lemma_views_decodable(cover_images@, cover_images@.len() as int);
    }
    if positions.len() == 0 {
        return Err(CoverError::NothingDecoded);
    }
    let steps = cover_plan(positions.len());
    proof {
        lemma_cover_steps_fit(positions@.len() as nat);
    }
    match paint_and_encode(cover_images, &positions, &steps, CANVAS, Ghost(decodable_images(views))) {
        Ok(bytes) => Ok(bytes),
        Err(_) => Err(CoverError::Encoding),
    }
}

/// How `n` decoded covers (at most four) are placed in a collage: 300×300
/// squares, row by row, two per row.
pub open spec fn collage_steps(n: nat) -> Seq<PaintStep> {
    Seq::new(n, |i: int| PaintStep::Tile {
        tile: i as usize,
        x: ((i % 2) * 300) as u32,
        y: ((i / 2) * 300) as u32,
        w: 300,
        h: 300,
    })
}

/// A collage of `n` covers (one to four) paints cover `i` by step `i`, as a
/// 300×300 square inside the canvas, in reading order, with no two covers
/// overlapping.
pub proof fn law_collage_layout(n: nat, i: int, j: int)
    requires
        1 <= n <= 4,
        0 <= i < j < n,
    ensures
        collage_steps(n)[i] matches PaintStep::Tile { tile, x, y, w, h }
            && tile == i && w == 300 && h == 300 && x + w <= collage_side(n) && y + h <= collage_side(n),
        collage_steps(n)[j] matches PaintStep::Tile { tile, x, y, w, h }
            && tile == j && w == 300 && h == 300 && x + w <= collage_side(n) && y + h <= collage_side(n),
        collage_steps(n)[i]->Tile_y < collage_steps(n)[j]->Tile_y
            || (collage_steps(n)[i]->Tile_y == collage_steps(n)[j]->Tile_y && collage_steps(n)[i]->Tile_x < collage_steps(n)[j]->Tile_x),
        collage_steps(n)[i]->Tile_x + 300 <= collage_steps(n)[j]->Tile_x || collage_steps(n)[j]->Tile_x + 300 <= collage_steps(n)[i]->Tile_x
            || collage_steps(n)[i]->Tile_y + 300 <= collage_steps(n)[j]->Tile_y,
{
}

/// The painting steps of a collage of `n` covers.
pub fn collage_plan(n: usize) -> (r: Vec<PaintStep>)
    requires
        1 <= n <= 4,
    ensures
        r@ == collage_steps(n as nat),
{
    let mut v: Vec<PaintStep> = Vec::new();
    let mut i: usize = 0;
    while i < n
        invariant
            i <= n <= 4,
            v@ == collage_steps(i as nat),
        decreases n - i,
    {
        let x: u32 = if i % 2 == 0 { 0 } else { TILE };
        let y: u32 = if i / 2 == 0 { 0 } else { TILE };
        v.push(tile_step(i, x, y, TILE, TILE));
        i = i + 1;
        assert(v@ =~= collage_steps(i as nat));
    }
    v
}

/// The covers a collage is made of: those among the first four that
/// decode.
pub open spec fn collage_tiles(images: Seq<Seq<u8>>) -> Seq<Seq<u8>> {
    decodable_images(images.take(if images.len() < 4 { images.len() as int } else { 4 }))
}

/// The side of a collage of `n` covers: one square for a single cover, else
/// 2×2.
pub open spec fn collage_side(n: nat) -> u32 {
    if n == 1 {
        300
    } else {
        600
    }
}

/// The collage canvas: its covers painted by [`collage_steps`] onto a
/// black canvas of [`collage_side`].
pub open spec fn collage_pixels(images: Seq<Seq<u8>>) -> Seq<u8> {
    let tiles = collage_tiles(images);
    let side = collage_side(tiles.len());
    paint_steps(black(side as nat, side as nat), side as nat, collage_steps(tiles.len()), tiles)
}

proof fn lemma_collage_steps_fit(n: nat)
    requires
        n <= 4,
    ensures
        steps_fit(collage_steps(n), n),
{
    let s = collage_steps(n);
    assert forall|q: int| 0 <= q < s.len() implies match #[trigger] s[q] {
        PaintStep::Tile { tile, x, y, w, h } => tile < n && 1 <= w <= 600 && 1 <= h <= 600 && x <= 600 && y <= 600,
        PaintStep::White { x, y, size } => 1 <= size <= 600 && x <= 600 && y <= 600,
    } by {
        assert(q % 2 <= 1);
        assert(q / 2 <= 1);
    }
}

/// A collage of the first four cover images (those that decode), on a
/// 300×300 canvas for a single cover and a 600×600 one otherwise, encoded
/// as JPEG. It succeeds exactly when one of the first four decodes, and the
/// JPEG is that of [`collage_pixels`].
pub fn create_cover_collage(cover_images: &Vec<Vec<u8>>) -> (r: Result<Vec<u8>, CoverError>)
    ensures
        (r matches Err(CoverError::NoImages)) <==> cover_images@.len() == 0,
        (r matches Err(CoverError::NothingDecoded)) <==> (cover_images@.len() > 0
            && forall|i: int| 0 <= i < cover_images@.len() && i < 4 ==> !decodable(#[trigger] cover_images@[i]@)),
        r is Ok <==> exists|i: int| 0 <= i < cover_images@.len() && i < 4 && decodable(#[trigger] cover_images@[i]@),
        r matches Ok(b) ==> b@ == jpeg_of(
            collage_side(collage_tiles(image_views(cover_images@)).len()),
            collage_side(collage_tiles(image_views(cover_images@)).len()),
            collage_pixels(image_views(cover_images@)),
        ),
{
    let ghost views = image_views(cover_images@);
    if cover_images.len() == 0 {
        return Err(CoverError::NoImages);
    }
    let limit: usize = if cover_images.len() < 4 { cover_images.len() } else { 4 };
    let positions = decodable_positions(cover_images, limit);
    proof {
        lemma_views_decodable(cover_images@, limit as int);
        lemma_decodable_len(views.take(limit as int));
    }
    if positions.len() == 0 {
        return Err(CoverError::NothingDecoded);
    }
    let n = positions.len();
    let side: u32 = if n == 1 { TILE } else { CANVAS };
    let steps = collage_plan(n);
    proof {
        lemma_collage_steps_fit(n as nat);
    }
    match paint_and_encode(cover_images, &positions, &steps, side, Ghost(decodable_images(views.take(limit as int)))) {
        Ok(bytes) => Ok(bytes),
        Err(_) => Err(CoverError::Encoding),
    }
}

/// What becomes the playlist's `cover.jpg`.
#[derive(PartialEq, Eq, Structural, Clone, Copy, Debug)]
pub enum CoverArtSource {
    /// The cover bytes at hand.
    Provided,
    /// A collage of the collected album covers.
    Collage,
    /// Nothing is written.
    Nothing,
}

/// The cover art to save: the provided bytes when there are some, else a
/// collage when album covers were collected, else nothing.
pub fn cover_art_source(has_provided: bool, collected_covers: usize) -> (r: CoverArtSource)
    ensures
        r == (if has_provided {
            CoverArtSource::Provided
        } else if collected_covers > 0 {
            CoverArtSource::Collage
        } else {
            CoverArtSource::Nothing
        }),
{
    if has_provided {
        CoverArtSource::Provided
    } else if collected_covers > 0 {
        CoverArtSource::Collage
    } else {
        CoverArtSource::Nothing
    }
}

/// Most album covers collected for a collage.
pub const MAX_COLLAGE_COVERS: usize = 4;

/// Collects at most four album covers for a collage, one per album.
pub struct AlbumCoverPicker {
    seen: Vec<String>,
    collected: usize,
}

impl AlbumCoverPicker {
    /// The album ids seen so far.
    pub closed spec fn seen_ids(&self) -> Seq<Seq<char>> {
        crate::uri::string_views(self.seen@)
    }

    /// The number of covers collected so far.
    pub closed spec fn collected_count(&self) -> nat {
        self.collected as nat
    }

    /// A picker that has seen nothing.
    pub fn new() -> (r: Self)
        ensures
            r.seen_ids() == Seq::<Seq<char>>::empty(),
            r.collected_count() == 0,
    {
        let r = AlbumCoverPicker { seen: Vec::new(), collected: 0 };
        assert(r.seen_ids() =~= Seq::<Seq<char>>::empty());
        r
    }

    /// Whether to fetch the cover of album `album_id`: fewer than four
    /// covers collected and the album not seen before. A fetched album
    /// counts as seen.
    pub fn should_fetch(&mut self, album_id: &str) -> (r: bool)
        ensures
            r == (old(self).collected_count() < MAX_COLLAGE_COVERS && !old(self).seen_ids().contains(album_id@)),
            r ==> final(self).seen_ids() == old(self).seen_ids().push(album_id@),
            !r ==> final(self).seen_ids() == old(self).seen_ids(),
            final(self).collected_count() == old(self).collected_count(),
    {
        if self.collected >= MAX_COLLAGE_COVERS {
            return false;
        }
        let target = crate::text::chars_of(album_id);
        let mut i: usize = 0;
        while i < self.seen.len()
            invariant
                i <= self.seen@.len(),
                target@ == album_id@,
                forall|j: int| 0 <= j < i ==> self.seen@[j]@ != album_id@,
            decreases self.seen@.len() - i,
        {
            let s = crate::text::chars_of(self.seen[i].as_str());
            if crate::text::same_chars(&s, &target) {
                assert(self.seen_ids()[i as int] == album_id@);
                return false;
            }
            i = i + 1;
        }
        assert(!self.seen_ids().contains(album_id@)) by {
            if self.seen_ids().contains(album_id@) {
                let k = choose|k: int| 0 <= k < self.seen_ids().len() && self.seen_ids()[k] == album_id@;
                assert(self.seen@[k]@ == album_id@);
            }
        }
        let ghost before = self.seen_ids();
        self.seen.push(crate::text::owned(album_id));
        assert(self.seen_ids() =~= before.push(album_id@));
        true
    }

    /// Records that a cover was collected.
    pub fn add_cover(&mut self)
        requires
            old(self).collected_count() < MAX_COLLAGE_COVERS,
        ensures
            final(self).collected_count() == old(self).collected_count() + 1,
            final(self).seen_ids() == old(self).seen_ids(),
    {
        self.collected = self.collected + 1;
    }

    /// The number of covers collected.
    pub fn collected(&self) -> (n: usize)
        ensures
            n == self.collected_count(),
    {
        self.collected
    }
}

} // verus!
