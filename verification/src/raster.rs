//! RGB images as plain bytes: three bytes (red, green, blue) per pixel, row
//! by row. Filling a canvas and copying one image onto another, clipped to
//! the canvas.

use vstd::prelude::*;

verus! {

/// `len` bytes, all `value`.
pub open spec fn filled_seq(len: nat, value: u8) -> Seq<u8> {
    Seq::new(len, |i: int| value)
}

/// A black `w`×`h` image.
pub open spec fn black(w: nat, h: nat) -> Seq<u8> {
    filled_seq(w * h * 3, 0)
}

/// A white `size`×`size` image.
pub open spec fn white(size: nat) -> Seq<u8> {
    filled_seq(size * size * 3, 255)
}

/// The canvas (`cw` pixels wide) after the `tw`×`th` image `top` is copied
/// onto it with its top-left corner at (`x`, `y`); pixels of `top` that fall
/// outside the canvas are dropped. Byte `i` belongs to channel `i % 3` of
/// the pixel in row `(i / 3) / cw`, column `(i / 3) % cw`.
pub open spec fn painted(canvas: Seq<u8>, cw: nat, top: Seq<u8>, tw: nat, th: nat, x: nat, y: nat) -> Seq<u8> {
    Seq::new(canvas.len(), |i: int| {
        let row = (i / 3) / (cw as int);
        let col = (i / 3) % (cw as int);
        if y <= row < y + th && x <= col < x + tw {
            top[((row - y) * tw + (col - x)) * 3 + i % 3]
        } else {
            canvas[i]
        }
    })
}

/// `len` bytes, all `value`.
pub fn filled(len: usize, value: u8) -> (r: Vec<u8>)
    ensures
        r@ == filled_seq(len as nat, value),
{
    let mut v: Vec<u8> = Vec::with_capacity(len);
    let mut i: usize = 0;
    while i < len
        invariant
            i <= len,
            v@ == filled_seq(i as nat, value),
        decreases len - i,
    {
        v.push(value);
        i = i + 1;
        assert(v@ =~= filled_seq(i as nat, value));
    }
    v
}

proof fn lemma_top_index(a: int, b: int, c: int, tw: int, th: int)
    requires
        0 <= a < th,
        0 <= b < tw,
        0 <= c < 3,
    ensures
        0 <= (a * tw + b) * 3 + c < tw * th * 3,
        0 <= a * tw + b < tw * th,
        0 <= a * tw <= a * tw + b,
{
    assert(a * tw + b < (a + 1) * tw) by (nonlinear_arith)
        requires
            0 <= b < tw,
    ;
    assert((a + 1) * tw <= th * tw) by (nonlinear_arith)
        requires
            0 <= a < th,
            0 < tw,
    ;
    assert(0 <= a * tw) by (nonlinear_arith)
        requires
            0 <= a,
            0 < tw,
    ;
    assert(tw * th == th * tw) by (nonlinear_arith);
}

/// Copies the `tw`×`th` image `top` onto `canvas` (`cw` pixels wide) with
/// its top-left corner at (`x`, `y`), dropping what falls outside.
pub fn paint(canvas: &mut Vec<u8>, cw: usize, top: &Vec<u8>, tw: usize, th: usize, x: usize, y: usize)
    requires
        cw > 0,
        top@.len() == tw * th * 3,
        x + tw <= usize::MAX,
        y + th <= usize::MAX,
    ensures
        final(canvas)@ == painted(old(canvas)@, cw as nat, top@, tw as nat, th as nat, x as nat, y as nat),
{
    let ghost start = canvas@;
    let n = canvas.len();
    let tlen = top.len();
    let mut i: usize = 0;
    while i < n
        invariant
            i <= n,
            n == start.len(),
            canvas@.len() == n,
            cw > 0,
            top@.len() == tw * th * 3,
            tlen == top@.len(),
            x + tw <= usize::MAX,
            y + th <= usize::MAX,
            forall|j: int| 0 <= j < i ==> canvas@[j] == #[trigger] painted(start, cw as nat, top@, tw as nat, th as nat, x as nat, y as nat)[j],
            forall|j: int| i <= j < n ==> canvas@[j] == start[j],
        decreases n - i,
    {
        let ghost target = painted(start, cw as nat, top@, tw as nat, th as nat, x as nat, y as nat);
        let row = (i / 3) / cw;
        let col = (i / 3) % cw;
        if y <= row && row < y + th && x <= col && col < x + tw {
            proof {
                lemma_top_index((row - y) as int, (col - x) as int, (i % 3) as int, tw as int, th as int);
            }
            let k = ((row - y) * tw + (col - x)) * 3 + i % 3;
            let b = top[k];
            canvas.set(i, b);
        }
        assert(canvas@[i as int] == target[i as int]);
        i = i + 1;
    }
}

} // verus!
