//! Flattening each image of a batch into one row.
use vstd::prelude::*;
use vstd::arithmetic::div_mod::lemma_fundamental_div_mod_converse;
use crate::tensor::{Data2D, dims, is_data2d, rect2, rect3, width_of, height_of, channels_of};

verus! {

/// Where the value of pixel `(w, h)`, channel `c` lands in the row of an image
/// of height `height` with `channels` channels.
pub open spec fn flat_index(w: int, h: int, c: int, height: int, channels: int) -> int {
    (w * height + h) * channels + c
}

/// The layout of a flattened image: the first pixel's first channel comes
/// first, the channels of a pixel are adjacent, the next pixel up a column
/// follows the last channel of the previous one, and the next column follows
/// the last pixel of the previous column.
pub proof fn lemma_flat_layout(w: int, h: int, c: int, height: int, channels: int)
    requires
        0 <= w,
        0 <= h < height,
        0 <= c < channels,
    ensures
        flat_index(0, 0, 0, height, channels) == 0,
        c + 1 < channels ==> flat_index(w, h, c + 1, height, channels) == flat_index(w, h, c, height, channels) + 1,
        h + 1 < height ==> flat_index(w, h + 1, 0, height, channels) == flat_index(w, h, channels - 1, height, channels) + 1,
        flat_index(w + 1, 0, 0, height, channels) == flat_index(w, height - 1, channels - 1, height, channels) + 1,
{
    assert((0 * height + 0) * channels + 0 == 0) by (nonlinear_arith);
    assert((w * height + h + 1) * channels == (w * height + h) * channels + channels) by (nonlinear_arith);
    assert(((w + 1) * height + 0) * channels + 0 == (w * height + (height - 1)) * channels + (channels - 1)
        + 1) by (nonlinear_arith);
}

/// Every value of the image `img` (`width x height x channels`) whose place in
/// the flattened row lies within `row` stands there.
pub open spec fn flat_agrees<T>(
    row: Seq<T>,
    img: Seq<Vec<Vec<T>>>,
    width: int,
    height: int,
    channels: int,
) -> bool {
    forall|w: int, h: int, c: int|
        0 <= w < width && 0 <= h < height && 0 <= c < channels && flat_index(
            w,
            h,
            c,
            height,
            channels,
        ) < row.len() ==> #[trigger] row[flat_index(w, h, c, height, channels)] == img[w][h][c]
}

/// Two pixels of an image land on the same place of the row only if they are
/// the same.
proof fn lemma_flat_index_injective(
    w1: int,
    h1: int,
    c1: int,
    w2: int,
    h2: int,
    c2: int,
    height: int,
    channels: int,
)
    requires
        0 <= w1,
        0 <= h1 < height,
        0 <= c1 < channels,
        0 <= w2,
        0 <= h2 < height,
        0 <= c2 < channels,
        flat_index(w1, h1, c1, height, channels) == flat_index(w2, h2, c2, height, channels),
    ensures
        w1 == w2 && h1 == h2 && c1 == c2,
{
    let x = flat_index(w1, h1, c1, height, channels);
    lemma_fundamental_div_mod_converse(x, channels, w1 * height + h1, c1);
    lemma_fundamental_div_mod_converse(x, channels, w2 * height + h2, c2);
    lemma_fundamental_div_mod_converse(w1 * height + h1, height, w1, h1);
    lemma_fundamental_div_mod_converse(w2 * height + h2, height, w2, h2);
}

/// The places of the pixels of a `width x height x channels` image are
/// `0 .. width * height * channels`.
proof fn lemma_flat_index_bound(w: int, h: int, c: int, width: int, height: int, channels: int)
    requires
        0 <= w < width,
        0 <= h < height,
        0 <= c < channels,
    ensures
        0 <= flat_index(w, h, c, height, channels) < width * height * channels,
{
    assert(0 <= w * height + h < width * height) by (nonlinear_arith)
        requires
            0 <= w < width,
            0 <= h < height,
    ;
    assert(0 <= (w * height + h) * channels + c < (width * height) * channels) by (nonlinear_arith)
        requires
            0 <= w * height + h < width * height,
            0 <= c < channels,
    ;
}

/// Appending the value of pixel `(w, h)`, channel `c` at its place keeps the
/// row in agreement with the image.
proof fn lemma_flat_push<T>(
    row: Seq<T>,
    img: Seq<Vec<Vec<T>>>,
    width: int,
    height: int,
    channels: int,
    w: int,
    h: int,
    c: int,
)
    requires
        flat_agrees(row, img, width, height, channels),
        0 <= w < width,
        0 <= h < height,
        0 <= c < channels,
        row.len() == flat_index(w, h, c, height, channels),
    ensures
        flat_agrees(row.push(img[w][h][c]), img, width, height, channels),
{
    let r2 = row.push(img[w][h][c]);
    assert forall|w2: int, h2: int, c2: int|
        0 <= w2 < width && 0 <= h2 < height && 0 <= c2 < channels && flat_index(
            w2,
            h2,
            c2,
            height,
            channels,
        ) < r2.len() implies #[trigger] r2[flat_index(w2, h2, c2, height, channels)]
        == img[w2][h2][c2] by {
        if flat_index(w2, h2, c2, height, channels) == row.len() {
            lemma_flat_index_injective(w, h, c, w2, h2, c2, height, channels);
        }
    }
}

/// The flattening layer: each image becomes one row, pixel by pixel in
/// width-then-height order, the channels of a pixel together.
pub struct Flatten {}

impl Flatten {
    pub fn new() -> (r: Self)
        ensures
            r == (Flatten {  }),
    {
        Self {  }
    }

    /// Row `b` of the result holds the value of pixel `(w, h)`, channel `c` of
    /// image `b` at place `(w * height + h) * channels + c`, and nothing else.
    pub fn compute<T: Copy>(input: &Data2D<T>) -> (r: Vec<Vec<T>>)
        requires
            is_data2d(input@),
        ensures
            rect2(
                r@,
                input@.len() as int,
                width_of(input@) * height_of(input@) * channels_of(input@),
            ),
            forall|b: int, w: int, h: int, c: int|
                0 <= b < input@.len() && 0 <= w < width_of(input@) && 0 <= h < height_of(input@)
                    && 0 <= c < channels_of(input@) ==> #[trigger] r@[b]@[flat_index(
                    w,
                    h,
                    c,
                    height_of(input@),
                    channels_of(input@),
                )] == input@[b]@[w]@[h]@[c],
    {
        let (batches, width, height, channels) = dims(input);
        let ghost wi = width as int;
        let ghost hi = height as int;
        let ghost ci = channels as int;
        let mut r: Vec<Vec<T>> = Vec::new();
        let mut b: usize = 0;
        while b < batches
            invariant
                is_data2d(input@),
                batches == input@.len(),
                wi == width_of(input@),
                hi == height_of(input@),
                ci == channels_of(input@),
                wi == width,
                hi == height,
                ci == channels,
                b <= batches,
                rect2(r@, b as int, wi * hi * ci),
                forall|bb: int|
                    0 <= bb < b ==> flat_agrees(#[trigger] r@[bb]@, input@[bb]@, wi, hi, ci),
            decreases batches - b,
        {
            let img = &input[b];
            assert(rect3(img@, wi, hi, ci));
            let mut row: Vec<T> = Vec::new();
            assert(0 * hi * ci == 0) by (nonlinear_arith);
            let mut w: usize = 0;
            while w < width
                invariant
                    rect3(img@, wi, hi, ci),
                    wi == width,
                    hi == height,
                    ci == channels,
                    w <= width,
                    row@.len() == w * hi * ci,
                    flat_agrees(row@, img@, wi, hi, ci),
                decreases width - w,
            {
                assert(rect2(img@[w as int]@, hi, ci));
                let mut h: usize = 0;
                while h < height
                    invariant
                        rect3(img@, wi, hi, ci),
                        rect2(img@[w as int]@, hi, ci),
                        wi == width,
                        hi == height,
                        ci == channels,
                        w < width,
                        h <= height,
                        row@.len() == (w * hi + h) * ci,
                        flat_agrees(row@, img@, wi, hi, ci),
                    decreases height - h,
                {
                    assert(img@[w as int]@[h as int].len() == ci);
                    let mut c: usize = 0;
                    while c < channels
                        invariant
                            rect3(img@, wi, hi, ci),
                            rect2(img@[w as int]@, hi, ci),
                            img@[w as int]@[h as int]@.len() == ci,
                            wi == width,
                            hi == height,
                            ci == channels,
                            w < width,
                            h < height,
                            c <= channels,
                            row@.len() == (w * hi + h) * ci + c,
                            flat_agrees(row@, img@, wi, hi, ci),
                        decreases channels - c,
                    {
                        proof {
                            lemma_flat_push(row@, img@, wi, hi, ci, w as int, h as int, c as int);
                        }
                        row.push(img[w][h][c]);
                        c = c + 1;
                    }
                    assert((w * hi + h) * ci + ci == (w * hi + (h + 1)) * ci) by (nonlinear_arith);
                    h = h + 1;
                }
                assert((w * hi + hi) * ci == (w + 1) * hi * ci) by (nonlinear_arith);
                w = w + 1;
            }
            r.push(row);
            b = b + 1;
        }
        proof {
            assert forall|b: int, w: int, h: int, c: int|
                0 <= b < input@.len() && 0 <= w < wi && 0 <= h < hi && 0 <= c < ci
                implies #[trigger] r@[b]@[flat_index(w, h, c, hi, ci)] == input@[b]@[w]@[h]@[c] by {
                lemma_flat_index_bound(w, h, c, wi, hi, ci);
                assert(r@[b].len() == wi * hi * ci);
                assert(flat_agrees(r@[b]@, input@[b]@, wi, hi, ci));
            }
        }
        r
    }
}

} // verus!
