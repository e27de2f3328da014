//! Two-dimensional max pooling.
use vstd::prelude::*;
use crate::arith::Scalar;
use crate::order::{greater, keep_greater, lemma_keep_greater_bound, ordered, strict_greater};
use crate::tensor::{Data2D, dims, is_data2d, rect2, rect3, rect4, width_of, height_of, channels_of};

verus! {

/// The running value after scanning `img[x][y0 + j][ch]` for `j < n`,
/// starting from `acc`, each candidate replacing the value it is greater than.
pub open spec fn pool_column<T: Scalar>(
    img: Seq<Vec<Vec<T>>>,
    x: int,
    y0: int,
    ch: int,
    n: int,
    acc: T,
) -> T
    decreases n,
{
    if n <= 0 {
        acc
    } else {
        keep_greater(pool_column(img, x, y0, ch, n - 1, acc), img[x][y0 + n - 1][ch])
    }
}

/// The pooled value of the window of `rows x cols` pixels of channel `ch`
/// whose corner is `(x0, y0)`: starting from `zero`, the window is scanned
/// row by row (`x0`, `x0 + 1`, ...), each row from `y0` upwards.
pub open spec fn pool_window<T: Scalar>(
    img: Seq<Vec<Vec<T>>>,
    x0: int,
    y0: int,
    ch: int,
    rows: int,
    cols: int,
    zero: T,
) -> T
    decreases rows,
{
    if rows <= 0 {
        zero
    } else {
        pool_column(img, x0 + rows - 1, y0, ch, cols, pool_window(img, x0, y0, ch, rows - 1, cols, zero))
    }
}

/// `v` is one of the pixels of channel `ch` in the `rows x cols` window whose
/// corner is `(x0, y0)`.
pub open spec fn in_window<T>(
    v: T,
    img: Seq<Vec<Vec<T>>>,
    x0: int,
    y0: int,
    ch: int,
    rows: int,
    cols: int,
) -> bool {
    exists|i: int, j: int|
        0 <= i < rows && 0 <= j < cols && v == #[trigger] img[x0 + i][y0 + j][ch]
}

/// Scanning a column keeps below the running value everything that was, and
/// puts every scanned pixel below it.
proof fn lemma_pool_column_bound<T: Scalar>(
    img: Seq<Vec<Vec<T>>>,
    x: int,
    y0: int,
    ch: int,
    n: int,
    acc: T,
    e: T,
)
    requires
        strict_greater::<T>(),
    ensures
        !greater(e, acc) ==> !greater(e, pool_column(img, x, y0, ch, n, acc)),
        !greater(acc, pool_column(img, x, y0, ch, n, acc)),
        forall|j: int| 0 <= j < n ==> !greater(#[trigger] img[x][y0 + j][ch], pool_column(img, x, y0, ch, n, acc)),
    decreases n,
{
    if n > 0 {
        let prev = pool_column(img, x, y0, ch, n - 1, acc);
        let p = img[x][y0 + n - 1][ch];
        lemma_pool_column_bound(img, x, y0, ch, n - 1, acc, e);
        lemma_keep_greater_bound(prev, p, e);
        lemma_keep_greater_bound(prev, p, acc);
        assert forall|j: int| 0 <= j < n implies !greater(#[trigger] img[x][y0 + j][ch], pool_column(img, x, y0, ch, n, acc)) by {
            if j < n - 1 {
                lemma_keep_greater_bound(prev, p, img[x][y0 + j][ch]);
            }
        }
    }
}

/// Where `>` of `T` is a strict partial order, the pooled value of a window
/// is not less than `zero` nor than any pixel of the window: max pooling
/// gives the maximum of `zero` and the window.
pub proof fn lemma_pool_window_max<T: Scalar>(
    img: Seq<Vec<Vec<T>>>,
    x0: int,
    y0: int,
    ch: int,
    rows: int,
    cols: int,
    zero: T,
)
    requires
        strict_greater::<T>(),
    ensures
        !greater(zero, pool_window(img, x0, y0, ch, rows, cols, zero)),
        forall|i: int, j: int|
            0 <= i < rows && 0 <= j < cols ==> !greater(
                #[trigger] img[x0 + i][y0 + j][ch],
                pool_window(img, x0, y0, ch, rows, cols, zero),
            ),
    decreases rows,
{
    if rows > 0 {
        let prev = pool_window(img, x0, y0, ch, rows - 1, cols, zero);
        lemma_pool_window_max(img, x0, y0, ch, rows - 1, cols, zero);
        lemma_pool_column_bound(img, x0 + rows - 1, y0, ch, cols, prev, zero);
        assert forall|i: int, j: int| 0 <= i < rows && 0 <= j < cols implies !greater(
            #[trigger] img[x0 + i][y0 + j][ch],
            pool_window(img, x0, y0, ch, rows, cols, zero),
        ) by {
            if i < rows - 1 {
                lemma_pool_column_bound(img, x0 + rows - 1, y0, ch, cols, prev, img[x0 + i][y0 + j][ch]);
            } else {
                assert(img[x0 + rows - 1][y0 + j][ch] == img[x0 + i][y0 + j][ch]);
            }
        }
    }
}

/// What max pooling gives for the window `(i, j)` of channel `c` of `img`,
/// with windows of `pw x ph` pixels: `v` is `zero` or one of the window's
/// pixels, and where `T` obeys its order specification, `v` is the window's
/// pooled value.
pub open spec fn pooled_cell<T: Scalar>(
    v: T,
    img: Seq<Vec<Vec<T>>>,
    i: int,
    j: int,
    c: int,
    pw: int,
    ph: int,
    zero: T,
) -> bool {
    &&& v == zero || in_window(v, img, i * pw, j * ph, c, pw, ph)
    &&& ordered::<T>() ==> v == pool_window(img, i * pw, j * ph, c, pw, ph, zero)
}

/// Where `T` obeys its order specification and `>` is a strict partial
/// order, the pooled value of window `(i, j)` is the maximum of `zero` and the
/// pixels `(i * pw + a, j * ph + b)`, `a < pw`, `b < ph`: it is not less than
/// any of them nor than `zero`, and it is `zero` or one of them.
pub proof fn lemma_pooled_cell_is_max<T: Scalar>(
    v: T,
    img: Seq<Vec<Vec<T>>>,
    i: int,
    j: int,
    c: int,
    pw: int,
    ph: int,
    zero: T,
)
    requires
        ordered::<T>(),
        strict_greater::<T>(),
        pooled_cell(v, img, i, j, c, pw, ph, zero),
    ensures
        !greater(zero, v),
        forall|a: int, b: int|
            0 <= a < pw && 0 <= b < ph ==> !greater(#[trigger] img[i * pw + a][j * ph + b][c], v),
        v == zero || exists|a: int, b: int|
            0 <= a < pw && 0 <= b < ph && v == #[trigger] img[i * pw + a][j * ph + b][c],
{
    lemma_pool_window_max(img, i * pw, j * ph, c, pw, ph, zero);
}

/// Every pixel of `out` is the pooled pixel of its window of `img`.
pub open spec fn pooled_image<T: Scalar>(
    out: Seq<Vec<Vec<T>>>,
    img: Seq<Vec<Vec<T>>>,
    pw: int,
    ph: int,
    zero: T,
) -> bool {
    forall|i: int, j: int, c: int|
        0 <= i < out.len() && 0 <= j < out[i].len() && 0 <= c < out[i][j].len() ==> pooled_cell(
            #[trigger] out[i][j][c],
            img,
            i,
            j,
            c,
            pw,
            ph,
            zero,
        )
}

/// The `i`-th of `n / p` windows of `p` consecutive indices ends within `n`.
proof fn lemma_window_fits(i: int, n: int, p: int)
    requires
        0 <= i < n / p,
        p > 0,
        n >= 0,
    ensures
        0 <= i * p,
        i * p + p <= n,
{
    assert(0 <= i * p) by (nonlinear_arith)
        requires
            0 <= i,
            p > 0,
    ;
    assert(i * p + p <= n) by (nonlinear_arith)
        requires
            0 <= i < n / p,
            p > 0,
            n >= 0,
    ;
}

/// Max pooling with non-overlapping `POOL_SIZE_WIDTH x POOL_SIZE_HEIGHT`
/// windows; a partial window at the right or upper edge is dropped.
pub struct MaxPooling2D<const POOL_SIZE_WIDTH: usize, const POOL_SIZE_HEIGHT: usize> {}

impl<const POOL_SIZE_WIDTH: usize, const POOL_SIZE_HEIGHT: usize> MaxPooling2D<
    POOL_SIZE_WIDTH,
    POOL_SIZE_HEIGHT,
> {
    pub fn new() -> (r: Self)
        ensures
            r == (MaxPooling2D::<POOL_SIZE_WIDTH, POOL_SIZE_HEIGHT> {  }),
    {
        Self {  }
    }

    /// The pooled value of one window (see `pool_window`).
    fn pool<T: Scalar>(
        img: &Vec<Vec<Vec<T>>>,
        x0: usize,
        y0: usize,
        ch: usize,
        zero: T,
        Ghost(height): Ghost<int>,
        Ghost(channels): Ghost<int>,
    ) -> (r: T)
        requires
            rect3(img@, img@.len() as int, height, channels),
            x0 + POOL_SIZE_WIDTH <= img@.len(),
            y0 + POOL_SIZE_HEIGHT <= height,
            ch < channels,
        ensures
            r == zero || in_window(r, img@, x0 as int, y0 as int, ch as int, POOL_SIZE_WIDTH as int, POOL_SIZE_HEIGHT as int),
            ordered::<T>() ==> r == pool_window(img@, x0 as int, y0 as int, ch as int, POOL_SIZE_WIDTH as int, POOL_SIZE_HEIGHT as int, zero),
    {
        let n = img.len();
        let mut acc = zero;
        let mut w: usize = 0;
        while w < POOL_SIZE_WIDTH
            invariant
                rect3(img@, img@.len() as int, height, channels),
                x0 + POOL_SIZE_WIDTH <= img@.len(),
                y0 + POOL_SIZE_HEIGHT <= height,
                ch < channels,
                n == img@.len(),
                w <= POOL_SIZE_WIDTH,
                acc == zero || in_window(acc, img@, x0 as int, y0 as int, ch as int, POOL_SIZE_WIDTH as int, POOL_SIZE_HEIGHT as int),
                ordered::<T>() ==> acc == pool_window(img@, x0 as int, y0 as int, ch as int, w as int, POOL_SIZE_HEIGHT as int, zero),
            decreases POOL_SIZE_WIDTH - w,
        {
            let ghost start = acc;
            let m = img[x0 + w].len();
            let mut h: usize = 0;
            while h < POOL_SIZE_HEIGHT
                invariant
                    rect3(img@, img@.len() as int, height, channels),
                    x0 + POOL_SIZE_WIDTH <= img@.len(),
                    y0 + POOL_SIZE_HEIGHT <= height,
                    ch < channels,
                    w < POOL_SIZE_WIDTH,
                    m == height,
                    n == img@.len(),
                    h <= POOL_SIZE_HEIGHT,
                    acc == zero || in_window(acc, img@, x0 as int, y0 as int, ch as int, POOL_SIZE_WIDTH as int, POOL_SIZE_HEIGHT as int),
                    ordered::<T>() ==> start == pool_window(img@, x0 as int, y0 as int, ch as int, w as int, POOL_SIZE_HEIGHT as int, zero),
                    ordered::<T>() ==> acc == pool_column(img@, (x0 + w) as int, y0 as int, ch as int, h as int, start),
                decreases POOL_SIZE_HEIGHT - h,
            {
                assert(rect2(img@[(x0 + w) as int]@, height, channels));
                let col = &img[x0 + w];
                assert(rect2(col@, height, channels));
                assert(col@[(y0 + h) as int].len() == channels);
                let new_v = col[y0 + h][ch];
                if new_v > acc {
                    acc = new_v;
                    assert(in_window(acc, img@, x0 as int, y0 as int, ch as int, POOL_SIZE_WIDTH as int, POOL_SIZE_HEIGHT as int)) by {
                        assert(acc == img@[x0 + w as int][y0 + h as int][ch as int]);
                    }
                }
                h = h + 1;
            }
            w = w + 1;
        }
        acc
    }

    /// The pooled pixel (all channels) of window `(i, j)` of one image.
    fn pool_pixel<T: Scalar>(
        img: &Vec<Vec<Vec<T>>>,
        i: usize,
        j: usize,
        height: usize,
        channels: usize,
        zero: T,
    ) -> (r: Vec<T>)
        requires
            POOL_SIZE_WIDTH > 0,
            POOL_SIZE_HEIGHT > 0,
            rect3(img@, img@.len() as int, height as int, channels as int),
            i < (img@.len() as int) / (POOL_SIZE_WIDTH as int),
            j < (height as int) / (POOL_SIZE_HEIGHT as int),
        ensures
            r@.len() == channels,
            forall|c: int|
                0 <= c < channels ==> pooled_cell(
                    #[trigger] r@[c],
                    img@,
                    i as int,
                    j as int,
                    c,
                    POOL_SIZE_WIDTH as int,
                    POOL_SIZE_HEIGHT as int,
                    zero,
                ),
    {
        proof {
            lemma_window_fits(i as int, img@.len() as int, POOL_SIZE_WIDTH as int);
            lemma_window_fits(j as int, height as int, POOL_SIZE_HEIGHT as int);
        }
        let n = img.len();
        let x0 = i * POOL_SIZE_WIDTH;
        let y0 = j * POOL_SIZE_HEIGHT;
        let mut r: Vec<T> = Vec::new();
        let mut c: usize = 0;
        while c < channels
            invariant
                rect3(img@, img@.len() as int, height as int, channels as int),
                x0 == i * POOL_SIZE_WIDTH,
                y0 == j * POOL_SIZE_HEIGHT,
                x0 + POOL_SIZE_WIDTH <= img@.len(),
                y0 + POOL_SIZE_HEIGHT <= height,
                c <= channels,
                r@.len() == c,
                forall|k: int|
                    0 <= k < c ==> pooled_cell(
                        #[trigger] r@[k],
                        img@,
                        i as int,
                        j as int,
                        k,
                        POOL_SIZE_WIDTH as int,
                        POOL_SIZE_HEIGHT as int,
                        zero,
                    ),
            decreases channels - c,
        {
            let v = Self::pool(img, x0, y0, c, zero, Ghost(height as int), Ghost(channels as int));
            r.push(v);
            c = c + 1;
        }
        r
    }

    /// Max pooling of one image of `width x height` pixels.
    fn pool_image<T: Scalar>(
        img: &Vec<Vec<Vec<T>>>,
        height: usize,
        channels: usize,
        zero: T,
    ) -> (r: Vec<Vec<Vec<T>>>)
        requires
            POOL_SIZE_WIDTH > 0,
            POOL_SIZE_HEIGHT > 0,
            rect3(img@, img@.len() as int, height as int, channels as int),
        ensures
            rect3(
                r@,
                (img@.len() as int) / (POOL_SIZE_WIDTH as int),
                (height as int) / (POOL_SIZE_HEIGHT as int),
                channels as int,
            ),
            pooled_image(r@, img@, POOL_SIZE_WIDTH as int, POOL_SIZE_HEIGHT as int, zero),
    {
        let out_w = img.len() / POOL_SIZE_WIDTH;
        let out_h = height / POOL_SIZE_HEIGHT;
        let mut r: Vec<Vec<Vec<T>>> = Vec::new();
        let mut i: usize = 0;
        while i < out_w
            invariant
                POOL_SIZE_WIDTH > 0,
                POOL_SIZE_HEIGHT > 0,
                rect3(img@, img@.len() as int, height as int, channels as int),
                out_w == (img@.len() as int) / (POOL_SIZE_WIDTH as int),
                out_h == (height as int) / (POOL_SIZE_HEIGHT as int),
                i <= out_w,
                rect3(r@, i as int, out_h as int, channels as int),
                pooled_image(r@, img@, POOL_SIZE_WIDTH as int, POOL_SIZE_HEIGHT as int, zero),
            decreases out_w - i,
        {
            let mut row: Vec<Vec<T>> = Vec::new();
            let mut j: usize = 0;
            while j < out_h
                invariant
                    POOL_SIZE_WIDTH > 0,
                    POOL_SIZE_HEIGHT > 0,
                    rect3(img@, img@.len() as int, height as int, channels as int),
                    out_w == (img@.len() as int) / (POOL_SIZE_WIDTH as int),
                    out_h == (height as int) / (POOL_SIZE_HEIGHT as int),
                    i < out_w,
                    j <= out_h,
                    rect2(row@, j as int, channels as int),
                    forall|jj: int, c: int|
                        0 <= jj < j && 0 <= c < channels ==> pooled_cell(
                            #[trigger] row@[jj]@[c],
                            img@,
                            i as int,
                            jj,
                            c,
                            POOL_SIZE_WIDTH as int,
                            POOL_SIZE_HEIGHT as int,
                            zero,
                        ),
                decreases out_h - j,
            {
                let px = Self::pool_pixel(img, i, j, height, channels, zero);
                row.push(px);
                j = j + 1;
            }
            let ghost prev = r@;
            r.push(row);
            proof {
                assert forall|ii: int, jj: int, c: int|
                    0 <= ii < r@.len() && 0 <= jj < r@[ii].len() && 0 <= c < r@[ii][jj].len()
                    implies pooled_cell(
                        #[trigger] r@[ii][jj][c],
                        img@,
                        ii,
                        jj,
                        c,
                        POOL_SIZE_WIDTH as int,
                        POOL_SIZE_HEIGHT as int,
                        zero,
                    ) by {
                    if ii < prev.len() {
                        assert(r@[ii] == prev[ii]);
                    } else {
                        assert(r@[ii]@[jj]@[c] == row@[jj]@[c]);
                    }
                }
            }
            i = i + 1;
        }
        r
    }

    /// Max pooling of each image of the batch: pixel `(i, j)` of the result
    /// pools the window of `POOL_SIZE_WIDTH x POOL_SIZE_HEIGHT` pixels whose
    /// corner is `(i * POOL_SIZE_WIDTH, j * POOL_SIZE_HEIGHT)`, scanned row by
    /// row from `zero`, each pixel replacing the running value it is greater
    /// than.
    pub fn compute<T: Scalar>(input: &Data2D<T>, zero: T) -> (r: Data2D<T>)
        requires
            POOL_SIZE_WIDTH > 0,
            POOL_SIZE_HEIGHT > 0,
            is_data2d(input@),
        ensures
            rect4(
                r@,
                input@.len() as int,
                width_of(input@) / (POOL_SIZE_WIDTH as int),
                height_of(input@) / (POOL_SIZE_HEIGHT as int),
                channels_of(input@),
            ),
            forall|b: int|
                0 <= b < r@.len() ==> pooled_image(
                    #[trigger] r@[b]@,
                    input@[b]@,
                    POOL_SIZE_WIDTH as int,
                    POOL_SIZE_HEIGHT as int,
                    zero,
                ),
    {
        let (batches, width, height, channels) = dims(input);
        let mut r: Data2D<T> = Vec::new();
        let mut b: usize = 0;
        while b < batches
            invariant
                POOL_SIZE_WIDTH > 0,
                POOL_SIZE_HEIGHT > 0,
                is_data2d(input@),
                batches == input@.len(),
                width == width_of(input@),
                height == height_of(input@),
                channels == channels_of(input@),
                b <= batches,
                rect4(
                    r@,
                    b as int,
                    (width as int) / (POOL_SIZE_WIDTH as int),
                    (height as int) / (POOL_SIZE_HEIGHT as int),
                    channels as int,
                ),
                forall|bb: int|
                    0 <= bb < b ==> pooled_image(
                        #[trigger] r@[bb]@,
                        input@[bb]@,
                        POOL_SIZE_WIDTH as int,
                        POOL_SIZE_HEIGHT as int,
                        zero,
                    ),
            decreases batches - b,
        {
            assert(rect3(input@[b as int]@, width as int, height as int, channels as int));
            let img = Self::pool_image(&input[b], height, channels, zero);
            r.push(img);
            b = b + 1;
        }
        r
    }
}

} // verus!
