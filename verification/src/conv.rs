//! Two-dimensional convolution layers with zero padding and ReLU activation.
use vstd::prelude::*;
use vstd::arithmetic::div_mod::lemma_fundamental_div_mod_converse;
use vstd::std_specs::ops::MulSpec;
use crate::arith::{
    Scalar, exact_additive, exact_ops, kahan, kahan_pair, kahan_sum, lemma_kahan_exact,
    lemma_kahan_pair_exact, plain_sum, total_ops,
};
use vstd::std_specs::ops::AddSpec;
use crate::order::{ordered, relu, relu_spec};
use crate::tensor::{Data2D, dims, is_data2d, rect2, rect3, rect4, width_of, height_of, channels_of};

verus! {

/// The rows of a matrix of vectors, each as a sequence.
pub open spec fn rows_of<T>(m: Seq<Vec<T>>) -> Seq<Seq<T>> {
    m.map_values(|v: Vec<T>| v@)
}

/// The products that a `k x k` filter sums: the product of `input[x][y]` and
/// `kernel[x][y]` stands at place `x + y * k`.
pub open spec fn filter_products<T: Scalar>(input: Seq<Seq<T>>, kernel: Seq<Seq<T>>, k: int) -> Seq<
    T,
> {
    Seq::new((k * k) as nat, |i: int| input[i % k][i / k].mul_spec(kernel[i % k][i / k]))
}

/// Pixel `(x, y)` of channel `ch` of the image `img` (of height `height`)
/// surrounded by a border of `p` zeros on each side.
pub open spec fn padded_at<T>(img: Seq<Vec<Vec<T>>>, height: int, ch: int, p: int, x: int, y: int, zero: T) -> T {
    if p <= x < img.len() + p && p <= y < height + p {
        img[x - p][y - p][ch]
    } else {
        zero
    }
}

/// Zero padding shifts the image by `p` in both directions: pixel `(x, y)` of
/// the image, channel `ch` itself, stands at `(x + p, y + p)` of the padded
/// channel, and every place outside the shifted image holds `zero`.
pub proof fn lemma_padding_shifts<T>(
    img: Seq<Vec<Vec<T>>>,
    height: int,
    ch: int,
    p: int,
    x: int,
    y: int,
    zero: T,
)
    requires
        0 <= p,
    ensures
        0 <= x < img.len() && 0 <= y < height ==> padded_at(img, height, ch, p, x + p, y + p, zero)
            == img[x][y][ch],
        !(p <= x < img.len() + p && p <= y < height + p) ==> padded_at(img, height, ch, p, x, y, zero)
            == zero,
{
}

/// The `k x k` window of the padded channel `ch` whose corner is `(w, h)`.
pub open spec fn conv_window<T>(
    img: Seq<Vec<Vec<T>>>,
    height: int,
    ch: int,
    p: int,
    w: int,
    h: int,
    k: int,
    zero: T,
) -> Seq<Seq<T>> {
    Seq::new(k as nat, |i: int| Seq::new(k as nat, |j: int| padded_at(img, height, ch, p, w + i, h + j, zero)))
}

/// The `k x k` kernel that filter `f` applies to input channel `ch`.
pub open spec fn kernel_slice<T>(kernels: Seq<Vec<Vec<Vec<T>>>>, k: int, ch: int, f: int) -> Seq<Seq<T>> {
    Seq::new(k as nat, |i: int| Seq::new(k as nat, |j: int| kernels[i][j][ch][f]))
}

/// The filter response of filter `f` at `(w, h)` summed over the first `n`
/// channels: a running value, starting at `zero`, to which the response of
/// each channel in turn is added by compensated summation of the pair
/// (running value, response).
pub open spec fn conv_acc<T: Scalar>(
    kernels: Seq<Vec<Vec<Vec<T>>>>,
    img: Seq<Vec<Vec<T>>>,
    height: int,
    p: int,
    k: int,
    w: int,
    h: int,
    f: int,
    n: int,
    zero: T,
) -> T
    decreases n,
{
    if n <= 0 {
        zero
    } else {
        kahan_pair(
            conv_acc(kernels, img, height, p, k, w, h, f, n - 1, zero),
            kahan(
                filter_products(
                    conv_window(img, height, n - 1, p, w, h, k, zero),
                    kernel_slice(kernels, k, n - 1, f),
                    k,
                ),
                zero,
            ),
            zero,
        )
    }
}

/// `pads` holds, for each of the `n` channels of `img` (of height `height`),
/// the channel padded with `p` zeros on each side.
pub open spec fn pads_ok<T>(pads: Seq<Vec<Vec<T>>>, img: Seq<Vec<Vec<T>>>, height: int, n: int, p: int, zero: T) -> bool {
    &&& pads.len() == n
    &&& forall|ch: int|
        0 <= ch < n ==> rect2(#[trigger] pads[ch]@, img.len() + 2 * p, height + 2 * p)
    &&& forall|ch: int, x: int, y: int|
        0 <= ch < n && 0 <= x < img.len() + 2 * p && 0 <= y < height + 2 * p ==> #[trigger] pads[ch]@[x]@[y]
            == padded_at(img, height, ch, p, x, y, zero)
}

/// A convolution layer of `FILTER` filters of `KERNEL x KERNEL` pixels over
/// `CH` input channels, on images padded with `PADDING` zeros on each side:
/// `kernels[x][y][ch][f]` weighs pixel `(x, y)` of channel `ch` of the window
/// for filter `f`, and `biases[f]` is added to the response of filter `f`.
pub struct Conv2D<T, const FILTER: usize, const KERNEL: usize, const CH: usize, const PADDING: usize> {
    pub kernels: Vec<Vec<Vec<Vec<T>>>>,
    pub biases: Vec<T>,
}

impl<
    T: Scalar,
    const FILTER: usize,
    const KERNEL: usize,
    const CH: usize,
    const PADDING: usize,
> Conv2D<T, FILTER, KERNEL, CH, PADDING> {
    /// The kernels are `KERNEL x KERNEL x CH x FILTER` and there is one bias
    /// per filter.
    pub open spec fn wf(&self) -> bool {
        &&& rect4(self.kernels@, KERNEL as int, KERNEL as int, CH as int, FILTER as int)
        &&& self.biases@.len() == FILTER
    }

    /// The value of filter `f` at pixel `(w, h)` of image `img` (of height
    /// `height`, with `channels` channels): the ReLU of the compensated sum of
    /// the pair (bias of `f`, filter response summed over the channels).
    pub open spec fn conv_cell(
        &self,
        img: Seq<Vec<Vec<T>>>,
        height: int,
        channels: int,
        w: int,
        h: int,
        f: int,
        zero: T,
    ) -> T {
        relu_spec(
            kahan_pair(
                self.biases@[f],
                conv_acc(
                    self.kernels@,
                    img,
                    height,
                    PADDING as int,
                    KERNEL as int,
                    w,
                    h,
                    f,
                    channels,
                    zero,
                ),
                zero,
            ),
            zero,
        )
    }

    /// In exact arithmetic, the value of filter `f` at pixel `(w, h)` is the
    /// ReLU of `biases[f]` plus, over every one of the `channels` input
    /// channels `c`, the sum over the window of the padded pixel
    /// `(w + i, h + j)` of channel `c` times `kernels[i][j][c][f]` (the
    /// window's places taken in the order `i + j * KERNEL`).
    pub proof fn lemma_conv_cell_exact(
        &self,
        img: Seq<Vec<Vec<T>>>,
        height: int,
        channels: int,
        w: int,
        h: int,
        f: int,
        zero: T,
    )
        requires
            exact_additive::<T>(zero),
            0 <= channels,
        ensures
            self.conv_cell(img, height, channels, w, h, f, zero) == relu_spec(
                self.biases@[f].add_spec(
                    plain_sum(
                        Seq::new(
                            channels as nat,
                            |c: int|
                                plain_sum(
                                    Seq::new(
                                        (KERNEL * KERNEL) as nat,
                                        |t: int|
                                            padded_at(
                                                img,
                                                height,
                                                c,
                                                PADDING as int,
                                                w + t % (KERNEL as int),
                                                h + t / (KERNEL as int),
                                                zero,
                                            ).mul_spec(
                                                self.kernels@[t % (KERNEL as int)][t / (
                                                KERNEL as int)][c][f],
                                            ),
                                    ),
                                    zero,
                                ),
                        ),
                        zero,
                    ),
                ),
                zero,
            ),
    {
        let k = KERNEL as int;
        self.lemma_conv_acc_exact(img, height, w, h, f, channels, zero);
        let acc = conv_acc(self.kernels@, img, height, PADDING as int, k, w, h, f, channels, zero);
        lemma_kahan_pair_exact(self.biases@[f], acc, zero);
    }

    /// In exact arithmetic, the channel-summed response is the plain sum over
    /// the first `n` channels of each channel's window sum.
    proof fn lemma_conv_acc_exact(
        &self,
        img: Seq<Vec<Vec<T>>>,
        height: int,
        w: int,
        h: int,
        f: int,
        n: int,
        zero: T,
    )
        requires
            exact_additive::<T>(zero),
            0 <= n,
        ensures
            conv_acc(self.kernels@, img, height, PADDING as int, KERNEL as int, w, h, f, n, zero)
                == plain_sum(
                Seq::new(
                    n as nat,
                    |c: int|
                        plain_sum(
                            Seq::new(
                                (KERNEL * KERNEL) as nat,
                                |t: int|
                                    padded_at(
                                        img,
                                        height,
                                        c,
                                        PADDING as int,
                                        w + t % (KERNEL as int),
                                        h + t / (KERNEL as int),
                                        zero,
                                    ).mul_spec(
                                        self.kernels@[t % (KERNEL as int)][t / (KERNEL as int)][c][f],
                                    ),
                            ),
                            zero,
                        ),
                ),
                zero,
            ),
        decreases n,
    {
        let k = KERNEL as int;
        let resp = |c: int|
            plain_sum(
                Seq::new(
                    (KERNEL * KERNEL) as nat,
                    |t: int|
                        padded_at(img, height, c, PADDING as int, w + t % k, h + t / k, zero).mul_spec(
                            self.kernels@[t % k][t / k][c][f],
                        ),
                ),
                zero,
            );
        let whole = Seq::new(n as nat, resp);
        if n > 0 {
            self.lemma_conv_acc_exact(img, height, w, h, f, n - 1, zero);
            assert(whole.drop_last() =~= Seq::new((n - 1) as nat, resp));
            let c = n - 1;
            let fp = filter_products(
                conv_window(img, height, c, PADDING as int, w, h, k, zero),
                kernel_slice(self.kernels@, k, c, f),
                k,
            );
            let direct = Seq::new(
                (KERNEL * KERNEL) as nat,
                |t: int|
                    padded_at(img, height, c, PADDING as int, w + t % k, h + t / k, zero).mul_spec(
                        self.kernels@[t % k][t / k][c][f],
                    ),
            );
            assert forall|t: int| 0 <= t < k * k implies #[trigger] fp[t] == direct[t] by {
                lemma_div_mod_bounds(t, k);
            }
            assert(fp =~= direct);
            lemma_kahan_exact(fp, zero);
            let prev = conv_acc(self.kernels@, img, height, PADDING as int, k, w, h, f, n - 1, zero);
            lemma_kahan_pair_exact(prev, kahan(fp, zero), zero);
        }
    }

    pub fn new(kernels: Vec<Vec<Vec<Vec<T>>>>, biases: Vec<T>) -> (r: Self)
        requires
            rect4(kernels@, KERNEL as int, KERNEL as int, CH as int, FILTER as int),
            biases@.len() == FILTER,
        ensures
            r.kernels == kernels,
            r.biases == biases,
            r.wf(),
    {
        Self { kernels, biases }
    }

    /// Channel `channel` of the image `input` (`width x height` pixels)
    /// surrounded by a border of `PADDING` zeros on each side.
    pub fn apply_padding(input: &Vec<Vec<Vec<T>>>, height: usize, channel: usize, zero: T) -> (r: Vec<
        Vec<T>,
    >)
        requires
            forall|x: int| 0 <= x < input@.len() ==> #[trigger] input@[x].len() == height,
            forall|x: int, y: int|
                0 <= x < input@.len() && 0 <= y < height ==> channel < #[trigger] input@[x]@[y].len(),
            input@.len() + 2 * PADDING <= usize::MAX,
            height + 2 * PADDING <= usize::MAX,
        ensures
            rect2(r@, input@.len() + 2 * PADDING, height + 2 * PADDING),
            forall|x: int, y: int|
                0 <= x < input@.len() + 2 * PADDING && 0 <= y < height + 2 * PADDING ==> #[trigger] r@[x]@[y]
                    == padded_at(input@, height as int, channel as int, PADDING as int, x, y, zero),
    {
        let width = input.len();
        let pw = width + 2 * PADDING;
        let ph = height + 2 * PADDING;
        let mut r: Vec<Vec<T>> = Vec::new();
        let mut x: usize = 0;
        while x < pw
            invariant
                width == input@.len(),
                pw == width + 2 * PADDING,
                ph == height + 2 * PADDING,
                forall|x: int| 0 <= x < input@.len() ==> #[trigger] input@[x].len() == height,
                forall|x: int, y: int|
                    0 <= x < input@.len() && 0 <= y < height ==> channel < #[trigger] input@[x]@[y].len(),
                x <= pw,
                rect2(r@, x as int, ph as int),
                forall|xx: int, y: int|
                    0 <= xx < x && 0 <= y < ph ==> #[trigger] r@[xx]@[y] == padded_at(
                        input@,
                        height as int,
                        channel as int,
                        PADDING as int,
                        xx,
                        y,
                        zero,
                    ),
            decreases pw - x,
        {
            let mut row: Vec<T> = Vec::new();
            let mut y: usize = 0;
            while y < ph
                invariant
                    width == input@.len(),
                    pw == width + 2 * PADDING,
                    ph == height + 2 * PADDING,
                    forall|x: int| 0 <= x < input@.len() ==> #[trigger] input@[x].len() == height,
                    forall|x: int, y: int|
                        0 <= x < input@.len() && 0 <= y < height ==> channel < #[trigger] input@[x]@[y].len(),
                    x < pw,
                    y <= ph,
                    row@.len() == y,
                    forall|yy: int|
                        0 <= yy < y ==> #[trigger] row@[yy] == padded_at(
                            input@,
                            height as int,
                            channel as int,
                            PADDING as int,
                            x as int,
                            yy,
                            zero,
                        ),
                decreases ph - y,
            {
                if PADDING <= x && x < width + PADDING && PADDING <= y && y < height + PADDING {
                    assert(input@[x - PADDING].len() == height);
                    assert(channel < input@[x - PADDING]@[y - PADDING].len());
                    let col = &input[x - PADDING];
                    let px = &col[y - PADDING];
                    row.push(px[channel]);
                } else {
                    row.push(zero);
                }
                y = y + 1;
            }
            let ghost prev = r@;
            r.push(row);
            proof {
                assert forall|xx: int, y: int| 0 <= xx < x + 1 && 0 <= y < ph implies #[trigger] r@[xx]@[y]
                    == padded_at(input@, height as int, channel as int, PADDING as int, xx, y, zero) by {
                    if xx < x {
                        assert(r@[xx] == prev[xx]);
                    }
                }
            }
            x = x + 1;
        }
        r
    }

    /// The response of a `KERNEL x KERNEL` filter to a window: the compensated
    /// sum of the products of `input[x][y]` and `kernel[x][y]`, the product of
    /// pixel `(x, y)` standing at place `x + y * KERNEL`.
    pub fn apply_filter(input: &Vec<Vec<T>>, kernel: &Vec<Vec<T>>, zero: T) -> (r: T)
        requires
            rect2(input@, KERNEL as int, KERNEL as int),
            rect2(kernel@, KERNEL as int, KERNEL as int),
            KERNEL * KERNEL <= usize::MAX,
            total_ops::<T>(),
        ensures
            exact_ops::<T>() ==> r == kahan(
                filter_products(rows_of(input@), rows_of(kernel@), KERNEL as int),
                zero,
            ),
    {
        let ghost k = KERNEL as int;
        let mut ret: Vec<T> = Vec::new();
        let mut y: usize = 0;
        while y < KERNEL
            invariant
                rect2(input@, k, k),
                rect2(kernel@, k, k),
                k == KERNEL,
                total_ops::<T>(),
                y <= KERNEL,
                ret@.len() == y * k,
                exact_ops::<T>() ==> forall|i: int|
                    0 <= i < ret@.len() ==> #[trigger] ret@[i] == input@[i % k]@[i / k].mul_spec(
                        kernel@[i % k]@[i / k],
                    ),
            decreases KERNEL - y,
        {
            let mut x: usize = 0;
            while x < KERNEL
                invariant
                    rect2(input@, k, k),
                    rect2(kernel@, k, k),
                    k == KERNEL,
                    total_ops::<T>(),
                    y < KERNEL,
                    x <= KERNEL,
                    ret@.len() == y * k + x,
                    exact_ops::<T>() ==> forall|i: int|
                        0 <= i < ret@.len() ==> #[trigger] ret@[i] == input@[i % k]@[i / k].mul_spec(
                            kernel@[i % k]@[i / k],
                        ),
                decreases KERNEL - x,
            {
                assert(input@[x as int].len() == k);
                assert(kernel@[x as int].len() == k);
                let p = input[x][y] * kernel[x][y];
                proof {
                    lemma_fundamental_div_mod_converse(y * k + x, k, y as int, x as int);
                }
                ret.push(p);
                x = x + 1;
            }
            assert(y * k + k == (y + 1) * k) by (nonlinear_arith);
            y = y + 1;
        }
        let r = kahan_sum(ret.as_slice(), zero);
        proof {
            if exact_ops::<T>() {
                let fp = filter_products(rows_of(input@), rows_of(kernel@), k);
                assert forall|i: int| 0 <= i < k * k implies #[trigger] ret@[i] == fp[i] by {
                    lemma_div_mod_bounds(i, k);
                }
                assert(ret@ =~= fp);
            }
        }
        r
    }

    /// The `KERNEL x KERNEL` window of the padded channel `pad` whose corner
    /// is `(w, h)`.
    fn window_at(pad: &Vec<Vec<T>>, w: usize, h: usize, Ghost(ph): Ghost<int>) -> (r: Vec<Vec<T>>)
        requires
            rect2(pad@, pad@.len() as int, ph),
            w + KERNEL <= pad@.len(),
            h + KERNEL <= ph,
        ensures
            rect2(r@, KERNEL as int, KERNEL as int),
            forall|i: int, j: int|
                0 <= i < KERNEL && 0 <= j < KERNEL ==> #[trigger] r@[i]@[j] == pad@[w + i]@[h + j],
    {
        let n = pad.len();
        let mut r: Vec<Vec<T>> = Vec::new();
        let mut i: usize = 0;
        while i < KERNEL
            invariant
                rect2(pad@, pad@.len() as int, ph),
                n == pad@.len(),
                w + KERNEL <= pad@.len(),
                h + KERNEL <= ph,
                i <= KERNEL,
                rect2(r@, i as int, KERNEL as int),
                forall|ii: int, j: int|
                    0 <= ii < i && 0 <= j < KERNEL ==> #[trigger] r@[ii]@[j] == pad@[w + ii]@[h + j],
            decreases KERNEL - i,
        {
            assert(pad@[(w + i) as int].len() == ph);
            let src = &pad[w + i];
            let m = src.len();
            let mut row: Vec<T> = Vec::new();
            let mut j: usize = 0;
            while j < KERNEL
                invariant
                    src@ == pad@[w + i]@,
                    src@.len() == ph,
                    m == ph,
                    h + KERNEL <= ph,
                    i < KERNEL,
                    j <= KERNEL,
                    row@.len() == j,
                    forall|jj: int| 0 <= jj < j ==> #[trigger] row@[jj] == pad@[w + i]@[h + jj],
                decreases KERNEL - j,
            {
                row.push(src[h + j]);
                j = j + 1;
            }
            let ghost prev = r@;
            r.push(row);
            proof {
                assert forall|ii: int, j: int| 0 <= ii < i + 1 && 0 <= j < KERNEL implies #[trigger] r@[ii]@[j]
                    == pad@[w + ii]@[h + j] by {
                    if ii < i {
                        assert(r@[ii] == prev[ii]);
                    }
                }
            }
            i = i + 1;
        }
        r
    }

    /// The `KERNEL x KERNEL` kernel that filter `f` applies to channel `ch`.
    fn kernel_at(&self, ch: usize, f: usize) -> (r: Vec<Vec<T>>)
        requires
            self.wf(),
            KERNEL > 0 ==> ch < CH,
            f < FILTER,
        ensures
            rect2(r@, KERNEL as int, KERNEL as int),
            rows_of(r@) == kernel_slice(self.kernels@, KERNEL as int, ch as int, f as int),
    {
        let mut r: Vec<Vec<T>> = Vec::new();
        let mut w: usize = 0;
        while w < KERNEL
            invariant
                self.wf(),
                KERNEL > 0 ==> ch < CH,
                f < FILTER,
                w <= KERNEL,
                rect2(r@, w as int, KERNEL as int),
                forall|ww: int, h: int|
                    0 <= ww < w && 0 <= h < KERNEL ==> #[trigger] r@[ww]@[h]
                        == self.kernels@[ww]@[h]@[ch as int]@[f as int],
            decreases KERNEL - w,
        {
            assert(rect3(self.kernels@[w as int]@, KERNEL as int, CH as int, FILTER as int));
            let mut row: Vec<T> = Vec::new();
            let mut h: usize = 0;
            while h < KERNEL
                invariant
                    self.wf(),
                    rect3(self.kernels@[w as int]@, KERNEL as int, CH as int, FILTER as int),
                    KERNEL > 0 ==> ch < CH,
                    f < FILTER,
                    w < KERNEL,
                    h <= KERNEL,
                    row@.len() == h,
                    forall|hh: int|
                        0 <= hh < h ==> #[trigger] row@[hh] == self.kernels@[w as int]@[hh]@[ch as int]@[f as int],
                decreases KERNEL - h,
            {
                assert(rect2(self.kernels@[w as int]@[h as int]@, CH as int, FILTER as int));
                assert(self.kernels@[w as int]@[h as int]@[ch as int].len() == FILTER);
                row.push(self.kernels[w][h][ch][f]);
                h = h + 1;
            }
            let ghost prev = r@;
            r.push(row);
            proof {
                assert forall|ww: int, h: int| 0 <= ww < w + 1 && 0 <= h < KERNEL implies #[trigger] r@[ww]@[h]
                    == self.kernels@[ww]@[h]@[ch as int]@[f as int] by {
                    if ww < w {
                        assert(r@[ww] == prev[ww]);
                    }
                }
            }
            w = w + 1;
        }
        proof {
            let ks = kernel_slice(self.kernels@, KERNEL as int, ch as int, f as int);
            assert forall|i: int| 0 <= i < KERNEL implies #[trigger] rows_of(r@)[i] =~= ks[i] by {
                assert(rows_of(r@)[i] == r@[i]@);
                assert(r@[i].len() == KERNEL);
                assert forall|j: int| 0 <= j < KERNEL implies #[trigger] r@[i]@[j] == ks[i][j] by {
                    assert(r@[i]@[j] == self.kernels@[i]@[j]@[ch as int]@[f as int]);
                }
                assert(r@[i]@ =~= ks[i]);
            }
            assert(rows_of(r@) =~= ks);
        }
        r
    }

    /// The output pixel `(w, h)` (one value per filter) of the image `img`,
    /// from the padded channels `pads`.
    fn conv_pixel(
        &self,
        img: &Vec<Vec<Vec<T>>>,
        pads: &Vec<Vec<Vec<T>>>,
        height: usize,
        channels: usize,
        w: usize,
        h: usize,
        zero: T,
    ) -> (r: Vec<T>)
        requires
            self.wf(),
            total_ops::<T>(),
            rect3(img@, img@.len() as int, height as int, channels as int),
            pads_ok(pads@, img@, height as int, channels as int, PADDING as int, zero),
            w < img@.len(),
            h < height,
            channels > 0 ==> w + KERNEL <= img@.len() + 2 * PADDING && h + KERNEL <= height + 2 * PADDING,
            (KERNEL > 0 && FILTER > 0) ==> channels <= CH,
            KERNEL * KERNEL <= usize::MAX,
        ensures
            r@.len() == FILTER,
            exact_ops::<T>() && ordered::<T>() ==> forall|f: int|
                0 <= f < FILTER ==> #[trigger] r@[f] == self.conv_cell(
                    img@,
                    height as int,
                    channels as int,
                    w as int,
                    h as int,
                    f,
                    zero,
                ),
    {
        let ghost pw = img@.len() + 2 * PADDING;
        let ghost ph = height + 2 * PADDING;
        let mut windows: Vec<Vec<Vec<T>>> = Vec::new();
        let mut ch: usize = 0;
        while ch < channels
            invariant
                pads_ok(pads@, img@, height as int, channels as int, PADDING as int, zero),
                pw == img@.len() + 2 * PADDING,
                ph == height + 2 * PADDING,
                channels > 0 ==> w + KERNEL <= pw && h + KERNEL <= ph,
                ch <= channels,
                windows@.len() == ch,
                forall|c: int|
                    0 <= c < ch ==> rect2(#[trigger] windows@[c]@, KERNEL as int, KERNEL as int),
                forall|c: int|
                    0 <= c < ch ==> rows_of(#[trigger] windows@[c]@) == conv_window(
                        img@,
                        height as int,
                        c,
                        PADDING as int,
                        w as int,
                        h as int,
                        KERNEL as int,
                        zero,
                    ),
            decreases channels - ch,
        {
            assert(rect2(pads@[ch as int]@, pw, ph));
            let win = Self::window_at(&pads[ch], w, h, Ghost(ph));
            proof {
                let cw = conv_window(img@, height as int, ch as int, PADDING as int, w as int, h as int, KERNEL as int, zero);
                assert forall|i: int| 0 <= i < KERNEL implies #[trigger] rows_of(win@)[i] =~= cw[i] by {
                    assert(rows_of(win@)[i] == win@[i]@);
                    assert(win@[i].len() == KERNEL);
                    assert forall|j: int| 0 <= j < KERNEL implies #[trigger] win@[i]@[j] == cw[i][j] by {
                        assert(win@[i]@[j] == pads@[ch as int]@[w + i]@[h + j]);
                    }
                }
                assert(rows_of(win@) =~= cw);
            }
            windows.push(win);
            ch = ch + 1;
        }
        let mut r: Vec<T> = Vec::new();
        let mut f: usize = 0;
        while f < FILTER
            invariant
                self.wf(),
                total_ops::<T>(),
                (KERNEL > 0 && FILTER > 0) ==> channels <= CH,
                KERNEL * KERNEL <= usize::MAX,
                windows@.len() == channels,
                forall|c: int|
                    0 <= c < channels ==> rect2(#[trigger] windows@[c]@, KERNEL as int, KERNEL as int),
                forall|c: int|
                    0 <= c < channels ==> rows_of(#[trigger] windows@[c]@) == conv_window(
                        img@,
                        height as int,
                        c,
                        PADDING as int,
                        w as int,
                        h as int,
                        KERNEL as int,
                        zero,
                    ),
                f <= FILTER,
                r@.len() == f,
                exact_ops::<T>() && ordered::<T>() ==> forall|ff: int|
                    0 <= ff < f ==> #[trigger] r@[ff] == self.conv_cell(
                        img@,
                        height as int,
                        channels as int,
                        w as int,
                        h as int,
                        ff,
                        zero,
                    ),
            decreases FILTER - f,
        {
            let mut acc = zero;
            let mut ch: usize = 0;
            while ch < channels
                invariant
                    self.wf(),
                    total_ops::<T>(),
                    (KERNEL > 0 && FILTER > 0) ==> channels <= CH,
                    KERNEL * KERNEL <= usize::MAX,
                    windows@.len() == channels,
                    forall|c: int|
                        0 <= c < channels ==> rect2(#[trigger] windows@[c]@, KERNEL as int, KERNEL as int),
                    forall|c: int|
                        0 <= c < channels ==> rows_of(#[trigger] windows@[c]@) == conv_window(
                            img@,
                            height as int,
                            c,
                            PADDING as int,
                            w as int,
                            h as int,
                            KERNEL as int,
                            zero,
                        ),
                    f < FILTER,
                    ch <= channels,
                    exact_ops::<T>() ==> acc == conv_acc(
                        self.kernels@,
                        img@,
                        height as int,
                        PADDING as int,
                        KERNEL as int,
                        w as int,
                        h as int,
                        f as int,
                        ch as int,
                        zero,
                    ),
                decreases channels - ch,
            {
                let kernel = self.kernel_at(ch, f);
                assert(rect2(windows@[ch as int]@, KERNEL as int, KERNEL as int));
                let resp = Self::apply_filter(&windows[ch], &kernel, zero);
                let pair = [acc, resp];
                acc = kahan_sum(&pair, zero);
                assert(pair@ =~= seq![pair[0], pair[1]]);
                assert(rows_of(windows@[ch as int]@) == conv_window(
                    img@,
                    height as int,
                    ch as int,
                    PADDING as int,
                    w as int,
                    h as int,
                    KERNEL as int,
                    zero,
                ));
                ch = ch + 1;
            }
            let pair = [self.biases[f], acc];
            let v = kahan_sum(&pair, zero);
            assert(pair@ =~= seq![pair[0], pair[1]]);
            let cell = relu(v, zero);
            r.push(cell);
            f = f + 1;
        }
        r
    }

    /// The convolution of one image of `width x height` pixels.
    fn conv_image(&self, img: &Vec<Vec<Vec<T>>>, height: usize, channels: usize, zero: T) -> (r: Vec<
        Vec<Vec<T>>,
    >)
        requires
            self.wf(),
            total_ops::<T>(),
            rect3(img@, img@.len() as int, height as int, channels as int),
            (img@.len() > 0 && height > 0 && channels > 0 && KERNEL > 0) ==> KERNEL <= 2 * PADDING + 1,
            (img@.len() > 0 && height > 0 && KERNEL > 0 && FILTER > 0) ==> channels <= CH,
            img@.len() + 2 * PADDING <= usize::MAX,
            height + 2 * PADDING <= usize::MAX,
            KERNEL * KERNEL <= usize::MAX,
        ensures
            rect3(r@, img@.len() as int, height as int, FILTER as int),
            exact_ops::<T>() && ordered::<T>() ==> forall|w: int, h: int, f: int|
                0 <= w < img@.len() && 0 <= h < height && 0 <= f < FILTER ==> #[trigger] r@[w]@[h]@[f]
                    == self.conv_cell(img@, height as int, channels as int, w, h, f, zero),
    {
        let width = img.len();
        let mut pads: Vec<Vec<Vec<T>>> = Vec::new();
        let mut ch: usize = 0;
        while ch < channels
            invariant
                rect3(img@, img@.len() as int, height as int, channels as int),
                width == img@.len(),
                img@.len() + 2 * PADDING <= usize::MAX,
                height + 2 * PADDING <= usize::MAX,
                ch <= channels,
                pads_ok(pads@, img@, height as int, ch as int, PADDING as int, zero),
            decreases channels - ch,
        {
            proof {
                assert forall|x: int| 0 <= x < img@.len() implies #[trigger] img@[x].len() == height by {
                    assert(rect2(img@[x]@, height as int, channels as int));
                }
                assert forall|x: int, y: int| 0 <= x < img@.len() && 0 <= y < height implies ch
                    < #[trigger] img@[x]@[y].len() by {
                    assert(rect2(img@[x]@, height as int, channels as int));
                }
            }
            let pad = Self::apply_padding(img, height, ch, zero);
            let ghost prev = pads@;
            pads.push(pad);
            proof {
                let n = ch + 1;
                assert forall|c: int, x: int, y: int|
                    0 <= c < n && 0 <= x < img@.len() + 2 * PADDING && 0 <= y < height + 2 * PADDING
                    implies #[trigger] pads@[c]@[x]@[y] == padded_at(img@, height as int, c, PADDING as int, x, y, zero) by {
                    if c < ch {
                        assert(pads@[c] == prev[c]);
                    }
                }
                assert forall|c: int| 0 <= c < n implies rect2(#[trigger] pads@[c]@, img@.len() + 2 * PADDING, height + 2 * PADDING) by {
                    if c < ch {
                        assert(pads@[c] == prev[c]);
                    }
                }
            }
            ch = ch + 1;
        }
        let mut r: Vec<Vec<Vec<T>>> = Vec::new();
        let mut w: usize = 0;
        while w < width
            invariant
                self.wf(),
                total_ops::<T>(),
                rect3(img@, img@.len() as int, height as int, channels as int),
                width == img@.len(),
                pads_ok(pads@, img@, height as int, channels as int, PADDING as int, zero),
                (img@.len() > 0 && height > 0 && channels > 0 && KERNEL > 0) ==> KERNEL <= 2 * PADDING + 1,
                (img@.len() > 0 && height > 0 && KERNEL > 0 && FILTER > 0) ==> channels <= CH,
                KERNEL * KERNEL <= usize::MAX,
                w <= width,
                rect3(r@, w as int, height as int, FILTER as int),
                exact_ops::<T>() && ordered::<T>() ==> forall|ww: int, h: int, f: int|
                    0 <= ww < w && 0 <= h < height && 0 <= f < FILTER ==> #[trigger] r@[ww]@[h]@[f]
                        == self.conv_cell(img@, height as int, channels as int, ww, h, f, zero),
            decreases width - w,
        {
            let mut col: Vec<Vec<T>> = Vec::new();
            let mut h: usize = 0;
            while h < height
                invariant
                    self.wf(),
                    total_ops::<T>(),
                    rect3(img@, img@.len() as int, height as int, channels as int),
                    width == img@.len(),
                    pads_ok(pads@, img@, height as int, channels as int, PADDING as int, zero),
                    (img@.len() > 0 && height > 0 && channels > 0 && KERNEL > 0) ==> KERNEL <= 2 * PADDING + 1,
                    (img@.len() > 0 && height > 0 && KERNEL > 0 && FILTER > 0) ==> channels <= CH,
                    KERNEL * KERNEL <= usize::MAX,
                    w < width,
                    h <= height,
                    rect2(col@, h as int, FILTER as int),
                    exact_ops::<T>() && ordered::<T>() ==> forall|hh: int, f: int|
                        0 <= hh < h && 0 <= f < FILTER ==> #[trigger] col@[hh]@[f]
                            == self.conv_cell(img@, height as int, channels as int, w as int, hh, f, zero),
                decreases height - h,
            {
                let px = self.conv_pixel(img, &pads, height, channels, w, h, zero);
                col.push(px);
                h = h + 1;
            }
            let ghost prev = r@;
            r.push(col);
            proof {
                if exact_ops::<T>() && ordered::<T>() {
                    assert forall|ww: int, h: int, f: int|
                        0 <= ww < w + 1 && 0 <= h < height && 0 <= f < FILTER implies #[trigger] r@[ww]@[h]@[f]
                            == self.conv_cell(img@, height as int, channels as int, ww, h, f, zero) by {
                        if ww < w {
                            assert(r@[ww] == prev[ww]);
                        }
                    }
                }
            }
            w = w + 1;
        }
        r
    }

    /// The convolution of each image of the batch: the result has the width
    /// and height of the input and one channel per filter, and channel `f` of
    /// pixel `(w, h)` is `conv_cell` of that pixel and filter.
    pub fn compute(self, input: &Data2D<T>, zero: T) -> (r: Data2D<T>)
        requires
            self.wf(),
            is_data2d(input@),
            total_ops::<T>(),
            (input@.len() > 0 && width_of(input@) > 0 && height_of(input@) > 0 && channels_of(input@) > 0
                && KERNEL > 0) ==> KERNEL <= 2 * PADDING + 1,
            (input@.len() > 0 && width_of(input@) > 0 && height_of(input@) > 0 && KERNEL > 0 && FILTER > 0)
                ==> channels_of(input@) <= CH,
            width_of(input@) + 2 * PADDING <= usize::MAX,
            height_of(input@) + 2 * PADDING <= usize::MAX,
            KERNEL * KERNEL <= usize::MAX,
        ensures
            rect4(r@, input@.len() as int, width_of(input@), height_of(input@), FILTER as int),
            exact_ops::<T>() && ordered::<T>() ==> forall|b: int, w: int, h: int, f: int|
                0 <= b < input@.len() && 0 <= w < width_of(input@) && 0 <= h < height_of(input@) && 0 <= f
                    < FILTER ==> #[trigger] r@[b]@[w]@[h]@[f] == self.conv_cell(
                    input@[b]@,
                    height_of(input@),
                    channels_of(input@),
                    w,
                    h,
                    f,
                    zero,
                ),
    {
        let (batches, width, height, channels) = dims(input);
        let mut r: Data2D<T> = Vec::new();
        let mut b: usize = 0;
        while b < batches
            invariant
                self.wf(),
                is_data2d(input@),
                total_ops::<T>(),
                batches == input@.len(),
                width == width_of(input@),
                height == height_of(input@),
                channels == channels_of(input@),
                (batches > 0 && width > 0 && height > 0 && channels > 0 && KERNEL > 0) ==> KERNEL <= 2 * PADDING + 1,
                (batches > 0 && width > 0 && height > 0 && KERNEL > 0 && FILTER > 0) ==> channels <= CH,
                width + 2 * PADDING <= usize::MAX,
                height + 2 * PADDING <= usize::MAX,
                KERNEL * KERNEL <= usize::MAX,
                b <= batches,
                rect4(r@, b as int, width as int, height as int, FILTER as int),
                exact_ops::<T>() && ordered::<T>() ==> forall|bb: int, w: int, h: int, f: int|
                    0 <= bb < b && 0 <= w < width && 0 <= h < height && 0 <= f < FILTER ==> #[trigger] r@[bb]@[w]@[h]@[f]
                        == self.conv_cell(input@[bb]@, height as int, channels as int, w, h, f, zero),
            decreases batches - b,
        {
            assert(rect3(input@[b as int]@, width as int, height as int, channels as int));
            let img = self.conv_image(&input[b], height, channels, zero);
            let ghost prev = r@;
            r.push(img);
            proof {
                if exact_ops::<T>() && ordered::<T>() {
                    assert forall|bb: int, w: int, h: int, f: int|
                        0 <= bb < b + 1 && 0 <= w < width && 0 <= h < height && 0 <= f < FILTER implies #[trigger] r@[bb]@[w]@[h]@[f]
                            == self.conv_cell(input@[bb]@, height as int, channels as int, w, h, f, zero) by {
                        if bb < b {
                            assert(r@[bb] == prev[bb]);
                        }
                    }
                }
            }
            b = b + 1;
        }
        r
    }
}

/// For `0 <= i < k * k`, both `i % k` and `i / k` lie in `0 .. k`.
proof fn lemma_div_mod_bounds(i: int, k: int)
    requires
        0 <= i < k * k,
        0 <= k,
    ensures
        0 <= i % k < k,
        0 <= i / k < k,
{
    assert(k > 0) by (nonlinear_arith)
        requires
            0 <= i < k * k,
            0 <= k,
    ;
    vstd::arithmetic::div_mod::lemma_div_pos_is_pos(i, k);
    vstd::arithmetic::div_mod::lemma_multiply_divide_lt(i, k, k);
    vstd::arithmetic::div_mod::lemma_mod_bound(i, k);
}

} // verus!
