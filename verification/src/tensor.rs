//! Nested vectors as rectangular tensors, and their dimensions.
use vstd::prelude::*;

verus! {

/// A batch of images: `data[batch][width][height][channel]`.
pub type Data2D<T> = Vec<Vec<Vec<Vec<T>>>>;

/// `m` has `rows` rows of `cols` elements each.
pub open spec fn rect2<T>(m: Seq<Vec<T>>, rows: int, cols: int) -> bool {
    &&& m.len() == rows
    &&& forall|i: int| 0 <= i < rows ==> #[trigger] m[i].len() == cols
}

/// `x` is a `d0 x d1 x d2` block.
pub open spec fn rect3<T>(x: Seq<Vec<Vec<T>>>, d0: int, d1: int, d2: int) -> bool {
    &&& x.len() == d0
    &&& forall|i: int| 0 <= i < d0 ==> rect2(#[trigger] x[i]@, d1, d2)
}

/// `x` is a `d0 x d1 x d2 x d3` block.
pub open spec fn rect4<T>(x: Seq<Vec<Vec<Vec<T>>>>, d0: int, d1: int, d2: int, d3: int) -> bool {
    &&& x.len() == d0
    &&& forall|i: int| 0 <= i < d0 ==> rect3(#[trigger] x[i]@, d1, d2, d3)
}

/// The width of a batch: the length of its first image, or 0.
pub open spec fn width_of<T>(x: Seq<Vec<Vec<Vec<T>>>>) -> int {
    if x.len() > 0 {
        x[0].len() as int
    } else {
        0
    }
}

/// The height of a batch: the length of its first column, or 0.
pub open spec fn height_of<T>(x: Seq<Vec<Vec<Vec<T>>>>) -> int {
    if x.len() > 0 && x[0].len() > 0 {
        x[0][0].len() as int
    } else {
        0
    }
}

/// The channel count of a batch: the length of its first pixel, or 0.
pub open spec fn channels_of<T>(x: Seq<Vec<Vec<Vec<T>>>>) -> int {
    if x.len() > 0 && x[0].len() > 0 && x[0][0].len() > 0 {
        x[0][0][0].len() as int
    } else {
        0
    }
}

/// `x` is rectangular: every image, column and pixel has the length of the
/// first one.
pub open spec fn is_data2d<T>(x: Seq<Vec<Vec<Vec<T>>>>) -> bool {
    rect4(x, x.len() as int, width_of(x), height_of(x), channels_of(x))
}

/// The dimensions `(batch, width, height, channel)` of a rectangular batch.
pub fn dims<T>(x: &Data2D<T>) -> (r: (usize, usize, usize, usize))
    requires
        is_data2d(x@),
    ensures
        r.0 == x@.len(),
        r.1 == width_of(x@),
        r.2 == height_of(x@),
        r.3 == channels_of(x@),
{
    let b = x.len();
    let w = if b > 0 {
        x[0].len()
    } else {
        0
    };
    let h = if b > 0 && w > 0 {
        x[0][0].len()
    } else {
        0
    };
    let c = if b > 0 && w > 0 && h > 0 {
        x[0][0][0].len()
    } else {
        0
    };
    (b, w, h, c)
}

} // verus!
