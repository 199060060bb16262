//! The picture: a grid of pixels, computed one scanline per parallel task.
//!
//! A pixel is addressed by its column `x`, counted from the left, and its
//! scanline `y`, counted from the bottom. The grid is stored as rows from
//! top to bottom, so the first row is the scanline with the highest `y`.

use rayon::iter::IndexedParallelIterator;
use rayon::iter::IntoParallelIterator;
use rayon::iter::ParallelIterator;
use vstd::prelude::*;

verus! {

/// A picture: rows of pixels, the top row first, every row as long as the
/// picture is wide.
#[derive(Debug)]
pub struct Image<T> {
    rows: Vec<Vec<T>>,
    width: usize,
}

/// The scanline that is stored as row `row` of a picture `ny` rows high.
pub open spec fn scanline_of_row(ny: usize, row: int) -> usize {
    (ny - 1 - row) as usize
}

/// `pixels` is scanline `y` of a picture `nx` pixels wide that `f` shades:
/// it has `nx` pixels, and the pixel in column `x` is a value that `f` gives
/// for `(x, y)`.
pub open spec fn is_scanline<T, F: Fn(usize, usize) -> T>(
    f: F,
    nx: usize,
    y: usize,
    pixels: Seq<T>,
) -> bool {
    &&& pixels.len() == nx
    &&& forall|x: int| 0 <= x < nx ==> f.ensures((x as usize, y), #[trigger] pixels[x])
}

impl<T> View for Image<T> {
    type V = Seq<Seq<T>>;

    /// The rows from top to bottom, each from left to right.
    closed spec fn view(&self) -> Seq<Seq<T>> {
        Seq::new(self.rows@.len(), |row: int| self.rows@[row]@)
    }
}

impl<T> Image<T> {
    #[verifier::type_invariant]
    spec fn rectangular(self) -> bool {
        forall|row: int|
            0 <= row < self.rows@.len() ==> (#[trigger] self.rows@[row])@.len() == self.width
    }

    /// The number of pixels in a row.
    pub closed spec fn columns(&self) -> nat {
        self.width as nat
    }

    /// The picture has `ny` rows of `nx` pixels each.
    pub open spec fn has_shape(&self, nx: nat, ny: nat) -> bool {
        &&& self.columns() == nx
        &&& self@.len() == ny
        &&& forall|row: int| 0 <= row < ny ==> (#[trigger] self@[row]).len() == nx
    }

    /// The pixel in row `row`, counted from the top, and column `x`.
    pub open spec fn pixel(&self, row: int, x: int) -> T {
        self@[row][x]
    }

    /// The number of pixels in a row. Every row has that many.
    pub fn width(&self) -> (nx: usize)
        ensures
            nx == self.columns(),
            self.has_shape(self.columns(), self@.len()),
    {
        proof {
            use_type_invariant(self);
        }
        self.width
    }

    /// The number of rows.
    pub fn height(&self) -> (ny: usize)
        ensures
            ny == self@.len(),
    {
        self.rows.len()
    }

    /// The pixel in row `row`, counted from the top, and column `x`, or
    /// `None` where the picture has no such pixel.
    pub fn get(&self, row: usize, x: usize) -> (found: Option<&T>)
        ensures
            row < self@.len() && x < self.columns() ==> found == Some(
                &self.pixel(row as int, x as int),
            ),
            !(row < self@.len() && x < self.columns()) ==> found is None,
    {
        proof {
            use_type_invariant(self);
        }
        if row < self.rows.len() && x < self.width {
            Some(&self.rows[row][x])
        } else {
            None
        }
    }

    /// The rows from top to bottom.
    pub fn rows(&self) -> (rows: &Vec<Vec<T>>)
        ensures
            rows@.len() == self@.len(),
            forall|row: int| 0 <= row < rows@.len() ==> (#[trigger] rows@[row])@ == self@[row],
            self.has_shape(self.columns(), self@.len()),
    {
        proof {
            use_type_invariant(self);
        }
        &self.rows
    }

    /// The rows from top to bottom, taken out of the picture.
    pub fn into_rows(self) -> (rows: Vec<Vec<T>>)
        ensures
            rows@.len() == self@.len(),
            forall|row: int| 0 <= row < rows@.len() ==> (#[trigger] rows@[row])@ == self@[row],
            self.has_shape(self.columns(), self@.len()),
    {
        proof {
            use_type_invariant(&self);
        }
        self.rows
    }
}

/// Shades one scanline from left to right.
pub fn scanline<T, F: Fn(usize, usize) -> T>(nx: usize, y: usize, f: &F) -> (pixels: Vec<T>)
    requires
        forall|x: usize| x < nx ==> f.requires((x, y)),
    ensures
        is_scanline(*f, nx, y, pixels@),
{
    let mut pixels: Vec<T> = Vec::new();
    let mut x: usize = 0;
    while x < nx
        invariant
            x <= nx,
            pixels@.len() == x,
            forall|i: usize| i < nx ==> f.requires((i, y)),
            forall|i: int| 0 <= i < x ==> f.ensures((i as usize, y), #[trigger] pixels@[i]),
        decreases nx - x,
    {
        pixels.push(f(x, y));
        x += 1;
    }
    pixels
}

/// Shades the scanlines `ny - 1` down to `0` on rayon's thread pool and
/// gathers them in that order.
///
/// This is rayon's `into_par_iter` on the range `0..ny`, followed by `rev`,
/// `map` and `collect`. The contract claims what rayon documents of an
/// indexed parallel iterator: `rev` reverses the order of the items, `map`
/// applies its function to each item, and `collect` into a `Vec` keeps the
/// items in the iterator's order. Each row is a result of [`scanline`].
#[verifier::external_body]
fn scanlines_top_down<T: Send, F: Fn(usize, usize) -> T + Sync>(
    nx: usize,
    ny: usize,
    f: &F,
) -> (rows: Vec<Vec<T>>)
    requires
        forall|x: usize, y: usize| x < nx && y < ny ==> f.requires((x, y)),
    ensures
        rows@.len() == ny,
        forall|row: int|
            0 <= row < ny ==> is_scanline(
                *f,
                nx,
                scanline_of_row(ny, row),
                (#[trigger] rows@[row])@,
            ),
{
    (0..ny).into_par_iter().rev().map(|y| scanline(nx, y, f)).collect()
}

impl<T: Send> Image<T> {
    /// Computes a picture `nx` pixels wide and `ny` pixels high, whose pixel
    /// in column `x` of scanline `y` is `f(x, y)`.
    ///
    /// The scanlines are shaded in parallel, each from left to right. The
    /// rows of the result run from the top scanline, `ny - 1`, down to
    /// scanline `0`, whatever the order in which the scanlines were
    /// finished.
    pub fn compute<F: Fn(usize, usize) -> T + Sync>(nx: usize, ny: usize, f: F) -> (image: Image<
        T,
    >)
        requires
            forall|x: usize, y: usize| x < nx && y < ny ==> f.requires((x, y)),
        ensures
            image.has_shape(nx as nat, ny as nat),
            forall|row: int, x: int|
                0 <= row < ny && 0 <= x < nx ==> f.ensures(
                    (x as usize, scanline_of_row(ny, row)),
                    #[trigger] image.pixel(row, x),
                ),
    {
        let rows = scanlines_top_down(nx, ny, &f);
        Image { rows, width: nx }
    }
}

} // verus!
