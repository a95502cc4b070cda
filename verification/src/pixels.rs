//! The pixel grid of a raster: every coordinate pair, once, row by row.

use vstd::prelude::*;

verus! {

/// A place in the raster: column `x`, counted from the left, and row `y`,
/// counted from the first row.
#[derive(Clone, Copy, Debug, PartialEq, Eq, Structural)]
pub struct Pixel {
    pub x: usize,
    pub y: usize,
}

/// The rows of a raster that is stored as a vector of vectors.
pub open spec fn rows<T>(raster: Seq<Vec<T>>) -> Seq<Seq<T>> {
    raster.map_values(|row: Vec<T>| row@)
}

/// The raster has `h` rows of `w` entries each.
pub open spec fn has_shape<T>(raster: Seq<Seq<T>>, w: nat, h: nat) -> bool {
    &&& raster.len() == h
    &&& forall|y: int| 0 <= y < h ==> (#[trigger] raster[y]).len() == w
}

/// The grid of a raster `w` pixels wide and `h` pixels high: `h` rows of `w`
/// pixels, the pixel in column `x` of row `y` being `(x, y)`.
pub open spec fn pixel_grid(w: nat, h: nat) -> Seq<Seq<Pixel>> {
    Seq::new(h, |y: int| Seq::new(w, |x: int| Pixel { x: x as usize, y: y as usize }))
}

/// One row of the grid.
fn make_row(w: usize, y: usize) -> (row: Vec<Pixel>)
    ensures
        row@ == Seq::new(w as nat, |x: int| Pixel { x: x as usize, y }),
{
    let mut row: Vec<Pixel> = Vec::new();
    let mut x: usize = 0;
    while x < w
        invariant
            x <= w,
            row@ == Seq::new(x as nat, |i: int| Pixel { x: i as usize, y }),
        decreases w - x,
    {
        row.push(Pixel { x, y });
        x = x + 1;
    }
    row
}

/// Lists the coordinates of all pixels of a raster, row by row.
///
/// With `w` zero every row is empty; with `h` zero there is no row.
pub fn make_pixels(w: usize, h: usize) -> (grid: Vec<Vec<Pixel>>)
    ensures
        rows(grid@) == pixel_grid(w as nat, h as nat),
        grid.len() == h,
        forall|y: int| 0 <= y < h ==> (#[trigger] grid[y]).len() == w,
        forall|y: int, x: int|
            0 <= y < h && 0 <= x < w ==> #[trigger] grid[y][x] == (Pixel {
                x: x as usize,
                y: y as usize,
            }),
{
    let mut grid: Vec<Vec<Pixel>> = Vec::new();
    let mut y: usize = 0;
    while y < h
        invariant
            y <= h,
            grid.len() == y,
            forall|j: int|
                0 <= j < y ==> (#[trigger] grid[j])@ == Seq::new(
                    w as nat,
                    |x: int| Pixel { x: x as usize, y: j as usize },
                ),
        decreases h - y,
    {
        let row: Vec<Pixel> = make_row(w, y);
        grid.push(row);
        y = y + 1;
    }
    assert(rows(grid@) =~~= pixel_grid(w as nat, h as nat));
    grid
}

} // verus!
