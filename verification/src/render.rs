//! The render driver: one colour for every pixel of the raster.

use vstd::prelude::*;
use crate::colour::Colour;
use crate::pixels::{has_shape, make_pixels, rows, Pixel};

verus! {

/// `buf` is a rendering of a raster of the given size by `do_trace`: it has
/// `height` rows of `width` colours, and the colour in column `x` of row `y`
/// is one that `do_trace` gives for the pixel `(x, y)`.
pub open spec fn is_rendering<F: Fn(Pixel) -> Colour>(
    width: nat,
    height: nat,
    do_trace: F,
    buf: Seq<Seq<Colour>>,
) -> bool {
    &&& has_shape(buf, width, height)
    &&& forall|y: int, x: int|
        0 <= y < height && 0 <= x < width ==> call_ensures(
            do_trace,
            (Pixel { x: x as usize, y: y as usize },),
            #[trigger] buf[y][x],
        )
}

/// `do_trace` gives one colour for each pixel, and no other.
pub open spec fn is_deterministic<F: Fn(Pixel) -> Colour>(do_trace: F) -> bool {
    forall|p: Pixel, c1: Colour, c2: Colour|
        #![trigger call_ensures(do_trace, (p,), c1), call_ensures(do_trace, (p,), c2)]
        call_ensures(do_trace, (p,), c1) && call_ensures(do_trace, (p,), c2) ==> c1 == c2
}

/// Evaluates one row of the raster.
fn render_row<F: Fn(Pixel) -> Colour>(row: &Vec<Pixel>, do_trace: &F) -> (colours: Vec<Colour>)
    requires
        forall|x: int| 0 <= x < row.len() ==> call_requires(*do_trace, (#[trigger] row[x],)),
    ensures
        colours.len() == row.len(),
        forall|x: int|
            0 <= x < row.len() ==> call_ensures(*do_trace, (row[x],), #[trigger] colours[x]),
{
    let mut colours: Vec<Colour> = Vec::new();
    let mut x: usize = 0;
    while x < row.len()
        invariant
            x <= row.len(),
            colours.len() == x,
            forall|i: int| 0 <= i < row.len() ==> call_requires(*do_trace, (#[trigger] row[i],)),
            forall|i: int| 0 <= i < x ==> call_ensures(*do_trace, (row[i],), #[trigger] colours[i]),
        decreases row.len() - x,
    {
        let c: Colour = do_trace(row[x]);
        colours.push(c);
        x = x + 1;
    }
    colours
}

/// Renders a raster `width` pixels wide and `height` pixels high: calls
/// `do_trace` once for every pixel of the grid and stores what it returns at
/// the pixel's place, row `y` first, then column `x`.
pub fn render<F: Fn(Pixel) -> Colour>(width: usize, height: usize, do_trace: F) -> (buf: Vec<
    Vec<Colour>,
>)
    requires
        forall|p: Pixel| p.x < width && p.y < height ==> #[trigger] call_requires(do_trace, (p,)),
    ensures
        is_rendering(width as nat, height as nat, do_trace, rows(buf@)),
        buf.len() == height,
        forall|y: int| 0 <= y < height ==> (#[trigger] buf[y]).len() == width,
        forall|y: int, x: int|
            0 <= y < height && 0 <= x < width ==> call_ensures(
                do_trace,
                (Pixel { x: x as usize, y: y as usize },),
                #[trigger] buf[y][x],
            ),
{
    let grid: Vec<Vec<Pixel>> = make_pixels(width, height);
    let mut buf: Vec<Vec<Colour>> = Vec::new();
    let mut y: usize = 0;
    while y < height
        invariant
            y <= height,
            buf.len() == y,
            grid.len() == height,
            forall|p: Pixel| p.x < width && p.y < height ==> #[trigger] call_requires(do_trace, (p,)),
            forall|j: int| 0 <= j < height ==> (#[trigger] grid[j]).len() == width,
            forall|j: int, x: int|
                0 <= j < height && 0 <= x < width ==> #[trigger] grid[j][x] == (Pixel {
                    x: x as usize,
                    y: j as usize,
                }),
            forall|j: int| 0 <= j < y ==> (#[trigger] buf[j]).len() == width,
            forall|j: int, x: int|
                0 <= j < y && 0 <= x < width ==> call_ensures(
                    do_trace,
                    (Pixel { x: x as usize, y: j as usize },),
                    #[trigger] buf[j][x],
                ),
        decreases height - y,
    {
        assert forall|x: int| 0 <= x < grid[y as int].len() implies call_requires(
            do_trace,
            (#[trigger] grid[y as int][x],),
        ) by {
            assert(grid[y as int][x] == (Pixel { x: x as usize, y: y }));
        }
        let colours: Vec<Colour> = render_row(&grid[y], &do_trace);
        assert forall|x: int| 0 <= x < width implies call_ensures(
            do_trace,
            (Pixel { x: x as usize, y: y },),
            #[trigger] colours[x],
        ) by {
            assert(grid[y as int][x] == (Pixel { x: x as usize, y: y }));
        }
        buf.push(colours);
        y = y + 1;
    }
    buf
}

/// Rendering is deterministic: where `do_trace` gives one colour for each
/// pixel, any two renderings of the same raster are the same buffer, in
/// whatever order the pixels were evaluated.
pub proof fn lemma_render_deterministic<F: Fn(Pixel) -> Colour>(
    width: nat,
    height: nat,
    do_trace: F,
    a: Seq<Seq<Colour>>,
    b: Seq<Seq<Colour>>,
)
    requires
        is_rendering(width, height, do_trace, a),
        is_rendering(width, height, do_trace, b),
        is_deterministic(do_trace),
    ensures
        a == b,
{
    assert forall|y: int| 0 <= y < height implies a[y] == b[y] by {
        assert forall|x: int| 0 <= x < width implies a[y][x] == b[y][x] by {
            let p = Pixel { x: x as usize, y: y as usize };
            assert(call_ensures(do_trace, (p,), a[y][x]));
            assert(call_ensures(do_trace, (p,), b[y][x]));
        }
        assert(a[y] =~= b[y]);
    }
    assert(a =~= b);
}

} // verus!
