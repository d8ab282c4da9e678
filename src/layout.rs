use vstd::prelude::*;
use crate::geometry::Point;
use crate::render::grid_index;

verus! {

/// The four corners of an axis-aligned rectangle in pixels (y grows
/// downwards): `b` top left, `c` top right, `a` bottom left, `d` bottom right.
/// Vertex data lists them in the order b, c, a, d.
#[derive(Clone, Copy, Debug, PartialEq, Eq, Structural)]
pub struct Quad {
    pub b: Point,
    pub c: Point,
    pub a: Point,
    pub d: Point,
}

/// The rectangle with top-left corner `(left, top)`, `width` wide and
/// `height` high.
pub open spec fn rect(left: int, top: int, width: int, height: int) -> Quad {
    Quad {
        b: Point { x: left as i32, y: top as i32 },
        c: Point { x: (left + width) as i32, y: top as i32 },
        a: Point { x: left as i32, y: (top + height) as i32 },
        d: Point { x: (left + width) as i32, y: (top + height) as i32 },
    }
}

/// The length in pixels of a line of `cells` cells of side `cell_size` with
/// a gutter of `cell_offset` between neighbours.
pub open spec fn extent(cells: int, cell_size: int, cell_offset: int) -> int {
    cells * cell_size + (cells - 1) * cell_offset
}

/// The square of the cell at column `i`, row `j`.
pub open spec fn cell_quad(i: int, j: int, cell_size: int, cell_offset: int) -> Quad {
    rect(i * (cell_size + cell_offset), j * (cell_size + cell_offset), cell_size, cell_size)
}

/// Whether a `size_x` by `size_y` grid with these cell sizes can be laid out
/// in `i32` pixel coordinates, with one quad per cell in a `Vec`.
pub open spec fn layout_fits(size_x: int, size_y: int, cell_size: int, cell_offset: int) -> bool {
    &&& 1 <= size_x
    &&& 1 <= size_y
    &&& 1 <= cell_size
    &&& 0 <= cell_offset
    &&& size_x * size_y <= i32::MAX
    &&& size_x * (cell_size + cell_offset) <= i32::MAX
    &&& size_y * (cell_size + cell_offset) <= i32::MAX
}

/// The pixel length of a line of `cells` cells.
pub fn field_extent(cells: i32, cell_size: i32, cell_offset: i32) -> (r: i32)
    requires
        1 <= cells,
        1 <= cell_size,
        0 <= cell_offset,
        cells * (cell_size + cell_offset) <= i32::MAX,
    ensures
        r == extent(cells as int, cell_size as int, cell_offset as int),
{
    proof {
        assert(cells * cell_size + (cells - 1) * cell_offset == cells * (cell_size + cell_offset)
            - cell_offset) by (nonlinear_arith);
        assert(0 <= (cells - 1) * cell_offset) by (nonlinear_arith)
            requires
                1 <= cells,
                0 <= cell_offset,
        ;
        assert(0 <= cells * cell_size) by (nonlinear_arith)
            requires
                1 <= cells,
                1 <= cell_size,
        ;
    }
    cells * cell_size + (cells - 1) * cell_offset
}

/// Corner positions in pixels of the field boundary and of every cell, the
/// cells in row-major order: the cell at column `i`, row `j` has index
/// `i + j * size_x`.
pub fn gen_layout(size_x: i32, size_y: i32, cell_size: i32, cell_offset: i32) -> (r: (
    Quad,
    Vec<Quad>,
))
    requires
        layout_fits(size_x as int, size_y as int, cell_size as int, cell_offset as int),
    ensures
        r.0 == rect(
            0,
            0,
            extent(size_x as int, cell_size as int, cell_offset as int),
            extent(size_y as int, cell_size as int, cell_offset as int),
        ),
        r.1@.len() == size_x * size_y,
        forall|i: int, j: int|
            0 <= i < size_x && 0 <= j < size_y ==> #[trigger] r.1@[grid_index(i, j, size_x as int)]
                == cell_quad(i, j, cell_size as int, cell_offset as int),
{
    let width = field_extent(size_x, cell_size, cell_offset);
    let height = field_extent(size_y, cell_size, cell_offset);
    let boundary = Quad {
        b: Point::new(0, 0),
        c: Point::new(width, 0),
        a: Point::new(0, height),
        d: Point::new(width, height),
    };
    proof {
        assert(cell_size + cell_offset <= size_x * (cell_size + cell_offset)) by (nonlinear_arith)
            requires
                1 <= size_x,
                0 <= cell_size + cell_offset,
        ;
    }
    let stride = cell_size + cell_offset;
    let ghost sx = size_x as int;
    let ghost cs = cell_size as int;
    let ghost co = cell_offset as int;
    let mut cells: Vec<Quad> = Vec::new();
    let mut j: i32 = 0;
    while j < size_y
        invariant
            layout_fits(sx, size_y as int, cs, co),
            sx == size_x,
            cs == cell_size,
            co == cell_offset,
            stride == cs + co,
            0 <= j <= size_y,
            cells@.len() == j * sx,
            forall|k: int| 0 <= k < cells@.len() ==> #[trigger] cells@[k] == cell_quad(k % sx, k / sx, cs, co),
        decreases size_y - j,
    {
        let mut i: i32 = 0;
        while i < size_x
            invariant
                layout_fits(sx, size_y as int, cs, co),
                sx == size_x,
                cs == cell_size,
                co == cell_offset,
                stride == cs + co,
                0 <= j < size_y,
                0 <= i <= size_x,
                cells@.len() == j * sx + i,
                forall|k: int|
                    0 <= k < cells@.len() ==> #[trigger] cells@[k] == cell_quad(k % sx, k / sx, cs, co),
            decreases size_x - i,
        {
            proof {
                assert(0 <= i * stride <= size_x * stride) by (nonlinear_arith)
                    requires
                        0 <= i <= size_x,
                        0 <= stride,
                ;
                assert(0 <= j * stride <= size_y * stride) by (nonlinear_arith)
                    requires
                        0 <= j <= size_y,
                        0 <= stride,
                ;
                assert((i + 1) * stride <= size_x * stride) by (nonlinear_arith)
                    requires
                        0 <= i < size_x,
                        0 <= stride,
                ;
                assert((i + 1) * stride == i * stride + stride) by (nonlinear_arith);
                assert((j + 1) * stride <= size_y * stride) by (nonlinear_arith)
                    requires
                        0 <= j < size_y,
                        0 <= stride,
                ;
                assert((j + 1) * stride == j * stride + stride) by (nonlinear_arith);
            }
            let left = i * stride;
            let top = j * stride;
            let ghost k = cells@.len() as int;
            cells.push(
                Quad {
                    b: Point::new(left, top),
                    c: Point::new(left + cell_size, top),
                    a: Point::new(left, top + cell_size),
                    d: Point::new(left + cell_size, top + cell_size),
                },
            );
            proof {
                vstd::arithmetic::div_mod::lemma_fundamental_div_mod_converse(
                    k,
                    sx,
                    j as int,
                    i as int,
                );
                assert(k == j * sx + i);
            }
            i += 1;
        }
        proof {
            assert(j * sx + sx == (j + 1) * sx) by (nonlinear_arith);
        }
        j += 1;
    }
    proof {
        assert(size_y * sx == sx * size_y) by (nonlinear_arith);
        assert forall|i: int, j: int| 0 <= i < size_x && 0 <= j < size_y implies #[trigger] cells@[grid_index(
            i,
            j,
            sx,
        )] == cell_quad(i, j, cs, co) by {
            let k = grid_index(i, j, sx);
            assert(k == j * sx + i) by (nonlinear_arith)
                requires
                    k == i + j * sx,
            ;
            assert(0 <= k < sx * size_y) by (nonlinear_arith)
                requires
                    k == j * sx + i,
                    0 <= i < sx,
                    0 <= j < size_y,
            ;
            vstd::arithmetic::div_mod::lemma_fundamental_div_mod_converse(k, sx, j, i);
        }
    }
    (boundary, cells)
}

} // verus!
