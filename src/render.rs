use vstd::prelude::*;
use crate::geometry::Point;
use crate::game::{SnakeGameField, in_grid};

verus! {

/// One of the pre-built primitives: the field boundary, or the cell with the
/// given row-major index.
#[derive(Clone, Copy, Debug, PartialEq, Eq, Structural)]
pub enum Primitive {
    Boundary,
    Cell(usize),
}

/// The colour a primitive is drawn with.
#[derive(Clone, Copy, Debug, PartialEq, Eq, Structural)]
pub enum DrawColor {
    /// The field background.
    Square,
    Fruit,
    SnakePart,
}

/// One draw call: a primitive and the colour it is drawn with.
#[derive(Clone, Copy, Debug, PartialEq, Eq, Structural)]
pub struct DrawCommand {
    pub primitive: Primitive,
    pub color: DrawColor,
}

/// The row-major index of the cell at column `x`, row `y` of a grid
/// `size_x` cells wide.
pub open spec fn grid_index(x: int, y: int, size_x: int) -> int {
    x + y * size_x
}

/// The command that draws the cell of `p` in `color`.
pub open spec fn cell_command(p: Point, size_x: int, color: DrawColor) -> DrawCommand {
    DrawCommand {
        primitive: Primitive::Cell(grid_index(p.x as int, p.y as int, size_x) as usize),
        color,
    }
}

/// What one frame draws, in order: the boundary, the fruit unless the head
/// covers it, the head, then each body segment.
pub open spec fn frame_commands(field: SnakeGameField) -> Seq<DrawCommand> {
    let size_x = field.size_x as int;
    let boundary = seq![DrawCommand { primitive: Primitive::Boundary, color: DrawColor::Square }];
    let fruit = if field.fruit.0 != field.snake.head {
        seq![cell_command(field.fruit.0, size_x, DrawColor::Fruit)]
    } else {
        Seq::empty()
    };
    let head = seq![cell_command(field.snake.head, size_x, DrawColor::SnakePart)];
    let body = field.snake.tail@.map_values(|p: Point| cell_command(p, size_x, DrawColor::SnakePart));
    boundary + fruit + head + body
}

/// A cell of the grid has a row-major index below the number of cells.
pub proof fn lemma_grid_index_bounds(x: int, y: int, size_x: int, size_y: int)
    requires
        0 <= x < size_x,
        0 <= y < size_y,
    ensures
        0 <= grid_index(x, y, size_x) < size_x * size_y,
{
    assert(0 <= x + y * size_x < size_x * size_y) by (nonlinear_arith)
        requires
            0 <= x < size_x,
            0 <= y < size_y,
    ;
}

/// The row-major index of `p`.
pub fn cell_index(p: Point, size_x: i32, size_y: i32) -> (r: usize)
    requires
        in_grid(p, size_x as int, size_y as int),
        size_x * size_y <= i32::MAX,
    ensures
        r == grid_index(p.x as int, p.y as int, size_x as int),
        r < size_x * size_y,
{
    proof {
        lemma_grid_index_bounds(p.x as int, p.y as int, size_x as int, size_y as int);
    }
    (p.x + p.y * size_x) as usize
}

/// The draw commands of one frame of `field`.
pub fn frame_draw_commands(field: &SnakeGameField) -> (r: Vec<DrawCommand>)
    requires
        field.wf(),
    ensures
        r@ == frame_commands(*field),
{
    let size_x = field.size_x;
    let size_y = field.size_y;
    let mut commands: Vec<DrawCommand> = Vec::new();
    commands.push(DrawCommand { primitive: Primitive::Boundary, color: DrawColor::Square });
    let fruit = field.fruit.0;
    let head = field.snake.head;
    if fruit != head {
        commands.push(
            DrawCommand {
                primitive: Primitive::Cell(cell_index(fruit, size_x, size_y)),
                color: DrawColor::Fruit,
            },
        );
    }
    commands.push(
        DrawCommand {
            primitive: Primitive::Cell(cell_index(head, size_x, size_y)),
            color: DrawColor::SnakePart,
        },
    );
    let ghost prefix = commands@;
    let ghost body = field.snake.tail@.map_values(
        |p: Point| cell_command(p, size_x as int, DrawColor::SnakePart),
    );
    let n = field.snake.tail.len();
    let mut i: usize = 0;
    while i < n
        invariant
            field.wf(),
            size_x == field.size_x,
            size_y == field.size_y,
            n == field.snake.tail@.len(),
            body.len() == n,
            body == field.snake.tail@.map_values(
                |p: Point| cell_command(p, size_x as int, DrawColor::SnakePart),
            ),
            i <= n,
            commands@ == prefix + body.subrange(0, i as int),
        decreases n - i,
    {
        let part = field.snake.tail[i];
        assert(in_grid(field.snake.tail@[i as int], size_x as int, size_y as int));
        commands.push(
            DrawCommand {
                primitive: Primitive::Cell(cell_index(part, size_x, size_y)),
                color: DrawColor::SnakePart,
            },
        );
        assert(body.subrange(0, i as int + 1) =~= body.subrange(0, i as int).push(body[i as int]));
        i += 1;
    }
    assert(body.subrange(0, n as int) =~= body);
    commands
}

} // verus!
