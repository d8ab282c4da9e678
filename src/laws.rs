use vstd::prelude::*;
use vstd::arithmetic::div_mod::{lemma_fundamental_div_mod, lemma_fundamental_div_mod_converse};
use vstd::set_lib::{set_int_range, lemma_int_range, lemma_len_subset};
use crate::geometry::{Point, SnakeDirection, opposite, delta_x, delta_y};
use crate::game::{SnakeGameField, in_grid, next_head, advanced_tail, turned};
use crate::render::{grid_index, lemma_grid_index_bounds};

verus! {

/// A tick moves the head exactly one cell in its direction, modulo the grid:
/// leaving the grid on one side re-enters it on the other.
pub proof fn lemma_head_moves_one_cell(head: Point, d: SnakeDirection, size_x: int, size_y: int)
    requires
        1 <= size_x <= i32::MAX,
        1 <= size_y <= i32::MAX,
        in_grid(head, size_x, size_y),
    ensures
        in_grid(next_head(head, d, size_x, size_y), size_x, size_y),
        next_head(head, d, size_x, size_y).x == (head.x + delta_x(d)) % size_x,
        next_head(head, d, size_x, size_y).y == (head.y + delta_y(d)) % size_y,
        d == SnakeDirection::Left && head.x == 0 ==> next_head(head, d, size_x, size_y).x == size_x
            - 1,
        d == SnakeDirection::Right && head.x == size_x - 1 ==> next_head(head, d, size_x, size_y).x
            == 0,
        d == SnakeDirection::Up && head.y == 0 ==> next_head(head, d, size_x, size_y).y == size_y
            - 1,
        d == SnakeDirection::Down && head.y == size_y - 1 ==> next_head(head, d, size_x, size_y).y
            == 0,
{
    lemma_wrap_is_mod(head.x + delta_x(d), size_x);
    lemma_wrap_is_mod(head.y + delta_y(d), size_y);
}

/// Moving one cell and wrapping is taking the coordinate modulo the size.
proof fn lemma_wrap_is_mod(v: int, size: int)
    requires
        1 <= size,
        -1 <= v <= size,
    ensures
        (if v == size {
            0
        } else if v == -1 {
            size - 1
        } else {
            v
        }) == v % size,
{
    if v == size {
        lemma_fundamental_div_mod_converse(v, size, 1, 0);
    } else if v == -1 {
        lemma_fundamental_div_mod_converse(v, size, -1, size - 1);
    } else {
        lemma_fundamental_div_mod_converse(v, size, 0, v);
    }
}

/// A tick adds one body segment when the snake grows and keeps the length
/// otherwise.
pub proof fn lemma_tail_length(old_head: Point, tail: Seq<Point>, grow: bool)
    ensures
        advanced_tail(old_head, tail, grow).len() == tail.len() + (if grow {
            1int
        } else {
            0int
        }),
{
}

/// A playable field never holds more body segments than the grid has cells
/// besides the head's.
pub proof fn lemma_playable_body_bound(field: SnakeGameField)
    requires
        field.playable(),
    ensures
        field.snake.tail@.len() + 1 <= field.size_x * field.size_y,
{
    let occupied = seq![field.snake.head] + field.snake.tail@;
    assert forall|i: int, j: int|
        0 <= i < occupied.len() && 0 <= j < occupied.len() && i != j implies occupied[i]
        != occupied[j] by {
        if i == 0 {
            assert(field.snake.tail@[j - 1] == occupied[j]);
        } else if j == 0 {
            assert(field.snake.tail@[i - 1] == occupied[i]);
        } else {
            assert(occupied[i] == field.snake.tail@[i - 1]);
            assert(occupied[j] == field.snake.tail@[j - 1]);
        }
    }
    assert forall|i: int| 0 <= i < occupied.len() implies in_grid(
        #[trigger] occupied[i],
        field.size_x as int,
        field.size_y as int,
    ) by {
        if i > 0 {
            assert(occupied[i] == field.snake.tail@[i - 1]);
        }
    }
    lemma_distinct_cells_fit(occupied, field.size_x as int, field.size_y as int);
}

/// The grid indices of a sequence of cells.
spec fn indices_of(cells: Seq<Point>, size_x: int) -> Seq<int> {
    cells.map_values(|p: Point| grid_index(p.x as int, p.y as int, size_x))
}

/// Distinct cells of a grid are no more than its cells.
proof fn lemma_distinct_cells_fit(cells: Seq<Point>, size_x: int, size_y: int)
    requires
        1 <= size_x,
        1 <= size_y,
        cells.no_duplicates(),
        forall|i: int| 0 <= i < cells.len() ==> in_grid(#[trigger] cells[i], size_x, size_y),
    ensures
        cells.len() <= size_x * size_y,
{
    let idx = indices_of(cells, size_x);
    assert forall|a: int, b: int| 0 <= a < idx.len() && 0 <= b < idx.len() && a != b implies idx[a]
        != idx[b] by {
        if idx[a] == idx[b] {
            let (pa, pb) = (cells[a], cells[b]);
            assert(in_grid(pa, size_x, size_y) && in_grid(pb, size_x, size_y));
            lemma_fundamental_div_mod_converse(idx[a], size_x, pa.y as int, pa.x as int);
            lemma_fundamental_div_mod_converse(idx[b], size_x, pb.y as int, pb.x as int);
            assert(pa == pb);
        }
    }
    assert(idx.no_duplicates());
    idx.unique_seq_to_set();
    lemma_int_range(0, size_x * size_y);
    assert forall|k: int| idx.to_set().contains(k) implies set_int_range(0, size_x * size_y).contains(
        k,
    ) by {
        let i = choose|i: int| 0 <= i < idx.len() && idx[i] == k;
        assert(in_grid(cells[i], size_x, size_y));
        lemma_grid_index_bounds(cells[i].x as int, cells[i].y as int, size_x, size_y);
    }
    lemma_len_subset(idx.to_set(), set_int_range(0, size_x * size_y));
}

/// While the snake leaves a cell of the grid uncovered, some cell is free.
pub proof fn lemma_free_cell_exists(field: SnakeGameField)
    requires
        field.wf(),
        field.snake.tail@.len() + 1 < field.size_x * field.size_y,
    ensures
        exists|q: Point| field.is_free(q),
{
    let size_x = field.size_x as int;
    let size_y = field.size_y as int;
    let n = size_x * size_y;
    let occupied = seq![field.snake.head] + field.snake.tail@;
    let idx = indices_of(occupied, size_x);
    if !exists|q: Point| field.is_free(q) {
        lemma_int_range(0, n);
        assert forall|k: int| set_int_range(0, n).contains(k) implies idx.to_set().contains(k) by {
            lemma_fundamental_div_mod(k, size_x);
            let x = k % size_x;
            let y = k / size_x;
            assert(0 <= x < size_x);
            assert(0 <= y < size_y) by (nonlinear_arith)
                requires
                    k == size_x * y + x,
                    0 <= x < size_x,
                    0 <= k < size_x * size_y,
            ;
            let p = Point { x: x as i32, y: y as i32 };
            assert(!field.is_free(p));
            assert(grid_index(p.x as int, p.y as int, size_x) == k) by (nonlinear_arith)
                requires
                    k == size_x * y + x,
                    p.x == x,
                    p.y == y,
            ;
            if p == field.snake.head {
                assert(idx[0] == k);
            } else {
                let j = choose|j: int| 0 <= j < field.snake.tail@.len() && field.snake.tail@[j] == p;
                assert(occupied[j + 1] == p);
                assert(idx[j + 1] == k);
            }
        }
        idx.lemma_cardinality_of_set();
        lemma_len_subset(set_int_range(0, n), idx.to_set());
    }
}

/// A request to reverse is ignored; keeping the direction or turning to
/// either side is taken.
pub proof fn lemma_turn_rules(current: SnakeDirection, requested: SnakeDirection)
    ensures
        requested == opposite(current) ==> turned(current, requested) == current,
        requested != opposite(current) ==> turned(current, requested) == requested,
        turned(current, current) == current,
        requested != current ==> (turned(current, requested) != current <==> requested != opposite(
            current,
        )),
{
}

/// A fruit placed after one is eaten lies on a grid cell that neither the head
/// nor any body segment holds, whenever the grid has such a cell; in
/// particular whenever the snake does not cover the whole grid.
pub proof fn lemma_new_fruit_avoids_snake(field: SnakeGameField, p: Point)
    requires
        field.wf(),
        field.is_fruit_placement(p),
        (exists|q: Point| field.is_free(q)) || field.snake.tail@.len() + 1 < field.size_x
            * field.size_y,
    ensures
        in_grid(p, field.size_x as int, field.size_y as int),
        p != field.snake.head,
        !field.snake.tail@.contains(p),
{
    if field.snake.tail@.len() + 1 < field.size_x * field.size_y {
        lemma_free_cell_exists(field);
    }
}

} // verus!
