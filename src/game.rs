use vstd::prelude::*;
use std::collections::VecDeque;
use crate::geometry::{Point, SnakeDirection, opposite, delta_x, delta_y};
use crate::input::{GameKey, key_direction};

verus! {

/// Whether `p` is a cell of a `size_x` by `size_y` grid.
pub open spec fn in_grid(p: Point, size_x: int, size_y: int) -> bool {
    0 <= p.x < size_x && 0 <= p.y < size_y
}

/// A coordinate moved one cell, wrapping at either edge of a line of `size` cells.
pub open spec fn wrap(v: int, size: int) -> int {
    if v == size {
        0
    } else if v == -1 {
        size - 1
    } else {
        v
    }
}

/// Where a head at `head` lands after one step in `d`.
pub open spec fn next_head(head: Point, d: SnakeDirection, size_x: int, size_y: int) -> Point {
    Point {
        x: wrap(head.x + delta_x(d), size_x) as i32,
        y: wrap(head.y + delta_y(d), size_y) as i32,
    }
}

/// The body after one tick: the old head goes to the front, and the oldest
/// segment leaves unless the snake grows.
pub open spec fn advanced_tail(old_head: Point, tail: Seq<Point>, grow: bool) -> Seq<Point> {
    let pushed = seq![old_head] + tail;
    if grow {
        pushed
    } else {
        pushed.drop_last()
    }
}

/// A grid with positive sides has at least one cell.
pub proof fn lemma_cells_positive(size_x: int, size_y: int)
    requires
        1 <= size_x,
        1 <= size_y,
    ensures
        size_x * size_y >= size_x,
        size_x * size_y >= size_y,
        size_x * size_y >= 1,
{
    assert(size_x * size_y >= size_x) by (nonlinear_arith)
        requires
            1 <= size_x,
            1 <= size_y,
    ;
    assert(size_x * size_y >= size_y) by (nonlinear_arith)
        requires
            1 <= size_x,
            1 <= size_y,
    ;
}

/// The direction after asking to turn from `current` to `requested`: a
/// reversal is ignored.
pub open spec fn turned(current: SnakeDirection, requested: SnakeDirection) -> SnakeDirection {
    if requested == opposite(current) {
        current
    } else {
        requested
    }
}

/// How a frame ended.
#[derive(Clone, Copy, Debug, PartialEq, Eq, Structural)]
pub enum FrameOutcome {
    /// The player asked to leave; the field was not touched.
    Exit,
    /// The head ran into the body: the game is lost.
    Collision,
    /// The snake fills the grid: the game is won.
    Won,
    /// The game goes on.
    Running,
}

/// The outcome of a tick that ended with `field`: collision first, then win.
pub open spec fn tick_outcome(field: SnakeGameField) -> FrameOutcome {
    if field.snake.tail@.contains(field.snake.head) {
        FrameOutcome::Collision
    } else if field.snake.tail@.len() + 1 == field.size_x * field.size_y {
        FrameOutcome::Won
    } else {
        FrameOutcome::Running
    }
}

/// Whether a cell may take a new fruit depends only on the grid, the cells
/// the snake holds and the current fruit.
proof fn lemma_placement_depends_on_cells(a: SnakeGameField, b: SnakeGameField, p: Point)
    requires
        a.size_x == b.size_x,
        a.size_y == b.size_y,
        a.snake.head == b.snake.head,
        a.snake.tail@ == b.snake.tail@,
        a.fruit.0 == b.fruit.0,
    ensures
        a.is_fruit_placement(p) == b.is_fruit_placement(p),
{
    if exists|q: Point| a.is_free(q) {
        let q = choose|q: Point| a.is_free(q);
        assert(b.is_free(q));
    }
    if exists|q: Point| b.is_free(q) {
        let q = choose|q: Point| b.is_free(q);
        assert(a.is_free(q));
    }
    if exists|q: Point| a.is_free(q) && q.x >= 1 && q.y >= 1 {
        let q = choose|q: Point| a.is_free(q) && q.x >= 1 && q.y >= 1;
        assert(b.is_free(q));
    }
    if exists|q: Point| b.is_free(q) && q.x >= 1 && q.y >= 1 {
        let q = choose|q: Point| b.is_free(q) && q.x >= 1 && q.y >= 1;
        assert(a.is_free(q));
    }
}

/// A body without repeated cells, moved by one tick from a head that was off
/// it, still has no repeated cells.
pub proof fn lemma_advanced_tail_distinct(old_head: Point, tail: Seq<Point>, grow: bool)
    requires
        tail.no_duplicates(),
        !tail.contains(old_head),
    ensures
        advanced_tail(old_head, tail, grow).no_duplicates(),
{
    let pushed = seq![old_head] + tail;
    assert forall|i: int, j: int| 0 <= i < pushed.len() && 0 <= j < pushed.len() && i != j implies pushed[i]
        != pushed[j] by {
        if i == 0 {
            assert(tail[j - 1] == pushed[j]);
        } else if j == 0 {
            assert(tail[i - 1] == pushed[i]);
        } else {
            assert(pushed[i] == tail[i - 1] && pushed[j] == tail[j - 1]);
        }
    }
    assert(pushed.no_duplicates());
}

/// One cell of the row-by-row scan of free cells: `after` lists `p` after
/// what `before` listed exactly when `p` was taken.
proof fn lemma_scan_step(
    field: SnakeGameField,
    before: Seq<Point>,
    after: Seq<Point>,
    p: Point,
    min: int,
    take: bool,
)
    requires
        forall|q: Point| #[trigger] before.contains(q) <==> field.scanned_free(q, min, p.x as int, p.y as int),
        take == (p.x >= min && p.y >= min && field.is_free(p)),
        take ==> after == before.push(p),
        !take ==> after == before,
    ensures
        forall|q: Point| #[trigger] after.contains(q) <==> field.scanned_free(q, min, p.x + 1, p.y as int),
{
    assert forall|q: Point| #[trigger] after.contains(q) <==> field.scanned_free(q, min, p.x + 1, p.y as int) by {
        if q.x == p.x && q.y == p.y {
            assert(q == p);
        }
        if take {
            if after.contains(q) {
                let j = choose|j: int| 0 <= j < after.len() && after[j] == q;
                if j < before.len() {
                    assert(before[j] == q);
                    assert(before.contains(q));
                }
            }
            if before.contains(q) {
                let j = choose|j: int| 0 <= j < before.len() && before[j] == q;
                assert(after[j] == q);
            }
            if q == p {
                assert(after[before.len() as int] == p);
            }
        }
    }
}

pub struct Snake {
    pub head: Point,
    /// Body segments, the one nearest the head first.
    pub tail: VecDeque<Point>,
    pub direction: SnakeDirection,
    /// Set when a fruit was eaten; the next tick grows the body and clears it.
    pub ate_fruit: bool,
}

impl Snake {
    /// Turns to `direction` unless it is the reverse of the current one.
    pub fn try_change_direction(&mut self, direction: SnakeDirection)
        ensures
            final(self).direction == turned(old(self).direction, direction),
            final(self).head == old(self).head,
            final(self).tail@ == old(self).tail@,
            final(self).ate_fruit == old(self).ate_fruit,
    {
        if !self.direction.is_opposite_of(direction) {
            self.direction = direction;
        }
    }

    /// Reports whether a fruit was eaten and clears the mark.
    pub fn ate_fruit(&mut self) -> (r: bool)
        ensures
            r == old(self).ate_fruit,
            !final(self).ate_fruit,
            final(self).head == old(self).head,
            final(self).tail@ == old(self).tail@,
            final(self).direction == old(self).direction,
    {
        let ate_fruit = self.ate_fruit;
        self.ate_fruit = false;
        ate_fruit
    }
}

pub struct Fruit(pub Point);

pub struct SnakeGameField {
    pub size_x: i32,
    pub size_y: i32,
    pub snake: Snake,
    pub fruit: Fruit,
}

impl SnakeGameField {
    /// The field's sizes are positive with a product that fits in `i32`, and
    /// the head, every body segment and the fruit lie on the grid.
    pub open spec fn wf(&self) -> bool {
        &&& 1 <= self.size_x
        &&& 1 <= self.size_y
        &&& self.size_x * self.size_y <= i32::MAX
        &&& in_grid(self.snake.head, self.size_x as int, self.size_y as int)
        &&& in_grid(self.fruit.0, self.size_x as int, self.size_y as int)
        &&& forall|i: int|
            0 <= i < self.snake.tail@.len() ==> in_grid(
                #[trigger] self.snake.tail@[i],
                self.size_x as int,
                self.size_y as int,
            )
    }

    /// A well-formed field in which the game can go on: the head is off the
    /// body and no two body segments share a cell.
    pub open spec fn playable(&self) -> bool {
        &&& self.wf()
        &&& !self.snake.tail@.contains(self.snake.head)
        &&& self.snake.tail@.no_duplicates()
    }

    /// Whether `p` is a grid cell that neither the head nor the body holds.
    pub open spec fn is_free(&self, p: Point) -> bool {
        &&& in_grid(p, self.size_x as int, self.size_y as int)
        &&& p != self.snake.head
        &&& !self.snake.tail@.contains(p)
    }

    /// Moves the head one cell in the current direction, wrapping at the
    /// edges, and updates the body.
    pub fn push_snake(&mut self)
        requires
            old(self).wf(),
        ensures
            final(self).wf(),
            final(self).snake.head == next_head(
                old(self).snake.head,
                old(self).snake.direction,
                old(self).size_x as int,
                old(self).size_y as int,
            ),
            final(self).snake.tail@ == advanced_tail(
                old(self).snake.head,
                old(self).snake.tail@,
                old(self).snake.ate_fruit,
            ),
            !final(self).snake.ate_fruit,
            final(self).snake.direction == old(self).snake.direction,
            final(self).fruit.0 == old(self).fruit.0,
            final(self).size_x == old(self).size_x,
            final(self).size_y == old(self).size_y,
    {
        let ghost old_tail = self.snake.tail@;
        let old_head = self.snake.head;
        match self.snake.direction {
            SnakeDirection::Up => {
                self.snake.head.y = self.snake.head.y - 1;
                if self.snake.head.y == -1 {
                    self.snake.head.y = self.size_y - 1;
                }
            },
            SnakeDirection::Right => {
                self.snake.head.x = self.snake.head.x + 1;
                if self.snake.head.x == self.size_x {
                    self.snake.head.x = 0;
                }
            },
            SnakeDirection::Down => {
                self.snake.head.y = self.snake.head.y + 1;
                if self.snake.head.y == self.size_y {
                    self.snake.head.y = 0;
                }
            },
            SnakeDirection::Left => {
                self.snake.head.x = self.snake.head.x - 1;
                if self.snake.head.x == -1 {
                    self.snake.head.x = self.size_x - 1;
                }
            },
        }
        if self.snake.tail.len() > 0 {
            self.snake.tail.push_front(old_head);
            if !self.snake.ate_fruit() {
                self.snake.tail.pop_back();
            }
        } else if self.snake.ate_fruit() {
            self.snake.tail.push_front(old_head);
        }
        proof {
            if old_tail.len() == 0 {
                assert((seq![old_head] + old_tail).drop_last() =~= Seq::<Point>::empty());
            }
            assert forall|i: int| 0 <= i < self.snake.tail@.len() implies in_grid(
                #[trigger] self.snake.tail@[i],
                self.size_x as int,
                self.size_y as int,
            ) by {
                if i > 0 {
                    assert(self.snake.tail@[i] == old_tail[i - 1]);
                }
            }
        }
    }

    /// Whether the head has run into the body.
    pub fn check_snake_collision(&self) -> (r: bool)
        ensures
            r == self.snake.tail@.contains(self.snake.head),
    {
        let n = self.snake.tail.len();
        let mut i: usize = 0;
        while i < n
            invariant
                n == self.snake.tail@.len(),
                i <= n,
                forall|k: int| 0 <= k < i ==> self.snake.tail@[k] != self.snake.head,
            decreases n - i,
        {
            if self.snake.tail[i] == self.snake.head {
                return true;
            }
            i += 1;
        }
        false
    }

    /// Whether the snake fills every cell of the grid.
    pub fn check_win(&self) -> (r: bool)
        requires
            self.wf(),
        ensures
            r == (self.snake.tail@.len() + 1 == self.size_x * self.size_y),
    {
        proof {
            lemma_cells_positive(self.size_x as int, self.size_y as int);
        }
        let cells = (self.size_x * self.size_y) as usize;
        self.snake.tail.len() == cells - 1
    }
}

/// How many uniformly drawn cells fruit placement tries before it draws
/// among the free cells directly.
pub const FRUIT_PLACEMENT_ATTEMPTS: u32 = 64;

/// Relies on `rand::Rng::gen_range` over `rand::thread_rng()`: a value of the
/// half-open range `lo..hi`. It panics on an empty range, which `requires`
/// rules out.
#[verifier::external_body]
fn random_in_range(lo: i32, hi: i32) -> (r: i32)
    requires
        lo < hi,
    ensures
        lo <= r < hi,
{
    rand::Rng::gen_range(&mut rand::thread_rng(), lo..hi)
}

impl Fruit {
    /// A fruit at a cell drawn uniformly from `x_bounds.0..x_bounds.1` by
    /// `y_bounds.0..y_bounds.1`.
    pub fn random(x_bounds: (i32, i32), y_bounds: (i32, i32)) -> (r: Fruit)
        requires
            x_bounds.0 < x_bounds.1,
            y_bounds.0 < y_bounds.1,
        ensures
            x_bounds.0 <= r.0.x < x_bounds.1,
            y_bounds.0 <= r.0.y < y_bounds.1,
    {
        let x = random_in_range(x_bounds.0, x_bounds.1);
        let y = random_in_range(y_bounds.0, y_bounds.1);
        Fruit(Point::new(x, y))
    }

    /// A new fruit for `field`, drawn uniformly from the free cells off row
    /// and column 0: first by rejection sampling, and after
    /// `FRUIT_PLACEMENT_ATTEMPTS` rejected draws by picking one of those cells
    /// directly. Where no such cell is free, any free cell is picked; where none
    /// is, the fruit stays.
    pub fn random_from_field(field: &SnakeGameField) -> (r: Fruit)
        requires
            field.wf(),
        ensures
            field.is_fruit_placement(r.0),
    {
        if field.size_x > 1 && field.size_y > 1 {
            let mut attempts: u32 = 0;
            while attempts < FRUIT_PLACEMENT_ATTEMPTS
                invariant
                    field.wf(),
                    field.size_x > 1,
                    field.size_y > 1,
                decreases FRUIT_PLACEMENT_ATTEMPTS - attempts,
            {
                let fruit = Fruit::random((1, field.size_x), (1, field.size_y));
                if field.accepts_fruit_at(fruit.0) {
                    return fruit;
                }
                attempts += 1;
            }
        }
        let inner = field.free_cells(1);
        if inner.len() > 0 {
            let k = random_in_range(0, inner.len() as i32) as usize;
            proof {
                assert(inner@.contains(inner@[k as int]));
                assert(field.is_free(inner@[k as int]));
            }
            return Fruit(inner[k]);
        }
        let all = field.free_cells(0);
        if all.len() > 0 {
            let k = random_in_range(0, all.len() as i32) as usize;
            proof {
                assert(all@.contains(all@[k as int]));
                assert(field.is_free(all@[k as int]));
            }
            return Fruit(all[k]);
        }
        Fruit(field.fruit.0)
    }
}

impl SnakeGameField {
    /// Whether `p` may take the fruit that replaces an eaten one: a free
    /// cell, off row and column 0 where such a cell is free, and the current
    /// fruit's cell where no cell is free.
    pub open spec fn is_fruit_placement(&self, p: Point) -> bool {
        &&& in_grid(p, self.size_x as int, self.size_y as int)
        &&& (exists|q: Point| self.is_free(q)) ==> self.is_free(p)
        &&& (exists|q: Point| self.is_free(q) && q.x >= 1 && q.y >= 1) ==> (p.x >= 1 && p.y >= 1)
        &&& !(exists|q: Point| self.is_free(q)) ==> p == self.fruit.0
    }

    /// Whether a fruit may be put at `p`: on the grid and clear of the snake.
    pub fn accepts_fruit_at(&self, p: Point) -> (r: bool)
        ensures
            r == self.is_free(p),
    {
        if p.x < 0 || p.x >= self.size_x || p.y < 0 || p.y >= self.size_y {
            return false;
        }
        if p == self.snake.head {
            return false;
        }
        let n = self.snake.tail.len();
        let mut i: usize = 0;
        while i < n
            invariant
                n == self.snake.tail@.len(),
                i <= n,
                forall|k: int| 0 <= k < i ==> self.snake.tail@[k] != p,
            decreases n - i,
        {
            if self.snake.tail[i] == p {
                return false;
            }
            i += 1;
        }
        true
    }

    /// Whether `p` is a free cell with both coordinates at least `min` that a
    /// row-by-row scan reaches before column `x` of row `y`.
    pub open spec fn scanned_free(&self, p: Point, min: int, x: int, y: int) -> bool {
        &&& self.is_free(p)
        &&& p.x >= min
        &&& p.y >= min
        &&& (p.y < y || (p.y == y && p.x < x))
    }

    /// The free cells with both coordinates at least `min`, row by row.
    pub fn free_cells(&self, min: i32) -> (r: Vec<Point>)
        requires
            self.wf(),
        ensures
            r@.len() <= self.size_x * self.size_y,
            forall|p: Point|
                r@.contains(p) <==> (self.is_free(p) && p.x >= min && p.y >= min),
    {
        let mut cells: Vec<Point> = Vec::new();
        let mut y: i32 = 0;
        while y < self.size_y
            invariant
                self.wf(),
                0 <= y <= self.size_y,
                cells@.len() <= y * self.size_x,
                forall|p: Point|
                    #[trigger] cells@.contains(p) <==> self.scanned_free(p, min as int, 0, y as int),
            decreases self.size_y - y,
        {
            let mut x: i32 = 0;
            while x < self.size_x
                invariant
                    self.wf(),
                    0 <= y < self.size_y,
                    0 <= x <= self.size_x,
                    cells@.len() <= y * self.size_x + x,
                    forall|p: Point|
                        #[trigger] cells@.contains(p) <==> self.scanned_free(
                            p,
                            min as int,
                            x as int,
                            y as int,
                        ),
                decreases self.size_x - x,
            {
                let p = Point::new(x, y);
                let ghost before = cells@;
                let take = x >= min && y >= min && self.accepts_fruit_at(p);
                if take {
                    cells.push(p);
                }
                proof {
                    lemma_scan_step(*self, before, cells@, p, min as int, take);
                }
                x += 1;
            }
            proof {
                assert(y * self.size_x + self.size_x == (y + 1) * self.size_x) by (nonlinear_arith);
                assert forall|p: Point| #[trigger] cells@.contains(p) <==> self.scanned_free(
                    p,
                    min as int,
                    0,
                    y + 1,
                ) by {
                    if self.scanned_free(p, min as int, self.size_x as int, y as int) {
                        assert(self.scanned_free(p, min as int, 0, y + 1));
                    }
                }
            }
            y += 1;
        }
        proof {
            assert(self.size_y * self.size_x == self.size_x * self.size_y) by (nonlinear_arith);
            assert forall|p: Point| #[trigger] cells@.contains(p) <==> (self.is_free(p) && p.x >= min
                && p.y >= min) by {
                if self.is_free(p) && p.x >= min && p.y >= min {
                    assert(self.scanned_free(p, min as int, 0, self.size_y as int));
                }
            }
        }
        cells
    }

    /// Marks the fruit as eaten and places a new one when the head is on it.
    pub fn handle_snake_fruit_collision(&mut self)
        requires
            old(self).wf(),
        ensures
            final(self).wf(),
            final(self).snake.head == old(self).snake.head,
            final(self).snake.tail@ == old(self).snake.tail@,
            final(self).snake.direction == old(self).snake.direction,
            final(self).size_x == old(self).size_x,
            final(self).size_y == old(self).size_y,
            old(self).snake.head == old(self).fruit.0 ==> {
                &&& final(self).snake.ate_fruit
                &&& old(self).is_fruit_placement(final(self).fruit.0)
            },
            old(self).snake.head != old(self).fruit.0 ==> {
                &&& final(self).snake.ate_fruit == old(self).snake.ate_fruit
                &&& final(self).fruit.0 == old(self).fruit.0
            },
    {
        if self.snake.head == self.fruit.0 {
            let fruit = Fruit::random_from_field(self);
            self.snake.ate_fruit = true;
            self.fruit = fruit;
        }
    }
}

impl SnakeGameField {
    /// A `size_x` by `size_y` field with the snake at the origin heading
    /// right, no body, and the fruit at `fruit`.
    pub fn with_fruit(size_x: i32, size_y: i32, fruit: Point) -> (r: SnakeGameField)
        requires
            1 <= size_x,
            1 <= size_y,
            size_x * size_y <= i32::MAX,
            in_grid(fruit, size_x as int, size_y as int),
        ensures
            r.playable(),
            r.size_x == size_x,
            r.size_y == size_y,
            r.snake.head == Point::origin_spec(),
            r.snake.tail@ == Seq::<Point>::empty(),
            r.snake.direction == SnakeDirection::Right,
            !r.snake.ate_fruit,
            r.fruit.0 == fruit,
    {
        SnakeGameField {
            size_x,
            size_y,
            snake: Snake {
                head: Point::origin(),
                tail: VecDeque::new(),
                direction: SnakeDirection::Right,
                ate_fruit: false,
            },
            fruit: Fruit(fruit),
        }
    }

    /// A 10 by 10 field with the snake at the origin heading right, no body,
    /// and the fruit drawn uniformly off row and column 0.
    pub fn create() -> (r: SnakeGameField)
        ensures
            r.playable(),
            r.size_x == 10,
            r.size_y == 10,
            r.snake.head == Point::origin_spec(),
            r.snake.tail@ == Seq::<Point>::empty(),
            r.snake.direction == SnakeDirection::Right,
            !r.snake.ate_fruit,
            1 <= r.fruit.0.x < 10,
            1 <= r.fruit.0.y < 10,
    {
        let size_x: i32 = 10;
        let size_y: i32 = 10;
        let fruit = Fruit::random((1, size_x), (1, size_y));
        SnakeGameField::with_fruit(size_x, size_y, fruit.0)
    }

    /// One frame of the game: applies the pressed key, eats a fruit under the
    /// head, advances the snake one tick and reports collision, then win.
    pub fn advance_frame(&mut self, pressed_key: Option<GameKey>) -> (r: FrameOutcome)
        requires
            old(self).wf(),
        ensures
            final(self).wf(),
            final(self).size_x == old(self).size_x,
            final(self).size_y == old(self).size_y,
            old(self).playable() && r != FrameOutcome::Collision ==> final(self).playable(),
            pressed_key == Some(GameKey::Exit) ==> {
                &&& r == FrameOutcome::Exit
                &&& final(self).snake.head == old(self).snake.head
                &&& final(self).snake.tail@ == old(self).snake.tail@
                &&& final(self).snake.direction == old(self).snake.direction
                &&& final(self).snake.ate_fruit == old(self).snake.ate_fruit
                &&& final(self).fruit.0 == old(self).fruit.0
            },
            pressed_key != Some(GameKey::Exit) ==> {
                let direction = match pressed_key {
                    Some(k) => turned(old(self).snake.direction, key_direction(k).unwrap()),
                    None => old(self).snake.direction,
                };
                let eats = old(self).snake.head == old(self).fruit.0;
                &&& final(self).snake.direction == direction
                &&& final(self).snake.head == next_head(
                    old(self).snake.head,
                    direction,
                    old(self).size_x as int,
                    old(self).size_y as int,
                )
                &&& final(self).snake.tail@ == advanced_tail(
                    old(self).snake.head,
                    old(self).snake.tail@,
                    old(self).snake.ate_fruit || eats,
                )
                &&& !final(self).snake.ate_fruit
                &&& eats ==> old(self).is_fruit_placement(final(self).fruit.0)
                &&& !eats ==> final(self).fruit.0 == old(self).fruit.0
                &&& r == tick_outcome(*final(self))
            },
    {
        if let Some(key) = pressed_key {
            match key.direction() {
                Some(direction) => self.snake.try_change_direction(direction),
                None => {
                    return FrameOutcome::Exit;
                },
            }
        }
        let ghost turned_field = *self;
        self.handle_snake_fruit_collision();
        proof {
            lemma_placement_depends_on_cells(turned_field, *old(self), self.fruit.0);
        }
        let ghost grows = self.snake.ate_fruit;
        self.push_snake();
        proof {
            if old(self).playable() {
                lemma_advanced_tail_distinct(old(self).snake.head, old(self).snake.tail@, grows);
            }
        }
        if self.check_snake_collision() {
            FrameOutcome::Collision
        } else if self.check_win() {
            FrameOutcome::Won
        } else {
            FrameOutcome::Running
        }
    }
}

} // verus!
