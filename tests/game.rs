use snake_rs::{FrameOutcome, Fruit, GameKey, Point, SnakeDirection, SnakeGameField};
use std::collections::VecDeque;

fn field_at(size: i32, head: Point, direction: SnakeDirection, tail: &[Point], fruit: Point) -> SnakeGameField {
    let mut field = SnakeGameField::with_fruit(size, size, fruit);
    field.snake.head = head;
    field.snake.direction = direction;
    field.snake.tail = tail.iter().copied().collect::<VecDeque<Point>>();
    field
}

fn tail_of(field: &SnakeGameField) -> Vec<Point> {
    field.snake.tail.iter().copied().collect()
}

#[test]
fn three_ticks_right_from_origin() {
    let mut field = SnakeGameField::with_fruit(10, 10, Point::new(3, 3));
    for _ in 0..3 {
        assert_eq!(field.advance_frame(None), FrameOutcome::Running);
    }
    assert_eq!(field.snake.head, Point::new(3, 0));
    assert!(field.snake.tail.is_empty());
    assert_eq!(field.fruit.0, Point::new(3, 3));
}

#[test]
fn eating_fruit_grows_body_from_empty() {
    let mut field = SnakeGameField::with_fruit(10, 10, Point::new(1, 0));
    assert_eq!(field.advance_frame(None), FrameOutcome::Running);
    assert_eq!(field.snake.head, Point::new(1, 0));
    field.handle_snake_fruit_collision();
    assert!(field.snake.ate_fruit);
    assert_ne!(field.fruit.0, Point::new(1, 0));
    assert!(field.fruit.0.x >= 1 && field.fruit.0.y >= 1);
    field.push_snake();
    assert_eq!(tail_of(&field), vec![Point::new(1, 0)]);
    assert_eq!(field.snake.head, Point::new(2, 0));
    assert!(!field.snake.ate_fruit);
}

#[test]
fn collision_exactly_when_head_lands_on_body() {
    let tail = [Point::new(2, 3), Point::new(1, 3), Point::new(0, 3)];
    let mut field = field_at(10, Point::new(3, 3), SnakeDirection::Right, &tail, Point::new(9, 9));
    field.snake.ate_fruit = true;
    assert_eq!(field.advance_frame(Some(GameKey::Down)), FrameOutcome::Running);
    assert!(!field.check_snake_collision());
    assert_eq!(field.snake.tail.len(), 4);
    assert_eq!(field.advance_frame(Some(GameKey::Left)), FrameOutcome::Running);
    assert!(!field.check_snake_collision());
    assert_eq!(field.advance_frame(Some(GameKey::Up)), FrameOutcome::Collision);
    assert!(field.check_snake_collision());
    assert_eq!(field.snake.head, Point::new(2, 3));
}

#[test]
fn reverse_request_is_ignored() {
    let mut field = SnakeGameField::with_fruit(10, 10, Point::new(3, 3));
    assert_eq!(field.snake.direction, SnakeDirection::Right);
    field.snake.try_change_direction(SnakeDirection::Left);
    assert_eq!(field.snake.direction, SnakeDirection::Right);
}

#[test]
fn same_and_orthogonal_requests_are_taken() {
    let mut field = SnakeGameField::with_fruit(10, 10, Point::new(3, 3));
    field.snake.try_change_direction(SnakeDirection::Right);
    assert_eq!(field.snake.direction, SnakeDirection::Right);
    field.snake.try_change_direction(SnakeDirection::Up);
    assert_eq!(field.snake.direction, SnakeDirection::Up);
    field.snake.try_change_direction(SnakeDirection::Down);
    assert_eq!(field.snake.direction, SnakeDirection::Up);
    field.snake.try_change_direction(SnakeDirection::Left);
    assert_eq!(field.snake.direction, SnakeDirection::Left);
}

#[test]
fn head_wraps_at_every_edge() {
    let cases = [
        (Point::new(0, 5), SnakeDirection::Left, Point::new(9, 5)),
        (Point::new(9, 5), SnakeDirection::Right, Point::new(0, 5)),
        (Point::new(4, 0), SnakeDirection::Up, Point::new(4, 9)),
        (Point::new(4, 9), SnakeDirection::Down, Point::new(4, 0)),
        (Point::new(4, 4), SnakeDirection::Down, Point::new(4, 5)),
        (Point::new(4, 4), SnakeDirection::Left, Point::new(3, 4)),
    ];
    for (head, direction, expected) in cases {
        let mut field = field_at(10, head, direction, &[], Point::new(8, 8));
        field.push_snake();
        assert_eq!(field.snake.head, expected);
    }
}

#[test]
fn body_length_kept_without_growth() {
    let tail = [Point::new(4, 4), Point::new(3, 4)];
    let mut field = field_at(10, Point::new(5, 4), SnakeDirection::Right, &tail, Point::new(9, 9));
    field.push_snake();
    assert_eq!(tail_of(&field), vec![Point::new(5, 4), Point::new(4, 4)]);
}

#[test]
fn body_length_grows_by_one() {
    let tail = [Point::new(4, 4), Point::new(3, 4)];
    let mut field = field_at(10, Point::new(5, 4), SnakeDirection::Right, &tail, Point::new(9, 9));
    field.snake.ate_fruit = true;
    field.push_snake();
    assert_eq!(tail_of(&field), vec![Point::new(5, 4), Point::new(4, 4), Point::new(3, 4)]);
    assert!(!field.snake.ate_fruit);
}

#[test]
fn empty_body_without_growth_stays_empty() {
    let mut field = field_at(10, Point::new(5, 4), SnakeDirection::Up, &[], Point::new(9, 9));
    field.push_snake();
    assert!(field.snake.tail.is_empty());
    assert_eq!(field.snake.head, Point::new(5, 3));
}

#[test]
fn ate_fruit_reports_and_clears() {
    let mut field = SnakeGameField::with_fruit(10, 10, Point::new(3, 3));
    field.snake.ate_fruit = true;
    assert!(field.snake.ate_fruit());
    assert!(!field.snake.ate_fruit());
}

#[test]
fn win_iff_every_cell_is_taken() {
    let tail = [Point::new(0, 0), Point::new(0, 1)];
    let field = field_at(2, Point::new(1, 0), SnakeDirection::Up, &tail, Point::new(1, 1));
    assert!(!field.check_win());
    let tail = [Point::new(0, 0), Point::new(0, 1), Point::new(1, 1)];
    let field = field_at(2, Point::new(1, 0), SnakeDirection::Up, &tail, Point::new(1, 1));
    assert!(field.check_win());
}

#[test]
fn collision_iff_head_in_body() {
    let tail = [Point::new(1, 1), Point::new(2, 1)];
    let field = field_at(5, Point::new(2, 1), SnakeDirection::Up, &tail, Point::new(4, 4));
    assert!(field.check_snake_collision());
    let field = field_at(5, Point::new(3, 1), SnakeDirection::Up, &tail, Point::new(4, 4));
    assert!(!field.check_snake_collision());
}

#[test]
fn collision_takes_precedence_over_win() {
    let tail = [Point::new(0, 1), Point::new(1, 1)];
    let mut field = field_at(2, Point::new(0, 0), SnakeDirection::Down, &tail, Point::new(1, 0));
    field.snake.ate_fruit = true;
    let outcome = field.advance_frame(None);
    assert_eq!(field.snake.head, Point::new(0, 1));
    assert!(field.check_snake_collision());
    assert!(field.check_win());
    assert_eq!(outcome, FrameOutcome::Collision);
}

#[test]
fn win_is_reported_when_grid_fills() {
    let tail = [Point::new(0, 1), Point::new(1, 1)];
    let mut field = field_at(2, Point::new(0, 0), SnakeDirection::Right, &tail, Point::new(1, 0));
    field.snake.ate_fruit = true;
    assert_eq!(field.advance_frame(None), FrameOutcome::Won);
    assert_eq!(field.snake.head, Point::new(1, 0));
    assert_eq!(tail_of(&field), vec![Point::new(0, 0), Point::new(0, 1), Point::new(1, 1)]);
}

#[test]
fn exit_key_leaves_field_untouched() {
    let mut field = SnakeGameField::with_fruit(10, 10, Point::new(3, 3));
    assert_eq!(field.advance_frame(Some(GameKey::Exit)), FrameOutcome::Exit);
    assert_eq!(field.snake.head, Point::new(0, 0));
    assert_eq!(field.snake.direction, SnakeDirection::Right);
}

#[test]
fn resampled_fruit_avoids_snake() {
    for _ in 0..200 {
        let tail = [Point::new(2, 1), Point::new(3, 1), Point::new(3, 2)];
        let field = field_at(4, Point::new(1, 1), SnakeDirection::Left, &tail, Point::new(1, 1));
        let fruit = Fruit::random_from_field(&field);
        assert!(fruit.0.x >= 1 && fruit.0.x < 4 && fruit.0.y >= 1 && fruit.0.y < 4);
        assert_ne!(fruit.0, field.snake.head);
        assert!(!tail.contains(&fruit.0));
    }
}

#[test]
fn resampling_finds_the_single_free_inner_cell() {
    for _ in 0..50 {
        let tail = [Point::new(2, 1), Point::new(2, 2)];
        let field = field_at(3, Point::new(1, 1), SnakeDirection::Left, &tail, Point::new(1, 1));
        let fruit = Fruit::random_from_field(&field);
        assert_eq!(fruit.0, Point::new(1, 2));
    }
}

#[test]
fn resampling_falls_back_to_edge_cells() {
    let tail = [
        Point::new(2, 1),
        Point::new(2, 2),
        Point::new(1, 2),
        Point::new(0, 2),
        Point::new(0, 1),
        Point::new(0, 0),
        Point::new(1, 0),
    ];
    let field = field_at(3, Point::new(1, 1), SnakeDirection::Left, &tail, Point::new(1, 1));
    let fruit = Fruit::random_from_field(&field);
    assert_eq!(fruit.0, Point::new(2, 0));
}

#[test]
fn resampling_keeps_fruit_when_grid_is_full() {
    let tail = [Point::new(0, 1), Point::new(1, 0), Point::new(1, 1)];
    let field = field_at(2, Point::new(0, 0), SnakeDirection::Left, &tail, Point::new(1, 1));
    let fruit = Fruit::random_from_field(&field);
    assert_eq!(fruit.0, Point::new(1, 1));
}

#[test]
fn random_fruit_stays_in_bounds() {
    for _ in 0..200 {
        let fruit = Fruit::random((3, 5), (-2, -1));
        assert!(fruit.0.x == 3 || fruit.0.x == 4);
        assert_eq!(fruit.0.y, -2);
    }
}

#[test]
fn create_places_fruit_off_row_and_column_zero() {
    for _ in 0..100 {
        let field = SnakeGameField::create();
        assert_eq!(field.size_x, 10);
        assert_eq!(field.size_y, 10);
        assert_eq!(field.snake.head, Point::origin());
        assert_eq!(field.snake.direction, SnakeDirection::Right);
        assert!(field.fruit.0.x >= 1 && field.fruit.0.x < 10);
        assert!(field.fruit.0.y >= 1 && field.fruit.0.y < 10);
    }
}

#[test]
fn free_cells_lists_row_by_row() {
    let tail = [Point::new(1, 0)];
    let field = field_at(2, Point::new(0, 0), SnakeDirection::Left, &tail, Point::new(1, 1));
    assert_eq!(field.free_cells(0), vec![Point::new(0, 1), Point::new(1, 1)]);
    assert_eq!(field.free_cells(1), vec![Point::new(1, 1)]);
    assert!(field.accepts_fruit_at(Point::new(0, 1)));
    assert!(!field.accepts_fruit_at(Point::new(1, 0)));
    assert!(!field.accepts_fruit_at(Point::new(2, 0)));
}
