use snake::{CellState, DirectionChange, MoveOutcome, Point, SnakeDirection, SnakeGrid};

fn snake_cells(sg: &SnakeGrid) -> Vec<Point> {
    (0..sg.grid.cells.len())
        .filter(|i| sg.grid.cells[*i] == CellState::Snake)
        .map(|i| sg.grid.pos(i))
        .collect()
}

fn mirrors_body(sg: &SnakeGrid) -> bool {
    let cells = snake_cells(sg);
    cells.iter().all(|p| sg.snake.body().contains(p))
        && sg.snake.body().iter().all(|p| cells.contains(p))
        && sg.grid.cells.iter().all(|c| *c != CellState::Apple)
}

fn adjacent(a: Point, b: Point) -> bool {
    (a.x - b.x).abs() + (a.y - b.y).abs() == 1
}

#[test]
fn new_empty_places_three_segments_facing_right() {
    let sg = SnakeGrid::new_empty(10, 10);
    assert_eq!(
        *sg.snake.body(),
        vec![Point::new(5, 5), Point::new(6, 5), Point::new(7, 5)]
    );
    assert_eq!(sg.snake.direction(), SnakeDirection::Right);
    assert_eq!(sg.snake.target_length(), 3);
    assert!(mirrors_body(&sg));
    let d = SnakeGrid::default();
    assert_eq!(d.grid.width, 10);
    assert_eq!(d.grid.height, 10);
    let odd = SnakeGrid::new_empty(7, 1);
    assert_eq!(*odd.snake.body(), vec![Point::new(3, 0), Point::new(4, 0), Point::new(5, 0)]);
}

#[test]
fn first_move_right_runs_into_the_neck() {
    let mut sg = SnakeGrid::new_empty(10, 10);
    assert_eq!(sg.move_snake(), MoveOutcome::Advanced);
    assert_eq!(
        *sg.snake.body(),
        vec![Point::new(6, 5), Point::new(5, 5), Point::new(6, 5)]
    );
    assert_eq!(*sg.grid.at(Point::new(6, 5)), CellState::Snake);
    assert_eq!(*sg.grid.at(Point::new(5, 5)), CellState::Snake);
    assert_eq!(*sg.grid.at(Point::new(7, 5)), CellState::Empty);
    let mut cells = snake_cells(&sg);
    cells.sort_by_key(|p| (p.y, p.x));
    assert_eq!(cells, vec![Point::new(5, 5), Point::new(6, 5)]);
}

#[test]
fn moving_into_the_wall_ends_the_session() {
    let mut sg = SnakeGrid::new_empty(10, 10);
    for _ in 0..4 {
        assert_eq!(sg.move_snake(), MoveOutcome::Advanced);
    }
    assert_eq!(sg.snake.body()[0], Point::new(9, 5));
    let before = sg.snake.body().clone();
    let text = sg.grid.render();
    assert_eq!(sg.move_snake(), MoveOutcome::SessionEnded);
    assert_eq!(*sg.snake.body(), before);
    assert_eq!(sg.grid.render(), text);
    assert_eq!(sg.move_snake(), MoveOutcome::SessionEnded);
}

#[test]
fn turning_off_the_grid_is_rejected() {
    let mut sg = SnakeGrid::new_empty(10, 10);
    assert_eq!(sg.change_direction(SnakeDirection::Up), DirectionChange::Accepted);
    for _ in 0..5 {
        assert_eq!(sg.move_snake(), MoveOutcome::Advanced);
    }
    assert_eq!(sg.snake.body()[0], Point::new(5, 0));
    assert_eq!(sg.snake.direction(), SnakeDirection::Up);
    assert_eq!(sg.change_direction(SnakeDirection::Up), DirectionChange::Rejected);
    assert_eq!(sg.snake.direction(), SnakeDirection::Up);
    assert_eq!(sg.change_direction(SnakeDirection::Left), DirectionChange::Accepted);
    assert_eq!(sg.snake.direction(), SnakeDirection::Left);
    assert_eq!(sg.change_direction(SnakeDirection::Up), DirectionChange::Rejected);
    assert_eq!(sg.snake.direction(), SnakeDirection::Left);
    assert_eq!(sg.snake.body()[0], Point::new(5, 0));
}

#[test]
fn turning_back_into_the_neck_is_accepted() {
    let mut sg = SnakeGrid::new_empty(10, 10);
    sg.move_snake();
    sg.move_snake();
    assert_eq!(sg.change_direction(SnakeDirection::Left), DirectionChange::Accepted);
    assert_eq!(sg.snake.direction(), SnakeDirection::Left);
}

#[test]
fn board_mirrors_body_after_every_tick() {
    let mut sg = SnakeGrid::new_empty(8, 6);
    let turns = [
        SnakeDirection::Up,
        SnakeDirection::Left,
        SnakeDirection::Left,
        SnakeDirection::Down,
        SnakeDirection::Down,
        SnakeDirection::Down,
        SnakeDirection::Right,
        SnakeDirection::Up,
    ];
    for d in turns {
        let before = sg.snake.direction();
        let changed = sg.change_direction(d);
        if changed == DirectionChange::Rejected {
            assert_eq!(sg.snake.direction(), before);
        }
        if sg.move_snake() == MoveOutcome::Advanced {
            let body = sg.snake.body();
            assert!(body.len() <= sg.snake.target_length());
            for w in body.windows(2) {
                assert!(adjacent(w[0], w[1]));
            }
        }
        assert!(mirrors_body(&sg));
    }
}

#[test]
fn text_snapshot_of_a_fresh_board() {
    let sg = SnakeGrid::new_empty(5, 3);
    assert_eq!(sg.grid.render(), "-----\n--###\n-----\n");
}
