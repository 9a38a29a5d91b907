use snake::{CellState, Grid, Point};

#[test]
fn test_grid_try_get() {
    let g = Grid::new_empty(0, 0);
    assert!(g.try_get(Point { x: 10, y: 10 }) == None);
}

#[test]
fn test_grid_display() {
    let mut g = Grid::new_empty(3, 3);
    g.cells[4] = CellState::Snake;
    let s = g.render();
    assert_eq!(s, "---\n-#-\n---\n".to_string());
}

#[test]
fn test_grid_debug() {
    let mut g = Grid::new_empty(3, 3);
    g.cells[4] = CellState::Snake;
    let s = format!("{:?}", g);
    assert_eq!(
        s,
        "Grid { width: 3, height: 3, cells: [Empty, Empty, Empty, Empty, Snake, Empty, Empty, Empty, Empty] }"
            .to_string()
    );
}

#[test]
fn contains_rejects_negative_and_large_coordinates() {
    let g = Grid::new_empty(4, 3);
    assert!(g.contains(&Point::new(0, 0)));
    assert!(g.contains(&Point::new(3, 2)));
    assert!(!g.contains(&Point::new(-1, 0)));
    assert!(!g.contains(&Point::new(0, -1)));
    assert!(!g.contains(&Point::new(4, 0)));
    assert!(!g.contains(&Point::new(0, 3)));
    assert!(!g.contains(&Point::new(i32::MIN, i32::MAX)));
    assert!(!g.contains(&Point::new(i32::MAX, 1)));
}

#[test]
fn pos_round_trips_every_index() {
    let g = Grid::new_empty(4, 3);
    for i in 0..12usize {
        let p = g.pos(i);
        assert!(g.contains(&p));
        assert_eq!((p.y as usize) * 4 + p.x as usize, i);
    }
    assert_eq!(g.pos(5), Point::new(1, 1));
    assert_eq!(g.pos(11), Point::new(3, 2));
}

#[test]
fn new_empty_fills_every_cell_with_empty() {
    let g = Grid::new_empty(5, 2);
    assert_eq!(g.width, 5);
    assert_eq!(g.height, 2);
    assert_eq!(g.cells.len(), 10);
    assert!(g.cells.iter().all(|c| *c == CellState::Empty));
    let d: Grid<CellState> = Grid::default();
    assert_eq!(d.cells.len(), 100);
}

#[test]
fn try_get_reads_the_addressed_cell() {
    let mut g = Grid::new_empty(3, 2);
    g.cells[5] = CellState::Apple;
    assert_eq!(g.try_get(Point::new(2, 1)), Some(&CellState::Apple));
    assert_eq!(g.try_get(Point::new(1, 1)), Some(&CellState::Empty));
    assert_eq!(g.try_get(Point::new(3, 1)), None);
    assert_eq!(g.try_get(Point::new(-1, 1)), None);
    assert_eq!(*g.at(Point::new(2, 1)), CellState::Apple);
}

#[test]
fn try_get_mut_writes_the_addressed_cell() {
    let mut g = Grid::new_empty(3, 2);
    if let Some(c) = g.try_get_mut(Point::new(1, 1)) {
        *c = CellState::Snake;
    }
    assert_eq!(g.cells[4], CellState::Snake);
    assert!(g.try_get_mut(Point::new(1, 2)).is_none());
    g.set(Point::new(0, 1), CellState::Apple);
    assert_eq!(g.cells[3], CellState::Apple);
}

#[test]
fn valid_moves_are_in_bounds_neighbours_in_order() {
    let g = Grid::new_empty(3, 3);
    assert_eq!(
        g.get_valid_moves(Point::new(1, 1)),
        vec![Point::new(1, 0), Point::new(1, 2), Point::new(0, 1), Point::new(2, 1)]
    );
    assert_eq!(g.get_valid_moves(Point::new(0, 0)), vec![Point::new(0, 1), Point::new(1, 0)]);
    assert_eq!(g.get_valid_moves(Point::new(2, 2)), vec![Point::new(2, 1), Point::new(1, 2)]);
    assert_eq!(g.get_valid_moves(Point::new(-5, -5)), Vec::<Point>::new());
}

#[test]
fn render_uses_one_glyph_per_cell_and_one_line_per_row() {
    let mut g = Grid::new_empty(4, 2);
    g.cells[0] = CellState::Snake;
    g.cells[7] = CellState::Apple;
    assert_eq!(g.render(), "#---\n---*\n");
    let empty = Grid::new_empty(0, 0);
    assert_eq!(empty.render(), "");
}

#[test]
fn point_arithmetic() {
    assert_eq!(Point::new(2, 3).shifted(Point::new(-1, 4)), Point::new(1, 7));
}
