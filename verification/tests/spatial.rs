use terminal_hell::spatial::{Entry, SpatialGrid};

/// World-space grid the way the game drives it: positions map to cells
/// by `p / cell_size` truncated toward zero.
struct WorldGrid {
    cell_size: f32,
    grid: SpatialGrid,
}

impl WorldGrid {
    fn new(arena_w: f32, arena_h: f32, cell_size: f32) -> Self {
        let cols = (arena_w / cell_size).ceil() as i32;
        let rows = (arena_h / cell_size).ceil() as i32;
        WorldGrid { cell_size, grid: SpatialGrid::new(cols, rows) }
    }

    fn cell(&self, x: f32, y: f32) -> (i32, i32) {
        if !x.is_finite() || !y.is_finite() {
            return (-1, -1);
        }
        ((x / self.cell_size) as i32, (y / self.cell_size) as i32)
    }

    fn insert(&mut self, idx: Entry, x: f32, y: f32) {
        let (cx, cy) = self.cell(x, y);
        self.grid.insert(idx, cx, cy);
    }

    fn for_each_near<F: FnMut(Entry)>(&self, x: f32, y: f32, f: F) {
        let (cx, cy) = self.cell(x, y);
        self.grid.for_each_near(cx, cy).into_iter().for_each(f);
    }

    fn for_each_in_radius<F: FnMut(Entry)>(&self, x: f32, y: f32, radius: f32, f: F) {
        let (cx, cy) = self.cell(x, y);
        let cells = (radius / self.cell_size).ceil() as i32;
        self.grid.for_each_in_radius(cx, cy, cells).into_iter().for_each(f);
    }
}

#[test]
fn insert_and_query_finds_nearby_entry() {
    let mut grid = WorldGrid::new(100.0, 100.0, 10.0);
    grid.insert(42, 25.0, 25.0);
    let mut found = Vec::new();
    grid.for_each_near(27.0, 27.0, |e| found.push(e));
    assert!(found.contains(&42));
}

#[test]
fn query_skips_distant_cells() {
    let mut grid = WorldGrid::new(100.0, 100.0, 10.0);
    grid.insert(1, 5.0, 5.0);
    grid.insert(2, 95.0, 95.0);
    let mut found = Vec::new();
    grid.for_each_near(5.0, 5.0, |e| found.push(e));
    assert!(found.contains(&1));
    assert!(!found.contains(&2));
}

#[test]
fn out_of_bounds_insert_is_no_op() {
    let mut grid = WorldGrid::new(100.0, 100.0, 10.0);
    grid.insert(7, -50.0, -50.0);
    grid.insert(8, 500.0, 500.0);
    let mut found = Vec::new();
    grid.for_each_near(0.0, 0.0, |e| found.push(e));
    grid.for_each_near(99.0, 99.0, |e| found.push(e));
    assert!(found.is_empty());
}

#[test]
fn clear_resets() {
    let mut grid = WorldGrid::new(100.0, 100.0, 10.0);
    grid.insert(1, 25.0, 25.0);
    grid.grid.clear();
    let mut found = Vec::new();
    grid.for_each_near(25.0, 25.0, |e| found.push(e));
    assert!(found.is_empty());
}

#[test]
fn radius_query_spans_multiple_cells() {
    let mut grid = WorldGrid::new(100.0, 100.0, 10.0);
    grid.insert(1, 10.0, 10.0);
    grid.insert(2, 30.0, 10.0);
    grid.insert(3, 60.0, 10.0);
    let mut found = Vec::new();
    grid.for_each_in_radius(20.0, 10.0, 15.0, |e| found.push(e));
    assert!(found.contains(&1));
    assert!(found.contains(&2));
    assert!(!found.contains(&3));
}

#[test]
fn near_visits_rows_in_order() {
    let mut g = SpatialGrid::new(4, 4);
    g.insert(1, 1, 1);
    g.insert(2, 0, 0);
    g.insert(3, 2, 2);
    g.insert(4, 0, 0);
    g.insert(5, 3, 3);
    assert_eq!(g.for_each_near(1, 1), vec![2, 4, 1, 3]);
    assert_eq!(g.for_each_near(0, 0), vec![2, 4, 1]);
    assert_eq!(g.for_each_near(4, 0), Vec::<Entry>::new());
    assert_eq!(g.for_each_in_radius(0, 0, 0), vec![2, 4, 1]);
    assert_eq!(g.for_each_in_radius(0, 0, 3), vec![2, 4, 1, 3, 5]);
}

#[test]
fn zero_sized_arena_still_has_a_cell() {
    let mut g = SpatialGrid::new(0, -3);
    g.insert(9, 0, 0);
    assert_eq!(g.for_each_near(0, 0), vec![9]);
}
