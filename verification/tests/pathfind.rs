use terminal_hell::pathfind::{astar, WallGrid};

fn legal_walk(grid: &WallGrid, p: &[(i32, i32)]) -> bool {
    p.windows(2).all(|w| {
        let (a, b) = (w[0], w[1]);
        let (dx, dy) = (b.0 - a.0, b.1 - a.1);
        dx.abs() <= 1
            && dy.abs() <= 1
            && (dx, dy) != (0, 0)
            && !grid.is_wall(b.0, b.1)
            && (dx == 0 || dy == 0 || (!grid.is_wall(a.0 + dx, a.1) && !grid.is_wall(a.0, a.1 + dy)))
    })
}

#[test]
fn path_goes_around_a_wall() {
    let mut g = WallGrid::new(5, 5);
    for y in 0..4 {
        g.set_wall(2, y, true);
    }
    let p = astar(&g, (0, 0), (4, 0)).expect("reachable below the wall");
    assert_eq!(p[0], (0, 0));
    assert_eq!(*p.last().unwrap(), (4, 0));
    assert!(legal_walk(&g, &p));
    assert!(p.iter().any(|t| t.1 == 4));
}

#[test]
fn open_grid_path_is_straight() {
    let g = WallGrid::new(10, 3);
    let p = astar(&g, (0, 1), (6, 1)).unwrap();
    assert_eq!(p.len(), 7);
    assert!(legal_walk(&g, &p));
}

#[test]
fn same_tile_and_blocked_cases() {
    let mut g = WallGrid::new(5, 5);
    assert_eq!(astar(&g, (1, 1), (1, 1)), Some(vec![(1, 1)]));
    for y in 0..5 {
        g.set_wall(2, y, true);
    }
    let best = astar(&g, (0, 0), (4, 4)).expect("a walkable start gets the best path seen");
    assert_eq!(best[0], (0, 0));
    assert!(best.iter().all(|t| t.0 < 2));
    assert!(legal_walk(&g, &best));
    assert_eq!(astar(&g, (2, 2), (0, 0)), None);
    assert_eq!(astar(&g, (-1, 0), (0, 0)), None);
}

#[test]
fn walls_and_bounds() {
    let mut g = WallGrid::new(3, 2);
    assert_eq!((g.width(), g.height()), (3, 2));
    assert!(!g.is_wall(1, 1));
    g.set_wall(1, 1, true);
    assert!(g.is_wall(1, 1));
    g.set_wall(1, 1, false);
    assert!(!g.is_wall(1, 1));
    g.set_wall(7, 7, true);
    assert!(g.is_wall(3, 0));
    assert!(g.is_wall(0, -1));
}

#[test]
fn diagonal_path_is_cheapest() {
    let g = WallGrid::new(6, 6);
    let p = astar(&g, (0, 0), (3, 5)).unwrap();
    let cost: i32 = p
        .windows(2)
        .map(|w| if w[0].0 != w[1].0 && w[0].1 != w[1].1 { 14 } else { 10 })
        .sum();
    assert_eq!(cost, 3 * 14 + 2 * 10);
    assert!(legal_walk(&g, &p));
}

#[test]
fn big_grid_small_room_reaches_goal() {
    let mut g = WallGrid::new(1600, 800);
    for x in 10..=16 {
        g.set_wall(x, 10, true);
        g.set_wall(x, 16, true);
    }
    for y in 10..=16 {
        g.set_wall(10, y, true);
        g.set_wall(16, y, true);
    }
    g.set_wall(13, 11, true);
    g.set_wall(13, 12, true);
    g.set_wall(13, 13, true);
    let p = astar(&g, (11, 11), (15, 11)).expect("goal in the same room");
    assert_eq!(*p.last().unwrap(), (15, 11));
    assert!(legal_walk(&g, &p));
    let cost: i32 = p
        .windows(2)
        .map(|w| if w[0].0 != w[1].0 && w[0].1 != w[1].1 { 14 } else { 10 })
        .sum();
    // Around the partition's lower end: the cheapest walk costs 88.
    assert_eq!(cost, 88);
}

#[test]
fn sealed_room_ends_closest_to_goal() {
    let mut g = WallGrid::new(1600, 800);
    for x in 10..=14 {
        g.set_wall(x, 10, true);
        g.set_wall(x, 14, true);
    }
    for y in 10..=14 {
        g.set_wall(10, y, true);
        g.set_wall(14, y, true);
    }
    let p = astar(&g, (11, 11), (40, 13)).expect("a walkable start gets a path");
    assert_eq!(*p.last().unwrap(), (13, 13));
    assert!(legal_walk(&g, &p));
}
