use dcss_api::{convert_coords_to_relative, pathfinding, Node, Tile};

fn floor() -> Tile {
    Tile { mf: 1, walkable: true, blocked: false, explored: true }
}

fn wall() -> Tile {
    Tile { mf: 2, walkable: false, blocked: false, explored: true }
}

/// A 15 by 15 floor with a 7 by 7 walled box centred on (7, 7).
fn boxed() -> Vec<Vec<Tile>> {
    let mut tiles = vec![vec![floor(); 15]; 15];
    for i in 4..=10 {
        tiles[i][4] = wall();
        tiles[i][10] = wall();
        tiles[4][i] = wall();
        tiles[10][i] = wall();
    }
    tiles
}

fn is_step(a: (usize, usize), b: (usize, usize)) -> bool {
    a != b && a.0.abs_diff(b.0) <= 1 && a.1.abs_diff(b.1) <= 1
}

#[test]
fn box_adjacent_goal_is_one_step() {
    let tiles = boxed();
    let path = pathfinding(&tiles, (7, 7), Some((8, 7)), None, None, 100, false);
    assert_eq!(path, vec![(8, 7)]);
}

#[test]
fn box_goal_outside_walls_has_no_path() {
    let tiles = boxed();
    let path = pathfinding(&tiles, (7, 7), Some((12, 7)), None, None, 100, false);
    assert!(path.is_empty());
}

#[test]
fn box_cap_below_distance_gives_no_path() {
    let tiles = boxed();
    let path = pathfinding(&tiles, (7, 7), Some((9, 9)), None, None, 0, false);
    assert!(path.is_empty());
    let path = pathfinding(&tiles, (7, 7), Some((9, 9)), None, None, 1, false);
    assert!(path.is_empty());
    let path = pathfinding(&tiles, (7, 7), Some((9, 9)), None, None, 2, false);
    assert_eq!(path.len(), 2);
    assert!(is_step((7, 7), path[0]));
    assert_eq!(path[1], (9, 9));
}

#[test]
fn box_path_to_corner_is_valid() {
    let tiles = boxed();
    let path = pathfinding(&tiles, (5, 5), Some((9, 9)), None, None, 100, false);
    assert_eq!(path.len(), 4);
    let mut prev = (5, 5);
    for p in &path {
        assert!(is_step(prev, *p));
        assert!(tiles[p.0][p.1].walkable);
        prev = *p;
    }
    assert_eq!(prev, (9, 9));
}

#[test]
fn paths_are_deterministic() {
    let mut tiles = boxed();
    tiles[7][6].blocked = true;
    let first = pathfinding(&tiles, (6, 6), Some((8, 8)), None, None, 100, false);
    for _ in 0..5 {
        let again = pathfinding(&tiles, (6, 6), Some((8, 8)), None, None, 100, false);
        assert_eq!(first, again);
    }
}

#[test]
fn blocked_tiles_are_avoided_unless_ignored() {
    let mut tiles = vec![vec![wall(); 5]; 5];
    for x in 0..5 {
        tiles[x][2] = floor();
    }
    tiles[2][2].blocked = true;
    let path = pathfinding(&tiles, (0, 2), Some((4, 2)), None, None, 100, false);
    assert!(path.is_empty());
    let path = pathfinding(&tiles, (0, 2), Some((4, 2)), None, None, 100, true);
    assert_eq!(path, vec![(1, 2), (2, 2), (3, 2), (4, 2)]);
}

#[test]
fn feature_and_unexplored_goals() {
    let mut tiles = vec![vec![floor(); 5]; 5];
    tiles[4][4] = Tile { mf: 13, walkable: true, blocked: false, explored: true };
    let path = pathfinding(&tiles, (0, 0), None, Some(13), None, 100, false);
    assert_eq!(path.len(), 4);
    assert_eq!(path[3], (4, 4));
    tiles[0][3] = Tile { mf: 0, walkable: false, blocked: false, explored: false };
    let path = pathfinding(&tiles, (0, 0), None, None, Some("unexplored"), 100, false);
    assert_eq!(path.last(), Some(&(0, 3)));
    assert_eq!(path.len(), 3);
}

#[test]
fn start_that_is_a_goal_gives_no_path() {
    let tiles = boxed();
    let path = pathfinding(&tiles, (7, 7), Some((7, 7)), None, None, 100, false);
    assert!(path.is_empty());
}

#[test]
fn relative_steps_follow_the_path() {
    let steps = convert_coords_to_relative((7, 7), vec![(8, 7), (9, 8), (9, 9)]);
    assert_eq!(steps, vec![(1, 0), (1, 1), (0, 1)]);
}

#[test]
fn node_cost_uses_king_distance() {
    let mut node = Node {
        cost: 0,
        moves_done: 3,
        moves_to_goal: 0,
        location: (2, 9),
        end_goal: Some((7, 7)),
        parent_node: None,
        key_break: 0,
    };
    node.calc_cost();
    assert_eq!(node.moves_to_goal, 5);
    assert_eq!(node.cost, 8);
    let mut free = Node { end_goal: None, moves_to_goal: 0, ..node };
    free.calc_cost();
    assert_eq!(free.cost, 3);
}

/// The full-size grid with a walled 7 by 7 box around (250, 250).
fn big_box() -> Vec<Vec<Tile>> {
    let mut tiles = vec![vec![Tile::new(); 500]; 500];
    for x in 246..=254usize {
        for y in 246..=254usize {
            let d = x.abs_diff(250).max(y.abs_diff(250));
            if d <= 3 {
                tiles[x][y] = floor();
            } else if d == 4 {
                tiles[x][y] = wall();
            }
        }
    }
    tiles
}

#[test]
fn big_box_adjacent_goal() {
    let tiles = big_box();
    let path = pathfinding(&tiles, (250, 250), Some((251, 250)), None, None, 10_000, false);
    assert_eq!(path, vec![(251, 250)]);
}

#[test]
fn big_box_cap_below_distance() {
    let tiles = big_box();
    let path = pathfinding(&tiles, (250, 250), Some((253, 250)), None, None, 2, false);
    assert!(path.is_empty());
    let path = pathfinding(&tiles, (250, 250), Some((253, 250)), None, None, 3, false);
    assert_eq!(path, vec![(251, 250), (252, 250), (253, 250)]);
}

#[test]
fn big_box_goal_outside() {
    let tiles = big_box();
    let path = pathfinding(&tiles, (250, 250), Some((256, 250)), None, None, 10_000, false);
    assert!(path.is_empty());
}

#[test]
fn path_never_revisits() {
    let tiles = big_box();
    let path = pathfinding(&tiles, (247, 247), Some((253, 253)), None, None, 10_000, false);
    assert_eq!(path.len(), 6);
    for (i, a) in path.iter().enumerate() {
        assert_ne!(*a, (247, 247));
        for b in &path[i + 1..] {
            assert_ne!(a, b);
        }
    }
}
