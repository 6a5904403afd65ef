use vstd::prelude::*;

use crate::coords::{within_one, AbsCoord};
use crate::text::str_eq;
use crate::tiles::{grid_cells, in_grid, tile_at, Tile};

verus! {

/// A search node: a cell reached by some path from the start.
#[derive(Clone, Copy, Debug)]
pub struct Node {
    /// Moves so far plus the estimate of the moves left.
    pub cost: u64,
    /// Moves from the start to this node.
    pub moves_done: u64,
    /// Estimate of the moves left to the goal.
    pub moves_to_goal: u64,
    /// Where the node is.
    pub location: AbsCoord,
    /// The cell searched for, when the goal is a cell.
    pub end_goal: Option<AbsCoord>,
    /// Index, among the expanded nodes, of the node this one was reached from.
    pub parent_node: Option<usize>,
    /// Creation order, which breaks ties between equal costs.
    pub key_break: u64,
}

/// The king-move distance between two cells.
pub open spec fn chebyshev(a: AbsCoord, b: AbsCoord) -> nat {
    let dx = if a.0 >= b.0 { a.0 - b.0 } else { b.0 - a.0 };
    let dy = if a.1 >= b.1 { a.1 - b.1 } else { b.1 - a.1 };
    if dx >= dy { dx as nat } else { dy as nat }
}

impl Node {
    /// Sets the estimate to the king-move distance to the goal cell (when there
    /// is one) and the cost to moves plus estimate, capped at `u64::MAX`.
    pub fn calc_cost(&mut self)
        ensures
            final(self).moves_to_goal == match old(self).end_goal {
                Some(g) => chebyshev(old(self).location, g) as u64,
                None => old(self).moves_to_goal,
            },
            final(self).cost as int == if old(self).moves_done + final(self).moves_to_goal
                <= u64::MAX {
                old(self).moves_done + final(self).moves_to_goal
            } else {
                u64::MAX as int
            },
            final(self).moves_done == old(self).moves_done,
            final(self).location == old(self).location,
            final(self).end_goal == old(self).end_goal,
            final(self).parent_node == old(self).parent_node,
            final(self).key_break == old(self).key_break,
    {
        if let Some(goal) = self.end_goal {
            let dx = if self.location.0 >= goal.0 {
                self.location.0 - goal.0
            } else {
                goal.0 - self.location.0
            };
            let dy = if self.location.1 >= goal.1 {
                self.location.1 - goal.1
            } else {
                goal.1 - self.location.1
            };
            let d = if dx >= dy {
                dx
            } else {
                dy
            };
            self.moves_to_goal = d as u64;
        }
        self.cost = self.moves_done.saturating_add(self.moves_to_goal);
    }
}

/// Two distinct cells one king move apart.
pub open spec fn adjacent(a: AbsCoord, b: AbsCoord) -> bool {
    within_one(a, b) && a != b
}

/// Whether a path may go through a cell: walkable, and not blocked unless
/// blocked cells count as free.
pub open spec fn passable(t: Tile, ignore_blocked: bool) -> bool {
    t.walkable && (ignore_blocked || !t.blocked)
}

/// Whether cell `p` ends a search: the goal cell, a cell of the wanted feature
/// code, or an unexplored cell when unexplored cells are searched for.
pub open spec fn is_goal(
    tiles: Seq<Vec<Tile>>,
    p: AbsCoord,
    end_location: Option<AbsCoord>,
    end_search_mf: Option<usize>,
    end_search_type: Option<Seq<char>>,
) -> bool {
    ||| end_location == Some(p)
    ||| (end_search_mf matches Some(k) && tile_at(tiles, p).mf == k)
    ||| (end_search_type == Some("unexplored"@) && !tile_at(tiles, p).explored)
}

/// `path` leads from `start` through passable cells, one king move at a time;
/// only its last cell may be impassable.
pub open spec fn valid_path(
    tiles: Seq<Vec<Tile>>,
    start: AbsCoord,
    path: Seq<AbsCoord>,
    ignore_blocked: bool,
) -> bool {
    &&& forall|i: int| 0 <= i < path.len() ==> in_grid(tiles, #[trigger] path[i])
    &&& path.len() > 0 ==> adjacent(start, path[0])
    &&& forall|i: int| 0 < i < path.len() ==> adjacent(path[i - 1], #[trigger] path[i])
    &&& forall|i: int|
        0 <= i < path.len() - 1 ==> passable(tile_at(tiles, #[trigger] path[i]), ignore_blocked)
}

/// The view of an optional string.
pub open spec fn opt_view(s: Option<&str>) -> Option<Seq<char>> {
    match s {
        Some(t) => Some(t@),
        None => None,
    }
}

/// The number of `true` entries.
pub open spec fn count_true(s: Seq<bool>) -> nat
    decreases s.len(),
{
    if s.len() == 0 {
        0
    } else {
        count_true(s.drop_last()) + if s.last() {
            1nat
        } else {
            0nat
        }
    }
}

/// The number of `true` entries of a grid of flags.
pub open spec fn grid_count(g: Seq<Vec<bool>>) -> nat
    decreases g.len(),
{
    if g.len() == 0 {
        0
    } else {
        grid_count(g.drop_last()) + count_true(g.last()@)
    }
}

/// Two grids have the same shape.
pub open spec fn same_shape(g: Seq<Vec<bool>>, tiles: Seq<Vec<Tile>>) -> bool {
    g.len() == tiles.len() && forall|x: int| 0 <= x < g.len() ==> #[trigger] g[x]@.len()
        == tiles[x]@.len()
}

proof fn lemma_count_true_le(s: Seq<bool>)
    ensures
        count_true(s) <= s.len(),
    decreases s.len(),
{
    if s.len() > 0 {
        lemma_count_true_le(s.drop_last());
    }
}

proof fn lemma_count_true_set(s: Seq<bool>, i: int)
    requires
        0 <= i < s.len(),
        !s[i],
    ensures
        count_true(s.update(i, true)) == count_true(s) + 1,
    decreases s.len(),
{
    let t = s.update(i, true);
    if i == s.len() - 1 {
        assert(t.drop_last() =~= s.drop_last());
    } else {
        assert(t.drop_last() =~= s.drop_last().update(i, true));
        lemma_count_true_set(s.drop_last(), i);
    }
}

proof fn lemma_grid_count_le(g: Seq<Vec<bool>>, tiles: Seq<Vec<Tile>>)
    requires
        same_shape(g, tiles),
    ensures
        grid_count(g) <= grid_cells(tiles),
    decreases g.len(),
{
    if g.len() > 0 {
        assert(same_shape(g.drop_last(), tiles.drop_last()));
        lemma_grid_count_le(g.drop_last(), tiles.drop_last());
        lemma_count_true_le(g.last()@);
        assert(g.last()@.len() == tiles.last()@.len());
    }
}

proof fn lemma_grid_count_set(g: Seq<Vec<bool>>, x: int, col: Vec<bool>, y: int)
    requires
        0 <= x < g.len(),
        0 <= y < g[x]@.len(),
        !g[x]@[y],
        col@ == g[x]@.update(y, true),
    ensures
        grid_count(g.update(x, col)) == grid_count(g) + 1,
    decreases g.len(),
{
    let h = g.update(x, col);
    if x == g.len() - 1 {
        assert(h.drop_last() =~= g.drop_last());
        lemma_count_true_set(g[x]@, y);
    } else {
        assert(h.drop_last() =~= g.drop_last().update(x, col));
        lemma_grid_count_set(g.drop_last(), x, col, y);
    }
}

/// The offset of direction `d`, of eight: the four sides, then the four diagonals.
pub open spec fn direction(d: int) -> (int, int) {
    if d == 0 {
        (-1, 0)
    } else if d == 1 {
        (1, 0)
    } else if d == 2 {
        (0, -1)
    } else if d == 3 {
        (0, 1)
    } else if d == 4 {
        (-1, -1)
    } else if d == 5 {
        (-1, 1)
    } else if d == 6 {
        (1, -1)
    } else {
        (1, 1)
    }
}

/// The cell one king move from `loc` in direction `d`, when it is on the grid.
pub open spec fn neighbor_at(tiles: Seq<Vec<Tile>>, loc: AbsCoord, d: int) -> Option<AbsCoord> {
    let x = loc.0 + direction(d).0;
    let y = loc.1 + direction(d).1;
    if 0 <= x < tiles.len() && 0 <= y < tiles[x]@.len() {
        Some((x as usize, y as usize))
    } else {
        None
    }
}

/// Every cell next to `loc` is reached in one of the eight directions.
proof fn lemma_neighbors_cover(tiles: Seq<Vec<Tile>>, loc: AbsCoord, q: AbsCoord)
    requires
        in_grid(tiles, q),
        adjacent(loc, q),
    ensures
        exists|d: int| 0 <= d < 8 && neighbor_at(tiles, loc, d) == Some(q),
{
    let dx = q.0 - loc.0;
    let dy = q.1 - loc.1;
    let d: int = if dx == -1 && dy == 0 {
        0
    } else if dx == 1 && dy == 0 {
        1
    } else if dx == 0 && dy == -1 {
        2
    } else if dx == 0 && dy == 1 {
        3
    } else if dx == -1 && dy == -1 {
        4
    } else if dx == -1 && dy == 1 {
        5
    } else if dx == 1 && dy == -1 {
        6
    } else {
        7
    };
    assert(neighbor_at(tiles, loc, d) == Some(q));
}

/// The cell one king move from `loc` in direction `d` (of eight), when it is on the grid.
fn neighbor(tiles: &[Vec<Tile>], loc: AbsCoord, d: usize) -> (r: Option<AbsCoord>)
    requires
        in_grid(tiles@, loc),
        d < 8,
    ensures
        r == neighbor_at(tiles@, loc, d as int),
        r matches Some(p) ==> in_grid(tiles@, p) && adjacent(loc, p),
{
    let (dx, dy): (i32, i32) = if d == 0 {
        (-1, 0)
    } else if d == 1 {
        (1, 0)
    } else if d == 2 {
        (0, -1)
    } else if d == 3 {
        (0, 1)
    } else if d == 4 {
        (-1, -1)
    } else if d == 5 {
        (-1, 1)
    } else if d == 6 {
        (1, -1)
    } else {
        (1, 1)
    };
    let x = if dx < 0 {
        if loc.0 == 0 {
            return None;
        }
        loc.0 - 1
    } else if dx > 0 {
        if loc.0 >= tiles.len() - 1 {
            return None;
        }
        loc.0 + 1
    } else {
        loc.0
    };
    let y = if dy < 0 {
        if loc.1 == 0 {
            return None;
        }
        loc.1 - 1
    } else if dy > 0 {
        if loc.1 >= tiles[x].len() || loc.1 + 1 >= tiles[x].len() {
            return None;
        }
        loc.1 + 1
    } else {
        loc.1
    };
    if y >= tiles[x].len() {
        return None;
    }
    Some((x, y))
}

/// Node `a` comes before node `b` in the frontier: lower cost, then earlier creation.
pub open spec fn before(a: Node, b: Node) -> bool {
    a.cost < b.cost || (a.cost == b.cost && a.key_break <= b.key_break)
}

/// The position of the frontier node that is expanded next.
fn min_index(open: &Vec<Node>) -> (r: usize)
    requires
        open.len() > 0,
    ensures
        r < open.len(),
        forall|j: int| 0 <= j < open.len() ==> before(open@[r as int], #[trigger] open@[j]),
{
    let mut best: usize = 0;
    let mut i: usize = 1;
    while i < open.len()
        invariant
            best < i <= open.len(),
            forall|j: int| 0 <= j < i ==> before(open@[best as int], #[trigger] open@[j]),
        decreases open.len() - i,
    {
        if open[i].cost < open[best].cost || (open[i].cost == open[best].cost
            && open[i].key_break < open[best].key_break) {
            best = i;
        }
        i += 1;
    }
    best
}

/// The links of the search tree: every node other than the start was reached by
/// one king move from an expanded node, onto a cell a path may go through.
pub open spec fn tree_node_ok(
    tiles: Seq<Vec<Tile>>,
    explored: Seq<Node>,
    n: Node,
    limit: int,
    start: AbsCoord,
    ignore_blocked: bool,
) -> bool {
    &&& in_grid(tiles, n.location)
    &&& match n.parent_node {
        None => n.location == start && n.moves_done == 0,
        Some(p) => {
            &&& 0 <= p < limit
            &&& p < explored.len()
            &&& adjacent(explored[p as int].location, n.location)
            &&& n.moves_done == explored[p as int].moves_done + 1
        },
    }
    &&& n.moves_done <= limit
}

/// The expanded nodes form a tree rooted at the start.
pub open spec fn tree_ok(
    tiles: Seq<Vec<Tile>>,
    explored: Seq<Node>,
    start: AbsCoord,
    ignore_blocked: bool,
) -> bool {
    &&& explored.len() > 0 ==> explored[0].parent_node is None
    &&& forall|i: int|
        0 <= i < explored.len() ==> tree_node_ok(
            tiles,
            explored,
            #[trigger] explored[i],
            i,
            start,
            ignore_blocked,
        )
    &&& forall|i: int|
        0 < i < explored.len() ==> passable(
            tile_at(tiles, (#[trigger] explored[i]).location),
            ignore_blocked,
        )
    &&& forall|i: int| 0 < i < explored.len() ==> (#[trigger] explored[i]).parent_node is Some
}

/// Whether cell `q` has been looked at.
pub open spec fn is_closed(closed: Seq<Vec<bool>>, q: AbsCoord) -> bool {
    closed[q.0 as int]@[q.1 as int]
}

/// Whether some node of `nodes` stands on `q`.
pub open spec fn located(nodes: Seq<Node>, q: AbsCoord) -> bool {
    exists|i: int| 0 <= i < nodes.len() && nodes[i].location == q
}

/// Every cell looked at is no goal, and is the start, or impassable, or has a node.
#[verifier::opaque]
pub open spec fn seen_ok(
    tiles: Seq<Vec<Tile>>,
    closed: Seq<Vec<bool>>,
    explored: Seq<Node>,
    open: Seq<Node>,
    start: AbsCoord,
    goal: spec_fn(AbsCoord) -> bool,
    ignore_blocked: bool,
) -> bool {
    forall|q: AbsCoord|
        in_grid(tiles, q) && #[trigger] is_closed(closed, q) ==> !goal(q) && (q == start
            || !passable(tile_at(tiles, q), ignore_blocked) || located(explored, q) || located(
            open,
            q,
        ))
}

/// All cells next to the first `upto` expanded nodes have been looked at.
#[verifier::opaque]
pub open spec fn expanded_ok(
    tiles: Seq<Vec<Tile>>,
    closed: Seq<Vec<bool>>,
    explored: Seq<Node>,
    upto: int,
) -> bool {
    forall|i: int, q: AbsCoord|
        0 <= i < upto && in_grid(tiles, q) && #[trigger] adjacent(explored[i].location, q)
            ==> is_closed(closed, q)
}

/// Some goal cell can be reached from `start` through passable cells.
pub open spec fn reachable(
    tiles: Seq<Vec<Tile>>,
    start: AbsCoord,
    end_location: Option<AbsCoord>,
    end_search_mf: Option<usize>,
    end_search_type: Option<Seq<char>>,
    ignore_blocked: bool,
) -> bool {
    exists|p: Seq<AbsCoord>|
        p.len() > 0 && valid_path(tiles, start, p, ignore_blocked) && is_goal(
            tiles,
            p.last(),
            end_location,
            end_search_mf,
            end_search_type,
        )
}

proof fn lemma_path_closed(
    tiles: Seq<Vec<Tile>>,
    closed: Seq<Vec<bool>>,
    explored: Seq<Node>,
    start: AbsCoord,
    goal: spec_fn(AbsCoord) -> bool,
    ignore_blocked: bool,
    p: Seq<AbsCoord>,
    k: int,
)
    requires
        expanded_ok(tiles, closed, explored, explored.len() as int),
        seen_ok(tiles, closed, explored, Seq::empty(), start, goal, ignore_blocked),
        explored.len() > 0,
        explored[0].location == start,
        valid_path(tiles, start, p, ignore_blocked),
        0 <= k < p.len(),
    ensures
        is_closed(closed, p[k]),
        !goal(p[k]),
    decreases k,
{
    reveal(seen_ok);
    reveal(expanded_ok);
    if k == 0 {
        assert(adjacent(explored[0].location, p[0]));
    } else {
        lemma_path_closed(tiles, closed, explored, start, goal, ignore_blocked, p, k - 1);
        let prev = p[k - 1];
        assert(in_grid(tiles, prev));
        assert(passable(tile_at(tiles, prev), ignore_blocked));
        assert(adjacent(p[k - 1], p[k]));
        if prev == start {
            assert(adjacent(explored[0].location, p[k]));
        } else {
            assert(located(explored, prev) || located(Seq::<Node>::empty(), prev));
            let i = choose|i: int| 0 <= i < explored.len() && explored[i].location == prev;
            assert(adjacent(explored[i].location, p[k]));
        }
    }
}

proof fn lemma_pop_keeps(
    tiles: Seq<Vec<Tile>>,
    closed: Seq<Vec<bool>>,
    explored_before: Seq<Node>,
    open_before: Seq<Node>,
    idx: int,
    explored: Seq<Node>,
    open: Seq<Node>,
    start: AbsCoord,
    goal: spec_fn(AbsCoord) -> bool,
    ignore_blocked: bool,
    searching: bool,
)
    requires
        0 <= idx < open_before.len(),
        explored == explored_before.push(open_before[idx]),
        open == open_before.remove(idx),
        searching ==> seen_ok(tiles, closed, explored_before, open_before, start, goal, ignore_blocked),
        expanded_ok(tiles, closed, explored_before, explored_before.len() as int),
    ensures
        searching ==> seen_ok(tiles, closed, explored, open, start, goal, ignore_blocked),
        expanded_ok(tiles, closed, explored, explored_before.len() as int),
{
    reveal(seen_ok);
    reveal(expanded_ok);
    assert forall|q: AbsCoord| located(explored_before, q) implies located(explored, q) by {
        let i = choose|i: int| 0 <= i < explored_before.len() && explored_before[i].location == q;
        assert(explored[i] == explored_before[i]);
    }
    assert forall|q: AbsCoord| located(open_before, q) implies located(explored, q) || located(open, q) by {
        let i = choose|i: int| 0 <= i < open_before.len() && open_before[i].location == q;
        if i == idx {
            assert(explored[explored.len() - 1].location == q);
        } else if i < idx {
            assert(open[i] == open_before[i]);
        } else {
            assert(open[i - 1] == open_before[i]);
        }
    }
    assert forall|i: int, q: AbsCoord|
        0 <= i < explored_before.len() && in_grid(tiles, q) && #[trigger] adjacent(explored[i].location, q)
        implies is_closed(closed, q) by {
        assert(explored[i] == explored_before[i]);
        assert(adjacent(explored_before[i].location, q));
    }
}

proof fn lemma_visit_keeps(
    tiles: Seq<Vec<Tile>>,
    closed_before: Seq<Vec<bool>>,
    closed: Seq<Vec<bool>>,
    explored: Seq<Node>,
    open_before: Seq<Node>,
    open: Seq<Node>,
    start: AbsCoord,
    goal: spec_fn(AbsCoord) -> bool,
    ignore_blocked: bool,
    cell: AbsCoord,
    walk: bool,
)
    requires
        seen_ok(tiles, closed_before, explored, open_before, start, goal, ignore_blocked),
        in_grid(tiles, cell),
        !goal(cell),
        walk == passable(tile_at(tiles, cell), ignore_blocked),
        walk ==> open.len() == open_before.len() + 1 && open.last().location == cell,
        !walk ==> open == open_before,
        forall|i: int| 0 <= i < open_before.len() ==> open[i] == open_before[i],
        forall|q: AbsCoord|
            in_grid(tiles, q) && q != cell ==> (#[trigger] is_closed(closed, q) == is_closed(closed_before, q)),
    ensures
        seen_ok(tiles, closed, explored, open, start, goal, ignore_blocked),
{
    reveal(seen_ok);
    reveal(expanded_ok);
    assert forall|q: AbsCoord| located(open_before, q) implies located(open, q) by {
        let i = choose|i: int| 0 <= i < open_before.len() && open_before[i].location == q;
        assert(open[i] == open_before[i]);
    }
    assert forall|q: AbsCoord| in_grid(tiles, q) && #[trigger] is_closed(closed, q) implies !goal(q) && (q == start
        || !passable(tile_at(tiles, q), ignore_blocked) || located(explored, q) || located(open, q)) by {
        if q == cell {
            if walk {
                assert(open[open.len() - 1].location == cell);
            }
        } else {
            assert(is_closed(closed_before, q));
        }
    }
}

proof fn lemma_expansion_done(
    tiles: Seq<Vec<Tile>>,
    closed: Seq<Vec<bool>>,
    explored: Seq<Node>,
    index: int,
    loc: AbsCoord,
)
    requires
        0 <= index,
        index + 1 == explored.len(),
        explored[index].location == loc,
        expanded_ok(tiles, closed, explored, index),
        forall|e: int|
            0 <= e < 8 ==> (#[trigger] neighbor_at(tiles, loc, e) matches Some(q) ==> is_closed(closed, q)),
    ensures
        expanded_ok(tiles, closed, explored, explored.len() as int),
{
    reveal(seen_ok);
    reveal(expanded_ok);
    assert forall|i: int, q: AbsCoord|
        0 <= i < explored.len() && in_grid(tiles, q) && #[trigger] adjacent(explored[i].location, q)
        implies is_closed(closed, q) by {
        if i == index {
            lemma_neighbors_cover(tiles, loc, q);
            let e = choose|e: int| 0 <= e < 8 && neighbor_at(tiles, loc, e) == Some(q);
            assert(neighbor_at(tiles, loc, e) matches Some(q2) ==> is_closed(closed, q2));
        }
    }
}

proof fn lemma_expanded_grows(
    tiles: Seq<Vec<Tile>>,
    closed_before: Seq<Vec<bool>>,
    closed: Seq<Vec<bool>>,
    explored: Seq<Node>,
    upto: int,
)
    requires
        expanded_ok(tiles, closed_before, explored, upto),
        forall|q: AbsCoord|
            in_grid(tiles, q) && is_closed(closed_before, q) ==> #[trigger] is_closed(closed, q),
    ensures
        expanded_ok(tiles, closed, explored, upto),
{
    reveal(expanded_ok);
}

proof fn lemma_search_starts(
    tiles: Seq<Vec<Tile>>,
    closed: Seq<Vec<bool>>,
    open: Seq<Node>,
    start: AbsCoord,
    goal: spec_fn(AbsCoord) -> bool,
    ignore_blocked: bool,
)
    requires
        !goal(start),
        forall|q: AbsCoord| in_grid(tiles, q) && #[trigger] is_closed(closed, q) ==> q == start,
    ensures
        seen_ok(tiles, closed, Seq::empty(), open, start, goal, ignore_blocked),
        expanded_ok(tiles, closed, Seq::empty(), 0),
{
    reveal(seen_ok);
    reveal(expanded_ok);
}

/// Some cell next to `start` ends the search.
pub open spec fn goal_next_to(
    tiles: Seq<Vec<Tile>>,
    start: AbsCoord,
    end_location: Option<AbsCoord>,
    end_search_mf: Option<usize>,
    end_search_type: Option<Seq<char>>,
) -> bool {
    exists|q: AbsCoord|
        in_grid(tiles, q) && adjacent(start, q) && is_goal(tiles, q, end_location, end_search_mf, end_search_type)
}

proof fn lemma_no_goal_next(
    tiles: Seq<Vec<Tile>>,
    closed: Seq<Vec<bool>>,
    explored: Seq<Node>,
    open: Seq<Node>,
    start: AbsCoord,
    goal: spec_fn(AbsCoord) -> bool,
    ignore_blocked: bool,
)
    requires
        seen_ok(tiles, closed, explored, open, start, goal, ignore_blocked),
        expanded_ok(tiles, closed, explored, explored.len() as int),
        explored.len() > 0,
        explored[0].location == start,
    ensures
        forall|q: AbsCoord| in_grid(tiles, q) && adjacent(start, q) ==> !goal(q),
{
    reveal(seen_ok);
    reveal(expanded_ok);
    assert forall|q: AbsCoord| in_grid(tiles, q) && adjacent(start, q) implies !goal(q) by {
        assert(adjacent(explored[0].location, q));
    }
}

/// No two nodes stand on the same cell.
#[verifier::opaque]
pub open spec fn nodes_distinct(explored: Seq<Node>, open: Seq<Node>) -> bool {
    &&& forall|i: int, j: int| 0 <= i < j < explored.len() ==> explored[i].location != explored[j].location
    &&& forall|i: int, j: int| 0 <= i < explored.len() && 0 <= j < open.len() ==> explored[i].location != open[j].location
    &&& forall|i: int, j: int| 0 <= i < j < open.len() ==> open[i].location != open[j].location
}

/// Every node stands on a cell that has been looked at.
#[verifier::opaque]
pub open spec fn nodes_closed(tiles: Seq<Vec<Tile>>, closed: Seq<Vec<bool>>, explored: Seq<Node>, open: Seq<Node>) -> bool {
    &&& forall|i: int|
        0 <= i < explored.len() ==> in_grid(tiles, #[trigger] explored[i].location) && is_closed(closed, explored[i].location)
    &&& forall|i: int| 0 <= i < open.len() ==> in_grid(tiles, #[trigger] open[i].location) && is_closed(closed, open[i].location)
}

proof fn lemma_distinct_pop(
    explored_before: Seq<Node>,
    open_before: Seq<Node>,
    idx: int,
    explored: Seq<Node>,
    open: Seq<Node>,
    tiles: Seq<Vec<Tile>>,
    closed: Seq<Vec<bool>>,
)
    requires
        0 <= idx < open_before.len(),
        explored == explored_before.push(open_before[idx]),
        open == open_before.remove(idx),
        nodes_distinct(explored_before, open_before),
        nodes_closed(tiles, closed, explored_before, open_before),
    ensures
        nodes_distinct(explored, open),
        nodes_closed(tiles, closed, explored, open),
{
    reveal(nodes_distinct);
    reveal(nodes_closed);
    let n = explored_before.len() as int;
    assert forall|j: int| 0 <= j < open.len() implies #[trigger] open[j] == (if j < idx { open_before[j] } else { open_before[j + 1] }) by {}
    assert forall|i: int, j: int| 0 <= i < j < explored.len() implies explored[i].location != explored[j].location by {
        if j == n {
            assert(explored[i] == explored_before[i]);
        } else {
            assert(explored[i] == explored_before[i]);
            assert(explored[j] == explored_before[j]);
        }
    }
    assert forall|i: int, j: int| 0 <= i < explored.len() && 0 <= j < open.len() implies explored[i].location != open[j].location by {
        if i < n {
            assert(explored[i] == explored_before[i]);
        }
    }
    assert forall|i: int| 0 <= i < explored.len() implies in_grid(tiles, #[trigger] explored[i].location) && is_closed(closed, explored[i].location) by {
        if i < n {
            assert(explored[i] == explored_before[i]);
        }
    }
}

proof fn lemma_distinct_new(
    explored: Seq<Node>,
    open_before: Seq<Node>,
    open: Seq<Node>,
    tiles: Seq<Vec<Tile>>,
    closed_before: Seq<Vec<bool>>,
    closed: Seq<Vec<bool>>,
    cell: AbsCoord,
)
    requires
        nodes_distinct(explored, open_before),
        nodes_closed(tiles, closed_before, explored, open_before),
        !is_closed(closed_before, cell),
        is_closed(closed, cell),
        in_grid(tiles, cell),
        forall|q: AbsCoord| in_grid(tiles, q) && is_closed(closed_before, q) ==> #[trigger] is_closed(closed, q),
        open == open_before || (open.len() == open_before.len() + 1 && open.drop_last() == open_before
            && open.last().location == cell),
    ensures
        nodes_distinct(explored, open),
        nodes_closed(tiles, closed, explored, open),
        forall|i: int| 0 <= i < explored.len() ==> #[trigger] explored[i].location != cell,
{
    reveal(nodes_distinct);
    reveal(nodes_closed);
    assert forall|i: int| 0 <= i < explored.len() implies #[trigger] explored[i].location != cell by {
        assert(is_closed(closed_before, explored[i].location));
    }
    if open != open_before {
        assert forall|j: int| 0 <= j < open_before.len() implies #[trigger] open[j] == open_before[j] by {
            assert(open[j] == open.drop_last()[j]);
        }
        assert forall|j: int| 0 <= j < open_before.len() implies open_before[j].location != cell by {
            assert(is_closed(closed_before, open_before[j].location));
        }
    }
}

proof fn lemma_distinct_explored(explored: Seq<Node>, open: Seq<Node>, i: int, j: int)
    requires
        nodes_distinct(explored, open),
        0 <= i < explored.len(),
        0 <= j < explored.len(),
        i != j,
    ensures
        explored[i].location != explored[j].location,
{
    reveal(nodes_distinct);
}

/// A walk of exactly `n` moves from `start` through passable cells, never
/// coming back to a cell or to the start.
pub open spec fn long_walk(tiles: Seq<Vec<Tile>>, start: AbsCoord, n: int, ignore_blocked: bool) -> bool {
    exists|p: Seq<AbsCoord>|
        p.len() == n && valid_path(tiles, start, p, ignore_blocked) && (forall|i: int|
            0 <= i < p.len() ==> passable(tile_at(tiles, #[trigger] p[i]), ignore_blocked) && p[i] != start)
            && (forall|a: int, b: int| 0 <= a < b < p.len() ==> p[a] != p[b])
}

/// The walk through the search tree from the start to expanded node `k`.
proof fn lemma_chain(
    tiles: Seq<Vec<Tile>>,
    explored: Seq<Node>,
    open: Seq<Node>,
    start: AbsCoord,
    ignore_blocked: bool,
    k: int,
) -> (r: (Seq<AbsCoord>, Seq<int>))
    requires
        tree_ok(tiles, explored, start, ignore_blocked),
        nodes_distinct(explored, open),
        0 <= k < explored.len(),
        explored[0].location == start,
    ensures
        r.0.len() == explored[k].moves_done,
        r.1.len() == r.0.len(),
        valid_path(tiles, start, r.0, ignore_blocked),
        r.0.len() > 0 ==> r.0.last() == explored[k].location && r.1.last() == k,
        r.0.len() == 0 ==> explored[k].location == start,
        forall|i: int| 0 <= i < r.1.len() ==> 0 < #[trigger] r.1[i] <= k && r.0[i] == explored[r.1[i]].location,
        forall|a: int, b: int| 0 <= a < b < r.1.len() ==> r.1[a] < r.1[b],
    decreases k,
{
    assert(tree_node_ok(tiles, explored, explored[k], k, start, ignore_blocked));
    match explored[k].parent_node {
        None => (Seq::empty(), Seq::empty()),
        Some(q) => {
            let (p, ix) = lemma_chain(tiles, explored, open, start, ignore_blocked, q as int);
            let p2 = p.push(explored[k].location);
            let ix2 = ix.push(k);
            assert(k != 0);
            assert(p2.len() > 1 ==> adjacent(p2[p2.len() - 2], p2.last()));
            assert forall|i: int| 0 < i < p2.len() implies adjacent(p2[i - 1], #[trigger] p2[i]) by {
                if i < p2.len() - 1 {
                    assert(p2[i] == p[i] && p2[i - 1] == p[i - 1]);
                }
            }
            assert forall|i: int| 0 <= i < p2.len() - 1 implies passable(tile_at(tiles, #[trigger] p2[i]), ignore_blocked) by {
                assert(p2[i] == p[i]);
                assert(p[i] == explored[ix[i]].location);
            }
            assert forall|i: int| 0 <= i < p2.len() implies in_grid(tiles, #[trigger] p2[i]) by {
                if i < p.len() {
                    assert(p2[i] == p[i]);
                }
            }
            (p2, ix2)
        },
    }
}

proof fn lemma_capped_walk(
    tiles: Seq<Vec<Tile>>,
    explored: Seq<Node>,
    open: Seq<Node>,
    start: AbsCoord,
    ignore_blocked: bool,
    k: int,
    n: int,
)
    requires
        tree_ok(tiles, explored, start, ignore_blocked),
        nodes_distinct(explored, open),
        0 <= k < explored.len(),
        explored[0].location == start,
        0 <= n <= explored[k].moves_done,
    ensures
        long_walk(tiles, start, n, ignore_blocked),
{
    let (p, ix) = lemma_chain(tiles, explored, open, start, ignore_blocked, k);
    let w = p.take(n);
    assert forall|i: int| 0 <= i < w.len() implies passable(tile_at(tiles, #[trigger] w[i]), ignore_blocked) && w[i] != start by {
        assert(w[i] == explored[ix[i]].location);
        lemma_distinct_explored(explored, open, ix[i], 0);
    }
    assert forall|a: int, b: int| 0 <= a < b < w.len() implies w[a] != w[b] by {
        lemma_distinct_explored(explored, open, ix[a], ix[b]);
    }
    assert forall|i: int| 0 < i < w.len() implies adjacent(w[i - 1], #[trigger] w[i]) by {
        assert(w[i] == p[i] && w[i - 1] == p[i - 1]);
    }
    assert forall|i: int| 0 <= i < w.len() implies in_grid(tiles, #[trigger] w[i]) by {
        assert(w[i] == p[i]);
    }
    assert(valid_path(tiles, start, w, ignore_blocked));
}

/// A walk of `n` moves from `start` to `q`, every cell but the last passable.
pub open spec fn walk_to(tiles: Seq<Vec<Tile>>, start: AbsCoord, q: AbsCoord, n: int, ignore_blocked: bool) -> bool {
    exists|p: Seq<AbsCoord>|
        p.len() == n && valid_path(tiles, start, p, ignore_blocked) && (if n == 0 {
            q == start
        } else {
            p.last() == q
        })
}

/// Every cell that a walk of at most `layer` moves reaches has been looked at.
#[verifier::opaque]
pub open spec fn layer_ok(
    tiles: Seq<Vec<Tile>>,
    closed: Seq<Vec<bool>>,
    start: AbsCoord,
    ignore_blocked: bool,
    layer: int,
) -> bool {
    forall|q: AbsCoord, n: int|
        in_grid(tiles, q) && 0 <= n <= layer && #[trigger] walk_to(tiles, start, q, n, ignore_blocked) ==> is_closed(closed, q)
}

/// No walk reaches a frontier node's cell in fewer moves than the node made.
#[verifier::opaque]
pub open spec fn open_optimal(
    tiles: Seq<Vec<Tile>>,
    open: Seq<Node>,
    start: AbsCoord,
    ignore_blocked: bool,
) -> bool {
    forall|i: int, n: int|
        0 <= i < open.len() && #[trigger] walk_to(tiles, start, open[i].location, n, ignore_blocked) ==> open[i].moves_done <= n
}

proof fn lemma_walk_prefix(tiles: Seq<Vec<Tile>>, start: AbsCoord, q: AbsCoord, n: int, ignore_blocked: bool) -> (c: AbsCoord)
    requires
        n >= 1,
        walk_to(tiles, start, q, n, ignore_blocked),
    ensures
        walk_to(tiles, start, c, n - 1, ignore_blocked),
        adjacent(c, q),
        c == start || (in_grid(tiles, c) && passable(tile_at(tiles, c), ignore_blocked)),
        in_grid(tiles, q),
{
    let p = choose|p: Seq<AbsCoord>|
        p.len() == n && valid_path(tiles, start, p, ignore_blocked) && (if n == 0 {
            q == start
        } else {
            p.last() == q
        });
    let w = p.take(n - 1);
    assert(valid_path(tiles, start, w, ignore_blocked));
    assert(in_grid(tiles, p[n - 1]));
    if n == 1 {
        assert(walk_to(tiles, start, start, 0, ignore_blocked)) by {
            assert(valid_path(tiles, start, Seq::<AbsCoord>::empty(), ignore_blocked));
        }
        start
    } else {
        assert(w.last() == p[n - 2]);
        assert(walk_to(tiles, start, p[n - 2], n - 1, ignore_blocked));
        assert(adjacent(p[n - 2], p[n - 1]));
        p[n - 2]
    }
}

/// Some goal is reached by a walk of at most `n` moves through passable cells.
pub open spec fn goal_within(
    tiles: Seq<Vec<Tile>>,
    start: AbsCoord,
    end_location: Option<AbsCoord>,
    end_search_mf: Option<usize>,
    end_search_type: Option<Seq<char>>,
    ignore_blocked: bool,
    n: int,
) -> bool {
    exists|p: Seq<AbsCoord>|
        0 < p.len() <= n && valid_path(tiles, start, p, ignore_blocked) && is_goal(
            tiles,
            p.last(),
            end_location,
            end_search_mf,
            end_search_type,
        )
}

proof fn lemma_layer_start(tiles: Seq<Vec<Tile>>, closed: Seq<Vec<bool>>, start: AbsCoord, ignore_blocked: bool)
    requires
        is_closed(closed, start),
    ensures
        layer_ok(tiles, closed, start, ignore_blocked, 0),
{
    reveal(layer_ok);
}

proof fn lemma_layer_grows(
    tiles: Seq<Vec<Tile>>,
    closed_before: Seq<Vec<bool>>,
    closed: Seq<Vec<bool>>,
    start: AbsCoord,
    ignore_blocked: bool,
    layer: int,
)
    requires
        layer_ok(tiles, closed_before, start, ignore_blocked, layer),
        forall|q: AbsCoord| in_grid(tiles, q) && is_closed(closed_before, q) ==> #[trigger] is_closed(closed, q),
    ensures
        layer_ok(tiles, closed, start, ignore_blocked, layer),
{
    reveal(layer_ok);
}

proof fn lemma_layer_advance(
    tiles: Seq<Vec<Tile>>,
    closed: Seq<Vec<bool>>,
    explored: Seq<Node>,
    open: Seq<Node>,
    start: AbsCoord,
    goal: spec_fn(AbsCoord) -> bool,
    ignore_blocked: bool,
    layer: int,
    next: int,
)
    requires
        0 <= layer <= next <= layer + 1,
        layer_ok(tiles, closed, start, ignore_blocked, layer),
        seen_ok(tiles, closed, explored, open, start, goal, ignore_blocked),
        expanded_ok(tiles, closed, explored, explored.len() as int),
        open_optimal(tiles, open, start, ignore_blocked),
        forall|i: int| 0 <= i < open.len() ==> (#[trigger] open[i]).moves_done >= next,
        next > layer ==> explored.len() > 0 && explored[0].location == start,
    ensures
        layer_ok(tiles, closed, start, ignore_blocked, next),
{
    reveal(layer_ok);
    if next > layer {
        assert forall|q: AbsCoord, n: int|
            in_grid(tiles, q) && 0 <= n <= next && #[trigger] walk_to(tiles, start, q, n, ignore_blocked) implies is_closed(closed, q) by {
            if n == next {
                let c = lemma_walk_prefix(tiles, start, q, n, ignore_blocked);
                reveal(seen_ok);
                reveal(expanded_ok);
                reveal(open_optimal);
                if c == start {
                    assert(adjacent(explored[0].location, q));
                } else {
                    assert(is_closed(closed, c));
                    if located(open, c) {
                        let i = choose|i: int| 0 <= i < open.len() && open[i].location == c;
                        assert(walk_to(tiles, start, open[i].location, n - 1, ignore_blocked));
                        assert(open[i].moves_done <= n - 1);
                    } else {
                        let i = choose|i: int| 0 <= i < explored.len() && explored[i].location == c;
                        assert(adjacent(explored[i].location, q));
                    }
                }
            }
        }
    }
}

proof fn lemma_open_optimal_pop(tiles: Seq<Vec<Tile>>, open_before: Seq<Node>, idx: int, open: Seq<Node>, start: AbsCoord, ignore_blocked: bool)
    requires
        0 <= idx < open_before.len(),
        open == open_before.remove(idx),
        open_optimal(tiles, open_before, start, ignore_blocked),
    ensures
        open_optimal(tiles, open, start, ignore_blocked),
{
    reveal(open_optimal);
    assert forall|i: int, n: int| 0 <= i < open.len() && #[trigger] walk_to(tiles, start, open[i].location, n, ignore_blocked) implies open[i].moves_done <= n by {
        if i < idx {
            assert(open[i] == open_before[i]);
        } else {
            assert(open[i] == open_before[i + 1]);
        }
    }
}

proof fn lemma_open_optimal_push(
    tiles: Seq<Vec<Tile>>,
    closed_before: Seq<Vec<bool>>,
    open_before: Seq<Node>,
    open: Seq<Node>,
    start: AbsCoord,
    ignore_blocked: bool,
    layer: int,
    cell: AbsCoord,
)
    requires
        open_optimal(tiles, open_before, start, ignore_blocked),
        layer_ok(tiles, closed_before, start, ignore_blocked, layer),
        in_grid(tiles, cell),
        !is_closed(closed_before, cell),
        open == open_before || (open.len() == open_before.len() + 1 && open.drop_last() == open_before
            && open.last().location == cell && open.last().moves_done == layer + 1),
    ensures
        open_optimal(tiles, open, start, ignore_blocked),
        forall|n: int| #[trigger] walk_to(tiles, start, cell, n, ignore_blocked) ==> n >= layer + 1,
{
    reveal(open_optimal);
    reveal(layer_ok);
    assert forall|n: int| #[trigger] walk_to(tiles, start, cell, n, ignore_blocked) implies n >= layer + 1 by {
        if n <= layer {
            if n >= 0 {
                assert(is_closed(closed_before, cell));
            }
        }
    }
    if open != open_before {
        assert forall|i: int, n: int| 0 <= i < open.len() && #[trigger] walk_to(tiles, start, open[i].location, n, ignore_blocked) implies open[i].moves_done <= n by {
            if i < open_before.len() {
                assert(open[i] == open_before[i]);
            }
        }
    }
}

proof fn lemma_goal_beyond_layer(
    tiles: Seq<Vec<Tile>>,
    closed: Seq<Vec<bool>>,
    explored: Seq<Node>,
    open: Seq<Node>,
    start: AbsCoord,
    end_location: Option<AbsCoord>,
    end_search_mf: Option<usize>,
    end_search_type: Option<Seq<char>>,
    goal: spec_fn(AbsCoord) -> bool,
    ignore_blocked: bool,
    layer: int,
)
    requires
        layer >= 0,
        layer_ok(tiles, closed, start, ignore_blocked, layer),
        seen_ok(tiles, closed, explored, open, start, goal, ignore_blocked),
        goal == (|p: AbsCoord| is_goal(tiles, p, end_location, end_search_mf, end_search_type)),
    ensures
        !goal_within(tiles, start, end_location, end_search_mf, end_search_type, ignore_blocked, layer),
{
    reveal(layer_ok);
    reveal(seen_ok);
    if goal_within(tiles, start, end_location, end_search_mf, end_search_type, ignore_blocked, layer) {
        let p = choose|p: Seq<AbsCoord>|
            0 < p.len() <= layer && valid_path(tiles, start, p, ignore_blocked) && is_goal(
                tiles,
                p.last(),
                end_location,
                end_search_mf,
                end_search_type,
            );
        assert(walk_to(tiles, start, p.last(), p.len() as int, ignore_blocked));
        assert(in_grid(tiles, p[p.len() - 1]));
        assert(is_closed(closed, p.last()));
        assert(goal(p.last()));
    }
}

/// The frontier is layered: cells within `layer` moves have been looked at,
/// frontier nodes made no more moves than needed, all of them `layer` or
/// `layer + 1` moves, and each costs its moves.
#[verifier::opaque]
pub open spec fn layered(
    tiles: Seq<Vec<Tile>>,
    closed: Seq<Vec<bool>>,
    open: Seq<Node>,
    start: AbsCoord,
    ignore_blocked: bool,
    layer: int,
) -> bool {
    &&& layer >= 0
    &&& layer_ok(tiles, closed, start, ignore_blocked, layer)
    &&& open_optimal(tiles, open, start, ignore_blocked)
    &&& forall|i: int|
        0 <= i < open.len() ==> layer <= (#[trigger] open[i]).moves_done <= layer + 1 && open[i].cost
            == open[i].moves_done
}

proof fn lemma_layered_pop(
    tiles: Seq<Vec<Tile>>,
    closed: Seq<Vec<bool>>,
    explored_before: Seq<Node>,
    open_before: Seq<Node>,
    idx: int,
    open: Seq<Node>,
    start: AbsCoord,
    goal: spec_fn(AbsCoord) -> bool,
    ignore_blocked: bool,
    layer: int,
)
    requires
        0 <= idx < open_before.len(),
        open == open_before.remove(idx),
        layered(tiles, closed, open_before, start, ignore_blocked, layer),
        forall|j: int| 0 <= j < open_before.len() ==> before(open_before[idx], #[trigger] open_before[j]),
        seen_ok(tiles, closed, explored_before, open_before, start, goal, ignore_blocked),
        expanded_ok(tiles, closed, explored_before, explored_before.len() as int),
        explored_before.len() == 0 ==> layer == 0 && open_before[idx].moves_done == 0,
        explored_before.len() > 0 ==> explored_before[0].location == start,
    ensures
        layered(tiles, closed, open, start, ignore_blocked, open_before[idx].moves_done as int),
{
    reveal(layered);
    let next = open_before[idx].moves_done as int;
    assert forall|i: int| 0 <= i < open_before.len() implies (#[trigger] open_before[i]).moves_done >= next by {
        assert(before(open_before[idx], open_before[i]));
    }
    lemma_layer_advance(tiles, closed, explored_before, open_before, start, goal, ignore_blocked, layer, next);
    lemma_open_optimal_pop(tiles, open_before, idx, open, start, ignore_blocked);
    assert forall|i: int| 0 <= i < open.len() implies next <= (#[trigger] open[i]).moves_done <= next + 1
        && open[i].cost == open[i].moves_done by {
        if i < idx {
            assert(open[i] == open_before[i]);
        } else {
            assert(open[i] == open_before[i + 1]);
        }
    }
}

proof fn lemma_layered_visit(
    tiles: Seq<Vec<Tile>>,
    closed_before: Seq<Vec<bool>>,
    closed: Seq<Vec<bool>>,
    open_before: Seq<Node>,
    open: Seq<Node>,
    start: AbsCoord,
    ignore_blocked: bool,
    layer: int,
    cell: AbsCoord,
)
    requires
        layered(tiles, closed_before, open_before, start, ignore_blocked, layer),
        in_grid(tiles, cell),
        !is_closed(closed_before, cell),
        forall|q: AbsCoord| in_grid(tiles, q) && is_closed(closed_before, q) ==> #[trigger] is_closed(closed, q),
        open == open_before || (open.len() == open_before.len() + 1 && open.drop_last() == open_before
            && open.last().location == cell && open.last().moves_done == layer + 1 && open.last().cost == layer + 1),
    ensures
        layered(tiles, closed, open, start, ignore_blocked, layer),
        layer_ok(tiles, closed_before, start, ignore_blocked, layer),
{
    reveal(layered);
    lemma_layer_grows(tiles, closed_before, closed, start, ignore_blocked, layer);
    lemma_open_optimal_push(tiles, closed_before, open_before, open, start, ignore_blocked, layer, cell);
    assert forall|i: int| 0 <= i < open.len() implies layer <= (#[trigger] open[i]).moves_done <= layer + 1
        && open[i].cost == open[i].moves_done by {
        if i < open_before.len() {
            assert(open[i] == open_before[i]);
        }
    }
}

proof fn lemma_capped_goal(
    tiles: Seq<Vec<Tile>>,
    closed: Seq<Vec<bool>>,
    explored: Seq<Node>,
    open: Seq<Node>,
    start: AbsCoord,
    end_location: Option<AbsCoord>,
    end_search_mf: Option<usize>,
    end_search_type: Option<Seq<char>>,
    goal: spec_fn(AbsCoord) -> bool,
    ignore_blocked: bool,
    layer: int,
    max_path: int,
)
    requires
        layered(tiles, closed, open, start, ignore_blocked, layer),
        max_path <= layer,
        seen_ok(tiles, closed, explored, open, start, goal, ignore_blocked),
        goal == (|p: AbsCoord| is_goal(tiles, p, end_location, end_search_mf, end_search_type)),
    ensures
        !goal_within(tiles, start, end_location, end_search_mf, end_search_type, ignore_blocked, max_path),
{
    reveal(layered);
    lemma_goal_beyond_layer(tiles, closed, explored, open, start, end_location, end_search_mf, end_search_type, goal, ignore_blocked, layer);
    if goal_within(tiles, start, end_location, end_search_mf, end_search_type, ignore_blocked, max_path) {
        let p = choose|p: Seq<AbsCoord>|
            0 < p.len() <= max_path && valid_path(tiles, start, p, ignore_blocked) && is_goal(
                tiles,
                p.last(),
                end_location,
                end_search_mf,
                end_search_type,
            );
        assert(0 < p.len() <= layer);
    }
}

/// What a search from `start` may return: empty when the start itself ends
/// the search; otherwise a walk to a goal through passable cells, of at most
/// `max_path` moves, that never comes back to a cell or to the start; a single
/// move when a goal lies next to the start and a move is allowed; and empty
/// only when no goal can be reached at all, or when the search reached
/// `max_path` moves along a walk that never comes back. When the goal is a
/// feature or an unexplored cell rather than a given cell, the walk is a
/// shortest one, and an empty result means no goal lies within `max_path` moves.
pub open spec fn search_result(
    tiles: Seq<Vec<Tile>>,
    start: AbsCoord,
    end_location: Option<AbsCoord>,
    end_search_mf: Option<usize>,
    end_search_type: Option<Seq<char>>,
    max_path: u64,
    ignore_blocked: bool,
    r: Seq<AbsCoord>,
) -> bool {
    let start_ends = is_goal(tiles, start, end_location, end_search_mf, end_search_type);
    &&& r.len() > 0 ==> valid_path(tiles, start, r, ignore_blocked) && is_goal(
        tiles,
        r.last(),
        end_location,
        end_search_mf,
        end_search_type,
    ) && r.len() <= max_path
    &&& forall|a: int, b: int| 0 <= a < b < r.len() ==> r[a] != r[b]
    &&& forall|a: int| 0 <= a < r.len() ==> r[a] != start
    &&& start_ends ==> r.len() == 0
    &&& max_path >= 1 && !start_ends && goal_next_to(tiles, start, end_location, end_search_mf, end_search_type)
        ==> r.len() == 1
    &&& r.len() == 0 && !start_ends ==> !reachable(
        tiles,
        start,
        end_location,
        end_search_mf,
        end_search_type,
        ignore_blocked,
    ) || long_walk(tiles, start, max_path as int, ignore_blocked)
    &&& end_location is None && r.len() > 0 ==> !goal_within(
        tiles,
        start,
        end_location,
        end_search_mf,
        end_search_type,
        ignore_blocked,
        r.len() - 1,
    )
    &&& end_location is None && r.len() == 0 && !start_ends ==> !goal_within(
        tiles,
        start,
        end_location,
        end_search_mf,
        end_search_type,
        ignore_blocked,
        max_path as int,
    )
}

/// The paths of `ps` that are not empty, in order.
pub open spec fn non_empty_paths(ps: Seq<Seq<AbsCoord>>) -> Seq<Seq<AbsCoord>>
    decreases ps.len(),
{
    if ps.len() == 0 {
        ps
    } else {
        let rest = non_empty_paths(ps.drop_last());
        if ps.last().len() > 0 {
            rest.push(ps.last())
        } else {
            rest
        }
    }
}

/// The first of the shortest non-empty paths of `ps`; empty when all are empty.
pub open spec fn first_shortest(ps: Seq<Seq<AbsCoord>>) -> Seq<AbsCoord>
    decreases ps.len(),
{
    if ps.len() == 0 {
        Seq::empty()
    } else {
        let best = first_shortest(ps.drop_last());
        if ps.last().len() > 0 && (ps.last().len() < best.len() || best.len() == 0) {
            ps.last()
        } else {
            best
        }
    }
}

/// The cells of each path.
pub open spec fn path_views(v: Seq<Vec<AbsCoord>>) -> Seq<Seq<AbsCoord>> {
    v.map_values(|p: Vec<AbsCoord>| p@)
}

proof fn lemma_first_shortest_member(qs: Seq<Seq<AbsCoord>>)
    ensures
        first_shortest(qs).len() > 0 ==> exists|i: int| 0 <= i < qs.len() && qs[i] == first_shortest(qs),
    decreases qs.len(),
{
    if qs.len() > 0 {
        lemma_first_shortest_member(qs.drop_last());
        if first_shortest(qs) != qs.last() && first_shortest(qs).len() > 0 {
            let i = choose|i: int| 0 <= i < qs.drop_last().len() && qs.drop_last()[i] == first_shortest(qs.drop_last());
            assert(qs[i] == qs.drop_last()[i]);
        } else if first_shortest(qs).len() > 0 {
            assert(qs[qs.len() - 1] == qs.last());
        }
    }
}

proof fn lemma_non_empty_member(ps: Seq<Seq<AbsCoord>>, i: int)
    requires
        0 <= i < non_empty_paths(ps).len(),
    ensures
        exists|j: int| 0 <= j < ps.len() && ps[j] == non_empty_paths(ps)[i],
    decreases ps.len(),
{
    let rest = non_empty_paths(ps.drop_last());
    if i < rest.len() {
        lemma_non_empty_member(ps.drop_last(), i);
        let j = choose|j: int| 0 <= j < ps.drop_last().len() && ps.drop_last()[j] == rest[i];
        assert(ps[j] == ps.drop_last()[j]);
    } else {
        assert(ps[ps.len() - 1] == ps.last());
    }
}

/// The path picked among searches is, when not empty, one of them.
pub proof fn lemma_picked_is_searched(ps: Seq<Seq<AbsCoord>>)
    ensures
        first_shortest(non_empty_paths(ps)).len() > 0 ==> exists|j: int|
            0 <= j < ps.len() && ps[j] == first_shortest(non_empty_paths(ps)),
{
    let qs = non_empty_paths(ps);
    lemma_first_shortest_member(qs);
    if first_shortest(qs).len() > 0 {
        let i = choose|i: int| 0 <= i < qs.len() && qs[i] == first_shortest(qs);
        lemma_non_empty_member(ps, i);
    }
}

/// Picks the first of the shortest non-empty paths; empty when all are empty.
pub fn pick_shortest(all: &Vec<Vec<AbsCoord>>) -> (r: Vec<AbsCoord>)
    ensures
        r@ == first_shortest(path_views(all@)),
{
    let mut best: Vec<AbsCoord> = Vec::new();
    let mut k: usize = 0;
    while k < all.len()
        invariant
            k <= all@.len(),
            best@ == first_shortest(path_views(all@).take(k as int)),
        decreases all@.len() - k,
    {
        assert(path_views(all@).take(k + 1).drop_last() =~= path_views(all@).take(k as int));
        if all[k].len() > 0 && (all[k].len() < best.len() || best.len() == 0) {
            best = crate::coords::copy_path(&all[k]);
        }
        k += 1;
    }
    assert(path_views(all@).take(all@.len() as int) =~= path_views(all@));
    best
}

/// Computes a path with A* from `start_location` to the nearest cell that ends
/// the search (see `is_goal`), moving one king move at a time through passable
/// cells. The frontier is expanded in order of cost, then of creation. The path
/// leaves out the start and ends on the goal cell. It is empty when the start
/// ends the search itself, when no goal is found, or when the node about to be
/// expanded has already made `max_path` moves, so that a path never has more
/// than `max_path` moves. What the result may be is `search_result`.
#[verifier::rlimit(100)]
pub fn pathfinding(
    tiles: &[Vec<Tile>],
    start_location: AbsCoord,
    end_location: Option<AbsCoord>,
    end_search_mf: Option<usize>,
    end_search_type: Option<&str>,
    max_path: u64,
    ignore_blocked: bool,
) -> (r: Vec<AbsCoord>)
    requires
        in_grid(tiles@, start_location),
        grid_cells(tiles@) <= usize::MAX,
    ensures
        search_result(
            tiles@,
            start_location,
            end_location,
            end_search_mf,
            opt_view(end_search_type),
            max_path,
            ignore_blocked,
            r@,
        ),
        r.len() == 0 && max_path >= grid_cells(tiles@) && !is_goal(
            tiles@,
            start_location,
            end_location,
            end_search_mf,
            opt_view(end_search_type),
        ) ==> !reachable(
            tiles@,
            start_location,
            end_location,
            end_search_mf,
            opt_view(end_search_type),
            ignore_blocked,
        ),
{
    let wants_unexplored = match end_search_type {
        Some(t) => str_eq(t, "unexplored"),
        None => false,
    };
    let ghost goal = |p: AbsCoord|
        is_goal(tiles@, p, end_location, end_search_mf, opt_view(end_search_type));
    if end_location == Some(start_location) || (match end_search_mf {
        Some(k) => tiles[start_location.0][start_location.1].mf == k,
        None => false,
    }) || (wants_unexplored && !tiles[start_location.0][start_location.1].explored) {
        return Vec::new();
    }
    // Flags of the cells already put on the frontier or looked at.
    let mut closed: Vec<Vec<bool>> = Vec::new();
    let mut x: usize = 0;
    while x < tiles.len()
        invariant
            x <= tiles.len(),
            closed.len() == x,
            forall|i: int| 0 <= i < x ==> #[trigger] closed@[i]@.len() == tiles@[i]@.len(),
            forall|i: int, j: int|
                0 <= i < x && 0 <= j < closed@[i]@.len() ==> !#[trigger] closed@[i]@[j],
            grid_count(closed@) == 0,
        decreases tiles.len() - x,
    {
        let mut col: Vec<bool> = Vec::new();
        let mut y: usize = 0;
        while y < tiles[x].len()
            invariant
                x < tiles.len(),
                y <= tiles@[x as int]@.len(),
                col.len() == y,
                forall|j: int| 0 <= j < y ==> !#[trigger] col@[j],
            decreases tiles@[x as int]@.len() - y,
        {
            col.push(false);
            y += 1;
        }
        proof {
            lemma_count_true_none(col@);
        }
        let ghost before = closed@;
        closed.push(col);
        proof {
            assert(closed@.drop_last() =~= before);
        }
        x += 1;
    }
    assert(same_shape(closed@, tiles@));
    proof {
        lemma_grid_count_le(closed@, tiles@);
    }
    let ghost cells = grid_cells(tiles@);
    close_cell(&mut closed, start_location, Ghost(tiles@));
    proof {
        lemma_grid_count_le(closed@, tiles@);
    }

    let mut key_break: u64 = 0;
    let mut first_node = Node {
        cost: 0,
        moves_done: 0,
        moves_to_goal: 0,
        location: start_location,
        end_goal: end_location,
        parent_node: None,
        key_break,
    };
    first_node.calc_cost();
    key_break += 1;
    let mut open: Vec<Node> = Vec::new();
    open.push(first_node);
    let mut explored: Vec<Node> = Vec::new();
    let mut found: Option<Node> = None;
    let ghost mut capped = false;
    let ghost mut layer: int = 0;
    proof {
        assert forall|q: AbsCoord| in_grid(tiles@, q) && #[trigger] is_closed(closed@, q) implies q == start_location by {
            if q != start_location {
                assert(closed@[q.0 as int]@[q.1 as int] == false);
            }
        }
        lemma_search_starts(tiles@, closed@, open@, start_location, goal, ignore_blocked);
        lemma_layer_start(tiles@, closed@, start_location, ignore_blocked);
        reveal(open_optimal);
        assert(open_optimal(tiles@, open@, start_location, ignore_blocked));
        reveal(layered);
        if end_location is None {
            assert(layered(tiles@, closed@, open@, start_location, ignore_blocked, 0));
        }
        reveal(nodes_distinct);
        reveal(nodes_closed);
        assert(nodes_distinct(explored@, open@));
        assert(nodes_closed(tiles@, closed@, explored@, open@));
    }

    loop
        invariant_except_break
            expanded_ok(tiles@, closed@, explored@, explored.len() as int),
            !capped,
        invariant
            same_shape(closed@, tiles@),
            grid_count(closed@) <= cells,
            cells == grid_cells(tiles@),
            cells <= usize::MAX,
            key_break <= grid_count(closed@),
            in_grid(tiles@, start_location),
            tree_ok(tiles@, explored@, start_location, ignore_blocked),
            forall|i: int|
                0 <= i < open.len() ==> tree_node_ok(
                    tiles@,
                    explored@,
                    #[trigger] open@[i],
                    explored.len() as int,
                    start_location,
                    ignore_blocked,
                ),
            forall|i: int|
                0 <= i < open.len() ==> ((#[trigger] open@[i]).parent_node is None
                    ==> explored.len() == 0),
            forall|i: int|
                0 <= i < open.len() ==> ((#[trigger] open@[i]).parent_node is Some ==> passable(
                    tile_at(tiles@, open@[i].location),
                    ignore_blocked,
                )),
            explored.len() == 0 ==> open.len() == 1,
            found matches Some(f) ==> {
                &&& tree_node_ok(tiles@, explored@, f, explored.len() as int, start_location, ignore_blocked)
                &&& f.parent_node is Some
                &&& goal(f.location)
                &&& f.moves_done <= max_path
            },
            !goal(start_location),
            goal == (|p: AbsCoord|
                is_goal(tiles@, p, end_location, end_search_mf, opt_view(end_search_type))),
            wants_unexplored == (opt_view(end_search_type) == Some("unexplored"@)),
            explored.len() + open.len() <= grid_count(closed@),
            explored.len() == 0 ==> open@[0].location == start_location,
            found is None ==> seen_ok(tiles@, closed@, explored@, open@, start_location, goal, ignore_blocked),
            explored.len() > 0 && max_path >= 1 && goal_next_to(tiles@, start_location, end_location, end_search_mf, opt_view(end_search_type))
                ==> (found matches Some(f) && f.moves_done == 1),
            explored.len() > 0 ==> explored@[0].location == start_location && explored@[0].moves_done == 0,
            nodes_distinct(explored@, open@),
            nodes_closed(tiles@, closed@, explored@, open@),
            found matches Some(f) ==> forall|i: int| 0 <= i < explored.len() ==> #[trigger] explored@[i].location != f.location,
            end_location is None ==> layered(tiles@, closed@, open@, start_location, ignore_blocked, layer),
            explored.len() == 0 ==> layer == 0,
            end_location is None ==> (found matches Some(f) ==> !goal_within(tiles@, start_location, end_location, end_search_mf, opt_view(end_search_type), ignore_blocked, f.moves_done - 1)),
        ensures
            end_location is None ==> (found matches Some(f) ==> !goal_within(tiles@, start_location, end_location, end_search_mf, opt_view(end_search_type), ignore_blocked, f.moves_done - 1)),
            end_location is None && found is None && capped ==> !goal_within(tiles@, start_location, end_location, end_search_mf, opt_view(end_search_type), ignore_blocked, max_path as int),
            nodes_distinct(explored@, open@),
            nodes_closed(tiles@, closed@, explored@, open@),
            found matches Some(f) ==> forall|i: int| 0 <= i < explored.len() ==> #[trigger] explored@[i].location != f.location,

            max_path >= 1 && goal_next_to(tiles@, start_location, end_location, end_search_mf, opt_view(end_search_type))
                ==> (found matches Some(f) && f.moves_done == 1),
            tree_ok(tiles@, explored@, start_location, ignore_blocked),
            found matches Some(f) ==> {
                &&& tree_node_ok(tiles@, explored@, f, explored.len() as int, start_location, ignore_blocked)
                &&& f.parent_node is Some
                &&& goal(f.location)
                &&& f.moves_done <= max_path
            },
            goal == (|p: AbsCoord|
                is_goal(tiles@, p, end_location, end_search_mf, opt_view(end_search_type))),
            found is None && capped ==> max_path < cells && long_walk(tiles@, start_location, max_path as int, ignore_blocked),
            found is None && !capped ==> {
                &&& open.len() == 0
                &&& explored.len() > 0
                &&& explored@[0].location == start_location
                &&& seen_ok(tiles@, closed@, explored@, open@, start_location, goal, ignore_blocked)
                &&& expanded_ok(tiles@, closed@, explored@, explored.len() as int)
            },
            cells == grid_cells(tiles@),
        decreases 2 * (cells - grid_count(closed@)) + open.len(),
    {
        if open.len() == 0 || found.is_some() {
            proof {
                if explored.len() > 0 {
                    assert(tree_node_ok(tiles@, explored@, explored@[0], 0, start_location, ignore_blocked));
                }
            }
            break;
        }
        let ghost measure = 2 * (cells - grid_count(closed@)) + open.len();
        let idx = min_index(&open);
        let ghost open_before = open@;
        let ghost explored_before = explored@;
        let parent = open.remove(idx);
        explored.push(parent);
        let index = explored.len() - 1;
        assert(tree_ok(tiles@, explored@, start_location, ignore_blocked)) by {
            assert(explored@[index as int] == parent);
        }
        proof {
            lemma_pop_keeps(tiles@, closed@, explored_before, open_before, idx as int, explored@, open@, start_location, goal, ignore_blocked, found is None);
            lemma_distinct_pop(explored_before, open_before, idx as int, explored@, open@, tiles@, closed@);
            if end_location is None {
                if explored_before.len() == 0 {
                    assert(tree_node_ok(tiles@, explored_before, open_before[idx as int], 0, start_location, ignore_blocked));
                } else {
                    assert(tree_node_ok(tiles@, explored_before, explored_before[0], 0, start_location, ignore_blocked));
                }
                lemma_layered_pop(tiles@, closed@, explored_before, open_before, idx as int, open@, start_location, goal, ignore_blocked, layer);
            }
            layer = parent.moves_done as int;
            assert(tree_node_ok(tiles@, explored@, explored@[index as int], index as int, start_location, ignore_blocked));
        }
        if parent.moves_done >= max_path {
            proof {
                capped = true;
                lemma_capped_walk(tiles@, explored@, open@, start_location, ignore_blocked, index as int, max_path as int);
                if end_location is None {
                    lemma_capped_goal(tiles@, closed@, explored@, open@, start_location, end_location, end_search_mf, opt_view(end_search_type), goal, ignore_blocked, layer, max_path as int);
                }
            }
            break;
        }
        let mut d: usize = 0;
        while d < 8 && found.is_none()
            invariant
                0 <= d <= 8,
                index + 1 == explored.len(),
                explored@[index as int] == parent,
                parent.moves_done < max_path,
                found matches Some(f) ==> f.moves_done == parent.moves_done + 1,
                same_shape(closed@, tiles@),
                grid_count(closed@) <= cells,
                cells == grid_cells(tiles@),
                cells <= usize::MAX,
                key_break <= grid_count(closed@),
                in_grid(tiles@, start_location),
                tree_ok(tiles@, explored@, start_location, ignore_blocked),
                forall|i: int|
                    0 <= i < open.len() ==> tree_node_ok(
                        tiles@,
                        explored@,
                        #[trigger] open@[i],
                        explored.len() as int,
                        start_location,
                        ignore_blocked,
                    ),
                forall|i: int| 0 <= i < open.len() ==> (#[trigger] open@[i]).parent_node is Some,
                forall|i: int|
                    0 <= i < open.len() ==> passable(
                        tile_at(tiles@, (#[trigger] open@[i]).location),
                        ignore_blocked,
                    ),
                found matches Some(f) ==> {
                    &&& tree_node_ok(tiles@, explored@, f, explored.len() as int, start_location, ignore_blocked)
                    &&& f.parent_node is Some
                    &&& goal(f.location)
                    &&& f.moves_done <= max_path
                },
                2 * (cells - grid_count(closed@)) + open.len() < measure,
                !goal(start_location),
                goal == (|p: AbsCoord|
                    is_goal(tiles@, p, end_location, end_search_mf, opt_view(end_search_type))),
                wants_unexplored == (opt_view(end_search_type) == Some("unexplored"@)),
                explored.len() + open.len() <= grid_count(closed@),
                found is None ==> seen_ok(tiles@, closed@, explored@, open@, start_location, goal, ignore_blocked),
                expanded_ok(tiles@, closed@, explored@, index as int),
                found is None ==> forall|e: int|
                    0 <= e < d ==> (#[trigger] neighbor_at(tiles@, parent.location, e) matches Some(q)
                        ==> is_closed(closed@, q)),
                in_grid(tiles@, parent.location),
                !capped,
                layer == parent.moves_done as int,
                end_location is None ==> layered(tiles@, closed@, open@, start_location, ignore_blocked, layer),
                end_location is None ==> (found matches Some(f) ==> !goal_within(tiles@, start_location, end_location, end_search_mf, opt_view(end_search_type), ignore_blocked, f.moves_done - 1)),

                nodes_distinct(explored@, open@),
                nodes_closed(tiles@, closed@, explored@, open@),
                found matches Some(f) ==> forall|i: int| 0 <= i < explored.len() ==> #[trigger] explored@[i].location != f.location,

            decreases 8 - d,
        {
            assert(tree_node_ok(tiles@, explored@, explored@[index as int], index as int, start_location, ignore_blocked));
            let ghost closed_before = closed@;
            let ghost open_before = open@;
            if let Some(cell) = neighbor(tiles, parent.location, d) {
                if !closed[cell.0][cell.1] {
                    close_cell(&mut closed, cell, Ghost(tiles@));
                    proof {
                        lemma_grid_count_le(closed@, tiles@);
                        assert forall|q: AbsCoord| in_grid(tiles@, q) && is_closed(closed_before, q) implies #[trigger] is_closed(closed@, q) by {
                            if q != cell {
                                assert(closed@[q.0 as int]@[q.1 as int] == closed_before[q.0 as int]@[q.1 as int]);
                            }
                        }
                        lemma_expanded_grows(tiles@, closed_before, closed@, explored@, index as int);

                    }
                    let t = tiles[cell.0][cell.1];
                    let at_goal = end_location == Some(cell) || (match end_search_mf {
                        Some(k) => t.mf == k,
                        None => false,
                    }) || (wants_unexplored && !t.explored);
                    let walk = t.walkable && (ignore_blocked || !t.blocked);
                    if at_goal || walk {
                        let mut child = Node {
                            cost: 0,
                            moves_done: parent.moves_done + 1,
                            moves_to_goal: 0,
                            location: cell,
                            end_goal: end_location,
                            parent_node: Some(index),
                            key_break,
                        };
                        child.calc_cost();
                        key_break += 1;
                        if at_goal {
                            found = Some(child);
                        } else {
                            open.push(child);
                            assert(open@.last().location == cell);
                        }
                    }
                    proof {
                        assert(!is_closed(closed_before, cell));
                        assert(open@ == open_before || (open@.len() == open_before.len() + 1 && open@.drop_last() == open_before
                            && open@.last().location == cell));
                        lemma_distinct_new(explored@, open_before, open@, tiles@, closed_before, closed@, cell);
                        if end_location is None {
                            lemma_layered_visit(tiles@, closed_before, closed@, open_before, open@, start_location, ignore_blocked, layer, cell);
                            if found is Some && at_goal {
                                lemma_goal_beyond_layer(tiles@, closed_before, explored@, open_before, start_location, end_location, end_search_mf, opt_view(end_search_type), goal, ignore_blocked, layer);
                            }
                        }
                        assert(at_goal == goal(cell));
                        if found is None {
                            lemma_visit_keeps(tiles@, closed_before, closed@, explored@, open_before, open@, start_location, goal, ignore_blocked, cell, walk);
                        }
                    }
                }
            }
            d += 1;
        }
        proof {
            if found is None {
                lemma_expansion_done(tiles@, closed@, explored@, index as int, parent.location);
                assert(tree_node_ok(tiles@, explored@, explored@[0], 0, start_location, ignore_blocked));
                lemma_no_goal_next(tiles@, closed@, explored@, open@, start_location, goal, ignore_blocked);
            }
        }
        if found.is_some() {
            break;
        }
    }

    let f = match found {
        Some(f) => f,
        None => {
            proof {
                if !capped {
                    assert(open@ =~= Seq::<Node>::empty());
                    assert forall|p: Seq<AbsCoord>|
                        p.len() > 0 && valid_path(tiles@, start_location, p, ignore_blocked) implies !is_goal(
                        tiles@,
                        p.last(),
                        end_location,
                        end_search_mf,
                        opt_view(end_search_type),
                    ) by {
                        lemma_path_closed(tiles@, closed@, explored@, start_location, goal, ignore_blocked, p, p.len() - 1);
                        assert(in_grid(tiles@, p[p.len() - 1]));
                    }
                }
            }
            return Vec::new();
        },
    };
    // Walk back from the goal to the start, then turn the walk around.
    let mut rev: Vec<AbsCoord> = Vec::new();
    rev.push(f.location);
    let mut p: usize = match f.parent_node {
        Some(q) => q,
        None => 0,
    };
    let ghost mut ks: Seq<int> = Seq::empty();
    proof {
        assert(tree_node_ok(tiles@, explored@, explored@[0], 0, start_location, ignore_blocked));
    }
    loop
        invariant
            tree_ok(tiles@, explored@, start_location, ignore_blocked),
            explored.len() > 0 && explored@[0].location == start_location,
            nodes_distinct(explored@, open@),
            forall|i: int| 0 <= i < explored.len() ==> #[trigger] explored@[i].location != f.location,
            ks.len() + 1 == rev.len(),
            forall|i: int| 0 <= i < ks.len() ==> p < #[trigger] ks[i] < explored.len() && 0 < ks[i]
                && rev@[i + 1] == explored@[ks[i]].location,
            forall|i: int, j: int| 0 <= i < j < ks.len() ==> ks[i] > ks[j],
            p < explored.len(),
            rev.len() >= 1,
            rev@[0] == f.location,
            goal(f.location),
            f.moves_done <= max_path,
            in_grid(tiles@, f.location),
            adjacent(explored@[p as int].location, rev@.last()),
            rev.len() + explored@[p as int].moves_done == f.moves_done,
            forall|i: int| 0 <= i < rev.len() ==> in_grid(tiles@, #[trigger] rev@[i]),
            forall|i: int| 0 < i < rev.len() ==> adjacent(#[trigger] rev@[i], rev@[i - 1]),
            forall|i: int|
                0 < i < rev.len() ==> passable(tile_at(tiles@, #[trigger] rev@[i]), ignore_blocked),
        ensures
            explored@[p as int].location == start_location,
            rev.len() == f.moves_done,
            ks.len() + 1 == rev.len(),
            forall|i: int| 0 <= i < ks.len() ==> 0 < #[trigger] ks[i] < explored.len()
                && rev@[i + 1] == explored@[ks[i]].location,
            forall|i: int, j: int| 0 <= i < j < ks.len() ==> ks[i] > ks[j],
        decreases p,
    {
        let n = explored[p];
        assert(tree_node_ok(tiles@, explored@, explored@[p as int], p as int, start_location, ignore_blocked));
        match n.parent_node {
            None => {
                break;
            },
            Some(q) => {
                assert(p != 0);
                rev.push(n.location);
                proof {
                    ks = ks.push(p as int);
                }
                p = q;
            },
        }
    }
    let mut r: Vec<AbsCoord> = Vec::new();
    let mut k: usize = rev.len();
    while k > 0
        invariant
            k <= rev.len(),
            r.len() + k == rev.len(),
            forall|i: int| 0 <= i < r.len() ==> #[trigger] r@[i] == rev@[rev.len() - 1 - i],
        decreases k,
    {
        k -= 1;
        r.push(rev[k]);
    }
    assert(r@.last() == rev@[0]);
    assert(r@[0] == rev@[rev.len() - 1]);
    assert forall|a: int, b: int| 0 <= a < b < rev.len() implies rev@[a] != rev@[b] by {
        if a == 0 {
            assert(rev@[b] == explored@[ks[b - 1]].location);
        } else {
            lemma_distinct_explored(explored@, open@, ks[a - 1], ks[b - 1]);
        }
    }
    assert forall|a: int| 0 <= a < rev.len() implies rev@[a] != start_location by {
        if a == 0 {
            assert(explored@[0].location == start_location);
        } else {
            lemma_distinct_explored(explored@, open@, ks[a - 1], 0);
        }
    }
    assert forall|a: int, b: int| 0 <= a < b < r.len() implies r@[a] != r@[b] by {
        assert(r@[a] == rev@[rev.len() - 1 - a]);
        assert(r@[b] == rev@[rev.len() - 1 - b]);
    }
    assert forall|a: int| 0 <= a < r.len() implies r@[a] != start_location by {
        assert(r@[a] == rev@[rev.len() - 1 - a]);
    }
    assert(explored@[p as int].location == start_location);
    assert(valid_path(tiles@, start_location, r@, ignore_blocked)) by {
        assert forall|i: int| 0 <= i < r.len() implies in_grid(tiles@, #[trigger] r@[i]) by {
            assert(r@[i] == rev@[rev.len() - 1 - i]);
        }
        assert forall|i: int| 0 < i < r.len() implies adjacent(r@[i - 1], #[trigger] r@[i]) by {
            assert(r@[i - 1] == rev@[rev.len() - i]);
            assert(r@[i] == rev@[rev.len() - 1 - i]);
        }
        assert forall|i: int| 0 <= i < r.len() - 1 implies passable(tile_at(tiles@, #[trigger] r@[i]), ignore_blocked) by {
            assert(r@[i] == rev@[rev.len() - 1 - i]);
        }
    }
    r
}

/// Sets the flag of `cell`, which was clear.
fn close_cell(closed: &mut Vec<Vec<bool>>, cell: AbsCoord, Ghost(tiles): Ghost<Seq<Vec<Tile>>>)
    requires
        same_shape(old(closed)@, tiles),
        in_grid(tiles, cell),
        !old(closed)@[cell.0 as int]@[cell.1 as int],
    ensures
        same_shape(final(closed)@, tiles),
        grid_count(final(closed)@) == grid_count(old(closed)@) + 1,
        final(closed)@[cell.0 as int]@[cell.1 as int],
        forall|x: int, y: int|
            (x, y) != (cell.0 as int, cell.1 as int) && 0 <= x < tiles.len() && 0 <= y
                < tiles[x]@.len() ==> #[trigger] final(closed)@[x]@[y] == old(closed)@[x]@[y],
{
    let ghost g = closed@;
    let mut col: Vec<bool> = Vec::new();
    std::mem::swap(&mut col, &mut closed[cell.0]);
    assert(col@ == g[cell.0 as int]@);
    col.set(cell.1, true);
    let ghost updated = col@;
    assert(updated == g[cell.0 as int]@.update(cell.1 as int, true));
    std::mem::swap(&mut col, &mut closed[cell.0]);
    assert(closed@[cell.0 as int]@ == updated);
    proof {
        lemma_grid_count_set(g, cell.0 as int, closed@[cell.0 as int], cell.1 as int);
        assert(closed@ =~= g.update(cell.0 as int, closed@[cell.0 as int]));
        assert forall|x: int, y: int|
            (x, y) != (cell.0 as int, cell.1 as int) && 0 <= x < tiles.len() && 0 <= y
                < tiles[x]@.len() implies #[trigger] closed@[x]@[y] == g[x]@[y] by {
            if x == cell.0 as int {
                assert(closed@[x]@ == updated);
            }
        }
    }
}

proof fn lemma_count_true_none(s: Seq<bool>)
    requires
        forall|i: int| 0 <= i < s.len() ==> !s[i],
    ensures
        count_true(s) == 0,
    decreases s.len(),
{
    if s.len() > 0 {
        lemma_count_true_none(s.drop_last());
    }
}

}
