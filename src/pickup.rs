use vstd::prelude::*;

use crate::coords::AbsCoord;
use crate::pathfinding::{
    chebyshev, first_shortest, non_empty_paths, path_views, pathfinding, pick_shortest, search_result,
};
use crate::tiles::{grid_cells, in_grid, Tile};

verus! {

/// Floor items not yet looked at, and places whose items are to be left alone.
pub struct Pickup {
    pub unknown: Vec<AbsCoord>,
    pub ignore: Vec<AbsCoord>,
}

/// Whether `c` is in `v`.
pub fn coord_in(v: &Vec<AbsCoord>, c: AbsCoord) -> (r: bool)
    ensures
        r == v@.contains(c),
{
    let mut i: usize = 0;
    while i < v.len()
        invariant
            i <= v.len(),
            forall|j: int| 0 <= j < i ==> v@[j] != c,
        decreases v.len() - i,
    {
        if v[i].0 == c.0 && v[i].1 == c.1 {
            assert(v@[i as int] == c);
            return true;
        }
        i += 1;
    }
    false
}

/// The king-move distance between two cells.
fn distance(a: AbsCoord, b: AbsCoord) -> (r: usize)
    ensures
        r as nat == chebyshev(a, b),
{
    let dx = if a.0 >= b.0 {
        a.0 - b.0
    } else {
        b.0 - a.0
    };
    let dy = if a.1 >= b.1 {
        a.1 - b.1
    } else {
        b.1 - a.1
    };
    if dx >= dy {
        dx
    } else {
        dy
    }
}

/// The listed items after items are seen at `items`, in order (see `Pickup::update`).
pub open spec fn listed_after(unknown: Seq<AbsCoord>, ignore: Seq<AbsCoord>, items: Seq<AbsCoord>) -> Seq<AbsCoord>
    decreases items.len(),
{
    if items.len() == 0 {
        unknown
    } else {
        let listed = listed_after(unknown, ignore, items.drop_last());
        if listed.contains(items.last()) || ignore.contains(items.last()) {
            listed
        } else {
            listed.push(items.last())
        }
    }
}

impl Pickup {
    /// Nothing known.
    pub fn init() -> (r: Pickup)
        ensures
            r.unknown@.len() == 0,
            r.ignore@.len() == 0,
    {
        Pickup { unknown: Vec::new(), ignore: Vec::new() }
    }

    /// Records an item seen at `item_coord`, unless it is listed or ignored.
    pub fn update(&mut self, item_coord: AbsCoord)
        ensures
            final(self).ignore@ == old(self).ignore@,
            final(self).unknown@ == if old(self).unknown@.contains(item_coord) || old(
                self,
            ).ignore@.contains(item_coord) {
                old(self).unknown@
            } else {
                old(self).unknown@.push(item_coord)
            },
    {
        let listed = coord_in(&self.unknown, item_coord);
        let ignored = coord_in(&self.ignore, item_coord);
        if !listed && !ignored {
            self.unknown.push(item_coord);
        }
    }

    /// Whether an item not yet looked at, and not ignored, lies at `player_coord`.
    pub fn unknown_item_loc(&self, player_coord: AbsCoord) -> (r: bool)
        ensures
            r == (self.unknown@.contains(player_coord) && !self.ignore@.contains(player_coord)),
    {
        coord_in(&self.unknown, player_coord) && !coord_in(&self.ignore, player_coord)
    }

    /// Forgets the first listing of an item at `player_coord`.
    pub fn remove_item_loc(&mut self, player_coord: AbsCoord)
        ensures
            final(self).ignore@ == old(self).ignore@,
            !old(self).unknown@.contains(player_coord) ==> final(self).unknown@ == old(self).unknown@,
            old(self).unknown@.contains(player_coord) ==> exists|i: int|
                0 <= i < old(self).unknown@.len() && old(self).unknown@[i] == player_coord && (forall|
                    j: int,
                | 0 <= j < i ==> old(self).unknown@[j] != player_coord) && final(self).unknown@
                    == old(self).unknown@.remove(i),
    {
        let mut i: usize = 0;
        while i < self.unknown.len()
            invariant
                self.unknown@ == old(self).unknown@,
                self.ignore@ == old(self).ignore@,
                i <= self.unknown@.len(),
                forall|j: int| 0 <= j < i ==> self.unknown@[j] != player_coord,
            decreases self.unknown@.len() - i,
        {
            if self.unknown[i].0 == player_coord.0 && self.unknown[i].1 == player_coord.1 {
                self.unknown.remove(i);
                return;
            }
            i += 1;
        }
    }

    /// Forgets the item at `player_coord` and leaves that place alone from now on.
    pub fn new_ignore_item_loc(&mut self, player_coord: AbsCoord)
        ensures
            final(self).ignore@.contains(player_coord),
            final(self).ignore@ == if old(self).ignore@.contains(player_coord) {
                old(self).ignore@
            } else {
                old(self).ignore@.push(player_coord)
            },
            !old(self).unknown@.contains(player_coord) ==> final(self).unknown@ == old(self).unknown@,
            old(self).unknown@.contains(player_coord) ==> exists|i: int|
                0 <= i < old(self).unknown@.len() && old(self).unknown@[i] == player_coord && (forall|
                    j: int,
                | 0 <= j < i ==> old(self).unknown@[j] != player_coord) && final(self).unknown@
                    == old(self).unknown@.remove(i),
    {
        self.remove_item_loc(player_coord);
        if !coord_in(&self.ignore, player_coord) {
            self.ignore.push(player_coord);
            assert(self.ignore@.last() == player_coord);
        }
    }

    /// Paths to the listed items within `fov` king moves, in list order, each
    /// found with `pathfinding` capped at `fov` moves; items without a path
    /// are left out.
    pub fn path_to_all_items(&self, tiles: &[Vec<Tile>], player_coord: AbsCoord, fov: u32) -> (r:
        Vec<Vec<AbsCoord>>)
        requires
            in_grid(tiles@, player_coord),
            grid_cells(tiles@) <= usize::MAX,
        ensures
            exists|ps: Seq<Seq<AbsCoord>>|
                item_paths(tiles@, self.unknown@, player_coord, fov, ps) && path_views(r@) == non_empty_paths(ps),
    {
        let mut paths: Vec<Vec<AbsCoord>> = Vec::new();
        let ghost mut ps: Seq<Seq<AbsCoord>> = Seq::empty();
        let mut i: usize = 0;
        while i < self.unknown.len()
            invariant
                in_grid(tiles@, player_coord),
                grid_cells(tiles@) <= usize::MAX,
                i <= self.unknown@.len(),
                ps.len() == i,
                forall|j: int| 0 <= j < i ==> item_path_ok(tiles@, self.unknown@[j], player_coord, fov, #[trigger] ps[j]),
                path_views(paths@) == non_empty_paths(ps),
            decreases self.unknown@.len() - i,
        {
            let item_coord = self.unknown[i];
            let ghost before = paths@;
            let ghost mut this: Seq<AbsCoord> = Seq::empty();
            if distance(player_coord, item_coord) <= fov as usize {
                let path = pathfinding(tiles, player_coord, Some(item_coord), None, None, fov as u64, false);
                proof {
                    this = path@;
                }
                if path.len() > 0 {
                    paths.push(path);
                }
            }
            proof {
                let ps2 = ps.push(this);
                assert(ps2.drop_last() =~= ps);
                assert(path_views(paths@) =~= non_empty_paths(ps2)) by {
                    if this.len() > 0 {
                        assert(path_views(paths@) =~= path_views(before).push(this));
                    } else {
                        assert(paths@ == before);
                    }
                }
                assert forall|j: int| 0 <= j < i + 1 implies item_path_ok(tiles@, self.unknown@[j], player_coord, fov, #[trigger] ps2[j]) by {
                    if j < i {
                        assert(ps2[j] == ps[j]);
                    }
                }
                ps = ps2;
            }
            i += 1;
        }
        paths
    }

    /// The first of the shortest paths to the listed items within `fov` (see
    /// `path_to_all_items`); empty when there is none.
    pub fn nearest(&mut self, tiles: &[Vec<Tile>], player_coord: AbsCoord, fov: u32) -> (r: Vec<
        AbsCoord,
    >)
        requires
            in_grid(tiles@, player_coord),
            grid_cells(tiles@) <= usize::MAX,
        ensures
            final(self).unknown@ == old(self).unknown@,
            final(self).ignore@ == old(self).ignore@,
            exists|ps: Seq<Seq<AbsCoord>>|
                item_paths(tiles@, old(self).unknown@, player_coord, fov, ps) && r@ == first_shortest(
                    non_empty_paths(ps),
                ),
    {
        let all = self.path_to_all_items(tiles, player_coord, fov);
        pick_shortest(&all)
    }
}

/// What the search for item `item` may give: a search result capped at `fov`
/// moves when the item is within `fov` king moves, else nothing.
pub open spec fn item_path_ok(
    tiles: Seq<Vec<Tile>>,
    item: AbsCoord,
    from: AbsCoord,
    fov: u32,
    p: Seq<AbsCoord>,
) -> bool {
    if chebyshev(from, item) <= fov {
        search_result(tiles, from, Some(item), None, None, fov as u64, false, p)
    } else {
        p.len() == 0
    }
}

/// `ps` holds what the search gives for each listed item, in list order.
pub open spec fn item_paths(
    tiles: Seq<Vec<Tile>>,
    unknown: Seq<AbsCoord>,
    from: AbsCoord,
    fov: u32,
    ps: Seq<Seq<AbsCoord>>,
) -> bool {
    &&& ps.len() == unknown.len()
    &&& forall|j: int| 0 <= j < ps.len() ==> item_path_ok(tiles, unknown[j], from, fov, #[trigger] ps[j])
}

}
