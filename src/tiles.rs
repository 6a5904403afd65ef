use vstd::prelude::*;

use crate::classify::{field_text, text_field};
use crate::coords::AbsCoord;
use crate::json::{same_json, Json};
use crate::text::str_eq;

verus! {

/// Width and height of the grid. The player starts at its centre.
pub const MAX_FLOOR_SIZE: usize = 500;

/// One cell of the grid.
#[derive(Clone, Copy, Debug, PartialEq, Eq, Structural)]
pub struct Tile {
    /// The map feature code the server last gave for the cell.
    pub mf: usize,
    /// Whether the terrain can be walked on.
    pub walkable: bool,
    /// Whether something stands on the cell for now.
    pub blocked: bool,
    /// Whether the cell has been seen.
    pub explored: bool,
}

/// The (walkable, explored) defaults of a map feature code, for the codes that
/// describe terrain. Codes for creatures, exclusion zones and the player have none.
pub open spec fn mf_defaults(mf: usize) -> Option<(bool, bool)> {
    if mf == 1 || mf == 5 || mf == 6 || (12 <= mf <= 16) || (23 <= mf <= 25) {
        Some((true, true))
    } else if mf == 2 || mf == 11 || mf == 17 || mf == 18 || mf == 22 {
        Some((false, true))
    } else if mf == 0 || mf == 3 || mf == 4 || mf == 26 {
        Some((false, false))
    } else {
        None
    }
}

/// The (walkable, explored) defaults of a map feature code.
pub fn mf_lookup(mf: usize) -> (r: Option<(bool, bool)>)
    ensures
        r == mf_defaults(mf),
{
    if mf == 1 || mf == 5 || mf == 6 || (12 <= mf && mf <= 16) || (23 <= mf && mf <= 25) {
        Some((true, true))
    } else if mf == 2 || mf == 11 || mf == 17 || mf == 18 || mf == 22 {
        Some((false, true))
    } else if mf == 0 || mf == 3 || mf == 4 || mf == 26 {
        Some((false, false))
    } else {
        None
    }
}

impl Tile {
    /// An unexplored cell.
    pub fn new() -> (r: Tile)
        ensures
            r == (Tile { mf: 0, walkable: false, blocked: false, explored: false }),
    {
        Tile { mf: 0, walkable: false, blocked: false, explored: false }
    }

    /// Sets the terrain of the cell; whether it is blocked stays as it was.
    pub fn update(&mut self, mf: usize, walkable: bool, explored: bool)
        ensures
            *final(self) == (Tile { mf, walkable, explored, blocked: old(self).blocked }),
    {
        self.mf = mf;
        self.walkable = walkable;
        self.explored = explored;
    }

    /// Marks the cell as occupied for now.
    pub fn block(&mut self)
        ensures
            *final(self) == (Tile { blocked: true, ..*old(self) }),
    {
        self.blocked = true;
    }

    /// Marks the cell as free again.
    pub fn unblock(&mut self)
        ensures
            *final(self) == (Tile { blocked: false, ..*old(self) }),
    {
        self.blocked = false;
    }
}

/// An unexplored, unblocked cell.
pub open spec fn blank_tile() -> Tile {
    Tile { mf: 0, walkable: false, blocked: false, explored: false }
}

/// Whether `p` addresses a cell of `tiles`, indexed by x then y.
pub open spec fn in_grid(tiles: Seq<Vec<Tile>>, p: AbsCoord) -> bool {
    p.0 < tiles.len() && p.1 < tiles[p.0 as int].len()
}

/// The cell at `p`.
pub open spec fn tile_at(tiles: Seq<Vec<Tile>>, p: AbsCoord) -> Tile {
    tiles[p.0 as int]@[p.1 as int]
}

/// The number of cells of a grid.
pub open spec fn grid_cells(tiles: Seq<Vec<Tile>>) -> nat
    decreases tiles.len(),
{
    if tiles.len() == 0 {
        0
    } else {
        grid_cells(tiles.drop_last()) + tiles.last()@.len()
    }
}


/// The grid of one floor, indexed by x then y.
pub struct Tiles {
    pub tiles: Vec<Vec<Tile>>,
}

/// The cells of a grid, column by column.
pub open spec fn grid_view(tiles: Seq<Vec<Tile>>) -> Seq<Seq<Tile>> {
    tiles.map_values(|c: Vec<Tile>| c@)
}

/// Member `key` of `m` as a non-negative integer.
pub open spec fn u64_field(m: Json, key: Seq<char>) -> Option<u64> {
    match m.field(key) {
        Some(v) => v.u64_value(),
        None => None,
    }
}

/// Member `key` of `m` as an integer.
pub open spec fn i64_field(m: Json, key: Seq<char>) -> Option<i64> {
    match m.field(key) {
        Some(v) => v.i64_value(),
        None => None,
    }
}

/// The map coordinates of a cell, given those of the cell before it: its own
/// `x` and `y` when it has a `y`, else one column right of the one before.
/// `None` for a cell whose coordinates cannot be read; it is skipped.
pub open spec fn next_cursor(prev: (i64, i64), cell: Json) -> Option<(i64, i64)> {
    if cell.has_field("y"@) {
        match (i64_field(cell, "x"@), i64_field(cell, "y"@)) {
            (Some(x), Some(y)) => Some((x, y)),
            _ => None,
        }
    } else if prev.0 < i64::MAX {
        Some(((prev.0 + 1) as i64, prev.1))
    } else {
        None
    }
}

/// The map coordinates in effect after the first `n` cells.
pub open spec fn cursor_after(cells: Seq<Json>, n: int) -> (i64, i64)
    decreases n,
{
    if n <= 0 {
        (0, 0)
    } else {
        match next_cursor(cursor_after(cells, n - 1), cells[n - 1]) {
            Some(c) => c,
            None => cursor_after(cells, n - 1),
        }
    }
}

/// The grid cell that map coordinates `c` fall on; the map's origin is the
/// centre of the grid.
pub open spec fn grid_pos(c: (i64, i64)) -> Option<AbsCoord> {
    let x = c.0 + MAX_FLOOR_SIZE / 2;
    let y = c.1 + MAX_FLOOR_SIZE / 2;
    if 0 <= x < MAX_FLOOR_SIZE && 0 <= y < MAX_FLOOR_SIZE {
        Some((x as usize, y as usize))
    } else {
        None
    }
}

/// The grid cell that cell `i` of `cells` addresses.
pub open spec fn pos_of(cells: Seq<Json>, i: int) -> Option<AbsCoord> {
    match next_cursor(cursor_after(cells, i), cells[i]) {
        Some(c) => grid_pos(c),
        None => None,
    }
}

/// Glyphs of clouds, which block a cell.
pub open spec fn is_cloud(g: Seq<char>) -> bool {
    g == "§"@ || g == "☼"@ || g == "○"@ || g == "°"@
}

/// A tile after one cell update: a known feature code sets the terrain; a
/// creature blocks it and `null` frees it; a cloud glyph blocks it, the glyph
/// of an unseen creature frees it, and any other glyph frees it unless the
/// update also reports on a creature.
pub open spec fn tile_after(t: Tile, cell: Json) -> Tile {
    let t1 = match u64_field(cell, "mf"@) {
        Some(k) => if k <= usize::MAX {
            match mf_defaults(k as usize) {
                Some((walkable, explored)) => Tile { mf: k as usize, walkable, explored, ..t },
                None => t,
            }
        } else {
            t
        },
        None => t,
    };
    let t2 = match cell.field("mon"@) {
        Some(m) => Tile { blocked: !(m is Null), ..t1 },
        None => t1,
    };
    if cell.has_field("g"@) {
        let g = text_field(cell, "g"@);
        if g == Some("{"@) {
            Tile { blocked: false, ..t2 }
        } else if g is Some && is_cloud(g->0) {
            Tile { blocked: true, ..t2 }
        } else if !cell.has_field("mon"@) {
            Tile { blocked: false, ..t2 }
        } else {
            t2
        }
    } else {
        t2
    }
}

/// Tile `t` after the updates among the first `n` cells that address `p`.
pub open spec fn tile_final(t: Tile, cells: Seq<Json>, n: int, p: AbsCoord) -> Tile
    decreases n,
{
    if n <= 0 {
        t
    } else if pos_of(cells, n - 1) == Some(p) {
        tile_after(tile_final(t, cells, n - 1, p), cells[n - 1])
    } else {
        tile_final(t, cells, n - 1, p)
    }
}

/// Grid cells, among the first `n` cells, that report on a creature, with the
/// position of the reporting cell.
pub open spec fn creature_cells(cells: Seq<Json>, n: int) -> Seq<(AbsCoord, int)>
    decreases n,
{
    if n <= 0 {
        Seq::empty()
    } else if pos_of(cells, n - 1) is Some && cells[n - 1].has_field("mon"@) {
        creature_cells(cells, n - 1).push((pos_of(cells, n - 1)->0, n - 1))
    } else {
        creature_cells(cells, n - 1)
    }
}

/// Grid cells, among the first `n` cells, that `wanted` picks.
pub open spec fn picked_cells(cells: Seq<Json>, n: int, wanted: spec_fn(Json) -> bool) -> Seq<AbsCoord>
    decreases n,
{
    if n <= 0 {
        Seq::empty()
    } else if pos_of(cells, n - 1) is Some && wanted(cells[n - 1]) {
        picked_cells(cells, n - 1, wanted).push(pos_of(cells, n - 1)->0)
    } else {
        picked_cells(cells, n - 1, wanted)
    }
}

/// A cell that shows an item on the floor.
pub open spec fn shows_item(cell: Json) -> bool {
    u64_field(cell, "mf"@) == Some(6u64)
}

/// A cell that shows the glyph of an unseen creature.
pub open spec fn shows_unseen(cell: Json) -> bool {
    text_field(cell, "g"@) == Some("{"@)
}

/// A cell that shows the player.
pub open spec fn shows_player(cell: Json) -> bool {
    text_field(cell, "g"@) == Some("@"@)
}

/// `new` is grid `old` after the cell updates `cells`, and the other lists
/// are what those updates report: creature reports with their cells, cells
/// with items, and cells that show an unseen creature or the player.
pub open spec fn map_update(
    old: Seq<Vec<Tile>>,
    new: Seq<Vec<Tile>>,
    cells: Json,
    reports: Seq<(AbsCoord, Json)>,
    items: Seq<AbsCoord>,
    unseen: Seq<AbsCoord>,
    player: Seq<AbsCoord>,
) -> bool {
    match cells.elements() {
        Some(cs) => {
            &&& forall|x: int, y: int|
                0 <= x < MAX_FLOOR_SIZE && 0 <= y < MAX_FLOOR_SIZE ==> #[trigger] new[x]@[y]
                    == tile_final(old[x]@[y], cs, cs.len() as int, (x as usize, y as usize))
            &&& reports.len() == creature_cells(cs, cs.len() as int).len()
            &&& forall|k: int| 0 <= k < reports.len() ==> {
                let (p, at) = creature_cells(cs, cs.len() as int)[k];
                &&& (#[trigger] reports[k]).0 == p
                &&& same_json(reports[k].1, cs[at].field("mon"@)->0)
            }
            &&& items == picked_cells(cs, cs.len() as int, |c: Json| shows_item(c))
            &&& unseen == picked_cells(cs, cs.len() as int, |c: Json| shows_unseen(c))
            &&& player == picked_cells(cs, cs.len() as int, |c: Json| shows_player(c))
        },
        None => {
            &&& new == old
            &&& reports.len() == 0 && items.len() == 0 && unseen.len() == 0 && player.len() == 0
        },
    }
}

/// Whether the grid has its full size.
pub open spec fn tiles_wf(tiles: Seq<Vec<Tile>>) -> bool {
    &&& tiles.len() == MAX_FLOOR_SIZE
    &&& forall|x: int| 0 <= x < MAX_FLOOR_SIZE ==> #[trigger] tiles[x]@.len() == MAX_FLOOR_SIZE
}

/// What a map update reports besides the terrain: creature reports with
/// their cells, cells with items, and cells where an unseen creature appeared
/// or where the player now stands.
pub type CellReports = (Vec<(AbsCoord, Json)>, Vec<AbsCoord>, (Vec<AbsCoord>, Vec<AbsCoord>));

impl Tiles {
    /// Whether the grid has its full size.
    pub open spec fn wf(&self) -> bool {
        tiles_wf(self.tiles@)
    }

    /// A full-size grid of unexplored cells.
    pub fn init() -> (r: Tiles)
        ensures
            r.wf(),
            forall|x: int, y: int|
                0 <= x < MAX_FLOOR_SIZE && 0 <= y < MAX_FLOOR_SIZE ==> #[trigger] r.tiles@[x]@[y]
                    == blank_tile(),
    {
        let mut tiles: Vec<Vec<Tile>> = Vec::new();
        let mut x: usize = 0;
        while x < MAX_FLOOR_SIZE
            invariant
                x <= MAX_FLOOR_SIZE,
                tiles.len() == x,
                forall|i: int| 0 <= i < x ==> #[trigger] tiles@[i]@.len() == MAX_FLOOR_SIZE,
                forall|i: int, j: int|
                    0 <= i < x && 0 <= j < MAX_FLOOR_SIZE ==> #[trigger] tiles@[i]@[j] == blank_tile(),
            decreases MAX_FLOOR_SIZE - x,
        {
            let mut col: Vec<Tile> = Vec::new();
            let mut y: usize = 0;
            while y < MAX_FLOOR_SIZE
                invariant
                    y <= MAX_FLOOR_SIZE,
                    col.len() == y,
                    forall|j: int| 0 <= j < y ==> #[trigger] col@[j] == blank_tile(),
                decreases MAX_FLOOR_SIZE - y,
            {
                col.push(Tile::new());
                y += 1;
            }
            tiles.push(col);
            x += 1;
        }
        Tiles { tiles }
    }

    /// Applies one cell update to the tile at `p`.
    fn apply_cell(&mut self, p: AbsCoord, cell: &Json)
        requires
            old(self).wf(),
            p.0 < MAX_FLOOR_SIZE,
            p.1 < MAX_FLOOR_SIZE,
        ensures
            final(self).wf(),
            forall|x: int, y: int|
                0 <= x < MAX_FLOOR_SIZE && 0 <= y < MAX_FLOOR_SIZE ==> #[trigger] final(self).tiles@[x]@[y]
                    == if (x, y) == (p.0 as int, p.1 as int) {
                    tile_after(old(self).tiles@[x]@[y], *cell)
                } else {
                    old(self).tiles@[x]@[y]
                },
    {
        let (x, y) = p;
        let mut t = self.tiles[x][y];
        let ghost t0 = t;
        match cell.get("mf") {
            Some(v) => match v.as_u64() {
                Some(k) => if k <= usize::MAX as u64 {
                    match mf_lookup(k as usize) {
                        Some((walkable, explored)) => t.update(k as usize, walkable, explored),
                        None => {},
                    }
                },
                None => {},
            },
            None => {},
        }
        let has_mon = match cell.get("mon") {
            Some(m) => {
                if m.is_null() {
                    t.unblock();
                } else {
                    t.block();
                }
                true
            },
            None => false,
        };
        if cell.has_key("g") {
            let g = field_text(cell, "g");
            let unseen = match g {
                Some(s) => str_eq(s, "{"),
                None => false,
            };
            let cloud = match g {
                Some(s) => str_eq(s, "§") || str_eq(s, "☼") || str_eq(s, "○") || str_eq(s, "°"),
                None => false,
            };
            if unseen {
                t.unblock();
            } else if cloud {
                t.block();
            } else if !has_mon {
                t.unblock();
            }
        }
        assert(t == tile_after(t0, *cell));
        let ghost before = self.tiles@;
        let mut col: Vec<Tile> = Vec::new();
        std::mem::swap(&mut col, &mut self.tiles[x]);
        col.set(y, t);
        std::mem::swap(&mut col, &mut self.tiles[x]);
        assert forall|i: int, j: int|
            0 <= i < MAX_FLOOR_SIZE && 0 <= j < MAX_FLOOR_SIZE implies #[trigger] self.tiles@[i]@[j]
                == if (i, j) == (x as int, y as int) {
                tile_after(before[i]@[j], *cell)
            } else {
                before[i]@[j]
            } by {
            assert(before[i]@.len() == MAX_FLOOR_SIZE);
        }
    }

    /// Takes in the cell updates of a map event (an array of cells; anything
    /// else changes nothing). Cells are addressed from the grid's centre, each
    /// by its own coordinates or one column right of the cell before; cells
    /// off the grid are skipped. Returns the creature reports, the cells with
    /// items, and the cells that show an unseen creature or the player.
    pub fn update(&mut self, cells: &Json) -> (r: CellReports)
        requires
            old(self).wf(),
        ensures
            final(self).wf(),
            map_update(old(self).tiles@, final(self).tiles@, *cells, r.0@, r.1@, r.2.0@, r.2.1@),
    {
        let mut monsters: Vec<(AbsCoord, Json)> = Vec::new();
        let mut itemlist: Vec<AbsCoord> = Vec::new();
        let mut invisible: Vec<AbsCoord> = Vec::new();
        let mut player_seen: Vec<AbsCoord> = Vec::new();
        let cs = match cells.as_array() {
            Some(cs) => cs,
            None => {
                return (monsters, itemlist, (invisible, player_seen));
            },
        };
        let ghost start = self.tiles@;
        let ghost item_pick = |c: Json| shows_item(c);
        let ghost unseen_pick = |c: Json| shows_unseen(c);
        let ghost player_pick = |c: Json| shows_player(c);
        let mut cur: (i64, i64) = (0, 0);
        let mut i: usize = 0;
        while i < cs.len()
            invariant
                self.wf(),
                cells.elements() == Some(cs@),
                i <= cs.len(),
                cur == cursor_after(cs@, i as int),
                forall|x: int, y: int|
                    0 <= x < MAX_FLOOR_SIZE && 0 <= y < MAX_FLOOR_SIZE ==> #[trigger] self.tiles@[x]@[y]
                        == tile_final(start[x]@[y], cs@, i as int, (x as usize, y as usize)),
                monsters@.len() == creature_cells(cs@, i as int).len(),
                forall|k: int| 0 <= k < monsters@.len() ==> {
                    let (p, at) = creature_cells(cs@, i as int)[k];
                    &&& (#[trigger] monsters@[k]).0 == p
                    &&& same_json(monsters@[k].1, cs@[at].field("mon"@)->0)
                },
                itemlist@ == picked_cells(cs@, i as int, item_pick),
                invisible@ == picked_cells(cs@, i as int, unseen_pick),
                player_seen@ == picked_cells(cs@, i as int, player_pick),
                item_pick == (|c: Json| shows_item(c)),
                unseen_pick == (|c: Json| shows_unseen(c)),
                player_pick == (|c: Json| shows_player(c)),
            decreases cs.len() - i,
        {
            let cell = &cs[i];
            let next: Option<(i64, i64)> = if cell.has_key("y") {
                match (cell.get("x"), cell.get("y")) {
                    (Some(x), Some(y)) => match (x.as_i64(), y.as_i64()) {
                        (Some(x), Some(y)) => Some((x, y)),
                        _ => None,
                    },
                    _ => None,
                }
            } else if cur.0 < i64::MAX {
                Some((cur.0 + 1, cur.1))
            } else {
                None
            };
            assert(next == next_cursor(cur, cs@[i as int]));
            let ghost prev_mons = monsters@;
            let ghost prev_cells = creature_cells(cs@, i as int);
            if let Some(c) = next {
                cur = c;
                let half: i64 = (MAX_FLOOR_SIZE / 2) as i64;
                let size: i64 = MAX_FLOOR_SIZE as i64;
                if -half <= c.0 && c.0 < size - half && -half <= c.1 && c.1 < size - half {
                    let p: AbsCoord = ((c.0 + half) as usize, (c.1 + half) as usize);
                    assert(pos_of(cs@, i as int) == Some(p));
                    self.apply_cell(p, cell);
                    match cell.get("mon") {
                        Some(m) => {
                            monsters.push((p, m.duplicate()));
                        },
                        None => {},
                    }
                    match cell.get("mf") {
                        Some(v) => if v.as_u64() == Some(6u64) {
                            itemlist.push(p);
                        },
                        None => {},
                    }
                    if crate::classify::field_is(cell, "g", "{") {
                        invisible.push(p);
                    }
                    if crate::classify::field_is(cell, "g", "@") {
                        player_seen.push(p);
                    }
                } else {
                    assert(pos_of(cs@, i as int) is None);
                }
            } else {
                assert(pos_of(cs@, i as int) is None);
            }
            assert forall|k: int| 0 <= k < monsters@.len() implies {
                let (p, at) = creature_cells(cs@, i + 1)[k];
                &&& (#[trigger] monsters@[k]).0 == p
                &&& same_json(monsters@[k].1, cs@[at].field("mon"@)->0)
            } by {
                if k < prev_mons.len() {
                    assert(monsters@[k] == prev_mons[k]);
                    assert(creature_cells(cs@, i + 1)[k] == prev_cells[k]);
                }
            }
            i += 1;
        }
        (monsters, itemlist, (invisible, player_seen))
    }

}

}
