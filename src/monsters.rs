use vstd::prelude::*;

use crate::classify::{field_text, text_field};
use crate::coords::AbsCoord;
use crate::json::Json;
use crate::pathfinding::{
    chebyshev, first_shortest, non_empty_paths, path_views, pathfinding, pick_shortest, search_result,
};
use crate::tiles::{grid_cells, in_grid, Tile};
use vstd::string::StringExecFns;

verus! {

/// A creature seen on the map.
pub struct Monster {
    pub name: String,
    /// Danger level; -1 for creatures that give no experience (plants and the like).
    pub threat: i32,
    /// Where it was last seen, or `None` when its place is unknown.
    pub pos: Option<AbsCoord>,
    /// Whether its detailed description has been read.
    pub examined: bool,
    pub max_hp: Option<i32>,
    pub will: Option<i32>,
    pub ac: Option<i32>,
    pub ev: Option<i32>,
    pub fire: Option<i32>,
    pub cold: Option<i32>,
    pub poison: Option<i32>,
    pub negative: Option<i32>,
    pub electric: Option<i32>,
    pub class: Option<i32>,
    pub size: Option<i32>,
    pub int: Option<i32>,
    pub speed: Option<i32>,
    pub regen: Option<i32>,
    pub player_hit_monster_chance: Option<i32>,
    pub monster_hit_player_chance: Option<i32>,
    pub max_damage: Option<i32>,
}

/// A creature known only by name, danger level and place.
pub open spec fn fresh_monster(name: String, threat: i32, pos: Option<AbsCoord>) -> Monster {
    Monster {
        name,
        threat,
        pos,
        examined: false,
        max_hp: None,
        will: None,
        ac: None,
        ev: None,
        fire: None,
        cold: None,
        poison: None,
        negative: None,
        electric: None,
        class: None,
        size: None,
        int: None,
        speed: None,
        regen: None,
        player_hit_monster_chance: None,
        monster_hit_player_chance: None,
        max_damage: None,
    }
}

impl Monster {
    /// A creature known only by name, danger level and place.
    pub fn new(name: String, threat: i32, pos: Option<AbsCoord>) -> (r: Monster)
        ensures
            r == fresh_monster(name, threat, pos),
    {
        Monster {
            name,
            threat,
            pos,
            examined: false,
            max_hp: None,
            will: None,
            ac: None,
            ev: None,
            fire: None,
            cold: None,
            poison: None,
            negative: None,
            electric: None,
            class: None,
            size: None,
            int: None,
            speed: None,
            regen: None,
            player_hit_monster_chance: None,
            monster_hit_player_chance: None,
            max_damage: None,
        }
    }

    /// Moves the creature, or marks its place unknown.
    pub fn update_pos(&mut self, pos: Option<AbsCoord>)
        ensures
            *final(self) == (Monster { pos, ..*old(self) }),
    {
        self.pos = pos;
    }
}

/// The id under which creatures seen but not identified are kept.
pub const INVISIBLE_ID: u64 = 9999;

/// The creatures being tracked, each under its id, oldest first.
pub struct Monsters {
    /// Where the creature to examine next stands.
    pub examine_loc: Option<AbsCoord>,
    pub monsters: Vec<(u64, Monster)>,
}

/// No id is tracked twice.
pub open spec fn ids_unique(ms: Seq<(u64, Monster)>) -> bool {
    forall|i: int, j: int| 0 <= i < j < ms.len() ==> ms[i].0 != ms[j].0
}

/// The position in `ms` of the creature tracked under `id`.
pub open spec fn index_of(ms: Seq<(u64, Monster)>, id: u64) -> Option<int> {
    if exists|i: int| 0 <= i < ms.len() && ms[i].0 == id {
        Some(choose|i: int| 0 <= i < ms.len() && ms[i].0 == id)
    } else {
        None
    }
}

/// The position in `ms`, from `i` on, of the first creature last seen at `pos`.
pub open spec fn first_at_from(ms: Seq<(u64, Monster)>, pos: AbsCoord, i: int) -> Option<int>
    decreases ms.len() - i,
{
    if i < 0 || i >= ms.len() {
        None
    } else if ms[i].1.pos == Some(pos) {
        Some(i)
    } else {
        first_at_from(ms, pos, i + 1)
    }
}

/// The position in `ms` of the first creature last seen at `pos`.
pub open spec fn first_at(ms: Seq<(u64, Monster)>, pos: AbsCoord) -> Option<int> {
    first_at_from(ms, pos, 0)
}

proof fn lemma_first_at_from(ms: Seq<(u64, Monster)>, pos: AbsCoord, i: int)
    ensures
        first_at_from(ms, pos, i) matches Some(j) ==> i <= j < ms.len() && ms[j].1.pos == Some(pos),
    decreases ms.len() - i,
{
    if 0 <= i < ms.len() && ms[i].1.pos != Some(pos) {
        lemma_first_at_from(ms, pos, i + 1);
    }
}

/// `ms` with every creature last seen at `pos` marked as away.
pub open spec fn vacate(ms: Seq<(u64, Monster)>, pos: AbsCoord) -> Seq<(u64, Monster)> {
    ms.map_values(
        |e: (u64, Monster)|
            if e.1.pos == Some(pos) {
                (e.0, Monster { pos: None, ..e.1 })
            } else {
                e
            },
    )
}

/// The danger level a creature report gives: -1 when its type data says it
/// gives no experience, else its `threat` when that is an `i32`, else 0.
pub open spec fn reported_threat(m: Json) -> i32 {
    let no_exp = match m.field("typedata"@) {
        Some(t) => t.field("no_exp"@) == Some(Json::Bool(true)),
        None => false,
    };
    if no_exp {
        -1i32
    } else {
        match m.field("threat"@) {
            Some(v) => match v.i64_value() {
                Some(n) => if i32::MIN <= n <= i32::MAX {
                    n as i32
                } else {
                    0
                },
                None => 0,
            },
            None => 0,
        }
    }
}

/// The tracked creatures after the map reports `m` at `pos`:
/// - `null`: whatever stood there has gone;
/// - no `id`: nothing changes;
/// - a tracked id: it moved there, and whatever stood there has gone;
/// - a new id with a name: a new creature, and whatever stood there has gone;
/// - a new id without a name: the server gave a new id to the creature that
///   stood there; it is tracked again under the new id, and the old id's place
///   becomes unknown. With nothing there, nothing changes.
pub open spec fn monsters_after(ms: Seq<(u64, Monster)>, pos: AbsCoord, m: Json) -> Seq<
    (u64, Monster),
> {
    if m is Null {
        vacate(ms, pos)
    } else {
        match m.field("id"@) {
            Some(v) => match v.u64_value() {
                Some(id) => match index_of(ms, id) {
                    Some(i) => vacate(ms, pos).update(i, (id, Monster { pos: Some(pos), ..ms[i].1 })),
                    None => match m.field("name"@) {
                        Some(Json::Str(name)) => vacate(ms, pos).push(
                            (id, fresh_monster(name, reported_threat(m), Some(pos))),
                        ),
                        Some(_) => ms,
                        None => match first_at(ms, pos) {
                            Some(j) => ms.update(j, (ms[j].0, Monster { pos: None, ..ms[j].1 })).push(
                                (id, fresh_monster(ms[j].1.name, ms[j].1.threat, Some(pos))),
                            ),
                            None => ms,
                        },
                    },
                },
                None => ms,
            },
            None => ms,
        }
    }
}

/// The tracked creatures after the map's creature reports `reports`, taken in order.
pub open spec fn after_reports(ms: Seq<(u64, Monster)>, reports: Seq<(AbsCoord, Json)>) -> Seq<(u64, Monster)>
    decreases reports.len(),
{
    if reports.len() == 0 {
        ms
    } else {
        monsters_after(after_reports(ms, reports.drop_last()), reports.last().0, reports.last().1)
    }
}

/// The tracked creatures other than the unseen-creature marker, in order.
pub open spec fn strip_unseen(ms: Seq<(u64, Monster)>) -> Seq<(u64, Monster)>
    decreases ms.len(),
{
    if ms.len() == 0 {
        ms
    } else {
        let rest = strip_unseen(ms.drop_last());
        if ms.last().0 == INVISIBLE_ID {
            rest
        } else {
            rest.push(ms.last())
        }
    }
}

proof fn lemma_strip_update(ms: Seq<(u64, Monster)>, i: int, e: (u64, Monster))
    requires
        0 <= i < ms.len(),
        ms[i].0 == INVISIBLE_ID,
        e.0 == INVISIBLE_ID,
    ensures
        strip_unseen(ms.update(i, e)) == strip_unseen(ms),
    decreases ms.len(),
{
    let u = ms.update(i, e);
    if i == ms.len() - 1 {
        assert(u.drop_last() =~= ms.drop_last());
    } else {
        assert(u.drop_last() =~= ms.drop_last().update(i, e));
        lemma_strip_update(ms.drop_last(), i, e);
    }
}

proof fn lemma_strip_remove(ms: Seq<(u64, Monster)>, i: int)
    requires
        0 <= i < ms.len(),
        ms[i].0 == INVISIBLE_ID,
    ensures
        strip_unseen(ms.remove(i)) == strip_unseen(ms),
    decreases ms.len(),
{
    let u = ms.remove(i);
    if i == ms.len() - 1 {
        assert(u =~= ms.drop_last());
    } else {
        assert(u.drop_last() =~= ms.drop_last().remove(i));
        assert(u.last() == ms.last());
        lemma_strip_remove(ms.drop_last(), i);
    }
}

impl Monsters {
    /// Nothing tracked.
    pub fn init() -> (r: Monsters)
        ensures
            r.monsters@.len() == 0,
            r.examine_loc is None,
    {
        Monsters { examine_loc: None, monsters: Vec::new() }
    }

    /// Marks every creature last seen at `pos` as away.
    fn vacate_pos(&mut self, pos: AbsCoord)
        ensures
            final(self).monsters@ == vacate(old(self).monsters@, pos),
            final(self).examine_loc == old(self).examine_loc,
    {
        let ghost start = self.monsters@;
        let mut k: usize = 0;
        while k < self.monsters.len()
            invariant
                self.monsters@.len() == start.len(),
                k <= start.len(),
                self.examine_loc == old(self).examine_loc,
                forall|i: int| 0 <= i < k ==> #[trigger] self.monsters@[i] == vacate(start, pos)[i],
                forall|i: int| k <= i < start.len() ==> #[trigger] self.monsters@[i] == start[i],
            decreases start.len() - k,
        {
            if self.monsters[k].1.pos == Some(pos) {
                self.monsters[k].1.update_pos(None);
            }
            k += 1;
        }
        assert(self.monsters@ =~= vacate(start, pos));
    }

    /// The position of the creature tracked under `id`.
    fn find(&self, id: u64) -> (r: Option<usize>)
        requires
            ids_unique(self.monsters@),
        ensures
            r matches Some(i) ==> i < self.monsters@.len(),
            match r {
                Some(i) => index_of(self.monsters@, id) == Some(i as int),
                None => index_of(self.monsters@, id) is None,
            },
    {
        let mut k: usize = 0;
        while k < self.monsters.len()
            invariant
                ids_unique(self.monsters@),
                k <= self.monsters@.len(),
                forall|i: int| 0 <= i < k ==> self.monsters@[i].0 != id,
            decreases self.monsters@.len() - k,
        {
            if self.monsters[k].0 == id {
                proof {
                    let c = choose|i: int| 0 <= i < self.monsters@.len() && self.monsters@[i].0 == id;
                    assert(c == k as int) by {
                        if c < k as int {
                        } else if c > k as int {
                            assert(self.monsters@[k as int].0 == self.monsters@[c].0);
                        }
                    }
                }
                return Some(k);
            }
            k += 1;
        }
        None
    }

    /// The position of the first creature last seen at `pos`.
    fn find_at(&self, pos: AbsCoord) -> (r: Option<usize>)
        ensures
            r matches Some(i) ==> i < self.monsters@.len(),
            match r {
                Some(i) => first_at(self.monsters@, pos) == Some(i as int),
                None => first_at(self.monsters@, pos) is None,
            },
    {
        let mut k: usize = 0;
        while k < self.monsters.len()
            invariant
                k <= self.monsters@.len(),
                first_at(self.monsters@, pos) == first_at_from(self.monsters@, pos, k as int),
            decreases self.monsters@.len() - k,
        {
            if self.monsters[k].1.pos == Some(pos) {
                return Some(k);
            }
            k += 1;
        }
        None
    }

    /// Takes in what the map reports at `pos` (a creature, or `null` for none);
    /// see `monsters_after` for each case.
    pub fn update(&mut self, mon_pos: AbsCoord, monster: &Json)
        requires
            ids_unique(old(self).monsters@),
        ensures
            ids_unique(final(self).monsters@),
            final(self).monsters@ == monsters_after(old(self).monsters@, mon_pos, *monster),
            final(self).examine_loc == old(self).examine_loc,
    {
        if monster.is_null() {
            self.vacate_pos(mon_pos);
            return;
        }
        let id = match monster.get("id") {
            Some(v) => match v.as_u64() {
                Some(id) => id,
                None => {
                    return;
                },
            },
            None => {
                return;
            },
        };
        let ghost ms = self.monsters@;
        match self.find(id) {
            Some(i) => {
                self.vacate_pos(mon_pos);
                self.monsters[i].1.update_pos(Some(mon_pos));
                assert(self.monsters@ =~= vacate(ms, mon_pos).update(i as int, (id, Monster { pos: Some(mon_pos), ..ms[i as int].1 })));
                assert(ids_unique(self.monsters@)) by {
                    assert forall|a: int, b: int| 0 <= a < b < self.monsters@.len() implies self.monsters@[a].0 != self.monsters@[b].0 by {
                        assert(self.monsters@[a].0 == ms[a].0);
                        assert(self.monsters@[b].0 == ms[b].0);
                    }
                }
            },
            None => {
                match monster.get("name") {
                    Some(Json::Str(name)) => {
                        let threat = threat_of(monster);
                        self.vacate_pos(mon_pos);
                        self.monsters.push((id, Monster::new(name.clone(), threat, Some(mon_pos))));
                        assert(ids_unique(self.monsters@)) by {
                            assert forall|a: int, b: int| 0 <= a < b < self.monsters@.len() implies self.monsters@[a].0 != self.monsters@[b].0 by {
                                assert(self.monsters@[a].0 == ms[a].0);
                                if b < ms.len() {
                                    assert(self.monsters@[b].0 == ms[b].0);
                                }
                            }
                        }
                    },
                    Some(_) => {},
                    None => match self.find_at(mon_pos) {
                        Some(j) => {
                            let name = self.monsters[j].1.name.clone();
                            let threat = self.monsters[j].1.threat;
                            self.monsters[j].1.update_pos(None);
                            self.monsters.push((id, Monster::new(name, threat, Some(mon_pos))));
                            assert(self.monsters@ =~= ms.update(j as int, (ms[j as int].0, Monster { pos: None, ..ms[j as int].1 })).push(
                                (id, fresh_monster(ms[j as int].1.name, ms[j as int].1.threat, Some(mon_pos))),
                            ));
                            assert(ids_unique(self.monsters@)) by {
                                assert forall|a: int, b: int| 0 <= a < b < self.monsters@.len() implies self.monsters@[a].0 != self.monsters@[b].0 by {
                                    assert(self.monsters@[a].0 == ms[a].0);
                                    if b < ms.len() {
                                        assert(self.monsters@[b].0 == ms[b].0);
                                    }
                                }
                            }
                        },
                        None => {},
                    },
                }
            },
        }
    }
}

impl Monsters {
    /// Records an unseen creature at `mon_pos`, under the id kept for unseen
    /// creatures; an earlier one is replaced.
    pub fn invisible_monster(&mut self, mon_pos: AbsCoord)
        requires
            ids_unique(old(self).monsters@),
        ensures
            ids_unique(final(self).monsters@),
            final(self).examine_loc == old(self).examine_loc,
            strip_unseen(final(self).monsters@) == strip_unseen(old(self).monsters@),
            match index_of(old(self).monsters@, INVISIBLE_ID) {
                Some(i) => final(self).monsters@.len() == old(self).monsters@.len() && final(self).monsters@[i].0
                    == INVISIBLE_ID && final(self).monsters@[i].1.name@ == "invisible"@
                    && final(self).monsters@[i].1.threat == 0 && final(self).monsters@[i].1.pos == Some(mon_pos)
                    && forall|k: int| 0 <= k < old(self).monsters@.len() && k != i ==> final(self).monsters@[k] == old(self).monsters@[k],
                None => final(self).monsters@.len() == old(self).monsters@.len() + 1
                    && final(self).monsters@.last().0 == INVISIBLE_ID
                    && final(self).monsters@.last().1.name@ == "invisible"@
                    && final(self).monsters@.last().1.threat == 0
                    && final(self).monsters@.last().1.pos == Some(mon_pos)
                    && final(self).monsters@.drop_last() == old(self).monsters@,
            },
    {
        let ghost ms = self.monsters@;
        let fresh = Monster::new(String::from_str("invisible"), 0, Some(mon_pos));
        match self.find(INVISIBLE_ID) {
            Some(i) => {
                self.monsters.set(i, (INVISIBLE_ID, fresh));
                proof {
                    assert(self.monsters@ =~= ms.update(i as int, self.monsters@[i as int]));
                    lemma_strip_update(ms, i as int, self.monsters@[i as int]);
                }
                assert(ids_unique(self.monsters@)) by {
                    assert forall|a: int, b: int| 0 <= a < b < self.monsters@.len() implies self.monsters@[a].0 != self.monsters@[b].0 by {
                        assert(self.monsters@[a].0 == ms[a].0);
                        assert(self.monsters@[b].0 == ms[b].0);
                    }
                }
            },
            None => {
                self.monsters.push((INVISIBLE_ID, fresh));
                assert(self.monsters@.drop_last() =~= ms);
                assert(strip_unseen(self.monsters@) == strip_unseen(ms));
                assert(ids_unique(self.monsters@)) by {
                    assert forall|a: int, b: int| 0 <= a < b < self.monsters@.len() implies self.monsters@[a].0 != self.monsters@[b].0 by {
                        assert(self.monsters@[a].0 == ms[a].0);
                        if b < ms.len() {
                            assert(self.monsters@[b].0 == ms[b].0);
                        }
                    }
                }
            },
        }
    }

    /// Forgets the unseen creature when it was recorded at `mon_pos`.
    pub fn invisible_removed(&mut self, mon_pos: AbsCoord)
        requires
            ids_unique(old(self).monsters@),
        ensures
            ids_unique(final(self).monsters@),
            final(self).examine_loc == old(self).examine_loc,
            strip_unseen(final(self).monsters@) == strip_unseen(old(self).monsters@),
            match index_of(old(self).monsters@, INVISIBLE_ID) {
                Some(i) => if old(self).monsters@[i].1.pos == Some(mon_pos) {
                    final(self).monsters@ == old(self).monsters@.remove(i)
                } else {
                    final(self).monsters@ == old(self).monsters@
                },
                None => final(self).monsters@ == old(self).monsters@,
            },
    {
        let ghost ms = self.monsters@;
        match self.find(INVISIBLE_ID) {
            Some(i) => {
                if self.monsters[i].1.pos == Some(mon_pos) {
                    self.monsters.remove(i);
                    proof {
                        lemma_strip_remove(ms, i as int);
                    }
                    assert(ids_unique(self.monsters@)) by {
                        assert forall|a: int, b: int| 0 <= a < b < self.monsters@.len() implies self.monsters@[a].0 != self.monsters@[b].0 by {
                            if a < i {
                                assert(self.monsters@[a] == ms[a]);
                            } else {
                                assert(self.monsters@[a] == ms[a + 1]);
                            }
                            if b < i {
                                assert(self.monsters@[b] == ms[b]);
                            } else {
                                assert(self.monsters@[b] == ms[b + 1]);
                            }
                        }
                    }
                }
            },
            None => {},
        }
    }

    /// Paths to the tracked creatures in view (see `in_view`), in list order,
    /// each found with `pathfinding` capped at `fov` moves; creatures without a
    /// path are left out.
    pub fn path_to_all_mons(
        &self,
        tiles: &[Vec<Tile>],
        player_pos: AbsCoord,
        fov: u32,
        ignore_blocked: bool,
    ) -> (r: Vec<Vec<AbsCoord>>)
        requires
            in_grid(tiles@, player_pos),
            grid_cells(tiles@) <= usize::MAX,
        ensures
            exists|ps: Seq<Seq<AbsCoord>>|
                creature_paths(tiles@, self.monsters@, player_pos, fov, ignore_blocked, ps) && path_views(r@)
                    == non_empty_paths(ps),
    {
        let mut paths: Vec<Vec<AbsCoord>> = Vec::new();
        let ghost mut ps: Seq<Seq<AbsCoord>> = Seq::empty();
        let mut i: usize = 0;
        while i < self.monsters.len()
            invariant
                in_grid(tiles@, player_pos),
                grid_cells(tiles@) <= usize::MAX,
                i <= self.monsters@.len(),
                ps.len() == i,
                forall|j: int|
                    0 <= j < i ==> creature_path_ok(tiles@, self.monsters@[j].1, player_pos, fov, ignore_blocked, #[trigger] ps[j]),
                path_views(paths@) == non_empty_paths(ps),
            decreases self.monsters@.len() - i,
        {
            let ghost before = paths@;
            let ghost mut this: Seq<AbsCoord> = Seq::empty();
            if in_view_exec(&self.monsters[i].1, player_pos, fov) {
                if let Some(at) = self.monsters[i].1.pos {
                    let path = pathfinding(tiles, player_pos, Some(at), None, None, fov as u64, ignore_blocked);
                    proof {
                        this = path@;
                    }
                    if path.len() > 0 {
                        paths.push(path);
                    }
                }
            }
            proof {
                let ps2 = ps.push(this);
                assert(ps2.drop_last() =~= ps);
                assert(path_views(paths@) =~= non_empty_paths(ps2)) by {
                    if this.len() > 0 {
                        assert(path_views(paths@) =~= path_views(before).push(this));
                    } else {
                        assert(paths@ == before);
                    }
                }
                assert forall|j: int| 0 <= j < i + 1 implies creature_path_ok(tiles@, self.monsters@[j].1, player_pos, fov, ignore_blocked, #[trigger] ps2[j]) by {
                    if j < i {
                        assert(ps2[j] == ps[j]);
                    }
                }
                ps = ps2;
            }
            i += 1;
        }
        paths
    }

    /// The first of the shortest paths to the creatures in view, blocked
    /// cells counting as blocked (see `path_to_all_mons`); empty when there is none.
    pub fn nearest(&mut self, tiles: &[Vec<Tile>], player_pos: AbsCoord, fov: u32) -> (r: Vec<
        AbsCoord,
    >)
        requires
            in_grid(tiles@, player_pos),
            grid_cells(tiles@) <= usize::MAX,
        ensures
            final(self).monsters@ == old(self).monsters@,
            final(self).examine_loc == old(self).examine_loc,
            exists|ps: Seq<Seq<AbsCoord>>|
                creature_paths(tiles@, old(self).monsters@, player_pos, fov, false, ps) && r@ == first_shortest(
                    non_empty_paths(ps),
                ),
    {
        let all = self.path_to_all_mons(tiles, player_pos, fov, false);
        pick_shortest(&all)
    }
}

/// What the search for creature `m` may give: a search result capped at
/// `fov` moves when it is in view, else nothing.
pub open spec fn creature_path_ok(
    tiles: Seq<Vec<Tile>>,
    m: Monster,
    from: AbsCoord,
    fov: u32,
    ignore_blocked: bool,
    p: Seq<AbsCoord>,
) -> bool {
    if in_view(m, from, fov) {
        search_result(tiles, from, m.pos, None, None, fov as u64, ignore_blocked, p)
    } else {
        p.len() == 0
    }
}

/// `ps` holds what the search gives for each tracked creature, in list order.
pub open spec fn creature_paths(
    tiles: Seq<Vec<Tile>>,
    ms: Seq<(u64, Monster)>,
    from: AbsCoord,
    fov: u32,
    ignore_blocked: bool,
    ps: Seq<Seq<AbsCoord>>,
) -> bool {
    &&& ps.len() == ms.len()
    &&& forall|j: int|
        0 <= j < ps.len() ==> creature_path_ok(tiles, ms[j].1, from, fov, ignore_blocked, #[trigger] ps[j])
}


/// Whether `m` may be dangerous, is on the grid, and is within `fov` king moves of `from`.
pub open spec fn in_view(m: Monster, from: AbsCoord, fov: u32) -> bool {
    &&& m.threat >= 0
    &&& m.pos is Some
    &&& chebyshev(from, m.pos->0) <= fov
}

/// Positions in `ms`, among the first `n`, of the creatures `in_view`.
pub open spec fn in_view_positions(ms: Seq<(u64, Monster)>, from: AbsCoord, fov: u32, n: int) -> Seq<int>
    decreases n,
{
    if n <= 0 {
        Seq::empty()
    } else if in_view(ms[n - 1].1, from, fov) {
        in_view_positions(ms, from, fov, n - 1).push(n - 1)
    } else {
        in_view_positions(ms, from, fov, n - 1)
    }
}

/// The first creature, from position `i` of `ms` on, that is in view, has
/// not been examined, and is not the unseen-creature marker.
pub open spec fn first_to_examine(ms: Seq<(u64, Monster)>, from: AbsCoord, fov: u32, i: int) -> Option<int>
    decreases ms.len() - i,
{
    if i < 0 || i >= ms.len() {
        None
    } else if in_view(ms[i].1, from, fov) && !ms[i].1.examined && ms[i].1.name@ != "invisible"@ {
        Some(i)
    } else {
        first_to_examine(ms, from, fov, i + 1)
    }
}

/// Whether `m` may be dangerous, is on the grid, and is within `fov` king moves of `from`.
fn in_view_exec(m: &Monster, from: AbsCoord, fov: u32) -> (r: bool)
    ensures
        r == in_view(*m, from, fov),
{
    match m.pos {
        Some(at) => {
            let dx = if from.0 >= at.0 { from.0 - at.0 } else { at.0 - from.0 };
            let dy = if from.1 >= at.1 { from.1 - at.1 } else { at.1 - from.1 };
            m.threat >= 0 && dx <= fov as usize && dy <= fov as usize
        },
        None => false,
    }
}

impl Monsters {
    /// Where the first creature to examine stands.
    pub open spec fn pos_unexamined_monster_spec(&self, from: AbsCoord, fov: u32) -> Option<AbsCoord> {
        match first_to_examine(self.monsters@, from, fov, 0) {
            Some(i) => self.monsters@[i].1.pos,
            None => None,
        }
    }

    /// The positions, in the tracker's list, of the creatures that may be
    /// dangerous, are on the grid, and are within `fov` king moves of `player_pos`.
    pub fn monsters_in_fov(&self, player_pos: AbsCoord, fov: u32) -> (r: Vec<usize>)
        ensures
            r@.map_values(|k: usize| k as int) == in_view_positions(self.monsters@, player_pos, fov, self.monsters@.len() as int),
            forall|j: int| 0 <= j < r@.len() ==> (#[trigger] r@[j]) < self.monsters@.len(),
    {
        let mut r: Vec<usize> = Vec::new();
        let mut i: usize = 0;
        while i < self.monsters.len()
            invariant
                i <= self.monsters@.len(),
                r@.map_values(|k: usize| k as int) == in_view_positions(self.monsters@, player_pos, fov, i as int),
                forall|j: int| 0 <= j < r@.len() ==> (#[trigger] r@[j]) < i,
            decreases self.monsters@.len() - i,
        {
            let ghost before = r@;
            if in_view_exec(&self.monsters[i].1, player_pos, fov) {
                r.push(i);
                assert(r@.map_values(|k: usize| k as int) =~= before.map_values(|k: usize| k as int).push(i as int));
            }
            i += 1;
        }
        r
    }

    /// Where the first creature to examine stands: in view, not yet examined,
    /// and not the unseen-creature marker.
    pub fn pos_unexamined_monster(&self, player_pos: AbsCoord, fov: u32) -> (r: Option<AbsCoord>)
        ensures
            r == self.pos_unexamined_monster_spec(player_pos, fov),
    {
        let mut i: usize = 0;
        while i < self.monsters.len()
            invariant
                i <= self.monsters@.len(),
                first_to_examine(self.monsters@, player_pos, fov, 0) == first_to_examine(self.monsters@, player_pos, fov, i as int),
            decreases self.monsters@.len() - i,
        {
            let m = &self.monsters[i].1;
            if in_view_exec(m, player_pos, fov) && !m.examined && !crate::text::str_eq(m.name.as_str(), "invisible") {
                return m.pos;
            }
            i += 1;
        }
        None
    }
}

/// The danger level a creature report gives.
fn threat_of(m: &Json) -> (r: i32)
    ensures
        r == reported_threat(*m),
{
    let no_exp = match m.get("typedata") {
        Some(t) => match t.get("no_exp") {
            Some(Json::Bool(b)) => *b,
            _ => false,
        },
        None => false,
    };
    if no_exp {
        return -1;
    }
    match m.get("threat") {
        Some(v) => match v.as_i64() {
            Some(n) => if i32::MIN as i64 <= n && n <= i32::MAX as i64 {
                n as i32
            } else {
                0
            },
            None => 0,
        },
        None => 0,
    }
}


/// A creature reported under a new id and without a name, where a tracked
/// creature stood, is taken to be that creature: its name and danger level go
/// over to the new id at that place, and the old id's place becomes unknown.
pub proof fn lemma_reissued_id(ms: Seq<(u64, Monster)>, pos: AbsCoord, m: Json, id: u64)
    requires
        ids_unique(ms),
        !(m is Null),
        m.field("id"@) matches Some(v) && v.u64_value() == Some(id),
        index_of(ms, id) is None,
        !m.has_field("name"@),
        first_at(ms, pos) is Some,
    ensures
        ({
            let after = monsters_after(ms, pos, m);
            let j = first_at(ms, pos)->0;
            &&& 0 <= j < ms.len()
            &&& ms[j].1.pos == Some(pos)
            &&& after.len() == ms.len() + 1
            &&& after.last().0 == id
            &&& after.last().1.name == ms[j].1.name
            &&& after.last().1.threat == ms[j].1.threat
            &&& after.last().1.pos == Some(pos)
            &&& after[j].0 == ms[j].0
            &&& after[j].1.pos is None
        }),
{
    lemma_first_at_from(ms, pos, 0);
}

}
