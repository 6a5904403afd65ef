use vstd::prelude::*;

use std::collections::VecDeque;

use crate::coords::AbsCoord;
use crate::tiles::MAX_FLOOR_SIZE;

verus! {

/// Hit points, and how many would remain after poison runs its course.
pub struct Health {
    pub hp: i32,
    pub hp_max: i32,
    pub poison_survival: i32,
}

/// Strength, intelligence and dexterity.
pub struct Stats {
    pub str: u32,
    pub int: u32,
    pub dex: u32,
}

/// Armour class, evasion and shield values.
pub struct Defense {
    pub ac: i32,
    pub ev: i32,
    pub sh: i32,
}

/// Number of equipment slots the server reports.
pub const EQUIP_SLOTS: usize = 21;

/// The player's character.
pub struct Player {
    /// Grid position.
    pub pos: AbsCoord,
    pub health: Health,
    pub stats: Stats,
    pub defense: Defense,
    /// Inventory index of the item in each equipment slot, -1 for none.
    pub equipped: Vec<i32>,
    /// Status lights shown by the game.
    pub status: Vec<String>,
}

/// Game log lines not yet handed out, oldest first.
pub struct Log {
    pub log: VecDeque<String>,
}

/// An ability the character can use.
pub struct Ability {
    /// Key that selects it in the ability menu.
    pub key: String,
    pub _cost: String,
    pub _failure_chance: u64,
}

impl Health {
    /// Health before the server reports any.
    pub fn new() -> (r: Health)
        ensures
            r.hp == 1 && r.hp_max == 1 && r.poison_survival == 1,
    {
        Health { hp: 1, hp_max: 1, poison_survival: 1 }
    }
}

impl Stats {
    /// Stats before the server reports any.
    pub fn new() -> (r: Stats)
        ensures
            r.str == 0 && r.int == 0 && r.dex == 0,
    {
        Stats { str: 0, int: 0, dex: 0 }
    }
}

impl Defense {
    /// Defenses before the server reports any.
    pub fn new() -> (r: Defense)
        ensures
            r.ac == 0 && r.ev == 0 && r.sh == 0,
    {
        Defense { ac: 0, ev: 0, sh: 0 }
    }
}

impl Player {
    /// A character at the centre of the grid, with nothing equipped.
    pub fn init() -> (r: Player)
        ensures
            r.pos == (MAX_FLOOR_SIZE / 2, MAX_FLOOR_SIZE / 2),
            r.health.hp == 1 && r.health.hp_max == 1 && r.health.poison_survival == 1,
            r.stats.str == 0 && r.stats.int == 0 && r.stats.dex == 0,
            r.defense.ac == 0 && r.defense.ev == 0 && r.defense.sh == 0,
            r.equipped@ == Seq::new(EQUIP_SLOTS as nat, |i: int| -1i32),
            r.status@.len() == 0,
    {
        let mut equipped: Vec<i32> = Vec::new();
        let mut i: usize = 0;
        while i < EQUIP_SLOTS
            invariant
                i <= EQUIP_SLOTS,
                equipped@ == Seq::new(i as nat, |k: int| -1i32),
            decreases EQUIP_SLOTS - i,
        {
            equipped.push(-1);
            i += 1;
            assert(equipped@ =~= Seq::new(i as nat, |k: int| -1i32));
        }
        Player {
            pos: (MAX_FLOOR_SIZE / 2, MAX_FLOOR_SIZE / 2),
            health: Health::new(),
            stats: Stats::new(),
            defense: Defense::new(),
            equipped,
            status: Vec::new(),
        }
    }
}

impl Log {
    /// An empty log.
    pub fn init() -> (r: Log)
        ensures
            r.log@.len() == 0,
    {
        Log { log: VecDeque::new() }
    }
}

impl Ability {
    /// An ability with its menu key, cost text and failure chance.
    pub fn new(key: &str, cost: &str, failure_chance: u64) -> (r: Ability)
        ensures
            r.key@ == key@,
            r._cost@ == cost@,
            r._failure_chance == failure_chance,
    {
        Ability { key: key.to_owned(), _cost: cost.to_owned(), _failure_chance: failure_chance }
    }
}

}
