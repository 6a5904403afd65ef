//! Client-side state for a tile game server, whose events arrive as
//! deflate-compressed JSON frames.
//!
//! - `decoder`: puts back each frame's block trailer, inflates it on the
//!   stream's running state, and reads it as UTF-8 text.
//! - `json`: the model of a JSON value that the rest of the library reads.
//! - `classify`: which events block the caller until it answers them.
//! - `engine`: the synchronous reader's state: every event queued in order,
//!   waits for an event, blocking states reported before success.
//! - `menus`: the tree of nested dialogs and which one is relevant now.
//! - `tiles`, `pathfinding`: the floor grid, its update from map events, and
//!   A* over it.
//! - `monsters`, `pickup`: creatures and floor items seen on the grid.
//! - `crawl`: the game state fed by events, with the path queries.
//! - `keys`, `lobby`, `items`, `player`, `skills`, `scenario`: key names,
//!   lobby and game-start decisions, item kinds and ratings, and small helpers.

mod classify;
mod coords;
mod crawl;
mod decoder;
mod engine;
mod errors;
mod items;
mod json;
mod keys;
mod lobby;
mod menus;
mod monsters;
mod pathfinding;
mod pickup;
mod player;
mod scenario;
mod skills;
mod text;
mod tiles;

pub use classify::{blocking_messages, classify, condition_error, field_is, field_text};
pub use coords::{
    add_i32_to_usize, convert_coord_to_absolute, convert_coord_to_relative,
    convert_coords_to_relative, AbsCoord, RelCoord,
};
pub use crawl::{CrawlData, SEARCH_CAP};
pub use decoder::{deflate_to_json, inflated_text, FRAME_BUFFER};
pub use engine::{batch_of, matches_wait, ReadEngine};
pub use errors::{BlockingError, Condition, Error};
pub use items::{
    amulet_type, ring_type, type_of_potion, type_of_scroll, AmuletType, Armour, ArmourType, Item,
    Jewellery, JewelleryType, Missile, Potion, PotionType, RingType, Scroll, ScrollType, Staff,
    Wand, Weapon, WeaponType, UNRATED,
};
pub use json::{Json, JsonNumber};
pub use keys::{keys, KeyInput};
pub use lobby::{process_playable_game, seed_confirm_keys, start_game_step, StartStep};
pub use menus::{Menu, Menus};
pub use monsters::{Monster, Monsters, INVISIBLE_ID};
pub use pathfinding::{pathfinding, Node};
pub use pickup::{coord_in, Pickup};
pub use player::{Ability, Defense, Health, Log, Player, Stats, EQUIP_SLOTS};
pub use scenario::{branch_keys, YamlParsingError};
pub use skills::skills_options;
pub use text::{_index_to_char, char_to_index, chars_of, extract_param, is_ws_exec, seq_contains, str_contains, str_eq};
pub use tiles::{mf_lookup, CellReports, Tile, Tiles, MAX_FLOOR_SIZE};
