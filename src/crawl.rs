use vstd::prelude::*;

use crate::coords::{convert_coords_to_relative, AbsCoord, RelCoord};
use crate::classify::{field_text, text_field};
use crate::json::Json;
use crate::text::{is_substring, str_contains, str_eq};
use crate::menus::{menu_added, same_but_flags, Menu, Menus};
use crate::monsters::{ids_unique, Monsters};
use crate::monsters::{after_reports, creature_paths, strip_unseen};
use crate::pathfinding::{
    first_shortest, lemma_picked_is_searched, non_empty_paths, opt_view, pathfinding, search_result,
    valid_path,
};
use crate::pickup::{item_paths, listed_after};
use crate::pickup::Pickup;
use crate::player::{Log, Player};
use crate::tiles::{grid_cells, in_grid, map_update, u64_field, tiles_wf, Tile, Tiles, MAX_FLOOR_SIZE};

verus! {

/// `steps` are the moves along `path` from `pos`: each the offset from the cell before.
pub open spec fn steps_along(pos: AbsCoord, path: Seq<AbsCoord>, steps: Seq<RelCoord>) -> bool {
    &&& steps.len() == path.len()
    &&& steps.len() > 0 ==> steps[0].0 == path[0].0 - pos.0 && steps[0].1 == path[0].1 - pos.1
    &&& forall|i: int|
        0 < i < steps.len() ==> (#[trigger] steps[i]).0 == path[i].0 - path[i - 1].0 && steps[i].1
            == path[i].1 - path[i - 1].1
}

/// `steps` are the moves along a result of the search from `pos` (see
/// `search_result`) capped at `SEARCH_CAP` moves, blocked cells counting as blocked.
pub open spec fn steps_of_search(
    tiles: Seq<Vec<Tile>>,
    pos: AbsCoord,
    steps: Seq<RelCoord>,
    end_location: Option<AbsCoord>,
    end_search_mf: Option<usize>,
    end_search_type: Option<Seq<char>>,
) -> bool {
    exists|path: Seq<AbsCoord>|
        steps_along(pos, path, steps) && search_result(
            tiles,
            pos,
            end_location,
            end_search_mf,
            end_search_type,
            SEARCH_CAP,
            false,
            path,
        )
}

/// Moves allowed to a path search started for the player.
pub const SEARCH_CAP: u64 = 10000;

/// The game state rebuilt from the server's events: the player, the grid of
/// the current floor, the creatures and floor items seen on it, the open
/// dialogs and the game log.
pub struct CrawlData {
    pub fov: u32,
    pub spectators: u64,
    pub player: Player,
    pub tiles: Tiles,
    pub monsters: Monsters,
    pub pickup: Pickup,
    pub menus: Menus,
    pub log: Log,
}

proof fn lemma_full_grid_cells(tiles: Seq<Vec<Tile>>)
    requires
        forall|x: int| 0 <= x < tiles.len() ==> #[trigger] tiles[x]@.len() == MAX_FLOOR_SIZE,
    ensures
        grid_cells(tiles) == tiles.len() * MAX_FLOOR_SIZE,
    decreases tiles.len(),
{
    if tiles.len() > 0 {
        let rest = tiles.drop_last();
        assert forall|x: int| 0 <= x < rest.len() implies #[trigger] rest[x]@.len() == MAX_FLOOR_SIZE by {
            assert(rest[x] == tiles[x]);
        }
        lemma_full_grid_cells(rest);
        let n = tiles.len() as int;
        assert(tiles.last()@.len() == MAX_FLOOR_SIZE);
        assert((n - 1) * 500 + 500 == n * 500) by (nonlinear_arith);
    }
}

/// A log line that tells the character went down to another floor.
pub open spec fn changes_floor(text: Seq<char>) -> bool {
    is_substring("You slide downwards."@, text) || is_substring("You climb downwards."@, text)
        || is_substring("You fall into a shaft"@, text)
}

/// The texts of the log lines of a `msgs` event, lines without a text left out.
pub open spec fn log_texts(lines: Seq<Json>) -> Seq<Seq<char>>
    decreases lines.len(),
{
    if lines.len() == 0 {
        Seq::empty()
    } else {
        let rest = log_texts(lines.drop_last());
        match text_field(lines.last(), "text"@) {
            Some(t) => rest.push(t),
            None => rest,
        }
    }
}

/// Member `key` of `m` as an `i32`, when it is an integer in range.
pub open spec fn i32_field(m: Json, key: Seq<char>) -> Option<i32> {
    match m.field(key) {
        Some(v) => match v.i64_value() {
            Some(n) => if i32::MIN <= n <= i32::MAX {
                Some(n as i32)
            } else {
                None
            },
            None => None,
        },
        None => None,
    }
}

/// Member `key` of `m` as an `i32`, when it is an integer in range.
fn read_i32(m: &Json, key: &str) -> (r: Option<i32>)
    ensures
        r == i32_field(*m, key@),
{
    match m.get(key) {
        Some(v) => match v.as_i64() {
            Some(n) => if i32::MIN as i64 <= n && n <= i32::MAX as i64 {
                Some(n as i32)
            } else {
                None
            },
            None => None,
        },
        None => None,
    }
}

/// The event kinds this state knows: those it takes in and those it has no use for.
pub open spec fn known_kind(k: Seq<char>) -> bool {
    k == "ping"@ || k == "lobby_clear"@ || k == "go_lobby"@ || k == "html"@ || k == "set_game_links"@ || k == "game_client"@ || k == "chat"@ || k == "version"@ || k == "options"@ || k == "layout"@ || k == "ui-state-sync"@ || k == "text_cursor"@ || k == "cursor"@ || k == "ui_state"@ || k == "flash"@ || k == "ui-stack"@ || k == "ui-state"@ || k == "update_menu_items"@ || k == "close_all_menus"@ || k == "delay"@ || k == "menu_scroll"@ || k == "ui-scroller-scroll"@ || k == "ui_cutoff"@ || k == "game_ended"@ || k == "init_input"@ || k == "close_input"@ || k == "input_mode"@ || k == "lobby_complete"@ || k == "login_success"@ || k == "game_started"@ || k == "msgs"@ || k == "update_spectators"@ || k == "player"@ || k == "map"@ || k == "menu"@ || k == "update_menu"@ || k == "close_menu"@ || k == "ui-push"@ || k == "ui-pop"@ || k == "txt"@
}

/// The event kinds this state has no use for.
pub open spec fn ignored(k: Seq<char>) -> bool {
    k == "ping"@ || k == "lobby_clear"@ || k == "go_lobby"@ || k == "html"@ || k == "set_game_links"@ || k == "game_client"@ || k == "chat"@ || k == "version"@ || k == "options"@ || k == "layout"@ || k == "ui-state-sync"@ || k == "text_cursor"@ || k == "cursor"@ || k == "ui_state"@ || k == "flash"@ || k == "ui-stack"@ || k == "ui-state"@ || k == "update_menu_items"@ || k == "close_all_menus"@ || k == "delay"@ || k == "menu_scroll"@ || k == "ui-scroller-scroll"@ || k == "ui_cutoff"@ || k == "game_ended"@ || k == "init_input"@ || k == "close_input"@ || k == "input_mode"@ || k == "lobby_complete"@ || k == "login_success"@ || k == "game_started"@
}

/// The kinds with their own handling differ from each other and from the
/// kinds passed over.
proof fn lemma_kinds_differ()
    ensures
        forall|k: Seq<char>|
            ignored(k) ==> k != "map"@ && k != "msgs"@ && k != "player"@ && k != "update_spectators"@,
        "msgs"@ != "map"@,
        "msgs"@ != "player"@,
        "msgs"@ != "update_spectators"@,
        "update_spectators"@ != "map"@,
        "update_spectators"@ != "msgs"@,
        "update_spectators"@ != "player"@,
        "player"@ != "map"@,
        "player"@ != "msgs"@,
        "player"@ != "update_spectators"@,
        "map"@ != "msgs"@,
        "map"@ != "player"@,
        "map"@ != "update_spectators"@,
        "menu"@ != "map"@,
        "menu"@ != "msgs"@,
        "menu"@ != "player"@,
        "menu"@ != "update_spectators"@,
        "update_menu"@ != "map"@,
        "update_menu"@ != "msgs"@,
        "update_menu"@ != "player"@,
        "update_menu"@ != "update_spectators"@,
        "close_menu"@ != "map"@,
        "close_menu"@ != "msgs"@,
        "close_menu"@ != "player"@,
        "close_menu"@ != "update_spectators"@,
        "ui-pop"@ != "map"@,
        "ui-pop"@ != "msgs"@,
        "ui-pop"@ != "player"@,
        "ui-pop"@ != "update_spectators"@,
        "ui-push"@ != "map"@,
        "ui-push"@ != "msgs"@,
        "ui-push"@ != "player"@,
        "ui-push"@ != "update_spectators"@,
        "txt"@ != "map"@,
        "txt"@ != "msgs"@,
        "txt"@ != "player"@,
        "txt"@ != "update_spectators"@,
{
    reveal_strlit("chat");
    reveal_strlit("close_all_menus");
    reveal_strlit("close_input");
    reveal_strlit("close_menu");
    reveal_strlit("cursor");
    reveal_strlit("delay");
    reveal_strlit("flash");
    reveal_strlit("game_client");
    reveal_strlit("game_ended");
    reveal_strlit("game_started");
    reveal_strlit("go_lobby");
    reveal_strlit("html");
    reveal_strlit("init_input");
    reveal_strlit("input_mode");
    reveal_strlit("layout");
    reveal_strlit("lobby_clear");
    reveal_strlit("lobby_complete");
    reveal_strlit("login_success");
    reveal_strlit("map");
    reveal_strlit("menu");
    reveal_strlit("menu_scroll");
    reveal_strlit("msgs");
    reveal_strlit("options");
    reveal_strlit("ping");
    reveal_strlit("player");
    reveal_strlit("set_game_links");
    reveal_strlit("text_cursor");
    reveal_strlit("txt");
    reveal_strlit("ui-pop");
    reveal_strlit("ui-push");
    reveal_strlit("ui-scroller-scroll");
    reveal_strlit("ui-stack");
    reveal_strlit("ui-state");
    reveal_strlit("ui-state-sync");
    reveal_strlit("ui_cutoff");
    reveal_strlit("ui_state");
    reveal_strlit("update_menu");
    reveal_strlit("update_menu_items");
    reveal_strlit("update_spectators");
    reveal_strlit("version");
    assert("msgs"@.len() != "map"@.len());
    assert("msgs"@.len() != "player"@.len());
    assert("msgs"@.len() != "update_spectators"@.len());
    assert("update_spectators"@.len() != "map"@.len());
    assert("update_spectators"@.len() != "msgs"@.len());
    assert("update_spectators"@.len() != "player"@.len());
    assert("player"@.len() != "map"@.len());
    assert("player"@.len() != "msgs"@.len());
    assert("player"@.len() != "update_spectators"@.len());
    assert("map"@.len() != "msgs"@.len());
    assert("map"@.len() != "player"@.len());
    assert("map"@.len() != "update_spectators"@.len());
    assert("menu"@.len() != "map"@.len());
    assert("menu"@[1] != "msgs"@[1]);
    assert("menu"@.len() != "player"@.len());
    assert("menu"@.len() != "update_spectators"@.len());
    assert("update_menu"@.len() != "map"@.len());
    assert("update_menu"@.len() != "msgs"@.len());
    assert("update_menu"@.len() != "player"@.len());
    assert("update_menu"@.len() != "update_spectators"@.len());
    assert("close_menu"@.len() != "map"@.len());
    assert("close_menu"@.len() != "msgs"@.len());
    assert("close_menu"@.len() != "player"@.len());
    assert("close_menu"@.len() != "update_spectators"@.len());
    assert("ui-pop"@.len() != "map"@.len());
    assert("ui-pop"@.len() != "msgs"@.len());
    assert("ui-pop"@[0] != "player"@[0]);
    assert("ui-pop"@.len() != "update_spectators"@.len());
    assert("ui-push"@.len() != "map"@.len());
    assert("ui-push"@.len() != "msgs"@.len());
    assert("ui-push"@.len() != "player"@.len());
    assert("ui-push"@.len() != "update_spectators"@.len());
    assert("txt"@[0] != "map"@[0]);
    assert("txt"@.len() != "msgs"@.len());
    assert("txt"@.len() != "player"@.len());
    assert("txt"@.len() != "update_spectators"@.len());
    assert("ping"@.len() != "map"@.len());
    assert("ping"@[0] != "msgs"@[0]);
    assert("ping"@.len() != "player"@.len());
    assert("ping"@.len() != "update_spectators"@.len());
    assert("lobby_clear"@.len() != "map"@.len());
    assert("lobby_clear"@.len() != "msgs"@.len());
    assert("lobby_clear"@.len() != "player"@.len());
    assert("lobby_clear"@.len() != "update_spectators"@.len());
    assert("go_lobby"@.len() != "map"@.len());
    assert("go_lobby"@.len() != "msgs"@.len());
    assert("go_lobby"@.len() != "player"@.len());
    assert("go_lobby"@.len() != "update_spectators"@.len());
    assert("html"@.len() != "map"@.len());
    assert("html"@[0] != "msgs"@[0]);
    assert("html"@.len() != "player"@.len());
    assert("html"@.len() != "update_spectators"@.len());
    assert("set_game_links"@.len() != "map"@.len());
    assert("set_game_links"@.len() != "msgs"@.len());
    assert("set_game_links"@.len() != "player"@.len());
    assert("set_game_links"@.len() != "update_spectators"@.len());
    assert("game_client"@.len() != "map"@.len());
    assert("game_client"@.len() != "msgs"@.len());
    assert("game_client"@.len() != "player"@.len());
    assert("game_client"@.len() != "update_spectators"@.len());
    assert("chat"@.len() != "map"@.len());
    assert("chat"@[0] != "msgs"@[0]);
    assert("chat"@.len() != "player"@.len());
    assert("chat"@.len() != "update_spectators"@.len());
    assert("version"@.len() != "map"@.len());
    assert("version"@.len() != "msgs"@.len());
    assert("version"@.len() != "player"@.len());
    assert("version"@.len() != "update_spectators"@.len());
    assert("options"@.len() != "map"@.len());
    assert("options"@.len() != "msgs"@.len());
    assert("options"@.len() != "player"@.len());
    assert("options"@.len() != "update_spectators"@.len());
    assert("layout"@.len() != "map"@.len());
    assert("layout"@.len() != "msgs"@.len());
    assert("layout"@[0] != "player"@[0]);
    assert("layout"@.len() != "update_spectators"@.len());
    assert("ui-state-sync"@.len() != "map"@.len());
    assert("ui-state-sync"@.len() != "msgs"@.len());
    assert("ui-state-sync"@.len() != "player"@.len());
    assert("ui-state-sync"@.len() != "update_spectators"@.len());
    assert("text_cursor"@.len() != "map"@.len());
    assert("text_cursor"@.len() != "msgs"@.len());
    assert("text_cursor"@.len() != "player"@.len());
    assert("text_cursor"@.len() != "update_spectators"@.len());
    assert("cursor"@.len() != "map"@.len());
    assert("cursor"@.len() != "msgs"@.len());
    assert("cursor"@[0] != "player"@[0]);
    assert("cursor"@.len() != "update_spectators"@.len());
    assert("ui_state"@.len() != "map"@.len());
    assert("ui_state"@.len() != "msgs"@.len());
    assert("ui_state"@.len() != "player"@.len());
    assert("ui_state"@.len() != "update_spectators"@.len());
    assert("flash"@.len() != "map"@.len());
    assert("flash"@.len() != "msgs"@.len());
    assert("flash"@.len() != "player"@.len());
    assert("flash"@.len() != "update_spectators"@.len());
    assert("ui-stack"@.len() != "map"@.len());
    assert("ui-stack"@.len() != "msgs"@.len());
    assert("ui-stack"@.len() != "player"@.len());
    assert("ui-stack"@.len() != "update_spectators"@.len());
    assert("ui-state"@.len() != "map"@.len());
    assert("ui-state"@.len() != "msgs"@.len());
    assert("ui-state"@.len() != "player"@.len());
    assert("ui-state"@.len() != "update_spectators"@.len());
    assert("update_menu_items"@.len() != "map"@.len());
    assert("update_menu_items"@.len() != "msgs"@.len());
    assert("update_menu_items"@.len() != "player"@.len());
    assert("update_menu_items"@[7] != "update_spectators"@[7]);
    assert("close_all_menus"@.len() != "map"@.len());
    assert("close_all_menus"@.len() != "msgs"@.len());
    assert("close_all_menus"@.len() != "player"@.len());
    assert("close_all_menus"@.len() != "update_spectators"@.len());
    assert("delay"@.len() != "map"@.len());
    assert("delay"@.len() != "msgs"@.len());
    assert("delay"@.len() != "player"@.len());
    assert("delay"@.len() != "update_spectators"@.len());
    assert("menu_scroll"@.len() != "map"@.len());
    assert("menu_scroll"@.len() != "msgs"@.len());
    assert("menu_scroll"@.len() != "player"@.len());
    assert("menu_scroll"@.len() != "update_spectators"@.len());
    assert("ui-scroller-scroll"@.len() != "map"@.len());
    assert("ui-scroller-scroll"@.len() != "msgs"@.len());
    assert("ui-scroller-scroll"@.len() != "player"@.len());
    assert("ui-scroller-scroll"@.len() != "update_spectators"@.len());
    assert("ui_cutoff"@.len() != "map"@.len());
    assert("ui_cutoff"@.len() != "msgs"@.len());
    assert("ui_cutoff"@.len() != "player"@.len());
    assert("ui_cutoff"@.len() != "update_spectators"@.len());
    assert("game_ended"@.len() != "map"@.len());
    assert("game_ended"@.len() != "msgs"@.len());
    assert("game_ended"@.len() != "player"@.len());
    assert("game_ended"@.len() != "update_spectators"@.len());
    assert("init_input"@.len() != "map"@.len());
    assert("init_input"@.len() != "msgs"@.len());
    assert("init_input"@.len() != "player"@.len());
    assert("init_input"@.len() != "update_spectators"@.len());
    assert("close_input"@.len() != "map"@.len());
    assert("close_input"@.len() != "msgs"@.len());
    assert("close_input"@.len() != "player"@.len());
    assert("close_input"@.len() != "update_spectators"@.len());
    assert("input_mode"@.len() != "map"@.len());
    assert("input_mode"@.len() != "msgs"@.len());
    assert("input_mode"@.len() != "player"@.len());
    assert("input_mode"@.len() != "update_spectators"@.len());
    assert("lobby_complete"@.len() != "map"@.len());
    assert("lobby_complete"@.len() != "msgs"@.len());
    assert("lobby_complete"@.len() != "player"@.len());
    assert("lobby_complete"@.len() != "update_spectators"@.len());
    assert("login_success"@.len() != "map"@.len());
    assert("login_success"@.len() != "msgs"@.len());
    assert("login_success"@.len() != "player"@.len());
    assert("login_success"@.len() != "update_spectators"@.len());
    assert("game_started"@.len() != "map"@.len());
    assert("game_started"@.len() != "msgs"@.len());
    assert("game_started"@.len() != "player"@.len());
    assert("game_started"@.len() != "update_spectators"@.len());
}

/// Whether a kind is one this state has no use for.
fn ignored_kind(k: &str) -> (r: bool)
    ensures
        r == ignored(k@),
{
    str_eq(k, "ping") || str_eq(k, "lobby_clear") || str_eq(k, "go_lobby") || str_eq(k, "html") || str_eq(k, "set_game_links") || str_eq(k, "game_client") || str_eq(k, "chat") || str_eq(k, "version") || str_eq(k, "options") || str_eq(k, "layout") || str_eq(k, "ui-state-sync") || str_eq(k, "text_cursor") || str_eq(k, "cursor") || str_eq(k, "ui_state") || str_eq(k, "flash") || str_eq(k, "ui-stack") || str_eq(k, "ui-state") || str_eq(k, "update_menu_items") || str_eq(k, "close_all_menus") || str_eq(k, "delay") || str_eq(k, "menu_scroll") || str_eq(k, "ui-scroller-scroll") || str_eq(k, "ui_cutoff") || str_eq(k, "game_ended") || str_eq(k, "init_input") || str_eq(k, "close_input") || str_eq(k, "input_mode") || str_eq(k, "lobby_complete") || str_eq(k, "login_success") || str_eq(k, "game_started")
}

/// Whether a pickup menu lists creatures (a heading item called "Monsters").
pub open spec fn lists_creatures(items: Seq<Json>) -> bool {
    exists|i: int|
        0 <= i < items.len() && items[i].field("level"@) is Some && items[i].field("level"@)->0.u64_value()
            == Some(1u64) && text_field(items[i], "text"@) == Some("Monsters"@)
}

fn lists_creatures_exec(items: &Vec<Json>) -> (r: bool)
    ensures
        r == lists_creatures(items@),
{
    let mut i: usize = 0;
    while i < items.len()
        invariant
            i <= items.len(),
            forall|j: int|
                0 <= j < i ==> !(items@[j].field("level"@) is Some && items@[j].field("level"@)->0.u64_value()
                    == Some(1u64) && text_field(items@[j], "text"@) == Some("Monsters"@)),
        decreases items.len() - i,
    {
        let level = match items[i].get("level") {
            Some(v) => v.as_u64(),
            None => None,
        };
        if level == Some(1u64) && crate::classify::field_is(&items[i], "text", "Monsters") {
            return true;
        }
        i += 1;
    }
    false
}

/// The cell updates of a map event: its `cells` member, or `null` without one.
pub open spec fn cells_of(m: Json) -> Json {
    match m.field("cells"@) {
        Some(c) => c,
        None => Json::Null,
    }
}

/// The texts of log lines.
pub open spec fn log_views(log: Seq<String>) -> Seq<Seq<char>> {
    log.map_values(|t: String| t@)
}

/// What a map event does to the state (see `CrawlData::update_map`).
pub open spec fn map_taken_in(old: CrawlData, new: CrawlData, m: Json) -> bool {
    &&& new.player == old.player
    &&& new.fov == old.fov
    &&& new.menus == old.menus
    &&& new.pickup.ignore@ == old.pickup.ignore@
    &&& exists|reports: Seq<(AbsCoord, Json)>, items: Seq<AbsCoord>, unseen: Seq<AbsCoord>, seen: Seq<AbsCoord>|
        {
            &&& map_update(old.tiles.tiles@, new.tiles.tiles@, cells_of(m), reports, items, unseen, seen)
            &&& strip_unseen(new.monsters.monsters@) == strip_unseen(after_reports(old.monsters.monsters@, reports))
            &&& new.pickup.unknown@ == listed_after(old.pickup.unknown@, old.pickup.ignore@, items)
        }
}

/// What a `msgs` event does to the state (see `CrawlData::process_log`).
pub open spec fn log_taken_in(old: CrawlData, new: CrawlData, m: Json) -> bool {
    &&& new.player == old.player
    &&& match m.field("messages"@) {
        Some(Json::Array(lines)) => log_views(new.log.log@) == log_views(old.log.log@) + log_texts(lines@),
        _ => new.log.log@ == old.log.log@,
    }
}

/// What a `player` event does to the state (see `CrawlData::update_player`).
pub open spec fn player_taken_in(old: CrawlData, new: CrawlData, m: Json) -> bool {
    &&& new.tiles == old.tiles
    &&& (i32_field(m, "hp"@) matches Some(v) ==> new.player.health.hp == v)
    &&& (i32_field(m, "hp"@) is None ==> new.player.health.hp == old.player.health.hp)
    &&& (i32_field(m, "hp_max"@) matches Some(v) ==> new.player.health.hp_max == v)
    &&& (i32_field(m, "poison_survival"@) matches Some(v) ==> new.player.health.poison_survival == v)
    &&& (i32_field(m, "ac"@) matches Some(v) ==> new.player.defense.ac == v)
    &&& (i32_field(m, "ev"@) matches Some(v) ==> new.player.defense.ev == v)
    &&& (i32_field(m, "sh"@) matches Some(v) ==> new.player.defense.sh == v)
}

/// A dialog path of one open key.
fn one_key(key: &'static str) -> (r: Vec<&'static str>)
    ensures
        r@ == seq![key],
{
    let mut r: Vec<&'static str> = Vec::new();
    r.push(key);
    assert(r@ =~= seq![key]);
    r
}

impl CrawlData {
    /// Well formed: a full-size grid, the player on it, and no creature id twice.
    pub open spec fn wf(&self) -> bool {
        &&& self.tiles.wf()
        &&& self.player.pos.0 < MAX_FLOOR_SIZE
        &&& self.player.pos.1 < MAX_FLOOR_SIZE
        &&& ids_unique(self.monsters.monsters@)
        &&& self.menus.wf()
    }

    /// A fresh state, with the player at the centre of an unexplored grid.
    pub fn init(fov: u32, _version: &str) -> (r: CrawlData)
        ensures
            r.wf(),
            r.fov == fov,
            r.spectators == 0,
            r.monsters.monsters@.len() == 0,
            r.pickup.unknown@.len() == 0 && r.pickup.ignore@.len() == 0,
            r.log.log@.len() == 0,
            r.menus.nodes@.len() == 1,
            r.menus.nodes@[0].opened,
            r.menus.nodes@[0].subs@.len() == 0,
            r.player.pos == (MAX_FLOOR_SIZE / 2, MAX_FLOOR_SIZE / 2),
    {
        CrawlData {
            fov,
            spectators: 0,
            player: Player::init(),
            tiles: Tiles::init(),
            monsters: Monsters::init(),
            pickup: Pickup::init(),
            menus: Menus::init(),
            log: Log::init(),
        }
    }

    /// Takes in a map event: its cells update the grid, the creature reports
    /// go to the creature tracker, floor items are listed, and unseen
    /// creatures are recorded or dropped.
    pub fn update_map(&mut self, message: &Json)
        requires
            old(self).wf(),
        ensures
            final(self).wf(),
            map_taken_in(*old(self), *final(self), *message),
    {
        let none = Json::Null;
        let cells = match message.get("cells") {
            Some(c) => c,
            None => &none,
        };
        assert(*cells == cells_of(*message));
        let (monsters, items, (unseen, player_seen)) = self.tiles.update(cells);
        let ghost start_monsters = self.monsters.monsters@;
        let ghost start_unknown = self.pickup.unknown@;
        let mut i: usize = 0;
        while i < monsters.len()
            invariant
                self.tiles.wf(),
                self.player == old(self).player,
                self.fov == old(self).fov,
                self.menus == old(self).menus,
                self.menus.wf(),
                ids_unique(self.monsters.monsters@),
                self.pickup.ignore@ == old(self).pickup.ignore@,
                i <= monsters.len(),
                self.monsters.monsters@ == after_reports(start_monsters, monsters@.take(i as int)),
                self.pickup.unknown@ == start_unknown,
                start_unknown == old(self).pickup.unknown@,
                start_monsters == old(self).monsters.monsters@,
                map_update(old(self).tiles.tiles@, self.tiles.tiles@, cells_of(*message), monsters@, items@, unseen@, player_seen@),
            decreases monsters.len() - i,
        {
            assert(monsters@.take(i + 1).drop_last() =~= monsters@.take(i as int));
            self.monsters.update(monsters[i].0, &monsters[i].1);
            i += 1;
        }
        assert(monsters@.take(monsters@.len() as int) =~= monsters@);
        let mut i: usize = 0;
        while i < items.len()
            invariant
                self.tiles.wf(),
                self.player == old(self).player,
                self.fov == old(self).fov,
                self.menus == old(self).menus,
                self.menus.wf(),
                ids_unique(self.monsters.monsters@),
                self.pickup.ignore@ == old(self).pickup.ignore@,
                i <= items.len(),
                self.monsters.monsters@ == after_reports(start_monsters, monsters@),
                self.pickup.unknown@ == listed_after(start_unknown, old(self).pickup.ignore@, items@.take(i as int)),
                start_unknown == old(self).pickup.unknown@,
                start_monsters == old(self).monsters.monsters@,
                map_update(old(self).tiles.tiles@, self.tiles.tiles@, cells_of(*message), monsters@, items@, unseen@, player_seen@),
            decreases items.len() - i,
        {
            assert(items@.take(i + 1).drop_last() =~= items@.take(i as int));
            self.pickup.update(items[i]);
            i += 1;
        }
        assert(items@.take(items@.len() as int) =~= items@);
        let mut i: usize = 0;
        while i < unseen.len()
            invariant
                self.tiles.wf(),
                self.player == old(self).player,
                self.fov == old(self).fov,
                self.menus == old(self).menus,
                self.menus.wf(),
                ids_unique(self.monsters.monsters@),
                self.pickup.ignore@ == old(self).pickup.ignore@,
                i <= unseen.len(),
                strip_unseen(self.monsters.monsters@) == strip_unseen(after_reports(start_monsters, monsters@)),
                self.pickup.unknown@ == listed_after(start_unknown, old(self).pickup.ignore@, items@),
                start_unknown == old(self).pickup.unknown@,
                start_monsters == old(self).monsters.monsters@,
                map_update(old(self).tiles.tiles@, self.tiles.tiles@, cells_of(*message), monsters@, items@, unseen@, player_seen@),
            decreases unseen.len() - i,
        {
            self.monsters.invisible_monster(unseen[i]);
            i += 1;
        }
        let mut i: usize = 0;
        while i < player_seen.len()
            invariant
                self.tiles.wf(),
                self.player == old(self).player,
                self.fov == old(self).fov,
                self.menus == old(self).menus,
                self.menus.wf(),
                ids_unique(self.monsters.monsters@),
                self.pickup.ignore@ == old(self).pickup.ignore@,
                i <= player_seen.len(),
                strip_unseen(self.monsters.monsters@) == strip_unseen(after_reports(start_monsters, monsters@)),
                self.pickup.unknown@ == listed_after(start_unknown, old(self).pickup.ignore@, items@),
                start_unknown == old(self).pickup.unknown@,
                start_monsters == old(self).monsters.monsters@,
                map_update(old(self).tiles.tiles@, self.tiles.tiles@, cells_of(*message), monsters@, items@, unseen@, player_seen@),
            decreases player_seen.len() - i,
        {
            self.monsters.invisible_removed(player_seen[i]);
            i += 1;
        }
    }

    /// Forgets the floor: a new unexplored grid, no creatures, no items.
    pub fn new_floor(&mut self)
        requires
            old(self).wf(),
        ensures
            final(self).wf(),
            final(self).monsters.monsters@.len() == 0,
            final(self).pickup.unknown@.len() == 0 && final(self).pickup.ignore@.len() == 0,
            final(self).player == old(self).player,
            final(self).log == old(self).log,
            final(self).menus == old(self).menus,
    {
        self.tiles = Tiles::init();
        self.monsters = Monsters::init();
        self.pickup = Pickup::init();
    }

    /// Steps, relative to the player, of a path found with `pathfinding`.
    fn steps_to(
        &self,
        end_location: Option<AbsCoord>,
        end_search_mf: Option<usize>,
        end_search_type: Option<&str>,
    ) -> (r: Vec<RelCoord>)
        requires
            self.wf(),
        ensures
            steps_of_search(
                self.tiles.tiles@,
                self.player.pos,
                r@,
                end_location,
                end_search_mf,
                opt_view(end_search_type),
            ),
    {
        proof {
            lemma_full_grid_cells(self.tiles.tiles@);
            assert(500 * 500 <= usize::MAX);
        }
        let coords = pathfinding(
            self.tiles.tiles.as_slice(),
            self.player.pos,
            end_location,
            end_search_mf,
            end_search_type,
            SEARCH_CAP,
            false,
        );
        proof {
            assert forall|i: int| 0 < i < coords.len() implies crate::coords::step_fits(coords@[i - 1], #[trigger] coords@[i]) by {}
        }
        let r = convert_coords_to_relative(self.player.pos, coords);
        assert(steps_along(self.player.pos, coords@, r@));
        r
    }

    /// Steps, relative to the player, to the nearest unexplored cell.
    pub fn path_to_unexplored(&mut self) -> (r: Vec<RelCoord>)
        requires
            old(self).wf(),
        ensures
            *final(self) == *old(self),
            steps_of_search(old(self).tiles.tiles@, old(self).player.pos, r@, None, None, Some("unexplored"@)),
    {
        self.steps_to(None, None, Some("unexplored"))
    }

    /// Steps, relative to the player, to the nearest down staircase.
    pub fn path_to_down_stairs(&mut self) -> (r: Vec<RelCoord>)
        requires
            old(self).wf(),
        ensures
            *final(self) == *old(self),
            steps_of_search(old(self).tiles.tiles@, old(self).player.pos, r@, None, Some(13usize), None),
    {
        self.steps_to(None, Some(13), None)
    }

    /// Steps, relative to the player, to the cell at offset `cell_loc`, or to
    /// a nearer down staircase.
    pub fn path_to_location(&mut self, cell_loc: RelCoord) -> (r: Vec<RelCoord>)
        requires
            old(self).wf(),
            0 <= old(self).player.pos.0 + cell_loc.0,
            0 <= old(self).player.pos.1 + cell_loc.1,
        ensures
            *final(self) == *old(self),
            steps_of_search(
                old(self).tiles.tiles@,
                old(self).player.pos,
                r@,
                Some(((old(self).player.pos.0 + cell_loc.0) as usize, (old(self).player.pos.1 + cell_loc.1) as usize)),
                Some(13usize),
                None,
            ),
    {
        let target = crate::coords::convert_coord_to_absolute(self.player.pos, cell_loc);
        self.steps_to(Some(target), Some(13), None)
    }

    /// Steps, relative to the player, to the nearest floor item not yet looked
    /// at (see `Pickup::nearest`); `None` when there is none.
    pub fn nearest_item_path(&mut self) -> (r: Option<Vec<RelCoord>>)
        requires
            old(self).wf(),
        ensures
            final(self).wf(),
            final(self).pickup.unknown@ == old(self).pickup.unknown@,
            final(self).player == old(self).player,
            exists|ps: Seq<Seq<AbsCoord>>|
                item_paths(old(self).tiles.tiles@, old(self).pickup.unknown@, old(self).player.pos, old(self).fov, ps)
                    && match r {
                    None => first_shortest(non_empty_paths(ps)).len() == 0,
                    Some(steps) => first_shortest(non_empty_paths(ps)).len() > 0 && steps_along(
                        old(self).player.pos,
                        first_shortest(non_empty_paths(ps)),
                        steps@,
                    ),
                },
    {
        proof {
            lemma_full_grid_cells(self.tiles.tiles@);
            assert(500 * 500 <= usize::MAX);
        }
        let pos = self.player.pos;
        let nearest = self.pickup.nearest(self.tiles.tiles.as_slice(), pos, self.fov);
        let ghost ps = choose|ps: Seq<Seq<AbsCoord>>|
            item_paths(self.tiles.tiles@, self.pickup.unknown@, pos, self.fov, ps) && nearest@ == first_shortest(
                non_empty_paths(ps),
            );
        if nearest.len() > 0 {
            proof {
                lemma_picked_is_searched(ps);
                let j = choose|j: int| 0 <= j < ps.len() && ps[j] == first_shortest(non_empty_paths(ps));
                assert(crate::pickup::item_path_ok(self.tiles.tiles@, self.pickup.unknown@[j], pos, self.fov, ps[j]));
                assert forall|i: int| 0 < i < nearest.len() implies crate::coords::step_fits(nearest@[i - 1], #[trigger] nearest@[i]) by {}
            }
            let steps = convert_coords_to_relative(pos, nearest);
            assert(steps_along(pos, first_shortest(non_empty_paths(ps)), steps@));
            return Some(steps);
        }
        None
    }

    /// The path to the nearest creature (see `Monsters::nearest`), as grid positions.
    pub fn nearest_monster_path(&mut self) -> (r: Vec<AbsCoord>)
        requires
            old(self).wf(),
        ensures
            final(self).wf(),
            final(self).player == old(self).player,
            exists|ps: Seq<Seq<AbsCoord>>|
                creature_paths(old(self).tiles.tiles@, old(self).monsters.monsters@, old(self).player.pos, old(self).fov, false, ps)
                    && r@ == first_shortest(non_empty_paths(ps)),
    {
        proof {
            lemma_full_grid_cells(self.tiles.tiles@);
            assert(500 * 500 <= usize::MAX);
        }
        let pos = self.player.pos;
        self.monsters.nearest(self.tiles.tiles.as_slice(), pos, self.fov)
    }

    /// Whether the tile at offset (`x_pos`, `y_pos`) from the player can be
    /// walked on, whether or not something stands on it.
    pub fn tile_walkable_ignore_blocked(&mut self, x_pos: i32, y_pos: i32) -> (r: bool)
        requires
            old(self).wf(),
            0 <= old(self).player.pos.0 + x_pos < MAX_FLOOR_SIZE,
            0 <= old(self).player.pos.1 + y_pos < MAX_FLOOR_SIZE,
        ensures
            *final(self) == *old(self),
            r == old(self).tiles.tiles@[old(self).player.pos.0 + x_pos]@[old(self).player.pos.1 + y_pos].walkable,
    {
        let x = crate::coords::add_i32_to_usize(x_pos, self.player.pos.0);
        let y = crate::coords::add_i32_to_usize(y_pos, self.player.pos.1);
        self.tiles.tiles[x][y].walkable
    }

    /// The game's own coordinates (origin where the floor was entered) of the
    /// cell at offset (`x_pos`, `y_pos`) from the player.
    pub fn get_dcss_coord(&mut self, x_pos: i32, y_pos: i32) -> (r: (i32, i32))
        requires
            old(self).wf(),
            i32::MIN + 250 <= x_pos <= i32::MAX - 500,
            i32::MIN + 250 <= y_pos <= i32::MAX - 500,
        ensures
            *final(self) == *old(self),
            r.0 == old(self).player.pos.0 + x_pos - MAX_FLOOR_SIZE / 2,
            r.1 == old(self).player.pos.1 + y_pos - MAX_FLOOR_SIZE / 2,
    {
        let half: i32 = (MAX_FLOOR_SIZE / 2) as i32;
        (self.player.pos.0 as i32 + x_pos - half, self.player.pos.1 as i32 + y_pos - half)
    }

    /// Whether some dialog waits to be handled.
    pub fn menu_to_process(&mut self) -> (r: bool)
        requires
            old(self).wf(),
        ensures
            *final(self) == *old(self),
            r == (old(self).menus.nodes@[0].subs@.len() > 0),
    {
        self.menus.menu_to_process()
    }

    /// Whether the tile at offset (`x_pos`, `y_pos`) from the player has been seen.
    pub fn tile_explored(&mut self, x_pos: i32, y_pos: i32) -> (r: bool)
        requires
            old(self).wf(),
            0 <= old(self).player.pos.0 + x_pos < MAX_FLOOR_SIZE,
            0 <= old(self).player.pos.1 + y_pos < MAX_FLOOR_SIZE,
        ensures
            *final(self) == *old(self),
            r == old(self).tiles.tiles@[old(self).player.pos.0 + x_pos]@[old(self).player.pos.1 + y_pos].explored,
    {
        let x = crate::coords::add_i32_to_usize(x_pos, self.player.pos.0);
        let y = crate::coords::add_i32_to_usize(y_pos, self.player.pos.1);
        self.tiles.tiles[x][y].explored
    }

    /// Whether the tile at offset (`x_pos`, `y_pos`) from the player can be walked on now.
    pub fn tile_walkable(&mut self, x_pos: i32, y_pos: i32) -> (r: bool)
        requires
            old(self).wf(),
            0 <= old(self).player.pos.0 + x_pos < MAX_FLOOR_SIZE,
            0 <= old(self).player.pos.1 + y_pos < MAX_FLOOR_SIZE,
        ensures
            *final(self) == *old(self),
            ({
                let t = old(self).tiles.tiles@[old(self).player.pos.0 + x_pos]@[old(self).player.pos.1 + y_pos];
                r == (t.walkable && !t.blocked)
            }),
    {
        let x = crate::coords::add_i32_to_usize(x_pos, self.player.pos.0);
        let y = crate::coords::add_i32_to_usize(y_pos, self.player.pos.1);
        self.tiles.tiles[x][y].walkable && !self.tiles.tiles[x][y].blocked
    }

    /// The feature code of the tile at offset (`x_pos`, `y_pos`) from the player.
    pub fn tile_mf(&mut self, x_pos: i32, y_pos: i32) -> (r: usize)
        requires
            old(self).wf(),
            0 <= old(self).player.pos.0 + x_pos < MAX_FLOOR_SIZE,
            0 <= old(self).player.pos.1 + y_pos < MAX_FLOOR_SIZE,
        ensures
            *final(self) == *old(self),
            r == old(self).tiles.tiles@[old(self).player.pos.0 + x_pos]@[old(self).player.pos.1 + y_pos].mf,
    {
        let x = crate::coords::add_i32_to_usize(x_pos, self.player.pos.0);
        let y = crate::coords::add_i32_to_usize(y_pos, self.player.pos.1);
        self.tiles.tiles[x][y].mf
    }

    /// Whether the poison in the character would kill it.
    pub fn lethally_poisoned(&self) -> (r: bool)
        ensures
            r == (self.player.health.poison_survival <= 0),
    {
        self.player.health.poison_survival <= 0
    }

    /// The oldest game log line not yet handed out.
    pub fn get_log_message(&mut self) -> (r: Option<String>)
        ensures
            old(self).log.log@.len() == 0 ==> r is None && final(self).log.log@ == old(self).log.log@,
            old(self).log.log@.len() > 0 ==> r == Some(old(self).log.log@[0])
                && final(self).log.log@ == old(self).log.log@.drop_first(),
    {
        self.log.log.pop_front()
    }

    /// Whether game log lines wait to be handed out.
    pub fn logs_to_process(&mut self) -> (r: bool)
        ensures
            r == (old(self).log.log@.len() > 0),
            final(self).log.log@ == old(self).log.log@,
    {
        self.log.log.len() > 0
    }

    /// Adds a dialog to the tree (see `Menus::add_menu`).
    pub fn add_menu(
        &mut self,
        hierarchy: Vec<&str>,
        open_menu: &str,
        close_menu: &str,
        requested: bool,
        opened: bool,
        closed: bool,
        high_priority: bool,
        open_message: &str,
        close_message: &str,
    )
        requires
            old(self).wf(),
        ensures
            final(self).wf(),
            final(self).tiles == old(self).tiles,
            final(self).player == old(self).player,
            menu_added(
                old(self).menus.nodes@,
                final(self).menus.nodes@,
                hierarchy@,
                open_menu@,
                close_menu@,
                requested,
                opened,
                closed,
                high_priority,
                open_message@,
                close_message@,
            ),
    {
        self.menus.add_menu(
            hierarchy,
            open_menu,
            close_menu,
            requested,
            opened,
            closed,
            high_priority,
            open_message,
            close_message,
        );
    }

    /// Acts on the dialog that is relevant now (see `Menus::interact_with_menu`):
    /// returns the key to send and the event kind that confirms it.
    pub fn interact_with_menu(&mut self) -> (r: (String, String))
        requires
            old(self).wf(),
        ensures
            final(self).wf(),
            final(self).tiles == old(self).tiles,
            final(self).player == old(self).player,
            final(self).menus.nodes@.len() == old(self).menus.nodes@.len(),
            ({
                let c = old(self).menus.current();
                let m = old(self).menus.nodes@[c];
                &&& !m.opened ==> r.0@ == m.open_menu@ && r.1@ == m.open_message@
                    && same_but_flags(m, final(self).menus.nodes@[c], true, m.opened, m.closed)
                &&& m.opened ==> r.0@ == m.close_menu@ && r.1@ == m.close_message@
                    && same_but_flags(m, final(self).menus.nodes@[c], m.requested, m.opened, true)
                &&& forall|k: int| 0 <= k < old(self).menus.nodes@.len() && k != c ==> final(self).menus.nodes@[k] == old(self).menus.nodes@[k]
            }),
    {
        self.menus.interact_with_menu()
    }

    /// Prunes the dialogs marked as closing.
    pub fn remove_closed_menus(&mut self)
        requires
            old(self).wf(),
        ensures
            final(self).wf(),
            final(self).tiles == old(self).tiles,
    {
        self.menus.remove_closed_menus();
    }

    /// Marks the dialog that is relevant now as confirmed open.
    pub fn identify_menu_as_opened(&mut self)
        requires
            old(self).wf(),
        ensures
            final(self).wf(),
            final(self).tiles == old(self).tiles,
    {
        self.menus.identify_menu_as_opened();
    }

    /// Queues the ability menu, to read the abilities.
    pub fn queue_collect_ability_data(&mut self)
        requires
            old(self).wf(),
        ensures
            final(self).wf(),
            final(self).tiles == old(self).tiles,
            final(self).player == old(self).player,
            menu_added(old(self).menus.nodes@, final(self).menus.nodes@, seq![""], "a"@, "key_esc"@, false, false, false, true, "menu"@, "close_menu"@),
    {
        self.menus.add_menu(one_key(""), "a", "key_esc", false, false, false, true, "menu", "close_menu");
    }

    /// Queues the inventory and the description of item `item_key`.
    pub fn queue_collect_item_data(&mut self, item_key: &str)
        requires
            old(self).wf(),
        ensures
            final(self).wf(),
            final(self).tiles == old(self).tiles,
            final(self).player == old(self).player,
            exists|mid: Seq<Menu>| menu_added(old(self).menus.nodes@, mid, seq![""], "i"@, "key_esc"@, false, false, false, false, "menu"@, "close_menu"@) && menu_added(mid, final(self).menus.nodes@, seq!["i"], item_key@, "key_esc"@, false, false, false, false, "ui-push"@, "ui-pop"@),
    {
        self.menus.add_menu(one_key(""), "i", "key_esc", false, false, false, false, "menu", "close_menu");
        let ghost mid = self.menus.nodes@;
        self.menus.add_menu(one_key("i"), item_key, "key_esc", false, false, false, false, "ui-push", "ui-pop");
    }

    /// Queues dropping item `item_key`.
    pub fn queue_drop_item(&mut self, item_key: &str)
        requires
            old(self).wf(),
        ensures
            final(self).wf(),
            final(self).tiles == old(self).tiles,
            final(self).player == old(self).player,
            exists|mid: Seq<Menu>| menu_added(old(self).menus.nodes@, mid, seq![""], "d"@, "key_enter"@, false, false, false, false, "menu"@, "player"@) && menu_added(mid, final(self).menus.nodes@, seq!["d"], item_key@, ""@, false, false, false, false, "update_menu"@, ""@),
    {
        self.menus.add_menu(one_key(""), "d", "key_enter", false, false, false, false, "menu", "player");
        let ghost mid = self.menus.nodes@;
        self.menus.add_menu(one_key("d"), item_key, "", false, false, false, false, "update_menu", "");
    }

    /// Queues wielding or wearing item `item_key` from the inventory.
    pub fn queue_wield_wear(&mut self, item_key: &str)
        requires
            old(self).wf(),
        ensures
            final(self).wf(),
            final(self).tiles == old(self).tiles,
            final(self).player == old(self).player,
            exists|mid: Seq<Menu>| menu_added(old(self).menus.nodes@, mid, seq![""], "i"@, ""@, false, false, false, false, "menu"@, ""@) && menu_added(mid, final(self).menus.nodes@, seq!["i"], item_key@, "w"@, false, false, false, false, "ui-push"@, "player"@),
    {
        self.menus.add_menu(one_key(""), "i", "", false, false, false, false, "menu", "");
        let ghost mid = self.menus.nodes@;
        self.menus.add_menu(one_key("i"), item_key, "w", false, false, false, false, "ui-push", "player");
    }

    /// Queues putting on jewellery `item_key` from the inventory.
    pub fn queue_put_on(&mut self, item_key: &str)
        requires
            old(self).wf(),
        ensures
            final(self).wf(),
            final(self).tiles == old(self).tiles,
            final(self).player == old(self).player,
            exists|mid: Seq<Menu>| menu_added(old(self).menus.nodes@, mid, seq![""], "i"@, ""@, false, false, false, false, "menu"@, ""@) && menu_added(mid, final(self).menus.nodes@, seq!["i"], item_key@, "p"@, false, false, false, false, "ui-push"@, "player"@),
    {
        self.menus.add_menu(one_key(""), "i", "", false, false, false, false, "menu", "");
        let ghost mid = self.menus.nodes@;
        self.menus.add_menu(one_key("i"), item_key, "p", false, false, false, false, "ui-push", "player");
    }

    /// Queues reading scroll `item_key`.
    pub fn queue_read_scroll(&mut self, item_key: &str)
        requires
            old(self).wf(),
        ensures
            final(self).wf(),
            final(self).tiles == old(self).tiles,
            final(self).player == old(self).player,
            menu_added(old(self).menus.nodes@, final(self).menus.nodes@, seq![""], "r"@, item_key@, false, false, false, false, "menu_scroll"@, "player"@),
    {
        self.menus.add_menu(one_key(""), "r", item_key, false, false, false, false, "menu_scroll", "player");
    }

    /// Queues drinking potion `item_key`.
    pub fn queue_quaff_potion(&mut self, item_key: &str)
        requires
            old(self).wf(),
        ensures
            final(self).wf(),
            final(self).tiles == old(self).tiles,
            final(self).player == old(self).player,
            menu_added(old(self).menus.nodes@, final(self).menus.nodes@, seq![""], "q"@, item_key@, false, false, false, false, "menu_scroll"@, "player"@),
    {
        self.menus.add_menu(one_key(""), "q", item_key, false, false, false, false, "menu_scroll", "player");
    }

    /// Queues closing every dialog, ahead of all others.
    pub fn queue_close_all_menus(&mut self, item_key: &str)
        requires
            old(self).wf(),
        ensures
            final(self).wf(),
            final(self).tiles == old(self).tiles,
            final(self).player == old(self).player,
            menu_added(old(self).menus.nodes@, final(self).menus.nodes@, seq![""], "x"@, item_key@, false, true, false, true, ""@, "close_all_menus"@),
    {
        self.menus.add_menu(one_key(""), "x", item_key, false, true, false, true, "", "close_all_menus");
    }

    /// Queues using ability `ability_key`.
    pub fn queue_use_ability(&mut self, ability_key: &str)
        requires
            old(self).wf(),
        ensures
            final(self).wf(),
            final(self).tiles == old(self).tiles,
            final(self).player == old(self).player,
            menu_added(old(self).menus.nodes@, final(self).menus.nodes@, seq![""], "a"@, ability_key@, false, false, false, false, "menu"@, "player"@),
    {
        self.menus.add_menu(one_key(""), "a", ability_key, false, false, false, false, "menu", "player");
    }

    /// Queues the menu of recognised items.
    pub fn queue_collect_known_item_data(&mut self)
        requires
            old(self).wf(),
        ensures
            final(self).wf(),
            final(self).tiles == old(self).tiles,
            final(self).player == old(self).player,
            menu_added(old(self).menus.nodes@, final(self).menus.nodes@, seq![""], "\\"@, "key_esc"@, false, false, false, true, "menu"@, "close_menu"@),
    {
        self.menus.add_menu(one_key(""), "\\", "key_esc", false, false, false, true, "menu", "close_menu");
    }

    /// Queues the skill menu.
    pub fn queue_collect_skills_data(&mut self)
        requires
            old(self).wf(),
        ensures
            final(self).wf(),
            final(self).tiles == old(self).tiles,
            final(self).player == old(self).player,
            menu_added(old(self).menus.nodes@, final(self).menus.nodes@, seq![""], "m"@, "key_esc"@, false, false, false, true, "txt"@, "close_menu"@),
    {
        self.menus.add_menu(one_key(""), "m", "key_esc", false, false, false, true, "txt", "close_menu");
    }

    /// Queues picking up everything here.
    pub fn queue_pickup_all(&mut self)
        requires
            old(self).wf(),
        ensures
            final(self).wf(),
            final(self).tiles == old(self).tiles,
            final(self).player == old(self).player,
            menu_added(old(self).menus.nodes@, final(self).menus.nodes@, seq![""], "*"@, "key_enter"@, false, false, false, true, "update_menu"@, "close_menu"@),
    {
        self.menus.add_menu(one_key(""), "*", "key_enter", false, false, false, true, "update_menu", "close_menu");
    }

    /// Marks the creature description as open, ahead of all others.
    pub fn look_at_monster_menu(&mut self)
        requires
            old(self).wf(),
        ensures
            final(self).wf(),
            final(self).tiles == old(self).tiles,
            final(self).player == old(self).player,
            menu_added(old(self).menus.nodes@, final(self).menus.nodes@, seq![""], "monster"@, "key_esc"@, false, true, false, true, ""@, "close_all_menus"@),
    {
        self.menus.add_menu(one_key(""), "monster", "key_esc", false, true, false, true, "", "close_all_menus");
    }

    /// Queues selecting a creature in the open description.
    pub fn queue_select_monster(&mut self)
        requires
            old(self).wf(),
        ensures
            final(self).wf(),
            final(self).tiles == old(self).tiles,
            final(self).player == old(self).player,
            menu_added(old(self).menus.nodes@, final(self).menus.nodes@, seq!["monster"], "a"@, "key_esc"@, true, false, false, true, "ui-push"@, "ui-pop"@),
    {
        self.menus.add_menu(one_key("monster"), "a", "key_esc", true, false, false, true, "ui-push", "ui-pop");
    }

    /// Queues reading a scroll of identify and picking the item to identify.
    pub fn queue_identify_item(&mut self, identify_scroll: &str, item_to_identify: &str)
        requires
            old(self).wf(),
        ensures
            final(self).wf(),
            final(self).tiles == old(self).tiles,
            final(self).player == old(self).player,
            exists|mid: Seq<Menu>| menu_added(old(self).menus.nodes@, mid, seq![""], "r"@, ""@, false, false, false, false, "menu"@, "close_all_menus"@) && menu_added(mid, final(self).menus.nodes@, seq!["r"], identify_scroll@, item_to_identify@, false, false, false, false, "menu"@, ""@),
    {
        self.menus.add_menu(one_key(""), "r", "", false, false, false, false, "menu", "close_all_menus");
        let ghost mid = self.menus.nodes@;
        self.menus.add_menu(one_key("r"), identify_scroll, item_to_identify, false, false, false, false, "menu", "");
    }


    /// Takes in a `msgs` event: each log line with a text is queued, and a
    /// line telling the character went downstairs starts a new floor.
    pub fn process_log(&mut self, message: &Json)
        requires
            old(self).wf(),
        ensures
            final(self).wf(),
            log_taken_in(*old(self), *final(self), *message),
    {
        let lines = match message.get("messages") {
            Some(Json::Array(lines)) => lines,
            _ => {
                return;
            },
        };
        let mut i: usize = 0;
        while i < lines.len()
            invariant
                self.wf(),
                self.player == old(self).player,
                i <= lines.len(),
                log_views(self.log.log@) == log_views(old(self).log.log@) + log_texts(lines@.take(i as int)),
            decreases lines.len() - i,
        {
            assert(lines@.take(i + 1).drop_last() =~= lines@.take(i as int));
            assert(lines@.take(i + 1).last() == lines@[i as int]);
            if let Some(text) = field_text(&lines[i], "text") {
                if str_contains(text, "You slide downwards.") || str_contains(text, "You climb downwards.")
                    || str_contains(text, "You fall into a shaft") {
                    self.new_floor();
                }
                let ghost before = self.log.log@;
                self.log.log.push_back(text.to_owned());
                assert(log_views(self.log.log@) =~= log_views(before).push(text@));
            }
            i += 1;
        }
        assert(lines@.take(lines.len() as int) =~= lines@);
    }

    /// Takes in a `player` event: the position (when it is on the grid), the
    /// status lights, and the health, stat and defense values that it gives
    /// as `i32` integers; the rest stays as it was.
    pub fn update_player(&mut self, message: &Json)
        requires
            old(self).wf(),
        ensures
            final(self).wf(),
            player_taken_in(*old(self), *final(self), *message),
    {
        if let Some(pos) = message.get("pos") {
            let x = read_i32(pos, "x");
            let y = read_i32(pos, "y");
            if let (Some(x), Some(y)) = (x, y) {
                let half: i32 = (MAX_FLOOR_SIZE / 2) as i32;
                if -half <= x && x < half && -half <= y && y < half {
                    self.player.pos = ((x + half) as usize, (y + half) as usize);
                }
            }
        }
        if let Some(Json::Array(lights)) = message.get("status") {
            let mut status: Vec<String> = Vec::new();
            let mut i: usize = 0;
            while i < lights.len()
                invariant
                    i <= lights.len(),
                decreases lights.len() - i,
            {
                let light = &lights[i];
                if light.has_key("light") {
                    if let Some(t) = field_text(light, "light") {
                        status.push(t.to_owned());
                    }
                } else if let Some(t) = field_text(light, "text") {
                    status.push(t.to_owned());
                }
                i += 1;
            }
            self.player.status = status;
        }
        if let Some(v) = read_i32(message, "hp") {
            self.player.health.hp = v;
        }
        if let Some(v) = read_i32(message, "poison_survival") {
            self.player.health.poison_survival = v;
        }
        if let Some(v) = read_i32(message, "hp_max") {
            self.player.health.hp_max = v;
        }
        if let Some(v) = read_i32(message, "ac") {
            self.player.defense.ac = v;
        }
        if let Some(v) = read_i32(message, "ev") {
            self.player.defense.ev = v;
        }
        if let Some(v) = read_i32(message, "sh") {
            self.player.defense.sh = v;
        }
    }


    /// Takes in one event from the server, by its kind: log lines, the
    /// spectator count, the player, the map, and the events that open, update
    /// and close dialogs; kinds it has no use for are passed over. Returns
    /// whether the kind is known; an event of an unknown kind changes nothing.
    /// Descriptions of items, abilities, skills and creatures are not read.
    pub fn process_json(&mut self, message: &Json) -> (r: bool)
        requires
            old(self).wf(),
        ensures
            final(self).wf(),
            r == (text_field(*message, "msg"@) matches Some(k) && known_kind(k)),
            !r ==> *final(self) == *old(self),
            text_field(*message, "msg"@) == Some("map"@) ==> map_taken_in(*old(self), *final(self), *message),
            text_field(*message, "msg"@) == Some("msgs"@) ==> log_taken_in(*old(self), *final(self), *message),
            text_field(*message, "msg"@) == Some("player"@) ==> player_taken_in(*old(self), *final(self), *message),
            text_field(*message, "msg"@) == Some("update_spectators"@) ==> final(self).spectators == match u64_field(*message, "count"@) {
                Some(n) => n,
                None => old(self).spectators,
            },
            (text_field(*message, "msg"@) matches Some(k) && ignored(k)) ==> *final(self) == *old(self),
    {
        proof {
            lemma_kinds_differ();
        }
        let kind = match field_text(message, "msg") {
            Some(k) => k,
            None => {
                return false;
            },
        };
        if ignored_kind(kind) {
            return true;
        }
        if str_eq(kind, "msgs") {
            self.process_log(message);
        } else if str_eq(kind, "update_spectators") {
            if let Some(v) = message.get("count") {
                if let Some(n) = v.as_u64() {
                    self.spectators = n;
                }
            }
        } else if str_eq(kind, "player") {
            self.update_player(message);
        } else if str_eq(kind, "map") {
            self.update_map(message);
        } else if str_eq(kind, "menu") {
            if crate::classify::field_is(message, "tag", "pickup") {
                let lists = match message.get("items") {
                    Some(Json::Array(items)) => lists_creatures_exec(items),
                    _ => false,
                };
                if lists {
                    self.queue_select_monster();
                } else {
                    self.queue_pickup_all();
                }
            } else {
                self.identify_menu_as_opened();
                self.remove_closed_menus();
            }
        } else if str_eq(kind, "update_menu") {
            self.identify_menu_as_opened();
            self.remove_closed_menus();
        } else if str_eq(kind, "close_menu") || str_eq(kind, "ui-pop") {
            self.remove_closed_menus();
        } else if str_eq(kind, "ui-push") {
            if crate::classify::field_is(message, "type", "describe-item") {
                self.identify_menu_as_opened();
            } else if crate::classify::field_is(message, "type", "describe-monster") {
                if self.monsters.examine_loc.is_some() {
                    self.identify_menu_as_opened();
                    self.monsters.examine_loc = None;
                }
            }
        } else if str_eq(kind, "txt") {
            // Skill menus are taken in without being read.
        } else {
            return false;
        }
        true
    }


    /// Sets where the creature to examine next stands.
    pub fn ready_examine_monster(&mut self, coord: AbsCoord)
        requires
            old(self).wf(),
        ensures
            final(self).wf(),
            final(self).monsters.examine_loc == Some(coord),
            final(self).monsters.monsters == old(self).monsters.monsters,
    {
        self.monsters.examine_loc = Some(coord);
    }

    /// The offset from the player of the first creature in view not yet examined.
    pub fn examine_monsters(&mut self) -> (r: Option<RelCoord>)
        requires
            old(self).wf(),
        ensures
            *final(self) == *old(self),
            match old(self).monsters.pos_unexamined_monster_spec(old(self).player.pos, old(self).fov) {
                Some(p) => if p.0 <= 0x7fff_0000 && p.1 <= 0x7fff_0000 {
                    r matches Some(d) && d.0 == p.0 - old(self).player.pos.0 && d.1 == p.1 - old(self).player.pos.1
                } else {
                    r is None
                },
                None => r is None,
            },
    {
        let pos = self.player.pos;
        match self.monsters.pos_unexamined_monster(pos, self.fov) {
            Some(at) => {
                if at.0 as u64 <= 0x7fff_0000 && at.1 as u64 <= 0x7fff_0000 {
                    Some(crate::coords::convert_coord_to_relative(pos, at))
                } else {
                    None
                }
            },
            None => None,
        }
    }

    /// How many creatures are in view.
    pub fn monster_count_fov(&mut self) -> (r: usize)
        requires
            old(self).wf(),
        ensures
            *final(self) == *old(self),
            r == crate::monsters::in_view_positions(
                old(self).monsters.monsters@,
                old(self).player.pos,
                old(self).fov,
                old(self).monsters.monsters@.len() as int,
            ).len(),
    {
        let pos = self.player.pos;
        self.monsters.monsters_in_fov(pos, self.fov).len()
    }

    /// Whether no creature stands next to the player.
    pub fn monster_touching(&mut self) -> (r: bool)
        requires
            old(self).wf(),
        ensures
            *final(self) == *old(self),
            r == (crate::monsters::in_view_positions(
                old(self).monsters.monsters@,
                old(self).player.pos,
                1,
                old(self).monsters.monsters@.len() as int,
            ).len() == 0),
    {
        let pos = self.player.pos;
        self.monsters.monsters_in_fov(pos, 1).len() == 0
    }


    /// The number of spectators the server last reported.
    pub fn get_spectator_num(&self) -> (r: u64)
        ensures
            r == self.spectators,
    {
        self.spectators
    }

    /// The character's hit points.
    pub fn player_hp(&self) -> (r: i32)
        ensures
            r == self.player.health.hp,
    {
        self.player.health.hp
    }

    /// The character's maximum hit points.
    pub fn player_hp_max(&self) -> (r: i32)
        ensures
            r == self.player.health.hp_max,
    {
        self.player.health.hp_max
    }

    /// The hit points that would remain once poison has run its course.
    pub fn player_poison_hp(&self) -> (r: i32)
        ensures
            r == self.player.health.poison_survival,
    {
        self.player.health.poison_survival
    }

    /// Armour class, evasion and shield values.
    pub fn player_defense(&self) -> (r: (i32, i32, i32))
        ensures
            r == (self.player.defense.ac, self.player.defense.ev, self.player.defense.sh),
    {
        (self.player.defense.ac, self.player.defense.ev, self.player.defense.sh)
    }

    /// How far the character sees.
    pub fn fov_of_data(&mut self) -> (r: u32)
        ensures
            r == old(self).fov,
            *final(self) == *old(self),
    {
        self.fov
    }

    /// Whether the character shows status light `status`.
    pub fn has_status(&self, status: &str) -> (r: bool)
        ensures
            r == exists|i: int| 0 <= i < self.player.status@.len() && self.player.status@[i]@ == status@,
    {
        let mut i: usize = 0;
        while i < self.player.status.len()
            invariant
                i <= self.player.status@.len(),
                forall|j: int| 0 <= j < i ==> self.player.status@[j]@ != status@,
            decreases self.player.status@.len() - i,
        {
            if str_eq(self.player.status[i].as_str(), status) {
                return true;
            }
            i += 1;
        }
        false
    }

    /// The danger levels of the creatures in view, in the tracker's order.
    pub fn get_monster_threat_vec(&self) -> (r: Vec<i32>)
        ensures
            ({
                let idx = crate::monsters::in_view_positions(
                    self.monsters.monsters@,
                    self.player.pos,
                    self.fov,
                    self.monsters.monsters@.len() as int,
                );
                &&& r@.len() == idx.len()
                &&& forall|k: int| 0 <= k < r@.len() ==> #[trigger] r@[k] == self.monsters.monsters@[idx[k]].1.threat
            }),
    {
        let idx = self.monsters.monsters_in_fov(self.player.pos, self.fov);
        let ghost view = idx@.map_values(|k: usize| k as int);
        let mut r: Vec<i32> = Vec::new();
        let mut k: usize = 0;
        while k < idx.len()
            invariant
                k <= idx@.len(),
                r@.len() == k,
                view == idx@.map_values(|j: usize| j as int),
                view == crate::monsters::in_view_positions(self.monsters.monsters@, self.player.pos, self.fov, self.monsters.monsters@.len() as int),
                forall|j: int| 0 <= j < idx@.len() ==> (#[trigger] idx@[j]) < self.monsters.monsters@.len(),
                forall|j: int| 0 <= j < k ==> #[trigger] r@[j] == self.monsters.monsters@[view[j]].1.threat,
            decreases idx@.len() - k,
        {
            assert(view[k as int] == idx@[k as int] as int);
            r.push(self.monsters.monsters[idx[k]].1.threat);
            k += 1;
        }
        r
    }

}

}
