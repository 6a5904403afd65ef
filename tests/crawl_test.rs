use dcss_api::{CrawlData, Json, JsonNumber};

fn s(t: &str) -> Json {
    Json::Str(t.to_string())
}

fn num(v: i64) -> Json {
    if v >= 0 {
        Json::Number(JsonNumber::PosInt(v as u64))
    } else {
        Json::Number(JsonNumber::NegInt(v))
    }
}

fn obj(members: Vec<(&str, Json)>) -> Json {
    Json::Object(members.into_iter().map(|(k, v)| (k.to_string(), v)).collect())
}

fn cell(x: i64, y: i64, mf: i64) -> Json {
    obj(vec![("x", num(x)), ("y", num(y)), ("mf", num(mf))])
}

#[test]
fn map_event_feeds_grid_creatures_and_items() {
    let mut data = CrawlData::init(8, "0.32");
    let map = obj(vec![
        ("msg", s("map")),
        (
            "cells",
            Json::Array(vec![
                cell(0, 0, 1),
                obj(vec![("mf", num(6))]),
                obj(vec![("mf", num(1)), ("mon", obj(vec![("id", num(3)), ("name", s("bat"))]))]),
                cell(-1, 0, 13),
            ]),
        ),
    ]);
    data.update_map(&map);
    assert!(data.tile_explored(0, 0));
    assert_eq!(data.tile_mf(1, 0), 6);
    assert!(!data.tile_walkable(2, 0));
    assert_eq!(data.monsters.monsters.len(), 1);
    assert_eq!(data.pickup.unknown, vec![(251, 250)]);
    assert_eq!(data.path_to_down_stairs(), vec![(-1, 0)]);
    data.new_floor();
    assert!(data.monsters.monsters.is_empty());
    assert!(!data.tile_explored(0, 0));
}

#[test]
fn unexplored_cell_next_to_player() {
    let mut data = CrawlData::init(8, "0.32");
    let map = obj(vec![("cells", Json::Array(vec![cell(0, 0, 1), cell(0, 1, 1), cell(0, 2, 1)]))]);
    data.update_map(&map);
    let steps = data.path_to_unexplored();
    assert_eq!(steps.len(), 1);
    assert!(!data.tile_explored(steps[0].0, steps[0].1));
}

#[test]
fn log_queue_is_empty_at_start() {
    let mut data = CrawlData::init(8, "0.32");
    assert!(!data.logs_to_process());
    assert_eq!(data.get_log_message(), None);
    assert!(!data.lethally_poisoned());
    assert!(!data.menu_to_process());
}

#[test]
fn queued_dialogs_come_out_in_order() {
    let mut data = CrawlData::init(8, "0.32");
    data.queue_collect_item_data("b");
    data.queue_close_all_menus("key_esc");
    assert!(data.menu_to_process());
    // Closing everything is already open and urgent: it is handled first.
    let (key, msg) = data.interact_with_menu();
    assert_eq!((key.as_str(), msg.as_str()), ("key_esc", "close_all_menus"));
    data.remove_closed_menus();
    let (key, msg) = data.interact_with_menu();
    assert_eq!((key.as_str(), msg.as_str()), ("i", "menu"));
    data.identify_menu_as_opened();
    let (key, msg) = data.interact_with_menu();
    assert_eq!((key.as_str(), msg.as_str()), ("b", "ui-push"));
}

#[test]
fn coordinates_and_item_paths() {
    let mut data = CrawlData::init(8, "0.32");
    assert_eq!(data.get_dcss_coord(3, -2), (3, -2));
    let map = obj(vec![(
        "cells",
        Json::Array(vec![cell(0, 0, 1), cell(1, 0, 1), cell(2, 0, 6)]),
    )]);
    data.update_map(&map);
    assert_eq!(data.nearest_item_path(), Some(vec![(1, 0), (1, 0)]));
    assert!(data.tile_walkable_ignore_blocked(1, 0));
    assert_eq!(data.path_to_location((2, 0)), vec![(1, 0), (1, 0)]);
    assert!(data.nearest_monster_path().is_empty());
}

#[test]
fn log_lines_are_queued_and_stairs_reset_the_floor() {
    let mut data = CrawlData::init(8, "0.32");
    data.update_map(&obj(vec![("cells", Json::Array(vec![cell(0, 0, 1)]))]));
    assert!(data.tile_explored(0, 0));
    let msgs = obj(vec![
        ("msg", s("msgs")),
        (
            "messages",
            Json::Array(vec![
                obj(vec![("text", s("Hello."))]),
                obj(vec![("other", s("no text"))]),
                obj(vec![("text", s("You climb downwards."))]),
            ]),
        ),
    ]);
    data.process_log(&msgs);
    assert!(!data.tile_explored(0, 0));
    assert!(data.logs_to_process());
    assert_eq!(data.get_log_message(), Some("Hello.".to_string()));
    assert_eq!(data.get_log_message(), Some("You climb downwards.".to_string()));
    assert_eq!(data.get_log_message(), None);
}

#[test]
fn player_event_updates_position_and_values() {
    let mut data = CrawlData::init(8, "0.32");
    let player = obj(vec![
        ("msg", s("player")),
        ("pos", obj(vec![("x", num(3)), ("y", num(-4))])),
        ("hp", num(12)),
        ("hp_max", num(20)),
        ("poison_survival", num(0)),
        ("ac", num(3)),
        ("status", Json::Array(vec![obj(vec![("light", s("Slow"))]), obj(vec![("text", s("Poisoned"))])])),
    ]);
    data.update_player(&player);
    assert_eq!(data.player.pos, (253, 246));
    assert_eq!(data.player.health.hp, 12);
    assert_eq!(data.player.health.hp_max, 20);
    assert!(data.lethally_poisoned());
    assert_eq!(data.player.defense.ac, 3);
    assert_eq!(data.player.status, vec!["Slow".to_string(), "Poisoned".to_string()]);
}

#[test]
fn events_are_dispatched_by_kind() {
    let mut data = CrawlData::init(8, "0.32");
    assert!(data.process_json(&obj(vec![("msg", s("ping"))])));
    assert!(!data.process_json(&obj(vec![("msg", s("no_such_event"))])));
    assert!(!data.process_json(&obj(vec![])));
    assert!(data.process_json(&obj(vec![("msg", s("update_spectators")), ("count", num(4))])));
    assert_eq!(data.spectators, 4);
    let map = obj(vec![("msg", s("map")), ("cells", Json::Array(vec![cell(0, 0, 1)]))]);
    assert!(data.process_json(&map));
    assert!(data.tile_explored(0, 0));
    let pickup = obj(vec![
        ("msg", s("menu")),
        ("tag", s("pickup")),
        ("items", Json::Array(vec![obj(vec![("level", num(1)), ("text", s("Items"))])])),
    ]);
    assert!(data.process_json(&pickup));
    let (key, _) = data.interact_with_menu();
    assert_eq!(key, "*");
    assert!(data.process_json(&obj(vec![("msg", s("update_menu"))])));
    let (key, msg) = data.interact_with_menu();
    assert_eq!((key.as_str(), msg.as_str()), ("key_enter", "close_menu"));
    assert!(data.process_json(&obj(vec![("msg", s("close_menu"))])));
    assert!(!data.menu_to_process());
}

#[test]
fn creatures_in_view_and_to_examine() {
    let mut data = CrawlData::init(2, "0.32");
    let map = obj(vec![(
        "cells",
        Json::Array(vec![
            obj(vec![("x", num(1)), ("y", num(0)), ("mf", num(1)), ("mon", obj(vec![("id", num(1)), ("name", s("rat"))]))]),
            obj(vec![("x", num(5)), ("y", num(0)), ("mf", num(1)), ("mon", obj(vec![("id", num(2)), ("name", s("orc"))]))]),
        ]),
    )]);
    data.update_map(&map);
    assert_eq!(data.monster_count_fov(), 1);
    assert!(!data.monster_touching());
    assert_eq!(data.examine_monsters(), Some((1, 0)));
    data.ready_examine_monster((251, 250));
    assert_eq!(data.monsters.examine_loc, Some((251, 250)));
}

#[test]
fn high_priority_dialog_is_requested_first() {
    let mut d = CrawlData::init(9, "0.32");
    d.queue_collect_item_data("a");
    d.queue_collect_ability_data();
    assert_eq!(d.interact_with_menu(), ("a".to_string(), "menu".to_string()));
    let a = d.menus.nodes[0].subs[1];
    assert!(d.menus.nodes[a].requested);
    let i = d.menus.nodes[0].subs[0];
    assert!(!d.menus.nodes[i].requested);
}

#[test]
fn player_getters_and_threats() {
    let mut data = CrawlData::init(2, "0.32");
    let player = obj(vec![
        ("hp", num(7)),
        ("hp_max", num(9)),
        ("ac", num(1)),
        ("ev", num(2)),
        ("sh", num(3)),
        ("status", Json::Array(vec![obj(vec![("light", s("Fast"))])])),
    ]);
    data.update_player(&player);
    assert_eq!((data.player_hp(), data.player_hp_max()), (7, 9));
    assert_eq!(data.player_defense(), (1, 2, 3));
    assert!(data.has_status("Fast"));
    assert!(!data.has_status("Slow"));
    assert_eq!(data.fov_of_data(), 2);
    let map = obj(vec![(
        "cells",
        Json::Array(vec![obj(vec![
            ("x", num(1)),
            ("y", num(1)),
            ("mf", num(1)),
            ("mon", obj(vec![("id", num(5)), ("name", s("gnoll")), ("threat", num(3))])),
        ])]),
    )]);
    data.update_map(&map);
    assert_eq!(data.get_monster_threat_vec(), vec![3]);
}
