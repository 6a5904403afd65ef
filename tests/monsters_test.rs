use dcss_api::{Json, JsonNumber, Monsters};

fn s(t: &str) -> Json {
    Json::Str(t.to_string())
}

fn obj(members: Vec<(&str, Json)>) -> Json {
    Json::Object(members.into_iter().map(|(k, v)| (k.to_string(), v)).collect())
}

fn id(v: u64) -> Json {
    Json::Number(JsonNumber::PosInt(v))
}

fn find_monster(m: &Monsters, which: u64) -> Option<&dcss_api::Monster> {
    m.monsters.iter().find(|(k, _)| *k == which).map(|(_, v)| v)
}

#[test]
fn reissued_id_takes_over_the_creature() {
    let mut m = Monsters::init();
    let goblin = obj(vec![
        ("id", id(3)),
        ("name", s("goblin")),
        ("threat", Json::Number(JsonNumber::PosInt(2))),
    ]);
    m.update((10, 10), &goblin);
    let reissued = obj(vec![("id", id(8))]);
    m.update((10, 10), &reissued);
    let old = find_monster(&m, 3).unwrap();
    assert_eq!(old.pos, None);
    let new = find_monster(&m, 8).unwrap();
    assert_eq!(new.name, "goblin");
    assert_eq!(new.threat, 2);
    assert_eq!(new.pos, Some((10, 10)));
}

#[test]
fn null_report_clears_the_place() {
    let mut m = Monsters::init();
    m.update((1, 2), &obj(vec![("id", id(1)), ("name", s("rat"))]));
    m.update((1, 2), &Json::Null);
    assert_eq!(find_monster(&m, 1).unwrap().pos, None);
}

#[test]
fn known_id_moves_and_displaces() {
    let mut m = Monsters::init();
    m.update((1, 1), &obj(vec![("id", id(1)), ("name", s("rat"))]));
    m.update((2, 2), &obj(vec![("id", id(2)), ("name", s("bat"))]));
    m.update((2, 2), &obj(vec![("id", id(1))]));
    assert_eq!(find_monster(&m, 1).unwrap().pos, Some((2, 2)));
    assert_eq!(find_monster(&m, 2).unwrap().pos, None);
}

#[test]
fn new_named_creature_displaces_occupant() {
    let mut m = Monsters::init();
    m.update((4, 4), &obj(vec![("id", id(1)), ("name", s("rat"))]));
    m.update((4, 4), &obj(vec![("id", id(5)), ("name", s("jackal"))]));
    assert_eq!(find_monster(&m, 1).unwrap().pos, None);
    assert_eq!(find_monster(&m, 5).unwrap().pos, Some((4, 4)));
    assert_eq!(m.monsters.len(), 2);
}

#[test]
fn plants_get_negative_threat() {
    let mut m = Monsters::init();
    let plant = obj(vec![
        ("id", id(9)),
        ("name", s("plant")),
        ("threat", id(1)),
        ("typedata", obj(vec![("no_exp", Json::Bool(true))])),
    ]);
    m.update((0, 0), &plant);
    assert_eq!(find_monster(&m, 9).unwrap().threat, -1);
}

#[test]
fn unnamed_report_on_empty_place_changes_nothing() {
    let mut m = Monsters::init();
    m.update((3, 3), &obj(vec![("id", id(4))]));
    assert!(m.monsters.is_empty());
    m.update((3, 3), &obj(vec![("name", s("no id"))]));
    assert!(m.monsters.is_empty());
}

#[test]
fn unseen_creature_marker() {
    let mut m = Monsters::init();
    m.invisible_monster((5, 5));
    m.invisible_monster((6, 6));
    assert_eq!(m.monsters.len(), 1);
    assert_eq!(find_monster(&m, 9999).unwrap().pos, Some((6, 6)));
    m.invisible_removed((5, 5));
    assert_eq!(m.monsters.len(), 1);
    m.invisible_removed((6, 6));
    assert!(m.monsters.is_empty());
}

#[test]
fn nearest_creature_path() {
    let floor = dcss_api::Tile { mf: 1, walkable: true, blocked: false, explored: true };
    let mut tiles = vec![vec![floor; 9]; 9];
    let mut m = Monsters::init();
    m.update((7, 4), &obj(vec![("id", id(1)), ("name", s("orc"))]));
    m.update((5, 4), &obj(vec![("id", id(2)), ("name", s("rat"))]));
    tiles[7][4].blocked = true;
    tiles[5][4].blocked = true;
    let path = m.nearest(&tiles, (4, 4), 8);
    assert_eq!(path, vec![(5, 4)]);
    assert_eq!(m.path_to_all_mons(&tiles, (4, 4), 8, true).len(), 2);
    assert_eq!(m.path_to_all_mons(&tiles, (4, 4), 1, true).len(), 1);
}

#[test]
fn nearest_is_first_of_shortest() {
    let floor = dcss_api::Tile { mf: 1, walkable: true, blocked: false, explored: true };
    let tiles = vec![vec![floor; 9]; 9];
    let mut m = Monsters::init();
    m.update((6, 4), &obj(vec![("id", id(1)), ("name", s("orc"))]));
    m.update((4, 6), &obj(vec![("id", id(2)), ("name", s("rat"))]));
    m.update((4, 2), &obj(vec![("id", id(3)), ("name", s("bat"))]));
    let path = m.nearest(&tiles, (4, 4), 8);
    assert_eq!(path.len(), 2);
    assert_eq!(path.last(), Some(&(6, 4)));
}
