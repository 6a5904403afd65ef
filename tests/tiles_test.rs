use dcss_api::{mf_lookup, Json, JsonNumber, Tile, Tiles, MAX_FLOOR_SIZE};

fn s(t: &str) -> Json {
    Json::Str(t.to_string())
}

fn num(v: i64) -> Json {
    if v >= 0 {
        Json::Number(JsonNumber::PosInt(v as u64))
    } else {
        Json::Number(JsonNumber::NegInt(v))
    }
}

fn obj(members: Vec<(&str, Json)>) -> Json {
    Json::Object(members.into_iter().map(|(k, v)| (k.to_string(), v)).collect())
}

#[test]
fn new_grid_is_unexplored() {
    let t = Tiles::init();
    assert_eq!(t.tiles.len(), MAX_FLOOR_SIZE);
    assert_eq!(t.tiles[0].len(), MAX_FLOOR_SIZE);
    assert_eq!(t.tiles[250][250], Tile::new());
}

#[test]
fn feature_codes_map_to_defaults() {
    assert_eq!(mf_lookup(1), Some((true, true)));
    assert_eq!(mf_lookup(2), Some((false, true)));
    assert_eq!(mf_lookup(13), Some((true, true)));
    assert_eq!(mf_lookup(0), Some((false, false)));
    assert_eq!(mf_lookup(10), None);
    assert_eq!(mf_lookup(27), None);
}

#[test]
fn cells_update_terrain_and_occupancy() {
    let mut t = Tiles::init();
    let cells = Json::Array(vec![
        obj(vec![("x", num(-1)), ("y", num(2)), ("mf", num(1))]),
        obj(vec![("mf", num(6))]),
        obj(vec![("mf", num(2)), ("mon", obj(vec![("id", num(4))]))]),
        obj(vec![("x", num(5)), ("y", num(5)), ("g", s("{"))]),
        obj(vec![("x", num(0)), ("y", num(0)), ("g", s("@"))]),
        obj(vec![("x", num(9)), ("y", num(9)), ("g", s("§"))]),
        obj(vec![("x", num(400)), ("y", num(0)), ("mf", num(1))]),
    ]);
    let (monsters, items, (unseen, player)) = t.update(&cells);
    assert_eq!(t.tiles[249][252], Tile { mf: 1, walkable: true, blocked: false, explored: true });
    assert_eq!(t.tiles[250][252].mf, 6);
    assert!(t.tiles[251][252].blocked);
    assert!(!t.tiles[251][252].walkable);
    assert!(!t.tiles[255][255].blocked);
    assert!(t.tiles[259][259].blocked);
    assert_eq!(monsters.len(), 1);
    assert_eq!(monsters[0].0, (251, 252));
    assert_eq!(items, vec![(250, 252)]);
    assert_eq!(unseen, vec![(255, 255)]);
    assert_eq!(player, vec![(250, 250)]);
}

#[test]
fn null_creature_frees_tile() {
    let mut t = Tiles::init();
    t.update(&Json::Array(vec![obj(vec![("x", num(0)), ("y", num(0)), ("mon", obj(vec![]))])]));
    assert!(t.tiles[250][250].blocked);
    t.update(&Json::Array(vec![obj(vec![("x", num(0)), ("y", num(0)), ("mon", Json::Null)])]));
    assert!(!t.tiles[250][250].blocked);
}

#[test]
fn non_array_cells_change_nothing() {
    let mut t = Tiles::init();
    let (m, i, (u, p)) = t.update(&Json::Null);
    assert!(m.is_empty() && i.is_empty() && u.is_empty() && p.is_empty());
}
