use dcss_api::{
    _index_to_char, branch_keys, char_to_index, keys, start_game_step, BlockingError, Error, KeyInput, StartStep,
    YamlParsingError,
};

#[test]
fn control_keys_become_codes() {
    assert_eq!(keys("key_ctrl_a"), KeyInput::Keycode(1));
    assert_eq!(keys("key_ctrl_z"), KeyInput::Keycode(26));
    assert_eq!(keys("key_tab"), KeyInput::Keycode(9));
    assert_eq!(keys("key_esc"), KeyInput::Keycode(27));
}

#[test]
fn named_keys_become_text() {
    assert_eq!(keys("key_dir_n"), KeyInput::Text("8".to_string()));
    assert_eq!(keys("key_dir_sw"), KeyInput::Text("1".to_string()));
    assert_eq!(keys("key_stair_down"), KeyInput::Text(">".to_string()));
    assert_eq!(keys("key_enter"), KeyInput::Text("\r".to_string()));
    assert_eq!(keys("6iad"), KeyInput::Text("6iad".to_string()));
    assert_eq!(keys("key_ctrl_A"), KeyInput::Text("key_ctrl_A".to_string()));
}

#[test]
fn branch_names_and_levels() {
    let (name, key, level) = branch_keys("Lair:3").unwrap();
    assert_eq!((name.as_str(), key.as_str(), level.as_str()), ("Lair", "L", "3"));
    let (name, key, level) = branch_keys("D").unwrap();
    assert_eq!((name.as_str(), key.as_str(), level.as_str()), ("D", "D", "0"));
    let (_, key, _) = branch_keys("Arena:1").unwrap();
    assert_eq!(key, "\"");
    match branch_keys("Nowhere:2") {
        Err(YamlParsingError::UnknownBranch(n)) => assert_eq!(n, "Nowhere"),
        other => panic!("unexpected {:?}", other),
    }
}

#[test]
fn letters_to_indices() {
    assert_eq!(char_to_index("a"), 0);
    assert_eq!(char_to_index("z"), 25);
    assert_eq!(char_to_index("A"), 26);
    assert_eq!(char_to_index("Z"), 51);
}

#[test]
fn indices_to_letters() {
    assert_eq!(_index_to_char(0), "a");
    assert_eq!(_index_to_char(25), "z");
    assert_eq!(_index_to_char(26), "A");
    assert_eq!(_index_to_char(51), "Z");
    for k in 0..52 {
        assert_eq!(char_to_index(_index_to_char(k)), k);
    }
}

#[test]
fn playable_games_from_links() {
    let html = "<a href=\"#play-dcss-web-trunk\">x</a><a href=\"#play-seeded-web-trunk\">y</a>";
    let games = dcss_api::process_playable_game(html);
    assert_eq!(games, vec!["dcss-web-trunk".to_string(), "seeded-web-trunk".to_string()]);
}

#[test]
fn start_game_steps() {
    assert_eq!(start_game_step(&Ok(()), 0), StartStep::Started);
    assert_eq!(
        start_game_step(&Err(Error::Blocking(BlockingError::SeedSelection)), 0),
        StartStep::EnterSeed
    );
    assert_eq!(
        start_game_step(&Err(Error::Blocking(BlockingError::NewGameChoice)), 2),
        StartStep::Choose(2)
    );
    assert_eq!(
        start_game_step(&Err(Error::Blocking(BlockingError::NewGameChoice)), 3),
        StartStep::Stop
    );
    assert_eq!(start_game_step(&Err(Error::LoginFailed), 0), StartStep::Stop);
}
