use dcss_api::{
    batch_of, blocking_messages, classify, matches_wait, BlockingError, Condition, Error, Json,
    JsonNumber, ReadEngine,
};

fn s(t: &str) -> Json {
    Json::Str(t.to_string())
}

fn n(v: u64) -> Json {
    Json::Number(JsonNumber::PosInt(v))
}

fn obj(members: Vec<(&str, Json)>) -> Json {
    Json::Object(members.into_iter().map(|(k, v)| (k.to_string(), v)).collect())
}

fn event(kind: &str) -> Json {
    obj(vec![("msg", s(kind))])
}

fn log_line(text: &str) -> Json {
    obj(vec![("msg", s("msgs")), ("messages", Json::Array(vec![obj(vec![("text", s(text))])]))])
}

fn kind_of(e: &Json) -> String {
    e.get("msg").unwrap().as_str().unwrap().to_string()
}

#[test]
fn classify_input_modes() {
    let more = obj(vec![("msg", s("input_mode")), ("mode", n(5))]);
    let text = obj(vec![("msg", s("input_mode")), ("mode", n(7))]);
    let ready = obj(vec![("msg", s("input_mode")), ("mode", n(1))]);
    assert_eq!(classify(&more), Some(Condition::More));
    assert_eq!(classify(&text), Some(Condition::TextInput));
    assert_eq!(classify(&ready), None);
}

#[test]
fn classify_menus_and_popups() {
    let pickup = obj(vec![("msg", s("menu")), ("tag", s("pickup"))]);
    assert_eq!(classify(&pickup), Some(Condition::Pickup));
    let acq = obj(vec![("msg", s("menu")), ("tag", s("acquirement"))]);
    assert_eq!(classify(&acq), Some(Condition::Acquirement));
    let titles = [
        ("Identify which item? (a-z)", Condition::Identify),
        ("Enchant which weapon?", Condition::EnchantWeapon),
        ("Enchant which item?", Condition::EnchantItem),
        ("Brand which weapon?", Condition::BrandWeapon),
    ];
    for (title, cond) in titles {
        let m = obj(vec![
            ("msg", s("menu")),
            ("tag", s("use_item")),
            ("title", obj(vec![("text", s(title))])),
        ]);
        assert_eq!(classify(&m), Some(cond));
    }
    let inv = obj(vec![("msg", s("menu")), ("tag", s("inventory"))]);
    assert_eq!(classify(&inv), None);
}

#[test]
fn classify_log_lines() {
    assert_eq!(classify(&log_line("You die... (Press enter)")), Some(Condition::Died));
    assert_eq!(classify(&log_line("Blink to where?")), Some(Condition::Blink));
    assert_eq!(classify(&log_line("Really read the scroll of noise?")), Some(Condition::Noise));
    assert_eq!(classify(&log_line("Keep equipping yourself? (y/n)")), Some(Condition::Equipping));
    assert_eq!(classify(&log_line("Keep disrobing?")), Some(Condition::Disrobing));
    assert_eq!(classify(&log_line("You see here a dagger.")), None);
    let no_messages = event("msgs");
    assert_eq!(classify(&no_messages), None);
}

#[test]
fn classify_other_kinds() {
    let txt = obj(vec![
        ("msg", s("txt")),
        ("lines", obj(vec![("0", s("Select the skills to train"))])),
    ]);
    assert_eq!(classify(&txt), Some(Condition::Skill));
    assert_eq!(classify(&event("login_fail")), Some(Condition::LoginFailed));
    assert_eq!(classify(&event("register_fail")), Some(Condition::RegisterFailed));
    let seed = obj(vec![("msg", s("ui-push")), ("type", s("seed-selection"))]);
    assert_eq!(classify(&seed), Some(Condition::SeedSelection));
    let choice = obj(vec![("msg", s("ui-push")), ("type", s("newgame-choice"))]);
    assert_eq!(classify(&choice), Some(Condition::NewGameChoice));
    assert_eq!(classify(&event("ping")), None);
}

#[test]
fn blocking_messages_carries_popup_event() {
    let acq = obj(vec![("msg", s("menu")), ("tag", s("acquirement")), ("items", Json::Array(vec![]))]);
    match blocking_messages(&acq) {
        Err(Error::Blocking(BlockingError::Acquirement(e))) => {
            assert_eq!(kind_of(&e), "menu");
            assert_eq!(e.get("tag").unwrap().as_str(), Some("acquirement"));
        }
        other => panic!("unexpected {:?}", other),
    }
    assert!(matches!(blocking_messages(&event("login_fail")), Err(Error::LoginFailed)));
    assert!(matches!(blocking_messages(&event("ping")), Ok(())));
}

#[test]
fn matches_wait_checks_field_and_value() {
    let m = obj(vec![("msg", s("input_mode")), ("mode", n(1))]);
    assert!(matches_wait(&m, "input_mode", None, None));
    assert!(matches_wait(&m, "input_mode", Some("mode"), None));
    assert!(matches_wait(&m, "input_mode", Some("mode"), Some(1)));
    assert!(!matches_wait(&m, "input_mode", Some("mode"), Some(5)));
    assert!(!matches_wait(&m, "input_mode", Some("other"), None));
    assert!(!matches_wait(&m, "menu", None, None));
}

#[test]
fn batch_of_reads_msgs_array() {
    let payload = obj(vec![("msgs", Json::Array(vec![event("ping"), event("lobby_clear")]))]);
    let batch = batch_of(&payload);
    assert_eq!(batch.len(), 2);
    assert_eq!(kind_of(&batch[0]), "ping");
    assert_eq!(kind_of(&batch[1]), "lobby_clear");
    assert_eq!(batch_of(&obj(vec![])).len(), 0);
}

#[test]
fn every_event_is_queued_in_order() {
    let mut engine = ReadEngine::new();
    let frames = vec![
        vec![event("ping"), obj(vec![("msg", s("input_mode")), ("mode", n(5))])],
        vec![event("lobby_clear")],
        vec![event("map"), event("lobby_complete"), event("player")],
    ];
    let mut results = vec![];
    for f in frames {
        results.push(engine.process_batch(f, "lobby_complete", None, None));
    }
    assert!(matches!(results[0], Err(Error::Blocking(BlockingError::More))));
    assert!(results[1].is_ok());
    assert!(results[2].is_ok());
    assert!(engine.message_found);
    let mut kinds = vec![];
    while let Some(e) = engine.get_message() {
        kinds.push(kind_of(&e));
    }
    assert_eq!(kinds, vec!["ping", "input_mode", "lobby_clear", "map", "lobby_complete", "player"]);
}

#[test]
fn blocking_error_comes_before_success() {
    let mut engine = ReadEngine::new();
    let batch = vec![log_line("Blink to where?"), event("close_all_menus")];
    let r = engine.process_batch(batch, "close_all_menus", None, None);
    assert!(matches!(r, Err(Error::Blocking(BlockingError::Blink))));
    // The next wait for the same event is over without another frame.
    assert!(engine.take_found());
    assert!(!engine.take_found());
    assert_eq!(engine.received_messages.len(), 2);
}

#[test]
fn death_ends_the_batch() {
    let mut engine = ReadEngine::new();
    let batch = vec![event("ping"), log_line("You die..."), event("close_all_menus")];
    let r = engine.process_batch(batch, "close_all_menus", None, None);
    assert!(matches!(r, Err(Error::Blocking(BlockingError::Died))));
    assert!(!engine.message_found);
    assert_eq!(engine.received_messages.len(), 2);
}

#[test]
fn last_blocking_state_wins() {
    let mut engine = ReadEngine::new();
    let batch = vec![log_line("Blink to where?"), event("login_fail")];
    let r = engine.process_batch(batch, "nothing", None, None);
    assert!(matches!(r, Err(Error::LoginFailed)));
}

#[test]
fn first_field_of_queued_kind() {
    let mut engine = ReadEngine::new();
    let batch = vec![
        event("ping"),
        obj(vec![("msg", s("login_cookie")), ("cookie", s("User%123"))]),
        obj(vec![("msg", s("login_cookie")), ("cookie", s("later"))]),
    ];
    let _ = engine.process_batch(batch, "login_cookie", None, None);
    assert_eq!(engine.first_field("login_cookie", "cookie"), Some("User%123".to_string()));
    assert_eq!(engine.first_field("rcfile_contents", "contents"), None);
}
