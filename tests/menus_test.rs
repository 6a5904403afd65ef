use dcss_api::Menus;

fn add(m: &mut Menus, path: Vec<&str>, key: &str, high: bool) {
    m.add_menu(path, key, "key_esc", false, false, false, high, "menu", "close_menu");
}

fn current_key(m: &Menus) -> String {
    m.nodes[m.current_menu()].open_menu.clone()
}

#[test]
fn opened_child_is_chosen_over_high_priority() {
    let mut m = Menus::init();
    add(&mut m, vec![""], "i", false);
    add(&mut m, vec![""], "x", true);
    let i = m.nodes[0].subs[0];
    m.nodes[i].opened = true;
    assert_eq!(current_key(&m), "i");
}

#[test]
fn high_priority_child_is_chosen_when_none_is_open() {
    let mut m = Menus::init();
    add(&mut m, vec![""], "i", false);
    add(&mut m, vec![""], "x", true);
    assert_eq!(current_key(&m), "x");
}

#[test]
fn oldest_child_is_chosen_otherwise() {
    let mut m = Menus::init();
    add(&mut m, vec![""], "i", false);
    add(&mut m, vec![""], "d", false);
    assert_eq!(current_key(&m), "i");
}

#[test]
fn interact_opens_then_closes_then_prunes() {
    let mut m = Menus::init();
    assert!(!m.menu_to_process());
    add(&mut m, vec![""], "i", false);
    m.add_menu(vec!["i"], "a", "key_esc", false, false, false, false, "ui-push", "ui-pop");
    assert!(m.menu_to_process());
    // The outer dialog comes first; it is not open, so its open key is sent.
    let (key, msg) = m.interact_with_menu();
    assert_eq!((key.as_str(), msg.as_str()), ("i", "menu"));
    m.identify_menu_as_opened();
    // Now the inner dialog is relevant.
    let (key, msg) = m.interact_with_menu();
    assert_eq!((key.as_str(), msg.as_str()), ("a", "ui-push"));
    m.identify_menu_as_opened();
    let (key, msg) = m.interact_with_menu();
    assert_eq!((key.as_str(), msg.as_str()), ("key_esc", "ui-pop"));
    m.remove_closed_menus();
    assert_eq!(current_key(&m), "i");
    let (key, _) = m.interact_with_menu();
    assert_eq!(key, "key_esc");
    m.remove_closed_menus();
    assert!(!m.menu_to_process());
}

#[test]
fn adding_an_existing_dialog_reopens_it() {
    let mut m = Menus::init();
    add(&mut m, vec![""], "i", false);
    let i = m.nodes[0].subs[0];
    m.nodes[i].closed = true;
    add(&mut m, vec![""], "i", false);
    assert_eq!(m.nodes[0].subs.len(), 1);
    assert!(!m.nodes[i].closed);
}

#[test]
fn missing_path_adds_nothing() {
    let mut m = Menus::init();
    add(&mut m, vec!["q"], "a", false);
    assert_eq!(m.nodes.len(), 1);
    assert!(!m.menu_to_process());
}
