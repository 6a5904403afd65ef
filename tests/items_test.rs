use dcss_api::{
    amulet_type, ring_type, skills_options, type_of_potion, type_of_scroll, AmuletType, Armour,
    ArmourType, Item, Jewellery, Potion, PotionType, RingType, Scroll, ScrollType, Weapon,
};

#[test]
fn potion_and_scroll_names() {
    assert_eq!(type_of_potion("heal wounds".to_string()), PotionType::HealWounds);
    assert_eq!(type_of_potion("magic".to_string()), PotionType::Magic);
    assert_eq!(type_of_scroll("enchant armour".to_string()), ScrollType::EnchantArmour);
    assert_eq!(type_of_scroll("butterflies".to_string()), ScrollType::Butterflies);
}

#[test]
fn jewellery_tags() {
    assert_eq!(amulet_type("an amulet {Regen} of x".to_string()), AmuletType::Regen);
    assert_eq!(amulet_type("{RegenMP}".to_string()), AmuletType::RegenMP);
    assert_eq!(ring_type("a ring {Fire rF+ rC-}".to_string()), RingType::Fire);
    assert_eq!(ring_type("ring {rC+}".to_string()), RingType::ColdResistance);
    let mut j = Jewellery::new();
    j.ring_type = RingType::Wiz;
    assert_eq!(j.ring_rating(), 9);
    j.amulet_type = AmuletType::Faith;
    assert_eq!(j.amulet_rating(), -100);
}

#[test]
fn potion_line_identifies() {
    let mut p = Potion::new();
    p.update_potion_values("c - 2 potions of heal wounds.", 2);
    assert!(p.identified);
    assert_eq!(p.potion_type, PotionType::HealWounds);
    let mut q = Potion::new();
    q.update_potion_values("d - a murky potion", 1);
    assert!(!q.identified);
    assert_eq!(q.potion_type, PotionType::Unknown);
}

#[test]
fn scroll_line_identifies() {
    let mut s = Scroll::new();
    s.update_scroll_values("e - a scroll of identify\n", 1);
    assert!(s.identified);
    assert_eq!(s.scroll_type, ScrollType::Identify);
}

#[test]
fn ratings() {
    let mut a = Armour::new();
    assert_eq!(a.rate_armour(), -100);
    a.base_rating = Some(3);
    assert_eq!(a.rate_armour(), 3);
    a.useless = true;
    assert_eq!(a.rate_armour(), -100);
    let mut w = Weapon::new();
    assert_eq!(w.rate_weapon(), -100);
    w.damage_rating = Some(11);
    assert_eq!(w.rate_weapon(), 11);
    w.rating = 11;
    let item = Item::Weapon(w);
    assert_eq!(item.rating(), 11);
    assert_eq!(Item::Empty.rating(), -100);
    assert!(Item::Empty.is_none());
    assert_eq!(Item::Armour(Armour::new())._armour_type(), ArmourType::Unknown);
}

#[test]
fn identifying_items() {
    let mut item = Item::Scroll(Scroll::new());
    assert!(!item.is_identified());
    item.identified();
    assert!(item.is_identified());
    assert!(!item.data_collected());
}

#[test]
fn skill_menu_settings() {
    let line = "<span class=\"fg15 bg0\">auto</span> x <span class=\"fg15 bg0\">cost</span>";
    let (mode, scope, view) = skills_options(line.to_string());
    assert_eq!((mode.as_str(), scope.as_str(), view.as_str()), ("auto", "all", "cost"));
    let (mode, scope, view) = skills_options(String::new());
    assert_eq!((mode.as_str(), scope.as_str(), view.as_str()), ("manual", "all", "targets"));
}
