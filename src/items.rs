use vstd::prelude::*;

use crate::text::{is_substring, param_of, str_contains, str_eq, extract_param};

verus! {

/// The kinds of potion.
#[derive(Clone, Copy, Debug, PartialEq, Eq, Structural)]
pub enum PotionType {
    Unknown,
    Berserk,
    Haste,
    Experience,
    Enlightenment,
    Might,
    Resistance,
    Attraction,
    Brilliance,
    HealWounds,
    Degeneration,
    Lignification,
    Curing,
    Invisibility,
    Cancellation,
    Mutation,
    Ambrosia,
    Magic,
}

/// The kinds of scroll.
#[derive(Clone, Copy, Debug, PartialEq, Eq, Structural)]
pub enum ScrollType {
    Unknown,
    Acquirement,
    Amnesia,
    Blinking,
    BrandWeapon,
    EnchantArmour,
    EnchantWeapon,
    Fear,
    Fog,
    HolyWord,
    Identify,
    Immolation,
    Revelation,
    Noise,
    Silence,
    Summoning,
    Teleportation,
    Torment,
    Vulnerability,
    Poison,
    Butterflies,
}

/// The slots armour is worn in.
#[derive(Clone, Copy, Debug, PartialEq, Eq, Structural)]
pub enum ArmourType {
    Unknown,
    Body,
    Boots,
    Cloak,
    Helmet,
    Shield,
    Gloves,
}

/// Amulet or ring.
#[derive(Clone, Copy, Debug, PartialEq, Eq, Structural)]
pub enum JewelleryType {
    Unknown,
    Amulet,
    Ring,
}

/// The kinds of amulet.
#[derive(Clone, Copy, Debug, PartialEq, Eq, Structural)]
pub enum AmuletType {
    Unknown,
    Spirit,
    Acrobat,
    Reflect,
    Regen,
    RegenMP,
    Faith,
}

/// The kinds of ring.
#[derive(Clone, Copy, Debug, PartialEq, Eq, Structural)]
pub enum RingType {
    Unknown,
    SlayP4,
    SeeInv,
    IntP6,
    StrP6,
    FireResistance,
    Wiz,
    DexP6,
    NegativeResistance,
    EvasionP4,
    EvasionP5,
    Ice,
    Fire,
    ColdResistance,
    Flight,
    CorrosionResistance,
    WillPower,
    PoisonResistance,
    ACP4,
    MPP9,
}

/// The weapon skills.
#[derive(Clone, Copy, Debug, PartialEq, Eq, Structural)]
pub enum WeaponType {
    Unknown,
    Maces,
    Polearms,
    Short,
    Long,
    Axes,
    Slings,
    Staves,
    Bows,
    Ranged,
}

/// The potion a name stands for.
pub open spec fn potion_named(name: Seq<char>) -> Option<PotionType> {
    if name == "berserk rage"@ {
        Some(PotionType::Berserk)
    } else if name == "haste"@ {
        Some(PotionType::Haste)
    } else if name == "experience"@ {
        Some(PotionType::Experience)
    } else if name == "enlightenment"@ {
        Some(PotionType::Enlightenment)
    } else if name == "might"@ {
        Some(PotionType::Might)
    } else if name == "resistance"@ {
        Some(PotionType::Resistance)
    } else if name == "attraction"@ {
        Some(PotionType::Attraction)
    } else if name == "brilliance"@ {
        Some(PotionType::Brilliance)
    } else if name == "heal wounds"@ {
        Some(PotionType::HealWounds)
    } else if name == "degeneration"@ {
        Some(PotionType::Degeneration)
    } else if name == "lignification"@ {
        Some(PotionType::Lignification)
    } else if name == "curing"@ {
        Some(PotionType::Curing)
    } else if name == "invisibility"@ {
        Some(PotionType::Invisibility)
    } else if name == "cancellation"@ {
        Some(PotionType::Cancellation)
    } else if name == "mutation"@ {
        Some(PotionType::Mutation)
    } else if name == "ambrosia"@ {
        Some(PotionType::Ambrosia)
    } else if name == "magic"@ {
        Some(PotionType::Magic)
    } else {
        None
    }
}

/// The scroll a name stands for.
pub open spec fn scroll_named(name: Seq<char>) -> Option<ScrollType> {
    if name == "acquirement"@ {
        Some(ScrollType::Acquirement)
    } else if name == "amnesia"@ {
        Some(ScrollType::Amnesia)
    } else if name == "blinking"@ {
        Some(ScrollType::Blinking)
    } else if name == "brand weapon"@ {
        Some(ScrollType::BrandWeapon)
    } else if name == "enchant armour"@ {
        Some(ScrollType::EnchantArmour)
    } else if name == "enchant weapon"@ {
        Some(ScrollType::EnchantWeapon)
    } else if name == "fear"@ {
        Some(ScrollType::Fear)
    } else if name == "fog"@ {
        Some(ScrollType::Fog)
    } else if name == "holy word"@ {
        Some(ScrollType::HolyWord)
    } else if name == "identify"@ {
        Some(ScrollType::Identify)
    } else if name == "immolation"@ {
        Some(ScrollType::Immolation)
    } else if name == "revelation"@ {
        Some(ScrollType::Revelation)
    } else if name == "noise"@ {
        Some(ScrollType::Noise)
    } else if name == "silence"@ {
        Some(ScrollType::Silence)
    } else if name == "summoning"@ {
        Some(ScrollType::Summoning)
    } else if name == "teleportation"@ {
        Some(ScrollType::Teleportation)
    } else if name == "torment"@ {
        Some(ScrollType::Torment)
    } else if name == "vulnerability"@ {
        Some(ScrollType::Vulnerability)
    } else if name == "poison"@ {
        Some(ScrollType::Poison)
    } else if name == "butterflies"@ {
        Some(ScrollType::Butterflies)
    } else {
        None
    }
}

/// The amulet a description shows, by the first tag found in this order.
pub open spec fn amulet_described(desc: Seq<char>) -> Option<AmuletType> {
    if is_substring("{Spirit}"@, desc) {
        Some(AmuletType::Spirit)
    } else if is_substring("{Acrobat}"@, desc) {
        Some(AmuletType::Acrobat)
    } else if is_substring("{Reflect}"@, desc) {
        Some(AmuletType::Reflect)
    } else if is_substring("{Regen}"@, desc) {
        Some(AmuletType::Regen)
    } else if is_substring("{RegenMP}"@, desc) {
        Some(AmuletType::RegenMP)
    } else if is_substring("{Faith}"@, desc) {
        Some(AmuletType::Faith)
    } else {
        None
    }
}

/// The ring a description shows, by the first tag found in this order.
pub open spec fn ring_described(desc: Seq<char>) -> Option<RingType> {
    if is_substring("{Slay+4}"@, desc) {
        Some(RingType::SlayP4)
    } else if is_substring("{sInv}"@, desc) {
        Some(RingType::SeeInv)
    } else if is_substring("{Int+6}"@, desc) {
        Some(RingType::IntP6)
    } else if is_substring("{Str+6}"@, desc) {
        Some(RingType::StrP6)
    } else if is_substring("{rF+}"@, desc) {
        Some(RingType::FireResistance)
    } else if is_substring("{Wiz}"@, desc) {
        Some(RingType::Wiz)
    } else if is_substring("{Dex+6}"@, desc) {
        Some(RingType::DexP6)
    } else if is_substring("{rN+}"@, desc) {
        Some(RingType::NegativeResistance)
    } else if is_substring("{EV+4}"@, desc) {
        Some(RingType::EvasionP4)
    } else if is_substring("{EV+5}"@, desc) {
        Some(RingType::EvasionP5)
    } else if is_substring("{Ice rC+ rF-}"@, desc) {
        Some(RingType::Ice)
    } else if is_substring("{Fire rF+ rC-}"@, desc) {
        Some(RingType::Fire)
    } else if is_substring("{rC+}"@, desc) {
        Some(RingType::ColdResistance)
    } else if is_substring("{Fly}"@, desc) {
        Some(RingType::Flight)
    } else if is_substring("{rCorr}"@, desc) {
        Some(RingType::CorrosionResistance)
    } else if is_substring("{Will+}"@, desc) {
        Some(RingType::WillPower)
    } else if is_substring("{rPois}"@, desc) {
        Some(RingType::PoisonResistance)
    } else if is_substring("{AC+4}"@, desc) {
        Some(RingType::ACP4)
    } else if is_substring("{MP+9}"@, desc) {
        Some(RingType::MPP9)
    } else {
        None
    }
}

fn potion_lookup(name: &str) -> (r: Option<PotionType>)
    ensures
        r == potion_named(name@),
{
    if str_eq(name, "berserk rage") {
        Some(PotionType::Berserk)
    } else if str_eq(name, "haste") {
        Some(PotionType::Haste)
    } else if str_eq(name, "experience") {
        Some(PotionType::Experience)
    } else if str_eq(name, "enlightenment") {
        Some(PotionType::Enlightenment)
    } else if str_eq(name, "might") {
        Some(PotionType::Might)
    } else if str_eq(name, "resistance") {
        Some(PotionType::Resistance)
    } else if str_eq(name, "attraction") {
        Some(PotionType::Attraction)
    } else if str_eq(name, "brilliance") {
        Some(PotionType::Brilliance)
    } else if str_eq(name, "heal wounds") {
        Some(PotionType::HealWounds)
    } else if str_eq(name, "degeneration") {
        Some(PotionType::Degeneration)
    } else if str_eq(name, "lignification") {
        Some(PotionType::Lignification)
    } else if str_eq(name, "curing") {
        Some(PotionType::Curing)
    } else if str_eq(name, "invisibility") {
        Some(PotionType::Invisibility)
    } else if str_eq(name, "cancellation") {
        Some(PotionType::Cancellation)
    } else if str_eq(name, "mutation") {
        Some(PotionType::Mutation)
    } else if str_eq(name, "ambrosia") {
        Some(PotionType::Ambrosia)
    } else if str_eq(name, "magic") {
        Some(PotionType::Magic)
    } else {
        None
    }
}

fn scroll_lookup(name: &str) -> (r: Option<ScrollType>)
    ensures
        r == scroll_named(name@),
{
    if str_eq(name, "acquirement") {
        Some(ScrollType::Acquirement)
    } else if str_eq(name, "amnesia") {
        Some(ScrollType::Amnesia)
    } else if str_eq(name, "blinking") {
        Some(ScrollType::Blinking)
    } else if str_eq(name, "brand weapon") {
        Some(ScrollType::BrandWeapon)
    } else if str_eq(name, "enchant armour") {
        Some(ScrollType::EnchantArmour)
    } else if str_eq(name, "enchant weapon") {
        Some(ScrollType::EnchantWeapon)
    } else if str_eq(name, "fear") {
        Some(ScrollType::Fear)
    } else if str_eq(name, "fog") {
        Some(ScrollType::Fog)
    } else if str_eq(name, "holy word") {
        Some(ScrollType::HolyWord)
    } else if str_eq(name, "identify") {
        Some(ScrollType::Identify)
    } else if str_eq(name, "immolation") {
        Some(ScrollType::Immolation)
    } else if str_eq(name, "revelation") {
        Some(ScrollType::Revelation)
    } else if str_eq(name, "noise") {
        Some(ScrollType::Noise)
    } else if str_eq(name, "silence") {
        Some(ScrollType::Silence)
    } else if str_eq(name, "summoning") {
        Some(ScrollType::Summoning)
    } else if str_eq(name, "teleportation") {
        Some(ScrollType::Teleportation)
    } else if str_eq(name, "torment") {
        Some(ScrollType::Torment)
    } else if str_eq(name, "vulnerability") {
        Some(ScrollType::Vulnerability)
    } else if str_eq(name, "poison") {
        Some(ScrollType::Poison)
    } else if str_eq(name, "butterflies") {
        Some(ScrollType::Butterflies)
    } else {
        None
    }
}

fn amulet_lookup(desc: &str) -> (r: Option<AmuletType>)
    ensures
        r == amulet_described(desc@),
{
    if str_contains(desc, "{Spirit}") {
        Some(AmuletType::Spirit)
    } else if str_contains(desc, "{Acrobat}") {
        Some(AmuletType::Acrobat)
    } else if str_contains(desc, "{Reflect}") {
        Some(AmuletType::Reflect)
    } else if str_contains(desc, "{Regen}") {
        Some(AmuletType::Regen)
    } else if str_contains(desc, "{RegenMP}") {
        Some(AmuletType::RegenMP)
    } else if str_contains(desc, "{Faith}") {
        Some(AmuletType::Faith)
    } else {
        None
    }
}

fn ring_lookup(desc: &str) -> (r: Option<RingType>)
    ensures
        r == ring_described(desc@),
{
    if str_contains(desc, "{Slay+4}") {
        Some(RingType::SlayP4)
    } else if str_contains(desc, "{sInv}") {
        Some(RingType::SeeInv)
    } else if str_contains(desc, "{Int+6}") {
        Some(RingType::IntP6)
    } else if str_contains(desc, "{Str+6}") {
        Some(RingType::StrP6)
    } else if str_contains(desc, "{rF+}") {
        Some(RingType::FireResistance)
    } else if str_contains(desc, "{Wiz}") {
        Some(RingType::Wiz)
    } else if str_contains(desc, "{Dex+6}") {
        Some(RingType::DexP6)
    } else if str_contains(desc, "{rN+}") {
        Some(RingType::NegativeResistance)
    } else if str_contains(desc, "{EV+4}") {
        Some(RingType::EvasionP4)
    } else if str_contains(desc, "{EV+5}") {
        Some(RingType::EvasionP5)
    } else if str_contains(desc, "{Ice rC+ rF-}") {
        Some(RingType::Ice)
    } else if str_contains(desc, "{Fire rF+ rC-}") {
        Some(RingType::Fire)
    } else if str_contains(desc, "{rC+}") {
        Some(RingType::ColdResistance)
    } else if str_contains(desc, "{Fly}") {
        Some(RingType::Flight)
    } else if str_contains(desc, "{rCorr}") {
        Some(RingType::CorrosionResistance)
    } else if str_contains(desc, "{Will+}") {
        Some(RingType::WillPower)
    } else if str_contains(desc, "{rPois}") {
        Some(RingType::PoisonResistance)
    } else if str_contains(desc, "{AC+4}") {
        Some(RingType::ACP4)
    } else if str_contains(desc, "{MP+9}") {
        Some(RingType::MPP9)
    } else {
        None
    }
}

/// The potion a known name stands for.
pub fn type_of_potion(potion_type: String) -> (r: PotionType)
    requires
        potion_named(potion_type@) is Some,
    ensures
        Some(r) == potion_named(potion_type@),
{
    match potion_lookup(potion_type.as_str()) {
        Some(p) => p,
        None => PotionType::Unknown,
    }
}

/// The scroll a known name stands for.
pub fn type_of_scroll(scroll_type: String) -> (r: ScrollType)
    requires
        scroll_named(scroll_type@) is Some,
    ensures
        Some(r) == scroll_named(scroll_type@),
{
    match scroll_lookup(scroll_type.as_str()) {
        Some(s) => s,
        None => ScrollType::Unknown,
    }
}

/// The amulet a description shows; it must show one.
pub fn amulet_type(amulet_desc: String) -> (r: AmuletType)
    requires
        amulet_described(amulet_desc@) is Some,
    ensures
        Some(r) == amulet_described(amulet_desc@),
{
    match amulet_lookup(amulet_desc.as_str()) {
        Some(a) => a,
        None => AmuletType::Unknown,
    }
}

/// The ring a description shows; it must show one.
pub fn ring_type(ring_desc: String) -> (r: RingType)
    requires
        ring_described(ring_desc@) is Some,
    ensures
        Some(r) == ring_described(ring_desc@),
{
    match ring_lookup(ring_desc.as_str()) {
        Some(t) => t,
        None => RingType::Unknown,
    }
}

/// The worth of an amulet kind.
pub open spec fn amulet_worth(a: AmuletType) -> i32 {
    match a {
        AmuletType::Regen => 4i32,
        AmuletType::Spirit => 3i32,
        AmuletType::Reflect => 2i32,
        AmuletType::Acrobat => 1i32,
        AmuletType::RegenMP => 0i32,
        AmuletType::Faith => -100i32,
        AmuletType::Unknown => 0i32,
    }
}

/// The worth of a ring kind.
pub open spec fn ring_worth(t: RingType) -> i32 {
    match t {
        RingType::MPP9 => 1i32,
        RingType::PoisonResistance => 2i32,
        RingType::SlayP4 => 3i32,
        RingType::SeeInv => 4i32,
        RingType::IntP6 => 5i32,
        RingType::StrP6 => 6i32,
        RingType::ACP4 => 7i32,
        RingType::FireResistance => 8i32,
        RingType::Wiz => 9i32,
        RingType::DexP6 => 10i32,
        RingType::NegativeResistance => 11i32,
        RingType::EvasionP5 => 12i32,
        RingType::EvasionP4 => 13i32,
        RingType::Ice => 14i32,
        RingType::Fire => 15i32,
        RingType::ColdResistance => 16i32,
        RingType::Flight => 17i32,
        RingType::CorrosionResistance => 18i32,
        RingType::WillPower => 19i32,
        RingType::Unknown => 0i32,
    }
}

/// A weapon and what its description told.
pub struct Weapon {
    pub data_collected: bool,
    pub weapon_type: WeaponType,
    pub base_accuracy: Option<i32>,
    pub base_damage: Option<i32>,
    pub base_attack_delay: Option<i32>,
    pub damage_rating: Option<i32>,
    pub rating: i32,
}

/// Ammunition.
pub struct Missile {
    pub data_collected: bool,
}

/// A piece of armour and what its description told.
pub struct Armour {
    pub data_collected: bool,
    pub armour_type: ArmourType,
    pub base_rating: Option<i32>,
    pub encumbrance: Option<i32>,
    pub useless: bool,
    pub rating: i32,
}

/// A wand.
pub struct Wand {
    pub data_collected: bool,
}

/// A scroll, identified or not.
pub struct Scroll {
    pub data_collected: bool,
    pub identified: bool,
    pub scroll_type: ScrollType,
}

/// An amulet or a ring.
pub struct Jewellery {
    pub data_collected: bool,
    pub jewellery_type: JewelleryType,
    pub amulet_type: AmuletType,
    pub ring_type: RingType,
    pub rating: i32,
}

/// A potion, identified or not.
pub struct Potion {
    pub data_collected: bool,
    pub identified: bool,
    pub potion_type: PotionType,
}

/// A magical staff.
pub struct Staff {
    pub data_collected: bool,
}

/// An inventory slot, by the item class the server numbers.
pub enum Item {
    Empty,
    Weapon(Weapon),
    Missile(Missile),
    Armour(Armour),
    Wand(Wand),
    Unknown4,
    Scroll(Scroll),
    Jewellery(Jewellery),
    Potion(Potion),
    Unknown8,
    Staff(Staff),
}

/// The worth given to anything that cannot be rated.
pub const UNRATED: i32 = -100;

impl Weapon {
    /// A weapon not yet examined.
    pub fn new() -> (r: Weapon)
        ensures
            !r.data_collected,
            r.weapon_type == WeaponType::Unknown,
            r.base_accuracy is None && r.base_damage is None && r.base_attack_delay is None,
            r.damage_rating is None,
            r.rating == UNRATED,
    {
        Weapon {
            data_collected: false,
            weapon_type: WeaponType::Unknown,
            base_accuracy: None,
            base_damage: None,
            base_attack_delay: None,
            damage_rating: None,
            rating: UNRATED,
        }
    }

    /// The weapon's worth: its damage rating, or `UNRATED` without one.
    pub fn rate_weapon(&mut self) -> (r: i32)
        ensures
            r == match old(self).damage_rating {
                Some(d) => d,
                None => UNRATED,
            },
            *final(self) == *old(self),
    {
        match self.damage_rating {
            Some(d) => d,
            None => UNRATED,
        }
    }
}

impl Missile {
    /// Ammunition not yet examined.
    pub fn new() -> (r: Missile)
        ensures
            !r.data_collected,
    {
        Missile { data_collected: false }
    }
}

impl Armour {
    /// Armour not yet examined.
    pub fn new() -> (r: Armour)
        ensures
            !r.data_collected,
            r.armour_type == ArmourType::Unknown,
            r.base_rating is None && r.encumbrance is None,
            !r.useless,
            r.rating == UNRATED,
    {
        Armour {
            data_collected: false,
            armour_type: ArmourType::Unknown,
            base_rating: None,
            encumbrance: None,
            useless: false,
            rating: UNRATED,
        }
    }

    /// The armour's worth: `UNRATED` when useless or without a base rating,
    /// else its base rating.
    pub fn rate_armour(&mut self) -> (r: i32)
        ensures
            r == if old(self).useless {
                UNRATED
            } else {
                match old(self).base_rating {
                    Some(b) => b,
                    None => UNRATED,
                }
            },
            *final(self) == *old(self),
    {
        if self.useless {
            return UNRATED;
        }
        match self.base_rating {
            Some(b) => b,
            None => UNRATED,
        }
    }
}

impl Wand {
    /// A wand not yet examined.
    pub fn new() -> (r: Wand)
        ensures
            !r.data_collected,
    {
        Wand { data_collected: false }
    }
}

impl Staff {
    /// A staff not yet examined.
    pub fn new() -> (r: Staff)
        ensures
            !r.data_collected,
    {
        Staff { data_collected: false }
    }
}

impl Jewellery {
    /// Jewellery not yet examined.
    pub fn new() -> (r: Jewellery)
        ensures
            !r.data_collected,
            r.jewellery_type == JewelleryType::Unknown,
            r.amulet_type == AmuletType::Unknown,
            r.ring_type == RingType::Unknown,
            r.rating == UNRATED,
    {
        Jewellery {
            data_collected: false,
            jewellery_type: JewelleryType::Unknown,
            amulet_type: AmuletType::Unknown,
            ring_type: RingType::Unknown,
            rating: UNRATED,
        }
    }

    /// The worth of the amulet, whose kind must be known.
    pub fn amulet_rating(&self) -> (r: i32)
        requires
            self.amulet_type != AmuletType::Unknown,
        ensures
            r == amulet_worth(self.amulet_type),
    {
        match self.amulet_type {
            AmuletType::Regen => 4,
            AmuletType::Spirit => 3,
            AmuletType::Reflect => 2,
            AmuletType::Acrobat => 1,
            AmuletType::RegenMP => 0,
            AmuletType::Faith => UNRATED,
            AmuletType::Unknown => 0,
        }
    }

    /// The worth of the ring, whose kind must be known.
    pub fn ring_rating(&self) -> (r: i32)
        requires
            self.ring_type != RingType::Unknown,
        ensures
            r == ring_worth(self.ring_type),
    {
        match self.ring_type {
            RingType::MPP9 => 1,
            RingType::PoisonResistance => 2,
            RingType::SlayP4 => 3,
            RingType::SeeInv => 4,
            RingType::IntP6 => 5,
            RingType::StrP6 => 6,
            RingType::ACP4 => 7,
            RingType::FireResistance => 8,
            RingType::Wiz => 9,
            RingType::DexP6 => 10,
            RingType::NegativeResistance => 11,
            RingType::EvasionP5 => 12,
            RingType::EvasionP4 => 13,
            RingType::Ice => 14,
            RingType::Fire => 15,
            RingType::ColdResistance => 16,
            RingType::Flight => 17,
            RingType::CorrosionResistance => 18,
            RingType::WillPower => 19,
            RingType::Unknown => 0,
        }
    }
}

/// The potion name a menu line gives: after "potion of " up to a newline or
/// "{", else after "potions of " up to ".", "{" or a newline.
pub open spec fn potion_name_in(name: Seq<char>) -> Option<Seq<char>> {
    let one = param_of(name, "potion of "@, seq!['\n', '{']);
    if one is Some {
        one
    } else {
        param_of(name, "potions of "@, seq!['.', '{', '\n'])
    }
}

/// The scroll name a menu line gives: after "scroll of " up to a newline or
/// "{", else after "scrolls of " up to "." or "{".
pub open spec fn scroll_name_in(name: Seq<char>) -> Option<Seq<char>> {
    let one = param_of(name, "scroll of "@, seq!['\n', '{']);
    if one is Some {
        one
    } else {
        param_of(name, "scrolls of "@, seq!['.', '{'])
    }
}

impl Potion {
    /// A potion not yet identified.
    pub fn new() -> (r: Potion)
        ensures
            !r.data_collected,
            !r.identified,
            r.potion_type == PotionType::Unknown,
    {
        Potion { data_collected: false, identified: false, potion_type: PotionType::Unknown }
    }

    /// Learns the potion's kind from its line in a menu, when the line names it.
    pub fn update_potion_values(&mut self, name: &str, _quantity: u64)
        requires
            potion_name_in(name@) matches Some(n) ==> potion_named(n) is Some,
        ensures
            match potion_name_in(name@) {
                Some(n) => final(self).identified && Some(final(self).potion_type) == potion_named(n)
                    && final(self).data_collected == old(self).data_collected,
                None => *final(self) == *old(self),
            },
    {
        let mut potion_type = extract_param(name, "potion of ", &vec!['\n', '{']);
        if potion_type.is_none() {
            potion_type = extract_param(name, "potions of ", &vec!['.', '{', '\n']);
        }
        if let Some(pt) = potion_type {
            self.identified = true;
            self.potion_type = type_of_potion(pt);
        }
    }
}

impl Scroll {
    /// A scroll not yet identified.
    pub fn new() -> (r: Scroll)
        ensures
            !r.data_collected,
            !r.identified,
            r.scroll_type == ScrollType::Unknown,
    {
        Scroll { data_collected: false, identified: false, scroll_type: ScrollType::Unknown }
    }

    /// Learns the scroll's kind from its line in a menu, when the line names it.
    pub fn update_scroll_values(&mut self, name: &str, _quantity: u64)
        requires
            scroll_name_in(name@) matches Some(n) ==> scroll_named(n) is Some,
        ensures
            match scroll_name_in(name@) {
                Some(n) => final(self).identified && Some(final(self).scroll_type) == scroll_named(n)
                    && final(self).data_collected == old(self).data_collected,
                None => *final(self) == *old(self),
            },
    {
        let mut scroll_type = extract_param(name, "scroll of ", &vec!['\n', '{']);
        if scroll_type.is_none() {
            scroll_type = extract_param(name, "scrolls of ", &vec!['.', '{']);
        }
        if let Some(st) = scroll_type {
            self.identified = true;
            self.scroll_type = type_of_scroll(st);
        }
    }
}

impl Item {
    /// Whether the slot is empty.
    pub fn is_none(&self) -> (r: bool)
        ensures
            r == (*self is Empty),
    {
        match self {
            Item::Empty => true,
            _ => false,
        }
    }

    /// Whether the item's description has been read; an empty slot has none.
    pub fn data_collected(&self) -> (r: bool)
        requires
            !(*self is Unknown4),
            !(*self is Unknown8),
        ensures
            r == match *self {
                Item::Weapon(i) => i.data_collected,
                Item::Missile(i) => i.data_collected,
                Item::Armour(i) => i.data_collected,
                Item::Wand(i) => i.data_collected,
                Item::Scroll(i) => i.data_collected,
                Item::Jewellery(i) => i.data_collected,
                Item::Potion(i) => i.data_collected,
                Item::Staff(i) => i.data_collected,
                _ => false,
            },
    {
        match self {
            Item::Weapon(i) => i.data_collected,
            Item::Missile(i) => i.data_collected,
            Item::Armour(i) => i.data_collected,
            Item::Wand(i) => i.data_collected,
            Item::Scroll(i) => i.data_collected,
            Item::Jewellery(i) => i.data_collected,
            Item::Potion(i) => i.data_collected,
            Item::Staff(i) => i.data_collected,
            _ => false,
        }
    }

    /// The worth of weapons, armour and jewellery; `UNRATED` for the rest.
    pub fn rating(&self) -> (r: i32)
        ensures
            r == match *self {
                Item::Weapon(i) => i.rating,
                Item::Armour(i) => i.rating,
                Item::Jewellery(i) => i.rating,
                _ => UNRATED,
            },
    {
        match self {
            Item::Weapon(i) => i.rating,
            Item::Armour(i) => i.rating,
            Item::Jewellery(i) => i.rating,
            _ => UNRATED,
        }
    }

    /// The slot of a piece of armour; `Unknown` for anything else.
    pub fn _armour_type(&self) -> (r: ArmourType)
        ensures
            r == match *self {
                Item::Armour(i) => i.armour_type,
                _ => ArmourType::Unknown,
            },
    {
        match self {
            Item::Armour(i) => i.armour_type,
            _ => ArmourType::Unknown,
        }
    }

    /// The kind of an amulet; `Unknown` for anything but jewellery.
    pub fn _amulet_type(&self) -> (r: AmuletType)
        ensures
            r == match *self {
                Item::Jewellery(i) => i.amulet_type,
                _ => AmuletType::Unknown,
            },
    {
        match self {
            Item::Jewellery(i) => i.amulet_type,
            _ => AmuletType::Unknown,
        }
    }

    /// The kind of a scroll; `Unknown` for anything else.
    pub fn _scroll_type(&self) -> (r: ScrollType)
        ensures
            r == match *self {
                Item::Scroll(i) => i.scroll_type,
                _ => ScrollType::Unknown,
            },
    {
        match self {
            Item::Scroll(i) => i.scroll_type,
            _ => ScrollType::Unknown,
        }
    }

    /// The kind of a potion; `Unknown` for anything else.
    pub fn potion_type(&self) -> (r: PotionType)
        ensures
            r == match *self {
                Item::Potion(i) => i.potion_type,
                _ => PotionType::Unknown,
            },
    {
        match self {
            Item::Potion(i) => i.potion_type,
            _ => PotionType::Unknown,
        }
    }

    /// The kind of a ring; `Unknown` for anything but jewellery.
    pub fn _ring_type(&self) -> (r: RingType)
        ensures
            r == match *self {
                Item::Jewellery(i) => i.ring_type,
                _ => RingType::Unknown,
            },
    {
        match self {
            Item::Jewellery(i) => i.ring_type,
            _ => RingType::Unknown,
        }
    }

    /// Whether a scroll or potion has been identified.
    pub fn is_identified(&self) -> (r: bool)
        requires
            *self is Scroll || *self is Potion,
        ensures
            r == match *self {
                Item::Scroll(i) => i.identified,
                Item::Potion(i) => i.identified,
                _ => false,
            },
    {
        match self {
            Item::Scroll(i) => i.identified,
            Item::Potion(i) => i.identified,
            _ => false,
        }
    }

    /// Marks a scroll or potion as identified.
    pub fn identified(&mut self)
        requires
            *old(self) is Scroll || *old(self) is Potion,
        ensures
            match *old(self) {
                Item::Scroll(i) => *final(self) == Item::Scroll(Scroll { identified: true, ..i }),
                Item::Potion(i) => *final(self) == Item::Potion(Potion { identified: true, ..i }),
                _ => false,
            },
    {
        match self {
            Item::Scroll(i) => {
                i.identified = true;
            },
            Item::Potion(i) => {
                i.identified = true;
            },
            _ => {},
        }
    }
}

}
