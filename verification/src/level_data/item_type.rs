//! Item archetypes of the game, stored in files as raw item ids.

use vstd::prelude::*;

verus! {

/// An item a world object can drop.
#[derive(Debug, Clone, Copy, PartialEq, Eq, Structural)]
pub enum ItemType {
    ///
    Shotgun,
    ///
    Knife,
    ///
    Apple,
    ///
    Cake,
    ///
    StrengthPotion,
    ///
    SpeedPotion,
    ///
    JumpPotion,
    ///
    Sword,
    ///
    HealthPotion,
    ///
    Sniper,
    ///
    Money50,
    ///
    Money100,
    ///
    Money500,
    ///
    Cheeseburger,
    ///
    GoldenAxe,
    ///
    UnboundWand,
    ///
    FireWand,
    ///
    IceWand,
    ///
    AirWand,
    ///
    LightningWand,
    ///
    GoldenShotgun,
    ///
    LaserRifle,
    ///
    RocketLauncher,
    ///
    FirePotion,
    ///
    Minigun,
    ///
    MegaPotion,
    ///
    UltraMegaPotion,
    ///
    Awp,
    ///
    Flamethrower,
    ///
    PoisionusStrengthPotion,
    ///
    PoisionusSpeedPotion,
    ///
    PoisionusJumpPotion,
    ///
    Beastchurger,
    ///
    UltraSword,
    ///
    HeavyHammer,
    ///
    FissionGun,
    ///
    KeyRed,
    ///
    KeyGreen,
    ///
    KeyBlue,
}

impl Default for ItemType {
    /// The default item is the shotgun.
    fn default() -> (r: Self)
        ensures
            r == ItemType::Shotgun,
    {
        ItemType::Shotgun
    }
}

/// The raw id an item is stored under: its position in the list plus one
/// (id 0 means "no item").
pub open spec fn spec_item_id(item: ItemType) -> u32 {
    match item {
        ItemType::Shotgun => 1,
        ItemType::Knife => 2,
        ItemType::Apple => 3,
        ItemType::Cake => 4,
        ItemType::StrengthPotion => 5,
        ItemType::SpeedPotion => 6,
        ItemType::JumpPotion => 7,
        ItemType::Sword => 8,
        ItemType::HealthPotion => 9,
        ItemType::Sniper => 10,
        ItemType::Money50 => 11,
        ItemType::Money100 => 12,
        ItemType::Money500 => 13,
        ItemType::Cheeseburger => 14,
        ItemType::GoldenAxe => 15,
        ItemType::UnboundWand => 16,
        ItemType::FireWand => 17,
        ItemType::IceWand => 18,
        ItemType::AirWand => 19,
        ItemType::LightningWand => 20,
        ItemType::GoldenShotgun => 21,
        ItemType::LaserRifle => 22,
        ItemType::RocketLauncher => 23,
        ItemType::FirePotion => 24,
        ItemType::Minigun => 25,
        ItemType::MegaPotion => 26,
        ItemType::UltraMegaPotion => 27,
        ItemType::Awp => 28,
        ItemType::Flamethrower => 29,
        ItemType::PoisionusStrengthPotion => 30,
        ItemType::PoisionusSpeedPotion => 31,
        ItemType::PoisionusJumpPotion => 32,
        ItemType::Beastchurger => 33,
        ItemType::UltraSword => 34,
        ItemType::HeavyHammer => 35,
        ItemType::FissionGun => 36,
        ItemType::KeyRed => 37,
        ItemType::KeyGreen => 38,
        ItemType::KeyBlue => 39,
    }
}

impl ItemType {
    /// The item a raw id denotes: 0 and out-of-range ids give `None`.
    pub fn from_item_id(id: u32) -> (r: Option<Self>)
        ensures
            match r {
                Some(item) => spec_item_id(item) == id,
                None => id == 0 || id > 39,
            },
    {
        match id {
            1 => Some(ItemType::Shotgun),
            2 => Some(ItemType::Knife),
            3 => Some(ItemType::Apple),
            4 => Some(ItemType::Cake),
            5 => Some(ItemType::StrengthPotion),
            6 => Some(ItemType::SpeedPotion),
            7 => Some(ItemType::JumpPotion),
            8 => Some(ItemType::Sword),
            9 => Some(ItemType::HealthPotion),
            10 => Some(ItemType::Sniper),
            11 => Some(ItemType::Money50),
            12 => Some(ItemType::Money100),
            13 => Some(ItemType::Money500),
            14 => Some(ItemType::Cheeseburger),
            15 => Some(ItemType::GoldenAxe),
            16 => Some(ItemType::UnboundWand),
            17 => Some(ItemType::FireWand),
            18 => Some(ItemType::IceWand),
            19 => Some(ItemType::AirWand),
            20 => Some(ItemType::LightningWand),
            21 => Some(ItemType::GoldenShotgun),
            22 => Some(ItemType::LaserRifle),
            23 => Some(ItemType::RocketLauncher),
            24 => Some(ItemType::FirePotion),
            25 => Some(ItemType::Minigun),
            26 => Some(ItemType::MegaPotion),
            27 => Some(ItemType::UltraMegaPotion),
            28 => Some(ItemType::Awp),
            29 => Some(ItemType::Flamethrower),
            30 => Some(ItemType::PoisionusStrengthPotion),
            31 => Some(ItemType::PoisionusSpeedPotion),
            32 => Some(ItemType::PoisionusJumpPotion),
            33 => Some(ItemType::Beastchurger),
            34 => Some(ItemType::UltraSword),
            35 => Some(ItemType::HeavyHammer),
            36 => Some(ItemType::FissionGun),
            37 => Some(ItemType::KeyRed),
            38 => Some(ItemType::KeyGreen),
            39 => Some(ItemType::KeyBlue),
            _ => None,
        }
    }

    /// The raw id this item is stored under.
    pub fn get_item_id(&self) -> (r: u32)
        ensures
            r == spec_item_id(*self),
    {
        match self {
            ItemType::Shotgun => 1,
            ItemType::Knife => 2,
            ItemType::Apple => 3,
            ItemType::Cake => 4,
            ItemType::StrengthPotion => 5,
            ItemType::SpeedPotion => 6,
            ItemType::JumpPotion => 7,
            ItemType::Sword => 8,
            ItemType::HealthPotion => 9,
            ItemType::Sniper => 10,
            ItemType::Money50 => 11,
            ItemType::Money100 => 12,
            ItemType::Money500 => 13,
            ItemType::Cheeseburger => 14,
            ItemType::GoldenAxe => 15,
            ItemType::UnboundWand => 16,
            ItemType::FireWand => 17,
            ItemType::IceWand => 18,
            ItemType::AirWand => 19,
            ItemType::LightningWand => 20,
            ItemType::GoldenShotgun => 21,
            ItemType::LaserRifle => 22,
            ItemType::RocketLauncher => 23,
            ItemType::FirePotion => 24,
            ItemType::Minigun => 25,
            ItemType::MegaPotion => 26,
            ItemType::UltraMegaPotion => 27,
            ItemType::Awp => 28,
            ItemType::Flamethrower => 29,
            ItemType::PoisionusStrengthPotion => 30,
            ItemType::PoisionusSpeedPotion => 31,
            ItemType::PoisionusJumpPotion => 32,
            ItemType::Beastchurger => 33,
            ItemType::UltraSword => 34,
            ItemType::HeavyHammer => 35,
            ItemType::FissionGun => 36,
            ItemType::KeyRed => 37,
            ItemType::KeyGreen => 38,
            ItemType::KeyBlue => 39,
        }
    }
}

/// Item ids round-trip: every item's id is nonzero, at most 39, and decodes
/// back to the item.
pub proof fn lemma_item_id_round_trip(item: ItemType)
    ensures
        1 <= spec_item_id(item) <= 39,
{
}

} // verus!
