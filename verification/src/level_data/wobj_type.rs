//! World-object ("wobj") types and their codec: the mapping between the
//! ~90-variant tagged union and the scalar triple the file stores
//! (`type id`, `custom int`, `custom float`), plus the auxiliary tables
//! (teleports, text lines, spawn and checkpoint positions).
//!
//! Quantities the engine treats as `f32` are held as raw bit patterns
//! (`u32`); where the engine folds several fields into one float by
//! arithmetic, the fields are held here in the exact form the file encodes
//! (tick counts, fixed-point sixteenths), so that encoding and decoding are
//! integer functions.

use vstd::prelude::*;

use crate::fbits;
use crate::lparse::{EntryData, Error, LParse};
use crate::text;
use super::cnms_types::{spec_text_line, spec_text_line_ok};
use super::{Point, VersionSpecs};
use super::item_type::{spec_item_id, ItemType};

verus! {

/// Size of a tunes trigger object.
#[derive(Debug, Clone, Copy, PartialEq, Eq, Structural)]
pub enum TunesTriggerSize {
    ///
    Small,
    ///
    Big,
    ///
    VeryBig,
}

/// The element a wand rune carries.
#[derive(Debug, Clone, Copy, PartialEq, Eq, Structural)]
pub enum RuneType {
    ///
    Fire,
    ///
    Ice,
    ///
    Air,
    ///
    Lightning,
}

/// A node of the talking-teddy boss path.
#[derive(Debug, Clone, Copy, PartialEq, Eq, Structural)]
pub enum TtNodeType {
    ///
    NormalTrigger,
    ///
    ChaseTrigger,
    /// A numbered waypoint.
    Waypoint(i32),
    /// A waypoint for the bozo boss.
    BozoWaypoint,
}

/// Direction and size of a push/conveyor zone.
#[derive(Debug, Clone, Copy, PartialEq, Eq, Structural)]
pub enum PushZoneType {
    ///
    Horizontal,
    ///
    Vertical,
    ///
    HorizontalSmall,
}

/// Color of a locked key block.
#[derive(Debug, Clone, Copy, PartialEq, Eq, Structural)]
pub enum KeyColor {
    ///
    Red,
    ///
    Green,
    ///
    Blue,
}

/// Kind of a rock-guy enemy.
#[derive(Debug, Clone, Copy, PartialEq, Eq, Structural)]
pub enum RockGuyType {
    ///
    Medium,
    ///
    Small1,
    ///
    Small2 {
        /// Whether it starts facing left.
        face_left: bool,
    },
}

/// What an upgrade trigger grants.
#[derive(Debug, Clone, Copy, PartialEq, Eq, Structural)]
pub enum UpgradeTriggerType {
    ///
    Wings,
    ///
    DeephausBoots,
    ///
    CrystalWings,
    ///
    Vortex,
    /// A max-power rune, optionally overriding the player skin.
    MaxPowerRune {
        /// The skin/power id forced on the player, if any.
        skin_power_override: Option<u8>,
    },
    /// Grants nothing.
    NoUpgrade,
}

/// A teleport table row.
#[derive(Debug, Clone)]
pub struct Teleport {
    /// The teleport's name (at most 40 bytes survive a save).
    pub name: String,
    /// The cost charged for taking it.
    pub cost: i32,
    /// Where it leads (two `f32` bit patterns).
    pub loc: Point,
}

/// Whether two teleports hold the same data.
pub open spec fn spec_teleport_eq(a: Teleport, b: Teleport) -> bool {
    a.name@ == b.name@ && a.cost == b.cost && a.loc == b.loc
}

/// Whether two teleports hold the same data.
pub fn teleport_eq(a: &Teleport, b: &Teleport) -> (r: bool)
    ensures
        r == spec_teleport_eq(*a, *b),
{
    crate::lparse::str_eq_string(a.name.as_str(), &b.name) && a.cost == b.cost && a.loc.0
        == b.loc.0 && a.loc.1 == b.loc.1
}

/// Shape of a background switcher region.
#[derive(Debug, Clone, Copy, PartialEq, Eq, Structural)]
pub enum BackgroundSwitcherShape {
    ///
    Small,
    ///
    Horizontal,
    ///
    Vertical,
}

/// Movement style of a customizable moving platform.
#[derive(Debug, Clone, Copy, PartialEq, Eq, Structural)]
pub enum CustomizableMovingPlatformType {
    /// Moves back and forth.
    Normal,
    /// Moves only forward.
    OneWay,
    /// Despawns at the end of its path.
    Despawn,
}

impl CustomizableMovingPlatformType {
    /// The fractional offset this style adds to the platform's float slot,
    /// in quarters: 0 for `Normal`, 1 for `Despawn` (0.25), 2 for `OneWay`
    /// (0.5).
    pub fn to_quarter_id(&self) -> (r: u32)
        ensures
            r == spec_platform_type_quarters(*self),
    {
        match self {
            Self::Normal => 0,
            Self::OneWay => 2,
            Self::Despawn => 1,
        }
    }

    /// The style a fractional band denotes (the band classifies the
    /// fraction against the thresholds 0.1, 0.3 and 0.6).
    pub fn from_fract_band(band: u32) -> (r: Self)
        ensures
            r == spec_platform_type_from_band(band),
    {
        if band == 1 {
            Self::Despawn
        } else if band == 2 {
            Self::OneWay
        } else {
            Self::Normal
        }
    }
}

/// The quarter offset a platform style encodes as.
pub open spec fn spec_platform_type_quarters(t: CustomizableMovingPlatformType) -> u32 {
    match t {
        CustomizableMovingPlatformType::Normal => 0,
        CustomizableMovingPlatformType::OneWay => 2,
        CustomizableMovingPlatformType::Despawn => 1,
    }
}

/// The platform style a fractional band decodes to.
pub open spec fn spec_platform_type_from_band(band: u32) -> CustomizableMovingPlatformType {
    if band == 1 {
        CustomizableMovingPlatformType::Despawn
    } else if band == 2 {
        CustomizableMovingPlatformType::OneWay
    } else {
        CustomizableMovingPlatformType::Normal
    }
}

/// A world-object archetype. Fields the file stores as `f32` are raw bit
/// patterns (`u32`); fields the engine derives by float arithmetic are held
/// in the file's own units (ticks, fixed-point sixteenths of a pixel).
#[derive(Debug, Clone)]
pub enum WobjType {
    /// A teleport the player can take (a row of the teleport table).
    Teleport(Teleport),
    /// A slime enemy.
    Slime {
        /// Whether it flies.
        flying: bool,
    },
    /// Plays a music track when touched.
    TunesTrigger {
        ///
        size: TunesTriggerSize,
        ///
        music_id: u32,
    },
    /// Marks a player spawn position.
    PlayerSpawn,
    /// Shows text lines from the text table.
    TextSpawner {
        /// Whether the text appears in a dialogue box.
        dialoge_box: bool,
        /// Whether the spawner despawns after showing its text.
        despawn: bool,
        /// The text, one line per `\n`-terminated line.
        text: String,
    },
    /// A platform moving back and forth.
    MovingPlatform {
        ///
        vertical: bool,
        /// Ticks of travel in one direction (the file's custom int).
        travel_frames: i32,
        /// Speed in pixels per tick (`f32` bits).
        speed: u32,
    },
    /// A wall that breaks when hit.
    BreakableWall {
        /// The skin drawn, or `None` for the plain wall.
        skin_id: Option<u8>,
        /// Hit points (`f32` bits).
        health: u32,
    },
    /// Switches which background layers draw.
    BackgroundSwitcher {
        ///
        shape: BackgroundSwitcherShape,
        /// First enabled layer (inclusive).
        enabled_layers_start: u32,
        /// End of the enabled layer range (exclusive).
        enabled_layers_end: u32,
    },
    /// An item lying in the world.
    DroppedItem {
        ///
        item: ItemType,
    },
    /// A rune that upgrades the player's wand.
    WandRune {
        ///
        rune_type: RuneType,
    },
    /// A heavy enemy.
    Heavy {
        /// Speed magnitude (`f32` bits, sign bit clear).
        speed: u32,
        ///
        face_left: bool,
    },
    /// A dragon boss.
    Dragon {
        ///
        space_skin: bool,
    },
    /// The bozo boss's pin minion.
    BozoPin {
        /// Flying speed (`f32` bits).
        flying_speed: u32,
    },
    /// The bozo boss.
    Bozo {
        ///
        mark_ii: bool,
    },
    /// A silver slime enemy.
    SilverSlime,
    /// A lava monster enemy.
    LavaMonster {
        ///
        face_left: bool,
    },
    /// A minion of the talking-teddy boss.
    TtMinion {
        ///
        small: bool,
    },
    /// A slime-walker enemy.
    SlimeWalker,
    /// A mega fish enemy.
    MegaFish {
        ///
        water_level: i32,
        /// Swimming speed (`f32` bits).
        swimming_speed: u32,
    },
    /// The lava dragon boss's head.
    LavaDragonHead {
        /// Body segments (at most 32).
        len: u32,
        /// Hit points (`f32` bits).
        health: u32,
    },
    /// A node of the talking-teddy boss path.
    TtNode {
        ///
        node_type: TtNodeType,
    },
    /// The talking-teddy boss.
    TtBoss {
        /// Speed (`f32` bits).
        speed: u32,
    },
    /// An eater bug enemy.
    EaterBug {
        /// Pop-up speed (`f32` bits).
        pop_up_speed: u32,
    },
    /// A spider walker enemy.
    SpiderWalker {
        /// Speed (`f32` bits).
        speed: u32,
    },
    /// A spike trap.
    SpikeTrap,
    /// One piece of a rotating fire column.
    RotatingFireColunmPiece {
        /// The x coordinate of the column's origin.
        origin_x: i32,
        /// Rotation per tick (`f32` bits; the engine shows it per second).
        degrees_per_frame: u32,
    },
    /// A moving fire hazard.
    MovingFire {
        ///
        vertical: bool,
        ///
        dist: i32,
        /// Speed magnitude (`f32` bits, sign bit clear).
        speed: u32,
        ///
        despawn: bool,
    },
    /// The super dragon boss.
    SuperDragon {
        /// At most 16 waypoints.
        waypoint_id: u8,
    },
    /// Where the super dragon lands.
    SuperDragonLandingZone {
        /// At most 16 waypoints.
        waypoint_id: u8,
    },
    /// The bozo boss's laser minion.
    BozoLaserMinion {
        /// Speed (`f32` bits).
        speed: u32,
    },
    /// A checkpoint (a row of the checkpoint table).
    Checkpoint {
        ///
        checkpoint_num: u8,
    },
    /// A spike guy enemy.
    SpikeGuy,
    /// A bandit guy enemy.
    BanditGuy {
        /// Speed (`f32` bits).
        speed: u32,
    },
    /// A zone that pushes the player.
    PushZone {
        ///
        push_zone_type: PushZoneType,
        /// Push speed (`f32` bits).
        push_speed: u32,
    },
    /// A zone that accelerates the player upward or downward.
    VerticalWindZone {
        /// Acceleration (`f32` bits).
        acceleration: u32,
    },
    /// A platform that blinks on and off.
    DisapearingPlatform {
        /// Ticks shown (magnitude of the file's custom int).
        time_on_frames: u32,
        /// Ticks hidden (`f32` bits, in ticks).
        time_off_frames: u32,
        ///
        starts_on: bool,
    },
    /// A kamikaze slime enemy.
    KamakaziSlime,
    /// A springboard.
    SpringBoard {
        /// Jump velocity (`f32` bits).
        jump_velocity: u32,
    },
    /// A jump-through platform.
    Jumpthrough {
        ///
        big: bool,
    },
    /// A platform that falls shortly after being stood on.
    BreakablePlatform {
        /// Ticks until it falls (the file's custom int).
        time_till_fall_frames: i32,
    },
    /// A block that a key unlocks.
    LockedBlock {
        ///
        color: KeyColor,
        /// Whether unlocking consumes the key.
        consume_key: bool,
    },
    /// A rock guy enemy.
    RockGuy {
        ///
        rock_guy_type: RockGuyType,
    },
    /// The sliding rock guy enemy.
    RockGuySlider,
    /// The smashing rock guy enemy.
    RockGuySmasher,
    /// Sets the player's health when touched.
    HealthSetTrigger {
        /// The health to set (`f32` bits).
        target_health: u32,
    },
    /// A vortex that pulls things in.
    Vortex {
        ///
        attract_enemies: bool,
    },
    /// The customizable moving platform: the most densely packed encoding.
    /// Its velocity is fixed-point, in sixteenths of a pixel per tick, each
    /// axis packed as a signed 4-bit integer part and a 4-bit fraction.
    CustomizeableMoveablePlatform {
        /// The x of the 32-pixel bitmap tile drawn (4 bits).
        bitmap_x32: u32,
        /// The y of the 32-pixel bitmap tile drawn (12 bits).
        bitmap_y32: u32,
        /// Velocity along x in sixteenths of a pixel per tick
        /// (-143 ..= 127).
        vel_x_sixteenths: i32,
        /// Velocity along y in sixteenths of a pixel per tick
        /// (-143 ..= 127).
        vel_y_sixteenths: i32,
        /// Ticks of travel in one direction (at least 1).
        frames: u32,
        ///
        start_paused: bool,
        ///
        ty: CustomizableMovingPlatformType,
    },
    /// Switches the graphics file (a row of the text table).
    GraphicsChangeTrigger {
        ///
        gfx_file: String,
    },
    /// Names the boss whose health bar shows (a row of the text table).
    BossBarInfo {
        ///
        boss_name: String,
    },
    /// Sets a background layer's scroll speed.
    BgSpeed {
        ///
        vertical_axis: bool,
        ///
        layer: u32,
        /// Speed (`f32` bits).
        speed: u32,
    },
    /// Sets a background layer's transparency.
    BgTransparency {
        ///
        layer: u32,
        ///
        transparency: u8,
    },
    /// Teleports the player after a delay.
    TeleportTrigger1 {
        ///
        link_id: u32,
        /// Delay in seconds (`f32` bits).
        delay_secs: u32,
    },
    /// A teleport area (a row of the teleport table).
    TeleportArea1 {
        ///
        link_id: u32,
        /// Where it leads (two `f32` bit patterns).
        loc: Point,
    },
    /// Plays a sound when approached.
    SfxPoint {
        ///
        sound_id: u32,
    },
    /// A wolf enemy.
    Wolf,
    /// The supervirus boss.
    Supervirus,
    /// An object driven by Lua scripting.
    Lua {
        /// Which of the 16 Lua object slots (0 ..= 15).
        lua_wobj_type: u8,
    },
    /// Grants an upgrade.
    UpgradeTrigger {
        ///
        trigger_type: UpgradeTriggerType,
    },
    /// Ends the level (rows of the text table name the next levels).
    FinishTrigger {
        ///
        next_level: String,
        ///
        extra_unlocked_level: Option<String>,
        ///
        is_secret: bool,
    },
    /// Sets gravity when touched.
    GravityTrigger {
        /// Gravity (`f32` bits).
        gravity: u32,
    },
    /// Unlocks a player skin.
    SkinUnlock {
        ///
        id: u8,
    },
    /// A platform on a three-phase timer.
    CoolPlatform {
        ///
        time_off_before: u8,
        ///
        time_on: u8,
        ///
        time_off_after: u8,
    },
    /// A teleport area with activation control (a row of the teleport
    /// table).
    TeleportArea2 {
        /// Where it leads (two `f32` bit patterns).
        loc: Point,
        ///
        start_activated: bool,
        ///
        teleport_players: bool,
        ///
        link_id: u32,
    },
}

impl Default for WobjType {
    /// The default world object is a grounded slime.
    fn default() -> (r: Self)
        ensures
            r == (WobjType::Slime { flying: false }),
    {
        WobjType::Slime { flying: false }
    }
}

} // verus!

verus! {

// ---------------------------------------------------------------------------
// The teleport table.
// ---------------------------------------------------------------------------

/// Whether teleport `idx` can be read from the container: the `TI_NAME`,
/// `TI_COST` and `TI_POS` entries are present with the right types, the row
/// lies inside them, and the name (trailing zeros dropped) is valid UTF-8.
pub open spec fn spec_teleport_ok(em: Map<Seq<char>, EntryData>, idx: int) -> bool {
    &&& 0 <= idx
    &&& em.contains_key("TI_NAME"@)
    &&& em["TI_NAME"@] matches EntryData::U8(nv) && nv@.len() >= (idx + 1) * 41
        && vstd::utf8::valid_utf8(text::spec_trim_zeros(nv@.subrange(idx * 41, (idx + 1) * 41)))
    &&& em.contains_key("TI_POS"@)
    &&& em["TI_POS"@] matches EntryData::F32(pv) && pv@.len() >= idx * 2 + 2
    &&& em.contains_key("TI_COST"@)
    &&& em["TI_COST"@] matches EntryData::I32(cv) && cv@.len() > idx
}

/// The name of teleport `idx`.
pub open spec fn spec_teleport_name(em: Map<Seq<char>, EntryData>, idx: int) -> Seq<char> {
    vstd::utf8::decode_utf8(
        text::spec_trim_zeros(em["TI_NAME"@]->U8_0@.subrange(idx * 41, (idx + 1) * 41)),
    )
}

/// The cost of teleport `idx`.
pub open spec fn spec_teleport_cost(em: Map<Seq<char>, EntryData>, idx: int) -> i32 {
    em["TI_COST"@]->I32_0@[idx]
}

/// The target of teleport `idx`.
pub open spec fn spec_teleport_loc(em: Map<Seq<char>, EntryData>, idx: int) -> Point {
    Point(em["TI_POS"@]->F32_0@[2 * idx], em["TI_POS"@]->F32_0@[2 * idx + 1])
}

/// Whether `t` is teleport `idx` of the container.
pub open spec fn spec_teleport_decoded(t: Teleport, em: Map<Seq<char>, EntryData>, idx: int) -> bool {
    &&& spec_teleport_ok(em, idx)
    &&& t.name@ == spec_teleport_name(em, idx)
    &&& t.cost == spec_teleport_cost(em, idx)
    &&& t.loc == spec_teleport_loc(em, idx)
}

impl Teleport {
    /// Reads row `index` of the teleport table.
    pub fn from_lparse(cnms: &LParse, version: &VersionSpecs, index: usize) -> (r: Result<
        Self,
        Error,
    >)
        ensures
            r is Ok <==> spec_teleport_ok(cnms.entries_map(), index as int),
            r matches Ok(t) ==> spec_teleport_decoded(t, cnms.entries_map(), index as int),
    {
        let name_size = version.get_teleport_name_size();
        let names = match cnms.try_get_entry("TI_NAME") {
            Ok(d) => d,
            Err(e) => {
                return Err(e);
            },
        };
        let names = match names.try_get_u8() {
            Ok(v) => v,
            Err(e) => {
                return Err(e);
            },
        };
        if names.len() / name_size <= index {
            return Err(Error::Corrupted("a teleport lies outside the teleport table".to_owned()));
        }
        let start = index * name_size;
        let end = start + name_size;
        proof {
            assert(end <= names@.len()) by (nonlinear_arith)
                requires
                    start == index * 41,
                    end == start + 41,
                    index < names@.len() as int / 41,
            ;
        }
        let mut raw: Vec<u8> = Vec::new();
        let mut i: usize = start;
        while i < end
            invariant
                start <= i <= end,
                end <= names@.len(),
                raw@ == names@.subrange(start as int, i as int),
            decreases end - i,
        {
            raw.push(names[i]);
            i = i + 1;
            proof {
                assert(raw@ =~= names@.subrange(start as int, i as int));
            }
        }
        let trimmed = text::trim_zero_bytes(raw);
        let name = match text::string_from_utf8(trimmed) {
            Some(s) => s,
            None => {
                return Err(
                    Error::Corrupted("a teleport name is not valid UTF-8".to_owned()),
                );
            },
        };
        let positions = match cnms.try_get_entry("TI_POS") {
            Ok(d) => d,
            Err(e) => {
                return Err(e);
            },
        };
        let positions = match positions.try_get_f32() {
            Ok(v) => v,
            Err(e) => {
                return Err(e);
            },
        };
        if positions.len() / 2 <= index {
            return Err(
                Error::Corrupted("a teleport target lies outside the teleport table".to_owned()),
            );
        }
        proof {
            assert(2 * (index as int) + 2 <= positions@.len()) by (nonlinear_arith)
                requires
                    (index as int) < positions@.len() as int / 2,
            ;
        }
        let loc = Point(positions[2 * index], positions[2 * index + 1]);
        let costs = match cnms.try_get_entry("TI_COST") {
            Ok(d) => d,
            Err(e) => {
                return Err(e);
            },
        };
        let costs = match costs.try_get_i32() {
            Ok(v) => v,
            Err(e) => {
                return Err(e);
            },
        };
        if costs.len() <= index {
            return Err(
                Error::Corrupted("a teleport cost lies outside the teleport table".to_owned()),
            );
        }
        let cost = costs[index];
        Ok(Teleport { name, cost, loc })
    }
}

// ---------------------------------------------------------------------------
// Decoding of the scalar triple.
// ---------------------------------------------------------------------------

/// The number of whole 32-byte text lines the container holds.
pub open spec fn spec_text_avail(em: Map<Seq<char>, EntryData>) -> int {
    if em.contains_key("ENDINGTEXT"@) && em["ENDINGTEXT"@] is U8 {
        em["ENDINGTEXT"@]->U8_0@.len() as int / 32
    } else {
        0
    }
}

/// Text line `i`, or empty when it cannot be read.
pub open spec fn spec_text_line_or_empty(em: Map<Seq<char>, EntryData>, i: int) -> Seq<char> {
    if spec_text_line_ok(em, i) {
        spec_text_line(em, i)
    } else {
        Seq::empty()
    }
}

/// The text a text spawner reads: the lines `start .. upto` (each followed
/// by a newline).
pub open spec fn spec_text_take(em: Map<Seq<char>, EntryData>, start: int, upto: int) -> Seq<char>
    decreases upto - start,
{
    if upto <= start {
        Seq::empty()
    } else {
        spec_text_take(em, start, upto - 1) + spec_text_line_or_empty(em, upto - 1) + seq!['\n']
    }
}

/// Where a text spawner's reading stops: after line `end`, but no further
/// than the lines the container holds.
pub open spec fn spec_text_upto(em: Map<Seq<char>, EntryData>, start: int, end: int) -> int {
    let a = spec_text_avail(em);
    if end + 1 <= a {
        end + 1
    } else if a < start {
        start
    } else {
        a
    }
}

/// The velocity in sixteenths that a packed velocity byte holds: a signed
/// integer part (bias 8) in the high nibble, a fraction in sixteenths in the
/// low nibble, the fraction pointing away from zero.
pub open spec fn spec_vel_sixteenths(masked: u32) -> i32 {
    let f = (masked & 0xf) as int;
    let i = ((masked >> 4u32) & 0xf) as int - 8;
    if i < 0 {
        (16 * i - f) as i32
    } else {
        (16 * i + f) as i32
    }
}

/// Whether a type id is one the decoder knows.
pub open spec fn spec_known_wobj_id(id: i32) -> bool {
    ||| id == 1 || id == 2 || id == 4 || id == 6 || id == 7 || id == 8 || id == 9 || id == 10
        || id == 11 || id == 12 || id == 14 || id == 15 || id == 16
    ||| id == 19 || id == 20 || id == 21 || id == 22 || id == 23 || id == 32 || id == 33 || id
        == 34 || id == 35 || id == 36 || id == 38 || id == 40 || id == 41 || id == 42 || id == 43
        || id == 44 || id == 45 || id == 46 || id == 47 || id == 48
    ||| id == 51 || id == 52 || id == 53 || id == 54 || id == 55 || id == 57 || id == 59 || id
        == 60 || id == 61 || id == 62 || id == 63 || id == 64 || id == 69
    ||| id == 72 || id == 73 || id == 74 || id == 76 || id == 77 || id == 78 || id == 79 || id
        == 80 || id == 82 || id == 83 || id == 84 || id == 86 || id == 87 || id == 88 || id == 89
        || id == 90 || id == 91 || id == 92 || id == 93 || id == 94 || id == 95 || id == 96 || id
        == 97 || id == 98 || id == 99 || id == 100 || id == 101
    ||| id == 104 || id == 105 || id == 106 || id == 107 || id == 108 || id == 109 || id == 114
        || id == 115 || id == 116 || id == 117 || id == 118 || id == 119 || id == 120 || id == 121
        || id == 122 || id == 123 || (124 <= id <= 139) || id == 140 || id == 141 || id == 143
        || id == 146 || id == 148 || id == 149 || id == 150
}

/// Whether decoding the scalar triple succeeds.
pub open spec fn spec_wobj_decode_ok(
    em: Map<Seq<char>, EntryData>,
    id: i32,
    ci: i32,
    cf: u32,
    lenient: bool,
) -> bool {
    if id == 1 || id == 120 {
        spec_teleport_ok(em, (ci as usize) as int)
    } else if id == 150 {
        spec_teleport_ok(em, (ci & 0xffff) as int)
    } else if id == 16 {
        lenient || (1 <= ci as u32 <= 39)
    } else if id == 48 {
        lenient || ci <= 32
    } else if id == 109 || id == 115 {
        spec_text_line_ok(em, (ci as usize) as int)
    } else if spec_known_wobj_id(id) {
        true
    } else {
        lenient
    }
}

/// Whether `w` is the world object that the scalar triple and the
/// container's tables decode to.
pub open spec fn spec_wobj_decoded(
    w: WobjType,
    em: Map<Seq<char>, EntryData>,
    id: i32,
    ci: i32,
    cf: u32,
    lenient: bool,
) -> bool {
    match w {
        WobjType::Teleport(t) => id == 1 && spec_teleport_decoded(t, em, (ci as usize) as int),
        WobjType::TeleportArea1 { link_id, loc } => id == 120 && spec_teleport_ok(
            em,
            (ci as usize) as int,
        ) && loc == spec_teleport_loc(em, (ci as usize) as int) && link_id == fbits::spec_to_u32(
            cf,
        ),
        WobjType::TunesTrigger { size, music_id } => music_id == ci as u32 && ((id == 6 && size
            == TunesTriggerSize::Small) || (id == 7 && size == TunesTriggerSize::Big) || (id == 89
            && size == TunesTriggerSize::VeryBig)),
        WobjType::PlayerSpawn => id == 8,
        WobjType::TextSpawner { dialoge_box, despawn, text } => {
            let start = (ci & 0x00ff_ffff) as usize as int;
            let endv = fbits::spec_to_u32(cf) as usize as int;
            &&& (id == 9 || id == 108)
            &&& dialoge_box == (id == 108)
            &&& despawn == (ci & (0xff00_0000u32 as i32) != 0)
            &&& text@ == spec_text_take(em, start, spec_text_upto(em, start, endv))
        },
        WobjType::BackgroundSwitcher { shape, enabled_layers_start, enabled_layers_end } => {
            &&& ((id == 12 && shape == BackgroundSwitcherShape::Small) || (id == 87 && shape
                == BackgroundSwitcherShape::Horizontal) || (id == 88 && shape
                == BackgroundSwitcherShape::Vertical))
            &&& enabled_layers_start == ci as u32
            &&& enabled_layers_end == fbits::spec_to_u32(cf)
        },
        WobjType::DroppedItem { item } => (id == 16 && (spec_item_id(item) == ci as u32 || (
        lenient && item == ItemType::Apple && (ci as u32 == 0 || ci as u32 > 39)))) || (id == 14
            && item == ItemType::Knife) || (id == 15 && item == ItemType::Apple) || (id == 4
            && item == ItemType::Shotgun),
        WobjType::WandRune { rune_type } => (id == 19 && rune_type == RuneType::Ice) || (id == 20
            && rune_type == RuneType::Air) || ((id == 21 || id == 23) && rune_type
            == RuneType::Fire) || (id == 22 && rune_type == RuneType::Lightning),
        WobjType::Heavy { speed, face_left } => id == 36 && speed == fbits::spec_abs(cf)
            && face_left == fbits::spec_lt_zero(cf),
        WobjType::Dragon { space_skin } => id == 38 && space_skin == (ci != 0),
        WobjType::BozoPin { flying_speed } => id == 40 && flying_speed == cf,
        WobjType::Bozo { mark_ii } => (id == 41 && !mark_ii) || (id == 72 && mark_ii),
        WobjType::SilverSlime => id == 42,
        WobjType::LavaMonster { face_left } => id == 43 && face_left == (ci != 0),
        WobjType::TtMinion { small } => (id == 44 && small) || (id == 45 && !small),
        WobjType::SlimeWalker => id == 46,
        WobjType::MegaFish { water_level, swimming_speed } => id == 47 && water_level == ci
            && swimming_speed == cf,
        WobjType::LavaDragonHead { len, health } => id == 48 && (ci <= 32 || lenient) && len
            == ci as u32 && health == cf,
        WobjType::TtNode { node_type } => match node_type {
            TtNodeType::ChaseTrigger => id == 51,
            TtNodeType::NormalTrigger => id == 52,
            TtNodeType::Waypoint(wp) => id == 53 && wp == ci,
            TtNodeType::BozoWaypoint => id == 146,
        },
        WobjType::TtBoss { speed } => id == 54 && speed == cf,
        WobjType::EaterBug { pop_up_speed } => id == 55 && pop_up_speed == cf,
        WobjType::SpiderWalker { speed } => id == 57 && speed == cf,
        WobjType::SpikeTrap => id == 59,
        WobjType::RotatingFireColunmPiece { origin_x, degrees_per_frame } => id == 60 && origin_x
            == ci && degrees_per_frame == cf,
        WobjType::MovingFire { vertical, dist, speed, despawn } => (id == 61 || id == 62)
            && vertical == (id == 61) && dist == ci && speed == fbits::spec_abs(cf) && despawn
            == fbits::spec_lt_zero(cf),
        WobjType::SuperDragon { waypoint_id } => id == 63 && waypoint_id == ci as u8,
        WobjType::SuperDragonLandingZone { waypoint_id } => id == 64 && waypoint_id == ci as u8,
        WobjType::BozoLaserMinion { speed } => id == 69 && speed == cf,
        WobjType::Checkpoint { checkpoint_num } => id == 73 && checkpoint_num as int == spec_clamp_int(
            ci as int - 256,
            0,
            255,
        ),
        WobjType::SpikeGuy => id == 74,
        WobjType::BanditGuy { speed } => id == 76 && speed == cf,
        WobjType::PushZone { push_zone_type, push_speed } => {
            &&& ((id == 77 && push_zone_type == PushZoneType::Horizontal) || (id == 78
                && push_zone_type == PushZoneType::Vertical) || (id == 80 && push_zone_type
                == PushZoneType::HorizontalSmall))
            &&& push_speed == cf
        },
        WobjType::VerticalWindZone { acceleration } => id == 79 && acceleration == cf,
        WobjType::DisapearingPlatform { time_on_frames, time_off_frames, starts_on } => {
            &&& id == 83
            &&& time_on_frames as int == (if ci >= 0 {
                ci as int
            } else {
                0 - ci as int
            })
            &&& time_off_frames == cf
            &&& starts_on == (ci >= 0)
        },
        WobjType::KamakaziSlime => id == 84,
        WobjType::SpringBoard { jump_velocity } => id == 86 && jump_velocity == cf,
        WobjType::Jumpthrough { big } => (id == 90 && !big) || (id == 91 && big),
        WobjType::BreakablePlatform { time_till_fall_frames } => id == 92 && time_till_fall_frames
            == ci,
        WobjType::LockedBlock { color, consume_key } => {
            &&& ((id == 94 && color == KeyColor::Red) || (id == 95 && color == KeyColor::Green)
                || (id == 96 && color == KeyColor::Blue))
            &&& consume_key == (ci != 0)
        },
        WobjType::RockGuy { rock_guy_type } => match rock_guy_type {
            RockGuyType::Medium => id == 97,
            RockGuyType::Small1 => id == 98,
            RockGuyType::Small2 { face_left } => id == 99 && face_left == (ci != 0),
        },
        WobjType::RockGuySlider => id == 100,
        WobjType::RockGuySmasher => id == 101,
        WobjType::HealthSetTrigger { target_health } => id == 104 && target_health == cf,
        WobjType::Vortex { attract_enemies } => id == 105 && attract_enemies == (ci != 0),
        WobjType::CustomizeableMoveablePlatform {
            bitmap_x32,
            bitmap_y32,
            vel_x_sixteenths,
            vel_y_sixteenths,
            frames,
            start_paused,
            ty,
        } => {
            &&& id == 107
            &&& bitmap_x32 == (ci & 0xf) as u32
            &&& bitmap_y32 == ((ci >> 4u32) & 0xfff) as u32
            &&& vel_x_sixteenths == spec_vel_sixteenths(((ci as u32) >> 16u32) & 0xff)
            &&& vel_y_sixteenths == spec_vel_sixteenths(((ci as u32) >> 24u32) & 0xff)
            &&& frames == fbits::spec_floor_abs(cf)
            &&& start_paused == fbits::spec_lt_zero(cf)
            &&& ty == spec_platform_type_from_band(fbits::spec_fract_band(cf))
        },
        WobjType::GraphicsChangeTrigger { gfx_file } => id == 109 && spec_text_line_ok(
            em,
            (ci as usize) as int,
        ) && gfx_file@ == spec_text_line(em, (ci as usize) as int),
        WobjType::BossBarInfo { boss_name } => id == 115 && spec_text_line_ok(
            em,
            (ci as usize) as int,
        ) && boss_name@ == spec_text_line(em, (ci as usize) as int),
        WobjType::BgSpeed { vertical_axis, layer, speed } => (id == 116 || id == 117)
            && vertical_axis == (id == 117) && layer == ci as u32 && speed == cf,
        WobjType::BgTransparency { layer, transparency } => id == 118 && layer == ci as u32
            && transparency == fbits::spec_to_u8(cf),
        WobjType::TeleportTrigger1 { link_id, delay_secs } => id == 119 && link_id == ci as u32
            && delay_secs == cf,
        WobjType::SfxPoint { sound_id } => id == 121 && sound_id == ci as u32,
        WobjType::Wolf => id == 122,
        WobjType::Supervirus => id == 123,
        WobjType::Lua { lua_wobj_type } => 124 <= id <= 139 && lua_wobj_type == (id - 124) as u8,
        WobjType::UpgradeTrigger { trigger_type } => match trigger_type {
            UpgradeTriggerType::MaxPowerRune { skin_power_override } => id == 114 && (if ci != 0 {
                skin_power_override == Some(
                    if ci as u8 == 0 {
                        255u8
                    } else {
                        (ci as u8 - 1) as u8
                    },
                )
            } else {
                skin_power_override is None
            }),
            UpgradeTriggerType::DeephausBoots => id == 32,
            UpgradeTriggerType::Wings => id == 33,
            UpgradeTriggerType::CrystalWings => id == 34,
            UpgradeTriggerType::Vortex => id == 106,
            UpgradeTriggerType::NoUpgrade => id == 140,
        },
        WobjType::Slime { flying } => (id == 2 && !flying) || (id == 35 && flying) || (lenient
            && !spec_known_wobj_id(id) && !flying),
        WobjType::MovingPlatform { vertical, travel_frames, speed } => ((id == 10 && !vertical)
            || (id == 82 && vertical)) && travel_frames == ci && speed == cf,
        WobjType::BreakableWall { skin_id, health } => ((id == 11 && skin_id is None) || (id == 93
            && skin_id == Some(ci as u8))) && health == cf,
        WobjType::FinishTrigger { next_level, extra_unlocked_level, is_secret } => {
            &&& id == 141
            &&& next_level@ == spec_text_line_or_empty(em, (ci & 0xff) as int)
            &&& (if fbits::spec_to_i32(cf) > 0 {
                extra_unlocked_level matches Some(s) && s@ == spec_text_line_or_empty(
                    em,
                    fbits::spec_to_u32(cf) - 1,
                )
            } else {
                extra_unlocked_level is None
            })
            &&& is_secret == (ci & 0xf00 != 0)
        },
        WobjType::GravityTrigger { gravity } => id == 143 && gravity == cf,
        WobjType::SkinUnlock { id: skin } => id == 148 && skin == ci as u8,
        WobjType::CoolPlatform { time_off_before, time_on, time_off_after } => {
            &&& id == 149
            &&& time_off_before == ((ci >> 16u32) & 0xff) as u8
            &&& time_on == ((ci >> 8u32) & 0xff) as u8
            &&& time_off_after == (ci & 0xff) as u8
        },
        WobjType::TeleportArea2 { loc, start_activated, teleport_players, link_id } => {
            &&& id == 150
            &&& spec_teleport_ok(em, (ci & 0xffff) as int)
            &&& loc == spec_teleport_loc(em, (ci & 0xffff) as int)
            &&& start_activated == (ci & 0x10000 != 0)
            &&& teleport_players == (ci & 0x20000 == 0)
            &&& link_id == fbits::spec_to_u32(cf)
        },
    }
}

/// `v` clamped into `[lo, hi]`, over mathematical integers.
pub open spec fn spec_clamp_int(v: int, lo: int, hi: int) -> int {
    if v < lo {
        lo
    } else if v > hi {
        hi
    } else {
        v
    }
}

} // verus!

verus! {

/// Whether the three spawner scalar arrays hold slot `index`.
pub open spec fn spec_wobj_scalars_ok(em: Map<Seq<char>, EntryData>, index: int) -> bool {
    &&& em.contains_key("SP_TYPE"@)
    &&& em["SP_TYPE"@] matches EntryData::I32(tv) && tv@.len() > index
    &&& em.contains_key("SP_CI"@)
    &&& em["SP_CI"@] matches EntryData::I32(iv) && iv@.len() > index
    &&& em.contains_key("SP_CF"@)
    &&& em["SP_CF"@] matches EntryData::F32(fv) && fv@.len() > index
}

/// The type id of spawner `index`.
pub open spec fn spec_sp_type(em: Map<Seq<char>, EntryData>, index: int) -> i32 {
    em["SP_TYPE"@]->I32_0@[index]
}

/// The custom int of spawner `index`.
pub open spec fn spec_sp_ci(em: Map<Seq<char>, EntryData>, index: int) -> i32 {
    em["SP_CI"@]->I32_0@[index]
}

/// The custom float of spawner `index` (`f32` bits).
pub open spec fn spec_sp_cf(em: Map<Seq<char>, EntryData>, index: int) -> u32 {
    em["SP_CF"@]->F32_0@[index]
}

/// The velocity byte of a packed platform word, in sixteenths.
fn vel_sixteenths(masked: u32) -> (r: i32)
    ensures
        r == spec_vel_sixteenths(masked),
{
    proof {
        assert(masked & 0xf <= 0xf && (masked >> 4u32) & 0xf <= 0xf) by (bit_vector);
    }
    let f = (masked & 0xf) as i32;
    let i = (((masked >> 4u32) & 0xf) as i32) - 8;
    if i < 0 {
        16 * i - f
    } else {
        16 * i + f
    }
}

impl WobjType {
    /// Decodes spawner `index`'s world object from the scalar triple and the
    /// container's tables. With `ignore_warnings`, unknown type ids, bad
    /// item ids and oversized lava-dragon lengths decode to safe defaults
    /// instead of failing; table rows that cannot be read still fail.
    #[verifier::rlimit(60)]
    #[verifier::spinoff_prover]
    pub fn from_lparse(
        cnms: &LParse,
        version: &VersionSpecs,
        index: usize,
        ignore_warnings: bool,
    ) -> (r: Result<Self, Error>)
        ensures
            ({
                let em = cnms.entries_map();
                &&& (r is Ok <==> spec_wobj_scalars_ok(em, index as int) && spec_wobj_decode_ok(
                    em,
                    spec_sp_type(em, index as int),
                    spec_sp_ci(em, index as int),
                    spec_sp_cf(em, index as int),
                    ignore_warnings,
                ))
                &&& (r matches Ok(w) ==> spec_wobj_decoded(
                    w,
                    em,
                    spec_sp_type(em, index as int),
                    spec_sp_ci(em, index as int),
                    spec_sp_cf(em, index as int),
                    ignore_warnings,
                ))
            }),
    {
        let types = match cnms.try_get_entry("SP_TYPE") {
            Ok(d) => d,
            Err(e) => {
                return Err(e);
            },
        };
        let types = match types.try_get_i32() {
            Ok(v) => v,
            Err(e) => {
                return Err(e);
            },
        };
        let cis = match cnms.try_get_entry("SP_CI") {
            Ok(d) => d,
            Err(e) => {
                return Err(e);
            },
        };
        let cis = match cis.try_get_i32() {
            Ok(v) => v,
            Err(e) => {
                return Err(e);
            },
        };
        let cfs = match cnms.try_get_entry("SP_CF") {
            Ok(d) => d,
            Err(e) => {
                return Err(e);
            },
        };
        let cfs = match cfs.try_get_f32() {
            Ok(v) => v,
            Err(e) => {
                return Err(e);
            },
        };
        if types.len() <= index || cis.len() <= index || cfs.len() <= index {
            return Err(
                Error::Corrupted("the spawner lies outside the spawner arrays".to_owned()),
            );
        }
        let wobj_type_id = types[index];
        let custom_int = cis[index];
        let custom_float = cfs[index];
        Self::decode_scalars(cnms, version, wobj_type_id, custom_int, custom_float,
            ignore_warnings)
    }

    /// Decodes a world object from its scalar triple, reading auxiliary rows
    /// from the container's tables.
    #[verifier::rlimit(90)]
    #[verifier::spinoff_prover]
    pub fn decode_scalars(
        cnms: &LParse,
        version: &VersionSpecs,
        wobj_type_id: i32,
        custom_int: i32,
        custom_float: u32,
        ignore_warnings: bool,
    ) -> (r: Result<Self, Error>)
        ensures
            r is Ok <==> spec_wobj_decode_ok(
                cnms.entries_map(),
                wobj_type_id,
                custom_int,
                custom_float,
                ignore_warnings,
            ),
            r matches Ok(w) ==> spec_wobj_decoded(
                w,
                cnms.entries_map(),
                wobj_type_id,
                custom_int,
                custom_float,
                ignore_warnings,
            ),
            !ignore_warnings && !spec_known_wobj_id(wobj_type_id) ==> (r matches Err(e) && e
                is Corrupted),
            !ignore_warnings && wobj_type_id == 48 && custom_int > 32 ==> (r matches Err(e) && e
                is Corrupted),
            !ignore_warnings && wobj_type_id == 16 && (custom_int as u32 == 0 || custom_int as u32
                > 39) ==> (r matches Err(e) && e is Corrupted),
    {
        let id = wobj_type_id;
        let ci = custom_int;
        let cf = custom_float;
        if id == 1 {
            let t = match Teleport::from_lparse(cnms, version, ci as usize) {
                Ok(t) => t,
                Err(e) => {
                    return Err(e);
                },
            };
            Ok(WobjType::Teleport(t))
        } else if id == 120 {
            let t = match Teleport::from_lparse(cnms, version, ci as usize) {
                Ok(t) => t,
                Err(e) => {
                    return Err(e);
                },
            };
            Ok(WobjType::TeleportArea1 { link_id: fbits::f32b_to_u32(cf), loc: t.loc })
        } else if id == 6 || id == 7 || id == 89 {
            let size = if id == 6 {
                TunesTriggerSize::Small
            } else if id == 7 {
                TunesTriggerSize::Big
            } else {
                TunesTriggerSize::VeryBig
            };
            Ok(WobjType::TunesTrigger { size, music_id: ci as u32 })
        } else if id == 8 {
            Ok(WobjType::PlayerSpawn)
        } else if id == 9 || id == 108 {
            let start = (ci & 0x00ff_ffff) as usize;
            let endv = fbits::f32b_to_u32(cf) as usize;
            let avail: usize = match cnms.try_get_entry("ENDINGTEXT") {
                Ok(d) => match d.try_get_u8() {
                    Ok(v) => v.len() / 32,
                    Err(_) => 0,
                },
                Err(_) => 0,
            };
            let ghost em = cnms.entries_map();
            proof {
                assert(avail == spec_text_avail(em));
            }
            let stop_raw = if (endv as u64) + 1 <= avail as u64 {
                (endv + 1) as usize
            } else {
                avail
            };
            let stop = if stop_raw < start {
                start
            } else {
                stop_raw
            };
            let mut textbuf = String::new();
            let mut i = start;
            while i < stop
                invariant
                    start <= i <= stop,
                    em == cnms.entries_map(),
                    textbuf@ == spec_text_take(em, start as int, i as int),
                decreases stop - i,
            {
                match super::cnms_types::get_ending_text_line(cnms, version, i) {
                    Ok(line) => {
                        vstd::string::StringExecFns::append(&mut textbuf, line.as_str());
                    },
                    Err(_) => {},
                }
                vstd::string::StringExecFns::append(&mut textbuf, "\n");
                proof {
                    reveal_strlit("\n");
                    assert("\n"@ =~= seq!['\n']);
                    assert(textbuf@ =~= spec_text_take(em, start as int, i as int)
                        + spec_text_line_or_empty(em, i as int) + seq!['\n']);
                }
                i = i + 1;
            }
            proof {
                let upto = spec_text_upto(em, start as int, endv as int);
                assert(spec_text_take(em, start as int, stop as int) == spec_text_take(
                    em,
                    start as int,
                    upto,
                ));
            }
            Ok(
                WobjType::TextSpawner {
                    dialoge_box: id == 108,
                    despawn: ci & (0xff00_0000u32 as i32) != 0,
                    text: textbuf,
                },
            )
        } else if id == 12 || id == 87 || id == 88 {
            let shape = if id == 12 {
                BackgroundSwitcherShape::Small
            } else if id == 87 {
                BackgroundSwitcherShape::Horizontal
            } else {
                BackgroundSwitcherShape::Vertical
            };
            Ok(
                WobjType::BackgroundSwitcher {
                    shape,
                    enabled_layers_start: ci as u32,
                    enabled_layers_end: fbits::f32b_to_u32(cf),
                },
            )
        } else if id == 16 {
            match ItemType::from_item_id(ci as u32) {
                Some(item) => Ok(WobjType::DroppedItem { item }),
                None => {
                    if !ignore_warnings {
                        Err(Error::Corrupted("the dropped item id is unknown".to_owned()))
                    } else {
                        Ok(WobjType::DroppedItem { item: ItemType::Apple })
                    }
                },
            }
        } else if id == 14 {
            Ok(WobjType::DroppedItem { item: ItemType::Knife })
        } else if id == 15 {
            Ok(WobjType::DroppedItem { item: ItemType::Apple })
        } else if id == 4 {
            Ok(WobjType::DroppedItem { item: ItemType::Shotgun })
        } else if id == 51 || id == 52 || id == 53 || id == 146 {
            let node_type = if id == 51 {
                TtNodeType::ChaseTrigger
            } else if id == 52 {
                TtNodeType::NormalTrigger
            } else if id == 53 {
                TtNodeType::Waypoint(ci)
            } else {
                TtNodeType::BozoWaypoint
            };
            Ok(WobjType::TtNode { node_type })
        } else if id == 60 {
            Ok(WobjType::RotatingFireColunmPiece { origin_x: ci, degrees_per_frame: cf })
        } else if id == 61 || id == 62 {
            Ok(
                WobjType::MovingFire {
                    vertical: id == 61,
                    dist: ci,
                    speed: fbits::f32b_abs(cf),
                    despawn: fbits::f32b_lt_zero(cf),
                },
            )
        } else if id == 77 || id == 78 || id == 80 {
            let push_zone_type = if id == 77 {
                PushZoneType::Horizontal
            } else if id == 78 {
                PushZoneType::Vertical
            } else {
                PushZoneType::HorizontalSmall
            };
            Ok(WobjType::PushZone { push_zone_type, push_speed: cf })
        } else if id == 79 {
            Ok(WobjType::VerticalWindZone { acceleration: cf })
        } else if id == 64 {
            Ok(WobjType::SuperDragonLandingZone { waypoint_id: ci as u8 })
        } else if id == 90 || id == 91 {
            Ok(WobjType::Jumpthrough { big: id == 91 })
        } else if id == 104 {
            Ok(WobjType::HealthSetTrigger { target_health: cf })
        } else if id == 109 {
            let s = match super::cnms_types::get_ending_text_line(cnms, version, ci as usize) {
                Ok(s) => s,
                Err(e) => {
                    return Err(e);
                },
            };
            Ok(WobjType::GraphicsChangeTrigger { gfx_file: s })
        } else if id == 115 {
            let s = match super::cnms_types::get_ending_text_line(cnms, version, ci as usize) {
                Ok(s) => s,
                Err(e) => {
                    return Err(e);
                },
            };
            Ok(WobjType::BossBarInfo { boss_name: s })
        } else if id == 116 || id == 117 {
            Ok(WobjType::BgSpeed { vertical_axis: id == 117, layer: ci as u32, speed: cf })
        } else if id == 118 {
            Ok(WobjType::BgTransparency { layer: ci as u32, transparency: fbits::f32b_to_u8(cf) })
        } else if id == 119 {
            Ok(WobjType::TeleportTrigger1 { link_id: ci as u32, delay_secs: cf })
        } else if id == 121 {
            Ok(WobjType::SfxPoint { sound_id: ci as u32 })
        } else if id == 11 || id == 93 {
            let skin_id = if id == 11 {
                None
            } else {
                Some(ci as u8)
            };
            Ok(WobjType::BreakableWall { skin_id, health: cf })
        } else if id == 10 || id == 82 {
            Ok(WobjType::MovingPlatform { vertical: id == 82, travel_frames: ci, speed: cf })
        } else if id == 83 {
            let t = if ci >= 0 {
                ci as u32
            } else {
                (-(ci as i64)) as u32
            };
            Ok(
                WobjType::DisapearingPlatform {
                    time_on_frames: t,
                    time_off_frames: cf,
                    starts_on: ci >= 0,
                },
            )
        } else if id == 86 {
            Ok(WobjType::SpringBoard { jump_velocity: cf })
        } else if id == 92 {
            Ok(WobjType::BreakablePlatform { time_till_fall_frames: ci })
        } else if id == 107 {
            let ciu = ci as u32;
            let vx = vel_sixteenths((ciu >> 16u32) & 0xff);
            let vy = vel_sixteenths((ciu >> 24u32) & 0xff);
            proof {
                assert(ci & 0xf >= 0 && ci & 0xf <= 0xf && (ci >> 4u32) & 0xfff >= 0 && (ci
                    >> 4u32) & 0xfff <= 0xfff) by (bit_vector);
            }
            let bx = (ci & 0xf) as u32;
            let by = ((ci >> 4u32) & 0xfff) as u32;
            Ok(
                WobjType::CustomizeableMoveablePlatform {
                    bitmap_x32: bx,
                    bitmap_y32: by,
                    vel_x_sixteenths: vx,
                    vel_y_sixteenths: vy,
                    frames: fbits::f32b_floor_abs(cf),
                    start_paused: fbits::f32b_lt_zero(cf),
                    ty: CustomizableMovingPlatformType::from_fract_band(
                        fbits::f32b_fract_band(cf),
                    ),
                },
            )
        } else if id == 94 || id == 95 || id == 96 {
            let color = if id == 94 {
                KeyColor::Red
            } else if id == 95 {
                KeyColor::Green
            } else {
                KeyColor::Blue
            };
            Ok(WobjType::LockedBlock { color, consume_key: ci != 0 })
        } else if id == 105 {
            Ok(WobjType::Vortex { attract_enemies: ci != 0 })
        } else if id == 19 || id == 20 || id == 21 || id == 22 || id == 23 {
            let rune_type = if id == 19 {
                RuneType::Ice
            } else if id == 20 {
                RuneType::Air
            } else if id == 22 {
                RuneType::Lightning
            } else {
                RuneType::Fire
            };
            Ok(WobjType::WandRune { rune_type })
        } else if id == 114 || id == 32 || id == 33 || id == 34 || id == 106 || id == 140 {
            let trigger_type = if id == 114 {
                let skin_power_override = if ci != 0 {
                    let b = ci as u8;
                    Some(
                        if b == 0 {
                            255
                        } else {
                            b - 1
                        },
                    )
                } else {
                    None
                };
                UpgradeTriggerType::MaxPowerRune { skin_power_override }
            } else if id == 32 {
                UpgradeTriggerType::DeephausBoots
            } else if id == 33 {
                UpgradeTriggerType::Wings
            } else if id == 34 {
                UpgradeTriggerType::CrystalWings
            } else if id == 106 {
                UpgradeTriggerType::Vortex
            } else {
                UpgradeTriggerType::NoUpgrade
            };
            Ok(WobjType::UpgradeTrigger { trigger_type })
        } else if id == 73 {
            let d = ci as i64 - 256;
            let checkpoint_num: u8 = if d < 0 {
                0
            } else if d > 255 {
                255
            } else {
                d as u8
            };
            Ok(WobjType::Checkpoint { checkpoint_num })
        } else if id == 2 || id == 35 {
            Ok(WobjType::Slime { flying: id == 35 })
        } else if id == 36 {
            Ok(WobjType::Heavy { speed: fbits::f32b_abs(cf), face_left: fbits::f32b_lt_zero(cf) })
        } else if id == 38 {
            Ok(WobjType::Dragon { space_skin: ci != 0 })
        } else if id == 40 {
            Ok(WobjType::BozoPin { flying_speed: cf })
        } else if id == 41 || id == 72 {
            Ok(WobjType::Bozo { mark_ii: id == 72 })
        } else if id == 42 {
            Ok(WobjType::SilverSlime)
        } else if id == 43 {
            Ok(WobjType::LavaMonster { face_left: ci != 0 })
        } else if id == 44 || id == 45 {
            Ok(WobjType::TtMinion { small: id == 44 })
        } else if id == 46 {
            Ok(WobjType::SlimeWalker)
        } else if id == 47 {
            Ok(WobjType::MegaFish { water_level: ci, swimming_speed: cf })
        } else if id == 48 {
            if ci > 32 && !ignore_warnings {
                Err(Error::Corrupted("the lava dragon boss has too many segments".to_owned()))
            } else {
                Ok(WobjType::LavaDragonHead { len: ci as u32, health: cf })
            }
        } else if id == 54 {
            Ok(WobjType::TtBoss { speed: cf })
        } else if id == 55 {
            Ok(WobjType::EaterBug { pop_up_speed: cf })
        } else if id == 57 {
            Ok(WobjType::SpiderWalker { speed: cf })
        } else if id == 59 {
            Ok(WobjType::SpikeTrap)
        } else if id == 63 {
            Ok(WobjType::SuperDragon { waypoint_id: ci as u8 })
        } else if id == 69 {
            Ok(WobjType::BozoLaserMinion { speed: cf })
        } else if id == 74 {
            Ok(WobjType::SpikeGuy)
        } else if id == 76 {
            Ok(WobjType::BanditGuy { speed: cf })
        } else if id == 84 {
            Ok(WobjType::KamakaziSlime)
        } else if id == 97 || id == 98 || id == 99 {
            let rock_guy_type = if id == 97 {
                RockGuyType::Medium
            } else if id == 98 {
                RockGuyType::Small1
            } else {
                RockGuyType::Small2 { face_left: ci != 0 }
            };
            Ok(WobjType::RockGuy { rock_guy_type })
        } else if id == 100 {
            Ok(WobjType::RockGuySlider)
        } else if id == 101 {
            Ok(WobjType::RockGuySmasher)
        } else if id == 122 {
            Ok(WobjType::Wolf)
        } else if id == 123 {
            Ok(WobjType::Supervirus)
        } else if id == 141 {
            proof {
                assert(ci & 0xff >= 0 && ci & 0xff <= 0xff) by (bit_vector);
            }
            let next_level = match super::cnms_types::get_ending_text_line(
                cnms,
                version,
                (ci & 0xff) as usize,
            ) {
                Ok(s) => s,
                Err(_) => String::new(),
            };
            let extra_unlocked_level = if fbits::f32b_to_i32(cf) > 0 {
                let idx = fbits::f32b_to_u32(cf);
                proof {
                    assert(fbits::spec_to_u32(cf) >= 1);
                }
                Some(
                    match super::cnms_types::get_ending_text_line(
                        cnms,
                        version,
                        (idx - 1) as usize,
                    ) {
                        Ok(s) => s,
                        Err(_) => String::new(),
                    },
                )
            } else {
                None
            };
            Ok(
                WobjType::FinishTrigger {
                    next_level,
                    extra_unlocked_level,
                    is_secret: ci & 0xf00 != 0,
                },
            )
        } else if id == 143 {
            Ok(WobjType::GravityTrigger { gravity: cf })
        } else if id == 148 {
            Ok(WobjType::SkinUnlock { id: ci as u8 })
        } else if id == 149 {
            proof {
                assert((ci >> 16u32) & 0xff >= 0 && (ci >> 16u32) & 0xff <= 0xff && (ci >> 8u32)
                    & 0xff >= 0 && (ci >> 8u32) & 0xff <= 0xff && ci & 0xff >= 0 && ci & 0xff
                    <= 0xff) by (bit_vector);
            }
            Ok(
                WobjType::CoolPlatform {
                    time_off_before: ((ci >> 16u32) & 0xff) as u8,
                    time_on: ((ci >> 8u32) & 0xff) as u8,
                    time_off_after: (ci & 0xff) as u8,
                },
            )
        } else if id == 150 {
            proof {
                assert(0 <= ci & 0xffff <= 0xffff) by (bit_vector);
            }
            let t = match Teleport::from_lparse(cnms, version, (ci & 0xffff) as usize) {
                Ok(t) => t,
                Err(e) => {
                    return Err(e);
                },
            };
            Ok(
                WobjType::TeleportArea2 {
                    loc: t.loc,
                    start_activated: ci & 0x10000 != 0,
                    teleport_players: ci & 0x20000 == 0,
                    link_id: fbits::f32b_to_u32(cf),
                },
            )
        } else if 124 <= id && id <= 139 {
            Ok(WobjType::Lua { lua_wobj_type: (id - 124) as u8 })
        } else if !ignore_warnings {
            Err(Error::Corrupted("unknown world object type id".to_owned()))
        } else {
            Ok(WobjType::Slime { flying: false })
        }
    }
}

} // verus!

verus! {

// ---------------------------------------------------------------------------
// Encoding to the scalar triple.
// ---------------------------------------------------------------------------

/// Whether a teleport row carries exactly these fields.
pub open spec fn spec_row_eq(x: Teleport, name: Seq<char>, cost: i32, loc: Point) -> bool {
    x.name@ == name && x.cost == cost && x.loc == loc
}

/// How the teleport table changes when a row is interned: an identical row
/// (the first one) is reused, otherwise the row is appended; `idx` is the
/// row the object then references.
pub open spec fn spec_tele_interned(
    t0: Seq<Teleport>,
    t1: Seq<Teleport>,
    name: Seq<char>,
    cost: i32,
    loc: Point,
    idx: int,
) -> bool {
    if exists|j: int| 0 <= j < t0.len() && spec_row_eq(#[trigger] t0[j], name, cost, loc) {
        &&& t1 == t0
        &&& 0 <= idx < t0.len()
        &&& spec_row_eq(t0[idx], name, cost, loc)
        &&& forall|k: int| 0 <= k < idx ==> !spec_row_eq(#[trigger] t0[k], name, cost, loc)
    } else {
        &&& t1.len() == t0.len() + 1
        &&& t1.subrange(0, t0.len() as int) == t0
        &&& spec_row_eq(t1.last(), name, cost, loc)
        &&& idx == t0.len()
    }
}

/// Interns a teleport row: reuses the first identical row, or appends.
fn intern_teleport(teleports: &mut Vec<Teleport>, row: Teleport) -> (idx: usize)
    ensures
        spec_tele_interned(
            old(teleports)@,
            final(teleports)@,
            row.name@,
            row.cost,
            row.loc,
            idx as int,
        ),
        final(teleports)@.len() <= old(teleports)@.len() + 1,
        idx <= old(teleports)@.len(),
{
    let n = teleports.len();
    let mut i: usize = 0;
    while i < n
        invariant
            i <= n,
            n == teleports@.len(),
            teleports@ == old(teleports)@,
            forall|k: int|
                0 <= k < i ==> !spec_row_eq(#[trigger] teleports@[k], row.name@, row.cost, row.loc),
        decreases n - i,
    {
        if teleport_eq(&teleports[i], &row) {
            return i;
        }
        i = i + 1;
    }
    teleports.push(row);
    proof {
        assert(final(teleports)@.subrange(0, old(teleports)@.len() as int) =~= old(teleports)@);
    }
    n
}

/// How the text table changes when a single line is interned: an identical
/// line (the first one) is reused; otherwise the line is appended, with an
/// empty pad line first when the append would land on the reserved title
/// slot (47).
pub open spec fn spec_line_interned(
    e0: Seq<String>,
    e1: Seq<String>,
    line: Seq<char>,
    idx: int,
) -> bool {
    if exists|j: int| 0 <= j < e0.len() && (#[trigger] e0[j])@ == line {
        &&& e1 == e0
        &&& 0 <= idx < e0.len()
        &&& e0[idx]@ == line
        &&& forall|k: int| 0 <= k < idx ==> (#[trigger] e0[k])@ != line
    } else if e0.len() == 47 {
        &&& e1.len() == 49
        &&& e1.subrange(0, 47) == e0
        &&& e1[47]@ == Seq::<char>::empty()
        &&& e1[48]@ == line
        &&& idx == 48
    } else {
        &&& e1.len() == e0.len() + 1
        &&& e1.subrange(0, e0.len() as int) == e0
        &&& e1.last()@ == line
        &&& idx == e0.len()
    }
}

/// Interns a text line: reuses the first identical line, or appends (padding
/// past the reserved title slot).
fn intern_line(ending_text: &mut Vec<String>, line: &String) -> (idx: usize)
    requires
        old(ending_text)@.len() < 0x1000_0000,
    ensures
        spec_line_interned(old(ending_text)@, final(ending_text)@, line@, idx as int),
        final(ending_text)@.len() <= old(ending_text)@.len() + 2,
        idx <= old(ending_text)@.len() + 1,
{
    let n = ending_text.len();
    let mut i: usize = 0;
    while i < n
        invariant
            i <= n,
            n == ending_text@.len(),
            ending_text@ == old(ending_text)@,
            forall|k: int| 0 <= k < i ==> (#[trigger] ending_text@[k])@ != line@,
        decreases n - i,
    {
        if crate::lparse::str_eq_string(line.as_str(), &ending_text[i]) {
            return i;
        }
        i = i + 1;
    }
    if n == 47 {
        ending_text.push(String::new());
        ending_text.push(line.clone());
        proof {
            assert(final(ending_text)@.subrange(0, 47) =~= old(ending_text)@);
        }
        48
    } else {
        ending_text.push(line.clone());
        proof {
            assert(final(ending_text)@.subrange(0, n as int) =~= old(ending_text)@);
        }
        n
    }
}

} // verus!

verus! {

// ---------------------------------------------------------------------------
// Splitting text into lines (the text spawner stores multi-line text).
// ---------------------------------------------------------------------------

/// Whether a byte is ASCII whitespace.
pub open spec fn spec_is_ws(c: u8) -> bool {
    c == 0x20 || (0x09 <= c <= 0x0d)
}

/// `b` shortened by its trailing ASCII whitespace.
pub open spec fn spec_trim_end_ws(b: Seq<u8>) -> Seq<u8>
    decreases b.len(),
{
    if b.len() > 0 && spec_is_ws(b.last()) {
        spec_trim_end_ws(b.drop_last())
    } else {
        b
    }
}

/// The index of the first newline byte, or the length when there is none.
pub open spec fn spec_find_nl(b: Seq<u8>) -> int
    decreases b.len(),
{
    if b.len() == 0 {
        0
    } else if b[0] == 0x0a {
        0
    } else {
        1 + spec_find_nl(b.drop_first())
    }
}

/// `b` shortened by one trailing carriage return, as `str::lines` does.
pub open spec fn spec_strip_cr(b: Seq<u8>) -> Seq<u8> {
    if b.len() > 0 && b.last() == 0x0d {
        b.drop_last()
    } else {
        b
    }
}

/// The lines of a byte string, as `str::lines` splits them: segments
/// between newline bytes, each shortened by one trailing carriage return,
/// without a final empty segment.
pub open spec fn spec_lines_of(b: Seq<u8>) -> Seq<Seq<u8>>
    decreases b.len(),
{
    if b.len() == 0 {
        Seq::empty()
    } else {
        let i = spec_find_nl(b);
        if 0 <= i < b.len() {
            seq![spec_strip_cr(b.take(i))] + spec_lines_of(b.skip(i + 1))
        } else {
            seq![spec_strip_cr(b)]
        }
    }
}

/// The first newline search stops at the first newline, or at the end.
proof fn lemma_find_nl(s: Seq<u8>, i: int)
    requires
        0 <= i <= s.len(),
        forall|k: int| 0 <= k < i ==> s[k] != 0x0a,
        i < s.len() ==> s[i] == 0x0a,
    ensures
        spec_find_nl(s) == i,
    decreases s.len(),
{
    if s.len() > 0 && s[0] != 0x0a {
        assert(i >= 1);
        lemma_find_nl(s.drop_first(), i - 1);
    }
}

/// A byte string has at most one line per byte.
proof fn lemma_lines_of_len(b: Seq<u8>)
    ensures
        spec_lines_of(b).len() <= b.len(),
    decreases b.len(),
{
    if b.len() > 0 {
        let i = spec_find_nl(b);
        lemma_find_nl_bounds(b);
        if 0 <= i < b.len() {
            lemma_lines_of_len(b.skip(i + 1));
        }
    }
}

/// The newline search lands inside the string or at its end.
proof fn lemma_find_nl_bounds(b: Seq<u8>)
    ensures
        0 <= spec_find_nl(b) <= b.len(),
    decreases b.len(),
{
    if b.len() > 0 && b[0] != 0x0a {
        lemma_find_nl_bounds(b.drop_first());
    }
}

/// Drops trailing ASCII whitespace.
fn trim_end_ws(mut v: Vec<u8>) -> (r: Vec<u8>)
    ensures
        r@ == spec_trim_end_ws(v@),
{
    let ghost orig = v@;
    while v.len() > 0 && (v[v.len() - 1] == 0x20 || (0x09 <= v[v.len() - 1] && v[v.len() - 1]
        <= 0x0d))
        invariant
            spec_trim_end_ws(v@) == spec_trim_end_ws(orig),
        decreases v.len(),
    {
        proof {
            assert(v@.drop_last() =~= v@.subrange(0, v@.len() - 1));
        }
        v.pop();
    }
    v
}

/// Splits bytes into lines, as `str::lines` does.
pub(crate) fn split_lines(b: &[u8]) -> (r: Vec<Vec<u8>>)
    ensures
        r@.len() == spec_lines_of(b@).len(),
        forall|k: int| 0 <= k < r@.len() ==> (#[trigger] r@[k])@ == spec_lines_of(b@)[k],
{
    let mut r: Vec<Vec<u8>> = Vec::new();
    let mut pos: usize = 0;
    proof {
        assert(b@.skip(0) =~= b@);
    }
    while pos < b.len()
        invariant
            pos <= b@.len(),
            spec_lines_of(b@).len() == r@.len() + spec_lines_of(b@.skip(pos as int)).len(),
            forall|k: int|
                0 <= k < r@.len() ==> (#[trigger] r@[k])@ == spec_lines_of(b@)[k],
            forall|k: int|
                0 <= k < spec_lines_of(b@.skip(pos as int)).len() ==> spec_lines_of(
                    b@.skip(pos as int),
                )[k] == spec_lines_of(b@)[r@.len() + k],
        decreases b.len() - pos,
    {
        let ghost rest = b@.skip(pos as int);
        let mut j = pos;
        while j < b.len() && *vstd::slice::slice_index_get(b, j) != 0x0a
            invariant
                pos <= j <= b@.len(),
                forall|k: int| pos <= k < j ==> b@[k] != 0x0a,
            decreases b.len() - j,
        {
            j = j + 1;
        }
        proof {
            assert forall|k: int| 0 <= k < j - pos implies rest[k] != 0x0a by {
                assert(rest[k] == b@[pos + k]);
            }
            if j < b@.len() {
                assert(rest[j - pos] == b@[j as int]);
            }
            lemma_find_nl(rest, j - pos);
        }
        let mut seg: Vec<u8> = Vec::new();
        let mut t = pos;
        while t < j
            invariant
                pos <= t <= j <= b@.len(),
                seg@ == b@.subrange(pos as int, t as int),
            decreases j - t,
        {
            seg.push(*vstd::slice::slice_index_get(b, t));
            t = t + 1;
            proof {
                assert(seg@ =~= b@.subrange(pos as int, t as int));
            }
        }
        if seg.len() > 0 && seg[seg.len() - 1] == 0x0d {
            proof {
                assert(seg@.drop_last() =~= seg@.subrange(0, seg@.len() - 1));
            }
            seg.pop();
        }
        proof {
            assert(rest.take(j - pos) =~= b@.subrange(pos as int, j as int));
            if j < b@.len() {
                assert(rest.skip(j - pos + 1) =~= b@.skip(j + 1));
            } else {
                assert(rest.skip(j - pos) =~= b@.skip(j as int));
            }
            assert(seg@ == spec_strip_cr(rest.take(j - pos)));
        }
        let ghost prev_r = r@;
        r.push(seg);
        let newpos: usize = if j >= b.len() {
            b.len()
        } else {
            j + 1
        };
        proof {
            let rest2 = b@.skip(newpos as int);
            if j < b@.len() {
                assert(rest.skip(j - pos + 1) =~= rest2);
                assert(spec_lines_of(rest) =~= seq![seg@] + spec_lines_of(rest2));
            } else {
                assert(rest2 =~= Seq::<u8>::empty());
                assert(spec_lines_of(rest) =~= seq![seg@]);
            }
            assert forall|k: int| 0 <= k < r@.len() implies (#[trigger] r@[k])@ == spec_lines_of(
                b@,
            )[k] by {
                if k == prev_r.len() {
                    assert(spec_lines_of(rest)[0] == seg@);
                    assert(spec_lines_of(rest)[0] == spec_lines_of(b@)[prev_r.len() as int]);
                }
            }
            assert forall|k: int| 0 <= k < spec_lines_of(rest2).len() implies spec_lines_of(rest2)[
                k
            ] == spec_lines_of(b@)[r@.len() + k] by {
                assert(spec_lines_of(rest)[k + 1] == spec_lines_of(rest2)[k]);
                assert(spec_lines_of(rest)[k + 1] == spec_lines_of(b@)[prev_r.len() + k + 1]);
            }
        }
        pos = newpos;
    }
    proof {
        assert(b@.skip(b@.len() as int) =~= Seq::<u8>::empty());
    }
    r
}

} // verus!

verus! {

// ---------------------------------------------------------------------------
// The encoder.
// ---------------------------------------------------------------------------

/// `b` with the sign bit set when `neg` holds.
pub open spec fn spec_with_sign(b: u32, neg: bool) -> u32 {
    if neg {
        b | 0x8000_0000
    } else {
        b
    }
}

/// 1 for true, 0 for false, as the files store booleans.
pub open spec fn spec_b2i(b: bool) -> i32 {
    if b {
        1
    } else {
        0
    }
}

/// The packed velocity byte of a platform velocity in sixteenths: the
/// integer part plus bias 8 in the high nibble, the fraction in the low.
pub open spec fn spec_vel_nibbles(s: int) -> u32 {
    if s >= 0 {
        ((s / 16 + 8) * 16 + s % 16) as u32
    } else {
        ((8 - (0 - s) / 16) * 16 + (0 - s) % 16) as u32
    }
}

/// The custom int of a customizable moving platform.
pub open spec fn spec_platform_ci(bx: u32, by: u32, vx: int, vy: int) -> i32 {
    ((bx & 0xf) | ((by & 0xfff) << 4u32) | (spec_vel_nibbles(vx) << 16u32) | (spec_vel_nibbles(vy)
        << 24u32)) as i32
}

/// The custom float (bits) of a customizable moving platform: the signed
/// tick count plus the style's quarter offset.
pub open spec fn spec_platform_cf(frames: u32, q: u32, paused: bool) -> u32 {
    let mq: u64 = if paused && q > 0 {
        (4 * frames - q) as u64
    } else {
        (4 * frames + q) as u64
    };
    spec_with_sign(fbits::spec_of_quarters(mq), paused)
}

/// The bytes of text line `i` of the table, or empty past the end.
pub open spec fn spec_line_bytes_at(e: Seq<String>, i: int) -> Seq<u8> {
    if 0 <= i < e.len() {
        vstd::utf8::encode_utf8(e[i]@)
    } else {
        Seq::empty()
    }
}

/// Whether the text lines at positions `p..` equal `lines`.
pub open spec fn spec_lines_match_at(e: Seq<String>, lines: Seq<Seq<u8>>, p: int) -> bool {
    forall|k: int| 0 <= k < lines.len() ==> spec_line_bytes_at(e, p + k) == lines[k]
}

/// The first position of the table where `lines` already stand, or the
/// table's length when they stand nowhere.
pub open spec fn spec_find_lines_from(e: Seq<String>, lines: Seq<Seq<u8>>, p: int) -> int
    decreases e.len() - p,
{
    if p < 0 || p >= e.len() {
        e.len() as int
    } else if spec_lines_match_at(e, lines, p) {
        p
    } else {
        spec_find_lines_from(e, lines, p + 1)
    }
}

/// The characters the trimmed line bytes decode to (empty when not UTF-8).
pub open spec fn spec_decode_or_empty(b: Seq<u8>) -> Seq<char> {
    if vstd::utf8::valid_utf8(b) {
        vstd::utf8::decode_utf8(b)
    } else {
        Seq::empty()
    }
}

/// Whether the stored line `s` is the trimmed form of the raw line `lb`.
pub open spec fn spec_stored_line(s: String, lb: Seq<u8>) -> bool {
    s@ == spec_decode_or_empty(spec_trim_end_ws(lb))
}

/// How the text table changes when a text spawner writes its lines, when no
/// earlier copy was found: the trimmed lines are appended in order, with an
/// empty pad line inserted when the write would land on the reserved title
/// slot (47).
pub open spec fn spec_text_appended(e0: Seq<String>, e1: Seq<String>, lines: Seq<Seq<u8>>) -> bool {
    let start = e0.len() as int;
    let n = lines.len() as int;
    &&& e1.subrange(0, start) == e0
    &&& if start <= 47 && start + n > 47 {
        &&& e1.len() == start + n + 1
        &&& e1[47]@ == Seq::<char>::empty()
        &&& (forall|k: int| 0 <= k < 47 - start ==> spec_stored_line(#[trigger] e1[start + k], lines[k]))
        &&& (forall|k: int|
            47 - start <= k < n ==> spec_stored_line(#[trigger] e1[start + k + 1], lines[k]))
    } else {
        &&& e1.len() == start + n
        &&& (forall|k: int| 0 <= k < n ==> spec_stored_line(#[trigger] e1[start + k], lines[k]))
    }
}

/// Conditions under which a world object can be encoded without loss or
/// overflow: magnitudes stored with a separate sign flag carry no sign bit
/// of their own, tick counts fit the file's fields, a text spawner holds at
/// least one line, and a platform's fields lie in their packed ranges.
pub open spec fn spec_wobj_enc_wf(w: WobjType) -> bool {
    match w {
        WobjType::TextSpawner { text, .. } => text@.len() > 0 && vstd::utf8::encode_utf8(
            text@,
        ).len() < 0x1000_0000,
        WobjType::Heavy { speed, .. } => !fbits::spec_sign(speed),
        WobjType::MovingFire { speed, .. } => !fbits::spec_sign(speed),
        WobjType::DisapearingPlatform { time_on_frames, .. } => time_on_frames <= i32::MAX as u32,
        WobjType::CustomizeableMoveablePlatform {
            vel_x_sixteenths,
            vel_y_sixteenths,
            frames,
            ..
        } => 1 <= frames < 0x40_0000 && -143 <= vel_x_sixteenths <= 127 && -143
            <= vel_y_sixteenths <= 127,
        _ => true,
    }
}

/// Whether the scalar triple `trip` and the table changes are the encoding
/// of `w` placed at `pos`: the inverse direction of the decoder, writing
/// auxiliary rows into the tables (reusing equal rows where the format
/// dedups them).
pub open spec fn spec_wobj_encoded(
    w: WobjType,
    pos: Point,
    t0: Seq<Teleport>,
    t1: Seq<Teleport>,
    s0: Seq<u32>,
    s1: Seq<u32>,
    c0: Seq<u32>,
    c1: Seq<u32>,
    e0: Seq<String>,
    e1: Seq<String>,
    trip: (i32, i32, u32),
) -> bool {
    match w {
        WobjType::Teleport(t) => s1 == s0 && c1 == c0 && e1 == e0 && spec_tele_interned(
            t0,
            t1,
            t.name@,
            t.cost,
            t.loc,
            trip.1 as int,
        ) && trip.0 == 1 && trip.2 == 0,
        WobjType::TeleportArea1 { link_id, loc } => s1 == s0 && c1 == c0 && e1 == e0
            && spec_tele_interned(t0, t1, "_TELEAREA"@, 0, loc, trip.1 as int) && trip.0 == 120
            && trip.2 == fbits::spec_of_u32(link_id),
        WobjType::TeleportArea2 { loc, start_activated, teleport_players, link_id } => {
            &&& s1 == s0 && c1 == c0 && e1 == e0
            &&& exists|idx: i32|
                #[trigger] spec_tele_interned(t0, t1, "_TELEARE2"@, 0, loc, idx as int) && trip.1
                    == idx | (if teleport_players {
                    0i32
                } else {
                    0x20000i32
                }) | (if start_activated {
                    0x10000i32
                } else {
                    0i32
                })
            &&& trip.0 == 150
            &&& trip.2 == fbits::spec_of_u32(link_id)
        },
        WobjType::TunesTrigger { size, music_id } => {
            &&& t1 == t0 && s1 == s0 && c1 == c0 && e1 == e0
            &&& trip.0 == (match size {
                TunesTriggerSize::Small => 6i32,
                TunesTriggerSize::Big => 7i32,
                TunesTriggerSize::VeryBig => 89i32,
            })
            &&& trip.1 == music_id as i32
            &&& trip.2 == 0
        },
        WobjType::PlayerSpawn => {
            &&& t1 == t0 && c1 == c0 && e1 == e0
            &&& s1 == s0 + seq![pos.0, pos.1]
            &&& trip.0 == 8
            &&& trip.1 == (s1.len() as int / 2 - 1) as i32
            &&& trip.2 == 0
        },
        WobjType::TextSpawner { dialoge_box, despawn, text } => {
            let lines = spec_lines_of(vstd::utf8::encode_utf8(text@));
            let p = spec_find_lines_from(e0, lines, 0);
            let despawn_bits: i32 = if despawn {
                0x0100_0000
            } else {
                0
            };
            &&& t1 == t0 && s1 == s0 && c1 == c0
            &&& trip.0 == (if dialoge_box {
                108i32
            } else {
                9i32
            })
            &&& if p < e0.len() {
                &&& e1 == e0
                &&& trip.1 == p as i32 | despawn_bits
                &&& trip.2 == fbits::spec_of_u32((p + lines.len() - 1) as u32)
            } else {
                &&& spec_text_appended(e0, e1, lines)
                &&& trip.1 == e0.len() as i32 | despawn_bits
                &&& trip.2 == fbits::spec_of_u32((e1.len() - 1) as u32)
            }
        },
        WobjType::BackgroundSwitcher { shape, enabled_layers_start, enabled_layers_end } => {
            &&& t1 == t0 && s1 == s0 && c1 == c0 && e1 == e0
            &&& trip.0 == (match shape {
                BackgroundSwitcherShape::Small => 12i32,
                BackgroundSwitcherShape::Horizontal => 87i32,
                BackgroundSwitcherShape::Vertical => 88i32,
            })
            &&& trip.1 == enabled_layers_start as i32
            &&& trip.2 == fbits::spec_of_u32(enabled_layers_end)
        },
        WobjType::DroppedItem { item } => t1 == t0 && s1 == s0 && c1 == c0 && e1 == e0 && trip
            == (16i32, spec_item_id(item) as i32, 0u32),
        WobjType::TtNode { node_type } => t1 == t0 && s1 == s0 && c1 == c0 && e1 == e0 && (
        match node_type {
            TtNodeType::ChaseTrigger => trip == (51i32, 0i32, 0u32),
            TtNodeType::NormalTrigger => trip == (52i32, 0i32, 0u32),
            TtNodeType::Waypoint(wp) => trip == (53i32, wp, 0u32),
            TtNodeType::BozoWaypoint => trip == (146i32, 0i32, 0u32),
        }),
        WobjType::RotatingFireColunmPiece { origin_x, degrees_per_frame } => t1 == t0 && s1 == s0
            && c1 == c0 && e1 == e0 && trip == (60i32, origin_x, degrees_per_frame),
        WobjType::MovingFire { vertical, dist, speed, despawn } => {
            &&& t1 == t0 && s1 == s0 && c1 == c0 && e1 == e0
            &&& trip.0 == (if vertical {
                61i32
            } else {
                62i32
            })
            &&& trip.1 == dist
            &&& trip.2 == spec_with_sign(speed, despawn)
        },
        WobjType::PushZone { push_zone_type, push_speed } => {
            &&& t1 == t0 && s1 == s0 && c1 == c0 && e1 == e0
            &&& trip.0 == (match push_zone_type {
                PushZoneType::Horizontal => 77i32,
                PushZoneType::Vertical => 78i32,
                PushZoneType::HorizontalSmall => 80i32,
            })
            &&& trip.1 == 0
            &&& trip.2 == push_speed
        },
        WobjType::VerticalWindZone { acceleration } => t1 == t0 && s1 == s0 && c1 == c0 && e1
            == e0 && trip == (79i32, 0i32, acceleration),
        WobjType::SuperDragonLandingZone { waypoint_id } => t1 == t0 && s1 == s0 && c1 == c0 && e1
            == e0 && trip == (64i32, waypoint_id as i32, 0u32),
        WobjType::Jumpthrough { big } => t1 == t0 && s1 == s0 && c1 == c0 && e1 == e0 && trip == (
            if big {
                91i32
            } else {
                90i32
            },
            0i32,
            0u32,
        ),
        WobjType::HealthSetTrigger { target_health } => t1 == t0 && s1 == s0 && c1 == c0 && e1
            == e0 && trip == (104i32, 0i32, target_health),
        WobjType::GraphicsChangeTrigger { gfx_file } => {
            &&& t1 == t0 && s1 == s0 && c1 == c0
            &&& spec_line_interned(e0, e1, gfx_file@, trip.1 as int)
            &&& trip.0 == 109
            &&& trip.2 == 0
        },
        WobjType::BossBarInfo { boss_name } => {
            &&& t1 == t0 && s1 == s0 && c1 == c0
            &&& spec_line_interned(e0, e1, boss_name@, trip.1 as int)
            &&& trip.0 == 115
            &&& trip.2 == 0
        },
        WobjType::BgSpeed { vertical_axis, layer, speed } => t1 == t0 && s1 == s0 && c1 == c0
            && e1 == e0 && trip == (
            if vertical_axis {
                117i32
            } else {
                116i32
            },
            layer as i32,
            speed,
        ),
        WobjType::BgTransparency { layer, transparency } => t1 == t0 && s1 == s0 && c1 == c0 && e1
            == e0 && trip == (118i32, layer as i32, fbits::spec_of_u32(transparency as u32)),
        WobjType::TeleportTrigger1 { link_id, delay_secs } => t1 == t0 && s1 == s0 && c1 == c0
            && e1 == e0 && trip == (119i32, link_id as i32, delay_secs),
        WobjType::SfxPoint { sound_id } => t1 == t0 && s1 == s0 && c1 == c0 && e1 == e0 && trip
            == (121i32, sound_id as i32, 0u32),
        WobjType::BreakableWall { skin_id, health } => t1 == t0 && s1 == s0 && c1 == c0 && e1
            == e0 && (match skin_id {
            Some(skin) => trip == (93i32, skin as i32, health),
            None => trip == (11i32, 0i32, health),
        }),
        WobjType::MovingPlatform { vertical, travel_frames, speed } => t1 == t0 && s1 == s0 && c1
            == c0 && e1 == e0 && trip == (
            if vertical {
                82i32
            } else {
                10i32
            },
            travel_frames,
            speed,
        ),
        WobjType::DisapearingPlatform { time_on_frames, time_off_frames, starts_on } => {
            &&& t1 == t0 && s1 == s0 && c1 == c0 && e1 == e0
            &&& trip.0 == 83
            &&& trip.1 as int == (if starts_on {
                time_on_frames as int
            } else {
                0 - time_on_frames as int
            })
            &&& trip.2 == time_off_frames
        },
        WobjType::SpringBoard { jump_velocity } => t1 == t0 && s1 == s0 && c1 == c0 && e1 == e0
            && trip == (86i32, 0i32, jump_velocity),
        WobjType::BreakablePlatform { time_till_fall_frames } => t1 == t0 && s1 == s0 && c1 == c0
            && e1 == e0 && trip == (92i32, time_till_fall_frames, 0u32),
        WobjType::CustomizeableMoveablePlatform {
            bitmap_x32,
            bitmap_y32,
            vel_x_sixteenths,
            vel_y_sixteenths,
            frames,
            start_paused,
            ty,
        } => {
            &&& t1 == t0 && s1 == s0 && c1 == c0 && e1 == e0
            &&& trip.0 == 107
            &&& trip.1 == spec_platform_ci(
                bitmap_x32,
                bitmap_y32,
                vel_x_sixteenths as int,
                vel_y_sixteenths as int,
            )
            &&& trip.2 == spec_platform_cf(frames, spec_platform_type_quarters(ty), start_paused)
        },
        WobjType::LockedBlock { color, consume_key } => t1 == t0 && s1 == s0 && c1 == c0 && e1
            == e0 && trip == (
            match color {
                KeyColor::Red => 94i32,
                KeyColor::Green => 95i32,
                KeyColor::Blue => 96i32,
            },
            spec_b2i(consume_key),
            0u32,
        ),
        WobjType::Vortex { attract_enemies } => t1 == t0 && s1 == s0 && c1 == c0 && e1 == e0
            && trip == (105i32, spec_b2i(attract_enemies), 0u32),
        WobjType::WandRune { rune_type } => t1 == t0 && s1 == s0 && c1 == c0 && e1 == e0 && trip
            == (
            match rune_type {
                RuneType::Ice => 19i32,
                RuneType::Air => 20i32,
                RuneType::Fire => 21i32,
                RuneType::Lightning => 22i32,
            },
            0i32,
            0u32,
        ),
        WobjType::UpgradeTrigger { trigger_type } => t1 == t0 && s1 == s0 && c1 == c0 && e1 == e0
            && (match trigger_type {
            UpgradeTriggerType::MaxPowerRune { skin_power_override } => {
                match skin_power_override {
                    Some(skin) => trip == (114i32, (skin as i32 + 1) as i32, 0u32),
                    None => trip == (114i32, 0i32, 0u32),
                }
            },
            UpgradeTriggerType::DeephausBoots => trip == (32i32, 0i32, 0u32),
            UpgradeTriggerType::Wings => trip == (33i32, 0i32, 0u32),
            UpgradeTriggerType::CrystalWings => trip == (34i32, 0i32, 0u32),
            UpgradeTriggerType::Vortex => trip == (106i32, 0i32, 0u32),
            UpgradeTriggerType::NoUpgrade => trip == (140i32, 0i32, 0u32),
        }),
        WobjType::Checkpoint { checkpoint_num } => {
            let slot = 2 * checkpoint_num as int;
            &&& t1 == t0 && s1 == s0 && e1 == e0
            &&& c1.len() == (if c0.len() >= slot + 2 {
                c0.len() as int
            } else {
                slot + 2
            })
            &&& c1[slot] == pos.0
            &&& c1[slot + 1] == pos.1
            &&& (forall|k: int|
                0 <= k < c1.len() && k != slot && k != slot + 1 ==> #[trigger] c1[k] == (if k
                    < c0.len() {
                    c0[k]
                } else {
                    0x7fc0_0000u32
                }))
            &&& trip.0 == 73
            &&& trip.1 == checkpoint_num as i32 + 256
            &&& trip.2 == 0
        },
        WobjType::Slime { flying } => t1 == t0 && s1 == s0 && c1 == c0 && e1 == e0 && trip == (
            if flying {
                35i32
            } else {
                2i32
            },
            0i32,
            0u32,
        ),
        WobjType::Heavy { speed, face_left } => t1 == t0 && s1 == s0 && c1 == c0 && e1 == e0
            && trip == (36i32, 0i32, spec_with_sign(speed, face_left)),
        WobjType::Dragon { space_skin } => t1 == t0 && s1 == s0 && c1 == c0 && e1 == e0 && trip
            == (38i32, spec_b2i(space_skin), 0u32),
        WobjType::BozoPin { flying_speed } => t1 == t0 && s1 == s0 && c1 == c0 && e1 == e0 && trip
            == (40i32, 0i32, flying_speed),
        WobjType::Bozo { mark_ii } => t1 == t0 && s1 == s0 && c1 == c0 && e1 == e0 && trip == (
            if mark_ii {
                72i32
            } else {
                41i32
            },
            0i32,
            0u32,
        ),
        WobjType::SilverSlime => t1 == t0 && s1 == s0 && c1 == c0 && e1 == e0 && trip == (
            42i32,
            0i32,
            0u32,
        ),
        WobjType::LavaMonster { face_left } => t1 == t0 && s1 == s0 && c1 == c0 && e1 == e0
            && trip == (43i32, spec_b2i(face_left), 0u32),
        WobjType::TtMinion { small } => t1 == t0 && s1 == s0 && c1 == c0 && e1 == e0 && trip == (
            if small {
                44i32
            } else {
                45i32
            },
            0i32,
            0u32,
        ),
        WobjType::SlimeWalker => t1 == t0 && s1 == s0 && c1 == c0 && e1 == e0 && trip == (
            46i32,
            0i32,
            0u32,
        ),
        WobjType::MegaFish { water_level, swimming_speed } => t1 == t0 && s1 == s0 && c1 == c0
            && e1 == e0 && trip == (47i32, water_level, swimming_speed),
        WobjType::LavaDragonHead { len, health } => t1 == t0 && s1 == s0 && c1 == c0 && e1 == e0
            && trip == (48i32, len as i32, health),
        WobjType::TtBoss { speed } => t1 == t0 && s1 == s0 && c1 == c0 && e1 == e0 && trip == (
            54i32,
            0i32,
            speed,
        ),
        WobjType::EaterBug { pop_up_speed } => t1 == t0 && s1 == s0 && c1 == c0 && e1 == e0
            && trip == (55i32, 0i32, pop_up_speed),
        WobjType::SpiderWalker { speed } => t1 == t0 && s1 == s0 && c1 == c0 && e1 == e0 && trip
            == (57i32, 0i32, speed),
        WobjType::SpikeTrap => t1 == t0 && s1 == s0 && c1 == c0 && e1 == e0 && trip == (
            59i32,
            0i32,
            0u32,
        ),
        WobjType::SuperDragon { waypoint_id } => t1 == t0 && s1 == s0 && c1 == c0 && e1 == e0
            && trip == (63i32, waypoint_id as i32, 0u32),
        WobjType::BozoLaserMinion { speed } => t1 == t0 && s1 == s0 && c1 == c0 && e1 == e0
            && trip == (69i32, 0i32, speed),
        WobjType::SpikeGuy => t1 == t0 && s1 == s0 && c1 == c0 && e1 == e0 && trip == (
            74i32,
            0i32,
            0u32,
        ),
        WobjType::BanditGuy { speed } => t1 == t0 && s1 == s0 && c1 == c0 && e1 == e0 && trip == (
            76i32,
            0i32,
            speed,
        ),
        WobjType::KamakaziSlime => t1 == t0 && s1 == s0 && c1 == c0 && e1 == e0 && trip == (
            84i32,
            0i32,
            0u32,
        ),
        WobjType::RockGuy { rock_guy_type } => t1 == t0 && s1 == s0 && c1 == c0 && e1 == e0 && (
        match rock_guy_type {
            RockGuyType::Medium => trip == (97i32, 0i32, 0u32),
            RockGuyType::Small1 => trip == (98i32, 0i32, 0u32),
            RockGuyType::Small2 { face_left } => trip == (99i32, spec_b2i(face_left), 0u32),
        }),
        WobjType::RockGuySlider => t1 == t0 && s1 == s0 && c1 == c0 && e1 == e0 && trip == (
            100i32,
            0i32,
            0u32,
        ),
        WobjType::RockGuySmasher => t1 == t0 && s1 == s0 && c1 == c0 && e1 == e0 && trip == (
            101i32,
            0i32,
            0u32,
        ),
        WobjType::Wolf => t1 == t0 && s1 == s0 && c1 == c0 && e1 == e0 && trip == (
            122i32,
            0i32,
            0u32,
        ),
        WobjType::Supervirus => t1 == t0 && s1 == s0 && c1 == c0 && e1 == e0 && trip == (
            123i32,
            0i32,
            0u32,
        ),
        WobjType::Lua { lua_wobj_type } => t1 == t0 && s1 == s0 && c1 == c0 && e1 == e0 && trip
            == ((lua_wobj_type as i32 + 124) as i32, 0i32, 0u32),
        WobjType::FinishTrigger { next_level, extra_unlocked_level, is_secret } => {
            let secret_bits: i32 = if is_secret {
                0xf00
            } else {
                0
            };
            &&& t1 == t0 && s1 == s0 && c1 == c0
            &&& trip.0 == 141
            &&& (match extra_unlocked_level {
                Some(extra) => exists|emid: Seq<String>, i1: int, i2: int|
                    #[trigger] spec_line_interned(e0, emid, next_level@, i1) && #[trigger]
                    spec_line_interned(emid, e1, extra@, i2) && trip.1 == (i1 as i32)
                        | secret_bits && trip.2 == fbits::spec_of_u32((i2 + 1) as u32),
                None => exists|i1: int|
                    #[trigger] spec_line_interned(e0, e1, next_level@, i1) && trip.1 == (
                    i1 as i32) | secret_bits && trip.2 == fbits::spec_of_u32(0),
            })
        },
        WobjType::GravityTrigger { gravity } => t1 == t0 && s1 == s0 && c1 == c0 && e1 == e0
            && trip == (143i32, 0i32, gravity),
        WobjType::SkinUnlock { id } => t1 == t0 && s1 == s0 && c1 == c0 && e1 == e0 && trip == (
            148i32,
            id as i32,
            0u32,
        ),
        WobjType::CoolPlatform { time_off_before, time_on, time_off_after } => {
            &&& t1 == t0 && s1 == s0 && c1 == c0 && e1 == e0
            &&& trip.0 == 149
            &&& trip.1 == (time_off_after as i32) | ((time_on as i32) << 8u32) | ((
            time_off_before as i32) << 16u32)
            &&& trip.2 == 0
        },
    }
}

} // verus!

verus! {

/// Whether the text table holds `lines` consecutively starting at `p`.
fn lines_match_at(ending_text: &Vec<String>, lines: &Vec<Vec<u8>>, p: usize) -> (r: bool)
    requires
        p < ending_text@.len(),
        ending_text@.len() < 0x1000_0000,
        lines@.len() < 0x1000_0000,
    ensures
        r == spec_lines_match_at(
            ending_text@,
            lines@.map_values(|v: Vec<u8>| v@),
            p as int,
        ),
{
    let ghost glines = lines@.map_values(|v: Vec<u8>| v@);
    let n = lines.len();
    let mut k: usize = 0;
    while k < n
        invariant
            k <= n,
            n == glines.len(),
            glines == lines@.map_values(|v: Vec<u8>| v@),
            p < ending_text@.len() < 0x1000_0000,
            n < 0x1000_0000,
            forall|j: int| 0 <= j < k ==> spec_line_bytes_at(ending_text@, p + j) == glines[j],
        decreases n - k,
    {
        let matches_here = if p + k < ending_text.len() {
            crate::lparse::bytes_eq(
                lines[k].as_slice(),
                ending_text[p + k].as_str().as_bytes(),
            )
        } else {
            lines[k].len() == 0
        };
        proof {
            assert(glines[k as int] == lines@[k as int]@);
            if p + k < ending_text@.len() {
            } else {
                assert(spec_line_bytes_at(ending_text@, p + k) =~= Seq::<u8>::empty());
                assert(glines[k as int].len() == 0 ==> glines[k as int] =~= Seq::<u8>::empty());
            }
        }
        if !matches_here {
            return false;
        }
        k = k + 1;
    }
    true
}

/// The first-match search stops at the first matching position, or at the
/// table's end.
proof fn lemma_find_lines(e: Seq<String>, lines: Seq<Seq<u8>>, s: int, p: int)
    requires
        0 <= s <= p <= e.len(),
        forall|q: int| s <= q < p ==> !spec_lines_match_at(e, lines, q),
        p < e.len() ==> spec_lines_match_at(e, lines, p),
    ensures
        spec_find_lines_from(e, lines, s) == (if p < e.len() {
            p
        } else {
            e.len() as int
        }),
    decreases e.len() - s,
{
    if s < e.len() && !spec_lines_match_at(e, lines, s) {
        assert(s < p);
        lemma_find_lines(e, lines, s + 1, p);
    }
}

impl WobjType {
    /// Encodes this world object into the scalar triple, interning auxiliary
    /// rows into the tables. `pos` is the owning spawner's position (player
    /// spawns and checkpoints record it in the spawn tables).
    #[verifier::rlimit(90)]
    #[verifier::spinoff_prover]
    pub fn serialize(
        &self,
        teleports: &mut Vec<Teleport>,
        spawns: &mut Vec<u32>,
        checkpoints: &mut Vec<u32>,
        ending_text: &mut Vec<String>,
        pos: Point,
        version: &VersionSpecs,
    ) -> (r: (i32, i32, u32))
        requires
            spec_wobj_enc_wf(*self),
            old(teleports)@.len() < 0x1000_0000,
            old(ending_text)@.len() < 0x0100_0000,
            old(spawns)@.len() < 0x1000_0000,
            old(checkpoints)@.len() < 0x1000_0000,
        ensures
            spec_wobj_encoded(
                *self,
                pos,
                old(teleports)@,
                final(teleports)@,
                old(spawns)@,
                final(spawns)@,
                old(checkpoints)@,
                final(checkpoints)@,
                old(ending_text)@,
                final(ending_text)@,
                r,
            ),
            final(teleports)@.len() <= old(teleports)@.len() + 1,
            final(spawns)@.len() <= old(spawns)@.len() + 2,
            final(checkpoints)@.len() <= old(checkpoints)@.len() + 512,
            final(ending_text)@.len() <= old(ending_text)@.len() + (match self {
                WobjType::TextSpawner { text, .. } => spec_lines_of(
                    vstd::utf8::encode_utf8(text@),
                ).len() + 1,
                WobjType::FinishTrigger { .. } => 4,
                _ => 2,
            }),
    {
        match self {
            WobjType::Teleport(t) => {
                let row = Teleport { name: t.name.clone(), cost: t.cost, loc: t.loc };
                let idx = intern_teleport(teleports, row);
                (1, idx as i32, 0)
            },
            WobjType::TeleportArea1 { link_id, loc } => {
                let row = Teleport { name: "_TELEAREA".to_owned(), cost: 0, loc: *loc };
                let idx = intern_teleport(teleports, row);
                (120, idx as i32, fbits::f32b_of_u32(*link_id))
            },
            WobjType::TeleportArea2 { loc, start_activated, teleport_players, link_id } => {
                let row = Teleport { name: "_TELEARE2".to_owned(), cost: 0, loc: *loc };
                let idx = intern_teleport(teleports, row);
                let tp_bits: i32 = if *teleport_players {
                    0
                } else {
                    0x20000
                };
                let sa_bits: i32 = if *start_activated {
                    0x10000
                } else {
                    0
                };
                let ci = (idx as i32) | tp_bits | sa_bits;
                proof {
                    assert(spec_tele_interned(
                        old(teleports)@,
                        final(teleports)@,
                        "_TELEARE2"@,
                        0,
                        *loc,
                        idx as int,
                    ));
                }
                (150, ci, fbits::f32b_of_u32(*link_id))
            },
            WobjType::TunesTrigger { size, music_id } => {
                let id = match size {
                    TunesTriggerSize::Small => 6,
                    TunesTriggerSize::Big => 7,
                    TunesTriggerSize::VeryBig => 89,
                };
                (id, *music_id as i32, 0)
            },
            WobjType::PlayerSpawn => {
                spawns.push(pos.0);
                spawns.push(pos.1);
                proof {
                    assert(spawns@ =~= old(spawns)@ + seq![pos.0, pos.1]);
                }
                ((8), (spawns.len() / 2 - 1) as i32, 0)
            },
            WobjType::TextSpawner { dialoge_box, despawn, text } => {
                let id: i32 = if *dialoge_box {
                    108
                } else {
                    9
                };
                let despawn_bits: i32 = if *despawn {
                    0x0100_0000
                } else {
                    0
                };
                let bytes = text::string_to_bytes(text.as_str());
                let lines = split_lines(bytes.as_slice());
                let ghost glines = lines@.map_values(|v: Vec<u8>| v@);
                proof {
                    assert(glines =~= spec_lines_of(vstd::utf8::encode_utf8(text@)));
                    lemma_lines_of_len(bytes@);
                }
                let n0 = ending_text.len();
                let mut p: usize = 0;
                while p < n0 && !lines_match_at(ending_text, &lines, p)
                    invariant
                        p <= n0,
                        n0 == ending_text@.len() < 0x1000_0000,
                        lines@.len() < 0x1000_0000,
                        glines == lines@.map_values(|v: Vec<u8>| v@),
                        glines.len() == lines@.len(),
                        ending_text@ == old(ending_text)@,
                        forall|q: int|
                            0 <= q < p ==> !spec_lines_match_at(ending_text@, glines, q),
                    decreases n0 - p,
                {
                    p = p + 1;
                }
                proof {
                    lemma_find_lines(ending_text@, glines, 0, p as int);
                }
                if p < n0 {
                    proof {
                        assert(glines.len() >= 1) by {
                            assert(vstd::utf8::encode_utf8(text@).len() > 0) by {
                                vstd::utf8::encode_utf8_decode_utf8(text@);
                            }
                        }
                    }
                    (
                        id,
                        p as i32 | despawn_bits,
                        fbits::f32b_of_u32((p + lines.len() - 1) as u32),
                    )
                } else {
                    let start = n0;
                    let nlines = lines.len();
                    proof {
                        assert(glines.len() >= 1) by {
                            assert(vstd::utf8::encode_utf8(text@).len() > 0) by {
                                vstd::utf8::encode_utf8_decode_utf8(text@);
                            }
                        }
                    }
                    let mut k: usize = 0;
                    let ghost e0 = ending_text@;
                    while k < nlines
                        invariant
                            k <= nlines,
                            nlines == glines.len(),
                            glines == lines@.map_values(|v: Vec<u8>| v@),
                            1 <= nlines < 0x1000_0000,
                            start == e0.len() < 0x1000_0000,
                            e0 == old(ending_text)@,
                            ending_text@.subrange(0, start as int) == e0,
                            (if start <= 47 && start + k > 47 {
                                &&& ending_text@.len() == start + k + 1
                                &&& ending_text@[47]@ == Seq::<char>::empty()
                                &&& (forall|j: int|
                                    0 <= j < 47 - start ==> spec_stored_line(
                                        #[trigger] ending_text@[start + j],
                                        glines[j],
                                    ))
                                &&& (forall|j: int|
                                    47 - start <= j < k ==> spec_stored_line(
                                        #[trigger] ending_text@[start + j + 1],
                                        glines[j],
                                    ))
                            } else {
                                &&& ending_text@.len() == start + k
                                &&& (forall|j: int|
                                    0 <= j < k ==> spec_stored_line(
                                        #[trigger] ending_text@[start + j],
                                        glines[j],
                                    ))
                            }),
                        decreases nlines - k,
                    {
                        if ending_text.len() == 47 {
                            ending_text.push(String::new());
                        }
                        let trimmed = trim_end_ws(lines[k].clone());
                        let stored = match text::string_from_utf8(trimmed) {
                            Some(s) => s,
                            None => String::new(),
                        };
                        ending_text.push(stored);
                        proof {
                            assert(ending_text@.subrange(0, start as int) =~= e0);
                        }
                        k = k + 1;
                    }
                    proof {
                        assert(spec_text_appended(e0, ending_text@, glines));
                    }
                    (
                        id,
                        start as i32 | despawn_bits,
                        fbits::f32b_of_u32((ending_text.len() - 1) as u32),
                    )
                }
            },
            WobjType::BackgroundSwitcher { shape, enabled_layers_start, enabled_layers_end } => {
                let id = match shape {
                    BackgroundSwitcherShape::Small => 12,
                    BackgroundSwitcherShape::Horizontal => 87,
                    BackgroundSwitcherShape::Vertical => 88,
                };
                (id, *enabled_layers_start as i32, fbits::f32b_of_u32(*enabled_layers_end))
            },
            WobjType::DroppedItem { item } => (16, item.get_item_id() as i32, 0),
            WobjType::TtNode { node_type } => match node_type {
                TtNodeType::ChaseTrigger => (51, 0, 0),
                TtNodeType::NormalTrigger => (52, 0, 0),
                TtNodeType::Waypoint(wp) => (53, *wp, 0),
                TtNodeType::BozoWaypoint => (146, 0, 0),
            },
            WobjType::RotatingFireColunmPiece { origin_x, degrees_per_frame } => (
                60,
                *origin_x,
                *degrees_per_frame,
            ),
            WobjType::MovingFire { vertical, dist, speed, despawn } => {
                let id: i32 = if *vertical {
                    61
                } else {
                    62
                };
                let cf = if *despawn {
                    *speed | 0x8000_0000
                } else {
                    *speed
                };
                (id, *dist, cf)
            },
            WobjType::PushZone { push_zone_type, push_speed } => {
                let id = match push_zone_type {
                    PushZoneType::Horizontal => 77,
                    PushZoneType::Vertical => 78,
                    PushZoneType::HorizontalSmall => 80,
                };
                (id, 0, *push_speed)
            },
            WobjType::VerticalWindZone { acceleration } => (79, 0, *acceleration),
            WobjType::SuperDragonLandingZone { waypoint_id } => (64, *waypoint_id as i32, 0),
            WobjType::Jumpthrough { big } => (
                if *big {
                    91
                } else {
                    90
                },
                0,
                0,
            ),
            WobjType::HealthSetTrigger { target_health } => (104, 0, *target_health),
            WobjType::GraphicsChangeTrigger { gfx_file } => {
                let idx = intern_line(ending_text, gfx_file);
                (109, idx as i32, 0)
            },
            WobjType::BossBarInfo { boss_name } => {
                let idx = intern_line(ending_text, boss_name);
                (115, idx as i32, 0)
            },
            WobjType::BgSpeed { vertical_axis, layer, speed } => (
                if *vertical_axis {
                    117
                } else {
                    116
                },
                *layer as i32,
                *speed,
            ),
            WobjType::BgTransparency { layer, transparency } => (
                118,
                *layer as i32,
                fbits::f32b_of_u32(*transparency as u32),
            ),
            WobjType::TeleportTrigger1 { link_id, delay_secs } => (
                119,
                *link_id as i32,
                *delay_secs,
            ),
            WobjType::SfxPoint { sound_id } => (121, *sound_id as i32, 0),
            WobjType::BreakableWall { skin_id, health } => match skin_id {
                Some(skin) => (93, *skin as i32, *health),
                None => (11, 0, *health),
            },
            WobjType::MovingPlatform { vertical, travel_frames, speed } => (
                if *vertical {
                    82
                } else {
                    10
                },
                *travel_frames,
                *speed,
            ),
            WobjType::DisapearingPlatform { time_on_frames, time_off_frames, starts_on } => {
                let ci: i32 = if *starts_on {
                    *time_on_frames as i32
                } else {
                    (0 - (*time_on_frames as i64)) as i32
                };
                (83, ci, *time_off_frames)
            },
            WobjType::SpringBoard { jump_velocity } => (86, 0, *jump_velocity),
            WobjType::BreakablePlatform { time_till_fall_frames } => (
                92,
                *time_till_fall_frames,
                0,
            ),
            WobjType::CustomizeableMoveablePlatform {
                bitmap_x32,
                bitmap_y32,
                vel_x_sixteenths,
                vel_y_sixteenths,
                frames,
                start_paused,
                ty,
            } => {
                let bx = *bitmap_x32;
                let by = *bitmap_y32;
                let nx = vel_nibbles(*vel_x_sixteenths);
                let ny = vel_nibbles(*vel_y_sixteenths);
                let bits = (bx & 0xf) | ((by & 0xfff) << 4u32) | (nx << 16u32) | (ny << 24u32);
                let q = ty.to_quarter_id();
                let mq: u64 = if *start_paused && q > 0 {
                    4 * (*frames as u64) - q as u64
                } else {
                    4 * (*frames as u64) + q as u64
                };
                let cf_mag = fbits::f32b_of_quarters(mq);
                let cf = if *start_paused {
                    cf_mag | 0x8000_0000
                } else {
                    cf_mag
                };
                (107, bits as i32, cf)
            },
            WobjType::LockedBlock { color, consume_key } => {
                let id = match color {
                    KeyColor::Red => 94,
                    KeyColor::Green => 95,
                    KeyColor::Blue => 96,
                };
                (
                    id,
                    if *consume_key {
                        1
                    } else {
                        0
                    },
                    0,
                )
            },
            WobjType::Vortex { attract_enemies } => (
                105,
                if *attract_enemies {
                    1
                } else {
                    0
                },
                0,
            ),
            WobjType::WandRune { rune_type } => (
                match rune_type {
                    RuneType::Ice => 19,
                    RuneType::Air => 20,
                    RuneType::Fire => 21,
                    RuneType::Lightning => 22,
                },
                0,
                0,
            ),
            WobjType::UpgradeTrigger { trigger_type } => match trigger_type {
                UpgradeTriggerType::MaxPowerRune { skin_power_override } => match skin_power_override {
                    Some(skin) => (114, *skin as i32 + 1, 0),
                    None => (114, 0, 0),
                },
                UpgradeTriggerType::DeephausBoots => (32, 0, 0),
                UpgradeTriggerType::Wings => (33, 0, 0),
                UpgradeTriggerType::CrystalWings => (34, 0, 0),
                UpgradeTriggerType::Vortex => (106, 0, 0),
                UpgradeTriggerType::NoUpgrade => (140, 0, 0),
            },
            WobjType::Checkpoint { checkpoint_num } => {
                let slot = 2 * (*checkpoint_num as usize);
                while checkpoints.len() < slot + 2
                    invariant
                        slot <= 510,
                        old(checkpoints)@.len() <= checkpoints@.len(),
                        checkpoints@.len() <= (if old(checkpoints)@.len() >= slot + 2 {
                            old(checkpoints)@.len() as int
                        } else {
                            slot + 2
                        }),
                        checkpoints@.subrange(0, old(checkpoints)@.len() as int) == old(
                            checkpoints,
                        )@,
                        forall|j: int|
                            old(checkpoints)@.len() <= j < checkpoints@.len()
                                ==> #[trigger] checkpoints@[j] == 0x7fc0_0000u32,
                    decreases slot + 2 - checkpoints.len(),
                {
                    checkpoints.push(0x7fc0_0000);
                    proof {
                        assert(checkpoints@.subrange(0, old(checkpoints)@.len() as int) =~= old(
                            checkpoints,
                        )@);
                    }
                }
                let ghost padded = checkpoints@;
                checkpoints[slot] = pos.0;
                checkpoints[slot + 1] = pos.1;
                proof {
                    assert forall|k: int|
                        0 <= k < checkpoints@.len() && k != slot && k != slot + 1
                            implies #[trigger] checkpoints@[k] == (if k < old(
                        checkpoints,
                    )@.len() {
                        old(checkpoints)@[k]
                    } else {
                        0x7fc0_0000u32
                    }) by {
                        assert(checkpoints@[k] == padded[k]);
                        if k < old(checkpoints)@.len() {
                            assert(padded[k] == padded.subrange(
                                0,
                                old(checkpoints)@.len() as int,
                            )[k]);
                        }
                    }
                }
                (73, *checkpoint_num as i32 + 256, 0)
            },
            WobjType::Slime { flying } => (
                if *flying {
                    35
                } else {
                    2
                },
                0,
                0,
            ),
            WobjType::Heavy { speed, face_left } => (
                36,
                0,
                if *face_left {
                    *speed | 0x8000_0000
                } else {
                    *speed
                },
            ),
            WobjType::Dragon { space_skin } => (
                38,
                if *space_skin {
                    1
                } else {
                    0
                },
                0,
            ),
            WobjType::BozoPin { flying_speed } => (40, 0, *flying_speed),
            WobjType::Bozo { mark_ii } => (
                if *mark_ii {
                    72
                } else {
                    41
                },
                0,
                0,
            ),
            WobjType::SilverSlime => (42, 0, 0),
            WobjType::LavaMonster { face_left } => (
                43,
                if *face_left {
                    1
                } else {
                    0
                },
                0,
            ),
            WobjType::TtMinion { small } => (
                if *small {
                    44
                } else {
                    45
                },
                0,
                0,
            ),
            WobjType::SlimeWalker => (46, 0, 0),
            WobjType::MegaFish { water_level, swimming_speed } => (
                47,
                *water_level,
                *swimming_speed,
            ),
            WobjType::LavaDragonHead { len, health } => (48, *len as i32, *health),
            WobjType::TtBoss { speed } => (54, 0, *speed),
            WobjType::EaterBug { pop_up_speed } => (55, 0, *pop_up_speed),
            WobjType::SpiderWalker { speed } => (57, 0, *speed),
            WobjType::SpikeTrap => (59, 0, 0),
            WobjType::SuperDragon { waypoint_id } => (63, *waypoint_id as i32, 0),
            WobjType::BozoLaserMinion { speed } => (69, 0, *speed),
            WobjType::SpikeGuy => (74, 0, 0),
            WobjType::BanditGuy { speed } => (76, 0, *speed),
            WobjType::KamakaziSlime => (84, 0, 0),
            WobjType::RockGuy { rock_guy_type } => match rock_guy_type {
                RockGuyType::Medium => (97, 0, 0),
                RockGuyType::Small1 => (98, 0, 0),
                RockGuyType::Small2 { face_left } => (
                    99,
                    if *face_left {
                        1
                    } else {
                        0
                    },
                    0,
                ),
            },
            WobjType::RockGuySlider => (100, 0, 0),
            WobjType::RockGuySmasher => (101, 0, 0),
            WobjType::Wolf => (122, 0, 0),
            WobjType::Supervirus => (123, 0, 0),
            WobjType::Lua { lua_wobj_type } => (*lua_wobj_type as i32 + 124, 0, 0),
            WobjType::FinishTrigger { next_level, extra_unlocked_level, is_secret } => {
                let secret_bits: i32 = if *is_secret {
                    0xf00
                } else {
                    0
                };
                let i1 = intern_line(ending_text, next_level);
                let ghost emid = ending_text@;
                match extra_unlocked_level {
                    Some(extra) => {
                        let i2 = intern_line(ending_text, extra);
                        proof {
                            assert(spec_line_interned(
                                old(ending_text)@,
                                emid,
                                next_level@,
                                i1 as int,
                            ));
                            assert(spec_line_interned(emid, final(ending_text)@, extra@, i2 as int));
                        }
                        (141, i1 as i32 | secret_bits, fbits::f32b_of_u32((i2 + 1) as u32))
                    },
                    None => {
                        proof {
                            assert(spec_line_interned(
                                old(ending_text)@,
                                final(ending_text)@,
                                next_level@,
                                i1 as int,
                            ));
                        }
                        (141, i1 as i32 | secret_bits, fbits::f32b_of_u32(0))
                    },
                }
            },
            WobjType::GravityTrigger { gravity } => (143, 0, *gravity),
            WobjType::SkinUnlock { id } => (148, *id as i32, 0),
            WobjType::CoolPlatform { time_off_before, time_on, time_off_after } => (
                149,
                (*time_off_after as i32) | ((*time_on as i32) << 8u32) | ((*time_off_before
                    as i32) << 16u32),
                0,
            ),
        }
    }
}

/// The packed velocity byte of a velocity in sixteenths.
fn vel_nibbles(s: i32) -> (r: u32)
    requires
        -143 <= s <= 127,
    ensures
        r == spec_vel_nibbles(s as int),
        r <= 255,
{
    if s >= 0 {
        ((s / 16 + 8) * 16 + s % 16) as u32
    } else {
        let m = -s;
        ((8 - m / 16) * 16 + m % 16) as u32
    }
}

} // verus!

verus! {

/// Table dedup: interning the same teleport row twice adds at most one row;
/// the second interning leaves the table unchanged and returns the same
/// index, so two equal teleports share one row and two references to it.
pub proof fn lemma_teleport_dedup(
    t0: Seq<Teleport>,
    t1: Seq<Teleport>,
    t2: Seq<Teleport>,
    name: Seq<char>,
    cost: i32,
    loc: Point,
    i1: int,
    i2: int,
)
    requires
        spec_tele_interned(t0, t1, name, cost, loc, i1),
        spec_tele_interned(t1, t2, name, cost, loc, i2),
    ensures
        t2 == t1,
        i2 == i1,
        t1.len() <= t0.len() + 1,
{
    if exists|j: int| 0 <= j < t0.len() && spec_row_eq(#[trigger] t0[j], name, cost, loc) {
        assert(spec_row_eq(t1[i1], name, cost, loc));
    } else {
        assert(spec_row_eq(t1[i1], name, cost, loc));
        assert forall|k: int| 0 <= k < i1 implies !spec_row_eq(#[trigger] t1[k], name, cost, loc) by {
            assert(t1[k] == t1.subrange(0, t0.len() as int)[k]);
        }
    }
    assert(exists|j: int| 0 <= j < t1.len() && spec_row_eq(#[trigger] t1[j], name, cost, loc));
    if i2 < i1 {
        assert(!spec_row_eq(t1[i2], name, cost, loc));
    }
    if i1 < i2 {
        assert(!spec_row_eq(t1[i1], name, cost, loc));
    }
}

/// The same dedup law for the text-line table: interning the same nonempty
/// line twice adds at most two slots (one may be the title pad), and the
/// second interning leaves the table unchanged and returns the same index.
/// (An empty line is excluded: interning one across the reserved title slot
/// first writes an empty pad line, which a second interning then finds.)
pub proof fn lemma_line_dedup(
    e0: Seq<String>,
    e1: Seq<String>,
    e2: Seq<String>,
    line: Seq<char>,
    i1: int,
    i2: int,
)
    requires
        line.len() > 0,
        spec_line_interned(e0, e1, line, i1),
        spec_line_interned(e1, e2, line, i2),
    ensures
        e2 == e1,
        i2 == i1,
        e1.len() <= e0.len() + 2,
{
    if exists|j: int| 0 <= j < e0.len() && (#[trigger] e0[j])@ == line {
        assert(e1[i1]@ == line);
    } else if e0.len() == 47 {
        assert(e1[i1]@ == line);
        assert forall|k: int| 0 <= k < i1 implies (#[trigger] e1[k])@ != line by {
            if k < 47 {
                assert(e1[k] == e1.subrange(0, 47)[k]);
            }
        }
    } else {
        assert(e1[i1]@ == line);
        assert forall|k: int| 0 <= k < i1 implies (#[trigger] e1[k])@ != line by {
            assert(e1[k] == e1.subrange(0, e0.len() as int)[k]);
        }
    }
    assert(exists|j: int| 0 <= j < e1.len() && (#[trigger] e1[j])@ == line);
    if i2 < i1 {
        assert(e1[i2]@ != line);
    }
    if i1 < i2 {
        assert(e1[i1]@ != line);
    }
}

} // verus!

verus! {

/// Whether two world objects hold the same data, for the variants whose
/// encoding touches no auxiliary table.
pub open spec fn spec_wobj_scalar_eq(a: WobjType, b: WobjType) -> bool {
    match (a, b) {
        (
            WobjType::TunesTrigger { size: s1, music_id: m1 },
            WobjType::TunesTrigger { size: s2, music_id: m2 },
        ) => s1 == s2 && m1 == m2,
        (WobjType::Slime { flying: f1 }, WobjType::Slime { flying: f2 }) => f1 == f2,
        (
            WobjType::Heavy { speed: s1, face_left: l1 },
            WobjType::Heavy { speed: s2, face_left: l2 },
        ) => s1 == s2 && l1 == l2,
        (
            WobjType::MovingFire { vertical: v1, dist: d1, speed: s1, despawn: p1 },
            WobjType::MovingFire { vertical: v2, dist: d2, speed: s2, despawn: p2 },
        ) => v1 == v2 && d1 == d2 && s1 == s2 && p1 == p2,
        (
            WobjType::MovingPlatform { vertical: v1, travel_frames: t1, speed: s1 },
            WobjType::MovingPlatform { vertical: v2, travel_frames: t2, speed: s2 },
        ) => v1 == v2 && t1 == t2 && s1 == s2,
        (
            WobjType::MegaFish { water_level: w1, swimming_speed: s1 },
            WobjType::MegaFish { water_level: w2, swimming_speed: s2 },
        ) => w1 == w2 && s1 == s2,
        (
            WobjType::LavaDragonHead { len: l1, health: h1 },
            WobjType::LavaDragonHead { len: l2, health: h2 },
        ) => l1 == l2 && h1 == h2,
        (
            WobjType::LockedBlock { color: c1, consume_key: k1 },
            WobjType::LockedBlock { color: c2, consume_key: k2 },
        ) => c1 == c2 && k1 == k2,
        (WobjType::TtNode { node_type: n1 }, WobjType::TtNode { node_type: n2 }) => n1 == n2,
        (WobjType::SpringBoard { jump_velocity: j1 }, WobjType::SpringBoard { jump_velocity: j2 })
            => j1 == j2,
        (WobjType::TtMinion { small: s1 }, WobjType::TtMinion { small: s2 }) => s1 == s2,
        (
            WobjType::DisapearingPlatform { time_on_frames: n1, time_off_frames: f1, starts_on: o1 },
            WobjType::DisapearingPlatform { time_on_frames: n2, time_off_frames: f2, starts_on: o2 },
        ) => n1 == n2 && f1 == f2 && o1 == o2,
        (
            WobjType::UpgradeTrigger { trigger_type: t1 },
            WobjType::UpgradeTrigger { trigger_type: t2 },
        ) => t1 == t2,
        (WobjType::SilverSlime, WobjType::SilverSlime) => true,
        (WobjType::Wolf, WobjType::Wolf) => true,
        _ => false,
    }
}

/// Round trip of the scalar encoding patterns: for world objects of the
/// id-only, id-plus-scalar and sign-folded patterns (a representative slice
/// of each), decoding an encoded triple gives the object's data back,
/// whatever container the decoder reads tables from. Sign-carrying speed
/// slots must hold a nonzero, non-NaN magnitude: the sign of a float zero or
/// NaN cannot carry the flag.
pub proof fn lemma_wobj_scalar_round_trip(
    w: WobjType,
    w2: WobjType,
    em: Map<Seq<char>, EntryData>,
    pos: Point,
    t0: Seq<Teleport>,
    t1: Seq<Teleport>,
    s0: Seq<u32>,
    s1: Seq<u32>,
    c0: Seq<u32>,
    c1: Seq<u32>,
    e0: Seq<String>,
    e1: Seq<String>,
    trip: (i32, i32, u32),
)
    requires
        match w {
            WobjType::TunesTrigger { .. } => true,
            WobjType::Slime { .. } => true,
            WobjType::Heavy { speed, .. } => !fbits::spec_sign(speed) && !fbits::spec_is_nan(
                speed,
            ) && speed != 0,
            WobjType::MovingFire { speed, .. } => !fbits::spec_sign(speed)
                && !fbits::spec_is_nan(speed) && speed != 0,
            WobjType::MovingPlatform { .. } => true,
            WobjType::MegaFish { .. } => true,
            WobjType::LavaDragonHead { len, .. } => len <= 32,
            WobjType::LockedBlock { .. } => true,
            WobjType::TtNode { .. } => true,
            WobjType::SpringBoard { .. } => true,
            WobjType::TtMinion { .. } => true,
            WobjType::DisapearingPlatform { time_on_frames, starts_on, .. } => time_on_frames
                <= i32::MAX as u32 && (time_on_frames > 0 || starts_on),
            WobjType::UpgradeTrigger { .. } => true,
            WobjType::SilverSlime => true,
            WobjType::Wolf => true,
            _ => false,
        },
        spec_wobj_encoded(w, pos, t0, t1, s0, s1, c0, c1, e0, e1, trip),
        spec_wobj_decoded(w2, em, trip.0, trip.1, trip.2, false),
    ensures
        spec_wobj_scalar_eq(w2, w),
{
    match w {
        WobjType::Heavy { speed, face_left } => {
            let cf = spec_with_sign(speed, face_left);
            assert(fbits::spec_abs(cf) == speed && fbits::spec_lt_zero(cf) == face_left)
                by (bit_vector)
                requires
                    cf == (if face_left {
                        speed | 0x8000_0000u32
                    } else {
                        speed
                    }),
                    speed & 0x8000_0000u32 == 0,
                    speed & 0x7fff_ffffu32 <= 0x7f80_0000u32,
                    speed != 0,
            ;
        },
        WobjType::MovingFire { speed, despawn, .. } => {
            let cf = spec_with_sign(speed, despawn);
            assert(fbits::spec_abs(cf) == speed && fbits::spec_lt_zero(cf) == despawn)
                by (bit_vector)
                requires
                    cf == (if despawn {
                        speed | 0x8000_0000u32
                    } else {
                        speed
                    }),
                    speed & 0x8000_0000u32 == 0,
                    speed & 0x7fff_ffffu32 <= 0x7f80_0000u32,
                    speed != 0,
            ;
        },
        WobjType::TunesTrigger { music_id, .. } => {
            let m = music_id;
            assert((m as i32) as u32 == m) by (bit_vector);
        },
        WobjType::LavaDragonHead { len, .. } => {
            let l = len;
            assert((l as i32) as u32 == l) by (bit_vector)
                requires
                    l <= 32,
            ;
        },
        WobjType::UpgradeTrigger { trigger_type } => {
            match trigger_type {
                UpgradeTriggerType::MaxPowerRune { skin_power_override } => {
                    match skin_power_override {
                        Some(skin) => {
                            let sk = skin;
                            assert((sk as i32 + 1) as i32 != 0 && (if ((sk as i32 + 1) as i32)
                                as u8 == 0 {
                                255u8
                            } else {
                                ((((sk as i32 + 1) as i32) as u8) - 1) as u8
                            }) == sk) by (bit_vector);
                        },
                        None => {},
                    }
                },
                _ => {},
            }
        },
        _ => {},
    }
}

} // verus!
