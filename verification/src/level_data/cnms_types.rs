//! Types of the `.cnms` file: spawners and the auxiliary text-line table.

use vstd::prelude::*;
use vstd::string::StringSliceAdditionalSpecFns;

use crate::lparse::{EntryData, Error, LParse};
use crate::text;
use super::{Duration, Point, VersionSpecs};
use super::item_type::ItemType;
use super::wobj_type::WobjType;

verus! {

/// In what context a world object spawns.
#[derive(Debug, Clone, Copy, PartialEq, Eq, Structural)]
pub enum SpawnerMode {
    /// Spawns in single player and multiplayer.
    MultiAndSingleplayer,
    /// Spawns only in single player.
    SingleplayerOnly,
    /// Spawns only in multiplayer.
    MultiplayerOnly,
    /// Spawns one object per player in the game.
    PlayerCountBased,
    /// Never spawns; the spawner only carries data.
    NoSpawn,
}

/// The mode a packed dropped-item word holds in its top byte, if any.
pub open spec fn spec_mode_from_packed(dropped_item: u32) -> Option<SpawnerMode> {
    let mode_id = (dropped_item & 0xff00_0000) >> 24u32;
    if mode_id == 0 {
        Some(SpawnerMode::MultiAndSingleplayer)
    } else if mode_id == 0x10 {
        Some(SpawnerMode::SingleplayerOnly)
    } else if mode_id == 0x20 {
        Some(SpawnerMode::MultiplayerOnly)
    } else if mode_id == 0x30 {
        Some(SpawnerMode::PlayerCountBased)
    } else if mode_id == 4 {
        Some(SpawnerMode::NoSpawn)
    } else {
        None
    }
}

/// The top-byte pattern a mode packs into the dropped-item word.
pub open spec fn spec_mode_to_packed(mode: SpawnerMode) -> u32 {
    match mode {
        SpawnerMode::MultiAndSingleplayer => 0,
        SpawnerMode::SingleplayerOnly => 0x1000_0000,
        SpawnerMode::MultiplayerOnly => 0x2000_0000,
        SpawnerMode::PlayerCountBased => 0x3000_0000,
        SpawnerMode::NoSpawn => 0x0400_0000,
    }
}

impl SpawnerMode {
    /// The mode the top byte of a packed dropped-item word denotes.
    pub fn from_packed_dropped_item(dropped_item: u32) -> (r: Option<Self>)
        ensures
            r == spec_mode_from_packed(dropped_item),
    {
        let mode_id = (dropped_item & 0xff00_0000) >> 24u32;
        match mode_id {
            0 => Some(Self::MultiAndSingleplayer),
            0x10 => Some(Self::SingleplayerOnly),
            0x20 => Some(Self::MultiplayerOnly),
            0x30 => Some(Self::PlayerCountBased),
            4 => Some(Self::NoSpawn),
            _ => None,
        }
    }

    /// The top-byte pattern this mode packs into a dropped-item word.
    pub fn to_packed_dropped_item(&self) -> (r: u32)
        ensures
            r == spec_mode_to_packed(*self),
    {
        match self {
            Self::MultiAndSingleplayer => 0,
            Self::SingleplayerOnly => 0x1000_0000,
            Self::MultiplayerOnly => 0x2000_0000,
            Self::PlayerCountBased => 0x3000_0000,
            Self::NoSpawn => 0x0400_0000,
        }
    }
}

/// Unpacking a packed spawner mode gives the mode back.
pub proof fn lemma_spawner_mode_round_trip(mode: SpawnerMode)
    ensures
        spec_mode_from_packed(spec_mode_to_packed(mode)) == Some(mode),
{
    assert((0x1000_0000u32 & 0xff00_0000) >> 24u32 == 0x10 && (0x2000_0000u32 & 0xff00_0000)
        >> 24u32 == 0x20 && (0x3000_0000u32 & 0xff00_0000) >> 24u32 == 0x30 && (0x0400_0000u32
        & 0xff00_0000) >> 24u32 == 4 && (0u32 & 0xff00_0000) >> 24u32 == 0) by (bit_vector);
}

/// How a spawner spawns its object.
#[derive(Debug, Clone, Copy, PartialEq, Eq, Structural)]
pub struct SpawningCriteria {
    /// Ticks between spawns (the file stores ticks; 30 ticks are a second).
    pub spawn_delay: Duration,
    /// In what context it spawns.
    pub mode: SpawnerMode,
    /// How many of its objects may exist at once.
    pub max_concurrent_spawns: u32,
}

/// A placed template for a world object.
#[derive(Debug, Clone)]
pub struct Spawner {
    /// Where it spawns (two `f32` bit patterns).
    pub pos: Point,
    /// What object it spawns.
    pub type_data: WobjType,
    /// When and how it spawns.
    pub spawning_criteria: SpawningCriteria,
    /// The item the object drops when destroyed.
    pub dropped_item: Option<ItemType>,
    /// The spawner group it belongs to (groups spawn on the same tick).
    pub spawner_group: Option<u8>,
}

// ---------------------------------------------------------------------------
// The text-line table.
// ---------------------------------------------------------------------------

/// Whether text line `index` can be read from the container: the
/// `ENDINGTEXT` entry is present as bytes, holds the full 32-byte line, and
/// the line (trailing zeros dropped) is valid UTF-8.
pub open spec fn spec_text_line_ok(em: Map<Seq<char>, EntryData>, index: int) -> bool {
    &&& em.contains_key("ENDINGTEXT"@)
    &&& em["ENDINGTEXT"@] matches EntryData::U8(v) && v@.len() >= (index + 1) * 32
        && vstd::utf8::valid_utf8(text::spec_trim_zeros(v@.subrange(index * 32, (index + 1) * 32)))
}

/// Text line `index` of the container, with trailing zeros dropped.
pub open spec fn spec_text_line(em: Map<Seq<char>, EntryData>, index: int) -> Seq<char> {
    vstd::utf8::decode_utf8(
        text::spec_trim_zeros(
            em["ENDINGTEXT"@]->U8_0@.subrange(index * 32, (index + 1) * 32),
        ),
    )
}

/// Reads text line `index` from the container.
pub fn get_ending_text_line(cnms: &LParse, version: &VersionSpecs, index: usize) -> (r: Result<
    String,
    Error,
>)
    ensures
        r is Ok <==> spec_text_line_ok(cnms.entries_map(), index as int),
        r matches Ok(s) ==> s@ == spec_text_line(cnms.entries_map(), index as int),
{
    let line_len = version.get_ending_text_line_len();
    let entry = match cnms.try_get_entry("ENDINGTEXT") {
        Ok(d) => d,
        Err(e) => {
            return Err(e);
        },
    };
    let bytes = match entry.try_get_u8() {
        Ok(v) => v,
        Err(e) => {
            return Err(e);
        },
    };
    if bytes.len() / line_len <= index {
        proof {
            assert(bytes@.len() < (index + 1) * 32) by (nonlinear_arith)
                requires
                    bytes@.len() as int / 32 <= index as int,
            ;
        }
        return Err(Error::Corrupted("a text line lies outside the text table".to_owned()));
    }
    let start = index * line_len;
    let end = start + line_len;
    proof {
        assert(start == index * 32 && (index as int) * 32 + 32 <= bytes@.len()) by (
        nonlinear_arith)
            requires
                start == index * 32,
                (index as int) < bytes@.len() as int / 32,
        ;
    }
    let mut raw: Vec<u8> = Vec::new();
    let mut i: usize = start;
    while i < end
        invariant
            start <= i <= end,
            end <= bytes@.len(),
            raw@ == bytes@.subrange(start as int, i as int),
        decreases end - i,
    {
        raw.push(bytes[i]);
        i = i + 1;
        proof {
            assert(raw@ =~= bytes@.subrange(start as int, i as int));
        }
    }
    let trimmed = text::trim_zero_bytes(raw);
    match text::string_from_utf8(trimmed) {
        Some(s) => Ok(s),
        None => Err(Error::Corrupted("a text line is not valid UTF-8".to_owned())),
    }
}

} // verus!

verus! {

/// The type id a world object encodes as (a function of the object alone).
pub open spec fn spec_wobj_type_id(w: WobjType) -> i32 {
    match w {
        WobjType::Teleport(_) => 1,
        WobjType::TeleportArea1 { .. } => 120,
        WobjType::TeleportArea2 { .. } => 150,
        WobjType::TunesTrigger { size, .. } => match size {
            super::wobj_type::TunesTriggerSize::Small => 6,
            super::wobj_type::TunesTriggerSize::Big => 7,
            super::wobj_type::TunesTriggerSize::VeryBig => 89,
        },
        WobjType::PlayerSpawn => 8,
        WobjType::TextSpawner { dialoge_box, .. } => if dialoge_box {
            108
        } else {
            9
        },
        WobjType::BackgroundSwitcher { shape, .. } => match shape {
            super::wobj_type::BackgroundSwitcherShape::Small => 12,
            super::wobj_type::BackgroundSwitcherShape::Horizontal => 87,
            super::wobj_type::BackgroundSwitcherShape::Vertical => 88,
        },
        WobjType::DroppedItem { .. } => 16,
        WobjType::WandRune { rune_type } => match rune_type {
            super::wobj_type::RuneType::Ice => 19,
            super::wobj_type::RuneType::Air => 20,
            super::wobj_type::RuneType::Fire => 21,
            super::wobj_type::RuneType::Lightning => 22,
        },
        WobjType::Heavy { .. } => 36,
        WobjType::Dragon { .. } => 38,
        WobjType::BozoPin { .. } => 40,
        WobjType::Bozo { mark_ii } => if mark_ii {
            72
        } else {
            41
        },
        WobjType::SilverSlime => 42,
        WobjType::LavaMonster { .. } => 43,
        WobjType::TtMinion { small } => if small {
            44
        } else {
            45
        },
        WobjType::SlimeWalker => 46,
        WobjType::MegaFish { .. } => 47,
        WobjType::LavaDragonHead { .. } => 48,
        WobjType::TtNode { node_type } => match node_type {
            super::wobj_type::TtNodeType::ChaseTrigger => 51,
            super::wobj_type::TtNodeType::NormalTrigger => 52,
            super::wobj_type::TtNodeType::Waypoint(_) => 53,
            super::wobj_type::TtNodeType::BozoWaypoint => 146,
        },
        WobjType::TtBoss { .. } => 54,
        WobjType::EaterBug { .. } => 55,
        WobjType::SpiderWalker { .. } => 57,
        WobjType::SpikeTrap => 59,
        WobjType::RotatingFireColunmPiece { .. } => 60,
        WobjType::MovingFire { vertical, .. } => if vertical {
            61
        } else {
            62
        },
        WobjType::SuperDragon { .. } => 63,
        WobjType::SuperDragonLandingZone { .. } => 64,
        WobjType::BozoLaserMinion { .. } => 69,
        WobjType::Checkpoint { .. } => 73,
        WobjType::SpikeGuy => 74,
        WobjType::BanditGuy { .. } => 76,
        WobjType::PushZone { push_zone_type, .. } => match push_zone_type {
            super::wobj_type::PushZoneType::Horizontal => 77,
            super::wobj_type::PushZoneType::Vertical => 78,
            super::wobj_type::PushZoneType::HorizontalSmall => 80,
        },
        WobjType::VerticalWindZone { .. } => 79,
        WobjType::DisapearingPlatform { .. } => 83,
        WobjType::KamakaziSlime => 84,
        WobjType::SpringBoard { .. } => 86,
        WobjType::Jumpthrough { big } => if big {
            91
        } else {
            90
        },
        WobjType::BreakablePlatform { .. } => 92,
        WobjType::BreakableWall { skin_id, .. } => if skin_id is Some {
            93
        } else {
            11
        },
        WobjType::MovingPlatform { vertical, .. } => if vertical {
            82
        } else {
            10
        },
        WobjType::LockedBlock { color, .. } => match color {
            super::wobj_type::KeyColor::Red => 94,
            super::wobj_type::KeyColor::Green => 95,
            super::wobj_type::KeyColor::Blue => 96,
        },
        WobjType::RockGuy { rock_guy_type } => match rock_guy_type {
            super::wobj_type::RockGuyType::Medium => 97,
            super::wobj_type::RockGuyType::Small1 => 98,
            super::wobj_type::RockGuyType::Small2 { .. } => 99,
        },
        WobjType::RockGuySlider => 100,
        WobjType::RockGuySmasher => 101,
        WobjType::HealthSetTrigger { .. } => 104,
        WobjType::Vortex { .. } => 105,
        WobjType::CustomizeableMoveablePlatform { .. } => 107,
        WobjType::GraphicsChangeTrigger { .. } => 109,
        WobjType::BossBarInfo { .. } => 115,
        WobjType::BgSpeed { vertical_axis, .. } => if vertical_axis {
            117
        } else {
            116
        },
        WobjType::BgTransparency { .. } => 118,
        WobjType::TeleportTrigger1 { .. } => 119,
        WobjType::SfxPoint { .. } => 121,
        WobjType::Wolf => 122,
        WobjType::Supervirus => 123,
        WobjType::Lua { lua_wobj_type } => (lua_wobj_type as i32 + 124) as i32,
        WobjType::UpgradeTrigger { trigger_type } => match trigger_type {
            super::wobj_type::UpgradeTriggerType::MaxPowerRune { .. } => 114,
            super::wobj_type::UpgradeTriggerType::DeephausBoots => 32,
            super::wobj_type::UpgradeTriggerType::Wings => 33,
            super::wobj_type::UpgradeTriggerType::CrystalWings => 34,
            super::wobj_type::UpgradeTriggerType::Vortex => 106,
            super::wobj_type::UpgradeTriggerType::NoUpgrade => 140,
        },
        WobjType::FinishTrigger { .. } => 141,
        WobjType::Slime { flying } => if flying {
            35
        } else {
            2
        },
        WobjType::GravityTrigger { .. } => 143,
        WobjType::SkinUnlock { .. } => 148,
        WobjType::CoolPlatform { .. } => 149,
    }
}

/// The packed dropped-item word a spawner stores: the item id (0 for none)
/// with the spawn mode packed into the top byte.
pub open spec fn spec_ditem_word(sp: Spawner) -> u32 {
    (match sp.dropped_item {
        Some(item) => super::item_type::spec_item_id(item),
        None => 0,
    }) | spec_mode_to_packed(sp.spawning_criteria.mode)
}

/// The group byte a spawner stores (255 for none).
pub open spec fn spec_group_byte(sp: Spawner) -> u8 {
    match sp.spawner_group {
        Some(g) => g,
        None => 255,
    }
}

/// Whether decoding spawner `index` succeeds: the five per-spawner arrays
/// hold the slot (the group array only when present), the packed mode is
/// known (or leniency was asked for), and the world object decodes.
pub open spec fn spec_spawner_decode_ok(
    em: Map<Seq<char>, EntryData>,
    index: int,
    lenient: bool,
) -> bool {
    &&& em.contains_key("SP_POS"@)
    &&& (em["SP_POS"@] matches EntryData::F32(pv) && pv@.len() >= 2 * index + 2)
    &&& em.contains_key("SP_DURATION"@)
    &&& (em["SP_DURATION"@] matches EntryData::I32(dv) && dv@.len() > index)
    &&& em.contains_key("SP_MAX"@)
    &&& (em["SP_MAX"@] matches EntryData::I32(mv) && mv@.len() > index)
    &&& em.contains_key("SP_DITEM"@)
    &&& (em["SP_DITEM"@] matches EntryData::U32(iv) && iv@.len() > index && (lenient
        || spec_mode_from_packed(iv@[index]) is Some))
    &&& (em.contains_key("SP_GROUP"@) ==> (em["SP_GROUP"@] matches EntryData::U8(gv)
        && gv@.len() > index))
    &&& super::wobj_type::spec_wobj_scalars_ok(em, index)
    &&& super::wobj_type::spec_wobj_decode_ok(
        em,
        super::wobj_type::spec_sp_type(em, index),
        super::wobj_type::spec_sp_ci(em, index),
        super::wobj_type::spec_sp_cf(em, index),
        lenient,
    )
}

/// Whether `sp` is the decoding of spawner `index`.
pub open spec fn spec_spawner_decoded(
    sp: Spawner,
    em: Map<Seq<char>, EntryData>,
    index: int,
    lenient: bool,
) -> bool {
    &&& spec_spawner_decode_ok(em, index, lenient)
    &&& sp.pos == Point(
        em["SP_POS"@]->F32_0@[2 * index],
        em["SP_POS"@]->F32_0@[2 * index + 1],
    )
    &&& sp.spawning_criteria.spawn_delay == Duration(em["SP_DURATION"@]->I32_0@[index])
    &&& sp.spawning_criteria.max_concurrent_spawns == em["SP_MAX"@]->I32_0@[index] as u32
    &&& {
        let word = em["SP_DITEM"@]->U32_0@[index];
        &&& (match sp.dropped_item {
            Some(item) => super::item_type::spec_item_id(item) == word,
            None => word == 0 || word > 39,
        })
        &&& (match spec_mode_from_packed(word) {
            Some(m) => sp.spawning_criteria.mode == m,
            None => lenient && sp.spawning_criteria.mode == SpawnerMode::MultiAndSingleplayer,
        })
    }
    &&& (if em.contains_key("SP_GROUP"@) {
        sp.spawner_group == (if em["SP_GROUP"@]->U8_0@[index] == 255 {
            Option::<u8>::None
        } else {
            Some(em["SP_GROUP"@]->U8_0@[index])
        })
    } else {
        sp.spawner_group is None
    })
    &&& super::wobj_type::spec_wobj_decoded(
        sp.type_data,
        em,
        super::wobj_type::spec_sp_type(em, index),
        super::wobj_type::spec_sp_ci(em, index),
        super::wobj_type::spec_sp_cf(em, index),
        lenient,
    )
}

impl Spawner {
    /// Decodes spawner `index` from the container: succeeds exactly when the
    /// spawner arrays hold the slot and the world object decodes.
    pub fn from_lparse(cnms: &LParse, version: &VersionSpecs, index: usize, ignore_warnings: bool)
        -> (r: Result<Self, Error>)
        requires
            index < 0x1000_0000,
        ensures
            r is Ok <==> spec_spawner_decode_ok(cnms.entries_map(), index as int, ignore_warnings),
            r matches Ok(sp) ==> spec_spawner_decoded(
                sp,
                cnms.entries_map(),
                index as int,
                ignore_warnings,
            ),
    {
        let positions = match cnms.try_get_entry("SP_POS") {
            Ok(d) => d,
            Err(e) => {
                return Err(e);
            },
        };
        let positions = match positions.try_get_f32() {
            Ok(v) => v,
            Err(e) => {
                return Err(e);
            },
        };
        if positions.len() / 2 <= index {
            return Err(Error::Corrupted("the spawner lies outside the position array".to_owned()));
        }
        proof {
            assert(2 * (index as int) + 2 <= positions@.len()) by (nonlinear_arith)
                requires
                    (index as int) < positions@.len() as int / 2,
            ;
        }
        let pos = Point(positions[2 * index], positions[2 * index + 1]);
        let durations = match cnms.try_get_entry("SP_DURATION") {
            Ok(d) => d,
            Err(e) => {
                return Err(e);
            },
        };
        let durations = match durations.try_get_i32() {
            Ok(v) => v,
            Err(e) => {
                return Err(e);
            },
        };
        if durations.len() <= index {
            return Err(Error::Corrupted("the spawner lies outside the duration array".to_owned()));
        }
        let duration = durations[index];
        let maxes = match cnms.try_get_entry("SP_MAX") {
            Ok(d) => d,
            Err(e) => {
                return Err(e);
            },
        };
        let maxes = match maxes.try_get_i32() {
            Ok(v) => v,
            Err(e) => {
                return Err(e);
            },
        };
        if maxes.len() <= index {
            return Err(Error::Corrupted("the spawner lies outside the spawn-cap array".to_owned()));
        }
        let max_spawns = maxes[index];
        let ditems = match cnms.try_get_entry("SP_DITEM") {
            Ok(d) => d,
            Err(e) => {
                return Err(e);
            },
        };
        let ditems = match ditems.try_get_u32() {
            Ok(v) => v,
            Err(e) => {
                return Err(e);
            },
        };
        if ditems.len() <= index {
            return Err(Error::Corrupted("the spawner lies outside the item array".to_owned()));
        }
        let dropped_word = ditems[index];
        let spawner_group = match cnms.try_get_entry("SP_GROUP") {
            Ok(entry) => match entry.try_get_u8() {
                Ok(groups) => {
                    if groups.len() <= index {
                        return Err(
                            Error::Corrupted(
                                "the spawner lies outside the group array".to_owned(),
                            ),
                        );
                    }
                    let g = groups[index];
                    if g == 255 {
                        None
                    } else {
                        Some(g)
                    }
                },
                Err(e) => {
                    return Err(e);
                },
            },
            Err(_) => None,
        };
        let type_data = match WobjType::from_lparse(cnms, version, index, ignore_warnings) {
            Ok(w) => w,
            Err(e) => {
                return Err(e);
            },
        };
        let mode = match SpawnerMode::from_packed_dropped_item(dropped_word) {
            Some(mode) => mode,
            None => {
                if !ignore_warnings {
                    return Err(Error::Corrupted("the spawning mode is corrupt".to_owned()));
                } else {
                    SpawnerMode::MultiAndSingleplayer
                }
            },
        };
        Ok(
            Spawner {
                pos,
                type_data,
                spawning_criteria: SpawningCriteria {
                    spawn_delay: Duration(duration),
                    mode,
                    max_concurrent_spawns: max_spawns as u32,
                },
                dropped_item: ItemType::from_item_id(dropped_word),
                spawner_group,
            },
        )
    }
}

} // verus!

verus! {

/// Bytes padded with zeros, or truncated, to length `n`.
pub open spec fn spec_pad_bytes(b: Seq<u8>, n: int) -> Seq<u8> {
    (b + crate::lparse::spec_zeros(n)).take(n)
}

/// Appends the UTF-8 bytes of `s`, zero-padded or truncated to `n` bytes.
fn push_padded_str(out: &mut Vec<u8>, s: &str, n: usize)
    ensures
        final(out)@ == old(out)@ + spec_pad_bytes(s.spec_bytes(), n as int),
{
    let bytes = crate::text::string_to_bytes(s);
    let m = if bytes.len() < n {
        bytes.len()
    } else {
        n
    };
    let mut i: usize = 0;
    while i < m
        invariant
            i <= m,
            m <= bytes.len(),
            out@ == old(out)@ + bytes@.take(i as int),
        decreases m - i,
    {
        out.push(bytes[i]);
        proof {
            assert(out@ =~= old(out)@ + bytes@.take(i + 1));
        }
        i = i + 1;
    }
    while i < n
        invariant
            m <= i <= n,
            m <= bytes.len(),
            out@ == old(out)@ + bytes@.take(m as int) + crate::lparse::spec_zeros(i - m),
        decreases n - i,
    {
        out.push(0);
        proof {
            assert(out@ =~= old(out)@ + bytes@.take(m as int) + crate::lparse::spec_zeros(
                i + 1 - m,
            ));
        }
        i = i + 1;
    }
    proof {
        assert(bytes@.take(m as int) + crate::lparse::spec_zeros(n - m) =~= spec_pad_bytes(
            s.spec_bytes(),
            n as int,
        ));
        assert(out@ =~= old(out)@ + spec_pad_bytes(s.spec_bytes(), n as int));
    }
}

impl Spawner {
    /// Encodes this spawner, interning rows into the auxiliary tables, and
    /// returns the file's per-spawner words: position, type id, duration,
    /// spawn cap, custom int, custom float bits, packed dropped item, group.
    pub fn save(
        &self,
        teleports: &mut Vec<super::wobj_type::Teleport>,
        spawns: &mut Vec<u32>,
        checkpoints: &mut Vec<u32>,
        ending_text: &mut Vec<String>,
        version: &VersionSpecs,
    ) -> (r: (Point, i32, i32, i32, i32, u32, u32, u8))
        requires
            super::wobj_type::spec_wobj_enc_wf(self.type_data),
            old(teleports)@.len() < 0x1000_0000,
            old(ending_text)@.len() < 0x0100_0000,
            old(spawns)@.len() < 0x1000_0000,
            old(checkpoints)@.len() < 0x1000_0000,
        ensures
            super::wobj_type::spec_wobj_encoded(
                self.type_data,
                self.pos,
                old(teleports)@,
                final(teleports)@,
                old(spawns)@,
                final(spawns)@,
                old(checkpoints)@,
                final(checkpoints)@,
                old(ending_text)@,
                final(ending_text)@,
                (r.1, r.4, r.5),
            ),
            r.0 == self.pos,
            r.2 == self.spawning_criteria.spawn_delay.0,
            r.3 == self.spawning_criteria.max_concurrent_spawns as i32,
            r.6 == spec_ditem_word(*self),
            r.7 == spec_group_byte(*self),
            final(teleports)@.len() <= old(teleports)@.len() + 1,
            final(spawns)@.len() <= old(spawns)@.len() + 2,
            final(checkpoints)@.len() <= old(checkpoints)@.len() + 512,
            final(ending_text)@.len() <= old(ending_text)@.len() + (match self.type_data {
                WobjType::TextSpawner { text, .. } => super::wobj_type::spec_lines_of(
                    vstd::utf8::encode_utf8(text@),
                ).len() + 1,
                WobjType::FinishTrigger { .. } => 4,
                _ => 2,
            }),
    {
        let trip = self.type_data.serialize(
            teleports,
            spawns,
            checkpoints,
            ending_text,
            self.pos,
            version,
        );
        let item_id = if let Some(i) = self.dropped_item {
            i.get_item_id()
        } else {
            0
        };
        let ditem = item_id | self.spawning_criteria.mode.to_packed_dropped_item();
        let group = if let Some(g) = self.spawner_group {
            g
        } else {
            0xff
        };
        (
            self.pos,
            trip.0,
            self.spawning_criteria.spawn_delay.0,
            self.spawning_criteria.max_concurrent_spawns as i32,
            trip.1,
            trip.2,
            ditem,
            group,
        )
    }
}

} // verus!

verus! {

/// An encoded triple's type id is the object's type id.
proof fn lemma_encoded_type_id(w: WobjType, pos: Point, id: i32)
    ensures
        (forall|t0: Seq<super::wobj_type::Teleport>, t1: Seq<super::wobj_type::Teleport>, s0: Seq<
            u32,
        >, s1: Seq<u32>, c0: Seq<u32>, c1: Seq<u32>, e0: Seq<String>, e1: Seq<String>, ci: i32, cf:
            u32|
            #[trigger] super::wobj_type::spec_wobj_encoded(
                w,
                pos,
                t0,
                t1,
                s0,
                s1,
                c0,
                c1,
                e0,
                e1,
                (id, ci, cf),
            ) ==> id == spec_wobj_type_id(w)),
{
}

/// How many teleport rows encoding a world object can add (at most).
pub open spec fn spec_wobj_tele_cost(w: WobjType) -> int {
    match w {
        WobjType::Teleport(_) => 1,
        WobjType::TeleportArea1 { .. } => 1,
        WobjType::TeleportArea2 { .. } => 1,
        _ => 0,
    }
}

/// How many text lines encoding a world object can add (at most, pad lines
/// included).
pub open spec fn spec_wobj_line_cost(w: WobjType) -> int {
    match w {
        WobjType::TextSpawner { text, .. } => super::wobj_type::spec_lines_of(
            vstd::utf8::encode_utf8(text@),
        ).len() as int + 1,
        WobjType::FinishTrigger { .. } => 4,
        WobjType::GraphicsChangeTrigger { .. } => 2,
        WobjType::BossBarInfo { .. } => 2,
        _ => 0,
    }
}

/// The summed teleport-row cost of the first `n` spawners.
pub open spec fn spec_tele_cost_sum(spawners: Seq<Spawner>, n: int) -> int
    decreases n,
{
    if n <= 0 {
        0
    } else {
        spec_tele_cost_sum(spawners, n - 1) + spec_wobj_tele_cost(spawners[n - 1].type_data)
    }
}

/// The summed text-line cost of the first `n` spawners.
pub open spec fn spec_line_cost_sum(spawners: Seq<Spawner>, n: int) -> int
    decreases n,
{
    if n <= 0 {
        0
    } else {
        spec_line_cost_sum(spawners, n - 1) + spec_wobj_line_cost(spawners[n - 1].type_data)
    }
}

/// Cost sums only grow with the prefix.
proof fn lemma_cost_sum_mono(spawners: Seq<Spawner>, i: int, j: int)
    requires
        i <= j,
    ensures
        spec_tele_cost_sum(spawners, i) <= spec_tele_cost_sum(spawners, j),
        spec_line_cost_sum(spawners, i) <= spec_line_cost_sum(spawners, j),
        0 <= spec_tele_cost_sum(spawners, j) || j < 0,
        0 <= spec_line_cost_sum(spawners, j) || j < 0,
    decreases j,
{
    if j > 0 && i < j {
        lemma_cost_sum_mono(spawners, i, j - 1);
    }
    if j > 0 && i == j {
        lemma_cost_sum_mono(spawners, i - 1, j - 1);
    }
}

/// An encoding grows the teleport table by at most the teleport cost and the
/// text table by at most the line cost.
proof fn lemma_encoded_table_growth(
    w: WobjType,
    pos: Point,
    t0: Seq<super::wobj_type::Teleport>,
    t1: Seq<super::wobj_type::Teleport>,
    s0: Seq<u32>,
    s1: Seq<u32>,
    c0: Seq<u32>,
    c1: Seq<u32>,
    e0: Seq<String>,
    e1: Seq<String>,
    trip: (i32, i32, u32),
)
    requires
        super::wobj_type::spec_wobj_encoded(w, pos, t0, t1, s0, s1, c0, c1, e0, e1, trip),
    ensures
        t1.len() <= t0.len() + spec_wobj_tele_cost(w),
        e1.len() <= e0.len() + spec_wobj_line_cost(w),
{
    match w {
        WobjType::FinishTrigger { next_level, extra_unlocked_level, is_secret } => {
            match extra_unlocked_level {
                Some(extra) => {
                    let (emid, i1, i2): (Seq<String>, int, int) = choose|
                        emid: Seq<String>,
                        i1: int,
                        i2: int,
                    |
                        #[trigger] super::wobj_type::spec_line_interned(
                            e0,
                            emid,
                            next_level@,
                            i1,
                        ) && #[trigger] super::wobj_type::spec_line_interned(
                            emid,
                            e1,
                            extra@,
                            i2,
                        );
                    assert(emid.len() <= e0.len() + 2);
                    assert(e1.len() <= emid.len() + 2);
                },
                None => {
                    let i1: int = choose|i1: int|
                        #[trigger] super::wobj_type::spec_line_interned(
                            e0,
                            e1,
                            next_level@,
                            i1,
                        );
                    assert(e1.len() <= e0.len() + 2);
                },
            }
        },
        _ => {},
    }
}

pub open spec fn spec_spawners_saved(
    em: Map<Seq<char>, EntryData>,
    spawners: Seq<Spawner>,
    title: Seq<char>,
) -> bool {
    let n = spawners.len() as int;
    &&& em.contains_key("NUM_SPAWNERS"@) && (em["NUM_SPAWNERS"@] matches EntryData::I32(
                v,
            ) && v@ == seq![n as i32])
            &&& em.contains_key("SP_POS"@) && (em["SP_POS"@] matches EntryData::F32(v) && v@.len()
                == 2 * n && (forall|i: int|
                0 <= i < n ==> v@[2 * i] == (#[trigger] spawners[i]).pos.0 && v@[2 * i + 1]
                    == spawners[i].pos.1))
            &&& em.contains_key("SP_TYPE"@) && (em["SP_TYPE"@] matches EntryData::I32(v)
                && v@.len() == n && (forall|i: int|
                0 <= i < n ==> v@[i] == spec_wobj_type_id((#[trigger] spawners[i]).type_data)))
            &&& em.contains_key("SP_DURATION"@) && (em["SP_DURATION"@] matches EntryData::I32(v)
                && v@.len() == n && (forall|i: int|
                0 <= i < n ==> v@[i] == (
                #[trigger] spawners[i]).spawning_criteria.spawn_delay.0))
            &&& em.contains_key("SP_MAX"@) && (em["SP_MAX"@] matches EntryData::I32(v) && v@.len()
                == n && (forall|i: int|
                0 <= i < n ==> v@[i] == (
                #[trigger] spawners[i]).spawning_criteria.max_concurrent_spawns as i32))
            &&& em.contains_key("SP_CI"@) && (em["SP_CI"@] matches EntryData::I32(v) && v@.len()
                == n)
            &&& em.contains_key("SP_CF"@) && (em["SP_CF"@] matches EntryData::F32(v) && v@.len()
                == n)
            &&& em.contains_key("SP_DITEM"@) && (em["SP_DITEM"@] matches EntryData::U32(v)
                && v@.len() == n && (forall|i: int|
                0 <= i < n ==> v@[i] == spec_ditem_word(#[trigger] spawners[i])))
            &&& em.contains_key("SP_GROUP"@) && (em["SP_GROUP"@] matches EntryData::U8(v)
                && v@.len() == n && (forall|i: int|
                0 <= i < n ==> v@[i] == spec_group_byte(#[trigger] spawners[i])))
            &&& em.contains_key("TI_NAME"@) && (em["TI_NAME"@] matches EntryData::U8(v)
                && v@.len() == 512 * 41)
            &&& em.contains_key("TI_COST"@) && (em["TI_COST"@] matches EntryData::I32(v)
                && v@.len() == 512)
            &&& em.contains_key("TI_POS"@) && (em["TI_POS"@] matches EntryData::F32(v) && v@.len()
                == 1024)
            &&& em.contains_key("TI_ALLOCED"@) && (em["TI_ALLOCED"@] matches EntryData::U8(v)
                && v@.len() == 512)
            &&& em.contains_key("PLAYERSPAWNX"@) && (em["PLAYERSPAWNX"@] matches EntryData::F32(
                v,
            ) && v@.len() == 384)
            &&& em.contains_key("PLAYERSPAWNY"@) && (em["PLAYERSPAWNY"@] matches EntryData::F32(
                v,
            ) && v@.len() == 384)
            &&& em.contains_key("ENDINGTEXT"@) && (em["ENDINGTEXT"@] matches EntryData::U8(v)
                && v@.len() == 48 * 32 && v@.subrange(47int * 32, 48int * 32) == spec_pad_bytes(
                vstd::utf8::encode_utf8(title),
                32,
            ))
}

/// Writes everything the `.cnms` file holds about spawners: the per-spawner
/// arrays, the finalized teleport table, the text-line table (with the level
/// title on the reserved line 47), and the spawn/checkpoint position tables.
///
/// Fails fast with `EntryOverflow` when the spawners need more than 512
/// teleport rows or more than 48 text lines, or when there are too many
/// spawners for the format's counters (the engine's fixed tables would
/// otherwise be silently truncated).
#[verifier::rlimit(90)]
#[verifier::spinoff_prover]
pub fn save_spawner_vec(
    cnms: &mut LParse,
    version: &VersionSpecs,
    level_title: String,
    spawners: &[Spawner],
) -> (r: Result<(), Error>)
    requires
        forall|i: int|
            0 <= i < spawners@.len() ==> super::wobj_type::spec_wobj_enc_wf(
                (#[trigger] spawners@[i]).type_data,
            ),
    ensures
        r matches Err(e) ==> e is EntryOverflow,
        spawners@.len() < 0x0040_0000 && spec_tele_cost_sum(spawners@, spawners@.len() as int)
            <= 512 && spec_line_cost_sum(spawners@, spawners@.len() as int) <= 48 ==> r is Ok,
        r is Ok ==> forall|i: int|
            0 <= i < spawners@.len() ==> exists|
                t0: Seq<super::wobj_type::Teleport>,
                t1: Seq<super::wobj_type::Teleport>,
                s0: Seq<u32>,
                s1: Seq<u32>,
                c0: Seq<u32>,
                c1: Seq<u32>,
                e0: Seq<String>,
                e1: Seq<String>,
            |
                #[trigger] super::wobj_type::spec_wobj_encoded(
                    (#[trigger] spawners@[i]).type_data,
                    spawners@[i].pos,
                    t0,
                    t1,
                    s0,
                    s1,
                    c0,
                    c1,
                    e0,
                    e1,
                    (
                        final(cnms).entries_map()["SP_TYPE"@]->I32_0@[i],
                        final(cnms).entries_map()["SP_CI"@]->I32_0@[i],
                        final(cnms).entries_map()["SP_CF"@]->F32_0@[i],
                    ),
                ),
        r is Ok ==> final(cnms).spec_version_id() == old(cnms).spec_version_id()
            && spec_spawners_saved(final(cnms).entries_map(), spawners@, level_title@),
    {    let mut teleports: Vec<super::wobj_type::Teleport> = Vec::new();
    let mut spawns: Vec<u32> = Vec::new();
    let mut checkpoints: Vec<u32> = Vec::new();
    let mut lines: Vec<String> = Vec::new();
    let mut sp_pos: Vec<u32> = Vec::new();
    let mut sp_type: Vec<i32> = Vec::new();
    let mut sp_duration: Vec<i32> = Vec::new();
    let mut sp_max: Vec<i32> = Vec::new();
    let mut sp_ci: Vec<i32> = Vec::new();
    let mut sp_cf: Vec<u32> = Vec::new();
    let mut sp_ditem: Vec<u32> = Vec::new();
    let mut sp_group: Vec<u8> = Vec::new();
    let n = spawners.len();
    if n >= 0x0040_0000 {
        return Err(Error::EntryOverflow(1, 0x0040_0000, n));
    }
    let mut i: usize = 0;
    while i < n
        invariant
            i <= n,
            n == spawners@.len(),
            n < 0x0040_0000,
            forall|k: int|
                0 <= k < n ==> super::wobj_type::spec_wobj_enc_wf(
                    (#[trigger] spawners@[k]).type_data,
                ),
            teleports@.len() <= 512,
            lines@.len() <= 48,
            teleports@.len() <= spec_tele_cost_sum(spawners@, i as int),
            lines@.len() <= spec_line_cost_sum(spawners@, i as int),
            spawns@.len() <= 2 * i,
            checkpoints@.len() <= 512,
            sp_pos@.len() == 2 * i,
            sp_type@.len() == i,
            sp_duration@.len() == i,
            sp_max@.len() == i,
            sp_ci@.len() == i,
            sp_cf@.len() == i,
            sp_ditem@.len() == i,
            sp_group@.len() == i,
            forall|k: int|
                0 <= k < i ==> sp_pos@[2 * k] == (#[trigger] spawners@[k]).pos.0 && sp_pos@[2 * k
                    + 1] == spawners@[k].pos.1,
            forall|k: int|
                0 <= k < i ==> sp_type@[k] == spec_wobj_type_id(
                    (#[trigger] spawners@[k]).type_data,
                ),
            forall|k: int|
                0 <= k < i ==> sp_duration@[k] == (
                #[trigger] spawners@[k]).spawning_criteria.spawn_delay.0,
            forall|k: int|
                0 <= k < i ==> sp_max@[k] == (
                #[trigger] spawners@[k]).spawning_criteria.max_concurrent_spawns as i32,
            forall|k: int| 0 <= k < i ==> sp_ditem@[k] == spec_ditem_word(#[trigger] spawners@[k]),
            forall|k: int| 0 <= k < i ==> sp_group@[k] == spec_group_byte(#[trigger] spawners@[k]),
            forall|k: int|
                0 <= k < i ==> exists|
                    t0: Seq<super::wobj_type::Teleport>,
                    t1: Seq<super::wobj_type::Teleport>,
                    s0: Seq<u32>,
                    s1: Seq<u32>,
                    c0: Seq<u32>,
                    c1: Seq<u32>,
                    e0: Seq<String>,
                    e1: Seq<String>,
                |
                    #[trigger] super::wobj_type::spec_wobj_encoded(
                        (#[trigger] spawners@[k]).type_data,
                        spawners@[k].pos,
                        t0,
                        t1,
                        s0,
                        s1,
                        c0,
                        c1,
                        e0,
                        e1,
                        (sp_type@[k], sp_ci@[k], sp_cf@[k]),
                    ),
        decreases n - i,
    {
        let sp = &spawners[i];
        let ghost t_before = teleports@;
        let ghost s_before = spawns@;
        let ghost c_before = checkpoints@;
        let ghost e_before = lines@;
        let data = sp.save(&mut teleports, &mut spawns, &mut checkpoints, &mut lines, version);
        proof {
            lemma_encoded_table_growth(
                spawners@[i as int].type_data,
                spawners@[i as int].pos,
                t_before,
                teleports@,
                s_before,
                spawns@,
                c_before,
                checkpoints@,
                e_before,
                lines@,
                (data.1, data.4, data.5),
            );
            lemma_cost_sum_mono(spawners@, i as int + 1, n as int);
        }
        if teleports.len() > 512 {
            return Err(Error::EntryOverflow(1, 512, teleports.len()));
        }
        if lines.len() > 48 {
            return Err(Error::EntryOverflow(1, 48, lines.len()));
        }
        let ghost prev_type = sp_type@;
        let ghost prev_ci = sp_ci@;
        let ghost prev_cf = sp_cf@;
        sp_pos.push(data.0.0);
        sp_pos.push(data.0.1);
        sp_type.push(data.1);
        sp_duration.push(data.2);
        sp_max.push(data.3);
        sp_ci.push(data.4);
        sp_cf.push(data.5);
        sp_ditem.push(data.6);
        sp_group.push(data.7);
        proof {
            lemma_encoded_type_id(
                spawners@[i as int].type_data,
                spawners@[i as int].pos,
                data.1,
            );
            assert forall|k: int| 0 <= k < i + 1 implies exists|
                t0: Seq<super::wobj_type::Teleport>,
                t1: Seq<super::wobj_type::Teleport>,
                s0: Seq<u32>,
                s1: Seq<u32>,
                c0: Seq<u32>,
                c1: Seq<u32>,
                e0: Seq<String>,
                e1: Seq<String>,
            |
                #[trigger] super::wobj_type::spec_wobj_encoded(
                    (#[trigger] spawners@[k]).type_data,
                    spawners@[k].pos,
                    t0,
                    t1,
                    s0,
                    s1,
                    c0,
                    c1,
                    e0,
                    e1,
                    (sp_type@[k], sp_ci@[k], sp_cf@[k]),
                ) by {
                if k < i {
                    let (t0, t1, s0, s1, c0, c1, e0, e1): (
                        Seq<super::wobj_type::Teleport>,
                        Seq<super::wobj_type::Teleport>,
                        Seq<u32>,
                        Seq<u32>,
                        Seq<u32>,
                        Seq<u32>,
                        Seq<String>,
                        Seq<String>,
                    ) = choose|
                        t0: Seq<super::wobj_type::Teleport>,
                        t1: Seq<super::wobj_type::Teleport>,
                        s0: Seq<u32>,
                        s1: Seq<u32>,
                        c0: Seq<u32>,
                        c1: Seq<u32>,
                        e0: Seq<String>,
                        e1: Seq<String>,
                    |
                        super::wobj_type::spec_wobj_encoded(
                            spawners@[k].type_data,
                            spawners@[k].pos,
                            t0,
                            t1,
                            s0,
                            s1,
                            c0,
                            c1,
                            e0,
                            e1,
                            (prev_type[k], prev_ci[k], prev_cf[k]),
                        );
                    assert(super::wobj_type::spec_wobj_encoded(
                        spawners@[k].type_data,
                        spawners@[k].pos,
                        t0,
                        t1,
                        s0,
                        s1,
                        c0,
                        c1,
                        e0,
                        e1,
                        (sp_type@[k], sp_ci@[k], sp_cf@[k]),
                    ));
                } else {
                    assert(super::wobj_type::spec_wobj_encoded(
                        spawners@[k].type_data,
                        spawners@[k].pos,
                        t_before,
                        teleports@,
                        s_before,
                        spawns@,
                        c_before,
                        checkpoints@,
                        e_before,
                        lines@,
                        (sp_type@[k], sp_ci@[k], sp_cf@[k]),
                    ));
                }
            }
        }
        i = i + 1;
    }
    // Finalize the teleport table: pad to 512 rows.
    let num_alloced = teleports.len();
    let mut ti_name: Vec<u8> = Vec::new();
    let mut ti_cost: Vec<i32> = Vec::new();
    let mut ti_pos: Vec<u32> = Vec::new();
    let mut ti_alloced: Vec<u8> = Vec::new();
    let mut t: usize = 0;
    while t < 512
        invariant
            t <= 512,
            num_alloced <= 512,
            num_alloced == teleports@.len(),
            ti_name@.len() == 41 * t,
            ti_cost@.len() == t,
            ti_pos@.len() == 2 * t,
            ti_alloced@.len() == t,
        decreases 512 - t,
    {
        if t < num_alloced {
            let row = &teleports[t];
            push_padded_str(&mut ti_name, row.name.as_str(), 41);
            ti_cost.push(row.cost);
            ti_pos.push(row.loc.0);
            ti_pos.push(row.loc.1);
            ti_alloced.push(0);
        } else {
            let mut z: usize = 0;
            while z < 41
                invariant
                    z <= 41,
                    ti_name@.len() == 41 * t + z,
                decreases 41 - z,
            {
                ti_name.push(0);
                z = z + 1;
            }
            ti_cost.push(0);
            ti_pos.push(0);
            ti_pos.push(0);
            ti_alloced.push(1);
        }
        t = t + 1;
    }
    // Finalize the text table: 48 lines of 32 bytes, title on line 47.
    let mut endingtext: Vec<u8> = Vec::new();
    let mut l: usize = 0;
    while l < 48
        invariant
            l <= 48,
            lines@.len() <= 48,
            endingtext@.len() == 32 * l,
            l <= 47 ==> endingtext@.len() == 32 * l,
            l == 48 ==> endingtext@.subrange(47int * 32, 48int * 32) == spec_pad_bytes(
                vstd::utf8::encode_utf8(level_title@),
                32,
            ),
        decreases 48 - l,
    {
        let ghost before = endingtext@;
        if l == 47 {
            push_padded_str(&mut endingtext, level_title.as_str(), 32);
            proof {
                assert(endingtext@.subrange(47int * 32, 48int * 32) =~= spec_pad_bytes(
                    vstd::utf8::encode_utf8(level_title@),
                    32,
                ));
            }
        } else if l < lines.len() {
            push_padded_str(&mut endingtext, lines[l].as_str(), 32);
        } else {
            push_padded_str(&mut endingtext, "", 32);
        }
        l = l + 1;
    }
    // Finalize the spawn tables: 128 positions per mode, padded with the
    // engine's "unused" marker (the bit pattern of positive infinity).
    spawns.truncate(256);
    while spawns.len() < 256
        invariant
            spawns@.len() <= 256,
        decreases 256 - spawns.len(),
    {
        spawns.push(0x7f80_0000);
    }
    checkpoints.truncate(256);
    while checkpoints.len() < 256
        invariant
            checkpoints@.len() <= 256,
        decreases 256 - checkpoints.len(),
    {
        checkpoints.push(0x7f80_0000);
    }
    // Interleave the three mode tables into X and Y arrays.
    let mut spawnx: Vec<u32> = Vec::new();
    let mut spawny: Vec<u32> = Vec::new();
    let mut part: usize = 0;
    while part < 3
        invariant
            part <= 3,
            spawns@.len() == 256,
            checkpoints@.len() == 256,
            spawnx@.len() == 128 * part,
            spawny@.len() == 128 * part,
        decreases 3 - part,
    {
        let src: &Vec<u32> = if part < 2 {
            &spawns
        } else {
            &checkpoints
        };
        let mut k: usize = 0;
        while k < 128
            invariant
                k <= 128,
                src@.len() == 256,
                spawnx@.len() == 128 * part + k,
                spawny@.len() == 128 * part + k,
            decreases 128 - k,
        {
            spawnx.push(src[2 * k]);
            spawny.push(src[2 * k + 1]);
            k = k + 1;
        }
        part = part + 1;
    }
    let mut num_spawners: Vec<i32> = Vec::new();
    num_spawners.push(n as i32);
    let ghost g_sp_type = sp_type@;
    let ghost g_sp_ci = sp_ci@;
    let ghost g_sp_cf = sp_cf@;
    cnms.insert_entry("PLAYERSPAWNX".to_owned(), EntryData::F32(spawnx));
    cnms.insert_entry("PLAYERSPAWNY".to_owned(), EntryData::F32(spawny));
    cnms.insert_entry("TI_NAME".to_owned(), EntryData::U8(ti_name));
    cnms.insert_entry("TI_COST".to_owned(), EntryData::I32(ti_cost));
    cnms.insert_entry("TI_POS".to_owned(), EntryData::F32(ti_pos));
    cnms.insert_entry("TI_ALLOCED".to_owned(), EntryData::U8(ti_alloced));
    cnms.insert_entry("ENDINGTEXT".to_owned(), EntryData::U8(endingtext));
    cnms.insert_entry("SP_POS".to_owned(), EntryData::F32(sp_pos));
    cnms.insert_entry("SP_TYPE".to_owned(), EntryData::I32(sp_type));
    cnms.insert_entry("SP_DURATION".to_owned(), EntryData::I32(sp_duration));
    cnms.insert_entry("SP_MAX".to_owned(), EntryData::I32(sp_max));
    cnms.insert_entry("SP_CI".to_owned(), EntryData::I32(sp_ci));
    cnms.insert_entry("SP_CF".to_owned(), EntryData::F32(sp_cf));
    cnms.insert_entry("SP_DITEM".to_owned(), EntryData::U32(sp_ditem));
    cnms.insert_entry("SP_GROUP".to_owned(), EntryData::U8(sp_group));
    cnms.insert_entry("NUM_SPAWNERS".to_owned(), EntryData::I32(num_spawners));
    proof {
        reveal_strlit("PLAYERSPAWNX");
        reveal_strlit("PLAYERSPAWNY");
        reveal_strlit("TI_NAME");
        reveal_strlit("TI_COST");
        reveal_strlit("TI_POS");
        reveal_strlit("TI_ALLOCED");
        reveal_strlit("ENDINGTEXT");
        reveal_strlit("SP_POS");
        reveal_strlit("SP_TYPE");
        reveal_strlit("SP_DURATION");
        reveal_strlit("SP_MAX");
        reveal_strlit("SP_CI");
        reveal_strlit("SP_CF");
        reveal_strlit("SP_DITEM");
        reveal_strlit("SP_GROUP");
        reveal_strlit("NUM_SPAWNERS");
        assert("PLAYERSPAWNX"@.len() == 12 && "PLAYERSPAWNY"@.len() == 12 && "TI_NAME"@.len() == 7
            && "TI_COST"@.len() == 7 && "TI_POS"@.len() == 6 && "TI_ALLOCED"@.len() == 10
            && "ENDINGTEXT"@.len() == 10 && "SP_POS"@.len() == 6 && "SP_TYPE"@.len() == 7
            && "SP_DURATION"@.len() == 11 && "SP_MAX"@.len() == 6 && "SP_CI"@.len() == 5
            && "SP_CF"@.len() == 5 && "SP_DITEM"@.len() == 8 && "SP_GROUP"@.len() == 8
            && "NUM_SPAWNERS"@.len() == 12);
        assert("PLAYERSPAWNX"@[11] == 'X' && "PLAYERSPAWNY"@[11] == 'Y' && "NUM_SPAWNERS"@[0]
            == 'N' && "TI_NAME"@[3] == 'N' && "TI_COST"@[3] == 'C' && "SP_TYPE"@[3] == 'T'
            && "TI_POS"@[0] == 'T' && "SP_POS"@[0] == 'S' && "SP_MAX"@[3] == 'M' && "SP_CI"@[4]
            == 'I' && "SP_CF"@[4] == 'F' && "TI_ALLOCED"@[0] == 'T' && "ENDINGTEXT"@[0] == 'E'
            && "SP_DITEM"@[3] == 'D' && "SP_GROUP"@[3] == 'G' && "SP_DITEM"@[4] == 'I'
            && "SP_GROUP"@[4] == 'R');
        let em = cnms.entries_map();
        assert(em["SP_TYPE"@]->I32_0@ == g_sp_type);
        assert(em["SP_CI"@]->I32_0@ == g_sp_ci);
        assert(em["SP_CF"@]->F32_0@ == g_sp_cf);
    }
    Ok(())
}

} // verus!
