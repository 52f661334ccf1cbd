//! Typed level data: the structures a pair of `.cnmb`/`.cnms` containers
//! describes, and the codecs that project entries into them and back.

use vstd::prelude::*;

use crate::lparse::{Error, LParse};

pub mod cnmb_types;
pub mod cnms_types;
pub mod consts;
pub mod item_type;
pub mod wobj_type;

verus! {

/// A duration in engine ticks (30 ticks are one second). Negative values
/// have special uses in the engine.
#[derive(Debug, Default, Copy, Clone, PartialEq, Eq, Structural)]
pub struct Duration(pub i32);

/// A 2D point. Each coordinate is the raw bit pattern of an `f32`, as stored
/// in the level files.
#[derive(Debug, Default, Copy, Clone, PartialEq, Eq, Structural)]
pub struct Point(pub u32, pub u32);

/// Per-version limits of the level data (separate from the container's own
/// version table). Only version id 1 exists.
#[derive(Debug)]
pub struct VersionSpecs {
    version: u32,
    num_teleports: usize,
    num_spawns: usize,
    num_spawn_modes: usize,
    teleport_name_size: usize,
    max_tile_frames: usize,
    ending_text_lines: usize,
    ending_text_line_len: usize,
    background_layers: usize,
    title_ending_text_line: usize,
    preview_tile_index: usize,
}

impl VersionSpecs {
    /// The limits are the version-1 table.
    #[verifier::type_invariant]
    pub closed spec fn wf(self) -> bool {
        self.version == 1 && self.num_teleports == 512 && self.num_spawns == 128
            && self.num_spawn_modes == 3 && self.teleport_name_size == 41
            && self.max_tile_frames == 32 && self.ending_text_lines == 48
            && self.ending_text_line_len == 32 && self.background_layers == 32
            && self.title_ending_text_line == 47 && self.preview_tile_index == 256
    }

    /// Builds the limit table for a level version id; only id 1 is supported.
    pub fn from_version(version: u32) -> (r: Result<Self, Error>)
        ensures
            r is Ok <==> version == 1,
            r matches Err(e) ==> e == Error::UnknownVersion(version),
    {
        if version == 1 {
            Ok(VersionSpecs {
                version: 1,
                num_teleports: 512,
                num_spawns: 128,
                num_spawn_modes: 3,
                teleport_name_size: 41,
                max_tile_frames: 32,
                ending_text_lines: 48,
                ending_text_line_len: 32,
                background_layers: 32,
                title_ending_text_line: 47,
                preview_tile_index: 256,
            })
        } else {
            Err(Error::UnknownVersion(version))
        }
    }

    /// The version id.
    pub fn get_version(&self) -> (r: u32)
        ensures
            r == 1,
    {
        proof {
            use_type_invariant(self);
        }
        self.version
    }

    /// The size of the teleport table.
    pub fn get_num_teleports(&self) -> (r: usize)
        ensures
            r == 512,
    {
        proof {
            use_type_invariant(self);
        }
        self.num_teleports
    }

    /// The size of each spawn-position table.
    pub fn get_num_spawns(&self) -> (r: usize)
        ensures
            r == 128,
    {
        proof {
            use_type_invariant(self);
        }
        self.num_spawns
    }

    /// The number of spawn-position tables in a file.
    pub fn get_num_spawn_modes(&self) -> (r: usize)
        ensures
            r == 3,
    {
        proof {
            use_type_invariant(self);
        }
        self.num_spawn_modes
    }

    /// The byte size of a teleport name field.
    pub fn get_teleport_name_size(&self) -> (r: usize)
        ensures
            r == 41,
    {
        proof {
            use_type_invariant(self);
        }
        self.teleport_name_size
    }

    /// The most animation frames a tile can have.
    pub fn get_max_tile_frames(&self) -> (r: usize)
        ensures
            r == 32,
    {
        proof {
            use_type_invariant(self);
        }
        self.max_tile_frames
    }

    /// The number of text lines saved in a `.cnms` file.
    pub fn get_ending_text_lines(&self) -> (r: usize)
        ensures
            r == 48,
    {
        proof {
            use_type_invariant(self);
        }
        self.ending_text_lines
    }

    /// The byte length of each text line.
    pub fn get_ending_text_line_len(&self) -> (r: usize)
        ensures
            r == 32,
    {
        proof {
            use_type_invariant(self);
        }
        self.ending_text_line_len
    }

    /// The number of background layers a level holds.
    pub fn get_background_layers(&self) -> (r: usize)
        ensures
            r == 32,
    {
        proof {
            use_type_invariant(self);
        }
        self.background_layers
    }

    /// The text line that carries the level title.
    pub fn get_title_ending_text_line(&self) -> (r: usize)
        ensures
            r == 47,
    {
        proof {
            use_type_invariant(self);
        }
        self.title_ending_text_line
    }

    /// The tile-properties index reserved for level-preview metadata.
    pub fn get_preview_tile_index(&self) -> (r: usize)
        ensures
            r == 256,
    {
        proof {
            use_type_invariant(self);
        }
        self.preview_tile_index
    }
}

/// The id a difficulty rating is stored under: its position in the list.
pub open spec fn spec_difficulty_id(d: DifficultyRating) -> u8 {
    match d {
        DifficultyRating::Tutorial => 0,
        DifficultyRating::ReallyEasy => 1,
        DifficultyRating::Easy => 2,
        DifficultyRating::Normal => 3,
        DifficultyRating::KindaHard => 4,
        DifficultyRating::Hard => 5,
        DifficultyRating::Ultra => 6,
        DifficultyRating::Extreme => 7,
        DifficultyRating::Dealth => 8,
        DifficultyRating::UltraDeath => 9,
    }
}

/// The difficulty rating shown for a level on the level select screen.
#[derive(Debug, Clone, Copy, PartialEq, Eq, Structural)]
pub enum DifficultyRating {
    /// The easiest rating.
    Tutorial,
    ///
    ReallyEasy,
    ///
    Easy,
    ///
    Normal,
    ///
    KindaHard,
    ///
    Hard,
    ///
    Ultra,
    ///
    Extreme,
    /// (The engine spells this rating this way.)
    Dealth,
    /// The hardest rating.
    UltraDeath,
}

impl DifficultyRating {
    /// The rating a difficulty id denotes; ids past the list give `None`.
    pub fn from_difficulty_id(id: u8) -> (r: Option<Self>)
        ensures
            match r {
                Some(d) => spec_difficulty_id(d) == id,
                None => id > 9,
            },
    {
        match id {
            0 => Some(DifficultyRating::Tutorial),
            1 => Some(DifficultyRating::ReallyEasy),
            2 => Some(DifficultyRating::Easy),
            3 => Some(DifficultyRating::Normal),
            4 => Some(DifficultyRating::KindaHard),
            5 => Some(DifficultyRating::Hard),
            6 => Some(DifficultyRating::Ultra),
            7 => Some(DifficultyRating::Extreme),
            8 => Some(DifficultyRating::Dealth),
            9 => Some(DifficultyRating::UltraDeath),
            _ => None,
        }
    }

    /// The id this rating is stored under.
    pub fn get_difficulty_id(&self) -> (r: u8)
        ensures
            r == spec_difficulty_id(*self),
    {
        match self {
            DifficultyRating::Tutorial => 0,
            DifficultyRating::ReallyEasy => 1,
            DifficultyRating::Easy => 2,
            DifficultyRating::Normal => 3,
            DifficultyRating::KindaHard => 4,
            DifficultyRating::Hard => 5,
            DifficultyRating::Ultra => 6,
            DifficultyRating::Extreme => 7,
            DifficultyRating::Dealth => 8,
            DifficultyRating::UltraDeath => 9,
        }
    }

    /// The rating's display name, with spaces and punctuation.
    pub fn to_string_pretty(&self) -> (r: String)
        ensures
            match self {
                DifficultyRating::Tutorial => r@ == "Tutorial"@,
                DifficultyRating::ReallyEasy => r@ == "Really Easy"@,
                DifficultyRating::Easy => r@ == "Easy"@,
                DifficultyRating::Normal => r@ == "Normal"@,
                DifficultyRating::KindaHard => r@ == "Kinda Hard"@,
                DifficultyRating::Hard => r@ == "Hard"@,
                DifficultyRating::Ultra => r@ == "Ultra!"@,
                DifficultyRating::Extreme => r@ == "Extreme!"@,
                DifficultyRating::Dealth => r@ == "Death!!!"@,
                DifficultyRating::UltraDeath => r@ == "ULTRA DEATH!"@,
            },
    {
        match self {
            DifficultyRating::Tutorial => "Tutorial".to_owned(),
            DifficultyRating::ReallyEasy => "Really Easy".to_owned(),
            DifficultyRating::Easy => "Easy".to_owned(),
            DifficultyRating::Normal => "Normal".to_owned(),
            DifficultyRating::KindaHard => "Kinda Hard".to_owned(),
            DifficultyRating::Hard => "Hard".to_owned(),
            DifficultyRating::Ultra => "Ultra!".to_owned(),
            DifficultyRating::Extreme => "Extreme!".to_owned(),
            DifficultyRating::Dealth => "Death!!!".to_owned(),
            DifficultyRating::UltraDeath => "ULTRA DEATH!".to_owned(),
        }
    }
}

/// Every difficulty id at most 9 decodes, and decoding an encoded rating
/// gives the rating back.
pub proof fn lemma_difficulty_id_round_trip(d: DifficultyRating)
    ensures
        spec_difficulty_id(d) <= 9,
{
}

} // verus!

verus! {

/// The level-select metadata of a level.
#[derive(Debug)]
pub struct LevelMetaData {
    /// The level's title.
    pub title: String,
    /// The subtitle, shown after the title (stored after a backslash on the
    /// title line).
    pub subtitle: Option<String>,
    /// The preview icon's tile position on the shared bitmap.
    pub preview_loc: (u32, u32),
    /// The difficulty shown on the level select screen.
    pub difficulty_rating: DifficultyRating,
}

/// The index of the first byte `x` in `b`, or the length when absent.
pub open spec fn spec_find_byte(b: Seq<u8>, x: u8) -> int
    decreases b.len(),
{
    if b.len() == 0 {
        0
    } else if b[0] == x {
        0
    } else {
        1 + spec_find_byte(b.drop_first(), x)
    }
}

/// The byte search stops at the first hit, or at the end.
proof fn lemma_find_byte(s: Seq<u8>, x: u8, i: int)
    requires
        0 <= i <= s.len(),
        forall|k: int| 0 <= k < i ==> s[k] != x,
        i < s.len() ==> s[i] == x,
    ensures
        spec_find_byte(s, x) == i,
    decreases s.len(),
{
    if s.len() > 0 && s[0] != x {
        lemma_find_byte(s.drop_first(), x, i - 1);
    }
}

/// The index of the first byte `x` in `b`, or the length when absent.
fn find_byte(b: &Vec<u8>, x: u8) -> (r: usize)
    ensures
        r == spec_find_byte(b@, x),
        r <= b@.len(),
        r < b@.len() ==> b@[r as int] == x,
        forall|k: int| 0 <= k < r ==> b@[k] != x,
{
    let mut i: usize = 0;
    while i < b.len()
        invariant
            i <= b@.len(),
            forall|k: int| 0 <= k < i ==> b@[k] != x,
        decreases b.len() - i,
    {
        if b[i] == x {
            proof {
                lemma_find_byte(b@, x, i as int);
            }
            return i;
        }
        i = i + 1;
    }
    proof {
        lemma_find_byte(b@, x, b@.len() as int);
    }
    i
}

/// The decoded text of a byte range, or empty when it is not UTF-8.
pub open spec fn spec_seg_chars(b: Seq<u8>, from: int, to: int) -> Seq<char> {
    if vstd::utf8::valid_utf8(b.subrange(from, to)) {
        vstd::utf8::decode_utf8(b.subrange(from, to))
    } else {
        Seq::empty()
    }
}

/// Copies the byte range `from .. to` out of `b`.
fn bytes_range(b: &Vec<u8>, from: usize, to: usize) -> (r: Vec<u8>)
    requires
        from <= to <= b@.len(),
    ensures
        r@ == b@.subrange(from as int, to as int),
{
    let mut r: Vec<u8> = Vec::new();
    let mut i = from;
    while i < to
        invariant
            from <= i <= to <= b@.len(),
            r@ == b@.subrange(from as int, i as int),
        decreases to - i,
    {
        r.push(b[i]);
        i = i + 1;
        proof {
            assert(r@ =~= b@.subrange(from as int, i as int));
        }
    }
    r
}

/// Whether decoding the level metadata succeeds: the title line is
/// readable, the reserved preview tile decodes with at least one frame, and
/// the damage array holds the preview slot.
pub open spec fn spec_metadata_decode_ok(
    emb: Map<Seq<char>, crate::lparse::EntryData>,
    ems: Map<Seq<char>, crate::lparse::EntryData>,
    lenient: bool,
) -> bool {
    &&& cnms_types::spec_text_line_ok(ems, 47)
    &&& cnmb_types::spec_tile_decode_ok(emb, 256, lenient)
    &&& (emb["BP_NUM_FRAMES"@]->I32_0@[256] & 0xff) != 0
    &&& em_dmg_holds_preview(emb)
}

/// Whether the damage array holds the reserved preview slot.
pub open spec fn em_dmg_holds_preview(emb: Map<Seq<char>, crate::lparse::EntryData>) -> bool {
    emb.contains_key("BP_DMG"@) && (emb["BP_DMG"@] matches crate::lparse::EntryData::I32(v)
        && v@.len() > 256)
}

/// The full title line a metadata saves: the title, then a backslash and
/// the subtitle when one exists.
pub open spec fn spec_full_title(m: LevelMetaData) -> Seq<char> {
    m.title@ + (match m.subtitle {
        Some(s) => seq!['\\'] + s@,
        None => Seq::<char>::empty(),
    })
}

/// Whether `t` is the reserved preview tile a metadata saves.
pub open spec fn spec_preview_tile_of(m: LevelMetaData, t: cnmb_types::TileProperties) -> bool {
    &&& t.solid == false
    &&& t.transparency == 7
    &&& t.damage_type == cnmb_types::DamageType::Lava(
        spec_difficulty_id(m.difficulty_rating) as i32,
    )
    &&& t.anim_speed == Duration(1)
    &&& t.angle == 0
    &&& t.frames@ == seq![(m.preview_loc.0 as i32, m.preview_loc.1 as i32)]
    &&& t.collision_data == cnmb_types::CollisionType::Box(
        crate::Rect { x: 0, y: 0, w: 0, h: 0 },
    )
}

impl LevelMetaData {
    /// Reads the level metadata: the title line (line 47, split at the first
    /// backslash into title and subtitle), the preview tile's first frame,
    /// and the difficulty stored in the reserved tile's damage word.
    pub fn from_lparse(
        cnmb: &LParse,
        cnms: &LParse,
        version: &VersionSpecs,
        ignore_warnings: bool,
    ) -> (r: Result<Self, Error>)
        ensures
            r is Ok <==> spec_metadata_decode_ok(
                cnmb.entries_map(),
                cnms.entries_map(),
                ignore_warnings,
            ),
            r matches Ok(m) ==> {
                let tb = vstd::utf8::encode_utf8(
                    cnms_types::spec_text_line(cnms.entries_map(), 47),
                );
                let cut = spec_find_byte(tb, 0x5c);
                let emb = cnmb.entries_map();
                &&& cnms_types::spec_text_line_ok(cnms.entries_map(), 47)
                &&& m.title@ == spec_seg_chars(tb, 0, cut)
                &&& (if cut < tb.len() {
                    let cut2 = cut + 1 + spec_find_byte(tb.skip(cut + 1), 0x5c);
                    m.subtitle matches Some(s) && s@ == spec_seg_chars(tb, cut + 1, cut2)
                } else {
                    m.subtitle is None
                })
                &&& m.preview_loc == (
                    emb["BP_FRAMESX"@]->I32_0@[8192int] as u32,
                    emb["BP_FRAMESY"@]->I32_0@[8192int] as u32,
                )
                &&& (if (emb["BP_DMG"@]->I32_0@[256] as u8) <= 9 {
                    spec_difficulty_id(m.difficulty_rating) == emb["BP_DMG"@]->I32_0@[
                        256
                    ] as u8
                } else {
                    m.difficulty_rating == DifficultyRating::Normal
                })
            },
    {
        let title_full = match cnms_types::get_ending_text_line(
            cnms,
            version,
            version.get_title_ending_text_line(),
        ) {
            Ok(s) => s,
            Err(e) => {
                return Err(e);
            },
        };
        let tb = crate::text::string_to_bytes(title_full.as_str());
        proof {
            vstd::utf8::encode_utf8_decode_utf8(title_full@);
        }
        let cut = find_byte(&tb, 0x5c);
        let title = match crate::text::string_from_utf8(bytes_range(&tb, 0, cut)) {
            Some(s) => s,
            None => String::new(),
        };
        let subtitle = if cut < tb.len() {
            let rest_start = cut + 1;
            let mut cut2 = rest_start;
            while cut2 < tb.len() && tb[cut2] != 0x5c
                invariant
                    rest_start <= cut2 <= tb@.len(),
                    forall|k: int| rest_start <= k < cut2 ==> tb@[k] != 0x5c,
                decreases tb.len() - cut2,
            {
                cut2 = cut2 + 1;
            }
            proof {
                let rest = tb@.skip(rest_start as int);
                assert forall|k: int| 0 <= k < cut2 - rest_start implies rest[k] != 0x5c by {
                    assert(rest[k] == tb@[rest_start + k]);
                }
                if cut2 < tb@.len() {
                    assert(rest[cut2 - rest_start] == tb@[cut2 as int]);
                }
                lemma_find_byte(rest, 0x5c, cut2 - rest_start);
            }
            Some(
                match crate::text::string_from_utf8(bytes_range(&tb, rest_start, cut2)) {
                    Some(s) => s,
                    None => String::new(),
                },
            )
        } else {
            None
        };
        let tile_properties = match cnmb_types::TileProperties::from_lparse(
            cnmb,
            version,
            version.get_preview_tile_index(),
            ignore_warnings,
        ) {
            Ok(t) => t,
            Err(e) => {
                return Err(e);
            },
        };
        if tile_properties.frames.len() == 0 {
            return Err(Error::Corrupted("the preview tile has no frames".to_owned()));
        }
        let preview_loc = (tile_properties.frames[0].0 as u32, tile_properties.frames[0].1 as u32);
        let dmg_entry = match cnmb.try_get_entry("BP_DMG") {
            Ok(d) => match d.try_get_i32() {
                Ok(v) => v,
                Err(e) => {
                    return Err(e);
                },
            },
            Err(e) => {
                return Err(e);
            },
        };
        if dmg_entry.len() <= 256 {
            return Err(
                Error::Corrupted("the damage array misses the preview tile slot".to_owned()),
            );
        }
        let difficulty_rating = match DifficultyRating::from_difficulty_id(
            dmg_entry[version.get_preview_tile_index()] as u8,
        ) {
            Some(d) => d,
            None => DifficultyRating::Normal,
        };
        Ok(LevelMetaData { title, subtitle, preview_loc, difficulty_rating })
    }

    /// The full title line: the title, then a backslash and the subtitle
    /// when one exists.
    pub fn get_full_title(&self) -> (r: String)
        ensures
            r@ == spec_full_title(*self),
    {
        let mut r = self.title.clone();
        match &self.subtitle {
            Some(s) => {
                vstd::string::StringExecFns::append(&mut r, "\\");
                vstd::string::StringExecFns::append(&mut r, s.as_str());
                proof {
                    reveal_strlit("\\");
                    assert("\\"@ =~= seq!['\\']);
                    assert(r@ =~= self.title@ + (seq!['\\'] + self.subtitle->0@));
                }
            },
            None => {
                proof {
                    assert(r@ =~= self.title@ + Seq::<char>::empty());
                }
            },
        }
        r
    }

    /// The reserved preview tile this metadata saves: clear, lava damage
    /// carrying the difficulty id, one frame at the preview position.
    pub fn get_tile_property(&self) -> (r: cnmb_types::TileProperties)
        ensures
            r.solid == false,
            r.transparency == 7,
            r.damage_type == cnmb_types::DamageType::Lava(
                spec_difficulty_id(self.difficulty_rating) as i32,
            ),
            r.anim_speed == Duration(1),
            r.angle == 0,
            r.frames@ == seq![(self.preview_loc.0 as i32, self.preview_loc.1 as i32)],
            r.collision_data == cnmb_types::CollisionType::Box(crate::Rect { x: 0, y: 0, w: 0, h: 0 }),
    {
        let mut frames: Vec<(i32, i32)> = Vec::new();
        frames.push((self.preview_loc.0 as i32, self.preview_loc.1 as i32));
        proof {
            assert(frames@ =~= seq![(self.preview_loc.0 as i32, self.preview_loc.1 as i32)]);
        }
        cnmb_types::TileProperties {
            solid: false,
            transparency: consts::CLEAR,
            damage_type: cnmb_types::DamageType::Lava(self.difficulty_rating.get_difficulty_id() as i32),
            anim_speed: Duration(1),
            angle: 0,
            frames,
            collision_data: cnmb_types::CollisionType::Box(crate::Rect { x: 0, y: 0, w: 0, h: 0 }),
        }
    }
}

} // verus!

verus! {

/// A whole level: its spawners, cell grid, tile properties, metadata and
/// background layers.
#[derive(Debug)]
pub struct LevelData {
    /// The level format's limit table.
    pub version: VersionSpecs,
    /// The placed world objects.
    pub spawners: Vec<cnms_types::Spawner>,
    /// The cell grid.
    pub cells: cnmb_types::Cells,
    /// The editable tile list (the reserved preview slot is not in it).
    pub tile_properties: Vec<cnmb_types::TileProperties>,
    /// The level-select metadata.
    pub metadata: LevelMetaData,
    /// The background layers, drawn back to front.
    pub background_layers: Vec<cnmb_types::BackgroundLayer>,
}

/// Whether a decoded tile is kept in the editable list; a save pads with
/// tiles that fail this, so dropping them keeps loading stable.
pub open spec fn spec_tile_kept(t: cnmb_types::TileProperties) -> bool {
    !(t.damage_type == cnmb_types::DamageType::NoDamage && t.anim_speed == Duration(1)
        && t.frames@ =~= seq![(0i32, 0i32)] && t.collision_data == cnmb_types::CollisionType::Box(
        crate::Rect { x: 0, y: 0, w: 32, h: 32 },
    ))
}

impl LevelData {
    /// A blank level of the given format version (only version id 1 exists):
    /// no spawners or tiles, a 512 by 256 grid of empty cells, a default
    /// title, and 32 default background layers.
    pub fn from_version(version: u32) -> (r: Result<Self, Error>)
        ensures
            r is Ok <==> version == 1,
            r matches Err(e) ==> e == Error::UnknownVersion(version),
            r matches Ok(ld) ==> {
                &&& ld.spawners@.len() == 0
                &&& ld.tile_properties@.len() == 0
                &&& ld.cells.wf()
                &&& ld.cells.spec_width() == 512
                &&& ld.cells.spec_height() == 256
                &&& forall|i: int|
                    0 <= i < ld.cells.spec_cells().len() ==> ld.cells.spec_cells()[i] == (
                    cnmb_types::Cell {
                        foreground: cnmb_types::TileId(None),
                        background: cnmb_types::TileId(None),
                        light: consts::LIGHT_NORMAL,
                    })
                &&& ld.metadata.title@ == "Untitled"@
                &&& ld.metadata.subtitle is None
                &&& ld.metadata.preview_loc == (0u32, 0u32)
                &&& ld.metadata.difficulty_rating == DifficultyRating::Normal
                &&& ld.background_layers@.len() == 32
                &&& forall|i: int|
                    0 <= i < 32 ==> ld.background_layers@[i] == (cnmb_types::BackgroundLayer {
                        origin: Point(0, 0),
                        scroll_speed: Point(0, 0),
                        speed: Point(0, 0),
                        spacing: (0, 0),
                        image: cnmb_types::BackgroundImage::Bitmap(
                            crate::Rect { x: 0, y: 0, w: 0, h: 0 },
                        ),
                        transparency: 0,
                        repeat_up: false,
                        repeat_down: false,
                        repeat_horizontally: false,
                        in_foreground: false,
                        bottom3d: 0,
                        top3d: 0,
                        height3d: 0,
                        flags: cnmb_types::BackgroundFlags(3),
                    })
            },
    {
        let version = match VersionSpecs::from_version(version) {
            Ok(v) => v,
            Err(e) => {
                return Err(e);
            },
        };
        let mut background_layers: Vec<cnmb_types::BackgroundLayer> = Vec::new();
        let mut i: usize = 0;
        while i < 32
            invariant
                i <= 32,
                background_layers@.len() == i,
                forall|j: int|
                    0 <= j < i ==> background_layers@[j] == (cnmb_types::BackgroundLayer {
                        origin: Point(0, 0),
                        scroll_speed: Point(0, 0),
                        speed: Point(0, 0),
                        spacing: (0, 0),
                        image: cnmb_types::BackgroundImage::Bitmap(
                            crate::Rect { x: 0, y: 0, w: 0, h: 0 },
                        ),
                        transparency: 0,
                        repeat_up: false,
                        repeat_down: false,
                        repeat_horizontally: false,
                        in_foreground: false,
                        bottom3d: 0,
                        top3d: 0,
                        height3d: 0,
                        flags: cnmb_types::BackgroundFlags(3),
                    }),
            decreases 32 - i,
        {
            background_layers.push(
                cnmb_types::BackgroundLayer {
                    origin: Point(0, 0),
                    scroll_speed: Point(0, 0),
                    speed: Point(0, 0),
                    spacing: (0, 0),
                    image: cnmb_types::BackgroundImage::Bitmap(
                        crate::Rect { x: 0, y: 0, w: 0, h: 0 },
                    ),
                    transparency: 0,
                    repeat_up: false,
                    repeat_down: false,
                    repeat_horizontally: false,
                    in_foreground: false,
                    bottom3d: 0,
                    top3d: 0,
                    height3d: 0,
                    flags: cnmb_types::BackgroundFlags(3),
                },
            );
            i = i + 1;
        }
        Ok(
            LevelData {
                version,
                spawners: Vec::new(),
                tile_properties: Vec::new(),
                cells: cnmb_types::Cells::new(512, 256),
                metadata: LevelMetaData {
                    title: "Untitled".to_owned(),
                    subtitle: None,
                    preview_loc: (0, 0),
                    difficulty_rating: DifficultyRating::Normal,
                },
                background_layers,
            },
        )
    }

    /// Loads a level from its paired containers. The two files must carry
    /// the same version id. With `ignore_warnings`, malformed values decode
    /// to safe defaults where the format allows it.
    pub fn from_lparse(cnmb: &LParse, cnms: &LParse, ignore_warnings: bool) -> (r: Result<
        Self,
        Error,
    >)
        ensures
            cnmb.spec_version_id() != cnms.spec_version_id() ==> r == Result::<
                LevelData,
                Error,
            >::Err(
                Error::MismatchedVersions(cnmb.spec_version_id(), cnms.spec_version_id()),
            ),
            r matches Ok(ld) ==> {
                let emb = cnmb.entries_map();
                let ems = cnms.entries_map();
                &&& ld.cells.wf()
                &&& spec_cells_ok_marker(emb)
                &&& ld.background_layers@.len() == 32
                &&& forall|i: int|
                    0 <= i < 32 ==> cnmb_types::spec_bg_decoded(
                        #[trigger] ld.background_layers@[i],
                        emb,
                        i,
                    )
                &&& forall|i: int|
                    0 <= i < ld.tile_properties@.len() ==> spec_tile_kept(
                        #[trigger] ld.tile_properties@[i],
                    )
                &&& ems.contains_key("NUM_SPAWNERS"@)
                &&& (ems["NUM_SPAWNERS"@] matches crate::lparse::EntryData::I32(cv) && cv@.len()
                    >= 1 && ld.spawners@.len() == cv@[0])
                &&& forall|i: int|
                    0 <= i < ld.spawners@.len() ==> cnms_types::spec_spawner_decoded(
                        #[trigger] ld.spawners@[i],
                        ems,
                        i,
                        ignore_warnings,
                    )
                &&& spec_metadata_decode_ok(emb, ems, ignore_warnings)
            },
    {
        let cnmb_version = cnmb.get_version().get_version_id();
        let cnms_version = cnms.get_version().get_version_id();
        if cnmb_version != cnms_version {
            return Err(Error::MismatchedVersions(cnmb_version, cnms_version));
        }
        let version = match VersionSpecs::from_version(cnmb_version) {
            Ok(v) => v,
            Err(e) => {
                return Err(e);
            },
        };
        let tile_properties = match Self::tile_properties_from_lparse(
            cnmb,
            &version,
            ignore_warnings,
        ) {
            Ok(v) => v,
            Err(e) => {
                return Err(e);
            },
        };
        let cells = match cnmb_types::Cells::from_lparse(cnmb, tile_properties.len()) {
            Ok(c) => c,
            Err(e) => {
                return Err(e);
            },
        };
        let spawners = match Self::spawners_from_lparse(cnms, &version, ignore_warnings) {
            Ok(v) => v,
            Err(e) => {
                return Err(e);
            },
        };
        let metadata = match LevelMetaData::from_lparse(cnmb, cnms, &version, ignore_warnings) {
            Ok(m) => m,
            Err(e) => {
                return Err(e);
            },
        };
        let background_layers = match Self::background_layers_from_lparse(cnmb, &version) {
            Ok(v) => v,
            Err(e) => {
                return Err(e);
            },
        };
        Ok(LevelData { version, tile_properties, cells, spawners, metadata, background_layers })
    }

    /// Saves the level into its paired containers, replacing every level
    /// entry. Fails fast when a fixed table of the format would overflow.
    pub fn save(&self, cnmb: &mut LParse, cnms: &mut LParse) -> (r: Result<(), Error>)
        requires
            self.cells.wf(),
            self.cells.saveable(),
            self.tile_properties@.len() < 0x10_0000,
            forall|i: int|
                0 <= i < self.spawners@.len() ==> super::level_data::wobj_type::spec_wobj_enc_wf(
                    (#[trigger] self.spawners@[i]).type_data,
                ),
        ensures
            r matches Err(e) ==> e is EntryOverflow,
            r is Ok ==> {
                &&& cnms_types::spec_spawners_saved(
                    final(cnms).entries_map(),
                    self.spawners@,
                    spec_full_title(self.metadata),
                )
                &&& cnmb_types::spec_cells_saved(
                    final(cnmb).entries_map(),
                    self.cells,
                    self.tile_properties@.len() as int + 1,
                )
            },
    {
        let title = self.metadata.get_full_title();
        match cnms_types::save_spawner_vec(cnms, &self.version, title, self.spawners.as_slice()) {
            Ok(_) => {},
            Err(e) => {
                return Err(e);
            },
        }
        cnmb_types::save_background_vec(cnmb, &self.version, self.background_layers.as_slice());
        let meta_tile = self.metadata.get_tile_property();
        cnmb_types::save_tile_properties_vec(
            cnmb,
            &self.version,
            &meta_tile,
            self.tile_properties.as_slice(),
        );
        self.cells.save(cnmb, self.tile_properties.len() + 1, &self.version);
        Ok(())
    }

    /// Reads the editable tile list: every slot before the table length
    /// recorded in the blocks header, skipping the reserved preview slot and
    /// dropping blank padding tiles.
    fn tile_properties_from_lparse(
        cnmb: &LParse,
        version: &VersionSpecs,
        ignore_warnings: bool,
    ) -> (r: Result<Vec<cnmb_types::TileProperties>, Error>)
        ensures
            r matches Ok(v) ==> forall|i: int|
                0 <= i < v@.len() ==> spec_tile_kept(#[trigger] v@[i]),
    {
        let header = match cnmb.try_get_entry("BLOCKS_HEADER") {
            Ok(d) => match d.try_get_i32() {
                Ok(v) => v,
                Err(e) => {
                    return Err(e);
                },
            },
            Err(e) => {
                return Err(e);
            },
        };
        if header.len() < 3 {
            return Err(Error::Corrupted("the blocks header is too short".to_owned()));
        }
        let count_raw = header[2];
        if count_raw < 0 || count_raw > 0x0100_0000 {
            return Err(Error::Corrupted("the tile table length is out of range".to_owned()));
        }
        let count = count_raw as usize;
        let mut tile_properties: Vec<cnmb_types::TileProperties> = Vec::new();
        let mut index: usize = 0;
        while index < count
            invariant
                index <= count,
                count <= 0x0100_0000,
                forall|i: int|
                    0 <= i < tile_properties@.len() ==> spec_tile_kept(
                        #[trigger] tile_properties@[i],
                    ),
            decreases count - index,
        {
            if index == 256 {
                index = index + 1;
                continue ;
            }
            let tile = match cnmb_types::TileProperties::from_lparse(
                cnmb,
                version,
                index,
                ignore_warnings,
            ) {
                Ok(t) => t,
                Err(e) => {
                    return Err(e);
                },
            };
            let blank = match &tile.damage_type {
                cnmb_types::DamageType::NoDamage => tile.anim_speed.0 == 1 && tile.frames.len()
                    == 1 && tile.frames[0].0 == 0 && tile.frames[0].1 == 0 && (
                match &tile.collision_data {
                    cnmb_types::CollisionType::Box(rect) => rect.x == 0 && rect.y == 0 && rect.w
                        == 32 && rect.h == 32,
                    _ => false,
                }),
                _ => false,
            };
            if !blank {
                proof {
                    if tile.frames@.len() == 1 && tile.frames@[0].0 == 0 && tile.frames@[0].1
                        == 0 {
                        assert(tile.frames@ =~= seq![(0i32, 0i32)]);
                    }
                }
                tile_properties.push(tile);
            }
            index = index + 1;
        }
        Ok(tile_properties)
    }

    /// Reads the spawner list: every slot before the count in
    /// `NUM_SPAWNERS`.
    fn spawners_from_lparse(cnms: &LParse, version: &VersionSpecs, ignore_warnings: bool) -> (r:
        Result<Vec<cnms_types::Spawner>, Error>)
        ensures
            r matches Ok(v) ==> {
                let ems = cnms.entries_map();
                &&& ems.contains_key("NUM_SPAWNERS"@)
                &&& (ems["NUM_SPAWNERS"@] matches crate::lparse::EntryData::I32(cv) && cv@.len()
                    >= 1 && v@.len() == cv@[0])
                &&& forall|i: int|
                    0 <= i < v@.len() ==> cnms_types::spec_spawner_decoded(
                        #[trigger] v@[i],
                        ems,
                        i,
                        ignore_warnings,
                    )
            },
    {
        let counts = match cnms.try_get_entry("NUM_SPAWNERS") {
            Ok(d) => match d.try_get_i32() {
                Ok(v) => v,
                Err(e) => {
                    return Err(e);
                },
            },
            Err(e) => {
                return Err(e);
            },
        };
        if counts.len() < 1 {
            return Err(Error::Corrupted("the spawner count is missing".to_owned()));
        }
        let count_raw = counts[0];
        if count_raw < 0 || count_raw > 0x0100_0000 {
            return Err(Error::Corrupted("the spawner count is out of range".to_owned()));
        }
        let count = count_raw as usize;
        let mut spawners: Vec<cnms_types::Spawner> = Vec::new();
        let mut index: usize = 0;
        while index < count
            invariant
                index <= count,
                count <= 0x0100_0000,
                spawners@.len() == index,
                forall|i: int|
                    0 <= i < index ==> cnms_types::spec_spawner_decoded(
                        #[trigger] spawners@[i],
                        cnms.entries_map(),
                        i,
                        ignore_warnings,
                    ),
            decreases count - index,
        {
            let sp = match cnms_types::Spawner::from_lparse(cnms, version, index, ignore_warnings)
                {
                Ok(s) => s,
                Err(e) => {
                    return Err(e);
                },
            };
            spawners.push(sp);
            index = index + 1;
        }
        Ok(spawners)
    }

    /// Reads all 32 background layers.
    fn background_layers_from_lparse(cnmb: &LParse, version: &VersionSpecs) -> (r: Result<
        Vec<cnmb_types::BackgroundLayer>,
        Error,
    >)
        ensures
            r matches Ok(v) ==> v@.len() == 32 && (forall|i: int|
                0 <= i < 32 ==> cnmb_types::spec_bg_decoded(
                    #[trigger] v@[i],
                    cnmb.entries_map(),
                    i,
                )),
    {
        let mut background_layers: Vec<cnmb_types::BackgroundLayer> = Vec::new();
        let mut index: usize = 0;
        while index < 32
            invariant
                index <= 32,
                background_layers@.len() == index,
                forall|i: int|
                    0 <= i < index ==> cnmb_types::spec_bg_decoded(
                        #[trigger] background_layers@[i],
                        cnmb.entries_map(),
                        i,
                    ),
            decreases 32 - index,
        {
            let bg = match cnmb_types::BackgroundLayer::from_lparse(cnmb, version, index) {
                Ok(b) => b,
                Err(e) => {
                    return Err(e);
                },
            };
            background_layers.push(bg);
            index = index + 1;
        }
        Ok(background_layers)
    }
}

/// Marker tying a successful level load to the cell-grid conditions.
pub open spec fn spec_cells_ok_marker(em: Map<Seq<char>, crate::lparse::EntryData>) -> bool {
    cnmb_types::spec_cells_entries_ok(em)
}

} // verus!
