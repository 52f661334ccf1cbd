//! Scalar-triple round trips across the five encoding patterns.

use cnmo_parse::level_data::cnms_types::SpawnerMode;
use cnmo_parse::level_data::item_type::ItemType;
use cnmo_parse::level_data::wobj_type::{KeyColor, TtNodeType, UpgradeTriggerType, WobjType};
use cnmo_parse::level_data::{DifficultyRating, Point, VersionSpecs};
use cnmo_parse::lparse::LParse;

fn round_trip(w: WobjType) -> WobjType {
    let version = VersionSpecs::from_version(1).unwrap();
    let cnms = LParse::new(1).unwrap();
    let (mut t, mut s, mut c, mut l) = (Vec::new(), Vec::new(), Vec::new(), Vec::new());
    let (id, ci, cf) = w.serialize(&mut t, &mut s, &mut c, &mut l, Point(0, 0), &version);
    WobjType::decode_scalars(&cnms, &version, id, ci, cf, false).unwrap()
}

#[test]
fn id_only_and_scalar_patterns_round_trip() {
    // Pattern 1: id only.
    assert!(matches!(round_trip(WobjType::SilverSlime), WobjType::SilverSlime));
    assert!(matches!(round_trip(WobjType::Wolf), WobjType::Wolf));
    // Pattern 2: id plus one scalar.
    match round_trip(WobjType::MegaFish { water_level: -40, swimming_speed: 1.25f32.to_bits() }) {
        WobjType::MegaFish { water_level, swimming_speed } => {
            assert_eq!(water_level, -40);
            assert_eq!(swimming_speed, 1.25f32.to_bits());
        }
        other => panic!("wrong wobj: {:?}", other),
    }
    match round_trip(WobjType::LavaDragonHead { len: 20, health: 350.0f32.to_bits() }) {
        WobjType::LavaDragonHead { len, health } => {
            assert_eq!(len, 20);
            assert_eq!(health, 350.0f32.to_bits());
        }
        other => panic!("wrong wobj: {:?}", other),
    }
    // Pattern 4: composite scalars (a sign carries a flag).
    match round_trip(WobjType::MovingFire {
        vertical: false,
        dist: 50,
        speed: 0.75f32.to_bits(),
        despawn: false,
    }) {
        WobjType::MovingFire { vertical, dist, speed, despawn } => {
            assert!(!vertical && !despawn);
            assert_eq!(dist, 50);
            assert_eq!(speed, 0.75f32.to_bits());
        }
        other => panic!("wrong wobj: {:?}", other),
    }
    // Enums folded into ids.
    assert!(matches!(
        round_trip(WobjType::LockedBlock { color: KeyColor::Green, consume_key: true }),
        WobjType::LockedBlock { color: KeyColor::Green, consume_key: true }
    ));
    assert!(matches!(
        round_trip(WobjType::TtNode { node_type: TtNodeType::Waypoint(17) }),
        WobjType::TtNode { node_type: TtNodeType::Waypoint(17) }
    ));
    assert!(matches!(
        round_trip(WobjType::UpgradeTrigger { trigger_type: UpgradeTriggerType::Vortex }),
        WobjType::UpgradeTrigger { trigger_type: UpgradeTriggerType::Vortex }
    ));
    match round_trip(WobjType::Checkpoint { checkpoint_num: 5 }) {
        WobjType::Checkpoint { checkpoint_num } => assert_eq!(checkpoint_num, 5),
        other => panic!("wrong wobj: {:?}", other),
    }
    // The size of a teddy minion travels in the type id.
    assert!(matches!(
        round_trip(WobjType::TtMinion { small: true }),
        WobjType::TtMinion { small: true }
    ));
    assert!(matches!(
        round_trip(WobjType::TtMinion { small: false }),
        WobjType::TtMinion { small: false }
    ));
    // The starts-on flag travels in the tick count's sign.
    for (frames, on) in [(90u32, true), (90, false), (0, true)] {
        match round_trip(WobjType::DisapearingPlatform {
            time_on_frames: frames,
            time_off_frames: 45.0f32.to_bits(),
            starts_on: on,
        }) {
            WobjType::DisapearingPlatform { time_on_frames, time_off_frames, starts_on } => {
                assert_eq!(time_on_frames, frames);
                assert_eq!(time_off_frames, 45.0f32.to_bits());
                assert_eq!(starts_on, on);
            }
            other => panic!("wrong wobj: {:?}", other),
        }
    }
    // A max-power rune's skin override is stored shifted by one (0 is none).
    for skin in [None, Some(0u8), Some(7), Some(255)] {
        match round_trip(WobjType::UpgradeTrigger {
            trigger_type: UpgradeTriggerType::MaxPowerRune { skin_power_override: skin },
        }) {
            WobjType::UpgradeTrigger {
                trigger_type: UpgradeTriggerType::MaxPowerRune { skin_power_override },
            } => assert_eq!(skin_power_override, skin),
            other => panic!("wrong wobj: {:?}", other),
        }
    }
}

#[test]
fn lenient_decoding_substitutes_defaults() {
    let version = VersionSpecs::from_version(1).unwrap();
    let cnms = LParse::new(1).unwrap();
    // An unknown type id fails strictly and decodes to a slime leniently.
    assert!(WobjType::decode_scalars(&cnms, &version, 9999, 0, 0, false).is_err());
    assert!(matches!(
        WobjType::decode_scalars(&cnms, &version, 9999, 0, 0, true).unwrap(),
        WobjType::Slime { flying: false }
    ));
    // A bad item id fails strictly and decodes to an apple leniently.
    assert!(WobjType::decode_scalars(&cnms, &version, 16, 999, 0, false).is_err());
    assert!(matches!(
        WobjType::decode_scalars(&cnms, &version, 16, 999, 0, true).unwrap(),
        WobjType::DroppedItem { item: ItemType::Apple }
    ));
    // An oversized lava dragon fails strictly only.
    assert!(WobjType::decode_scalars(&cnms, &version, 48, 33, 0, false).is_err());
    assert!(WobjType::decode_scalars(&cnms, &version, 48, 33, 0, true).is_ok());
}

#[test]
fn packed_words_round_trip() {
    for mode in [
        SpawnerMode::MultiAndSingleplayer,
        SpawnerMode::SingleplayerOnly,
        SpawnerMode::MultiplayerOnly,
        SpawnerMode::PlayerCountBased,
        SpawnerMode::NoSpawn,
    ] {
        assert_eq!(
            SpawnerMode::from_packed_dropped_item(mode.to_packed_dropped_item()),
            Some(mode)
        );
    }
    assert_eq!(SpawnerMode::from_packed_dropped_item(0x5000_0000), None);
    for id in 1..=39u32 {
        let item = ItemType::from_item_id(id).unwrap();
        assert_eq!(item.get_item_id(), id);
    }
    assert_eq!(ItemType::from_item_id(0), None);
    assert_eq!(ItemType::from_item_id(40), None);
    for id in 0..=9u8 {
        let d = DifficultyRating::from_difficulty_id(id).unwrap();
        assert_eq!(d.get_difficulty_id(), id);
    }
    assert_eq!(DifficultyRating::from_difficulty_id(10), None);
    assert_eq!(DifficultyRating::Ultra.to_string_pretty(), "Ultra!");
}
