//! End-to-end round trips of the level codecs.

use cnmo_parse::level_data::cnmb_types::{
    BackgroundFlags, BackgroundImage, BackgroundLayer, Cell, Cells, CollisionType, DamageType,
    TileId, TileProperties,
};
use cnmo_parse::level_data::cnms_types::{Spawner, SpawnerMode, SpawningCriteria};
use cnmo_parse::level_data::item_type::ItemType;
use cnmo_parse::level_data::wobj_type::{
    CustomizableMovingPlatformType, Teleport, TunesTriggerSize, WobjType,
};
use cnmo_parse::level_data::{Duration, LevelData, Point, VersionSpecs};
use cnmo_parse::lparse::LParse;
use cnmo_parse::Rect;

fn pt(x: f32, y: f32) -> Point {
    Point(x.to_bits(), y.to_bits())
}

fn spawner(w: WobjType) -> Spawner {
    Spawner {
        pos: pt(96.0, 128.0),
        type_data: w,
        spawning_criteria: SpawningCriteria {
            spawn_delay: Duration(60),
            mode: SpawnerMode::MultiAndSingleplayer,
            max_concurrent_spawns: 3,
        },
        dropped_item: None,
        spawner_group: None,
    }
}

#[test]
fn tile_id_bijection_samples() {
    let version = VersionSpecs::from_version(1).unwrap();
    assert_eq!(TileId::from_raw_id(0, &version), TileId(None));
    assert_eq!(TileId::from_raw_id(1, &version), TileId(Some(0)));
    // With the reserved preview slot at 256, raw id 300 is logical 298.
    assert_eq!(TileId::from_raw_id(300, &version), TileId(Some(298)));
    for id in [0u16, 1, 5, 255, 257, 300, 999] {
        let t = TileId(Some(id));
        assert_eq!(TileId::from_raw_id(t.get_raw_id(&version), &version), t);
    }
    assert_eq!(TileId(None).get_raw_id(&version), 0);
}

#[test]
fn cells_clamp_to_the_grid_edge() {
    let mut cells = Cells::new(4, 3);
    cells.get_cell_mut(0, 0).light = 9;
    cells.get_cell_mut(3, 2).light = 5;
    // Any coordinates, including negative and huge ones, reach a cell.
    assert_eq!(cells.get_cell(-1000, -1000).light, 9);
    assert_eq!(cells.get_cell(i32::MIN, 0).light, 9);
    assert_eq!(cells.get_cell(i32::MAX, i32::MAX).light, 5);
    assert_eq!(cells.get_cell(7, 2).light, 5);
    assert_eq!(cells.width(), 4);
    assert_eq!(cells.height(), 3);
}

#[test]
fn cells_resize_keeps_cells() {
    let mut cells = Cells::new(4, 3);
    cells.get_cell_mut(1, 1).light = 9;
    cells.resize(8, 6);
    assert_eq!(cells.width(), 8);
    assert_eq!(cells.height(), 6);
    assert_eq!(cells.get_cell(1, 1).light, 9);
}

#[test]
fn level_round_trip_through_files() {
    let mut level = LevelData::from_version(1).unwrap();
    level.metadata.title = "My Level".to_string();
    level.metadata.subtitle = Some("by nobody".to_string());
    level.metadata.preview_loc = (3, 4);
    level.tile_properties.push(TileProperties {
        solid: true,
        transparency: 2,
        damage_type: DamageType::Spikes(25),
        anim_speed: Duration(4),
        angle: 45,
        frames: vec![(5, 6), (7, 8)],
        collision_data: CollisionType::Box(Rect::new(0, 0, 32, 16)),
    });
    let mut heightmap = [0u8; 32];
    heightmap[0] = 31;
    heightmap[31] = 7;
    level.tile_properties.push(TileProperties {
        solid: false,
        transparency: 0,
        damage_type: DamageType::Ice(150),
        anim_speed: Duration(1),
        angle: 0,
        frames: vec![(1, 1)],
        collision_data: CollisionType::Heightmap(heightmap),
    });
    level.cells.get_cell_mut(0, 0).foreground = TileId(Some(0));
    level.cells.get_cell_mut(2, 1).background = TileId(Some(1));
    level.cells.get_cell_mut(2, 1).light = 6;
    level.background_layers[0] = BackgroundLayer {
        origin: pt(1.5, -2.0),
        scroll_speed: pt(0.5, 0.25),
        speed: pt(3.0, 0.0),
        spacing: (64, 32),
        image: BackgroundImage::Color(9),
        transparency: 4,
        repeat_up: true,
        repeat_down: false,
        repeat_horizontally: true,
        in_foreground: false,
        bottom3d: 10,
        top3d: 20,
        height3d: 30,
        flags: BackgroundFlags(1),
    };
    level.spawners.push(spawner(WobjType::Slime { flying: true }));
    level.spawners.push(spawner(WobjType::TunesTrigger {
        size: TunesTriggerSize::Big,
        music_id: 12,
    }));
    level.spawners.push(spawner(WobjType::Heavy {
        speed: 2.5f32.to_bits(),
        face_left: true,
    }));
    level.spawners.push(spawner(WobjType::Teleport(Teleport {
        name: "exit".to_string(),
        cost: 100,
        loc: pt(10.0, 20.0),
    })));
    // The same teleport again: the table must get one row, not two (P5).
    level.spawners.push(spawner(WobjType::Teleport(Teleport {
        name: "exit".to_string(),
        cost: 100,
        loc: pt(10.0, 20.0),
    })));
    level.spawners.push(spawner(WobjType::TextSpawner {
        dialoge_box: false,
        despawn: true,
        text: "hello\nworld\n".to_string(),
    }));
    level.spawners.push(spawner(WobjType::CustomizeableMoveablePlatform {
        bitmap_x32: 3,
        bitmap_y32: 7,
        vel_x_sixteenths: 32,
        vel_y_sixteenths: 0,
        frames: 32,
        start_paused: false,
        ty: CustomizableMovingPlatformType::Normal,
    }));
    level.spawners.push(spawner(WobjType::DroppedItem { item: ItemType::Sword }));
    level.spawners.push(spawner(WobjType::MovingFire {
        vertical: true,
        dist: 96,
        speed: 1.5f32.to_bits(),
        despawn: true,
    }));
    level.spawners.push(spawner(WobjType::TeleportArea2 {
        loc: pt(30.0, 40.0),
        start_activated: true,
        teleport_players: true,
        link_id: 6,
    }));

    let mut cnmb = LParse::new(1).unwrap();
    let mut cnms = LParse::new(1).unwrap();
    level.save(&mut cnmb, &mut cnms).unwrap();
    // Through the byte level and back.
    let cnmb2 = LParse::from_memory(&cnmb.save_to_bytes().unwrap()).unwrap();
    let cnms2 = LParse::from_memory(&cnms.save_to_bytes().unwrap()).unwrap();
    let back = LevelData::from_lparse(&cnmb2, &cnms2, false).unwrap();

    assert_eq!(back.metadata.title, "My Level");
    assert_eq!(back.metadata.subtitle.as_deref(), Some("by nobody"));
    assert_eq!(back.metadata.preview_loc, (3, 4));
    assert_eq!(back.tile_properties.len(), 2);
    let t0 = &back.tile_properties[0];
    assert!(t0.solid);
    assert_eq!(t0.transparency, 2);
    assert_eq!(t0.damage_type, DamageType::Spikes(25));
    assert_eq!(t0.anim_speed, Duration(4));
    assert_eq!(t0.angle, 45);
    assert_eq!(t0.frames, vec![(5, 6), (7, 8)]);
    assert_eq!(t0.collision_data, CollisionType::Box(Rect::new(0, 0, 32, 16)));
    assert_eq!(back.tile_properties[1].damage_type, DamageType::Ice(150));
    assert_eq!(back.tile_properties[1].collision_data, CollisionType::Heightmap(heightmap));
    assert_eq!(back.cells.width(), 512);
    assert_eq!(back.cells.height(), 256);
    assert_eq!(back.cells.get_cell(0, 0).foreground, TileId(Some(0)));
    assert_eq!(back.cells.get_cell(2, 1).background, TileId(Some(1)));
    assert_eq!(back.cells.get_cell(2, 1).light, 6);
    let bg = &back.background_layers[0];
    assert_eq!(bg.origin, pt(1.5, -2.0));
    assert_eq!(bg.scroll_speed, pt(0.5, 0.25));
    assert_eq!(bg.speed, pt(3.0, 0.0));
    assert_eq!(bg.spacing, (64, 32));
    assert_eq!(bg.image, BackgroundImage::Color(9));
    assert_eq!(bg.transparency, 4);
    assert!(bg.repeat_up && !bg.repeat_down && bg.repeat_horizontally);
    assert_eq!((bg.top3d, bg.bottom3d, bg.height3d), (20, 10, 30));
    assert_eq!(bg.flags, BackgroundFlags(1));

    assert_eq!(back.spawners.len(), 10);
    assert!(matches!(back.spawners[0].type_data, WobjType::Slime { flying: true }));
    assert!(matches!(
        back.spawners[1].type_data,
        WobjType::TunesTrigger { size: TunesTriggerSize::Big, music_id: 12 }
    ));
    match &back.spawners[2].type_data {
        WobjType::Heavy { speed, face_left } => {
            assert_eq!(*speed, 2.5f32.to_bits());
            assert!(*face_left);
        }
        other => panic!("wrong wobj: {:?}", other),
    }
    // P5: both teleports reference the same single row.
    match (&back.spawners[3].type_data, &back.spawners[4].type_data) {
        (WobjType::Teleport(a), WobjType::Teleport(b)) => {
            assert_eq!(a.name, "exit");
            assert_eq!(a.cost, 100);
            assert_eq!(a.loc, pt(10.0, 20.0));
            assert_eq!(b.name, a.name);
            assert_eq!(b.cost, a.cost);
            assert_eq!(b.loc, a.loc);
        }
        other => panic!("wrong wobjs: {:?}", other),
    }
    match &back.spawners[5].type_data {
        WobjType::TextSpawner { dialoge_box, despawn, text } => {
            assert!(!dialoge_box);
            assert!(despawn);
            assert_eq!(text, "hello\nworld\n");
        }
        other => panic!("wrong wobj: {:?}", other),
    }
    match &back.spawners[6].type_data {
        WobjType::CustomizeableMoveablePlatform {
            bitmap_x32,
            bitmap_y32,
            vel_x_sixteenths,
            vel_y_sixteenths,
            frames,
            start_paused,
            ty,
        } => {
            assert_eq!((*bitmap_x32, *bitmap_y32), (3, 7));
            assert_eq!((*vel_x_sixteenths, *vel_y_sixteenths), (32, 0));
            assert_eq!(*frames, 32);
            assert!(!start_paused);
            assert_eq!(*ty, CustomizableMovingPlatformType::Normal);
        }
        other => panic!("wrong wobj: {:?}", other),
    }
    assert!(matches!(
        back.spawners[7].type_data,
        WobjType::DroppedItem { item: ItemType::Sword }
    ));
    match &back.spawners[8].type_data {
        WobjType::MovingFire { vertical, dist, speed, despawn } => {
            assert!(*vertical && *despawn);
            assert_eq!(*dist, 96);
            assert_eq!(*speed, 1.5f32.to_bits());
        }
        other => panic!("wrong wobj: {:?}", other),
    }
    match &back.spawners[9].type_data {
        WobjType::TeleportArea2 { loc, start_activated, teleport_players, link_id } => {
            assert_eq!(*loc, pt(30.0, 40.0));
            assert!(*start_activated && *teleport_players);
            assert_eq!(*link_id, 6);
        }
        other => panic!("wrong wobj: {:?}", other),
    }
    assert_eq!(back.spawners[0].spawning_criteria.spawn_delay, Duration(60));
    assert_eq!(back.spawners[0].spawning_criteria.max_concurrent_spawns, 3);
}

#[test]
fn platform_scenario_matches_engine_maths() {
    // Encode a platform aimed 64 pixels right at speed 2: the engine packs
    // velocity 2.0 (32 sixteenths) and 32 ticks of travel; decoding must
    // give back the target within a pixel and the speed within rounding.
    let target = (64.0f32, 0.0f32);
    let speed = 2.0f32;
    let dist = (target.0 * target.0 + target.1 * target.1).sqrt();
    let frames = (dist / speed).ceil();
    let (vel_x, vel_y) = (target.0 / frames, target.1 / frames);
    let w = WobjType::CustomizeableMoveablePlatform {
        bitmap_x32: 1,
        bitmap_y32: 2,
        vel_x_sixteenths: (vel_x * 16.0).round() as i32,
        vel_y_sixteenths: (vel_y * 16.0).round() as i32,
        frames: frames as u32,
        start_paused: false,
        ty: CustomizableMovingPlatformType::Normal,
    };
    let version = VersionSpecs::from_version(1).unwrap();
    let mut teleports = Vec::new();
    let mut spawns = Vec::new();
    let mut checkpoints = Vec::new();
    let mut lines = Vec::new();
    let (id, ci, cf) = w.serialize(
        &mut teleports,
        &mut spawns,
        &mut checkpoints,
        &mut lines,
        Point(0, 0),
        &version,
    );
    assert_eq!(id, 107);
    let cnms = LParse::new(1).unwrap();
    let back = WobjType::decode_scalars(&cnms, &version, id, ci, cf, false).unwrap();
    match back {
        WobjType::CustomizeableMoveablePlatform {
            vel_x_sixteenths,
            vel_y_sixteenths,
            frames: back_frames,
            start_paused,
            ty,
            ..
        } => {
            let back_vx = vel_x_sixteenths as f32 / 16.0;
            let back_vy = vel_y_sixteenths as f32 / 16.0;
            let back_target = (back_vx * back_frames as f32, back_vy * back_frames as f32);
            assert!((back_target.0 - target.0).abs() <= 1.0);
            assert!((back_target.1 - target.1).abs() <= 1.0);
            let back_speed = (back_vx * back_vx + back_vy * back_vy).sqrt();
            assert!((back_speed - speed).abs() <= 1.0 / 16.0);
            assert!(!start_paused);
            assert_eq!(ty, CustomizableMovingPlatformType::Normal);
        }
        other => panic!("wrong wobj: {:?}", other),
    }
}

#[test]
fn platform_velocity_and_pause_combinations() {
    let version = VersionSpecs::from_version(1).unwrap();
    let cnms = LParse::new(1).unwrap();
    for (vx, vy, frames, paused, ty) in [
        (-32, 16, 10, false, CustomizableMovingPlatformType::OneWay),
        (7, -143, 100, true, CustomizableMovingPlatformType::Normal),
        (127, 127, 1, false, CustomizableMovingPlatformType::Despawn),
        (-16, 0, 5, true, CustomizableMovingPlatformType::OneWay),
    ] {
        let w = WobjType::CustomizeableMoveablePlatform {
            bitmap_x32: 15,
            bitmap_y32: 4095,
            vel_x_sixteenths: vx,
            vel_y_sixteenths: vy,
            frames,
            start_paused: paused,
            ty,
        };
        let (mut t, mut s, mut c, mut l) = (Vec::new(), Vec::new(), Vec::new(), Vec::new());
        let (id, ci, cf) =
            w.serialize(&mut t, &mut s, &mut c, &mut l, Point(0, 0), &version);
        let back = WobjType::decode_scalars(&cnms, &version, id, ci, cf, false).unwrap();
        match back {
            WobjType::CustomizeableMoveablePlatform {
                bitmap_x32,
                bitmap_y32,
                vel_x_sixteenths,
                vel_y_sixteenths,
                frames: f2,
                start_paused: p2,
                ty: ty2,
            } => {
                assert_eq!((bitmap_x32, bitmap_y32), (15, 4095));
                assert_eq!((vel_x_sixteenths, vel_y_sixteenths), (vx, vy));
                assert_eq!(f2, frames);
                assert_eq!(p2, paused);
                assert_eq!(ty2, ty);
            }
            other => panic!("wrong wobj: {:?}", other),
        }
    }
}
