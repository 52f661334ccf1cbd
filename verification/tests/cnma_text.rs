//! Tests of the text configuration codec.

use cnmo_parse::cnma::{Cnma, Error, MaxPowerAbility, Mode, PetAI, ResourceId};

#[test]
fn level_select_order_round_trips_despite_reversal() {
    // The file lists entries in reverse of the in-memory order; saving and
    // re-parsing must give the original order back.
    let text = "MODE LEVELSELECT_ORDER\nfirstlevel 10\nsecondlevel 20\n";
    let cnma = Cnma::from_string(text).unwrap();
    assert_eq!(cnma.modes.len(), 1);
    let entries = match &cnma.modes[0] {
        Mode::LevelSelectOrder(v) => v.clone(),
        other => panic!("wrong mode: {:?}", other),
    };
    assert_eq!(
        entries,
        vec![("secondlevel".to_string(), 20), ("firstlevel".to_string(), 10)]
    );
    let saved = cnma.save_string();
    // The saved file lists them in the file's (reverse) order again.
    assert_eq!(saved, "MODE LEVELSELECT_ORDER\nfirstlevel 10\nsecondlevel 20\n");
    let back = Cnma::from_string(&saved).unwrap();
    assert_eq!(back.modes, cnma.modes);
}

#[test]
fn lua_autorun_collects_lines_verbatim() {
    let text = "MODE LUA_AUTORUN\nlocal a = 1\nlocal b = 2\nreturn a + b\n__ENDLUA__\n";
    let cnma = Cnma::from_string(text).unwrap();
    assert_eq!(cnma.modes.len(), 1);
    match &cnma.modes[0] {
        Mode::LuaAutorunCode(code) => {
            assert_eq!(code, "local a = 1\nlocal b = 2\nreturn a + b\n");
        }
        other => panic!("wrong mode: {:?}", other),
    }
    // A MODE line inside the locked section is plain code, not a switch.
    let tricky = "MODE LUA_AUTORUN\nMODE MUSIC\n__ENDLUA__\n";
    let cnma = Cnma::from_string(tricky).unwrap();
    match &cnma.modes[0] {
        Mode::LuaAutorunCode(code) => assert_eq!(code, "MODE MUSIC\n"),
        other => panic!("wrong mode: {:?}", other),
    }
    let saved = Cnma::from_string(text).unwrap().save_string();
    assert_eq!(saved, text);
}

#[test]
fn music_and_sound_ids_parse() {
    let text = "MODE MUSIC\n1 songs/intro.ogg\n2 songs/boss.ogg\nMODE SOUNDS\n7 sfx/jump.wav\n";
    let cnma = Cnma::from_string(text).unwrap();
    assert_eq!(cnma.modes.len(), 2);
    assert_eq!(
        cnma.modes[0],
        Mode::MusicIds(vec![
            ResourceId { id: 1, path: "songs/intro.ogg".to_string() },
            ResourceId { id: 2, path: "songs/boss.ogg".to_string() },
        ])
    );
    assert_eq!(
        cnma.modes[1],
        Mode::SoundIds(vec![ResourceId { id: 7, path: "sfx/jump.wav".to_string() }])
    );
    let back = Cnma::from_string(&cnma.save_string()).unwrap();
    assert_eq!(back.modes, cnma.modes);
}

#[test]
fn maxpower_and_petdefs_round_trip() {
    let text = "MODE MAXPOWER3\nspd 1.5\njmp 2\ngrav 0.5\nhpcost 10\nstrength 3\nability 2\nMODE PETDEFS\n\"SLIMY\" 1 2 3 4 -1 f 6\n\"DOGGO\" 5 6 7 8 9 w 1 2 3\n\"BOUNCER\" 0 0 1 1 0 b 2 3 1 4.5\nENDPETS\n";
    let cnma = Cnma::from_string(text).unwrap();
    assert_eq!(cnma.modes.len(), 2);
    match &cnma.modes[0] {
        Mode::MaxPowerDef(def) => {
            assert_eq!(def.id, 3);
            assert_eq!(def.speed, "1.5");
            assert_eq!(def.jump, "2");
            assert_eq!(def.gravity, "0.5");
            assert_eq!(def.hpcost, "10");
            assert_eq!(def.strength, "3");
            assert_eq!(def.ability, Some(MaxPowerAbility::Flying));
        }
        other => panic!("wrong mode: {:?}", other),
    }
    match &cnma.modes[1] {
        Mode::PetDefs(pets) => {
            assert_eq!(pets.len(), 3);
            assert_eq!(pets[0].name, "SLIMY");
            assert_eq!(pets[0].animbase, (1, 2));
            assert_eq!(pets[0].iconbase, (3, 4));
            assert_eq!(pets[0].idle_snd, -1);
            assert_eq!(pets[0].ai, PetAI::Fly { num_fly_frames: 6 });
            assert_eq!(
                pets[1].ai,
                PetAI::Walk { num_idle_frames: 1, num_walk_frames: 2, num_fall_frames: 3 }
            );
            assert_eq!(
                pets[2].ai,
                PetAI::Bounce {
                    num_idle_frames: 2,
                    num_bounce_frames: 3,
                    jump_height: "4.5".to_string(),
                    bounce_idly: true,
                }
            );
        }
        other => panic!("wrong mode: {:?}", other),
    }
    let back = Cnma::from_string(&cnma.save_string()).unwrap();
    assert_eq!(back.modes, cnma.modes);
}

#[test]
fn cnma_error_cases() {
    assert!(matches!(Cnma::from_string("1 foo.ogg\n"), Err(Error::NoMode)));
    assert!(matches!(
        Cnma::from_string("MODE NONSENSE\n"),
        Err(Error::Corrupted(_))
    ));
    assert!(matches!(
        Cnma::from_string("MODE MUSIC\nnotanumber path\n"),
        Err(Error::CorruptedEntry(2))
    ));
    assert!(matches!(
        Cnma::from_string("__ENDLUA__\n"),
        Err(Error::NoMode)
    ));
    assert!(matches!(
        Cnma::from_string("MODE MAXPOWER1\nwhatever 3\n"),
        Err(Error::CorruptedEntry(2))
    ));
}

#[test]
fn resource_id_parses_a_line() {
    let rid = ResourceId::from_line(4, "12 music/level.ogg extra").unwrap();
    assert_eq!(rid.id, 12);
    assert_eq!(rid.path, "music/level.ogg");
    assert!(matches!(
        ResourceId::from_line(4, "nope"),
        Err(Error::CorruptedEntry(5))
    ));
}
