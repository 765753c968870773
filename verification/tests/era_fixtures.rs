//! Reference fixtures, one per format era: each test builds the era's byte
//! stream for a known header and checks that decoding reproduces that
//! header exactly, field for field.

use factorio::saves::{
    get_save_header, AllowedCommands, Difficulty, FactorioVersion, Mod, SaveHeader,
};
use factorio::error::{DecodeError, Field};

fn put_u16(out: &mut Vec<u8>, v: u16) {
    out.extend_from_slice(&v.to_le_bytes());
}

fn put_u32(out: &mut Vec<u8>, v: u32) {
    out.extend_from_slice(&v.to_le_bytes());
}

fn put_opt_u16(out: &mut Vec<u8>, v: u16) {
    if v < 255 {
        out.push(v as u8);
    } else {
        out.push(255);
        put_u16(out, v);
    }
}

fn put_opt_u32(out: &mut Vec<u8>, v: u32) {
    if v < 255 {
        out.push(v as u8);
    } else {
        out.push(255);
        put_u32(out, v);
    }
}

fn put_len(out: &mut Vec<u8>, optimized: bool, n: u32) {
    if optimized {
        put_opt_u32(out, n);
    } else {
        put_u32(out, n);
    }
}

fn put_str(out: &mut Vec<u8>, optimized: bool, s: &str) {
    put_len(out, optimized, s.len() as u32);
    out.extend_from_slice(s.as_bytes());
}

fn put_triple(out: &mut Vec<u8>, optimized: bool, v: [u16; 3]) {
    for c in v {
        if optimized {
            put_opt_u16(out, c);
        } else {
            put_u16(out, c);
        }
    }
}

/// Encode `h` under the rules of the era that its declared version falls
/// in.  This is an independent restatement of the per-era rule table; a
/// disagreement with the decoder in either direction fails the fixture.
fn encode_header(h: &SaveHeader) -> Vec<u8> {
    let maj = h.factorio_version.major;
    let min = h.factorio_version.minor;
    let pat = h.factorio_version.patch;
    let at_least_17 = maj >= 1 || min >= 17;
    let at_least_16 = at_least_17 || min == 16;
    let at_least_15 = at_least_16 || min == 15;
    let at_least_1414 = at_least_15 || (min == 14 && pat >= 14);
    let string_opt = at_least_16;
    let quality = at_least_17;
    let debug = at_least_16;
    let crc = at_least_15;
    let mod_name_opt = at_least_1414;
    let triple_opt = at_least_1414;
    let build_opt = at_least_17;
    let large = maj >= 2;

    let mut out: Vec<u8> = Vec::new();
    put_u16(&mut out, maj);
    put_u16(&mut out, min);
    put_u16(&mut out, pat);
    put_u16(&mut out, h.factorio_version.build);
    if quality {
        out.push(h.quality_version.unwrap());
    }
    put_str(&mut out, string_opt, &h.campaign_name);
    put_str(&mut out, string_opt, &h.level_name);
    put_str(&mut out, string_opt, &h.base_mod_name);
    out.push(match h.difficulty {
        Difficulty::Easy => 0,
        Difficulty::Normal => 1,
        Difficulty::Hard => 2,
        Difficulty::Nothing => 3,
    });
    out.push(h.finished as u8);
    out.push(h.player_won as u8);
    put_str(&mut out, string_opt, &h.next_level);
    out.push(h.can_continue as u8);
    out.push(h.finished_but_continuing as u8);
    out.push(h.saving_replay as u8);
    if debug {
        out.push(h.allow_non_admin_debug_options.unwrap() as u8);
    }
    put_triple(&mut out, triple_opt, h.loaded_from);
    if build_opt {
        put_opt_u32(&mut out, h.loaded_from_build);
    } else {
        put_u16(&mut out, h.loaded_from_build as u16);
    }
    out.push(match h.allowed_commands {
        AllowedCommands::True => 1,
        AllowedCommands::False => 2,
        AllowedCommands::AdminsOnly => 3,
    });
    if large {
        put_u32(&mut out, h.large_blueprint_size.unwrap());
    }
    put_len(&mut out, string_opt, h.mods.len() as u32);
    for m in &h.mods {
        put_str(&mut out, mod_name_opt, &m.name);
        put_triple(&mut out, triple_opt, m.version);
        if crc {
            put_u32(&mut out, m.crc.unwrap());
        }
    }
    out
}

fn check_fixture(header: SaveHeader) -> Vec<u8> {
    let bytes = encode_header(&header);
    let decoded = get_save_header(&bytes).unwrap();
    assert_eq!(decoded, header);
    bytes
}

#[test]
fn test_0_13() {
    check_fixture(SaveHeader {
        factorio_version: FactorioVersion { major: 0, minor: 13, patch: 20, build: 0 },
        quality_version: None,
        campaign_name: "transport-belt-madness".to_string(),
        level_name: "level-01".to_string(),
        base_mod_name: "base".to_string(),
        difficulty: Difficulty::Normal,
        finished: false,
        player_won: false,
        next_level: "".to_string(),
        can_continue: false,
        finished_but_continuing: false,
        saving_replay: true,
        allow_non_admin_debug_options: None,
        loaded_from: [0, 13, 20],
        loaded_from_build: 24011,
        allowed_commands: AllowedCommands::True,
        large_blueprint_size: None,
        mods: vec![
            Mod { name: "Extra-Virtual-Signals".to_string(), version: [1, 1, 0], crc: None },
            Mod { name: "base".to_string(), version: [0, 13, 20], crc: None },
        ],
    });
}

#[test]
fn test_0_14() {
    check_fixture(SaveHeader {
        factorio_version: FactorioVersion { major: 0, minor: 14, patch: 23, build: 0 },
        quality_version: None,
        campaign_name: "transport-belt-madness".to_string(),
        level_name: "level-01".to_string(),
        base_mod_name: "base".to_string(),
        difficulty: Difficulty::Normal,
        finished: false,
        player_won: false,
        next_level: "".to_string(),
        can_continue: false,
        finished_but_continuing: false,
        saving_replay: true,
        allow_non_admin_debug_options: None,
        loaded_from: [0, 14, 23],
        loaded_from_build: 25374,
        allowed_commands: AllowedCommands::True,
        large_blueprint_size: None,
        mods: vec![
            Mod { name: "Warehousing".to_string(), version: [0, 0, 11], crc: None },
            Mod { name: "base".to_string(), version: [0, 14, 23], crc: None },
        ],
    });
}

#[test]
fn test_0_15() {
    check_fixture(SaveHeader {
        factorio_version: FactorioVersion { major: 0, minor: 15, patch: 40, build: 0 },
        quality_version: None,
        campaign_name: "transport-belt-madness".to_string(),
        level_name: "level-01".to_string(),
        base_mod_name: "base".to_string(),
        difficulty: Difficulty::Easy,
        finished: false,
        player_won: false,
        next_level: "".to_string(),
        can_continue: false,
        finished_but_continuing: false,
        saving_replay: true,
        allow_non_admin_debug_options: None,
        loaded_from: [0, 15, 40],
        loaded_from_build: 30950,
        allowed_commands: AllowedCommands::True,
        large_blueprint_size: None,
        mods: vec![
            Mod { name: "Warehousing".to_string(), version: [0, 0, 13], crc: Some(606039864) },
            Mod { name: "base".to_string(), version: [0, 15, 40], crc: Some(1503927233) },
        ],
    });
}

#[test]
fn test_0_16() {
    check_fixture(SaveHeader {
        factorio_version: FactorioVersion { major: 0, minor: 16, patch: 51, build: 0 },
        quality_version: None,
        campaign_name: "transport-belt-madness".to_string(),
        level_name: "level-01".to_string(),
        base_mod_name: "base".to_string(),
        difficulty: Difficulty::Easy,
        finished: false,
        player_won: false,
        next_level: "".to_string(),
        can_continue: false,
        finished_but_continuing: false,
        saving_replay: true,
        allow_non_admin_debug_options: Some(true),
        loaded_from: [0, 16, 51],
        loaded_from_build: 36654,
        allowed_commands: AllowedCommands::True,
        large_blueprint_size: None,
        mods: vec![
            Mod { name: "Warehousing".to_string(), version: [0, 1, 3], crc: Some(4151823552) },
            Mod { name: "base".to_string(), version: [0, 16, 51], crc: Some(3323233190) },
        ],
    });
}

#[test]
fn test_0_17() {
    check_fixture(SaveHeader {
        factorio_version: FactorioVersion { major: 0, minor: 17, patch: 1, build: 1 },
        quality_version: Some(0),
        campaign_name: "transport-belt-madness".to_string(),
        level_name: "level-01".to_string(),
        base_mod_name: "base".to_string(),
        difficulty: Difficulty::Easy,
        finished: false,
        player_won: false,
        next_level: "".to_string(),
        can_continue: false,
        finished_but_continuing: false,
        saving_replay: true,
        allow_non_admin_debug_options: Some(true),
        loaded_from: [0, 17, 1],
        loaded_from_build: 43001,
        allowed_commands: AllowedCommands::True,
        large_blueprint_size: None,
        mods: vec![
            Mod { name: "Warehousing".to_string(), version: [0, 2, 0], crc: Some(2309169136) },
            Mod { name: "base".to_string(), version: [0, 17, 1], crc: Some(819815259) },
        ],
    });
}

#[test]
fn test_0_18() {
    check_fixture(SaveHeader {
        factorio_version: FactorioVersion { major: 0, minor: 18, patch: 2, build: 2 },
        quality_version: Some(0),
        campaign_name: "transport-belt-madness".to_string(),
        level_name: "level-01".to_string(),
        base_mod_name: "base".to_string(),
        difficulty: Difficulty::Normal,
        finished: false,
        player_won: false,
        next_level: "".to_string(),
        can_continue: false,
        finished_but_continuing: false,
        saving_replay: false,
        allow_non_admin_debug_options: Some(true),
        loaded_from: [0, 18, 2],
        loaded_from_build: 49204,
        allowed_commands: AllowedCommands::True,
        large_blueprint_size: None,
        mods: vec![
            Mod { name: "base".to_string(), version: [0, 18, 2], crc: Some(3303078020) },
            Mod { name: "belt-balancer".to_string(), version: [2, 0, 0], crc: Some(3388930795) },
            Mod {
                name: "train-station-overview".to_string(),
                version: [2, 0, 1],
                crc: Some(442638023),
            },
        ],
    });
}

#[test]
fn test_1_1() {
    check_fixture(SaveHeader {
        factorio_version: FactorioVersion { major: 1, minor: 1, patch: 6, build: 4 },
        quality_version: Some(0),
        campaign_name: "transport-belt-madness".to_string(),
        level_name: "level-01".to_string(),
        base_mod_name: "base".to_string(),
        difficulty: Difficulty::Normal,
        finished: false,
        player_won: false,
        next_level: "".to_string(),
        can_continue: false,
        finished_but_continuing: false,
        saving_replay: false,
        allow_non_admin_debug_options: Some(true),
        loaded_from: [1, 1, 6],
        loaded_from_build: 57355,
        allowed_commands: AllowedCommands::True,
        large_blueprint_size: None,
        mods: vec![
            Mod { name: "base".to_string(), version: [1, 1, 6], crc: Some(2570609689) },
            Mod { name: "belt-balancer".to_string(), version: [3, 0, 0], crc: Some(1386746210) },
            Mod {
                name: "train-station-overview".to_string(),
                version: [3, 0, 0],
                crc: Some(442638023),
            },
        ],
    });
}

#[test]
fn test_1_1_14() {
    check_fixture(SaveHeader {
        factorio_version: FactorioVersion { major: 1, minor: 1, patch: 19, build: 0 },
        quality_version: Some(0),
        campaign_name: "transport-belt-madness".to_string(),
        level_name: "level-01".to_string(),
        base_mod_name: "base".to_string(),
        difficulty: Difficulty::Normal,
        finished: false,
        player_won: false,
        next_level: "".to_string(),
        can_continue: false,
        finished_but_continuing: false,
        saving_replay: false,
        allow_non_admin_debug_options: Some(true),
        loaded_from: [1, 1, 19],
        loaded_from_build: 57957,
        allowed_commands: AllowedCommands::True,
        large_blueprint_size: None,
        mods: vec![
            Mod { name: "base".to_string(), version: [1, 1, 19], crc: Some(1503457007) },
            Mod { name: "belt-balancer".to_string(), version: [3, 0, 0], crc: Some(1386746210) },
            Mod {
                name: "train-station-overview".to_string(),
                version: [3, 0, 0],
                crc: Some(442638023),
            },
        ],
    });
}

#[test]
fn test_2_0_13() {
    check_fixture(SaveHeader {
        factorio_version: FactorioVersion { major: 2, minor: 0, patch: 13, build: 1 },
        quality_version: Some(0),
        campaign_name: "transport-belt-madness".to_string(),
        level_name: "level-01".to_string(),
        base_mod_name: "base".to_string(),
        difficulty: Difficulty::Normal,
        finished: false,
        player_won: false,
        next_level: "".to_string(),
        can_continue: false,
        finished_but_continuing: false,
        saving_replay: false,
        allow_non_admin_debug_options: Some(true),
        loaded_from: [2, 0, 13],
        loaded_from_build: 79912,
        allowed_commands: AllowedCommands::True,
        large_blueprint_size: Some(10485760),
        mods: vec![
            Mod { name: "base".to_string(), version: [2, 0, 13], crc: Some(2691306720) },
            Mod { name: "AutoDeconstruct".to_string(), version: [1, 0, 2], crc: Some(3603960023) },
            Mod { name: "flib".to_string(), version: [0, 15, 0], crc: Some(2235140407) },
            Mod { name: "RateCalculator".to_string(), version: [3, 3, 2], crc: Some(2191928673) },
        ],
    });
}

#[test]
fn test_2_0_13_ext() {
    check_fixture(SaveHeader {
        factorio_version: FactorioVersion { major: 2, minor: 0, patch: 13, build: 1 },
        quality_version: Some(0),
        campaign_name: "transport-belt-madness".to_string(),
        level_name: "level-01".to_string(),
        base_mod_name: "base".to_string(),
        difficulty: Difficulty::Normal,
        finished: false,
        player_won: false,
        next_level: "".to_string(),
        can_continue: false,
        finished_but_continuing: false,
        saving_replay: false,
        allow_non_admin_debug_options: Some(true),
        loaded_from: [2, 0, 13],
        loaded_from_build: 79912,
        allowed_commands: AllowedCommands::True,
        large_blueprint_size: Some(10485760),
        mods: vec![
            Mod { name: "base".to_string(), version: [2, 0, 13], crc: Some(2691306720) },
            Mod { name: "AutoDeconstruct".to_string(), version: [1, 0, 2], crc: Some(3603960023) },
            Mod { name: "elevated-rails".to_string(), version: [2, 0, 13], crc: Some(2288905443) },
            Mod { name: "flib".to_string(), version: [0, 15, 0], crc: Some(2235140407) },
            Mod { name: "quality".to_string(), version: [2, 0, 13], crc: Some(4264147466) },
            Mod { name: "RateCalculator".to_string(), version: [3, 3, 2], crc: Some(2191928673) },
            Mod { name: "space-age".to_string(), version: [2, 0, 13], crc: Some(542481865) },
        ],
    });
}

#[test]
fn truncated_fixture_always_ends_with_end_of_input() {
    let fixtures: Vec<SaveHeader> = vec![
        SaveHeader {
            factorio_version: FactorioVersion { major: 0, minor: 13, patch: 20, build: 0 },
            quality_version: None,
            campaign_name: "transport-belt-madness".to_string(),
            level_name: "level-01".to_string(),
            base_mod_name: "base".to_string(),
            difficulty: Difficulty::Normal,
            finished: false,
            player_won: false,
            next_level: "".to_string(),
            can_continue: false,
            finished_but_continuing: false,
            saving_replay: true,
            allow_non_admin_debug_options: None,
            loaded_from: [0, 13, 20],
            loaded_from_build: 24011,
            allowed_commands: AllowedCommands::True,
            large_blueprint_size: None,
            mods: vec![
                Mod { name: "Extra-Virtual-Signals".to_string(), version: [1, 1, 0], crc: None },
                Mod { name: "base".to_string(), version: [0, 13, 20], crc: None },
            ],
        },
        SaveHeader {
            factorio_version: FactorioVersion { major: 0, minor: 16, patch: 51, build: 0 },
            quality_version: None,
            campaign_name: "transport-belt-madness".to_string(),
            level_name: "level-01".to_string(),
            base_mod_name: "base".to_string(),
            difficulty: Difficulty::Easy,
            finished: false,
            player_won: false,
            next_level: "".to_string(),
            can_continue: false,
            finished_but_continuing: false,
            saving_replay: true,
            allow_non_admin_debug_options: Some(true),
            loaded_from: [0, 16, 51],
            loaded_from_build: 36654,
            allowed_commands: AllowedCommands::True,
            large_blueprint_size: None,
            mods: vec![
                Mod { name: "Warehousing".to_string(), version: [0, 1, 3], crc: Some(4151823552) },
                Mod { name: "base".to_string(), version: [0, 16, 51], crc: Some(3323233190) },
            ],
        },
        SaveHeader {
            factorio_version: FactorioVersion { major: 2, minor: 0, patch: 13, build: 1 },
            quality_version: Some(0),
            campaign_name: "transport-belt-madness".to_string(),
            level_name: "level-01".to_string(),
            base_mod_name: "base".to_string(),
            difficulty: Difficulty::Normal,
            finished: false,
            player_won: false,
            next_level: "".to_string(),
            can_continue: false,
            finished_but_continuing: false,
            saving_replay: false,
            allow_non_admin_debug_options: Some(true),
            loaded_from: [2, 0, 13],
            loaded_from_build: 79912,
            allowed_commands: AllowedCommands::True,
            large_blueprint_size: Some(10485760),
            mods: vec![
                Mod { name: "base".to_string(), version: [2, 0, 13], crc: Some(2691306720) },
                Mod { name: "flib".to_string(), version: [0, 15, 0], crc: Some(2235140407) },
            ],
        },
    ];
    for header in fixtures {
        let bytes = check_fixture(header);
        for cut in 0..bytes.len() {
            let prefix = &bytes[..cut];
            match get_save_header(prefix) {
                Err(DecodeError::EndOfInput(_)) => {},
                other => panic!("prefix of length {} gave {:?}", cut, other),
            }
        }
    }
}

#[test]
fn mods_keep_on_disk_order() {
    let header = SaveHeader {
        factorio_version: FactorioVersion { major: 0, minor: 13, patch: 20, build: 0 },
        quality_version: None,
        campaign_name: "c".to_string(),
        level_name: "l".to_string(),
        base_mod_name: "base".to_string(),
        difficulty: Difficulty::Normal,
        finished: false,
        player_won: false,
        next_level: "".to_string(),
        can_continue: false,
        finished_but_continuing: false,
        saving_replay: false,
        allow_non_admin_debug_options: None,
        loaded_from: [0, 13, 20],
        loaded_from_build: 1,
        allowed_commands: AllowedCommands::True,
        large_blueprint_size: None,
        mods: vec![
            Mod { name: "zebra".to_string(), version: [9, 9, 9], crc: None },
            Mod { name: "apple".to_string(), version: [1, 0, 0], crc: None },
            Mod { name: "apple".to_string(), version: [1, 0, 0], crc: None },
            Mod { name: "middle".to_string(), version: [5, 5, 5], crc: None },
        ],
    };
    let bytes = encode_header(&header);
    let decoded = get_save_header(&bytes).unwrap();
    let names: Vec<&str> = decoded.mods.iter().map(|m| m.name.as_str()).collect();
    assert_eq!(names, vec!["zebra", "apple", "apple", "middle"]);
}

#[test]
fn raw_bytes_0_13_header() {
    let bytes: Vec<u8> = vec![
        0, 0, 13, 0, 20, 0, 0, 0, // version 0.13.20.0, four fixed 16-bit values
        2, 0, 0, 0, b'a', b'b', // campaign "ab", fixed 32-bit length
        1, 0, 0, 0, b'l', // level "l"
        4, 0, 0, 0, b'b', b'a', b's', b'e', // base mod "base"
        1, // difficulty: normal
        0, 0, // finished, player_won
        0, 0, 0, 0, // next level ""
        0, 0, 1, // can_continue, finished_but_continuing, saving_replay
        0, 0, 13, 0, 20, 0, // loaded_from 0.13.20, fixed 16-bit each
        0xCB, 0x5D, // loaded_from_build 24011, fixed 16-bit
        1, // allowed_commands: enabled
        1, 0, 0, 0, // one mod, fixed 32-bit count
        1, 0, 0, 0, b'm', // mod name "m", fixed 32-bit length
        1, 0, 2, 0, 3, 0, // mod version 1.2.3, fixed 16-bit each
    ];
    let h = get_save_header(&bytes).unwrap();
    assert_eq!(h.factorio_version, FactorioVersion { major: 0, minor: 13, patch: 20, build: 0 });
    assert_eq!(h.quality_version, None);
    assert_eq!(h.campaign_name, "ab");
    assert_eq!(h.level_name, "l");
    assert_eq!(h.base_mod_name, "base");
    assert_eq!(h.difficulty, Difficulty::Normal);
    assert!(!h.finished);
    assert!(!h.player_won);
    assert_eq!(h.next_level, "");
    assert!(!h.can_continue);
    assert!(!h.finished_but_continuing);
    assert!(h.saving_replay);
    assert_eq!(h.allow_non_admin_debug_options, None);
    assert_eq!(h.loaded_from, [0, 13, 20]);
    assert_eq!(h.loaded_from_build, 24011);
    assert_eq!(h.allowed_commands, AllowedCommands::True);
    assert_eq!(h.large_blueprint_size, None);
    assert_eq!(h.mods.len(), 1);
    assert_eq!(h.mods[0], Mod { name: "m".to_string(), version: [1, 2, 3], crc: None });
}

#[test]
fn non_ascii_mod_name_decodes_to_characters() {
    let header = SaveHeader {
        factorio_version: FactorioVersion { major: 1, minor: 1, patch: 0, build: 0 },
        quality_version: Some(0),
        campaign_name: "caf\u{e9}".to_string(),
        level_name: "l".to_string(),
        base_mod_name: "base".to_string(),
        difficulty: Difficulty::Normal,
        finished: false,
        player_won: false,
        next_level: "".to_string(),
        can_continue: false,
        finished_but_continuing: false,
        saving_replay: false,
        allow_non_admin_debug_options: Some(false),
        loaded_from: [1, 1, 0],
        loaded_from_build: 300,
        allowed_commands: AllowedCommands::AdminsOnly,
        large_blueprint_size: None,
        mods: vec![Mod { name: "\u{fc}ber".to_string(), version: [1, 0, 0], crc: Some(7) }],
    };
    let bytes = encode_header(&header);
    // the multi-byte characters occupy two bytes each on the wire
    assert_eq!(header.campaign_name.len(), 5);
    assert_eq!(header.campaign_name.chars().count(), 4);
    let decoded = get_save_header(&bytes).unwrap();
    assert_eq!(decoded.campaign_name, "caf\u{e9}");
    assert_eq!(decoded.mods[0].name, "\u{fc}ber");
    assert_eq!(decoded.mods[0].name.chars().count(), 4);
}

#[test]
fn invalid_utf8_in_string_is_a_decode_error() {
    let mut bytes: Vec<u8> = vec![0, 0, 13, 0, 20, 0, 0, 0];
    bytes.extend_from_slice(&[1, 0, 0, 0, 0xFF]); // campaign: one byte, not UTF-8
    assert_eq!(
        get_save_header(&bytes),
        Err(DecodeError::InvalidUtf8(Field::CampaignName))
    );
}

#[test]
fn sentinel_escapes_inside_a_full_header() {
    // an era with optimized lengths, holding values that need the 255
    // escape: a 300-byte string, a 260-byte mod name, a mod version
    // component of 1000, and more than 254 mods
    let mut mods: Vec<Mod> = vec![Mod {
        name: "m".repeat(260),
        version: [1000, 0, 3],
        crc: Some(1),
    }];
    for i in 0..299u32 {
        mods.push(Mod {
            name: format!("mod-{i}"),
            version: [0, 1, (i % 100) as u16],
            crc: Some(i),
        });
    }
    let header = SaveHeader {
        factorio_version: FactorioVersion { major: 0, minor: 16, patch: 51, build: 0 },
        quality_version: None,
        campaign_name: "x".repeat(300),
        level_name: "l".to_string(),
        base_mod_name: "base".to_string(),
        difficulty: Difficulty::Hard,
        finished: true,
        player_won: true,
        next_level: "next".to_string(),
        can_continue: true,
        finished_but_continuing: true,
        saving_replay: false,
        allow_non_admin_debug_options: Some(false),
        loaded_from: [0, 16, 51],
        loaded_from_build: 36654,
        allowed_commands: AllowedCommands::False,
        large_blueprint_size: None,
        mods,
    };
    let bytes = encode_header(&header);
    let decoded = get_save_header(&bytes).unwrap();
    assert_eq!(decoded, header);
    assert_eq!(decoded.mods.len(), 300);
}

#[test]
fn plain_0_14_era_keeps_fixed_encodings() {
    // patch 13 stays below the inclusive 14 boundary: mod names and
    // version triples still use the fixed encodings
    let header = SaveHeader {
        factorio_version: FactorioVersion { major: 0, minor: 14, patch: 13, build: 0 },
        quality_version: None,
        campaign_name: "c".to_string(),
        level_name: "l".to_string(),
        base_mod_name: "base".to_string(),
        difficulty: Difficulty::Easy,
        finished: false,
        player_won: false,
        next_level: "".to_string(),
        can_continue: false,
        finished_but_continuing: false,
        saving_replay: false,
        allow_non_admin_debug_options: None,
        loaded_from: [0, 14, 13],
        loaded_from_build: 777,
        allowed_commands: AllowedCommands::AdminsOnly,
        large_blueprint_size: None,
        mods: vec![Mod { name: "big".to_string(), version: [1000, 2, 3], crc: None }],
    };
    let bytes = check_fixture(header);
    // the mod's name carries a fixed 32-bit length prefix, and its version
    // components are fixed 16-bit values even above 254
    let tail = &bytes[bytes.len() - 13..];
    assert_eq!(tail, [3, 0, 0, 0, b'b', b'i', b'g', 0xE8, 0x03, 2, 0, 3, 0]);
}
