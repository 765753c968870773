//! Property checks on concrete values: the optimized-integer encoding, the
//! era classification table and its boundaries, the resolved per-era rule
//! table, and each error variant.

use factorio::error::{DecodeError, Field};
use factorio::reader::{read_optimized, read_u16, NumWidth};
use factorio::saves::{get_save_header, AllowedCommands, Difficulty, FactorioVersion};
use factorio::versions::{rules_for, RuntimeVersion};

#[test]
fn optimized_single_byte_values_round_trip() {
    // every value below the sentinel is exactly its own single byte
    for v in 0u64..255 {
        let data: Vec<u8> = vec![v as u8];
        assert_eq!(read_optimized(NumWidth::W32, &data, 0, Field::ModCount), Ok((v, 1)));
        assert_eq!(read_optimized(NumWidth::W16, &data, 0, Field::ModCount), Ok((v, 1)));
        assert_eq!(read_optimized(NumWidth::W64, &data, 0, Field::ModCount), Ok((v, 1)));
    }
}

#[test]
fn optimized_sentinel_escapes_to_fixed_width() {
    for v in [255u32, 256, 65535, 65536, 79912, 10485760, u32::MAX] {
        let mut data: Vec<u8> = vec![255];
        data.extend_from_slice(&v.to_le_bytes());
        assert_eq!(
            read_optimized(NumWidth::W32, &data, 0, Field::LoadedFromBuild),
            Ok((v as u64, 5))
        );
    }
    let mut data: Vec<u8> = vec![255];
    data.extend_from_slice(&300u16.to_le_bytes());
    assert_eq!(read_optimized(NumWidth::W16, &data, 0, Field::ModVersion), Ok((300, 3)));
}

#[test]
fn optimized_sentinel_with_short_tail_is_end_of_input() {
    let data: Vec<u8> = vec![255, 1, 0];
    assert_eq!(
        read_optimized(NumWidth::W32, &data, 0, Field::ModCount),
        Err(DecodeError::EndOfInput(Field::ModCount))
    );
    assert_eq!(
        read_optimized(NumWidth::W32, &data, 3, Field::ModCount),
        Err(DecodeError::EndOfInput(Field::ModCount))
    );
}

#[test]
fn fixed_u16_is_little_endian() {
    let data: Vec<u8> = vec![0xCB, 0x5D];
    assert_eq!(read_u16(&data, 0, Field::Version), Ok((24011, 2)));
}

#[test]
fn classification_table() {
    let cases: Vec<([u16; 3], RuntimeVersion)> = vec![
        ([0, 13, 0], RuntimeVersion::V013),
        ([0, 13, 99], RuntimeVersion::V013),
        ([0, 14, 0], RuntimeVersion::V014),
        ([0, 14, 13], RuntimeVersion::V014),
        ([0, 14, 14], RuntimeVersion::V01414),
        ([0, 14, 23], RuntimeVersion::V01414),
        ([0, 15, 40], RuntimeVersion::V015),
        ([0, 16, 51], RuntimeVersion::V016),
        ([0, 17, 1], RuntimeVersion::V017),
        ([0, 18, 2], RuntimeVersion::V017),
        ([1, 0, 0], RuntimeVersion::V017),
        ([1, 1, 19], RuntimeVersion::V017),
        ([2, 0, 13], RuntimeVersion::V017),
        ([9, 0, 0], RuntimeVersion::V017),
        ([65535, 65535, 65535], RuntimeVersion::V017),
    ];
    for (triple, era) in cases {
        assert_eq!(RuntimeVersion::parse_version(&triple), Ok(era));
    }
    for triple in [[0u16, 0, 0], [0, 12, 35], [0, 19, 0], [0, 255, 0]] {
        assert_eq!(
            RuntimeVersion::parse_version(&triple),
            Err(DecodeError::UnsupportedVersion)
        );
    }
}

#[test]
fn classification_is_pure() {
    for _ in 0..3 {
        assert_eq!(
            RuntimeVersion::parse_version(&[0, 14, 14]),
            RuntimeVersion::parse_version(&[0, 14, 14])
        );
        assert_eq!(
            RuntimeVersion::parse_version(&[0, 19, 0]),
            RuntimeVersion::parse_version(&[0, 19, 0])
        );
    }
}

#[test]
fn boundary_0_14_14_is_inclusive() {
    // patch 14 turns the optimized number encodings on; patch 13 keeps the
    // fixed-width ones
    assert_eq!(RuntimeVersion::parse_version(&[0, 14, 14]), Ok(RuntimeVersion::V01414));
    assert_eq!(RuntimeVersion::parse_version(&[0, 14, 13]), Ok(RuntimeVersion::V014));
    let with = rules_for(RuntimeVersion::V01414);
    let without = rules_for(RuntimeVersion::V014);
    assert!(with.triple_optimized && with.mod_name_optimized);
    assert!(!without.triple_optimized && !without.mod_name_optimized);
}

#[test]
fn resolved_rule_table_matches_the_format_history() {
    // (era, string_optimized, quality_version, debug_options, mod_crc,
    //  mod_name_optimized, triple_optimized)
    let table = vec![
        (RuntimeVersion::V013, false, false, false, false, false, false),
        (RuntimeVersion::V014, false, false, false, false, false, false),
        (RuntimeVersion::V01414, false, false, false, false, true, true),
        (RuntimeVersion::V015, false, false, false, true, true, true),
        (RuntimeVersion::V016, true, false, true, true, true, true),
        (RuntimeVersion::V017, true, true, true, true, true, true),
    ];
    for (era, s, q, d, c, mn, t) in table {
        let r = rules_for(era);
        assert_eq!(r.string_optimized, s);
        assert_eq!(r.quality_version, q);
        assert_eq!(r.debug_options, d);
        assert_eq!(r.mod_crc, c);
        assert_eq!(r.mod_name_optimized, mn);
        assert_eq!(r.triple_optimized, t);
        // the large-blueprint field is not an era rule: it is enabled by the
        // major 2 extension alone
        assert!(!r.large_blueprint);
    }
}

#[test]
fn empty_input_is_end_of_input_at_the_version() {
    let data: Vec<u8> = vec![];
    assert_eq!(get_save_header(&data), Err(DecodeError::EndOfInput(Field::Version)));
}

#[test]
fn unsupported_version_is_reported() {
    let mut data: Vec<u8> = Vec::new();
    for v in [0u16, 12, 35, 0] {
        data.extend_from_slice(&v.to_le_bytes());
    }
    data.extend_from_slice(&[0; 64]);
    assert_eq!(get_save_header(&data), Err(DecodeError::UnsupportedVersion));
}

#[test]
fn difficulty_bytes_map_exactly() {
    assert_eq!(Difficulty::from_byte(0), Ok(Difficulty::Easy));
    assert_eq!(Difficulty::from_byte(1), Ok(Difficulty::Normal));
    assert_eq!(Difficulty::from_byte(2), Ok(Difficulty::Hard));
    assert_eq!(Difficulty::from_byte(3), Ok(Difficulty::Nothing));
    for b in 4u8..=255 {
        assert_eq!(
            Difficulty::from_byte(b),
            Err(DecodeError::InvalidByte(Field::Difficulty, b))
        );
    }
}

#[test]
fn allowed_commands_bytes_map_exactly() {
    assert_eq!(AllowedCommands::from_byte(1), Ok(AllowedCommands::True));
    assert_eq!(AllowedCommands::from_byte(2), Ok(AllowedCommands::False));
    assert_eq!(AllowedCommands::from_byte(3), Ok(AllowedCommands::AdminsOnly));
    assert_eq!(
        AllowedCommands::from_byte(0),
        Err(DecodeError::InvalidByte(Field::AllowedCommands, 0))
    );
    assert_eq!(
        AllowedCommands::from_byte(4),
        Err(DecodeError::InvalidByte(Field::AllowedCommands, 4))
    );
}

#[test]
fn out_of_range_difficulty_byte_aborts_the_decode() {
    // a well-formed 0.13 prefix up to the difficulty byte, then byte 9
    let mut bytes: Vec<u8> = vec![0, 0, 13, 0, 20, 0, 0, 0];
    bytes.extend_from_slice(&[0, 0, 0, 0]); // campaign ""
    bytes.extend_from_slice(&[0, 0, 0, 0]); // level ""
    bytes.extend_from_slice(&[0, 0, 0, 0]); // base mod ""
    bytes.push(9);
    bytes.extend_from_slice(&[0; 32]);
    assert_eq!(
        get_save_header(&bytes),
        Err(DecodeError::InvalidByte(Field::Difficulty, 9))
    );
}

#[test]
fn version_tags_order_lexicographically() {
    let v = |major, minor, patch, build| FactorioVersion { major, minor, patch, build };
    assert!(v(0, 13, 20, 5) < v(0, 14, 0, 0));
    assert!(v(0, 14, 13, 9) < v(0, 14, 14, 0));
    assert!(v(1, 0, 0, 0) < v(2, 0, 13, 1));
    assert!(v(1, 1, 6, 4) < v(1, 1, 19, 0));
    assert!(v(0, 17, 1, 1) == v(0, 17, 1, 1));
}
