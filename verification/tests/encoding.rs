use squaremap_server::idset::IdSet;
use squaremap_server::png::{adler32, crc32, encode_rgba_png, png_chunk};
use squaremap_server::radius::{block_to_chunk, chunks_from_blocks, RadiusError};
use squaremap_server::text::{push_decimal, push_str};
use squaremap_server::wire::{all_zero, bytes_equal, copy_bytes, same_optional_world, ChunkCoordinate, WorldIdentity};

#[test]
fn checksums_match_their_reference_values() {
    assert_eq!(crc32(b"123456789"), 0xcbf4_3926);
    assert_eq!(crc32(b""), 0);
    assert_eq!(crc32(b"IEND"), 0xae42_6082);
    assert_eq!(adler32(b"Wikipedia"), 0x11e6_0398);
    assert_eq!(adler32(b""), 1);
}

#[test]
fn png_chunks_carry_length_type_data_and_crc() {
    let mut output = vec![7];
    png_chunk(&mut output, b"IEND", &[]);
    assert_eq!(output, vec![7, 0, 0, 0, 0, 73, 69, 78, 68, 0xae, 0x42, 0x60, 0x82]);
}

#[test]
fn a_one_pixel_icon_encodes_exactly() {
    let png = encode_rgba_png(1, 1, &[1, 2, 3, 4]).unwrap();
    let expected: Vec<u8> = vec![
        137, 80, 78, 71, 13, 10, 26, 10, 0, 0, 0, 13, 73, 72, 68, 82, 0, 0, 0, 1, 0, 0, 0, 1, 8, 6, 0, 0, 0, 31, 21,
        196, 137, 0, 0, 0, 16, 73, 68, 65, 84, 120, 1, 1, 5, 0, 250, 255, 0, 1, 2, 3, 4, 0, 25, 0, 11, 185, 176, 227,
        235, 0, 0, 0, 0, 73, 69, 78, 68, 174, 66, 96, 130,
    ];
    assert_eq!(png, expected);
}

#[test]
fn icons_with_bad_dimensions_are_refused() {
    assert_eq!(encode_rgba_png(0, 1, &[]), Err("icon dimensions must be non-zero"));
    assert_eq!(encode_rgba_png(1, 0, &[]), Err("icon dimensions must be non-zero"));
    assert_eq!(encode_rgba_png(1, 1, &[1, 2, 3]), Err("icon RGBA byte length does not match dimensions"));
}

#[test]
fn a_large_icon_spans_several_stored_blocks() {
    let rgba = vec![9u8; 200 * 100 * 4];
    let png = encode_rgba_png(200, 100, &rgba).unwrap();
    assert_eq!(&png[..8], &[137, 80, 78, 71, 13, 10, 26, 10]);
    assert_eq!(&png[png.len() - 12..], &[0, 0, 0, 0, 73, 69, 78, 68, 174, 66, 96, 130]);
}

#[test]
fn block_radius_becomes_a_square_of_chunks() {
    assert_eq!(block_to_chunk(31), 1);
    assert_eq!(block_to_chunk(-1), -1);
    assert_eq!(block_to_chunk(-16), -1);
    assert_eq!(block_to_chunk(-17), -2);
    assert_eq!(chunks_from_blocks(0, 0, 0), Err(RadiusError::InvalidRadius));
    assert_eq!(chunks_from_blocks(0, 0, -5), Err(RadiusError::InvalidRadius));
    assert_eq!(chunks_from_blocks(40, -40, 15), Ok(vec![ChunkCoordinate { x: 2, z: -3 }]));
    let square = chunks_from_blocks(0, 0, 16).unwrap();
    assert_eq!(square.len(), 9);
    assert_eq!(square[0], ChunkCoordinate { x: -1, z: -1 });
    assert_eq!(square[1], ChunkCoordinate { x: -1, z: 0 });
    assert_eq!(square[3], ChunkCoordinate { x: 0, z: -1 });
    assert_eq!(square[8], ChunkCoordinate { x: 1, z: 1 });
}

#[test]
fn id_sets_hold_each_identifier_once() {
    let mut set = IdSet::new();
    set.insert(5);
    set.insert(3);
    set.insert(5);
    assert_eq!(set.len(), 2);
    assert!(set.contains(3));
    assert_eq!(set.min(), Some(3));
    assert_eq!(set.max_above(3), Some(5));
    assert_eq!(set.max_above(5), None);
    assert!(set.remove(5));
    assert!(!set.remove(5));
    set.insert(9);
    set.insert(1);
    set.retain_at_least(3);
    assert!(!set.contains(1));
    let mut all = set.take_all();
    all.sort();
    assert_eq!(all, vec![3, 9]);
    assert_eq!(set.len(), 0);
    assert_eq!(set.min(), None);
}

#[test]
fn byte_and_world_helpers() {
    assert!(bytes_equal(&[1, 2], &[1, 2]));
    assert!(!bytes_equal(&[1, 2], &[1]));
    assert!(all_zero(&[0, 0]));
    assert!(all_zero(&[]));
    assert!(!all_zero(&[0, 1]));
    assert_eq!(copy_bytes(&[4, 5]), vec![4, 5]);
    let world = WorldIdentity { namespace: "a".to_string(), value: "b".to_string(), epoch: 1 };
    let later = WorldIdentity { epoch: 2, ..world.clone() };
    assert!(world.same(&world.duplicate()));
    assert!(!world.same(&later));
    assert!(same_optional_world(&None, &None));
    assert!(!same_optional_world(&Some(world.clone()), &None));
    assert!(!same_optional_world(&Some(world), &Some(later)));
}

#[test]
fn decimal_text() {
    let mut text = String::from("n=");
    push_decimal(&mut text, 0);
    push_str(&mut text, ",");
    push_decimal(&mut text, 18_446_744_073_709_551_615);
    assert_eq!(text, "n=0,18446744073709551615");
}
