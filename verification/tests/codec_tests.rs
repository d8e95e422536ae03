use ecs_game::codec::{decode_input, encode_input};
use ecs_game::entities::EntityType;
use ecs_game::item::Item;
use ecs_game::tilemap::{Error, InputTile, Tile, Tilemap};

#[test]
fn encode_layout_is_little_endian() {
    let tiles = vec![InputTile::Open, InputTile::Wall, InputTile::Spawn(2), InputTile::Item('$')];
    let bytes = encode_input(2, 2, &tiles);
    let expected = vec![
        2, 0, 0, 0, // width
        2, 0, 0, 0, // height
        0, // open
        1, // wall
        2, 2, // spawn 2
        3, 36, 0, 0, 0, // item '$'
    ];
    assert_eq!(bytes, expected);
}

#[test]
fn codec_round_trip_triple() {
    let tiles = vec![
        InputTile::Open,
        InputTile::Item('+'),
        InputTile::Spawn(0),
        InputTile::Wall,
        InputTile::Item('\u{203D}'),
        InputTile::Open,
    ];
    let bytes = encode_input(3, 2, &tiles);
    let (w, h, decoded) = decode_input(&bytes).unwrap();
    assert_eq!(w, 3);
    assert_eq!(h, 2);
    assert_eq!(decoded, tiles);
}

#[test]
fn decode_truncated_stream_fails() {
    assert_eq!(decode_input(&vec![1, 0, 0]).unwrap_err(), Error::BadMapData);
    let tiles = vec![InputTile::Item('c')];
    let mut bytes = encode_input(1, 1, &tiles);
    bytes.pop();
    assert_eq!(decode_input(&bytes).unwrap_err(), Error::BadMapData);
}

#[test]
fn decode_unknown_tag_fails() {
    let bytes = vec![1, 0, 0, 0, 1, 0, 0, 0, 9];
    assert_eq!(decode_input(&bytes).unwrap_err(), Error::BadMapData);
}

#[test]
fn decode_surrogate_scalar_fails() {
    // 0xD800 is not a Unicode scalar value, so no character can carry it
    let bytes = vec![1, 0, 0, 0, 1, 0, 0, 0, 3, 0, 0xD8, 0, 0];
    assert_eq!(decode_input(&bytes).unwrap_err(), Error::BadMapData);
}

#[test]
fn parse_encode_then_decode_parse_matches_direct_parse() {
    let text = "2 3\n_#c\n2_$\n";
    let bytes = Tilemap::parse_encode(text).unwrap();
    let via_codec = Tilemap::decode_parse(&bytes).unwrap();
    let direct = Tilemap::parse_text_map(text).unwrap();
    assert_eq!(via_codec.width(), direct.width());
    assert_eq!(via_codec.height(), direct.height());
    assert_eq!(via_codec.collision_map, direct.collision_map);
    assert_eq!(via_codec.tile_map, direct.tile_map);
    assert_eq!(via_codec.spawns(), direct.spawns());
    assert_eq!(via_codec.tile_map[2], Tile::Breakable(Item::Coins(1)));
    assert_eq!(via_codec.spawns().as_slice(), &[(EntityType::Player, 0, 1)]);
}

#[test]
fn parse_encode_keeps_unresolved_items() {
    // encoding happens before resolution, so an unknown item character
    // still encodes; resolution fails only on decode_parse
    let text = "1 1\n@\n";
    let bytes = Tilemap::parse_encode(text).unwrap();
    assert_eq!(Tilemap::decode_parse(&bytes).unwrap_err(), Error::InvalidItem('@'));
    assert_eq!(Tilemap::parse_text_map(text).unwrap_err(), Error::InvalidItem('@'));
}

#[test]
fn parse_encode_propagates_parse_errors() {
    assert_eq!(Tilemap::parse_encode("x\n").unwrap_err(), Error::BadMapData);
    assert_eq!(Tilemap::parse_encode("2 2\n___\n").unwrap_err(), Error::BadMapSize);
}
