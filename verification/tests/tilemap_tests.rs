use ecs_game::entities::EntityType;
use ecs_game::item::Item;
use ecs_game::tilemap::{Error, InputTile, Tile, Tilemap};

#[test]
fn minimal_map_parse() {
    let m = Tilemap::parse_text_map("1 3\n_#_\n").unwrap();
    assert_eq!(m.width(), 3);
    assert_eq!(m.height(), 1);
    assert_eq!(m.collision_map, vec![false, true, false]);
    assert_eq!(m.tile_map, vec![Tile::Open, Tile::Wall, Tile::Open]);
    assert!(m.spawns().is_empty());
}

#[test]
fn spawn_extraction_row_major() {
    let m = Tilemap::parse_text_map("2 2\n2_\n_0\n").unwrap();
    let spawns = m.spawns();
    assert_eq!(
        spawns.as_slice(),
        &[(EntityType::Player, 0, 0), (EntityType::Goal, 1, 1)]
    );
}

#[test]
fn item_resolution() {
    let m = Tilemap::parse_text_map("1 2\n_$\n").unwrap();
    assert_eq!(m.tile_map, vec![Tile::Open, Tile::Breakable(Item::Coins(10))]);
    assert_eq!(m.collision_map, vec![false, true]);
}

#[test]
fn all_item_kinds() {
    let m = Tilemap::parse_text_map("1 5\n-cC$+\n").unwrap();
    assert_eq!(
        m.tile_map,
        vec![
            Tile::Breakable(Item::Empty),
            Tile::Breakable(Item::Coins(1)),
            Tile::Breakable(Item::Coins(3)),
            Tile::Breakable(Item::Coins(10)),
            Tile::Breakable(Item::ExtraLife),
        ]
    );
    assert_eq!(m.collision_map, vec![true; 5]);
}

#[test]
fn invalid_item_reported() {
    assert_eq!(
        Tilemap::parse_text_map("1 3\n_@_\n").unwrap_err(),
        Error::InvalidItem('@')
    );
}

#[test]
fn invalid_entity_reported() {
    assert_eq!(
        Tilemap::parse_text_map("1 3\n_9_\n").unwrap_err(),
        Error::InvalidEntity(9)
    );
}

#[test]
fn item_error_takes_precedence_over_entity_error() {
    // item characters are resolved before spawn digits, wherever each sits
    assert_eq!(
        Tilemap::parse_text_map("1 3\n9_@\n").unwrap_err(),
        Error::InvalidItem('@')
    );
}

#[test]
fn truncated_body_is_size_error() {
    assert_eq!(Tilemap::parse_text_map("2 3\n___\n").unwrap_err(), Error::BadMapSize);
}

#[test]
fn misaligned_row_is_size_error() {
    assert_eq!(Tilemap::parse_text_map("2 3\n__\n____\n").unwrap_err(), Error::BadMapSize);
}

#[test]
fn oversized_body_is_size_error() {
    assert_eq!(Tilemap::parse_text_map("1 2\n___\n").unwrap_err(), Error::BadMapSize);
}

#[test]
fn missing_header_token_is_data_error() {
    assert_eq!(Tilemap::parse_text_map("2\n__\n").unwrap_err(), Error::BadMapData);
    assert_eq!(Tilemap::parse_text_map("\n").unwrap_err(), Error::BadMapData);
}

#[test]
fn non_numeric_header_is_data_error() {
    assert_eq!(Tilemap::parse_text_map("a 3\n___\n").unwrap_err(), Error::BadMapData);
    assert_eq!(Tilemap::parse_text_map("1 -3\n___\n").unwrap_err(), Error::BadMapData);
}

#[test]
fn header_value_too_large_is_data_error() {
    assert_eq!(
        Tilemap::parse_text_map("1 4294967296\n_\n").unwrap_err(),
        Error::BadMapData
    );
}

#[test]
fn header_order_is_height_then_width() {
    let m = Tilemap::parse_text_map("2 3\n___\n###\n").unwrap();
    assert_eq!(m.width(), 3);
    assert_eq!(m.height(), 2);
}

#[test]
fn crlf_terminators_accepted() {
    let m = Tilemap::parse_text_map("1 3\n_#_\r\n").unwrap();
    assert_eq!(m.tile_map, vec![Tile::Open, Tile::Wall, Tile::Open]);
}

#[test]
fn body_without_trailing_newline() {
    let m = Tilemap::parse_text_map("1 3\n_#_").unwrap();
    assert_eq!(m.collision_map, vec![false, true, false]);
}

#[test]
fn cell_accessors() {
    let mut m = Tilemap::parse_text_map("2 2\n#_\n_#\n").unwrap();
    assert!(m.filled_at(0, 0));
    assert!(!m.filled_at(0, 1));
    assert!(!m.filled_at(1, 0));
    assert!(m.filled_at(1, 1));
    assert_eq!(m.tile_at(0, 0), Tile::Wall);
    assert_eq!(m.tile_at(1, 0), Tile::Open);
    m.set_tile_at(0, 0, Tile::Open);
    assert_eq!(m.tile_at(0, 0), Tile::Open);
    assert!(!m.filled_at(0, 0));
    m.set_tile_at(1, 0, Tile::Breakable(Item::ExtraLife));
    assert!(m.filled_at(1, 0));
}

#[test]
fn parse_input_direct() {
    let tiles = vec![
        InputTile::Open,
        InputTile::Wall,
        InputTile::Spawn(3),
        InputTile::Item('c'),
    ];
    let m = Tilemap::parse_input(2, 2, &tiles).unwrap();
    assert_eq!(
        m.tile_map,
        vec![
            Tile::Open,
            Tile::Wall,
            Tile::Open,
            Tile::Breakable(Item::Coins(1)),
        ]
    );
    assert_eq!(m.collision_map, vec![false, true, false, true]);
    assert_eq!(m.spawns().as_slice(), &[(EntityType::Crawler, 0, 1)]);
}

#[test]
fn parse_input_length_mismatch() {
    let tiles = vec![InputTile::Open; 3];
    assert_eq!(Tilemap::parse_input(2, 2, &tiles).unwrap_err(), Error::BadMapSize);
}

#[test]
fn item_parse_table() {
    assert_eq!(Item::parse('-'), Ok(Item::Empty));
    assert_eq!(Item::parse('c'), Ok(Item::Coins(1)));
    assert_eq!(Item::parse('C'), Ok(Item::Coins(3)));
    assert_eq!(Item::parse('$'), Ok(Item::Coins(10)));
    assert_eq!(Item::parse('+'), Ok(Item::ExtraLife));
    assert_eq!(Item::parse('x'), Err('x'));
}

#[test]
fn entity_parse_table() {
    assert_eq!(EntityType::parse(0), Ok(EntityType::Goal));
    assert_eq!(EntityType::parse(1), Ok(EntityType::Checkpoint));
    assert_eq!(EntityType::parse(2), Ok(EntityType::Player));
    assert_eq!(EntityType::parse(3), Ok(EntityType::Crawler));
    assert_eq!(EntityType::parse(4), Err(4));
}

#[test]
fn collision_matches_blocking_inputs() {
    // walls and items block; open air and spawns do not
    let m = Tilemap::parse_text_map("1 4\n_#0-\n").unwrap();
    assert_eq!(m.collision_map, vec![false, true, false, true]);
}
