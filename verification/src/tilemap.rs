use vstd::prelude::*;
use vstd::string::StrSliceExecFns;

use crate::entities::{spec_parse_entity, EntityType};
use crate::item::{spec_parse_item, Item};

verus! {

/// One cell of a map file as read from text: open air, a wall, an entity
/// spawn digit, or an item character.
#[derive(Copy, Clone, Debug, PartialEq, Eq, Structural)]
pub enum InputTile {
    Open,
    Wall,
    Spawn(u8),
    Item(char),
}

/// One cell of the running level: resolved from an `InputTile`, with spawn
/// cells collapsed to open air and item characters resolved to items.
#[derive(Copy, Clone, Debug, PartialEq, Eq, Structural)]
pub enum Tile {
    Open,
    Wall,
    Breakable(Item),
}

/// Everything that can go wrong while reading a map. `NotUtf8` and `Io` are
/// produced by the reading edge outside this crate, which decodes the raw
/// byte stream before handing the text in.
#[derive(Copy, Clone, Debug, PartialEq, Eq, Structural)]
pub enum Error {
    BadMapData,
    BadMapSize,
    InvalidItem(char),
    InvalidEntity(u8),
    NotUtf8,
    Io,
}

impl core::convert::From<char> for Error {
    /// An unknown item character is an `InvalidItem` error.
    fn from(c: char) -> (r: Error) {
        Error::InvalidItem(c)
    }
}

impl vstd::std_specs::convert::FromSpecImpl<char> for Error {
    open spec fn obeys_from_spec() -> bool {
        true
    }

    open spec fn from_spec(c: char) -> Error {
        Error::InvalidItem(c)
    }
}

impl core::convert::From<u8> for Error {
    /// An unknown spawn digit is an `InvalidEntity` error.
    fn from(id: u8) -> (r: Error) {
        Error::InvalidEntity(id)
    }
}

impl vstd::std_specs::convert::FromSpecImpl<u8> for Error {
    open spec fn obeys_from_spec() -> bool {
        true
    }

    open spec fn from_spec(id: u8) -> Error {
        Error::InvalidEntity(id)
    }
}

/// A rectangular level: `width * height` cells, row-major, with the derived
/// collision map and the spawn list extracted from the input tiles.
#[derive(Clone, Debug)]
pub struct Tilemap {
    pub width: u32,
    pub height: u32,
    pub collision_map: Vec<bool>,
    pub tile_map: Vec<Tile>,
    pub spawns: Vec<(EntityType, u32, u32)>,
}

/// The mathematical shape of a `Tilemap`.
pub ghost struct MapModel {
    pub width: u32,
    pub height: u32,
    pub collision: Seq<bool>,
    pub tiles: Seq<Tile>,
    pub spawns: Seq<(EntityType, u32, u32)>,
}

impl View for Tilemap {
    type V = MapModel;

    open spec fn view(&self) -> MapModel {
        MapModel {
            width: self.width,
            height: self.height,
            collision: self.collision_map@,
            tiles: self.tile_map@,
            spawns: self.spawns@,
        }
    }
}

/// Whether an input cell blocks movement: walls and item blocks do, open air
/// and spawn markers do not.
pub open spec fn tile_blocks(t: InputTile) -> bool {
    match t {
        InputTile::Open => false,
        InputTile::Wall => true,
        InputTile::Spawn(_) => false,
        InputTile::Item(_) => true,
    }
}

/// The item an input cell resolves to, assuming its character is in the item
/// table; cells that are not items resolve structurally.
pub open spec fn spec_resolve_tile(t: InputTile) -> Tile {
    match t {
        InputTile::Open => Tile::Open,
        InputTile::Wall => Tile::Wall,
        InputTile::Spawn(_) => Tile::Open,
        InputTile::Item(c) => Tile::Breakable(
            match spec_parse_item(c) {
                Some(item) => item,
                None => Item::Empty,
            },
        ),
    }
}

/// The entity kind a spawn digit stands for, assuming it is in the spawn
/// table.
pub open spec fn entity_of(id: u8) -> EntityType {
    match spec_parse_entity(id) {
        Some(e) => e,
        None => EntityType::Goal,
    }
}

/// The first item character, scanning from position `i`, that is not in the
/// item table.
pub open spec fn first_bad_item_from(tiles: Seq<InputTile>, i: int) -> Option<char>
    decreases tiles.len() - i,
{
    if i < 0 || i >= tiles.len() {
        None
    } else {
        match tiles[i] {
            InputTile::Item(c) => if spec_parse_item(c) is None {
                Some(c)
            } else {
                first_bad_item_from(tiles, i + 1)
            },
            _ => first_bad_item_from(tiles, i + 1),
        }
    }
}

/// The first spawn digit, scanning from position `i`, that is not in the
/// spawn table.
pub open spec fn first_bad_spawn_from(tiles: Seq<InputTile>, i: int) -> Option<u8>
    decreases tiles.len() - i,
{
    if i < 0 || i >= tiles.len() {
        None
    } else {
        match tiles[i] {
            InputTile::Spawn(id) => if spec_parse_entity(id) is None {
                Some(id)
            } else {
                first_bad_spawn_from(tiles, i + 1)
            },
            _ => first_bad_spawn_from(tiles, i + 1),
        }
    }
}

/// The spawn list of a tile sequence: one entry per `Spawn` cell, in
/// row-major order, with its column and row derived from its index.
pub open spec fn spawns_of(tiles: Seq<InputTile>, width: u32) -> Seq<(EntityType, u32, u32)>
    decreases tiles.len(),
{
    if tiles.len() == 0 {
        Seq::empty()
    } else {
        let rest = spawns_of(tiles.drop_last(), width);
        let i = tiles.len() - 1;
        match tiles.last() {
            InputTile::Spawn(id) => rest.push(
                (entity_of(id), (i as int % width as int) as u32, (i as int / width as int) as u32),
            ),
            _ => rest,
        }
    }
}

/// What resolving `width * height` input tiles yields: the tilemap model, or
/// the error for a wrong length, the first unknown item character, or the
/// first unknown spawn digit, in that order of precedence.
pub open spec fn parse_input_spec(width: u32, height: u32, tiles: Seq<InputTile>) -> Result<
    MapModel,
    Error,
> {
    if tiles.len() != width * height {
        Err(Error::BadMapSize)
    } else {
        match first_bad_item_from(tiles, 0) {
            Some(c) => Err(Error::InvalidItem(c)),
            None => match first_bad_spawn_from(tiles, 0) {
                Some(id) => Err(Error::InvalidEntity(id)),
                None => Ok(
                    MapModel {
                        width,
                        height,
                        collision: Seq::new(tiles.len(), |i: int| tile_blocks(tiles[i])),
                        tiles: Seq::new(tiles.len(), |i: int| spec_resolve_tile(tiles[i])),
                        spawns: spawns_of(tiles, width),
                    },
                ),
            },
        }
    }
}

impl Tilemap {
    /// A tilemap is well formed when both per-cell arrays cover exactly
    /// `width * height` cells and every wall or breakable cell is marked
    /// solid in the collision map.
    pub open spec fn wf(self) -> bool {
        &&& self.collision_map@.len() == self.width * self.height
        &&& self.tile_map@.len() == self.width * self.height
        &&& forall|i: int|
            0 <= i < self.tile_map@.len() ==> ((self.tile_map@[i] is Wall
                || self.tile_map@[i] is Breakable) ==> self.collision_map@[i])
    }

    pub fn width(&self) -> (r: u32)
        ensures
            r == self.width,
    {
        self.width
    }

    pub fn height(&self) -> (r: u32)
        ensures
            r == self.height,
    {
        self.height
    }

    /// Whether the cell at the given row and column blocks movement.
    pub fn filled_at(&self, row: u32, col: u32) -> (r: bool)
        requires
            self.wf(),
            row < self.height,
            col < self.width,
        ensures
            r == self.collision_map@[row * self.width + col],
    {
        let _total: usize = self.collision_map.len();
        proof {
            lemma_cell_index_in_range(self.width as int, self.height as int, row as int, col as int);
        }
        self.collision_map[(row as usize) * (self.width as usize) + (col as usize)]
    }

    /// The resolved tile at the given row and column.
    pub fn tile_at(&self, row: u32, col: u32) -> (r: Tile)
        requires
            self.wf(),
            row < self.height,
            col < self.width,
        ensures
            r == self.tile_map@[row * self.width + col],
    {
        let _total: usize = self.tile_map.len();
        proof {
            lemma_cell_index_in_range(self.width as int, self.height as int, row as int, col as int);
        }
        self.tile_map[(row as usize) * (self.width as usize) + (col as usize)]
    }

    /// Replaces the tile at the given row and column, keeping the collision
    /// map in step: the cell blocks movement afterwards exactly when the new
    /// tile is not open air.
    pub fn set_tile_at(&mut self, row: u32, col: u32, tile: Tile)
        requires
            old(self).wf(),
            row < old(self).height,
            col < old(self).width,
        ensures
            final(self).wf(),
            final(self).width == old(self).width,
            final(self).height == old(self).height,
            final(self).spawns@ == old(self).spawns@,
            final(self).tile_map@ == old(self).tile_map@.update(row * old(self).width + col, tile),
            final(self).collision_map@ == old(self).collision_map@.update(
                row * old(self).width + col,
                !(tile is Open),
            ),
    {
        let _total: usize = self.tile_map.len();
        proof {
            lemma_cell_index_in_range(self.width as int, self.height as int, row as int, col as int);
        }
        let idx: usize = (row as usize) * (self.width as usize) + (col as usize);
        self.tile_map[idx] = tile;
        self.collision_map[idx] = !matches!(tile, Tile::Open);
    }

    /// The spawn list: one `(entity, column, row)` entry per spawn cell of
    /// the parsed map, in row-major order.
    pub fn spawns(&self) -> (r: &Vec<(EntityType, u32, u32)>)
        ensures
            r@ == self.spawns@,
    {
        &self.spawns
    }

    /// Resolves parsed input tiles into a tilemap: derives the collision map,
    /// resolves item characters, and extracts the spawn list. Fails when the
    /// tile count does not match the header, or an item character or spawn
    /// digit is unknown.
    pub fn parse_input(width: u32, height: u32, input_tiles: &Vec<InputTile>) -> (r: Result<
        Tilemap,
        Error,
    >)
        ensures
            match (r, parse_input_spec(width, height, input_tiles@)) {
                (Ok(m), Ok(model)) => m@ == model && m.wf(),
                (Err(e), Err(expected)) => e == expected,
                _ => false,
            },
            r matches Ok(m) ==> {
                &&& m@.collision.len() == width * height
                &&& m@.tiles.len() == width * height
                &&& forall|i: int|
                    0 <= i < input_tiles@.len() ==> m@.collision[i] == tile_blocks(input_tiles@[i])
                &&& forall|i: int|
                    0 <= i < input_tiles@.len() ==> (#[trigger] m@.tiles[i] matches Tile::Breakable(
                        item,
                    ) ==> (input_tiles@[i] matches InputTile::Item(c) && spec_parse_item(c)
                        == Some(item)))
            },
    {
        let n = input_tiles.len();
        proof {
            assert((width as int) * (height as int) < 0x1_0000_0000_0000_0000) by (nonlinear_arith)
                requires
                    width < 0x1_0000_0000,
                    height < 0x1_0000_0000,
            {}
        }
        if (n as u64) != (width as u64) * (height as u64) {
            return Err(Error::BadMapSize);
        }
        let ghost tiles = input_tiles@;

        let mut collision_map: Vec<bool> = Vec::new();
        let mut tile_map: Vec<Tile> = Vec::new();
        let mut i: usize = 0;
        while i < n
            invariant
                n == tiles.len(),
                0 <= i <= n,
                input_tiles@ == tiles,
                n == width * height,
                collision_map@ =~= Seq::new(i as nat, |j: int| tile_blocks(tiles[j])),
                tile_map@ =~= Seq::new(i as nat, |j: int| spec_resolve_tile(tiles[j])),
                first_bad_item_from(tiles, 0) == first_bad_item_from(tiles, i as int),
            decreases n - i,
        {
            let tile = input_tiles[i];
            collision_map.push(
                match tile {
                    InputTile::Open => false,
                    InputTile::Wall => true,
                    InputTile::Spawn(_) => false,
                    InputTile::Item(_) => true,
                },
            );
            let resolved = match tile {
                InputTile::Open => Tile::Open,
                InputTile::Wall => Tile::Wall,
                InputTile::Spawn(_) => Tile::Open,
                InputTile::Item(c) => match Item::parse(c) {
                    Ok(item) => Tile::Breakable(item),
                    Err(c) => {
                        return Err(Error::InvalidItem(c));
                    },
                },
            };
            tile_map.push(resolved);
            proof {
                assert(collision_map@ =~= Seq::new((i + 1) as nat, |j: int| tile_blocks(tiles[j])));
                assert(tile_map@ =~= Seq::new(
                    (i + 1) as nat,
                    |j: int| spec_resolve_tile(tiles[j]),
                ));
            }
            i = i + 1;
        }

        let mut spawn_list: Vec<(EntityType, u32, u32)> = Vec::new();
        let mut i: usize = 0;
        while i < n
            invariant
                n == tiles.len(),
                0 <= i <= n,
                input_tiles@ == tiles,
                n == width * height,
                first_bad_item_from(tiles, 0) is None,
                spawn_list@ == spawns_of(tiles.take(i as int), width),
                first_bad_spawn_from(tiles, 0) == first_bad_spawn_from(tiles, i as int),
            decreases n - i,
        {
            match input_tiles[i] {
                InputTile::Spawn(id) => {
                    match EntityType::parse(id) {
                        Ok(entity) => {
                            assert(width > 0) by (nonlinear_arith)
                                requires
                                    n == width * height,
                                    0 <= i < n,
                            {}
                            proof {
                                assert((i as int) / (width as int) < height as int)
                                    by (nonlinear_arith)
                                    requires
                                        n == width * height,
                                        0 <= i < n,
                                        width > 0,
                                {}
                            }
                            let x = ((i as u64) % (width as u64)) as u32;
                            let y = ((i as u64) / (width as u64)) as u32;
                            spawn_list.push((entity, x, y));
                        },
                        Err(id) => {
                            return Err(Error::InvalidEntity(id));
                        },
                    }
                },
                _ => {},
            }
            proof {
                assert(tiles.take(i + 1).drop_last() =~= tiles.take(i as int));
                assert(tiles.take(i + 1).last() == tiles[i as int]);
            }
            i = i + 1;
        }

        proof {
            assert(tiles.take(n as int) =~= tiles);
        }
        let m = Tilemap { width, height, collision_map, tile_map, spawns: spawn_list };
        proof {
            assert forall|i: int| 0 <= i < m.tile_map@.len() implies ((m.tile_map@[i] is Wall
                || m.tile_map@[i] is Breakable) ==> m.collision_map@[i]) by {
                assert(m.tile_map@[i] == spec_resolve_tile(tiles[i]));
                assert(m.collision_map@[i] == tile_blocks(tiles[i]));
            }
            assert forall|i: int|
                0 <= i < tiles.len() implies (#[trigger] m.tile_map@[i] matches Tile::Breakable(
                item,
            ) ==> (tiles[i] matches InputTile::Item(c) && spec_parse_item(c) == Some(item))) by {
                assert(m.tile_map@[i] == spec_resolve_tile(tiles[i]));
                if tiles[i] matches InputTile::Item(c) {
                    lemma_good_items(tiles, 0, i);
                }
            }
        }
        Ok(m)
    }

    /// Reads a map text into its header dimensions and raw tile list: the
    /// first line holds height then width, and the body is scanned character
    /// by character, with line terminators validating row alignment.
    pub fn parse_text_map_input(text: &str) -> (r: Result<(u32, u32, Vec<InputTile>), Error>)
        ensures
            match (r, spec_parse_text_input(text@)) {
                (Ok(t), Ok(expected)) => t.0 == expected.0 && t.1 == expected.1 && t.2@
                    == expected.2,
                (Err(e), Err(expected)) => e == expected,
                _ => false,
            },
    {
        let chars = chars_of(text);
        let n = chars.len();
        let ghost s = text@;

        let mut line: Vec<char> = Vec::new();
        let mut i: usize = 0;
        while i < n && chars[i] != '\n'
            invariant
                0 <= i <= n,
                n == s.len(),
                chars@ == s,
                first_newline_from(s, 0) == first_newline_from(s, i as int),
                line@ =~= s.subrange(0, i as int),
            decreases n - i,
        {
            line.push(chars[i]);
            proof {
                assert(line@ =~= s.subrange(0, i + 1));
            }
            i = i + 1;
        }
        proof {
            assert(first_newline_from(s, 0) == i as int);
        }
        let body_start: usize = if i == n {
            i
        } else {
            i + 1
        };

        proof {
            lemma_skip_spaces_bounds(line@, 0);
        }
        let (tok1, p1) = next_token(&line, 0);
        if tok1.len() == 0 {
            return Err(Error::BadMapData);
        }
        proof {
            lemma_skip_spaces_bounds(line@, p1 as int);
        }
        let (tok2, _p2) = next_token(&line, p1);
        if tok2.len() == 0 {
            return Err(Error::BadMapData);
        }
        let height_v = parse_u32_chars(&tok1);
        let width_v = parse_u32_chars(&tok2);
        let (height, width) = match (height_v, width_v) {
            (Some(h), Some(w)) => (h, w),
            _ => {
                return Err(Error::BadMapData);
            },
        };
        proof {
            assert(spec_header_dims(line@) == Some((height, width)));
        }

        proof {
            assert((width as int) * (height as int) < 0x1_0000_0000_0000_0000) by (nonlinear_arith)
                requires
                    width < 0x1_0000_0000,
                    height < 0x1_0000_0000,
            {}
        }
        let total: u64 = (width as u64) * (height as u64);
        let mut acc: Vec<InputTile> = Vec::new();
        let mut i: usize = body_start;
        while i < n
            invariant
                body_start <= i <= n,
                s == text@,
                n == s.len(),
                chars@ == s,
                total == width * height,
                spec_header_dims(s.subrange(0, first_newline_from(s, 0))) == Some(
                    (height, width),
                ),
                body_start as int == (if first_newline_from(s, 0) == s.len() {
                    s.len() as int
                } else {
                    first_newline_from(s, 0) + 1
                }),
                scan_body(s, body_start as int, width, total as int, Seq::empty()) == scan_body(
                    s,
                    i as int,
                    width,
                    total as int,
                    acc@,
                ),
            decreases n - i,
        {
            let c = chars[i];
            if c == '\n' || c == '\r' {
                let len64 = acc.len() as u64;
                if width == 0 || len64 % (width as u64) != 0 || len64 > total {
                    return Err(Error::BadMapSize);
                }
                if len64 == total {
                    return Ok((width, height, acc));
                }
            } else if c == '_' {
                acc.push(InputTile::Open);
            } else if c == '#' {
                acc.push(InputTile::Wall);
            } else {
                let v = c as u32;
                if 48 <= v && v <= 57 {
                    acc.push(InputTile::Spawn((v - 48) as u8));
                } else {
                    acc.push(InputTile::Item(c));
                }
            }
            i = i + 1;
        }
        let len64 = acc.len() as u64;
        if len64 == total {
            Ok((width, height, acc))
        } else {
            Err(Error::BadMapSize)
        }
    }

    /// Parses a whole map text: reads the header and body, then resolves the
    /// raw tiles into a tilemap with its collision map and spawn list.
    pub fn parse_text_map(text: &str) -> (r: Result<Tilemap, Error>)
        ensures
            match (r, spec_parse_text_map(text@)) {
                (Ok(m), Ok(model)) => m@ == model && m.wf(),
                (Err(e), Err(expected)) => e == expected,
                _ => false,
            },
            r matches Ok(m) ==> m@.collision.len() == m@.width * m@.height && m@.tiles.len()
                == m@.width * m@.height,
    {
        let (width, height, input_tiles) = match Self::parse_text_map_input(text) {
            Ok(t) => t,
            Err(e) => {
                return Err(e);
            },
        };
        Self::parse_input(width, height, &input_tiles)
    }
}

/// ASCII whitespace, as the header line of a map file uses it to separate
/// its two dimension tokens.
pub open spec fn is_map_space(c: char) -> bool {
    c == ' ' || c == '\t' || c == '\r' || c == '\n' || c == '\u{b}' || c == '\u{c}'
}

/// The position of the first line feed at or after `i`, or the length when
/// there is none.
pub open spec fn first_newline_from(s: Seq<char>, i: int) -> int
    decreases s.len() - i,
{
    if i < 0 || i >= s.len() {
        s.len() as int
    } else if s[i] == '\n' {
        i
    } else {
        first_newline_from(s, i + 1)
    }
}

/// The first position at or after `i` that does not hold whitespace.
pub open spec fn skip_spaces(s: Seq<char>, i: int) -> int
    decreases s.len() - i,
{
    if i < 0 || i >= s.len() {
        s.len() as int
    } else if is_map_space(s[i]) {
        skip_spaces(s, i + 1)
    } else {
        i
    }
}

/// The first position at or after `i` that holds whitespace: the end of the
/// token starting at `i`.
pub open spec fn token_end(s: Seq<char>, i: int) -> int
    decreases s.len() - i,
{
    if i < 0 || i >= s.len() {
        s.len() as int
    } else if is_map_space(s[i]) {
        i
    } else {
        token_end(s, i + 1)
    }
}

pub open spec fn is_ascii_digit_char(c: char) -> bool {
    48 <= c as u32 && c as u32 <= 57
}

/// The value of a sequence of decimal digit characters, most significant
/// first.
pub open spec fn dec_val(s: Seq<char>) -> int
    decreases s.len(),
{
    if s.len() == 0 {
        0
    } else {
        dec_val(s.drop_last()) * 10 + (s.last() as u32 - 48)
    }
}

pub open spec fn all_digits(s: Seq<char>) -> bool {
    forall|j: int| 0 <= j < s.len() ==> is_ascii_digit_char(s[j])
}

/// What reading a header token as a decimal `u32` yields: an optional plus
/// sign, then one or more digits, with a value that fits.
pub open spec fn spec_parse_u32(tok: Seq<char>) -> Option<u32> {
    let digits = if tok.len() > 0 && tok[0] == '+' {
        tok.drop_first()
    } else {
        tok
    };
    if digits.len() == 0 || !all_digits(digits) {
        None
    } else if dec_val(digits) <= u32::MAX {
        Some(dec_val(digits) as u32)
    } else {
        None
    }
}

/// The dimensions named by a header line: its first whitespace-separated
/// token is the height, its second the width.
pub open spec fn spec_header_dims(line: Seq<char>) -> Option<(u32, u32)> {
    let a1 = skip_spaces(line, 0);
    let b1 = token_end(line, a1);
    let a2 = skip_spaces(line, b1);
    let b2 = token_end(line, a2);
    if a1 >= line.len() || a2 >= line.len() {
        None
    } else {
        match (spec_parse_u32(line.subrange(a1, b1)), spec_parse_u32(line.subrange(a2, b2))) {
            (Some(h), Some(w)) => Some((h, w)),
            _ => None,
        }
    }
}

/// The input tile a body character stands for.
pub open spec fn spec_tile_of_char(c: char) -> InputTile {
    if c == '_' {
        InputTile::Open
    } else if c == '#' {
        InputTile::Wall
    } else if is_ascii_digit_char(c) {
        InputTile::Spawn((c as u32 - 48) as u8)
    } else {
        InputTile::Item(c)
    }
}

/// One step at a time, what scanning the map body from position `i` with
/// `acc` tiles already collected yields. A line terminator checks row
/// alignment and the running total; any other character is one tile. At the
/// end of the text the tile count must match the header exactly.
pub open spec fn scan_body(
    s: Seq<char>,
    i: int,
    width: u32,
    total: int,
    acc: Seq<InputTile>,
) -> Result<Seq<InputTile>, Error>
    decreases s.len() - i,
{
    if i < 0 || i >= s.len() {
        if acc.len() == total {
            Ok(acc)
        } else {
            Err(Error::BadMapSize)
        }
    } else if s[i] == '\n' || s[i] == '\r' {
        if width == 0 || acc.len() as int % (width as int) != 0 || acc.len() > total {
            Err(Error::BadMapSize)
        } else if acc.len() == total {
            Ok(acc)
        } else {
            scan_body(s, i + 1, width, total, acc)
        }
    } else {
        scan_body(s, i + 1, width, total, acc.push(spec_tile_of_char(s[i])))
    }
}

/// What reading a whole map text yields before resolution: the dimensions
/// from the header line and the raw tiles from the body, or the error.
pub open spec fn spec_parse_text_input(s: Seq<char>) -> Result<(u32, u32, Seq<InputTile>), Error> {
    let e = first_newline_from(s, 0);
    let body_start = if e == s.len() {
        e
    } else {
        e + 1
    };
    match spec_header_dims(s.subrange(0, e)) {
        None => Err(Error::BadMapData),
        Some((h, w)) => match scan_body(s, body_start, w, w as int * h as int, Seq::empty()) {
            Ok(tiles) => Ok((w, h, tiles)),
            Err(err) => Err(err),
        },
    }
}

/// What parsing a whole map text yields: the text read into raw tiles, then
/// resolved into the tilemap model.
pub open spec fn spec_parse_text_map(s: Seq<char>) -> Result<MapModel, Error> {
    match spec_parse_text_input(s) {
        Ok((w, h, tiles)) => parse_input_spec(w, h, tiles),
        Err(e) => Err(e),
    }
}

/// Collects the characters of a string in order.
fn chars_of(s: &str) -> (r: Vec<char>)
    ensures
        r@ == s@,
{
    let n = s.unicode_len();
    let mut out: Vec<char> = Vec::new();
    let mut i: usize = 0;
    while i < n
        invariant
            0 <= i <= n,
            n == s@.len(),
            out@ =~= s@.take(i as int),
        decreases n - i,
    {
        out.push(s.get_char(i));
        proof {
            assert(out@ =~= s@.take(i + 1));
        }
        i = i + 1;
    }
    proof {
        assert(s@.take(n as int) =~= s@);
    }
    out
}

fn is_space_char(c: char) -> (r: bool)
    ensures
        r == is_map_space(c),
{
    c == ' ' || c == '\t' || c == '\r' || c == '\n' || c == '\u{b}' || c == '\u{c}'
}

/// The scan from `i` for the first non-whitespace position stays within the
/// sequence and stops on a non-whitespace character when one exists.
proof fn lemma_skip_spaces_bounds(s: Seq<char>, i: int)
    requires
        0 <= i <= s.len(),
    ensures
        i <= skip_spaces(s, i) <= s.len(),
        skip_spaces(s, i) < s.len() ==> !is_map_space(s[skip_spaces(s, i)]),
    decreases s.len() - i,
{
    if i < s.len() && is_map_space(s[i]) {
        lemma_skip_spaces_bounds(s, i + 1);
    }
}

/// The scan from `i` for the end of a token stays within the sequence.
proof fn lemma_token_end_bounds(s: Seq<char>, i: int)
    requires
        0 <= i <= s.len(),
    ensures
        i <= token_end(s, i) <= s.len(),
    decreases s.len() - i,
{
    if i < s.len() && !is_map_space(s[i]) {
        lemma_token_end_bounds(s, i + 1);
    }
}

/// A sequence of digit characters has a non-negative value.
proof fn lemma_dec_val_nonneg(s: Seq<char>)
    requires
        all_digits(s),
    ensures
        dec_val(s) >= 0,
    decreases s.len(),
{
    if s.len() > 0 {
        assert(all_digits(s.drop_last()));
        lemma_dec_val_nonneg(s.drop_last());
    }
}

/// Skips whitespace from `start`, then collects the token there; returns the
/// token and the position just past it.
fn next_token(line: &Vec<char>, start: usize) -> (r: (Vec<char>, usize))
    requires
        start <= line@.len(),
    ensures
        ({
            let a = skip_spaces(line@, start as int);
            let b = token_end(line@, a);
            &&& r.0@ == line@.subrange(a, b)
            &&& r.1 == b
            &&& r.1 <= line@.len()
            &&& (a < line@.len() ==> r.0@.len() > 0)
            &&& (a >= line@.len() ==> r.0@.len() == 0)
        }),
{
    let n = line.len();
    let mut i: usize = start;
    while i < n && is_space_char(line[i])
        invariant
            start <= i <= n,
            n == line@.len(),
            skip_spaces(line@, start as int) == skip_spaces(line@, i as int),
        decreases n - i,
    {
        i = i + 1;
    }
    let a = i;
    proof {
        assert(skip_spaces(line@, start as int) == a as int);
        lemma_token_end_bounds(line@, a as int);
    }
    let mut tok: Vec<char> = Vec::new();
    let mut j: usize = a;
    while j < n && !is_space_char(line[j])
        invariant
            a <= j <= n,
            n == line@.len(),
            token_end(line@, a as int) == token_end(line@, j as int),
            tok@ =~= line@.subrange(a as int, j as int),
        decreases n - j,
    {
        tok.push(line[j]);
        proof {
            assert(tok@ =~= line@.subrange(a as int, j + 1));
        }
        j = j + 1;
    }
    proof {
        assert(token_end(line@, a as int) == j as int);
        if (a as int) < line@.len() {
            lemma_token_end_bounds(line@, a + 1);
        }
    }
    (tok, j)
}

/// Reads a header token as a decimal `u32`: an optional plus sign, then one
/// or more digits whose value fits.
fn parse_u32_chars(tok: &Vec<char>) -> (r: Option<u32>)
    ensures
        r == spec_parse_u32(tok@),
{
    let n = tok.len();
    let start: usize = if n > 0 && tok[0] == '+' {
        1
    } else {
        0
    };
    let ghost digits = if tok@.len() > 0 && tok@[0] == '+' {
        tok@.drop_first()
    } else {
        tok@
    };
    proof {
        assert(digits =~= tok@.subrange(start as int, n as int));
    }
    if n == start {
        return None;
    }
    let mut val: u64 = 0;
    let mut over: bool = false;
    let mut i: usize = start;
    while i < n
        invariant
            start <= i <= n,
            n == tok@.len(),
            digits =~= tok@.subrange(start as int, n as int),
            digits == (if tok@.len() > 0 && tok@[0] == '+' {
                tok@.drop_first()
            } else {
                tok@
            }),
            forall|j: int| start <= j < i ==> is_ascii_digit_char(#[trigger] tok@[j]),
            !over ==> val == dec_val(tok@.subrange(start as int, i as int)) && val <= u32::MAX,
            over ==> dec_val(tok@.subrange(start as int, i as int)) > u32::MAX,
        decreases n - i,
    {
        let c = tok[i];
        let v = c as u32;
        if !(48 <= v && v <= 57) {
            proof {
                assert(!is_ascii_digit_char(digits[i - start]));
                assert(!all_digits(digits));
            }
            return None;
        }
        let ghost pre = tok@.subrange(start as int, i as int);
        let ghost cur = tok@.subrange(start as int, i + 1);
        proof {
            assert(cur.drop_last() =~= pre);
            assert(cur.last() == tok@[i as int]);
            assert(all_digits(pre));
            lemma_dec_val_nonneg(pre);
        }
        if over {
            proof {
                assert(dec_val(cur) == dec_val(pre) * 10 + (c as u32 - 48));
                assert(dec_val(pre) * 10 > (u32::MAX as int) * 10) by (nonlinear_arith)
                    requires
                        dec_val(pre) > u32::MAX,
                {}
            }
        } else {
            let next = val * 10 + ((v - 48) as u64);
            if next > (u32::MAX as u64) {
                over = true;
            } else {
                val = next;
            }
        }
        i = i + 1;
    }
    proof {
        assert(tok@.subrange(start as int, n as int) == digits);
    }
    if over {
        None
    } else {
        Some(val as u32)
    }
}

/// When the scan from position `j` finds no unknown item character, every
/// item character at or after `j` is in the item table.
proof fn lemma_good_items(tiles: Seq<InputTile>, j: int, i: int)
    requires
        0 <= j <= i < tiles.len(),
        first_bad_item_from(tiles, j) is None,
    ensures
        tiles[i] matches InputTile::Item(c) ==> spec_parse_item(c) is Some,
    decreases i - j,
{
    if j < i {
        lemma_good_items(tiles, j + 1, i);
    }
}

/// Within a well-formed map, a cell's row-major index lies inside both
/// per-cell arrays.
proof fn lemma_cell_index_in_range(width: int, height: int, row: int, col: int)
    by (nonlinear_arith)
    requires
        0 <= row < height,
        0 <= col < width,
    ensures
        0 <= row * width + col < width * height,
        row * width <= (height - 1) * width,
{
}

} // verus!
