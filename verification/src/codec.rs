use vstd::arithmetic::div_mod::{lemma_div_denominator, lemma_fundamental_div_mod};
use vstd::prelude::*;

use crate::tilemap::{
    parse_input_spec, spec_parse_text_input, spec_parse_text_map, Error, InputTile, MapModel,
    Tilemap,
};

verus! {

/// The four little-endian bytes of a 32-bit value.
pub open spec fn le32(v: u32) -> Seq<u8> {
    seq![
        (v as int % 256) as u8,
        (v as int / 256 % 256) as u8,
        (v as int / 65536 % 256) as u8,
        (v as int / 16777216) as u8,
    ]
}

/// The value four little-endian bytes stand for.
pub open spec fn le32_val(b0: u8, b1: u8, b2: u8, b3: u8) -> int {
    b0 + b1 * 256 + b2 * 65536 + b3 * 16777216
}

/// Reassembling the little-endian bytes of a 32-bit value gives the value
/// back.
proof fn lemma_le32_round_trip(v: u32)
    ensures
        le32_val(le32(v)[0], le32(v)[1], le32(v)[2], le32(v)[3]) == v,
{
    let a = v as int;
    lemma_fundamental_div_mod(a, 256);
    lemma_fundamental_div_mod(a / 256, 256);
    lemma_div_denominator(a, 256, 256);
    lemma_fundamental_div_mod(a / 65536, 256);
    lemma_div_denominator(a, 65536, 256);
    assert(a / 16777216 < 256) by (nonlinear_arith)
        requires
            0 <= a < 0x1_0000_0000,
    {}
    assert(a / 16777216 >= 0) by (nonlinear_arith)
        requires
            a >= 0,
    {}
}

/// The bytes one input tile is written as: a tag, then the spawn digit or
/// the item character's scalar value.
pub open spec fn tile_bytes(t: InputTile) -> Seq<u8> {
    match t {
        InputTile::Open => seq![0u8],
        InputTile::Wall => seq![1u8],
        InputTile::Spawn(id) => seq![2u8, id],
        InputTile::Item(c) => seq![3u8] + le32(c as u32),
    }
}

/// The bytes a tile list is written as: each tile's bytes in order.
pub open spec fn tiles_bytes(tiles: Seq<InputTile>) -> Seq<u8>
    decreases tiles.len(),
{
    if tiles.len() == 0 {
        Seq::empty()
    } else {
        tile_bytes(tiles[0]) + tiles_bytes(tiles.drop_first())
    }
}

/// Writing a tile list then one more tile appends that tile's bytes.
proof fn lemma_tiles_bytes_push(tiles: Seq<InputTile>, t: InputTile)
    ensures
        tiles_bytes(tiles.push(t)) == tiles_bytes(tiles) + tile_bytes(t),
    decreases tiles.len(),
{
    if tiles.len() == 0 {
        let one = tiles.push(t);
        assert(one.drop_first() =~= tiles);
        assert(one[0] == t);
        assert(tiles_bytes(one) == tile_bytes(t) + tiles_bytes(tiles));
        assert(tile_bytes(t) + tiles_bytes(tiles) =~= tile_bytes(t));
        assert(tiles_bytes(tiles) + tile_bytes(t) =~= tile_bytes(t));
    } else {
        assert(tiles.push(t).drop_first() =~= tiles.drop_first().push(t));
        lemma_tiles_bytes_push(tiles.drop_first(), t);
        assert(tile_bytes(tiles[0]) + (tiles_bytes(tiles.drop_first()) + tile_bytes(t)) =~= (
        tile_bytes(tiles[0]) + tiles_bytes(tiles.drop_first())) + tile_bytes(t));
    }
}

/// Whether a 32-bit value is a Unicode scalar value, so that a character can
/// carry it.
pub open spec fn is_scalar_value(v: int) -> bool {
    0 <= v < 0xD800 || 0xE000 <= v <= 0x10FFFF
}

/// What reading tiles from a byte stream yields, given the tiles already
/// read: each tag consumes its payload, and the stream must end exactly on a
/// tile boundary.
pub open spec fn decode_tiles(bytes: Seq<u8>, acc: Seq<InputTile>) -> Option<Seq<InputTile>>
    decreases bytes.len(),
{
    if bytes.len() == 0 {
        Some(acc)
    } else if bytes[0] == 0 {
        decode_tiles(bytes.drop_first(), acc.push(InputTile::Open))
    } else if bytes[0] == 1 {
        decode_tiles(bytes.drop_first(), acc.push(InputTile::Wall))
    } else if bytes[0] == 2 {
        if bytes.len() < 2 {
            None
        } else {
            decode_tiles(bytes.skip(2), acc.push(InputTile::Spawn(bytes[1])))
        }
    } else if bytes[0] == 3 {
        if bytes.len() < 5 {
            None
        } else {
            let v = le32_val(bytes[1], bytes[2], bytes[3], bytes[4]);
            if is_scalar_value(v) {
                decode_tiles(bytes.skip(5), acc.push(InputTile::Item((v as u32) as char)))
            } else {
                None
            }
        }
    } else {
        None
    }
}

/// The bytes a parsed map is written as: width, height, then the tiles.
pub open spec fn encode_triple(width: u32, height: u32, tiles: Seq<InputTile>) -> Seq<u8> {
    le32(width) + le32(height) + tiles_bytes(tiles)
}

/// What reading a whole byte stream yields: the dimensions, then the tiles,
/// or nothing when the stream is malformed.
pub open spec fn decode_triple(bytes: Seq<u8>) -> Option<(u32, u32, Seq<InputTile>)> {
    if bytes.len() < 8 {
        None
    } else {
        let w = le32_val(bytes[0], bytes[1], bytes[2], bytes[3]);
        let h = le32_val(bytes[4], bytes[5], bytes[6], bytes[7]);
        match decode_tiles(bytes.skip(8), Seq::empty()) {
            Some(tiles) => Some((w as u32, h as u32, tiles)),
            None => None,
        }
    }
}

/// Reading back an encoded tile list yields the tiles already read followed
/// by the encoded ones.
proof fn lemma_decode_encoded_tiles(tiles: Seq<InputTile>, acc: Seq<InputTile>)
    ensures
        decode_tiles(tiles_bytes(tiles), acc) == Some(acc + tiles),
    decreases tiles.len(),
{
    if tiles.len() == 0 {
        assert(acc + tiles =~= acc);
    } else {
        let head = tiles[0];
        let rest = tiles.drop_first();
        let bytes = tiles_bytes(tiles);
        assert(bytes == tile_bytes(head) + tiles_bytes(rest));
        match head {
            InputTile::Open => {
                assert(bytes[0] == 0);
                assert(bytes.drop_first() =~= tiles_bytes(rest));
            },
            InputTile::Wall => {
                assert(bytes[0] == 1);
                assert(bytes.drop_first() =~= tiles_bytes(rest));
            },
            InputTile::Spawn(id) => {
                assert(bytes[0] == 2);
                assert(bytes[1] == id);
                assert(bytes.skip(2) =~= tiles_bytes(rest));
            },
            InputTile::Item(c) => {
                assert(bytes[0] == 3);
                lemma_le32_round_trip(c as u32);
                assert(bytes[1] == le32(c as u32)[0]);
                assert(bytes[2] == le32(c as u32)[1]);
                assert(bytes[3] == le32(c as u32)[2]);
                assert(bytes[4] == le32(c as u32)[3]);
                assert(le32_val(bytes[1], bytes[2], bytes[3], bytes[4]) == c as u32);
                vstd::utf8::char_is_scalar(c);
                assert(is_scalar_value(c as u32 as int));
                vstd::utf8::char_u32_cast(c, c as u32);
                assert(bytes.skip(5) =~= tiles_bytes(rest));
            },
        }
        lemma_decode_encoded_tiles(rest, acc.push(head));
        assert(acc.push(head) + rest =~= acc + tiles);
    }
}

/// Reading back an encoded map yields the dimensions and tiles that were
/// written.
pub proof fn lemma_codec_round_trip(width: u32, height: u32, tiles: Seq<InputTile>)
    ensures
        decode_triple(encode_triple(width, height, tiles)) == Some((width, height, tiles)),
{
    let bytes = encode_triple(width, height, tiles);
    lemma_le32_round_trip(width);
    lemma_le32_round_trip(height);
    assert(bytes.len() >= 8);
    assert forall|k: int| 0 <= k < 4 implies bytes[k] == le32(width)[k] by {}
    assert forall|k: int| 0 <= k < 4 implies bytes[4 + k] == le32(height)[k] by {}
    assert(bytes.skip(8) =~= tiles_bytes(tiles));
    lemma_decode_encoded_tiles(tiles, Seq::empty());
    assert(Seq::<InputTile>::empty() + tiles =~= tiles);
}

/// What encoding a map text yields: the text parsed into its raw triple,
/// written as bytes.
pub open spec fn spec_parse_encode(s: Seq<char>) -> Result<Seq<u8>, Error> {
    match spec_parse_text_input(s) {
        Ok((w, h, tiles)) => Ok(encode_triple(w, h, tiles)),
        Err(e) => Err(e),
    }
}

/// What decoding bytes back into a running tilemap yields: malformed bytes
/// are bad map data; a well-formed triple is resolved as parsed text is.
pub open spec fn spec_decode_parse(bytes: Seq<u8>) -> Result<MapModel, Error> {
    match decode_triple(bytes) {
        Some((w, h, tiles)) => parse_input_spec(w, h, tiles),
        None => Err(Error::BadMapData),
    }
}

/// Round-trip law: when a map text encodes successfully, decoding those
/// bytes and resolving them yields exactly what parsing the text directly
/// yields; and encoding fails exactly on the texts whose parse fails, with
/// the same error.
pub proof fn lemma_encode_decode_round_trip(text: Seq<char>)
    ensures
        match spec_parse_encode(text) {
            Ok(bytes) => spec_decode_parse(bytes) == spec_parse_text_map(text),
            Err(e) => spec_parse_text_map(text) == Err::<MapModel, Error>(e),
        },
{
    match spec_parse_text_input(text) {
        Ok((w, h, tiles)) => {
            lemma_codec_round_trip(w, h, tiles);
        },
        Err(_) => {},
    }
}

/// Relies on char::from_u32: it returns the character with the given scalar
/// value when the value is a Unicode scalar value (not a surrogate, at most
/// 0x10FFFF), and nothing otherwise.
#[verifier::external_body]
fn char_from_u32(v: u32) -> (r: Option<char>)
    ensures
        match r {
            Some(c) => c as u32 == v,
            None => !is_scalar_value(v as int),
        },
{
    char::from_u32(v)
}

/// Appends the four little-endian bytes of a 32-bit value.
fn push_le32(out: &mut Vec<u8>, v: u32)
    ensures
        final(out)@ == old(out)@ + le32(v),
{
    proof {
        assert(v as int / 16777216 < 256) by (nonlinear_arith)
            requires
                v < 0x1_0000_0000,
        {}
    }
    out.push((v % 256) as u8);
    out.push((v / 256 % 256) as u8);
    out.push((v / 65536 % 256) as u8);
    out.push((v / 16777216) as u8);
    proof {
        assert(out@ =~= old(out)@ + le32(v));
    }
}

/// Writes a parsed map as bytes: width, height, then one record per tile.
pub fn encode_input(width: u32, height: u32, tiles: &Vec<InputTile>) -> (r: Vec<u8>)
    ensures
        r@ == encode_triple(width, height, tiles@),
{
    let mut out: Vec<u8> = Vec::new();
    push_le32(&mut out, width);
    push_le32(&mut out, height);
    proof {
        assert(out@ =~= le32(width) + le32(height) + tiles_bytes(tiles@.take(0)));
    }
    let n = tiles.len();
    let mut i: usize = 0;
    while i < n
        invariant
            0 <= i <= n,
            n == tiles@.len(),
            out@ == le32(width) + le32(height) + tiles_bytes(tiles@.take(i as int)),
        decreases n - i,
    {
        let ghost pre = tiles@.take(i as int);
        match tiles[i] {
            InputTile::Open => out.push(0),
            InputTile::Wall => out.push(1),
            InputTile::Spawn(id) => {
                out.push(2);
                out.push(id);
            },
            InputTile::Item(c) => {
                out.push(3);
                push_le32(&mut out, c as u32);
            },
        }
        proof {
            assert(tiles@.take(i + 1).drop_last() =~= pre);
            assert(tiles@.take(i + 1) =~= pre.push(tiles@[i as int]));
            lemma_tiles_bytes_push(pre, tiles@[i as int]);
            assert(out@ =~= le32(width) + le32(height) + tiles_bytes(tiles@.take(i + 1)));
        }
        i = i + 1;
    }
    proof {
        assert(tiles@.take(n as int) =~= tiles@);
    }
    out
}

/// Reads bytes back into the raw map triple; any malformed stream is bad
/// map data.
pub fn decode_input(bytes: &Vec<u8>) -> (r: Result<(u32, u32, Vec<InputTile>), Error>)
    ensures
        match (r, decode_triple(bytes@)) {
            (Ok(t), Some(expected)) => t.0 == expected.0 && t.1 == expected.1 && t.2@
                == expected.2,
            (Err(e), None) => e == Error::BadMapData,
            _ => false,
        },
{
    let n = bytes.len();
    if n < 8 {
        return Err(Error::BadMapData);
    }
    let w = read_le32(bytes, 0);
    let h = read_le32(bytes, 4);
    proof {
        assert(w == le32_val(bytes@[0], bytes@[1], bytes@[2], bytes@[3]) as u32);
        assert(h == le32_val(bytes@[4], bytes@[5], bytes@[6], bytes@[7]) as u32);
    }
    let mut tiles: Vec<InputTile> = Vec::new();
    let mut i: usize = 8;
    while i < n
        invariant
            8 <= i <= n,
            n == bytes@.len(),
            decode_tiles(bytes@.skip(8), Seq::empty()) == decode_tiles(
                bytes@.skip(i as int),
                tiles@,
            ),
        decreases n - i,
    {
        let ghost before = bytes@.skip(i as int);
        let tag = bytes[i];
        if tag == 0 {
            tiles.push(InputTile::Open);
            proof {
                assert(before.drop_first() =~= bytes@.skip(i + 1));
            }
            i = i + 1;
        } else if tag == 1 {
            tiles.push(InputTile::Wall);
            proof {
                assert(before.drop_first() =~= bytes@.skip(i + 1));
            }
            i = i + 1;
        } else if tag == 2 {
            if n - i < 2 {
                return Err(Error::BadMapData);
            }
            tiles.push(InputTile::Spawn(bytes[i + 1]));
            proof {
                assert(before.skip(2) =~= bytes@.skip(i + 2));
                assert(before[1] == bytes@[i + 1]);
            }
            i = i + 2;
        } else if tag == 3 {
            if n - i < 5 {
                return Err(Error::BadMapData);
            }
            let v = read_le32(bytes, i + 1);
            proof {
                assert(before[1] == bytes@[i + 1]);
                assert(before[2] == bytes@[i + 2]);
                assert(before[3] == bytes@[i + 3]);
                assert(before[4] == bytes@[i + 4]);
            }
            match char_from_u32(v) {
                Some(c) => {
                    tiles.push(InputTile::Item(c));
                    proof {
                        let w = le32_val(before[1], before[2], before[3], before[4]);
                        assert(w == c as u32);
                        vstd::utf8::char_is_scalar(c);
                        assert(is_scalar_value(w));
                        vstd::utf8::char_u32_cast(c, c as u32);
                        assert((w as u32) as char == c);
                        assert(before.skip(5) =~= bytes@.skip(i + 5));
                    }
                    i = i + 5;
                },
                None => {
                    return Err(Error::BadMapData);
                },
            }
        } else {
            return Err(Error::BadMapData);
        }
    }
    proof {
        assert(bytes@.skip(n as int) =~= Seq::<u8>::empty());
    }
    Ok((w, h, tiles))
}

/// Reads the four little-endian bytes at `at` as a 32-bit value.
fn read_le32(bytes: &Vec<u8>, at: usize) -> (r: u32)
    requires
        at + 4 <= bytes@.len(),
    ensures
        r == le32_val(bytes@[at as int], bytes@[at + 1], bytes@[at + 2], bytes@[at + 3]) as u32,
        r == le32_val(bytes@[at as int], bytes@[at + 1], bytes@[at + 2], bytes@[at + 3]),
{
    let _n: usize = bytes.len();
    (bytes[at] as u32) + (bytes[at + 1] as u32) * 256 + (bytes[at + 2] as u32) * 65536 + (bytes[at
        + 3] as u32) * 16777216
}

impl Tilemap {
    /// Parses a map text and writes its raw triple as bytes, so that a level
    /// can be stored and reloaded without reparsing the text.
    pub fn parse_encode(text: &str) -> (r: Result<Vec<u8>, Error>)
        ensures
            match (r, spec_parse_encode(text@)) {
                (Ok(bytes), Ok(expected)) => bytes@ == expected,
                (Err(e), Err(expected)) => e == expected,
                _ => false,
            },
    {
        let (width, height, tiles) = match Self::parse_text_map_input(text) {
            Ok(t) => t,
            Err(e) => {
                return Err(e);
            },
        };
        Ok(encode_input(width, height, &tiles))
    }

    /// Reads an encoded map back and resolves it into a running tilemap,
    /// exactly as parsing the text it was encoded from would.
    pub fn decode_parse(bytes: &Vec<u8>) -> (r: Result<Tilemap, Error>)
        ensures
            match (r, spec_decode_parse(bytes@)) {
                (Ok(m), Ok(model)) => m@ == model && m.wf(),
                (Err(e), Err(expected)) => e == expected,
                _ => false,
            },
    {
        let (width, height, tiles) = match decode_input(bytes) {
            Ok(t) => t,
            Err(_) => {
                return Err(Error::BadMapData);
            },
        };
        Self::parse_input(width, height, &tiles)
    }
}

} // verus!
