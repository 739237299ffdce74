//! The level layout grammar: a text where each line is a row of tiles and
//! each character places one tile. Rows advance on a newline; any other
//! character must be one of the tile letters.

use vstd::prelude::*;
use crate::vec2::{in_range, svec, Vec2, COORD_LIMIT};

verus! {

/// Edge length of one tile (milli-units).
pub const TILE_SIZE: i64 = 8000;

/// Largest row or column index whose tile position stays in range.
pub const TILE_LIMIT: usize = 125_000;

/// What a layout character places.
#[derive(Clone, Copy, Debug, PartialEq, Eq, Structural)]
pub enum Tiles {
    Empty,
    Wall,
    Sheep,
    Dog,
    Trap,
    Goal,
    Llama,
}

/// Why a layout failed to parse.
#[derive(Clone, Copy, Debug, PartialEq, Eq, Structural)]
pub enum LayoutError {
    /// A character that is neither a tile letter nor a newline.
    InvalidCharacter,
}

/// One parsed tile with its grid position.
#[derive(Clone, Copy, Debug, PartialEq, Eq, Structural)]
pub struct PlacedTile {
    /// Grid row (advanced by newlines).
    pub row: usize,
    /// Grid column within the row.
    pub col: usize,
    /// The tile placed there.
    pub tile: Tiles,
}

/// The tile a layout byte places, if it places one ('\n' places none).
pub open spec fn tile_of(b: u8) -> Option<Tiles> {
    if b == 76 {  // 'L'
        Option::Some(Tiles::Llama)
    } else if b == 71 {  // 'G'
        Option::Some(Tiles::Goal)
    } else if b == 84 {  // 'T'
        Option::Some(Tiles::Trap)
    } else if b == 83 {  // 'S'
        Option::Some(Tiles::Sheep)
    } else if b == 68 {  // 'D'
        Option::Some(Tiles::Dog)
    } else if b == 35 {  // '#'
        Option::Some(Tiles::Wall)
    } else if b == 45 {  // '-'
        Option::Some(Tiles::Empty)
    } else {
        Option::None
    }
}

/// The tiles placed by the layout from byte `i` on, starting at grid
/// position `(row, col)`; `None` on the first invalid character.
pub open spec fn parse_from(s: Seq<u8>, i: int, row: int, col: int) -> Option<Seq<PlacedTile>>
    decreases s.len() - i,
{
    if i < 0 || i >= s.len() {
        Option::Some(Seq::empty())
    } else if s[i] == 10 {  // '\n'
        parse_from(s, i + 1, row + 1, 0)
    } else {
        match tile_of(s[i]) {
            Option::None => Option::None,
            Option::Some(t) => {
                match parse_from(s, i + 1, row, col + 1) {
                    Option::None => Option::None,
                    Option::Some(rest) => Option::Some(
                        seq![PlacedTile { row: row as usize, col: col as usize, tile: t }] + rest,
                    ),
                }
            },
        }
    }
}

/// Parse a whole layout text into its placed tiles.
pub fn parse_layout(bytes: &Vec<u8>) -> (r: Result<Vec<PlacedTile>, LayoutError>)
    ensures
        (r matches Ok(v) ==> parse_from(bytes@, 0, 0, 0) == Option::Some(v@)),
        (r matches Err(e) ==> parse_from(bytes@, 0, 0, 0) is None
            && e == LayoutError::InvalidCharacter),
{
    let mut out: Vec<PlacedTile> = Vec::new();
    let mut i: usize = 0;
    let mut row: usize = 0;
    let mut col: usize = 0;
    while i < bytes.len()
        invariant
            i <= bytes@.len(),
            row <= i,
            col <= i,
            out@.len() <= i,
            parse_from(bytes@, 0, 0, 0) == (match parse_from(
                bytes@,
                i as int,
                row as int,
                col as int,
            ) {
                Option::Some(rest) => Option::Some(out@ + rest),
                Option::None => Option::<Seq<PlacedTile>>::None,
            }),
        decreases bytes@.len() - i,
    {
        let b = bytes[i];
        if b == 10 {
            row = row + 1;
            col = 0;
        } else {
            let tile = if b == 76 {
                Tiles::Llama
            } else if b == 71 {
                Tiles::Goal
            } else if b == 84 {
                Tiles::Trap
            } else if b == 83 {
                Tiles::Sheep
            } else if b == 68 {
                Tiles::Dog
            } else if b == 35 {
                Tiles::Wall
            } else if b == 45 {
                Tiles::Empty
            } else {
                return Result::Err(LayoutError::InvalidCharacter);
            };
            let pt = PlacedTile { row, col, tile };
            let ghost rest_before = parse_from(bytes@, i as int, row as int, col as int);
            out.push(pt);
            proof {
                let rest_after = parse_from(bytes@, i + 1, row as int, col + 1);
                if rest_after is Some {
                    assert(out@ + rest_after->Some_0 =~= out@.drop_last() + (seq![pt]
                        + rest_after->Some_0));
                }
            }
            col = col + 1;
        }
        i = i + 1;
    }
    proof {
        assert(out@ + Seq::<PlacedTile>::empty() =~= out@);
    }
    Result::Ok(out)
}

/// The grid sum a tile's position contributes, used to find the layout's
/// extent.
pub open spec fn tile_span(t: PlacedTile) -> int {
    t.row + t.col
}

/// The tile that marks the layout's extent: the last one with the
/// greatest row-plus-column sum, or nothing for an empty layout.
pub fn layout_size(tiles: &Vec<PlacedTile>) -> (r: Option<PlacedTile>)
    ensures
        (r is None <==> tiles@.len() == 0),
        (r matches Option::Some(t) ==> exists|i: int|
            0 <= i < tiles@.len() && tiles@[i] == t && (forall|j: int|
                0 <= j < tiles@.len() ==> tile_span(#[trigger] tiles@[j]) <= tile_span(t)) && (
            forall|j: int| i < j < tiles@.len() ==> tile_span(#[trigger] tiles@[j]) < tile_span(t))),
{
    if tiles.len() == 0 {
        return Option::None;
    }
    let mut best: PlacedTile = tiles[0];
    let ghost mut bidx: int = 0;
    let mut j: usize = 1;
    while j < tiles.len()
        invariant
            1 <= j <= tiles@.len(),
            0 <= bidx < j,
            best == tiles@[bidx],
            forall|m: int| 0 <= m < j ==> tile_span(#[trigger] tiles@[m]) <= tile_span(best),
            forall|m: int| bidx < m < j ==> tile_span(#[trigger] tiles@[m]) < tile_span(best),
        decreases tiles@.len() - j,
    {
        let t = tiles[j];
        if (t.row as u128) + (t.col as u128) >= (best.row as u128) + (best.col as u128) {
            best = t;
            proof {
                bidx = j as int;
            }
        }
        j = j + 1;
    }
    Option::Some(best)
}

/// The world position of a tile's grid cell.
pub fn tile_position(row: usize, col: usize) -> (r: Vec2)
    requires
        row <= TILE_LIMIT,
        col <= TILE_LIMIT,
    ensures
        r == svec(row * TILE_SIZE, col * TILE_SIZE),
        in_range(r),
{
    Vec2 { x: (row as i64) * TILE_SIZE, y: (col as i64) * TILE_SIZE }
}

} // verus!
