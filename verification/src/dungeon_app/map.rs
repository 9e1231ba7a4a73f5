//! The map of the game with a market place: the same tiles, laid out with
//! walls around a room in the first corner.

use crate::dungeon::item::Item;
use crate::dungeon::map::{TileMap, TileType, MAP_HEIGHT, MAP_WIDTH};
use vstd::prelude::*;

verus! {

/// Whether the tile at `index` is one of the walls: the first ten tiles of
/// the first row, the first ten of the first and of the tenth column, and
/// the tile in the sixth column of the sixth row.
pub open spec fn is_wall(index: int) -> bool {
    let x = index % 32;
    let y = index / 32;
    ||| y == 0 && x < 10
    ||| x == 0 && y < 10
    ||| x == 9 && y < 10
    ||| x == 5 && y == 5
}

/// The tile that the walled map has at `index`: the walls, a sword and a
/// potion on the floor, and empty floor everywhere else.
pub open spec fn walled_tile(index: int) -> TileType {
    if index == 48 {
        TileType::Floor(Some(Item::Sword))
    } else if index == 970 {
        TileType::Floor(Some(Item::Potion))
    } else if is_wall(index) {
        TileType::Wall
    } else {
        TileType::Floor(None)
    }
}

impl TileMap {
    /// The map at the beginning of the game with a market place.
    pub fn with_walls() -> (map: Self)
        ensures
            map@.len() == MAP_WIDTH * MAP_HEIGHT,
            forall|i: int| 0 <= i < map@.len() ==> map@[i] == walled_tile(i),
    {
        let mut map = vec![TileType::Floor(None); 1024];
        let mut x: usize = 0;
        while x < 10
            invariant
                x <= 10,
                map@.len() == 1024,
                forall|i: int|
                    0 <= i < 1024 ==> #[trigger] map@[i] == if i < x || (i == 165 && x > 0) {
                        TileType::Wall
                    } else {
                        TileType::Floor(None)
                    },
            decreases 10 - x,
        {
            map.set(x, TileType::Wall);
            map.set(5 * MAP_WIDTH + 5, TileType::Wall);
            x += 1;
        }
        let mut y: usize = 0;
        while y < 10
            invariant
                y <= 10,
                map@.len() == 1024,
                forall|i: int|
                    0 <= i < 1024 ==> #[trigger] map@[i] == if i < 10 || i == 165 || (i % 32 == 0
                        && i / 32 < y) || (i % 32 == 9 && i / 32 < y) {
                        TileType::Wall
                    } else {
                        TileType::Floor(None)
                    },
            decreases 10 - y,
        {
            map.set(y * MAP_WIDTH, TileType::Wall);
            map.set(y * MAP_WIDTH + 9, TileType::Wall);
            y += 1;
        }
        map.set(48, TileType::Floor(Some(Item::Sword)));
        map.set(970, TileType::Floor(Some(Item::Potion)));
        Self { tiles: map }
    }
}

} // verus!
