//! The map: a grid of tiles, stored row by row.

use crate::dungeon::item::Item;
use vstd::prelude::*;

verus! {

/// The number of tiles in a row.
pub const MAP_WIDTH: usize = 32;

/// The number of rows.
pub const MAP_HEIGHT: usize = 32;

/// What a tile is.
#[derive(Debug, Clone, Copy, PartialEq, Eq, Structural)]
pub enum TileType {
    /// A wall, which nobody can enter.
    Wall,
    /// Floor, with the item that lies on it, if any.
    Floor(Option<Item>),
}

/// The tiles of the dungeon.
#[derive(Debug)]
pub struct TileMap {
    /// The tiles, row by row.
    pub tiles: Vec<TileType>,
}

/// The place in the row-by-row order of the tile in column `x` of row `y`.
pub open spec fn tile_index(x: int, y: int) -> int {
    y * MAP_WIDTH + x
}

/// The tile in column `x` of row `y`, if the map reaches that far.
pub open spec fn tile_at(tiles: Seq<TileType>, x: int, y: int) -> Option<TileType> {
    if 0 <= tile_index(x, y) < tiles.len() {
        Some(tiles[tile_index(x, y)])
    } else {
        None
    }
}

/// Whether a player can stand in column `x` of row `y`: on floor, whatever
/// lies on it.
pub open spec fn can_enter(tiles: Seq<TileType>, x: int, y: int) -> bool {
    tile_at(tiles, x, y) matches Some(TileType::Floor(_))
}

/// The tiles after the item in column `x` of row `y`, if one lies there, has
/// been taken away.
pub open spec fn without_item(tiles: Seq<TileType>, x: int, y: int) -> Seq<TileType> {
    match tile_at(tiles, x, y) {
        Some(TileType::Floor(Some(_))) => tiles.update(tile_index(x, y), TileType::Floor(None)),
        _ => tiles,
    }
}

/// The tiles after `item` has been laid in column `x` of row `y`, if that is
/// empty floor.
pub open spec fn with_item(tiles: Seq<TileType>, x: int, y: int, item: Item) -> Seq<TileType> {
    match tile_at(tiles, x, y) {
        Some(TileType::Floor(None)) => tiles.update(
            tile_index(x, y),
            TileType::Floor(Some(item)),
        ),
        _ => tiles,
    }
}

/// The tile that a new map has at `index`: a wall in the first corner, a
/// sword and a potion on the floor, and empty floor everywhere else.
pub open spec fn initial_tile(index: int) -> TileType {
    if index == 0 {
        TileType::Wall
    } else if index == 48 {
        TileType::Floor(Some(Item::Sword))
    } else if index == 970 {
        TileType::Floor(Some(Item::Potion))
    } else {
        TileType::Floor(None)
    }
}

/// The place in the row-by-row order of the tile in column `x` of row `y`.
pub fn map_idx(x: usize, y: usize) -> (index: usize)
    requires
        tile_index(x as int, y as int) <= usize::MAX,
    ensures
        index == tile_index(x as int, y as int),
{
    (y * MAP_WIDTH) + x
}

impl View for TileMap {
    type V = Seq<TileType>;

    open spec fn view(&self) -> Seq<TileType> {
        self.tiles@
    }
}

impl TileMap {
    /// The map at the beginning of the game.
    pub fn new() -> (map: Self)
        ensures
            map@.len() == MAP_WIDTH * MAP_HEIGHT,
            forall|i: int| 0 <= i < map@.len() ==> map@[i] == initial_tile(i),
    {
        let mut map = vec![TileType::Floor(None); 1024];
        map.set(0, TileType::Wall);
        map.set(48, TileType::Floor(Some(Item::Sword)));
        map.set(970, TileType::Floor(Some(Item::Potion)));
        Self { tiles: map }
    }

    /// The sword that the game begins with.
    pub fn get_sword(self) -> (item: Item)
        ensures
            item == Item::Sword,
    {
        Item::Sword
    }

    /// The potion that the game begins with.
    pub fn get_potion() -> (item: Item)
        ensures
            item == Item::Potion,
    {
        Item::Potion
    }

    /// The tile in column `x` of row `y`, if the map reaches that far.
    pub fn get_tile(&self, x: usize, y: usize) -> (tile: Option<TileType>)
        ensures
            tile == tile_at(self@, x as int, y as int),
    {
        match self.index_of(x, y) {
            Some(index) => Some(self.tiles[index]),
            None => None,
        }
    }

    /// The place of the tile in column `x` of row `y` among the tiles, if
    /// the map reaches that far.
    pub fn index_of(&self, x: usize, y: usize) -> (found: Option<usize>)
        ensures
            match found {
                Some(index) => index == tile_index(x as int, y as int) && index < self@.len(),
                None => tile_index(x as int, y as int) >= self@.len(),
            },
    {
        let len = self.tiles.len();
        if y > (usize::MAX - x) / MAP_WIDTH {
            assert(tile_index(x as int, y as int) > usize::MAX);
            return None;
        }
        let index = map_idx(x, y);
        if index < len {
            Some(index)
        } else {
            None
        }
    }

    /// Whether a player can stand in column `x` of row `y`.
    pub fn can_enter_tile(&self, x: usize, y: usize) -> (free: bool)
        ensures
            free == can_enter(self@, x as int, y as int),
    {
        match self.get_tile(x, y) {
            Some(TileType::Floor(_)) => true,
            _ => false,
        }
    }

    /// Takes away the item in column `x_pos` of row `y_pos`, if one lies
    /// there.
    pub fn remove_item(self, x_pos: usize, y_pos: usize) -> (map: Self)
        ensures
            map@ == without_item(self@, x_pos as int, y_pos as int),
    {
        match self.index_of(x_pos, y_pos) {
            Some(index) => match self.tiles[index] {
                TileType::Floor(Some(_)) => {
                    let mut tiles = self.tiles;
                    tiles.set(index, TileType::Floor(None));
                    Self { tiles }
                },
                _ => self,
            },
            None => self,
        }
    }

    /// Lays `item` in column `x_pos` of row `y_pos`, if that is empty floor.
    pub fn add_item(self, x_pos: usize, y_pos: usize, item: Item) -> (map: Self)
        ensures
            map@ == with_item(self@, x_pos as int, y_pos as int, item),
    {
        match self.index_of(x_pos, y_pos) {
            Some(index) => match self.tiles[index] {
                TileType::Floor(None) => {
                    let mut tiles = self.tiles;
                    tiles.set(index, TileType::Floor(Some(item)));
                    Self { tiles }
                },
                _ => self,
            },
            None => self,
        }
    }
}

} // verus!
