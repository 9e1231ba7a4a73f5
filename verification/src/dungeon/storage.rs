//! How the game is laid out in the store behind the host: the paths of a
//! player's fields and of the map, and the bytes that numbers, items and
//! tiles are stored as.

use crate::bytes::{be_bytes, be_value, u64_from_be_bytes, u64_to_be_bytes};
use crate::database::tree::{tree_read, tree_write, Tree};
use crate::database::Database;
use crate::dungeon::item::Item;
use crate::dungeon::map::TileType;
use crate::foreign::{is_storage_path, valid_storage_path, PATH_MAX_SIZE};
use crate::host::{path_text, read_window, write_window, HostError, NativeHost, RuntimeError};
use vstd::prelude::*;
use vstd::string::*;
use vstd::utf8::{encode_utf8, encode_utf8_valid_utf8, valid_utf8, valid_utf8_concat};

verus! {

/// The path of the field `field` of the player at `address`: `/players`,
/// the address, and the field, each behind a separator.
pub open spec fn player_path(address: Seq<char>, field: Seq<char>) -> Seq<u8> {
    encode_utf8("/players"@) + encode_utf8("/"@) + encode_utf8(address) + encode_utf8(field)
}

/// The path of the map.
pub open spec fn map_path() -> Seq<u8> {
    encode_utf8("/state/map"@)
}

/// Whether `address` can name a player: behind a separator it is a storage
/// path, and it leaves room for the longest suffix that is put behind it.
pub open spec fn valid_address(address: Seq<char>) -> bool {
    &&& valid_storage_path(encode_utf8("/"@) + encode_utf8(address))
    &&& encode_utf8(address).len() + 23 <= PATH_MAX_SIZE
}

/// `path` with the bytes of `text` behind it.
pub fn with_text(path: Vec<u8>, text: &str) -> (longer: Vec<u8>)
    ensures
        longer@ == path@ + encode_utf8(text@),
        valid_utf8(path@) ==> valid_utf8(longer@),
{
    let mut longer = path;
    let bytes = text.as_bytes();
    let mut i: usize = 0;
    while i < bytes.len()
        invariant
            i <= bytes@.len(),
            bytes@ == encode_utf8(text@),
            longer@ == path@ + bytes@.take(i as int),
        decreases bytes.len() - i,
    {
        longer.push(bytes[i]);
        assert(longer@ =~= path@ + bytes@.take(i + 1));
        i += 1;
    }
    proof {
        assert(bytes@.take(bytes@.len() as int) =~= bytes@);
        encode_utf8_valid_utf8(text@);
        if valid_utf8(path@) {
            valid_utf8_concat(path@, encode_utf8(text@));
        }
    }
    longer
}

/// Whether `address` can name a player.
pub fn is_valid_address(address: &str) -> (valid: bool)
    ensures
        valid == valid_address(address@),
{
    let rooted = with_text(with_text(Vec::new(), "/"), address);
    assert(rooted@ =~= encode_utf8("/"@) + encode_utf8(address@));
    address.as_bytes().len() <= PATH_MAX_SIZE - 23 && is_storage_path(rooted.as_slice())
}

/// The path of the field `field` of the player at `player_address`.
pub fn player_field(player_address: &str, field: &str) -> (path: Vec<u8>)
    ensures
        path@ == player_path(player_address@, field@),
        valid_utf8(path@),
{
    with_text(with_text(with_text(with_text(Vec::new(), "/players"), "/"), player_address), field)
}

/// The path of the player at `player_address`.
pub fn player_key(player_address: &str) -> (path: Vec<u8>)
    ensures
        path@ == player_path(player_address@, ""@),
        valid_utf8(path@),
{
    player_field(player_address, "")
}

/// The path of the column of the player at `player_address`.
pub fn player_x_pos(player_address: &str) -> (path: Vec<u8>)
    ensures
        path@ == player_path(player_address@, "/x_pos"@),
        valid_utf8(path@),
{
    player_field(player_address, "/x_pos")
}

/// The path of the row of the player at `player_address`.
pub fn player_y_pos(player_address: &str) -> (path: Vec<u8>)
    ensures
        path@ == player_path(player_address@, "/y_pos"@),
        valid_utf8(path@),
{
    player_field(player_address, "/y_pos")
}

/// The path of the inventory of the player at `player_address`.
pub fn player_inventory(player_address: &str) -> (path: Vec<u8>)
    ensures
        path@ == player_path(player_address@, "/inventory"@),
        valid_utf8(path@),
{
    player_field(player_address, "/inventory")
}

/// The number that the store holds at `path`: what the first eight bytes of
/// the value spell, provided that the value has that many and the number
/// fits the machine.
pub open spec fn number_at(tree: Tree, path: Seq<u8>) -> Result<usize, RuntimeError> {
    match tree_read(tree, path_text(path)) {
        None => Err(RuntimeError::HostErr(HostError::StoreNotANode)),
        Some(value) => if value.len() >= 8 && be_value(value.take(8)) <= usize::MAX {
            Ok(be_value(value.take(8)) as usize)
        } else {
            Err(RuntimeError::DecodingError)
        },
    }
}

/// The byte that stands for an item.
pub open spec fn item_byte(item: Item) -> u8 {
    match item {
        Item::Sword => 0x01,
        Item::Potion => 0x02,
    }
}

/// The bytes that stand for a list of items.
pub open spec fn item_bytes(items: Seq<Item>) -> Seq<u8> {
    items.map_values(|item: Item| item_byte(item))
}

/// The items that bytes stand for; a byte that stands for none is passed
/// over.
pub open spec fn items_of(bytes: Seq<u8>) -> Seq<Item>
    decreases bytes.len(),
{
    if bytes.len() == 0 {
        seq![]
    } else if bytes.last() == 0x01 {
        items_of(bytes.drop_last()).push(Item::Sword)
    } else if bytes.last() == 0x02 {
        items_of(bytes.drop_last()).push(Item::Potion)
    } else {
        items_of(bytes.drop_last())
    }
}

/// Reads the number stored at `path`.
pub fn read_number<D: Database>(host: &NativeHost<D>, path: &[u8]) -> (res: Result<
    usize,
    RuntimeError,
>)
    requires
        host.wf(),
        valid_utf8(path@),
    ensures
        host.never_fails() ==> res == number_at(host.tree(), path@),
        res is Ok ==> res == number_at(host.tree(), path@),
{
    let bytes = host.store_read(path, 0, 8)?;
    if bytes.len() != 8 {
        return Err(RuntimeError::DecodingError);
    }
    let ghost value = tree_read(host.tree(), path_text(path@))->Some_0;
    assert(read_window(value, 0, 8) =~= value.take(8));
    let number = u64_from_be_bytes(bytes.as_slice());
    if number > usize::MAX as u64 {
        return Err(RuntimeError::DecodingError);
    }
    Ok(number as usize)
}

/// Stores `number` at `path` as eight big-endian bytes.
pub fn write_number<D: Database>(host: &mut NativeHost<D>, path: &[u8], number: usize) -> (res:
    Result<(), RuntimeError>)
    requires
        old(host).wf(),
        valid_utf8(path@),
    ensures
        final(host).wf(),
        final(host).same_inbox(old(host)),
        old(host).never_fails() ==> res is Ok,
        res is Ok ==> final(host).tree() == tree_write(
            old(host).tree(),
            path_text(path@),
            be_bytes(number as nat, 8),
        ),
{
    let bytes = u64_to_be_bytes(number as u64);
    assert(write_window(bytes@, 0) =~= bytes@);
    host.store_write(path, bytes.as_slice(), 0)
}

/// The items that `bytes` stand for.
pub fn decode_items(bytes: &[u8]) -> (items: Vec<Item>)
    ensures
        items@ == items_of(bytes@),
{
    let mut items: Vec<Item> = Vec::new();
    let mut i: usize = 0;
    while i < bytes.len()
        invariant
            i <= bytes@.len(),
            items@ == items_of(bytes@.take(i as int)),
        decreases bytes.len() - i,
    {
        assert(bytes@.take(i + 1).drop_last() =~= bytes@.take(i as int));
        if bytes[i] == 0x01 {
            items.push(Item::Sword);
        } else if bytes[i] == 0x02 {
            items.push(Item::Potion);
        }
        i += 1;
    }
    assert(bytes@.take(bytes@.len() as int) =~= bytes@);
    items
}

/// The bytes that stand for `items`.
pub fn encode_items(items: &Vec<Item>) -> (bytes: Vec<u8>)
    ensures
        bytes@ == item_bytes(items@),
{
    let mut bytes: Vec<u8> = Vec::new();
    let mut i: usize = 0;
    while i < items.len()
        invariant
            i <= items@.len(),
            bytes@ == item_bytes(items@).take(i as int),
        decreases items.len() - i,
    {
        let byte: u8 = match items[i] {
            Item::Sword => 0x01,
            Item::Potion => 0x02,
        };
        bytes.push(byte);
        assert(bytes@ =~= item_bytes(items@).take(i + 1));
        i += 1;
    }
    assert(item_bytes(items@).take(items@.len() as int) =~= item_bytes(items@));
    bytes
}

/// The byte that stands for a tile.
pub open spec fn tile_byte(tile: TileType) -> u8 {
    match tile {
        TileType::Floor(Some(Item::Sword)) => 0x01,
        TileType::Floor(Some(Item::Potion)) => 0x02,
        TileType::Floor(None) => 0x03,
        TileType::Wall => 0x04,
    }
}

/// The bytes that stand for the tiles of a map.
pub open spec fn tile_bytes(tiles: Seq<TileType>) -> Seq<u8> {
    tiles.map_values(|tile: TileType| tile_byte(tile))
}

/// The tiles that bytes stand for; a byte that stands for none is passed
/// over.
pub open spec fn tiles_of(bytes: Seq<u8>) -> Seq<TileType>
    decreases bytes.len(),
{
    if bytes.len() == 0 {
        seq![]
    } else if bytes.last() == 0x01 {
        tiles_of(bytes.drop_last()).push(TileType::Floor(Some(Item::Sword)))
    } else if bytes.last() == 0x02 {
        tiles_of(bytes.drop_last()).push(TileType::Floor(Some(Item::Potion)))
    } else if bytes.last() == 0x03 {
        tiles_of(bytes.drop_last()).push(TileType::Floor(None))
    } else if bytes.last() == 0x04 {
        tiles_of(bytes.drop_last()).push(TileType::Wall)
    } else {
        tiles_of(bytes.drop_last())
    }
}

/// The bytes of the path of the map.
pub fn map_key() -> (path: Vec<u8>)
    ensures
        path@ == map_path(),
        valid_utf8(path@),
{
    let path = with_text(Vec::new(), "/state/map");
    assert(path@ =~= map_path());
    path
}

/// The tiles that `bytes` stand for.
pub fn decode_tiles(bytes: &[u8]) -> (tiles: Vec<TileType>)
    ensures
        tiles@ == tiles_of(bytes@),
{
    let mut tiles: Vec<TileType> = Vec::new();
    let mut i: usize = 0;
    while i < bytes.len()
        invariant
            i <= bytes@.len(),
            tiles@ == tiles_of(bytes@.take(i as int)),
        decreases bytes.len() - i,
    {
        assert(bytes@.take(i + 1).drop_last() =~= bytes@.take(i as int));
        if bytes[i] == 0x01 {
            tiles.push(TileType::Floor(Some(Item::Sword)));
        } else if bytes[i] == 0x02 {
            tiles.push(TileType::Floor(Some(Item::Potion)));
        } else if bytes[i] == 0x03 {
            tiles.push(TileType::Floor(None));
        } else if bytes[i] == 0x04 {
            tiles.push(TileType::Wall);
        }
        i += 1;
    }
    assert(bytes@.take(bytes@.len() as int) =~= bytes@);
    tiles
}

/// The bytes that stand for `tiles`.
pub fn encode_tiles(tiles: &Vec<TileType>) -> (bytes: Vec<u8>)
    ensures
        bytes@ == tile_bytes(tiles@),
{
    let mut bytes: Vec<u8> = Vec::new();
    let mut i: usize = 0;
    while i < tiles.len()
        invariant
            i <= tiles@.len(),
            bytes@ == tile_bytes(tiles@).take(i as int),
        decreases tiles.len() - i,
    {
        let byte: u8 = match tiles[i] {
            TileType::Floor(Some(Item::Sword)) => 0x01,
            TileType::Floor(Some(Item::Potion)) => 0x02,
            TileType::Floor(None) => 0x03,
            TileType::Wall => 0x04,
        };
        bytes.push(byte);
        assert(bytes@ =~= tile_bytes(tiles@).take(i + 1));
        i += 1;
    }
    assert(tile_bytes(tiles@).take(tiles@.len() as int) =~= tile_bytes(tiles@));
    bytes
}

/// Bytes stand for no more items than there are bytes.
pub proof fn lemma_items_of_len(bytes: Seq<u8>)
    ensures
        items_of(bytes).len() <= bytes.len(),
    decreases bytes.len(),
{
    if bytes.len() > 0 {
        lemma_items_of_len(bytes.drop_last());
    }
}

/// Bytes stand for no more tiles than there are bytes.
pub proof fn lemma_tiles_of_len(bytes: Seq<u8>)
    ensures
        tiles_of(bytes).len() <= bytes.len(),
    decreases bytes.len(),
{
    if bytes.len() > 0 {
        lemma_tiles_of_len(bytes.drop_last());
    }
}

} // verus!
