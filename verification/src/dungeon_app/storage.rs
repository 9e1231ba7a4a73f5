//! How the market game is kept in the store behind the host: the player
//! under `/players/<address>`, the map under `/state/map`, and the market
//! under `/market-place`.

use crate::bytes::{be_bytes, u64_to_be_bytes};
use crate::database::tree::{tree_delete, tree_read, tree_write, Tree};
use crate::database::Database;
use crate::dungeon::item::Item;
use crate::dungeon::map::{TileMap, TileType, MAP_HEIGHT, MAP_WIDTH};
use crate::dungeon::storage::{
    decode_items, decode_tiles, encode_items, encode_tiles, is_valid_address, item_bytes, items_of,
    map_key, map_path, number_at, player_field, player_inventory, player_key, player_path,
    player_x_pos, player_y_pos, read_number, tile_bytes, tiles_of, valid_address, with_text,
    write_number,
};
use crate::dungeon_app::map::walled_tile;
use crate::dungeon_app::market_place::{offer_views, MarketPlace, Prices};
use crate::dungeon_app::player::{Player, PlayerView, MAX_ITEMS, STARTING_GOLD};
use crate::dungeon_app::state::{State, StateView};
use crate::foreign::{
    bincode_codes_bytes, bincode_codes_parse, bincode_decode_codes, bincode_encode_codes,
    codes_view,
};
use crate::host::{
    path_text, read_window, value_type, write_window, HostError, NativeHost, RuntimeError,
    MAX_VALUE_SIZE,
};
use vstd::prelude::*;
use vstd::string::*;
use vstd::utf8::{encode_utf8, valid_utf8};

verus! {

/// The directory of an item on the market.
pub open spec fn item_dir(item: Item) -> Seq<char> {
    match item {
        Item::Sword => "/01"@,
        Item::Potion => "/02"@,
    }
}

/// The path under which the market keeps what belongs to the offer of
/// `address` for `item`, or to `address` alone where `item` is left out.
pub open spec fn market_path(address: Seq<char>, item: Seq<char>, field: Seq<char>) -> Seq<u8> {
    encode_utf8("/market-place"@) + encode_utf8("/"@) + encode_utf8(address) + encode_utf8(item)
        + encode_utf8(field)
}

/// The path of the market.
pub open spec fn market_place_path() -> Seq<u8> {
    encode_utf8("/market-place"@)
}

/// The path under which the market keeps `field` of what `player_address`
/// offers of `item`.
fn market_field(player_address: &str, item: &str, field: &str) -> (path: Vec<u8>)
    ensures
        path@ == market_path(player_address@, item@, field@),
        valid_utf8(path@),
{
    with_text(
        with_text(
            with_text(with_text(with_text(Vec::new(), "/market-place"), "/"), player_address),
            item,
        ),
        field,
    )
}

/// The path of the gold of the player at `player_address`.
pub fn player_gold(player_address: &str) -> (path: Vec<u8>)
    ensures
        path@ == player_path(player_address@, "/gold"@),
        valid_utf8(path@),
{
    player_field(player_address, "/gold")
}

/// The path under which the market keeps the offers of `player_address`.
pub fn market_place_key(player_address: &str) -> (path: Vec<u8>)
    ensures
        path@ == market_path(player_address@, ""@, ""@),
        valid_utf8(path@),
{
    market_field(player_address, "", "")
}

/// The path of the sword that `player_address` offers.
pub fn market_place_sword(player_address: &str) -> (path: Vec<u8>)
    ensures
        path@ == market_path(player_address@, "/01"@, ""@),
        valid_utf8(path@),
{
    market_field(player_address, "/01", "")
}

/// The path of the price of the sword that `player_address` offers.
pub fn market_place_value_sword(player_address: &str) -> (path: Vec<u8>)
    ensures
        path@ == market_path(player_address@, "/01"@, "/value"@),
        valid_utf8(path@),
{
    market_field(player_address, "/01", "/value")
}

/// The path of the potion that `player_address` offers.
pub fn market_place_potion(player_address: &str) -> (path: Vec<u8>)
    ensures
        path@ == market_path(player_address@, "/02"@, ""@),
        valid_utf8(path@),
{
    market_field(player_address, "/02", "")
}

/// The path of the price of the potion that `player_address` offers.
pub fn market_place_value_potion(player_address: &str) -> (path: Vec<u8>)
    ensures
        path@ == market_path(player_address@, "/02"@, "/value"@),
        valid_utf8(path@),
{
    market_field(player_address, "/02", "/value")
}

/// The player that the store holds under `address`: a new one in the middle
/// of the map while nothing is stored there, and else the one that the four
/// stored fields spell, or the error of the first field that cannot be read.
pub open spec fn player_at(tree: Tree, address: Seq<char>) -> Result<PlayerView, RuntimeError> {
    let x_pos = number_at(tree, player_path(address, "/x_pos"@));
    let y_pos = number_at(tree, player_path(address, "/y_pos"@));
    let inventory = tree_read(tree, path_text(player_path(address, "/inventory"@)));
    let gold = number_at(tree, player_path(address, "/gold"@));
    if value_type(tree, path_text(player_path(address, ""@))) is None {
        Ok(
            PlayerView {
                address,
                x_pos: MAP_WIDTH as int / 2,
                y_pos: MAP_HEIGHT as int / 2,
                inventory: seq![],
                gold: STARTING_GOLD as int,
            },
        )
    } else if x_pos is Err {
        Err(x_pos->Err_0)
    } else if y_pos is Err {
        Err(y_pos->Err_0)
    } else if inventory is None {
        Err(RuntimeError::HostErr(HostError::StoreNotANode))
    } else if gold is Err {
        Err(gold->Err_0)
    } else {
        Ok(
            PlayerView {
                address,
                x_pos: x_pos->Ok_0 as int,
                y_pos: y_pos->Ok_0 as int,
                inventory: items_of(read_window(inventory->Some_0, 0, MAX_ITEMS as int)),
                gold: gold->Ok_0 as int,
            },
        )
    }
}

/// The tree after the four fields of `player` have been stored under
/// `address`.
pub open spec fn player_stored(tree: Tree, address: Seq<char>, player: PlayerView) -> Tree {
    let with_x = tree_write(
        tree,
        path_text(player_path(address, "/x_pos"@)),
        be_bytes(player.x_pos as nat, 8),
    );
    let with_y = tree_write(
        with_x,
        path_text(player_path(address, "/y_pos"@)),
        be_bytes(player.y_pos as nat, 8),
    );
    let with_inventory = tree_write(
        with_y,
        path_text(player_path(address, "/inventory"@)),
        item_bytes(player.inventory),
    );
    tree_write(
        with_inventory,
        path_text(player_path(address, "/gold"@)),
        be_bytes(player.gold as nat, 8),
    )
}

/// Loads the player at `player_address`, who is new unless the store holds
/// something under that address. An address that cannot name a player is an
/// invalid key.
pub fn load_player<D: Database>(host: &mut NativeHost<D>, player_address: &str) -> (res: Result<
    Player,
    RuntimeError,
>)
    requires
        old(host).wf(),
    ensures
        final(host).wf(),
        final(host)@ == old(host)@,
        !valid_address(player_address@) ==> res == Err::<Player, RuntimeError>(
            RuntimeError::HostErr(HostError::StoreInvalidKey),
        ),
        valid_address(player_address@) && old(host).never_fails() ==> match res {
            Ok(player) => player_at(old(host).tree(), player_address@) == Ok::<
                PlayerView,
                RuntimeError,
            >(player@),
            Err(e) => player_at(old(host).tree(), player_address@) == Err::<
                PlayerView,
                RuntimeError,
            >(e),
        },
        valid_address(player_address@) && res is Ok ==> player_at(
            old(host).tree(),
            player_address@,
        ) == Ok::<PlayerView, RuntimeError>(res->Ok_0@),
{
    if !is_valid_address(player_address) {
        return Err(RuntimeError::HostErr(HostError::StoreInvalidKey));
    }
    let player_path = player_key(player_address);
    let player_exists = host.store_has(player_path.as_slice())?;
    match player_exists {
        Some(_) => {
            let x_pos = read_number(host, player_x_pos(player_address).as_slice())?;
            let y_pos = read_number(host, player_y_pos(player_address).as_slice())?;
            let inventory_bytes = host.store_read(
                player_inventory(player_address).as_slice(),
                0,
                MAX_ITEMS,
            )?;
            let inventory = decode_items(inventory_bytes.as_slice());
            let gold = read_number(host, player_gold(player_address).as_slice())?;
            Ok(
                Player {
                    address: String::from_str(player_address),
                    x_pos,
                    y_pos,
                    inventory,
                    gold,
                },
            )
        },
        None => Ok(Player::new(MAP_WIDTH / 2, MAP_HEIGHT / 2, String::from_str(player_address))),
    }
}

/// Stores the position, the inventory and the gold of `player` under
/// `player_address`. An address that cannot name a player is an invalid key.
pub fn update_player<D: Database>(
    host: &mut NativeHost<D>,
    player_address: &str,
    player: &Player,
) -> (res: Result<(), RuntimeError>)
    requires
        old(host).wf(),
    ensures
        final(host).wf(),
        final(host).same_inbox(old(host)),
        !valid_address(player_address@) ==> res == Err::<(), RuntimeError>(
            RuntimeError::HostErr(HostError::StoreInvalidKey),
        ) && final(host).tree() == old(host).tree(),
        valid_address(player_address@) && old(host).never_fails() && player@.inventory.len()
            <= MAX_VALUE_SIZE ==> res is Ok,
        valid_address(player_address@) && old(host).never_fails() && player@.inventory.len()
            > MAX_VALUE_SIZE ==> res == Err::<(), RuntimeError>(
            RuntimeError::HostErr(HostError::StoreValueSizeExceeded),
        ),
        res is Ok ==> valid_address(player_address@) && player@.inventory.len() <= MAX_VALUE_SIZE,
        res is Ok ==> final(host).tree() == player_stored(
            old(host).tree(),
            player_address@,
            player@,
        ),
{
    if !is_valid_address(player_address) {
        return Err(RuntimeError::HostErr(HostError::StoreInvalidKey));
    }
    write_number(host, player_x_pos(player_address).as_slice(), player.x_pos)?;
    write_number(host, player_y_pos(player_address).as_slice(), player.y_pos)?;
    let inventory = encode_items(&player.inventory);
    assert(write_window(inventory@, 0) =~= inventory@);
    host.store_write(player_inventory(player_address).as_slice(), inventory.as_slice(), 0)?;
    write_number(host, player_gold(player_address).as_slice(), player.gold)?;
    Ok(())
}

/// The map that the store holds: the walled map of a new game while nothing
/// is stored, and else the tiles that the stored bytes stand for.
pub open spec fn map_at(tree: Tree) -> Result<Seq<TileType>, RuntimeError> {
    if value_type(tree, path_text(map_path())) is None {
        Ok(Seq::new((MAP_WIDTH * MAP_HEIGHT) as nat, |i: int| walled_tile(i)))
    } else {
        match tree_read(tree, path_text(map_path())) {
            None => Err(RuntimeError::HostErr(HostError::StoreNotANode)),
            Some(value) => Ok(tiles_of(read_window(value, 0, (MAP_WIDTH * MAP_HEIGHT) as int))),
        }
    }
}

/// The tree after the map has been stored.
pub open spec fn map_stored(tree: Tree, tiles: Seq<TileType>) -> Tree {
    tree_write(tree, path_text(map_path()), tile_bytes(tiles))
}

/// The code under which the index of the market lists an item.
pub open spec fn item_code(item: Item) -> u32 {
    match item {
        Item::Sword => 0,
        Item::Potion => 1,
    }
}

/// The index of a market: seller and item of every offer.
pub open spec fn index_of(listed: Seq<((Seq<char>, Item), usize)>) -> Seq<(Seq<char>, u32)> {
    listed.map_values(|offer: ((Seq<char>, Item), usize)| (offer.0.0, item_code(offer.0.1)))
}

/// The tree after the price of each offer has been stored in turn.
pub open spec fn prices_stored(tree: Tree, listed: Seq<((Seq<char>, Item), usize)>) -> Tree
    decreases listed.len(),
{
    if listed.len() == 0 {
        tree
    } else {
        tree_write(
            prices_stored(tree, listed.drop_last()),
            path_text(market_path(listed.last().0.0, item_dir(listed.last().0.1), "/value"@)),
            be_bytes(listed.last().1 as nat, 8),
        )
    }
}

/// The tree after the market has been stored: what was under the market's
/// path is deleted, the length of the index and, behind it, the index are
/// written there, and the price of each offer is written under the path of
/// the seller and the item.
pub open spec fn market_stored(tree: Tree, listed: Seq<((Seq<char>, Item), usize)>) -> Tree {
    let index = bincode_codes_bytes(index_of(listed))->Some_0;
    let cleared = tree_delete(tree, path_text(market_place_path()));
    let indexed = tree_write(
        cleared,
        path_text(market_place_path()),
        be_bytes(index.len(), 8) + index,
    );
    prices_stored(indexed, listed)
}

/// Whether every seller of the list has an address that can name a player.
pub open spec fn valid_sellers(listed: Seq<((Seq<char>, Item), usize)>) -> bool {
    forall|i: int| 0 <= i < listed.len() ==> valid_address((#[trigger] listed[i]).0.0)
}

/// The item and the price that an entry of the index leads to, the price
/// read from the path of the seller and the item, or the error of an entry
/// that names no item, has a seller whose address is invalid, or has no
/// readable price.
pub open spec fn offer_loaded(tree: Tree, entry: (Seq<char>, u32)) -> Result<
    (Item, usize),
    RuntimeError,
> {
    let item = if entry.1 == 0 {
        Item::Sword
    } else {
        Item::Potion
    };
    let price = number_at(tree, market_path(entry.0, item_dir(item), "/value"@));
    if entry.1 > 1 {
        Err(RuntimeError::DecodingError)
    } else if !valid_address(entry.0) {
        Err(RuntimeError::HostErr(HostError::StoreInvalidKey))
    } else if price is Err {
        Err(price->Err_0)
    } else {
        Ok((item, price->Ok_0))
    }
}

/// The prices that the entries of an index lead to, a later entry
/// overriding an earlier one, or the error of the first entry that leads to
/// one.
pub open spec fn prices_loaded(tree: Tree, index: Seq<(Seq<char>, u32)>) -> Result<
    Prices,
    RuntimeError,
>
    decreases index.len(),
{
    if index.len() == 0 {
        Ok(Map::empty())
    } else {
        let before = prices_loaded(tree, index.drop_last());
        let offer = offer_loaded(tree, index.last());
        if before is Err {
            before
        } else if offer is Err {
            Err(offer->Err_0)
        } else {
            Ok(before->Ok_0.insert((index.last().0, offer->Ok_0.0), offer->Ok_0.1))
        }
    }
}

/// The market that the store holds: an empty one while nothing is stored,
/// and else the prices of the offers that the stored index lists.
pub open spec fn market_at(tree: Tree) -> Result<Prices, RuntimeError> {
    let path = path_text(market_place_path());
    let size = number_at(tree, market_place_path());
    if value_type(tree, path) is None {
        Ok(Map::empty())
    } else if size is Err {
        Err(size->Err_0)
    } else {
        match bincode_codes_parse(read_window(tree_read(tree, path)->Some_0, 8, size->Ok_0 as int)) {
            None => Err(RuntimeError::DecodingError),
            Some(index) => prices_loaded(tree, index),
        }
    }
}

/// The state that the store holds for the player at `address`: player, map
/// and market, or the error of the first of them that cannot be loaded.
pub open spec fn state_at(tree: Tree, address: Seq<char>) -> Result<StateView, RuntimeError> {
    let player = player_at(tree, address);
    let map = map_at(tree);
    let market = market_at(tree);
    if !valid_address(address) {
        Err(RuntimeError::HostErr(HostError::StoreInvalidKey))
    } else if player is Err {
        Err(player->Err_0)
    } else if map is Err {
        Err(map->Err_0)
    } else if market is Err {
        Err(market->Err_0)
    } else {
        Ok(StateView { map: map->Ok_0, player: player->Ok_0, market: market->Ok_0 })
    }
}

/// The bytes of the path of the market.
fn market_key() -> (path: Vec<u8>)
    ensures
        path@ == market_place_path(),
        valid_utf8(path@),
{
    let path = with_text(Vec::new(), "/market-place");
    assert(path@ =~= market_place_path());
    path
}

/// Loads the map, which is that of a new game unless the store holds one.
pub fn load_map<D: Database>(host: &mut NativeHost<D>) -> (res: Result<TileMap, RuntimeError>)
    requires
        old(host).wf(),
    ensures
        final(host).wf(),
        final(host)@ == old(host)@,
        old(host).never_fails() ==> match res {
            Ok(map) => map_at(old(host).tree()) == Ok::<Seq<TileType>, RuntimeError>(map@),
            Err(e) => map_at(old(host).tree()) == Err::<Seq<TileType>, RuntimeError>(e),
        },
        res is Ok ==> map_at(old(host).tree()) == Ok::<Seq<TileType>, RuntimeError>(res->Ok_0@),
{
    let path = map_key();
    let map_exists = host.store_has(path.as_slice())?;
    match map_exists {
        None => {
            let map = TileMap::with_walls();
            assert(map@ =~= Seq::new((MAP_WIDTH * MAP_HEIGHT) as nat, |i: int| walled_tile(i)));
            Ok(map)
        },
        Some(_) => {
            let map_bytes = host.store_read(path.as_slice(), 0, MAP_WIDTH * MAP_HEIGHT)?;
            Ok(TileMap { tiles: decode_tiles(map_bytes.as_slice()) })
        },
    }
}

/// Stores the map.
pub fn update_map<D: Database>(host: &mut NativeHost<D>, map: &TileMap) -> (res: Result<
    (),
    RuntimeError,
>)
    requires
        old(host).wf(),
    ensures
        final(host).wf(),
        final(host).same_inbox(old(host)),
        old(host).never_fails() && map@.len() <= MAX_VALUE_SIZE ==> res is Ok,
        old(host).never_fails() && map@.len() > MAX_VALUE_SIZE ==> res == Err::<(), RuntimeError>(
            RuntimeError::HostErr(HostError::StoreValueSizeExceeded),
        ),
        res is Ok ==> map@.len() <= MAX_VALUE_SIZE,
        res is Ok ==> final(host).tree() == map_stored(old(host).tree(), map@),
{
    let tiles = encode_tiles(&map.tiles);
    assert(write_window(tiles@, 0) =~= tiles@);
    host.store_write(map_key().as_slice(), tiles.as_slice(), 0)?;
    Ok(())
}

/// Reads the offer that an entry of the index stands for.
pub fn load_offer<D: Database>(host: &NativeHost<D>, address: &str, code: u32) -> (res: Result<
    (Item, usize),
    RuntimeError,
>)
    requires
        host.wf(),
    ensures
        host.never_fails() ==> res == offer_loaded(host.tree(), (address@, code)),
        res is Ok ==> res == offer_loaded(host.tree(), (address@, code)),
{
    let item = if code == 0 {
        Item::Sword
    } else if code == 1 {
        Item::Potion
    } else {
        return Err(RuntimeError::DecodingError);
    };
    if !is_valid_address(address) {
        return Err(RuntimeError::HostErr(HostError::StoreInvalidKey));
    }
    let value_path = match item {
        Item::Sword => market_place_value_sword(address),
        Item::Potion => market_place_value_potion(address),
    };
    let price = read_number(host, value_path.as_slice())?;
    Ok((item, price))
}

/// Reads the offers that the entries of the index stand for.
pub fn load_offers<D: Database>(host: &NativeHost<D>, index: &Vec<(String, u32)>) -> (res: Result<
    MarketPlace,
    RuntimeError,
>)
    requires
        host.wf(),
    ensures
        res is Ok ==> res->Ok_0.wf(),
        host.never_fails() ==> match res {
            Ok(market) => prices_loaded(host.tree(), codes_view(index@)) == Ok::<
                Prices,
                RuntimeError,
            >(market@),
            Err(e) => prices_loaded(host.tree(), codes_view(index@)) == Err::<Prices, RuntimeError>(
                e,
            ),
        },
        res is Ok ==> prices_loaded(host.tree(), codes_view(index@)) == Ok::<Prices, RuntimeError>(
            res->Ok_0@,
        ),
{
    let mut market = MarketPlace::new();
    let mut i: usize = 0;
    assert(codes_view(index@).take(0) =~= Seq::<(Seq<char>, u32)>::empty());
    while i < index.len()
        invariant
            i <= index@.len(),
            host.wf(),
            market.wf(),
            prices_loaded(host.tree(), codes_view(index@).take(i as int)) == Ok::<
                Prices,
                RuntimeError,
            >(market@),
        decreases index.len() - i,
    {
        proof {
            let done = codes_view(index@).take(i as int);
            let next = codes_view(index@).take(i + 1);
            assert(next.drop_last() =~= done);
            assert(next.last() == (index@[i as int].0@, index@[i as int].1));
        }
        let address = index[i].0.as_str();
        match load_offer(host, address, index[i].1) {
            Ok((item, price)) => {
                market.sell_item(address, item, price);
            },
            Err(e) => {
                proof {
                    if host.never_fails() {
                        lemma_prices_loaded_fails(host.tree(), codes_view(index@), i + 1, e);
                    }
                }
                return Err(e);
            },
        }
        i += 1;
    }
    assert(codes_view(index@).take(index@.len() as int) =~= codes_view(index@));
    Ok(market)
}

/// Loads the market, which is empty unless the store holds one.
pub fn load_market_place<D: Database>(host: &mut NativeHost<D>) -> (res: Result<
    MarketPlace,
    RuntimeError,
>)
    requires
        old(host).wf(),
    ensures
        final(host).wf(),
        final(host)@ == old(host)@,
        res is Ok ==> res->Ok_0.wf(),
        old(host).never_fails() ==> match res {
            Ok(market) => market_at(old(host).tree()) == Ok::<Prices, RuntimeError>(market@),
            Err(e) => market_at(old(host).tree()) == Err::<Prices, RuntimeError>(e),
        },
        res is Ok ==> market_at(old(host).tree()) == Ok::<Prices, RuntimeError>(res->Ok_0@),
{
    let path = market_key();
    let market_place_exists = host.store_has(path.as_slice())?;
    match market_place_exists {
        Some(_) => {
            let index_size = read_number(host, path.as_slice())?;
            let index_bytes = host.store_read(path.as_slice(), 8, index_size)?;
            let index = match bincode_decode_codes(index_bytes.as_slice()) {
                Some(index) => index,
                None => { return Err(RuntimeError::DecodingError); },
            };
            load_offers(host, &index)
        },
        None => Ok(MarketPlace::default()),
    }
}

/// Once the entries up to `end` have led to an error, so does the whole
/// index.
pub proof fn lemma_prices_loaded_fails(
    tree: Tree,
    index: Seq<(Seq<char>, u32)>,
    end: int,
    error: RuntimeError,
)
    requires
        0 <= end <= index.len(),
        prices_loaded(tree, index.take(end)) == Err::<Prices, RuntimeError>(error),
    ensures
        prices_loaded(tree, index) == Err::<Prices, RuntimeError>(error),
    decreases index.len() - end,
{
    if end < index.len() {
        assert(index.take(end + 1).drop_last() =~= index.take(end));
        lemma_prices_loaded_fails(tree, index, end + 1, error);
    } else {
        assert(index.take(end) =~= index);
    }
}

/// The index of a market: seller and code of the item of every offer.
pub fn market_index(market: &MarketPlace) -> (index: Vec<(String, u32)>)
    ensures
        codes_view(index@) == index_of(market.listed()),
{
    let offers = market.offers();
    let mut index: Vec<(String, u32)> = Vec::new();
    let mut i: usize = 0;
    while i < offers.len()
        invariant
            i <= offers@.len(),
            offer_views(offers@) == market.listed(),
            codes_view(index@) == index_of(market.listed()).take(i as int),
        decreases offers.len() - i,
    {
        let code: u32 = match offers[i].item {
            Item::Sword => 0,
            Item::Potion => 1,
        };
        let entry = (offers[i].address.clone(), code);
        proof {
            let done = codes_view(index@);
            assert(codes_view(index@.push(entry)) =~= done.push((entry.0@, entry.1)));
            assert(offer_views(offers@)[i as int] == market.listed()[i as int]);
            assert(index_of(market.listed()).take(i + 1) =~= index_of(market.listed()).take(
                i as int,
            ).push((entry.0@, entry.1)));
        }
        index.push(entry);
        i += 1;
    }
    assert(index_of(market.listed()).take(offers@.len() as int) =~= index_of(market.listed()));
    index
}

/// What keeps a market from being stored, if anything does: an index that
/// cannot be encoded is a decoding error, one that is too long with its
/// length in front exceeds the size of a value, and a seller whose address
/// cannot name a player is an invalid key.
pub open spec fn market_error(listed: Seq<((Seq<char>, Item), usize)>) -> Option<RuntimeError> {
    let index = bincode_codes_bytes(index_of(listed));
    if index is None {
        Some(RuntimeError::DecodingError)
    } else if index->Some_0.len() + 8 > MAX_VALUE_SIZE {
        Some(RuntimeError::HostErr(HostError::StoreValueSizeExceeded))
    } else if !valid_sellers(listed) {
        Some(RuntimeError::HostErr(HostError::StoreInvalidKey))
    } else {
        None
    }
}

/// What keeps a state from being stored for the player at `address`, if
/// anything does: first what keeps the player from being stored, then the
/// map, then the market.
pub open spec fn state_error(
    address: Seq<char>,
    state: StateView,
    listed: Seq<((Seq<char>, Item), usize)>,
) -> Option<RuntimeError> {
    if !valid_address(address) {
        Some(RuntimeError::HostErr(HostError::StoreInvalidKey))
    } else if state.player.inventory.len() > MAX_VALUE_SIZE || state.map.len() > MAX_VALUE_SIZE {
        Some(RuntimeError::HostErr(HostError::StoreValueSizeExceeded))
    } else {
        market_error(listed)
    }
}

/// Stores the market in place of the one that the store holds.
pub fn update_market_place<D: Database>(host: &mut NativeHost<D>, market_place: &MarketPlace) -> (res:
    Result<(), RuntimeError>)
    requires
        old(host).wf(),
    ensures
        final(host).wf(),
        final(host).same_inbox(old(host)),
        res is Ok ==> bincode_codes_bytes(index_of(market_place.listed())) is Some && valid_sellers(
            market_place.listed(),
        ) && final(host).tree() == market_stored(old(host).tree(), market_place.listed()),
        res is Ok ==> market_error(market_place.listed()) is None,
        old(host).never_fails() ==> res == match market_error(market_place.listed()) {
            Some(error) => Err::<(), RuntimeError>(error),
            None => Ok::<(), RuntimeError>(()),
        },
{
    let path = market_key();
    host.store_delete(path.as_slice())?;
    let index = market_index(market_place);
    let bytes = match bincode_encode_codes(&index) {
        Some(bytes) => bytes,
        None => { return Err(RuntimeError::DecodingError); },
    };
    let mut value = u64_to_be_bytes(bytes.len() as u64);
    let ghost size = value@;
    let mut k: usize = 0;
    while k < bytes.len()
        invariant
            k <= bytes@.len(),
            value@ == size + bytes@.take(k as int),
        decreases bytes.len() - k,
    {
        value.push(bytes[k]);
        assert(value@ =~= size + bytes@.take(k + 1));
        k += 1;
    }
    assert(bytes@.take(bytes@.len() as int) =~= bytes@);
    assert(write_window(value@, 0) =~= value@);
    host.store_write(path.as_slice(), value.as_slice(), 0)?;
    let ghost indexed = host.tree();
    let offers = market_place.offers();
    let mut i: usize = 0;
    assert(market_place.listed().take(0) =~= Seq::<((Seq<char>, Item), usize)>::empty());
    while i < offers.len()
        invariant
            i <= offers@.len(),
            host.wf(),
            host.same_inbox(old(host)),
            offer_views(offers@) == market_place.listed(),
            host.tree() == prices_stored(indexed, market_place.listed().take(i as int)),
            valid_sellers(market_place.listed().take(i as int)),
            bincode_codes_bytes(index_of(market_place.listed())) is Some,
            bincode_codes_bytes(index_of(market_place.listed()))->Some_0.len() + 8
                <= MAX_VALUE_SIZE,
        decreases offers.len() - i,
    {
        let address = offers[i].address.as_str();
        proof {
            let listed = market_place.listed();
            assert(offer_views(offers@)[i as int] == listed[i as int]);
            assert(listed.take(i + 1).drop_last() =~= listed.take(i as int));
            assert(listed.take(i + 1).last() == listed[i as int]);
        }
        if !is_valid_address(address) {
            proof {
                assert(!valid_sellers(market_place.listed())) by {
                    assert(!valid_address(market_place.listed()[i as int].0.0));
                }
            }
            return Err(RuntimeError::HostErr(HostError::StoreInvalidKey));
        }
        let value_path = match offers[i].item {
            Item::Sword => market_place_value_sword(address),
            Item::Potion => market_place_value_potion(address),
        };
        write_number(host, value_path.as_slice(), offers[i].price)?;
        proof {
            let listed = market_place.listed();
            assert forall|k: int| 0 <= k < listed.take(i + 1).len() implies valid_address(
                (#[trigger] listed.take(i + 1)[k]).0.0,
            ) by {
                if k < i {
                    assert(listed.take(i as int)[k] == listed.take(i + 1)[k]);
                }
            }
        }
        i += 1;
    }
    assert(market_place.listed().take(offers@.len() as int) =~= market_place.listed());
    Ok(())
}

/// Loads the state of the game for the player at `player_address`.
pub fn load_state<D: Database>(host: &mut NativeHost<D>, player_address: &str) -> (res: Result<
    State,
    RuntimeError,
>)
    requires
        old(host).wf(),
    ensures
        final(host).wf(),
        final(host)@ == old(host)@,
        res is Ok ==> res->Ok_0.wf(),
        old(host).never_fails() ==> match res {
            Ok(state) => state_at(old(host).tree(), player_address@) == Ok::<
                StateView,
                RuntimeError,
            >(state@),
            Err(e) => state_at(old(host).tree(), player_address@) == Err::<
                StateView,
                RuntimeError,
            >(e),
        },
        res is Ok ==> state_at(old(host).tree(), player_address@) == Ok::<StateView, RuntimeError>(
            res->Ok_0@,
        ),
{
    let player = load_player(host, player_address)?;
    let map = load_map(host)?;
    let market_place = load_market_place(host)?;
    Ok(State { player, map, market_place })
}

/// Stores the state of the game for the player at `player_address`: the
/// player, then the map, then the market. Over a store that never fails
/// this succeeds unless the address cannot name a player, the inventory or
/// the map is larger than a value can be, or the market cannot be stored.
pub fn update_state<D: Database>(host: &mut NativeHost<D>, player_address: &str, state: &State) -> (res:
    Result<(), RuntimeError>)
    requires
        old(host).wf(),
    ensures
        final(host).wf(),
        final(host).same_inbox(old(host)),
        res is Ok ==> final(host).tree() == market_stored(
            map_stored(player_stored(old(host).tree(), player_address@, state@.player), state@.map),
            state.market_place.listed(),
        ),
        !valid_address(player_address@) ==> res == Err::<(), RuntimeError>(
            RuntimeError::HostErr(HostError::StoreInvalidKey),
        ) && final(host).tree() == old(host).tree(),
        res is Ok ==> state_error(player_address@, state@, state.market_place.listed()) is None,
        old(host).never_fails() ==> res == match state_error(
            player_address@,
            state@,
            state.market_place.listed(),
        ) {
            Some(error) => Err::<(), RuntimeError>(error),
            None => Ok::<(), RuntimeError>(()),
        },
{
    update_player(host, player_address, &state.player)?;
    update_map(host, &state.map)?;
    update_market_place(host, &state.market_place)?;
    Ok(())
}

} // verus!
