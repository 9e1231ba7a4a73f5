use sequencer::database::memory::PathTree;
use sequencer::dungeon::item::Item;
use sequencer::dungeon::kernel as basic_kernel;
use sequencer::dungeon::map::{TileMap, TileType};
use sequencer::dungeon::player_actions::PlayerAction as BasicAction;
use sequencer::dungeon::storage::{
    decode_items, decode_tiles, encode_items, encode_tiles, is_valid_address, player_inventory,
    player_key, player_x_pos, player_y_pos, read_number, with_text, write_number,
};
use sequencer::dungeon_app::kernel::{entry, handle_message};
use sequencer::dungeon_app::market_place::MarketPlace;
use sequencer::dungeon_app::player::{Player, MAX_ITEMS, STARTING_GOLD};
use sequencer::dungeon_app::player_actions::{PlayerAction, PlayerMsg};
use sequencer::dungeon_app::state::State;
use sequencer::dungeon_app::storage::{
    load_map, load_market_place, load_offer, load_player, load_state, market_index,
    market_place_key, market_place_potion, market_place_sword, market_place_value_potion,
    market_place_value_sword, player_gold, update_map, update_market_place, update_player,
    update_state,
};
use sequencer::host::{HostError, Message, NativeHost, RuntimeError};

const ALICE: &str = "tz1alice";
const BOB: &str = "tz1bob";

fn host() -> NativeHost<PathTree> {
    NativeHost::new(PathTree::new())
}

#[test]
fn market_place_keeps_one_price_per_seller_and_item() {
    let mut market = MarketPlace::new();
    assert_eq!(market.get_price(ALICE, Item::Sword), None);
    market.sell_item(ALICE, Item::Sword, 10);
    market.sell_item(ALICE, Item::Potion, 20);
    market.sell_item(BOB, Item::Sword, 30);
    market.sell_item(ALICE, Item::Sword, 15);
    assert_eq!(market.get_price(ALICE, Item::Sword), Some(15));
    assert_eq!(market.get_price(ALICE, Item::Potion), Some(20));
    assert_eq!(market.get_price(BOB, Item::Sword), Some(30));
    assert_eq!(market.get_price(BOB, Item::Potion), None);
    assert_eq!(market.offers().len(), 3);
    market.buy_item(ALICE, Item::Sword);
    market.buy_item(BOB, Item::Potion);
    assert_eq!(market.get_price(ALICE, Item::Sword), None);
    assert_eq!(market.offers().len(), 2);
    assert!(MarketPlace::default().offers().is_empty());
}

#[test]
fn walled_map_has_its_walls() {
    let map = TileMap::with_walls();
    assert_eq!(map.tiles.len(), 1024);
    for x in 0..10 {
        assert_eq!(map.get_tile(x, 0), Some(TileType::Wall));
    }
    for y in 0..10 {
        assert_eq!(map.get_tile(0, y), Some(TileType::Wall));
        assert_eq!(map.get_tile(9, y), Some(TileType::Wall));
    }
    assert_eq!(map.get_tile(5, 5), Some(TileType::Wall));
    assert_eq!(map.get_tile(10, 0), Some(TileType::Floor(None)));
    assert_eq!(map.get_tile(0, 10), Some(TileType::Floor(None)));
    assert_eq!(map.get_tile(9, 10), Some(TileType::Floor(None)));
    assert_eq!(map.get_tile(4, 5), Some(TileType::Floor(None)));
    assert_eq!(map.get_tile(16, 1), Some(TileType::Floor(Some(Item::Sword))));
    assert_eq!(map.get_tile(10, 30), Some(TileType::Floor(Some(Item::Potion))));
    let walls = map.tiles.iter().filter(|t| **t == TileType::Wall).count();
    assert_eq!(walls, 10 + 9 + 9 + 1);
}

#[test]
fn player_of_the_market_game() {
    let player = Player::new(3, 4, ALICE.to_string());
    assert_eq!(player.gold, STARTING_GOLD);
    assert_eq!(player.gold, 1000);
    assert_eq!(player.address, ALICE);
    let moved = player.move_up().move_left().move_down().move_down().move_right().move_right();
    assert_eq!((moved.x_pos, moved.y_pos, moved.gold), (4, 5, 1000));
    let corner = Player::new(0, 0, ALICE.to_string()).move_up().move_left();
    assert_eq!((corner.x_pos, corner.y_pos), (0, 0));
    let rich = player.duplicate().add_gold(5).remove_gold(1005);
    assert_eq!(rich.gold, 0);
    let mut loaded = player;
    for _ in 0..5 {
        loaded = loaded.add_item(Item::Potion);
    }
    assert_eq!(loaded.inventory.len(), MAX_ITEMS + 1);
    let (loaded, item) = loaded.remove_item(0);
    assert_eq!(item, Some(Item::Potion));
    let (loaded, item) = loaded.remove_item(7);
    assert_eq!(item, None);
    assert_eq!(loaded.inventory.len(), 2);
}

#[test]
fn selling_and_buying() {
    let mut seller = State::new(ALICE.to_string());
    assert_eq!((seller.player.x_pos, seller.player.y_pos), (16, 16));
    seller.player = seller.player.add_item(Item::Sword).add_item(Item::Potion);
    let seller = seller.sell_item(ALICE, 1, 300);
    assert_eq!(seller.player.inventory, vec![Item::Sword]);
    assert_eq!(seller.market_place.get_price(ALICE, Item::Potion), Some(300));
    let seller = seller.sell_item(ALICE, 5, 1);
    assert_eq!(seller.player.inventory, vec![Item::Sword]);

    let mut buyer = State::new(BOB.to_string());
    buyer.market_place = seller.market_place;
    let other = seller.player;
    let (buyer, other) = buyer.buy_item(ALICE, Item::Potion, other);
    assert_eq!(buyer.player.inventory, vec![Item::Potion]);
    assert_eq!(buyer.player.gold, 700);
    assert_eq!(other.gold, 1300);
    assert_eq!(buyer.market_place.get_price(ALICE, Item::Potion), None);
    let (buyer, other) = buyer.buy_item(ALICE, Item::Potion, other);
    assert_eq!((buyer.player.gold, other.gold), (700, 1300));
}

#[test]
fn purchases_that_do_not_take_place() {
    let mut state = State::new(BOB.to_string());
    state.market_place.sell_item(ALICE, Item::Sword, 2000);
    state.market_place.sell_item(BOB, Item::Potion, 1);
    let (state, other) = state.buy_item(ALICE, Item::Sword, Player::new(0, 0, ALICE.to_string()));
    assert_eq!((state.player.gold, other.gold), (1000, 1000));
    assert!(state.player.inventory.is_empty());
    let (state, other) = state.buy_item(BOB, Item::Potion, Player::new(0, 0, BOB.to_string()));
    assert_eq!((state.player.gold, other.gold), (1000, 1000));
    assert_eq!(state.market_place.get_price(BOB, Item::Potion), Some(1));
    let mut full = state;
    full.player = full.player.add_item(Item::Sword).add_item(Item::Sword).add_item(Item::Sword);
    full.market_place.sell_item(ALICE, Item::Potion, 1);
    let (full, _) = full.buy_item(ALICE, Item::Potion, Player::new(0, 0, ALICE.to_string()));
    assert_eq!(full.player.inventory.len(), 3);
    assert_eq!(full.player.gold, 1000);
}

#[test]
fn transition_of_the_market_game() {
    let state = State::new(ALICE.to_string());
    let (state, other) = state.transition(None, PlayerAction::MoveDown, ALICE);
    assert!(other.is_none());
    assert_eq!((state.player.x_pos, state.player.y_pos), (16, 17));
    let mut state = state;
    state.player.x_pos = 10;
    state.player.y_pos = 1;
    let (state, _) = state.transition(None, PlayerAction::MoveLeft, ALICE);
    assert_eq!((state.player.x_pos, state.player.y_pos), (10, 1));
    let (state, _) = state.transition(None, PlayerAction::MoveUp, ALICE);
    assert_eq!((state.player.x_pos, state.player.y_pos), (10, 0));
    let mut state = state;
    state.player.x_pos = 16;
    let (state, _) = state.transition(None, PlayerAction::PickUp, ALICE);
    assert!(state.player.inventory.is_empty());
    let mut state = state;
    state.player.y_pos = 1;
    let (state, _) = state.transition(None, PlayerAction::PickUp, ALICE);
    assert_eq!(state.player.inventory, vec![Item::Sword]);
    let (state, _) = state.transition(None, PlayerAction::Sell(0, 50), ALICE);
    assert_eq!(state.market_place.get_price(ALICE, Item::Sword), Some(50));
    let (state, other) = state.transition(None, PlayerAction::Buy(ALICE.to_string(), Item::Sword), ALICE);
    assert!(other.is_none());
    let bob = Player::new(1, 1, BOB.to_string());
    assert!(state.can_apply(&Some(bob.duplicate()), &PlayerAction::Buy(ALICE.to_string(), Item::Sword)));
    let (state, other) =
        state.transition(Some(bob), PlayerAction::Buy(ALICE.to_string(), Item::Sword), ALICE);
    assert_eq!(other.unwrap().gold, 1050);
    assert_eq!(state.player.gold, 950);
    let (state, _) = state.transition(None, PlayerAction::Drop(0), ALICE);
    assert!(state.player.inventory.is_empty());
    assert_eq!(state.map.get_tile(16, 1), Some(TileType::Floor(Some(Item::Sword))));
}

#[test]
fn actions_that_cannot_be_applied() {
    let mut state = State::new(ALICE.to_string());
    state.player.x_pos = usize::MAX;
    assert!(!state.can_apply(&None, &PlayerAction::MoveRight));
    assert!(state.can_apply(&None, &PlayerAction::MoveLeft));
    state.player.x_pos = 0;
    state.player.y_pos = usize::MAX;
    assert!(!state.can_apply(&None, &PlayerAction::MoveDown));
    state.market_place.sell_item(BOB, Item::Sword, 10);
    let mut bob = Player::new(0, 0, BOB.to_string());
    bob.gold = usize::MAX - 5;
    let buy = PlayerAction::Buy(BOB.to_string(), Item::Sword);
    assert!(!state.can_apply(&Some(bob.duplicate()), &buy));
    bob.gold = usize::MAX - 10;
    assert!(state.can_apply(&Some(bob), &buy));
    assert!(matches!(buy.duplicate(), PlayerAction::Buy(address, Item::Sword) if address == BOB));
    assert!(matches!(PlayerAction::Sell(1, 2).duplicate(), PlayerAction::Sell(1, 2)));
}

#[test]
fn market_messages_are_parsed() {
    let msg = PlayerMsg::try_from(b"\x01tz1alice-0601".to_vec()).unwrap();
    assert_eq!(msg.public_key, ALICE);
    assert!(matches!(msg.action, PlayerAction::Drop(1)));
    let msg = PlayerMsg::try_from(b"\x01tz1alice-04".to_vec()).unwrap();
    assert!(matches!(msg.action, PlayerAction::MoveRight));
    assert!(PlayerMsg::try_from(b"\x01tz1alice-08".to_vec()).is_err());
    assert!(PlayerMsg::try_from(b"tz1alice-01".to_vec()).is_err());
}

#[test]
fn paths_of_the_game() {
    assert_eq!(player_key(ALICE), b"/players/tz1alice".to_vec());
    assert_eq!(player_x_pos(ALICE), b"/players/tz1alice/x_pos".to_vec());
    assert_eq!(player_y_pos(ALICE), b"/players/tz1alice/y_pos".to_vec());
    assert_eq!(player_inventory(ALICE), b"/players/tz1alice/inventory".to_vec());
    assert_eq!(player_gold(ALICE), b"/players/tz1alice/gold".to_vec());
    assert_eq!(market_place_key(ALICE), b"/market-place/tz1alice".to_vec());
    assert_eq!(market_place_sword(ALICE), b"/market-place/tz1alice/01".to_vec());
    assert_eq!(market_place_value_sword(ALICE), b"/market-place/tz1alice/01/value".to_vec());
    assert_eq!(market_place_potion(ALICE), b"/market-place/tz1alice/02".to_vec());
    assert_eq!(market_place_value_potion(ALICE), b"/market-place/tz1alice/02/value".to_vec());
    assert_eq!(with_text(vec![1], "ab"), vec![1, 97, 98]);
}

#[test]
fn addresses_are_checked_as_storage_paths() {
    assert!(is_valid_address(ALICE));
    assert!(is_valid_address("a.b_c-d"));
    assert!(is_valid_address("a/b"));
    assert!(is_valid_address(&"a".repeat(219)));
    assert!(!is_valid_address(&"a".repeat(220)));
    assert!(!is_valid_address(""));
    assert!(!is_valid_address("a b"));
    assert!(!is_valid_address("a//b"));
    assert!(!is_valid_address("a/"));
    assert!(!is_valid_address("/a"));
    assert!(!is_valid_address("é"));
    assert!(!is_valid_address("readonly"));
    assert!(!is_valid_address("readonly/x"));
    assert!(is_valid_address("readonlyx"));
}

#[test]
fn numbers_items_and_tiles_in_the_store() {
    let mut host = host();
    write_number(&mut host, b"/n", 0x0102).unwrap();
    assert_eq!(host.store_read(b"/n", 0, 9).unwrap(), vec![0, 0, 0, 0, 0, 0, 1, 2]);
    assert_eq!(read_number(&host, b"/n"), Ok(0x0102));
    assert_eq!(read_number(&host, b"/none"), Err(RuntimeError::HostErr(HostError::StoreNotANode)));
    host.store_write(b"/short", &[1, 2, 3], 0).unwrap();
    assert_eq!(read_number(&host, b"/short"), Err(RuntimeError::DecodingError));
    assert_eq!(decode_items(&[1, 2, 9, 0, 1]), vec![Item::Sword, Item::Potion, Item::Sword]);
    assert_eq!(encode_items(&vec![Item::Potion, Item::Sword]), vec![2, 1]);
    let tiles = vec![
        TileType::Floor(Some(Item::Sword)),
        TileType::Floor(Some(Item::Potion)),
        TileType::Floor(None),
        TileType::Wall,
    ];
    assert_eq!(encode_tiles(&tiles), vec![1, 2, 3, 4]);
    assert_eq!(decode_tiles(&[1, 2, 3, 4, 0, 5]), tiles);
}

#[test]
fn player_is_stored_and_loaded() {
    let mut host = host();
    let fresh = load_player(&mut host, ALICE).unwrap();
    assert_eq!((fresh.x_pos, fresh.y_pos, fresh.gold), (16, 16, 1000));
    assert!(fresh.inventory.is_empty());
    let mut player = Player::new(3, 9, ALICE.to_string());
    player.gold = 77;
    player = player.add_item(Item::Potion).add_item(Item::Sword).add_item(Item::Sword);
    update_player(&mut host, ALICE, &player).unwrap();
    assert_eq!(host.store_read(b"/players/tz1alice/inventory", 0, 9).unwrap(), vec![2, 1, 1]);
    assert_eq!(host.store_read(b"/players/tz1alice/gold", 0, 8).unwrap(), vec![0, 0, 0, 0, 0, 0, 0, 77]);
    let loaded = load_player(&mut host, ALICE).unwrap();
    assert_eq!((loaded.x_pos, loaded.y_pos, loaded.gold), (3, 9, 77));
    assert_eq!(loaded.address, ALICE);
    // Only as many items are read back as an inventory is meant to hold.
    assert_eq!(loaded.inventory, vec![Item::Potion, Item::Sword]);
    let invalid = Err(RuntimeError::HostErr(HostError::StoreInvalidKey));
    assert_eq!(load_player(&mut host, "a b").map(|p| p.gold), invalid);
    assert_eq!(update_player(&mut host, "", &player), Err(RuntimeError::HostErr(HostError::StoreInvalidKey)));
    host.store_delete(b"/players/tz1alice/gold").unwrap();
    assert_eq!(
        load_player(&mut host, ALICE).map(|p| p.gold),
        Err(RuntimeError::HostErr(HostError::StoreNotANode))
    );
}

#[test]
fn map_is_stored_and_loaded() {
    let mut host = host();
    let fresh = load_map(&mut host).unwrap();
    assert_eq!(fresh.tiles, TileMap::with_walls().tiles);
    let changed = fresh.remove_item(16, 1).add_item(20, 20, Item::Potion);
    update_map(&mut host, &changed).unwrap();
    assert_eq!(host.store_value_size(b"/state/map").unwrap(), 1024);
    let loaded = load_map(&mut host).unwrap();
    assert_eq!(loaded.tiles, changed.tiles);
    assert_eq!(loaded.get_tile(20, 20), Some(TileType::Floor(Some(Item::Potion))));
}

#[test]
fn market_is_stored_under_its_paths() {
    let mut host = host();
    assert!(load_market_place(&mut host).unwrap().offers().is_empty());
    let mut market = MarketPlace::new();
    market.sell_item(ALICE, Item::Sword, 10);
    market.sell_item(BOB, Item::Potion, 20);
    assert_eq!(market_index(&market), vec![(ALICE.to_string(), 0), (BOB.to_string(), 1)]);
    update_market_place(&mut host, &market).unwrap();
    assert_eq!(
        host.store_read(b"/market-place/tz1alice/01/value", 0, 8).unwrap(),
        vec![0, 0, 0, 0, 0, 0, 0, 10]
    );
    assert_eq!(
        host.store_read(b"/market-place/tz1bob/02/value", 0, 8).unwrap(),
        vec![0, 0, 0, 0, 0, 0, 0, 20]
    );
    assert_eq!(load_offer(&host, ALICE, 0), Ok((Item::Sword, 10)));
    assert_eq!(load_offer(&host, BOB, 1), Ok((Item::Potion, 20)));
    assert_eq!(load_offer(&host, BOB, 2), Err(RuntimeError::DecodingError));
    assert_eq!(load_offer(&host, "a b", 0), Err(RuntimeError::HostErr(HostError::StoreInvalidKey)));
    assert_eq!(load_offer(&host, BOB, 0), Err(RuntimeError::HostErr(HostError::StoreNotANode)));
    let index = bincode::serialize(&vec![(ALICE.to_string(), 0u32), (BOB.to_string(), 1u32)]).unwrap();
    assert_eq!(host.store_read(b"/market-place", 0, 8).unwrap(), (index.len() as u64).to_be_bytes().to_vec());
    assert_eq!(host.store_read(b"/market-place", 8, 1000).unwrap(), index);
    let loaded = load_market_place(&mut host).unwrap();
    assert_eq!(loaded.get_price(ALICE, Item::Sword), Some(10));
    assert_eq!(loaded.get_price(BOB, Item::Potion), Some(20));
    assert_eq!(loaded.offers().len(), 2);
    let mut bad = MarketPlace::new();
    bad.sell_item("no address", Item::Sword, 1);
    assert_eq!(
        update_market_place(&mut host, &bad),
        Err(RuntimeError::HostErr(HostError::StoreInvalidKey))
    );
}

#[test]
fn market_is_loaded_from_a_sized_index() {
    let mut host = host();
    let index = bincode::serialize(&vec![(ALICE.to_string(), 0u32), (BOB.to_string(), 1u32)]).unwrap();
    let mut value = (index.len() as u64).to_be_bytes().to_vec();
    value.extend_from_slice(&index);
    host.store_write(b"/market-place", &value, 0).unwrap();
    write_number(&mut host, b"/market-place/tz1alice/01/value", 11).unwrap();
    assert_eq!(
        load_market_place(&mut host).map(|m| m.offers().len()),
        Err(RuntimeError::HostErr(HostError::StoreNotANode))
    );
    write_number(&mut host, b"/market-place/tz1bob/02/value", 22).unwrap();
    let market = load_market_place(&mut host).unwrap();
    assert_eq!(market.get_price(ALICE, Item::Sword), Some(11));
    assert_eq!(market.get_price(BOB, Item::Potion), Some(22));
    host.store_write(b"/market-place", &[0, 0, 0, 0, 0, 0, 0, 3, 1, 2, 3], 0).unwrap();
    assert_eq!(
        load_market_place(&mut host).map(|m| m.offers().len()),
        Err(RuntimeError::DecodingError)
    );
}

#[test]
fn state_is_stored_and_loaded() {
    let mut host = host();
    let state = load_state(&mut host, ALICE).unwrap();
    assert_eq!((state.player.x_pos, state.player.y_pos), (16, 16));
    let (state, _) = state.transition(None, PlayerAction::MoveUp, ALICE);
    update_state(&mut host, ALICE, &state).unwrap();
    let loaded = load_state(&mut host, ALICE).unwrap();
    assert_eq!((loaded.player.x_pos, loaded.player.y_pos), (16, 15));
    assert_eq!(loaded.map.tiles, state.map.tiles);
    assert!(load_state(&mut host, "a b").is_err());
    assert!(update_state(&mut host, "a b", &state).is_err());
}

#[test]
fn market_kernel_applies_the_messages_of_the_inbox() {
    let mut host = host();
    host.add_message(Message::new(0, 0, b"\x01tz1alice-01".to_vec()));
    host.add_message(Message::new(0, 1, b"\x01tz1alice-03".to_vec()));
    host.add_message(Message::new(0, 2, b"garbage".to_vec()));
    host.add_message(Message::new(0, 3, b"\x01tz1bob-02".to_vec()));
    entry(&mut host);
    assert!(host.read_input().unwrap().is_none());
    let alice = load_player(&mut host, ALICE).unwrap();
    assert_eq!((alice.x_pos, alice.y_pos), (15, 15));
    let bob = load_player(&mut host, BOB).unwrap();
    assert_eq!((bob.x_pos, bob.y_pos), (16, 17));
    let before = host.database().len();
    assert_eq!(
        handle_message(&mut host, b"\x01no address-01".to_vec()),
        Err(RuntimeError::HostErr(HostError::StoreInvalidKey))
    );
    assert_eq!(handle_message(&mut host, b"nothing".to_vec()), Err(RuntimeError::DecodingError));
    assert_eq!(host.database().len(), before);
    assert_eq!(handle_message(&mut host, b"\x01tz1bob-04".to_vec()), Ok(()));
    let bob = load_player(&mut host, BOB).unwrap();
    assert_eq!((bob.x_pos, bob.y_pos), (17, 17));
}

#[test]
fn dungeon_kernel_applies_the_messages_of_the_inbox() {
    let mut host = host();
    assert_eq!(basic_kernel::parse_action(&[1, 1]), Some(BasicAction::MoveUp));
    assert_eq!(basic_kernel::parse_action(&[1, 2]), Some(BasicAction::MoveDown));
    assert_eq!(basic_kernel::parse_action(&[1, 3]), Some(BasicAction::MoveLeft));
    assert_eq!(basic_kernel::parse_action(&[1, 4]), Some(BasicAction::MoveRight));
    assert_eq!(basic_kernel::parse_action(&[1, 5]), Some(BasicAction::PickUp));
    assert_eq!(basic_kernel::parse_action(&[1, 6, 0]), Some(BasicAction::Drop(0)));
    assert_eq!(basic_kernel::parse_action(&[1, 6, 1]), Some(BasicAction::Drop(1)));
    assert_eq!(basic_kernel::parse_action(&[1, 6, 2]), None);
    assert_eq!(basic_kernel::parse_action(&[1, 6]), None);
    assert_eq!(basic_kernel::parse_action(&[1, 0]), None);
    assert_eq!(basic_kernel::parse_action(&[0, 1]), None);
    assert_eq!(basic_kernel::parse_action(&[]), None);
    host.add_message(Message::new(0, 0, vec![1, 1]));
    host.add_message(Message::new(0, 1, vec![1, 4]));
    host.add_message(Message::new(0, 2, vec![9, 9]));
    basic_kernel::entry(&mut host);
    assert!(host.read_input().unwrap().is_none());
    let state = basic_kernel::load_state(&mut host, basic_kernel::PLAYER_ADDRESS).unwrap();
    assert_eq!((state.player_position.x_pos, state.player_position.y_pos), (17, 15));
    assert_eq!(state.map.tiles, TileMap::new().tiles);
    assert_eq!(basic_kernel::handle_message(&mut host, &[1, 2]), Ok(()));
    let state = basic_kernel::load_state(&mut host, basic_kernel::PLAYER_ADDRESS).unwrap();
    assert_eq!((state.player_position.x_pos, state.player_position.y_pos), (17, 16));
    assert_eq!(basic_kernel::update_state(&mut host, "a b", &state), Err(RuntimeError::HostErr(HostError::StoreInvalidKey)));
    assert_eq!(basic_kernel::error_text(RuntimeError::DecodingError), "Error DecodingError");
}

#[test]
fn state_is_stored_unless_something_keeps_it() {
    let mut host = host();
    let mut state = State::new(ALICE.to_string());
    state.market_place.sell_item(BOB, Item::Sword, 7);
    assert_eq!(update_state(&mut host, ALICE, &state), Ok(()));
    assert_eq!(
        host.store_read(b"/market-place/tz1bob/01/value", 0, 8).unwrap(),
        vec![0, 0, 0, 0, 0, 0, 0, 7]
    );
    assert_eq!(host.store_read(b"/players/tz1alice/x_pos", 0, 8).unwrap(), vec![0, 0, 0, 0, 0, 0, 0, 16]);
    state.market_place.sell_item("no seller", Item::Potion, 1);
    assert_eq!(
        update_state(&mut host, ALICE, &state),
        Err(RuntimeError::HostErr(HostError::StoreInvalidKey))
    );
    assert_eq!(
        update_state(&mut host, "", &state),
        Err(RuntimeError::HostErr(HostError::StoreInvalidKey))
    );
}

#[test]
fn dungeon_message_succeeds_where_the_state_loads() {
    let mut host = host();
    assert_eq!(basic_kernel::handle_message(&mut host, &[9]), Ok(()));
    assert_eq!(basic_kernel::handle_message(&mut host, &[1, 1]), Ok(()));
    host.store_write(b"/players/tz1cBUPLRLzM77p5iQKTUxfDUp3vwPp9BKfQ/x_pos", &[1], 0).unwrap();
    assert_eq!(basic_kernel::handle_message(&mut host, &[1, 1]), Err(RuntimeError::DecodingError));
    host.store_delete(b"/state/map").unwrap();
    host.store_write(b"/state/map/x", &[1], 0).unwrap();
    host.store_write(b"/players/tz1cBUPLRLzM77p5iQKTUxfDUp3vwPp9BKfQ/x_pos", &[0; 8], 0).unwrap();
    assert_eq!(
        basic_kernel::handle_message(&mut host, &[1, 1]),
        Err(RuntimeError::HostErr(HostError::StoreNotANode))
    );
}
