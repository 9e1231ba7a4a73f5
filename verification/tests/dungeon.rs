use sequencer::dungeon::item::Item;
use sequencer::dungeon::map::{map_idx, TileMap, TileType, MAP_HEIGHT, MAP_WIDTH};
use sequencer::dungeon::player::{Player, MAX_ITEMS};
use sequencer::dungeon::player_actions::{decode_action, find_dash, PlayerAction, PlayerMsg};
use sequencer::dungeon::state::State;

#[test]
fn items_are_made() {
    assert_eq!(Item::new_sword(), Item::Sword);
    assert_eq!(Item::new_potion(), Item::Potion);
    assert_eq!(TileMap::new().get_sword(), Item::Sword);
    assert_eq!(TileMap::get_potion(), Item::Potion);
}

#[test]
fn new_map_has_wall_sword_and_potion() {
    let map = TileMap::new();
    assert_eq!(map.tiles.len(), MAP_WIDTH * MAP_HEIGHT);
    assert_eq!(map.tiles[0], TileType::Wall);
    assert_eq!(map.tiles[48], TileType::Floor(Some(Item::Sword)));
    assert_eq!(map.tiles[970], TileType::Floor(Some(Item::Potion)));
    assert_eq!(map.tiles[1], TileType::Floor(None));
    assert_eq!(map.tiles[1023], TileType::Floor(None));
    assert_eq!(map_idx(16, 1), 48);
    assert_eq!(map_idx(10, 30), 970);
    assert_eq!(map.get_tile(16, 1), Some(TileType::Floor(Some(Item::Sword))));
    assert_eq!(map.get_tile(0, 0), Some(TileType::Wall));
    assert_eq!(map.get_tile(0, 32), None);
    assert_eq!(map.get_tile(usize::MAX, usize::MAX), None);
    assert_eq!(map.index_of(31, 31), Some(1023));
    assert!(!map.can_enter_tile(0, 0));
    assert!(map.can_enter_tile(16, 1));
    assert!(map.can_enter_tile(1, 0));
    assert!(!map.can_enter_tile(0, 32));
}

#[test]
fn items_leave_and_enter_the_map() {
    let map = TileMap::new().remove_item(16, 1);
    assert_eq!(map.get_tile(16, 1), Some(TileType::Floor(None)));
    let map = map.remove_item(0, 0).remove_item(3, 3).remove_item(0, 99);
    assert_eq!(map.get_tile(0, 0), Some(TileType::Wall));
    let map = map.add_item(3, 3, Item::Potion);
    assert_eq!(map.get_tile(3, 3), Some(TileType::Floor(Some(Item::Potion))));
    let map = map.add_item(3, 3, Item::Sword).add_item(0, 0, Item::Sword);
    assert_eq!(map.get_tile(3, 3), Some(TileType::Floor(Some(Item::Potion))));
    assert_eq!(map.get_tile(0, 0), Some(TileType::Wall));
}

#[test]
fn player_moves() {
    let player = Player::new(3, 4);
    assert!(player.inventory.is_empty());
    let up = player.move_up();
    assert_eq!((up.x_pos, up.y_pos), (3, 3));
    let down = player.move_down();
    assert_eq!((down.x_pos, down.y_pos), (3, 5));
    let left = player.move_left();
    assert_eq!((left.x_pos, left.y_pos), (2, 4));
    let right = player.move_right();
    assert_eq!((right.x_pos, right.y_pos), (4, 4));
    let corner = Player::new(0, 0);
    assert_eq!((corner.move_up().x_pos, corner.move_up().y_pos), (0, 0));
    assert_eq!((corner.move_left().x_pos, corner.move_left().y_pos), (0, 0));
}

#[test]
fn inventory_takes_items_up_to_its_limit() {
    let mut player = Player::new(0, 0);
    for _ in 0..5 {
        player = player.add_item(Item::Sword);
    }
    assert_eq!(player.inventory.len(), MAX_ITEMS + 1);
    let (player, item) = player.remove_item(1);
    assert_eq!(item, Some(Item::Sword));
    assert_eq!(player.inventory.len(), 2);
    let (player, item) = player.remove_item(2);
    assert_eq!(item, None);
    assert_eq!(player.inventory.len(), 2);
    assert_eq!(player.duplicate().inventory, player.inventory);
}

#[test]
fn state_starts_in_the_middle() {
    let state = State::new();
    assert_eq!((state.player_position.x_pos, state.player_position.y_pos), (16, 16));
    assert_eq!(state.map.tiles.len(), 1024);
}

#[test]
fn transition_moves_only_onto_floor() {
    let state = State::new().transition(PlayerAction::MoveUp);
    assert_eq!((state.player_position.x_pos, state.player_position.y_pos), (16, 15));
    let state = state.transition(PlayerAction::MoveLeft).transition(PlayerAction::MoveDown);
    assert_eq!((state.player_position.x_pos, state.player_position.y_pos), (15, 16));
    let state = state.transition(PlayerAction::MoveRight);
    assert_eq!((state.player_position.x_pos, state.player_position.y_pos), (16, 16));
    let mut state = State::new();
    state.player_position = Player::new(1, 0);
    let state = state.transition(PlayerAction::MoveLeft);
    assert_eq!((state.player_position.x_pos, state.player_position.y_pos), (1, 0));
    let mut state = State::new();
    state.player_position = Player::new(31, 31);
    let state = state.transition(PlayerAction::MoveRight);
    assert_eq!((state.player_position.x_pos, state.player_position.y_pos), (31, 31));
}

#[test]
fn pick_up_and_drop() {
    let mut state = State::new();
    state.player_position = Player::new(16, 1);
    let state = state.transition(PlayerAction::PickUp);
    assert_eq!(state.player_position.inventory, vec![Item::Sword]);
    assert_eq!(state.map.get_tile(16, 1), Some(TileType::Floor(None)));
    let state = state.pick_up();
    assert_eq!(state.player_position.inventory, vec![Item::Sword]);
    let state = state.transition(PlayerAction::Drop(1));
    assert_eq!(state.player_position.inventory, vec![Item::Sword]);
    let state = state.transition(PlayerAction::Drop(0));
    assert!(state.player_position.inventory.is_empty());
    assert_eq!(state.map.get_tile(16, 1), Some(TileType::Floor(Some(Item::Sword))));
    let state = state.pick_up();
    let mut state = state;
    state.player_position.x_pos = 10;
    state.player_position.y_pos = 30;
    let state = state.drop_item(0);
    assert_eq!(state.player_position.inventory, vec![Item::Sword]);
    assert_eq!(state.map.get_tile(10, 30), Some(TileType::Floor(Some(Item::Potion))));
}

#[test]
fn messages_are_parsed() {
    let msg = PlayerMsg::try_from(b"\x01tz1abc-01".to_vec()).unwrap();
    assert_eq!(msg.public_key, "tz1abc");
    assert_eq!(msg.action, PlayerAction::MoveUp);
    let cases: [(&[u8], PlayerAction); 7] = [
        (b"01", PlayerAction::MoveUp),
        (b"02", PlayerAction::MoveDown),
        (b"03", PlayerAction::MoveLeft),
        (b"04", PlayerAction::MoveRight),
        (b"05", PlayerAction::PickUp),
        (b"0600", PlayerAction::Drop(0)),
        (b"0601", PlayerAction::Drop(1)),
    ];
    for (code, action) in cases {
        let mut data = b"\x01key-".to_vec();
        data.extend_from_slice(code);
        assert_eq!(PlayerMsg::try_from(data).unwrap().action, action);
        assert_eq!(decode_action(code), Some(action));
    }
    let msg = PlayerMsg::try_from(b"\x01-05-ignored-too".to_vec()).unwrap();
    assert_eq!(msg.public_key, "");
    assert_eq!(msg.action, PlayerAction::PickUp);
}

#[test]
fn malformed_messages_are_rejected() {
    assert!(PlayerMsg::try_from(vec![]).is_err());
    assert!(PlayerMsg::try_from(b"\x00key-01".to_vec()).is_err());
    assert!(PlayerMsg::try_from(b"key-01".to_vec()).is_err());
    assert!(PlayerMsg::try_from(b"\x01key01".to_vec()).is_err());
    assert!(PlayerMsg::try_from(b"\x01key-".to_vec()).is_err());
    assert!(PlayerMsg::try_from(b"\x01key-07".to_vec()).is_err());
    assert!(PlayerMsg::try_from(b"\x01key-0602".to_vec()).is_err());
    assert!(PlayerMsg::try_from(b"\x01key-010".to_vec()).is_err());
    assert!(PlayerMsg::try_from(b"\x01\xff\xfe-01".to_vec()).is_err());
    assert_eq!(decode_action(b""), None);
    assert_eq!(decode_action(b"1"), None);
    assert_eq!(decode_action(b"11"), None);
    assert_eq!(find_dash(b"ab-cd-", 0), 2);
    assert_eq!(find_dash(b"ab-cd-", 3), 5);
    assert_eq!(find_dash(b"abcd", 1), 4);
}
