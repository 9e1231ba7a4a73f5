use sequencer::database::path::{
    dir_prefix_chars, is_root, rebase_below, starts_with, to_chars,
};
use sequencer::database::{clone_strings, clone_value, contains_string, has_duplicates};
use sequencer::database::memory::PathTree;
use sequencer::dungeon::item::Item;
use sequencer::dungeon::player::clone_items;
use sequencer::dungeon::storage::{map_key, player_field};
use sequencer::dungeon_app::storage::load_offers;
use sequencer::host::{path_str, AddInput, HostError, NativeHost, RuntimeError};

fn strings(items: &[&str]) -> Vec<String> {
    items.iter().map(|s| s.to_string()).collect()
}

#[test]
fn characters_and_prefixes() {
    assert_eq!(to_chars("/aé"), vec!['/', 'a', 'é']);
    assert!(to_chars("").is_empty());
    assert!(is_root("/"));
    assert!(!is_root(""));
    assert!(!is_root("//"));
    assert!(!is_root("a"));
    assert_eq!(dir_prefix_chars("/"), vec!['/']);
    assert_eq!(dir_prefix_chars("/a"), vec!['/', 'a', '/']);
    assert_eq!(dir_prefix_chars(""), vec!['/']);
    assert!(starts_with(&to_chars("/a/b"), &to_chars("/a/")));
    assert!(starts_with(&to_chars("/a"), &to_chars("")));
    assert!(!starts_with(&to_chars("/ab"), &to_chars("/a/")));
    assert!(!starts_with(&to_chars("/a"), &to_chars("/a/")));
    assert_eq!(rebase_below(3, "/x", "/a/b/c"), "/x/b/c");
    assert_eq!(rebase_below(1, "/x", "/b"), "/x/b");
    assert_eq!(rebase_below(3, "/", "/a/b"), "/b");
    assert_eq!(rebase_below(3, "/é", "/ü/ß"), "/é/ß");
}

#[test]
fn lists_of_strings() {
    let list = strings(&["a", "b", "a"]);
    assert_eq!(clone_strings(&list), list);
    assert!(contains_string(&list, &"b".to_string()));
    assert!(!contains_string(&list, &"c".to_string()));
    assert!(has_duplicates(&list));
    assert!(!has_duplicates(&strings(&["a", "b", "c"])));
    assert!(!has_duplicates(&[]));
    assert_eq!(clone_value(&Some(vec![1, 2])), Some(vec![1, 2]));
    assert_eq!(clone_value(&None), None);
    assert_eq!(clone_items(&vec![Item::Sword, Item::Potion]), vec![Item::Sword, Item::Potion]);
}

#[test]
fn keys_of_the_host() {
    assert_eq!(path_str(b"/a/b"), Ok("/a/b"));
    assert_eq!(path_str(&[0xc3, 0xa9]), Ok("é"));
    assert_eq!(path_str(&[0xc3]), Err(RuntimeError::HostErr(HostError::StoreInvalidKey)));
    assert_eq!(map_key(), b"/state/map".to_vec());
    assert_eq!(player_field("tz1", "/x"), b"/players/tz1/x".to_vec());
    let mut host = NativeHost::new(PathTree::new());
    assert!(host.can_add_input());
    host.add_input(vec![1]);
    assert!(host.can_add_input());
}

#[test]
fn offers_are_loaded_from_an_index() {
    let mut host = NativeHost::new(PathTree::new());
    host.store_write(b"/market-place/tz1/01/value", &[0, 0, 0, 0, 0, 0, 0, 5], 0).unwrap();
    host.store_write(b"/market-place/tz2/02/value", &[0, 0, 0, 0, 0, 0, 1, 0], 0).unwrap();
    let index = vec![("tz1".to_string(), 0), ("tz2".to_string(), 1), ("tz1".to_string(), 0)];
    let market = load_offers(&host, &index).unwrap();
    assert_eq!(market.get_price("tz1", Item::Sword), Some(5));
    assert_eq!(market.get_price("tz2", Item::Potion), Some(256));
    assert_eq!(market.offers().len(), 2);
    let missing = vec![("tz3".to_string(), 0)];
    assert_eq!(
        load_offers(&host, &missing).map(|m| m.offers().len()),
        Err(RuntimeError::HostErr(HostError::StoreNotANode))
    );
    assert!(load_offers(&host, &vec![]).unwrap().offers().is_empty());
}
