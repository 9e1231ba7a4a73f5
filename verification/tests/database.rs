use sequencer::database::memory::PathTree;
use sequencer::database::path::{get_all_subkeys, join_child, split_segments};
use sequencer::database::{Database, Node};

fn strings(items: &[&str]) -> Vec<String> {
    items.iter().map(|s| s.to_string()).collect()
}

#[test]
fn test_write() {
    let mut database = PathTree::new();
    let data = [0x01, 0x02, 0x03, 0x04];
    let res = database.write("/path", &data);
    assert!(res.is_ok())
}

#[test]
fn test_read() {
    let mut database = PathTree::new();
    let data = [0x01, 0x02, 0x03, 0x04];

    let _ = database.write("/path", &data).unwrap();
    let res = database.read("/path").unwrap().unwrap();

    assert_eq!(res, data.to_vec());
}

#[test]
fn test_delete() {
    let mut database = PathTree::new();
    let data = [0x01, 0x02, 0x03, 0x04];

    let _ = database.write("/path", &data).unwrap();
    let () = database.delete("/path").unwrap();
    let res = database.read("/path").unwrap();

    assert!(res.is_none());
}

#[test]
fn test_get_subkeys() {
    let mut database = PathTree::new();
    let data = [0x01, 0x02, 0x03, 0x04];

    let _ = database.write("/path/sub", &data).unwrap();
    let root_res = database.get_subkeys("/").unwrap();
    let path_res = database.get_subkeys("/path").unwrap();
    let sub_res = database.get_subkeys("/path/sub").unwrap();

    assert_eq!(root_res, vec!["path"]);
    assert_eq!(path_res, vec!["sub"]);
    assert!(sub_res.is_empty());
}

#[test]
fn write_returns_the_data() {
    let mut database = PathTree::new();
    let data = [7u8, 8, 9];
    assert_eq!(database.write("/a", &data).unwrap(), &data[..]);
}

#[test]
fn read_after_write_round_trip() {
    let mut database = PathTree::new();
    for (path, value) in [("/", vec![1u8]), ("/a", vec![]), ("/a/b/c", vec![0, 255]), ("x", vec![3])] {
        database.write(path, &value).unwrap();
        assert_eq!(database.read(path).unwrap(), Some(value));
    }
}

#[test]
fn root_can_hold_a_value() {
    let mut database = PathTree::new();
    database.write("/", &[5]).unwrap();
    assert_eq!(database.read("/").unwrap(), Some(vec![5]));
    assert!(database.get_subkeys("/").unwrap().is_empty());
    assert_eq!(database.len(), 1);
    database.write("/a", &[6]).unwrap();
    assert_eq!(database.read("/").unwrap(), Some(vec![5]));
    assert_eq!(database.get_subkeys("/").unwrap(), strings(&["a"]));
}

#[test]
fn read_of_absent_or_valueless_node_is_none() {
    let mut database = PathTree::new();
    assert_eq!(database.read("/nothing").unwrap(), None);
    database.write("/a/b", &[1]).unwrap();
    assert_eq!(database.read("/a").unwrap(), None);
    assert_eq!(database.read("/").unwrap(), None);
}

#[test]
fn write_materializes_ancestors() {
    let mut database = PathTree::new();
    database.write("/a/b/c", &[1]).unwrap();
    assert!(database.get_subkeys("/").unwrap().contains(&"a".to_string()));
    assert!(database.get_subkeys("/a").unwrap().contains(&"b".to_string()));
    assert!(database.get_subkeys("/a/b").unwrap().contains(&"c".to_string()));
    assert!(database.read_node("/a").unwrap().is_some());
    assert!(database.read_node("/a/b").unwrap().is_some());
}

#[test]
fn writing_twice_keeps_one_child_entry() {
    let mut database = PathTree::new();
    database.write("/a/b", &[1]).unwrap();
    database.write("/a/b", &[2]).unwrap();
    assert_eq!(database.get_subkeys("/a").unwrap(), strings(&["b"]));
    assert_eq!(database.get_subkeys("/").unwrap(), strings(&["a"]));
    assert_eq!(database.read("/a/b").unwrap(), Some(vec![2]));
}

#[test]
fn children_keep_insertion_order() {
    let mut database = PathTree::new();
    database.write("/a/z", &[1]).unwrap();
    database.write("/a/b", &[1]).unwrap();
    database.write("/a/m", &[1]).unwrap();
    database.write("/a/b", &[1]).unwrap();
    assert_eq!(database.get_subkeys("/a").unwrap(), strings(&["z", "b", "m"]));
}

#[test]
fn write_keeps_children_of_the_written_node() {
    let mut database = PathTree::new();
    database.write("/a/b", &[1]).unwrap();
    database.write("/a", &[9]).unwrap();
    assert_eq!(database.get_subkeys("/a").unwrap(), strings(&["b"]));
    assert_eq!(database.read("/a").unwrap(), Some(vec![9]));
    assert_eq!(database.read("/a/b").unwrap(), Some(vec![1]));
}

#[test]
fn delete_cascades() {
    let mut database = PathTree::new();
    database.write("/a/b", &[1]).unwrap();
    database.write("/a/c", &[2]).unwrap();
    database.write("/ab", &[3]).unwrap();
    database.delete("/a").unwrap();
    assert_eq!(database.read("/a/b").unwrap(), None);
    assert_eq!(database.read("/a/c").unwrap(), None);
    assert!(database.get_subkeys("/a").unwrap().is_empty());
    assert!(database.read_node("/a").unwrap().is_none());
    assert_eq!(database.read("/ab").unwrap(), Some(vec![3]));
}

#[test]
fn delete_of_absent_path_changes_nothing() {
    let mut database = PathTree::new();
    database.write("/a/b", &[1]).unwrap();
    let before = database.len();
    database.delete("/zzz").unwrap();
    assert_eq!(database.len(), before);
    assert_eq!(database.read("/a/b").unwrap(), Some(vec![1]));
}

#[test]
fn delete_of_root_discards_the_tree() {
    let mut database = PathTree::new();
    database.write("/a/b", &[1]).unwrap();
    database.write("/c", &[2]).unwrap();
    database.delete("/").unwrap();
    assert_eq!(database.len(), 0);
}

#[test]
fn copy_duplicates_the_subtree() {
    let mut database = PathTree::new();
    database.write("/a", &[1]).unwrap();
    database.write("/a/b", &[2]).unwrap();
    database.write("/a/b/c", &[3]).unwrap();
    database.write("/x/y/old", &[9]).unwrap();
    database.copy("/a", "/x/y").unwrap();
    assert_eq!(database.read("/x/y").unwrap(), Some(vec![1]));
    assert_eq!(database.read("/x/y/b").unwrap(), Some(vec![2]));
    assert_eq!(database.read("/x/y/b/c").unwrap(), Some(vec![3]));
    assert_eq!(database.get_subkeys("/x/y").unwrap(), strings(&["b"]));
    assert_eq!(database.get_subkeys("/x/y/b").unwrap(), strings(&["c"]));
    assert_eq!(database.read("/x/y/old").unwrap(), None);
    assert_eq!(database.get_subkeys("/x").unwrap(), strings(&["y"]));
    assert_eq!(database.read("/a/b/c").unwrap(), Some(vec![3]));
}

#[test]
fn copy_links_the_ancestors_of_the_destination() {
    let mut database = PathTree::new();
    database.write("/a/b", &[2]).unwrap();
    database.copy("/a", "/p/q").unwrap();
    assert_eq!(database.get_subkeys("/").unwrap(), strings(&["a", "p"]));
    assert_eq!(database.get_subkeys("/p").unwrap(), strings(&["q"]));
    assert_eq!(database.read("/p/q/b").unwrap(), Some(vec![2]));
    assert_eq!(database.read("/p/q").unwrap(), None);
}

#[test]
fn copy_of_absent_source_changes_nothing() {
    let mut database = PathTree::new();
    database.write("/x/y", &[9]).unwrap();
    let before = database.len();
    database.copy("/nothing", "/x").unwrap();
    assert_eq!(database.len(), before);
    assert_eq!(database.read("/x/y").unwrap(), Some(vec![9]));
}

#[test]
fn copy_from_and_to_the_root() {
    let mut database = PathTree::new();
    database.write("/a/b", &[2]).unwrap();
    database.copy("/", "/r").unwrap();
    assert_eq!(database.read("/r/a/b").unwrap(), Some(vec![2]));
    assert!(database.get_subkeys("/r").unwrap().contains(&"a".to_string()));

    let mut other = PathTree::new();
    other.write("/s/t", &[5]).unwrap();
    other.write("/s", &[4]).unwrap();
    other.copy("/s", "/").unwrap();
    assert_eq!(other.read("/").unwrap(), Some(vec![4]));
    assert_eq!(other.read("/t").unwrap(), Some(vec![5]));
    assert_eq!(other.read("/s/t").unwrap(), None);
}

#[test]
fn read_node_gives_the_whole_record() {
    let mut database = PathTree::new();
    database.write("/a/b", &[1]).unwrap();
    let node = database.read_node("/a").unwrap().unwrap();
    assert_eq!(node.key(), "/a");
    assert_eq!(node.value(), &None);
    assert_eq!(node.children(), &strings(&["b"])[..]);
    let copy = node.duplicate();
    assert_eq!(copy.key(), "/a");
    let made = Node::new("/k".to_string(), Some(vec![1]), strings(&["c"]));
    assert_eq!(made.value(), &Some(vec![1]));
}

#[test]
fn ancestors_of_a_path() {
    let links = get_all_subkeys("/a/b/c/d");
    let expected: Vec<(String, String)> = [("/", "a"), ("/a", "b"), ("/a/b", "c"), ("/a/b/c", "d")]
        .iter()
        .map(|(p, s)| (p.to_string(), s.to_string()))
        .collect();
    assert_eq!(links, expected);
    assert!(get_all_subkeys("/").is_empty());
    assert_eq!(get_all_subkeys("/a/"), vec![
        ("/".to_string(), "a".to_string()),
        ("/a".to_string(), "".to_string()),
    ]);
    assert!(get_all_subkeys("abc").is_empty());
}

#[test]
fn segments_of_a_path() {
    assert_eq!(split_segments("/a/bc"), strings(&["a", "bc"]));
    assert_eq!(split_segments("/a//b/"), strings(&["a", "", "b", ""]));
    assert_eq!(split_segments("/é/ü"), strings(&["é", "ü"]));
    assert!(split_segments("").is_empty());
    assert_eq!(join_child("/", "a"), "/a");
    assert_eq!(join_child("/a", "b"), "/a/b");
}

#[test]
fn add_subkey_is_set_like() {
    let mut database = PathTree::new();
    database.add_subkey("/p", "a");
    database.add_subkey("/p", "b");
    database.add_subkey("/p", "a");
    assert_eq!(database.get_subkeys("/p").unwrap(), strings(&["a", "b"]));
    assert_eq!(database.read("/p").unwrap(), None);
}
