use sequencer::database::memory::PathTree;
use sequencer::host::{
    check_data_size, copy_window, AddInput, HostError, Message, NativeHost, RuntimeError,
    ValueType,
};

fn host() -> NativeHost<PathTree> {
    NativeHost::new(PathTree::new())
}

#[test]
fn inbox_is_first_in_first_out() {
    let mut host = host();
    host.add_input(vec![1]);
    host.add_input(vec![2, 2]);
    host.add_message(Message::new(7, 9, vec![3]));
    let first = host.read_input().unwrap().unwrap();
    assert_eq!((first.level, first.id, first.payload().to_vec()), (0, 0, vec![1]));
    let second = host.read_input().unwrap().unwrap();
    assert_eq!((second.level, second.id, second.payload().to_vec()), (0, 1, vec![2, 2]));
    let third = host.read_input().unwrap().unwrap();
    assert_eq!((third.level, third.id, third.payload().to_vec()), (7, 9, vec![3]));
    assert!(host.read_input().unwrap().is_none());
    assert!(host.read_input().unwrap().is_none());
    host.add_input(vec![4]);
    assert_eq!(host.read_input().unwrap().unwrap().id, 2);
}

#[test]
fn store_write_then_read() {
    let mut host = host();
    host.store_write(b"/a/b", &[1, 2, 3, 4, 5], 0).unwrap();
    assert_eq!(host.store_read(b"/a/b", 0, 10).unwrap(), vec![1, 2, 3, 4, 5]);
    assert_eq!(host.store_read(b"/a/b", 1, 3).unwrap(), vec![2, 3, 4]);
    assert_eq!(host.store_read(b"/a/b", 5, 3).unwrap(), Vec::<u8>::new());
    assert_eq!(host.store_read(b"/a/b", 9, 3).unwrap(), Vec::<u8>::new());
    assert_eq!(host.store_read(b"/a/b", 0, 0).unwrap(), Vec::<u8>::new());
    assert_eq!(host.store_value_size(b"/a/b").unwrap(), 5);
    assert_eq!(host.store_value_size(b"/zzz").unwrap(), 0);
}

#[test]
fn store_write_skips_the_offset() {
    let mut host = host();
    host.store_write(b"/v", &[1, 2, 3, 4], 2).unwrap();
    assert_eq!(host.store_read(b"/v", 0, 10).unwrap(), vec![3, 4]);
    host.store_write(b"/v", &[1, 2], 5).unwrap();
    assert_eq!(host.store_read(b"/v", 0, 10).unwrap(), Vec::<u8>::new());
}

#[test]
fn store_read_of_missing_value_is_not_a_node() {
    let mut host = host();
    assert_eq!(
        host.store_read(b"/nothing", 0, 1),
        Err(RuntimeError::HostErr(HostError::StoreNotANode))
    );
    host.store_write(b"/a/b", &[1], 0).unwrap();
    assert_eq!(host.store_read(b"/a", 0, 1), Err(RuntimeError::HostErr(HostError::StoreNotANode)));
}

#[test]
fn invalid_utf8_key_is_rejected() {
    let mut host = host();
    let bad = [0x2f, 0xff, 0xfe];
    let invalid = RuntimeError::HostErr(HostError::StoreInvalidKey);
    assert_eq!(host.store_read(&bad, 0, 1), Err(invalid));
    assert_eq!(host.store_write(&bad, &[1], 0), Err(invalid));
    assert_eq!(host.store_has(&bad), Err(invalid));
    assert_eq!(host.store_delete(&bad), Err(invalid));
    assert_eq!(host.store_copy(&bad, b"/a"), Err(invalid));
    assert_eq!(host.store_copy(b"/a", &bad), Err(invalid));
    assert_eq!(host.store_move(&bad, b"/a"), Err(invalid));
    assert_eq!(host.store_count_subkeys(&bad), Err(invalid));
    assert_eq!(host.store_get_subkey(&bad, 0), Err(invalid));
    assert_eq!(host.store_value_size(&bad), Err(invalid));
}

#[test]
fn store_has_tells_value_from_subtree() {
    let mut host = host();
    assert_eq!(host.store_has(b"/a").unwrap(), None);
    host.store_write(b"/a/b", &[1], 0).unwrap();
    assert_eq!(host.store_has(b"/a").unwrap(), Some(ValueType::Subtree));
    assert_eq!(host.store_has(b"/a/b").unwrap(), Some(ValueType::Value));
    host.store_write(b"/a", &[1], 0).unwrap();
    assert_eq!(host.store_has(b"/a").unwrap(), Some(ValueType::ValueWithSubtree));
}

#[test]
fn store_delete_cascades() {
    let mut host = host();
    host.store_write(b"/a/b", &[1], 0).unwrap();
    host.store_write(b"/a/c", &[2], 0).unwrap();
    host.store_delete(b"/a").unwrap();
    assert_eq!(host.store_has(b"/a/b").unwrap(), None);
    assert_eq!(host.store_has(b"/a/c").unwrap(), None);
    assert_eq!(host.store_has(b"/a").unwrap(), None);
    host.store_delete(b"/a").unwrap();
}

#[test]
fn store_copy_and_move() {
    let mut host = host();
    host.store_write(b"/a", &[1], 0).unwrap();
    host.store_write(b"/a/b", &[2], 0).unwrap();
    host.store_copy(b"/a", b"/c").unwrap();
    assert_eq!(host.store_read(b"/c/b", 0, 8).unwrap(), vec![2]);
    assert_eq!(host.store_read(b"/a/b", 0, 8).unwrap(), vec![2]);
    host.store_move(b"/a", b"/d").unwrap();
    assert_eq!(host.store_read(b"/d", 0, 8).unwrap(), vec![1]);
    assert_eq!(host.store_read(b"/d/b", 0, 8).unwrap(), vec![2]);
    assert_eq!(host.store_has(b"/a").unwrap(), None);
    assert_eq!(host.store_has(b"/a/b").unwrap(), None);
}

#[test]
fn subkeys_are_counted() {
    let mut host = host();
    host.store_write(b"/a/b", &[1], 0).unwrap();
    host.store_write(b"/a/c", &[1], 0).unwrap();
    assert_eq!(host.store_count_subkeys(b"/a").unwrap(), 2);
    assert_eq!(host.store_count_subkeys(b"/a/b").unwrap(), 0);
    assert_eq!(
        host.store_count_subkeys(b"/zzz"),
        Err(RuntimeError::HostErr(HostError::StoreNotANode))
    );
}

#[test]
fn subkey_by_index() {
    let mut host = host();
    host.store_write(b"/a/b", &[1], 0).unwrap();
    let bad_index = Err(RuntimeError::HostErr(HostError::StoreInvalidSubkeyIndex));
    // A child's segment has no leading separator, so it is no storage path.
    assert_eq!(host.store_get_subkey(b"/a", 0), bad_index);
    assert_eq!(host.store_get_subkey(b"/a", 1), bad_index);
    assert_eq!(host.store_get_subkey(b"/a", -1), bad_index);
    assert_eq!(host.store_get_subkey(b"/zzz", -1), bad_index);
    assert_eq!(
        host.store_get_subkey(b"/zzz", 0),
        Err(RuntimeError::HostErr(HostError::StoreNotANode))
    );
}

#[test]
fn data_size_is_checked() {
    let data = [1u8, 2, 3];
    assert_eq!(check_data_size(&data), Ok(&data[..]));
    assert_eq!(check_data_size(&[]), Ok(&[][..]));
}

#[test]
fn oversized_values_are_rejected() {
    let big = vec![0u8; 0x8000_0000];
    let exceeded = RuntimeError::HostErr(HostError::StoreValueSizeExceeded);
    assert_eq!(check_data_size(&big), Err(exceeded));
    let mut host = host();
    assert_eq!(host.store_write(b"/big", &big, 0), Err(exceeded));
    assert_eq!(host.store_has(b"/big").unwrap(), None);
    assert!(check_data_size(&big[1..]).is_ok());
}

#[test]
fn windows_of_bytes() {
    assert_eq!(copy_window(&[1, 2, 3, 4], 1, 2), vec![2, 3]);
    assert_eq!(copy_window(&[1, 2, 3, 4], 1, 9), vec![2, 3, 4]);
    assert_eq!(copy_window(&[1, 2, 3, 4], 4, 9), Vec::<u8>::new());
    assert_eq!(copy_window(&[1, 2, 3, 4], usize::MAX, usize::MAX), Vec::<u8>::new());
}

#[test]
fn debug_output_is_kept_out_of_the_store() {
    let mut host = host();
    host.write_debug("hello");
    assert_eq!(host.database().len(), 0);
    assert!(host.read_input().unwrap().is_none());
}
