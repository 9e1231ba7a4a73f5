use sequencer::bytes::{be_encode, copy_range, u64_from_be_bytes, u64_to_be_bytes};
use sequencer::counter_kernel::{self, CounterKernel};
use sequencer::database::memory::PathTree;
use sequencer::database::Database;
use sequencer::database::Node as Record;
use sequencer::filtering::{filter_external, MAGIC_BYTE};
use sequencer::endpoints::{
    get_durable_state, get_subkeys, post_operation, state_endpoint, subkeys_endpoint, Body, Path,
};
use sequencer::host::{Message, NativeHost, RuntimeError};
use sequencer::injector::{encode_batch, injection_result, plan_injection, Injection};
use sequencer::kernel::{entry, read_counter, write_counter, Counter, DummyKernel, Kernel};
use sequencer::low_latency::LowLatency;
use sequencer::node::{Dispatched, Node, QueueContent, TezosHeader};
use sequencer::sequencer::{Sequencer, FIRST_INDEX};
use sequencer::tezos_listener::TezosListener;

fn header(level: u32) -> TezosHeader {
    TezosHeader { hash: "BLhash".to_string(), level, predecessor: "BLpred".to_string() }
}

fn node() -> Node<DummyKernel, PathTree> {
    Node::new(PathTree::new())
}

#[test]
fn sequencer_orders_operations() {
    let mut sequencer = Sequencer::new();
    let first = vec![1u8];
    let second = vec![2u8, 2];
    let third = vec![3u8, 3, 3];
    let one = sequencer.on_operation(first.clone());
    let two = sequencer.on_operation(second.clone());
    let three = sequencer.on_operation(third.clone());
    assert_eq!((one.level, two.level, three.level), (0, 0, 0));
    assert_eq!(one.id, FIRST_INDEX);
    assert!(one.id < two.id && two.id < three.id);
    assert_eq!((one.id, two.id, three.id), (0, 1, 2));
    assert_eq!(two.payload(), &second[..]);
    let drained = sequencer.on_tezos_header(&header(42));
    assert_eq!(drained, vec![first, second, third]);
    let next = sequencer.on_operation(vec![9]);
    assert_eq!((next.level, next.id), (42, FIRST_INDEX));
    assert_eq!(sequencer.on_tezos_header(&header(43)), vec![vec![9u8]]);
    assert!(sequencer.on_tezos_header(&header(44)).is_empty());
    assert!(sequencer.has_room());
}

#[test]
fn counter_kernel_counts_messages() {
    let mut host = NativeHost::new(PathTree::new());
    assert!(read_counter(&mut host).unwrap().is_none());
    host.add_message(Message::new(0, 0, vec![1]));
    host.add_message(Message::new(0, 1, vec![2]));
    host.add_message(Message::new(0, 2, vec![3]));
    assert_eq!(entry(&mut host), Ok(()));
    assert_eq!(read_counter(&mut host).unwrap().unwrap().value(), 3);
    assert_eq!(host.store_read(b"/counter", 0, 8).unwrap(), vec![0, 0, 0, 0, 0, 0, 0, 3]);
    assert!(host.read_input().unwrap().is_none());
    assert_eq!(entry(&mut host), Ok(()));
    assert_eq!(read_counter(&mut host).unwrap().unwrap().value(), 3);
}

#[test]
fn counter_kernel_stops_at_unreadable_counter() {
    let mut host = NativeHost::new(PathTree::new());
    host.store_write(b"/counter", &[1, 2, 3], 0).unwrap();
    host.add_message(Message::new(0, 0, vec![1]));
    host.add_message(Message::new(0, 1, vec![2]));
    assert_eq!(<DummyKernel as Kernel<PathTree>>::entry(&mut host), Err(RuntimeError::DecodingError));
    assert_eq!(host.store_read(b"/counter", 0, 8).unwrap(), vec![1, 2, 3]);
    assert_eq!(host.read_input().unwrap().unwrap().id, 1);
}

#[test]
fn counter_kernel_stops_at_the_largest_counter() {
    let mut host = NativeHost::new(PathTree::new());
    host.store_write(b"/counter", &[255; 8], 0).unwrap();
    host.add_message(Message::new(0, 0, vec![1]));
    assert_eq!(entry(&mut host), Err(RuntimeError::DecodingError));
    assert_eq!(host.store_read(b"/counter", 0, 8).unwrap(), vec![255; 8]);
}

#[test]
fn counter_is_written_big_endian() {
    let mut host = NativeHost::new(PathTree::new());
    let counter = Counter::default().increment().increment();
    assert_eq!(counter.value(), 2);
    write_counter(&mut host, &counter).unwrap();
    assert_eq!(host.store_read(b"/counter", 0, 8).unwrap(), vec![0, 0, 0, 0, 0, 0, 0, 2]);
}

#[test]
fn executor_runs_the_kernel_on_each_operation() {
    let mut executor: LowLatency<DummyKernel, PathTree> =
        LowLatency::new(NativeHost::new(PathTree::new()));
    assert_eq!(executor.on_operation(Message::new(0, 0, vec![1])), Ok(()));
    assert_eq!(executor.on_operation(Message::new(0, 1, vec![1])), Ok(()));
    executor.on_tezos_header(&header(5));
    let stored = executor.native_host().database().read("/counter").unwrap();
    assert_eq!(stored, Some(vec![0, 0, 0, 0, 0, 0, 0, 2]));
}

#[test]
fn node_applies_operations_in_order() {
    let mut node = node();
    for i in 0..10u8 {
        assert!(node.can_accept());
        assert_eq!(node.on_operation(vec![i]), Ok(()));
        let expected = (i as u64 + 1).to_be_bytes().to_vec();
        assert_eq!(node.get_state("/counter"), Some(expected));
    }
    let batch = node.on_tezos_header(&header(3));
    let expected: Vec<Vec<u8>> = (0..10u8).map(|i| vec![i]).collect();
    assert_eq!(batch, expected);
    assert_eq!(node.get_state("/counter"), Some(vec![0, 0, 0, 0, 0, 0, 0, 10]));
}

#[test]
fn node_dispatches_queue_entries() {
    let mut node = node();
    match node.dispatch(QueueContent::Message(vec![1, 2])) {
        Dispatched::Operation(res) => assert_eq!(res, Ok(())),
        Dispatched::Header(_) => panic!("an operation was dispatched"),
    }
    match node.dispatch(QueueContent::TezosHeader(header(8))) {
        Dispatched::Header(batch) => assert_eq!(batch, vec![vec![1u8, 2]]),
        Dispatched::Operation(_) => panic!("a header was dispatched"),
    }
    match node.dispatch(QueueContent::TezosHeader(header(9))) {
        Dispatched::Header(batch) => assert!(batch.is_empty()),
        Dispatched::Operation(_) => panic!("a header was dispatched"),
    }
}

#[test]
fn node_reads_bypass_the_queue() {
    let mut node = node();
    assert_eq!(node.get_state("/counter"), None);
    assert_eq!(node.get_subkeys("/"), Some(vec![]));
    node.on_operation(vec![1]).unwrap();
    assert_eq!(node.get_subkeys("/"), Some(vec!["counter".to_string()]));
    assert_eq!(node.get_subkeys("/counter"), Some(vec![]));
    assert_eq!(node.get_subkeys("/foo"), Some(vec![]));
}

#[test]
fn end_to_end_counter_scenario() {
    let mut node = node();
    let body = Body { data: "8801010101".to_string() };
    for _ in 0..2 {
        let operation = post_operation(&body).unwrap();
        assert_eq!(operation, vec![0x88, 1, 1, 1, 1]);
        assert_eq!(node.on_operation(operation), Ok(()));
    }
    let response = state_endpoint(&node, &Path::new("/counter".to_string()));
    assert_eq!(response.status, 200);
    assert_eq!(response.body, "0000000000000002");
    let response = state_endpoint(&node, &Path::new("/foo".to_string()));
    assert_eq!(response.status, 404);
    assert_eq!(response.body, "");
    let response = subkeys_endpoint(&node, &Path::new("/foo".to_string()));
    assert_eq!(response.status, 200);
    assert_eq!(response.body, "[]");
    let response = subkeys_endpoint(&node, &Path::new("/".to_string()));
    assert_eq!(response.body, "[\"counter\"]");
}

#[test]
fn operations_are_decoded_from_hex() {
    assert_eq!(post_operation(&Body { data: "00010101".to_string() }), Some(vec![0, 1, 1, 1]));
    assert_eq!(post_operation(&Body { data: "AbcD".to_string() }), Some(vec![0xab, 0xcd]));
    assert_eq!(post_operation(&Body { data: "".to_string() }), Some(vec![]));
    assert_eq!(post_operation(&Body { data: "abc".to_string() }), None);
    assert_eq!(post_operation(&Body { data: "zz".to_string() }), None);
    assert_eq!(post_operation(&Body { data: "é0".to_string() }), None);
}

#[test]
fn responses_of_the_read_endpoints() {
    let found = get_durable_state(Some(vec![0, 0x1f, 0xa0, 0xff]));
    assert_eq!((found.status, found.body.as_str()), (200, "001fa0ff"));
    let missing = get_durable_state(None);
    assert_eq!((missing.status, missing.body.as_str()), (404, ""));
    let listed = get_subkeys(Some(vec!["a".to_string(), "b\"c".to_string()]));
    assert_eq!((listed.status, listed.body.as_str()), (200, "[\"a\",\"b\\\"c\"]"));
    let failed = get_subkeys(None);
    assert_eq!((failed.status, failed.body.as_str()), (500, ""));
    assert_eq!(Path::new("/p".to_string()).as_str(), "/p");
}

#[test]
fn batches_are_planned_for_injection() {
    assert!(matches!(plan_injection(&vec![]), Injection::Nothing));
    match plan_injection(&vec![vec![0x01, 0xab], vec![], vec![0xff]]) {
        Injection::Body(body) => assert_eq!(body, "[\"01ab\",\"\",\"ff\"]"),
        _ => panic!("a body was expected"),
    }
    assert_eq!(encode_batch(&vec![vec![0x0f, 0xf0]]), vec!["0ff0".to_string()]);
    assert_eq!(injection_result(200), Ok(()));
    assert_eq!(injection_result(201), Err(()));
    assert_eq!(injection_result(500), Err(()));
}

#[test]
fn listener_forwards_decoded_headers() {
    assert!(TezosListener::on_frame(None).is_none());
    match TezosListener::on_frame(Some(header(12))) {
        Some(QueueContent::TezosHeader(h)) => {
            assert_eq!(h.level, 12);
            assert_eq!(h.hash, "BLhash");
            assert_eq!(h.predecessor, "BLpred");
        }
        _ => panic!("the header was expected"),
    }
}

#[test]
fn big_endian_numbers() {
    assert_eq!(u64_to_be_bytes(2), vec![0, 0, 0, 0, 0, 0, 0, 2]);
    assert_eq!(u64_to_be_bytes(0x0102030405060708), vec![1, 2, 3, 4, 5, 6, 7, 8]);
    assert_eq!(u64_to_be_bytes(u64::MAX), vec![255; 8]);
    assert_eq!(u64_from_be_bytes(&[1, 2, 3, 4, 5, 6, 7, 8]), 0x0102030405060708);
    assert_eq!(u64_from_be_bytes(&[255; 8]), u64::MAX);
    assert_eq!(u64_from_be_bytes(&[0; 8]), 0);
    assert_eq!(be_encode(0x010203, 2), vec![2, 3]);
    assert_eq!(be_encode(7, 0), Vec::<u8>::new());
    assert_eq!(copy_range(&[1, 2, 3, 4], 1, 3), vec![2, 3]);
    for value in [0u64, 1, 255, 256, 65535, 1 << 40, u64::MAX - 1] {
        assert_eq!(u64_from_be_bytes(&u64_to_be_bytes(value)), value);
        assert_eq!(u64_to_be_bytes(value), value.to_be_bytes().to_vec());
    }
}

#[test]
fn filtering_kernel_reads_messages_with_its_magic_byte() {
    assert_eq!(MAGIC_BYTE, 0x1a);
    assert_eq!(filter_external(&[0x1a, 1, 2]), Some(&[1u8, 2][..]));
    assert_eq!(filter_external(&[0x1a]), Some(&[][..]));
    assert_eq!(filter_external(&[0x1b, 1, 2]), None);
    assert_eq!(filter_external(&[]), None);
}

#[test]
fn tree_is_restored_from_its_records() {
    let mut tree = PathTree::new();
    tree.write("/a/b", &[1]).unwrap();
    tree.write("/c", &[2]).unwrap();
    let records = tree.export();
    assert_eq!(records.len(), 4);
    let restored = PathTree::restore(records).unwrap();
    assert_eq!(restored.read("/a/b").unwrap(), Some(vec![1]));
    assert_eq!(restored.get_subkeys("/").unwrap(), vec!["a".to_string(), "c".to_string()]);
    let twice = vec![
        Record::new("/a".to_string(), None, vec![]),
        Record::new("/a".to_string(), Some(vec![1]), vec![]),
    ];
    assert!(PathTree::restore(twice).is_none());
    let repeated = vec![Record::new("/a".to_string(), None, vec!["b".to_string(), "b".to_string()])];
    assert!(PathTree::restore(repeated).is_none());
    assert_eq!(PathTree::restore(vec![]).unwrap().len(), 0);
    let node: Node<DummyKernel, PathTree> = Node::new(restored);
    assert_eq!(node.database().len(), 4);
}

#[test]
fn tagged_counter_kernel_counts_only_its_messages() {
    let mut host = NativeHost::new(PathTree::new());
    assert_eq!(counter_kernel::read_counter(&mut host), Ok(0));
    host.add_message(Message::new(0, 0, vec![0x01, 0x88, 1, 2]));
    host.add_message(Message::new(0, 1, vec![0x01, 0x87]));
    host.add_message(Message::new(0, 2, vec![0x00, 0x88]));
    host.add_message(Message::new(0, 3, vec![0x01]));
    host.add_message(Message::new(0, 4, vec![]));
    host.add_message(Message::new(0, 5, vec![0x01, 0x88]));
    assert_eq!(counter_kernel::entry(&mut host), Ok(()));
    assert_eq!(counter_kernel::read_counter(&mut host), Ok(2));
    assert!(host.read_input().unwrap().is_none());
    assert_eq!(counter_kernel::write_counter(&mut host, 0x0a0b), Ok(0x0a0b));
    assert_eq!(host.store_read(b"/counter", 0, 8).unwrap(), vec![0, 0, 0, 0, 0, 0, 0x0a, 0x0b]);
}

#[test]
fn tagged_counter_kernel_stops_where_it_cannot_count() {
    let mut host = NativeHost::new(PathTree::new());
    host.store_write(b"/counter", &[9, 9], 0).unwrap();
    host.add_message(Message::new(0, 0, vec![0x02]));
    host.add_message(Message::new(0, 1, vec![0x01, 0x88]));
    host.add_message(Message::new(0, 2, vec![0x01, 0x88]));
    assert_eq!(
        <CounterKernel as Kernel<PathTree>>::entry(&mut host),
        Err(RuntimeError::DecodingError)
    );
    assert_eq!(host.store_read(b"/counter", 0, 8).unwrap(), vec![9, 9]);
    assert_eq!(host.read_input().unwrap().unwrap().id, 2);
    let mut full = NativeHost::new(PathTree::new());
    full.store_write(b"/counter", &[255; 8], 0).unwrap();
    full.add_message(Message::new(0, 0, vec![0x01, 0x88]));
    assert_eq!(counter_kernel::entry(&mut full), Err(RuntimeError::DecodingError));
    let mut node: Node<CounterKernel, PathTree> = Node::new(PathTree::new());
    assert_eq!(node.on_operation(vec![0x01, 0x88]), Ok(()));
    assert_eq!(node.on_operation(vec![0x05]), Ok(()));
    assert_eq!(node.get_state("/counter"), Some(vec![0, 0, 0, 0, 0, 0, 0, 1]));
}
