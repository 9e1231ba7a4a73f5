use sequencer::database::memory::PathTree;
use sequencer::endpoints::{
    post_operation, state_endpoint, subkeys_endpoint, Body, Path, Response, OPERATION_SUBMITTED,
    STATUS_INTERNAL_SERVER_ERROR, STATUS_NOT_FOUND, STATUS_OK,
};
use sequencer::kernel::DummyKernel;
use sequencer::node::Node;

fn node() -> Node<DummyKernel, PathTree> {
    Node::new(PathTree::new())
}

/// Submits an operation as the server does: the body is decoded, the node
/// applies the operation, and the client is told so.
fn submit(node: &mut Node<DummyKernel, PathTree>, data: &str) -> Response {
    let operation = post_operation(&Body { data: data.to_string() }).unwrap();
    assert!(node.can_accept());
    node.on_operation(operation).unwrap();
    Response { status: STATUS_OK, body: OPERATION_SUBMITTED.to_string() }
}

fn get_state(node: &Node<DummyKernel, PathTree>, path: &str) -> Response {
    state_endpoint(node, &Path::new(path.to_string()))
}

fn get_subkeys(node: &Node<DummyKernel, PathTree>, path: &str) -> Response {
    subkeys_endpoint(node, &Path::new(path.to_string()))
}

#[test]
fn endpoints_test_post_operation_content() {
    let mut node = node();
    let resp = submit(&mut node, "00010101");
    assert_eq!(resp.body, "Operation submitted")
}

#[test]
fn endpoints_test_post_operation_status() {
    let mut node = node();
    let resp = submit(&mut node, "01010101");
    assert_eq!(resp.status, 200);
}

#[test]
fn endpoints_test_get_state_404() {
    let node = node();
    let resp = get_state(&node, "/foo");
    assert_eq!(resp.status, 404);
}

#[test]
fn endpoints_test_get_state_ok() {
    let mut node = node();
    let resp = submit(&mut node, "01010101");
    assert_eq!(resp.status, 200);

    let resp = get_state(&node, "/counter");
    assert_eq!(resp.status, 200);
}

#[test]
fn endpoints_test_get_state_value() {
    let mut node = node();
    let resp = submit(&mut node, "01010101");
    assert_eq!(resp.status, 200);

    let resp = get_state(&node, "/counter");
    assert_eq!("0000000000000001", resp.body);
}

#[test]
fn mod_test_post_operation_content() {
    let mut node = node();
    let resp = submit(&mut node, "00010101");
    assert_eq!(resp.body, "Operation submitted")
}

#[test]
fn mod_test_post_operation_status() {
    let mut node = node();
    let resp = submit(&mut node, "01010101");
    assert_eq!(resp.status, STATUS_OK);
}

#[test]
fn mod_test_get_state_404() {
    let node = node();
    let resp = get_state(&node, "/foo");
    assert_eq!(resp.status, STATUS_NOT_FOUND);
}

#[test]
fn mod_test_get_state_ok() {
    let mut node = node();
    let resp = submit(&mut node, "8801010101");
    assert_eq!(resp.status, STATUS_OK);

    let resp = get_state(&node, "/counter");
    assert_eq!(resp.status, STATUS_OK);
}

#[test]
fn mod_test_get_state_value() {
    let mut node = node();
    let resp = submit(&mut node, "8801010101");
    assert_eq!(resp.status, STATUS_OK);

    let resp = submit(&mut node, "8801010101");
    assert_eq!(resp.status, STATUS_OK);

    let resp = get_state(&node, "/counter");
    assert_eq!("0000000000000002", resp.body);
}

#[test]
fn test_get_one_subkey_empty() {
    let mut node = node();
    let _ = submit(&mut node, "01010101");

    let resp = get_subkeys(&node, "/counter");
    let response: Vec<String> = serde_json::from_str(&resp.body).unwrap();
    let expeted: Vec<String> = vec![];

    assert_eq!(response, expeted);
}

#[test]
fn subkeys_of_the_root_are_listed() {
    let mut node = node();
    let resp = get_subkeys(&node, "/");
    assert_eq!((resp.status, resp.body.as_str()), (STATUS_OK, "[]"));
    let _ = submit(&mut node, "01");
    let resp = get_subkeys(&node, "/");
    let listed: Vec<String> = serde_json::from_str(&resp.body).unwrap();
    assert_eq!(listed, vec!["counter".to_string()]);
    assert_ne!(resp.status, STATUS_INTERNAL_SERVER_ERROR);
}
