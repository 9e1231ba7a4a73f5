//! What the node answers to the requests of its clients: which status, and
//! which body. Receiving the requests and sending the answers is left to
//! the server that wraps the node.

use crate::database::path::strings_view;
use crate::database::tree::{tree_read, tree_subkeys};
use crate::database::{bytes_view, Database};
use crate::foreign::{
    hex_bytes, hex_decode, hex_encode, hex_text, json_of_strings, json_string_list,
};
use crate::kernel::Kernel;
use crate::node::Node;
use vstd::prelude::*;
use vstd::string::*;
use vstd::utf8::encode_utf8;

verus! {

/// The status of an answer that carries what was asked for.
pub const STATUS_OK: u16 = 200;

/// The status of an answer to a request for a path that holds no value.
pub const STATUS_NOT_FOUND: u16 = 404;

/// The status of an answer to a request that the node could not serve.
pub const STATUS_INTERNAL_SERVER_ERROR: u16 = 500;

/// What the node answers once it has taken an operation.
pub const OPERATION_SUBMITTED: &'static str = "Operation submitted";

/// The body of a request that submits an operation.
#[derive(Debug)]
pub struct Body {
    /// The bytes of the operation, in hexadecimal.
    pub data: String,
}

/// The query of a request that names a path of the store.
#[derive(Debug)]
pub struct Path {
    path: String,
}

/// An answer: a status code and a body.
#[derive(Debug)]
pub struct Response {
    /// The status code.
    pub status: u16,
    /// The body, empty where the status says it all.
    pub body: String,
}

impl Path {
    /// A query for `path`.
    pub fn new(path: String) -> (query: Path)
        ensures
            query.path()@ == path@,
    {
        Path { path }
    }

    /// The path asked for.
    pub closed spec fn path(&self) -> String {
        self.path
    }

    /// The path asked for.
    pub fn as_str(&self) -> (path: &str)
        ensures
            path@ == self.path()@,
    {
        self.path.as_str()
    }
}

/// The bytes of a submitted operation, if its body spells them in
/// hexadecimal.
pub fn post_operation(body: &Body) -> (operation: Option<Vec<u8>>)
    ensures
        bytes_view(operation) == hex_bytes(encode_utf8(body.data@)),
{
    hex_decode(body.data.as_str())
}

/// The answer to a request for the value at a path: the value in
/// hexadecimal, or the word that nothing was found.
pub fn get_durable_state(state: Option<Vec<u8>>) -> (response: Response)
    ensures
        match state {
            Some(data) => response.status == STATUS_OK && response.body@ == hex_text(data@),
            None => response.status == STATUS_NOT_FOUND && response.body@.len() == 0,
        },
{
    match state {
        Some(data) => Response { status: STATUS_OK, body: hex_encode(data.as_slice()) },
        None => Response { status: STATUS_NOT_FOUND, body: String::new() },
    }
}

/// The answer to a request for the children of a path: their segments as a
/// JSON array, or the word that the node could not tell.
pub fn get_subkeys(subkeys: Option<Vec<String>>) -> (response: Response)
    ensures
        match subkeys {
            Some(data) => match json_of_strings(strings_view(data@)) {
                Some(json) => response.status == STATUS_OK && response.body@ == json,
                None => response.status == STATUS_INTERNAL_SERVER_ERROR && response.body@.len()
                    == 0,
            },
            None => response.status == STATUS_INTERNAL_SERVER_ERROR && response.body@.len() == 0,
        },
{
    match subkeys {
        Some(data) => match json_string_list(&data) {
            Some(json) => Response { status: STATUS_OK, body: json },
            None => Response { status: STATUS_INTERNAL_SERVER_ERROR, body: String::new() },
        },
        None => Response { status: STATUS_INTERNAL_SERVER_ERROR, body: String::new() },
    }
}

/// Answers a request for the value at the path of `query`, read from the
/// store of `node`.
pub fn state_endpoint<K: Kernel<D>, D: Database>(node: &Node<K, D>, query: &Path) -> (response:
    Response)
    requires
        node.wf(),
    ensures
        node.host().never_fails ==> match tree_read(node.host().tree, query.path()@) {
            Some(data) => response.status == STATUS_OK && response.body@ == hex_text(data),
            None => response.status == STATUS_NOT_FOUND && response.body@.len() == 0,
        },
        response.status == STATUS_OK || response.status == STATUS_NOT_FOUND,
{
    get_durable_state(node.get_state(query.as_str()))
}

/// Answers a request for the children of the path of `query`, read from the
/// store of `node`.
pub fn subkeys_endpoint<K: Kernel<D>, D: Database>(node: &Node<K, D>, query: &Path) -> (response:
    Response)
    requires
        node.wf(),
    ensures
        node.host().never_fails ==> match json_of_strings(
            tree_subkeys(node.host().tree, query.path()@),
        ) {
            Some(json) => response.status == STATUS_OK && response.body@ == json,
            None => response.status == STATUS_INTERNAL_SERVER_ERROR && response.body@.len() == 0,
        },
        response.status == STATUS_OK || response.status == STATUS_INTERNAL_SERVER_ERROR,
{
    get_subkeys(node.get_subkeys(query.as_str()))
}

} // verus!
