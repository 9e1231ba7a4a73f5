//! A local emulator of a rollup's durable state: a path-addressed storage
//! tree, the host adapter that kernels run against, and the single-writer
//! sequencing pipeline that applies operations to it in strict order.

pub mod bytes;
pub mod counter_kernel;
pub mod database;
pub mod dungeon;
pub mod dungeon_app;
pub mod endpoints;
pub mod filtering;
pub mod foreign;
pub mod host;
pub mod injector;
pub mod kernel;
pub mod low_latency;
pub mod node;
pub mod sequencer;
pub mod tezos_listener;
