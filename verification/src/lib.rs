//! Core of a Starknet sequencer node: the pipeline that turns a stream of
//! incoming transactions into committed blocks under a Byzantine-fault-tolerant
//! consensus protocol.
//!
//! The crate is organised around three subsystems:
//! - the entry-point execution driver, which prepares a virtual-machine call,
//!   accounts for its gas, and extracts its results;
//! - the block builder and batcher, which assemble proposals from transaction
//!   chunks under capacity limits and stream the accepted transactions;
//! - the consensus manager, a Tendermint-style state machine run per block
//!   height and multiplexed across heights.
//!
//! Collaborators that live outside this crate (the virtual machine itself, the
//! transaction hasher, storage, the network) are represented by plain data:
//! their outputs enter the verified functions as arguments.

pub mod aliases;
pub mod batcher;
pub mod batcher_types;
pub mod block_builder;
pub mod codec;
pub mod config;
pub mod consensus;
pub mod exec_map;
pub mod execution;
pub mod proposal_manager;
pub mod transaction;
pub mod types;
