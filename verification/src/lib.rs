//! A metadata store replicated by Raft.
//!
//! Every write is a command. The leader proposes it, the group agrees on it, and each
//! replica applies it to its own store; the caller gets what applying it gave.
//!
//! - [`command`] and [`result`] are what travels; [`codec`], [`wire`] and [`flex`] are how
//!   it is written down, [`bulk`] how large it may be, [`faithful`] why nothing of it is lost.
//! - [`raft_meta_store`] turns calls into commands, [`rocks_apply`] commands into calls on
//!   the local store, and [`state_machine`] is the loop between them; [`applier`] keeps
//!   what was applied, [`replay`] is why replicas agree.
//! - [`storage`] is the log on disk and [`transport`] what travels between replicas, in the
//!   byte form of [`proto`] and [`bytes`].
//! - [`snapshot_builder`] and [`snapshot_payload`] turn the state of a store into bytes and
//!   back.
//!
//! Disk, network and clock are left to the caller: the functions here take what was read
//! and say what to do.

pub mod applier;
pub mod bulk;
pub mod bytes;
pub mod codec;
pub mod command;
pub mod error;
pub mod faithful;
pub mod flex;
pub mod proto;
pub mod raft_meta_store;
pub mod replay;
pub mod result;
pub mod rocks_apply;
pub mod snapshot_builder;
pub mod snapshot_payload;
pub mod state_machine;
pub mod storage;
pub mod text;
pub mod transport;
pub mod wire;
