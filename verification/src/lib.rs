//! Core pieces of a secure-messaging protocol library: index arithmetic for
//! left-balanced binary trees stored as flat arrays, and in-memory keyed
//! stores for protocol state (identities, pre-keys, sessions, sender keys).

mod assoc;
pub mod inmem;
pub mod left_balanced;
pub mod records;
