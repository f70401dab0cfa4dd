//! Read-only queries over a point-in-time snapshot of chain state.
//!
//! A snapshot holds the bytes that were committed at one block under hashed
//! keys. The crate derives structured views from it and never changes it:
//!
//! - `snapshot`, `hashing`, `keys`: the stored cells, the two schemes that a
//!   key is hashed with, and the keys of the cells that the queries read;
//! - `codec`, `accessor`, `records`, `account`: the format of stored values
//!   and typed reads, which tell an absent cell from an unreadable one;
//! - `page`, `gather`: page windows over ordered lists, also over scans with
//!   gaps, and lists gathered from lookups that may fail;
//! - `depth`, `book`, `spot`: the price ladders of an order book with the
//!   open volume of each level, trading pairs and the order history;
//! - `assets`, `bridge`, `staking`, `tokens`, `fee`: the smaller queries.
//!
//! Every function states what it returns in a contract that Verus proves.

pub mod accessor;
pub mod account;
pub mod assets;
pub mod book;
pub mod bridge;
pub mod codec;
pub mod depth;
pub mod error;
pub mod fee;
pub mod gather;
pub mod hashing;
pub mod keys;
pub mod page;
pub mod records;
pub mod snapshot;
pub mod spot;
pub mod staking;
pub mod tokens;
