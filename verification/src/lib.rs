//! The query path of a caching DNS proxy, verified.
//!
//! A datagram comes in as bytes; `question::normalize` turns it into a
//! validated question or rejects it; the question's key is looked up in the
//! response cache; `rewrite` makes one client's reply out of a cached
//! answer, or a truncated reply where the answer is too long for the
//! client; and `router` ties these into the one decision per datagram:
//! drop, reply, or forward to the resolvers. The library decides and
//! computes. Sockets, threads, clocks and counters belong to its caller.
//!
//! - `wire`: offsets, flags and 16-bit fields of the message format
//! - `name`: domain names, compression pointers, letter case
//! - `edns`: the record sections and the OPT pseudo-record
//! - `question`: the normalizer, the question and its cache key
//! - `cache`: the response cache of one owner
//! - `shared`: the response cache that threads share, in locked shards
//! - `rewrite`: patched and truncated replies
//! - `router`: the decision per datagram

pub mod cache;
pub mod edns;
pub mod name;
pub mod question;
pub mod rewrite;
pub mod router;
pub mod shared;
pub mod wire;
