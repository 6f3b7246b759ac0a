//! An authoritative name server's core: the wire codec for queries and
//! replies, and the record table that lookups read.

pub mod admin;
pub mod decimal;
pub mod dotted;
pub mod laws;
pub mod octets;
pub mod record;
pub mod server;
pub mod text;
pub mod wire;
