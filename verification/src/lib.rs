//! Codec for generic-netlink family messages: a fixed command/version header
//! followed by a sequence of individually 4-byte-aligned Type-Length-Value
//! attributes. Encoding and decoding are specified against a mathematical
//! wire model (`genlhdr::genl_wire`, `genlhdr::dec_genl`) and proved to agree
//! with it.

pub mod align;
pub mod codes;
pub mod error;
pub mod genlhdr;
pub mod props;
pub mod state;
pub mod wire;
