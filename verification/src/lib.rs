//! A verified core for a length-prefixed, stateful binary game-protocol
//! client: a frame codec (variable-length integer prefixes, optional zlib
//! compression switched on mid-session), a multi-phase protocol state
//! machine, the per-connection session driver, and the connectivity
//! supervisor's decision logic. Wireless bring-up, sockets and display
//! output live outside the library and hand it plain bytes.

pub mod codec;
pub mod packets;
pub mod protocol;
pub mod session;
pub mod supervisor;
pub mod varint;
pub mod zlib;
