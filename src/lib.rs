//! Client side of the status handshake of a length-prefixed game-server wire
//! protocol: primitive codecs, packet frames, the packet catalog, the
//! status-exchange state machine, and a command channel.

pub mod codec;
pub mod frame;
pub mod packet;
pub mod session;
pub mod channel;
pub mod servers;
pub mod report;
