//! Peer registry, connection lifecycle and signed-broadcast decisions of an
//! authenticated peer mesh. The signature primitive and the transport are
//! driven by the caller: the library decides whom to connect to and send to,
//! and what a received payload becomes once it has been verified.
pub mod address;
pub mod fanout;
pub mod config;
pub mod hex_text;
pub mod host;
pub mod identity;
pub mod supervisor;

pub use address::Ipv4Addr;
pub use address::parse_string_to_ip;
pub use address::parse_string_to_reverse_ip;
pub use address::parse_string_to_vec;
pub use config::HostInfo;
pub use config::PeerInfo;
pub use host::HostRepo;
pub use host::RecvMsg;
pub use identity::CryptoError;
pub use identity::NistCryptography;
