//! The decision-making core of an iroh-style QUIC endpoint: addressing,
//! connection bookkeeping, the packet pump's schedule, the relay and
//! signaling protocols, the TLS cipher suite, and the small services around
//! them. Everything here works on plain values; sockets, clocks and the QUIC
//! state machine live with the caller.

pub mod addr;
pub mod assoc;
pub mod bytes;
pub mod crypto;
pub mod demo;
pub mod echo;
pub mod echo_run;
pub mod endpoint;
pub mod endpoint_demo;
pub mod exec_model;
pub mod hexadecimal;
pub mod peer_tool;
pub mod ping_demo;
pub mod relay;
pub mod relay_echo;
pub mod relay_frames;
pub mod relayd;
pub mod rendezvous;
pub mod text;
pub mod tls;
pub mod udp_wake;
pub mod virt;
pub mod virt_socket;
pub mod webrtc_transport;
