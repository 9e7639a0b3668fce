//! Core of a round-robin reverse proxy: backend addresses and the pool that
//! rotates over them, the descriptor of the peer to connect to, the rewriting
//! of outbound request headers, the choice of a TLS identity by SNI, and the
//! per-request session state machine.
pub mod addr;
pub mod pool;
pub mod headers;
pub mod peer;
pub mod tls;
pub mod session;
pub mod lb;
