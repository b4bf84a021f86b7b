//! Client-side trust core of a wallet SDK: a key vault that stores and
//! operates on private-key material through pluggable signing schemes, and a
//! transport bridge that turns an external callback-style sender into a
//! uniform request/response protocol client.

pub mod correlator;
pub mod crypto;
pub mod errors;
pub mod hexfmt;
pub mod keystore;
pub mod laws;
pub mod signer;
pub mod transport;
