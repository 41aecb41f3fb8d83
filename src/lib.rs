//! Credential subsystem of a Subsonic-style streaming API: the API-key codec,
//! the digest registry, the credential store and the per-request gate.

pub mod key;
pub mod digest;
pub mod store;
pub mod response;
pub mod gate;
