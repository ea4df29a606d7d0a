//! Talking to the wallet application on a hardware device: status codes,
//! derivation paths, and the framing of requests and answers. Opening the
//! device and exchanging frames with it is left to the caller.

pub mod apdu;
pub mod path;
pub mod status;
