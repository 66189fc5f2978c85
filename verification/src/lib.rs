//! Deterministic derivation of 2-of-3 multisig Bitcoin receiving and change
//! addresses from three master extended public keys, together with the
//! Electrum-style script-hash identifier of each derived address.

pub mod encode;
pub mod errors;
pub mod hexstr;
pub mod descriptor;
pub mod keys;
pub mod order;
pub mod pipeline;
