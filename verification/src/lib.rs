//! Verified core of the zkTLS attestation program: error codes, text
//! handling, exchange record models and the checks applied to attested
//! exchange responses.

pub mod errors;
pub mod text;
pub mod numeric;
pub mod order;
pub mod json;
pub mod attestation;
pub mod scan;
pub mod binance;
pub mod phala;
pub mod plan;
pub mod laws;
