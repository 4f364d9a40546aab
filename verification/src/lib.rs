//! IPv4 subnet calculator.
//!
//! The library turns a textual address/mask pair (or CIDR notation) into a
//! fully derived subnet descriptor: network address, usable host range,
//! gateway, prefix length and host count. Every function is verified: the
//! contracts pin down exactly which inputs are accepted, which error each
//! rejected input produces, and the value of every derived field.

mod analyze;
mod error;
mod laws;
mod net;
mod parse;

pub use crate::analyze::{
    analyze, has_slash, is_cidr_input, normalize, opt_bytes, spec_analyze, spec_normalize,
    valid_prefix,
};
pub use crate::error::NetError;
pub use crate::laws::{
    lemma_degenerate_prefix, lemma_derivation_deterministic, lemma_host_range,
    lemma_host_range_bounds, lemma_mask_popcount_is_prefix, lemma_network_aligned,
    lemma_usable_range_ordered,
};
pub use crate::net::{
    derive_subnet, mask_from_prefix, popcount, popcount_u32, spec_broadcast, spec_derive,
    spec_host_count, spec_mask_of_prefix, spec_network, NetworkAnalyze,
};
pub use crate::parse::{
    dec_val, ipv4_val, is_decimal, is_octet, parse_ipv4, parse_ipv4_bytes, valid_ipv4,
};