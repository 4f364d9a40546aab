use vstd::prelude::*;

verus! {

/// Why an input was rejected.
///
/// Every parse or validation failure is detected while normalizing the raw
/// input; derivation itself can only fail with `ArithmeticOverflow`.
#[derive(Clone, Copy, Debug, PartialEq, Eq, Structural)]
pub enum NetError {
    /// The CIDR string does not have exactly one `/` separator.
    InvalidFormat,
    /// The address is not four dot-separated decimal octets in `0..=255`.
    InvalidAddress,
    /// The mask is not four dot-separated decimal octets in `0..=255`,
    /// or no mask was supplied where one was required.
    InvalidMask,
    /// The prefix length is not a decimal integer in `0..=32`.
    InvalidPrefix,
    /// Deriving the descriptor would overflow 32-bit address arithmetic.
    ArithmeticOverflow,
}

impl NetError {
    /// A short human-readable name for the error, for display by callers.
    pub fn describe(&self) -> (r: &'static str)
        ensures
            r@ == match *self {
                NetError::InvalidFormat => "invalid address/prefix format"@,
                NetError::InvalidAddress => "invalid address"@,
                NetError::InvalidMask => "invalid mask"@,
                NetError::InvalidPrefix => "invalid prefix length"@,
                NetError::ArithmeticOverflow => "arithmetic overflow"@,
            },
    {
        match *self {
            NetError::InvalidFormat => "invalid address/prefix format",
            NetError::InvalidAddress => "invalid address",
            NetError::InvalidMask => "invalid mask",
            NetError::InvalidPrefix => "invalid prefix length",
            NetError::ArithmeticOverflow => "arithmetic overflow",
        }
    }
}

} // verus!
