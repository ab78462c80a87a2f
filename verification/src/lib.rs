//! Price-oracle arithmetic, the oracle's admin and provider lists, and the
//! host effects of a test token's transfer.

pub mod access;
pub mod price_math;
pub mod token;

pub use price_math::{
    calculate_percentage_change_bps, calculate_percentage_difference_bps,
    calculate_price_volatility, is_stale,
};
pub use token::{DummyToken, TokenEffect, TokenTransferEvent};
pub use access::AccessControl;
