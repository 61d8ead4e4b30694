//! Fixed-precision money amounts with signed zeros, net/tax splits and ratios.
pub mod decimals;
pub mod error;
pub mod money;
pub mod money_vat;
pub mod money_vat_ratio;
pub mod outside;
pub mod traits;

pub use decimals::{AmountSource, Dec, Midpoint};
pub use money::{sum_, Money, MONEY_PRECISION};
pub use money_vat::MoneyWithVAT;
pub use money_vat_ratio::MoneyWithVATRatio;
pub use traits::Copyable;
pub use error::MoneyError;
