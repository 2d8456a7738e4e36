//! Fixed-rate, fixed-term loan amortization: validation, the payment formula,
//! the per-installment decomposition and schedule generation with calendar-month
//! due dates.
//!
//! Quantities are IEEE 754 binary64 values carried as bit patterns
//! ([`Number`]). Classification and ordering of such values are decided here;
//! the rounding arithmetic itself is supplied by the caller as an evaluator of
//! [`Operation`]s.

pub mod arithmetic;
pub mod calculator;
pub mod date;
pub mod error;
pub mod number;
pub mod payment;
pub mod theorems;

pub use arithmetic::Operation;
pub use calculator::{Amortization, CalculatorConfig};
pub use date::Date;
pub use error::AmortizationError;
pub use number::Number;
pub use payment::Payment;
