//! Why an amortization could not be computed.

use vstd::prelude::*;
use crate::number::Number;

verus! {

/// The ways in which the construction of an amortization fails.
#[derive(Debug)]
pub enum AmortizationError {
    /// The number of periods is zero.
    InvalidPeriods(u32),
    /// The annual percentage rate is zero or negative.
    InvalidInterestRate(Number),
    /// The loan amount is zero or negative.
    InvalidLoanAmount(Number),
    /// An intermediate result was infinite or not a number, a due date left
    /// the calendar, or the installments outgrew their counter.
    CalculationError(String),
}

impl AmortizationError {
    /// Whether this is a calculation error with the given message.
    pub open spec fn is_calculation(self, message: Seq<char>) -> bool {
        self matches AmortizationError::CalculationError(text) && text@ == message
    }
}

/// Message: the growth factor of the payment formula is infinite or NaN.
pub open spec fn overflow_message() -> Seq<char> {
    "Overflow in payment calculation"@
}

/// Message: the payment amount is infinite or NaN.
pub open spec fn payment_message() -> Seq<char> {
    "Invalid payment calculation result"@
}

/// Message: an installment's interest is infinite or NaN.
pub open spec fn interest_message() -> Seq<char> {
    "Invalid interest calculation"@
}

/// Message: an installment's principal is infinite or NaN.
pub open spec fn principal_message() -> Seq<char> {
    "Invalid principal calculation"@
}

/// Message: a due date could not be advanced by a month.
pub open spec fn date_message() -> Seq<char> {
    "Invalid date calculation"@
}

/// Message: the loan is not paid off within the largest installment number.
pub open spec fn installment_message() -> Seq<char> {
    "Invalid installment calculation"@
}

/// A calculation error with the given message.
pub fn calculation_error(message: &str) -> (r: AmortizationError)
    ensures
        r.is_calculation(message@),
{
    AmortizationError::CalculationError(message.to_owned())
}

} // verus!
