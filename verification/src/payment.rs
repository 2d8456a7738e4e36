//! One installment of a schedule.

use vstd::prelude::*;
use crate::date::Date;
use crate::number::Number;

verus! {

/// The breakdown of one installment.
#[derive(Clone, Copy, Debug)]
pub struct Payment {
    /// Position in the schedule, starting at 1.
    pub installment_number: u32,
    /// Principal owed before the installment, by the running total.
    pub beginning_balance: Number,
    /// Principal owed after the installment, by the running total.
    pub ending_balance: Number,
    /// The cost of borrowing for the period.
    pub interest: Number,
    /// The part that reduces the outstanding balance.
    pub principal: Number,
    /// When the installment is due, if the schedule is dated.
    pub date: Option<Date>,
    /// Outstanding balance after the installment, by the payoff balance.
    pub remaining_balance: Number,
    /// The flat periodic payment amount.
    pub installment_amount: Number,
}

} // verus!
