//! The amortization engine: validation, the payment formula, the breakdown of
//! one installment and the generation of the schedule.

use vstd::prelude::*;
use crate::arithmetic::{evaluate, total, yields, Operation};
use crate::date::{months_after, Date};
use crate::error::{
    calculation_error, date_message, installment_message, interest_message, overflow_message,
    payment_message, principal_message, AmortizationError,
};
use crate::number::Number;
use crate::payment::Payment;

verus! {

/// A computed amortization: the inputs, the derived rate and payment amount,
/// the schedule and the totals.
#[derive(Clone, Debug)]
pub struct Amortization {
    /// The original principal.
    pub balance: Number,
    /// The requested number of periods.
    pub periods: u32,
    /// The rate per period: the annual percentage rate over 100 and over 12.
    pub periodic_interest: Number,
    /// The flat amount due each period.
    pub periodic_payment: Number,
    /// The installments in order, from the first to payoff.
    pub schedule: Vec<Payment>,
    /// The nominal total: the number of periods times the periodic payment.
    pub total_payment: Number,
    /// The nominal total less the original principal.
    pub total_interest: Number,
    /// When the first installment is due, if the schedule is dated.
    pub start_date: Option<Date>,
    /// One month after the last installment's due date.
    pub end_date: Option<Date>,
}

/// The inputs of an amortization, as collected from a user.
#[derive(Clone, Copy, Debug)]
pub struct CalculatorConfig {
    /// The loan amount.
    pub balance: Number,
    /// The number of periods.
    pub loan_term: u32,
    /// The annual percentage rate, in percentage points.
    pub apr: Number,
    /// When the first installment is due, if known.
    pub start_date: Option<Date>,
}

/// Whether `p` is a breakdown of the installment numbered `number` that `unit`
/// can give: on an outstanding `balance`, at the periodic `rate` and payment
/// `amount`, with `beginning` as the running total before it.
///
/// The interest is the balance times the rate. A balance below the payment
/// amount is paid off whole and leaves exactly zero; otherwise the principal is
/// the payment amount less the interest, and the balance less the principal
/// remains. Interest and principal are finite.
pub open spec fn installment_of<F: Fn(Operation) -> Number>(
    unit: &F,
    rate: Number,
    amount: Number,
    balance: Number,
    number: u32,
    beginning: Number,
    p: Payment,
) -> bool {
    &&& p.installment_number == number
    &&& p.beginning_balance == beginning
    &&& p.installment_amount == amount
    &&& yields(unit, Operation::Multiply(balance, rate), p.interest)
    &&& p.interest.finite()
    &&& if balance.below(amount) {
        p.principal == balance && p.remaining_balance == Number::zero_value()
    } else {
        &&& yields(unit, Operation::Subtract(amount, p.interest), p.principal)
        &&& yields(unit, Operation::Subtract(balance, p.principal), p.remaining_balance)
    }
    &&& p.principal.finite()
    &&& yields(unit, Operation::Subtract(beginning, p.principal), p.ending_balance)
}

/// Whether the principal of an installment on `balance`, with the given
/// finite `interest`, can come out infinite or NaN.
pub open spec fn principal_fails<F: Fn(Operation) -> Number>(
    unit: &F,
    amount: Number,
    balance: Number,
    interest: Number,
) -> bool {
    if balance.below(amount) {
        !balance.finite()
    } else {
        exists|principal: Number|
            #[trigger] yields(unit, Operation::Subtract(amount, interest), principal)
                && !principal.finite()
    }
}

/// Whether the breakdown of an installment on `balance` can fail with
/// `message`: the interest that `unit` gives is infinite or NaN, or else the
/// principal is.
pub open spec fn installment_fails<F: Fn(Operation) -> Number>(
    unit: &F,
    rate: Number,
    amount: Number,
    balance: Number,
    message: Seq<char>,
) -> bool {
    ||| {
        &&& message == interest_message()
        &&& exists|interest: Number|
            #[trigger] yields(unit, Operation::Multiply(balance, rate), interest)
                && !interest.finite()
    }
    ||| {
        &&& message == principal_message()
        &&& exists|interest: Number|
            #[trigger] yields(unit, Operation::Multiply(balance, rate), interest)
                && interest.finite() && principal_fails(unit, amount, balance, interest)
    }
}

/// The intermediate results of the payment formula, in the order in which
/// they are obtained.
pub struct Worksheet {
    /// The number of periods as a quantity.
    pub count: Number,
    /// One plus the periodic rate.
    pub base: Number,
    /// The base raised to the number of periods.
    pub growth: Number,
    /// The periodic rate times the growth.
    pub weighted: Number,
    /// The loan amount times the weighted rate.
    pub numerator: Number,
    /// The growth less one.
    pub denominator: Number,
    /// The numerator over the denominator: the payment before rounding.
    pub payment: Number,
    /// The payment times one hundred.
    pub scaled: Number,
    /// The scaled payment rounded to a whole number.
    pub rounded: Number,
    /// The rounded value over one hundred: the payment to two decimal places.
    pub amount: Number,
}

/// Whether the lines of `w` are results that `unit` can give for the payment
/// formula `balance * (rate * growth) / (growth - 1)` with `growth = (1 +
/// rate) ^ periods`, rounded once at the end to two decimal places. The lines
/// after a growth, or a payment, that is infinite or NaN are not computed and
/// stay open.
pub open spec fn formula_of<F: Fn(Operation) -> Number>(
    unit: &F,
    balance: Number,
    rate: Number,
    periods: u32,
    w: Worksheet,
) -> bool {
    &&& yields(unit, Operation::Count(periods), w.count)
    &&& yields(unit, Operation::Add(Number::one_value(), rate), w.base)
    &&& yields(unit, Operation::Power(w.base, w.count), w.growth)
    &&& w.growth.finite() ==> {
        &&& yields(unit, Operation::Multiply(rate, w.growth), w.weighted)
        &&& yields(unit, Operation::Multiply(balance, w.weighted), w.numerator)
        &&& yields(unit, Operation::Subtract(w.growth, Number::one_value()), w.denominator)
        &&& yields(unit, Operation::Divide(w.numerator, w.denominator), w.payment)
    }
    &&& w.growth.finite() && w.payment.finite() ==> {
        &&& yields(unit, Operation::Multiply(w.payment, Number::hundred_value()), w.scaled)
        &&& yields(unit, Operation::Round(w.scaled), w.rounded)
        &&& yields(unit, Operation::Divide(w.rounded, Number::hundred_value()), w.amount)
    }
}

/// What the payment formula comes to on a worksheet: the rounded amount, or
/// the message of the first line that is infinite or NaN.
pub open spec fn formula_result(w: Worksheet) -> Result<Number, Seq<char>> {
    if !w.growth.finite() {
        Err(overflow_message())
    } else if !w.payment.finite() {
        Err(payment_message())
    } else {
        Ok(w.amount)
    }
}

/// Whether the payment formula can come to `outcome` with the answers of
/// `unit`.
pub open spec fn payment_amount_of<F: Fn(Operation) -> Number>(
    unit: &F,
    balance: Number,
    rate: Number,
    periods: u32,
    outcome: Result<Number, Seq<char>>,
) -> bool {
    exists|w: Worksheet| #[trigger]
        formula_of(unit, balance, rate, periods, w) && formula_result(w) == outcome
}

/// Whether `date` is the due date `n` monthly steps after `start`: absent in
/// an undated schedule.
pub open spec fn due(start: Option<Date>, n: nat, date: Option<Date>) -> bool {
    match start {
        None => date is None,
        Some(first) => date matches Some(day) && months_after(first@, n) == Some(day@),
    }
}

/// The outstanding balance before the installment at index `i`: the loan
/// amount at first, then what the installment before left.
pub open spec fn balance_before(balance: Number, s: Seq<Payment>, i: int) -> Number {
    if i == 0 {
        balance
    } else {
        s[i - 1].remaining_balance
    }
}

/// Whether the installment at index `i` of `s` continues the schedule: the
/// balance before it is positive, its number is `i + 1`, its running total
/// starts at the loan amount and then drops by each principal paid, its
/// breakdown is one that `unit` can give, and it is due `i` months after the
/// start.
pub open spec fn entry_of<F: Fn(Operation) -> Number>(
    unit: &F,
    rate: Number,
    amount: Number,
    balance: Number,
    start: Option<Date>,
    s: Seq<Payment>,
    i: int,
) -> bool {
    &&& balance_before(balance, s, i).positive()
    &&& if i == 0 {
        s[i].beginning_balance == balance
    } else {
        yields(
            unit,
            Operation::Subtract(s[i - 1].beginning_balance, s[i - 1].principal),
            s[i].beginning_balance,
        )
    }
    &&& installment_of(
        unit,
        rate,
        amount,
        balance_before(balance, s, i),
        (i + 1) as u32,
        s[i].beginning_balance,
        s[i],
    )
    &&& due(start, i as nat, s[i].date)
}

/// Whether `s` is a schedule that pays the loan off: every installment
/// continues it, and what the last one leaves is not positive. The empty
/// schedule is that of a loan amount that is not positive.
pub open spec fn schedule_of<F: Fn(Operation) -> Number>(
    unit: &F,
    rate: Number,
    amount: Number,
    balance: Number,
    start: Option<Date>,
    s: Seq<Payment>,
) -> bool {
    &&& s.len() < u32::MAX
    &&& forall|i: int|
        0 <= i < s.len() ==> #[trigger] entry_of(unit, rate, amount, balance, start, s, i)
    &&& !balance_before(balance, s, s.len() as int).positive()
}

/// Whether `unit` can give an installment that continues the schedule after
/// the installments `s`.
pub open spec fn continues<F: Fn(Operation) -> Number>(
    unit: &F,
    rate: Number,
    amount: Number,
    balance: Number,
    start: Option<Date>,
    s: Seq<Payment>,
) -> bool {
    exists|p: Payment| #[trigger]
        entry_of(unit, rate, amount, balance, start, s.push(p), s.len() as int)
}

/// Whether the generation of a schedule can stop with `message` after the
/// installments `s`: they continue the schedule and leave a positive balance,
/// and then the breakdown of the next installment fails, or that installment
/// continues the schedule but bears the last number that the counter holds,
/// or the date one month after its due date leaves the calendar.
pub open spec fn stalls_after<F: Fn(Operation) -> Number>(
    unit: &F,
    rate: Number,
    amount: Number,
    balance: Number,
    start: Option<Date>,
    s: Seq<Payment>,
    message: Seq<char>,
) -> bool {
    &&& s.len() < u32::MAX
    &&& forall|i: int|
        0 <= i < s.len() ==> #[trigger] entry_of(unit, rate, amount, balance, start, s, i)
    &&& balance_before(balance, s, s.len() as int).positive()
    &&& {
        ||| installment_fails(
            unit,
            rate,
            amount,
            balance_before(balance, s, s.len() as int),
            message,
        )
        ||| {
            &&& message == installment_message()
            &&& s.len() + 1 == u32::MAX
            &&& continues(unit, rate, amount, balance, start, s)
        }
        ||| {
            &&& message == date_message()
            &&& s.len() + 1 < u32::MAX
            &&& continues(unit, rate, amount, balance, start, s)
            &&& start matches Some(first) && months_after(first@, s.len() + 1) is None
        }
    }
}

/// Whether the generation of a schedule can fail with `message`.
pub open spec fn schedule_fails<F: Fn(Operation) -> Number>(
    unit: &F,
    rate: Number,
    amount: Number,
    balance: Number,
    start: Option<Date>,
    message: Seq<char>,
) -> bool {
    exists|s: Seq<Payment>| #[trigger] stalls_after(unit, rate, amount, balance, start, s, message)
}

/// Whether `rate` is a periodic rate that `unit` can give for `apr`: the
/// annual percentage rate over one hundred, and that over twelve.
pub open spec fn rate_of<F: Fn(Operation) -> Number>(unit: &F, apr: Number, rate: Number) -> bool {
    exists|fraction: Number|
        #[trigger] yields(unit, Operation::Divide(apr, Number::hundred_value()), fraction)
            && yields(unit, Operation::Divide(fraction, Number::twelve_value()), rate)
}

/// Whether `total` is a nominal total that `unit` can give: the number of
/// periods, as a quantity, times the payment amount.
pub open spec fn total_of<F: Fn(Operation) -> Number>(
    unit: &F,
    periods: u32,
    amount: Number,
    total: Number,
) -> bool {
    exists|count: Number|
        #[trigger] yields(unit, Operation::Count(periods), count) && yields(
            unit,
            Operation::Multiply(count, amount),
            total,
        )
}

/// Whether `a` is an amortization of the loan at the periodic `rate` that
/// `unit` can give: it keeps the inputs, its payment amount comes from the
/// payment formula, its schedule pays the loan off, its end date lies one
/// month after the last due date, and its totals are the nominal ones.
pub open spec fn amortizes<F: Fn(Operation) -> Number>(
    unit: &F,
    balance: Number,
    rate: Number,
    periods: u32,
    start: Option<Date>,
    a: Amortization,
) -> bool {
    &&& a.balance == balance
    &&& a.periods == periods
    &&& a.periodic_interest == rate
    &&& a.start_date == start
    &&& payment_amount_of(unit, balance, rate, periods, Ok(a.periodic_payment))
    &&& schedule_of(unit, rate, a.periodic_payment, balance, start, a.schedule@)
    &&& due(start, a.schedule@.len(), a.end_date)
    &&& total_of(unit, periods, a.periodic_payment, a.total_payment)
    &&& yields(unit, Operation::Subtract(a.total_payment, balance), a.total_interest)
}

/// Whether the computation at the periodic `rate` can fail with `message`:
/// in the payment formula, or else in the generation of the schedule.
pub open spec fn computation_fails<F: Fn(Operation) -> Number>(
    unit: &F,
    balance: Number,
    rate: Number,
    periods: u32,
    start: Option<Date>,
    message: Seq<char>,
) -> bool {
    ||| payment_amount_of(unit, balance, rate, periods, Err(message))
    ||| exists|amount: Number| #[trigger]
        payment_amount_of(unit, balance, rate, periods, Ok(amount)) && schedule_fails(
            unit,
            rate,
            amount,
            balance,
            start,
            message,
        )
}

/// Whether `r` is an outcome of building the amortization of accepted inputs
/// that `unit` can give.
pub open spec fn built<F: Fn(Operation) -> Number>(
    unit: &F,
    balance: Number,
    apr: Number,
    periods: u32,
    start: Option<Date>,
    r: Result<Amortization, AmortizationError>,
) -> bool {
    exists|rate: Number| #[trigger]
        rate_of(unit, apr, rate) && match r {
            Ok(a) => amortizes(unit, balance, rate, periods, start, a),
            Err(e) => exists|message: Seq<char>| #[trigger]
                e.is_calculation(message) && computation_fails(
                    unit,
                    balance,
                    rate,
                    periods,
                    start,
                    message,
                ),
        }
}

/// The first input that an amortization cannot be built from, if there is one:
/// no periods, then a rate that is zero or negative, then a loan amount that is
/// zero or negative.
pub open spec fn rejection(balance: Number, apr: Number, periods: u32) -> Option<AmortizationError> {
    if periods == 0 {
        Some(AmortizationError::InvalidPeriods(periods))
    } else if apr.not_above(Number::zero_value()) {
        Some(AmortizationError::InvalidInterestRate(apr))
    } else if balance.not_above(Number::zero_value()) {
        Some(AmortizationError::InvalidLoanAmount(balance))
    } else {
        None
    }
}

/// Checks the inputs of an amortization, in the order periods, rate, amount.
pub fn validate(balance: Number, apr: Number, periods: u32) -> (r: Result<(), AmortizationError>)
    ensures
        match rejection(balance, apr, periods) {
            Some(e) => r == Err::<(), AmortizationError>(e),
            None => r is Ok,
        },
{
    let zero = Number::zero();
    if periods == 0 {
        return Err(AmortizationError::InvalidPeriods(periods));
    }
    if apr.at_most(&zero) {
        return Err(AmortizationError::InvalidInterestRate(apr));
    }
    if balance.at_most(&zero) {
        return Err(AmortizationError::InvalidLoanAmount(balance));
    }
    Ok(())
}

impl Amortization {
    /// Builds the amortization of a loan of `balance` at the annual percentage
    /// rate `apr` over `periods` monthly periods, dated from `start_date` if
    /// one is given. Rejected inputs are reported before anything is computed.
    pub fn new<F: Fn(Operation) -> Number>(
        balance: Number,
        apr: Number,
        periods: u32,
        start_date: Option<Date>,
        unit: &F,
    ) -> (r: Result<Amortization, AmortizationError>)
        requires
            total(unit),
        ensures
            match rejection(balance, apr, periods) {
                Some(e) => r == Err::<Amortization, AmortizationError>(e),
                None => built(unit, balance, apr, periods, start_date, r),
            },
            balance.positive() ==> (r matches Ok(a) ==> a.schedule@.len() >= 1
                && !a.schedule@.last().remaining_balance.positive()),
    {
        match validate(balance, apr, periods) {
            Err(e) => {
                return Err(e);
            },
            Ok(_) => {},
        }
        let fraction = evaluate(unit, Operation::Divide(apr, Number::hundred()));
        let periodic_interest = evaluate(unit, Operation::Divide(fraction, Number::twelve()));
        assert(rate_of(unit, apr, periodic_interest)) by {
            assert(yields(unit, Operation::Divide(apr, Number::hundred_value()), fraction));
        }
        let mut amortization = Amortization {
            balance,
            periods,
            periodic_interest,
            periodic_payment: Number::zero(),
            schedule: Vec::new(),
            total_payment: Number::zero(),
            total_interest: Number::zero(),
            start_date,
            end_date: start_date,
        };
        let periodic_payment = match amortization.calculate_periodic_payment_amount(unit) {
            Ok(amount) => amount,
            Err(e) => {
                proof {
                    let message = choose|message: Seq<char>|
                        #[trigger] e.is_calculation(message) && payment_amount_of(
                            unit,
                            balance,
                            periodic_interest,
                            periods,
                            Err(message),
                        );
                    assert(computation_fails(
                        unit,
                        balance,
                        periodic_interest,
                        periods,
                        start_date,
                        message,
                    ));
                }
                return Err(e);
            },
        };
        amortization.periodic_payment = periodic_payment;
        let schedule = match amortization.calculate_schedule(unit) {
            Ok(schedule) => schedule,
            Err(e) => {
                proof {
                    let message = choose|message: Seq<char>|
                        #[trigger] e.is_calculation(message) && schedule_fails(
                            unit,
                            periodic_interest,
                            periodic_payment,
                            balance,
                            start_date,
                            message,
                        );
                    assert(computation_fails(
                        unit,
                        balance,
                        periodic_interest,
                        periods,
                        start_date,
                        message,
                    ));
                }
                return Err(e);
            },
        };
        amortization.schedule = schedule;
        amortization.total_payment = amortization.calculate_total_payment(unit);
        amortization.total_interest = amortization.calculate_total_interest(unit);
        proof {
            assert(amortizes(unit, balance, periodic_interest, periods, start_date, amortization));
            if balance.positive() {
                let s = amortization.schedule@;
                if s.len() == 0 {
                    assert(balance_before(balance, s, 0) == balance);
                }
            }
        }
        Ok(amortization)
    }

    /// The nominal total of all payments: the number of periods, as a
    /// quantity, times the periodic payment.
    pub fn calculate_total_payment<F: Fn(Operation) -> Number>(&self, unit: &F) -> (r: Number)
        requires
            total(unit),
        ensures
            total_of(unit, self.periods, self.periodic_payment, r),
    {
        let count = evaluate(unit, Operation::Count(self.periods));
        let total = evaluate(unit, Operation::Multiply(count, self.periodic_payment));
        assert(yields(unit, Operation::Count(self.periods), count));
        total
    }

    /// The nominal total interest: the total payment less the original
    /// principal.
    pub fn calculate_total_interest<F: Fn(Operation) -> Number>(&self, unit: &F) -> (r: Number)
        requires
            total(unit),
        ensures
            yields(unit, Operation::Subtract(self.total_payment, self.balance), r),
    {
        evaluate(unit, Operation::Subtract(self.total_payment, self.balance))
    }

    /// Breaks one installment down into interest and principal and gives the
    /// balances after it. The installment carries no due date.
    pub fn calculate_payment<F: Fn(Operation) -> Number>(
        &self,
        balance: Number,
        installment_number: u32,
        beginning_balance: Number,
        unit: &F,
    ) -> (r: Result<Payment, AmortizationError>)
        requires
            total(unit),
        ensures
            match r {
                Ok(p) => p.date is None && installment_of(
                    unit,
                    self.periodic_interest,
                    self.periodic_payment,
                    balance,
                    installment_number,
                    beginning_balance,
                    p,
                ),
                Err(e) => exists|message: Seq<char>|
                    #[trigger] e.is_calculation(message) && installment_fails(
                        unit,
                        self.periodic_interest,
                        self.periodic_payment,
                        balance,
                        message,
                    ),
            },
    {
        let interest = evaluate(unit, Operation::Multiply(balance, self.periodic_interest));
        if interest.is_nan() || interest.is_infinite() {
            let e = calculation_error("Invalid interest calculation");
            assert(installment_fails(
                unit,
                self.periodic_interest,
                self.periodic_payment,
                balance,
                interest_message(),
            )) by {
                assert(yields(unit, Operation::Multiply(balance, self.periodic_interest), interest));
            }
            return Err(e);
        }
        let last = balance.less_than(&self.periodic_payment);
        let principal = if last {
            balance
        } else {
            evaluate(unit, Operation::Subtract(self.periodic_payment, interest))
        };
        if principal.is_nan() || principal.is_infinite() {
            let e = calculation_error("Invalid principal calculation");
            assert(installment_fails(
                unit,
                self.periodic_interest,
                self.periodic_payment,
                balance,
                principal_message(),
            )) by {
                assert(principal_fails(unit, self.periodic_payment, balance, interest));
                assert(yields(unit, Operation::Multiply(balance, self.periodic_interest), interest));
            }
            return Err(e);
        }
        let remaining_balance = if last {
            Number::zero()
        } else {
            evaluate(unit, Operation::Subtract(balance, principal))
        };
        let ending_balance = evaluate(unit, Operation::Subtract(beginning_balance, principal));
        Ok(
            Payment {
                installment_number,
                beginning_balance,
                ending_balance,
                installment_amount: self.periodic_payment,
                interest,
                principal,
                remaining_balance,
                date: None,
            },
        )
    }

    /// The flat periodic payment: the payment formula, rounded to two decimal
    /// places after the whole formula has been evaluated.
    pub fn calculate_periodic_payment_amount<F: Fn(Operation) -> Number>(&self, unit: &F) -> (r:
        Result<Number, AmortizationError>)
        requires
            total(unit),
        ensures
            match r {
                Ok(amount) => payment_amount_of(
                    unit,
                    self.balance,
                    self.periodic_interest,
                    self.periods,
                    Ok(amount),
                ),
                Err(e) => exists|message: Seq<char>|
                    #[trigger] e.is_calculation(message) && payment_amount_of(
                        unit,
                        self.balance,
                        self.periodic_interest,
                        self.periods,
                        Err(message),
                    ),
            },
    {
        let rate = self.periodic_interest;
        let one = Number::one();
        let hundred = Number::hundred();
        let count = evaluate(unit, Operation::Count(self.periods));
        let base = evaluate(unit, Operation::Add(one, rate));
        let growth = evaluate(unit, Operation::Power(base, count));
        let ghost blank = Number::zero_value();
        if growth.is_infinite() || growth.is_nan() {
            let e = calculation_error("Overflow in payment calculation");
            proof {
                let w = Worksheet {
                    count,
                    base,
                    growth,
                    weighted: blank,
                    numerator: blank,
                    denominator: blank,
                    payment: blank,
                    scaled: blank,
                    rounded: blank,
                    amount: blank,
                };
                assert(formula_of(unit, self.balance, rate, self.periods, w));
                assert(formula_result(w) == Err::<Number, Seq<char>>(overflow_message()));
            }
            return Err(e);
        }
        let weighted = evaluate(unit, Operation::Multiply(rate, growth));
        let numerator = evaluate(unit, Operation::Multiply(self.balance, weighted));
        let denominator = evaluate(unit, Operation::Subtract(growth, one));
        let payment = evaluate(unit, Operation::Divide(numerator, denominator));
        if payment.is_infinite() || payment.is_nan() {
            let e = calculation_error("Invalid payment calculation result");
            proof {
                let w = Worksheet {
                    count,
                    base,
                    growth,
                    weighted,
                    numerator,
                    denominator,
                    payment,
                    scaled: blank,
                    rounded: blank,
                    amount: blank,
                };
                assert(formula_of(unit, self.balance, rate, self.periods, w));
                assert(formula_result(w) == Err::<Number, Seq<char>>(payment_message()));
            }
            return Err(e);
        }
        let scaled = evaluate(unit, Operation::Multiply(payment, hundred));
        let rounded = evaluate(unit, Operation::Round(scaled));
        let amount = evaluate(unit, Operation::Divide(rounded, hundred));
        proof {
            let w = Worksheet {
                count,
                base,
                growth,
                weighted,
                numerator,
                denominator,
                payment,
                scaled,
                rounded,
                amount,
            };
            assert(formula_of(unit, self.balance, rate, self.periods, w));
            assert(formula_result(w) == Ok::<Number, Seq<char>>(amount));
        }
        Ok(amount)
    }

    /// Generates the schedule: installments are broken down one after another
    /// for as long as the outstanding balance is positive, each dated one
    /// calendar month after the one before. On success the end date becomes
    /// the date one month after the last due date; on failure nothing changes.
    pub fn calculate_schedule<F: Fn(Operation) -> Number>(&mut self, unit: &F) -> (r: Result<
        Vec<Payment>,
        AmortizationError,
    >)
        requires
            total(unit),
        ensures
            final(self).balance == old(self).balance,
            final(self).periods == old(self).periods,
            final(self).periodic_interest == old(self).periodic_interest,
            final(self).periodic_payment == old(self).periodic_payment,
            final(self).schedule == old(self).schedule,
            final(self).total_payment == old(self).total_payment,
            final(self).total_interest == old(self).total_interest,
            final(self).start_date == old(self).start_date,
            match r {
                Ok(schedule) => {
                    &&& schedule_of(
                        unit,
                        old(self).periodic_interest,
                        old(self).periodic_payment,
                        old(self).balance,
                        old(self).start_date,
                        schedule@,
                    )
                    &&& due(old(self).start_date, schedule@.len(), final(self).end_date)
                },
                Err(e) => {
                    &&& final(self).end_date == old(self).end_date
                    &&& exists|message: Seq<char>|
                        #[trigger] e.is_calculation(message) && schedule_fails(
                            unit,
                            old(self).periodic_interest,
                            old(self).periodic_payment,
                            old(self).balance,
                            old(self).start_date,
                            message,
                        )
                },
            },
    {
        let mut balance = self.balance;
        let mut schedule: Vec<Payment> = Vec::new();
        let mut current_date = self.start_date;
        let mut installment_number: u32 = 1;
        let mut beginning_balance = self.balance;
        let ghost rate = self.periodic_interest;
        let ghost amount = self.periodic_payment;
        let ghost loan = self.balance;
        let ghost start = self.start_date;

        while balance.is_positive()
            invariant
                total(unit),
                *self == *old(self),
                rate == self.periodic_interest,
                amount == self.periodic_payment,
                loan == self.balance,
                start == self.start_date,
                installment_number == schedule@.len() + 1,
                forall|i: int|
                    0 <= i < schedule@.len() ==> #[trigger] entry_of(
                        unit,
                        rate,
                        amount,
                        loan,
                        start,
                        schedule@,
                        i,
                    ),
                balance == balance_before(loan, schedule@, schedule@.len() as int),
                schedule@.len() == 0 ==> beginning_balance == loan,
                schedule@.len() > 0 ==> yields(
                    unit,
                    Operation::Subtract(
                        schedule@.last().beginning_balance,
                        schedule@.last().principal,
                    ),
                    beginning_balance,
                ),
                due(start, schedule@.len(), current_date),
            decreases u32::MAX - installment_number,
        {
            let mut payment = match self.calculate_payment(
                balance,
                installment_number,
                beginning_balance,
                unit,
            ) {
                Ok(payment) => payment,
                Err(e) => {
                    proof {
                        let message = choose|message: Seq<char>|
                            #[trigger] e.is_calculation(message) && installment_fails(
                                unit,
                                rate,
                                amount,
                                balance,
                                message,
                            );
                        assert(stalls_after(unit, rate, amount, loan, start, schedule@, message));
                    }
                    return Err(e);
                },
            };
            if installment_number == u32::MAX {
                let e = calculation_error("Invalid installment calculation");
                proof {
                    let stamped = Payment { date: current_date, ..payment };
                    let s = schedule@.push(stamped);
                    let n = schedule@.len() as int;
                    assert(s[n] == stamped);
                    if n > 0 {
                        assert(s[n - 1] == schedule@[n - 1]);
                    }
                    assert(entry_of(unit, rate, amount, loan, start, s, n));
                    assert(stalls_after(
                        unit,
                        rate,
                        amount,
                        loan,
                        start,
                        schedule@,
                        installment_message(),
                    ));
                }
                return Err(e);
            }
            let ghost before = schedule@;
            let ghost owed = balance;
            balance = payment.remaining_balance;
            installment_number += 1;

            if let Some(date) = current_date {
                payment.date = Some(date);
                match date.checked_next_month() {
                    Some(next) => {
                        current_date = Some(next);
                    },
                    None => {
                        let e = calculation_error("Invalid date calculation");
                        proof {
                            let s = before.push(payment);
                            let n = before.len() as int;
                            assert(s[n] == payment);
                            if n > 0 {
                                assert(s[n - 1] == before[n - 1]);
                            }
                            assert(entry_of(unit, rate, amount, loan, start, s, n));
                            assert(stalls_after(
                                unit,
                                rate,
                                amount,
                                loan,
                                start,
                                before,
                                date_message(),
                            ));
                        }
                        return Err(e);
                    },
                }
            }
            schedule.push(payment);
            beginning_balance =
            evaluate(unit, Operation::Subtract(beginning_balance, payment.principal));
            proof {
                let s = schedule@;
                let n = before.len() as int;
                assert(s == before.push(payment));
                assert forall|i: int| 0 <= i < s.len() implies #[trigger] entry_of(
                    unit,
                    rate,
                    amount,
                    loan,
                    start,
                    s,
                    i,
                ) by {
                    if i < n {
                        assert(entry_of(unit, rate, amount, loan, start, before, i));
                        assert(s[i] == before[i]);
                        if i > 0 {
                            assert(s[i - 1] == before[i - 1]);
                        }
                    } else {
                        assert(s[i] == payment);
                        assert(balance_before(loan, s, i) == owed);
                    }
                }
            }
        }
        self.end_date = current_date;
        Ok(schedule)
    }
}

} // verus!
