//! What holds of every schedule and of every amortization that was built.

use vstd::prelude::*;
use crate::arithmetic::{deterministic, yields, Operation};
use crate::calculator::{
    amortizes, balance_before, built, due, entry_of, formula_of, formula_result,
    payment_amount_of, rate_of, schedule_of, total_of, Amortization, Worksheet,
};
use crate::date::Date;
use crate::number::Number;
use crate::payment::Payment;

verus! {

/// The schedule of a positive loan amount is not empty, and its last
/// installment leaves a balance that is not positive. Where the last
/// installment paid off a balance below the payment amount, it leaves exactly
/// zero.
pub proof fn lemma_schedule_pays_off<F: Fn(Operation) -> Number>(
    unit: &F,
    rate: Number,
    amount: Number,
    balance: Number,
    start: Option<Date>,
    s: Seq<Payment>,
)
    requires
        schedule_of(unit, rate, amount, balance, start, s),
        balance.positive(),
    ensures
        s.len() >= 1,
        !s.last().remaining_balance.positive(),
        balance_before(balance, s, s.len() - 1).below(amount) ==> s.last().remaining_balance
            == Number::zero_value(),
{
    if s.len() == 0 {
        assert(balance_before(balance, s, 0) == balance);
    } else {
        assert(entry_of(unit, rate, amount, balance, start, s, s.len() - 1));
    }
}

/// The installments of a schedule are numbered 1, 2, 3 and so on, without
/// gaps or repeats.
pub proof fn lemma_installments_numbered<F: Fn(Operation) -> Number>(
    unit: &F,
    rate: Number,
    amount: Number,
    balance: Number,
    start: Option<Date>,
    s: Seq<Payment>,
)
    requires
        schedule_of(unit, rate, amount, balance, start, s),
    ensures
        forall|i: int| 0 <= i < s.len() ==> (#[trigger] s[i]).installment_number == i + 1,
{
    assert forall|i: int| 0 <= i < s.len() implies (#[trigger] s[i]).installment_number == i
        + 1 by {
        assert(entry_of(unit, rate, amount, balance, start, s, i));
    }
}

/// Every installment but the last pays the full periodic amount: its
/// principal is the payment amount less its interest, and the balance that it
/// leaves is the balance before it less that principal.
pub proof fn lemma_regular_installments<F: Fn(Operation) -> Number>(
    unit: &F,
    rate: Number,
    amount: Number,
    balance: Number,
    start: Option<Date>,
    s: Seq<Payment>,
    i: int,
)
    requires
        schedule_of(unit, rate, amount, balance, start, s),
        0 <= i < s.len() - 1,
    ensures
        s[i].installment_amount == amount,
        yields(unit, Operation::Subtract(amount, s[i].interest), s[i].principal),
        yields(
            unit,
            Operation::Subtract(balance_before(balance, s, i), s[i].principal),
            s[i].remaining_balance,
        ),
{
    assert(entry_of(unit, rate, amount, balance, start, s, i));
    assert(entry_of(unit, rate, amount, balance, start, s, i + 1));
    assert(balance_before(balance, s, i + 1) == s[i].remaining_balance);
}

/// The installments of a dated schedule are due at monthly steps from the
/// start date, and those of an undated schedule carry no date.
pub proof fn lemma_installments_dated<F: Fn(Operation) -> Number>(
    unit: &F,
    rate: Number,
    amount: Number,
    balance: Number,
    start: Option<Date>,
    s: Seq<Payment>,
)
    requires
        schedule_of(unit, rate, amount, balance, start, s),
    ensures
        forall|i: int| 0 <= i < s.len() ==> due(start, i as nat, (#[trigger] s[i]).date),
{
    assert forall|i: int| 0 <= i < s.len() implies due(start, i as nat, (#[trigger] s[i]).date) by {
        assert(entry_of(unit, rate, amount, balance, start, s, i));
    }
}

/// The periodic rate of an amortization that was built is the annual
/// percentage rate over one hundred and over twelve, and its nominal totals are
/// the number of periods times the payment amount, and that less the loan
/// amount.
pub proof fn lemma_rate_and_totals<F: Fn(Operation) -> Number>(
    unit: &F,
    balance: Number,
    apr: Number,
    periods: u32,
    start: Option<Date>,
    a: Amortization,
)
    requires
        built(unit, balance, apr, periods, start, Ok(a)),
    ensures
        rate_of(unit, apr, a.periodic_interest),
        total_of(unit, periods, a.periodic_payment, a.total_payment),
        yields(unit, Operation::Subtract(a.total_payment, balance), a.total_interest),
{
}

/// With a deterministic unit, the payment formula comes to one amount.
pub proof fn lemma_payment_amount_deterministic<F: Fn(Operation) -> Number>(
    unit: &F,
    balance: Number,
    rate: Number,
    periods: u32,
    first: Number,
    second: Number,
)
    requires
        deterministic(unit),
        payment_amount_of(unit, balance, rate, periods, Ok(first)),
        payment_amount_of(unit, balance, rate, periods, Ok(second)),
    ensures
        first == second,
{
    let v = choose|w: Worksheet| #[trigger]
        formula_of(unit, balance, rate, periods, w) && formula_result(w) == Ok::<
            Number,
            Seq<char>,
        >(first);
    let w = choose|w: Worksheet| #[trigger]
        formula_of(unit, balance, rate, periods, w) && formula_result(w) == Ok::<
            Number,
            Seq<char>,
        >(second);
    assert(v.count == w.count);
    assert(v.base == w.base);
    assert(v.growth == w.growth);
    assert(v.weighted == w.weighted);
    assert(v.numerator == w.numerator);
    assert(v.denominator == w.denominator);
    assert(v.payment == w.payment);
    assert(v.scaled == w.scaled);
    assert(v.rounded == w.rounded);
}

/// With a deterministic unit, two runs of installments that continue the
/// schedule of the same loan agree on the first `k` installments.
proof fn lemma_prefixes_agree<F: Fn(Operation) -> Number>(
    unit: &F,
    rate: Number,
    amount: Number,
    balance: Number,
    start: Option<Date>,
    s: Seq<Payment>,
    t: Seq<Payment>,
    k: int,
)
    requires
        deterministic(unit),
        forall|i: int|
            0 <= i < s.len() ==> #[trigger] entry_of(unit, rate, amount, balance, start, s, i),
        forall|i: int|
            0 <= i < t.len() ==> #[trigger] entry_of(unit, rate, amount, balance, start, t, i),
        0 <= k <= s.len(),
        k <= t.len(),
    ensures
        forall|j: int| 0 <= j < k ==> s[j] == t[j],
    decreases k,
{
    if k > 0 {
        lemma_prefixes_agree(unit, rate, amount, balance, start, s, t, k - 1);
        let j = k - 1;
        assert(entry_of(unit, rate, amount, balance, start, s, j));
        assert(entry_of(unit, rate, amount, balance, start, t, j));
        if j > 0 {
            assert(s[j - 1] == t[j - 1]);
        }
        assert(balance_before(balance, s, j) == balance_before(balance, t, j));
        assert(s[j].beginning_balance == t[j].beginning_balance);
        assert(s[j].interest == t[j].interest);
        assert(s[j].principal == t[j].principal);
        assert(s[j].remaining_balance == t[j].remaining_balance);
        assert(s[j].ending_balance == t[j].ending_balance);
        assert(s[j].date == t[j].date) by {
            if let Some(first) = start {
                s[j].date.unwrap().lemma_same_day(t[j].date.unwrap());
            }
        }
        assert(s[j] == t[j]);
    }
}

/// With a deterministic unit, a loan has one schedule.
pub proof fn lemma_schedule_deterministic<F: Fn(Operation) -> Number>(
    unit: &F,
    rate: Number,
    amount: Number,
    balance: Number,
    start: Option<Date>,
    s: Seq<Payment>,
    t: Seq<Payment>,
)
    requires
        deterministic(unit),
        schedule_of(unit, rate, amount, balance, start, s),
        schedule_of(unit, rate, amount, balance, start, t),
    ensures
        s == t,
{
    let k = if s.len() <= t.len() {
        s.len() as int
    } else {
        t.len() as int
    };
    lemma_prefixes_agree(unit, rate, amount, balance, start, s, t, k);
    if s.len() < t.len() {
        assert(entry_of(unit, rate, amount, balance, start, t, k));
        if k > 0 {
            assert(s[k - 1] == t[k - 1]);
        }
        assert(balance_before(balance, s, k) == balance_before(balance, t, k));
    }
    if t.len() < s.len() {
        assert(entry_of(unit, rate, amount, balance, start, s, k));
        if k > 0 {
            assert(s[k - 1] == t[k - 1]);
        }
        assert(balance_before(balance, s, k) == balance_before(balance, t, k));
    }
    assert(s =~= t);
}

/// Building the amortization of the same inputs twice, with a deterministic
/// unit, gives the same rate, the same payment amount, the same schedule, the
/// same totals and the same end date.
pub proof fn lemma_construction_deterministic<F: Fn(Operation) -> Number>(
    unit: &F,
    balance: Number,
    apr: Number,
    periods: u32,
    start: Option<Date>,
    first: Amortization,
    second: Amortization,
)
    requires
        deterministic(unit),
        built(unit, balance, apr, periods, start, Ok(first)),
        built(unit, balance, apr, periods, start, Ok(second)),
    ensures
        first.periodic_interest == second.periodic_interest,
        first.periodic_payment == second.periodic_payment,
        first.schedule@ == second.schedule@,
        first.total_payment == second.total_payment,
        first.total_interest == second.total_interest,
        first.end_date == second.end_date,
{
    let p = choose|rate: Number| #[trigger]
        rate_of(unit, apr, rate) && amortizes(unit, balance, rate, periods, start, first);
    let q = choose|rate: Number| #[trigger]
        rate_of(unit, apr, rate) && amortizes(unit, balance, rate, periods, start, second);
    assert(p == q) by {
        let f = choose|fraction: Number|
            #[trigger] yields(unit, Operation::Divide(apr, Number::hundred_value()), fraction)
                && yields(unit, Operation::Divide(fraction, Number::twelve_value()), p);
        let g = choose|fraction: Number|
            #[trigger] yields(unit, Operation::Divide(apr, Number::hundred_value()), fraction)
                && yields(unit, Operation::Divide(fraction, Number::twelve_value()), q);
        assert(f == g);
    }
    lemma_payment_amount_deterministic(
        unit,
        balance,
        p,
        periods,
        first.periodic_payment,
        second.periodic_payment,
    );
    let amount = first.periodic_payment;
    lemma_schedule_deterministic(
        unit,
        p,
        amount,
        balance,
        start,
        first.schedule@,
        second.schedule@,
    );
    assert(first.total_payment == second.total_payment) by {
        let c = choose|count: Number|
            #[trigger] yields(unit, Operation::Count(periods), count) && yields(
                unit,
                Operation::Multiply(count, amount),
                first.total_payment,
            );
        let d = choose|count: Number|
            #[trigger] yields(unit, Operation::Count(periods), count) && yields(
                unit,
                Operation::Multiply(count, amount),
                second.total_payment,
            );
        assert(c == d);
    }
    assert(first.end_date == second.end_date) by {
        if let Some(day) = start {
            first.end_date.unwrap().lemma_same_day(second.end_date.unwrap());
        }
    }
}

} // verus!
