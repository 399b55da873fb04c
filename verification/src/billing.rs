//! Billing arithmetic: how many payment periods have started since the last
//! claim, how much of a subscription's balance is owed to the service owner,
//! and whether a subscription still covers what it owes.
use vstd::prelude::*;
use crate::amount::Amount;
use crate::types::{Error, PeriodType, Service, ServiceView, Status, Subscription, SubscriptionView, SECONDS_PER_EPOCH};

verus! {

/// Seconds in one period unit of the given kind.
pub open spec fn period_multiplier(t: PeriodType) -> int {
    if t == PeriodType::Epochs {
        SECONDS_PER_EPOCH as int
    } else {
        1
    }
}

/// Length of one payment period of the service, in seconds.
pub open spec fn period_length(s: ServiceView) -> int {
    s.payment_period * period_multiplier(s.period_type)
}

/// Number of payment periods begun since the last claim: none while the
/// clock has not passed the last claim, otherwise the whole periods elapsed
/// plus the one that is running.
pub open spec fn passed_periods(s: ServiceView, sub: SubscriptionView, now: u64) -> int {
    if now <= sub.last_claim {
        0
    } else {
        (now - sub.last_claim) / period_length(s) + 1
    }
}

/// Whether computing the passed periods stays within 64 bits (the period
/// length and the resulting count are 64-bit values).
pub open spec fn passed_periods_fit(s: ServiceView, sub: SubscriptionView, now: u64) -> bool {
    now <= sub.last_claim || (period_length(s) <= u64::MAX && passed_periods(s, sub, now)
        <= u64::MAX)
}

/// What the subscription owes the service owner now: the price of every
/// passed period, but never more than the largest multiple of the price that
/// the balance holds; nothing while the balance is below one price.
pub open spec fn amount_owed(s: ServiceView, sub: SubscriptionView, now: u64) -> int {
    let to_pay = passed_periods(s, sub, now) * s.price;
    if sub.amount >= s.price && to_pay > 0 {
        let can_pay = sub.amount - (sub.amount as int) % (s.price as int);
        if can_pay <= to_pay {
            can_pay
        } else {
            to_pay
        }
    } else {
        0
    }
}

/// Active while the balance covers the price of every passed period (or the
/// last claim lies in the future); revoked otherwise.
pub open spec fn subscription_status(s: ServiceView, sub: SubscriptionView, now: u64) -> Status {
    if now < sub.last_claim {
        Status::Active
    } else if sub.amount >= passed_periods(s, sub, now) * s.price {
        Status::Active
    } else {
        Status::Revoked
    }
}

/// The multiple of the price that is owed: the owed amount is this many
/// prices (used to advance the last claim by as many periods).
pub open spec fn paid_periods(s: ServiceView, sub: SubscriptionView, now: u64) -> int {
    if s.price == 0 {
        0
    } else {
        amount_owed(s, sub, now) / (s.price as int)
    }
}

/// Owed amount in closed form: the price times the smaller of the passed
/// periods and the number of whole prices the balance holds.
pub proof fn lemma_amount_owed_closed_form(s: ServiceView, sub: SubscriptionView, now: u64)
    requires
        s.price > 0,
        s.payment_period > 0 || now <= sub.last_claim,
    ensures
        ({
            let p = passed_periods(s, sub, now);
            let k = (sub.amount as int) / (s.price as int);
            amount_owed(s, sub, now) == s.price * (if p <= k { p } else { k })
        }),
        0 <= passed_periods(s, sub, now),
{
    let p = passed_periods(s, sub, now);
    let price = s.price as int;
    let amount = sub.amount as int;
    let k = amount / price;
    assert(period_multiplier(s.period_type) >= 1);
    if now > sub.last_claim {
        assert(period_length(s) >= 1) by (nonlinear_arith)
            requires
                s.payment_period >= 1,
                period_multiplier(s.period_type) >= 1,
                period_length(s) == s.payment_period * period_multiplier(s.period_type),
        ;
        assert((now - sub.last_claim) / period_length(s) >= 0) by (nonlinear_arith)
            requires
                now - sub.last_claim > 0,
                period_length(s) >= 1,
        ;
    }
    assert(p >= 0);
    vstd::arithmetic::div_mod::lemma_fundamental_div_mod(amount, price);
    assert(amount - amount % price == price * k);
    assert(k >= 0) by (nonlinear_arith)
        requires
            amount >= 0,
            price > 0,
            k == amount / price,
    ;
    let owed = amount_owed(s, sub, now);
    let m = if p <= k { p } else { k };
    if amount >= price && p * price > 0 {
        assert(owed == if price * k <= p * price { price * k } else { p * price });
        if price * k <= p * price {
            assert(k <= p) by (nonlinear_arith)
                requires
                    price * k <= p * price,
                    price > 0,
            ;
            assert(owed == price * m);
        } else {
            assert(p < k) by (nonlinear_arith)
                requires
                    price * k > p * price,
                    price > 0,
            ;
            assert(p * price == price * p) by (nonlinear_arith);
            assert(owed == price * m);
        }
    } else if amount < price {
        assert(k == 0) by (nonlinear_arith)
            requires
                0 <= amount < price,
                k == amount / price,
        ;
        assert(m == 0);
        assert(owed == 0);
        assert(price * m == 0) by (nonlinear_arith)
            requires
                m == 0,
        ;
    } else {
        assert(p * price >= 0) by (nonlinear_arith)
            requires
                p >= 0,
                price > 0,
        ;
        assert(p == 0) by (nonlinear_arith)
            requires
                p * price == 0,
                price > 0,
                p >= 0,
        ;
        assert(m == 0);
        assert(owed == 0);
        assert(price * m == 0) by (nonlinear_arith)
            requires
                m == 0,
        ;
    }
}

/// Number of payment periods begun since the subscription's last claim.
/// Fails with `ArithmeticOverflow` exactly when the count or the period
/// length leaves 64 bits.
pub fn compute_passed_periods(service: &Service, subscription: &Subscription, now: u64) -> (res:
    Result<u64, Error>)
    requires
        service.payment_period > 0 || now <= subscription.last_claim,
    ensures
        match res {
            Ok(p) => passed_periods_fit(service@, subscription@, now) && p == passed_periods(
                service@,
                subscription@,
                now,
            ),
            Err(e) => e == Error::ArithmeticOverflow && !passed_periods_fit(
                service@,
                subscription@,
                now,
            ),
        },
{
    if now <= subscription.last_claim {
        return Ok(0);
    }
    let mult: u128 = if service.period_type == PeriodType::Epochs {
        SECONDS_PER_EPOCH as u128
    } else {
        1
    };
    assert(mult == period_multiplier(service.period_type));
    let pp: u128 = service.payment_period as u128;
    assert(pp * mult <= u64::MAX * 86400) by (nonlinear_arith)
        requires
            pp <= u64::MAX,
            1 <= mult <= 86400,
    ;
    let len: u128 = pp * mult;
    if len > u64::MAX as u128 {
        return Err(Error::ArithmeticOverflow);
    }
    assert(len >= 1) by (nonlinear_arith)
        requires
            pp >= 1,
            mult >= 1,
            len == pp * mult,
    ;
    let elapsed: u128 = (now - subscription.last_claim) as u128;
    let q: u128 = elapsed / len;
    assert(q <= elapsed) by (nonlinear_arith)
        requires
            len >= 1,
            q == elapsed / len,
            elapsed >= 0,
    ;
    if q >= u64::MAX as u128 {
        return Err(Error::ArithmeticOverflow);
    }
    Ok((q + 1) as u64)
}

/// The largest number of prices, at most `p`, that `amount` covers.
fn whole_prices_upto(amount: &Amount, price: &Amount, p: u64) -> (k: u64)
    requires
        price@ > 0,
    ensures
        k <= p,
        price@ * k <= amount@,
        k < p ==> amount@ < price@ * (k + 1),
{
    if price.mul_u64(p).le(amount) {
        return p;
    }
    let mut lo: u64 = 0;
    let mut hi: u64 = p;
    assert(price@ * 0 == 0);
    while hi - lo > 1
        invariant
            lo < hi <= p,
            price@ * lo <= amount@,
            amount@ < price@ * hi,
        decreases hi - lo,
    {
        let mid: u64 = lo + (hi - lo) / 2;
        if price.mul_u64(mid).le(amount) {
            lo = mid;
        } else {
            hi = mid;
        }
    }
    assert(hi == lo + 1);
    lo
}

/// How much of the subscription's balance is owed to the service owner now
/// (see `amount_owed`), and how many prices that is (see `paid_periods`).
/// Fails only where `compute_passed_periods` fails.
pub fn compute_amount_owed(service: &Service, subscription: &Subscription, now: u64) -> (res:
    Result<(Amount, u64), Error>)
    requires
        service.payment_period > 0 || now <= subscription.last_claim,
    ensures
        match res {
            Ok((v, k)) => passed_periods_fit(service@, subscription@, now) && v@ == amount_owed(
                service@,
                subscription@,
                now,
            ) && k == paid_periods(service@, subscription@, now) && v@ <= subscription.amount@,
            Err(e) => e == Error::ArithmeticOverflow && !passed_periods_fit(
                service@,
                subscription@,
                now,
            ),
        },
{
    let p = match compute_passed_periods(service, subscription, now) {
        Ok(p) => p,
        Err(e) => return Err(e),
    };
    if service.price.is_zero() {
        return Ok((Amount::zero(), 0));
    }
    let k = whole_prices_upto(&subscription.amount, &service.price, p);
    proof {
        let s = service@;
        let sub = subscription@;
        lemma_amount_owed_closed_form(s, sub, now);
        let price = s.price as int;
        let amount = sub.amount as int;
        let q = amount / price;
        vstd::arithmetic::div_mod::lemma_fundamental_div_mod(amount, price);
        if k < p {
            assert(q == k) by (nonlinear_arith)
                requires
                    price > 0,
                    amount >= 0,
                    price * k <= amount,
                    amount < price * (k + 1),
                    q == amount / price,
            ;
        } else {
            assert(k <= q) by (nonlinear_arith)
                requires
                    price > 0,
                    price * k <= amount,
                    q == amount / price,
            ;
        }
        assert((price * k) / price == k) by (nonlinear_arith)
            requires
                price > 0,
                k >= 0,
        ;
    }
    Ok((service.price.mul_u64(k), k))
}

/// Whether the subscription is active or revoked now (see
/// `subscription_status`). Fails only where `compute_passed_periods` fails.
pub fn compute_status(service: &Service, subscription: &Subscription, now: u64) -> (res: Result<
    Status,
    Error,
>)
    requires
        service.payment_period > 0 || now <= subscription.last_claim,
    ensures
        match res {
            Ok(st) => passed_periods_fit(service@, subscription@, now) && st
                == subscription_status(service@, subscription@, now),
            Err(e) => e == Error::ArithmeticOverflow && !passed_periods_fit(
                service@,
                subscription@,
                now,
            ),
        },
{
    let p = match compute_passed_periods(service, subscription, now) {
        Ok(p) => p,
        Err(e) => return Err(e),
    };
    if now < subscription.last_claim {
        return Ok(Status::Active);
    }
    assert(service@.price * p == p * service@.price) by (nonlinear_arith);
    if service.price.mul_u64(p).le(&subscription.amount) {
        Ok(Status::Active)
    } else {
        Ok(Status::Revoked)
    }
}

/// The owed amount is a whole number of prices, at most the balance, and
/// the number of prices is at most the passed periods.
pub proof fn lemma_owed_bounds(s: ServiceView, sub: SubscriptionView, now: u64)
    requires
        s.price > 0,
        s.payment_period > 0 || now <= sub.last_claim,
    ensures
        0 <= amount_owed(s, sub, now) <= sub.amount,
        0 <= paid_periods(s, sub, now) <= passed_periods(s, sub, now),
        paid_periods(s, sub, now) * s.price == amount_owed(s, sub, now),
{
    lemma_amount_owed_closed_form(s, sub, now);
    let p = passed_periods(s, sub, now);
    let price = s.price as int;
    let amount = sub.amount as int;
    let k = amount / price;
    let m = if p <= k { p } else { k };
    assert(k >= 0) by (nonlinear_arith)
        requires
            amount >= 0,
            price > 0,
            k == amount / price,
    ;
    assert(price * k <= amount) by (nonlinear_arith)
        requires
            price > 0,
            k == amount / price,
            amount >= 0,
    ;
    assert(0 <= price * m <= price * k) by (nonlinear_arith)
        requires
            0 <= m <= k,
            price > 0,
    ;
    assert((price * m) / price == m) by (nonlinear_arith)
        requires
            price > 0,
            m >= 0,
    ;
    assert(m * price == price * m) by (nonlinear_arith);
}

/// The last claim moved forward by `periods` payment periods of the
/// service. Fails with `ArithmeticOverflow` exactly when the result, or a
/// product on the way to it, leaves 64 bits.
pub fn advance_last_claim(service: &Service, last_claim: u64, periods: u64) -> (res: Result<
    u64,
    Error,
>)
    ensures
        match res {
            Ok(x) => x == last_claim + periods * service.payment_period * period_multiplier(
                service.period_type,
            ),
            Err(e) => e == Error::ArithmeticOverflow && last_claim + periods
                * service.payment_period * period_multiplier(service.period_type) > u64::MAX,
        },
{
    let mult: u128 = if service.period_type == PeriodType::Epochs {
        SECONDS_PER_EPOCH as u128
    } else {
        1
    };
    let pp: u128 = service.payment_period as u128;
    let periods: u128 = periods as u128;
    assert(periods * pp <= u64::MAX * u64::MAX) by (nonlinear_arith)
        requires
            periods <= u64::MAX,
            pp <= u64::MAX,
    ;
    let x: u128 = periods * pp;
    if x > u64::MAX as u128 {
        assert(x * mult >= x) by (nonlinear_arith)
            requires
                mult >= 1,
                x >= 0,
        ;
        return Err(Error::ArithmeticOverflow);
    }
    assert(x * mult <= u64::MAX * 86400) by (nonlinear_arith)
        requires
            x <= u64::MAX,
            1 <= mult <= 86400,
    ;
    let y: u128 = x * mult;
    let z: u128 = y + last_claim as u128;
    if z > u64::MAX as u128 {
        return Err(Error::ArithmeticOverflow);
    }
    Ok(z as u64)
}

} // verus!
