//! What each service endpoint does to the contract storage, stated over
//! `ContractView`: the checks in the order the endpoint makes them, the
//! error of the first that fails, and the storage and transfer that follow
//! when all pass.
use vstd::prelude::*;
use crate::billing::{
    amount_owed, paid_periods, passed_periods, passed_periods_fit, period_multiplier,
    subscription_status,
};
use crate::collections::{set_inserted, set_removed};
use crate::state::{ContractView, service_subscriptions, with_service_subscriptions};
use crate::types::{
    Address, Error, PaymentView, PeriodType, ServiceView, Status, SubId, SubscriptionView,
    TokenView, TransferView, MAX_TEXT_LEN, PERCENTAGE_TOTAL,
};

verus! {

pub open spec fn sub_key(address: Address, service_id: u64) -> SubId {
    SubId { address, service_id }
}

/// The nonce a service or discount records for a payment token: zero for
/// EGLD, otherwise the given nonce or zero when none is given.
pub open spec fn accepted_nonce(token: TokenView, nonce: Option<u64>) -> u64 {
    if token is Egld {
        0
    } else {
        match nonce {
            Some(n) => n,
            None => 0,
        }
    }
}

pub open spec fn text_too_long(text: Option<Seq<u8>>) -> bool {
    match text {
        Some(t) => t.len() > MAX_TEXT_LEN,
        None => false,
    }
}

pub open spec fn text_or_empty(text: Option<Seq<u8>>) -> Seq<u8> {
    match text {
        Some(t) => t,
        None => Seq::empty(),
    }
}

pub open spec fn valid_period_type(t: PeriodType) -> bool {
    t == PeriodType::Seconds || t == PeriodType::Epochs
}

/// The service `create_service` stores.
pub open spec fn new_service(
    v: ContractView,
    caller: Address,
    payment_token: TokenView,
    payment_nonce: Option<u64>,
    price: nat,
    period_type: PeriodType,
    payment_period: u64,
    service_name: Option<Seq<u8>>,
    service_webpage: Option<Seq<u8>>,
    grace_period: Option<u64>,
) -> ServiceView {
    ServiceView {
        owner: caller,
        payment_token,
        payment_nonce: accepted_nonce(payment_token, payment_nonce),
        price,
        period_type,
        payment_period,
        payments_total: 0,
        custom_cut: false,
        contract_cut_percentage: v.contract_cut_percentage,
        service_name: text_or_empty(service_name),
        service_webpage: text_or_empty(service_webpage),
        grace_period: match grace_period {
            Some(g) => g,
            None => 0,
        },
    }
}

/// `create_service`: the new storage and the new service's id.
pub open spec fn create_service_spec(
    v: ContractView,
    caller: Address,
    payment_token: TokenView,
    payment_nonce: Option<u64>,
    price: nat,
    period_type: PeriodType,
    payment_period: u64,
    service_name: Option<Seq<u8>>,
    service_webpage: Option<Seq<u8>>,
    grace_period: Option<u64>,
) -> Result<(ContractView, u64), Error> {
    if v.paused {
        Err(Error::ContractPaused)
    } else if !valid_period_type(period_type) {
        Err(Error::InvalidPeriodType)
    } else if payment_period == 0 {
        Err(Error::PaymentPeriodZero)
    } else if price == 0 {
        Err(Error::PriceZero)
    } else if text_too_long(service_name) {
        Err(Error::ServiceNameTooLong)
    } else if text_too_long(service_webpage) {
        Err(Error::ServiceWebpageTooLong)
    } else if v.last_valid_service_id >= u64::MAX {
        Err(Error::ArithmeticOverflow)
    } else {
        let id = (v.last_valid_service_id + 1) as u64;
        let s = new_service(
            v,
            caller,
            payment_token,
            payment_nonce,
            price,
            period_type,
            payment_period,
            service_name,
            service_webpage,
            grace_period,
        );
        Ok(
            (
                ContractView {
                    last_valid_service_id: id as nat,
                    services: v.services.insert(id, s),
                    services_by_address: v.services_by_address.insert(
                        caller,
                        set_inserted(v.services_by_address[caller], id),
                    ),
                    ..v
                },
                id,
            ),
        )
    }
}

/// The service after the token part of `update_service`: a new token sets
/// the nonce to zero for EGLD and otherwise needs a nonce.
pub open spec fn update_token(
    s: ServiceView,
    token: Option<TokenView>,
    nonce: Option<u64>,
) -> Result<ServiceView, Error> {
    match token {
        None => Ok(s),
        Some(t) => if t is Egld {
            Ok(ServiceView { payment_token: t, payment_nonce: 0, ..s })
        } else {
            match nonce {
                Some(n) => Ok(ServiceView { payment_token: t, payment_nonce: n, ..s }),
                None => Err(Error::NonceNeeded),
            }
        },
    }
}

/// `update_service`: the new storage.
pub open spec fn update_service_spec(
    v: ContractView,
    caller: Address,
    service_id: u64,
    token: Option<TokenView>,
    nonce: Option<u64>,
    price: Option<nat>,
    period_type: Option<PeriodType>,
    payment_period: Option<u64>,
    service_name: Option<Seq<u8>>,
    service_webpage: Option<Seq<u8>>,
    grace_period: Option<u64>,
) -> Result<ContractView, Error> {
    if v.paused {
        Err(Error::ContractPaused)
    } else if !v.services.contains_key(service_id) {
        Err(Error::ServiceDoesNotExist)
    } else if v.services[service_id].owner != caller {
        Err(Error::NotServiceOwner)
    } else {
        match update_token(v.services[service_id], token, nonce) {
            Err(e) => Err(e),
            Ok(s1) => if price matches Some(p) && p == 0 {
                Err(Error::PriceZero)
            } else if period_type matches Some(t) && !valid_period_type(t) {
                Err(Error::InvalidPeriodType)
            } else if payment_period matches Some(pp) && pp == 0 {
                Err(Error::PaymentPeriodZero)
            } else if text_too_long(service_name) {
                Err(Error::UpdatedServiceNameTooLong)
            } else if text_too_long(service_webpage) {
                Err(Error::UpdatedServiceWebpageTooLong)
            } else {
                let s2 = ServiceView {
                    price: match price {
                        Some(p) => p,
                        None => s1.price,
                    },
                    period_type: match period_type {
                        Some(t) => t,
                        None => s1.period_type,
                    },
                    payment_period: match payment_period {
                        Some(pp) => pp,
                        None => s1.payment_period,
                    },
                    service_name: match service_name {
                        Some(n) => n,
                        None => s1.service_name,
                    },
                    service_webpage: match service_webpage {
                        Some(w) => w,
                        None => s1.service_webpage,
                    },
                    grace_period: match grace_period {
                        Some(g) => g,
                        None => s1.grace_period,
                    },
                    ..s1
                };
                Ok(ContractView { services: v.services.insert(service_id, s2), ..v })
            },
        }
    }
}

/// `set_custom_cut_service` (owner of the contract only): the new storage.
pub open spec fn set_custom_cut_spec(
    v: ContractView,
    caller: Address,
    service_id: u64,
    cut_flag: bool,
    custom_cut: Option<u64>,
) -> Result<ContractView, Error> {
    if caller != v.owner {
        Err(Error::OnlyOwner)
    } else if !v.services.contains_key(service_id) {
        Err(Error::ServiceDoesNotExist)
    } else {
        let s = v.services[service_id];
        if cut_flag {
            match custom_cut {
                Some(c) => if c > PERCENTAGE_TOTAL {
                    Err(Error::InvalidPercentage)
                } else {
                    Ok(
                        ContractView {
                            services: v.services.insert(
                                service_id,
                                ServiceView {
                                    custom_cut: true,
                                    contract_cut_percentage: c as nat,
                                    ..s
                                },
                            ),
                            ..v
                        },
                    )
                },
                None => Ok(v),
            }
        } else {
            Ok(
                ContractView {
                    services: v.services.insert(service_id, ServiceView { custom_cut: false, ..s }),
                    ..v
                },
            )
        }
    }
}

/// `end_service`: the new storage.
pub open spec fn end_service_spec(v: ContractView, caller: Address, service_id: u64) -> Result<
    ContractView,
    Error,
> {
    if v.paused {
        Err(Error::ContractPaused)
    } else if !v.services.contains_key(service_id) {
        Err(Error::ServiceDoesNotExist)
    } else if v.services[service_id].owner != caller {
        Err(Error::OnlyOwnerCanEnd)
    } else {
        Ok(ContractView { services: v.services.remove(service_id), ..v })
    }
}

/// `subscribe`: the new storage.
pub open spec fn subscribe_spec(
    v: ContractView,
    caller: Address,
    service_id: u64,
    payment: PaymentView,
    now: u64,
) -> Result<ContractView, Error> {
    if v.paused {
        Err(Error::ContractPaused)
    } else if !v.services.contains_key(service_id) {
        Err(Error::ServiceDoesNotExist)
    } else {
        let s = v.services[service_id];
        let key = sub_key(caller, service_id);
        if payment.token != s.payment_token {
            Err(Error::IncorrectPaymentToken)
        } else if payment.nonce != s.payment_nonce {
            Err(Error::IncorrectPaymentNonce)
        } else if payment.amount < s.price {
            Err(Error::InsufficientAmount)
        } else if v.subscriptions.contains_key(key) {
            Err(Error::SubscriptionAlreadyExists)
        } else {
            Ok(
                ContractView {
                    subscriptions: v.subscriptions.insert(
                        key,
                        SubscriptionView {
                            last_claim: now,
                            payment_token: s.payment_token,
                            payment_nonce: s.payment_nonce,
                            amount: payment.amount,
                            prev_amount: 0,
                            unsubscribed: false,
                        },
                    ),
                    subscribers: v.subscribers.insert(
                        service_id,
                        set_inserted(v.subscribers[service_id], caller),
                    ),
                    subscriptions_by_address: v.subscriptions_by_address.insert(
                        caller,
                        set_inserted(v.subscriptions_by_address[caller], service_id),
                    ),
                    ..v
                },
            )
        }
    }
}

/// Storage without the subscription of `caller` to `service_id`, neither in
/// the subscriptions, the subscriber list nor the caller's list.
pub open spec fn drop_subscription(v: ContractView, caller: Address, service_id: u64) -> ContractView {
    ContractView {
        subscriptions: v.subscriptions.remove(sub_key(caller, service_id)),
        subscribers: v.subscribers.insert(
            service_id,
            set_removed(v.subscribers[service_id], caller),
        ),
        subscriptions_by_address: v.subscriptions_by_address.insert(
            caller,
            set_removed(v.subscriptions_by_address[caller], service_id),
        ),
        ..v
    }
}

/// `unsubscribe`: the new storage and the refund, if any. Without the
/// service the whole balance is refunded; otherwise only a revoked
/// subscription can leave, the owed amount stays for the owner and the rest
/// is refunded.
pub open spec fn unsubscribe_spec(v: ContractView, caller: Address, service_id: u64, now: u64) -> Result<
    (ContractView, Option<TransferView>),
    Error,
> {
    let key = sub_key(caller, service_id);
    if !v.subscriptions.contains_key(key) {
        Err(Error::SubscriptionDoesNotExist)
    } else {
        let sub = v.subscriptions[key];
        if !v.services.contains_key(service_id) {
            Ok(
                (
                    drop_subscription(v, caller, service_id),
                    Some(
                        TransferView {
                            to: caller,
                            token: sub.payment_token,
                            nonce: sub.payment_nonce,
                            amount: sub.amount,
                        },
                    ),
                ),
            )
        } else {
            let s = v.services[service_id];
            if !passed_periods_fit(s, sub, now) {
                Err(Error::ArithmeticOverflow)
            } else if subscription_status(s, sub, now) != Status::Revoked {
                Err(Error::SubscriptionStillActive)
            } else {
                let to_pay = amount_owed(s, sub, now);
                let left = sub.amount - to_pay;
                let v1 = if left > 0 {
                    ContractView {
                        subscriptions: v.subscriptions.insert(
                            key,
                            SubscriptionView {
                                last_claim: sub.last_claim,
                                payment_token: s.payment_token,
                                payment_nonce: s.payment_nonce,
                                amount: to_pay as nat,
                                prev_amount: sub.prev_amount,
                                unsubscribed: true,
                            },
                        ),
                        subscriptions_by_address: v.subscriptions_by_address.insert(
                            caller,
                            set_removed(v.subscriptions_by_address[caller], service_id),
                        ),
                        ..v
                    }
                } else {
                    v
                };
                let refund = if left > 0 {
                    Some(
                        TransferView {
                            to: caller,
                            token: s.payment_token,
                            nonce: s.payment_nonce,
                            amount: left as nat,
                        },
                    )
                } else {
                    None
                };
                let v2 = if to_pay == 0 {
                    drop_subscription(v1, caller, service_id)
                } else {
                    v1
                };
                Ok((v2, refund))
            }
        }
    }
}

/// `fund_subscription`: the new storage. The payment is added to the
/// balance; a revoked subscription first sets aside what it owes (kept for
/// the owner as the previous amount) and restarts at `now`.
pub open spec fn fund_subscription_spec(
    v: ContractView,
    caller: Address,
    service_id: u64,
    payment: PaymentView,
    now: u64,
) -> Result<ContractView, Error> {
    if v.paused {
        Err(Error::ContractPaused)
    } else if !v.services.contains_key(service_id) {
        Err(Error::ServiceDoesNotExist)
    } else {
        let s = v.services[service_id];
        let key = sub_key(caller, service_id);
        if payment.token != s.payment_token {
            Err(Error::IncorrectPaymentToken)
        } else if payment.nonce != s.payment_nonce {
            Err(Error::IncorrectPaymentNonce)
        } else if !v.subscriptions.contains_key(key) {
            Err(Error::FundedSubscriptionMissing)
        } else {
            let sub = v.subscriptions[key];
            let total = sub.amount + payment.amount;
            if !passed_periods_fit(s, sub, now) {
                Err(Error::ArithmeticOverflow)
            } else {
                let revoked = subscription_status(s, sub, now) == Status::Revoked;
                let to_pay = amount_owed(s, sub, now);
                let new_sub = if revoked {
                    SubscriptionView {
                        last_claim: now,
                        payment_token: s.payment_token,
                        payment_nonce: s.payment_nonce,
                        amount: (total - to_pay) as nat,
                        prev_amount: to_pay as nat,
                        unsubscribed: sub.unsubscribed,
                    }
                } else {
                    SubscriptionView {
                        last_claim: sub.last_claim,
                        payment_token: s.payment_token,
                        payment_nonce: s.payment_nonce,
                        amount: total as nat,
                        prev_amount: 0,
                        unsubscribed: sub.unsubscribed,
                    }
                };
                Ok(ContractView { subscriptions: v.subscriptions.insert(key, new_sub), ..v })
            }
        }
    }
}

/// `retrieve_funds`: the new storage and the transfer to the caller. The
/// balance left must stay above the owed amount.
pub open spec fn retrieve_funds_spec(
    v: ContractView,
    caller: Address,
    service_id: u64,
    amount: nat,
    now: u64,
) -> Result<(ContractView, TransferView), Error> {
    let key = sub_key(caller, service_id);
    if !v.services.contains_key(service_id) {
        Err(Error::ServiceDoesNotExist)
    } else if !v.subscriptions.contains_key(key) {
        Err(Error::SubscriptionDoesNotExist)
    } else {
        let s = v.services[service_id];
        let sub = v.subscriptions[key];
        if !passed_periods_fit(s, sub, now) {
            Err(Error::ArithmeticOverflow)
        } else if !(amount <= sub.amount && amount > 0) {
            Err(Error::RetrieveMoreThanHeld)
        } else if sub.amount - amount <= amount_owed(s, sub, now) {
            Err(Error::RetrieveBelowOwed)
        } else {
            Ok(
                (
                    ContractView {
                        subscriptions: v.subscriptions.insert(
                            key,
                            SubscriptionView {
                                last_claim: sub.last_claim,
                                payment_token: s.payment_token,
                                payment_nonce: s.payment_nonce,
                                amount: (sub.amount - amount) as nat,
                                prev_amount: sub.prev_amount,
                                unsubscribed: false,
                            },
                        ),
                        ..v
                    },
                    TransferView {
                        to: caller,
                        token: s.payment_token,
                        nonce: s.payment_nonce,
                        amount,
                    },
                ),
            )
        }
    }
}

/// State of a claim after some subscribers have been visited: the
/// subscriber list and the service's subscriptions as storage holds them
/// now, the amount booked by the last paying subscriber, and the total to
/// send to the owner.
pub struct ClaimProgress {
    pub subscribers: Seq<Address>,
    pub subscriptions: Map<Address, SubscriptionView>,
    pub last_payment: Option<int>,
    pub total: int,
}

/// The subscription after its owner was paid what it owed: the last claim
/// moves forward by the paid periods, the balance drops by the owed amount
/// and the previous amount is settled.
pub open spec fn settled_subscription(s: ServiceView, sub: SubscriptionView, now: u64) -> SubscriptionView {
    SubscriptionView {
        last_claim: (sub.last_claim + paid_periods(s, sub, now) * s.payment_period
            * period_multiplier(s.period_type)) as u64,
        payment_token: s.payment_token,
        payment_nonce: s.payment_nonce,
        amount: (sub.amount - amount_owed(s, sub, now)) as nat,
        prev_amount: 0,
        unsubscribed: false,
    }
}

/// One step of a claim: visit the subscriber at position `i` of the list as
/// it is now. An unsubscribed subscription pays its whole balance and is
/// cleared, and the caller is swap-removed from the list; an active one pays
/// what it owes plus its previous amount; reading past the end of the list
/// fails.
pub open spec fn claim_step(
    s: ServiceView,
    caller: Address,
    now: u64,
    p: ClaimProgress,
    i: int,
) -> Result<ClaimProgress, Error> {
    if i >= p.subscribers.len() {
        Err(Error::EmptySubscriberSlot)
    } else {
        let addr = p.subscribers[i];
        if !p.subscriptions.contains_key(addr) {
            Err(Error::SubscriptionDoesNotExist)
        } else {
            let sub = p.subscriptions[addr];
            if sub.unsubscribed {
                Ok(
                    ClaimProgress {
                        subscribers: set_removed(p.subscribers, caller),
                        subscriptions: p.subscriptions.remove(addr),
                        total: p.total + sub.amount,
                        ..p
                    },
                )
            } else if !passed_periods_fit(s, sub, now) {
                Err(Error::ArithmeticOverflow)
            } else {
                let owed = amount_owed(s, sub, now);
                if sub.amount >= s.price && owed > 0 {
                    let paid = owed + sub.prev_amount;
                    if sub.last_claim + paid_periods(s, sub, now) * s.payment_period
                        * period_multiplier(s.period_type) > u64::MAX {
                        Err(Error::ArithmeticOverflow)
                    } else {
                        Ok(
                            ClaimProgress {
                                subscriptions: p.subscriptions.insert(
                                    addr,
                                    settled_subscription(s, sub, now),
                                ),
                                last_payment: Some(paid),
                                total: p.total + paid,
                                ..p
                            },
                        )
                    }
                } else {
                    Ok(p)
                }
            }
        }
    }
}

/// The claim from position `i` up to (not including) `end`, the length the
/// subscriber list had when the claim began.
pub open spec fn claim_run(
    s: ServiceView,
    caller: Address,
    now: u64,
    p: ClaimProgress,
    i: int,
    end: int,
) -> Result<ClaimProgress, Error>
    decreases end - i,
{
    if i >= end {
        Ok(p)
    } else {
        match claim_step(s, caller, now, p, i) {
            Ok(q) => claim_run(s, caller, now, q, i + 1, end),
            Err(e) => Err(e),
        }
    }
}

/// Progress before the first subscriber of service `service_id` is visited.
pub open spec fn claim_start(v: ContractView, service_id: u64) -> ClaimProgress {
    ClaimProgress {
        subscribers: v.subscribers[service_id],
        subscriptions: service_subscriptions(v, service_id),
        last_payment: None,
        total: 0,
    }
}

/// `claim_funds` (service owner only): the new storage and the transfer of
/// everything collected to the owner; refused when nothing is collected.
pub open spec fn claim_funds_spec(v: ContractView, caller: Address, service_id: u64, now: u64) -> Result<
    (ContractView, TransferView),
    Error,
> {
    if !v.services.contains_key(service_id) {
        Err(Error::ServiceDoesNotExist)
    } else if v.services[service_id].owner != caller {
        Err(Error::OnlyOwnerCanClaim)
    } else {
        let s = v.services[service_id];
        let start = claim_start(v, service_id);
        match claim_run(s, caller, now, start, 0, start.subscribers.len() as int) {
            Err(e) => Err(e),
            Ok(p) => if p.total == 0 {
                Err(Error::NoPaymentsToClaim)
            } else {
                let services = match p.last_payment {
                    Some(x) => v.services.insert(
                        service_id,
                        ServiceView { payments_total: (s.payments_total + x) as nat, ..s },
                    ),
                    None => v.services,
                };
                Ok(
                    (
                        ContractView {
                            services,
                            subscribers: v.subscribers.insert(service_id, p.subscribers),
                            subscriptions: with_service_subscriptions(
                                v.subscriptions,
                                service_id,
                                p.subscriptions,
                            ),
                            ..v
                        },
                        TransferView {
                            to: caller,
                            token: s.payment_token,
                            nonce: s.payment_nonce,
                            amount: p.total as nat,
                        },
                    ),
                )
            },
        }
    }
}

/// `try_get_status`: the status of the subscription of `address` to
/// `service_id`.
pub open spec fn status_spec(v: ContractView, address: Address, service_id: u64, now: u64) -> Result<
    Status,
    Error,
> {
    let key = sub_key(address, service_id);
    if !v.services.contains_key(service_id) {
        Err(Error::ServiceDoesNotExist)
    } else if !v.subscriptions.contains_key(key) {
        Err(Error::SubscriptionDoesNotExist)
    } else if !passed_periods_fit(v.services[service_id], v.subscriptions[key], now) {
        Err(Error::ArithmeticOverflow)
    } else {
        Ok(subscription_status(v.services[service_id], v.subscriptions[key], now))
    }
}

/// `view_get_passed_periods`: the periods begun since the last claim of the
/// subscription of `address` to `service_id`.
pub open spec fn passed_periods_spec(
    v: ContractView,
    address: Address,
    service_id: u64,
    now: u64,
) -> Result<u64, Error> {
    let key = sub_key(address, service_id);
    if !v.subscriptions.contains_key(key) {
        Err(Error::SubscriptionDoesNotExist)
    } else if !v.services.contains_key(service_id) {
        Err(Error::ServiceDoesNotExist)
    } else if !passed_periods_fit(v.services[service_id], v.subscriptions[key], now) {
        Err(Error::ArithmeticOverflow)
    } else {
        Ok(passed_periods(v.services[service_id], v.subscriptions[key], now) as u64)
    }
}

/// `view_get_to_pay`: what the subscription of `address` to `service_id`
/// owes now.
pub open spec fn to_pay_spec(v: ContractView, address: Address, service_id: u64, now: u64) -> Result<
    nat,
    Error,
> {
    let key = sub_key(address, service_id);
    if !v.subscriptions.contains_key(key) {
        Err(Error::SubscriptionDoesNotExist)
    } else if !v.services.contains_key(service_id) {
        Err(Error::ServiceDoesNotExist)
    } else if !passed_periods_fit(v.services[service_id], v.subscriptions[key], now) {
        Err(Error::ArithmeticOverflow)
    } else {
        Ok(amount_owed(v.services[service_id], v.subscriptions[key], now) as nat)
    }
}

} // verus!
