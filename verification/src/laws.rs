//! Properties of the contract as a whole, stated over the endpoint
//! specifications and proved from them.
use vstd::prelude::*;
use crate::billing::{
    amount_owed, lemma_owed_bounds, paid_periods, passed_periods, passed_periods_fit,
    subscription_status,
};
use crate::discount::create_discount_spec;
use crate::service_spec::{
    claim_funds_spec, claim_step, create_service_spec, end_service_spec, fund_subscription_spec,
    new_service, retrieve_funds_spec, settled_subscription, status_spec, sub_key, subscribe_spec,
    to_pay_spec, unsubscribe_spec, update_service_spec, claim_run, claim_start, ClaimProgress,
    passed_periods_spec,
};
use crate::collections::set_removed;
use crate::state::{ContractView, service_subscriptions, service_valid};
use crate::types::{
    Address, DiscountType, Error, PaymentView, PeriodType, ServiceView, Status, SubscriptionView,
    TokenView, TransferView,
};

verus! {

/// The owed amount is a whole number of prices, never more than the
/// balance, and at most one price per passed period.
pub proof fn law_owed_within_balance(s: ServiceView, sub: SubscriptionView, now: u64)
    requires
        service_valid(s),
    ensures
        0 <= amount_owed(s, sub, now) <= sub.amount,
        amount_owed(s, sub, now) == paid_periods(s, sub, now) * s.price,
        paid_periods(s, sub, now) <= passed_periods(s, sub, now),
{
    lemma_owed_bounds(s, sub, now);
}

/// While the contract is paused, creating, updating and ending services,
/// subscribing, funding and creating discounts are all refused with
/// `ContractPaused`.
pub proof fn law_paused_contract_refuses(
    v: ContractView,
    caller: Address,
    service_id: u64,
    payment: PaymentView,
    now: u64,
    token: TokenView,
    nonce: Option<u64>,
    price: nat,
    period_type: PeriodType,
    payment_period: u64,
    name: Option<Seq<u8>>,
    webpage: Option<Seq<u8>>,
    grace: Option<u64>,
    discount_type: DiscountType,
    percent: nat,
    amount: nat,
    new_token: Option<TokenView>,
    new_price: Option<nat>,
    new_period_type: Option<PeriodType>,
    new_payment_period: Option<u64>,
)
    requires
        v.paused,
    ensures
        create_service_spec(
            v,
            caller,
            token,
            nonce,
            price,
            period_type,
            payment_period,
            name,
            webpage,
            grace,
        ) == Err::<(ContractView, u64), Error>(Error::ContractPaused),
        update_service_spec(
            v,
            caller,
            service_id,
            new_token,
            nonce,
            new_price,
            new_period_type,
            new_payment_period,
            name,
            webpage,
            grace,
        ) == Err::<ContractView, Error>(Error::ContractPaused),
        end_service_spec(v, caller, service_id) == Err::<ContractView, Error>(
            Error::ContractPaused,
        ),
        subscribe_spec(v, caller, service_id, payment, now) == Err::<ContractView, Error>(
            Error::ContractPaused,
        ),
        fund_subscription_spec(v, caller, service_id, payment, now) == Err::<ContractView, Error>(
            Error::ContractPaused,
        ),
        create_discount_spec(
            v,
            caller,
            discount_type,
            token,
            nonce,
            percent,
            amount,
            service_id,
        ) == Err::<ContractView, Error>(Error::ContractPaused),
{
}

/// Only a service's owner can update it, end it, claim its payments or
/// attach discounts to it; anyone else is refused.
pub proof fn law_only_service_owner_manages(
    v: ContractView,
    caller: Address,
    service_id: u64,
    now: u64,
    token: Option<TokenView>,
    nonce: Option<u64>,
    price: Option<nat>,
    period_type: Option<PeriodType>,
    payment_period: Option<u64>,
    name: Option<Seq<u8>>,
    webpage: Option<Seq<u8>>,
    grace: Option<u64>,
    discount_type: DiscountType,
    discount_token: TokenView,
    percent: nat,
    amount: nat,
)
    requires
        !v.paused,
        v.services.contains_key(service_id),
        v.services[service_id].owner != caller,
    ensures
        update_service_spec(
            v,
            caller,
            service_id,
            token,
            nonce,
            price,
            period_type,
            payment_period,
            name,
            webpage,
            grace,
        ) == Err::<ContractView, Error>(Error::NotServiceOwner),
        end_service_spec(v, caller, service_id) == Err::<ContractView, Error>(
            Error::OnlyOwnerCanEnd,
        ),
        claim_funds_spec(v, caller, service_id, now) is Err,
        discount_type == DiscountType::Fixed || discount_type == DiscountType::Dynamic ==> amount
            == 0 || create_discount_spec(
            v,
            caller,
            discount_type,
            discount_token,
            nonce,
            percent,
            amount,
            service_id,
        ) == Err::<ContractView, Error>(Error::OnlyOwnerManagesDiscounts),
{
}

/// A new service gets the next unused id, is stored as created, belongs to
/// its creator, has collected nothing yet, and is listed for its creator.
pub proof fn law_create_service_stores_new_service(
    v: ContractView,
    caller: Address,
    token: TokenView,
    nonce: Option<u64>,
    price: nat,
    period_type: PeriodType,
    payment_period: u64,
    name: Option<Seq<u8>>,
    webpage: Option<Seq<u8>>,
    grace: Option<u64>,
)
    requires
        v.wf(),
        create_service_spec(
            v,
            caller,
            token,
            nonce,
            price,
            period_type,
            payment_period,
            name,
            webpage,
            grace,
        ) is Ok,
    ensures
        ({
            let (v2, id) = create_service_spec(
                v,
                caller,
                token,
                nonce,
                price,
                period_type,
                payment_period,
                name,
                webpage,
                grace,
            )->Ok_0;
            &&& id == v.last_valid_service_id + 1
            &&& v2.last_valid_service_id == id
            &&& !v.services.contains_key(id)
            &&& v2.services.contains_key(id)
            &&& v2.services[id] == new_service(
                v,
                caller,
                token,
                nonce,
                price,
                period_type,
                payment_period,
                name,
                webpage,
                grace,
            )
            &&& v2.services[id].owner == caller
            &&& v2.services[id].payments_total == 0
            &&& service_valid(v2.services[id])
            &&& v2.services_by_address[caller].contains(id)
            &&& forall|other: u64| other != id ==> #[trigger] v2.services.contains_key(other)
                == v.services.contains_key(other)
        }),
{
    let (v2, id) = create_service_spec(
        v,
        caller,
        token,
        nonce,
        price,
        period_type,
        payment_period,
        name,
        webpage,
        grace,
    )->Ok_0;
    if v.services.contains_key(id) {
        assert(id <= v.last_valid_service_id);
    }
    let l = v.services_by_address[caller];
    if !l.contains(id) {
        assert(l.push(id)[l.len() as int] == id);
    }
}

/// A new subscription holds the payment, starts at the call's timestamp,
/// owes nothing and is active at that time, so leaving at once is refused;
/// the subscriber is listed; and subscribing again to the same service is
/// refused.
pub proof fn law_new_subscription_is_active(
    v: ContractView,
    caller: Address,
    service_id: u64,
    payment: PaymentView,
    now: u64,
    again: PaymentView,
    later: u64,
)
    requires
        v.wf(),
        subscribe_spec(v, caller, service_id, payment, now) is Ok,
    ensures
        ({
            let v2 = subscribe_spec(v, caller, service_id, payment, now)->Ok_0;
            let sub = v2.subscriptions[sub_key(caller, service_id)];
            &&& v2.subscriptions.contains_key(sub_key(caller, service_id))
            &&& sub.amount == payment.amount
            &&& sub.last_claim == now
            &&& sub.prev_amount == 0
            &&& status_spec(v2, caller, service_id, now) == Ok::<Status, Error>(Status::Active)
            &&& to_pay_spec(v2, caller, service_id, now) == Ok::<nat, Error>(0)
            &&& v2.subscribers[service_id].contains(caller)
            &&& v2.subscriptions_by_address[caller].contains(service_id)
            &&& subscribe_spec(v2, caller, service_id, again, later) is Err
            &&& unsubscribe_spec(v2, caller, service_id, now) == Err::<
                (ContractView, Option<TransferView>),
                Error,
            >(Error::SubscriptionStillActive)
        }),
{
    let v2 = subscribe_spec(v, caller, service_id, payment, now)->Ok_0;
    let l = v.subscribers[service_id];
    if !l.contains(caller) {
        assert(l.push(caller)[l.len() as int] == caller);
    }
    let m = v.subscriptions_by_address[caller];
    if !m.contains(service_id) {
        assert(m.push(service_id)[m.len() as int] == service_id);
    }
}

/// Funding adds the whole payment to what the subscription holds. A
/// subscription that was active keeps its last claim and its balance grows
/// by the payment; a revoked one restarts at the call's timestamp and sets
/// aside what it owed as the previous amount, so balance and previous
/// amount together grow by the payment.
pub proof fn law_fund_keeps_payment(
    v: ContractView,
    caller: Address,
    service_id: u64,
    payment: PaymentView,
    now: u64,
)
    requires
        v.wf(),
        fund_subscription_spec(v, caller, service_id, payment, now) is Ok,
    ensures
        ({
            let v2 = fund_subscription_spec(v, caller, service_id, payment, now)->Ok_0;
            let key = sub_key(caller, service_id);
            let s = v.services[service_id];
            let old_sub = v.subscriptions[key];
            let new_sub = v2.subscriptions[key];
            &&& v2.subscriptions.contains_key(key)
            &&& if subscription_status(s, old_sub, now) == Status::Revoked {
                &&& new_sub.last_claim == now
                &&& new_sub.prev_amount == amount_owed(s, old_sub, now)
                &&& new_sub.amount + new_sub.prev_amount == old_sub.amount + payment.amount
            } else {
                &&& new_sub.last_claim == old_sub.last_claim
                &&& new_sub.prev_amount == 0
                &&& new_sub.amount == old_sub.amount + payment.amount
            }
        }),
{
    let s = v.services[service_id];
    let old_sub = v.subscriptions[sub_key(caller, service_id)];
    lemma_owed_bounds(s, old_sub, now);
}

/// Retrieving never takes more than the balance, sends exactly the
/// requested amount to the caller, and leaves more than what is owed.
pub proof fn law_retrieve_within_balance(
    v: ContractView,
    caller: Address,
    service_id: u64,
    amount: nat,
    now: u64,
)
    requires
        retrieve_funds_spec(v, caller, service_id, amount, now) is Ok,
    ensures
        ({
            let (v2, t) = retrieve_funds_spec(v, caller, service_id, amount, now)->Ok_0;
            let key = sub_key(caller, service_id);
            let s = v.services[service_id];
            let old_sub = v.subscriptions[key];
            let new_sub = v2.subscriptions[key];
            &&& 0 < amount <= old_sub.amount
            &&& t.to == caller
            &&& t.amount == amount
            &&& t.token == s.payment_token
            &&& new_sub.amount + t.amount == old_sub.amount
            &&& new_sub.amount > amount_owed(s, old_sub, now)
        }),
{
}

/// Retrieving down to the owed amount or below is refused: the balance left
/// must stay above what is owed (so nothing owed still leaves a balance).
pub proof fn law_retrieve_keeps_more_than_owed(
    v: ContractView,
    caller: Address,
    service_id: u64,
    amount: nat,
    now: u64,
)
    requires
        v.services.contains_key(service_id),
        v.subscriptions.contains_key(sub_key(caller, service_id)),
        passed_periods_fit(v.services[service_id], v.subscriptions[sub_key(caller, service_id)], now),
        0 < amount <= v.subscriptions[sub_key(caller, service_id)].amount,
        v.subscriptions[sub_key(caller, service_id)].amount - amount <= amount_owed(
            v.services[service_id],
            v.subscriptions[sub_key(caller, service_id)],
            now,
        ),
    ensures
        retrieve_funds_spec(v, caller, service_id, amount, now) == Err::<
            (ContractView, TransferView),
            Error,
        >(Error::RetrieveBelowOwed),
{
}

/// Funding a subscription that is not revoked and then retrieving the same
/// amount gives back the balance it had.
pub proof fn law_fund_then_retrieve_restores_balance(
    v: ContractView,
    caller: Address,
    service_id: u64,
    payment: PaymentView,
    now: u64,
)
    requires
        v.wf(),
        fund_subscription_spec(v, caller, service_id, payment, now) is Ok,
        subscription_status(
            v.services[service_id],
            v.subscriptions[sub_key(caller, service_id)],
            now,
        ) != Status::Revoked,
        retrieve_funds_spec(
            fund_subscription_spec(v, caller, service_id, payment, now)->Ok_0,
            caller,
            service_id,
            payment.amount,
            now,
        ) is Ok,
    ensures
        ({
            let v2 = fund_subscription_spec(v, caller, service_id, payment, now)->Ok_0;
            let (v3, t) = retrieve_funds_spec(v2, caller, service_id, payment.amount, now)->Ok_0;
            let key = sub_key(caller, service_id);
            &&& v3.subscriptions[key].amount == v.subscriptions[key].amount
            &&& t.amount == payment.amount
            &&& v3.services == v.services
        }),
{
    law_fund_keeps_payment(v, caller, service_id, payment, now);
}

/// Leaving a revoked subscription refunds the balance minus what is owed,
/// and keeps what is owed (as the subscription's balance) for the owner
/// while anything is owed; the kept subscription is marked unsubscribed
/// when something was refunded. Leaving a subscription of an ended service
/// refunds the whole balance.
pub proof fn law_unsubscribe_refunds_rest(
    v: ContractView,
    caller: Address,
    service_id: u64,
    now: u64,
)
    requires
        v.wf(),
        unsubscribe_spec(v, caller, service_id, now) is Ok,
    ensures
        ({
            let (v2, refund) = unsubscribe_spec(v, caller, service_id, now)->Ok_0;
            let key = sub_key(caller, service_id);
            let old_sub = v.subscriptions[key];
            let refunded: int = match refund {
                Some(t) => t.amount as int,
                None => 0,
            };
            if v.services.contains_key(service_id) {
                let owed = amount_owed(v.services[service_id], old_sub, now);
                &&& refunded + owed == old_sub.amount
                &&& owed > 0 ==> v2.subscriptions.contains_key(key) && v2.subscriptions[key].amount
                    == owed
                &&& owed > 0 && refunded > 0 ==> v2.subscriptions[key].unsubscribed
                &&& owed == 0 ==> !v2.subscriptions.contains_key(key)
                &&& refund matches Some(t) ==> t.to == caller
            } else {
                &&& refunded == old_sub.amount
                &&& !v2.subscriptions.contains_key(key)
                &&& refund matches Some(t) ==> t.to == caller
            }
        }),
{
    if v.services.contains_key(service_id) {
        lemma_owed_bounds(v.services[service_id], v.subscriptions[sub_key(caller, service_id)], now);
    }
}

/// A paying subscriber's balance drops by exactly what it owed, its
/// previous amount is settled, and its last claim moves forward by the paid
/// periods.
pub proof fn law_settlement_conserves_balance(s: ServiceView, sub: SubscriptionView, now: u64)
    requires
        service_valid(s),
    ensures
        settled_subscription(s, sub, now).amount + amount_owed(s, sub, now) == sub.amount,
        settled_subscription(s, sub, now).prev_amount == 0,
        !settled_subscription(s, sub, now).unsubscribed,
{
    lemma_owed_bounds(s, sub, now);
}

/// What one claim step adds to the owner's total is exactly what leaves the
/// visited subscription (balance plus previous amount, or the whole
/// balance of an unsubscribed one without a previous amount); no other
/// subscription changes.
pub proof fn law_claim_step_conserves(
    s: ServiceView,
    caller: Address,
    now: u64,
    p: ClaimProgress,
    i: int,
)
    requires
        service_valid(s),
        0 <= i,
        claim_step(s, caller, now, p, i) is Ok,
        0 <= i < p.subscribers.len() ==> p.subscriptions.contains_key(p.subscribers[i])
            && p.subscriptions[p.subscribers[i]].unsubscribed
            ==> p.subscriptions[p.subscribers[i]].prev_amount == 0,
    ensures
        ({
            let q = claim_step(s, caller, now, p, i)->Ok_0;
            let a = p.subscribers[i];
            let before = p.subscriptions[a];
            let after: int = if q.subscriptions.contains_key(a) {
                (q.subscriptions[a].amount + q.subscriptions[a].prev_amount) as int
            } else {
                0int
            };
            &&& q.total - p.total == before.amount + before.prev_amount - after
            &&& q.subscriptions.remove(a) == p.subscriptions.remove(a)
        }),
{
    let a = p.subscribers[i];
    let before = p.subscriptions[a];
    let q = claim_step(s, caller, now, p, i)->Ok_0;
    assert(0 <= i < p.subscribers.len());
    assert(p.subscriptions.contains_key(a));
    lemma_owed_bounds(s, before, now);
    if before.unsubscribed {
        assert(q.subscriptions.remove(a) =~= p.subscriptions.remove(a));
        assert(!q.subscriptions.contains_key(a));
        assert(q.total - p.total == before.amount);
    } else {
        let owed = amount_owed(s, before, now);
        if before.amount >= s.price && owed > 0 {
            assert(q.subscriptions.remove(a) =~= p.subscriptions.remove(a));
            assert(q.subscriptions[a] == settled_subscription(s, before, now));
            assert(q.total - p.total == owed + before.prev_amount);
        } else {
            assert(q == p);
        }
    }
}


/// What the subscription of `a` in `m` holds for its service's owner: its
/// balance plus its set-aside previous amount; nothing once cleared.
pub open spec fn held(m: Map<Address, SubscriptionView>, a: Address) -> int {
    if m.contains_key(a) {
        (m[a].amount + m[a].prev_amount) as int
    } else {
        0
    }
}

/// What the subscriptions of the listed addresses hold together.
pub open spec fn held_sum(m: Map<Address, SubscriptionView>, s: Seq<Address>) -> int
    decreases s.len(),
{
    if s.len() == 0 {
        0
    } else {
        held_sum(m, s.drop_last()) + held(m, s.last())
    }
}

/// Changing one subscription changes the listed total by its own change.
proof fn lemma_held_sum_frame(
    m1: Map<Address, SubscriptionView>,
    m2: Map<Address, SubscriptionView>,
    a: Address,
    s: Seq<Address>,
)
    requires
        m1.remove(a) == m2.remove(a),
        s.no_duplicates(),
    ensures
        held_sum(m2, s) - held_sum(m1, s) == if s.contains(a) {
            held(m2, a) - held(m1, a)
        } else {
            0
        },
    decreases s.len(),
{
    if s.len() > 0 {
        let t = s.drop_last();
        let x = s.last();
        assert(t.no_duplicates()) by {
            assert forall|i: int, j: int| 0 <= i < t.len() && 0 <= j < t.len() && i != j implies t[i]
                != t[j] by {
                assert(t[i] == s[i] && t[j] == s[j]);
            }
        }
        lemma_held_sum_frame(m1, m2, a, t);
        if x == a {
            assert(!t.contains(a)) by {
                if t.contains(a) {
                    let k = choose|k: int| 0 <= k < t.len() && t[k] == a;
                    assert(s[k] == s[s.len() - 1]);
                }
            }
            assert(s.contains(a)) by {
                assert(s[s.len() - 1] == a);
            }
        } else {
            assert(m1.remove(a).contains_key(x) == m1.contains_key(x));
            assert(m2.remove(a).contains_key(x) == m2.contains_key(x));
            if m1.contains_key(x) {
                assert(m1.remove(a)[x] == m1[x]);
                assert(m2.remove(a)[x] == m2[x]);
            }
            assert(held(m1, x) == held(m2, x));
            assert(s.contains(a) == t.contains(a)) by {
                if s.contains(a) {
                    let k = choose|k: int| 0 <= k < s.len() && s[k] == a;
                    assert(k != s.len() - 1);
                    assert(t[k] == a);
                }
                if t.contains(a) {
                    let k = choose|k: int| 0 <= k < t.len() && t[k] == a;
                    assert(s[k] == a);
                }
            }
        }
    }
}

/// Over a claim run that never meets the claiming owner in the list, the
/// list stays as it is and what is collected is exactly what leaves the
/// listed subscriptions.
proof fn lemma_claim_run_conserves(
    s: ServiceView,
    caller: Address,
    now: u64,
    p: ClaimProgress,
    i: int,
    end: int,
)
    requires
        service_valid(s),
        0 <= i <= end,
        end == p.subscribers.len(),
        p.subscribers.no_duplicates(),
        !p.subscribers.contains(caller),
        forall|j: int|
            i <= j < end && #[trigger] p.subscriptions.contains_key(p.subscribers[j])
                && p.subscriptions[p.subscribers[j]].unsubscribed
                ==> p.subscriptions[p.subscribers[j]].prev_amount == 0,
        claim_run(s, caller, now, p, i, end) is Ok,
    ensures
        ({
            let q = claim_run(s, caller, now, p, i, end)->Ok_0;
            &&& q.subscribers == p.subscribers
            &&& q.total >= p.total
            &&& q.total - p.total == held_sum(p.subscriptions, p.subscribers) - held_sum(
                q.subscriptions,
                p.subscribers,
            )
        }),
    decreases end - i,
{
    if i < end {
        let ss = p.subscribers;
        let a = ss[i];
        let p1 = claim_step(s, caller, now, p, i)->Ok_0;
        assert(claim_step(s, caller, now, p, i) is Ok);
        law_claim_step_conserves(s, caller, now, p, i);
        assert(p.subscriptions.contains_key(a));
        lemma_owed_bounds(s, p.subscriptions[a], now);
        assert(p1.total >= p.total);
        assert(set_removed(ss, caller) == ss);
        assert(p1.subscribers == ss);
        lemma_held_sum_frame(p.subscriptions, p1.subscriptions, a, ss);
        assert(ss.contains(a));
        assert forall|j: int|
            i + 1 <= j < end && #[trigger] p1.subscriptions.contains_key(p1.subscribers[j])
                && p1.subscriptions[p1.subscribers[j]].unsubscribed
                implies p1.subscriptions[p1.subscribers[j]].prev_amount == 0 by {
            let b = ss[j];
            assert(b != a);
            assert(p1.subscriptions.remove(a).contains_key(b));
            assert(p.subscriptions.remove(a).contains_key(b));
            assert(p1.subscriptions[b] == p1.subscriptions.remove(a)[b]);
            assert(p.subscriptions[b] == p.subscriptions.remove(a)[b]);
            assert(p.subscriptions.contains_key(p.subscribers[j]));
        }
        lemma_claim_run_conserves(s, caller, now, p1, i + 1, end);
    }
}

/// A claim whose owner is not among the service's subscribers hands the
/// owner, in one transfer, exactly what leaves the listed subscriptions
/// (balances plus set-aside amounts); nothing is created or lost, and the
/// subscriber list stays as it is. (An unsubscribed subscription with a
/// set-aside amount is left out: the claim drops that amount.)
pub proof fn law_claim_conserves_funds(v: ContractView, caller: Address, service_id: u64, now: u64)
    requires
        v.wf(),
        claim_funds_spec(v, caller, service_id, now) is Ok,
        !v.subscribers[service_id].contains(caller),
        forall|a: Address|
            #[trigger] service_subscriptions(v, service_id).contains_key(a)
                && service_subscriptions(v, service_id)[a].unsubscribed
                ==> service_subscriptions(v, service_id)[a].prev_amount == 0,
    ensures
        ({
            let (v2, t) = claim_funds_spec(v, caller, service_id, now)->Ok_0;
            let list = v.subscribers[service_id];
            &&& t.to == caller
            &&& t.amount == held_sum(service_subscriptions(v, service_id), list) - held_sum(
                service_subscriptions(v2, service_id),
                list,
            )
            &&& v2.subscribers[service_id] == list
        }),
{
    let s = v.services[service_id];
    let start = claim_start(v, service_id);
    let end = start.subscribers.len() as int;
    assert(v.subscribers.contains_key(service_id));
    lemma_claim_run_conserves(s, caller, now, start, 0, end);
    let p = claim_run(s, caller, now, start, 0, end)->Ok_0;
    let (v2, t) = claim_funds_spec(v, caller, service_id, now)->Ok_0;
    assert(service_subscriptions(v2, service_id) =~= p.subscriptions);
}


/// The views of a stored subscription agree with the helpers applied to the
/// stored service and subscription: `view_get_to_pay` gives what
/// `get_to_pay` gives and `view_get_passed_periods` what
/// `get_passed_periods` gives (each refusing, like the helper, only where
/// the period count leaves 64 bits); without the subscription or the
/// service the views refuse with the missing one.
pub proof fn law_views_match_helpers(v: ContractView, address: Address, service_id: u64, now: u64)
    ensures
        ({
            let key = sub_key(address, service_id);
            if !v.subscriptions.contains_key(key) {
                &&& to_pay_spec(v, address, service_id, now) == Err::<nat, Error>(
                    Error::SubscriptionDoesNotExist,
                )
                &&& passed_periods_spec(v, address, service_id, now) == Err::<u64, Error>(
                    Error::SubscriptionDoesNotExist,
                )
            } else if !v.services.contains_key(service_id) {
                &&& to_pay_spec(v, address, service_id, now) == Err::<nat, Error>(
                    Error::ServiceDoesNotExist,
                )
                &&& passed_periods_spec(v, address, service_id, now) == Err::<u64, Error>(
                    Error::ServiceDoesNotExist,
                )
            } else {
                let s = v.services[service_id];
                let sub = v.subscriptions[key];
                if passed_periods_fit(s, sub, now) {
                    &&& to_pay_spec(v, address, service_id, now) == Ok::<nat, Error>(
                        amount_owed(s, sub, now) as nat,
                    )
                    &&& passed_periods_spec(v, address, service_id, now) == Ok::<u64, Error>(
                        passed_periods(s, sub, now) as u64,
                    )
                } else {
                    &&& to_pay_spec(v, address, service_id, now) == Err::<nat, Error>(
                        Error::ArithmeticOverflow,
                    )
                    &&& passed_periods_spec(v, address, service_id, now) == Err::<u64, Error>(
                        Error::ArithmeticOverflow,
                    )
                }
            }
        }),
{
}

/// The refund of an unsubscribe goes to the caller, in the token and nonce
/// the subscription was paid in: the service's payment token while the
/// service exists, the subscription's own once the service has ended.
pub proof fn law_unsubscribe_refunds_in_payment_token(
    v: ContractView,
    caller: Address,
    service_id: u64,
    now: u64,
)
    requires
        unsubscribe_spec(v, caller, service_id, now) is Ok,
    ensures
        ({
            let (v2, refund) = unsubscribe_spec(v, caller, service_id, now)->Ok_0;
            let old_sub = v.subscriptions[sub_key(caller, service_id)];
            refund matches Some(t) ==> {
                &&& t.to == caller
                &&& if v.services.contains_key(service_id) {
                    &&& t.token == v.services[service_id].payment_token
                    &&& t.nonce == v.services[service_id].payment_nonce
                } else {
                    &&& t.token == old_sub.payment_token
                    &&& t.nonce == old_sub.payment_nonce
                }
            }
        }),
{
}

/// Retrieving takes the amount out of the balance only: the amount set
/// aside for the owner, the last claim and the other subscriptions and
/// services stay as they are, balance plus set-aside amount drops by exactly
/// what is sent, and it is sent to the caller in the service's token.
pub proof fn law_retrieve_keeps_set_aside(
    v: ContractView,
    caller: Address,
    service_id: u64,
    amount: nat,
    now: u64,
)
    requires
        retrieve_funds_spec(v, caller, service_id, amount, now) is Ok,
    ensures
        ({
            let (v2, t) = retrieve_funds_spec(v, caller, service_id, amount, now)->Ok_0;
            let key = sub_key(caller, service_id);
            let old_sub = v.subscriptions[key];
            let new_sub = v2.subscriptions[key];
            &&& v2.subscriptions.contains_key(key)
            &&& new_sub.prev_amount == old_sub.prev_amount
            &&& new_sub.last_claim == old_sub.last_claim
            &&& new_sub.amount + new_sub.prev_amount + t.amount == old_sub.amount
                + old_sub.prev_amount
            &&& t.to == caller
            &&& t.token == v.services[service_id].payment_token
            &&& t.nonce == v.services[service_id].payment_nonce
            &&& v2.subscriptions.remove(key) == v.subscriptions.remove(key)
            &&& v2.services == v.services
            &&& v2.subscribers == v.subscribers
        }),
{
    let (v2, t) = retrieve_funds_spec(v, caller, service_id, amount, now)->Ok_0;
    let key = sub_key(caller, service_id);
    assert(v2.subscriptions.remove(key) =~= v.subscriptions.remove(key));
}

/// A subscription is active exactly when what it owes is the price of every
/// period begun since its last claim, that is when its balance covers all
/// of them; it is revoked only when the balance falls short of that.
pub proof fn law_status_means_dues_covered(s: ServiceView, sub: SubscriptionView, now: u64)
    requires
        service_valid(s),
    ensures
        (subscription_status(s, sub, now) == Status::Active) <==> (amount_owed(s, sub, now)
            == passed_periods(s, sub, now) * s.price),
        sub.amount >= passed_periods(s, sub, now) * s.price ==> subscription_status(s, sub, now)
            == Status::Active,
        sub.amount < passed_periods(s, sub, now) * s.price ==> subscription_status(s, sub, now)
            == Status::Revoked,
{
    crate::billing::lemma_amount_owed_closed_form(s, sub, now);
    let p = passed_periods(s, sub, now);
    let price = s.price as int;
    let amount = sub.amount as int;
    let k = amount / price;
    vstd::arithmetic::div_mod::lemma_fundamental_div_mod(amount, price);
    if now < sub.last_claim {
        assert(p == 0);
        assert(p * price == 0);
    }
    if amount >= p * price {
        assert(p <= k) by (nonlinear_arith)
            requires
                amount >= p * price,
                price > 0,
                k == amount / price,
                amount == price * k + amount % price,
                0 <= amount % price < price,
        ;
        assert(price * p == p * price) by (nonlinear_arith);
    } else {
        assert(k < p) by (nonlinear_arith)
            requires
                amount < p * price,
                price > 0,
                amount == price * k + amount % price,
                0 <= amount % price,
        ;
        assert(price * k < price * p) by (nonlinear_arith)
            requires
                k < p,
                price > 0,
        ;
        assert(price * p == p * price) by (nonlinear_arith);
    }
}

/// A successful update stores exactly the given fields and keeps the
/// others: a new token is stored with nonce 0 for EGLD and the given nonce
/// otherwise; no other service, subscription or list changes.
pub proof fn law_update_service_sets_given_fields(
    v: ContractView,
    caller: Address,
    service_id: u64,
    token: Option<TokenView>,
    nonce: Option<u64>,
    price: Option<nat>,
    period_type: Option<PeriodType>,
    payment_period: Option<u64>,
    name: Option<Seq<u8>>,
    webpage: Option<Seq<u8>>,
    grace: Option<u64>,
)
    requires
        update_service_spec(
            v,
            caller,
            service_id,
            token,
            nonce,
            price,
            period_type,
            payment_period,
            name,
            webpage,
            grace,
        ) is Ok,
    ensures
        ({
            let v2 = update_service_spec(
                v,
                caller,
                service_id,
                token,
                nonce,
                price,
                period_type,
                payment_period,
                name,
                webpage,
                grace,
            )->Ok_0;
            let old_s = v.services[service_id];
            let new_s = v2.services[service_id];
            &&& v.services.contains_key(service_id)
            &&& old_s.owner == caller
            &&& v2.services.contains_key(service_id)
            &&& match token {
                Some(t) => {
                    &&& new_s.payment_token == t
                    &&& new_s.payment_nonce == if t is Egld {
                        0
                    } else {
                        nonce->Some_0
                    }
                    &&& !(t is Egld) ==> nonce is Some
                },
                None => {
                    &&& new_s.payment_token == old_s.payment_token
                    &&& new_s.payment_nonce == old_s.payment_nonce
                },
            }
            &&& new_s.price == match price {
                Some(x) => x,
                None => old_s.price,
            }
            &&& new_s.period_type == match period_type {
                Some(x) => x,
                None => old_s.period_type,
            }
            &&& new_s.payment_period == match payment_period {
                Some(x) => x,
                None => old_s.payment_period,
            }
            &&& new_s.service_name == match name {
                Some(x) => x,
                None => old_s.service_name,
            }
            &&& new_s.service_webpage == match webpage {
                Some(x) => x,
                None => old_s.service_webpage,
            }
            &&& new_s.grace_period == match grace {
                Some(x) => x,
                None => old_s.grace_period,
            }
            &&& new_s.owner == old_s.owner
            &&& new_s.payments_total == old_s.payments_total
            &&& new_s.custom_cut == old_s.custom_cut
            &&& new_s.contract_cut_percentage == old_s.contract_cut_percentage
            &&& v2.services.remove(service_id) == v.services.remove(service_id)
            &&& v2.subscriptions == v.subscriptions
            &&& v2.subscribers == v.subscribers
        }),
{
    let v2 = update_service_spec(
        v,
        caller,
        service_id,
        token,
        nonce,
        price,
        period_type,
        payment_period,
        name,
        webpage,
        grace,
    )->Ok_0;
    assert(v2.services.remove(service_id) =~= v.services.remove(service_id));
}

/// Length of one payment period of a service in seconds: the payment
/// period counts seconds, or epochs of 86400 seconds.
pub open spec fn period_seconds(s: ServiceView) -> int {
    s.payment_period * if s.period_type == PeriodType::Epochs {
        86400int
    } else {
        1int
    }
}

/// What a claim leaves of the subscription `before` of `a` in `after`: an
/// unsubscribed one is cleared; one that owed something has paid it from its
/// balance, its set-aside amount is settled, and its last claim has moved
/// forward by one period length per price paid; any other is untouched.
pub open spec fn claimed_as_due(
    s: ServiceView,
    now: u64,
    before: SubscriptionView,
    after: Map<Address, SubscriptionView>,
    a: Address,
) -> bool {
    if before.unsubscribed {
        !after.contains_key(a)
    } else if before.amount >= s.price && amount_owed(s, before, now) > 0 {
        &&& after.contains_key(a)
        &&& after[a].last_claim == before.last_claim + (amount_owed(s, before, now) / (
        s.price as int)) * period_seconds(s)
        &&& after[a].amount == before.amount - amount_owed(s, before, now)
        &&& after[a].prev_amount == 0
        &&& !after[a].unsubscribed
        &&& after[a].payment_token == s.payment_token
        &&& after[a].payment_nonce == s.payment_nonce
    } else {
        &&& after.contains_key(a)
        &&& after[a] == before
    }
}

/// One claim step handles the visited subscription as due and touches no
/// other.
proof fn lemma_claim_step_as_due(
    s: ServiceView,
    caller: Address,
    now: u64,
    p: ClaimProgress,
    i: int,
)
    requires
        service_valid(s),
        0 <= i,
        !p.subscribers.contains(caller),
        claim_step(s, caller, now, p, i) is Ok,
    ensures
        ({
            let q = claim_step(s, caller, now, p, i)->Ok_0;
            let a = p.subscribers[i];
            &&& i < p.subscribers.len()
            &&& p.subscriptions.contains_key(a)
            &&& claimed_as_due(s, now, p.subscriptions[a], q.subscriptions, a)
            &&& q.subscriptions.remove(a) == p.subscriptions.remove(a)
            &&& q.subscribers == p.subscribers
        }),
{
    let q = claim_step(s, caller, now, p, i)->Ok_0;
    let a = p.subscribers[i];
    let b = p.subscriptions[a];
    assert(set_removed(p.subscribers, caller) == p.subscribers);
    if b.unsubscribed {
        assert(q.subscriptions.remove(a) =~= p.subscriptions.remove(a));
    } else {
        let owed = amount_owed(s, b, now);
        if b.amount >= s.price && owed > 0 {
            assert(q.subscriptions.remove(a) =~= p.subscriptions.remove(a));
            let k = paid_periods(s, b, now);
            assert(k == owed / (s.price as int));
            let m = crate::billing::period_multiplier(s.period_type);
            assert(m == if s.period_type == PeriodType::Epochs {
                86400int
            } else {
                1int
            });
            assert(k * s.payment_period * m == k * (s.payment_period * m)) by (nonlinear_arith);
            lemma_owed_bounds(s, b, now);
            assert(k >= 0);
            assert(k * s.payment_period * m >= 0) by (nonlinear_arith)
                requires
                    k >= 0,
                    m >= 1,
            ;
        } else {
            assert(q == p);
        }
    }
}

/// Whether `x` is absent from positions `i` up to `end` of `ss`.
pub open spec fn not_listed_from(ss: Seq<Address>, i: int, end: int, x: Address) -> bool {
    forall|j: int| i <= j < end ==> ss[j] != x
}

/// Over a claim run that never meets the claiming owner in the list, every
/// listed subscription from position `i` on is handled as due, and nothing
/// outside those positions changes.
proof fn lemma_claim_run_as_due(
    s: ServiceView,
    caller: Address,
    now: u64,
    p: ClaimProgress,
    i: int,
    end: int,
)
    requires
        service_valid(s),
        0 <= i <= end,
        end == p.subscribers.len(),
        p.subscribers.no_duplicates(),
        !p.subscribers.contains(caller),
        claim_run(s, caller, now, p, i, end) is Ok,
    ensures
        ({
            let q = claim_run(s, caller, now, p, i, end)->Ok_0;
            &&& q.subscribers == p.subscribers
            &&& forall|j: int|
                i <= j < end ==> p.subscriptions.contains_key(#[trigger] p.subscribers[j])
                    && claimed_as_due(
                    s,
                    now,
                    p.subscriptions[p.subscribers[j]],
                    q.subscriptions,
                    p.subscribers[j],
                )
            &&& forall|x: Address|
                #![trigger q.subscriptions.contains_key(x)]
                #![trigger p.subscriptions.contains_key(x)]
                not_listed_from(p.subscribers, i, end, x) ==> (q.subscriptions.contains_key(x)
                    == p.subscriptions.contains_key(x) && (p.subscriptions.contains_key(x)
                    ==> q.subscriptions[x] == p.subscriptions[x]))
        }),
    decreases end - i,
{
    if i < end {
        let ss = p.subscribers;
        let a = ss[i];
        assert(claim_step(s, caller, now, p, i) is Ok);
        let p1 = claim_step(s, caller, now, p, i)->Ok_0;
        lemma_claim_step_as_due(s, caller, now, p, i);
        lemma_claim_run_as_due(s, caller, now, p1, i + 1, end);
        let q = claim_run(s, caller, now, p1, i + 1, end)->Ok_0;
        assert(q == claim_run(s, caller, now, p, i, end)->Ok_0);
        // the visited subscription keeps what the step left
        assert forall|j: int| i + 1 <= j < end implies p1.subscribers[j] != a by {
            assert(ss[j] != ss[i]);
        }
        assert forall|x: Address| x != a implies (p1.subscriptions.contains_key(x)
            == p.subscriptions.contains_key(x) && (p.subscriptions.contains_key(x)
            ==> p1.subscriptions[x] == p.subscriptions[x])) by {
            assert(p1.subscriptions.remove(a).contains_key(x) == p1.subscriptions.contains_key(x));
            assert(p.subscriptions.remove(a).contains_key(x) == p.subscriptions.contains_key(x));
            if p.subscriptions.contains_key(x) {
                assert(p1.subscriptions.remove(a)[x] == p1.subscriptions[x]);
                assert(p.subscriptions.remove(a)[x] == p.subscriptions[x]);
            }
        }
        assert forall|j: int| i <= j < end implies p.subscriptions.contains_key(
            #[trigger] p.subscribers[j],
        ) && claimed_as_due(
            s,
            now,
            p.subscriptions[p.subscribers[j]],
            q.subscriptions,
            p.subscribers[j],
        ) by {
            if j == i {
                assert(q.subscriptions.contains_key(a) == p1.subscriptions.contains_key(a));
                if p1.subscriptions.contains_key(a) {
                    assert(q.subscriptions[a] == p1.subscriptions[a]);
                }
            } else {
                let b = ss[j];
                assert(b != a) by {
                    assert(ss[j] != ss[i]);
                }
                assert(p1.subscribers[j] == b);
                assert(p1.subscriptions.contains_key(b));
            }
        }
        assert forall|x: Address| #[trigger]
            not_listed_from(p.subscribers, i, end, x) implies (q.subscriptions.contains_key(x)
            == p.subscriptions.contains_key(x) && (p.subscriptions.contains_key(x)
            ==> q.subscriptions[x] == p.subscriptions[x])) by {
            assert(p.subscribers[i] != x);
            assert(not_listed_from(p1.subscribers, i + 1, end, x)) by {
                assert forall|j: int| i + 1 <= j < end implies p1.subscribers[j] != x by {
                    assert(p.subscribers[j] != x);
                }
            }
            assert(q.subscriptions.contains_key(x) == p1.subscriptions.contains_key(x));
            assert(p1.subscriptions.remove(a).contains_key(x) == p1.subscriptions.contains_key(x));
            assert(p.subscriptions.remove(a).contains_key(x) == p.subscriptions.contains_key(x));
            if p.subscriptions.contains_key(x) {
                assert(q.subscriptions[x] == p1.subscriptions[x]);
                assert(p1.subscriptions.remove(a)[x] == p1.subscriptions[x]);
                assert(p.subscriptions.remove(a)[x] == p.subscriptions[x]);
            }
        }
    }
}

/// A claim whose owner is not among the service's subscribers goes to the
/// owner in the service's token, and handles every listed subscription as
/// due: an unsubscribed one is cleared; one that owed something has paid it
/// from its balance, its set-aside amount is settled, and its last claim
/// has moved forward by one period length in seconds (86400 per epoch) per
/// price paid; any other is untouched.
pub proof fn law_claim_settles_each_subscriber(
    v: ContractView,
    caller: Address,
    service_id: u64,
    now: u64,
)
    requires
        v.wf(),
        claim_funds_spec(v, caller, service_id, now) is Ok,
        !v.subscribers[service_id].contains(caller),
    ensures
        ({
            let (v2, t) = claim_funds_spec(v, caller, service_id, now)->Ok_0;
            let s = v.services[service_id];
            let list = v.subscribers[service_id];
            &&& t.to == caller
            &&& t.token == s.payment_token
            &&& t.nonce == s.payment_nonce
            &&& forall|a: Address|
                #[trigger] list.contains(a) ==> v.subscriptions.contains_key(sub_key(a, service_id))
                    && claimed_as_due(
                    s,
                    now,
                    v.subscriptions[sub_key(a, service_id)],
                    service_subscriptions(v2, service_id),
                    a,
                )
        }),
{
    let s = v.services[service_id];
    let start = claim_start(v, service_id);
    let end = start.subscribers.len() as int;
    assert(v.subscribers.contains_key(service_id));
    lemma_claim_run_as_due(s, caller, now, start, 0, end);
    let p = claim_run(s, caller, now, start, 0, end)->Ok_0;
    let (v2, t) = claim_funds_spec(v, caller, service_id, now)->Ok_0;
    assert(service_subscriptions(v2, service_id) =~= p.subscriptions);
    let list = v.subscribers[service_id];
    assert forall|a: Address| #[trigger] list.contains(a) implies v.subscriptions.contains_key(
        sub_key(a, service_id),
    ) && claimed_as_due(
        s,
        now,
        v.subscriptions[sub_key(a, service_id)],
        service_subscriptions(v2, service_id),
        a,
    ) by {
        let j = choose|j: int| 0 <= j < list.len() && list[j] == a;
        assert(start.subscribers[j] == a);
        assert(start.subscriptions.contains_key(a));
    }
}

} // verus!
