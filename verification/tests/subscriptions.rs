use niftysubs::amount::Amount;
use niftysubs::common_util_functions::CommonUtilFunctions;
use niftysubs::discount::DiscountModule;
use niftysubs::events::EventsModule;
use niftysubs::niftysubs_main::NiftySubs;
use niftysubs::service::ServiceModule;
use niftysubs::state::{NiftySubsState, SlotRecord, StateRecords};
use niftysubs::types::{
    Address, DiscountType, Error, Payment, PeriodType, Service, Status, SubId, Subscription,
    TokenId,
};

const OWNER: Address = Address(0xaa, 0, 0, 0);
const ALICE: Address = Address(1, 2, 3, 4);
const BOB: Address = Address(5, 6, 7, 8);
const CAROL: Address = Address(9, 10, 11, 12);

fn usdc() -> TokenId {
    TokenId::Esdt(b"USDC-123456".to_vec())
}

fn amt(x: u64) -> Amount {
    Amount::from_u64(x)
}

fn pay(amount: u64) -> Payment {
    Payment { token: usdc(), nonce: 0, amount: amt(amount) }
}

fn deploy() -> NiftySubsState {
    <NiftySubsState as NiftySubs>::init(OWNER)
}

/// A contract with one service by BOB: price 10 USDC every 100 seconds.
fn with_service() -> NiftySubsState {
    let mut c = deploy();
    let (id, _) = c
        .create_service(
            BOB,
            usdc(),
            None,
            amt(10),
            PeriodType::Seconds,
            100,
            Some(b"news".to_vec()),
            Some(b"https://news".to_vec()),
            None,
        )
        .unwrap();
    assert_eq!(id, 1);
    c
}

fn service(price: u64, period_type: PeriodType, payment_period: u64) -> Service {
    Service {
        owner: BOB,
        payment_token: usdc(),
        payment_nonce: 0,
        price: amt(price),
        period_type,
        payment_period,
        payments_total: Amount::zero(),
        custom_cut: false,
        contract_cut_percentage: Amount::zero(),
        service_name: Vec::new(),
        service_webpage: Vec::new(),
        grace_period: 0,
    }
}

fn subscription(last_claim: u64, amount: u64) -> Subscription {
    Subscription {
        last_claim,
        payment_token: usdc(),
        payment_nonce: 0,
        amount: amt(amount),
        prev_amount: Amount::zero(),
        unsubscribed: false,
    }
}

#[test]
fn create_service_hands_out_sequential_ids() {
    let mut c = with_service();
    let (id, event) = c
        .create_service(BOB, usdc(), Some(3), amt(7), PeriodType::Epochs, 2, None, None, Some(5))
        .unwrap();
    assert_eq!(id, 2);
    assert_eq!(c.last_valid_service_id(), 2);
    assert_eq!(c.services_by_address(BOB), vec![1, 2]);
    let s = c.try_get_service(2).unwrap();
    assert_eq!(s.owner, BOB);
    assert_eq!(s.price, amt(7));
    assert_eq!(s.payment_nonce, 3);
    assert_eq!(s.grace_period, 5);
    assert_eq!(s.payments_total, amt(0));
    assert!(s.service_name.is_empty());
    assert_eq!(event.service_id, 2);
    assert_eq!(event.price, amt(7));
    assert_eq!(event.owner, BOB);
}

#[test]
fn create_service_records_zero_nonce_for_egld() {
    let mut c = deploy();
    let (id, _) = c
        .create_service(ALICE, TokenId::Egld, Some(9), amt(1), PeriodType::Seconds, 1, None, None, None)
        .unwrap();
    assert_eq!(c.try_get_service(id).unwrap().payment_nonce, 0);
    let (id, _) = c
        .create_service(ALICE, usdc(), None, amt(1), PeriodType::Seconds, 1, None, None, None)
        .unwrap();
    assert_eq!(c.try_get_service(id).unwrap().payment_nonce, 0);
}

#[test]
fn create_service_refusals() {
    let mut c = deploy();
    let long = vec![b'x'; 65];
    let max = vec![b'x'; 64];
    let r = c.create_service(ALICE, usdc(), None, amt(1), PeriodType::Unspecified, 1, None, None, None);
    assert_eq!(r.unwrap_err(), Error::InvalidPeriodType);
    let r = c.create_service(ALICE, usdc(), None, amt(1), PeriodType::Seconds, 0, None, None, None);
    assert_eq!(r.unwrap_err(), Error::PaymentPeriodZero);
    let r = c.create_service(ALICE, usdc(), None, amt(0), PeriodType::Seconds, 1, None, None, None);
    assert_eq!(r.unwrap_err(), Error::PriceZero);
    let r = c.create_service(
        ALICE,
        usdc(),
        None,
        amt(1),
        PeriodType::Seconds,
        1,
        Some(long.clone()),
        None,
        None,
    );
    assert_eq!(r.unwrap_err(), Error::ServiceNameTooLong);
    let r = c.create_service(
        ALICE,
        usdc(),
        None,
        amt(1),
        PeriodType::Seconds,
        1,
        None,
        Some(long),
        None,
    );
    assert_eq!(r.unwrap_err(), Error::ServiceWebpageTooLong);
    assert_eq!(c.last_valid_service_id(), 0);
    let r = c.create_service(
        ALICE,
        usdc(),
        None,
        amt(1),
        PeriodType::Seconds,
        1,
        Some(max.clone()),
        Some(max),
        None,
    );
    assert_eq!(r.unwrap().0, 1);
}

#[test]
fn paused_contract_refuses_changes() {
    let mut c = with_service();
    c.subscribe(ALICE, 1, pay(10), 1000).unwrap();
    assert_eq!(c.pause_endpoint(ALICE).unwrap_err(), Error::OnlyOwner);
    c.pause_endpoint(OWNER).unwrap();
    assert!(c.is_paused());
    let r = c.create_service(BOB, usdc(), None, amt(1), PeriodType::Seconds, 1, None, None, None);
    assert_eq!(r.unwrap_err(), Error::ContractPaused);
    assert_eq!(c.subscribe(CAROL, 1, pay(10), 1000).unwrap_err(), Error::ContractPaused);
    assert_eq!(c.fund_subscription(ALICE, 1, pay(10), 1000).unwrap_err(), Error::ContractPaused);
    assert_eq!(c.end_service(BOB, 1).unwrap_err(), Error::ContractPaused);
    let r = c.update_service(BOB, 1, None, None, Some(amt(5)), None, None, None, None, None);
    assert_eq!(r.unwrap_err(), Error::ContractPaused);
    let r = c.create_discount(BOB, DiscountType::Fixed, usdc(), None, amt(5), amt(1), 1);
    assert_eq!(r.unwrap_err(), Error::ContractPaused);
    assert_eq!(c.require_not_paused().unwrap_err(), Error::MarketplacePaused);
    assert_eq!(c.subscribers(1), vec![ALICE]);
    c.unpause_endpoint(OWNER).unwrap();
    assert!(!c.is_paused());
    assert_eq!(c.require_not_paused(), Ok(()));
    assert_eq!(c.subscribe(CAROL, 1, pay(10), 1000), Ok(1));
}

#[test]
fn passed_periods_formula() {
    let c = deploy();
    let s = service(10, PeriodType::Seconds, 100);
    assert_eq!(c.get_passed_periods(&s, &subscription(1000, 0), 900), Ok(0));
    assert_eq!(c.get_passed_periods(&s, &subscription(1000, 0), 1000), Ok(0));
    assert_eq!(c.get_passed_periods(&s, &subscription(1000, 0), 1001), Ok(1));
    assert_eq!(c.get_passed_periods(&s, &subscription(1000, 0), 1099), Ok(1));
    assert_eq!(c.get_passed_periods(&s, &subscription(1000, 0), 1100), Ok(2));
    let e = service(10, PeriodType::Epochs, 1);
    assert_eq!(c.get_passed_periods(&e, &subscription(0, 0), 86399), Ok(1));
    assert_eq!(c.get_passed_periods(&e, &subscription(0, 0), 86400), Ok(2));
}

#[test]
fn passed_periods_overflow() {
    let c = deploy();
    let s = service(10, PeriodType::Seconds, 1);
    let r = c.get_passed_periods(&s, &subscription(0, 0), u64::MAX);
    assert_eq!(r, Err(Error::ArithmeticOverflow));
    assert_eq!(c.get_passed_periods(&s, &subscription(1, 0), u64::MAX), Ok(u64::MAX));
    let e = service(10, PeriodType::Epochs, u64::MAX);
    assert_eq!(c.get_passed_periods(&e, &subscription(0, 0), 5), Err(Error::ArithmeticOverflow));
    assert_eq!(c.get_passed_periods(&e, &subscription(5, 0), 5), Ok(0));
}

#[test]
fn to_pay_formula() {
    let c = deploy();
    let s = service(10, PeriodType::Seconds, 100);
    // two periods begun, 35 held: owes 20
    assert_eq!(c.get_to_pay(&s, &subscription(1000, 35), 1150), Ok(amt(20)));
    // five periods begun, 35 held: owes the largest multiple of the price, 30
    assert_eq!(c.get_to_pay(&s, &subscription(1000, 35), 1450), Ok(amt(30)));
    // less than one price held: owes nothing
    assert_eq!(c.get_to_pay(&s, &subscription(1000, 9), 1450), Ok(amt(0)));
    // no period begun: owes nothing
    assert_eq!(c.get_to_pay(&s, &subscription(1000, 35), 1000), Ok(amt(0)));
}

#[test]
fn owed_amount_stays_within_balance() {
    let c = deploy();
    let s = service(7, PeriodType::Seconds, 10);
    for amount in [0u64, 6, 7, 13, 14, 70, 71] {
        for now in [0u64, 5, 11, 50, 1000] {
            let owed = c.get_to_pay(&s, &subscription(5, amount), now).unwrap();
            assert!(owed.le(&amt(amount)));
            assert!((0..=10u64).any(|k| owed == amt(7 * k)));
            let periods = c.get_passed_periods(&s, &subscription(5, amount), now).unwrap();
            assert!(owed.le(&amt(7 * periods)));
        }
    }
}

#[test]
fn status_follows_balance() {
    let mut c = with_service();
    c.subscribe(ALICE, 1, pay(35), 1000).unwrap();
    assert_eq!(c.try_get_status(ALICE, 1, 1000), Ok(Status::Active));
    assert_eq!(c.try_get_status(ALICE, 1, 1250), Ok(Status::Active));
    // four periods begun cost 40 > 35
    assert_eq!(c.try_get_status(ALICE, 1, 1301), Ok(Status::Revoked));
    assert_eq!(c.view_get_passed_periods(ALICE, 1, 1301), Ok(4));
    assert_eq!(c.view_get_to_pay(ALICE, 1, 1301), Ok(amt(30)));
    assert_eq!(c.try_get_status(BOB, 1, 1000), Err(Error::SubscriptionDoesNotExist));
    assert_eq!(c.try_get_status(ALICE, 2, 1000), Err(Error::ServiceDoesNotExist));
    assert_eq!(c.view_get_passed_periods(BOB, 1, 1000), Err(Error::SubscriptionDoesNotExist));
    assert_eq!(c.view_get_to_pay(BOB, 1, 1000), Err(Error::SubscriptionDoesNotExist));
}

#[test]
fn new_subscription_is_active_and_unique() {
    let mut c = with_service();
    assert_eq!(c.subscribe(ALICE, 1, pay(10), 500), Ok(1));
    let s = c.try_get_subscription(ALICE, 1).unwrap();
    assert_eq!(s.amount, amt(10));
    assert_eq!(s.last_claim, 500);
    assert_eq!(s.prev_amount, amt(0));
    assert!(!s.unsubscribed);
    assert_eq!(c.try_get_status(ALICE, 1, 500), Ok(Status::Active));
    assert_eq!(c.view_get_to_pay(ALICE, 1, 500), Ok(amt(0)));
    assert_eq!(c.subscribers(1), vec![ALICE]);
    assert_eq!(c.subscriptions_by_address(ALICE), vec![1]);
    assert_eq!(c.unsubscribe(ALICE, 1, 500).unwrap_err(), Error::SubscriptionStillActive);
    assert_eq!(c.subscribe(ALICE, 1, pay(50), 600).unwrap_err(), Error::SubscriptionAlreadyExists);
    assert_eq!(c.try_get_subscription(ALICE, 1).unwrap().amount, amt(10));
    let id = SubId { address: ALICE, service_id: 1 };
    assert_eq!(c.subscription_by_id(id).unwrap().amount, amt(10));
}

#[test]
fn subscribe_refusals() {
    let mut c = with_service();
    assert_eq!(c.subscribe(ALICE, 2, pay(10), 0).unwrap_err(), Error::ServiceDoesNotExist);
    let egld = Payment { token: TokenId::Egld, nonce: 0, amount: amt(10) };
    assert_eq!(c.subscribe(ALICE, 1, egld, 0).unwrap_err(), Error::IncorrectPaymentToken);
    let other = Payment { token: TokenId::Esdt(b"USDC-654321".to_vec()), nonce: 0, amount: amt(10) };
    assert_eq!(c.subscribe(ALICE, 1, other, 0).unwrap_err(), Error::IncorrectPaymentToken);
    let nonce = Payment { token: usdc(), nonce: 1, amount: amt(10) };
    assert_eq!(c.subscribe(ALICE, 1, nonce, 0).unwrap_err(), Error::IncorrectPaymentNonce);
    assert_eq!(c.subscribe(ALICE, 1, pay(9), 0).unwrap_err(), Error::InsufficientAmount);
    assert!(c.subscribers(1).is_empty());
    assert!(c.subscription_by_id(SubId { address: ALICE, service_id: 1 }).is_none());
}

#[test]
fn fund_active_subscription_adds_payment() {
    let mut c = with_service();
    c.subscribe(ALICE, 1, pay(30), 1000).unwrap();
    assert_eq!(c.fund_subscription(ALICE, 1, pay(25), 1050), Ok(1));
    let s = c.try_get_subscription(ALICE, 1).unwrap();
    assert_eq!(s.amount, amt(55));
    assert_eq!(s.last_claim, 1000);
    assert_eq!(s.prev_amount, amt(0));
}

#[test]
fn fund_revoked_subscription_restarts() {
    let mut c = with_service();
    c.subscribe(ALICE, 1, pay(35), 1000).unwrap();
    assert_eq!(c.try_get_status(ALICE, 1, 1301), Ok(Status::Revoked));
    assert_eq!(c.fund_subscription(ALICE, 1, pay(20), 1301), Ok(1));
    let s = c.try_get_subscription(ALICE, 1).unwrap();
    // 30 owed is set aside for the owner, the rest and the payment remain
    assert_eq!(s.prev_amount, amt(30));
    assert_eq!(s.amount, amt(25));
    assert_eq!(s.amount.add(&s.prev_amount), amt(35 + 20));
    assert_eq!(s.last_claim, 1301);
    assert_eq!(c.try_get_status(ALICE, 1, 1301), Ok(Status::Active));
}

#[test]
fn fund_refusals() {
    let mut c = with_service();
    let r = c.fund_subscription(ALICE, 1, pay(10), 0);
    assert_eq!(r.unwrap_err(), Error::FundedSubscriptionMissing);
    c.subscribe(ALICE, 1, pay(10), 0).unwrap();
    let egld = Payment { token: TokenId::Egld, nonce: 0, amount: amt(10) };
    assert_eq!(c.fund_subscription(ALICE, 1, egld, 0).unwrap_err(), Error::IncorrectPaymentToken);
    let nonce = Payment { token: usdc(), nonce: 4, amount: amt(10) };
    assert_eq!(c.fund_subscription(ALICE, 1, nonce, 0).unwrap_err(), Error::IncorrectPaymentNonce);
    assert_eq!(c.fund_subscription(ALICE, 9, pay(1), 0).unwrap_err(), Error::ServiceDoesNotExist);
    assert_eq!(c.try_get_subscription(ALICE, 1).unwrap().amount, amt(10));
}

/// Amounts have no upper bound: a balance beyond 128 bits is funded and
/// claimed in full.
#[test]
fn amounts_beyond_128_bits() {
    let mut c = with_service();
    let top = Amount::from_digits(vec![0, 0, 0, 0, 1]);
    let huge = Payment { token: usdc(), nonce: 0, amount: Amount::from_digits(vec![5, 0, 0, 0, 1]) };
    c.subscribe(ALICE, 1, huge, 1000).unwrap();
    let more = Payment { token: usdc(), nonce: 0, amount: top.copy() };
    assert_eq!(c.fund_subscription(ALICE, 1, more, 1000), Ok(1));
    let s = c.try_get_subscription(ALICE, 1).unwrap();
    assert_eq!(s.amount, Amount::from_digits(vec![5, 0, 0, 0, 2]));
    let r = c.unsubscribe(ALICE, 1, 1000);
    assert_eq!(r.unwrap_err(), Error::SubscriptionStillActive);
    c.subscribe(CAROL, 1, pay(10), 1000).unwrap();
    // at 1250 three periods (30) have begun; CAROL's balance covers only 10
    let t = c.claim_funds(BOB, 1, 1250).unwrap();
    assert_eq!(t.amount, amt(40));
    assert_eq!(
        c.try_get_subscription(ALICE, 1).unwrap().amount,
        Amount::from_digits(vec![5, 0, 0, 0, 2]).sub(&amt(30)),
    );
    assert_eq!(top.add(&top), Amount::from_digits(vec![0, 0, 0, 0, 2]));
    assert_eq!(amt(3).mul_u64(u64::MAX).checked_sub(&amt(1)).is_some(), true);
    assert!(amt(0).is_zero());
    assert_eq!(Amount::from_digits(vec![7, 0, 0]).to_digits(), vec![7]);
}

#[test]
fn retrieve_within_balance() {
    let mut c = with_service();
    c.subscribe(ALICE, 1, pay(50), 1000).unwrap();
    // at 1150 two periods (20) are owed
    assert_eq!(c.retrieve_funds(ALICE, 1, amt(0), 1150).unwrap_err(), Error::RetrieveMoreThanHeld);
    assert_eq!(c.retrieve_funds(ALICE, 1, amt(51), 1150).unwrap_err(), Error::RetrieveMoreThanHeld);
    assert_eq!(c.retrieve_funds(ALICE, 1, amt(31), 1150).unwrap_err(), Error::RetrieveBelowOwed);
    // the balance left must stay above the 20 owed
    assert_eq!(c.retrieve_funds(ALICE, 1, amt(30), 1150).unwrap_err(), Error::RetrieveBelowOwed);
    let t = c.retrieve_funds(ALICE, 1, amt(29), 1150).unwrap();
    assert_eq!(t.to, ALICE);
    assert_eq!(t.amount, amt(29));
    assert!(matches!(t.token, TokenId::Esdt(ref b) if b == b"USDC-123456"));
    let s = c.try_get_subscription(ALICE, 1).unwrap();
    assert_eq!(s.amount, amt(21));
    assert_eq!(c.view_get_to_pay(ALICE, 1, 1150), Ok(amt(20)));
    let r = c.retrieve_funds(BOB, 1, amt(1), 1150);
    assert_eq!(r.unwrap_err(), Error::SubscriptionDoesNotExist);
    assert_eq!(c.retrieve_funds(ALICE, 7, amt(1), 1150).unwrap_err(), Error::ServiceDoesNotExist);
}

#[test]
fn retrieve_keeps_a_balance_when_nothing_is_owed() {
    let mut c = with_service();
    c.subscribe(ALICE, 1, pay(50), 1000).unwrap();
    // at 1000 nothing is owed, yet the whole balance cannot be taken back
    assert_eq!(c.view_get_to_pay(ALICE, 1, 1000), Ok(amt(0)));
    assert_eq!(c.retrieve_funds(ALICE, 1, amt(50), 1000).unwrap_err(), Error::RetrieveBelowOwed);
    let t = c.retrieve_funds(ALICE, 1, amt(49), 1000).unwrap();
    assert_eq!(t.amount, amt(49));
    assert_eq!(c.try_get_subscription(ALICE, 1).unwrap().amount, amt(1));
}

#[test]
fn fund_then_retrieve_restores_balance() {
    let mut c = with_service();
    c.subscribe(ALICE, 1, pay(40), 1000).unwrap();
    c.fund_subscription(ALICE, 1, pay(15), 1010).unwrap();
    let t = c.retrieve_funds(ALICE, 1, amt(15), 1010).unwrap();
    assert_eq!(t.amount, amt(15));
    assert_eq!(c.try_get_subscription(ALICE, 1).unwrap().amount, amt(40));
}

#[test]
fn unsubscribe_active_is_refused() {
    let mut c = with_service();
    c.subscribe(ALICE, 1, pay(30), 1000).unwrap();
    assert_eq!(c.unsubscribe(ALICE, 1, 1100).unwrap_err(), Error::SubscriptionStillActive);
    assert_eq!(c.unsubscribe(BOB, 1, 1100).unwrap_err(), Error::SubscriptionDoesNotExist);
    assert_eq!(c.try_get_subscription(ALICE, 1).unwrap().amount, amt(30));
}

#[test]
fn unsubscribe_revoked_refunds_rest() {
    let mut c = with_service();
    c.subscribe(ALICE, 1, pay(35), 1000).unwrap();
    // revoked at 1301, owes 30
    let refund = c.unsubscribe(ALICE, 1, 1301).unwrap().unwrap();
    assert_eq!(refund.to, ALICE);
    assert_eq!(refund.amount, amt(5));
    let s = c.try_get_subscription(ALICE, 1).unwrap();
    assert_eq!(s.amount, amt(30));
    assert!(s.unsubscribed);
    assert_eq!(refund.amount.add(&s.amount), amt(35));
    assert!(c.subscriptions_by_address(ALICE).is_empty());
    assert_eq!(c.subscribers(1), vec![ALICE]);
}

#[test]
fn unsubscribe_nothing_owed_removes_subscription() {
    let mut c = with_service();
    // a service whose price exceeds the balance owes nothing
    c.subscribe(ALICE, 1, pay(10), 1000).unwrap();
    c.update_service(BOB, 1, None, None, Some(amt(20)), None, None, None, None, None).unwrap();
    assert_eq!(c.try_get_status(ALICE, 1, 1001), Ok(Status::Revoked));
    let refund = c.unsubscribe(ALICE, 1, 1001).unwrap().unwrap();
    assert_eq!(refund.amount, amt(10));
    assert!(c.try_get_subscription(ALICE, 1).is_err());
    assert!(c.subscribers(1).is_empty());
    assert!(c.subscriptions_by_address(ALICE).is_empty());
}

#[test]
fn unsubscribe_from_ended_service_refunds_everything() {
    let mut c = with_service();
    c.subscribe(ALICE, 1, pay(40), 1000).unwrap();
    assert_eq!(c.end_service(ALICE, 1).unwrap_err(), Error::OnlyOwnerCanEnd);
    assert_eq!(c.end_service(BOB, 1), Ok(1));
    assert_eq!(c.try_get_service(1).unwrap_err(), Error::ServiceDoesNotExist);
    assert!(c.service_by_id(1).is_none());
    let refund = c.unsubscribe(ALICE, 1, 5000).unwrap().unwrap();
    assert_eq!(refund.amount, amt(40));
    assert_eq!(refund.to, ALICE);
    assert!(c.try_get_subscription(ALICE, 1).is_err());
    assert!(c.subscribers(1).is_empty());
    assert_eq!(c.end_service(BOB, 1).unwrap_err(), Error::ServiceDoesNotExist);
}

#[test]
fn claim_collects_owed_payments() {
    let mut c = with_service();
    c.subscribe(ALICE, 1, pay(35), 1000).unwrap();
    c.subscribe(CAROL, 1, pay(100), 1050).unwrap();
    // at 1150: ALICE has 2 periods begun (20), CAROL 2 (20)
    assert_eq!(c.claim_funds(ALICE, 1, 1150).unwrap_err(), Error::OnlyOwnerCanClaim);
    let t = c.claim_funds(BOB, 1, 1150).unwrap();
    assert_eq!(t.to, BOB);
    assert_eq!(t.amount, amt(40));
    let a = c.try_get_subscription(ALICE, 1).unwrap();
    assert_eq!(a.amount, amt(15));
    assert_eq!(a.last_claim, 1200);
    let b = c.try_get_subscription(CAROL, 1).unwrap();
    assert_eq!(b.amount, amt(80));
    assert_eq!(b.last_claim, 1250);
    // the service records the payment of the last paying subscriber
    assert_eq!(c.try_get_service(1).unwrap().payments_total, amt(20));
    // nothing is owed right after a claim
    assert_eq!(c.claim_funds(BOB, 1, 1150).unwrap_err(), Error::NoPaymentsToClaim);
    assert_eq!(c.claim_funds(BOB, 2, 1150).unwrap_err(), Error::ServiceDoesNotExist);
}

#[test]
fn claim_settles_previous_amount() {
    let mut c = with_service();
    c.subscribe(ALICE, 1, pay(35), 1000).unwrap();
    c.fund_subscription(ALICE, 1, pay(20), 1301).unwrap();
    // prev 30, balance 25 from 1301; nothing has begun at 1301 itself
    assert_eq!(c.claim_funds(BOB, 1, 1301).unwrap_err(), Error::NoPaymentsToClaim);
    // at 1302 one period has begun (10), settled together with the 30 set aside
    let t = c.claim_funds(BOB, 1, 1302).unwrap();
    assert_eq!(t.amount, amt(40));
    let s = c.try_get_subscription(ALICE, 1).unwrap();
    assert_eq!(s.prev_amount, amt(0));
    assert_eq!(s.amount, amt(15));
    assert_eq!(s.last_claim, 1401);
}

#[test]
fn claim_collects_unsubscribed_balance() {
    let mut c = with_service();
    c.subscribe(ALICE, 1, pay(35), 1000).unwrap();
    c.unsubscribe(ALICE, 1, 1301).unwrap();
    let t = c.claim_funds(BOB, 1, 1301).unwrap();
    assert_eq!(t.amount, amt(30));
    assert!(c.try_get_subscription(ALICE, 1).is_err());
    // the subscriber stays listed without a subscription, so the next claim is refused
    assert_eq!(c.subscribers(1), vec![ALICE]);
    assert_eq!(c.claim_funds(BOB, 1, 2000).unwrap_err(), Error::SubscriptionDoesNotExist);
}

#[test]
fn claim_reads_past_shortened_subscriber_list() {
    let mut c = with_service();
    c.subscribe(ALICE, 1, pay(35), 1000).unwrap();
    // the service owner subscribes to the own service
    c.subscribe(BOB, 1, pay(10), 1000).unwrap();
    c.unsubscribe(ALICE, 1, 1301).unwrap();
    // visiting ALICE removes BOB from the list; the second slot is then empty
    let r = c.claim_funds(BOB, 1, 1301);
    assert_eq!(r.unwrap_err(), Error::EmptySubscriberSlot);
    assert_eq!(c.subscribers(1), vec![ALICE, BOB]);
    assert!(c.try_get_subscription(ALICE, 1).unwrap().unsubscribed);
}

#[test]
fn update_service_changes_given_fields() {
    let mut c = with_service();
    let r = c.update_service(
        BOB,
        1,
        Some(TokenId::Egld),
        Some(7),
        Some(amt(99)),
        Some(PeriodType::Epochs),
        Some(3),
        Some(b"weekly".to_vec()),
        None,
        Some(60),
    );
    assert_eq!(r, Ok(1));
    let s = c.try_get_service(1).unwrap();
    assert!(matches!(s.payment_token, TokenId::Egld));
    assert_eq!(s.payment_nonce, 0);
    assert_eq!(s.price, amt(99));
    assert_eq!(s.period_type, PeriodType::Epochs);
    assert_eq!(s.payment_period, 3);
    assert_eq!(s.service_name, b"weekly".to_vec());
    assert_eq!(s.service_webpage, b"https://news".to_vec());
    assert_eq!(s.grace_period, 60);
    let r = c.update_service(BOB, 1, Some(usdc()), Some(4), None, None, None, None, None, None);
    assert_eq!(r, Ok(1));
    assert_eq!(c.try_get_service(1).unwrap().payment_nonce, 4);
}

#[test]
fn update_service_refusals() {
    let mut c = with_service();
    let long = vec![b'y'; 65];
    let r = c.update_service(ALICE, 1, None, None, Some(amt(5)), None, None, None, None, None);
    assert_eq!(r.unwrap_err(), Error::NotServiceOwner);
    let r = c.update_service(BOB, 3, None, None, Some(amt(5)), None, None, None, None, None);
    assert_eq!(r.unwrap_err(), Error::ServiceDoesNotExist);
    let r = c.update_service(BOB, 1, Some(usdc()), None, None, None, None, None, None, None);
    assert_eq!(r.unwrap_err(), Error::NonceNeeded);
    let r = c.update_service(BOB, 1, None, None, Some(amt(0)), None, None, None, None, None);
    assert_eq!(r.unwrap_err(), Error::PriceZero);
    let r = c.update_service(
        BOB,
        1,
        None,
        None,
        None,
        Some(PeriodType::Unspecified),
        None,
        None,
        None,
        None,
    );
    assert_eq!(r.unwrap_err(), Error::InvalidPeriodType);
    let r = c.update_service(BOB, 1, None, None, None, None, Some(0), None, None, None);
    assert_eq!(r.unwrap_err(), Error::PaymentPeriodZero);
    let r = c.update_service(BOB, 1, None, None, None, None, None, Some(long.clone()), None, None);
    assert_eq!(r.unwrap_err(), Error::UpdatedServiceNameTooLong);
    let r = c.update_service(BOB, 1, None, None, None, None, None, None, Some(long), None);
    assert_eq!(r.unwrap_err(), Error::UpdatedServiceWebpageTooLong);
    // a refused update changes nothing, not even the fields checked before the refusal
    let r = c.update_service(BOB, 1, None, None, Some(amt(77)), None, Some(0), None, None, None);
    assert_eq!(r.unwrap_err(), Error::PaymentPeriodZero);
    assert_eq!(c.try_get_service(1).unwrap().price, amt(10));
}

#[test]
fn custom_cut_is_set_by_contract_owner() {
    let mut c = with_service();
    assert_eq!(c.set_custom_cut_service(BOB, 1, true, Some(5)).unwrap_err(), Error::OnlyOwner);
    let r = c.set_custom_cut_service(OWNER, 1, true, Some(10_001));
    assert_eq!(r.unwrap_err(), Error::InvalidPercentage);
    assert_eq!(c.set_custom_cut_service(OWNER, 2, true, Some(5)).unwrap_err(), Error::ServiceDoesNotExist);
    assert_eq!(c.set_custom_cut_service(OWNER, 1, true, Some(10_000)), Ok(true));
    let s = c.try_get_service(1).unwrap();
    assert!(s.custom_cut);
    assert_eq!(s.contract_cut_percentage, amt(10_000));
    assert_eq!(c.set_custom_cut_service(OWNER, 1, true, None), Ok(true));
    assert!(c.try_get_service(1).unwrap().custom_cut);
    assert_eq!(c.set_custom_cut_service(OWNER, 1, false, Some(3)), Ok(false));
    let s = c.try_get_service(1).unwrap();
    assert!(!s.custom_cut);
    assert_eq!(s.contract_cut_percentage, amt(10_000));
}

#[test]
fn contract_cut_applies_to_new_services() {
    let mut c = deploy();
    assert_eq!(c.set_contract_cut_percentage(ALICE, 500).unwrap_err(), Error::OnlyOwner);
    assert_eq!(c.set_contract_cut_percentage(OWNER, 0).unwrap_err(), Error::InvalidPercentage);
    assert_eq!(
        c.set_contract_cut_percentage(OWNER, 10_000).unwrap_err(),
        Error::InvalidPercentage
    );
    assert_eq!(c.try_set_contract_cut_percentage(9_999), Ok(()));
    assert_eq!(c.set_contract_cut_percentage(OWNER, 500), Ok(()));
    assert_eq!(c.contract_cut_percentage(), amt(500));
    let (id, event) = c
        .create_service(ALICE, usdc(), None, amt(1), PeriodType::Seconds, 1, None, None, None)
        .unwrap();
    assert_eq!(c.try_get_service(id).unwrap().contract_cut_percentage, amt(500));
    assert_eq!(event.contract_cut_percentage, amt(500));
}

#[test]
fn discounts_belong_to_service_owner() {
    let mut c = with_service();
    let r = c.create_discount(BOB, DiscountType::Unspecified, usdc(), None, amt(5), amt(1), 1);
    assert_eq!(r.unwrap_err(), Error::InvalidDiscountType);
    let r = c.create_discount(BOB, DiscountType::Fixed, usdc(), None, amt(5), amt(0), 1);
    assert_eq!(r.unwrap_err(), Error::DiscountAmountZero);
    let r = c.create_discount(BOB, DiscountType::Fixed, usdc(), None, amt(5), amt(1), 2);
    assert_eq!(r.unwrap_err(), Error::ServiceDoesNotExist);
    let r = c.create_discount(ALICE, DiscountType::Fixed, usdc(), None, amt(5), amt(1), 1);
    assert_eq!(r.unwrap_err(), Error::OnlyOwnerManagesDiscounts);
    assert_eq!(c.try_get_discount(1).unwrap_err(), Error::DiscountDoesNotExist);
    let r = c.create_discount(BOB, DiscountType::Dynamic, TokenId::Egld, Some(8), amt(25), amt(3), 1);
    assert_eq!(r, Ok(1));
    let d = c.try_get_discount(1).unwrap();
    assert_eq!(d.discount_type, DiscountType::Dynamic);
    assert_eq!(d.owner, BOB);
    assert_eq!(d.payment_nonce, 0);
    assert_eq!(d.percent, amt(25));
    assert_eq!(d.required_amount, amt(3));
    assert_eq!(c.discounts_by_address(BOB), vec![1]);
    assert!(c.discount_by_id(1).is_some());
    assert!(c.discount_by_id(2).is_none());
}

#[test]
fn storage_views() {
    let mut c = with_service();
    c.subscribe(ALICE, 1, pay(10), 0).unwrap();
    assert_eq!(c.claimable_by_id(1), amt(0));
    assert_eq!(c.services_by_address(BOB), vec![1]);
    assert!(c.services_by_address(ALICE).is_empty());
    assert_eq!(c.service_by_id(1).unwrap().price, amt(10));
    assert!(c.service_by_id(0).is_none());
    assert!(c.subscribers(0).is_empty());
    assert!(c.subscribers(5).is_empty());
}

#[test]
fn create_service_event_copies_service() {
    let c = deploy();
    let mut s = service(12, PeriodType::Seconds, 30);
    s.service_name = b"tv".to_vec();
    s.payments_total = amt(4);
    let e = c.emit_create_service_event(9, s);
    assert_eq!(e.service_id, 9);
    assert_eq!(e.price, amt(12));
    assert_eq!(e.payment_period, 30);
    assert_eq!(e.payments_total, amt(4));
    assert_eq!(e.service_name, b"tv".to_vec());
    assert_eq!(e.owner, BOB);
}

#[test]
fn records_round_trip_keeps_storage() {
    let mut c = with_service();
    c.subscribe(ALICE, 1, pay(25), 0).unwrap();
    c.subscribe(CAROL, 1, pay(10), 0).unwrap();
    c.create_discount(BOB, DiscountType::Fixed, usdc(), Some(2), amt(5), amt(1), 1).unwrap();
    c.pause_endpoint(OWNER).unwrap();
    let r = c.into_records();
    assert_eq!(r.slots.len(), 1);
    assert_eq!(r.owner, OWNER);
    assert!(r.paused);
    let c = NiftySubsState::from_records(r).unwrap();
    assert!(c.is_paused());
    assert_eq!(c.last_valid_service_id(), 1);
    assert_eq!(c.subscribers(1), vec![ALICE, CAROL]);
    assert_eq!(c.try_get_subscription(ALICE, 1).unwrap().amount, amt(25));
    assert_eq!(c.try_get_subscription(CAROL, 1).unwrap().amount, amt(10));
    assert_eq!(c.services_by_address(BOB), vec![1]);
    assert_eq!(c.subscriptions_by_address(ALICE), vec![1]);
    assert_eq!(c.discounts_by_address(BOB), vec![1]);
    assert_eq!(c.try_get_discount(1).unwrap().percent, amt(5));
}

fn empty_records() -> StateRecords {
    StateRecords {
        owner: OWNER,
        paused: false,
        contract_cut_percentage: Amount::zero(),
        slots: Vec::new(),
        services_by_address: Vec::new(),
        subscriptions_by_address: Vec::new(),
        discounts_by_address: Vec::new(),
    }
}

fn empty_slot() -> SlotRecord {
    SlotRecord { service: None, discount: None, subscribers: Vec::new(), subscriptions: Vec::new() }
}

#[test]
fn malformed_records_are_refused() {
    assert!(NiftySubsState::from_records(empty_records()).is_ok());

    let mut r = empty_records();
    let mut slot = empty_slot();
    slot.subscribers = vec![ALICE, ALICE];
    r.slots.push(slot);
    assert_eq!(NiftySubsState::from_records(r).err(), Some(Error::MalformedStorage));

    let mut r = empty_records();
    let mut slot = empty_slot();
    slot.subscriptions = vec![(ALICE, subscription(0, 1)), (ALICE, subscription(0, 2))];
    r.slots.push(slot);
    assert_eq!(NiftySubsState::from_records(r).err(), Some(Error::MalformedStorage));

    let mut r = empty_records();
    let mut slot = empty_slot();
    slot.service = Some(service(0, PeriodType::Seconds, 10));
    r.slots.push(slot);
    assert_eq!(NiftySubsState::from_records(r).err(), Some(Error::MalformedStorage));

    let mut r = empty_records();
    r.services_by_address = vec![(BOB, vec![1, 1])];
    assert_eq!(NiftySubsState::from_records(r).err(), Some(Error::MalformedStorage));

    let mut r = empty_records();
    r.discounts_by_address = vec![(BOB, vec![1]), (BOB, vec![2])];
    assert_eq!(NiftySubsState::from_records(r).err(), Some(Error::MalformedStorage));

    let mut r = empty_records();
    let mut slot = empty_slot();
    slot.service = Some(service(3, PeriodType::Epochs, 1));
    slot.subscribers = vec![ALICE];
    slot.subscriptions = vec![(ALICE, subscription(0, 3))];
    r.slots.push(slot);
    r.subscriptions_by_address = vec![(ALICE, vec![1])];
    let c = NiftySubsState::from_records(r).unwrap();
    assert_eq!(c.try_get_service(1).unwrap().price, amt(3));
    assert_eq!(c.try_get_status(ALICE, 1, 0), Ok(Status::Active));
}

#[test]
fn refusal_messages() {
    assert_eq!(Error::MarketplacePaused.message(), "Marketplace is paused");
    assert_eq!(Error::ServiceDoesNotExist.message(), "Service does not exist");
    assert_eq!(Error::FundedSubscriptionMissing.message(), "Subscription doesn't exists");
    assert_eq!(Error::NoPaymentsToClaim.message(), "No payments to be claimed.");
    assert_eq!(
        Error::InvalidPercentage.message(),
        "Invalid percentage value, should be betwen 0 and 10,000."
    );
    let mut c = with_service();
    let e = c.end_service(ALICE, 1).unwrap_err();
    assert_eq!(e.message(), "Only the service owner can end the service.");
}

fn held(c: &NiftySubsState, a: Address) -> Amount {
    match c.try_get_subscription(a, 1) {
        Ok(s) => s.amount.add(&s.prev_amount),
        Err(_) => Amount::zero(),
    }
}

#[test]
fn claim_total_equals_what_leaves_subscriptions() {
    let mut c = with_service();
    c.subscribe(ALICE, 1, pay(35), 1000).unwrap();
    c.subscribe(CAROL, 1, pay(100), 1000).unwrap();
    c.fund_subscription(CAROL, 1, pay(5), 1301).unwrap();
    c.subscribe(OWNER, 1, pay(12), 1000).unwrap();
    c.unsubscribe(OWNER, 1, 1301).unwrap();
    let before = held(&c, ALICE).add(&held(&c, CAROL)).add(&held(&c, OWNER));
    let t = c.claim_funds(BOB, 1, 1600).unwrap();
    let after = held(&c, ALICE).add(&held(&c, CAROL)).add(&held(&c, OWNER));
    assert_eq!(t.amount.add(&after), before);
    assert_eq!(c.subscribers(1), vec![ALICE, CAROL, OWNER]);
}

#[test]
fn views_match_helpers() {
    let mut c = with_service();
    c.subscribe(ALICE, 1, pay(35), 1000).unwrap();
    let s = c.try_get_service(1).unwrap();
    let sub = c.try_get_subscription(ALICE, 1).unwrap();
    for now in [900u64, 1000, 1001, 1150, 5000] {
        assert_eq!(c.view_get_to_pay(ALICE, 1, now), c.get_to_pay(&s, &sub, now));
        assert_eq!(c.view_get_passed_periods(ALICE, 1, now), c.get_passed_periods(&s, &sub, now));
    }
    // before the last claim nothing has begun, whatever the period
    let flat = service(5, PeriodType::Seconds, 0);
    assert_eq!(c.get_passed_periods(&flat, &subscription(100, 50), 100), Ok(0));
    assert_eq!(c.get_to_pay(&flat, &subscription(100, 50), 50), Ok(amt(0)));
}
