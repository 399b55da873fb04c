//! Services and subscriptions: creating, updating and ending services,
//! subscribing, funding, retrieving, unsubscribing, and the owner's claim.
//! Each endpoint takes the caller, the block timestamp and the payment that
//! come with the call as arguments; a refused call leaves storage unchanged.
use vstd::prelude::*;
use crate::amount::Amount;
use crate::billing::{
    advance_last_claim, lemma_owed_bounds, amount_owed, compute_amount_owed, compute_passed_periods, compute_status, passed_periods,
    passed_periods_fit, subscription_status,
};
use crate::events::{CreateServiceEvent, EventsModule, create_service_event};
use crate::service_spec::{
    create_service_spec, end_service_spec, fund_subscription_spec, passed_periods_spec,
    retrieve_funds_spec, set_custom_cut_spec, status_spec, subscribe_spec, to_pay_spec,
    unsubscribe_spec, update_service_spec, sub_key, claim_funds_spec, claim_run, claim_start,
    settled_subscription, ClaimProgress,
};
use crate::collections::{address_set_swap_remove, subscription_views};
use crate::state::{ContractView, NiftySubsState, service_valid};
use crate::types::{
    Address, Error, Payment, PeriodType, Service, Status, SubId, Subscription, TokenId,
    Transfer, TransferView, MAX_TEXT_LEN, PERCENTAGE_TOTAL, opt_amount, opt_bytes, opt_token, opt_transfer,
};

verus! {

/// Claim progress held by the claim loop's local storage copies.
pub open spec fn progress_of(
    subscribers: Seq<Address>,
    subscriptions: Map<Address, Subscription>,
    last_payment: Option<Amount>,
    total: Amount,
) -> ClaimProgress {
    ClaimProgress {
        subscribers,
        subscriptions: subscription_views(subscriptions),
        last_payment: match last_payment {
            Some(x) => Some(x@ as int),
            None => None,
        },
        total: total@ as int,
    }
}

/// Endpoints and views of the subscription service.
pub trait ServiceModule {
    /// Creates a service owned by the caller; returns its id and the event
    /// to log.
    fn create_service(
        &mut self,
        caller: Address,
        payment_token: TokenId,
        payment_nonce: Option<u64>,
        price: Amount,
        period_type: PeriodType,
        payment_period: u64,
        opt_service_name: Option<Vec<u8>>,
        opt_service_webpage: Option<Vec<u8>>,
        opt_grace_period: Option<u64>,
    ) -> Result<(u64, CreateServiceEvent), Error>;

    /// Updates the given fields of a service (its owner only).
    fn update_service(
        &mut self,
        caller: Address,
        service_id: u64,
        opt_payment_token: Option<TokenId>,
        opt_payment_nonce: Option<u64>,
        opt_price: Option<Amount>,
        opt_period_type: Option<PeriodType>,
        opt_payment_period: Option<u64>,
        opt_service_name: Option<Vec<u8>>,
        opt_service_webpage: Option<Vec<u8>>,
        opt_grace_period: Option<u64>,
    ) -> Result<u64, Error>;

    /// Sets or clears a service's own contract cut (contract owner only);
    /// returns the flag.
    fn set_custom_cut_service(
        &mut self,
        caller: Address,
        service_id: u64,
        cut_flag: bool,
        opt_custom_cut: Option<u64>,
    ) -> Result<bool, Error>;

    /// Leaves a subscription; returns the refund to send, if any.
    fn unsubscribe(&mut self, caller: Address, service_id: u64, now: u64) -> Result<
        Option<Transfer>,
        Error,
    >;

    /// Collects what the subscribers of a service owe (its owner only);
    /// returns the transfer to the owner.
    fn claim_funds(&mut self, caller: Address, service_id: u64, now: u64) -> Result<
        Transfer,
        Error,
    >;

    /// Adds the payment to the caller's subscription.
    fn fund_subscription(
        &mut self,
        caller: Address,
        service_id: u64,
        payment: Payment,
        now: u64,
    ) -> Result<u64, Error>;

    /// Takes back part of the caller's balance that is not owed; returns the
    /// transfer to the caller.
    fn retrieve_funds(&mut self, caller: Address, service_id: u64, amount: Amount, now: u64) -> Result<
        Transfer,
        Error,
    >;

    /// Ends a service (its owner only).
    fn end_service(&mut self, caller: Address, service_id: u64) -> Result<u64, Error>;

    /// Subscribes the caller with the payment as prepaid balance.
    fn subscribe(&mut self, caller: Address, service_id: u64, payment: Payment, now: u64) -> Result<
        u64,
        Error,
    >;

    /// Periods begun since the subscription's last claim.
    fn get_passed_periods(&self, service: &Service, subscription: &Subscription, now: u64) -> Result<
        u64,
        Error,
    >
        requires
            service.payment_period > 0 || now <= subscription.last_claim,
    ;

    /// Periods begun since the last claim of a stored subscription.
    fn view_get_passed_periods(&self, address: Address, service_id: u64, now: u64) -> Result<
        u64,
        Error,
    >;

    /// What a subscription owes the service owner now.
    fn get_to_pay(&self, service: &Service, subscription: &Subscription, now: u64) -> Result<
        Amount,
        Error,
    >
        requires
            service.payment_period > 0 || now <= subscription.last_claim,
    ;

    /// What a stored subscription owes the service owner now.
    fn view_get_to_pay(&self, address: Address, service_id: u64, now: u64) -> Result<Amount, Error>;

    /// The service stored under `service_id`.
    fn try_get_service(&self, service_id: u64) -> Result<Service, Error>;

    /// The subscription of `address` to `service_id`.
    fn try_get_subscription(&self, address: Address, service_id: u64) -> Result<
        Subscription,
        Error,
    >;

    /// Whether the subscription of `address` to `service_id` is active.
    fn try_get_status(&self, address: Address, service_id: u64, now: u64) -> Result<
        Status,
        Error,
    >;

    /// Stored service data (the `serviceById` storage entry).
    fn service_by_id(&self, service_id: u64) -> Option<Service>;

    /// The `claimableById` storage entry.
    fn claimable_by_id(&self, service_id: u64) -> Amount;

    /// The highest service id handed out.
    fn last_valid_service_id(&self) -> u64;

    /// Ids of the services created by `address`.
    fn services_by_address(&self, address: Address) -> Vec<u64>;

    /// The contract's cut for new services, in basis points.
    fn contract_cut_percentage(&self) -> Amount;

    /// Stored subscription data (the `subscriptionById` storage entry).
    fn subscription_by_id(&self, id: SubId) -> Option<Subscription>;

    /// Subscriber list of a service, in storage order.
    fn subscribers(&self, service_id: u64) -> Vec<Address>;

    /// Ids of the services `address` is listed as subscribed to.
    fn subscriptions_by_address(&self, address: Address) -> Vec<u64>;
}

impl ServiceModule for NiftySubsState {
    fn create_service(
        &mut self,
        caller: Address,
        payment_token: TokenId,
        payment_nonce: Option<u64>,
        price: Amount,
        period_type: PeriodType,
        payment_period: u64,
        opt_service_name: Option<Vec<u8>>,
        opt_service_webpage: Option<Vec<u8>>,
        opt_grace_period: Option<u64>,
    ) -> (res: Result<(u64, CreateServiceEvent), Error>)
        ensures
            final(self)@.wf(),
            match res {
                Ok((id, event)) => create_service_spec(
                    old(self)@,
                    caller,
                    payment_token@,
                    payment_nonce,
                    price@,
                    period_type,
                    payment_period,
                    opt_bytes(opt_service_name),
                    opt_bytes(opt_service_webpage),
                    opt_grace_period,
                ) == Ok::<(ContractView, u64), Error>((final(self)@, id)) && event@
                    == create_service_event(id, final(self)@.services[id]),
                Err(e) => create_service_spec(
                    old(self)@,
                    caller,
                    payment_token@,
                    payment_nonce,
                    price@,
                    period_type,
                    payment_period,
                    opt_bytes(opt_service_name),
                    opt_bytes(opt_service_webpage),
                    opt_grace_period,
                ) == Err::<(ContractView, u64), Error>(e) && final(self)@ == old(self)@,
            },
    {
        self.wf_holds();
        if self.paused_flag() {
            return Err(Error::ContractPaused);
        }
        if !(period_type == PeriodType::Seconds || period_type == PeriodType::Epochs) {
            return Err(Error::InvalidPeriodType);
        }
        if payment_period == 0 {
            return Err(Error::PaymentPeriodZero);
        }
        if price.is_zero() {
            return Err(Error::PriceZero);
        }
        let service_name = match opt_service_name {
            Some(name) => {
                if name.len() > MAX_TEXT_LEN {
                    return Err(Error::ServiceNameTooLong);
                }
                name
            },
            None => Vec::new(),
        };
        let service_webpage = match opt_service_webpage {
            Some(page) => {
                if page.len() > MAX_TEXT_LEN {
                    return Err(Error::ServiceWebpageTooLong);
                }
                page
            },
            None => Vec::new(),
        };
        if self.last_service_id() == u64::MAX {
            return Err(Error::ArithmeticOverflow);
        }
        let accepted_payment_nonce = if payment_token.is_egld() {
            0
        } else {
            match payment_nonce {
                Some(n) => n,
                None => 0,
            }
        };
        let grace_period = match opt_grace_period {
            Some(g) => g,
            None => 0,
        };
        let service = Service {
            owner: caller,
            payment_token,
            payment_nonce: accepted_payment_nonce,
            price,
            period_type,
            payment_period,
            payments_total: Amount::zero(),
            custom_cut: false,
            contract_cut_percentage: self.cut(),
            service_name,
            service_webpage,
            grace_period,
        };
        let logged = service.copy();
        let id = self.push_service(service);
        let event = self.emit_create_service_event(id, logged);
        self.services_by_address_insert(caller, id);
        self.wf_holds();
        Ok((id, event))
    }

    fn end_service(&mut self, caller: Address, service_id: u64) -> (res: Result<u64, Error>)
        ensures
            final(self)@.wf(),
            match res {
                Ok(id) => id == service_id && end_service_spec(old(self)@, caller, service_id)
                    == Ok::<ContractView, Error>(final(self)@),
                Err(e) => end_service_spec(old(self)@, caller, service_id) == Err::<
                    ContractView,
                    Error,
                >(e) && final(self)@ == old(self)@,
            },
    {
        self.wf_holds();
        if self.paused_flag() {
            return Err(Error::ContractPaused);
        }
        let owner = match self.lookup_service(service_id) {
            Some(s) => s.owner,
            None => return Err(Error::ServiceDoesNotExist),
        };
        if owner != caller {
            return Err(Error::OnlyOwnerCanEnd);
        }
        self.clear_service(service_id);
        self.wf_holds();
        Ok(service_id)
    }

    fn subscribe(&mut self, caller: Address, service_id: u64, payment: Payment, now: u64) -> (res:
        Result<u64, Error>)
        ensures
            final(self)@.wf(),
            match res {
                Ok(id) => id == service_id && subscribe_spec(
                    old(self)@,
                    caller,
                    service_id,
                    payment@,
                    now,
                ) == Ok::<ContractView, Error>(final(self)@),
                Err(e) => subscribe_spec(old(self)@, caller, service_id, payment@, now) == Err::<
                    ContractView,
                    Error,
                >(e) && final(self)@ == old(self)@,
            },
    {
        self.wf_holds();
        if self.paused_flag() {
            return Err(Error::ContractPaused);
        }
        let subscription = match self.lookup_service(service_id) {
            None => return Err(Error::ServiceDoesNotExist),
            Some(service) => {
                if !payment.token.same(&service.payment_token) {
                    return Err(Error::IncorrectPaymentToken);
                }
                if payment.nonce != service.payment_nonce {
                    return Err(Error::IncorrectPaymentNonce);
                }
                if !service.price.le(&payment.amount) {
                    return Err(Error::InsufficientAmount);
                }
                Subscription {
                    last_claim: now,
                    payment_token: service.payment_token.copy(),
                    payment_nonce: service.payment_nonce,
                    amount: payment.amount,
                    prev_amount: Amount::zero(),
                    unsubscribed: false,
                }
            },
        };
        if self.lookup_subscription(&caller, service_id).is_some() {
            return Err(Error::SubscriptionAlreadyExists);
        }
        self.set_subscription(SubId { address: caller, service_id }, subscription);
        self.subscribers_insert(service_id, caller);
        self.subscriptions_by_address_insert(caller, service_id);
        self.wf_holds();
        Ok(service_id)
    }

    fn get_passed_periods(&self, service: &Service, subscription: &Subscription, now: u64) -> (res:
        Result<u64, Error>)
        ensures
            match res {
                Ok(p) => passed_periods_fit(service@, subscription@, now) && p == passed_periods(
                    service@,
                    subscription@,
                    now,
                ),
                Err(e) => e == Error::ArithmeticOverflow && !passed_periods_fit(
                    service@,
                    subscription@,
                    now,
                ),
            },
    {
        compute_passed_periods(service, subscription, now)
    }

    fn view_get_passed_periods(&self, address: Address, service_id: u64, now: u64) -> (res: Result<
        u64,
        Error,
    >)
        ensures
            res == passed_periods_spec(self@, address, service_id, now),
    {
        let subscription = match self.lookup_subscription(&address, service_id) {
            Some(s) => s,
            None => return Err(Error::SubscriptionDoesNotExist),
        };
        let service = match self.lookup_service(service_id) {
            Some(s) => s,
            None => return Err(Error::ServiceDoesNotExist),
        };
        compute_passed_periods(service, subscription, now)
    }

    fn get_to_pay(&self, service: &Service, subscription: &Subscription, now: u64) -> (res: Result<
        Amount,
        Error,
    >)
        ensures
            match res {
                Ok(v) => passed_periods_fit(service@, subscription@, now) && v@ == amount_owed(
                    service@,
                    subscription@,
                    now,
                ),
                Err(e) => e == Error::ArithmeticOverflow && !passed_periods_fit(
                    service@,
                    subscription@,
                    now,
                ),
            },
    {
        match compute_amount_owed(service, subscription, now) {
            Ok((v, _)) => Ok(v),
            Err(e) => Err(e),
        }
    }

    fn view_get_to_pay(&self, address: Address, service_id: u64, now: u64) -> (res: Result<
        Amount,
        Error,
    >)
        ensures
            match res {
                Ok(v) => to_pay_spec(self@, address, service_id, now) == Ok::<nat, Error>(v@),
                Err(e) => to_pay_spec(self@, address, service_id, now) == Err::<nat, Error>(e),
            },
    {
        let subscription = match self.lookup_subscription(&address, service_id) {
            Some(s) => s,
            None => return Err(Error::SubscriptionDoesNotExist),
        };
        let service = match self.lookup_service(service_id) {
            Some(s) => s,
            None => return Err(Error::ServiceDoesNotExist),
        };
        match compute_amount_owed(service, subscription, now) {
            Ok((v, _)) => Ok(v),
            Err(e) => Err(e),
        }
    }

    fn try_get_service(&self, service_id: u64) -> (res: Result<Service, Error>)
        ensures
            match res {
                Ok(s) => self@.services.contains_key(service_id) && s@ == self@.services[service_id],
                Err(e) => e == Error::ServiceDoesNotExist && !self@.services.contains_key(
                    service_id,
                ),
            },
    {
        match self.lookup_service(service_id) {
            Some(s) => Ok(s.copy()),
            None => Err(Error::ServiceDoesNotExist),
        }
    }

    fn try_get_subscription(&self, address: Address, service_id: u64) -> (res: Result<
        Subscription,
        Error,
    >)
        ensures
            match res {
                Ok(s) => self@.subscriptions.contains_key(sub_key(address, service_id)) && s@
                    == self@.subscriptions[sub_key(address, service_id)],
                Err(e) => e == Error::SubscriptionDoesNotExist && !self@.subscriptions.contains_key(
                    sub_key(address, service_id),
                ),
            },
    {
        match self.lookup_subscription(&address, service_id) {
            Some(s) => Ok(s.copy()),
            None => Err(Error::SubscriptionDoesNotExist),
        }
    }

    fn try_get_status(&self, address: Address, service_id: u64, now: u64) -> (res: Result<
        Status,
        Error,
    >)
        ensures
            res == status_spec(self@, address, service_id, now),
    {
        let service = match self.lookup_service(service_id) {
            Some(s) => s,
            None => return Err(Error::ServiceDoesNotExist),
        };
        let subscription = match self.lookup_subscription(&address, service_id) {
            Some(s) => s,
            None => return Err(Error::SubscriptionDoesNotExist),
        };
        compute_status(service, subscription, now)
    }

    fn update_service(
        &mut self,
        caller: Address,
        service_id: u64,
        opt_payment_token: Option<TokenId>,
        opt_payment_nonce: Option<u64>,
        opt_price: Option<Amount>,
        opt_period_type: Option<PeriodType>,
        opt_payment_period: Option<u64>,
        opt_service_name: Option<Vec<u8>>,
        opt_service_webpage: Option<Vec<u8>>,
        opt_grace_period: Option<u64>,
    ) -> (res: Result<u64, Error>)
        ensures
            final(self)@.wf(),
            match res {
                Ok(id) => id == service_id && update_service_spec(
                    old(self)@,
                    caller,
                    service_id,
                    opt_token(opt_payment_token),
                    opt_payment_nonce,
                    opt_amount(opt_price),
                    opt_period_type,
                    opt_payment_period,
                    opt_bytes(opt_service_name),
                    opt_bytes(opt_service_webpage),
                    opt_grace_period,
                ) == Ok::<ContractView, Error>(final(self)@),
                Err(e) => update_service_spec(
                    old(self)@,
                    caller,
                    service_id,
                    opt_token(opt_payment_token),
                    opt_payment_nonce,
                    opt_amount(opt_price),
                    opt_period_type,
                    opt_payment_period,
                    opt_bytes(opt_service_name),
                    opt_bytes(opt_service_webpage),
                    opt_grace_period,
                ) == Err::<ContractView, Error>(e) && final(self)@ == old(self)@,
            },
    {
        self.wf_holds();
        if self.paused_flag() {
            return Err(Error::ContractPaused);
        }
        let mut new_service = match self.lookup_service(service_id) {
            None => return Err(Error::ServiceDoesNotExist),
            Some(s) => {
                if s.owner != caller {
                    return Err(Error::NotServiceOwner);
                }
                s.copy()
            },
        };
        match opt_payment_token {
            Some(token) => {
                if token.is_egld() {
                    new_service.payment_token = token;
                    new_service.payment_nonce = 0;
                } else {
                    match opt_payment_nonce {
                        Some(nonce) => {
                            new_service.payment_token = token;
                            new_service.payment_nonce = nonce;
                        },
                        None => return Err(Error::NonceNeeded),
                    }
                }
            },
            None => {},
        }
        match opt_price {
            Some(price) => {
                if price.is_zero() {
                    return Err(Error::PriceZero);
                }
                new_service.price = price;
            },
            None => {},
        }
        match opt_period_type {
            Some(period) => {
                if !(period == PeriodType::Seconds || period == PeriodType::Epochs) {
                    return Err(Error::InvalidPeriodType);
                }
                new_service.period_type = period;
            },
            None => {},
        }
        match opt_payment_period {
            Some(pay) => {
                if pay == 0 {
                    return Err(Error::PaymentPeriodZero);
                }
                new_service.payment_period = pay;
            },
            None => {},
        }
        match opt_service_name {
            Some(name) => {
                if name.len() > MAX_TEXT_LEN {
                    return Err(Error::UpdatedServiceNameTooLong);
                }
                new_service.service_name = name;
            },
            None => {},
        }
        match opt_service_webpage {
            Some(page) => {
                if page.len() > MAX_TEXT_LEN {
                    return Err(Error::UpdatedServiceWebpageTooLong);
                }
                new_service.service_webpage = page;
            },
            None => {},
        }
        match opt_grace_period {
            Some(period) => {
                new_service.grace_period = period;
            },
            None => {},
        }
        self.replace_service(service_id, new_service);
        self.wf_holds();
        Ok(service_id)
    }

    fn set_custom_cut_service(
        &mut self,
        caller: Address,
        service_id: u64,
        cut_flag: bool,
        opt_custom_cut: Option<u64>,
    ) -> (res: Result<bool, Error>)
        ensures
            final(self)@.wf(),
            match res {
                Ok(flag) => flag == cut_flag && set_custom_cut_spec(
                    old(self)@,
                    caller,
                    service_id,
                    cut_flag,
                    opt_custom_cut,
                ) == Ok::<ContractView, Error>(final(self)@),
                Err(e) => set_custom_cut_spec(
                    old(self)@,
                    caller,
                    service_id,
                    cut_flag,
                    opt_custom_cut,
                ) == Err::<ContractView, Error>(e) && final(self)@ == old(self)@,
            },
    {
        self.wf_holds();
        if caller != self.contract_owner() {
            return Err(Error::OnlyOwner);
        }
        let mut service = match self.lookup_service(service_id) {
            Some(s) => s.copy(),
            None => return Err(Error::ServiceDoesNotExist),
        };
        if cut_flag {
            match opt_custom_cut {
                Some(cut) => {
                    if cut > PERCENTAGE_TOTAL {
                        return Err(Error::InvalidPercentage);
                    }
                    service.custom_cut = true;
                    service.contract_cut_percentage = Amount::from_u64(cut);
                    self.replace_service(service_id, service);
                },
                None => {},
            }
        } else {
            service.custom_cut = false;
            self.replace_service(service_id, service);
        }
        self.wf_holds();
        Ok(cut_flag)
    }

    fn unsubscribe(&mut self, caller: Address, service_id: u64, now: u64) -> (res: Result<
        Option<Transfer>,
        Error,
    >)
        ensures
            final(self)@.wf(),
            match res {
                Ok(refund) => unsubscribe_spec(old(self)@, caller, service_id, now) == Ok::<
                    (ContractView, Option<TransferView>),
                    Error,
                >((final(self)@, opt_transfer(refund))),
                Err(e) => unsubscribe_spec(old(self)@, caller, service_id, now) == Err::<
                    (ContractView, Option<TransferView>),
                    Error,
                >(e) && final(self)@ == old(self)@,
            },
    {
        self.wf_holds();
        let key = SubId { address: caller, service_id };
        let subscription = match self.lookup_subscription(&caller, service_id) {
            Some(s) => s.copy(),
            None => return Err(Error::SubscriptionDoesNotExist),
        };
        let service = match self.lookup_service(service_id) {
            Some(s) => s.copy(),
            None => {
                let refund = Transfer {
                    to: caller,
                    token: subscription.payment_token.copy(),
                    nonce: subscription.payment_nonce,
                    amount: subscription.amount,
                };
                self.subscriptions_by_address_swap_remove(caller, service_id);
                self.clear_subscription(key);
                self.subscribers_swap_remove(service_id, &caller);
                self.wf_holds();
                return Ok(Some(refund));
            },
        };
        let status = match compute_status(&service, &subscription, now) {
            Ok(st) => st,
            Err(e) => return Err(e),
        };
        if status != Status::Revoked {
            return Err(Error::SubscriptionStillActive);
        }
        let to_pay = match compute_amount_owed(&service, &subscription, now) {
            Ok((v, _)) => v,
            Err(e) => return Err(e),
        };
        let left = subscription.amount.sub(&to_pay);
        let mut refund: Option<Transfer> = None;
        if !left.is_zero() {
            self.set_subscription(
                key,
                Subscription {
                    last_claim: subscription.last_claim,
                    payment_token: service.payment_token.copy(),
                    payment_nonce: service.payment_nonce,
                    amount: to_pay.copy(),
                    prev_amount: subscription.prev_amount,
                    unsubscribed: true,
                },
            );
            refund = Some(
                Transfer {
                    to: caller,
                    token: service.payment_token.copy(),
                    nonce: service.payment_nonce,
                    amount: left,
                },
            );
            self.subscriptions_by_address_swap_remove(caller, service_id);
        }
        if to_pay.is_zero() {
            self.subscriptions_by_address_swap_remove(caller, service_id);
            self.clear_subscription(key);
            self.subscribers_swap_remove(service_id, &caller);
        }
        self.wf_holds();
        Ok(refund)
    }

    fn fund_subscription(
        &mut self,
        caller: Address,
        service_id: u64,
        payment: Payment,
        now: u64,
    ) -> (res: Result<u64, Error>)
        ensures
            final(self)@.wf(),
            match res {
                Ok(id) => id == service_id && fund_subscription_spec(
                    old(self)@,
                    caller,
                    service_id,
                    payment@,
                    now,
                ) == Ok::<ContractView, Error>(final(self)@),
                Err(e) => fund_subscription_spec(old(self)@, caller, service_id, payment@, now)
                    == Err::<ContractView, Error>(e) && final(self)@ == old(self)@,
            },
    {
        self.wf_holds();
        if self.paused_flag() {
            return Err(Error::ContractPaused);
        }
        let service = match self.lookup_service(service_id) {
            Some(s) => s.copy(),
            None => return Err(Error::ServiceDoesNotExist),
        };
        if !payment.token.same(&service.payment_token) {
            return Err(Error::IncorrectPaymentToken);
        }
        if payment.nonce != service.payment_nonce {
            return Err(Error::IncorrectPaymentNonce);
        }
        let subscription = match self.lookup_subscription(&caller, service_id) {
            Some(s) => s.copy(),
            None => return Err(Error::FundedSubscriptionMissing),
        };
        let total = subscription.amount.add(&payment.amount);
        let status = match compute_status(&service, &subscription, now) {
            Ok(st) => st,
            Err(e) => return Err(e),
        };
        let new_subscription = if status == Status::Revoked {
            let to_pay = match compute_amount_owed(&service, &subscription, now) {
                Ok((v, _)) => v,
                Err(e) => return Err(e),
            };
            Subscription {
                last_claim: now,
                payment_token: service.payment_token.copy(),
                payment_nonce: service.payment_nonce,
                amount: total.sub(&to_pay),
                prev_amount: to_pay,
                unsubscribed: subscription.unsubscribed,
            }
        } else {
            Subscription {
                last_claim: subscription.last_claim,
                payment_token: service.payment_token.copy(),
                payment_nonce: service.payment_nonce,
                amount: total,
                prev_amount: Amount::zero(),
                unsubscribed: subscription.unsubscribed,
            }
        };
        self.set_subscription(SubId { address: caller, service_id }, new_subscription);
        self.wf_holds();
        Ok(service_id)
    }

    fn retrieve_funds(&mut self, caller: Address, service_id: u64, amount: Amount, now: u64) -> (res:
        Result<Transfer, Error>)
        ensures
            final(self)@.wf(),
            match res {
                Ok(t) => retrieve_funds_spec(old(self)@, caller, service_id, amount@, now) == Ok::<
                    (ContractView, TransferView),
                    Error,
                >((final(self)@, t@)),
                Err(e) => retrieve_funds_spec(old(self)@, caller, service_id, amount@, now) == Err::<
                    (ContractView, TransferView),
                    Error,
                >(e) && final(self)@ == old(self)@,
            },
    {
        self.wf_holds();
        let service = match self.lookup_service(service_id) {
            Some(s) => s.copy(),
            None => return Err(Error::ServiceDoesNotExist),
        };
        let subscription = match self.lookup_subscription(&caller, service_id) {
            Some(s) => s.copy(),
            None => return Err(Error::SubscriptionDoesNotExist),
        };
        let to_pay = match compute_amount_owed(&service, &subscription, now) {
            Ok((v, _)) => v,
            Err(e) => return Err(e),
        };
        if !(amount.le(&subscription.amount) && !amount.is_zero()) {
            return Err(Error::RetrieveMoreThanHeld);
        }
        let left = subscription.amount.sub(&amount);
        if left.le(&to_pay) {
            return Err(Error::RetrieveBelowOwed);
        }
        self.set_subscription(
            SubId { address: caller, service_id },
            Subscription {
                last_claim: subscription.last_claim,
                payment_token: service.payment_token.copy(),
                payment_nonce: service.payment_nonce,
                amount: left,
                prev_amount: subscription.prev_amount,
                unsubscribed: false,
            },
        );
        self.wf_holds();
        Ok(
            Transfer {
                to: caller,
                token: service.payment_token,
                nonce: service.payment_nonce,
                amount,
            },
        )
    }

    fn claim_funds(&mut self, caller: Address, service_id: u64, now: u64) -> (res: Result<
        Transfer,
        Error,
    >)
        ensures
            final(self)@.wf(),
            match res {
                Ok(t) => claim_funds_spec(old(self)@, caller, service_id, now) == Ok::<
                    (ContractView, TransferView),
                    Error,
                >((final(self)@, t@)),
                Err(e) => claim_funds_spec(old(self)@, caller, service_id, now) == Err::<
                    (ContractView, TransferView),
                    Error,
                >(e) && final(self)@ == old(self)@,
            },
    {
        self.wf_holds();
        let service = match self.lookup_service(service_id) {
            Some(s) => s.copy(),
            None => return Err(Error::ServiceDoesNotExist),
        };
        if service.owner != caller {
            return Err(Error::OnlyOwnerCanClaim);
        }
        let ghost v = self@;
        let ghost start = claim_start(v, service_id);
        let mut subscribers = self.subscriber_list(service_id);
        let mut subs = self.copy_service_subscriptions(service_id);
        let mut last_payment: Option<Amount> = None;
        let mut total: Amount = Amount::zero();
        let end = subscribers.len();
        let mut i: usize = 0;
        assert(progress_of(subscribers@, subs.map(), last_payment, total) == start);
        while i < end
            invariant
                service_valid(service@),
                v.services.contains_key(service_id),
                service@ == v.services[service_id],
                service.owner == caller,
                v == self@,
                v == old(self)@,
                v.wf(),
                start == claim_start(v, service_id),
                end == start.subscribers.len(),
                i <= end,
                subscribers@.no_duplicates(),
                subs.wf(),
                claim_run(service@, caller, now, start, 0, end as int) == claim_run(
                    service@,
                    caller,
                    now,
                    progress_of(subscribers@, subs.map(), last_payment, total),
                    i as int,
                    end as int,
                ),
            decreases end - i,
        {
            let ghost cur = progress_of(subscribers@, subs.map(), last_payment, total);
            if i >= subscribers.len() {
                return Err(Error::EmptySubscriberSlot);
            }
            let address = subscribers[i];
            let subscription = match subs.get(&address) {
                Some(s) => s.copy(),
                None => return Err(Error::SubscriptionDoesNotExist),
            };
            if subscription.unsubscribed {
                total = total.add(&subscription.amount);
                address_set_swap_remove(&mut subscribers, &caller);
                let ghost before = subs.map();
                let _ = subs.remove(&address);
                proof {
                    assert(subscription_views(subs.map()) =~= subscription_views(before).remove(
                        address,
                    ));
                }
            } else {
                let (owed, periods) = match compute_amount_owed(&service, &subscription, now) {
                    Ok(o) => o,
                    Err(e) => return Err(e),
                };
                if service.price.le(&subscription.amount) && !owed.is_zero() {
                    proof {
                        lemma_owed_bounds(service@, subscription@, now);
                    }
                    let last_claim = match advance_last_claim(
                        &service,
                        subscription.last_claim,
                        periods,
                    ) {
                        Ok(x) => x,
                        Err(e) => return Err(e),
                    };
                    let paid = owed.add(&subscription.prev_amount);
                    total = total.add(&paid);
                    let settled = Subscription {
                        last_claim,
                        payment_token: service.payment_token.copy(),
                        payment_nonce: service.payment_nonce,
                        amount: subscription.amount.sub(&owed),
                        prev_amount: Amount::zero(),
                        unsubscribed: false,
                    };
                    let ghost settled_view = settled@;
                    assert(settled_view == settled_subscription(service@, subscription@, now));
                    let ghost before = subs.map();
                    subs.insert(address, settled);
                    proof {
                        assert(subscription_views(subs.map()) =~= subscription_views(before).insert(
                            address,
                            settled_view,
                        ));
                    }
                    last_payment = Some(paid);
                }
            }
            i = i + 1;
        }
        if total.is_zero() {
            return Err(Error::NoPaymentsToClaim);
        }
        match last_payment {
            Some(x) => {
                let mut updated = service.copy();
                updated.payments_total = service.payments_total.add(&x);
                self.replace_service(service_id, updated);
            },
            None => {},
        }
        self.replace_subscribers(service_id, subscribers);
        self.replace_service_subscriptions(service_id, subs);
        self.wf_holds();
        Ok(
            Transfer {
                to: caller,
                token: service.payment_token,
                nonce: service.payment_nonce,
                amount: total,
            },
        )
    }

    fn service_by_id(&self, service_id: u64) -> (res: Option<Service>)
        ensures
            match res {
                Some(s) => self@.services.contains_key(service_id) && s@ == self@.services[service_id],
                None => !self@.services.contains_key(service_id),
            },
    {
        match self.lookup_service(service_id) {
            Some(s) => Some(s.copy()),
            None => None,
        }
    }

    /// No endpoint writes this entry; it reads as zero.
    fn claimable_by_id(&self, service_id: u64) -> (res: Amount)
        ensures
            res@ == 0,
    {
        Amount::zero()
    }

    fn last_valid_service_id(&self) -> (res: u64)
        ensures
            res == self@.last_valid_service_id,
    {
        self.last_service_id()
    }

    fn services_by_address(&self, address: Address) -> (res: Vec<u64>)
        ensures
            res@ == self@.services_by_address[address],
    {
        self.service_ids_of(&address)
    }

    fn contract_cut_percentage(&self) -> (res: Amount)
        ensures
            res@ == self@.contract_cut_percentage,
    {
        self.cut()
    }

    fn subscription_by_id(&self, id: SubId) -> (res: Option<Subscription>)
        ensures
            match res {
                Some(s) => self@.subscriptions.contains_key(id) && s@ == self@.subscriptions[id],
                None => !self@.subscriptions.contains_key(id),
            },
    {
        match self.lookup_subscription(&id.address, id.service_id) {
            Some(s) => Some(s.copy()),
            None => None,
        }
    }

    fn subscribers(&self, service_id: u64) -> (res: Vec<Address>)
        ensures
            res@ == self@.subscribers[service_id],
    {
        self.subscriber_list(service_id)
    }

    fn subscriptions_by_address(&self, address: Address) -> (res: Vec<u64>)
        ensures
            res@ == self@.subscriptions_by_address[address],
    {
        self.subscription_ids_of(&address)
    }
}

} // verus!
