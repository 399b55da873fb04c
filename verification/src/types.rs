//! Plain-value data model of the subscription contract: addresses, token
//! identifiers, services, subscriptions, discounts, payments and transfers,
//! together with their mathematical views.
use vstd::prelude::*;
use crate::amount::Amount;

verus! {

/// 100% expressed in basis points.
pub const PERCENTAGE_TOTAL: u64 = 10_000;

/// Number of seconds in one epoch, as the contract counts epoch-based periods.
pub const SECONDS_PER_EPOCH: u64 = 86400;

/// Longest service name or webpage the contract stores, in bytes.
pub const MAX_TEXT_LEN: usize = 64;

/// A 256-bit account address, held as four 64-bit words (big-endian order).
#[derive(Clone, Copy, PartialEq, Eq, Structural, Debug)]
pub struct Address(pub u64, pub u64, pub u64, pub u64);

/// How the length of a payment period is counted.
#[derive(Clone, Copy, PartialEq, Eq, Structural, Debug)]
pub enum PeriodType {
    Unspecified,
    Seconds,
    Epochs,
}

/// State of a subscription with respect to its payment obligations.
#[derive(Clone, Copy, PartialEq, Eq, Structural, Debug)]
pub enum Status {
    Unspecified,
    Active,
    Pending,
    Revoked,
}

/// Kind of a discount coupon.
#[derive(Clone, Copy, PartialEq, Eq, Structural, Debug)]
pub enum DiscountType {
    Unspecified,
    Fixed,
    Dynamic,
}

/// Either the native EGLD token or an ESDT token given by its identifier bytes.
#[derive(Debug)]
pub enum TokenId {
    Egld,
    Esdt(Vec<u8>),
}

/// Mathematical view of a token identifier.
pub enum TokenView {
    Egld,
    Esdt(Seq<u8>),
}

impl View for TokenId {
    type V = TokenView;

    open spec fn view(&self) -> TokenView {
        match self {
            TokenId::Egld => TokenView::Egld,
            TokenId::Esdt(bytes) => TokenView::Esdt(bytes@),
        }
    }
}

/// View of an optional byte buffer.
pub open spec fn opt_bytes(o: Option<Vec<u8>>) -> Option<Seq<u8>> {
    match o {
        Some(v) => Some(v@),
        None => None,
    }
}

/// View of an optional token.
pub open spec fn opt_token(o: Option<TokenId>) -> Option<TokenView> {
    match o {
        Some(t) => Some(t@),
        None => None,
    }
}

/// Copies a byte buffer.
pub fn copy_bytes(bytes: &Vec<u8>) -> (res: Vec<u8>)
    ensures
        res@ == bytes@,
{
    let mut res: Vec<u8> = Vec::new();
    let mut i: usize = 0;
    while i < bytes.len()
        invariant
            i <= bytes.len(),
            res@ == bytes@.subrange(0, i as int),
        decreases bytes.len() - i,
    {
        res.push(bytes[i]);
        i = i + 1;
        assert(res@ =~= bytes@.subrange(0, i as int));
    }
    assert(res@ =~= bytes@);
    res
}

/// Byte-wise equality of two buffers.
pub fn same_bytes(a: &Vec<u8>, b: &Vec<u8>) -> (res: bool)
    ensures
        res == (a@ == b@),
{
    if a.len() != b.len() {
        return false;
    }
    let mut i: usize = 0;
    while i < a.len()
        invariant
            a.len() == b.len(),
            i <= a.len(),
            forall|j: int| 0 <= j < i ==> a@[j] == b@[j],
        decreases a.len() - i,
    {
        if a[i] != b[i] {
            return false;
        }
        i = i + 1;
    }
    assert(a@ =~= b@);
    true
}

impl TokenId {
    /// True for the native EGLD token.
    pub fn is_egld(&self) -> (res: bool)
        ensures
            res == (self@ is Egld),
    {
        match self {
            TokenId::Egld => true,
            TokenId::Esdt(_) => false,
        }
    }

    /// A copy with the same view.
    pub fn copy(&self) -> (res: TokenId)
        ensures
            res@ == self@,
    {
        match self {
            TokenId::Egld => TokenId::Egld,
            TokenId::Esdt(bytes) => TokenId::Esdt(copy_bytes(bytes)),
        }
    }

    /// Token identity, as the contract compares payment tokens.
    pub fn same(&self, other: &TokenId) -> (res: bool)
        ensures
            res == (self@ == other@),
    {
        match (self, other) {
            (TokenId::Egld, TokenId::Egld) => true,
            (TokenId::Esdt(a), TokenId::Esdt(b)) => same_bytes(a, b),
            _ => false,
        }
    }
}

/// A subscription service offered by an account.
#[derive(Debug)]
pub struct Service {
    pub owner: Address,
    pub payment_token: TokenId,
    pub payment_nonce: u64,
    pub price: Amount,
    pub period_type: PeriodType,
    pub payment_period: u64,
    pub payments_total: Amount,
    pub custom_cut: bool,
    pub contract_cut_percentage: Amount,
    pub service_name: Vec<u8>,
    pub service_webpage: Vec<u8>,
    pub grace_period: u64,
}

pub struct ServiceView {
    pub owner: Address,
    pub payment_token: TokenView,
    pub payment_nonce: u64,
    pub price: nat,
    pub period_type: PeriodType,
    pub payment_period: u64,
    pub payments_total: nat,
    pub custom_cut: bool,
    pub contract_cut_percentage: nat,
    pub service_name: Seq<u8>,
    pub service_webpage: Seq<u8>,
    pub grace_period: u64,
}

impl View for Service {
    type V = ServiceView;

    open spec fn view(&self) -> ServiceView {
        ServiceView {
            owner: self.owner,
            payment_token: self.payment_token@,
            payment_nonce: self.payment_nonce,
            price: self.price@,
            period_type: self.period_type,
            payment_period: self.payment_period,
            payments_total: self.payments_total@,
            custom_cut: self.custom_cut,
            contract_cut_percentage: self.contract_cut_percentage@,
            service_name: self.service_name@,
            service_webpage: self.service_webpage@,
            grace_period: self.grace_period,
        }
    }
}

impl Service {
    /// A copy with the same view.
    pub fn copy(&self) -> (res: Service)
        ensures
            res@ == self@,
    {
        Service {
            owner: self.owner,
            payment_token: self.payment_token.copy(),
            payment_nonce: self.payment_nonce,
            price: self.price.copy(),
            period_type: self.period_type,
            payment_period: self.payment_period,
            payments_total: self.payments_total.copy(),
            custom_cut: self.custom_cut,
            contract_cut_percentage: self.contract_cut_percentage.copy(),
            service_name: copy_bytes(&self.service_name),
            service_webpage: copy_bytes(&self.service_webpage),
            grace_period: self.grace_period,
        }
    }
}

/// An account's prepaid subscription to a service.
#[derive(Debug)]
pub struct Subscription {
    pub last_claim: u64,
    pub payment_token: TokenId,
    pub payment_nonce: u64,
    pub amount: Amount,
    pub prev_amount: Amount,
    pub unsubscribed: bool,
}

pub struct SubscriptionView {
    pub last_claim: u64,
    pub payment_token: TokenView,
    pub payment_nonce: u64,
    pub amount: nat,
    pub prev_amount: nat,
    pub unsubscribed: bool,
}

impl View for Subscription {
    type V = SubscriptionView;

    open spec fn view(&self) -> SubscriptionView {
        SubscriptionView {
            last_claim: self.last_claim,
            payment_token: self.payment_token@,
            payment_nonce: self.payment_nonce,
            amount: self.amount@,
            prev_amount: self.prev_amount@,
            unsubscribed: self.unsubscribed,
        }
    }
}

impl Subscription {
    /// A copy with the same view.
    pub fn copy(&self) -> (res: Subscription)
        ensures
            res@ == self@,
    {
        Subscription {
            last_claim: self.last_claim,
            payment_token: self.payment_token.copy(),
            payment_nonce: self.payment_nonce,
            amount: self.amount.copy(),
            prev_amount: self.prev_amount.copy(),
            unsubscribed: self.unsubscribed,
        }
    }
}

/// Identifies a subscription: the subscriber and the service.
#[derive(Clone, Copy, PartialEq, Eq, Structural, Debug)]
pub struct SubId {
    pub address: Address,
    pub service_id: u64,
}

/// A discount coupon attached to a service.
#[derive(Debug)]
pub struct Discount {
    pub discount_type: DiscountType,
    pub owner: Address,
    pub payment_token: TokenId,
    pub payment_nonce: u64,
    pub percent: Amount,
    pub required_amount: Amount,
}

pub struct DiscountView {
    pub discount_type: DiscountType,
    pub owner: Address,
    pub payment_token: TokenView,
    pub payment_nonce: u64,
    pub percent: nat,
    pub required_amount: nat,
}

impl View for Discount {
    type V = DiscountView;

    open spec fn view(&self) -> DiscountView {
        DiscountView {
            discount_type: self.discount_type,
            owner: self.owner,
            payment_token: self.payment_token@,
            payment_nonce: self.payment_nonce,
            percent: self.percent@,
            required_amount: self.required_amount@,
        }
    }
}

impl Discount {
    /// A copy with the same view.
    pub fn copy(&self) -> (res: Discount)
        ensures
            res@ == self@,
    {
        Discount {
            discount_type: self.discount_type,
            owner: self.owner,
            payment_token: self.payment_token.copy(),
            payment_nonce: self.payment_nonce,
            percent: self.percent.copy(),
            required_amount: self.required_amount.copy(),
        }
    }
}

/// Tokens that come with a call.
#[derive(Debug)]
pub struct Payment {
    pub token: TokenId,
    pub nonce: u64,
    pub amount: Amount,
}

pub struct PaymentView {
    pub token: TokenView,
    pub nonce: u64,
    pub amount: nat,
}

impl View for Payment {
    type V = PaymentView;

    open spec fn view(&self) -> PaymentView {
        PaymentView { token: self.token@, nonce: self.nonce, amount: self.amount@ }
    }
}

/// Tokens the contract sends out as the result of a call.
#[derive(Debug)]
pub struct Transfer {
    pub to: Address,
    pub token: TokenId,
    pub nonce: u64,
    pub amount: Amount,
}

pub struct TransferView {
    pub to: Address,
    pub token: TokenView,
    pub nonce: u64,
    pub amount: nat,
}

impl View for Transfer {
    type V = TransferView;

    open spec fn view(&self) -> TransferView {
        TransferView { to: self.to, token: self.token@, nonce: self.nonce, amount: self.amount@ }
    }
}

/// View of an optional amount.
pub open spec fn opt_amount(o: Option<Amount>) -> Option<nat> {
    match o {
        Some(a) => Some(a@),
        None => None,
    }
}

/// View of an optional transfer.
pub open spec fn opt_transfer(o: Option<Transfer>) -> Option<TransferView> {
    match o {
        Some(t) => Some(t@),
        None => None,
    }
}

/// Why a call was refused. A refused call changes nothing.
#[derive(Clone, Copy, PartialEq, Eq, Structural, Debug)]
pub enum Error {
    /// "Contract is paused"
    ContractPaused,
    /// "Marketplace is paused"
    MarketplacePaused,
    /// "Endpoint can only be called by owner"
    OnlyOwner,
    /// "Invalid period type."
    InvalidPeriodType,
    /// "Payment period needs to be bigger than 0."
    PaymentPeriodZero,
    /// "Service price needs to be bigger than 0."
    PriceZero,
    /// "Service name needs to be under 64 bytes in length."
    ServiceNameTooLong,
    /// "Service webpage needs to be under 64 bytes in length."
    ServiceWebpageTooLong,
    /// "Service name needs to be under 65 in length."
    UpdatedServiceNameTooLong,
    /// "Service webpage needs to be under 65 in length."
    UpdatedServiceWebpageTooLong,
    /// "Service does not exist"
    ServiceDoesNotExist,
    /// "You are not the owner of this service."
    NotServiceOwner,
    /// "A nonce is needed if a new ticker has been provided."
    NonceNeeded,
    /// "Invalid percentage value, should be betwen 0 and 10,000."
    InvalidPercentage,
    /// "Only the service owner can end the service."
    OnlyOwnerCanEnd,
    /// "Incorrect payment token."
    IncorrectPaymentToken,
    /// "Incorrect payment token nonce."
    IncorrectPaymentNonce,
    /// "Insufficient amount."
    InsufficientAmount,
    /// "Subscription already exists"
    SubscriptionAlreadyExists,
    /// "Subscription does not exist"
    SubscriptionDoesNotExist,
    /// "Subscription doesn't exists"
    FundedSubscriptionMissing,
    /// "Cannot unsubscribe during active subscription."
    SubscriptionStillActive,
    /// "Only service owner can claim funds."
    OnlyOwnerCanClaim,
    /// "No payments to be claimed."
    NoPaymentsToClaim,
    /// "You can't retrieve more funds than you have."
    RetrieveMoreThanHeld,
    /// "You can't retrieve this amount."
    RetrieveBelowOwed,
    /// "Invalid discount type."
    InvalidDiscountType,
    /// "Coupon token amount needs to be bigger than 0."
    DiscountAmountZero,
    /// "Only service owner can manage service discounts."
    OnlyOwnerManagesDiscounts,
    /// "discount does not exist"
    DiscountDoesNotExist,
    /// A subscriber slot was read after it had been emptied during a claim
    /// (storage decoding of an address fails on the cleared entry).
    EmptySubscriberSlot,
    /// A time, a period count or a service id left the range of `u64`.
    ArithmeticOverflow,
    /// Persisted storage records break the storage's invariants.
    MalformedStorage,
}

/// The text with which the contract refuses a call for `e`.
pub open spec fn error_text(e: Error) -> Seq<char> {
    match e {
        Error::ContractPaused => "Contract is paused"@,
        Error::MarketplacePaused => "Marketplace is paused"@,
        Error::OnlyOwner => "Endpoint can only be called by owner"@,
        Error::InvalidPeriodType => "Invalid period type."@,
        Error::PaymentPeriodZero => "Payment period needs to be bigger than 0."@,
        Error::PriceZero => "Service price needs to be bigger than 0."@,
        Error::ServiceNameTooLong => "Service name needs to be under 64 bytes in length."@,
        Error::ServiceWebpageTooLong => "Service webpage needs to be under 64 bytes in length."@,
        Error::UpdatedServiceNameTooLong => "Service name needs to be under 65 in length."@,
        Error::UpdatedServiceWebpageTooLong => "Service webpage needs to be under 65 in length."@,
        Error::ServiceDoesNotExist => "Service does not exist"@,
        Error::NotServiceOwner => "You are not the owner of this service."@,
        Error::NonceNeeded => "A nonce is needed if a new ticker has been provided."@,
        Error::InvalidPercentage => "Invalid percentage value, should be betwen 0 and 10,000."@,
        Error::OnlyOwnerCanEnd => "Only the service owner can end the service."@,
        Error::IncorrectPaymentToken => "Incorrect payment token."@,
        Error::IncorrectPaymentNonce => "Incorrect payment token nonce."@,
        Error::InsufficientAmount => "Insufficient amount."@,
        Error::SubscriptionAlreadyExists => "Subscription already exists"@,
        Error::SubscriptionDoesNotExist => "Subscription does not exist"@,
        Error::FundedSubscriptionMissing => "Subscription doesn't exists"@,
        Error::SubscriptionStillActive => "Cannot unsubscribe during active subscription."@,
        Error::OnlyOwnerCanClaim => "Only service owner can claim funds."@,
        Error::NoPaymentsToClaim => "No payments to be claimed."@,
        Error::RetrieveMoreThanHeld => "You can't retrieve more funds than you have."@,
        Error::RetrieveBelowOwed => "You can't retrieve this amount."@,
        Error::InvalidDiscountType => "Invalid discount type."@,
        Error::DiscountAmountZero => "Coupon token amount needs to be bigger than 0."@,
        Error::OnlyOwnerManagesDiscounts => "Only service owner can manage service discounts."@,
        Error::DiscountDoesNotExist => "discount does not exist"@,
        Error::EmptySubscriberSlot => "Subscriber list entry is empty"@,
        Error::ArithmeticOverflow => "Arithmetic overflow"@,
        Error::MalformedStorage => "Malformed storage"@,
    }
}

impl Error {
    /// The text with which the contract refuses the call.
    pub fn message(&self) -> (res: &'static str)
        ensures
            res@ == error_text(*self),
    {
        match self {
            Error::ContractPaused => "Contract is paused",
            Error::MarketplacePaused => "Marketplace is paused",
            Error::OnlyOwner => "Endpoint can only be called by owner",
            Error::InvalidPeriodType => "Invalid period type.",
            Error::PaymentPeriodZero => "Payment period needs to be bigger than 0.",
            Error::PriceZero => "Service price needs to be bigger than 0.",
            Error::ServiceNameTooLong => "Service name needs to be under 64 bytes in length.",
            Error::ServiceWebpageTooLong => "Service webpage needs to be under 64 bytes in length.",
            Error::UpdatedServiceNameTooLong => "Service name needs to be under 65 in length.",
            Error::UpdatedServiceWebpageTooLong => "Service webpage needs to be under 65 in length.",
            Error::ServiceDoesNotExist => "Service does not exist",
            Error::NotServiceOwner => "You are not the owner of this service.",
            Error::NonceNeeded => "A nonce is needed if a new ticker has been provided.",
            Error::InvalidPercentage => "Invalid percentage value, should be betwen 0 and 10,000.",
            Error::OnlyOwnerCanEnd => "Only the service owner can end the service.",
            Error::IncorrectPaymentToken => "Incorrect payment token.",
            Error::IncorrectPaymentNonce => "Incorrect payment token nonce.",
            Error::InsufficientAmount => "Insufficient amount.",
            Error::SubscriptionAlreadyExists => "Subscription already exists",
            Error::SubscriptionDoesNotExist => "Subscription does not exist",
            Error::FundedSubscriptionMissing => "Subscription doesn't exists",
            Error::SubscriptionStillActive => "Cannot unsubscribe during active subscription.",
            Error::OnlyOwnerCanClaim => "Only service owner can claim funds.",
            Error::NoPaymentsToClaim => "No payments to be claimed.",
            Error::RetrieveMoreThanHeld => "You can't retrieve more funds than you have.",
            Error::RetrieveBelowOwed => "You can't retrieve this amount.",
            Error::InvalidDiscountType => "Invalid discount type.",
            Error::DiscountAmountZero => "Coupon token amount needs to be bigger than 0.",
            Error::OnlyOwnerManagesDiscounts => "Only service owner can manage service discounts.",
            Error::DiscountDoesNotExist => "discount does not exist",
            Error::EmptySubscriberSlot => "Subscriber list entry is empty",
            Error::ArithmeticOverflow => "Arithmetic overflow",
            Error::MalformedStorage => "Malformed storage",
        }
    }
}

} // verus!
