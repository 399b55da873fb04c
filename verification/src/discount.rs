//! Discount coupons that a service owner attaches to a service.
use vstd::prelude::*;
use crate::amount::Amount;
use crate::collections::set_inserted;
use crate::service_spec::accepted_nonce;
use crate::state::{ContractView, NiftySubsState};
use crate::types::{Address, Discount, DiscountType, DiscountView, Error, TokenId, TokenView};

verus! {

/// `create_discount`: the new storage. The discount takes the id of its
/// service and replaces any discount stored there.
pub open spec fn create_discount_spec(
    v: ContractView,
    caller: Address,
    discount_type: DiscountType,
    payment_token: TokenView,
    payment_nonce: Option<u64>,
    percent: nat,
    amount: nat,
    service_id: u64,
) -> Result<ContractView, Error> {
    if v.paused {
        Err(Error::ContractPaused)
    } else if !(discount_type == DiscountType::Fixed || discount_type == DiscountType::Dynamic) {
        Err(Error::InvalidDiscountType)
    } else if amount == 0 {
        Err(Error::DiscountAmountZero)
    } else if !v.services.contains_key(service_id) {
        Err(Error::ServiceDoesNotExist)
    } else if v.services[service_id].owner != caller {
        Err(Error::OnlyOwnerManagesDiscounts)
    } else {
        Ok(
            ContractView {
                discounts: v.discounts.insert(
                    service_id,
                    DiscountView {
                        discount_type,
                        owner: caller,
                        payment_token,
                        payment_nonce: accepted_nonce(payment_token, payment_nonce),
                        percent,
                        required_amount: amount,
                    },
                ),
                discounts_by_address: v.discounts_by_address.insert(
                    caller,
                    set_inserted(v.discounts_by_address[caller], service_id),
                ),
                ..v
            },
        )
    }
}

/// Endpoints and views of service discounts.
pub trait DiscountModule {
    /// Creates a discount for a service (its owner only); returns its id,
    /// which is the service id.
    fn create_discount(
        &mut self,
        caller: Address,
        discount_type: DiscountType,
        payment_token: TokenId,
        payment_nonce: Option<u64>,
        percent: Amount,
        amount: Amount,
        service_id: u64,
    ) -> Result<u64, Error>;

    /// The discount stored under `discount_id`.
    fn try_get_discount(&self, discount_id: u64) -> Result<Discount, Error>;

    /// Stored discount data (the `discountById` storage entry).
    fn discount_by_id(&self, discount_id: u64) -> Option<Discount>;

    /// Ids of the discounts created by `address`.
    fn discounts_by_address(&self, address: Address) -> Vec<u64>;
}

impl DiscountModule for NiftySubsState {
    fn create_discount(
        &mut self,
        caller: Address,
        discount_type: DiscountType,
        payment_token: TokenId,
        payment_nonce: Option<u64>,
        percent: Amount,
        amount: Amount,
        service_id: u64,
    ) -> (res: Result<u64, Error>)
        ensures
            final(self)@.wf(),
            match res {
                Ok(id) => id == service_id && create_discount_spec(
                    old(self)@,
                    caller,
                    discount_type,
                    payment_token@,
                    payment_nonce,
                    percent@,
                    amount@,
                    service_id,
                ) == Ok::<ContractView, Error>(final(self)@),
                Err(e) => create_discount_spec(
                    old(self)@,
                    caller,
                    discount_type,
                    payment_token@,
                    payment_nonce,
                    percent@,
                    amount@,
                    service_id,
                ) == Err::<ContractView, Error>(e) && final(self)@ == old(self)@,
            },
    {
        self.wf_holds();
        if self.paused_flag() {
            return Err(Error::ContractPaused);
        }
        if !(discount_type == DiscountType::Fixed || discount_type == DiscountType::Dynamic) {
            return Err(Error::InvalidDiscountType);
        }
        if amount.is_zero() {
            return Err(Error::DiscountAmountZero);
        }
        let owner = match self.lookup_service(service_id) {
            Some(s) => s.owner,
            None => return Err(Error::ServiceDoesNotExist),
        };
        if owner != caller {
            return Err(Error::OnlyOwnerManagesDiscounts);
        }
        let accepted_payment_nonce = if payment_token.is_egld() {
            0
        } else {
            match payment_nonce {
                Some(n) => n,
                None => 0,
            }
        };
        let discount = Discount {
            discount_type,
            owner: caller,
            payment_token,
            payment_nonce: accepted_payment_nonce,
            percent,
            required_amount: amount,
        };
        self.set_discount(service_id, discount);
        self.discounts_by_address_insert(caller, service_id);
        self.wf_holds();
        Ok(service_id)
    }

    fn try_get_discount(&self, discount_id: u64) -> (res: Result<Discount, Error>)
        ensures
            match res {
                Ok(d) => self@.discounts.contains_key(discount_id) && d@
                    == self@.discounts[discount_id],
                Err(e) => e == Error::DiscountDoesNotExist && !self@.discounts.contains_key(
                    discount_id,
                ),
            },
    {
        match self.lookup_discount(discount_id) {
            Some(d) => Ok(d.copy()),
            None => Err(Error::DiscountDoesNotExist),
        }
    }

    fn discount_by_id(&self, discount_id: u64) -> (res: Option<Discount>)
        ensures
            match res {
                Some(d) => self@.discounts.contains_key(discount_id) && d@
                    == self@.discounts[discount_id],
                None => !self@.discounts.contains_key(discount_id),
            },
    {
        match self.lookup_discount(discount_id) {
            Some(d) => Some(d.copy()),
            None => None,
        }
    }

    fn discounts_by_address(&self, address: Address) -> (res: Vec<u64>)
        ensures
            res@ == self@.discounts_by_address[address],
    {
        self.discount_ids_of(&address)
    }
}

} // verus!
