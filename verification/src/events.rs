//! The event the contract logs when a service is created.
use vstd::prelude::*;
use crate::amount::Amount;
use crate::state::NiftySubsState;
use crate::types::{Address, Service, ServiceView, TokenId, TokenView};

verus! {

/// Fields of the "create_service_event" log entry.
#[derive(Debug)]
pub struct CreateServiceEvent {
    pub owner: Address,
    pub service_id: u64,
    pub payment_token: TokenId,
    pub payment_nonce: u64,
    pub price: Amount,
    pub payment_period: u64,
    pub payments_total: Amount,
    pub contract_cut_percentage: Amount,
    pub service_name: Vec<u8>,
    pub service_webpage: Vec<u8>,
}

pub struct CreateServiceEventView {
    pub owner: Address,
    pub service_id: u64,
    pub payment_token: TokenView,
    pub payment_nonce: u64,
    pub price: nat,
    pub payment_period: u64,
    pub payments_total: nat,
    pub contract_cut_percentage: nat,
    pub service_name: Seq<u8>,
    pub service_webpage: Seq<u8>,
}

impl View for CreateServiceEvent {
    type V = CreateServiceEventView;

    open spec fn view(&self) -> CreateServiceEventView {
        CreateServiceEventView {
            owner: self.owner,
            service_id: self.service_id,
            payment_token: self.payment_token@,
            payment_nonce: self.payment_nonce,
            price: self.price@,
            payment_period: self.payment_period,
            payments_total: self.payments_total@,
            contract_cut_percentage: self.contract_cut_percentage@,
            service_name: self.service_name@,
            service_webpage: self.service_webpage@,
        }
    }
}

/// The event logged for service `service_id` with the given data.
pub open spec fn create_service_event(service_id: u64, s: ServiceView) -> CreateServiceEventView {
    CreateServiceEventView {
        owner: s.owner,
        service_id,
        payment_token: s.payment_token,
        payment_nonce: s.payment_nonce,
        price: s.price,
        payment_period: s.payment_period,
        payments_total: s.payments_total,
        contract_cut_percentage: s.contract_cut_percentage,
        service_name: s.service_name,
        service_webpage: s.service_webpage,
    }
}

/// Events the contract emits.
pub trait EventsModule {
    /// The "create_service_event" entry for a newly created service.
    fn emit_create_service_event(&self, service_id: u64, service: Service) -> CreateServiceEvent;
}

impl EventsModule for NiftySubsState {
    fn emit_create_service_event(&self, service_id: u64, service: Service) -> (res:
        CreateServiceEvent)
        ensures
            res@ == create_service_event(service_id, service@),
    {
        CreateServiceEvent {
            owner: service.owner,
            service_id,
            payment_token: service.payment_token,
            payment_nonce: service.payment_nonce,
            price: service.price,
            payment_period: service.payment_period,
            payments_total: service.payments_total,
            contract_cut_percentage: service.contract_cut_percentage,
            service_name: service.service_name,
            service_webpage: service.service_webpage,
        }
    }
}

} // verus!
