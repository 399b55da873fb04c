//! The contract itself: deployment, the contract's cut for new services,
//! and pausing.
use vstd::prelude::*;
use crate::amount::Amount;
use crate::state::{ContractView, NiftySubsState, initial_view};
use crate::types::{Address, Error, PERCENTAGE_TOTAL};

verus! {

/// `try_set_contract_cut_percentage`: the new storage. The cut must lie
/// strictly between 0 and 100%.
pub open spec fn set_cut_spec(v: ContractView, new_cut_percentage: u64) -> Result<ContractView, Error> {
    if new_cut_percentage > 0 && new_cut_percentage < PERCENTAGE_TOTAL {
        Ok(ContractView { contract_cut_percentage: new_cut_percentage as nat, ..v })
    } else {
        Err(Error::InvalidPercentage)
    }
}

/// Endpoints of the contract as a whole.
pub trait NiftySubs: Sized {
    /// Storage of the contract deployed by `owner`.
    fn init(owner: Address) -> Self;

    /// Sets the cut for new services (contract owner only).
    fn set_contract_cut_percentage(&mut self, caller: Address, new_cut_percentage: u64) -> Result<
        (),
        Error,
    >;

    /// Sets the cut for new services.
    fn try_set_contract_cut_percentage(&mut self, new_cut_percentage: u64) -> Result<(), Error>;

    /// Pauses the contract (contract owner only).
    fn pause_endpoint(&mut self, caller: Address) -> Result<(), Error>;

    /// Unpauses the contract (contract owner only).
    fn unpause_endpoint(&mut self, caller: Address) -> Result<(), Error>;

    /// Whether the contract is paused.
    fn is_paused(&self) -> bool;
}

impl NiftySubs for NiftySubsState {
    fn init(owner: Address) -> (res: NiftySubsState)
        ensures
            res@ == initial_view(owner),
            res@.wf(),
    {
        NiftySubsState::new(owner)
    }

    fn set_contract_cut_percentage(&mut self, caller: Address, new_cut_percentage: u64) -> (res:
        Result<(), Error>)
        ensures
            final(self)@.wf(),
            caller != old(self)@.owner ==> res == Err::<(), Error>(Error::OnlyOwner) && final(self)@ == old(self)@,
            caller == old(self)@.owner ==> match set_cut_spec(old(self)@, new_cut_percentage) {
                Ok(v) => res is Ok && final(self)@ == v,
                Err(e) => res == Err::<(), Error>(e) && final(self)@ == old(self)@,
            },
    {
        self.wf_holds();
        if caller != self.contract_owner() {
            return Err(Error::OnlyOwner);
        }
        self.try_set_contract_cut_percentage(new_cut_percentage)
    }

    fn try_set_contract_cut_percentage(&mut self, new_cut_percentage: u64) -> (res: Result<
        (),
        Error,
    >)
        ensures
            final(self)@.wf(),
            match set_cut_spec(old(self)@, new_cut_percentage) {
                Ok(v) => res is Ok && final(self)@ == v,
                Err(e) => res == Err::<(), Error>(e) && final(self)@ == old(self)@,
            },
    {
        self.wf_holds();
        if !(new_cut_percentage > 0 && new_cut_percentage < PERCENTAGE_TOTAL) {
            return Err(Error::InvalidPercentage);
        }
        self.set_contract_cut(Amount::from_u64(new_cut_percentage));
        self.wf_holds();
        Ok(())
    }

    fn pause_endpoint(&mut self, caller: Address) -> (res: Result<(), Error>)
        ensures
            final(self)@.wf(),
            caller != old(self)@.owner ==> res == Err::<(), Error>(Error::OnlyOwner) && final(self)@ == old(self)@,
            caller == old(self)@.owner ==> res is Ok && final(self)@ == (ContractView {
                paused: true,
                ..old(self)@
            }),
    {
        self.wf_holds();
        if caller != self.contract_owner() {
            return Err(Error::OnlyOwner);
        }
        self.set_paused(true);
        self.wf_holds();
        Ok(())
    }

    fn unpause_endpoint(&mut self, caller: Address) -> (res: Result<(), Error>)
        ensures
            final(self)@.wf(),
            caller != old(self)@.owner ==> res == Err::<(), Error>(Error::OnlyOwner) && final(self)@ == old(self)@,
            caller == old(self)@.owner ==> res is Ok && final(self)@ == (ContractView {
                paused: false,
                ..old(self)@
            }),
    {
        self.wf_holds();
        if caller != self.contract_owner() {
            return Err(Error::OnlyOwner);
        }
        self.set_paused(false);
        self.wf_holds();
        Ok(())
    }

    fn is_paused(&self) -> (res: bool)
        ensures
            res == self@.paused,
    {
        self.paused_flag()
    }
}

} // verus!
