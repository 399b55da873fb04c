//! A guard that refuses calls while the contract is paused.
use vstd::prelude::*;
use crate::state::NiftySubsState;
use crate::types::Error;

verus! {

/// Shared checks.
pub trait CommonUtilFunctions {
    /// Refuses with `MarketplacePaused` while the contract is paused.
    fn require_not_paused(&self) -> Result<(), Error>;
}

impl CommonUtilFunctions for NiftySubsState {
    fn require_not_paused(&self) -> (res: Result<(), Error>)
        ensures
            res == (if self@.paused {
                Err(Error::MarketplacePaused)
            } else {
                Ok(())
            }),
    {
        if self.paused_flag() {
            Err(Error::MarketplacePaused)
        } else {
            Ok(())
        }
    }
}

} // verus!
