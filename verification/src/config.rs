//! Global configuration: the protocol authority and the fee rate, created
//! exactly once and immutable afterwards.  The singleton is modelled as an
//! explicitly passed `Option`: the host owns the slot, the library fills it.

use vstd::prelude::*;
use crate::errors::ErrorCodes;

verus! {

/// Largest admissible fee rate: 10000 basis points is 100%.
pub const MAX_FEE_BASIS_POINTS: u16 = 10000;

/// Process-wide configuration, written once at initialization.  The authority
/// is an opaque integer identity.
#[derive(Clone, Copy, Debug, PartialEq, Eq, Structural)]
pub struct AmmState {
    /// Identity permitted to initialize the system.
    pub authority: u64,
    /// Fee charged on trades, in hundredths of a percent.
    pub lp_fees_basis_points: u16,
}

impl AmmState {
    /// The fee rate never exceeds 100%.
    pub open spec fn well_formed(self) -> bool {
        self.lp_fees_basis_points <= MAX_FEE_BASIS_POINTS
    }
}

/// One-time initialization: records the authority and the fee rate in the
/// empty configuration slot, and refuses to overwrite an existing one.
pub fn initialize_amm(state: &mut Option<AmmState>, authority: u64, lp_fees_basis_points: u16) -> (r:
    Result<(), ErrorCodes>)
    requires
        lp_fees_basis_points <= MAX_FEE_BASIS_POINTS,
    ensures
        (*old(state)) is None ==> r == Ok::<(), ErrorCodes>(()) && *final(state) == Some(
            AmmState { authority, lp_fees_basis_points },
        ) && (*final(state))->Some_0.well_formed(),
        (*old(state)) is Some ==> r == Err::<(), ErrorCodes>(ErrorCodes::AlreadyInitialized) && *final(state) == *old(state),
{
    match state {
        Option::None => {
            *state = Some(AmmState { authority, lp_fees_basis_points });
            Ok(())
        },
        Option::Some(_) => Err(ErrorCodes::AlreadyInitialized),
    }
}

} // verus!
