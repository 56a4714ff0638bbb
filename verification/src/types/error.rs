use vstd::prelude::*;
use crate::types::derivation::DerivationPath;

verus! {

/// The errors of this library.
#[derive(Clone, Copy, Debug, PartialEq, Eq, Structural)]
pub enum CommonError {
    NonStandardDerivationPath,
    NetworkDiscrepancy,
    EntityKindDiscrepancy,
    KeySpaceDiscrepancy,
    KeyKindDiscrepancy,
    FactorSourceDiscrepancy,
    CacheAlreadyContainsFactorInstance { derivation_path: DerivationPath },
    IndexOverflow,
    AddressConversionError,
    KeysCacheWriteGuard,
}

} // verus!
