//! The failures that an entry point reports before it changes any state.
use vstd::prelude::*;

verus! {

#[derive(Clone, Copy, Debug, PartialEq, Eq, Structural)]
pub enum Error {
    /// The account holds no balance record, or owns no record of the asset.
    AccountNotRegistered,
    /// A sum would leave the range of its integer type.
    Overflow,
    /// The account holds less than the amount asked for.
    InsufficientBalance,
    /// Sender and receiver are the same account.
    SameAccount,
    /// A transfer of nothing.
    NonPositiveAmount,
    /// The caller does not own the asset, or the contract.
    NotOwner,
    /// The caller holds no authorization, or not the one it named.
    Unauthorized,
    /// The asset's validity has lapsed.
    AssetExpired,
    /// Every copy of the asset has been issued.
    AssetExhausted,
    /// The call does not carry gas for the notification and the reconciliation.
    InsufficientExecutionBudget,
    /// The receiver lacks a prerequisite asset or event pass.
    DependencyNotSatisfied,
    /// The call must attach exactly one yoctoNEAR.
    RequiresOneYocto,
    /// The attached deposit does not cover the storage that the call uses.
    InsufficientDeposit,
    /// The identifier is not of the accepted form.
    InvalidId,
    /// No asset has this identifier.
    UnknownAsset,
    /// An asset or event with this identifier exists already.
    AlreadyExists,
    /// The marketplace is not on the contract's approved list.
    UnapprovedMarketplace,
    /// An account with a positive balance is unregistered without force.
    PositiveBalance,
    /// A metadata record fails its checks.
    InvalidMetadata,
    /// An objective index is out of range.
    InvalidObjective,
}

} // verus!
