use vstd::prelude::*;

verus! {

/// Failures of construction, validation and decoding of outputs.
#[derive(Debug, Clone, Copy, PartialEq, Eq)]
pub enum Error {
    /// The input ended before a complete value was read.
    UnexpectedEnd,
    /// Bytes were left over after a complete value was read.
    TrailingBytes,
    InvalidOutputKind(u8),
    InvalidAddressKind(u8),
    InvalidUnlockConditionKind(u8),
    InvalidFeatureKind(u8),
    InvalidTokenSchemeKind(u8),
    /// An amount is larger than the token supply.
    InvalidOutputAmount(u64),
    InvalidStorageDepositAmount(u64),
    MissingAddressUnlockCondition,
    DisallowedUnlockCondition { index: usize, kind: u8 },
    DisallowedFeature { index: usize, kind: u8 },
    InvalidFoundryZeroSerialNumber,
    UnlockConditionsNotUniqueSorted,
    FeaturesNotUniqueSorted,
    NativeTokensNotUniqueSorted,
    InvalidNativeTokenCount(u8),
    NativeTokensNullAmount,
    InvalidMetadataFeatureLength(u16),
    InvalidTagFeatureLength(u8),
    /// A feature holds more or fewer bytes than its kind allows.
    InvalidFeatureLength,
    InvalidFoundryOutputSupply,
    /// A decimal field of a transport record could not be read.
    InvalidField(&'static str),
}

/// Reasons for which a chain output's state transition is rejected.
#[derive(Debug, Clone, Copy, PartialEq, Eq)]
pub enum StateTransitionError {
    MutatedImmutableField,
    NonMonotonicallyIncreasingNativeTokens,
    InconsistentNativeTokensMint,
    InconsistentNativeTokensTransition,
    InconsistentNativeTokensMeltBurn,
    InconsistentNativeTokensFoundryCreation,
    InconsistentNativeTokensFoundryDestruction,
    InconsistentFoundrySerialNumber,
    MissingAliasForFoundry,
}

} // verus!
