//! The ledger's outputs: their builders, their binary form, their storage deposit, and the
//! rules by which chain outputs pass from one transaction to the next.

pub mod account;
pub mod address;
pub mod basic;
pub mod codec;
pub mod decimal;
pub mod delegation;
pub mod dto;
pub mod error;
pub mod feature;
pub mod foundry;
pub mod ids;
pub mod output;
pub mod public_key;
pub mod rent;
pub mod token;
pub mod u256;
pub mod unlock_condition;

pub use account::{AccountBalance, AccountIdentifier, InclusionState, OutputKind};
pub use address::Address;
pub use basic::{BasicOutput, BasicOutputBuilder};
pub use delegation::{DelegationOutput, DelegationOutputBuilder};
pub use dto::{BasicOutputDto, DelegationOutputDto, FoundryOutputDto, OutputBuilderAmountDto, OutputDto};
pub use error::{Error, StateTransitionError};
pub use feature::{Feature, Features};
pub use foundry::{FoundryOutput, FoundryOutputBuilder, ValidationContext};
pub use ids::{AccountId, AliasId, DelegationId, Id32, NftId, OutputId, TransactionId};
pub use output::{ChainId, Output};
pub use public_key::{Ed25519PublicKey, PublicKey};
pub use rent::{OutputBuilderAmount, ProtocolParameters, RentStructure, ValidationParams};
pub use token::{FoundryId, NativeToken, NativeTokens, SimpleTokenScheme, TokenId, TokenScheme};
pub use u256::U256;
pub use unlock_condition::{UnlockCondition, UnlockConditions};
