//! Token staking: accounts lock fungible tokens under a plan, earn rewards
//! by the minute, unstake after the lock period and receive airdrops.
pub mod table;
pub mod types;
pub mod actions;
pub mod model;
pub mod registry;
pub mod contract;
pub mod laws;

pub use actions::{
    Callback, ContractError, FtTransfer, StorageDeposit, TransferMemo, NANOS_PER_SECOND, ONE_MINUTE, STORAGE_DEPOSIT,
    TEN_THOUSAND,
};
pub use contract::{AirdropRecord, Contract, ContractV2};
pub use registry::StorageRegistry;
pub use table::{AccountSet, LookupTable};
pub use types::{APYKey, ClaimHistory, Stake, StakeArgs, StakeId, APY, FT};
