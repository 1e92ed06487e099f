//! What the contract answers: the reasons it refuses a call, and the
//! cross-contract calls it asks the runtime to make.
use vstd::prelude::*;

use crate::types::{ClaimHistory, StakeId};

verus! {

/// The storage deposit, in yoctoNEAR, that `deposit_for_storage` expects (0.00859 NEAR).
pub const STORAGE_DEPOSIT: u128 = 8590000000000000000000;

/// The airdrop that `drop_ft` sends: ten thousand tokens of 24 decimals.
pub const TEN_THOUSAND: u128 = 10000000000000000000000000000;

/// Seconds in a minute, the unit of durations and reward periods.
pub const ONE_MINUTE: u64 = 60;

/// Nanoseconds in a second: block timestamps are in nanoseconds.
pub const NANOS_PER_SECOND: u64 = 1000000000;

/// Why the contract refuses a call.
#[derive(PartialEq, Eq, Structural, Clone, Copy, Debug)]
pub enum ContractError {
    /// The stake nonce cannot grow any further.
    NonceOverflow,
    /// The message sent with the tokens does not describe a stake.
    InvalidStakingArguments,
    /// The token contract named is not among the approved tokens' records.
    UnknownToken,
    /// The token has no reward plans.
    NoApyPlans,
    /// The token has no plan under the key given.
    UnknownStakingPlan,
    /// The tokens were not sent by an approved token contract.
    TokenNotApproved,
    /// Fewer tokens than the plan's least amount.
    BelowMinimum { threshold: u128 },
    /// A lock period shorter than the plan's least duration.
    InvalidDuration,
    /// Unstaking: the caller has no staking history.
    HistoryMissing,
    /// Claiming: the caller has no staking history.
    NotStakedYet,
    /// The caller has no stake with the id given.
    StakeNotFound,
    /// Unstake confirmation: the stake is no longer in the staker's history.
    StakeMissing,
    /// Unstaking a stake that someone else made.
    NotOwnerUnstake,
    /// Claiming the reward of a stake that someone else made.
    NotOwnerClaim,
    /// Unstaking before the lock period has passed.
    Locked,
    /// A first claim less than a minute after staking.
    TooEarlyFirstClaim,
    /// A claim less than a minute after the last one.
    TooEarlyNextClaim,
    /// An integer result outside its type.
    ArithmeticOverflow,
    /// A reward plan with a least duration of zero.
    DivisionByZero,
    /// The deposit attached to a storage registration is not `STORAGE_DEPOSIT`.
    WrongDeposit,
    /// The account already received the airdrop of this token.
    AlreadyClaimedDrop,
    /// A call that only the owner may make.
    OwnerOnly,
    /// A migration called by someone else than the owner.
    MigrationByNonOwner,
}

/// The memo that goes with a token transfer.
#[derive(PartialEq, Eq, Structural, Clone, Copy, Debug)]
pub enum TransferMemo {
    UnstakingWithReward,
    RewardTokens,
    Airdrop,
}

/// The call back to this contract that follows a token transfer.
pub enum Callback {
    Unstake { stake_id: StakeId, staker_id: String },
    ClaimReward { stake_id: StakeId, claim_history: Option<ClaimHistory>, claim_count: u64 },
    DropFt { account_id: String, ft_contract_id: String },
}

pub enum CallbackView {
    Unstake { stake_id: u128, staker_id: Seq<char> },
    ClaimReward { stake_id: u128, claim_history: Option<ClaimHistory>, claim_count: u64 },
    DropFt { account_id: Seq<char>, ft_contract_id: Seq<char> },
}

impl DeepView for Callback {
    type V = CallbackView;

    open spec fn deep_view(&self) -> CallbackView {
        match self {
            Callback::Unstake { stake_id, staker_id } => CallbackView::Unstake {
                stake_id: *stake_id,
                staker_id: staker_id@,
            },
            Callback::ClaimReward { stake_id, claim_history, claim_count } => CallbackView::ClaimReward {
                stake_id: *stake_id,
                claim_history: *claim_history,
                claim_count: *claim_count,
            },
            Callback::DropFt { account_id, ft_contract_id } => CallbackView::DropFt {
                account_id: account_id@,
                ft_contract_id: ft_contract_id@,
            },
        }
    }
}

/// A transfer of `amount` tokens of `token_contract` to `receiver_id`
/// (with one yoctoNEAR attached), followed by the call back `callback`.
pub struct FtTransfer {
    pub token_contract: String,
    pub receiver_id: String,
    pub amount: u128,
    pub memo: TransferMemo,
    pub callback: Callback,
}

pub struct FtTransferView {
    pub token_contract: Seq<char>,
    pub receiver_id: Seq<char>,
    pub amount: u128,
    pub memo: TransferMemo,
    pub callback: CallbackView,
}

impl DeepView for FtTransfer {
    type V = FtTransferView;

    open spec fn deep_view(&self) -> FtTransferView {
        FtTransferView {
            token_contract: self.token_contract@,
            receiver_id: self.receiver_id@,
            amount: self.amount,
            memo: self.memo,
            callback: self.callback.deep_view(),
        }
    }
}

/// A storage registration of `account_id` with `token_contract`, paid with `deposit`.
pub struct StorageDeposit {
    pub token_contract: String,
    pub account_id: String,
    pub deposit: u128,
}

pub struct StorageDepositView {
    pub token_contract: Seq<char>,
    pub account_id: Seq<char>,
    pub deposit: u128,
}

impl DeepView for StorageDeposit {
    type V = StorageDepositView;

    open spec fn deep_view(&self) -> StorageDepositView {
        StorageDepositView {
            token_contract: self.token_contract@,
            account_id: self.account_id@,
            deposit: self.deposit,
        }
    }
}

/// `result` is what `expected` describes: the same error, or a value with that deep view.
pub open spec fn answers<T: DeepView>(result: Result<T, ContractError>, expected: Result<T::V, ContractError>) -> bool {
    match result {
        Ok(v) => expected == Ok::<T::V, ContractError>(v.deep_view()),
        Err(e) => expected == Err::<T::V, ContractError>(e),
    }
}

} // verus!
