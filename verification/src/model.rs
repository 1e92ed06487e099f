//! The contract as mathematics: its state, and what each call does to it.
use vstd::prelude::*;

use crate::actions::{
    CallbackView, ContractError, FtTransferView, StorageDepositView, TransferMemo, NANOS_PER_SECOND, ONE_MINUTE,
    STORAGE_DEPOSIT, TEN_THOUSAND,
};
use crate::registry::{register_account, RegistryView};
use crate::table::set_insert;
use crate::types::{ApyView, ClaimHistory, FtView, StakeArgsView, StakeView};

verus! {

/// The contract's state, with account ids and keys taken as character sequences.
#[verifier::ext_equal]
pub struct ContractView {
    pub owner_id: Seq<char>,
    pub approved_ft_token_ids: Seq<Seq<char>>,
    pub approved_fts: Map<Seq<char>, FtView>,
    pub staking_history: Map<Seq<char>, Seq<StakeView>>,
    pub staking_nonce: u128,
    pub claim_history: Map<u128, ClaimHistory>,
    pub registered_members: Map<Seq<char>, Seq<Seq<char>>>,
    pub depositted_for_storage: RegistryView,
}

/// What the second layout holds under a token's airdrop key.
pub enum AirdropRecordView {
    /// A list of members stored by the first layout, which the second layout
    /// cannot read as a set.
    FirstLayoutList(Seq<Seq<char>>),
    /// A set of members in the second layout.
    Members(Seq<Seq<char>>),
}

/// The state after the migration: members of airdrops are kept as sets.
#[verifier::ext_equal]
pub struct ContractV2View {
    pub owner_id: Seq<char>,
    pub approved_ft_token_ids: Seq<Seq<char>>,
    pub approved_fts: Map<Seq<char>, FtView>,
    pub staking_history: Map<Seq<char>, Seq<StakeView>>,
    pub staking_nonce: u128,
    pub claim_history: Map<u128, ClaimHistory>,
    pub registered_members: Map<Seq<char>, AirdropRecordView>,
    pub depositted_for_storage: RegistryView,
}

/// Whole seconds in a block timestamp given in nanoseconds.
pub open spec fn seconds(timestamp: u64) -> u64 {
    timestamp / NANOS_PER_SECOND
}

/// The stakes of `account`, or none if it never staked.
pub open spec fn history_of(c: ContractView, account: Seq<char>) -> Seq<StakeView> {
    if c.staking_history.contains_key(account) {
        c.staking_history[account]
    } else {
        Seq::empty()
    }
}

/// `i` is the first position in `stakes` of a stake with id `id`.
pub open spec fn first_with_id(stakes: Seq<StakeView>, id: u128, i: int) -> bool {
    &&& 0 <= i < stakes.len()
    &&& stakes[i].stake_id == id
    &&& forall|j: int| 0 <= j < i ==> #[trigger] stakes[j].stake_id != id
}

/// The first position of a stake with id `id`, if there is one.
pub open spec fn stake_position(stakes: Seq<StakeView>, id: u128) -> Option<int> {
    if exists|i: int| first_with_id(stakes, id, i) {
        Some(choose|i: int| first_with_id(stakes, id, i))
    } else {
        None
    }
}

/// The reward plan `plan` of the approved token `token`.
pub open spec fn plan_of(c: ContractView, token: Seq<char>, plan: Seq<char>) -> Result<ApyView, ContractError> {
    if !c.approved_fts.contains_key(token) {
        Err(ContractError::UnknownToken)
    } else {
        match c.approved_fts[token].apy_against_duration {
            None => Err(ContractError::NoApyPlans),
            Some(plans) => if plans.contains_key(plan) {
                Ok(plans[plan])
            } else {
                Err(ContractError::UnknownStakingPlan)
            },
        }
    }
}

/// The stake that `args` describe, made at `staked_at` seconds.
pub open spec fn new_stake(id: u128, args: StakeArgsView, amount: u128, staked_at: u64) -> StakeView {
    StakeView {
        stake_id: id,
        ft_symbol: args.ft_symbol,
        ft_account_id: args.ft_account_id,
        decimal: args.decimal,
        amount,
        duration: args.duration,
        staked_at,
        staked_by: args.staked_by,
        staking_plan: args.staking_plan,
    }
}

/// Staking `amount` tokens sent by `sender` through the token contract
/// `predecessor` at block time `now`, as the message that came with them
/// describes (`None` if it did not read as stake arguments): the stake gets
/// the next id and goes at the end of the sender's history, unless a check
/// refuses it.
pub open spec fn stake_outcome(
    c: ContractView,
    predecessor: Seq<char>,
    sender: Seq<char>,
    amount: u128,
    parsed: Option<StakeArgsView>,
    now: u64,
) -> Result<ContractView, ContractError> {
    if c.staking_nonce == u128::MAX {
        Err(ContractError::NonceOverflow)
    } else if parsed is None {
        Err(ContractError::InvalidStakingArguments)
    } else {
        let args = parsed->Some_0;
        match plan_of(c, args.ft_account_id, args.staking_plan) {
            Err(e) => Err(e),
            Ok(apy) => if !c.approved_ft_token_ids.contains(predecessor) {
                Err(ContractError::TokenNotApproved)
            } else if amount < apy.min_staking_amount {
                Err(ContractError::BelowMinimum { threshold: apy.min_staking_amount })
            } else if args.duration / ONE_MINUTE < apy.min_duration {
                Err(ContractError::InvalidDuration)
            } else {
                let id = (c.staking_nonce + 1) as u128;
                let stake = new_stake(id, args, amount, seconds(now));
                Ok(
                    ContractView {
                        staking_nonce: id,
                        staking_history: c.staking_history.insert(sender, history_of(c, sender).push(stake)),
                        ..c
                    },
                )
            },
        }
    }
}

/// Asking at block time `now` to unstake the stake `stake_id` of the caller
/// `predecessor`: the stake's tokens go back to the caller, and the stake is
/// dropped by `unstake_callback`.
pub open spec fn unstake_request(c: ContractView, predecessor: Seq<char>, stake_id: u128, now: u64) -> Result<
    FtTransferView,
    ContractError,
> {
    if !c.staking_history.contains_key(predecessor) {
        Err(ContractError::HistoryMissing)
    } else {
        match stake_position(c.staking_history[predecessor], stake_id) {
            None => Err(ContractError::StakeNotFound),
            Some(i) => {
                let stake = c.staking_history[predecessor][i];
                if stake.staked_by != predecessor {
                    Err(ContractError::NotOwnerUnstake)
                } else if stake.staked_at + stake.duration > u64::MAX {
                    Err(ContractError::ArithmeticOverflow)
                } else if seconds(now) < stake.staked_at + stake.duration {
                    Err(ContractError::Locked)
                } else {
                    Ok(
                        FtTransferView {
                            token_contract: stake.ft_account_id,
                            receiver_id: predecessor,
                            amount: stake.amount,
                            memo: TransferMemo::UnstakingWithReward,
                            callback: CallbackView::Unstake { stake_id, staker_id: predecessor },
                        },
                    )
                }
            },
        }
    }
}

/// Once the tokens are back, the stake leaves its staker's history.
pub open spec fn unstake_callback_outcome(c: ContractView, succeeded: bool, stake_id: u128, staker: Seq<char>) -> Result<
    ContractView,
    ContractError,
> {
    if !succeeded {
        Ok(c)
    } else if !c.staking_history.contains_key(staker) {
        Err(ContractError::HistoryMissing)
    } else {
        match stake_position(c.staking_history[staker], stake_id) {
            None => Err(ContractError::StakeMissing),
            Some(i) => Ok(
                ContractView {
                    staking_history: c.staking_history.insert(staker, c.staking_history[staker].remove(i)),
                    ..c
                },
            ),
        }
    }
}

/// Whole minutes since the stake was made (first claim) or since the last claim.
pub open spec fn elapsed_minutes(prior: Option<ClaimHistory>, stake: StakeView, now_seconds: u64) -> Result<
    u64,
    ContractError,
> {
    match prior {
        None => if now_seconds < stake.staked_at {
            Err(ContractError::ArithmeticOverflow)
        } else if (now_seconds - stake.staked_at) / (ONE_MINUTE as int) < 1 {
            Err(ContractError::TooEarlyFirstClaim)
        } else {
            Ok(((now_seconds - stake.staked_at) / (ONE_MINUTE as int)) as u64)
        },
        Some(h) => if now_seconds < h.last_claimed_at {
            Err(ContractError::ArithmeticOverflow)
        } else if (now_seconds - h.last_claimed_at) / (ONE_MINUTE as int) < 1 {
            Err(ContractError::TooEarlyNextClaim)
        } else {
            Ok(((now_seconds - h.last_claimed_at) / (ONE_MINUTE as int)) as u64)
        },
    }
}

/// The reward for `minutes` minutes of `amount` tokens at `rate` hundredths of a
/// percent, spread over the plan's least duration:
/// ((amount * rate / 100) / 10 * minutes) / min_duration, each division rounding down.
pub open spec fn reward_amount(amount: u128, rate: u16, minutes: u64, min_duration: u8) -> Result<u128, ContractError> {
    if amount * rate > u128::MAX {
        Err(ContractError::ArithmeticOverflow)
    } else if (amount * rate / 100) / 10 * minutes > u128::MAX {
        Err(ContractError::ArithmeticOverflow)
    } else if min_duration == 0 {
        Err(ContractError::DivisionByZero)
    } else {
        Ok(((amount * rate / 100) / 10 * minutes / (min_duration as int)) as u128)
    }
}

/// Asking at block time `now` for the reward of the stake `stake_id` of the
/// caller `predecessor`: the reward is sent, and recorded by `claim_reward_callback`.
pub open spec fn claim_request(c: ContractView, predecessor: Seq<char>, stake_id: u128, now: u64) -> Result<
    FtTransferView,
    ContractError,
> {
    if !c.staking_history.contains_key(predecessor) {
        Err(ContractError::NotStakedYet)
    } else {
        match stake_position(c.staking_history[predecessor], stake_id) {
            None => Err(ContractError::StakeNotFound),
            Some(i) => {
                let stake = c.staking_history[predecessor][i];
                let prior = c.claim_history.get(stake_id);
                if stake.staked_by != predecessor {
                    Err(ContractError::NotOwnerClaim)
                } else {
                    match elapsed_minutes(prior, stake, seconds(now)) {
                        Err(e) => Err(e),
                        Ok(minutes) => match plan_of(c, stake.ft_account_id, stake.staking_plan) {
                            Err(e) => Err(e),
                            Ok(apy) => match reward_amount(
                                stake.amount,
                                apy.interest_rate,
                                minutes,
                                apy.min_duration,
                            ) {
                                Err(e) => Err(e),
                                Ok(reward) => Ok(
                                    FtTransferView {
                                        token_contract: stake.ft_account_id,
                                        receiver_id: predecessor,
                                        amount: reward,
                                        memo: TransferMemo::RewardTokens,
                                        callback: CallbackView::ClaimReward {
                                            stake_id,
                                            claim_history: prior,
                                            claim_count: minutes,
                                        },
                                    },
                                ),
                            },
                        },
                    }
                }
            },
        }
    }
}

/// Once the reward is paid, the claim is recorded at block time `now`: a
/// first claim counts the minutes paid for (cut to a byte), a later one adds one.
pub open spec fn claim_callback_outcome(
    c: ContractView,
    succeeded: bool,
    stake_id: u128,
    prior: Option<ClaimHistory>,
    claim_count: u64,
    now: u64,
) -> Result<ContractView, ContractError> {
    if !succeeded {
        Ok(c)
    } else {
        match prior {
            None => Ok(
                ContractView {
                    claim_history: c.claim_history.insert(
                        stake_id,
                        ClaimHistory { last_claimed_at: seconds(now), claim_count: claim_count as u8 },
                    ),
                    ..c
                },
            ),
            Some(h) => if h.claim_count == u8::MAX {
                Err(ContractError::ArithmeticOverflow)
            } else {
                Ok(
                    ContractView {
                        claim_history: c.claim_history.insert(
                            stake_id,
                            ClaimHistory { last_claimed_at: seconds(now), claim_count: (h.claim_count + 1) as u8 },
                        ),
                        ..c
                    },
                )
            },
        }
    }
}

/// Paying `deposit` to register the caller for storage with `token`: the
/// deposit is forwarded to the token contract and the caller is registered
/// in the shared store of registrations.
pub open spec fn deposit_outcome(c: ContractView, predecessor: Seq<char>, deposit: u128, token: Seq<char>) -> Result<
    (ContractView, StorageDepositView),
    ContractError,
> {
    if deposit != STORAGE_DEPOSIT {
        Err(ContractError::WrongDeposit)
    } else {
        match register_account(c.depositted_for_storage, predecessor, token) {
            None => Err(ContractError::ArithmeticOverflow),
            Some(registrations) => Ok(
                (
                    ContractView { depositted_for_storage: registrations, ..c },
                    StorageDepositView { token_contract: token, account_id: predecessor, deposit },
                ),
            ),
        }
    }
}

/// The accounts that received the airdrop of `token`, in the order recorded.
pub open spec fn members_of(c: ContractView, token: Seq<char>) -> Seq<Seq<char>> {
    if c.registered_members.contains_key(token) {
        c.registered_members[token]
    } else {
        Seq::empty()
    }
}

/// Asking for the airdrop of `token` to `account`: refused if the account got it.
pub open spec fn drop_request(c: ContractView, account: Seq<char>, token: Seq<char>) -> Result<
    FtTransferView,
    ContractError,
> {
    if members_of(c, token).contains(account) {
        Err(ContractError::AlreadyClaimedDrop)
    } else {
        Ok(
            FtTransferView {
                token_contract: token,
                receiver_id: account,
                amount: TEN_THOUSAND,
                memo: TransferMemo::Airdrop,
                callback: CallbackView::DropFt { account_id: account, ft_contract_id: token },
            },
        )
    }
}

/// Once the airdrop arrived, the account is added at the end of the token's members.
pub open spec fn drop_callback_outcome(c: ContractView, succeeded: bool, account: Seq<char>, token: Seq<char>) -> ContractView {
    if !succeeded {
        c
    } else {
        ContractView {
            registered_members: c.registered_members.insert(token, members_of(c, token).push(account)),
            ..c
        }
    }
}

/// The plans that `apys` list by key; a later plan replaces an earlier one of the same key.
pub open spec fn apy_table(apys: Seq<ApyView>) -> Map<Seq<char>, ApyView>
    decreases apys.len(),
{
    if apys.len() == 0 {
        Map::empty()
    } else {
        apy_table(apys.drop_last()).insert(apys.last().apy_key, apys.last())
    }
}

/// `ft` with the plans `plans`.
pub open spec fn with_plans(ft: FtView, plans: Map<Seq<char>, ApyView>) -> FtView {
    FtView { apy_against_duration: Some(plans), ..ft }
}

/// `base` with the tokens `fts` added by account, each with the plans `plans`;
/// a later token replaces an earlier one of the same account.
pub open spec fn ft_table(base: Map<Seq<char>, FtView>, fts: Seq<FtView>, plans: Map<Seq<char>, ApyView>) -> Map<
    Seq<char>,
    FtView,
>
    decreases fts.len(),
{
    if fts.len() == 0 {
        base
    } else {
        ft_table(base, fts.drop_last(), plans).insert(fts.last().account_id, with_plans(fts.last(), plans))
    }
}

/// `base` followed by the accounts of `fts` that are not yet in it, in order
/// of first appearance, each once.
pub open spec fn token_ids(base: Seq<Seq<char>>, fts: Seq<FtView>) -> Seq<Seq<char>>
    decreases fts.len(),
{
    if fts.len() == 0 {
        base
    } else {
        set_insert(token_ids(base, fts.drop_last()), fts.last().account_id)
    }
}

/// A fresh contract owned by `owner` that accepts the tokens `fts`, each with the plans `apys`.
pub open spec fn initial_state(owner: Seq<char>, fts: Seq<FtView>, apys: Seq<ApyView>) -> ContractView {
    ContractView {
        owner_id: owner,
        approved_ft_token_ids: token_ids(Seq::empty(), fts),
        approved_fts: ft_table(Map::empty(), fts, apy_table(apys)),
        staking_history: Map::empty(),
        staking_nonce: 0,
        claim_history: Map::empty(),
        registered_members: Map::empty(),
        depositted_for_storage: RegistryView { indexed: Seq::empty(), slots: Seq::empty(), lens: Map::empty() },
    }
}

/// The migrated state: tokens, stakes, nonce, claims and storage
/// registrations carry over.  The airdrop members stay under their keys as
/// the lists the first layout stored, which the second layout cannot read as
/// sets.
pub open spec fn migrated(c: ContractView) -> ContractV2View {
    ContractV2View {
        owner_id: c.owner_id,
        approved_ft_token_ids: c.approved_ft_token_ids,
        approved_fts: c.approved_fts,
        staking_history: c.staking_history,
        staking_nonce: c.staking_nonce,
        claim_history: c.claim_history,
        registered_members: c.registered_members.map_values(
            |members: Seq<Seq<char>>| AirdropRecordView::FirstLayoutList(members),
        ),
        depositted_for_storage: c.depositted_for_storage,
    }
}

/// Every recorded stake has an id no greater than the nonce.
pub open spec fn stake_ids_bounded(c: ContractView) -> bool {
    forall|a: Seq<char>, i: int|
        #![trigger c.staking_history[a][i]]
        c.staking_history.contains_key(a) && 0 <= i < c.staking_history[a].len()
            ==> c.staking_history[a][i].stake_id <= c.staking_nonce
}

/// No two recorded stakes, of one account or of two, share an id.
pub open spec fn stake_ids_unique(c: ContractView) -> bool {
    forall|a: Seq<char>, b: Seq<char>, i: int, j: int|
        #![trigger c.staking_history[a][i], c.staking_history[b][j]]
        c.staking_history.contains_key(a) && c.staking_history.contains_key(b) && 0 <= i
            < c.staking_history[a].len() && 0 <= j < c.staking_history[b].len() && (a != b || i != j)
            ==> c.staking_history[a][i].stake_id != c.staking_history[b][j].stake_id
}

/// The stake ledger is consistent: ids are unique and none is beyond the nonce.
pub open spec fn ledger_consistent(c: ContractView) -> bool {
    stake_ids_bounded(c) && stake_ids_unique(c)
}

} // verus!
