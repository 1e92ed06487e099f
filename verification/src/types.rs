//! The records that the contract keeps: reward plans, approved tokens,
//! stakes, the arguments of a stake and the history of reward claims.
use vstd::prelude::*;

use crate::table::{Duplicate, LookupTable};

verus! {

/// The key of a reward plan, such as "6months".
pub type APYKey = String;

/// The id of a stake.
pub type StakeId = u128;

/// A reward plan: the least amount and the least duration (in minutes) that
/// it accepts, and its interest rate in hundredths of a percent.
pub struct APY {
    pub apy_key: APYKey,
    pub min_staking_amount: u128,
    pub min_duration: u8,
    pub interest_rate: u16,
}

pub struct ApyView {
    pub apy_key: Seq<char>,
    pub min_staking_amount: u128,
    pub min_duration: u8,
    pub interest_rate: u16,
}

impl DeepView for APY {
    type V = ApyView;

    open spec fn deep_view(&self) -> ApyView {
        ApyView {
            apy_key: self.apy_key@,
            min_staking_amount: self.min_staking_amount,
            min_duration: self.min_duration,
            interest_rate: self.interest_rate,
        }
    }
}

impl Duplicate for APY {
    fn duplicate(&self) -> (copy: Self) {
        APY {
            apy_key: self.apy_key.clone(),
            min_staking_amount: self.min_staking_amount,
            min_duration: self.min_duration,
            interest_rate: self.interest_rate,
        }
    }
}

/// A fungible token that may be staked, with its reward plans by key.
pub struct FT {
    pub account_id: String,
    pub symbol: String,
    pub apy_against_duration: Option<LookupTable<APYKey, APY>>,
}

pub struct FtView {
    pub account_id: Seq<char>,
    pub symbol: Seq<char>,
    pub apy_against_duration: Option<Map<Seq<char>, ApyView>>,
}

impl DeepView for FT {
    type V = FtView;

    open spec fn deep_view(&self) -> FtView {
        FtView {
            account_id: self.account_id@,
            symbol: self.symbol@,
            apy_against_duration: self.apy_against_duration.deep_view(),
        }
    }
}

impl Duplicate for FT {
    fn duplicate(&self) -> (copy: Self) {
        let plans = match &self.apy_against_duration {
            Some(t) => Some(t.duplicate()),
            None => None,
        };
        FT { account_id: self.account_id.clone(), symbol: self.symbol.clone(), apy_against_duration: plans }
    }
}

/// Tokens locked by an account under a plan.
pub struct Stake {
    pub stake_id: StakeId,
    pub ft_symbol: String,
    pub ft_account_id: String,
    pub decimal: u8,
    pub amount: u128,
    /// Lock period in seconds.
    pub duration: u64,
    /// Seconds since the Unix epoch.
    pub staked_at: u64,
    pub staked_by: String,
    pub staking_plan: APYKey,
}

pub struct StakeView {
    pub stake_id: u128,
    pub ft_symbol: Seq<char>,
    pub ft_account_id: Seq<char>,
    pub decimal: u8,
    pub amount: u128,
    pub duration: u64,
    pub staked_at: u64,
    pub staked_by: Seq<char>,
    pub staking_plan: Seq<char>,
}

impl DeepView for Stake {
    type V = StakeView;

    open spec fn deep_view(&self) -> StakeView {
        StakeView {
            stake_id: self.stake_id,
            ft_symbol: self.ft_symbol@,
            ft_account_id: self.ft_account_id@,
            decimal: self.decimal,
            amount: self.amount,
            duration: self.duration,
            staked_at: self.staked_at,
            staked_by: self.staked_by@,
            staking_plan: self.staking_plan@,
        }
    }
}

impl Duplicate for Stake {
    fn duplicate(&self) -> (copy: Self) {
        Stake {
            stake_id: self.stake_id,
            ft_symbol: self.ft_symbol.clone(),
            ft_account_id: self.ft_account_id.clone(),
            decimal: self.decimal,
            amount: self.amount,
            duration: self.duration,
            staked_at: self.staked_at,
            staked_by: self.staked_by.clone(),
            staking_plan: self.staking_plan.clone(),
        }
    }
}

/// What a staker says about a stake when sending the tokens.
pub struct StakeArgs {
    pub ft_symbol: String,
    pub ft_account_id: String,
    pub decimal: u8,
    /// Lock period in seconds.
    pub duration: u64,
    pub staked_by: String,
    pub staking_plan: APYKey,
}

pub struct StakeArgsView {
    pub ft_symbol: Seq<char>,
    pub ft_account_id: Seq<char>,
    pub decimal: u8,
    pub duration: u64,
    pub staked_by: Seq<char>,
    pub staking_plan: Seq<char>,
}

impl DeepView for StakeArgs {
    type V = StakeArgsView;

    open spec fn deep_view(&self) -> StakeArgsView {
        StakeArgsView {
            ft_symbol: self.ft_symbol@,
            ft_account_id: self.ft_account_id@,
            decimal: self.decimal,
            duration: self.duration,
            staked_by: self.staked_by@,
            staking_plan: self.staking_plan@,
        }
    }
}

/// When the reward of a stake was last paid out, and how often.
#[derive(PartialEq, Eq, Structural, Clone, Copy, Debug)]
pub struct ClaimHistory {
    /// Seconds since the Unix epoch.
    pub last_claimed_at: u64,
    pub claim_count: u8,
}

impl DeepView for ClaimHistory {
    type V = ClaimHistory;

    open spec fn deep_view(&self) -> ClaimHistory {
        *self
    }
}

impl Duplicate for ClaimHistory {
    fn duplicate(&self) -> (copy: Self) {
        *self
    }
}

} // verus!
