//! The staking contract: its state and the calls it answers.
//!
//! Each call takes what the runtime tells about it (the calling account, the
//! block time, the attached deposit, whether the awaited transfer succeeded)
//! as arguments, and hands back the transfer or registration to make.  A
//! refused call leaves the state as it was.
use vstd::prelude::*;

use crate::actions::{
    answers, Callback, ContractError, FtTransfer, StorageDeposit, TransferMemo, NANOS_PER_SECOND, ONE_MINUTE,
    STORAGE_DEPOSIT, TEN_THOUSAND,
};
use crate::model::{
    apy_table, claim_callback_outcome, claim_request, deposit_outcome, drop_callback_outcome, drop_request,
    first_with_id, ft_table, history_of, initial_state, members_of, migrated, new_stake, plan_of, stake_outcome,
    stake_position, token_ids, unstake_callback_outcome, unstake_request, with_plans, AirdropRecordView, ContractV2View,
    ContractView,
};
use crate::registry::{registered_with, set_members, StorageRegistry};
use crate::table::{AccountSet, Duplicate, LookupTable};
use crate::types::{ApyView, ClaimHistory, FtView, Stake, StakeArgs, StakeId, StakeView, APY, FT};

verus! {

/// The state of the staking contract.
pub struct Contract {
    pub owner_id: String,
    /// The token contracts whose tokens may be staked.
    pub approved_ft_token_ids: AccountSet,
    /// The approved tokens with their reward plans, by token contract.
    pub approved_fts: LookupTable<String, FT>,
    /// The stakes of each account, oldest first.
    pub staking_history: LookupTable<String, Vec<Stake>>,
    /// The id of the latest stake.
    pub staking_nonce: u128,
    /// The reward claims of each stake.
    pub claim_history: LookupTable<StakeId, ClaimHistory>,
    /// The accounts that received each token's airdrop, in order of arrival.
    pub registered_members: LookupTable<String, Vec<String>>,
    /// The registrations for storage with token contracts, in their shared store.
    pub depositted_for_storage: StorageRegistry,
}

impl View for Contract {
    type V = ContractView;

    open spec fn view(&self) -> ContractView {
        ContractView {
            owner_id: self.owner_id@,
            approved_ft_token_ids: self.approved_ft_token_ids.ids(),
            approved_fts: self.approved_fts.table(),
            staking_history: self.staking_history.table(),
            staking_nonce: self.staking_nonce,
            claim_history: self.claim_history.table(),
            registered_members: self.registered_members.table(),
            depositted_for_storage: self.depositted_for_storage@,
        }
    }
}

/// The position of the first stake in `stakes` with id `id`.
fn stake_index(stakes: &Vec<Stake>, id: StakeId) -> (pos: Option<usize>)
    ensures
        match pos {
            Some(i) => i < stakes.len() && stake_position(stakes.deep_view(), id) == Some(i as int),
            None => stake_position(stakes.deep_view(), id) is None,
        },
{
    let ghost s = stakes.deep_view();
    let mut i: usize = 0;
    while i < stakes.len()
        invariant
            i <= stakes.len(),
            s == stakes.deep_view(),
            forall|j: int| 0 <= j < i ==> #[trigger] s[j].stake_id != id,
        decreases stakes.len() - i,
    {
        if stakes[i].stake_id == id {
            proof {
                assert(first_with_id(s, id, i as int));
                let k = choose|k: int| first_with_id(s, id, k);
                if k < i {
                    assert(s[k].stake_id != id);
                }
                if i < k {
                    assert(s[i as int].stake_id != id);
                }
            }
            return Some(i);
        }
        i = i + 1;
    }
    None
}

/// Whether `account` is in `list`.
fn list_contains(list: &Vec<String>, account: &String) -> (found: bool)
    ensures
        found == list.deep_view().contains(account@),
{
    let ghost s = list.deep_view();
    let mut i: usize = 0;
    while i < list.len()
        invariant
            i <= list.len(),
            s == list.deep_view(),
            forall|j: int| 0 <= j < i ==> #[trigger] s[j] != account@,
        decreases list.len() - i,
    {
        if list[i] == *account {
            assert(s[i as int] == account@);
            return true;
        }
        i = i + 1;
    }
    false
}

/// The airdrop members of the first layout, each list kept under its key as
/// a stored list of that layout.
fn first_layout_records(members: &LookupTable<String, Vec<String>>) -> (records: LookupTable<String, AirdropRecord>)
    ensures
        records.table() == members.table().map_values(
            |list: Seq<Seq<char>>| AirdropRecordView::FirstLayoutList(list),
        ),
{
    let entries = members.entries();
    let mut records: LookupTable<String, AirdropRecord> = LookupTable::new();
    let mut i: usize = 0;
    while i < entries.len()
        invariant
            i <= entries.len(),
            forall|j: int|
                #![trigger entries@[j]]
                0 <= j < entries.len() ==> {
                    &&& members.table().contains_key(entries@[j].0.deep_view())
                    &&& members.table()[entries@[j].0.deep_view()] == entries@[j].1.deep_view()
                },
            forall|k: Seq<char>|
                #[trigger] records.table().contains_key(k) ==> members.table().contains_key(k)
                    && records.table()[k] == AirdropRecordView::FirstLayoutList(members.table()[k]),
            forall|j: int| 0 <= j < i ==> records.table().contains_key(#[trigger] entries@[j].0.deep_view()),
        decreases entries.len() - i,
    {
        let key = entries[i].0.clone();
        let list = entries[i].1.duplicate();
        records.insert(key, AirdropRecord::FirstLayoutList(list));
        i = i + 1;
    }
    proof {
        let expected = members.table().map_values(|list: Seq<Seq<char>>| AirdropRecordView::FirstLayoutList(list));
        assert forall|k: Seq<char>| #[trigger] expected.contains_key(k) implies records.table().contains_key(k) by {
            let j = choose|j: int| 0 <= j < entries.len() && #[trigger] entries@[j].0.deep_view() == k;
            assert(records.table().contains_key(entries@[j].0.deep_view()));
        }
        assert(records.table() =~= expected);
    }
    records
}

impl Contract {
    /// The reward plan `plan` of the approved token `token`.
    fn plan(&self, token: &String, plan: &String) -> (found: Result<&APY, ContractError>)
        ensures
            match found {
                Ok(apy) => plan_of(self@, token@, plan@) == Ok::<ApyView, ContractError>(apy.deep_view()),
                Err(e) => plan_of(self@, token@, plan@) == Err::<ApyView, ContractError>(e),
            },
    {
        match self.approved_fts.get(token) {
            None => Err(ContractError::UnknownToken),
            Some(ft) => match &ft.apy_against_duration {
                None => Err(ContractError::NoApyPlans),
                Some(plans) => match plans.get(plan) {
                    None => Err(ContractError::UnknownStakingPlan),
                    Some(apy) => Ok(apy),
                },
            },
        }
    }

    /// Records the stake of `amount` tokens that `sender_id` sent through the
    /// token contract `predecessor`, as the arguments read from the message
    /// sent with them describe it (`None` if the message did not read as stake
    /// arguments), at block time `block_timestamp` (nanoseconds).  On success
    /// every token is kept: the amount to hand back is 0.
    pub fn ft_on_transfer(
        &mut self,
        predecessor: &String,
        sender_id: String,
        amount: u128,
        parsed: Option<StakeArgs>,
        block_timestamp: u64,
    ) -> (refund: Result<u128, ContractError>)
        ensures
            match refund {
                Ok(unused) => unused == 0 && stake_outcome(
                    old(self)@,
                    predecessor@,
                    sender_id@,
                    amount,
                    parsed.deep_view(),
                    block_timestamp,
                ) == Ok::<ContractView, ContractError>(final(self)@),
                Err(e) => stake_outcome(
                    old(self)@,
                    predecessor@,
                    sender_id@,
                    amount,
                    parsed.deep_view(),
                    block_timestamp,
                ) == Err::<ContractView, ContractError>(e) && final(self)@ == old(self)@,
            },
    {
        if self.staking_nonce == u128::MAX {
            return Err(ContractError::NonceOverflow);
        }
        let staking_id = self.staking_nonce + 1;
        let args = match parsed {
            None => {
                return Err(ContractError::InvalidStakingArguments);
            },
            Some(a) => a,
        };
        let staked_at = block_timestamp / NANOS_PER_SECOND;
        let (threshold, min_duration) = match self.plan(&args.ft_account_id, &args.staking_plan) {
            Ok(apy) => (apy.min_staking_amount, apy.min_duration),
            Err(e) => {
                return Err(e);
            },
        };
        if !self.approved_ft_token_ids.contains(predecessor) {
            return Err(ContractError::TokenNotApproved);
        }
        if amount < threshold {
            return Err(ContractError::BelowMinimum { threshold });
        }
        if args.duration / ONE_MINUTE < min_duration as u64 {
            return Err(ContractError::InvalidDuration);
        }
        let ghost before = self@;
        let ghost args_view = args.deep_view();
        let stake = Stake {
            stake_id: staking_id,
            ft_symbol: args.ft_symbol,
            ft_account_id: args.ft_account_id,
            decimal: args.decimal,
            amount,
            duration: args.duration,
            staked_at,
            staked_by: args.staked_by,
            staking_plan: args.staking_plan,
        };
        assert(stake.deep_view() == new_stake(staking_id, args_view, amount, staked_at));
        let mut history = match self.staking_history.remove(&sender_id) {
            Some(h) => h,
            None => Vec::new(),
        };
        let ghost earlier = history.deep_view();
        assert(earlier =~= history_of(before, sender_id@));
        history.push(stake);
        assert(history.deep_view() =~= earlier.push(new_stake(staking_id, args_view, amount, staked_at)));
        self.staking_history.insert(sender_id, history);
        self.staking_nonce = staking_id;
        proof {
            let expected = stake_outcome(before, predecessor@, sender_id@, amount, Some(args_view), block_timestamp);
            assert(self@.staking_history =~= expected->Ok_0.staking_history);
            assert(self@ =~= expected->Ok_0);
        }
        Ok(0)
    }

    /// The transfer that hands the stake `stake_id` back to the caller
    /// `predecessor` once its lock period is over at block time `block_timestamp`.
    pub fn ft_unstake(&self, predecessor: &String, stake_id: StakeId, block_timestamp: u64) -> (transfer: Result<
        FtTransfer,
        ContractError,
    >)
        ensures
            answers(transfer, unstake_request(self@, predecessor@, stake_id, block_timestamp)),
    {
        let history = match self.staking_history.get(predecessor) {
            None => {
                return Err(ContractError::HistoryMissing);
            },
            Some(h) => h,
        };
        let i = match stake_index(history, stake_id) {
            None => {
                return Err(ContractError::StakeNotFound);
            },
            Some(i) => i,
        };
        let stake = &history[i];
        assert(stake.deep_view() == history.deep_view()[i as int]);
        let current_time = block_timestamp / NANOS_PER_SECOND;
        if !(stake.staked_by == *predecessor) {
            return Err(ContractError::NotOwnerUnstake);
        }
        let unlock_at = match stake.staked_at.checked_add(stake.duration) {
            None => {
                return Err(ContractError::ArithmeticOverflow);
            },
            Some(t) => t,
        };
        if current_time < unlock_at {
            return Err(ContractError::Locked);
        }
        Ok(
            FtTransfer {
                token_contract: stake.ft_account_id.clone(),
                receiver_id: predecessor.clone(),
                amount: stake.amount,
                memo: TransferMemo::UnstakingWithReward,
                callback: Callback::Unstake { stake_id, staker_id: predecessor.clone() },
            },
        )
    }

    /// A fresh contract owned by `owner_id` that accepts the tokens
    /// `approved_ft_token_ids`, each with the reward plans `ft_apy`.
    pub fn new(owner_id: String, approved_ft_token_ids: Vec<FT>, ft_apy: Vec<APY>) -> (contract: Contract)
        ensures
            contract@ == initial_state(owner_id@, approved_ft_token_ids.deep_view(), ft_apy.deep_view()),
    {
        let mut this = Contract {
            owner_id,
            approved_ft_token_ids: AccountSet::new(),
            approved_fts: LookupTable::new(),
            staking_history: LookupTable::new(),
            staking_nonce: 0,
            claim_history: LookupTable::new(),
            registered_members: LookupTable::new(),
            depositted_for_storage: StorageRegistry::new(),
        };
        let ghost fts = approved_ft_token_ids.deep_view();
        let ghost apys = ft_apy.deep_view();
        Contract::add_fts(approved_ft_token_ids, &mut this.approved_fts, &mut this.approved_ft_token_ids, ft_apy);
        proof {
            assert(this@ =~= initial_state(this.owner_id@, fts, apys));
        }
        this
    }

    /// Adds each of `approved_ft_token_ids`, with the plans `ft_apy`, to the
    /// approved tokens `set` and their accounts to `ft_accounts`.
    pub fn add_fts(
        approved_ft_token_ids: Vec<FT>,
        set: &mut LookupTable<String, FT>,
        ft_accounts: &mut AccountSet,
        ft_apy: Vec<APY>,
    )
        ensures
            final(set).table() == ft_table(
                old(set).table(),
                approved_ft_token_ids.deep_view(),
                apy_table(ft_apy.deep_view()),
            ),
            final(ft_accounts).ids() == token_ids(old(ft_accounts).ids(), approved_ft_token_ids.deep_view()),
    {
        let ghost fts = approved_ft_token_ids.deep_view();
        let ghost plans = apy_table(ft_apy.deep_view());
        let ghost base_table = set.table();
        let ghost base_ids = ft_accounts.ids();
        let mut i: usize = 0;
        assert(fts.take(0) =~= Seq::<FtView>::empty());
        while i < approved_ft_token_ids.len()
            invariant
                i <= approved_ft_token_ids.len(),
                fts == approved_ft_token_ids.deep_view(),
                plans == apy_table(ft_apy.deep_view()),
                set.table() == ft_table(base_table, fts.take(i as int), plans),
                ft_accounts.ids() == token_ids(base_ids, fts.take(i as int)),
            decreases approved_ft_token_ids.len() - i,
        {
            let mut ft = approved_ft_token_ids[i].duplicate();
            let apy_map = Contract::insert_apy(ft_apy.duplicate());
            ft.apy_against_duration = Some(apy_map);
            assert(ft.deep_view() == with_plans(fts[i as int], plans));
            let account = ft.account_id.clone();
            let id_for_set = ft.account_id.clone();
            set.insert(account, ft);
            ft_accounts.insert(id_for_set);
            assert(fts.take(i + 1).drop_last() =~= fts.take(i as int));
            i = i + 1;
        }
        assert(fts.take(fts.len() as int) =~= fts);
    }

    /// The plans `ft_apy` by key; a later plan replaces an earlier one of the same key.
    pub fn insert_apy(ft_apy: Vec<APY>) -> (plans: LookupTable<String, APY>)
        ensures
            plans.table() == apy_table(ft_apy.deep_view()),
    {
        let ghost apys = ft_apy.deep_view();
        let mut temp: LookupTable<String, APY> = LookupTable::new();
        let mut i: usize = 0;
        assert(apys.take(0) =~= Seq::<ApyView>::empty());
        while i < ft_apy.len()
            invariant
                i <= ft_apy.len(),
                apys == ft_apy.deep_view(),
                temp.table() == apy_table(apys.take(i as int)),
            decreases ft_apy.len() - i,
        {
            let apy = ft_apy[i].duplicate();
            let key = apy.apy_key.clone();
            temp.insert(key, apy);
            assert(apys.take(i + 1).drop_last() =~= apys.take(i as int));
            i = i + 1;
        }
        assert(apys.take(apys.len() as int) =~= apys);
        temp
    }

    /// Whether `predecessor` owns the contract.
    pub fn is_owner(&self, predecessor: &String) -> (owner: bool)
        ensures
            owner == (predecessor@ == self@.owner_id),
    {
        *predecessor == self.owner_id
    }

    /// Refuses every caller but the owner.
    pub fn assert_owner(&self, predecessor: &String) -> (checked: Result<(), ContractError>)
        ensures
            checked is Ok <==> predecessor@ == self@.owner_id,
            checked matches Err(e) ==> e == ContractError::OwnerOnly,
    {
        if self.is_owner(predecessor) {
            Ok(())
        } else {
            Err(ContractError::OwnerOnly)
        }
    }

    /// The stakes of `account_id`, oldest first (none if it never staked).
    /// The page bounds `from_index` and `limit` only need to add up within `u128`.
    pub fn get_staking_history(&self, account_id: &String, from_index: Option<u128>, limit: Option<u64>) -> (stakes:
        Vec<Stake>)
        requires
            self@.staking_history.contains_key(account_id@) ==> (match from_index {
                Some(f) => f as int,
                None => 0int,
            }) + (match limit {
                Some(l) => l as int,
                None => 0int,
            }) <= u128::MAX,
        ensures
            stakes.deep_view() == history_of(self@, account_id@),
    {
        match self.staking_history.get(account_id) {
            None => {
                let empty: Vec<Stake> = Vec::new();
                assert(empty.deep_view() =~= Seq::<StakeView>::empty());
                empty
            },
            Some(owner_stakes) => owner_stakes.duplicate(),
        }
    }

    /// The claims recorded for the stake `stake_id`.
    pub fn get_claim_history(&self, stake_id: StakeId) -> (claims: Option<ClaimHistory>)
        ensures
            claims == self@.claim_history.get(stake_id),
    {
        match self.claim_history.get(&stake_id) {
            Some(h) => Some(*h),
            None => None,
        }
    }

    /// Whether `account_id` received the airdrop of `ft_contract_id`, whose
    /// airdrop must have reached someone.
    pub fn is_registered(&self, ft_contract_id: &String, account_id: &String) -> (registered: bool)
        requires
            self@.registered_members.contains_key(ft_contract_id@),
        ensures
            registered == self@.registered_members[ft_contract_id@].contains(account_id@),
    {
        match self.registered_members.get(ft_contract_id) {
            Some(members) => list_contains(members, account_id),
            None => false,
        }
    }

    /// The accounts that received the airdrop of `ft_contract_id`, which must have reached someone.
    pub fn all_registered_memebers(&self, ft_contract_id: &String) -> (members: Vec<String>)
        requires
            self@.registered_members.contains_key(ft_contract_id@),
        ensures
            members.deep_view() == self@.registered_members[ft_contract_id@],
    {
        match self.registered_members.get(ft_contract_id) {
            Some(members) => members.duplicate(),
            None => Vec::new(),
        }
    }

    /// The accounts that the storage set of `ft_contract_id` lists, which must exist.
    pub fn all_storage_deposit(&self, ft_contract_id: &String) -> (members: Vec<String>)
        requires
            self@.depositted_for_storage.lens.contains_key(ft_contract_id@),
        ensures
            members.deep_view() == set_members(self@.depositted_for_storage, ft_contract_id@),
    {
        self.depositted_for_storage.members(ft_contract_id)
    }

    /// Whether `account_id` counts as registered for storage with `ft_contract_id`.
    pub fn has_depositted_for_storage(&self, account_id: &String, ft_contract_id: &String) -> (registered: bool)
        ensures
            registered == registered_with(self@.depositted_for_storage, account_id@, ft_contract_id@),
    {
        self.depositted_for_storage.is_registered(account_id, ft_contract_id)
    }

    /// The approved token `ft_contract_id` with its reward plans.
    pub fn get_apy(&self, ft_contract_id: &String) -> (ft: Option<FT>)
        ensures
            ft.deep_view() == self@.approved_fts.get(ft_contract_id@),
    {
        match self.approved_fts.get(ft_contract_id) {
            Some(ft) => Some(ft.duplicate()),
            None => None,
        }
    }

    /// Moves the state to the second layout, if the owner `predecessor` asks.
    pub fn migrate(self, predecessor: &String) -> (next: Result<ContractV2, ContractError>)
        ensures
            match next {
                Ok(v2) => predecessor@ == self@.owner_id && v2@ == migrated(self@),
                Err(e) => predecessor@ != self@.owner_id && e == ContractError::MigrationByNonOwner,
            },
    {
        if !(*predecessor == self.owner_id) {
            return Err(ContractError::MigrationByNonOwner);
        }
        let ghost prev = self@;
        let records = first_layout_records(&self.registered_members);
        let next = ContractV2 {
            owner_id: self.owner_id,
            approved_ft_token_ids: self.approved_ft_token_ids,
            approved_fts: self.approved_fts,
            staking_history: self.staking_history,
            claim_history: self.claim_history,
            staking_nonce: self.staking_nonce,
            registered_members: records,
            depositted_for_storage: self.depositted_for_storage,
        };
        assert(next@ =~= migrated(prev));
        Ok(next)
    }

    /// Whether the awaited call succeeded: exactly one result came back, and it is a success.
    pub fn did_promise_succeded(promise_results: &Vec<bool>) -> (succeeded: bool)
        ensures
            succeeded == (promise_results.len() == 1 && promise_results@[0]),
    {
        if promise_results.len() != 1 {
            return false;
        }
        promise_results[0]
    }

    /// After the unstaked tokens went back to `staker_id`, drops the stake
    /// `stake_id` from the staker's history; nothing changes if the transfer failed.
    pub fn unstake_callback(&mut self, promise_succeeded: bool, stake_id: StakeId, staker_id: String) -> (done:
        Result<(), ContractError>)
        ensures
            match done {
                Ok(_) => unstake_callback_outcome(old(self)@, promise_succeeded, stake_id, staker_id@) == Ok::<
                    ContractView,
                    ContractError,
                >(final(self)@),
                Err(e) => unstake_callback_outcome(old(self)@, promise_succeeded, stake_id, staker_id@) == Err::<
                    ContractView,
                    ContractError,
                >(e) && final(self)@ == old(self)@,
            },
    {
        if !promise_succeeded {
            return Ok(());
        }
        let pos = match self.staking_history.get(&staker_id) {
            None => {
                return Err(ContractError::HistoryMissing);
            },
            Some(h) => stake_index(h, stake_id),
        };
        let i = match pos {
            None => {
                return Err(ContractError::StakeMissing);
            },
            Some(i) => i,
        };
        let ghost before = self@;
        let mut history = match self.staking_history.remove(&staker_id) {
            Some(h) => h,
            None => {
                return Err(ContractError::HistoryMissing);
            },
        };
        let ghost earlier = history.deep_view();
        history.remove(i);
        assert(history.deep_view() =~= earlier.remove(i as int));
        self.staking_history.insert(staker_id, history);
        proof {
            let expected = unstake_callback_outcome(before, promise_succeeded, stake_id, staker_id@);
            assert(self@.staking_history =~= expected->Ok_0.staking_history);
            assert(self@ =~= expected->Ok_0);
        }
        Ok(())
    }

    /// The transfer that pays the caller `predecessor` the reward of the stake
    /// `stake_id` earned up to block time `block_timestamp`, in whole minutes
    /// since the stake was made or since its last claim.
    pub fn claim_reward(&self, predecessor: &String, stake_id: StakeId, block_timestamp: u64) -> (transfer: Result<
        FtTransfer,
        ContractError,
    >)
        ensures
            answers(transfer, claim_request(self@, predecessor@, stake_id, block_timestamp)),
    {
        let history = match self.staking_history.get(predecessor) {
            None => {
                return Err(ContractError::NotStakedYet);
            },
            Some(h) => h,
        };
        let i = match stake_index(history, stake_id) {
            None => {
                return Err(ContractError::StakeNotFound);
            },
            Some(i) => i,
        };
        let stake = &history[i];
        assert(stake.deep_view() == history.deep_view()[i as int]);
        let current_time = block_timestamp / NANOS_PER_SECOND;
        let prior: Option<ClaimHistory> = match self.claim_history.get(&stake_id) {
            Some(h) => Some(*h),
            None => None,
        };
        assert(prior == self@.claim_history.get(stake_id));
        if !(stake.staked_by == *predecessor) {
            return Err(ContractError::NotOwnerClaim);
        }
        let minutes: u64 = match prior {
            None => {
                if current_time < stake.staked_at {
                    return Err(ContractError::ArithmeticOverflow);
                }
                let difference = (current_time - stake.staked_at) / ONE_MINUTE;
                if difference < 1 {
                    return Err(ContractError::TooEarlyFirstClaim);
                }
                difference
            },
            Some(h) => {
                if current_time < h.last_claimed_at {
                    return Err(ContractError::ArithmeticOverflow);
                }
                let difference = (current_time - h.last_claimed_at) / ONE_MINUTE;
                if difference < 1 {
                    return Err(ContractError::TooEarlyNextClaim);
                }
                difference
            },
        };
        let (rate, min_duration) = match self.plan(&stake.ft_account_id, &stake.staking_plan) {
            Ok(apy) => (apy.interest_rate as u128, apy.min_duration as u128),
            Err(e) => {
                return Err(e);
            },
        };
        let interest = match stake.amount.checked_mul(rate) {
            None => {
                return Err(ContractError::ArithmeticOverflow);
            },
            Some(p) => p / 100,
        };
        let accrued = match (interest / 10).checked_mul(minutes as u128) {
            None => {
                return Err(ContractError::ArithmeticOverflow);
            },
            Some(a) => a,
        };
        if min_duration == 0 {
            return Err(ContractError::DivisionByZero);
        }
        let reward = accrued / min_duration;
        Ok(
            FtTransfer {
                token_contract: stake.ft_account_id.clone(),
                receiver_id: predecessor.clone(),
                amount: reward,
                memo: TransferMemo::RewardTokens,
                callback: Callback::ClaimReward { stake_id, claim_history: prior, claim_count: minutes },
            },
        )
    }

    /// After the reward of `stake_id` was paid, records the claim at block time
    /// `block_timestamp`: a first claim (`claim_history` is `None`) counts
    /// `claim_count` cut to a byte, a later one adds one to the count it had.
    pub fn claim_reward_callback(
        &mut self,
        promise_succeeded: bool,
        stake_id: StakeId,
        claim_history: Option<ClaimHistory>,
        claim_count: u64,
        block_timestamp: u64,
    ) -> (done: Result<(), ContractError>)
        ensures
            match done {
                Ok(_) => claim_callback_outcome(
                    old(self)@,
                    promise_succeeded,
                    stake_id,
                    claim_history,
                    claim_count,
                    block_timestamp,
                ) == Ok::<ContractView, ContractError>(final(self)@),
                Err(e) => claim_callback_outcome(
                    old(self)@,
                    promise_succeeded,
                    stake_id,
                    claim_history,
                    claim_count,
                    block_timestamp,
                ) == Err::<ContractView, ContractError>(e) && final(self)@ == old(self)@,
            },
    {
        if !promise_succeeded {
            return Ok(());
        }
        let current_time = block_timestamp / NANOS_PER_SECOND;
        let claim = match claim_history {
            None => ClaimHistory { last_claimed_at: current_time, claim_count: claim_count as u8 },
            Some(h) => {
                if h.claim_count == u8::MAX {
                    return Err(ContractError::ArithmeticOverflow);
                }
                ClaimHistory { last_claimed_at: current_time, claim_count: h.claim_count + 1 }
            },
        };
        let ghost before = self@;
        self.claim_history.insert(stake_id, claim);
        proof {
            let expected = claim_callback_outcome(
                before,
                promise_succeeded,
                stake_id,
                claim_history,
                claim_count,
                block_timestamp,
            );
            assert(self@ =~= expected->Ok_0);
        }
        Ok(())
    }

    /// Registers the caller `predecessor` for storage with the token contract
    /// `ft_contract_id`, which gets the attached deposit; the deposit must be
    /// exactly `STORAGE_DEPOSIT`.
    pub fn deposit_for_storage(&mut self, predecessor: &String, attached_deposit: u128, ft_contract_id: String) -> (registration: Result<StorageDeposit, ContractError>)
        ensures
            match registration {
                Ok(r) => deposit_outcome(old(self)@, predecessor@, attached_deposit, ft_contract_id@) == Ok::<
                    (ContractView, crate::actions::StorageDepositView),
                    ContractError,
                >((final(self)@, r.deep_view())),
                Err(e) => deposit_outcome(old(self)@, predecessor@, attached_deposit, ft_contract_id@) == Err::<
                    (ContractView, crate::actions::StorageDepositView),
                    ContractError,
                >(e) && final(self)@ == old(self)@,
            },
    {
        if attached_deposit != STORAGE_DEPOSIT {
            return Err(ContractError::WrongDeposit);
        }
        let ghost before = self@;
        if self.depositted_for_storage.register(predecessor.clone(), ft_contract_id.clone()).is_err() {
            return Err(ContractError::ArithmeticOverflow);
        }
        let registration = StorageDeposit {
            token_contract: ft_contract_id,
            account_id: predecessor.clone(),
            deposit: attached_deposit,
        };
        proof {
            let expected = deposit_outcome(before, predecessor@, attached_deposit, registration.token_contract@);
            assert(self@ =~= expected->Ok_0.0);
        }
        Ok(registration)
    }

    /// The airdrop of `ft_contract_id` tokens to `account_id`, refused if the
    /// account already received it.
    pub fn drop_ft(&self, account_id: String, ft_contract_id: String) -> (transfer: Result<
        FtTransfer,
        ContractError,
    >)
        ensures
            answers(transfer, drop_request(self@, account_id@, ft_contract_id@)),
    {
        if let Some(members) = self.registered_members.get(&ft_contract_id) {
            if list_contains(members, &account_id) {
                return Err(ContractError::AlreadyClaimedDrop);
            }
        }
        Ok(
            FtTransfer {
                token_contract: ft_contract_id.clone(),
                receiver_id: account_id.clone(),
                amount: TEN_THOUSAND,
                memo: TransferMemo::Airdrop,
                callback: Callback::DropFt { account_id, ft_contract_id },
            },
        )
    }

    /// After the airdrop arrived, adds `account_id` at the end of the token's
    /// members; nothing changes if the transfer failed.
    pub fn drop_ft_callback(&mut self, promise_succeeded: bool, account_id: String, ft_contract_id: String)
        ensures
            final(self)@ == drop_callback_outcome(old(self)@, promise_succeeded, account_id@, ft_contract_id@),
    {
        if !promise_succeeded {
            return;
        }
        let ghost before = self@;
        let mut members = match self.registered_members.remove(&ft_contract_id) {
            Some(m) => m,
            None => Vec::new(),
        };
        let ghost earlier = members.deep_view();
        assert(earlier =~= members_of(before, ft_contract_id@));
        members.push(account_id);
        assert(members.deep_view() =~= earlier.push(account_id@));
        self.registered_members.insert(ft_contract_id, members);
        proof {
            let expected = drop_callback_outcome(before, promise_succeeded, account_id@, ft_contract_id@);
            assert(self@.registered_members =~= expected.registered_members);
            assert(self@ =~= expected);
        }
    }
}

/// What the second layout holds under a token's airdrop key.
pub enum AirdropRecord {
    /// A list of members stored by the first layout, which the second layout
    /// cannot read as a set.
    FirstLayoutList(Vec<String>),
    /// A set of members in the second layout.
    Members(AccountSet),
}

impl DeepView for AirdropRecord {
    type V = AirdropRecordView;

    open spec fn deep_view(&self) -> AirdropRecordView {
        match self {
            AirdropRecord::FirstLayoutList(list) => AirdropRecordView::FirstLayoutList(list.deep_view()),
            AirdropRecord::Members(set) => AirdropRecordView::Members(set.ids()),
        }
    }
}

/// The state in its second layout, where the members of each airdrop form a set.
pub struct ContractV2 {
    pub owner_id: String,
    pub approved_ft_token_ids: AccountSet,
    pub approved_fts: LookupTable<String, FT>,
    pub staking_history: LookupTable<String, Vec<Stake>>,
    pub staking_nonce: u128,
    pub claim_history: LookupTable<StakeId, ClaimHistory>,
    pub registered_members: LookupTable<String, AirdropRecord>,
    pub depositted_for_storage: StorageRegistry,
}

impl View for ContractV2 {
    type V = ContractV2View;

    open spec fn view(&self) -> ContractV2View {
        ContractV2View {
            owner_id: self.owner_id@,
            approved_ft_token_ids: self.approved_ft_token_ids.ids(),
            approved_fts: self.approved_fts.table(),
            staking_history: self.staking_history.table(),
            staking_nonce: self.staking_nonce,
            claim_history: self.claim_history.table(),
            registered_members: self.registered_members.table(),
            depositted_for_storage: self.depositted_for_storage@,
        }
    }
}

} // verus!
