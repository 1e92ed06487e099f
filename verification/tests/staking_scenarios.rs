use ft_staking_contract::{
    Callback, ClaimHistory, Contract, ContractError, StakeArgs, TransferMemo, APY, FT, NANOS_PER_SECOND,
    STORAGE_DEPOSIT, TEN_THOUSAND,
};

const YOCTO: u128 = 1_000_000_000_000_000_000_000_000;
/// Block time of the first stake, in nanoseconds.
const T0: u64 = 1_652_793_005 * NANOS_PER_SECOND;

fn to_yocto(tokens: u128) -> u128 {
    tokens * YOCTO
}

fn s(text: &str) -> String {
    text.to_string()
}

fn at_seconds(seconds_after_t0: u64) -> u64 {
    T0 + seconds_after_t0 * NANOS_PER_SECOND
}

fn init() -> Contract {
    let plans = vec![
        APY { apy_key: s("3months"), min_staking_amount: to_yocto(5000), min_duration: 3, interest_rate: 250 },
        APY { apy_key: s("6months"), min_staking_amount: to_yocto(10000), min_duration: 6, interest_rate: 500 },
        APY { apy_key: s("12months"), min_staking_amount: to_yocto(20000), min_duration: 12, interest_rate: 1000 },
    ];
    let fts = vec![FT { account_id: s("ft"), symbol: s("UNCT"), apy_against_duration: None }];
    Contract::new(s("root"), fts, plans)
}

fn args(duration: u64, staked_by: &str, plan: &str) -> StakeArgs {
    StakeArgs {
        ft_symbol: s("UNCT"),
        ft_account_id: s("ft"),
        decimal: 24,
        duration,
        staked_by: s(staked_by),
        staking_plan: s(plan),
    }
}

/// `staker` sends `tokens` to the staking contract through the token contract "ft".
fn stake(c: &mut Contract, staker: &str, tokens: u128, duration: u64, plan: &str, now: u64) -> Result<u128, ContractError> {
    c.ft_on_transfer(&s("ft"), s(staker), to_yocto(tokens), Some(args(duration, staker, plan)), now)
}

#[test]
fn simulate_staking_fungible_tokens() {
    let mut c = init();
    assert_eq!(c.ft_on_transfer(&s("ft"), s("root"), to_yocto(6000), Some(args(7776000, "root", "3months")), T0), Ok(0));
    assert_eq!(c.staking_nonce, 1);
    let history = c.get_staking_history(&s("root"), None, None);
    assert_eq!(history.len(), 1);
    assert_eq!(history[0].stake_id, 1);
    assert_eq!(history[0].amount, to_yocto(6000));
    assert_eq!(history[0].staked_at, 1_652_793_005);
    assert_eq!(history[0].staked_by, "root");
}

#[test]
fn check_minimum_limit_staking() {
    let mut c = init();
    let r = stake(&mut c, "root", 3000, 15778800, "3months", T0);
    assert_eq!(r, Err(ContractError::BelowMinimum { threshold: 5000000000000000000000000000 }));
    assert_eq!(c.staking_nonce, 0);
    assert!(c.get_staking_history(&s("root"), None, None).is_empty());
}

#[test]
fn check_min_staking_duration() {
    let mut c = init();
    // Least durations count minutes, not 30-day months: 1577880 s is 26298
    // minutes, which meets the plan's least duration of 3, so the stake is taken.
    let r = stake(&mut c, "root", 6000, 1577880, "3months", T0);
    assert_eq!(r, Ok(0));
}

#[test]
fn validate_staking_arguments() {
    let mut c = init();
    // The message names no token account, so it does not read as stake arguments.
    let r = c.ft_on_transfer(&s("ft"), s("root"), to_yocto(6000), None, T0);
    assert_eq!(r, Err(ContractError::InvalidStakingArguments));
    assert_eq!(c.staking_nonce, 0);
}

#[test]
fn check_staking_plan_validity() {
    let mut c = init();
    let r = stake(&mut c, "alice", 6000, 15778800, "2months", T0);
    assert_eq!(r, Err(ContractError::UnknownStakingPlan));
}

#[test]
fn simulate_claim_reward() {
    let mut c = init();
    assert_eq!(stake(&mut c, "alice", 6000, 15778800, "3months", T0), Ok(0));
    let r = c.claim_reward(&s("alice"), 1, at_seconds(10));
    assert!(matches!(r, Err(ContractError::TooEarlyFirstClaim)));
}

#[test]
fn check_stake_id_for_claim_reward() {
    let mut c = init();
    assert_eq!(stake(&mut c, "alice", 6000, 15778800, "3months", T0), Ok(0));
    let r = c.claim_reward(&s("alice"), 2, at_seconds(10));
    assert!(matches!(r, Err(ContractError::StakeNotFound)));
}

#[test]
fn check_user_staked_for_claim_reward() {
    let c = init();
    let r = c.claim_reward(&s("alice"), 2, T0);
    assert!(matches!(r, Err(ContractError::NotStakedYet)));
}

#[test]
fn check_stake_id_for_un_staking() {
    let mut c = init();
    assert_eq!(stake(&mut c, "alice", 6000, 15778800, "3months", T0), Ok(0));
    let r = c.ft_unstake(&s("alice"), 2, T0);
    assert!(matches!(r, Err(ContractError::StakeNotFound)));
}

#[test]
fn check_who_can_unstake() {
    let mut c = init();
    assert_eq!(stake(&mut c, "alice", 6000, 15778800, "3months", T0), Ok(0));
    assert_eq!(stake(&mut c, "root", 6000, 15778800, "3months", T0), Ok(0));
    let r = c.ft_unstake(&s("root"), 1, T0);
    assert!(r.is_err());
}

#[test]
fn check_duration_of_unstaking() {
    let mut c = init();
    assert_eq!(stake(&mut c, "alice", 6000, 15778800, "3months", T0), Ok(0));
    let r = c.ft_unstake(&s("alice"), 1, T0);
    assert!(matches!(r, Err(ContractError::Locked)));
}

#[test]
fn stake_with_too_short_lock_is_refused() {
    let mut c = init();
    // 179 seconds is two whole minutes, below the plan's three.
    let r = stake(&mut c, "alice", 6000, 179, "3months", T0);
    assert_eq!(r, Err(ContractError::InvalidDuration));
    assert_eq!(stake(&mut c, "alice", 6000, 180, "3months", T0), Ok(0));
}

#[test]
fn stake_through_unapproved_token_is_refused() {
    let mut c = init();
    let r = c.ft_on_transfer(&s("other"), s("alice"), to_yocto(6000), Some(args(180, "alice", "3months")), T0);
    assert_eq!(r, Err(ContractError::TokenNotApproved));
    let mut unknown = args(180, "alice", "3months");
    unknown.ft_account_id = s("ftt");
    let r = c.ft_on_transfer(&s("ft"), s("alice"), to_yocto(6000), Some(unknown), T0);
    assert_eq!(r, Err(ContractError::UnknownToken));
}

#[test]
fn token_without_plans_is_refused() {
    let mut c = init();
    c.approved_fts.insert(s("ft"), FT { account_id: s("ft"), symbol: s("UNCT"), apy_against_duration: None });
    assert_eq!(stake(&mut c, "alice", 6000, 180, "3months", T0), Err(ContractError::NoApyPlans));
}

#[test]
fn nonce_at_its_limit_refuses_stakes() {
    let mut c = init();
    c.staking_nonce = u128::MAX;
    assert_eq!(stake(&mut c, "alice", 6000, 180, "3months", T0), Err(ContractError::NonceOverflow));
}

#[test]
fn stakes_get_consecutive_ids() {
    let mut c = init();
    assert_eq!(stake(&mut c, "alice", 6000, 180, "3months", T0), Ok(0));
    assert_eq!(stake(&mut c, "alice", 11000, 400, "6months", T0), Ok(0));
    assert_eq!(stake(&mut c, "bob", 6000, 180, "3months", T0), Ok(0));
    let alice = c.get_staking_history(&s("alice"), Some(0), Some(10));
    assert_eq!(alice.iter().map(|st| st.stake_id).collect::<Vec<u128>>(), vec![1, 2]);
    let bob = c.get_staking_history(&s("bob"), None, None);
    assert_eq!(bob[0].stake_id, 3);
    assert_eq!(c.staking_nonce, 3);
}

#[test]
fn unstake_after_lock_returns_tokens_once() {
    let mut c = init();
    assert_eq!(stake(&mut c, "alice", 6000, 180, "3months", T0), Ok(0));
    let t = c.ft_unstake(&s("alice"), 1, at_seconds(180)).expect("the lock period is over");
    assert_eq!(t.token_contract, "ft");
    assert_eq!(t.receiver_id, "alice");
    assert_eq!(t.amount, to_yocto(6000));
    assert_eq!(t.memo, TransferMemo::UnstakingWithReward);
    match t.callback {
        Callback::Unstake { stake_id, staker_id } => {
            assert_eq!(stake_id, 1);
            assert_eq!(staker_id, "alice");
        },
        _ => panic!("unexpected callback"),
    }
    // A failed transfer keeps the stake.
    assert_eq!(c.unstake_callback(false, 1, s("alice")), Ok(()));
    assert_eq!(c.get_staking_history(&s("alice"), None, None).len(), 1);
    assert_eq!(c.unstake_callback(true, 1, s("alice")), Ok(()));
    assert!(c.get_staking_history(&s("alice"), None, None).is_empty());
    assert!(matches!(c.ft_unstake(&s("alice"), 1, at_seconds(500)), Err(ContractError::StakeNotFound)));
    assert_eq!(c.unstake_callback(true, 1, s("alice")), Err(ContractError::StakeMissing));
    assert_eq!(c.unstake_callback(true, 1, s("bob")), Err(ContractError::HistoryMissing));
}

#[test]
fn unstake_by_someone_else_is_refused() {
    let mut c = init();
    // Stakes are filed under the sender, but name their owner in the arguments.
    let r = c.ft_on_transfer(&s("ft"), s("alice"), to_yocto(6000), Some(args(180, "bob", "3months")), T0);
    assert_eq!(r, Ok(0));
    assert!(matches!(c.ft_unstake(&s("alice"), 1, at_seconds(200)), Err(ContractError::NotOwnerUnstake)));
    assert!(matches!(c.claim_reward(&s("alice"), 1, at_seconds(200)), Err(ContractError::NotOwnerClaim)));
}

#[test]
fn unstake_with_lock_beyond_time_range_overflows() {
    let mut c = init();
    assert_eq!(stake(&mut c, "alice", 6000, u64::MAX, "3months", T0), Ok(0));
    assert!(matches!(c.ft_unstake(&s("alice"), 1, u64::MAX), Err(ContractError::ArithmeticOverflow)));
    assert!(matches!(c.ft_unstake(&s("bob"), 1, u64::MAX), Err(ContractError::HistoryMissing)));
}

#[test]
fn reward_follows_the_formula() {
    let mut c = init();
    assert_eq!(stake(&mut c, "alice", 6000, 180, "3months", T0), Ok(0));
    // Two whole minutes at 2.5%: (6000 * 250 / 100) / 10 * 2 / 3 = 1000 tokens.
    let t = c.claim_reward(&s("alice"), 1, at_seconds(150)).expect("a minute has passed");
    assert_eq!(t.amount, to_yocto(1000));
    assert_eq!(t.memo, TransferMemo::RewardTokens);
    assert_eq!(t.receiver_id, "alice");
    match t.callback {
        Callback::ClaimReward { stake_id, claim_history, claim_count } => {
            assert_eq!(stake_id, 1);
            assert_eq!(claim_history, None);
            assert_eq!(claim_count, 2);
        },
        _ => panic!("unexpected callback"),
    }
    // A minute later, three minutes are paid for: the reward grows with time.
    let later = c.claim_reward(&s("alice"), 1, at_seconds(200)).expect("a minute has passed");
    assert_eq!(later.amount, to_yocto(1500));
}

#[test]
fn claims_are_recorded_and_a_minute_apart() {
    let mut c = init();
    assert_eq!(stake(&mut c, "alice", 6000, 180, "3months", T0), Ok(0));
    assert!(matches!(c.claim_reward(&s("alice"), 1, at_seconds(59)), Err(ContractError::TooEarlyFirstClaim)));
    assert_eq!(c.claim_reward_callback(true, 1, None, 2, at_seconds(150)), Ok(()));
    assert_eq!(c.get_claim_history(1), Some(ClaimHistory { last_claimed_at: 1_652_793_155, claim_count: 2 }));
    assert!(matches!(c.claim_reward(&s("alice"), 1, at_seconds(209)), Err(ContractError::TooEarlyNextClaim)));
    let t = c.claim_reward(&s("alice"), 1, at_seconds(210)).expect("a minute since the last claim");
    assert_eq!(t.amount, to_yocto(500));
    let prior = c.get_claim_history(1);
    assert_eq!(c.claim_reward_callback(true, 1, prior, 1, at_seconds(210)), Ok(()));
    assert_eq!(c.get_claim_history(1), Some(ClaimHistory { last_claimed_at: 1_652_793_215, claim_count: 3 }));
    // A failed payment records nothing.
    assert_eq!(c.claim_reward_callback(false, 1, None, 9, at_seconds(999)), Ok(()));
    assert_eq!(c.get_claim_history(1), Some(ClaimHistory { last_claimed_at: 1_652_793_215, claim_count: 3 }));
}

#[test]
fn claim_count_limits() {
    let mut c = init();
    // A first claim keeps the minutes cut to a byte.
    assert_eq!(c.claim_reward_callback(true, 7, None, 300, T0), Ok(()));
    assert_eq!(c.get_claim_history(7), Some(ClaimHistory { last_claimed_at: 1_652_793_005, claim_count: 44 }));
    let full = Some(ClaimHistory { last_claimed_at: 0, claim_count: 255 });
    assert_eq!(c.claim_reward_callback(true, 7, full, 1, T0), Err(ContractError::ArithmeticOverflow));
    assert_eq!(c.get_claim_history(7), Some(ClaimHistory { last_claimed_at: 1_652_793_005, claim_count: 44 }));
}

#[test]
fn claim_before_the_stake_time_overflows() {
    let mut c = init();
    assert_eq!(stake(&mut c, "alice", 6000, 180, "3months", at_seconds(100)), Ok(0));
    assert!(matches!(c.claim_reward(&s("alice"), 1, T0), Err(ContractError::ArithmeticOverflow)));
}

#[test]
fn reward_overflow_and_zero_duration() {
    let mut c = init();
    c.approved_fts.insert(s("big"), FT { account_id: s("big"), symbol: s("BIG"), apy_against_duration: None });
    let mut plans = ft_staking_contract::LookupTable::new();
    plans.insert(s("zero"), APY { apy_key: s("zero"), min_staking_amount: 0, min_duration: 0, interest_rate: 100 });
    plans.insert(s("huge"), APY { apy_key: s("huge"), min_staking_amount: 0, min_duration: 1, interest_rate: 65535 });
    c.approved_fts.insert(s("big"), FT { account_id: s("big"), symbol: s("BIG"), apy_against_duration: Some(plans) });
    c.approved_ft_token_ids.insert(s("big"));
    let mut zero = args(0, "alice", "zero");
    zero.ft_account_id = s("big");
    assert_eq!(c.ft_on_transfer(&s("big"), s("alice"), 1000, Some(zero), T0), Ok(0));
    assert!(matches!(c.claim_reward(&s("alice"), 1, at_seconds(60)), Err(ContractError::DivisionByZero)));
    let mut huge = args(60, "alice", "huge");
    huge.ft_account_id = s("big");
    assert_eq!(c.ft_on_transfer(&s("big"), s("alice"), u128::MAX, Some(huge), T0), Ok(0));
    assert!(matches!(c.claim_reward(&s("alice"), 2, at_seconds(60)), Err(ContractError::ArithmeticOverflow)));
}

#[test]
fn storage_registration() {
    let mut c = init();
    assert!(matches!(c.deposit_for_storage(&s("alice"), 1, s("ft")), Err(ContractError::WrongDeposit)));
    assert!(!c.has_depositted_for_storage(&s("alice"), &s("ft")));
    let reg = c.deposit_for_storage(&s("alice"), STORAGE_DEPOSIT, s("ft")).expect("the deposit is right");
    assert_eq!(reg.token_contract, "ft");
    assert_eq!(reg.account_id, "alice");
    assert_eq!(reg.deposit, 8590000000000000000000);
    assert!(c.deposit_for_storage(&s("bob"), STORAGE_DEPOSIT, s("ft")).is_ok());
    assert!(c.deposit_for_storage(&s("alice"), STORAGE_DEPOSIT, s("ft")).is_ok());
    assert!(c.has_depositted_for_storage(&s("alice"), &s("ft")));
    assert!(!c.has_depositted_for_storage(&s("alice"), &s("other")));
    assert_eq!(c.all_storage_deposit(&s("ft")), vec![s("alice"), s("bob")]);
}

#[test]
fn storage_sets_share_one_store() {
    let mut c = init();
    assert!(c.deposit_for_storage(&s("alice"), STORAGE_DEPOSIT, s("ft")).is_ok());
    // A new set starts at slot 0, which it shares with the set of "ft".
    assert!(c.deposit_for_storage(&s("bob"), STORAGE_DEPOSIT, s("other")).is_ok());
    assert_eq!(c.all_storage_deposit(&s("ft")), vec![s("bob")]);
    assert_eq!(c.all_storage_deposit(&s("other")), vec![s("bob")]);
    // Membership is one index for all sets.
    assert!(c.has_depositted_for_storage(&s("alice"), &s("other")));
    assert!(c.has_depositted_for_storage(&s("bob"), &s("ft")));
    assert!(!c.has_depositted_for_storage(&s("alice"), &s("third")));
    // An account that some set took in is not written again.
    assert!(c.deposit_for_storage(&s("alice"), STORAGE_DEPOSIT, s("third")).is_ok());
    assert!(c.all_storage_deposit(&s("third")).is_empty());
    assert!(c.deposit_for_storage(&s("carol"), STORAGE_DEPOSIT, s("ft")).is_ok());
    assert_eq!(c.all_storage_deposit(&s("ft")), vec![s("bob"), s("carol")]);
    assert_eq!(c.all_storage_deposit(&s("other")), vec![s("bob")]);
}

#[test]
fn airdrop_goes_once() {
    let mut c = init();
    let t = c.drop_ft(s("alice"), s("ft")).expect("alice has no airdrop yet");
    assert_eq!(t.amount, TEN_THOUSAND);
    assert_eq!(t.memo, TransferMemo::Airdrop);
    assert_eq!(t.token_contract, "ft");
    assert_eq!(t.receiver_id, "alice");
    c.drop_ft_callback(false, s("alice"), s("ft"));
    assert!(c.drop_ft(s("alice"), s("ft")).is_ok());
    c.drop_ft_callback(true, s("alice"), s("ft"));
    assert!(c.is_registered(&s("ft"), &s("alice")));
    assert!(!c.is_registered(&s("ft"), &s("bob")));
    assert!(matches!(c.drop_ft(s("alice"), s("ft")), Err(ContractError::AlreadyClaimedDrop)));
    assert!(c.drop_ft(s("bob"), s("ft")).is_ok());
    assert_eq!(c.all_registered_memebers(&s("ft")), vec![s("alice")]);
}

#[test]
fn promise_success_needs_one_successful_result() {
    assert!(Contract::did_promise_succeded(&vec![true]));
    assert!(!Contract::did_promise_succeded(&vec![false]));
    assert!(!Contract::did_promise_succeded(&vec![]));
    assert!(!Contract::did_promise_succeded(&vec![true, true]));
}

#[test]
fn ownership_checks() {
    let c = init();
    assert!(c.is_owner(&s("root")));
    assert!(!c.is_owner(&s("alice")));
    assert_eq!(c.assert_owner(&s("root")), Ok(()));
    assert_eq!(c.assert_owner(&s("alice")), Err(ContractError::OwnerOnly));
}

#[test]
fn migration_keeps_the_ledger() {
    let mut c = init();
    assert_eq!(stake(&mut c, "alice", 6000, 180, "3months", T0), Ok(0));
    c.drop_ft_callback(true, s("alice"), s("ft"));
    assert!(c.deposit_for_storage(&s("alice"), STORAGE_DEPOSIT, s("ft")).is_ok());
    assert!(matches!(init().migrate(&s("alice")), Err(ContractError::MigrationByNonOwner)));
    let v2 = match c.migrate(&s("root")) {
        Ok(v2) => v2,
        Err(_) => panic!("the owner may migrate"),
    };
    assert_eq!(v2.staking_nonce, 1);
    assert_eq!(v2.owner_id, "root");
    assert!(v2.staking_history.contains_key(&s("alice")));
    // The airdrop lists stay under their keys as lists of the first layout.
    assert_eq!(v2.registered_members.len(), 1);
    match v2.registered_members.get(&s("ft")) {
        Some(ft_staking_contract::AirdropRecord::FirstLayoutList(list)) => assert_eq!(list, &vec![s("alice")]),
        _ => panic!("the airdrop list of \"ft\" is kept"),
    }
    assert!(v2.depositted_for_storage.is_registered(&s("alice"), &s("ft")));
    assert_eq!(v2.depositted_for_storage.members(&s("ft")), vec![s("alice")]);
}

#[test]
fn later_plans_replace_earlier_ones() {
    let plans = vec![
        APY { apy_key: s("p"), min_staking_amount: 1, min_duration: 1, interest_rate: 1 },
        APY { apy_key: s("p"), min_staking_amount: 2, min_duration: 2, interest_rate: 2 },
    ];
    let table = Contract::insert_apy(plans);
    assert_eq!(table.len(), 1);
    assert_eq!(table.get(&s("p")).map(|a| a.min_staking_amount), Some(2));
    let fts = vec![
        FT { account_id: s("a"), symbol: s("A"), apy_against_duration: None },
        FT { account_id: s("b"), symbol: s("B"), apy_against_duration: None },
        FT { account_id: s("a"), symbol: s("A2"), apy_against_duration: None },
    ];
    let c = Contract::new(s("root"), fts, vec![]);
    assert_eq!(c.approved_ft_token_ids.to_vec(), vec![s("a"), s("b")]);
    assert_eq!(c.get_apy(&s("a")).map(|ft| ft.symbol), Some(s("A2")));
    assert!(c.get_apy(&s("c")).is_none());
}
