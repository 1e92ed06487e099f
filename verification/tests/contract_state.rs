use ft_staking_contract::{ClaimHistory, Contract, Stake, APY, FT};

const ALICE: &str = "alice.testnet";
const FT_CONTRACT: &str = "ft.testnet";

fn plans() -> Vec<APY> {
    let amount1: u128 = 500_000_000_000_000_0000_000_000_000;
    let amount2: u128 = 1000_000_000_000_000_0000_000_000_000;
    let amount3: u128 = 2000_000_000_000_000_0000_000_000_000;
    let apy1 = APY {
        apy_key: "3months".to_string(),
        min_staking_amount: amount1,
        min_duration: 3,
        interest_rate: 250,
    };
    let apy2 = APY {
        apy_key: "6months".to_string(),
        min_staking_amount: amount2,
        min_duration: 6,
        interest_rate: 500,
    };
    let apy3 = APY {
        apy_key: "12months".to_string(),
        min_staking_amount: amount3,
        min_duration: 12,
        interest_rate: 1000,
    };
    vec![apy1, apy2, apy3]
}

fn token() -> FT {
    FT {
        account_id: FT_CONTRACT.to_string(),
        symbol: "FT".to_string(),
        apy_against_duration: None,
    }
}

fn get_contract() -> Contract {
    Contract::new(ALICE.to_string(), vec![token()], plans())
}

#[test]
fn test_contract_instantiation() {
    let contract = get_contract();
    let ft = contract.get_apy(&FT_CONTRACT.to_string()).expect("the token is approved");
    assert_eq!(ft.symbol, "FT");
    let plans = ft.apy_against_duration.expect("the token has plans");
    assert_eq!(plans.len(), 3);
    let six = plans.get(&"6months".to_string()).expect("6months is a plan");
    assert_eq!(six.min_staking_amount, 1000_000_000_000_000_0000_000_000_000);
    assert_eq!(six.min_duration, 6);
    assert_eq!(six.interest_rate, 500);
    assert!(contract.approved_ft_token_ids.contains(&FT_CONTRACT.to_string()));
    assert_eq!(contract.owner_id, ALICE);
    assert_eq!(contract.staking_nonce, 0);
}

#[test]
fn test_registered_members_insertion() {
    let mut contract = get_contract();
    let registered_members: Vec<String> = vec![ALICE.to_string()];
    contract.registered_members.insert(FT_CONTRACT.to_string(), registered_members);
    assert!(contract.is_registered(&FT_CONTRACT.to_string(), &ALICE.to_string()));
    assert_eq!(contract.all_registered_memebers(&FT_CONTRACT.to_string()), vec![ALICE.to_string()]);
}

#[test]
fn test_depositted_for_storage_member_insertion() {
    let mut contract = get_contract();
    assert_eq!(contract.depositted_for_storage.register(ALICE.to_string(), FT_CONTRACT.to_string()), Ok(()));
    assert!(contract.has_depositted_for_storage(&ALICE.to_string(), &FT_CONTRACT.to_string()));
    assert_eq!(contract.all_storage_deposit(&FT_CONTRACT.to_string()), vec![ALICE.to_string()]);
}

#[test]
fn test_staking_history_insertion() {
    let mut contract = get_contract();
    let ft = token();
    let apy1 = plans().remove(0);
    let stake = Stake {
        stake_id: 1,
        ft_symbol: ft.symbol.clone(),
        ft_account_id: ft.account_id.clone(),
        decimal: 24,
        amount: 500000000000000000000000000,
        duration: 180,
        staked_at: 0 / 1000000000,
        staked_by: ALICE.to_string(),
        staking_plan: apy1.apy_key,
    };
    let staking_history: Vec<Stake> = vec![stake];
    contract.staking_history.insert(ft.account_id.clone(), staking_history);
    let read = contract.get_staking_history(&ft.account_id, None, None);
    assert_eq!(read.len(), 1);
    assert_eq!(read[0].stake_id, 1);
    assert_eq!(read[0].amount, 500000000000000000000000000);
    assert_eq!(read[0].staking_plan, "3months");
}

#[test]
fn test_claim_history_insertion() {
    let mut contract = get_contract();
    let claim_history = ClaimHistory { last_claimed_at: 0, claim_count: 1 };
    contract.claim_history.insert(1, claim_history);
    assert_eq!(contract.get_claim_history(1), Some(ClaimHistory { last_claimed_at: 0, claim_count: 1 }));
    assert_eq!(contract.get_claim_history(2), None);
}
