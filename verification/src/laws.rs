//! What holds of the contract across calls.
use vstd::prelude::*;

use crate::actions::{CallbackView, ContractError, FtTransferView, TransferMemo, ONE_MINUTE, STORAGE_DEPOSIT};
use crate::model::{
    apy_table, claim_callback_outcome, claim_request, deposit_outcome, drop_callback_outcome,
    drop_request, elapsed_minutes, first_with_id, ft_table, history_of, initial_state, ledger_consistent,
    members_of, new_stake, reward_amount, seconds, stake_ids_bounded, stake_ids_unique, stake_outcome,
    stake_position, token_ids, unstake_callback_outcome, unstake_request, migrated, AirdropRecordView,
    ContractView,
};
use crate::registry::registered_with;
use crate::types::{ApyView, ClaimHistory, FtView, StakeArgsView, StakeView};

verus! {

/// A fresh contract has a consistent stake ledger: it holds no stake at all.
pub proof fn law_fresh_ledger_consistent(owner: Seq<char>, fts: Seq<FtView>, apys: Seq<ApyView>)
    ensures
        ledger_consistent(initial_state(owner, fts, apys)),
{
}

/// Staking keeps the stake ledger consistent: the new stake's id is greater
/// than the id of every stake recorded before.
pub proof fn law_stake_keeps_ledger(
    c: ContractView,
    predecessor: Seq<char>,
    sender: Seq<char>,
    amount: u128,
    args: Option<StakeArgsView>,
    now: u64,
)
    requires
        ledger_consistent(c),
        stake_outcome(c, predecessor, sender, amount, args, now) is Ok,
    ensures
        ledger_consistent(stake_outcome(c, predecessor, sender, amount, args, now)->Ok_0),
        forall|a: Seq<char>, i: int|
            #![trigger c.staking_history[a][i]]
            c.staking_history.contains_key(a) && 0 <= i < c.staking_history[a].len()
                ==> c.staking_history[a][i].stake_id < stake_outcome(c, predecessor, sender, amount, args, now)->Ok_0.staking_nonce,
{
    let c2 = stake_outcome(c, predecessor, sender, amount, args, now)->Ok_0;
    let old_h = history_of(c, sender);
    let h2 = c2.staking_history;
    assert(c2.staking_nonce == c.staking_nonce + 1);
    assert(h2[sender] == old_h.push(h2[sender].last()));
    // Where each stake of the new ledger comes from.
    assert forall|a: Seq<char>, i: int|
        h2.contains_key(a) && 0 <= i < h2[a].len() implies {
        ||| (a == sender && i == old_h.len() && #[trigger] h2[a][i].stake_id == c2.staking_nonce)
        ||| (c.staking_history.contains_key(a) && i < c.staking_history[a].len() && h2[a][i]
            == c.staking_history[a][i])
    } by {
        if a == sender {
            if i < old_h.len() {
                assert(c.staking_history.contains_key(a));
                assert(h2[a][i] == old_h[i]);
            }
        }
    }
    assert(stake_ids_bounded(c2)) by {
        assert forall|a: Seq<char>, i: int|
            h2.contains_key(a) && 0 <= i < h2[a].len() implies #[trigger] h2[a][i].stake_id <= c2.staking_nonce by {
            if !(a == sender && i == old_h.len()) {
                assert(c.staking_history[a][i].stake_id <= c.staking_nonce);
            }
        }
    }
    assert(stake_ids_unique(c2)) by {
        assert forall|a: Seq<char>, b: Seq<char>, i: int, j: int|
            h2.contains_key(a) && h2.contains_key(b) && 0 <= i < h2[a].len() && 0 <= j < h2[b].len() && (a != b
                || i != j) implies #[trigger] h2[a][i].stake_id != #[trigger] h2[b][j].stake_id by {
            let new_a = a == sender && i == old_h.len();
            let new_b = b == sender && j == old_h.len();
            if !new_a && !new_b {
                assert(c.staking_history[a][i].stake_id != c.staking_history[b][j].stake_id);
            } else if new_a && !new_b {
                assert(c.staking_history[b][j].stake_id <= c.staking_nonce);
            } else if !new_a && new_b {
                assert(c.staking_history[a][i].stake_id <= c.staking_nonce);
            }
        }
    }
}

/// Dropping an unstaked stake keeps the stake ledger consistent.
pub proof fn law_unstake_callback_keeps_ledger(c: ContractView, succeeded: bool, stake_id: u128, staker: Seq<char>)
    requires
        ledger_consistent(c),
        unstake_callback_outcome(c, succeeded, stake_id, staker) is Ok,
    ensures
        ledger_consistent(unstake_callback_outcome(c, succeeded, stake_id, staker)->Ok_0),
{
    let c2 = unstake_callback_outcome(c, succeeded, stake_id, staker)->Ok_0;
    if succeeded {
        let h = c.staking_history[staker];
        let p = stake_position(h, stake_id)->Some_0;
        let h2 = c2.staking_history;
        assert(h2[staker] == h.remove(p));
        // Each stake of the new ledger is a stake of the old one, at a position
        // that tells different stakes apart.
        assert forall|a: Seq<char>, i: int|
            h2.contains_key(a) && 0 <= i < h2[a].len() implies #[trigger] h2[a][i] == c.staking_history[a][
                if a == staker && i >= p {
                    i + 1
                } else {
                    i
                }] && c.staking_history.contains_key(a) && (if a == staker && i >= p {
                i + 1
            } else {
                i
            }) < c.staking_history[a].len() by {}
        assert(stake_ids_bounded(c2)) by {
            assert forall|a: Seq<char>, i: int|
                h2.contains_key(a) && 0 <= i < h2[a].len() implies #[trigger] h2[a][i].stake_id
                <= c2.staking_nonce by {
                let oi = if a == staker && i >= p {
                    i + 1
                } else {
                    i
                };
                assert(c.staking_history[a][oi].stake_id <= c.staking_nonce);
            }
        }
        assert(stake_ids_unique(c2)) by {
            assert forall|a: Seq<char>, b: Seq<char>, i: int, j: int|
                h2.contains_key(a) && h2.contains_key(b) && 0 <= i < h2[a].len() && 0 <= j < h2[b].len() && (a
                    != b || i != j) implies #[trigger] h2[a][i].stake_id != #[trigger] h2[b][j].stake_id by {
                let oi = if a == staker && i >= p {
                    i + 1
                } else {
                    i
                };
                let oj = if b == staker && j >= p {
                    j + 1
                } else {
                    j
                };
                assert(c.staking_history[a][oi].stake_id != c.staking_history[b][oj].stake_id);
            }
        }
    }
}

/// A stake is unstaked once: after its return was confirmed, neither
/// unstaking nor claiming finds it again.
pub proof fn law_unstaked_stake_is_gone(c: ContractView, stake_id: u128, staker: Seq<char>, now: u64)
    requires
        ledger_consistent(c),
        unstake_callback_outcome(c, true, stake_id, staker) is Ok,
    ensures
        unstake_request(unstake_callback_outcome(c, true, stake_id, staker)->Ok_0, staker, stake_id, now) == Err::<
            crate::actions::FtTransferView,
            ContractError,
        >(ContractError::StakeNotFound),
        claim_request(unstake_callback_outcome(c, true, stake_id, staker)->Ok_0, staker, stake_id, now) == Err::<
            crate::actions::FtTransferView,
            ContractError,
        >(ContractError::StakeNotFound),
{
    let c2 = unstake_callback_outcome(c, true, stake_id, staker)->Ok_0;
    let h = c.staking_history[staker];
    let p = stake_position(h, stake_id)->Some_0;
    assert(first_with_id(h, stake_id, p));
    let rest = h.remove(p);
    assert(c2.staking_history[staker] == rest);
    assert forall|k: int| 0 <= k < rest.len() implies #[trigger] rest[k].stake_id != stake_id by {
        let ok = if k >= p {
            k + 1
        } else {
            k
        };
        assert(rest[k] == h[ok]);
        assert(h[ok].stake_id != h[p].stake_id);
    }
    assert(stake_position(rest, stake_id) is None);
}

/// Calls that do not stake or unstake leave the stake ledger and the nonce alone.
pub proof fn law_bookkeeping_leaves_ledger(
    c: ContractView,
    succeeded: bool,
    stake_id: u128,
    prior: Option<ClaimHistory>,
    claim_count: u64,
    now: u64,
    account: Seq<char>,
    token: Seq<char>,
    deposit: u128,
)
    ensures
        claim_callback_outcome(c, succeeded, stake_id, prior, claim_count, now) matches Ok(c2) ==> c2.staking_history
            == c.staking_history && c2.staking_nonce == c.staking_nonce,
        deposit_outcome(c, account, deposit, token) matches Ok(r) ==> r.0.staking_history == c.staking_history
            && r.0.staking_nonce == c.staking_nonce,
        drop_callback_outcome(c, succeeded, account, token).staking_history == c.staking_history,
        drop_callback_outcome(c, succeeded, account, token).staking_nonce == c.staking_nonce,
{
}

/// The plan `key` of the approved token `token`, where it has one.
pub open spec fn plan_named(c: ContractView, token: Seq<char>, key: Seq<char>) -> ApyView {
    c.approved_fts[token].apy_against_duration->Some_0[key]
}

/// Whether the approved token `token` has a plan under `key`.
pub open spec fn has_plan(c: ContractView, token: Seq<char>, key: Seq<char>) -> bool {
    &&& c.approved_fts.contains_key(token)
    &&& c.approved_fts[token].apy_against_duration is Some
    &&& c.approved_fts[token].apy_against_duration->Some_0.contains_key(key)
}

/// `i` is where the stakes `h` first hold the id `id`.
pub open spec fn first_position(h: Seq<StakeView>, id: u128, i: int) -> bool {
    &&& 0 <= i < h.len()
    &&& h[i].stake_id == id
    &&& forall|j: int| 0 <= j < i ==> #[trigger] h[j].stake_id != id
}

/// The reward `t` that a claim at block time `now` pays for the stake at
/// position `i` of the claimer's history: whole minutes since the last claim
/// (or since the stake was made), at the plan's rate, spread over the plan's
/// least duration.
pub open spec fn pays_plan_reward(
    c: ContractView,
    claimer: Seq<char>,
    stake_id: u128,
    now: u64,
    t: FtTransferView,
    i: int,
) -> bool {
    let h = c.staking_history[claimer];
    let stake = h[i];
    let plan = plan_named(c, stake.ft_account_id, stake.staking_plan);
    let since: int = if c.claim_history.contains_key(stake_id) {
        c.claim_history[stake_id].last_claimed_at as int
    } else {
        stake.staked_at as int
    };
    let minutes: int = ((now / 1000000000) as int - since) / 60;
    &&& first_position(h, stake_id, i)
    &&& stake.staked_by == claimer
    &&& has_plan(c, stake.ft_account_id, stake.staking_plan)
    &&& since <= (now / 1000000000) as int
    &&& minutes >= 1
    &&& t.token_contract == stake.ft_account_id
    &&& t.receiver_id == claimer
    &&& t.memo == TransferMemo::RewardTokens
    &&& plan.min_duration > 0
    &&& t.amount == (stake.amount * plan.interest_rate / 100) / 10 * minutes / (plan.min_duration as int)
    &&& t.callback == CallbackView::ClaimReward {
        stake_id,
        claim_history: if c.claim_history.contains_key(stake_id) {
            Some(c.claim_history[stake_id])
        } else {
            None
        },
        claim_count: minutes as u64,
    }
}

/// A paid claim pays the claimer, from the token of one of the claimer's own
/// stakes with that id, the reward of its plan for the whole minutes since
/// the last claim (or since the stake was made); the lock period plays no part.
pub proof fn law_claim_pays_the_plan_reward(c: ContractView, claimer: Seq<char>, stake_id: u128, now: u64)
    requires
        claim_request(c, claimer, stake_id, now) is Ok,
    ensures
        c.staking_history.contains_key(claimer),
        exists|i: int| #[trigger]
            pays_plan_reward(c, claimer, stake_id, now, claim_request(c, claimer, stake_id, now)->Ok_0, i),
{
    let h = c.staking_history[claimer];
    let i = stake_position(h, stake_id)->Some_0;
    assert(first_with_id(h, stake_id, i));
    let t = claim_request(c, claimer, stake_id, now)->Ok_0;
    assert(pays_plan_reward(c, claimer, stake_id, now, t, i));
}

/// A stake that passes every check is taken, whatever the sender already
/// holds: the nonce grows by one and the sender's history gets the new stake
/// at its end, with nothing else changed.
pub proof fn law_stake_taken_when_checks_pass(
    c: ContractView,
    predecessor: Seq<char>,
    sender: Seq<char>,
    amount: u128,
    args: StakeArgsView,
    now: u64,
)
    requires
        c.staking_nonce < u128::MAX,
        has_plan(c, args.ft_account_id, args.staking_plan),
        c.approved_ft_token_ids.contains(predecessor),
        amount >= plan_named(c, args.ft_account_id, args.staking_plan).min_staking_amount,
        args.duration / 60 >= plan_named(c, args.ft_account_id, args.staking_plan).min_duration,
    ensures
        stake_outcome(c, predecessor, sender, amount, Some(args), now) == Ok::<ContractView, ContractError>(
            ContractView {
                staking_nonce: (c.staking_nonce + 1) as u128,
                staking_history: c.staking_history.insert(
                    sender,
                    (if c.staking_history.contains_key(sender) {
                        c.staking_history[sender]
                    } else {
                        Seq::empty()
                    }).push(
                        StakeView {
                            stake_id: (c.staking_nonce + 1) as u128,
                            ft_symbol: args.ft_symbol,
                            ft_account_id: args.ft_account_id,
                            decimal: args.decimal,
                            amount,
                            duration: args.duration,
                            staked_at: now / 1000000000,
                            staked_by: args.staked_by,
                            staking_plan: args.staking_plan,
                        },
                    ),
                ),
                ..c
            },
        ),
{
}

/// The owner of a stake gets its tokens back once its lock period, counted
/// from when it was made, is over; claims do not restart the lock.
pub proof fn law_unstake_after_lock(c: ContractView, owner: Seq<char>, stake_id: u128, now: u64, i: int)
    requires
        c.staking_history.contains_key(owner),
        first_position(c.staking_history[owner], stake_id, i),
        c.staking_history[owner][i].staked_by == owner,
        c.staking_history[owner][i].staked_at + c.staking_history[owner][i].duration <= u64::MAX,
        now / 1000000000 >= c.staking_history[owner][i].staked_at + c.staking_history[owner][i].duration,
    ensures
        unstake_request(c, owner, stake_id, now) == Ok::<FtTransferView, ContractError>(
            FtTransferView {
                token_contract: c.staking_history[owner][i].ft_account_id,
                receiver_id: owner,
                amount: c.staking_history[owner][i].amount,
                memo: TransferMemo::UnstakingWithReward,
                callback: CallbackView::Unstake { stake_id, staker_id: owner },
            },
        ),
{
    let h = c.staking_history[owner];
    assert(first_with_id(h, stake_id, i));
    let k = stake_position(h, stake_id)->Some_0;
    assert(first_with_id(h, stake_id, k));
    if k < i {
        assert(h[k].stake_id != stake_id);
    }
    if i < k {
        assert(h[i].stake_id != stake_id);
    }
}

/// A confirmed airdrop adds its account at the end of the token's members and
/// keeps every earlier member; nothing else changes.
pub proof fn law_airdrop_keeps_earlier_members(c: ContractView, account: Seq<char>, token: Seq<char>)
    ensures
        drop_callback_outcome(c, true, account, token) == (ContractView {
            registered_members: c.registered_members.insert(
                token,
                (if c.registered_members.contains_key(token) {
                    c.registered_members[token]
                } else {
                    Seq::empty()
                }).push(account),
            ),
            ..c
        }),
{
}

/// An account that received a token's airdrop is refused it again, whatever
/// airdrops of that token arrive later.
pub proof fn law_airdrop_refused_after_later_drops(c: ContractView, account: Seq<char>, other: Seq<char>, token: Seq<char>)
    requires
        c.registered_members.contains_key(token),
        c.registered_members[token].contains(account),
    ensures
        drop_request(drop_callback_outcome(c, true, other, token), account, token) == Err::<
            FtTransferView,
            ContractError,
        >(ContractError::AlreadyClaimedDrop),
{
    let before = c.registered_members[token];
    let after = members_of(drop_callback_outcome(c, true, other, token), token);
    let k = choose|k: int| 0 <= k < before.len() && before[k] == account;
    assert(after[k] == account);
}

/// Migration carries the owner, the tokens, the stakes, the nonce, the claim
/// records and the storage registrations over unchanged, and keeps each
/// token's airdrop list under its key as a list of the first layout.
pub proof fn law_migration_carries_records(c: ContractView)
    ensures
        migrated(c).owner_id == c.owner_id,
        migrated(c).approved_ft_token_ids == c.approved_ft_token_ids,
        migrated(c).approved_fts == c.approved_fts,
        migrated(c).staking_history == c.staking_history,
        migrated(c).staking_nonce == c.staking_nonce,
        migrated(c).claim_history == c.claim_history,
        migrated(c).depositted_for_storage == c.depositted_for_storage,
        migrated(c).registered_members.dom() == c.registered_members.dom(),
        forall|k: Seq<char>|
            #[trigger] c.registered_members.contains_key(k) ==> migrated(c).registered_members[k]
                == AirdropRecordView::FirstLayoutList(c.registered_members[k]),
{
    assert(migrated(c).registered_members.dom() =~= c.registered_members.dom());
}

/// A stake is taken only when every check passes: the nonce can grow, the
/// message names a plan of an approved token record, the tokens came from an
/// approved token contract, and amount and lock meet the plan's least values.
pub proof fn law_stake_only_when_checks_pass(
    c: ContractView,
    predecessor: Seq<char>,
    sender: Seq<char>,
    amount: u128,
    args: Option<StakeArgsView>,
    now: u64,
)
    requires
        stake_outcome(c, predecessor, sender, amount, args, now) is Ok,
    ensures
        c.staking_nonce < u128::MAX,
        args is Some,
        has_plan(c, args->Some_0.ft_account_id, args->Some_0.staking_plan),
        c.approved_ft_token_ids.contains(predecessor),
        amount >= plan_named(c, args->Some_0.ft_account_id, args->Some_0.staking_plan).min_staking_amount,
        args->Some_0.duration / 60 >= plan_named(c, args->Some_0.ft_account_id, args->Some_0.staking_plan).min_duration,
{
}

/// Once the tokens of a stake are back, the first stake with its id leaves
/// the staker's history, the others keep their order, and nothing else changes.
pub proof fn law_unstake_confirmed_drops_the_stake(c: ContractView, staker: Seq<char>, stake_id: u128, i: int)
    requires
        c.staking_history.contains_key(staker),
        first_position(c.staking_history[staker], stake_id, i),
    ensures
        unstake_callback_outcome(c, true, stake_id, staker) == Ok::<ContractView, ContractError>(
            ContractView {
                staking_history: c.staking_history.insert(staker, c.staking_history[staker].remove(i)),
                ..c
            },
        ),
{
    let h = c.staking_history[staker];
    assert(first_with_id(h, stake_id, i));
    let k = stake_position(h, stake_id)->Some_0;
    assert(first_with_id(h, stake_id, k));
    if k < i {
        assert(h[k].stake_id != stake_id);
    }
    if i < k {
        assert(h[i].stake_id != stake_id);
    }
}

/// A paid reward is recorded under its stake at the time of the record: a
/// first claim keeps the minutes paid for, cut to a byte; a later one counts
/// one more claim than the record it was paid against, refused past 255.
/// Nothing else changes.
pub proof fn law_claim_record_written(
    c: ContractView,
    stake_id: u128,
    prior: Option<ClaimHistory>,
    claim_count: u64,
    now: u64,
)
    ensures
        prior is None ==> claim_callback_outcome(c, true, stake_id, prior, claim_count, now) == Ok::<
            ContractView,
            ContractError,
        >(
            ContractView {
                claim_history: c.claim_history.insert(
                    stake_id,
                    ClaimHistory { last_claimed_at: now / 1000000000, claim_count: claim_count as u8 },
                ),
                ..c
            },
        ),
        prior is Some && prior->Some_0.claim_count < 255 ==> claim_callback_outcome(
            c,
            true,
            stake_id,
            prior,
            claim_count,
            now,
        ) == Ok::<ContractView, ContractError>(
            ContractView {
                claim_history: c.claim_history.insert(
                    stake_id,
                    ClaimHistory { last_claimed_at: now / 1000000000, claim_count: (prior->Some_0.claim_count + 1) as u8 },
                ),
                ..c
            },
        ),
        prior is Some && prior->Some_0.claim_count == 255 ==> claim_callback_outcome(
            c,
            true,
            stake_id,
            prior,
            claim_count,
            now,
        ) == Err::<ContractView, ContractError>(ContractError::ArithmeticOverflow),
{
}

/// An airdrop is sent, ten thousand tokens with one transfer, exactly to the
/// accounts that are not yet among the token's members.
pub proof fn law_airdrop_sent_to_new_members(c: ContractView, account: Seq<char>, token: Seq<char>)
    ensures
        (c.registered_members.contains_key(token) && c.registered_members[token].contains(account))
            ==> drop_request(c, account, token) == Err::<FtTransferView, ContractError>(
            ContractError::AlreadyClaimedDrop,
        ),
        !(c.registered_members.contains_key(token) && c.registered_members[token].contains(account))
            ==> drop_request(c, account, token) == Ok::<FtTransferView, ContractError>(
            FtTransferView {
                token_contract: token,
                receiver_id: account,
                amount: 10000000000000000000000000000,
                memo: TransferMemo::Airdrop,
                callback: CallbackView::DropFt { account_id: account, ft_contract_id: token },
            },
        ),
{
}

/// A storage registration asks exactly the storage deposit and forwards it to
/// the token contract for the caller; it keeps every earlier registration,
/// registers the caller, and changes nothing but the registrations.  A caller
/// new to the store is listed at the end of the token's set.
pub proof fn law_registration_keeps_registrations(c: ContractView, account: Seq<char>, token: Seq<char>, deposit: u128)
    requires
        c.depositted_for_storage.lens.contains_key(token) ==> c.depositted_for_storage.lens[token]
            <= c.depositted_for_storage.slots.len(),
    ensures
        deposit != 8590000000000000000000 ==> deposit_outcome(c, account, deposit, token) == Err::<
            (ContractView, crate::actions::StorageDepositView),
            ContractError,
        >(ContractError::WrongDeposit),
        deposit_outcome(c, account, deposit, token) matches Ok(r) ==> {
            let before = c.depositted_for_storage;
            let after = r.0.depositted_for_storage;
            let len: int = if before.lens.contains_key(token) {
                before.lens[token] as int
            } else {
                0
            };
            &&& r.1 == (crate::actions::StorageDepositView {
                token_contract: token,
                account_id: account,
                deposit: 8590000000000000000000,
            })
            &&& r.0 == (ContractView { depositted_for_storage: after, ..c })
            &&& registered_with(after, account, token)
            &&& forall|a: Seq<char>, t: Seq<char>|
                #[trigger] registered_with(before, a, t) ==> registered_with(after, a, t)
            &&& !before.indexed.contains(account) ==> after.slots.subrange(0, after.lens[token] as int)
                == before.slots.subrange(0, len).push(account)
        },
{
    if let Ok(r) = deposit_outcome(c, account, deposit, token) {
        let before = c.depositted_for_storage;
        let after = r.0.depositted_for_storage;
        if !before.indexed.contains(account) {
            assert(after.indexed[after.indexed.len() - 1] == account);
            let len: int = if before.lens.contains_key(token) {
                before.lens[token] as int
            } else {
                0
            };
            assert(after.slots.subrange(0, after.lens[token] as int) =~= before.slots.subrange(0, len).push(
                account,
            ));
        }
        assert forall|a: Seq<char>, t: Seq<char>| #[trigger] registered_with(before, a, t) implies registered_with(
            after,
            a,
            t,
        ) by {
            if !before.indexed.contains(account) {
                let k = choose|k: int| 0 <= k < before.indexed.len() && before.indexed[k] == a;
                assert(after.indexed[k] == a);
            }
        }
    }
}

proof fn lemma_last_plan_wins(apys: Seq<ApyView>, i: int)
    requires
        0 <= i < apys.len(),
        forall|j: int| i < j < apys.len() ==> #[trigger] apys[j].apy_key != apys[i].apy_key,
    ensures
        apy_table(apys).contains_key(apys[i].apy_key),
        apy_table(apys)[apys[i].apy_key] == apys[i],
    decreases apys.len(),
{
    if i < apys.len() - 1 {
        let init = apys.drop_last();
        assert forall|j: int| i < j < init.len() implies #[trigger] init[j].apy_key != init[i].apy_key by {
            assert(init[j] == apys[j]);
        }
        lemma_last_plan_wins(init, i);
        assert(apys.last().apy_key != apys[i].apy_key);
    }
}

/// A fresh contract holds no stake, claim, airdrop or registration, starts
/// its nonce at 0, and offers under each key the last plan listed with it.
pub proof fn law_fresh_contract_starts_empty(owner: Seq<char>, fts: Seq<FtView>, apys: Seq<ApyView>)
    ensures
        initial_state(owner, fts, apys).owner_id == owner,
        initial_state(owner, fts, apys).staking_nonce == 0,
        initial_state(owner, fts, apys).staking_history.dom().is_empty(),
        initial_state(owner, fts, apys).claim_history.dom().is_empty(),
        initial_state(owner, fts, apys).registered_members.dom().is_empty(),
        initial_state(owner, fts, apys).depositted_for_storage.lens.dom().is_empty(),
        initial_state(owner, fts, apys).depositted_for_storage.indexed.len() == 0,
        forall|i: int|
            0 <= i < apys.len() && (forall|j: int| i < j < apys.len() ==> #[trigger] apys[j].apy_key != apys[i].apy_key)
                ==> apy_table(apys)[#[trigger] apys[i].apy_key] == apys[i],
{
    assert forall|i: int|
        0 <= i < apys.len() && (forall|j: int| i < j < apys.len() ==> #[trigger] apys[j].apy_key != apys[i].apy_key)
        implies apy_table(apys)[#[trigger] apys[i].apy_key] == apys[i] by {
        lemma_last_plan_wins(apys, i);
    }
}

/// A transfer that failed changes nothing: the call backs that follow it
/// leave the state as it was.
pub proof fn law_failed_transfer_changes_nothing(
    c: ContractView,
    stake_id: u128,
    staker: Seq<char>,
    prior: Option<ClaimHistory>,
    claim_count: u64,
    now: u64,
    account: Seq<char>,
    token: Seq<char>,
)
    ensures
        unstake_callback_outcome(c, false, stake_id, staker) == Ok::<ContractView, ContractError>(c),
        claim_callback_outcome(c, false, stake_id, prior, claim_count, now) == Ok::<ContractView, ContractError>(c),
        drop_callback_outcome(c, false, account, token) == c,
{
}

/// A stake is found by its id as soon as it is made: it stands last in its
/// sender's history, and no earlier stake there has its id.
pub proof fn law_new_stake_found_by_id(
    c: ContractView,
    predecessor: Seq<char>,
    sender: Seq<char>,
    amount: u128,
    args: Option<StakeArgsView>,
    now: u64,
)
    requires
        ledger_consistent(c),
        stake_outcome(c, predecessor, sender, amount, args, now) is Ok,
    ensures
        ({
            let c2 = stake_outcome(c, predecessor, sender, amount, args, now)->Ok_0;
            let h2 = history_of(c2, sender);
            &&& h2.last() == new_stake(c2.staking_nonce, args->Some_0, amount, seconds(now))
            &&& stake_position(h2, c2.staking_nonce) == Some((h2.len() - 1) as int)
        }),
{
    let c2 = stake_outcome(c, predecessor, sender, amount, args, now)->Ok_0;
    let h2 = history_of(c2, sender);
    let old_h = history_of(c, sender);
    law_stake_keeps_ledger(c, predecessor, sender, amount, args, now);
    assert forall|j: int| 0 <= j < h2.len() - 1 implies #[trigger] h2[j].stake_id != c2.staking_nonce by {
        assert(c.staking_history.contains_key(sender));
        assert(h2[j] == c.staking_history[sender][j]);
        assert(c.staking_history[sender][j].stake_id < c2.staking_nonce);
    }
    let last = h2.len() - 1;
    assert(first_with_id(h2, c2.staking_nonce, last));
    let k = choose|k: int| first_with_id(h2, c2.staking_nonce, k);
    assert(k == last);
}

/// No reward is paid within the first minute of a stake, when no claim was
/// ever recorded under its id.
pub proof fn law_no_reward_in_first_minute(
    c: ContractView,
    predecessor: Seq<char>,
    sender: Seq<char>,
    amount: u128,
    args: Option<StakeArgsView>,
    now: u64,
    later: u64,
)
    requires
        ledger_consistent(c),
        stake_outcome(c, predecessor, sender, amount, args, now) is Ok,
        !c.claim_history.contains_key((c.staking_nonce + 1) as u128),
        seconds(later) < seconds(now) + ONE_MINUTE,
    ensures
        claim_request(
            stake_outcome(c, predecessor, sender, amount, args, now)->Ok_0,
            sender,
            (c.staking_nonce + 1) as u128,
            later,
        ) is Err,
{
    let c2 = stake_outcome(c, predecessor, sender, amount, args, now)->Ok_0;
    law_new_stake_found_by_id(c, predecessor, sender, amount, args, now);
    let h2 = history_of(c2, sender);
    assert(c2.staking_history.contains_key(sender));
    assert(c2.claim_history.get(c2.staking_nonce) is None);
    let stake = h2[h2.len() - 1];
    assert(stake.staked_at == seconds(now));
    assert(elapsed_minutes(None, stake, seconds(later)) is Err);
}

/// A stake cannot be unstaked before its lock period is over.
pub proof fn law_no_unstake_before_lock(
    c: ContractView,
    predecessor: Seq<char>,
    sender: Seq<char>,
    amount: u128,
    args: Option<StakeArgsView>,
    now: u64,
    later: u64,
)
    requires
        ledger_consistent(c),
        stake_outcome(c, predecessor, sender, amount, args, now) is Ok,
        seconds(later) < seconds(now) + args->Some_0.duration,
    ensures
        unstake_request(
            stake_outcome(c, predecessor, sender, amount, args, now)->Ok_0,
            sender,
            (c.staking_nonce + 1) as u128,
            later,
        ) is Err,
{
    let c2 = stake_outcome(c, predecessor, sender, amount, args, now)->Ok_0;
    law_new_stake_found_by_id(c, predecessor, sender, amount, args, now);
    assert(c2.staking_history.contains_key(sender));
}

/// Once a claim is recorded at time `now`, no claim of the same stake is paid
/// until a full minute has passed.
pub proof fn law_claims_a_minute_apart(
    c: ContractView,
    stake_id: u128,
    prior: Option<ClaimHistory>,
    claim_count: u64,
    now: u64,
    claimer: Seq<char>,
    later: u64,
)
    requires
        claim_callback_outcome(c, true, stake_id, prior, claim_count, now) is Ok,
        seconds(later) < seconds(now) + ONE_MINUTE,
    ensures
        claim_request(claim_callback_outcome(c, true, stake_id, prior, claim_count, now)->Ok_0, claimer, stake_id, later) is Err,
{
    let c2 = claim_callback_outcome(c, true, stake_id, prior, claim_count, now)->Ok_0;
    assert(c2.claim_history.contains_key(stake_id));
    assert(c2.claim_history[stake_id].last_claimed_at == seconds(now));
    if c2.staking_history.contains_key(claimer) {
        let h = c2.staking_history[claimer];
        if let Some(i) = stake_position(h, stake_id) {
            assert(elapsed_minutes(c2.claim_history.get(stake_id), h[i], seconds(later)) is Err);
        }
    }
}

/// What a recorded claim holds: the time of the claim, and a count that is
/// the minutes paid for on a first claim and one more than before otherwise.
pub proof fn law_claim_recorded(
    c: ContractView,
    stake_id: u128,
    prior: Option<ClaimHistory>,
    claim_count: u64,
    now: u64,
)
    requires
        claim_callback_outcome(c, true, stake_id, prior, claim_count, now) is Ok,
    ensures
        claim_callback_outcome(c, true, stake_id, prior, claim_count, now)->Ok_0.claim_history.get(stake_id) == Some(
            ClaimHistory {
                last_claimed_at: seconds(now),
                claim_count: match prior {
                    None => claim_count as u8,
                    Some(h) => (h.claim_count + 1) as u8,
                },
            },
        ),
{
}

/// An airdrop goes once to each account: once it arrived, the account is a
/// member and a second airdrop of the token to it is refused.
pub proof fn law_airdrop_once(c: ContractView, account: Seq<char>, token: Seq<char>)
    ensures
        members_of(drop_callback_outcome(c, true, account, token), token).contains(account),
        drop_request(drop_callback_outcome(c, true, account, token), account, token) == Err::<
            crate::actions::FtTransferView,
            ContractError,
        >(ContractError::AlreadyClaimedDrop),
{
    let c2 = drop_callback_outcome(c, true, account, token);
    let m = members_of(c2, token);
    assert(m[m.len() - 1] == account);
}

/// A storage registration is recorded, and registering again changes nothing more.
pub proof fn law_registration_recorded(c: ContractView, account: Seq<char>, token: Seq<char>)
    requires
        deposit_outcome(c, account, STORAGE_DEPOSIT, token) is Ok,
    ensures
        ({
            let c2 = deposit_outcome(c, account, STORAGE_DEPOSIT, token)->Ok_0.0;
            &&& registered_with(c2.depositted_for_storage, account, token)
            &&& deposit_outcome(c2, account, STORAGE_DEPOSIT, token) is Ok
            &&& deposit_outcome(c2, account, STORAGE_DEPOSIT, token)->Ok_0.0 == c2
        }),
{
    let c2 = deposit_outcome(c, account, STORAGE_DEPOSIT, token)->Ok_0.0;
    let r = c.depositted_for_storage;
    let r2 = c2.depositted_for_storage;
    if !r.indexed.contains(account) {
        assert(r2.indexed[r2.indexed.len() - 1] == account);
    }
    assert(r2.indexed.contains(account));
    assert(r2.lens.contains_key(token));
    let c3 = deposit_outcome(c2, account, STORAGE_DEPOSIT, token)->Ok_0.0;
    assert(c3.depositted_for_storage.lens =~= r2.lens);
    assert(c3.depositted_for_storage =~= r2);
    assert(c3 =~= c2);
}

proof fn lemma_apy_table_lists(apys: Seq<ApyView>)
    ensures
        forall|i: int|
            0 <= i < apys.len() ==> apy_table(apys).contains_key(#[trigger] apys[i].apy_key),
        forall|k: Seq<char>| #[trigger] apy_table(apys).contains_key(k) ==> apy_table(apys)[k].apy_key == k,
    decreases apys.len(),
{
    if apys.len() > 0 {
        let init = apys.drop_last();
        lemma_apy_table_lists(init);
        assert forall|i: int| 0 <= i < apys.len() implies apy_table(apys).contains_key(#[trigger] apys[i].apy_key) by {
            if i < apys.len() - 1 {
                assert(apys[i] == init[i]);
            }
        }
        assert forall|k: Seq<char>| #[trigger] apy_table(apys).contains_key(k) implies apy_table(apys)[k].apy_key
            == k by {
            if k != apys.last().apy_key {
                assert(apy_table(init).contains_key(k));
            }
        }
    }
}

proof fn lemma_ft_table_lists(base: Map<Seq<char>, FtView>, fts: Seq<FtView>, plans: Map<Seq<char>, ApyView>)
    ensures
        forall|i: int|
            #![trigger fts[i]]
            0 <= i < fts.len() ==> ft_table(base, fts, plans).contains_key(fts[i].account_id) && ft_table(
                base,
                fts,
                plans,
            )[fts[i].account_id].apy_against_duration == Some(plans),
    decreases fts.len(),
{
    if fts.len() > 0 {
        let init = fts.drop_last();
        lemma_ft_table_lists(base, init, plans);
        assert forall|i: int| #![trigger fts[i]] 0 <= i < fts.len() implies ft_table(base, fts, plans).contains_key(
            fts[i].account_id,
        ) && ft_table(base, fts, plans)[fts[i].account_id].apy_against_duration == Some(plans) by {
            if i < fts.len() - 1 && fts[i].account_id != fts.last().account_id {
                assert(fts[i] == init[i]);
            }
        }
    }
}

proof fn lemma_token_ids_list(base: Seq<Seq<char>>, fts: Seq<FtView>)
    ensures
        forall|i: int| 0 <= i < fts.len() ==> token_ids(base, fts).contains(#[trigger] fts[i].account_id),
        forall|i: int| 0 <= i < base.len() ==> token_ids(base, fts).contains(#[trigger] base[i]),
        base.no_duplicates() ==> token_ids(base, fts).no_duplicates(),
    decreases fts.len(),
{
    if fts.len() > 0 {
        let init = fts.drop_last();
        lemma_token_ids_list(base, init);
        let prev = token_ids(base, init);
        let x = fts.last().account_id;
        if !prev.contains(x) {
            assert(prev.push(x)[prev.len() as int] == x);
            assert forall|y: Seq<char>| prev.contains(y) implies prev.push(x).contains(y) by {
                let k = choose|k: int| 0 <= k < prev.len() && prev[k] == y;
                assert(prev.push(x)[k] == y);
            }
        }
        assert forall|i: int| 0 <= i < fts.len() implies token_ids(base, fts).contains(#[trigger] fts[i].account_id) by {
            if i < fts.len() - 1 {
                assert(fts[i] == init[i]);
            }
        }
    }
}

/// A fresh contract approves every token it is given, each with every plan
/// it is given, found under the plan's key.
pub proof fn law_fresh_contract_offers_all_plans(owner: Seq<char>, fts: Seq<FtView>, apys: Seq<ApyView>)
    ensures
        ({
            let c = initial_state(owner, fts, apys);
            &&& c.approved_ft_token_ids.no_duplicates()
            &&& forall|i: int|
                #![trigger fts[i]]
                0 <= i < fts.len() ==> {
                    &&& c.approved_ft_token_ids.contains(fts[i].account_id)
                    &&& c.approved_fts.contains_key(fts[i].account_id)
                    &&& c.approved_fts[fts[i].account_id].apy_against_duration == Some(apy_table(apys))
                }
            &&& forall|j: int|
                #![trigger apys[j]]
                0 <= j < apys.len() ==> apy_table(apys).contains_key(apys[j].apy_key) && apy_table(
                    apys,
                )[apys[j].apy_key].apy_key == apys[j].apy_key
        }),
{
    lemma_apy_table_lists(apys);
    lemma_ft_table_lists(Map::empty(), fts, apy_table(apys));
    lemma_token_ids_list(Seq::empty(), fts);
    assert forall|j: int| #![trigger apys[j]] 0 <= j < apys.len() implies apy_table(apys).contains_key(
        apys[j].apy_key,
    ) && apy_table(apys)[apys[j].apy_key].apy_key == apys[j].apy_key by {
        assert(apy_table(apys).contains_key(apys[j].apy_key));
    }
}

/// A later claim is never paid less: for the same stake and plan, the reward
/// does not decrease as the minutes grow.
pub proof fn law_reward_grows_with_time(amount: u128, rate: u16, fewer: u64, more: u64, min_duration: u8)
    requires
        fewer <= more,
        reward_amount(amount, rate, more, min_duration) is Ok,
    ensures
        reward_amount(amount, rate, fewer, min_duration) is Ok,
        reward_amount(amount, rate, fewer, min_duration)->Ok_0 <= reward_amount(amount, rate, more, min_duration)->Ok_0,
{
    let per_minute = (amount * rate / 100) / 10;
    assert(per_minute >= 0) by (nonlinear_arith)
        requires
            amount >= 0,
            rate >= 0,
            per_minute == (amount * rate / 100) / 10,
    ;
    assert(per_minute * fewer <= per_minute * more) by (nonlinear_arith)
        requires
            per_minute >= 0,
            fewer <= more,
    ;
    let d = min_duration as int;
    assert(per_minute * fewer / d <= per_minute * more / d) by (nonlinear_arith)
        requires
            d > 0,
            0 <= per_minute * fewer <= per_minute * more,
    ;
}

} // verus!
