use vstd::prelude::*;
use crate::codec::VaultEvent;
use crate::indexer::{
    LedgerView, event_step, apply_all, commit, signature_result, transactions_processed, deposit_vault,
    signed_by, deposit_text, withdraw_text,
};
use crate::records::{insert_tx_result, simple_tx_view};
use crate::vault_repo::{
    VaultView, balances_consistent, counters_consistent, index_of, move_vault, move_at, moved,
    write_check, upsert_result, new_vault_view, set_balance_result, keys_unique, stored, lock_result,
    unlock_result, transfer_result, sum_totals,
};

verus! {

pub open spec fn all_balances_consistent(vs: Seq<VaultView>) -> bool {
    forall|i: int| 0 <= i < vs.len() ==> balances_consistent(#[trigger] vs[i])
}

pub open spec fn all_counters_consistent(vs: Seq<VaultView>) -> bool {
    forall|i: int| 0 <= i < vs.len() ==> counters_consistent(#[trigger] vs[i])
}

proof fn lemma_index_of_in(vs: Seq<VaultView>, pda: Seq<char>)
    ensures
        index_of(vs, pda) matches Some(i) ==> 0 <= i < vs.len() && vs[i].vault_pda == pda,
{
}

proof fn lemma_move_keeps_balances(vs: Seq<VaultView>, pda: Seq<char>, dt: int, dl: int, da: int, dw: int, now: int)
    requires
        all_balances_consistent(vs),
        dt == dl + da,
        move_vault(vs, pda, dt, dl, da, dw, now) is Ok,
    ensures
        all_balances_consistent(move_vault(vs, pda, dt, dl, da, dw, now)->Ok_0),
{
    lemma_index_of_in(vs, pda);
    match index_of(vs, pda) {
        None => {},
        Some(i) => {
            let nv = moved(vs[i], dt, dl, da, dw, now);
            assert(write_check(nv) is Ok);
            let r = vs.update(i, nv);
            assert forall|j: int| 0 <= j < r.len() implies balances_consistent(#[trigger] r[j]) by {
                if j != i {
                    assert(r[j] == vs[j]);
                }
            };
        },
    }
}

proof fn lemma_move_keeps_counters(vs: Seq<VaultView>, pda: Seq<char>, dt: int, dl: int, da: int, dw: int, now: int)
    requires
        all_counters_consistent(vs),
        dt == -dw,
        move_vault(vs, pda, dt, dl, da, dw, now) is Ok,
    ensures
        all_counters_consistent(move_vault(vs, pda, dt, dl, da, dw, now)->Ok_0),
{
    lemma_index_of_in(vs, pda);
    match index_of(vs, pda) {
        None => {},
        Some(i) => {
            let nv = moved(vs[i], dt, dl, da, dw, now);
            let r = vs.update(i, nv);
            assert forall|j: int| 0 <= j < r.len() implies counters_consistent(#[trigger] r[j]) by {
                if j != i {
                    assert(r[j] == vs[j]);
                }
            };
        },
    }
}

proof fn lemma_upsert_new_vault(vs: Seq<VaultView>, row: VaultView)
    requires
        row.total_balance == 0 && row.locked_balance == 0 && row.available_balance == 0,
        row.total_deposited == 0 && row.total_withdrawn == 0,
    ensures
        all_balances_consistent(vs) ==> all_balances_consistent(upsert_result(vs, row)),
        all_counters_consistent(vs) ==> all_counters_consistent(upsert_result(vs, row)),
{
    lemma_index_of_in(vs, row.vault_pda);
    let r = upsert_result(vs, row);
    match index_of(vs, row.vault_pda) {
        None => {
            assert forall|j: int| 0 <= j < r.len() && all_balances_consistent(vs) implies balances_consistent(#[trigger] r[j]) by {
                if j < vs.len() {
                    assert(r[j] == vs[j]);
                }
            };
            assert forall|j: int| 0 <= j < r.len() && all_counters_consistent(vs) implies counters_consistent(#[trigger] r[j]) by {
                if j < vs.len() {
                    assert(r[j] == vs[j]);
                }
            };
        },
        Some(i) => {
            assert forall|j: int| 0 <= j < r.len() && all_balances_consistent(vs) implies balances_consistent(#[trigger] r[j]) by {
                if j != i {
                    assert(r[j] == vs[j]);
                }
            };
            assert forall|j: int| 0 <= j < r.len() && all_counters_consistent(vs) implies counters_consistent(#[trigger] r[j]) by {
                if j != i {
                    assert(r[j] == vs[j]);
                }
            };
        },
    }
}

/// The target of a deposit event holds no locked collateral.
pub open spec fn deposit_target_unlocked(m: LedgerView, program: Seq<u8>, e: VaultEvent) -> bool {
    match e {
        VaultEvent::Deposit { user, .. } => forall|i: int|
            0 <= i < m.vaults.len() && deposit_vault(program, user@) == Ok::<Seq<char>, crate::indexer::IndexError>(#[trigger] m.vaults[i].vault_pda)
                ==> m.vaults[i].locked_balance == 0,
        _ => true,
    }
}

/// After every committed event each vault still has
/// `total = available + locked` and `0 <= locked <= total`. A deposit sets
/// total and available both to the event's new balance, so this holds for it
/// when the vault it lands in has nothing locked.
pub proof fn lemma_event_keeps_balances(
    m: LedgerView,
    program: Seq<u8>,
    sig: Seq<char>,
    slot: int,
    block_time: int,
    now: int,
    e: VaultEvent,
)
    requires
        all_balances_consistent(m.vaults),
        deposit_target_unlocked(m, program, e),
        event_step(m, program, sig, slot, block_time, now, e) is Ok,
    ensures
        all_balances_consistent(event_step(m, program, sig, slot, block_time, now, e)->Ok_0.vaults),
{
    match e {
        VaultEvent::VaultInitialized { vault, owner, mint, timestamp } => {
            lemma_upsert_new_vault(m.vaults, new_vault_view(vault@, owner@, mint@, timestamp as int));
        },
        VaultEvent::Deposit { user, amount, new_balance, timestamp } => {
            let pda = deposit_vault(program, user@)->Ok_0;
            let vs = m.vaults;
            lemma_index_of_in(vs, pda);
            match index_of(vs, pda) {
                None => {},
                Some(i) => {
                    let r = set_balance_result(vs, pda, new_balance as int, timestamp as int)->Ok_0;
                    assert(vs[i].locked_balance == 0);
                    assert forall|j: int| 0 <= j < r.len() implies balances_consistent(#[trigger] r[j]) by {
                        if j != i {
                            assert(r[j] == vs[j]);
                        }
                    };
                },
            }
        },
        VaultEvent::Withdraw { vault, user, amount } => {
            lemma_move_keeps_balances(m.vaults, vault@, -amount, 0, -amount, amount as int, now);
        },
        VaultEvent::Lock { vault, amount } => {
            lemma_move_keeps_balances(m.vaults, vault@, 0, amount as int, -amount, 0, now);
        },
        VaultEvent::Unlock { vault, amount } => {
            lemma_move_keeps_balances(m.vaults, vault@, 0, -amount, amount as int, 0, now);
        },
        VaultEvent::Transfer { from, to, amount } => {
            lemma_move_keeps_balances(m.vaults, from@, -amount, 0, -amount, 0, now);
            let debited = move_vault(m.vaults, from@, -amount, 0, -amount, 0, now)->Ok_0;
            lemma_move_keeps_balances(debited, to@, amount as int, 0, amount as int, 0, now);
        },
        _ => {},
    }
}

/// After every committed event other than a transfer each vault still has
/// `total_deposited - total_withdrawn = total_balance`. A transfer moves
/// balances between vaults without touching either counter.
pub proof fn lemma_event_keeps_counters(
    m: LedgerView,
    program: Seq<u8>,
    sig: Seq<char>,
    slot: int,
    block_time: int,
    now: int,
    e: VaultEvent,
)
    requires
        all_counters_consistent(m.vaults),
        !(e is Transfer),
        event_step(m, program, sig, slot, block_time, now, e) is Ok,
    ensures
        all_counters_consistent(event_step(m, program, sig, slot, block_time, now, e)->Ok_0.vaults),
{
    match e {
        VaultEvent::VaultInitialized { vault, owner, mint, timestamp } => {
            lemma_upsert_new_vault(m.vaults, new_vault_view(vault@, owner@, mint@, timestamp as int));
        },
        VaultEvent::Deposit { user, amount, new_balance, timestamp } => {
            let pda = deposit_vault(program, user@)->Ok_0;
            let vs = m.vaults;
            lemma_index_of_in(vs, pda);
            match index_of(vs, pda) {
                None => {},
                Some(i) => {
                    let r = set_balance_result(vs, pda, new_balance as int, timestamp as int)->Ok_0;
                    assert forall|j: int| 0 <= j < r.len() implies counters_consistent(#[trigger] r[j]) by {
                        if j != i {
                            assert(r[j] == vs[j]);
                        }
                    };
                },
            }
        },
        VaultEvent::Withdraw { vault, user, amount } => {
            lemma_move_keeps_counters(m.vaults, vault@, -amount, 0, -amount, amount as int, now);
        },
        VaultEvent::Lock { vault, amount } => {
            lemma_move_keeps_counters(m.vaults, vault@, 0, amount as int, -amount, 0, now);
        },
        VaultEvent::Unlock { vault, amount } => {
            lemma_move_keeps_counters(m.vaults, vault@, 0, -amount, amount as int, 0, now);
        },
        _ => {},
    }
}

proof fn lemma_apply_all_frame(m: LedgerView, program: Seq<u8>, sig: Seq<char>, slot: int, block_time: int, now: int, es: Seq<VaultEvent>)
    requires
        signed_by(m.transactions, m.processed, sig),
        apply_all(m, program, sig, slot, block_time, now, es) is Ok,
    ensures
        ({
            let m1 = apply_all(m, program, sig, slot, block_time, now, es)->Ok_0;
            &&& m1.processed == m.processed
            &&& signed_by(m1.transactions, m.processed, sig)
        }),
    decreases es.len(),
{
    if es.len() > 0 {
        lemma_apply_all_frame(m, program, sig, slot, block_time, now, es.drop_last());
        let m0 = apply_all(m, program, sig, slot, block_time, now, es.drop_last())->Ok_0;
        let e = es.last();
        match e {
            VaultEvent::Deposit { user, amount, new_balance, timestamp } => {
                let pda = deposit_vault(program, user@)->Ok_0;
                let t = simple_tx_view(pda, Some(user@), sig, deposit_text(), (amount as i64) as int, slot, block_time);
                let r = insert_tx_result(m0.transactions, t);
                assert forall|i: int| 0 <= i < r.len() implies m.processed.contains(#[trigger] r[i].tx_signature) || r[i].tx_signature == sig by {
                    if i < m0.transactions.len() {
                        assert(r[i] == m0.transactions[i]);
                    }
                };
            },
            VaultEvent::Withdraw { vault, user, amount } => {
                let t = simple_tx_view(vault@, Some(user@), sig, withdraw_text(), (amount as i64) as int, slot, block_time);
                let r = insert_tx_result(m0.transactions, t);
                assert forall|i: int| 0 <= i < r.len() implies m.processed.contains(#[trigger] r[i].tx_signature) || r[i].tx_signature == sig by {
                    if i < m0.transactions.len() {
                        assert(r[i] == m0.transactions[i]);
                    }
                };
            },
            _ => {},
        }
    }
}

/// Applying the same signature a second time is a no-op: once a signature
/// has been applied, any later attempt with it leaves the store as it is.
pub proof fn lemma_replay_is_noop(
    m: LedgerView,
    program: Seq<u8>,
    sig: Seq<char>,
    es: Seq<VaultEvent>,
    slot: int,
    block_time: Option<i64>,
    now: int,
    es2: Seq<VaultEvent>,
    slot2: int,
    block_time2: Option<i64>,
    now2: int,
)
    requires
        transactions_processed(m),
        signature_result(m, program, sig, es, slot, block_time, now) is Ok,
    ensures
        ({
            let m1 = signature_result(m, program, sig, es, slot, block_time, now)->Ok_0;
            signature_result(m1, program, sig, es2, slot2, block_time2, now2) == Ok::<LedgerView, crate::indexer::IndexError>(m1)
        }),
{
    if !m.processed.contains(sig) {
        let bt = match block_time {
            Some(t) => t as int,
            None => 0,
        };
        assert(signed_by(m.transactions, m.processed, sig));
        lemma_apply_all_frame(m, program, sig, slot, bt, now, es);
        let m1 = apply_all(m, program, sig, slot, bt, now, es)->Ok_0;
        let c = commit(m1, sig, block_time);
        assert(c.processed[c.processed.len() - 1] == sig);
    }
}

/// Every signature recorded among the transactions is also among the
/// processed signatures, after any signature is applied.
pub proof fn lemma_transactions_stay_processed(
    m: LedgerView,
    program: Seq<u8>,
    sig: Seq<char>,
    es: Seq<VaultEvent>,
    slot: int,
    block_time: Option<i64>,
    now: int,
)
    requires
        transactions_processed(m),
        signature_result(m, program, sig, es, slot, block_time, now) is Ok,
    ensures
        transactions_processed(signature_result(m, program, sig, es, slot, block_time, now)->Ok_0),
{
    if !m.processed.contains(sig) {
        let bt = match block_time {
            Some(t) => t as int,
            None => 0,
        };
        assert(signed_by(m.transactions, m.processed, sig));
        lemma_apply_all_frame(m, program, sig, slot, bt, now, es);
        let m1 = apply_all(m, program, sig, slot, bt, now, es)->Ok_0;
        let c = commit(m1, sig, block_time);
        assert forall|i: int| 0 <= i < c.transactions.len() implies c.processed.contains(#[trigger] c.transactions[i].tx_signature) by {
            let s = c.transactions[i].tx_signature;
            if m.processed.contains(s) {
                let j = choose|j: int| 0 <= j < m.processed.len() && m.processed[j] == s;
                assert(c.processed[j] == s);
            } else {
                assert(c.processed[c.processed.len() - 1] == s);
            }
        };
    }
}

/// Every deposit of the run lands, when it is applied, in a vault with
/// nothing locked.
pub open spec fn run_deposits_unlocked(
    m: LedgerView,
    program: Seq<u8>,
    sig: Seq<char>,
    slot: int,
    block_time: int,
    now: int,
    es: Seq<VaultEvent>,
) -> bool {
    forall|k: int|
        0 <= k < es.len() && #[trigger] apply_all(m, program, sig, slot, block_time, now, es.subrange(0, k)) is Ok
            ==> deposit_target_unlocked(
            apply_all(m, program, sig, slot, block_time, now, es.subrange(0, k))->Ok_0,
            program,
            es[k],
        )
}

proof fn lemma_run_keeps_vault_laws(
    m: LedgerView,
    program: Seq<u8>,
    sig: Seq<char>,
    slot: int,
    block_time: int,
    now: int,
    es: Seq<VaultEvent>,
)
    requires
        apply_all(m, program, sig, slot, block_time, now, es) is Ok,
    ensures
        all_balances_consistent(m.vaults) && run_deposits_unlocked(m, program, sig, slot, block_time, now, es)
            ==> all_balances_consistent(apply_all(m, program, sig, slot, block_time, now, es)->Ok_0.vaults),
        all_counters_consistent(m.vaults) && (forall|k: int| 0 <= k < es.len() ==> !(#[trigger] es[k] is Transfer))
            ==> all_counters_consistent(apply_all(m, program, sig, slot, block_time, now, es)->Ok_0.vaults),
    decreases es.len(),
{
    if es.len() > 0 {
        let prefix = es.drop_last();
        assert(es.subrange(0, es.len() - 1) =~= prefix);
        assert forall|k: int| 0 <= k < prefix.len() implies #[trigger] prefix.subrange(0, k) == es.subrange(0, k) by {
            assert(prefix.subrange(0, k) =~= es.subrange(0, k));
        };
        assert(run_deposits_unlocked(m, program, sig, slot, block_time, now, es) ==> run_deposits_unlocked(m, program, sig, slot, block_time, now, prefix)) by {
            if run_deposits_unlocked(m, program, sig, slot, block_time, now, es) {
                assert forall|k: int|
                    0 <= k < prefix.len() && #[trigger] apply_all(m, program, sig, slot, block_time, now, prefix.subrange(0, k)) is Ok
                        implies deposit_target_unlocked(apply_all(m, program, sig, slot, block_time, now, prefix.subrange(0, k))->Ok_0, program, prefix[k]) by {
                    assert(prefix.subrange(0, k) == es.subrange(0, k));
                    assert(apply_all(m, program, sig, slot, block_time, now, es.subrange(0, k)) is Ok);
                };
            }
        };
        lemma_run_keeps_vault_laws(m, program, sig, slot, block_time, now, prefix);
        let m1 = apply_all(m, program, sig, slot, block_time, now, prefix)->Ok_0;
        let e = es.last();
        if all_balances_consistent(m.vaults) && run_deposits_unlocked(m, program, sig, slot, block_time, now, es) {
            assert(apply_all(m, program, sig, slot, block_time, now, es.subrange(0, es.len() - 1)) is Ok);
            lemma_event_keeps_balances(m1, program, sig, slot, block_time, now, e);
        }
        if all_counters_consistent(m.vaults) && (forall|k: int| 0 <= k < es.len() ==> !(#[trigger] es[k] is Transfer)) {
            assert(!(es[es.len() - 1] is Transfer));
            assert forall|k: int| 0 <= k < prefix.len() implies !(#[trigger] prefix[k] is Transfer) by {
                assert(prefix[k] == es[k]);
            };
            lemma_event_keeps_counters(m1, program, sig, slot, block_time, now, e);
        }
    }
}

/// After a committed signature every vault still has
/// `total = available + locked` and `0 <= locked <= total`, when each of its
/// deposits lands in a vault with nothing locked; and, when it holds no
/// transfer, `total_deposited - total_withdrawn = total_balance`.
pub proof fn lemma_signature_keeps_vault_laws(
    m: LedgerView,
    program: Seq<u8>,
    sig: Seq<char>,
    es: Seq<VaultEvent>,
    slot: int,
    block_time: Option<i64>,
    now: int,
)
    requires
        signature_result(m, program, sig, es, slot, block_time, now) is Ok,
    ensures
        ({
            let bt = match block_time {
                Some(t) => t as int,
                None => 0,
            };
            let m1 = signature_result(m, program, sig, es, slot, block_time, now)->Ok_0;
            &&& all_balances_consistent(m.vaults) && run_deposits_unlocked(m, program, sig, slot, bt, now, es)
                ==> all_balances_consistent(m1.vaults)
            &&& all_counters_consistent(m.vaults) && (forall|k: int| 0 <= k < es.len() ==> !(#[trigger] es[k] is Transfer))
                ==> all_counters_consistent(m1.vaults)
        }),
{
    let bt = match block_time {
        Some(t) => t as int,
        None => 0,
    };
    if !m.processed.contains(sig) {
        lemma_run_keeps_vault_laws(m, program, sig, slot, bt, now, es);
    }
}

proof fn lemma_index_after_update(vs: Seq<VaultView>, i: int, nv: VaultView, pda: Seq<char>)
    requires
        keys_unique(vs),
        0 <= i < vs.len(),
        nv.vault_pda == vs[i].vault_pda,
    ensures
        keys_unique(vs.update(i, nv)),
        index_of(vs.update(i, nv), pda) == index_of(vs, pda),
{
    let u = vs.update(i, nv);
    assert forall|k: int| 0 <= k < u.len() implies #[trigger] u[k].vault_pda == vs[k].vault_pda by {};
    if exists|k: int| 0 <= k < vs.len() && vs[k].vault_pda == pda {
        let a = choose|k: int| 0 <= k < vs.len() && vs[k].vault_pda == pda;
        assert(u[a].vault_pda == pda);
        let b = choose|k: int| 0 <= k < u.len() && u[k].vault_pda == pda;
        assert(vs[b].vault_pda == pda);
        assert(a == b);
    } else {
        if exists|k: int| 0 <= k < u.len() && u[k].vault_pda == pda {
            let b = choose|k: int| 0 <= k < u.len() && u[k].vault_pda == pda;
            assert(vs[b].vault_pda == pda);
        }
    }
}

proof fn lemma_index_of_unique(vs: Seq<VaultView>, i: int)
    requires
        keys_unique(vs),
        0 <= i < vs.len(),
    ensures
        index_of(vs, vs[i].vault_pda) == Some(i),
{
    let c = choose|k: int| 0 <= k < vs.len() && vs[k].vault_pda == vs[i].vault_pda;
}

/// Two rows with the same key and the same balances and counters.
pub open spec fn same_balances(a: VaultView, b: VaultView) -> bool {
    &&& a.vault_pda == b.vault_pda
    &&& a.total_balance == b.total_balance
    &&& a.locked_balance == b.locked_balance
    &&& a.available_balance == b.available_balance
    &&& a.total_deposited == b.total_deposited
    &&& a.total_withdrawn == b.total_withdrawn
}

/// Locking an amount and then unlocking it returns every vault to its
/// balances and counters before the lock.
pub proof fn lemma_lock_unlock_round_trip(vs: Seq<VaultView>, pda: Seq<char>, amount: int, t1: int, t2: int)
    requires
        keys_unique(vs),
        forall|k: int| 0 <= k < vs.len() ==> stored(#[trigger] vs[k]),
        0 <= amount,
        lock_result(vs, pda, amount, t1) is Ok,
    ensures
        ({
            let locked = lock_result(vs, pda, amount, t1)->Ok_0;
            &&& unlock_result(locked, pda, amount, t2) is Ok
            &&& unlock_result(locked, pda, amount, t2)->Ok_0.len() == vs.len()
            &&& forall|k: int| 0 <= k < vs.len() ==> same_balances(
                #[trigger] unlock_result(locked, pda, amount, t2)->Ok_0[k],
                vs[k],
            )
        }),
{
    lemma_index_of_in(vs, pda);
    match index_of(vs, pda) {
        None => {},
        Some(i) => {
            let nv = moved(vs[i], 0, amount, -amount, 0, t1);
            let locked = vs.update(i, nv);
            lemma_index_after_update(vs, i, nv, pda);
            assert(stored(vs[i]));
            let back = moved(nv, 0, -amount, amount, 0, t2);
            let r = locked.update(i, back);
            assert forall|k: int| 0 <= k < vs.len() implies same_balances(#[trigger] r[k], vs[k]) by {
                if k != i {
                    assert(r[k] == vs[k]);
                }
            };
        },
    }
}

proof fn lemma_sum_totals_update(vs: Seq<VaultView>, i: int, v: VaultView)
    requires
        0 <= i < vs.len(),
    ensures
        sum_totals(vs.update(i, v)) == sum_totals(vs) - vs[i].total_balance + v.total_balance,
    decreases vs.len(),
{
    let u = vs.update(i, v);
    if i == vs.len() - 1 {
        assert(u.drop_last() =~= vs.drop_last());
    } else {
        assert(u.drop_last() =~= vs.drop_last().update(i, v));
        lemma_sum_totals_update(vs.drop_last(), i, v);
    }
}

/// A transfer between two vaults of the store leaves the total value locked
/// unchanged, debiting the source and crediting the destination by the amount
/// when they differ.
pub proof fn lemma_transfer_conserves_tvl(vs: Seq<VaultView>, from: Seq<char>, to: Seq<char>, amount: int, now: int)
    requires
        keys_unique(vs),
        index_of(vs, from) is Some,
        index_of(vs, to) is Some,
        transfer_result(vs, from, to, amount, now) is Ok,
    ensures
        ({
            let r = transfer_result(vs, from, to, amount, now)->Ok_0;
            &&& sum_totals(r) == sum_totals(vs)
            &&& from != to ==> {
                let a = index_of(vs, from)->Some_0;
                let b = index_of(vs, to)->Some_0;
                &&& r[a].total_balance == vs[a].total_balance - amount
                &&& r[a].available_balance == vs[a].available_balance - amount
                &&& r[b].total_balance == vs[b].total_balance + amount
                &&& r[b].available_balance == vs[b].available_balance + amount
            }
        }),
{
    lemma_index_of_in(vs, from);
    lemma_index_of_in(vs, to);
    let a = index_of(vs, from)->Some_0;
    let b = index_of(vs, to)->Some_0;
    let nv = moved(vs[a], -amount, 0, -amount, 0, now);
    let debited = vs.update(a, nv);
    lemma_index_after_update(vs, a, nv, to);
    lemma_sum_totals_update(vs, a, nv);
    let cv = moved(debited[b], amount, 0, amount, 0, now);
    lemma_sum_totals_update(debited, b, cv);
    if from != to {
        assert(a != b);
    }
}

/// Initialising a vault and then depositing into it from its owner leaves the
/// vault with total and available equal to the deposit's new balance, nothing
/// locked, deposits equal to that balance and no withdrawals.
pub proof fn lemma_initialize_then_deposit(
    m: LedgerView,
    program: Seq<u8>,
    sig: Seq<char>,
    slot: int,
    block_time: int,
    now: int,
    vault: String,
    owner: String,
    mint: String,
    created: i64,
    amount: u64,
    new_balance: u64,
    deposited_at: i64,
)
    requires
        keys_unique(m.vaults),
        index_of(m.vaults, vault@) is None,
        deposit_vault(program, owner@) == Ok::<Seq<char>, crate::indexer::IndexError>(vault@),
        new_balance <= i64::MAX,
    ensures
        ({
            let es = seq![
                VaultEvent::VaultInitialized { vault, owner, mint, timestamp: created },
                VaultEvent::Deposit { user: owner, amount, new_balance, timestamp: deposited_at },
            ];
            let r = apply_all(m, program, sig, slot, block_time, now, es);
            let n = m.vaults.len() as int;
            &&& r is Ok
            &&& index_of(r->Ok_0.vaults, vault@) == Some(n)
            &&& r->Ok_0.vaults[n].total_balance == new_balance
            &&& r->Ok_0.vaults[n].available_balance == new_balance
            &&& r->Ok_0.vaults[n].locked_balance == 0
            &&& r->Ok_0.vaults[n].total_deposited == new_balance
            &&& r->Ok_0.vaults[n].total_withdrawn == 0
            &&& r->Ok_0.vaults[n].created_at == created
            &&& r->Ok_0.vaults[n].last_synced_at == deposited_at
        }),
{
    let e1 = VaultEvent::VaultInitialized { vault, owner, mint, timestamp: created };
    let e2 = VaultEvent::Deposit { user: owner, amount, new_balance, timestamp: deposited_at };
    let es = seq![e1, e2];
    assert(es.drop_last() =~= seq![e1]);
    assert(seq![e1].drop_last() =~= Seq::<VaultEvent>::empty());
    let row = new_vault_view(vault@, owner@, mint@, created as int);
    let vs1 = m.vaults.push(row);
    assert(upsert_result(m.vaults, row) == vs1);
    let n = m.vaults.len() as int;
    assert(keys_unique(vs1)) by {
        assert forall|i: int, j: int| 0 <= i < vs1.len() && 0 <= j < vs1.len() && i != j implies vs1[i].vault_pda != vs1[j].vault_pda by {
            if i == n {
                assert(vs1[j] == m.vaults[j]);
            } else if j == n {
                assert(vs1[i] == m.vaults[i]);
            } else {
                assert(vs1[i] == m.vaults[i]);
                assert(vs1[j] == m.vaults[j]);
            }
        };
    };
    lemma_index_of_unique(vs1, n);
    assert(vs1[n].vault_pda == vault@);
    let nv = VaultView {
        total_balance: new_balance as int,
        available_balance: new_balance as int,
        total_deposited: new_balance as int + vs1[n].total_withdrawn,
        last_synced_at: deposited_at as int,
        ..vs1[n]
    };
    assert(write_check(nv) is Ok);
    lemma_index_after_update(vs1, n, nv, vault@);
    assert(apply_all(m, program, sig, slot, block_time, now, Seq::<VaultEvent>::empty()) == Ok::<LedgerView, crate::indexer::IndexError>(m));
    let m1 = LedgerView { vaults: vs1, ..m };
    assert(event_step(m, program, sig, slot, block_time, now, e1) == Ok::<LedgerView, crate::indexer::IndexError>(m1));
    assert(apply_all(m, program, sig, slot, block_time, now, seq![e1]) == Ok::<LedgerView, crate::indexer::IndexError>(m1));
    assert(set_balance_result(vs1, vault@, new_balance as int, deposited_at as int) == Ok::<Seq<VaultView>, crate::vault_repo::LedgerError>(vs1.update(n, nv)));
    assert(event_step(m1, program, sig, slot, block_time, now, e2) is Ok);
    assert(event_step(m1, program, sig, slot, block_time, now, e2)->Ok_0.vaults == vs1.update(n, nv));
}

} // verus!
