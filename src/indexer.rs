use vstd::prelude::*;
use crate::codec::{VaultEvent, ParseError, decode_events, event_records, line_views, well_sized, decodes_to};
use crate::keys::{Key, base58_of, key_from_text};
use crate::records::{
    TransactionRepository, TransactionView, ProcessedEventsRepo, SnapshotRepository, SnapshotView,
    insert_tx_result, simple_tx_view, snapshot_all_result,
};
use crate::transaction_builder::{TransactionBuilder, vault_address};
use crate::vault_repo::{
    VaultRepository, VaultView, LedgerError, upsert_result, new_vault_view, set_balance_result,
    withdraw_result, lock_result, unlock_result, transfer_result,
};
use crate::text::owned_text;

verus! {

/// Why a signature could not be applied; none of its effects are kept.
#[derive(Debug, Clone, Copy, PartialEq, Eq)]
pub enum IndexError {
    /// The transaction carries no signature.
    MissingSignature,
    /// An event record with a known discriminator is malformed.
    Parse(ParseError),
    /// A key in an event is not base58 text of an address.
    InvalidKey,
    /// No program-derived address could be found for a key.
    NoAddress,
    /// A balance write was refused.
    Ledger(LedgerError),
}

/// A confirmed transaction as the indexer reads it.
pub struct ConfirmedTransaction {
    pub signatures: Vec<String>,
    pub slot: u64,
    pub block_time: Option<i64>,
    pub log_messages: Vec<String>,
}

/// The content of the ledger store.
pub struct LedgerView {
    pub vaults: Seq<VaultView>,
    pub transactions: Seq<TransactionView>,
    pub processed: Seq<Seq<char>>,
    pub snapshots: Seq<SnapshotView>,
}

pub open spec fn deposit_text() -> Seq<char> {
    seq!['d', 'e', 'p', 'o', 's', 'i', 't']
}

pub open spec fn withdraw_text() -> Seq<char> {
    seq!['w', 'i', 't', 'h', 'd', 'r', 'a', 'w']
}

/// The vault that a deposit by `user` lands in: the text of the vault address
/// derived from the user's key.
pub open spec fn deposit_vault(program: Seq<u8>, user: Seq<char>) -> Result<Seq<char>, IndexError> {
    match key_from_text(user) {
        None => Err(IndexError::InvalidKey),
        Some(b) => match vault_address(program, b) {
            Some((pda, _)) => Ok(base58_of(pda)),
            None => Err(IndexError::NoAddress),
        },
    }
}

pub open spec fn with_vaults(m: LedgerView, r: Result<Seq<VaultView>, LedgerError>) -> Result<LedgerView, IndexError> {
    match r {
        Ok(vs) => Ok(LedgerView { vaults: vs, ..m }),
        Err(e) => Err(IndexError::Ledger(e)),
    }
}

/// The effect of one event of signature `sig` on the store.
pub open spec fn event_step(
    m: LedgerView,
    program: Seq<u8>,
    sig: Seq<char>,
    slot: int,
    block_time: int,
    now: int,
    e: VaultEvent,
) -> Result<LedgerView, IndexError> {
    match e {
        VaultEvent::VaultInitialized { vault, owner, mint, timestamp } => Ok(
            LedgerView {
                vaults: upsert_result(m.vaults, new_vault_view(vault@, owner@, mint@, timestamp as int)),
                ..m
            },
        ),
        VaultEvent::Deposit { user, amount, new_balance, timestamp } => match deposit_vault(program, user@) {
            Err(err) => Err(err),
            Ok(pda) => {
                let ts = insert_tx_result(
                    m.transactions,
                    simple_tx_view(pda, Some(user@), sig, deposit_text(), (amount as i64) as int, slot, block_time),
                );
                with_vaults(
                    LedgerView { transactions: ts, ..m },
                    set_balance_result(m.vaults, pda, new_balance as int, timestamp as int),
                )
            },
        },
        VaultEvent::Withdraw { vault, user, amount } => {
            let ts = insert_tx_result(
                m.transactions,
                simple_tx_view(vault@, Some(user@), sig, withdraw_text(), (amount as i64) as int, slot, block_time),
            );
            with_vaults(
                LedgerView { transactions: ts, ..m },
                withdraw_result(m.vaults, vault@, amount as int, now),
            )
        },
        VaultEvent::Lock { vault, amount } => with_vaults(m, lock_result(m.vaults, vault@, amount as int, now)),
        VaultEvent::Unlock { vault, amount } => with_vaults(m, unlock_result(m.vaults, vault@, amount as int, now)),
        VaultEvent::Transfer { from, to, amount } => with_vaults(
            m,
            transfer_result(m.vaults, from@, to@, amount as int, now),
        ),
        VaultEvent::ProgramAuthorized { .. } => Ok(m),
        VaultEvent::VaultAuthorityInitialized { .. } => Ok(m),
    }
}

/// The events applied in order; the first refusal stops the run.
pub open spec fn apply_all(
    m: LedgerView,
    program: Seq<u8>,
    sig: Seq<char>,
    slot: int,
    block_time: int,
    now: int,
    es: Seq<VaultEvent>,
) -> Result<LedgerView, IndexError>
    decreases es.len(),
{
    if es.len() == 0 {
        Ok(m)
    } else {
        match apply_all(m, program, sig, slot, block_time, now, es.drop_last()) {
            Ok(m1) => event_step(m1, program, sig, slot, block_time, now, es.last()),
            Err(e) => Err(e),
        }
    }
}

/// Closes a signature: snapshots every vault at the block time, if there is
/// one, and records the signature as processed.
pub open spec fn commit(m: LedgerView, sig: Seq<char>, block_time: Option<i64>) -> LedgerView {
    LedgerView {
        snapshots: match block_time {
            Some(t) => snapshot_all_result(m.snapshots, m.vaults, t as int),
            None => m.snapshots,
        },
        processed: if m.processed.contains(sig) {
            m.processed
        } else {
            m.processed.push(sig)
        },
        ..m
    }
}

/// The effect of a whole signature: nothing when it was processed before,
/// else all its events and the commit, or an error and no effect at all.
pub open spec fn signature_result(
    m: LedgerView,
    program: Seq<u8>,
    sig: Seq<char>,
    es: Seq<VaultEvent>,
    slot: int,
    block_time: Option<i64>,
    now: int,
) -> Result<LedgerView, IndexError> {
    if m.processed.contains(sig) {
        Ok(m)
    } else {
        let bt = match block_time {
            Some(t) => t as int,
            None => 0,
        };
        match apply_all(m, program, sig, slot, bt, now, es) {
            Ok(m1) => Ok(commit(m1, sig, block_time)),
            Err(e) => Err(e),
        }
    }
}

/// Every recorded transaction's signature is among the processed ones.
pub open spec fn transactions_processed(m: LedgerView) -> bool {
    forall|i: int| 0 <= i < m.transactions.len() ==> m.processed.contains(#[trigger] m.transactions[i].tx_signature)
}

/// The off-chain ledger store: vaults, transactions, processed signatures and
/// balance snapshots.
pub struct Ledger {
    vaults: VaultRepository,
    transactions: TransactionRepository,
    processed: ProcessedEventsRepo,
    snapshots: SnapshotRepository,
}

impl View for Ledger {
    type V = LedgerView;

    closed spec fn view(&self) -> LedgerView {
        LedgerView {
            vaults: self.vaults@,
            transactions: self.transactions@,
            processed: self.processed@,
            snapshots: self.snapshots@,
        }
    }
}

impl Ledger {
    /// Tables well formed, and every recorded transaction's signature processed.
    pub closed spec fn wf(&self) -> bool {
        &&& self.vaults.wf()
        &&& self.transactions.wf()
        &&& transactions_processed(self@)
    }

    /// In a well-formed store every recorded transaction's signature is
    /// among the processed signatures.
    pub proof fn lemma_transactions_processed(&self)
        requires
            self.wf(),
        ensures
            transactions_processed(self@),
    {
    }

    pub fn new() -> (r: Ledger)
        ensures
            r.wf(),
            r@.vaults.len() == 0,
            r@.transactions.len() == 0,
            r@.processed.len() == 0,
            r@.snapshots.len() == 0,
    {
        Ledger {
            vaults: VaultRepository::new(),
            transactions: TransactionRepository::new(),
            processed: ProcessedEventsRepo::new(),
            snapshots: SnapshotRepository::new(),
        }
    }

    pub fn vaults(&self) -> (r: &VaultRepository)
        requires
            self.wf(),
        ensures
            r@ == self@.vaults,
            r.wf(),
    {
        &self.vaults
    }

    pub fn transactions(&self) -> (r: &TransactionRepository)
        ensures
            r@ == self@.transactions,
    {
        &self.transactions
    }

    pub fn processed(&self) -> (r: &ProcessedEventsRepo)
        ensures
            r@ == self@.processed,
    {
        &self.processed
    }

    pub fn snapshots(&self) -> (r: &SnapshotRepository)
        ensures
            r@ == self@.snapshots,
    {
        &self.snapshots
    }

    /// Upserts a vault with zero balances, as a `VaultInitialized` event does.
    pub fn insert_new_vault(&mut self, vault_pda: &str, owner_pubkey: &str, mint: &str, timestamp: i64)
        requires
            old(self).wf(),
        ensures
            final(self).wf(),
            final(self)@ == (LedgerView {
                vaults: upsert_result(old(self)@.vaults, new_vault_view(vault_pda@, owner_pubkey@, mint@, timestamp as int)),
                ..old(self)@
            }),
    {
        self.vaults.insert_new_vault(vault_pda, owner_pubkey, mint, timestamp);
    }

    /// Applies one event to the vault and transaction tables. On an error the
    /// tables may be partly written; callers discard them.
    fn apply_event(
        &mut self,
        builder: &TransactionBuilder,
        sig: &str,
        slot: i64,
        block_time: i64,
        now: i64,
        e: &VaultEvent,
    ) -> (r: Result<(), IndexError>)
        requires
            old(self).vaults.wf(),
            old(self).transactions.wf(),
        ensures
            final(self).vaults.wf(),
            final(self).transactions.wf(),
            final(self).processed@ == old(self).processed@,
            final(self).snapshots@ == old(self).snapshots@,
            match event_step(old(self)@, builder.program_id.bytes@, sig@, slot as int, block_time as int, now as int, *e) {
                Ok(m) => r is Ok && final(self)@ == m,
                Err(err) => r == Err::<(), IndexError>(err),
            },
    {
        match e {
            VaultEvent::VaultInitialized { vault, owner, mint, timestamp } => {
                self.vaults.insert_new_vault(vault.as_str(), owner.as_str(), mint.as_str(), *timestamp);
                Ok(())
            },
            VaultEvent::Deposit { user, amount, new_balance, timestamp } => {
                let key = match Key::parse(user.as_str()) {
                    Some(k) => k,
                    None => { return Err(IndexError::InvalidKey); },
                };
                let pda = match builder.derive_vault_pda(&key) {
                    Some((p, _)) => p.to_text(),
                    None => { return Err(IndexError::NoAddress); },
                };
                let kind = owned_text("deposit");
                proof { reveal_strlit("deposit"); }
                assert(kind@ =~= deposit_text());
                self.transactions.insert_simple(
                    pda.as_str(),
                    Some(user.as_str()),
                    sig,
                    kind.as_str(),
                    *amount as i64,
                    slot,
                    block_time,
                );
                match self.vaults.set_balance_from_event(pda.as_str(), *new_balance, *timestamp) {
                    Ok(()) => Ok(()),
                    Err(err) => Err(IndexError::Ledger(err)),
                }
            },
            VaultEvent::Withdraw { vault, user, amount } => {
                let kind = owned_text("withdraw");
                proof { reveal_strlit("withdraw"); }
                assert(kind@ =~= withdraw_text());
                self.transactions.insert_simple(
                    vault.as_str(),
                    Some(user.as_str()),
                    sig,
                    kind.as_str(),
                    *amount as i64,
                    slot,
                    block_time,
                );
                match self.vaults.apply_withdraw(vault.as_str(), *amount, now) {
                    Ok(()) => Ok(()),
                    Err(err) => Err(IndexError::Ledger(err)),
                }
            },
            VaultEvent::Lock { vault, amount } => {
                match self.vaults.apply_lock(vault.as_str(), *amount, now) {
                    Ok(()) => Ok(()),
                    Err(err) => Err(IndexError::Ledger(err)),
                }
            },
            VaultEvent::Unlock { vault, amount } => {
                match self.vaults.apply_unlock(vault.as_str(), *amount, now) {
                    Ok(()) => Ok(()),
                    Err(err) => Err(IndexError::Ledger(err)),
                }
            },
            VaultEvent::Transfer { from, to, amount } => {
                match self.vaults.apply_transfer(from.as_str(), to.as_str(), *amount, now) {
                    Ok(()) => Ok(()),
                    Err(err) => Err(IndexError::Ledger(err)),
                }
            },
            VaultEvent::ProgramAuthorized { .. } => Ok(()),
            VaultEvent::VaultAuthorityInitialized { .. } => Ok(()),
        }
    }
}

/// Every signature of `ts` was processed before, or is `sig`.
pub open spec fn signed_by(ts: Seq<TransactionView>, processed: Seq<Seq<char>>, sig: Seq<char>) -> bool {
    forall|i: int| 0 <= i < ts.len() ==> processed.contains(#[trigger] ts[i].tx_signature) || ts[i].tx_signature == sig
}

proof fn lemma_insert_signed(ts: Seq<TransactionView>, processed: Seq<Seq<char>>, sig: Seq<char>, t: TransactionView)
    requires
        signed_by(ts, processed, sig),
        t.tx_signature == sig,
    ensures
        signed_by(insert_tx_result(ts, t), processed, sig),
{
    let r = insert_tx_result(ts, t);
    assert forall|i: int| 0 <= i < r.len() implies processed.contains(#[trigger] r[i].tx_signature) || r[i].tx_signature == sig by {
        if i < ts.len() {
            assert(r[i] == ts[i]);
        }
    };
}

/// One event leaves the processed set and snapshots alone and records rows
/// only under its own signature.
proof fn lemma_step_frame(m: LedgerView, program: Seq<u8>, sig: Seq<char>, slot: int, block_time: int, now: int, e: VaultEvent, processed: Seq<Seq<char>>)
    requires
        signed_by(m.transactions, processed, sig),
        event_step(m, program, sig, slot, block_time, now, e) is Ok,
    ensures
        ({
            let m1 = event_step(m, program, sig, slot, block_time, now, e)->Ok_0;
            &&& m1.processed == m.processed
            &&& m1.snapshots == m.snapshots
            &&& signed_by(m1.transactions, processed, sig)
        }),
{
    match e {
        VaultEvent::Deposit { user, amount, new_balance, timestamp } => {
            let pda = deposit_vault(program, user@)->Ok_0;
            lemma_insert_signed(m.transactions, processed, sig, simple_tx_view(pda, Some(user@), sig, deposit_text(), (amount as i64) as int, slot, block_time));
        },
        VaultEvent::Withdraw { vault, user, amount } => {
            lemma_insert_signed(m.transactions, processed, sig, simple_tx_view(vault@, Some(user@), sig, withdraw_text(), (amount as i64) as int, slot, block_time));
        },
        _ => {},
    }
}

/// A refusal part-way through a signature's events is the result of the whole run.
proof fn lemma_apply_all_err_extends(m: LedgerView, program: Seq<u8>, sig: Seq<char>, slot: int, block_time: int, now: int, es: Seq<VaultEvent>, k: int)
    requires
        0 <= k <= es.len(),
        apply_all(m, program, sig, slot, block_time, now, es.subrange(0, k)) is Err,
    ensures
        apply_all(m, program, sig, slot, block_time, now, es) == apply_all(m, program, sig, slot, block_time, now, es.subrange(0, k)),
    decreases es.len() - k,
{
    if k == es.len() {
        assert(es.subrange(0, k) =~= es);
    } else {
        assert(es.subrange(0, k + 1).drop_last() =~= es.subrange(0, k));
        lemma_apply_all_err_extends(m, program, sig, slot, block_time, now, es, k + 1);
    }
}

impl Ledger {
    /// Applies the decoded events of signature `signature` as one unit: when
    /// the signature was processed before nothing changes; otherwise every
    /// event in order, then a snapshot of every vault at the block time (when
    /// there is one) and the signature marked processed. On the first refused
    /// event nothing at all is kept.
    pub fn apply_events(
        &mut self,
        program_id: &Key,
        signature: &str,
        events: &Vec<VaultEvent>,
        slot: i64,
        block_time: Option<i64>,
        now: i64,
    ) -> (r: Result<(), IndexError>)
        requires
            old(self).wf(),
        ensures
            final(self).wf(),
            match signature_result(old(self)@, program_id.bytes@, signature@, events@, slot as int, block_time, now as int) {
                Ok(m) => r is Ok && final(self)@ == m,
                Err(e) => r == Err::<(), IndexError>(e) && final(self)@ == old(self)@,
            },
    {
        if self.processed.is_processed(signature) {
            return Ok(());
        }
        let ghost m0 = self@;
        let builder = TransactionBuilder::new(*program_id);
        let bt: i64 = match block_time {
            Some(t) => t,
            None => 0,
        };
        let mut work = Ledger {
            vaults: self.vaults.duplicate(),
            transactions: self.transactions.duplicate(),
            processed: ProcessedEventsRepo::new(),
            snapshots: SnapshotRepository::new(),
        };
        core::mem::swap(&mut work.processed, &mut self.processed);
        core::mem::swap(&mut work.snapshots, &mut self.snapshots);
        assert(work@ == m0);
        assert(signed_by(work@.transactions, m0.processed, signature@)) by {
            assert(transactions_processed(m0));
        };
        let mut i: usize = 0;
        while i < events.len()
            invariant
                0 <= i <= events@.len(),
                !m0.processed.contains(signature@),
                transactions_processed(m0),
                m0 == old(self)@,
                builder.program_id == *program_id,
                work.vaults.wf(),
                work.transactions.wf(),
                work@.processed == m0.processed,
                work@.snapshots == m0.snapshots,
                self.vaults@ == m0.vaults,
                self.transactions@ == m0.transactions,
                self.vaults.wf(),
                self.transactions.wf(),
                apply_all(m0, program_id.bytes@, signature@, slot as int, bt as int, now as int, events@.subrange(0, i as int)) == Ok::<LedgerView, IndexError>(work@),
                signed_by(work@.transactions, m0.processed, signature@),
                bt as int == match block_time { Some(t) => t as int, None => 0int },
            decreases events@.len() - i,
        {
            let ghost before = work@;
            assert(events@.subrange(0, i + 1).drop_last() =~= events@.subrange(0, i as int));
            assert(events@.subrange(0, i + 1).last() == events@[i as int]);
            match work.apply_event(&builder, signature, slot, bt, now, &events[i]) {
                Err(e) => {
                    proof {
                        lemma_apply_all_err_extends(m0, program_id.bytes@, signature@, slot as int, bt as int, now as int, events@, i + 1);
                    }
                    core::mem::swap(&mut work.processed, &mut self.processed);
                    core::mem::swap(&mut work.snapshots, &mut self.snapshots);
                    assert(self@ == m0);
                    return Err(e);
                },
                Ok(()) => {
                    proof {
                        lemma_step_frame(before, program_id.bytes@, signature@, slot as int, bt as int, now as int, events@[i as int], m0.processed);
                    }
                },
            }
            i = i + 1;
        }
        assert(events@.subrange(0, i as int) =~= events@);
        let ghost m1 = work@;
        match block_time {
            Some(t) => {
                let all = work.vaults.get_all_vaults();
                work.snapshots.snapshot_all_vaults(&all, t);
            },
            None => {},
        }
        work.processed.mark_processed(signature);
        assert(work@ == commit(m1, signature@, block_time));
        assert(transactions_processed(work@)) by {
            assert forall|k: int| 0 <= k < work@.transactions.len() implies work@.processed.contains(#[trigger] work@.transactions[k].tx_signature) by {
                let s = work@.transactions[k].tx_signature;
                if m0.processed.contains(s) {
                    let j = choose|j: int| 0 <= j < m0.processed.len() && m0.processed[j] == s;
                    assert(work@.processed[j] == s);
                } else {
                    assert(s == signature@);
                    assert(work@.processed[work@.processed.len() - 1] == s);
                }
            };
        };
        *self = work;
        Ok(())
    }
}

/// The outcome of applying the events `es` of a signature.
pub open spec fn outcome_of(r: Result<(), IndexError>, before: LedgerView, after: LedgerView, spec_result: Result<LedgerView, IndexError>) -> bool {
    match spec_result {
        Ok(m) => r is Ok && after == m,
        Err(e) => r == Err::<(), IndexError>(e) && after == before,
    }
}

impl Ledger {
    /// Indexes one confirmed transaction: its first signature identifies it;
    /// a signature processed before is skipped before anything is decoded; a
    /// malformed event record aborts it with nothing written; otherwise its
    /// decoded events are applied as one unit (see `apply_events`).
    pub fn process_transaction(&mut self, program_id: &Key, tx: &ConfirmedTransaction, now: i64) -> (r: Result<(), IndexError>)
        requires
            old(self).wf(),
        ensures
            final(self).wf(),
            tx.signatures@.len() == 0 ==> r == Err::<(), IndexError>(IndexError::MissingSignature) && final(self)@ == old(self)@,
            tx.signatures@.len() > 0 ==> ({
                let sig = tx.signatures@[0]@;
                let recs = event_records(line_views(tx.log_messages@));
                if old(self)@.processed.contains(sig) {
                    r is Ok && final(self)@ == old(self)@
                } else if !(forall|i: int| 0 <= i < recs.len() ==> well_sized(#[trigger] recs[i])) {
                    r matches Err(IndexError::Parse(_)) && final(self)@ == old(self)@
                } else {
                    exists|es: Seq<VaultEvent>| {
                        &&& es.len() == recs.len()
                        &&& forall|i: int| 0 <= i < es.len() ==> decodes_to(recs[i], #[trigger] es[i])
                        &&& outcome_of(r, old(self)@, final(self)@, signature_result(old(self)@, program_id.bytes@, sig, es, tx.slot as i64 as int, tx.block_time, now as int))
                    }
                }
            }),
    {
        if tx.signatures.len() == 0 {
            return Err(IndexError::MissingSignature);
        }
        let sig = &tx.signatures[0];
        if self.processed.is_processed(sig.as_str()) {
            return Ok(());
        }
        let events = match decode_events(&tx.log_messages) {
            Ok(es) => es,
            Err(e) => { return Err(IndexError::Parse(e)); },
        };
        let r = self.apply_events(program_id, sig.as_str(), &events, tx.slot as i64, tx.block_time, now);
        assert(outcome_of(r, old(self)@, self@, signature_result(old(self)@, program_id.bytes@, sig@, events@, tx.slot as i64 as int, tx.block_time, now as int)));
        r
    }
}

} // verus!
