use vstd::prelude::*;
use crate::text::{same_text, owned_text};
use crate::vault_repo::{VaultRow, VaultView, empty_text, localnet_text, localnet};

verus! {

/// One observed on-chain transaction touching a vault; immutable once written.
#[derive(Debug)]
pub struct TransactionRow {
    pub vault_pda: String,
    pub program_id: String,
    pub network: String,
    pub user_pubkey: Option<String>,
    pub tx_signature: String,
    pub tx_type: String,
    pub amount: i64,
    pub slot: i64,
    pub block_time: i64,
}

pub struct TransactionView {
    pub vault_pda: Seq<char>,
    pub program_id: Seq<char>,
    pub network: Seq<char>,
    pub user_pubkey: Option<Seq<char>>,
    pub tx_signature: Seq<char>,
    pub tx_type: Seq<char>,
    pub amount: int,
    pub slot: int,
    pub block_time: int,
}

pub open spec fn opt_view(o: Option<String>) -> Option<Seq<char>> {
    match o {
        Some(s) => Some(s@),
        None => None,
    }
}

impl View for TransactionRow {
    type V = TransactionView;

    open spec fn view(&self) -> TransactionView {
        TransactionView {
            vault_pda: self.vault_pda@,
            program_id: self.program_id@,
            network: self.network@,
            user_pubkey: opt_view(self.user_pubkey),
            tx_signature: self.tx_signature@,
            tx_type: self.tx_type@,
            amount: self.amount as int,
            slot: self.slot as int,
            block_time: self.block_time as int,
        }
    }
}

fn copy_opt_text(o: &Option<String>) -> (r: Option<String>)
    ensures
        opt_view(r) == opt_view(*o),
{
    match o {
        Some(s) => Some(s.clone()),
        None => None,
    }
}

impl TransactionRow {
    pub fn duplicate(&self) -> (r: TransactionRow)
        ensures
            r@ == self@,
    {
        TransactionRow {
            vault_pda: self.vault_pda.clone(),
            program_id: self.program_id.clone(),
            network: self.network.clone(),
            user_pubkey: copy_opt_text(&self.user_pubkey),
            tx_signature: self.tx_signature.clone(),
            tx_type: self.tx_type.clone(),
            amount: self.amount,
            slot: self.slot,
            block_time: self.block_time,
        }
    }
}

/// Whether a row with signature `sig` is among `ts`.
pub open spec fn has_signature(ts: Seq<TransactionView>, sig: Seq<char>) -> bool {
    exists|i: int| 0 <= i < ts.len() && ts[i].tx_signature == sig
}

/// Insert with conflict-ignore on the signature.
pub open spec fn insert_tx_result(ts: Seq<TransactionView>, t: TransactionView) -> Seq<TransactionView> {
    if has_signature(ts, t.tx_signature) {
        ts
    } else {
        ts.push(t)
    }
}

/// The row that the indexer writes for a vault transaction.
pub open spec fn simple_tx_view(
    vault_pda: Seq<char>,
    user_pubkey: Option<Seq<char>>,
    tx_signature: Seq<char>,
    tx_type: Seq<char>,
    amount: int,
    slot: int,
    block_time: int,
) -> TransactionView {
    TransactionView {
        vault_pda,
        program_id: Seq::empty(),
        network: localnet(),
        user_pubkey,
        tx_signature,
        tx_type,
        amount,
        slot,
        block_time,
    }
}

/// The transaction table: rows keyed uniquely by signature.
pub struct TransactionRepository {
    rows: Vec<TransactionRow>,
}

impl View for TransactionRepository {
    type V = Seq<TransactionView>;

    closed spec fn view(&self) -> Seq<TransactionView> {
        self.rows@.map_values(|r: TransactionRow| r@)
    }
}

impl TransactionRepository {
    pub closed spec fn wf(&self) -> bool {
        forall|i: int, j: int|
            0 <= i < self@.len() && 0 <= j < self@.len() && i != j ==> self@[i].tx_signature
                != self@[j].tx_signature
    }

    pub fn new() -> (r: TransactionRepository)
        ensures
            r.wf(),
            r@ == Seq::<TransactionView>::empty(),
    {
        let r = TransactionRepository { rows: Vec::new() };
        assert(r@ =~= Seq::<TransactionView>::empty());
        r
    }

    pub fn len(&self) -> (r: usize)
        ensures
            r == self@.len(),
    {
        self.rows.len()
    }

    pub fn row_at(&self, i: usize) -> (r: &TransactionRow)
        requires
            i < self@.len(),
        ensures
            r@ == self@[i as int],
    {
        &self.rows[i]
    }

    pub fn has_signature(&self, sig: &str) -> (r: bool)
        ensures
            r == has_signature(self@, sig@),
    {
        let mut i: usize = 0;
        while i < self.rows.len()
            invariant
                0 <= i <= self.rows@.len(),
                self@ == self.rows@.map_values(|r: TransactionRow| r@),
                forall|j: int| 0 <= j < i ==> self@[j].tx_signature != sig@,
            decreases self.rows@.len() - i,
        {
            if same_text(self.rows[i].tx_signature.as_str(), sig) {
                assert(self@[i as int].tx_signature == sig@);
                return true;
            }
            i = i + 1;
        }
        false
    }

    /// Appends a row unless its signature is already recorded.
    pub fn insert_transaction(&mut self, tx: TransactionRow)
        requires
            old(self).wf(),
        ensures
            final(self).wf(),
            final(self)@ == insert_tx_result(old(self)@, tx@),
    {
        if self.has_signature(tx.tx_signature.as_str()) {
            return;
        }
        let ghost before = self.rows@;
        self.rows.push(tx);
        assert(self@ =~= before.map_values(|r: TransactionRow| r@).push(tx@));
    }

    /// Records a vault transaction as the indexer sees it.
    pub fn insert_simple(
        &mut self,
        vault_pda: &str,
        user_pubkey: Option<&str>,
        tx_signature: &str,
        tx_type: &str,
        amount: i64,
        slot: i64,
        block_time: i64,
    )
        requires
            old(self).wf(),
        ensures
            final(self).wf(),
            final(self)@ == insert_tx_result(
                old(self)@,
                simple_tx_view(
                    vault_pda@,
                    match user_pubkey {
                        Some(u) => Some(u@),
                        None => None,
                    },
                    tx_signature@,
                    tx_type@,
                    amount as int,
                    slot as int,
                    block_time as int,
                ),
            ),
    {
        let user = match user_pubkey {
            Some(u) => Some(owned_text(u)),
            None => None,
        };
        let row = TransactionRow {
            vault_pda: owned_text(vault_pda),
            program_id: empty_text(),
            network: localnet_text(),
            user_pubkey: user,
            tx_signature: owned_text(tx_signature),
            tx_type: owned_text(tx_type),
            amount,
            slot,
            block_time,
        };
        self.insert_transaction(row);
    }
}

/// The set of signatures whose effects have been applied.
pub struct ProcessedEventsRepo {
    sigs: Vec<String>,
}

impl View for ProcessedEventsRepo {
    type V = Seq<Seq<char>>;

    closed spec fn view(&self) -> Seq<Seq<char>> {
        self.sigs@.map_values(|s: String| s@)
    }
}

impl ProcessedEventsRepo {
    pub fn new() -> (r: ProcessedEventsRepo)
        ensures
            r@ == Seq::<Seq<char>>::empty(),
    {
        let r = ProcessedEventsRepo { sigs: Vec::new() };
        assert(r@ =~= Seq::<Seq<char>>::empty());
        r
    }

    pub fn len(&self) -> (r: usize)
        ensures
            r == self@.len(),
    {
        self.sigs.len()
    }

    pub fn signature_at(&self, i: usize) -> (r: &String)
        requires
            i < self@.len(),
        ensures
            r@ == self@[i as int],
    {
        &self.sigs[i]
    }

    pub fn is_processed(&self, sig: &str) -> (r: bool)
        ensures
            r == self@.contains(sig@),
    {
        let mut i: usize = 0;
        while i < self.sigs.len()
            invariant
                0 <= i <= self.sigs@.len(),
                self@ == self.sigs@.map_values(|s: String| s@),
                forall|j: int| 0 <= j < i ==> self@[j] != sig@,
            decreases self.sigs@.len() - i,
        {
            if same_text(self.sigs[i].as_str(), sig) {
                assert(self@[i as int] == sig@);
                return true;
            }
            i = i + 1;
        }
        false
    }

    /// Adds `sig` unless it is already there.
    pub fn mark_processed(&mut self, sig: &str)
        ensures
            final(self)@ == if old(self)@.contains(sig@) {
                old(self)@
            } else {
                old(self)@.push(sig@)
            },
    {
        if self.is_processed(sig) {
            return;
        }
        let ghost before = self.sigs@;
        self.sigs.push(owned_text(sig));
        assert(self@ =~= before.map_values(|s: String| s@).push(sig@));
    }
}

/// The three balances of a vault at one moment; unique on (vault, time).
#[derive(Debug)]
pub struct BalanceSnapshotRow {
    pub vault_pda: String,
    pub program_id: String,
    pub network: String,
    pub snapshot_time: i64,
    pub total_balance: i64,
    pub locked_balance: i64,
    pub available_balance: i64,
}

pub struct SnapshotView {
    pub vault_pda: Seq<char>,
    pub program_id: Seq<char>,
    pub network: Seq<char>,
    pub snapshot_time: int,
    pub total_balance: int,
    pub locked_balance: int,
    pub available_balance: int,
}

impl View for BalanceSnapshotRow {
    type V = SnapshotView;

    open spec fn view(&self) -> SnapshotView {
        SnapshotView {
            vault_pda: self.vault_pda@,
            program_id: self.program_id@,
            network: self.network@,
            snapshot_time: self.snapshot_time as int,
            total_balance: self.total_balance as int,
            locked_balance: self.locked_balance as int,
            available_balance: self.available_balance as int,
        }
    }
}

/// Insert with conflict-ignore on (vault, time).
pub open spec fn insert_snapshot_result(ss: Seq<SnapshotView>, s: SnapshotView) -> Seq<SnapshotView> {
    if exists|i: int|
        0 <= i < ss.len() && ss[i].vault_pda == s.vault_pda && ss[i].snapshot_time
            == s.snapshot_time {
        ss
    } else {
        ss.push(s)
    }
}

/// The snapshot of a vault row at `time`.
pub open spec fn snapshot_of(v: VaultView, time: int) -> SnapshotView {
    SnapshotView {
        vault_pda: v.vault_pda,
        program_id: v.program_id,
        network: v.network,
        snapshot_time: time,
        total_balance: v.total_balance,
        locked_balance: v.locked_balance,
        available_balance: v.available_balance,
    }
}

/// Snapshots of every vault, in order, at `time`.
pub open spec fn snapshot_all_result(ss: Seq<SnapshotView>, vs: Seq<VaultView>, time: int) -> Seq<SnapshotView>
    decreases vs.len(),
{
    if vs.len() == 0 {
        ss
    } else {
        insert_snapshot_result(snapshot_all_result(ss, vs.drop_last(), time), snapshot_of(vs.last(), time))
    }
}

/// The balance snapshot table.
pub struct SnapshotRepository {
    rows: Vec<BalanceSnapshotRow>,
}

impl View for SnapshotRepository {
    type V = Seq<SnapshotView>;

    closed spec fn view(&self) -> Seq<SnapshotView> {
        self.rows@.map_values(|r: BalanceSnapshotRow| r@)
    }
}

impl SnapshotRepository {
    pub fn new() -> (r: SnapshotRepository)
        ensures
            r@ == Seq::<SnapshotView>::empty(),
    {
        let r = SnapshotRepository { rows: Vec::new() };
        assert(r@ =~= Seq::<SnapshotView>::empty());
        r
    }

    pub fn len(&self) -> (r: usize)
        ensures
            r == self@.len(),
    {
        self.rows.len()
    }

    pub fn row_at(&self, i: usize) -> (r: &BalanceSnapshotRow)
        requires
            i < self@.len(),
        ensures
            r@ == self@[i as int],
    {
        &self.rows[i]
    }

    /// Appends a snapshot unless one for the same vault and time exists.
    pub fn insert_snapshot(&mut self, snapshot: BalanceSnapshotRow)
        ensures
            final(self)@ == insert_snapshot_result(old(self)@, snapshot@),
    {
        let mut i: usize = 0;
        while i < self.rows.len()
            invariant
                0 <= i <= self.rows@.len(),
                self@ == self.rows@.map_values(|r: BalanceSnapshotRow| r@),
                forall|j: int|
                    0 <= j < i ==> !(self@[j].vault_pda == snapshot@.vault_pda && self@[j].snapshot_time
                        == snapshot@.snapshot_time),
            decreases self.rows@.len() - i,
        {
            if same_text(self.rows[i].vault_pda.as_str(), snapshot.vault_pda.as_str())
                && self.rows[i].snapshot_time == snapshot.snapshot_time {
                assert(self@[i as int].vault_pda == snapshot@.vault_pda);
                return;
            }
            i = i + 1;
        }
        let ghost before = self.rows@;
        self.rows.push(snapshot);
        assert(self@ =~= before.map_values(|r: BalanceSnapshotRow| r@).push(snapshot@));
    }

    /// Takes a snapshot of every vault at `snapshot_time`.
    pub fn snapshot_all_vaults(&mut self, vaults: &Vec<VaultRow>, snapshot_time: i64)
        ensures
            final(self)@ == snapshot_all_result(
                old(self)@,
                vaults@.map_values(|v: VaultRow| v@),
                snapshot_time as int,
            ),
    {
        let ghost start = self@;
        let ghost vs = vaults@.map_values(|v: VaultRow| v@);
        let mut i: usize = 0;
        while i < vaults.len()
            invariant
                0 <= i <= vaults@.len(),
                vs == vaults@.map_values(|v: VaultRow| v@),
                self@ == snapshot_all_result(start, vs.subrange(0, i as int), snapshot_time as int),
            decreases vaults@.len() - i,
        {
            let v = &vaults[i];
            let snap = BalanceSnapshotRow {
                vault_pda: v.vault_pda.clone(),
                program_id: v.program_id.clone(),
                network: v.network.clone(),
                snapshot_time,
                total_balance: v.total_balance,
                locked_balance: v.locked_balance,
                available_balance: v.available_balance,
            };
            assert(vs.subrange(0, i + 1).drop_last() =~= vs.subrange(0, i as int));
            assert(snap@ == snapshot_of(vs[i as int], snapshot_time as int));
            self.insert_snapshot(snap);
            i = i + 1;
        }
        assert(vs.subrange(0, i as int) =~= vs);
    }
}

impl TransactionRepository {
    /// A copy of the table.
    pub fn duplicate(&self) -> (r: TransactionRepository)
        requires
            self.wf(),
        ensures
            r.wf(),
            r@ == self@,
    {
        let mut rows: Vec<TransactionRow> = Vec::new();
        let mut i: usize = 0;
        while i < self.rows.len()
            invariant
                0 <= i <= self.rows@.len(),
                rows@.map_values(|v: TransactionRow| v@) == self@.subrange(0, i as int),
                self@ == self.rows@.map_values(|r: TransactionRow| r@),
            decreases self.rows@.len() - i,
        {
            let ghost prev = rows@;
            rows.push(self.rows[i].duplicate());
            assert(rows@.map_values(|v: TransactionRow| v@) =~= prev.map_values(|v: TransactionRow| v@).push(self@[i as int]));
            i = i + 1;
            assert(rows@.map_values(|v: TransactionRow| v@) =~= self@.subrange(0, i as int));
        }
        let r = TransactionRepository { rows };
        assert(self@.subrange(0, i as int) =~= self@);
        assert(r@ == self@);
        r
    }
}

/// `t` placed after every row whose slot is not below its own.
pub open spec fn insert_by_slot(s: Seq<TransactionView>, t: TransactionView) -> Seq<TransactionView>
    decreases s.len(),
{
    if s.len() == 0 {
        seq![t]
    } else if s[0].slot < t.slot {
        seq![t] + s
    } else {
        seq![s[0]] + insert_by_slot(s.drop_first(), t)
    }
}

/// The rows of `user`, by descending slot; rows of equal slot keep table order.
pub open spec fn user_rows_by_slot(ts: Seq<TransactionView>, user: Seq<char>) -> Seq<TransactionView>
    decreases ts.len(),
{
    if ts.len() == 0 {
        Seq::empty()
    } else {
        let rest = user_rows_by_slot(ts.drop_last(), user);
        if ts.last().user_pubkey == Some(user) {
            insert_by_slot(rest, ts.last())
        } else {
            rest
        }
    }
}

pub open spec fn slots_descending(s: Seq<TransactionView>) -> bool {
    forall|i: int, j: int| 0 <= i < j < s.len() ==> s[i].slot >= s[j].slot
}

proof fn lemma_insert_by_slot_at(s: Seq<TransactionView>, t: TransactionView, p: int)
    requires
        0 <= p <= s.len(),
        forall|k: int| 0 <= k < p ==> s[k].slot >= t.slot,
        p < s.len() ==> s[p].slot < t.slot,
    ensures
        insert_by_slot(s, t) == s.insert(p, t),
    decreases s.len(),
{
    if s.len() == 0 {
        assert(s.insert(p, t) =~= seq![t]);
    } else if p == 0 {
        assert(s.insert(0, t) =~= seq![t] + s);
    } else {
        lemma_insert_by_slot_at(s.drop_first(), t, p - 1);
        assert(s.insert(p, t) =~= seq![s[0]] + s.drop_first().insert(p - 1, t));
    }
}

/// Rows ordered by descending slot stay so when a row is placed by slot.
pub proof fn lemma_insert_by_slot_sorted(s: Seq<TransactionView>, t: TransactionView)
    requires
        slots_descending(s),
    ensures
        slots_descending(insert_by_slot(s, t)),
        insert_by_slot(s, t).len() == s.len() + 1,
    decreases s.len(),
{
    if s.len() > 0 && s[0].slot >= t.slot {
        let rest = s.drop_first();
        lemma_insert_by_slot_sorted(rest, t);
        let r = insert_by_slot(rest, t);
        lemma_insert_by_slot_members(rest, t);
        assert forall|i: int, j: int| 0 <= i < j < (seq![s[0]] + r).len() implies (seq![s[0]] + r)[i].slot >= (seq![s[0]] + r)[j].slot by {
            if i == 0 {
                let x = r[j - 1];
                assert(x == t || rest.contains(x));
                if x != t {
                    let k = choose|k: int| 0 <= k < rest.len() && rest[k] == x;
                    assert(s[k + 1] == x);
                }
            }
        };
    }
}

proof fn lemma_insert_by_slot_members(s: Seq<TransactionView>, t: TransactionView)
    ensures
        forall|i: int| 0 <= i < insert_by_slot(s, t).len() ==> insert_by_slot(s, t)[i] == t || s.contains(#[trigger] insert_by_slot(s, t)[i]),
        insert_by_slot(s, t).len() == s.len() + 1,
    decreases s.len(),
{
    if s.len() > 0 && s[0].slot >= t.slot {
        let rest = s.drop_first();
        lemma_insert_by_slot_members(rest, t);
        let r = seq![s[0]] + insert_by_slot(rest, t);
        assert forall|i: int| 0 <= i < r.len() implies r[i] == t || s.contains(#[trigger] r[i]) by {
            if i == 0 {
                assert(s[0] == r[0]);
            } else {
                let x = r[i];
                assert(x == insert_by_slot(rest, t)[i - 1]);
                if x != t {
                    let k = choose|k: int| 0 <= k < rest.len() && rest[k] == x;
                    assert(s[k + 1] == x);
                }
            }
        };
    } else if s.len() > 0 {
        let r = seq![t] + s;
        assert forall|i: int| 0 <= i < r.len() implies r[i] == t || s.contains(#[trigger] r[i]) by {
            if i > 0 {
                assert(s[i - 1] == r[i]);
            }
        };
    }
}

/// The rows of a user's transactions are ordered by descending slot.
pub proof fn lemma_user_rows_sorted(ts: Seq<TransactionView>, user: Seq<char>)
    ensures
        slots_descending(user_rows_by_slot(ts, user)),
    decreases ts.len(),
{
    if ts.len() > 0 {
        lemma_user_rows_sorted(ts.drop_last(), user);
        if ts.last().user_pubkey == Some(user) {
            lemma_insert_by_slot_sorted(user_rows_by_slot(ts.drop_last(), user), ts.last());
        }
    }
}

impl TransactionRepository {
    /// Copies of the rows of `user`, by descending slot (rows of equal slot in
    /// table order).
    pub fn get_by_user(&self, user_pubkey: &str) -> (r: Vec<TransactionRow>)
        ensures
            r@.map_values(|t: TransactionRow| t@) == user_rows_by_slot(self@, user_pubkey@),
            slots_descending(r@.map_values(|t: TransactionRow| t@)),
    {
        let mut out: Vec<TransactionRow> = Vec::new();
        let mut i: usize = 0;
        while i < self.rows.len()
            invariant
                0 <= i <= self.rows@.len(),
                self@ == self.rows@.map_values(|r: TransactionRow| r@),
                out@.map_values(|t: TransactionRow| t@) == user_rows_by_slot(self@.subrange(0, i as int), user_pubkey@),
            decreases self.rows@.len() - i,
        {
            let row = &self.rows[i];
            let ghost cur = out@.map_values(|t: TransactionRow| t@);
            assert(self@.subrange(0, i + 1).drop_last() =~= self@.subrange(0, i as int));
            assert(self@.subrange(0, i + 1).last() == row@);
            let matches = match &row.user_pubkey {
                Some(u) => same_text(u.as_str(), user_pubkey),
                None => false,
            };
            if matches {
                let mut p: usize = 0;
                while p < out.len() && out[p].slot >= row.slot
                    invariant
                        0 <= p <= out@.len(),
                        cur == out@.map_values(|t: TransactionRow| t@),
                        forall|k: int| 0 <= k < p ==> cur[k].slot >= row@.slot,
                    decreases out@.len() - p,
                {
                    p = p + 1;
                }
                proof {
                    lemma_insert_by_slot_at(cur, row@, p as int);
                }
                let ghost before = out@;
                out.insert(p, row.duplicate());
                assert(out@.map_values(|t: TransactionRow| t@) =~= cur.insert(p as int, row@));
            }
            i = i + 1;
        }
        assert(self@.subrange(0, i as int) =~= self@);
        proof {
            lemma_user_rows_sorted(self@, user_pubkey@);
        }
        out
    }
}

} // verus!
