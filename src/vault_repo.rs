use vstd::prelude::*;
use crate::text::{same_text, owned_text};

verus! {

/// A mirrored vault. Amounts are held as 64-bit signed integers for storage
/// and are non-negative; times are unix seconds.
#[derive(Debug)]
pub struct VaultRow {
    pub vault_pda: String,
    pub program_id: String,
    pub network: String,
    pub owner_pubkey: String,
    pub mint: String,
    pub vault_token_account: String,
    pub total_balance: i64,
    pub locked_balance: i64,
    pub available_balance: i64,
    pub total_deposited: i64,
    pub total_withdrawn: i64,
    pub created_at: i64,
    pub last_synced_at: i64,
}

/// The mathematical content of a [`VaultRow`].
pub struct VaultView {
    pub vault_pda: Seq<char>,
    pub program_id: Seq<char>,
    pub network: Seq<char>,
    pub owner_pubkey: Seq<char>,
    pub mint: Seq<char>,
    pub vault_token_account: Seq<char>,
    pub total_balance: int,
    pub locked_balance: int,
    pub available_balance: int,
    pub total_deposited: int,
    pub total_withdrawn: int,
    pub created_at: int,
    pub last_synced_at: int,
}

impl View for VaultRow {
    type V = VaultView;

    open spec fn view(&self) -> VaultView {
        VaultView {
            vault_pda: self.vault_pda@,
            program_id: self.program_id@,
            network: self.network@,
            owner_pubkey: self.owner_pubkey@,
            mint: self.mint@,
            vault_token_account: self.vault_token_account@,
            total_balance: self.total_balance as int,
            locked_balance: self.locked_balance as int,
            available_balance: self.available_balance as int,
            total_deposited: self.total_deposited as int,
            total_withdrawn: self.total_withdrawn as int,
            created_at: self.created_at as int,
            last_synced_at: self.last_synced_at as int,
        }
    }
}

impl VaultRow {
    /// A copy of the row.
    pub fn duplicate(&self) -> (r: VaultRow)
        ensures
            r@ == self@,
    {
        VaultRow {
            vault_pda: self.vault_pda.clone(),
            program_id: self.program_id.clone(),
            network: self.network.clone(),
            owner_pubkey: self.owner_pubkey.clone(),
            mint: self.mint.clone(),
            vault_token_account: self.vault_token_account.clone(),
            total_balance: self.total_balance,
            locked_balance: self.locked_balance,
            available_balance: self.available_balance,
            total_deposited: self.total_deposited,
            total_withdrawn: self.total_withdrawn,
            created_at: self.created_at,
            last_synced_at: self.last_synced_at,
        }
    }
}

/// Why a balance write was refused.
#[derive(Debug, Clone, Copy, PartialEq, Eq, Structural)]
pub enum LedgerError {
    /// A balance would become negative.
    InsufficientBalance,
    /// A balance or counter would exceed the 64-bit signed range.
    Overflow,
}

pub open spec fn in_range(x: int) -> bool {
    0 <= x <= i64::MAX
}

/// `total = available + locked` and `0 <= locked <= total`.
pub open spec fn balances_consistent(v: VaultView) -> bool {
    &&& v.total_balance == v.available_balance + v.locked_balance
    &&& 0 <= v.locked_balance <= v.total_balance
}

/// `total_deposited - total_withdrawn = total_balance`.
pub open spec fn counters_consistent(v: VaultView) -> bool {
    v.total_deposited - v.total_withdrawn == v.total_balance
}

/// The row with its balances moved by the given deltas and refreshed at `now`.
pub open spec fn moved(
    v: VaultView,
    d_total: int,
    d_locked: int,
    d_available: int,
    d_withdrawn: int,
    now: int,
) -> VaultView {
    VaultView {
        total_balance: v.total_balance + d_total,
        locked_balance: v.locked_balance + d_locked,
        available_balance: v.available_balance + d_available,
        total_withdrawn: v.total_withdrawn + d_withdrawn,
        last_synced_at: now,
        ..v
    }
}

/// Whether the stored amounts of a written row are valid: a negative balance
/// is refused first, then any amount beyond the 64-bit signed range.
pub open spec fn write_check(v: VaultView) -> Result<(), LedgerError> {
    if v.total_balance < 0 || v.locked_balance < 0 || v.available_balance < 0 {
        Err(LedgerError::InsufficientBalance)
    } else if !in_range(v.total_balance) || !in_range(v.locked_balance) || !in_range(
        v.available_balance,
    ) || !in_range(v.total_deposited) || !in_range(v.total_withdrawn) {
        Err(LedgerError::Overflow)
    } else {
        Ok(())
    }
}

pub open spec fn stored(v: VaultView) -> bool {
    &&& in_range(v.total_balance)
    &&& in_range(v.locked_balance)
    &&& in_range(v.available_balance)
    &&& in_range(v.total_deposited)
    &&& in_range(v.total_withdrawn)
}

/// Applies deltas to a row at index `i`, refusing the write when `write_check`
/// fails.
pub open spec fn move_at(
    vs: Seq<VaultView>,
    i: int,
    d_total: int,
    d_locked: int,
    d_available: int,
    d_withdrawn: int,
    now: int,
) -> Result<Seq<VaultView>, LedgerError> {
    let nv = moved(vs[i], d_total, d_locked, d_available, d_withdrawn, now);
    match write_check(nv) {
        Ok(_) => Ok(vs.update(i, nv)),
        Err(e) => Err(e),
    }
}

/// The index of the row keyed by `pda`, if there is one.
pub open spec fn index_of(vs: Seq<VaultView>, pda: Seq<char>) -> Option<int> {
    if exists|i: int| 0 <= i < vs.len() && vs[i].vault_pda == pda {
        Some(choose|i: int| 0 <= i < vs.len() && vs[i].vault_pda == pda)
    } else {
        None
    }
}

/// Rows are keyed uniquely by their address.
pub open spec fn keys_unique(vs: Seq<VaultView>) -> bool {
    forall|i: int, j: int|
        0 <= i < vs.len() && 0 <= j < vs.len() && i != j ==> vs[i].vault_pda != vs[j].vault_pda
}

/// A write of deltas to the row keyed by `pda`; a missing row is left alone.
pub open spec fn move_vault(
    vs: Seq<VaultView>,
    pda: Seq<char>,
    d_total: int,
    d_locked: int,
    d_available: int,
    d_withdrawn: int,
    now: int,
) -> Result<Seq<VaultView>, LedgerError> {
    match index_of(vs, pda) {
        None => Ok(vs),
        Some(i) => move_at(vs, i, d_total, d_locked, d_available, d_withdrawn, now),
    }
}

pub open spec fn withdraw_result(vs: Seq<VaultView>, pda: Seq<char>, amount: int, now: int) -> Result<
    Seq<VaultView>,
    LedgerError,
> {
    move_vault(vs, pda, -amount, 0, -amount, amount, now)
}

pub open spec fn lock_result(vs: Seq<VaultView>, pda: Seq<char>, amount: int, now: int) -> Result<
    Seq<VaultView>,
    LedgerError,
> {
    move_vault(vs, pda, 0, amount, -amount, 0, now)
}

pub open spec fn unlock_result(vs: Seq<VaultView>, pda: Seq<char>, amount: int, now: int) -> Result<
    Seq<VaultView>,
    LedgerError,
> {
    move_vault(vs, pda, 0, -amount, amount, 0, now)
}

/// Debits `from` then credits `to`, as one write: both or neither.
pub open spec fn transfer_result(
    vs: Seq<VaultView>,
    from: Seq<char>,
    to: Seq<char>,
    amount: int,
    now: int,
) -> Result<Seq<VaultView>, LedgerError> {
    match move_vault(vs, from, -amount, 0, -amount, 0, now) {
        Ok(debited) => move_vault(debited, to, amount, 0, amount, 0, now),
        Err(e) => Err(e),
    }
}

/// Sets total and available to `new_total` and raises the deposit counter so
/// that deposits minus withdrawals equal the total again.
pub open spec fn set_balance_result(
    vs: Seq<VaultView>,
    pda: Seq<char>,
    new_total: int,
    timestamp: int,
) -> Result<Seq<VaultView>, LedgerError> {
    match index_of(vs, pda) {
        None => Ok(vs),
        Some(i) => {
            let v = vs[i];
            let nv = VaultView {
                total_balance: new_total,
                available_balance: new_total,
                total_deposited: new_total + v.total_withdrawn,
                last_synced_at: timestamp,
                ..v
            };
            match write_check(nv) {
                Ok(_) => Ok(vs.update(i, nv)),
                Err(e) => Err(e),
            }
        },
    }
}

/// Inserts `row`, or on an existing address replaces its balances, counters
/// and sync time and keeps the rest.
pub open spec fn upsert_result(vs: Seq<VaultView>, row: VaultView) -> Seq<VaultView> {
    match index_of(vs, row.vault_pda) {
        None => vs.push(row),
        Some(i) => vs.update(
            i,
            VaultView {
                total_balance: row.total_balance,
                locked_balance: row.locked_balance,
                available_balance: row.available_balance,
                total_deposited: row.total_deposited,
                total_withdrawn: row.total_withdrawn,
                last_synced_at: row.last_synced_at,
                ..vs[i]
            },
        ),
    }
}

pub open spec fn sum_totals(vs: Seq<VaultView>) -> int
    decreases vs.len(),
{
    if vs.len() == 0 {
        0
    } else {
        sum_totals(vs.drop_last()) + vs.last().total_balance
    }
}

/// Whether a write produced the state that its model gives: on success
/// the new rows, on failure the same error and the rows untouched.
pub open spec fn write_outcome(
    r: Result<(), LedgerError>,
    before: Seq<VaultView>,
    after: Seq<VaultView>,
    spec_result: Result<Seq<VaultView>, LedgerError>,
) -> bool {
    match spec_result {
        Ok(vs) => r is Ok && after == vs,
        Err(e) => r == Err::<(), LedgerError>(e) && after == before,
    }
}

/// The vault table: rows keyed uniquely by vault address.
pub struct VaultRepository {
    rows: Vec<VaultRow>,
}

impl View for VaultRepository {
    type V = Seq<VaultView>;

    closed spec fn view(&self) -> Seq<VaultView> {
        self.rows@.map_values(|r: VaultRow| r@)
    }
}

impl VaultRepository {
    /// Rows keyed uniquely, every amount within the stored range.
    pub closed spec fn wf(&self) -> bool {
        &&& keys_unique(self@)
        &&& forall|i: int| 0 <= i < self@.len() ==> stored(#[trigger] self@[i])
    }

    /// A well-formed table keys each row by a distinct address.
    pub proof fn lemma_keys_unique(&self)
        requires
            self.wf(),
        ensures
            keys_unique(self@),
    {
    }

    /// Every row of a well-formed table holds amounts in the stored range.
    pub proof fn lemma_row_stored(&self, i: int)
        requires
            self.wf(),
            0 <= i < self@.len(),
        ensures
            stored(self@[i]),
    {
    }

    pub fn new() -> (r: VaultRepository)
        ensures
            r.wf(),
            r@ == Seq::<VaultView>::empty(),
    {
        let r = VaultRepository { rows: Vec::new() };
        assert(r@ =~= Seq::<VaultView>::empty());
        r
    }

    pub fn len(&self) -> (r: usize)
        ensures
            r == self@.len(),
    {
        self.rows.len()
    }

    fn position(&self, pda: &str) -> (r: Option<usize>)
        requires
            self.wf(),
        ensures
            match r {
                Some(i) => index_of(self@, pda@) == Some(i as int) && i < self@.len(),
                None => index_of(self@, pda@) is None,
            },
    {
        let mut i: usize = 0;
        while i < self.rows.len()
            invariant
                0 <= i <= self.rows@.len(),
                self@ == self.rows@.map_values(|r: VaultRow| r@),
                self.wf(),
                forall|j: int| 0 <= j < i ==> self@[j].vault_pda != pda@,
            decreases self.rows@.len() - i,
        {
            if same_text(self.rows[i].vault_pda.as_str(), pda) {
                assert(self@[i as int].vault_pda == pda@);
                assert(keys_unique(self@));
                let ghost c = choose|k: int| 0 <= k < self@.len() && self@[k].vault_pda == pda@;
                assert(c == i);
                return Some(i);
            }
            i = i + 1;
        }
        None
    }

    /// The row at `i` in table order.
    pub fn row_at(&self, i: usize) -> (r: &VaultRow)
        requires
            i < self@.len(),
        ensures
            r@ == self@[i as int],
    {
        &self.rows[i]
    }

    /// The row keyed by `vault_pda`.
    pub fn get_vault(&self, vault_pda: &str) -> (r: Option<VaultRow>)
        requires
            self.wf(),
        ensures
            match index_of(self@, vault_pda@) {
                Some(i) => r matches Some(v) && v@ == self@[i],
                None => r is None,
            },
    {
        match self.position(vault_pda) {
            Some(i) => Some(self.rows[i].duplicate()),
            None => None,
        }
    }

    /// Copies of all rows, in table order.
    pub fn get_all_vaults(&self) -> (r: Vec<VaultRow>)
        ensures
            r@.map_values(|v: VaultRow| v@) == self@,
    {
        let mut out: Vec<VaultRow> = Vec::new();
        let mut i: usize = 0;
        while i < self.rows.len()
            invariant
                0 <= i <= self.rows@.len(),
                self@ == self.rows@.map_values(|r: VaultRow| r@),
                out@.map_values(|v: VaultRow| v@) == self@.subrange(0, i as int),
            decreases self.rows@.len() - i,
        {
            let ghost prev = out@;
            out.push(self.rows[i].duplicate());
            assert(out@ == prev.push(out@.last()));
            assert(out@.map_values(|v: VaultRow| v@) =~= prev.map_values(|v: VaultRow| v@).push(self@[i as int]));
            i = i + 1;
            assert(out@.map_values(|v: VaultRow| v@) =~= self@.subrange(0, i as int));
        }
        assert(self@.subrange(0, i as int) =~= self@);
        out
    }

    /// The first row, in table order, whose owner is `owner_pubkey`.
    pub fn get_vault_by_owner(&self, owner_pubkey: &str) -> (r: Option<VaultRow>)
        ensures
            match r {
                Some(v) => exists|i: int|
                    0 <= i < self@.len() && v@ == self@[i] && self@[i].owner_pubkey == owner_pubkey@
                        && forall|j: int| 0 <= j < i ==> self@[j].owner_pubkey != owner_pubkey@,
                None => forall|j: int| 0 <= j < self@.len() ==> self@[j].owner_pubkey != owner_pubkey@,
            },
    {
        let mut i: usize = 0;
        while i < self.rows.len()
            invariant
                0 <= i <= self.rows@.len(),
                self@ == self.rows@.map_values(|r: VaultRow| r@),
                forall|j: int| 0 <= j < i ==> self@[j].owner_pubkey != owner_pubkey@,
            decreases self.rows@.len() - i,
        {
            if same_text(self.rows[i].owner_pubkey.as_str(), owner_pubkey) {
                let v = self.rows[i].duplicate();
                assert(v@ == self@[i as int]);
                return Some(v);
            }
            i = i + 1;
        }
        None
    }

    /// Total value locked: the sum of `total_balance` over all rows, or
    /// `Overflow` when the sum exceeds the 64-bit signed range.
    pub fn get_tvl(&self) -> (r: Result<i64, LedgerError>)
        requires
            self.wf(),
        ensures
            in_range(sum_totals(self@)) ==> r == Ok::<i64, LedgerError>(sum_totals(self@) as i64),
            !in_range(sum_totals(self@)) ==> r == Err::<i64, LedgerError>(LedgerError::Overflow),
    {
        let mut sum: i64 = 0;
        let mut i: usize = 0;
        while i < self.rows.len()
            invariant
                0 <= i <= self.rows@.len(),
                self@ == self.rows@.map_values(|r: VaultRow| r@),
                self.wf(),
                sum as int == sum_totals(self@.subrange(0, i as int)),
                0 <= sum,
            decreases self.rows@.len() - i,
        {
            assert(self@.subrange(0, i + 1).drop_last() =~= self@.subrange(0, i as int));
            assert(stored(self@[i as int]));
            let t = self.rows[i].total_balance;
            if sum > i64::MAX - t {
                proof {
                    lemma_sum_totals_monotone(self@, i + 1);
                }
                return Err(LedgerError::Overflow);
            }
            sum = sum + t;
            i = i + 1;
        }
        assert(self@.subrange(0, i as int) =~= self@);
        Ok(sum)
    }
}

proof fn lemma_sum_totals_monotone(vs: Seq<VaultView>, k: int)
    requires
        0 <= k <= vs.len(),
        forall|i: int| 0 <= i < vs.len() ==> stored(#[trigger] vs[i]),
    ensures
        sum_totals(vs.subrange(0, k)) <= sum_totals(vs),
    decreases vs.len() - k,
{
    if k == vs.len() {
        assert(vs.subrange(0, k) =~= vs);
    } else {
        lemma_sum_totals_monotone(vs, k + 1);
        assert(vs.subrange(0, k + 1).drop_last() =~= vs.subrange(0, k));
        assert(stored(vs[k]));
    }
}

proof fn lemma_map_update(rows: Seq<VaultRow>, i: int, r: VaultRow)
    requires
        0 <= i < rows.len(),
    ensures
        rows.update(i, r).map_values(|x: VaultRow| x@) == rows.map_values(|x: VaultRow| x@).update(
            i,
            r@,
        ),
{
    assert(rows.update(i, r).map_values(|x: VaultRow| x@) =~= rows.map_values(|x: VaultRow| x@).update(
        i,
        r@,
    ));
}

proof fn lemma_map_push(rows: Seq<VaultRow>, r: VaultRow)
    ensures
        rows.push(r).map_values(|x: VaultRow| x@) == rows.map_values(|x: VaultRow| x@).push(r@),
{
    assert(rows.push(r).map_values(|x: VaultRow| x@) =~= rows.map_values(|x: VaultRow| x@).push(r@));
}

fn checked_store(x: i128) -> (r: Option<i64>)
    ensures
        in_range(x as int) ==> r == Some(x as i64),
        !in_range(x as int) ==> r is None,
{
    if 0 <= x && x <= i64::MAX as i128 {
        Some(x as i64)
    } else {
        None
    }
}

impl VaultRepository {
    proof fn lemma_index_in(&self, i: int)
        requires
            self.wf(),
            0 <= i < self@.len(),
        ensures
            index_of(self@, self@[i].vault_pda) == Some(i),
    {
        let c = choose|k: int| 0 <= k < self@.len() && self@[k].vault_pda == self@[i].vault_pda;
        assert(keys_unique(self@));
        assert(c == i);
    }

    /// Moves the balances of the row at `i` by the deltas, or refuses.
    fn move_row(
        &mut self,
        i: usize,
        d_total: i128,
        d_locked: i128,
        d_available: i128,
        d_withdrawn: i128,
        now: i64,
    ) -> (r: Result<(), LedgerError>)
        requires
            old(self).wf(),
            i < old(self)@.len(),
            -0x1_0000_0000_0000_0000 <= d_total <= 0x1_0000_0000_0000_0000,
            -0x1_0000_0000_0000_0000 <= d_locked <= 0x1_0000_0000_0000_0000,
            -0x1_0000_0000_0000_0000 <= d_available <= 0x1_0000_0000_0000_0000,
            -0x1_0000_0000_0000_0000 <= d_withdrawn <= 0x1_0000_0000_0000_0000,
        ensures
            final(self).wf(),
            write_outcome(
                r,
                old(self)@,
                final(self)@,
                move_at(
                    old(self)@,
                    i as int,
                    d_total as int,
                    d_locked as int,
                    d_available as int,
                    d_withdrawn as int,
                    now as int,
                ),
            ),
    {
        let ghost before = self@;
        let v = &self.rows[i];
        assert(v@ == before[i as int]);
        assert(stored(before[i as int]));
        let t = v.total_balance as i128 + d_total;
        let l = v.locked_balance as i128 + d_locked;
        let a = v.available_balance as i128 + d_available;
        let w = v.total_withdrawn as i128 + d_withdrawn;
        if t < 0 || l < 0 || a < 0 {
            return Err(LedgerError::InsufficientBalance);
        }
        let (t, l, a, w) = match (checked_store(t), checked_store(l), checked_store(a), checked_store(w)) {
            (Some(t), Some(l), Some(a), Some(w)) => (t, l, a, w),
            _ => {
                return Err(LedgerError::Overflow);
            },
        };
        let nv = VaultRow {
            vault_pda: v.vault_pda.clone(),
            program_id: v.program_id.clone(),
            network: v.network.clone(),
            owner_pubkey: v.owner_pubkey.clone(),
            mint: v.mint.clone(),
            vault_token_account: v.vault_token_account.clone(),
            total_balance: t,
            locked_balance: l,
            available_balance: a,
            total_deposited: v.total_deposited,
            total_withdrawn: w,
            created_at: v.created_at,
            last_synced_at: now,
        };
        assert(nv@ == moved(before[i as int], d_total as int, d_locked as int, d_available as int, d_withdrawn as int, now as int));
        proof {
            lemma_map_update(self.rows@, i as int, nv);
        }
        self.rows.set(i, nv);
        assert(self.wf());
        Ok(())
    }

    /// Moves the balances of the row keyed by `pda`; a missing row is left alone.
    fn move_keyed(
        &mut self,
        pda: &str,
        d_total: i128,
        d_locked: i128,
        d_available: i128,
        d_withdrawn: i128,
        now: i64,
    ) -> (r: Result<(), LedgerError>)
        requires
            old(self).wf(),
            -0x1_0000_0000_0000_0000 <= d_total <= 0x1_0000_0000_0000_0000,
            -0x1_0000_0000_0000_0000 <= d_locked <= 0x1_0000_0000_0000_0000,
            -0x1_0000_0000_0000_0000 <= d_available <= 0x1_0000_0000_0000_0000,
            -0x1_0000_0000_0000_0000 <= d_withdrawn <= 0x1_0000_0000_0000_0000,
        ensures
            final(self).wf(),
            write_outcome(
                r,
                old(self)@,
                final(self)@,
                move_vault(
                    old(self)@,
                    pda@,
                    d_total as int,
                    d_locked as int,
                    d_available as int,
                    d_withdrawn as int,
                    now as int,
                ),
            ),
    {
        match self.position(pda) {
            None => Ok(()),
            Some(i) => self.move_row(i, d_total, d_locked, d_available, d_withdrawn, now),
        }
    }

    /// A withdrawal: total and available fall by `amount`, the withdrawal
    /// counter rises by it.
    pub fn apply_withdraw(&mut self, vault_pda: &str, amount: u64, now: i64) -> (r: Result<
        (),
        LedgerError,
    >)
        requires
            old(self).wf(),
        ensures
            final(self).wf(),
            write_outcome(
                r,
                old(self)@,
                final(self)@,
                withdraw_result(old(self)@, vault_pda@, amount as int, now as int),
            ),
    {
        let a = amount as i128;
        self.move_keyed(vault_pda, -a, 0, -a, a, now)
    }

    /// A lock: `amount` moves from available to locked.
    pub fn apply_lock(&mut self, vault_pda: &str, amount: u64, now: i64) -> (r: Result<
        (),
        LedgerError,
    >)
        requires
            old(self).wf(),
        ensures
            final(self).wf(),
            write_outcome(
                r,
                old(self)@,
                final(self)@,
                lock_result(old(self)@, vault_pda@, amount as int, now as int),
            ),
    {
        let a = amount as i128;
        self.move_keyed(vault_pda, 0, a, -a, 0, now)
    }

    /// An unlock: `amount` moves from locked to available.
    pub fn apply_unlock(&mut self, vault_pda: &str, amount: u64, now: i64) -> (r: Result<
        (),
        LedgerError,
    >)
        requires
            old(self).wf(),
        ensures
            final(self).wf(),
            write_outcome(
                r,
                old(self)@,
                final(self)@,
                unlock_result(old(self)@, vault_pda@, amount as int, now as int),
            ),
    {
        let a = amount as i128;
        self.move_keyed(vault_pda, 0, -a, a, 0, now)
    }

    /// A transfer: debits total and available of `from_vault` and credits
    /// those of `to_vault`, both or neither.
    pub fn apply_transfer(&mut self, from_vault: &str, to_vault: &str, amount: u64, now: i64) -> (r:
        Result<(), LedgerError>)
        requires
            old(self).wf(),
        ensures
            final(self).wf(),
            write_outcome(
                r,
                old(self)@,
                final(self)@,
                transfer_result(old(self)@, from_vault@, to_vault@, amount as int, now as int),
            ),
    {
        let a = amount as i128;
        let ghost before = self@;
        let saved = match self.position(from_vault) {
            Some(i) => Some((i, self.rows[i].duplicate())),
            None => None,
        };
        match self.move_keyed(from_vault, -a, 0, -a, 0, now) {
            Err(e) => { return Err(e); },
            Ok(()) => {},
        }
        match self.move_keyed(to_vault, a, 0, a, 0, now) {
            Ok(()) => Ok(()),
            Err(e) => {
                match saved {
                    Some((i, row)) => {
                        proof {
                            lemma_map_update(self.rows@, i as int, row);
                        }
                        self.rows.set(i, row);
                        assert(self@ =~= before);
                    },
                    None => {},
                }
                Err(e)
            },
        }
    }

    /// Sets total and available from an on-chain balance, raises the deposit
    /// counter to restore `deposited - withdrawn = total`, and stamps the
    /// event's time.
    pub fn set_balance_from_event(&mut self, vault_pda: &str, new_total_balance: u64, timestamp: i64) -> (r:
        Result<(), LedgerError>)
        requires
            old(self).wf(),
        ensures
            final(self).wf(),
            write_outcome(
                r,
                old(self)@,
                final(self)@,
                set_balance_result(old(self)@, vault_pda@, new_total_balance as int, timestamp as int),
            ),
    {
        let i = match self.position(vault_pda) {
            None => { return Ok(()); },
            Some(i) => i,
        };
        let ghost before = self@;
        let v = &self.rows[i];
        assert(v@ == before[i as int]);
        assert(stored(before[i as int]));
        let (t, d) = match (checked_store(new_total_balance as i128), checked_store(new_total_balance as i128 + v.total_withdrawn as i128)) {
            (Some(t), Some(d)) => (t, d),
            _ => { return Err(LedgerError::Overflow); },
        };
        let nv = VaultRow {
            vault_pda: v.vault_pda.clone(),
            program_id: v.program_id.clone(),
            network: v.network.clone(),
            owner_pubkey: v.owner_pubkey.clone(),
            mint: v.mint.clone(),
            vault_token_account: v.vault_token_account.clone(),
            total_balance: t,
            locked_balance: v.locked_balance,
            available_balance: t,
            total_deposited: d,
            total_withdrawn: v.total_withdrawn,
            created_at: v.created_at,
            last_synced_at: timestamp,
        };
        proof {
            lemma_map_update(self.rows@, i as int, nv);
        }
        self.rows.set(i, nv);
        assert(self.wf());
        Ok(())
    }

    /// Inserts a row, or on an existing address replaces its balances,
    /// counters and sync time; refused when an amount of `row` is out of range.
    pub fn upsert_vault(&mut self, row: VaultRow) -> (r: Result<(), LedgerError>)
        requires
            old(self).wf(),
        ensures
            final(self).wf(),
            write_outcome(
                r,
                old(self)@,
                final(self)@,
                match write_check(row@) {
                    Ok(_) => Ok(upsert_result(old(self)@, row@)),
                    Err(e) => Err(e),
                },
            ),
    {
        if row.total_balance < 0 || row.locked_balance < 0 || row.available_balance < 0 {
            return Err(LedgerError::InsufficientBalance);
        }
        if row.total_deposited < 0 || row.total_withdrawn < 0 {
            return Err(LedgerError::Overflow);
        }
        match self.position(row.vault_pda.as_str()) {
            None => {
                proof {
                    lemma_map_push(self.rows@, row);
                }
                self.rows.push(row);
                assert forall|i: int, j: int|
                    0 <= i < self@.len() && 0 <= j < self@.len() && i != j implies self@[i].vault_pda
                    != self@[j].vault_pda by {
                    if i == self@.len() - 1 || j == self@.len() - 1 {
                    } else {
                    }
                };
                assert(self.wf());
                Ok(())
            },
            Some(i) => {
                let v = &self.rows[i];
                let nv = VaultRow {
                    vault_pda: v.vault_pda.clone(),
                    program_id: v.program_id.clone(),
                    network: v.network.clone(),
                    owner_pubkey: v.owner_pubkey.clone(),
                    mint: v.mint.clone(),
                    vault_token_account: v.vault_token_account.clone(),
                    total_balance: row.total_balance,
                    locked_balance: row.locked_balance,
                    available_balance: row.available_balance,
                    total_deposited: row.total_deposited,
                    total_withdrawn: row.total_withdrawn,
                    created_at: v.created_at,
                    last_synced_at: row.last_synced_at,
                };
                proof {
                    lemma_map_update(self.rows@, i as int, nv);
                }
                self.rows.set(i, nv);
                assert(self.wf());
                Ok(())
            },
        }
    }
}

/// The network name that mirrored rows carry.
pub open spec fn localnet() -> Seq<char> {
    seq!['l', 'o', 'c', 'a', 'l', 'n', 'e', 't']
}

pub fn localnet_text() -> (r: String)
    ensures
        r@ == localnet(),
{
    let r = owned_text("localnet");
    proof {
        reveal_strlit("localnet");
    }
    assert(r@ =~= localnet());
    r
}

pub fn empty_text() -> (r: String)
    ensures
        r@ == Seq::<char>::empty(),
{
    String::new()
}

/// The row that a `VaultInitialized` event writes: zero balances, created and
/// synced at the event's time.
pub open spec fn new_vault_view(vault_pda: Seq<char>, owner: Seq<char>, mint: Seq<char>, timestamp: int) -> VaultView {
    VaultView {
        vault_pda,
        program_id: Seq::empty(),
        network: localnet(),
        owner_pubkey: owner,
        mint,
        vault_token_account: Seq::empty(),
        total_balance: 0,
        locked_balance: 0,
        available_balance: 0,
        total_deposited: 0,
        total_withdrawn: 0,
        created_at: timestamp,
        last_synced_at: timestamp,
    }
}

impl VaultRepository {
    /// Upserts a vault with zero balances for a `VaultInitialized` event.
    pub fn insert_new_vault(&mut self, vault_pda: &str, owner_pubkey: &str, mint: &str, timestamp: i64)
        requires
            old(self).wf(),
        ensures
            final(self).wf(),
            final(self)@ == upsert_result(old(self)@, new_vault_view(vault_pda@, owner_pubkey@, mint@, timestamp as int)),
    {
        let row = VaultRow {
            vault_pda: owned_text(vault_pda),
            program_id: empty_text(),
            network: localnet_text(),
            owner_pubkey: owned_text(owner_pubkey),
            mint: owned_text(mint),
            vault_token_account: empty_text(),
            total_balance: 0,
            locked_balance: 0,
            available_balance: 0,
            total_deposited: 0,
            total_withdrawn: 0,
            created_at: timestamp,
            last_synced_at: timestamp,
        };
        assert(row@ == new_vault_view(vault_pda@, owner_pubkey@, mint@, timestamp as int));
        let r = self.upsert_vault(row);
    }
}

impl VaultRepository {
    /// A copy of the table.
    pub fn duplicate(&self) -> (r: VaultRepository)
        requires
            self.wf(),
        ensures
            r.wf(),
            r@ == self@,
    {
        let mut rows: Vec<VaultRow> = Vec::new();
        let mut i: usize = 0;
        while i < self.rows.len()
            invariant
                0 <= i <= self.rows@.len(),
                rows@.map_values(|v: VaultRow| v@) == self@.subrange(0, i as int),
                self@ == self.rows@.map_values(|r: VaultRow| r@),
            decreases self.rows@.len() - i,
        {
            let ghost prev = rows@;
            rows.push(self.rows[i].duplicate());
            assert(rows@.map_values(|v: VaultRow| v@) =~= prev.map_values(|v: VaultRow| v@).push(self@[i as int]));
            i = i + 1;
            assert(rows@.map_values(|v: VaultRow| v@) =~= self@.subrange(0, i as int));
        }
        let r = VaultRepository { rows };
        assert(self@.subrange(0, i as int) =~= self@);
        assert(r@ == self@);
        r
    }
}

} // verus!
