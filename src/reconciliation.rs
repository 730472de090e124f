use vstd::prelude::*;
use vstd::bytes::spec_u64_from_le_bytes;
use crate::text::owned_text;
use crate::vault_repo::{VaultRepository, VaultView};

verus! {

/// A detected divergence between the mirrored and the on-chain balance of a
/// vault; `id` is a random UUID and `detected_at` unix seconds.
#[derive(Debug)]
pub struct ReconciliationRow {
    pub id: u128,
    pub vault_pda: String,
    pub program_id: String,
    pub network: String,
    pub onchain_balance: i64,
    pub offchain_balance: i64,
    pub discrepancy: i64,
    pub detected_at: i64,
    pub resolved: bool,
}

/// The content of a [`ReconciliationRow`] apart from its random id.
pub struct ReconciliationView {
    pub vault_pda: Seq<char>,
    pub program_id: Seq<char>,
    pub network: Seq<char>,
    pub onchain_balance: int,
    pub offchain_balance: int,
    pub discrepancy: int,
    pub detected_at: int,
    pub resolved: bool,
}

impl View for ReconciliationRow {
    type V = ReconciliationView;

    open spec fn view(&self) -> ReconciliationView {
        ReconciliationView {
            vault_pda: self.vault_pda@,
            program_id: self.program_id@,
            network: self.network@,
            onchain_balance: self.onchain_balance as int,
            offchain_balance: self.offchain_balance as int,
            discrepancy: self.discrepancy as int,
            detected_at: self.detected_at as int,
            resolved: self.resolved,
        }
    }
}

/// Relies on `uuid::Uuid::new_v4`: a random identifier.
#[verifier::external_body]
fn new_entry_id() -> (r: u128) {
    uuid::Uuid::new_v4().as_u128()
}

/// A four-byte option tag of a token account: absent or present.
pub open spec fn option_tag_valid(data: Seq<u8>, o: int) -> bool {
    data.subrange(o, o + 4) == seq![0u8, 0, 0, 0] || data.subrange(o, o + 4) == seq![1u8, 0, 0, 0]
}

/// Whether SPL token-account data unpacks: 165 bytes, the delegate,
/// native-amount and close-authority option tags each absent or present, and
/// the state initialised (1) or frozen (2).
pub open spec fn token_account_unpacks(data: Seq<u8>) -> bool {
    &&& data.len() == 165
    &&& option_tag_valid(data, 72)
    &&& option_tag_valid(data, 109)
    &&& option_tag_valid(data, 129)
    &&& (data[108] == 1 || data[108] == 2)
}

/// Relies on `spl_token::state::Account`'s `Pack::unpack`: fails unless the
/// data is 165 bytes of an initialised account; the amount is the
/// little-endian integer at offset 64.
#[verifier::external_body]
fn unpack_token_amount(data: &[u8]) -> (r: Option<u64>)
    ensures
        r is Some <==> token_account_unpacks(data@),
        r matches Some(a) ==> data@.len() == 165 && a == spec_u64_from_le_bytes(data@.subrange(64, 72)),
{
    <spl_token::state::Account as spl_token::solana_program::program_pack::Pack>::unpack(data)
        .ok()
        .map(|a| a.amount)
}

/// The token balance held in SPL token-account data, if it unpacks.
pub fn token_balance_of(data: &Vec<u8>) -> (r: Option<u64>)
    ensures
        r is Some <==> token_account_unpacks(data@),
        r matches Some(a) ==> data@.len() == 165 && a == spec_u64_from_le_bytes(data@.subrange(64, 72)),
{
    unpack_token_amount(data.as_slice())
}

/// The entry that a pass records for a vault whose mirrored total differs
/// from its on-chain balance.
pub open spec fn discrepancy_entry(v: VaultView, onchain: int, now: int) -> ReconciliationView {
    ReconciliationView {
        vault_pda: v.vault_pda,
        program_id: v.program_id,
        network: v.network,
        onchain_balance: onchain,
        offchain_balance: v.total_balance,
        discrepancy: v.total_balance - onchain,
        detected_at: now,
        resolved: false,
    }
}

/// The entries, in vault order, of one pass over the vaults paired with their
/// on-chain balances.
pub open spec fn pass_entries(vs: Seq<VaultView>, onchain: Seq<u64>, now: int) -> Seq<ReconciliationView>
    decreases vs.len(),
{
    if vs.len() == 0 || onchain.len() == 0 {
        Seq::empty()
    } else {
        let n = if vs.len() < onchain.len() { vs.len() } else { onchain.len() };
        let rest = pass_entries(vs.subrange(0, n - 1), onchain.subrange(0, n - 1), now);
        if vs[n - 1].total_balance != onchain[n - 1] as int {
            rest.push(discrepancy_entry(vs[n - 1], onchain[n - 1] as int, now))
        } else {
            rest
        }
    }
}

/// Why a reconciliation pass stopped.
#[derive(Debug, Clone, Copy, PartialEq, Eq, Structural)]
pub enum ReconcileError {
    /// An on-chain balance exceeds the stored 64-bit signed range.
    BalanceOutOfRange,
}

/// The reconciliation log: unresolved entries stay until resolved elsewhere.
pub struct ReconciliationRepository {
    rows: Vec<ReconciliationRow>,
}

impl View for ReconciliationRepository {
    type V = Seq<ReconciliationView>;

    closed spec fn view(&self) -> Seq<ReconciliationView> {
        self.rows@.map_values(|r: ReconciliationRow| r@)
    }
}

impl ReconciliationRepository {
    pub fn new() -> (r: ReconciliationRepository)
        ensures
            r@ == Seq::<ReconciliationView>::empty(),
    {
        let r = ReconciliationRepository { rows: Vec::new() };
        assert(r@ =~= Seq::<ReconciliationView>::empty());
        r
    }

    pub fn len(&self) -> (r: usize)
        ensures
            r == self@.len(),
    {
        self.rows.len()
    }

    pub fn row_at(&self, i: usize) -> (r: &ReconciliationRow)
        requires
            i < self@.len(),
        ensures
            r@ == self@[i as int],
    {
        &self.rows[i]
    }

    /// Appends an entry.
    pub fn log_discrepancy(&mut self, entry: ReconciliationRow)
        ensures
            final(self)@ == old(self)@.push(entry@),
    {
        let ghost before = self.rows@;
        self.rows.push(entry);
        assert(self@ =~= before.map_values(|r: ReconciliationRow| r@).push(entry@));
    }

    /// Appends an unresolved entry detected at `now`.
    pub fn insert_discrepancy(
        &mut self,
        id: u128,
        vault_pda: &str,
        program_id: &str,
        network: &str,
        onchain_balance: i64,
        offchain_balance: i64,
        discrepancy: i64,
        now: i64,
    )
        ensures
            final(self)@ == old(self)@.push(
                ReconciliationView {
                    vault_pda: vault_pda@,
                    program_id: program_id@,
                    network: network@,
                    onchain_balance: onchain_balance as int,
                    offchain_balance: offchain_balance as int,
                    discrepancy: discrepancy as int,
                    detected_at: now as int,
                    resolved: false,
                },
            ),
    {
        self.log_discrepancy(
            ReconciliationRow {
                id,
                vault_pda: owned_text(vault_pda),
                program_id: owned_text(program_id),
                network: owned_text(network),
                onchain_balance,
                offchain_balance,
                discrepancy,
                detected_at: now,
                resolved: false,
            },
        );
    }
}

/// Compares mirrored vault totals with on-chain token balances and records
/// each divergence; it never corrects the ledger.
pub struct ReconciliationWorker {
    pub program_id: crate::keys::Key,
}

impl ReconciliationWorker {
    pub fn new(program_id: crate::keys::Key) -> (r: ReconciliationWorker)
        ensures
            r.program_id == program_id,
    {
        ReconciliationWorker { program_id }
    }

    /// One pass: the `i`-th vault is compared with the `i`-th on-chain balance,
    /// as far as both lists go, and an entry with
    /// `discrepancy = offchain - onchain` is recorded, detected at `now`, for
    /// each that differs. A balance beyond the stored range stops the pass,
    /// with the entries before it kept.
    pub fn run_once(
        &self,
        vaults: &VaultRepository,
        onchain_balances: &Vec<u64>,
        now: i64,
        log: &mut ReconciliationRepository,
    ) -> (r: Result<(), ReconcileError>)
        requires
            vaults.wf(),
        ensures
            (forall|i: int| 0 <= i < onchain_balances@.len() ==> #[trigger] onchain_balances@[i] <= i64::MAX)
                ==> r is Ok && final(log)@ == old(log)@ + pass_entries(
                vaults@,
                onchain_balances@,
                now as int,
            ),
            r is Err ==> exists|i: int| 0 <= i < onchain_balances@.len() && onchain_balances@[i] > i64::MAX,
    {
        let ghost vs = vaults@;
        let n = if vaults.len() < onchain_balances.len() {
            vaults.len()
        } else {
            onchain_balances.len()
        };
        let ghost start = log@;
        let mut i: usize = 0;
        while i < n
            invariant
                0 <= i <= n,
                n <= vaults@.len(),
                n <= onchain_balances@.len(),
                n == vaults@.len() || n == onchain_balances@.len(),
                vs == vaults@,
                vaults.wf(),
                log@ == start + pass_entries(vs.subrange(0, i as int), onchain_balances@.subrange(0, i as int), now as int),
            decreases n - i,
        {
            let on = onchain_balances[i];
            let v = vaults.row_at(i);
            proof {
                vaults.lemma_row_stored(i as int);
            }
            assert(vs.subrange(0, i + 1).subrange(0, i as int) =~= vs.subrange(0, i as int));
            assert(onchain_balances@.subrange(0, i + 1).subrange(0, i as int) =~= onchain_balances@.subrange(0, i as int));
            if on > i64::MAX as u64 {
                return Err(ReconcileError::BalanceOutOfRange);
            }
            if on as i64 != v.total_balance {
                let id = new_entry_id();
                let disc = v.total_balance as i128 - on as i128;
                let ghost before = log@;
                log.insert_discrepancy(
                    id,
                    v.vault_pda.as_str(),
                    v.program_id.as_str(),
                    v.network.as_str(),
                    on as i64,
                    v.total_balance,
                    disc as i64,
                    now,
                );
                assert(log@[log@.len() - 1] == discrepancy_entry(vs[i as int], on as int, now as int));
                assert(log@ =~= start + pass_entries(vs.subrange(0, i as int), onchain_balances@.subrange(0, i as int), now as int).push(discrepancy_entry(vs[i as int], on as int, now as int)));
            }
            i = i + 1;
        }
        proof {
            lemma_pass_entries_prefix(vs, onchain_balances@, n as int, now as int);
        }
        Ok(())
    }
}

proof fn lemma_pass_entries_prefix(vs: Seq<VaultView>, onchain: Seq<u64>, n: int, now: int)
    requires
        0 <= n <= vs.len(),
        n <= onchain.len(),
        n == vs.len() || n == onchain.len(),
    ensures
        pass_entries(vs.subrange(0, n), onchain.subrange(0, n), now) == pass_entries(vs, onchain, now),
{
    if n == vs.len() {
        assert(vs.subrange(0, n) =~= vs);
    } else {
        assert(onchain.subrange(0, n) =~= onchain);
    }
    if n > 0 {
        assert(vs.subrange(0, n).subrange(0, n - 1) =~= vs.subrange(0, n - 1));
        assert(onchain.subrange(0, n).subrange(0, n - 1) =~= onchain.subrange(0, n - 1));
    }
}

} // verus!
