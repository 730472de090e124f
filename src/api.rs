use vstd::prelude::*;
use vstd::bytes::spec_u64_to_le_bytes;
use crate::keys::{Key, base58_of, key_from_text};
use crate::records::{TransactionRepository, TransactionRow, TransactionView, user_rows_by_slot};
use crate::text::owned_text;
use crate::transaction_builder::{
    TransactionBuilder, Instruction, BuildError, vault_address, metas_view, deposit_accounts,
    withdraw_accounts, initialize_accounts, deposit_discriminator, withdraw_discriminator,
    initialize_vault_discriminator,
};
use crate::vault_repo::{VaultRepository, LedgerError, index_of, sum_totals, in_range};
use crate::wire::{unsigned_transaction_base64, unsigned_tx_wire, base64_text, WireError, MAX_INSTRUCTION_ACCOUNTS};

verus! {

/// The program the HTTP surface builds instructions for.
pub struct AppState {
    pub program_id: Key,
}

impl AppState {
    pub fn tx_builder(&self) -> (r: TransactionBuilder)
        ensures
            r.program_id == self.program_id,
    {
        TransactionBuilder::new(self.program_id)
    }
}

pub struct InitializeVaultRequest {
    pub user_pubkey: String,
    pub mint: String,
}

pub struct DepositRequest {
    pub user_pubkey: String,
    pub mint: String,
    pub amount: u64,
}

pub struct WithdrawRequest {
    pub user_pubkey: String,
    pub mint: String,
    pub amount: u64,
}

/// An unsigned transaction, base64-encoded, for the user to sign.
pub struct BuildTransactionResponse {
    pub transaction: String,
}

pub struct BalanceResponse {
    pub vault_pda: String,
    pub total_balance: i64,
    pub available_balance: i64,
    pub locked_balance: i64,
}

pub struct TransactionsResponse {
    pub transactions: Vec<TransactionSummary>,
}

pub struct TransactionSummary {
    pub tx_signature: String,
    pub tx_type: String,
    pub amount: i64,
    pub slot: i64,
}

pub struct TvlResponse {
    pub tvl: i64,
}

/// Why a request failed; each is answered with status 500 and its message.
#[derive(Debug, Clone, Copy, PartialEq, Eq, Structural)]
pub enum ApiError {
    InvalidUserPubkey,
    InvalidMint,
    VaultNotFound,
    NoAddress,
    Serialization,
    TvlOverflow,
}

impl ApiError {
    /// The body of the error response.
    pub fn message(&self) -> (r: String)
        ensures
            *self == ApiError::VaultNotFound ==> r@ == "vault not found"@,
            *self == ApiError::InvalidUserPubkey ==> r@ == "invalid user_pubkey"@,
            *self == ApiError::InvalidMint ==> r@ == "invalid mint"@,
    {
        match self {
            ApiError::InvalidUserPubkey => owned_text("invalid user_pubkey"),
            ApiError::InvalidMint => owned_text("invalid mint"),
            ApiError::VaultNotFound => owned_text("vault not found"),
            ApiError::NoAddress => owned_text("no program address found"),
            ApiError::Serialization => owned_text("transaction serialization failed"),
            ApiError::TvlOverflow => owned_text("total value locked out of range"),
        }
    }
}

/// The instruction built from a request's user and mint texts, with the user
/// as fee payer: the user text is parsed first, then the mint.
pub open spec fn prepared(
    r: Result<(Instruction, Key), ApiError>,
    program: Key,
    user: Seq<char>,
    mint: Seq<char>,
    accounts: spec_fn(Seq<u8>, Seq<u8>) -> Option<Seq<(Seq<u8>, bool, bool)>>,
    data: spec_fn(Seq<u8>) -> Seq<u8>,
) -> bool {
    match key_from_text(user) {
        None => r == Err::<(Instruction, Key), ApiError>(ApiError::InvalidUserPubkey),
        Some(u) => match key_from_text(mint) {
            None => r == Err::<(Instruction, Key), ApiError>(ApiError::InvalidMint),
            Some(m) => match accounts(u, m) {
                None => r == Err::<(Instruction, Key), ApiError>(ApiError::NoAddress),
                Some(a) => r matches Ok((ix, payer)) && payer.bytes@ == u && ix.program_id == program
                    && metas_view(ix.accounts@) == a && ix.data@ == data(u),
            },
        },
    }
}

fn parse_user_and_mint(user: &String, mint: &String) -> (r: Result<(Key, Key), ApiError>)
    ensures
        match key_from_text(user@) {
            None => r == Err::<(Key, Key), ApiError>(ApiError::InvalidUserPubkey),
            Some(u) => match key_from_text(mint@) {
                None => r == Err::<(Key, Key), ApiError>(ApiError::InvalidMint),
                Some(m) => r matches Ok((uk, mk)) && uk.bytes@ == u && mk.bytes@ == m,
            },
        },
{
    let u = match Key::parse(user.as_str()) {
        Some(k) => k,
        None => { return Err(ApiError::InvalidUserPubkey); },
    };
    let m = match Key::parse(mint.as_str()) {
        Some(k) => k,
        None => { return Err(ApiError::InvalidMint); },
    };
    Ok((u, m))
}

/// The vault-initialisation instruction of a request.
pub fn prepare_initialize_vault(state: &AppState, body: &InitializeVaultRequest) -> (r: Result<(Instruction, Key), ApiError>)
    ensures
        prepared(
            r,
            state.program_id,
            body.user_pubkey@,
            body.mint@,
            |u: Seq<u8>, m: Seq<u8>| initialize_accounts(state.program_id.bytes@, u, m),
            |u: Seq<u8>| initialize_vault_discriminator().push(vault_address(state.program_id.bytes@, u)->Some_0.1),
        ),
{
    let (user, mint) = parse_user_and_mint(&body.user_pubkey, &body.mint)?;
    match state.tx_builder().build_initialize_vault_ix(&user, &mint) {
        Ok(ix) => Ok((ix, user)),
        Err(BuildError::NoAddress) => Err(ApiError::NoAddress),
    }
}

/// The deposit instruction of a request.
pub fn prepare_deposit(state: &AppState, body: &DepositRequest) -> (r: Result<(Instruction, Key), ApiError>)
    ensures
        prepared(
            r,
            state.program_id,
            body.user_pubkey@,
            body.mint@,
            |u: Seq<u8>, m: Seq<u8>| deposit_accounts(state.program_id.bytes@, u, m),
            |u: Seq<u8>| deposit_discriminator() + spec_u64_to_le_bytes(body.amount),
        ),
{
    let (user, mint) = parse_user_and_mint(&body.user_pubkey, &body.mint)?;
    match state.tx_builder().build_deposit_ix(&user, &mint, body.amount) {
        Ok(ix) => Ok((ix, user)),
        Err(BuildError::NoAddress) => Err(ApiError::NoAddress),
    }
}

/// The withdrawal instruction of a request.
pub fn prepare_withdraw(state: &AppState, body: &WithdrawRequest) -> (r: Result<(Instruction, Key), ApiError>)
    ensures
        prepared(
            r,
            state.program_id,
            body.user_pubkey@,
            body.mint@,
            |u: Seq<u8>, m: Seq<u8>| withdraw_accounts(state.program_id.bytes@, u, m),
            |u: Seq<u8>| withdraw_discriminator() + spec_u64_to_le_bytes(body.amount),
        ),
{
    let (user, mint) = parse_user_and_mint(&body.user_pubkey, &body.mint)?;
    match state.tx_builder().build_withdraw_ix(&user, &mint, body.amount) {
        Ok(ix) => Ok((ix, user)),
        Err(BuildError::NoAddress) => Err(ApiError::NoAddress),
    }
}

/// The unsigned transaction carrying `ix`, paid by `payer`, at
/// `recent_blockhash`, returned for external signing.
pub fn build_tx_response(ix: &Instruction, payer: &Key, recent_blockhash: &Key) -> (r: Result<BuildTransactionResponse, ApiError>)
    requires
        ix.accounts@.len() < MAX_INSTRUCTION_ACCOUNTS,
    ensures
        match unsigned_tx_wire(ix.program_id.bytes@, metas_view(ix.accounts@), ix.data@, payer.bytes@, recent_blockhash.bytes@) {
            Some(b) => r matches Ok(resp) && resp.transaction@ == base64_text(b),
            None => r == Err::<BuildTransactionResponse, ApiError>(ApiError::Serialization),
        },
{
    match unsigned_transaction_base64(ix, payer, recent_blockhash) {
        Ok(transaction) => Ok(BuildTransactionResponse { transaction }),
        Err(WireError::Serialization) => Err(ApiError::Serialization),
    }
}

/// The balances of the vault of `user` (given as key text).
pub fn get_balance(state: &AppState, vaults: &VaultRepository, user: &str) -> (r: Result<BalanceResponse, ApiError>)
    requires
        vaults.wf(),
    ensures
        match key_from_text(user@) {
            None => r == Err::<BalanceResponse, ApiError>(ApiError::InvalidUserPubkey),
            Some(u) => match vault_address(state.program_id.bytes@, u) {
                None => r == Err::<BalanceResponse, ApiError>(ApiError::NoAddress),
                Some((pda, _)) => match index_of(vaults@, base58_of(pda)) {
                    None => r == Err::<BalanceResponse, ApiError>(ApiError::VaultNotFound),
                    Some(i) => r matches Ok(resp) && resp.vault_pda@ == vaults@[i].vault_pda
                        && resp.total_balance == vaults@[i].total_balance
                        && resp.available_balance == vaults@[i].available_balance
                        && resp.locked_balance == vaults@[i].locked_balance,
                },
            },
        },
{
    let key = match Key::parse(user) {
        Some(k) => k,
        None => { return Err(ApiError::InvalidUserPubkey); },
    };
    let pda = match state.tx_builder().derive_vault_pda(&key) {
        Some((p, _)) => p.to_text(),
        None => { return Err(ApiError::NoAddress); },
    };
    match vaults.get_vault(pda.as_str()) {
        Some(v) => Ok(BalanceResponse {
            vault_pda: v.vault_pda,
            total_balance: v.total_balance,
            available_balance: v.available_balance,
            locked_balance: v.locked_balance,
        }),
        None => Err(ApiError::VaultNotFound),
    }
}

pub open spec fn summary_of(t: TransactionView) -> (Seq<char>, Seq<char>, int, int) {
    (t.tx_signature, t.tx_type, t.amount, t.slot)
}

pub open spec fn summaries_view(s: Seq<TransactionSummary>) -> Seq<(Seq<char>, Seq<char>, int, int)> {
    s.map_values(|x: TransactionSummary| (x.tx_signature@, x.tx_type@, x.amount as int, x.slot as int))
}

/// The transactions of `user`, by descending slot.
pub fn get_transactions(txs: &TransactionRepository, user: &str) -> (r: TransactionsResponse)
    ensures
        summaries_view(r.transactions@) == user_rows_by_slot(txs@, user@).map_values(|t: TransactionView| summary_of(t)),
{
    let rows = txs.get_by_user(user);
    let ghost rs = rows@.map_values(|t: TransactionRow| t@);
    let mut out: Vec<TransactionSummary> = Vec::new();
    let mut i: usize = 0;
    while i < rows.len()
        invariant
            0 <= i <= rows@.len(),
            rs == rows@.map_values(|t: TransactionRow| t@),
            summaries_view(out@) == rs.subrange(0, i as int).map_values(|t: TransactionView| summary_of(t)),
        decreases rows@.len() - i,
    {
        let row = &rows[i];
        assert(rs[i as int] == row@);
        let ghost prev = out@;
        out.push(TransactionSummary {
            tx_signature: row.tx_signature.clone(),
            tx_type: row.tx_type.clone(),
            amount: row.amount,
            slot: row.slot,
        });
        assert(summaries_view(out@) =~= summaries_view(prev).push(summary_of(row@)));
        assert(rs.subrange(0, i + 1).map_values(|t: TransactionView| summary_of(t)) =~= rs.subrange(0, i as int).map_values(|t: TransactionView| summary_of(t)).push(summary_of(row@)));
        i = i + 1;
    }
    assert(rs.subrange(0, i as int) =~= rs);
    TransactionsResponse { transactions: out }
}

/// Total value locked across all vaults.
pub fn get_tvl(vaults: &VaultRepository) -> (r: Result<TvlResponse, ApiError>)
    requires
        vaults.wf(),
    ensures
        in_range(sum_totals(vaults@)) ==> (r matches Ok(t) && t.tvl == sum_totals(vaults@)),
        !in_range(sum_totals(vaults@)) ==> r == Err::<TvlResponse, ApiError>(ApiError::TvlOverflow),
{
    match vaults.get_tvl() {
        Ok(tvl) => Ok(TvlResponse { tvl }),
        Err(_) => Err(ApiError::TvlOverflow),
    }
}

} // verus!
