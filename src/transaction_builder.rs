use vstd::prelude::*;
use vstd::bytes::{spec_u64_to_le_bytes, u64_to_le_bytes};
use crate::keys::{Key, program_address, try_find_program_address, TOKEN_2022_PROGRAM_BYTES};

verus! {

/// Seed of a vault's program-derived address, followed by the owner's key.
pub open spec fn vault_seed() -> Seq<u8> {
    seq![118u8, 97, 117, 108, 116]
}

/// Seed of the program's vault-authority address.
pub open spec fn vault_authority_seed() -> Seq<u8> {
    seq![118u8, 97, 117, 108, 116, 95, 97, 117, 116, 104, 111, 114, 105, 116, 121]
}

/// The vault address and bump of `owner` under `program`.
pub open spec fn vault_address(program: Seq<u8>, owner: Seq<u8>) -> Option<(Seq<u8>, u8)> {
    program_address(seq![vault_seed(), owner], program)
}

/// The vault-authority address and bump under `program`.
pub open spec fn vault_authority_address(program: Seq<u8>) -> Option<(Seq<u8>, u8)> {
    program_address(seq![vault_authority_seed()], program)
}

/// The vault address is a function of the program and the owner alone:
/// deriving it twice for the same owner gives the same address and bump.
pub proof fn lemma_vault_pda_deterministic(program: Seq<u8>, owner1: Seq<u8>, owner2: Seq<u8>)
    requires
        owner1 == owner2,
    ensures
        vault_address(program, owner1) == vault_address(program, owner2),
{
}

pub open spec fn key_pair_view(r: Option<(Key, u8)>) -> Option<(Seq<u8>, u8)> {
    match r {
        Some((k, b)) => Some((k.bytes@, b)),
        None => None,
    }
}

fn vault_seed_bytes() -> (r: Vec<u8>)
    ensures
        r@ == vault_seed(),
{
    let r = vec![118u8, 97, 117, 108, 116];
    assert(r@ =~= vault_seed());
    r
}

fn key_bytes(k: &Key) -> (r: Vec<u8>)
    ensures
        r@ == k.bytes@,
{
    let mut r: Vec<u8> = Vec::new();
    let mut i: usize = 0;
    while i < 32
        invariant
            0 <= i <= 32,
            r@ == k.bytes@.subrange(0, i as int),
        decreases 32 - i,
    {
        r.push(k.bytes[i]);
        i = i + 1;
        assert(r@ =~= k.bytes@.subrange(0, i as int));
    }
    assert(k.bytes@.subrange(0, 32) =~= k.bytes@);
    r
}

/// Builds the vault program's instructions for one program id.
pub struct TransactionBuilder {
    pub program_id: Key,
}

impl TransactionBuilder {
    pub fn new(program_id: Key) -> (r: TransactionBuilder)
        ensures
            r.program_id == program_id,
    {
        TransactionBuilder { program_id }
    }

    /// The vault address of `user`, from seeds `["vault", user]`.
    pub fn derive_vault_pda(&self, user: &Key) -> (r: Option<(Key, u8)>)
        ensures
            key_pair_view(r) == vault_address(self.program_id.bytes@, user.bytes@),
    {
        let seeds = vec![vault_seed_bytes(), key_bytes(user)];
        let r = try_find_program_address(&seeds, &self.program_id);
        assert(seeds@.map_values(|s: Vec<u8>| s@) =~= seq![vault_seed(), user.bytes@]);
        r
    }

    /// The vault-authority address, from seeds `["vault_authority"]`.
    pub fn derive_vault_authority_pda(&self) -> (r: Option<(Key, u8)>)
        ensures
            key_pair_view(r) == vault_authority_address(self.program_id.bytes@),
    {
        let seed = vec![118u8, 97, 117, 108, 116, 95, 97, 117, 116, 104, 111, 114, 105, 116, 121];
        let seeds = vec![seed];
        let r = try_find_program_address(&seeds, &self.program_id);
        assert(seeds@.map_values(|s: Vec<u8>| s@) =~= seq![vault_authority_seed()]);
        r
    }
}

/// The associated-token-account program.
pub const ASSOCIATED_TOKEN_PROGRAM_BYTES: [u8; 32] = [
    140, 151, 37, 143, 78, 36, 137, 241, 187, 61, 16, 41, 20, 142, 13, 131,
    11, 90, 19, 153, 218, 255, 16, 132, 4, 142, 123, 216, 219, 233, 248, 89,
];

/// The system program.
pub const SYSTEM_PROGRAM_BYTES: [u8; 32] = [
    0, 0, 0, 0, 0, 0, 0, 0, 0, 0, 0, 0, 0, 0, 0, 0,
    0, 0, 0, 0, 0, 0, 0, 0, 0, 0, 0, 0, 0, 0, 0, 0,
];

/// The rent sysvar.
pub const RENT_SYSVAR_BYTES: [u8; 32] = [
    6, 167, 213, 23, 25, 44, 92, 81, 33, 140, 201, 76, 61, 74, 241, 127,
    88, 218, 238, 8, 155, 161, 253, 68, 227, 219, 217, 138, 0, 0, 0, 0,
];

/// Seeds of the associated token account of `wallet` for `mint` under the
/// Token-2022 program.
pub open spec fn ata_seeds(wallet: Seq<u8>, mint: Seq<u8>) -> Seq<Seq<u8>> {
    seq![wallet, TOKEN_2022_PROGRAM_BYTES@, mint]
}

/// The associated token account of `wallet` for `mint` under Token-2022.
pub open spec fn ata_address(wallet: Seq<u8>, mint: Seq<u8>) -> Option<Seq<u8>> {
    match program_address(ata_seeds(wallet, mint), ASSOCIATED_TOKEN_PROGRAM_BYTES@) {
        Some((a, _)) => Some(a),
        None => None,
    }
}

/// Relies on `spl_associated_token_account::get_associated_token_address_with_program_id`,
/// which returns `Pubkey::find_program_address(&[wallet, token_program, mint],
/// associated_token_program).0` and panics when no address is found.
#[verifier::external_body]
fn associated_token_address(wallet: &Key, mint: &Key, token_program: &Key) -> (r: Key)
    requires
        program_address(seq![wallet.bytes@, token_program.bytes@, mint.bytes@], ASSOCIATED_TOKEN_PROGRAM_BYTES@) is Some,
    ensures
        r.bytes@ == program_address(seq![wallet.bytes@, token_program.bytes@, mint.bytes@], ASSOCIATED_TOKEN_PROGRAM_BYTES@)->Some_0.0,
{
    let p = spl_associated_token_account::get_associated_token_address_with_program_id(
        &solana_sdk::pubkey::Pubkey::new_from_array(wallet.bytes),
        &solana_sdk::pubkey::Pubkey::new_from_array(mint.bytes),
        &solana_sdk::pubkey::Pubkey::new_from_array(token_program.bytes),
    );
    Key { bytes: p.to_bytes() }
}

/// One account of an instruction, with its signer and writable flags.
#[derive(Debug, Clone, Copy, PartialEq, Eq)]
pub struct AccountMeta {
    pub pubkey: Key,
    pub is_signer: bool,
    pub is_writable: bool,
}

/// An instruction of the vault program: its accounts and data.
#[derive(Debug, Clone, PartialEq, Eq)]
pub struct Instruction {
    pub program_id: Key,
    pub accounts: Vec<AccountMeta>,
    pub data: Vec<u8>,
}

pub open spec fn meta_view(m: AccountMeta) -> (Seq<u8>, bool, bool) {
    (m.pubkey.bytes@, m.is_signer, m.is_writable)
}

pub open spec fn metas_view(ms: Seq<AccountMeta>) -> Seq<(Seq<u8>, bool, bool)> {
    ms.map_values(|m: AccountMeta| meta_view(m))
}

pub open spec fn writable(k: Seq<u8>, signer: bool) -> (Seq<u8>, bool, bool) {
    (k, signer, true)
}

pub open spec fn readonly(k: Seq<u8>) -> (Seq<u8>, bool, bool) {
    (k, false, false)
}

fn meta(pubkey: Key, is_signer: bool, is_writable: bool) -> (r: AccountMeta)
    ensures
        meta_view(r) == (pubkey.bytes@, is_signer, is_writable),
        r.pubkey == pubkey,
{
    AccountMeta { pubkey, is_signer, is_writable }
}

pub open spec fn deposit_discriminator() -> Seq<u8> {
    seq![242u8, 35, 198, 137, 82, 225, 242, 182]
}

pub open spec fn initialize_vault_discriminator() -> Seq<u8> {
    seq![48u8, 191, 163, 44, 71, 129, 63, 164]
}

pub open spec fn withdraw_discriminator() -> Seq<u8> {
    seq![183u8, 18, 70, 156, 148, 109, 161, 34]
}

pub open spec fn lock_collateral_discriminator() -> Seq<u8> {
    seq![161u8, 216, 135, 122, 12, 104, 211, 101]
}

pub open spec fn unlock_collateral_discriminator() -> Seq<u8> {
    seq![167u8, 213, 221, 147, 129, 209, 132, 190]
}

fn data_with_amount(disc: [u8; 8], amount: u64) -> (r: Vec<u8>)
    ensures
        r@ == disc@ + spec_u64_to_le_bytes(amount),
{
    let mut data: Vec<u8> = Vec::new();
    let mut i: usize = 0;
    while i < 8
        invariant
            0 <= i <= 8,
            data@ == disc@.subrange(0, i as int),
        decreases 8 - i,
    {
        data.push(disc[i]);
        i = i + 1;
        assert(data@ =~= disc@.subrange(0, i as int));
    }
    let mut le = u64_to_le_bytes(amount);
    data.append(&mut le);
    assert(disc@.subrange(0, 8) =~= disc@);
    data
}

/// Why an instruction could not be built.
#[derive(Debug, Clone, Copy, PartialEq, Eq, Structural)]
pub enum BuildError {
    /// No program-derived address could be found for some seeds.
    NoAddress,
}

/// The accounts of a deposit: the user signs; vault, both token accounts
/// writable; mint and token program read-only.
pub open spec fn deposit_accounts(program: Seq<u8>, user: Seq<u8>, mint: Seq<u8>) -> Option<Seq<(Seq<u8>, bool, bool)>> {
    match (vault_address(program, user), ata_address(user, mint)) {
        (Some((vault, _)), Some(user_ata)) => match ata_address(vault, mint) {
            Some(vault_ata) => Some(seq![
                writable(user, true),
                writable(vault, false),
                writable(user_ata, false),
                writable(vault_ata, false),
                readonly(mint),
                readonly(TOKEN_2022_PROGRAM_BYTES@),
            ]),
            None => None,
        },
        _ => None,
    }
}

/// The accounts of a withdrawal: as a deposit's, with the two token accounts
/// in the other order.
pub open spec fn withdraw_accounts(program: Seq<u8>, user: Seq<u8>, mint: Seq<u8>) -> Option<Seq<(Seq<u8>, bool, bool)>> {
    match (vault_address(program, user), ata_address(user, mint)) {
        (Some((vault, _)), Some(user_ata)) => match ata_address(vault, mint) {
            Some(vault_ata) => Some(seq![
                writable(user, true),
                writable(vault, false),
                writable(vault_ata, false),
                writable(user_ata, false),
                readonly(mint),
                readonly(TOKEN_2022_PROGRAM_BYTES@),
            ]),
            None => None,
        },
        _ => None,
    }
}

/// The accounts of vault initialisation.
pub open spec fn initialize_accounts(program: Seq<u8>, user: Seq<u8>, mint: Seq<u8>) -> Option<Seq<(Seq<u8>, bool, bool)>> {
    match vault_address(program, user) {
        Some((vault, _)) => match ata_address(vault, mint) {
            Some(vault_ata) => Some(seq![
                writable(user, true),
                readonly(mint),
                writable(vault, false),
                writable(vault_ata, false),
                readonly(SYSTEM_PROGRAM_BYTES@),
                readonly(TOKEN_2022_PROGRAM_BYTES@),
                readonly(ASSOCIATED_TOKEN_PROGRAM_BYTES@),
                readonly(RENT_SYSVAR_BYTES@),
            ]),
            None => None,
        },
        None => None,
    }
}

/// The accounts of a lock or unlock requested by `caller`.
pub open spec fn collateral_accounts(program: Seq<u8>, caller: Seq<u8>, user: Seq<u8>) -> Option<Seq<(Seq<u8>, bool, bool)>> {
    match (vault_address(program, user), vault_authority_address(program)) {
        (Some((vault, _)), Some((authority, _))) => Some(seq![
            readonly(caller),
            writable(vault, false),
            readonly(authority),
        ]),
        _ => None,
    }
}

/// The instruction built, when `accounts` is `Some`, has these accounts, the
/// builder's program and `data`; else building failed.
pub open spec fn built(
    r: Result<Instruction, BuildError>,
    program: Key,
    accounts: Option<Seq<(Seq<u8>, bool, bool)>>,
    data: Seq<u8>,
) -> bool {
    match accounts {
        Some(a) => r matches Ok(ix) && ix.program_id == program && metas_view(ix.accounts@) == a && ix.data@ == data,
        None => r == Err::<Instruction, BuildError>(BuildError::NoAddress),
    }
}

impl TransactionBuilder {
    /// The associated Token-2022 account of `wallet` for `mint`.
    pub fn associated_token_account(&self, wallet: &Key, mint: &Key) -> (r: Option<Key>)
        ensures
            match r {
                Some(k) => ata_address(wallet.bytes@, mint.bytes@) == Some(k.bytes@),
                None => ata_address(wallet.bytes@, mint.bytes@) is None,
            },
    {
        let token_program = Key { bytes: TOKEN_2022_PROGRAM_BYTES };
        let ata_program = Key { bytes: ASSOCIATED_TOKEN_PROGRAM_BYTES };
        let seeds = vec![key_bytes(wallet), key_bytes(&token_program), key_bytes(mint)];
        assert(seeds@.map_values(|s: Vec<u8>| s@) =~= ata_seeds(wallet.bytes@, mint.bytes@));
        match try_find_program_address(&seeds, &ata_program) {
            None => None,
            Some(_) => Some(associated_token_address(wallet, mint, &token_program)),
        }
    }

    /// A deposit of `amount` by `user` into its vault.
    pub fn build_deposit_ix(&self, user: &Key, mint: &Key, amount: u64) -> (r: Result<Instruction, BuildError>)
        ensures
            built(r, self.program_id, deposit_accounts(self.program_id.bytes@, user.bytes@, mint.bytes@), deposit_discriminator() + spec_u64_to_le_bytes(amount)),
    {
        let vault = match self.derive_vault_pda(user) {
            Some((v, _)) => v,
            None => { return Err(BuildError::NoAddress); },
        };
        let user_ata = match self.associated_token_account(user, mint) {
            Some(a) => a,
            None => { return Err(BuildError::NoAddress); },
        };
        let vault_ata = match self.associated_token_account(&vault, mint) {
            Some(a) => a,
            None => { return Err(BuildError::NoAddress); },
        };
        let disc: [u8; 8] = [242, 35, 198, 137, 82, 225, 242, 182];
        assert(disc@ =~= deposit_discriminator());
        let data = data_with_amount(disc, amount);
        let accounts = vec![
            meta(*user, true, true),
            meta(vault, false, true),
            meta(user_ata, false, true),
            meta(vault_ata, false, true),
            meta(*mint, false, false),
            meta(Key { bytes: TOKEN_2022_PROGRAM_BYTES }, false, false),
        ];
        let ix = Instruction { program_id: self.program_id, accounts, data };
        assert(metas_view(ix.accounts@) =~= deposit_accounts(self.program_id.bytes@, user.bytes@, mint.bytes@)->Some_0);
        Ok(ix)
    }

    /// Initialisation of `user`'s vault for `mint`; the data carries the
    /// vault's bump seed.
    pub fn build_initialize_vault_ix(&self, user: &Key, mint: &Key) -> (r: Result<Instruction, BuildError>)
        ensures
            built(
                r,
                self.program_id,
                initialize_accounts(self.program_id.bytes@, user.bytes@, mint.bytes@),
                initialize_vault_discriminator().push(
                    vault_address(self.program_id.bytes@, user.bytes@)->Some_0.1,
                ),
            ),
    {
        let (vault, bump) = match self.derive_vault_pda(user) {
            Some(p) => p,
            None => { return Err(BuildError::NoAddress); },
        };
        let vault_ata = match self.associated_token_account(&vault, mint) {
            Some(a) => a,
            None => { return Err(BuildError::NoAddress); },
        };
        let mut data = vec![48u8, 191, 163, 44, 71, 129, 63, 164];
        data.push(bump);
        assert(data@ =~= initialize_vault_discriminator().push(bump));
        let accounts = vec![
            meta(*user, true, true),
            meta(*mint, false, false),
            meta(vault, false, true),
            meta(vault_ata, false, true),
            meta(Key { bytes: SYSTEM_PROGRAM_BYTES }, false, false),
            meta(Key { bytes: TOKEN_2022_PROGRAM_BYTES }, false, false),
            meta(Key { bytes: ASSOCIATED_TOKEN_PROGRAM_BYTES }, false, false),
            meta(Key { bytes: RENT_SYSVAR_BYTES }, false, false),
        ];
        let ix = Instruction { program_id: self.program_id, accounts, data };
        assert(metas_view(ix.accounts@) =~= initialize_accounts(self.program_id.bytes@, user.bytes@, mint.bytes@)->Some_0);
        Ok(ix)
    }

    /// A withdrawal of `amount` from `user`'s vault.
    pub fn build_withdraw_ix(&self, user: &Key, mint: &Key, amount: u64) -> (r: Result<Instruction, BuildError>)
        ensures
            built(r, self.program_id, withdraw_accounts(self.program_id.bytes@, user.bytes@, mint.bytes@), withdraw_discriminator() + spec_u64_to_le_bytes(amount)),
    {
        let vault = match self.derive_vault_pda(user) {
            Some((v, _)) => v,
            None => { return Err(BuildError::NoAddress); },
        };
        let user_ata = match self.associated_token_account(user, mint) {
            Some(a) => a,
            None => { return Err(BuildError::NoAddress); },
        };
        let vault_ata = match self.associated_token_account(&vault, mint) {
            Some(a) => a,
            None => { return Err(BuildError::NoAddress); },
        };
        let disc: [u8; 8] = [183, 18, 70, 156, 148, 109, 161, 34];
        assert(disc@ =~= withdraw_discriminator());
        let data = data_with_amount(disc, amount);
        let accounts = vec![
            meta(*user, true, true),
            meta(vault, false, true),
            meta(vault_ata, false, true),
            meta(user_ata, false, true),
            meta(*mint, false, false),
            meta(Key { bytes: TOKEN_2022_PROGRAM_BYTES }, false, false),
        ];
        let ix = Instruction { program_id: self.program_id, accounts, data };
        assert(metas_view(ix.accounts@) =~= withdraw_accounts(self.program_id.bytes@, user.bytes@, mint.bytes@)->Some_0);
        Ok(ix)
    }

    fn build_collateral_ix(&self, caller_program: &Key, user: &Key, disc: [u8; 8], amount: u64) -> (r: Result<Instruction, BuildError>)
        ensures
            built(r, self.program_id, collateral_accounts(self.program_id.bytes@, caller_program.bytes@, user.bytes@), disc@ + spec_u64_to_le_bytes(amount)),
    {
        let vault = match self.derive_vault_pda(user) {
            Some((v, _)) => v,
            None => { return Err(BuildError::NoAddress); },
        };
        let authority = match self.derive_vault_authority_pda() {
            Some((a, _)) => a,
            None => { return Err(BuildError::NoAddress); },
        };
        let data = data_with_amount(disc, amount);
        let accounts = vec![
            meta(*caller_program, false, false),
            meta(vault, false, true),
            meta(authority, false, false),
        ];
        let ix = Instruction { program_id: self.program_id, accounts, data };
        assert(metas_view(ix.accounts@) =~= collateral_accounts(self.program_id.bytes@, caller_program.bytes@, user.bytes@)->Some_0);
        Ok(ix)
    }

    /// Moves `amount` of `user`'s collateral from available to locked, at the
    /// request of `caller_program`.
    pub fn build_lock_collateral_ix(&self, caller_program: &Key, user: &Key, amount: u64) -> (r: Result<Instruction, BuildError>)
        ensures
            built(r, self.program_id, collateral_accounts(self.program_id.bytes@, caller_program.bytes@, user.bytes@), lock_collateral_discriminator() + spec_u64_to_le_bytes(amount)),
    {
        let disc: [u8; 8] = [161, 216, 135, 122, 12, 104, 211, 101];
        assert(disc@ =~= lock_collateral_discriminator());
        self.build_collateral_ix(caller_program, user, disc, amount)
    }

    /// Moves `amount` of `user`'s collateral from locked back to available, at
    /// the request of `caller_program`.
    pub fn build_unlock_collateral_ix(&self, caller_program: &Key, user: &Key, amount: u64) -> (r: Result<Instruction, BuildError>)
        ensures
            built(r, self.program_id, collateral_accounts(self.program_id.bytes@, caller_program.bytes@, user.bytes@), unlock_collateral_discriminator() + spec_u64_to_le_bytes(amount)),
    {
        let disc: [u8; 8] = [167, 213, 221, 147, 129, 209, 132, 190];
        assert(disc@ =~= unlock_collateral_discriminator());
        self.build_collateral_ix(caller_program, user, disc, amount)
    }
}

} // verus!
