use vstd::prelude::*;
use vstd::bytes::spec_u64_to_le_bytes;
use crate::keys::{Key, base58_of};
use crate::program_repo::{ProgramRepository, ProgramCallView, insert_call_result};
use crate::text::owned_text;
use crate::transaction_builder::{
    TransactionBuilder, Instruction, BuildError, collateral_accounts, built, metas_view,
    lock_collateral_discriminator, unlock_collateral_discriminator,
};
use crate::wire::{unsigned_transaction_base64, unsigned_tx_wire, base64_text, WireError};

verus! {

/// Why a collateral request was refused.
#[derive(Debug, Clone, Copy, PartialEq, Eq)]
pub enum CpiError {
    /// The calling program is not in the registry.
    UnauthorizedCaller,
    Build(BuildError),
    Wire(WireError),
}

pub open spec fn lock_text() -> Seq<char> {
    seq!['l', 'o', 'c', 'k']
}

pub open spec fn unlock_text() -> Seq<char> {
    seq!['u', 'n', 'l', 'o', 'c', 'k']
}

/// The outcome that a collateral request owes: refused for an unregistered
/// caller, then per the instruction and its wire form; on success the base64
/// payload and one audit row keyed by the empty placeholder signature.
pub open spec fn collateral_tx_outcome(
    r: Result<String, CpiError>,
    program: Seq<u8>,
    before: ProgramRepository,
    after: ProgramRepository,
    caller: Seq<u8>,
    vault_pda: Seq<u8>,
    user: Seq<u8>,
    disc: Seq<u8>,
    instruction: Seq<char>,
    amount: u64,
    slot: i64,
    block_time: i64,
    blockhash: Seq<u8>,
) -> bool {
    if !before.authorized().contains(base58_of(caller)) {
        r == Err::<String, CpiError>(CpiError::UnauthorizedCaller) && after.calls() == before.calls()
    } else {
        match collateral_accounts(program, caller, user) {
            None => r == Err::<String, CpiError>(CpiError::Build(BuildError::NoAddress)) && after.calls() == before.calls(),
            Some(a) => match unsigned_tx_wire(program, a, disc + spec_u64_to_le_bytes(amount), user, blockhash) {
                None => r == Err::<String, CpiError>(CpiError::Wire(WireError::Serialization)) && after.calls() == before.calls(),
                Some(b) => r matches Ok(s) && s@ == base64_text(b) && after.calls() == insert_call_result(
                    before.calls(),
                    ProgramCallView {
                        tx_signature: Seq::empty(),
                        caller_program: base58_of(caller),
                        vault_pda: base58_of(vault_pda),
                        instruction,
                        amount: Some(amount as i64),
                        slot: slot as int,
                        block_time: block_time as int,
                    },
                ),
            },
        }
    }
}

/// Builds lock and unlock requests of sibling programs for the vault program,
/// gated by the authorised-program registry.
pub struct CPIManager {
    pub program_id: Key,
}

impl CPIManager {
    pub fn new(program_id: Key) -> (r: CPIManager)
        ensures
            r.program_id == program_id,
    {
        CPIManager { program_id }
    }

    pub fn tx_builder(&self) -> (r: TransactionBuilder)
        ensures
            r.program_id == self.program_id,
    {
        TransactionBuilder::new(self.program_id)
    }

    /// Refuses a caller whose key text is not in the registry.
    pub fn ensure_authorized_program(&self, registry: &ProgramRepository, program_id: &Key) -> (r: Result<(), CpiError>)
        ensures
            r is Ok <==> registry.authorized().contains(base58_of(program_id.bytes@)),
            r is Err ==> r == Err::<(), CpiError>(CpiError::UnauthorizedCaller),
    {
        let text = program_id.to_text();
        if registry.is_program_authorized(text.as_str()) {
            Ok(())
        } else {
            Err(CpiError::UnauthorizedCaller)
        }
    }

    /// The lock instruction for an authorised caller.
    pub fn lock_collateral_ix(&self, registry: &ProgramRepository, caller_program: &Key, user_pubkey: &Key, amount: u64) -> (r: Result<Instruction, CpiError>)
        ensures
            !registry.authorized().contains(base58_of(caller_program.bytes@)) ==> r == Err::<Instruction, CpiError>(CpiError::UnauthorizedCaller),
            registry.authorized().contains(base58_of(caller_program.bytes@)) ==> built(
                match r { Ok(ix) => Ok(ix), Err(CpiError::Build(e)) => Err(e), Err(_) => Err(BuildError::NoAddress) },
                self.program_id,
                collateral_accounts(self.program_id.bytes@, caller_program.bytes@, user_pubkey.bytes@),
                lock_collateral_discriminator() + spec_u64_to_le_bytes(amount),
            ) && (r is Err ==> r == Err::<Instruction, CpiError>(CpiError::Build(BuildError::NoAddress))),
    {
        self.ensure_authorized_program(registry, caller_program)?;
        match self.tx_builder().build_lock_collateral_ix(caller_program, user_pubkey, amount) {
            Ok(ix) => Ok(ix),
            Err(e) => Err(CpiError::Build(e)),
        }
    }

    /// The unlock instruction for an authorised caller.
    pub fn unlock_collateral_ix(&self, registry: &ProgramRepository, caller_program: &Key, user_pubkey: &Key, amount: u64) -> (r: Result<Instruction, CpiError>)
        ensures
            !registry.authorized().contains(base58_of(caller_program.bytes@)) ==> r == Err::<Instruction, CpiError>(CpiError::UnauthorizedCaller),
            registry.authorized().contains(base58_of(caller_program.bytes@)) ==> built(
                match r { Ok(ix) => Ok(ix), Err(CpiError::Build(e)) => Err(e), Err(_) => Err(BuildError::NoAddress) },
                self.program_id,
                collateral_accounts(self.program_id.bytes@, caller_program.bytes@, user_pubkey.bytes@),
                unlock_collateral_discriminator() + spec_u64_to_le_bytes(amount),
            ) && (r is Err ==> r == Err::<Instruction, CpiError>(CpiError::Build(BuildError::NoAddress))),
    {
        self.ensure_authorized_program(registry, caller_program)?;
        match self.tx_builder().build_unlock_collateral_ix(caller_program, user_pubkey, amount) {
            Ok(ix) => Ok(ix),
            Err(e) => Err(CpiError::Build(e)),
        }
    }

    fn finish_collateral_tx(
        &self,
        registry: &mut ProgramRepository,
        ix: Result<Instruction, CpiError>,
        caller_program: &Key,
        vault_pda: &Key,
        user_pubkey: &Key,
        instruction: &str,
        amount: u64,
        slot: i64,
        block_time: i64,
        recent_blockhash: &Key,
    ) -> (r: Result<String, CpiError>)
        requires
            ix matches Ok(i) ==> i.accounts@.len() < crate::wire::MAX_INSTRUCTION_ACCOUNTS,
        ensures
            final(registry).authorized() == old(registry).authorized(),
            match ix {
                Err(e) => r == Err::<String, CpiError>(e) && final(registry).calls() == old(registry).calls(),
                Ok(ix) => match unsigned_tx_wire(ix.program_id.bytes@, crate::transaction_builder::metas_view(ix.accounts@), ix.data@, user_pubkey.bytes@, recent_blockhash.bytes@) {
                    None => r == Err::<String, CpiError>(CpiError::Wire(WireError::Serialization)) && final(registry).calls() == old(registry).calls(),
                    Some(b) => r matches Ok(s) && s@ == base64_text(b) && final(registry).calls() == insert_call_result(
                        old(registry).calls(),
                        ProgramCallView {
                            tx_signature: Seq::empty(),
                            caller_program: base58_of(caller_program.bytes@),
                            vault_pda: base58_of(vault_pda.bytes@),
                            instruction: instruction@,
                            amount: Some(amount as i64),
                            slot: slot as int,
                            block_time: block_time as int,
                        },
                    ),
                },
            },
    {
        let ix = match ix {
            Ok(ix) => ix,
            Err(e) => { return Err(e); },
        };
        let encoded = match unsigned_transaction_base64(&ix, user_pubkey, recent_blockhash) {
            Ok(s) => s,
            Err(e) => { return Err(CpiError::Wire(e)); },
        };
        let placeholder = String::new();
        registry.insert_program_call(
            placeholder.as_str(),
            caller_program.to_text().as_str(),
            vault_pda.to_text().as_str(),
            instruction,
            Some(amount as i64),
            slot,
            block_time,
        );
        Ok(encoded)
    }

    /// For an authorised caller, the unsigned lock transaction (fee payer the
    /// user, at `recent_blockhash`) as base64, with an audit row appended.
    pub fn build_lock_collateral_tx(
        &self,
        registry: &mut ProgramRepository,
        caller_program: &Key,
        vault_pda: &Key,
        user_pubkey: &Key,
        mint: &Key,
        amount: u64,
        slot: i64,
        block_time: i64,
        recent_blockhash: &Key,
    ) -> (r: Result<String, CpiError>)
        ensures
            final(registry).authorized() == old(registry).authorized(),
            collateral_tx_outcome(r, self.program_id.bytes@, *old(registry), *final(registry), caller_program.bytes@, vault_pda.bytes@, user_pubkey.bytes@, lock_collateral_discriminator(), lock_text(), amount, slot, block_time, recent_blockhash.bytes@),
    {
        let ix = self.lock_collateral_ix(registry, caller_program, user_pubkey, amount);
        assert(ix matches Ok(i) ==> metas_view(i.accounts@).len() == i.accounts@.len());
        let kind = owned_text("lock");
        proof { reveal_strlit("lock"); }
        assert(kind@ =~= lock_text());
        self.finish_collateral_tx(registry, ix, caller_program, vault_pda, user_pubkey, kind.as_str(), amount, slot, block_time, recent_blockhash)
    }

    /// For an authorised caller, the unsigned unlock transaction (fee payer
    /// the user, at `recent_blockhash`) as base64, with an audit row appended.
    pub fn build_unlock_collateral_tx(
        &self,
        registry: &mut ProgramRepository,
        caller_program: &Key,
        vault_pda: &Key,
        user_pubkey: &Key,
        mint: &Key,
        amount: u64,
        slot: i64,
        block_time: i64,
        recent_blockhash: &Key,
    ) -> (r: Result<String, CpiError>)
        ensures
            final(registry).authorized() == old(registry).authorized(),
            collateral_tx_outcome(r, self.program_id.bytes@, *old(registry), *final(registry), caller_program.bytes@, vault_pda.bytes@, user_pubkey.bytes@, unlock_collateral_discriminator(), unlock_text(), amount, slot, block_time, recent_blockhash.bytes@),
    {
        let ix = self.unlock_collateral_ix(registry, caller_program, user_pubkey, amount);
        assert(ix matches Ok(i) ==> metas_view(i.accounts@).len() == i.accounts@.len());
        let kind = owned_text("unlock");
        proof { reveal_strlit("unlock"); }
        assert(kind@ =~= unlock_text());
        self.finish_collateral_tx(registry, ix, caller_program, vault_pda, user_pubkey, kind.as_str(), amount, slot, block_time, recent_blockhash)
    }
}

} // verus!
