use vstd::prelude::*;
use crate::keys::Key;
use crate::transaction_builder::{Instruction, AccountMeta, metas_view};

verus! {

/// The wire bytes of an unsigned single-instruction transaction.
pub uninterp spec fn unsigned_tx_wire(
    program: Seq<u8>,
    accounts: Seq<(Seq<u8>, bool, bool)>,
    data: Seq<u8>,
    payer: Seq<u8>,
    blockhash: Seq<u8>,
) -> Option<Seq<u8>>;

/// The standard-alphabet, padded base64 text of bytes.
pub uninterp spec fn base64_text(bytes: Seq<u8>) -> Seq<char>;

/// Bound on an instruction's accounts: with the fee payer and the program
/// they must fit the message header's one-byte key counts, which
/// `Message::new` otherwise fails on.
pub const MAX_INSTRUCTION_ACCOUNTS: usize = 255;

/// Relies on `solana_message::Message::new` with `payer` as fee payer,
/// `solana_transaction::Transaction::new_unsigned` with `recent_blockhash`
/// set, and `bincode::serialize` of that transaction; `None` when
/// serialisation fails. `Message::new` panics when a header count exceeds
/// 255, which the bound on the accounts rules out.
#[verifier::external_body]
fn unsigned_transaction_bytes(ix: &Instruction, payer: &Key, recent_blockhash: &Key) -> (r: Option<Vec<u8>>)
    requires
        ix.accounts@.len() < MAX_INSTRUCTION_ACCOUNTS,
    ensures
        match r {
            Some(b) => unsigned_tx_wire(ix.program_id.bytes@, metas_view(ix.accounts@), ix.data@, payer.bytes@, recent_blockhash.bytes@) == Some(b@),
            None => unsigned_tx_wire(ix.program_id.bytes@, metas_view(ix.accounts@), ix.data@, payer.bytes@, recent_blockhash.bytes@) is None,
        },
{
    let sdk_ix = solana_sdk::instruction::Instruction {
        program_id: solana_sdk::pubkey::Pubkey::new_from_array(ix.program_id.bytes),
        accounts: ix.accounts.iter().map(|m: &AccountMeta| solana_sdk::instruction::AccountMeta {
            pubkey: solana_sdk::pubkey::Pubkey::new_from_array(m.pubkey.bytes),
            is_signer: m.is_signer,
            is_writable: m.is_writable,
        }).collect(),
        data: ix.data.clone(),
    };
    let payer = solana_sdk::pubkey::Pubkey::new_from_array(payer.bytes);
    let message = solana_sdk::message::Message::new(&[sdk_ix], Some(&payer));
    let mut tx = solana_sdk::transaction::Transaction::new_unsigned(message);
    tx.message.recent_blockhash = solana_sdk::hash::Hash::new_from_array(recent_blockhash.bytes);
    bincode::serialize(&tx).ok()
}

/// Relies on `base64::engine::general_purpose::STANDARD.encode`.
#[verifier::external_body]
fn encode_base64(bytes: &Vec<u8>) -> (r: String)
    ensures
        r@ == base64_text(bytes@),
{
    base64::Engine::encode(&base64::engine::general_purpose::STANDARD, bytes)
}

/// Why an unsigned transaction could not be produced.
#[derive(Debug, Clone, Copy, PartialEq, Eq, Structural)]
pub enum WireError {
    Serialization,
}

/// The unsigned transaction carrying `ix`, paid by `payer`, at
/// `recent_blockhash`, serialised and base64-encoded for external signing.
pub fn unsigned_transaction_base64(ix: &Instruction, payer: &Key, recent_blockhash: &Key) -> (r: Result<String, WireError>)
    requires
        ix.accounts@.len() < MAX_INSTRUCTION_ACCOUNTS,
    ensures
        match unsigned_tx_wire(ix.program_id.bytes@, metas_view(ix.accounts@), ix.data@, payer.bytes@, recent_blockhash.bytes@) {
            Some(b) => r matches Ok(s) && s@ == base64_text(b),
            None => r == Err::<String, WireError>(WireError::Serialization),
        },
{
    match unsigned_transaction_bytes(ix, payer, recent_blockhash) {
        Some(b) => Ok(encode_base64(&b)),
        None => Err(WireError::Serialization),
    }
}

} // verus!
