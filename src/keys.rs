use vstd::prelude::*;

verus! {

/// A 32-byte account address (an ed25519 public key or a program-derived address).
#[derive(Clone, Copy, PartialEq, Eq, Debug, Hash)]
pub struct Key {
    pub bytes: [u8; 32],
}

/// The base58 text of an address.
pub uninterp spec fn base58_of(bytes: Seq<u8>) -> Seq<char>;

/// The address that base58 text decodes to, if it is the text of one.
pub uninterp spec fn key_from_text(text: Seq<char>) -> Option<Seq<u8>>;

/// The program-derived address and bump seed found for `seeds` under `program`.
pub uninterp spec fn program_address(seeds: Seq<Seq<u8>>, program: Seq<u8>) -> Option<(Seq<u8>, u8)>;

/// Relies on `solana_pubkey::Pubkey`'s `Display`: the base58 text of the bytes.
#[verifier::external_body]
pub(crate) fn key_text(k: &Key) -> (r: String)
    ensures
        r@ == base58_of(k.bytes@),
{
    solana_sdk::pubkey::Pubkey::new_from_array(k.bytes).to_string()
}

/// Relies on `solana_pubkey::Pubkey::from_str`: decodes base58 text of at most
/// 44 characters into exactly 32 bytes.
#[verifier::external_body]
pub(crate) fn parse_key_text(s: &str) -> (r: Option<Key>)
    ensures
        match r {
            Some(k) => key_from_text(s@) == Some(k.bytes@),
            None => key_from_text(s@) is None,
        },
{
    match s.parse::<solana_sdk::pubkey::Pubkey>() {
        Ok(p) => Some(Key { bytes: p.to_bytes() }),
        Err(_) => None,
    }
}

/// Relies on `solana_pubkey::Pubkey::try_find_program_address`: searches the
/// bump seeds from 255 down for a program-derived address.
#[verifier::external_body]
pub(crate) fn try_find_program_address(seeds: &Vec<Vec<u8>>, program: &Key) -> (r: Option<(Key, u8)>)
    ensures
        match r {
            Some((k, bump)) => program_address(seeds@.map_values(|s: Vec<u8>| s@), program.bytes@)
                == Some((k.bytes@, bump)),
            None => program_address(seeds@.map_values(|s: Vec<u8>| s@), program.bytes@) is None,
        },
{
    let refs: Vec<&[u8]> = seeds.iter().map(|s| s.as_slice()).collect();
    let program = solana_sdk::pubkey::Pubkey::new_from_array(program.bytes);
    solana_sdk::pubkey::Pubkey::try_find_program_address(&refs, &program)
        .map(|(p, bump)| (Key { bytes: p.to_bytes() }, bump))
}

impl Key {
    /// The base58 text of this address.
    pub fn to_text(&self) -> (r: String)
        ensures
            r@ == base58_of(self.bytes@),
    {
        key_text(self)
    }

    /// Parses base58 text; `None` when it is not the text of an address.
    pub fn parse(s: &str) -> (r: Option<Key>)
        ensures
            match r {
                Some(k) => key_from_text(s@) == Some(k.bytes@),
                None => key_from_text(s@) is None,
            },
    {
        parse_key_text(s)
    }
}

/// The Token-2022 program.
pub const TOKEN_2022_PROGRAM_BYTES: [u8; 32] = [
    6, 221, 246, 225, 238, 117, 143, 222, 24, 66, 93, 188, 228, 108, 205, 218,
    182, 26, 252, 77, 131, 185, 13, 39, 254, 189, 249, 40, 216, 161, 139, 252,
];

} // verus!
