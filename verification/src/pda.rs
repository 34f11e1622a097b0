//! The boundary to the runtime's key handling: derived addresses, fresh keys, and the identity
//! of the extension-bearing token program.
use vstd::prelude::*;
use crate::address::Address;

verus! {

/// The address and bump that the runtime's derivation search yields for a list of seeds under a
/// program, or `None` where the search finds no address.
pub uninterp spec fn program_address(seeds: Seq<Seq<u8>>, program_id: Seq<u8>) -> Option<(Seq<u8>, u8)>;

/// The bytes of the identifier of the token program whose mints may carry extensions.
pub open spec fn token_2022_program_bytes() -> Seq<u8> {
    seq![
        6u8, 221, 246, 225, 238, 117, 143, 222, 24, 66, 93, 188, 228, 108, 205, 218,
        182, 26, 252, 77, 131, 185, 13, 39, 254, 189, 249, 40, 216, 161, 139, 252,
    ]
}

/// The bytes of the identifier of the token program whose mints carry no extensions.
pub open spec fn token_program_bytes() -> Seq<u8> {
    seq![
        6u8, 221, 246, 225, 215, 101, 161, 147, 217, 203, 225, 70, 206, 235, 121, 172,
        28, 180, 133, 237, 95, 91, 55, 145, 58, 140, 245, 133, 126, 255, 0, 169,
    ]
}

/// Calls `solana_program::pubkey::Pubkey::try_find_program_address`. Trusted: the result is the
/// derivation of the seeds under the program, a function of those bytes alone.
#[verifier::external_body]
pub(crate) fn try_find_program_address(seeds: &Vec<Vec<u8>>, program_id: &Address) -> (r: Option<(Address, u8)>)
    ensures
        match r {
            Some((address, bump)) => program_address(seeds.deep_view(), program_id@) == Some((address@, bump)),
            None => program_address(seeds.deep_view(), program_id@) is None,
        },
{
    let parts: Vec<&[u8]> = seeds.iter().map(|s| s.as_slice()).collect();
    let program = solana_program::pubkey::Pubkey::new_from_array(program_id.bytes);
    solana_program::pubkey::Pubkey::try_find_program_address(&parts, &program)
        .map(|(key, bump)| (Address { bytes: key.to_bytes() }, bump))
}

/// Calls `solana_sdk::signer::keypair::Keypair::new` and takes the public key of the pair.
/// Trusted for nothing: the key is random, so nothing is claimed of it.
#[verifier::external_body]
pub(crate) fn new_keypair_address() -> (a: Address)
{
    let pair = solana_sdk::signer::keypair::Keypair::new();
    Address { bytes: solana_sdk::signer::Signer::pubkey(&pair).to_bytes() }
}

/// Calls `spl_token_2022::check_id`. Trusted: it answers whether the bytes are those of the
/// extension-bearing token program's identifier.
#[verifier::external_body]
pub(crate) fn is_token_2022_program(program: &Address) -> (r: bool)
    ensures
        r == (program@ == token_2022_program_bytes()),
{
    spl_token_2022::check_id(&solana_program::pubkey::Pubkey::new_from_array(program.bytes))
}

/// Calls `spl_token_2022::check_spl_token_program_account`. Trusted: it accepts the bytes of
/// the identifiers of the two token programs and no others.
#[verifier::external_body]
pub(crate) fn is_spl_token_program(program: &Address) -> (r: bool)
    ensures
        r == (program@ == token_program_bytes() || program@ == token_2022_program_bytes()),
{
    let key = solana_program::pubkey::Pubkey::new_from_array(program.bytes);
    spl_token_2022::check_spl_token_program_account(&key).is_ok()
}

} // verus!
