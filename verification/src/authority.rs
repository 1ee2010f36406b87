//! The protocol's keyless authority: an address derived from the protocol's
//! own identity and a fixed seed, which no private key stands behind.

use vstd::prelude::*;
use crate::identity::Identity;
use crate::token::AccountInfo;

verus! {

/// The seed label from which the vault authority is derived: the bytes of
/// the word "escrow".
pub const ESCROW_PDA_SEED: [u8; 6] = [101u8, 115u8, 99u8, 114u8, 111u8, 119u8];

/// The derived authority of a protocol: its address, and the bump seed that
/// the derivation settled on. Only the derivation makes one.
#[derive(Clone, Copy, Debug, PartialEq, Eq)]
pub struct AuthorityHandle {
    key: Identity,
    bump: u8,
}

impl AuthorityHandle {
    /// The address of the authority.
    pub closed spec fn address(&self) -> Identity {
        self.key
    }

    /// The bump seed that the derivation settled on.
    pub closed spec fn bump_seed(&self) -> u8 {
        self.bump
    }

    /// The address of the authority.
    pub fn key(&self) -> (key: Identity)
        ensures
            key == self.address(),
    {
        self.key
    }

    /// The bump seed that the derivation settled on.
    pub fn bump(&self) -> (bump: u8)
        ensures
            bump == self.bump_seed(),
    {
        self.bump
    }

    /// The authority as a party that has authorized the request. The
    /// derivation stands in for the signature that a keyless address cannot
    /// give.
    pub fn signer(&self) -> (info: AccountInfo)
        ensures
            info == (AccountInfo { key: self.address(), is_signer: true }),
    {
        AccountInfo { key: self.key, is_signer: true }
    }
}

/// The address and bump seed that the address derivation finds for one seed
/// and a program's address, or `None` where it finds none.
pub uninterp spec fn program_address(seed: Seq<u8>, program_id: Seq<u8>) -> Option<(Seq<u8>, u8)>;

/// The authority derived from a seed and a protocol's identity: the handle
/// of the address and bump seed that the derivation finds, if it finds any.
pub closed spec fn derived_authority(seed: Seq<u8>, program_id: Identity) -> Option<
    AuthorityHandle,
> {
    match program_address(seed, program_id@) {
        Some((address, bump)) => Some(AuthorityHandle { key: Identity::of(address), bump }),
        None => None,
    }
}

/// Calls `Pubkey::try_find_program_address` with a single seed. The result is
/// a function of the seed and the program's address alone; the contract names
/// it and says nothing more of it.
#[verifier::external_body]
fn find_program_address(seed: &[u8], program_id: &Identity) -> (found: Option<(Identity, u8)>)
    ensures
        found matches Some(pair) ==> program_address(seed@, program_id@) == Some((pair.0@, pair.1)),
        found is None ==> program_address(seed@, program_id@) is None,
{
    let program = anchor_lang::prelude::Pubkey::new_from_array(program_id.bytes);
    match anchor_lang::prelude::Pubkey::try_find_program_address(&[seed], &program) {
        Some((address, bump)) => Some((Identity { bytes: address.to_bytes() }, bump)),
        None => None,
    }
}

/// Derives the keyless authority of the protocol `program_id` from `seed`.
/// The same inputs give the same authority each time: nothing is stored.
pub fn derive_authority(program_id: &Identity, seed: &[u8]) -> (authority: Option<AuthorityHandle>)
    ensures
        authority == derived_authority(seed@, *program_id),
        match authority {
            Some(handle) => program_address(seed@, program_id@) == Some(
                (handle.address()@, handle.bump_seed()),
            ),
            None => program_address(seed@, program_id@) is None,
        },
{
    match find_program_address(seed, program_id) {
        Some((key, bump)) => {
            proof {
                Identity::lemma_of_view(key);
            }
            Some(AuthorityHandle { key, bump })
        },
        None => None,
    }
}

/// Derives the authority under which the protocol `program_id` holds its
/// vaults.
pub fn vault_authority(program_id: &Identity) -> (authority: Option<AuthorityHandle>)
    ensures
        authority == derived_authority(ESCROW_PDA_SEED@, *program_id),
{
    let seed = ESCROW_PDA_SEED;
    derive_authority(program_id, seed.as_slice())
}

} // verus!
