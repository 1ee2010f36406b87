//! The record of one open offer, and the offer itself: the record together
//! with the vault that holds what was offered.

use vstd::prelude::*;
use vstd::bytes::{
    lemma_auto_spec_u64_to_from_le_bytes, spec_u64_from_le_bytes, spec_u64_to_le_bytes,
    u64_from_le_bytes, u64_to_le_bytes,
};
use vstd::slice::slice_subrange;
use crate::identity::Identity;
use crate::token::TokenAccount;

verus! {

/// What one open offer is about. Nothing in it changes while the offer is
/// open.
#[derive(Clone, Copy, Debug, PartialEq, Eq)]
pub struct EscrowAccount {
    /// Who made the offer, and alone may cancel it.
    pub initializer_key: Identity,
    /// The account that the offered asset came from, and returns to on
    /// cancellation.
    pub initializer_deposit_token_account: Identity,
    /// The account that receives the requested asset when the swap goes
    /// through.
    pub initializer_receive_token_account: Identity,
    /// The amount locked in the vault.
    pub initializer_amount: u64,
    /// The amount asked of the taker.
    pub taker_amount: u64,
}

/// The number of bytes that a record is stored in.
pub const RECORD_LEN: usize = 112;

/// Appends the address bytes of `id` to `bytes`.
fn put_identity(bytes: &mut Vec<u8>, id: &Identity)
    ensures
        final(bytes)@ == old(bytes)@ + id@,
{
    let ghost before = bytes@;
    let mut i: usize = 0;
    while i < 32
        invariant
            i <= 32,
            id@.len() == 32,
            bytes@ == before + id@.take(i as int),
        decreases 32 - i,
    {
        bytes.push(id.bytes[i]);
        assert(id@.take(i + 1) =~= id@.take(i as int).push(id@[i as int]));
        i += 1;
    }
    assert(id@.take(32) =~= id@);
}

/// Appends the eight bytes of `amount`, lowest first, to `bytes`.
fn put_amount(bytes: &mut Vec<u8>, amount: u64)
    ensures
        final(bytes)@ == old(bytes)@ + spec_u64_to_le_bytes(amount),
{
    let ghost before = bytes@;
    let digits = u64_to_le_bytes(amount);
    let mut i: usize = 0;
    while i < 8
        invariant
            i <= 8,
            digits@.len() == 8,
            bytes@ == before + digits@.take(i as int),
        decreases 8 - i,
    {
        bytes.push(digits[i]);
        assert(digits@.take(i + 1) =~= digits@.take(i as int).push(digits@[i as int]));
        i += 1;
    }
    assert(digits@.take(8) =~= digits@);
}

/// The identity whose address bytes are the 32 bytes of `bytes` from `start`.
fn get_identity(bytes: &[u8], start: usize) -> (id: Identity)
    requires
        start + 32 <= bytes@.len(),
    ensures
        id@ == bytes@.subrange(start as int, start + 32),
{
    let length = bytes.len();
    let mut out = [0u8;32];
    let mut i: usize = 0;
    while i < 32
        invariant
            i <= 32,
            start + 32 <= length == bytes@.len(),
            out@.len() == 32,
            forall|j: int| 0 <= j < i ==> out@[j] == bytes@[start + j],
        decreases 32 - i,
    {
        out[i] = bytes[start + i];
        i += 1;
    }
    assert(out@ =~= bytes@.subrange(start as int, start + 32));
    Identity { bytes: out }
}

impl EscrowAccount {
    /// The bytes that the record is stored as: the three addresses, then the
    /// two amounts, each in eight bytes, lowest first.
    pub open spec fn packed(&self) -> Seq<u8> {
        self.initializer_key@ + self.initializer_deposit_token_account@
            + self.initializer_receive_token_account@ + spec_u64_to_le_bytes(
            self.initializer_amount,
        ) + spec_u64_to_le_bytes(self.taker_amount)
    }

    /// The record as bytes.
    pub fn pack(&self) -> (bytes: Vec<u8>)
        ensures
            bytes@ == self.packed(),
            bytes@.len() == RECORD_LEN,
    {
        let mut bytes: Vec<u8> = Vec::new();
        put_identity(&mut bytes, &self.initializer_key);
        put_identity(&mut bytes, &self.initializer_deposit_token_account);
        put_identity(&mut bytes, &self.initializer_receive_token_account);
        put_amount(&mut bytes, self.initializer_amount);
        put_amount(&mut bytes, self.taker_amount);
        proof {
            lemma_auto_spec_u64_to_from_le_bytes();
            assert(bytes@ =~= self.packed());
        }
        bytes
    }

    /// The record that `bytes` store, where they are as many as a record
    /// takes.
    pub fn unpack(bytes: &[u8]) -> (record: Option<EscrowAccount>)
        ensures
            match record {
                Some(r) => r.packed() == bytes@,
                None => bytes@.len() != RECORD_LEN,
            },
    {
        if bytes.len() != RECORD_LEN {
            return None;
        }
        let record = EscrowAccount {
            initializer_key: get_identity(bytes, 0),
            initializer_deposit_token_account: get_identity(bytes, 32),
            initializer_receive_token_account: get_identity(bytes, 64),
            initializer_amount: u64_from_le_bytes(slice_subrange(bytes, 96, 104)),
            taker_amount: u64_from_le_bytes(slice_subrange(bytes, 104, 112)),
        };
        proof {
            lemma_auto_spec_u64_to_from_le_bytes();
            assert(spec_u64_to_le_bytes(record.initializer_amount) == bytes@.subrange(96, 104));
            assert(spec_u64_to_le_bytes(record.taker_amount) == bytes@.subrange(104, 112));
            assert(record.packed() =~= bytes@);
        }
        Some(record)
    }

    /// Different records are stored as different bytes: what `unpack` reads
    /// from the bytes that `pack` wrote is the record that was packed.
    pub proof fn law_packed_is_faithful(first: EscrowAccount, second: EscrowAccount)
        requires
            first.packed() == second.packed(),
        ensures
            first == second,
    {
        lemma_auto_spec_u64_to_from_le_bytes();
        let a = first.packed();
        let b = second.packed();
        assert(first.initializer_key@ =~= a.subrange(0, 32));
        assert(second.initializer_key@ =~= b.subrange(0, 32));
        assert(first.initializer_deposit_token_account@ =~= a.subrange(32, 64));
        assert(second.initializer_deposit_token_account@ =~= b.subrange(32, 64));
        assert(first.initializer_receive_token_account@ =~= a.subrange(64, 96));
        assert(second.initializer_receive_token_account@ =~= b.subrange(64, 96));
        assert(spec_u64_to_le_bytes(first.initializer_amount) =~= a.subrange(96, 104));
        assert(spec_u64_to_le_bytes(second.initializer_amount) =~= b.subrange(96, 104));
        assert(spec_u64_to_le_bytes(first.taker_amount) =~= a.subrange(104, 112));
        assert(spec_u64_to_le_bytes(second.taker_amount) =~= b.subrange(104, 112));
        Identity::lemma_by_bytes(first.initializer_key, second.initializer_key);
        Identity::lemma_by_bytes(
            first.initializer_deposit_token_account,
            second.initializer_deposit_token_account,
        );
        Identity::lemma_by_bytes(
            first.initializer_receive_token_account,
            second.initializer_receive_token_account,
        );
        assert(spec_u64_from_le_bytes(spec_u64_to_le_bytes(first.initializer_amount))
            == first.initializer_amount);
        assert(spec_u64_from_le_bytes(spec_u64_to_le_bytes(second.initializer_amount))
            == second.initializer_amount);
        assert(spec_u64_from_le_bytes(spec_u64_to_le_bytes(first.taker_amount))
            == first.taker_amount);
        assert(spec_u64_from_le_bytes(spec_u64_to_le_bytes(second.taker_amount))
            == second.taker_amount);
    }
}

/// An open offer. Record and vault are one value: neither exists without
/// the other.
#[derive(Clone, Copy, Debug, PartialEq, Eq)]
pub struct Offer {
    /// The address of the record.
    pub key: Identity,
    pub record: EscrowAccount,
    pub vault: TokenAccount,
}

impl Offer {
    /// The vault holds exactly what the record says was offered.
    pub open spec fn funded(&self) -> bool {
        self.vault.amount == self.record.initializer_amount
    }
}

} // verus!
