//! The ledger: the token accounts of the parties and the open offers.
//!
//! Whoever keeps the ledger opens the accounts of the parties and takes in
//! the offers that are open. What the parties ask for goes through the
//! operations of the protocol, which alone move what a vault holds.

use vstd::prelude::*;
use crate::identity::Identity;
use crate::record::{EscrowAccount, Offer};
use crate::token::TokenAccount;

verus! {

/// What `account` adds to the supply of `mint`.
pub open spec fn portion(account: TokenAccount, mint: Identity) -> nat {
    if account.mint == mint {
        account.amount as nat
    } else {
        0
    }
}

/// The amount of `mint` that the accounts of `s` hold together.
pub open spec fn total(s: Seq<TokenAccount>, mint: Identity) -> nat
    decreases s.len(),
{
    if s.len() == 0 {
        0
    } else {
        total(s.drop_last(), mint) + portion(s.last(), mint)
    }
}

/// The vaults of the offers of `s`, in their order.
pub open spec fn vaults(s: Seq<Offer>) -> Seq<TokenAccount> {
    Seq::new(s.len(), |i: int| s[i].vault)
}

/// No two accounts of `s` share an address.
pub open spec fn distinct_accounts(s: Seq<TokenAccount>) -> bool {
    forall|i: int, j: int| 0 <= i < j < s.len() ==> s[i].key != s[j].key
}

/// No two offers of `s` share the address of their record, nor that of
/// their vault.
pub open spec fn distinct_offers(s: Seq<Offer>) -> bool {
    forall|i: int, j: int|
        0 <= i < j < s.len() ==> s[i].key != s[j].key && s[i].vault.key != s[j].vault.key
}

/// No vault of `offers` stands at the address of an account of `accounts`.
pub open spec fn apart(accounts: Seq<TokenAccount>, offers: Seq<Offer>) -> bool {
    forall|i: int, j: int|
        0 <= i < accounts.len() && 0 <= j < offers.len() ==> accounts[i].key != offers[j].vault.key
}

/// The account of `s` at the address `key`.
pub open spec fn lookup(s: Seq<TokenAccount>, key: Identity) -> Option<TokenAccount> {
    if exists|i: int| 0 <= i < s.len() && s[i].key == key {
        Some(s[choose|i: int| 0 <= i < s.len() && s[i].key == key])
    } else {
        None
    }
}

/// The offer of `s` whose record is at the address `key`.
pub open spec fn lookup_offer(s: Seq<Offer>, key: Identity) -> Option<Offer> {
    if exists|i: int| 0 <= i < s.len() && s[i].key == key {
        Some(s[choose|i: int| 0 <= i < s.len() && s[i].key == key])
    } else {
        None
    }
}

/// Some offer of `s` has its vault at the address `key`.
pub open spec fn holds_vault(s: Seq<Offer>, key: Identity) -> bool {
    exists|i: int| 0 <= i < s.len() && s[i].vault.key == key
}

/// With distinct addresses, the account found at an account's address is
/// that account.
pub proof fn lemma_lookup_at(s: Seq<TokenAccount>, i: int)
    requires
        distinct_accounts(s),
        0 <= i < s.len(),
    ensures
        lookup(s, s[i].key) == Some(s[i]),
{
    let j = choose|j: int| 0 <= j < s.len() && s[j].key == s[i].key;
    assert(j == i);
}

/// With distinct addresses, the offer found at an offer's address is that
/// offer.
pub proof fn lemma_lookup_offer_at(s: Seq<Offer>, i: int)
    requires
        distinct_offers(s),
        0 <= i < s.len(),
    ensures
        lookup_offer(s, s[i].key) == Some(s[i]),
{
    let j = choose|j: int| 0 <= j < s.len() && s[j].key == s[i].key;
    assert(j == i);
}

/// A new account adds its portion to the total.
pub proof fn lemma_total_push(s: Seq<TokenAccount>, account: TokenAccount, mint: Identity)
    ensures
        total(s.push(account), mint) == total(s, mint) + portion(account, mint),
{
    assert(s.push(account).drop_last() =~= s);
}

/// Replacing an account replaces its portion of the total.
pub proof fn lemma_total_update(s: Seq<TokenAccount>, i: int, account: TokenAccount, mint: Identity)
    requires
        0 <= i < s.len(),
    ensures
        total(s.update(i, account), mint) + portion(s[i], mint) == total(s, mint) + portion(
            account,
            mint,
        ),
    decreases s.len(),
{
    if i == s.len() - 1 {
        assert(s.update(i, account).drop_last() =~= s.drop_last());
    } else {
        assert(s.update(i, account).drop_last() =~= s.drop_last().update(i, account));
        lemma_total_update(s.drop_last(), i, account, mint);
    }
}

/// Removing an account takes its portion from the total.
pub proof fn lemma_total_remove(s: Seq<TokenAccount>, i: int, mint: Identity)
    requires
        0 <= i < s.len(),
    ensures
        total(s.remove(i), mint) + portion(s[i], mint) == total(s, mint),
    decreases s.len(),
{
    if i == s.len() - 1 {
        assert(s.remove(i) =~= s.drop_last());
    } else {
        assert(s.remove(i).drop_last() =~= s.drop_last().remove(i));
        lemma_total_remove(s.drop_last(), i, mint);
    }
}

/// The first accounts of a sequence hold no more than all of them.
pub proof fn lemma_total_take(s: Seq<TokenAccount>, n: int, mint: Identity)
    requires
        0 <= n <= s.len(),
    ensures
        total(s.take(n), mint) <= total(s, mint),
    decreases s.len(),
{
    if n == s.len() {
        assert(s.take(n) =~= s);
    } else {
        assert(s.take(n) =~= s.drop_last().take(n));
        lemma_total_take(s.drop_last(), n, mint);
    }
}

/// Replacing an account by one of the same address changes what is found
/// at that address, and nothing else.
pub proof fn lemma_lookup_update(s: Seq<TokenAccount>, i: int, account: TokenAccount)
    requires
        distinct_accounts(s),
        0 <= i < s.len(),
        account.key == s[i].key,
    ensures
        distinct_accounts(s.update(i, account)),
        forall|key: Identity| #[trigger]
            lookup(s.update(i, account), key) == if key == account.key {
                Some(account)
            } else {
                lookup(s, key)
            },
{
    let t = s.update(i, account);
    assert forall|key: Identity| #[trigger]
        lookup(t, key) == if key == account.key {
            Some(account)
        } else {
            lookup(s, key)
        } by {
        if exists|j: int| 0 <= j < t.len() && t[j].key == key {
            let j = choose|j: int| 0 <= j < t.len() && t[j].key == key;
            assert(s[j].key == key);
            lemma_lookup_at(s, j);
            lemma_lookup_at(t, j);
        } else {
            assert forall|j: int| 0 <= j < s.len() implies s[j].key != key by {
                assert(t[j].key == s[j].key);
            }
        }
    }
}

/// Adding an account at a free address changes what is found at that
/// address, and nothing else.
pub proof fn lemma_lookup_push(s: Seq<TokenAccount>, account: TokenAccount)
    requires
        distinct_accounts(s),
        lookup(s, account.key) is None,
    ensures
        distinct_accounts(s.push(account)),
        forall|key: Identity| #[trigger]
            lookup(s.push(account), key) == if key == account.key {
                Some(account)
            } else {
                lookup(s, key)
            },
{
    let t = s.push(account);
    assert(forall|j: int| 0 <= j < s.len() ==> s[j].key != account.key);
    assert forall|key: Identity| #[trigger]
        lookup(t, key) == if key == account.key {
            Some(account)
        } else {
            lookup(s, key)
        } by {
        if exists|j: int| 0 <= j < t.len() && t[j].key == key {
            let j = choose|j: int| 0 <= j < t.len() && t[j].key == key;
            lemma_lookup_at(t, j);
            if j < s.len() {
                assert(s[j].key == key);
                lemma_lookup_at(s, j);
            }
        } else {
            assert(t[s.len() as int].key == account.key);
            assert forall|j: int| 0 <= j < s.len() implies s[j].key != key by {
                assert(t[j].key == s[j].key);
            }
        }
    }
}

/// Adding an offer whose addresses are free changes what is found at
/// those addresses, and nothing else.
pub proof fn lemma_offer_push(s: Seq<Offer>, offer: Offer)
    requires
        distinct_offers(s),
        lookup_offer(s, offer.key) is None,
        !holds_vault(s, offer.vault.key),
    ensures
        distinct_offers(s.push(offer)),
        vaults(s.push(offer)) == vaults(s).push(offer.vault),
        forall|key: Identity| #[trigger]
            lookup_offer(s.push(offer), key) == if key == offer.key {
                Some(offer)
            } else {
                lookup_offer(s, key)
            },
        forall|key: Identity| #[trigger]
            holds_vault(s.push(offer), key) == (key == offer.vault.key || holds_vault(s, key)),
{
    let t = s.push(offer);
    assert(vaults(t) =~= vaults(s).push(offer.vault));
    assert(forall|j: int| 0 <= j < s.len() ==> s[j].key != offer.key);
    assert(forall|j: int| 0 <= j < s.len() ==> s[j].vault.key != offer.vault.key);
    assert forall|key: Identity| #[trigger]
        lookup_offer(t, key) == if key == offer.key {
            Some(offer)
        } else {
            lookup_offer(s, key)
        } by {
        if exists|j: int| 0 <= j < t.len() && t[j].key == key {
            let j = choose|j: int| 0 <= j < t.len() && t[j].key == key;
            lemma_lookup_offer_at(t, j);
            if j < s.len() {
                assert(s[j].key == key);
                lemma_lookup_offer_at(s, j);
            }
        } else {
            assert(t[s.len() as int].key == offer.key);
            assert forall|j: int| 0 <= j < s.len() implies s[j].key != key by {
                assert(t[j].key == s[j].key);
            }
        }
    }
    assert forall|key: Identity| #[trigger]
        holds_vault(t, key) == (key == offer.vault.key || holds_vault(s, key)) by {
        if holds_vault(t, key) {
            let j = choose|j: int| 0 <= j < t.len() && t[j].vault.key == key;
            if j < s.len() {
                assert(s[j].vault.key == key);
            }
        }
        if key == offer.vault.key {
            assert(t[s.len() as int].vault.key == key);
        }
        if holds_vault(s, key) {
            let j = choose|j: int| 0 <= j < s.len() && s[j].vault.key == key;
            assert(t[j].vault.key == key);
        }
    }
}

/// Removing an offer frees its addresses, and changes nothing else.
pub proof fn lemma_offer_remove(s: Seq<Offer>, i: int)
    requires
        distinct_offers(s),
        0 <= i < s.len(),
    ensures
        distinct_offers(s.remove(i)),
        vaults(s.remove(i)) == vaults(s).remove(i),
        forall|key: Identity| #[trigger]
            lookup_offer(s.remove(i), key) == if key == s[i].key {
                None
            } else {
                lookup_offer(s, key)
            },
        forall|key: Identity| #[trigger]
            holds_vault(s.remove(i), key) == (key != s[i].vault.key && holds_vault(s, key)),
{
    let t = s.remove(i);
    assert(vaults(t) =~= vaults(s).remove(i));
    assert forall|a: int, b: int| 0 <= a < b < t.len() implies t[a].key != t[b].key
        && t[a].vault.key != t[b].vault.key by {
        let a0 = if a < i { a } else { a + 1 };
        let b0 = if b < i { b } else { b + 1 };
        assert(t[a] == s[a0] && t[b] == s[b0]);
    }
    assert forall|key: Identity| #[trigger]
        lookup_offer(t, key) == if key == s[i].key {
            None
        } else {
            lookup_offer(s, key)
        } by {
        if exists|j: int| 0 <= j < t.len() && t[j].key == key {
            let j = choose|j: int| 0 <= j < t.len() && t[j].key == key;
            let j0 = if j < i { j } else { j + 1 };
            assert(t[j] == s[j0]);
            lemma_lookup_offer_at(t, j);
            lemma_lookup_offer_at(s, j0);
        } else {
            assert forall|j: int| 0 <= j < s.len() && j != i implies s[j].key != key by {
                let j1 = if j < i { j } else { j - 1 };
                assert(t[j1] == s[j]);
            }
            if key != s[i].key {
                assert(forall|j: int| 0 <= j < s.len() ==> s[j].key != key);
            }
        }
    }
    assert forall|key: Identity| #[trigger]
        holds_vault(t, key) == (key != s[i].vault.key && holds_vault(s, key)) by {
        if holds_vault(t, key) {
            let j = choose|j: int| 0 <= j < t.len() && t[j].vault.key == key;
            let j0 = if j < i { j } else { j + 1 };
            assert(t[j] == s[j0]);
            assert(s[j0].vault.key == key);
        }
        if key != s[i].vault.key && holds_vault(s, key) {
            let j = choose|j: int| 0 <= j < s.len() && s[j].vault.key == key;
            let j1 = if j < i { j } else { j - 1 };
            assert(t[j1] == s[j]);
            assert(t[j1].vault.key == key);
        }
    }
}

/// No account holds more than the total.
pub proof fn lemma_total_bound(s: Seq<TokenAccount>, i: int, mint: Identity)
    requires
        0 <= i < s.len(),
    ensures
        portion(s[i], mint) <= total(s, mint),
{
    lemma_total_remove(s, i, mint);
}

/// No two accounts hold together more than the total.
pub proof fn lemma_total_bound_two(s: Seq<TokenAccount>, i: int, j: int, mint: Identity)
    requires
        0 <= i < s.len(),
        0 <= j < s.len(),
        i != j,
    ensures
        portion(s[i], mint) + portion(s[j], mint) <= total(s, mint),
{
    lemma_total_remove(s, i, mint);
    let t = s.remove(i);
    let k = if j < i { j } else { j - 1 };
    assert(t[k] == s[j]);
    lemma_total_bound(t, k, mint);
}

/// The token accounts of the parties and the open offers.
pub struct Ledger {
    accounts: Vec<TokenAccount>,
    offers: Vec<Offer>,
}

impl Ledger {
    /// The accounts of the parties.
    pub closed spec fn accounts(&self) -> Seq<TokenAccount> {
        self.accounts@
    }

    /// The open offers.
    pub closed spec fn offers(&self) -> Seq<Offer> {
        self.offers@
    }

    /// The account of a party at the address `key`.
    pub open spec fn token(&self, key: Identity) -> Option<TokenAccount> {
        lookup(self.accounts(), key)
    }

    /// The open offer whose record is at the address `key`.
    pub open spec fn offer(&self, key: Identity) -> Option<Offer> {
        lookup_offer(self.offers(), key)
    }

    /// The vault of some open offer is at the address `key`.
    pub open spec fn vault_in_use(&self, key: Identity) -> bool {
        holds_vault(self.offers(), key)
    }

    /// The amount of `mint` that exists: what the parties hold and what the
    /// vaults hold.
    pub open spec fn supply(&self, mint: Identity) -> nat {
        total(self.accounts(), mint) + total(vaults(self.offers()), mint)
    }

    /// Addresses are used once, each vault holds what its record says, and
    /// the supply of each asset fits the range of an amount.
    pub open spec fn wf(&self) -> bool {
        &&& distinct_accounts(self.accounts())
        &&& distinct_offers(self.offers())
        &&& apart(self.accounts(), self.offers())
        &&& forall|i: int| 0 <= i < self.offers().len() ==> (#[trigger] self.offers()[i]).funded()
        &&& forall|mint: Identity| #[trigger] self.supply(mint) <= u64::MAX
    }

    /// A ledger without accounts and without offers.
    pub fn new() -> (ledger: Ledger)
        ensures
            ledger.wf(),
            ledger.accounts().len() == 0,
            ledger.offers().len() == 0,
            forall|key: Identity| ledger.token(key) is None,
            forall|key: Identity| ledger.offer(key) is None && !ledger.vault_in_use(key),
            forall|mint: Identity| ledger.supply(mint) == 0,
    {
        let ledger = Ledger { accounts: Vec::new(), offers: Vec::new() };
        assert(vaults(ledger.offers()) =~= Seq::<TokenAccount>::empty());
        ledger
    }

    /// The number of accounts of the parties.
    pub fn account_count(&self) -> (n: usize)
        ensures
            n == self.accounts().len(),
    {
        self.accounts.len()
    }

    /// The number of open offers.
    pub fn offer_count(&self) -> (n: usize)
        ensures
            n == self.offers().len(),
    {
        self.offers.len()
    }

    /// The place of the account at the address `key`.
    pub fn find_account(&self, key: &Identity) -> (found: Option<usize>)
        ensures
            match found {
                Some(i) => i < self.accounts().len() && self.accounts()[i as int].key == *key,
                None => self.token(*key) is None,
            },
            distinct_accounts(self.accounts()) ==> match found {
                Some(i) => self.token(*key) == Some(self.accounts()[i as int]),
                None => true,
            },
    {
        let mut i: usize = 0;
        while i < self.accounts.len()
            invariant
                i <= self.accounts.len(),
                forall|j: int| 0 <= j < i ==> self.accounts@[j].key != *key,
            decreases self.accounts.len() - i,
        {
            if self.accounts[i].key == *key {
                proof {
                    if distinct_accounts(self.accounts()) {
                        lemma_lookup_at(self.accounts(), i as int);
                    }
                }
                return Some(i);
            }
            i += 1;
        }
        None
    }

    /// The place of the offer whose record is at the address `key`.
    pub fn find_offer(&self, key: &Identity) -> (found: Option<usize>)
        ensures
            match found {
                Some(i) => i < self.offers().len() && self.offers()[i as int].key == *key,
                None => self.offer(*key) is None,
            },
            distinct_offers(self.offers()) ==> match found {
                Some(i) => self.offer(*key) == Some(self.offers()[i as int]),
                None => true,
            },
    {
        let mut i: usize = 0;
        while i < self.offers.len()
            invariant
                i <= self.offers.len(),
                forall|j: int| 0 <= j < i ==> self.offers@[j].key != *key,
            decreases self.offers.len() - i,
        {
            if self.offers[i].key == *key {
                proof {
                    if distinct_offers(self.offers()) {
                        lemma_lookup_offer_at(self.offers(), i as int);
                    }
                }
                return Some(i);
            }
            i += 1;
        }
        None
    }

    /// Whether the vault of some open offer is at the address `key`.
    pub fn is_vault(&self, key: &Identity) -> (used: bool)
        ensures
            used == self.vault_in_use(*key),
    {
        let mut i: usize = 0;
        while i < self.offers.len()
            invariant
                i <= self.offers.len(),
                forall|j: int| 0 <= j < i ==> self.offers@[j].vault.key != *key,
            decreases self.offers.len() - i,
        {
            if self.offers[i].vault.key == *key {
                return true;
            }
            i += 1;
        }
        false
    }

    /// The amount of `mint` that exists.
    pub fn supply_of(&self, mint: &Identity) -> (amount: u64)
        requires
            self.wf(),
        ensures
            amount == self.supply(*mint),
    {
        let ghost held = vaults(self.offers@);
        let mut amount: u64 = 0;
        let mut i: usize = 0;
        assert(self.supply(*mint) <= u64::MAX);
        while i < self.accounts.len()
            invariant
                i <= self.accounts.len(),
                amount == total(self.accounts@.take(i as int), *mint),
                total(self.accounts@, *mint) <= u64::MAX,
            decreases self.accounts.len() - i,
        {
            proof {
                assert(self.accounts@.take(i + 1).drop_last() =~= self.accounts@.take(i as int));
                lemma_total_take(self.accounts@, i + 1, *mint);
            }
            if self.accounts[i].mint == *mint {
                amount = amount + self.accounts[i].amount;
            }
            i += 1;
        }
        assert(self.accounts@.take(i as int) =~= self.accounts@);
        let mut k: usize = 0;
        while k < self.offers.len()
            invariant
                k <= self.offers.len(),
                held == vaults(self.offers@),
                amount == total(self.accounts@, *mint) + total(held.take(k as int), *mint),
                total(self.accounts@, *mint) + total(held, *mint) <= u64::MAX,
            decreases self.offers.len() - k,
        {
            proof {
                assert(held.take(k + 1).drop_last() =~= held.take(k as int));
                lemma_total_take(held, k + 1, *mint);
            }
            if self.offers[k].vault.mint == *mint {
                amount = amount + self.offers[k].vault.amount;
            }
            k += 1;
        }
        assert(held.take(k as int) =~= held);
        amount
    }

    /// Opens `account` for a party, with the amount it holds, where its
    /// address is free and the supply of its asset stays within range.
    /// Returns whether it was opened.
    pub fn open_account(&mut self, account: TokenAccount) -> (opened: bool)
        requires
            old(self).wf(),
        ensures
            final(self).wf(),
            opened == (old(self).token(account.key) is None && !old(self).vault_in_use(
                account.key,
            ) && old(self).supply(account.mint) + account.amount <= u64::MAX),
            !opened ==> final(self).accounts() == old(self).accounts(),
            opened ==> final(self).accounts() == old(self).accounts().push(account),
            final(self).offers() == old(self).offers(),
            forall|key: Identity| #[trigger]
                final(self).token(key) == if opened && key == account.key {
                    Some(account)
                } else {
                    old(self).token(key)
                },
            forall|mint: Identity| #[trigger]
                final(self).supply(mint) == old(self).supply(mint) + if opened {
                    portion(account, mint)
                } else {
                    0
                },
    {
        if self.find_account(&account.key).is_some() || self.is_vault(&account.key) {
            return false;
        }
        let supply = self.supply_of(&account.mint);
        if account.amount > u64::MAX - supply {
            return false;
        }
        proof {
            lemma_lookup_push(self.accounts(), account);
            assert forall|mint: Identity|
                total(self.accounts().push(account), mint) == total(self.accounts(), mint)
                    + portion(account, mint) by {
                lemma_total_push(self.accounts(), account, mint);
            }
            assert forall|mint: Identity|
                total(self.accounts().push(account), mint) + total(vaults(self.offers()), mint)
                    <= u64::MAX by {
                assert(self.supply(mint) <= u64::MAX);
            }
        }
        self.accounts.push(account);
        true
    }

    /// Takes an offer that is open into the ledger, with what its vault
    /// holds, where the vault holds what the record says, the addresses of
    /// record and vault are free, and the supply of the vault's asset stays
    /// within range. Returns whether it was taken in.
    pub fn restore_offer(&mut self, offer: Offer) -> (restored: bool)
        requires
            old(self).wf(),
        ensures
            final(self).wf(),
            restored == (offer.funded() && old(self).offer(offer.key) is None && !old(
                self,
            ).vault_in_use(offer.vault.key) && old(self).token(offer.vault.key) is None && old(
                self,
            ).supply(offer.vault.mint) + offer.vault.amount <= u64::MAX),
            final(self).accounts() == old(self).accounts(),
            !restored ==> final(self).offers() == old(self).offers(),
            restored ==> final(self).offers() == old(self).offers().push(offer),
            forall|key: Identity| #[trigger]
                final(self).offer(key) == if restored && key == offer.key {
                    Some(offer)
                } else {
                    old(self).offer(key)
                },
            forall|key: Identity| #[trigger]
                final(self).vault_in_use(key) == (restored && key == offer.vault.key || old(
                    self,
                ).vault_in_use(key)),
            forall|mint: Identity| #[trigger]
                final(self).supply(mint) == old(self).supply(mint) + if restored {
                    portion(offer.vault, mint)
                } else {
                    0
                },
    {
        if offer.vault.amount != offer.record.initializer_amount || self.find_offer(
            &offer.key,
        ).is_some() || self.is_vault(&offer.vault.key) || self.find_account(
            &offer.vault.key,
        ).is_some() {
            return false;
        }
        let supply = self.supply_of(&offer.vault.mint);
        if offer.vault.amount > u64::MAX - supply {
            return false;
        }
        self.push_offer(offer);
        true
    }

    /// Puts `account` in the place `i`, where the account of that address
    /// and asset stands.
    pub(crate) fn store_account(&mut self, i: usize, account: TokenAccount)
        requires
            old(self).wf(),
            i < old(self).accounts().len(),
            account.key == old(self).accounts()[i as int].key,
            account.mint == old(self).accounts()[i as int].mint,
            old(self).supply(account.mint) - old(self).accounts()[i as int].amount
                + account.amount <= u64::MAX,
        ensures
            final(self).wf(),
            final(self).accounts() == old(self).accounts().update(i as int, account),
            final(self).offers() == old(self).offers(),
            forall|key: Identity| #[trigger]
                final(self).token(key) == if key == account.key {
                    Some(account)
                } else {
                    old(self).token(key)
                },
            forall|mint: Identity| #[trigger]
                final(self).supply(mint) + portion(old(self).accounts()[i as int], mint) == old(
                    self,
                ).supply(mint) + portion(account, mint),
    {
        proof {
            lemma_lookup_update(self.accounts(), i as int, account);
            assert forall|mint: Identity|
                total(self.accounts().update(i as int, account), mint) + portion(
                    self.accounts()[i as int],
                    mint,
                ) == total(self.accounts(), mint) + portion(account, mint) by {
                lemma_total_update(self.accounts(), i as int, account, mint);
            }
            assert forall|mint: Identity|
                total(self.accounts().update(i as int, account), mint) + total(
                    vaults(self.offers()),
                    mint,
                ) <= u64::MAX by {
                lemma_total_update(self.accounts(), i as int, account, mint);
                assert(self.supply(mint) <= u64::MAX);
                assert(self.supply(account.mint) <= u64::MAX);
            }
        }
        self.accounts.set(i, account);
    }

    /// Opens `offer`, where the addresses of its record and of its vault are
    /// free.
    pub(crate) fn push_offer(&mut self, offer: Offer)
        requires
            old(self).wf(),
            offer.funded(),
            old(self).offer(offer.key) is None,
            !old(self).vault_in_use(offer.vault.key),
            old(self).token(offer.vault.key) is None,
            old(self).supply(offer.vault.mint) + offer.vault.amount <= u64::MAX,
        ensures
            final(self).wf(),
            final(self).accounts() == old(self).accounts(),
            final(self).offers() == old(self).offers().push(offer),
            forall|key: Identity| #[trigger]
                final(self).offer(key) == if key == offer.key {
                    Some(offer)
                } else {
                    old(self).offer(key)
                },
            forall|key: Identity| #[trigger]
                final(self).vault_in_use(key) == (key == offer.vault.key || old(
                    self,
                ).vault_in_use(key)),
            forall|mint: Identity| #[trigger]
                final(self).supply(mint) == old(self).supply(mint) + portion(offer.vault, mint),
    {
        proof {
            lemma_offer_push(self.offers(), offer);
            assert forall|mint: Identity|
                total(vaults(self.offers().push(offer)), mint) == total(
                    vaults(self.offers()),
                    mint,
                ) + portion(offer.vault, mint) by {
                lemma_total_push(vaults(self.offers()), offer.vault, mint);
            }
            assert forall|mint: Identity|
                total(self.accounts(), mint) + total(vaults(self.offers().push(offer)), mint)
                    <= u64::MAX by {
                assert(self.supply(mint) <= u64::MAX);
            }
        }
        self.offers.push(offer);
    }

    /// Removes the offer at the place `i`, and returns it.
    pub(crate) fn remove_offer(&mut self, i: usize) -> (offer: Offer)
        requires
            old(self).wf(),
            i < old(self).offers().len(),
        ensures
            final(self).wf(),
            offer == old(self).offers()[i as int],
            final(self).accounts() == old(self).accounts(),
            final(self).offers() == old(self).offers().remove(i as int),
            forall|key: Identity| #[trigger]
                final(self).offer(key) == if key == offer.key {
                    None
                } else {
                    old(self).offer(key)
                },
            forall|key: Identity| #[trigger]
                final(self).vault_in_use(key) == (key != offer.vault.key && old(
                    self,
                ).vault_in_use(key)),
            forall|mint: Identity| #[trigger]
                final(self).supply(mint) + portion(offer.vault, mint) == old(self).supply(mint),
    {
        proof {
            lemma_offer_remove(self.offers(), i as int);
            assert forall|mint: Identity|
                total(vaults(self.offers().remove(i as int)), mint) + portion(
                    self.offers()[i as int].vault,
                    mint,
                ) == total(vaults(self.offers()), mint) by {
                lemma_total_remove(vaults(self.offers()), i as int, mint);
            }
            assert forall|mint: Identity|
                total(self.accounts(), mint) + total(
                    vaults(self.offers().remove(i as int)),
                    mint,
                ) <= u64::MAX by {
                assert(self.supply(mint) <= u64::MAX);
            }
        }
        self.offers.remove(i)
    }

    /// The account of a party at the address `key`.
    pub fn token_account(&self, key: &Identity) -> (account: Option<TokenAccount>)
        requires
            self.wf(),
        ensures
            account == self.token(*key),
    {
        match self.find_account(key) {
            Some(i) => Some(self.accounts[i]),
            None => None,
        }
    }

    /// The open offer whose record is at the address `key`.
    pub fn open_offer(&self, key: &Identity) -> (offer: Option<Offer>)
        requires
            self.wf(),
        ensures
            offer == self.offer(*key),
    {
        match self.find_offer(key) {
            Some(i) => Some(self.offers[i]),
            None => None,
        }
    }

    /// The record of the open offer at the address `key`.
    pub fn escrow_account(&self, key: &Identity) -> (record: Option<EscrowAccount>)
        requires
            self.wf(),
        ensures
            record == match self.offer(*key) {
                Some(offer) => Some(offer.record),
                None => None,
            },
    {
        match self.find_offer(key) {
            Some(i) => Some(self.offers[i].record),
            None => None,
        }
    }

    /// The vault of an open offer holds what its record says.
    pub proof fn lemma_offer_funded(&self, key: Identity)
        requires
            self.wf(),
            self.offer(key) is Some,
        ensures
            self.offer(key).unwrap().funded(),
    {
        let i = choose|i: int| 0 <= i < self.offers().len() && self.offers()[i].key == key;
        assert(self.offers()[i].funded());
    }

    /// An account of a party and a vault of the same asset hold together no
    /// more than exists of it.
    pub proof fn lemma_token_and_vault_within_supply(&self, key: Identity, record: Identity)
        requires
            self.token(key) is Some,
            self.offer(record) is Some,
            self.token(key).unwrap().mint == self.offer(record).unwrap().vault.mint,
        ensures
            self.token(key).unwrap().amount + self.offer(record).unwrap().vault.amount
                <= self.supply(self.token(key).unwrap().mint),
    {
        let i = choose|i: int| 0 <= i < self.accounts().len() && self.accounts()[i].key == key;
        let j = choose|j: int| 0 <= j < self.offers().len() && self.offers()[j].key == record;
        let mint = self.accounts()[i].mint;
        lemma_total_bound(self.accounts(), i, mint);
        lemma_total_bound(vaults(self.offers()), j, mint);
    }

    /// Two accounts of parties, of the same asset, hold together no more
    /// than exists of it.
    pub proof fn lemma_tokens_within_supply(&self, first: Identity, second: Identity)
        requires
            first != second,
            self.token(first) is Some,
            self.token(second) is Some,
            self.token(first).unwrap().mint == self.token(second).unwrap().mint,
        ensures
            self.token(first).unwrap().amount + self.token(second).unwrap().amount
                <= self.supply(self.token(first).unwrap().mint),
    {
        let i = choose|i: int| 0 <= i < self.accounts().len() && self.accounts()[i].key == first;
        let j = choose|j: int| 0 <= j < self.accounts().len() && self.accounts()[j].key == second;
        self.lemma_accounts_within_supply(i, j);
    }

    /// No account holds more than exists of its asset.
    pub proof fn lemma_account_within_supply(&self, i: int)
        requires
            0 <= i < self.accounts().len(),
        ensures
            self.accounts()[i].amount <= self.supply(self.accounts()[i].mint),
    {
        lemma_total_bound(self.accounts(), i, self.accounts()[i].mint);
    }

    /// No two accounts of one asset hold more than exists of it.
    pub proof fn lemma_accounts_within_supply(&self, i: int, j: int)
        requires
            0 <= i < self.accounts().len(),
            0 <= j < self.accounts().len(),
            i != j,
            self.accounts()[i].mint == self.accounts()[j].mint,
        ensures
            self.accounts()[i].amount + self.accounts()[j].amount <= self.supply(
                self.accounts()[i].mint,
            ),
    {
        lemma_total_bound_two(self.accounts(), i, j, self.accounts()[i].mint);
    }

    /// The account at the place `i`.
    pub fn account_at(&self, i: usize) -> (account: TokenAccount)
        requires
            i < self.accounts().len(),
        ensures
            account == self.accounts()[i as int],
    {
        self.accounts[i]
    }

    /// The offer at the place `i`.
    pub fn offer_at(&self, i: usize) -> (offer: Offer)
        requires
            i < self.offers().len(),
        ensures
            offer == self.offers()[i as int],
    {
        self.offers[i]
    }
}

} // verus!
