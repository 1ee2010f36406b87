//! The three operations of the protocol: `initialize` opens an offer,
//! `cancel` withdraws it, `exchange` completes the swap.
//!
//! Each operation checks the whole request before it moves anything. A
//! refused request leaves the ledger as it was.

use vstd::prelude::*;
use crate::authority::{derived_authority, vault_authority, AuthorityHandle, ESCROW_PDA_SEED};
use crate::error::EscrowError;
use crate::identity::Identity;
use crate::ledger::Ledger;
use crate::record::{EscrowAccount, Offer};
use crate::token::{
    authorizes, close_account, set_authority, transfer, with_amount, AccountInfo, CloseAccount,
    SetAuthority, TokenAccount, Transfer,
};

verus! {

/// The request to open an offer.
#[derive(Clone, Copy, Debug, PartialEq, Eq)]
pub struct Initialize {
    /// The party that makes the offer.
    pub initializer: AccountInfo,
    /// The asset offered.
    pub mint: Identity,
    /// The address at which the vault is created.
    pub vault_account: Identity,
    /// The account that the offered amount is taken from.
    pub initializer_deposit_token_account: Identity,
    /// The account that is to receive the requested asset.
    pub initializer_receive_token_account: Identity,
    /// The address at which the record is created.
    pub escrow_account: Identity,
}

/// The request to withdraw an offer.
#[derive(Clone, Copy, Debug, PartialEq, Eq)]
pub struct Cancel {
    /// The party that claims to have made the offer.
    pub initializer: AccountInfo,
    pub vault_account: Identity,
    pub initializer_deposit_token_account: Identity,
    pub escrow_account: Identity,
}

/// The request to complete a swap.
#[derive(Clone, Copy, Debug, PartialEq, Eq)]
pub struct Exchange {
    /// The party that takes the offer.
    pub taker: AccountInfo,
    /// The account that the requested amount is taken from.
    pub taker_deposit_token_account: Identity,
    /// The account that receives the offered amount.
    pub taker_receive_token_account: Identity,
    pub initializer_deposit_token_account: Identity,
    pub initializer_receive_token_account: Identity,
    /// The party that made the offer. Its authorization is not asked for.
    pub initializer: AccountInfo,
    pub escrow_account: Identity,
    pub vault_account: Identity,
}

/// What the closing of an offer leaves behind.
#[derive(Clone, Copy, Debug, PartialEq, Eq)]
pub struct Settlement {
    /// The identity that receives the custodial deposit of the closed vault.
    pub residual_destination: Identity,
}

impl Initialize {
    /// The accounts of the transfer that funds the vault.
    pub fn into_transfer_to_pda_context(&self) -> (ctx: Transfer)
        ensures
            ctx == (Transfer {
                from: self.initializer_deposit_token_account,
                to: self.vault_account,
                authority: self.initializer,
            }),
    {
        Transfer {
            from: self.initializer_deposit_token_account,
            to: self.vault_account,
            authority: self.initializer,
        }
    }

    /// The accounts of the step that takes the vault out of the
    /// initializer's hands.
    pub fn into_set_authority_context(&self) -> (ctx: SetAuthority)
        ensures
            ctx == (SetAuthority {
                account_or_mint: self.vault_account,
                current_authority: self.initializer,
            }),
    {
        SetAuthority { account_or_mint: self.vault_account, current_authority: self.initializer }
    }
}

impl Cancel {
    /// The accounts of the transfer that returns the offered amount, under
    /// the derived authority.
    pub fn into_transfer_to_initializer_context(&self, authority: &AuthorityHandle) -> (ctx:
        Transfer)
        ensures
            ctx == (Transfer {
                from: self.vault_account,
                to: self.initializer_deposit_token_account,
                authority: AccountInfo { key: authority.address(), is_signer: true },
            }),
    {
        Transfer {
            from: self.vault_account,
            to: self.initializer_deposit_token_account,
            authority: authority.signer(),
        }
    }

    /// The accounts of the closing of the vault. Its custodial deposit goes
    /// to the initializer.
    pub fn into_close_context(&self, authority: &AuthorityHandle) -> (ctx: CloseAccount)
        ensures
            ctx == (CloseAccount {
                account: self.vault_account,
                destination: self.initializer.key,
                authority: AccountInfo { key: authority.address(), is_signer: true },
            }),
    {
        CloseAccount {
            account: self.vault_account,
            destination: self.initializer.key,
            authority: authority.signer(),
        }
    }
}

impl Exchange {
    /// The accounts of the transfer that pays the initializer, under the
    /// taker's own authorization.
    pub fn into_transfer_to_initializer_context(&self) -> (ctx: Transfer)
        ensures
            ctx == (Transfer {
                from: self.taker_deposit_token_account,
                to: self.initializer_receive_token_account,
                authority: self.taker,
            }),
    {
        Transfer {
            from: self.taker_deposit_token_account,
            to: self.initializer_receive_token_account,
            authority: self.taker,
        }
    }

    /// The accounts of the transfer that hands the offered amount to the
    /// taker, under the derived authority.
    pub fn into_transfer_to_taker_context(&self, authority: &AuthorityHandle) -> (ctx: Transfer)
        ensures
            ctx == (Transfer {
                from: self.vault_account,
                to: self.taker_receive_token_account,
                authority: AccountInfo { key: authority.address(), is_signer: true },
            }),
    {
        Transfer {
            from: self.vault_account,
            to: self.taker_receive_token_account,
            authority: authority.signer(),
        }
    }

    /// The accounts of the closing of the vault. Its custodial deposit goes
    /// to the initializer.
    pub fn into_close_context(&self, authority: &AuthorityHandle) -> (ctx: CloseAccount)
        ensures
            ctx == (CloseAccount {
                account: self.vault_account,
                destination: self.initializer.key,
                authority: AccountInfo { key: authority.address(), is_signer: true },
            }),
    {
        CloseAccount {
            account: self.vault_account,
            destination: self.initializer.key,
            authority: authority.signer(),
        }
    }
}

/// Nothing of `pre` has changed in `post`.
pub open spec fn unchanged(pre: Ledger, post: Ledger) -> bool {
    post.accounts() == pre.accounts() && post.offers() == pre.offers()
}

/// `account`, where there is one, with `delta` added to its amount.
pub open spec fn adjusted(account: Option<TokenAccount>, delta: int) -> Option<TokenAccount> {
    match account {
        Some(a) => Some(with_amount(a, a.amount + delta)),
        None => None,
    }
}

/// `amount` where `key` is `target`, and nothing elsewhere.
pub open spec fn share(key: Identity, target: Identity, amount: u64) -> int {
    if key == target {
        amount as int
    } else {
        0
    }
}

/// Why a request to open an offer is refused, if it is.
///
/// The source account must exist and hold the offered amount. The
/// initializer must have authorized the request and own the source account,
/// and the protocol must have an authority to hold the vault under. The
/// receiving account must exist, the source account must hold the asset
/// named, and the addresses of record and vault must be free.
pub open spec fn initialize_error(
    ledger: Ledger,
    authority: Option<AuthorityHandle>,
    accounts: Initialize,
    initializer_amount: u64,
) -> Option<EscrowError> {
    match ledger.token(accounts.initializer_deposit_token_account) {
        None => Some(EscrowError::AccountMismatch),
        Some(source) => {
            if source.amount < initializer_amount {
                Some(EscrowError::InsufficientFunds)
            } else if authority is None || !authorizes(accounts.initializer, source.owner) {
                Some(EscrowError::Unauthorized)
            } else if ledger.token(accounts.initializer_receive_token_account) is None
                || source.mint != accounts.mint || ledger.offer(accounts.escrow_account) is Some
                || ledger.vault_in_use(accounts.vault_account) || ledger.token(
                accounts.vault_account,
            ) is Some {
                Some(EscrowError::AccountMismatch)
            } else {
                None
            }
        },
    }
}

/// The offer that a request opens.
pub open spec fn opened_offer(
    authority: AuthorityHandle,
    accounts: Initialize,
    initializer_amount: u64,
    taker_amount: u64,
) -> Offer {
    Offer {
        key: accounts.escrow_account,
        record: EscrowAccount {
            initializer_key: accounts.initializer.key,
            initializer_deposit_token_account: accounts.initializer_deposit_token_account,
            initializer_receive_token_account: accounts.initializer_receive_token_account,
            initializer_amount,
            taker_amount,
        },
        vault: TokenAccount {
            key: accounts.vault_account,
            mint: accounts.mint,
            owner: authority.address(),
            amount: initializer_amount,
        },
    }
}

/// `post` is `pre` with the offer opened: the offered amount has left the
/// source account and stands in the vault of the new offer, which the
/// derived authority holds. Nothing else differs.
pub open spec fn initialized(
    pre: Ledger,
    post: Ledger,
    authority: AuthorityHandle,
    accounts: Initialize,
    initializer_amount: u64,
    taker_amount: u64,
) -> bool {
    &&& forall|key: Identity| #[trigger]
        post.token(key) == adjusted(
            pre.token(key),
            -share(key, accounts.initializer_deposit_token_account, initializer_amount),
        )
    &&& forall|key: Identity| #[trigger]
        post.offer(key) == if key == accounts.escrow_account {
            Some(opened_offer(authority, accounts, initializer_amount, taker_amount))
        } else {
            pre.offer(key)
        }
    &&& forall|key: Identity| #[trigger]
        post.vault_in_use(key) == (key == accounts.vault_account || pre.vault_in_use(key))
    &&& forall|mint: Identity| #[trigger] post.supply(mint) == pre.supply(mint)
}

/// Opens an offer under the given authority: creates the vault, hands it to
/// the authority, moves the offered amount into it, and writes the record.
pub fn initialize_with_authority(
    ledger: &mut Ledger,
    authority: Option<AuthorityHandle>,
    accounts: &Initialize,
    initializer_amount: u64,
    taker_amount: u64,
) -> (r: Result<(), EscrowError>)
    requires
        old(ledger).wf(),
    ensures
        final(ledger).wf(),
        r == crate::token::outcome(
            initialize_error(*old(ledger), authority, *accounts, initializer_amount),
        ),
        r is Err ==> unchanged(*old(ledger), *final(ledger)),
        r is Ok ==> initialized(
            *old(ledger),
            *final(ledger),
            authority.unwrap(),
            *accounts,
            initializer_amount,
            taker_amount,
        ),
{
    let place = match ledger.find_account(&accounts.initializer_deposit_token_account) {
        Some(i) => i,
        None => {
            return Err(EscrowError::AccountMismatch);
        },
    };
    let mut source = ledger.account_at(place);
    if source.amount < initializer_amount {
        return Err(EscrowError::InsufficientFunds);
    }
    let handle = match authority {
        Some(h) => h,
        None => {
            return Err(EscrowError::Unauthorized);
        },
    };
    if !accounts.initializer.is_signer || accounts.initializer.key != source.owner {
        return Err(EscrowError::Unauthorized);
    }
    if ledger.find_account(&accounts.initializer_receive_token_account).is_none() || source.mint
        != accounts.mint || ledger.find_offer(&accounts.escrow_account).is_some()
        || ledger.is_vault(&accounts.vault_account) || ledger.find_account(
        &accounts.vault_account,
    ).is_some() {
        return Err(EscrowError::AccountMismatch);
    }
    let mut vault = TokenAccount {
        key: accounts.vault_account,
        mint: accounts.mint,
        owner: accounts.initializer.key,
        amount: 0,
    };
    let handed = set_authority(&accounts.into_set_authority_context(), &mut vault, handle.key());
    assert(handed is Ok);
    let moved = transfer(
        &accounts.into_transfer_to_pda_context(),
        &mut source,
        &mut vault,
        initializer_amount,
    );
    assert(moved is Ok);
    let ghost pre = *ledger;
    assert(pre.supply(source.mint) <= u64::MAX);
    ledger.store_account(place, source);
    let ghost mid = *ledger;
    ledger.push_offer(
        Offer {
            key: accounts.escrow_account,
            record: EscrowAccount {
                initializer_key: accounts.initializer.key,
                initializer_deposit_token_account: accounts.initializer_deposit_token_account,
                initializer_receive_token_account: accounts.initializer_receive_token_account,
                initializer_amount,
                taker_amount,
            },
            vault,
        },
    );
    proof {
        let target = accounts.initializer_deposit_token_account;
        assert forall|key: Identity| #[trigger]
            ledger.token(key) == adjusted(
                pre.token(key),
                -share(key, target, initializer_amount),
            ) by {
            assert(ledger.token(key) == mid.token(key));
        }
        assert forall|mint: Identity| #[trigger] ledger.supply(mint) == pre.supply(mint) by {
            assert(mid.supply(mint) + crate::ledger::portion(pre.accounts()[place as int], mint)
                == pre.supply(mint) + crate::ledger::portion(source, mint));
            assert(ledger.supply(mint) == mid.supply(mint) + crate::ledger::portion(vault, mint));
        }
    }
    Ok(())
}

/// `authority` is the one that holds the vault of `offer`.
pub open spec fn holds(authority: Option<AuthorityHandle>, offer: Offer) -> bool {
    authority matches Some(handle) && handle.address() == offer.vault.owner
}

/// Why a request to withdraw an offer is refused, if it is.
///
/// The offer must be open. The caller must have authorized the request and
/// be the one who made the offer, and the protocol's authority must be the
/// one that holds the vault. The accounts named must be those of the offer,
/// and the account that the offered amount returns to must exist and hold
/// the asset of the vault.
pub open spec fn cancel_error(
    ledger: Ledger,
    authority: Option<AuthorityHandle>,
    accounts: Cancel,
) -> Option<EscrowError> {
    match ledger.offer(accounts.escrow_account) {
        None => Some(EscrowError::RecordNotFound),
        Some(offer) => {
            if !authorizes(accounts.initializer, offer.record.initializer_key) || !holds(
                authority,
                offer,
            ) {
                Some(EscrowError::Unauthorized)
            } else if accounts.initializer_deposit_token_account
                != offer.record.initializer_deposit_token_account || accounts.vault_account
                != offer.vault.key {
                Some(EscrowError::AccountMismatch)
            } else {
                match ledger.token(accounts.initializer_deposit_token_account) {
                    None => Some(EscrowError::AccountMismatch),
                    Some(target) => {
                        if target.mint != offer.vault.mint {
                            Some(EscrowError::AccountMismatch)
                        } else {
                            None
                        }
                    },
                }
            }
        },
    }
}

/// `post` is `pre` with the offer at `record` closed, and what its vault
/// held added to the accounts as `gain` says. Nothing else differs.
pub open spec fn closed_out(
    pre: Ledger,
    post: Ledger,
    record: Identity,
    gain: spec_fn(Identity) -> int,
) -> bool {
    &&& forall|key: Identity| #[trigger] post.token(key) == adjusted(pre.token(key), gain(key))
    &&& forall|key: Identity| #[trigger]
        post.offer(key) == if key == record {
            None
        } else {
            pre.offer(key)
        }
    &&& forall|key: Identity| #[trigger]
        post.vault_in_use(key) == (key != pre.offer(record).unwrap().vault.key
            && pre.vault_in_use(key))
    &&& forall|mint: Identity| #[trigger] post.supply(mint) == pre.supply(mint)
}

/// `post` is `pre` with the offer withdrawn: the offered amount is back in
/// the initializer's account, and record and vault are gone.
pub open spec fn cancelled(pre: Ledger, post: Ledger, accounts: Cancel) -> bool {
    closed_out(
        pre,
        post,
        accounts.escrow_account,
        |key: Identity|
            share(
                key,
                accounts.initializer_deposit_token_account,
                pre.offer(accounts.escrow_account).unwrap().record.initializer_amount,
            ),
    )
}

/// Withdraws an offer under the given authority: returns the offered amount
/// from the vault to the initializer's account, closes the vault, and
/// removes the record. The vault's custodial deposit goes to the initializer.
pub fn cancel_with_authority(
    ledger: &mut Ledger,
    authority: Option<AuthorityHandle>,
    accounts: &Cancel,
) -> (r: Result<Settlement, EscrowError>)
    requires
        old(ledger).wf(),
    ensures
        final(ledger).wf(),
        r == match cancel_error(*old(ledger), authority, *accounts) {
            Some(e) => Err::<Settlement, EscrowError>(e),
            None => Ok(Settlement { residual_destination: accounts.initializer.key }),
        },
        r is Err ==> unchanged(*old(ledger), *final(ledger)),
        r is Ok ==> cancelled(*old(ledger), *final(ledger), *accounts),
{
    let slot = match ledger.find_offer(&accounts.escrow_account) {
        Some(i) => i,
        None => {
            return Err(EscrowError::RecordNotFound);
        },
    };
    let offer = ledger.offer_at(slot);
    if !accounts.initializer.is_signer || accounts.initializer.key
        != offer.record.initializer_key {
        return Err(EscrowError::Unauthorized);
    }
    let handle = match authority {
        Some(h) => h,
        None => {
            return Err(EscrowError::Unauthorized);
        },
    };
    if handle.key() != offer.vault.owner {
        return Err(EscrowError::Unauthorized);
    }
    if accounts.initializer_deposit_token_account
        != offer.record.initializer_deposit_token_account || accounts.vault_account
        != offer.vault.key {
        return Err(EscrowError::AccountMismatch);
    }
    let place = match ledger.find_account(&accounts.initializer_deposit_token_account) {
        Some(i) => i,
        None => {
            return Err(EscrowError::AccountMismatch);
        },
    };
    if ledger.account_at(place).mint != offer.vault.mint {
        return Err(EscrowError::AccountMismatch);
    }
    let ghost pre = *ledger;
    assert(pre.offers()[slot as int].funded());
    let mut vault = ledger.remove_offer(slot).vault;
    let ghost mid = *ledger;
    let mut target = ledger.account_at(place);
    proof {
        mid.lemma_account_within_supply(place as int);
        assert(mid.supply(target.mint) + crate::ledger::portion(vault, target.mint)
            == pre.supply(target.mint));
        assert(pre.supply(target.mint) <= u64::MAX);
    }
    let moved = transfer(
        &accounts.into_transfer_to_initializer_context(&handle),
        &mut vault,
        &mut target,
        offer.record.initializer_amount,
    );
    assert(moved is Ok);
    let close = accounts.into_close_context(&handle);
    let closed = close_account(&close, vault);
    assert(closed is Ok);
    ledger.store_account(place, target);
    proof {
        let gain = |key: Identity|
            share(
                key,
                accounts.initializer_deposit_token_account,
                pre.offer(accounts.escrow_account).unwrap().record.initializer_amount,
            );
        assert forall|key: Identity| #[trigger]
            ledger.token(key) == adjusted(pre.token(key), gain(key)) by {
            assert(mid.token(key) == pre.token(key));
        }
        assert forall|key: Identity| #[trigger]
            ledger.offer(key) == if key == accounts.escrow_account {
                None
            } else {
                pre.offer(key)
            } by {
            assert(ledger.offer(key) == mid.offer(key));
        }
        assert forall|key: Identity| #[trigger]
            ledger.vault_in_use(key) == (key != pre.offer(
                accounts.escrow_account,
            ).unwrap().vault.key && pre.vault_in_use(key)) by {
            assert(ledger.vault_in_use(key) == mid.vault_in_use(key));
        }
        assert forall|mint: Identity| #[trigger] ledger.supply(mint) == pre.supply(mint) by {
            assert(mid.supply(mint) + crate::ledger::portion(offer.vault, mint) == pre.supply(
                mint,
            ));
            assert(ledger.supply(mint) + crate::ledger::portion(mid.accounts()[place as int], mint)
                == mid.supply(mint) + crate::ledger::portion(target, mint));
        }
    }
    Ok(Settlement { residual_destination: close.destination })
}

/// Why a request to complete a swap is refused, if it is.
///
/// The offer must be open. The taker's source account must exist and hold
/// the requested amount. The taker must have authorized the request and own
/// that account, and the protocol's authority must be the one that holds
/// the vault. The initializer and the accounts named must be those of the
/// offer, and the two receiving accounts must exist, each holding the asset
/// that it is to receive. Whether the initializer has authorized the
/// request is not asked.
pub open spec fn exchange_error(
    ledger: Ledger,
    authority: Option<AuthorityHandle>,
    accounts: Exchange,
) -> Option<EscrowError> {
    match ledger.offer(accounts.escrow_account) {
        None => Some(EscrowError::RecordNotFound),
        Some(offer) => match ledger.token(accounts.taker_deposit_token_account) {
            None => Some(EscrowError::AccountMismatch),
            Some(source) => {
                if source.amount < offer.record.taker_amount {
                    Some(EscrowError::InsufficientFunds)
                } else if !authorizes(accounts.taker, source.owner) || !holds(authority, offer) {
                    Some(EscrowError::Unauthorized)
                } else if accounts.initializer.key != offer.record.initializer_key
                    || accounts.initializer_deposit_token_account
                    != offer.record.initializer_deposit_token_account
                    || accounts.initializer_receive_token_account
                    != offer.record.initializer_receive_token_account || accounts.vault_account
                    != offer.vault.key {
                    Some(EscrowError::AccountMismatch)
                } else {
                    match (
                        ledger.token(accounts.initializer_receive_token_account),
                        ledger.token(accounts.taker_receive_token_account),
                    ) {
                        (Some(paid), Some(taken)) => {
                            if paid.mint != source.mint || taken.mint != offer.vault.mint {
                                Some(EscrowError::AccountMismatch)
                            } else {
                                None
                            }
                        },
                        _ => Some(EscrowError::AccountMismatch),
                    }
                }
            },
        },
    }
}

/// `post` is `pre` with the swap completed: the requested amount has moved
/// from the taker's source account to the initializer's receiving account,
/// the offered amount from the vault to the taker's receiving account, and
/// record and vault are gone. An account that stands in two of these places
/// takes both changes.
pub open spec fn exchanged(pre: Ledger, post: Ledger, accounts: Exchange) -> bool {
    closed_out(
        pre,
        post,
        accounts.escrow_account,
        |key: Identity|
            {
                let record = pre.offer(accounts.escrow_account).unwrap().record;
                share(key, accounts.initializer_receive_token_account, record.taker_amount)
                    + share(key, accounts.taker_receive_token_account, record.initializer_amount)
                    - share(key, accounts.taker_deposit_token_account, record.taker_amount)
            },
    )
}

/// Completes a swap under the given authority: pays the requested amount
/// from the taker to the initializer, hands the offered amount from the
/// vault to the taker, closes the vault, and removes the record. The
/// vault's custodial deposit goes to the initializer.
pub fn exchange_with_authority(
    ledger: &mut Ledger,
    authority: Option<AuthorityHandle>,
    accounts: &Exchange,
) -> (r: Result<Settlement, EscrowError>)
    requires
        old(ledger).wf(),
    ensures
        final(ledger).wf(),
        r == match exchange_error(*old(ledger), authority, *accounts) {
            Some(e) => Err::<Settlement, EscrowError>(e),
            None => Ok(Settlement { residual_destination: accounts.initializer.key }),
        },
        r is Err ==> unchanged(*old(ledger), *final(ledger)),
        r is Ok ==> exchanged(*old(ledger), *final(ledger), *accounts),
{
    let slot = match ledger.find_offer(&accounts.escrow_account) {
        Some(i) => i,
        None => {
            return Err(EscrowError::RecordNotFound);
        },
    };
    let offer = ledger.offer_at(slot);
    let from_place = match ledger.find_account(&accounts.taker_deposit_token_account) {
        Some(i) => i,
        None => {
            return Err(EscrowError::AccountMismatch);
        },
    };
    let source = ledger.account_at(from_place);
    if source.amount < offer.record.taker_amount {
        return Err(EscrowError::InsufficientFunds);
    }
    if !accounts.taker.is_signer || accounts.taker.key != source.owner {
        return Err(EscrowError::Unauthorized);
    }
    let handle = match authority {
        Some(h) => h,
        None => {
            return Err(EscrowError::Unauthorized);
        },
    };
    if handle.key() != offer.vault.owner {
        return Err(EscrowError::Unauthorized);
    }
    if accounts.initializer.key != offer.record.initializer_key
        || accounts.initializer_deposit_token_account
        != offer.record.initializer_deposit_token_account
        || accounts.initializer_receive_token_account
        != offer.record.initializer_receive_token_account || accounts.vault_account
        != offer.vault.key {
        return Err(EscrowError::AccountMismatch);
    }
    let pay_place = match ledger.find_account(&accounts.initializer_receive_token_account) {
        Some(i) => i,
        None => {
            return Err(EscrowError::AccountMismatch);
        },
    };
    let take_place = match ledger.find_account(&accounts.taker_receive_token_account) {
        Some(i) => i,
        None => {
            return Err(EscrowError::AccountMismatch);
        },
    };
    if ledger.account_at(pay_place).mint != source.mint || ledger.account_at(take_place).mint
        != offer.vault.mint {
        return Err(EscrowError::AccountMismatch);
    }
    let ghost pre = *ledger;
    assert(pre.offers()[slot as int].funded());
    assert(pre.supply(source.mint) <= u64::MAX);
    if from_place != pay_place {
        let mut from = source;
        let mut to = ledger.account_at(pay_place);
        proof {
            pre.lemma_accounts_within_supply(from_place as int, pay_place as int);
        }
        let moved = transfer(
            &accounts.into_transfer_to_initializer_context(),
            &mut from,
            &mut to,
            offer.record.taker_amount,
        );
        assert(moved is Ok);
        ledger.store_account(from_place, from);
        ledger.store_account(pay_place, to);
    }
    let ghost paid = *ledger;
    proof {
        assert forall|key: Identity| #[trigger]
            paid.token(key) == adjusted(
                pre.token(key),
                share(key, accounts.initializer_receive_token_account, offer.record.taker_amount)
                    - share(key, accounts.taker_deposit_token_account, offer.record.taker_amount),
            ) by {}
        assert forall|mint: Identity| #[trigger] paid.supply(mint) == pre.supply(mint) by {}
    }
    let mut vault = ledger.remove_offer(slot).vault;
    let ghost mid = *ledger;
    let mut to = ledger.account_at(take_place);
    proof {
        mid.lemma_account_within_supply(take_place as int);
        assert(mid.supply(to.mint) + crate::ledger::portion(vault, to.mint) == paid.supply(
            to.mint,
        ));
        assert(pre.supply(to.mint) <= u64::MAX);
    }
    let moved = transfer(
        &accounts.into_transfer_to_taker_context(&handle),
        &mut vault,
        &mut to,
        offer.record.initializer_amount,
    );
    assert(moved is Ok);
    let close = accounts.into_close_context(&handle);
    let closed = close_account(&close, vault);
    assert(closed is Ok);
    ledger.store_account(take_place, to);
    proof {
        let gain = |key: Identity|
            {
                let record = pre.offer(accounts.escrow_account).unwrap().record;
                share(key, accounts.initializer_receive_token_account, record.taker_amount)
                    + share(key, accounts.taker_receive_token_account, record.initializer_amount)
                    - share(key, accounts.taker_deposit_token_account, record.taker_amount)
            };
        assert forall|key: Identity| #[trigger]
            ledger.token(key) == adjusted(pre.token(key), gain(key)) by {
            assert(mid.token(key) == paid.token(key));
        }
        assert forall|key: Identity| #[trigger]
            ledger.offer(key) == if key == accounts.escrow_account {
                None
            } else {
                pre.offer(key)
            } by {
            assert(ledger.offer(key) == mid.offer(key));
            assert(paid.offer(key) == pre.offer(key));
        }
        assert forall|key: Identity| #[trigger]
            ledger.vault_in_use(key) == (key != pre.offer(
                accounts.escrow_account,
            ).unwrap().vault.key && pre.vault_in_use(key)) by {
            assert(ledger.vault_in_use(key) == mid.vault_in_use(key));
            assert(paid.vault_in_use(key) == pre.vault_in_use(key));
        }
        assert forall|mint: Identity| #[trigger] ledger.supply(mint) == pre.supply(mint) by {
            assert(mid.supply(mint) + crate::ledger::portion(offer.vault, mint) == paid.supply(
                mint,
            ));
            assert(ledger.supply(mint) + crate::ledger::portion(mid.accounts()[take_place as int], mint)
                == mid.supply(mint) + crate::ledger::portion(to, mint));
        }
    }
    Ok(Settlement { residual_destination: close.destination })
}

/// The authority under which the protocol `program_id` holds its vaults.
pub open spec fn protocol_authority(program_id: Identity) -> Option<AuthorityHandle> {
    derived_authority(ESCROW_PDA_SEED@, program_id)
}

/// Opens an offer of `initializer_amount` of one asset against
/// `taker_amount` of another, for the protocol `program_id`.
///
/// The vault's authority is derived from `program_id` before anything else;
/// the request is then handled as `initialize_with_authority` says.
pub fn initialize(
    ledger: &mut Ledger,
    program_id: &Identity,
    accounts: &Initialize,
    initializer_amount: u64,
    taker_amount: u64,
) -> (r: Result<(), EscrowError>)
    requires
        old(ledger).wf(),
    ensures
        final(ledger).wf(),
        r == crate::token::outcome(
            initialize_error(
                *old(ledger),
                protocol_authority(*program_id),
                *accounts,
                initializer_amount,
            ),
        ),
        r is Err ==> unchanged(*old(ledger), *final(ledger)),
        r is Ok ==> initialized(
            *old(ledger),
            *final(ledger),
            protocol_authority(*program_id).unwrap(),
            *accounts,
            initializer_amount,
            taker_amount,
        ),
{
    let authority = vault_authority(program_id);
    initialize_with_authority(ledger, authority, accounts, initializer_amount, taker_amount)
}

/// Withdraws an offer of the protocol `program_id`.
///
/// The vault's authority is derived again from `program_id`; the request is
/// then handled as `cancel_with_authority` says.
pub fn cancel(ledger: &mut Ledger, program_id: &Identity, accounts: &Cancel) -> (r: Result<
    Settlement,
    EscrowError,
>)
    requires
        old(ledger).wf(),
    ensures
        final(ledger).wf(),
        r == match cancel_error(*old(ledger), protocol_authority(*program_id), *accounts) {
            Some(e) => Err::<Settlement, EscrowError>(e),
            None => Ok(Settlement { residual_destination: accounts.initializer.key }),
        },
        r is Err ==> unchanged(*old(ledger), *final(ledger)),
        r is Ok ==> cancelled(*old(ledger), *final(ledger), *accounts),
{
    let authority = vault_authority(program_id);
    cancel_with_authority(ledger, authority, accounts)
}

/// Completes a swap on an offer of the protocol `program_id`.
///
/// The vault's authority is derived again from `program_id`; the request is
/// then handled as `exchange_with_authority` says.
pub fn exchange(ledger: &mut Ledger, program_id: &Identity, accounts: &Exchange) -> (r: Result<
    Settlement,
    EscrowError,
>)
    requires
        old(ledger).wf(),
    ensures
        final(ledger).wf(),
        r == match exchange_error(*old(ledger), protocol_authority(*program_id), *accounts) {
            Some(e) => Err::<Settlement, EscrowError>(e),
            None => Ok(Settlement { residual_destination: accounts.initializer.key }),
        },
        r is Err ==> unchanged(*old(ledger), *final(ledger)),
        r is Ok ==> exchanged(*old(ledger), *final(ledger), *accounts),
{
    let authority = vault_authority(program_id);
    exchange_with_authority(ledger, authority, accounts)
}

} // verus!
