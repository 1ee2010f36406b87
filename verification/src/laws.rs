//! What holds of the protocol as a whole, proved from the contracts of its
//! operations.

use vstd::prelude::*;
use crate::authority::AuthorityHandle;
use crate::error::EscrowError;
use crate::escrow::{
    cancel_error, cancelled, closed_out, exchange_error, exchanged, initialize_error, initialized,
    unchanged, Cancel, Exchange, Initialize,
};
use crate::identity::Identity;
use crate::ledger::Ledger;
use crate::token::AccountInfo;

verus! {

/// The amount that the account at `key` holds; nothing where there is no
/// such account.
pub open spec fn held(ledger: Ledger, key: Identity) -> int {
    match ledger.token(key) {
        Some(account) => account.amount as int,
        None => 0,
    }
}

/// The amount that the vault of the offer at `record` holds; nothing where
/// no such offer is open.
pub open spec fn locked(ledger: Ledger, record: Identity) -> int {
    match ledger.offer(record) {
        Some(offer) => offer.vault.amount as int,
        None => 0,
    }
}

/// Once an offer is closed, by withdrawal or by a swap, every later request
/// to withdraw it or to swap on it is refused for want of the record,
/// whoever makes it and under whatever authority.
pub proof fn law_closed_offer_is_gone(
    pre: Ledger,
    post: Ledger,
    record: Identity,
    gain: spec_fn(Identity) -> int,
    authority: Option<AuthorityHandle>,
    again: Cancel,
    later: Exchange,
)
    requires
        closed_out(pre, post, record, gain),
        again.escrow_account == record,
        later.escrow_account == record,
    ensures
        cancel_error(post, authority, again) == Some(EscrowError::RecordNotFound),
        exchange_error(post, authority, later) == Some(EscrowError::RecordNotFound),
{
    assert(post.offer(record) is None);
}

/// After a withdrawal, a second withdrawal and a swap on the same offer are
/// both refused for want of the record.
pub proof fn law_cancel_consumes(
    pre: Ledger,
    post: Ledger,
    accounts: Cancel,
    authority: Option<AuthorityHandle>,
    again: Cancel,
    later: Exchange,
)
    requires
        cancelled(pre, post, accounts),
        again.escrow_account == accounts.escrow_account,
        later.escrow_account == accounts.escrow_account,
    ensures
        cancel_error(post, authority, again) == Some(EscrowError::RecordNotFound),
        exchange_error(post, authority, later) == Some(EscrowError::RecordNotFound),
{
    assert(post.offer(accounts.escrow_account) is None);
}

/// After a swap, a second swap and a withdrawal on the same offer are both
/// refused for want of the record.
pub proof fn law_exchange_consumes(
    pre: Ledger,
    post: Ledger,
    accounts: Exchange,
    authority: Option<AuthorityHandle>,
    again: Exchange,
    later: Cancel,
)
    requires
        exchanged(pre, post, accounts),
        again.escrow_account == accounts.escrow_account,
        later.escrow_account == accounts.escrow_account,
    ensures
        exchange_error(post, authority, again) == Some(EscrowError::RecordNotFound),
        cancel_error(post, authority, later) == Some(EscrowError::RecordNotFound),
{
    assert(post.offer(accounts.escrow_account) is None);
}

/// A request to withdraw an open offer that comes from anyone but the one
/// who made it, or that the caller has not authorized, is refused as
/// unauthorized.
pub proof fn law_cancel_needs_initializer(
    ledger: Ledger,
    authority: Option<AuthorityHandle>,
    accounts: Cancel,
)
    requires
        ledger.offer(accounts.escrow_account) matches Some(offer) && (accounts.initializer.key
            != offer.record.initializer_key || !accounts.initializer.is_signer),
    ensures
        cancel_error(ledger, authority, accounts) == Some(EscrowError::Unauthorized),
{
}

/// Whether the initializer has authorized a request to swap makes no
/// difference to it: neither to whether it is refused, nor to what it does.
pub proof fn law_exchange_ignores_initializer_signature(
    pre: Ledger,
    post: Ledger,
    authority: Option<AuthorityHandle>,
    accounts: Exchange,
    is_signer: bool,
)
    ensures
        exchange_error(
            pre,
            authority,
            Exchange {
                initializer: AccountInfo { key: accounts.initializer.key, is_signer },
                ..accounts
            },
        ) == exchange_error(pre, authority, accounts),
        exchanged(
            pre,
            post,
            Exchange {
                initializer: AccountInfo { key: accounts.initializer.key, is_signer },
                ..accounts
            },
        ) == exchanged(pre, post, accounts),
{
}

/// A request to open an offer of more than the source account holds is
/// refused for want of funds.
pub proof fn law_initialize_needs_funds(
    ledger: Ledger,
    authority: Option<AuthorityHandle>,
    accounts: Initialize,
    initializer_amount: u64,
)
    requires
        ledger.token(accounts.initializer_deposit_token_account) matches Some(source)
            && source.amount < initializer_amount,
    ensures
        initialize_error(ledger, authority, accounts, initializer_amount) == Some(
            EscrowError::InsufficientFunds,
        ),
{
}

/// A request to swap on an open offer, from a source account that holds
/// less than the offer asks for, is refused for want of funds.
pub proof fn law_exchange_needs_funds(
    ledger: Ledger,
    authority: Option<AuthorityHandle>,
    accounts: Exchange,
)
    requires
        ledger.offer(accounts.escrow_account) matches Some(offer) && ledger.token(
            accounts.taker_deposit_token_account,
        ) matches Some(source) && source.amount < offer.record.taker_amount,
    ensures
        exchange_error(ledger, authority, accounts) == Some(EscrowError::InsufficientFunds),
{
}

/// What the initializer's source account, the vault of the offer at
/// `record` and the taker's receiving account hold together.
pub open spec fn offered_total(
    ledger: Ledger,
    source: Identity,
    record: Identity,
    destination: Identity,
) -> int {
    held(ledger, source) + locked(ledger, record) + held(ledger, destination)
}

/// What the taker's source account and the initializer's receiving account
/// hold together.
pub open spec fn requested_total(ledger: Ledger, source: Identity, destination: Identity) -> int {
    held(ledger, source) + held(ledger, destination)
}

/// Opening an offer moves the offered amount from the source account into
/// the vault, which then holds exactly what the record says. What the
/// source account, the vault and any other account hold together stays the
/// same.
pub proof fn law_initialize_conserves(
    pre: Ledger,
    post: Ledger,
    authority: Option<AuthorityHandle>,
    accounts: Initialize,
    initializer_amount: u64,
    taker_amount: u64,
    destination: Identity,
)
    requires
        initialize_error(pre, authority, accounts, initializer_amount) is None,
        initialized(pre, post, authority.unwrap(), accounts, initializer_amount, taker_amount),
        destination != accounts.initializer_deposit_token_account,
    ensures
        locked(pre, accounts.escrow_account) == 0,
        locked(post, accounts.escrow_account) == initializer_amount,
        post.offer(accounts.escrow_account).unwrap().funded(),
        offered_total(
            post,
            accounts.initializer_deposit_token_account,
            accounts.escrow_account,
            destination,
        ) == offered_total(
            pre,
            accounts.initializer_deposit_token_account,
            accounts.escrow_account,
            destination,
        ),
{
    let source = accounts.initializer_deposit_token_account;
    assert(post.token(source) is Some);
    assert(post.token(destination) == pre.token(destination));
    assert(post.offer(accounts.escrow_account) is Some);
}

/// Withdrawing an offer moves what the vault held back to the initializer's
/// account. What that account, the vault and any other account hold
/// together stays the same.
pub proof fn law_cancel_conserves(
    pre: Ledger,
    post: Ledger,
    authority: Option<AuthorityHandle>,
    accounts: Cancel,
    destination: Identity,
)
    requires
        pre.wf(),
        cancel_error(pre, authority, accounts) is None,
        cancelled(pre, post, accounts),
        destination != accounts.initializer_deposit_token_account,
    ensures
        locked(post, accounts.escrow_account) == 0,
        held(post, accounts.initializer_deposit_token_account) == held(
            pre,
            accounts.initializer_deposit_token_account,
        ) + locked(pre, accounts.escrow_account),
        offered_total(
            post,
            accounts.initializer_deposit_token_account,
            accounts.escrow_account,
            destination,
        ) == offered_total(
            pre,
            accounts.initializer_deposit_token_account,
            accounts.escrow_account,
            destination,
        ),
{
    let target = accounts.initializer_deposit_token_account;
    let offer = pre.offer(accounts.escrow_account).unwrap();
    pre.lemma_offer_funded(accounts.escrow_account);
    pre.lemma_token_and_vault_within_supply(target, accounts.escrow_account);
    assert(pre.supply(offer.vault.mint) <= u64::MAX);
    assert(post.token(target) is Some);
    assert(post.token(destination) == pre.token(destination));
    assert(post.offer(accounts.escrow_account) is None);
}

/// A swap between four different accounts moves both amounts at once: the
/// requested amount from the taker to the initializer, and what the vault
/// held to the taker. Of each asset, the accounts concerned hold together
/// what they held before.
pub proof fn law_exchange_conserves(
    pre: Ledger,
    post: Ledger,
    authority: Option<AuthorityHandle>,
    accounts: Exchange,
)
    requires
        pre.wf(),
        exchange_error(pre, authority, accounts) is None,
        exchanged(pre, post, accounts),
        accounts.taker_receive_token_account != accounts.taker_deposit_token_account,
        accounts.taker_receive_token_account != accounts.initializer_receive_token_account,
        accounts.taker_receive_token_account != accounts.initializer_deposit_token_account,
        accounts.taker_deposit_token_account != accounts.initializer_receive_token_account,
        accounts.taker_deposit_token_account != accounts.initializer_deposit_token_account,
        accounts.initializer_receive_token_account != accounts.initializer_deposit_token_account,
    ensures
        locked(post, accounts.escrow_account) == 0,
        held(post, accounts.taker_receive_token_account) == held(
            pre,
            accounts.taker_receive_token_account,
        ) + locked(pre, accounts.escrow_account),
        held(post, accounts.initializer_receive_token_account) == held(
            pre,
            accounts.initializer_receive_token_account,
        ) + pre.offer(accounts.escrow_account).unwrap().record.taker_amount,
        offered_total(
            post,
            accounts.initializer_deposit_token_account,
            accounts.escrow_account,
            accounts.taker_receive_token_account,
        ) == offered_total(
            pre,
            accounts.initializer_deposit_token_account,
            accounts.escrow_account,
            accounts.taker_receive_token_account,
        ),
        requested_total(
            post,
            accounts.taker_deposit_token_account,
            accounts.initializer_receive_token_account,
        ) == requested_total(
            pre,
            accounts.taker_deposit_token_account,
            accounts.initializer_receive_token_account,
        ),
{
    let offer = pre.offer(accounts.escrow_account).unwrap();
    let source = accounts.taker_deposit_token_account;
    let paid = accounts.initializer_receive_token_account;
    let taken = accounts.taker_receive_token_account;
    let kept = accounts.initializer_deposit_token_account;
    pre.lemma_offer_funded(accounts.escrow_account);
    pre.lemma_token_and_vault_within_supply(taken, accounts.escrow_account);
    pre.lemma_tokens_within_supply(source, paid);
    assert(pre.supply(offer.vault.mint) <= u64::MAX);
    assert(pre.supply(pre.token(source).unwrap().mint) <= u64::MAX);
    assert(post.token(source) is Some);
    assert(post.token(paid) is Some);
    assert(post.token(taken) is Some);
    assert(post.token(kept) == pre.token(kept)) by {
        assert(post.token(kept) == crate::escrow::adjusted(pre.token(kept), 0));
        if pre.token(kept) is Some {
            assert(pre.token(kept).unwrap() == crate::token::with_amount(
                pre.token(kept).unwrap(),
                pre.token(kept).unwrap().amount + 0,
            ));
        }
    }
    assert(post.offer(accounts.escrow_account) is None);
}

/// A swap moves both amounts or neither. Where `post` is what a request to
/// swap between four different accounts leaves of `pre`, either the
/// initializer has been paid and the taker has what the vault held, or
/// every account and every offer is as it was.
pub proof fn law_exchange_all_or_nothing(
    pre: Ledger,
    post: Ledger,
    authority: Option<AuthorityHandle>,
    accounts: Exchange,
)
    requires
        pre.wf(),
        exchange_error(pre, authority, accounts) is None ==> exchanged(pre, post, accounts),
        exchange_error(pre, authority, accounts) is Some ==> unchanged(pre, post),
        accounts.taker_receive_token_account != accounts.taker_deposit_token_account,
        accounts.taker_receive_token_account != accounts.initializer_receive_token_account,
        accounts.taker_receive_token_account != accounts.initializer_deposit_token_account,
        accounts.taker_deposit_token_account != accounts.initializer_receive_token_account,
        accounts.taker_deposit_token_account != accounts.initializer_deposit_token_account,
        accounts.initializer_receive_token_account != accounts.initializer_deposit_token_account,
    ensures
        ({
            &&& held(post, accounts.initializer_receive_token_account) == held(
                pre,
                accounts.initializer_receive_token_account,
            ) + pre.offer(accounts.escrow_account).unwrap().record.taker_amount
            &&& held(post, accounts.taker_receive_token_account) == held(
                pre,
                accounts.taker_receive_token_account,
            ) + locked(pre, accounts.escrow_account)
            &&& post.offer(accounts.escrow_account) is None
        }) || ({
            &&& forall|key: Identity| post.token(key) == pre.token(key)
            &&& forall|key: Identity| post.offer(key) == pre.offer(key)
        }),
{
    if exchange_error(pre, authority, accounts) is None {
        law_exchange_conserves(pre, post, authority, accounts);
    }
}

/// An offer that stays open stays as it is: no operation changes the record
/// or the vault of an offer other than by closing it.
pub proof fn law_open_offers_do_not_change(
    pre: Ledger,
    post: Ledger,
    authority: Option<AuthorityHandle>,
    opened: Initialize,
    initializer_amount: u64,
    taker_amount: u64,
    record: Identity,
    gain: spec_fn(Identity) -> int,
    key: Identity,
)
    requires
        (initialize_error(pre, authority, opened, initializer_amount) is None && initialized(
            pre,
            post,
            authority.unwrap(),
            opened,
            initializer_amount,
            taker_amount,
        )) || closed_out(pre, post, record, gain),
        pre.offer(key) is Some,
        post.offer(key) is Some,
    ensures
        post.offer(key) == pre.offer(key),
{
}

/// Each open offer has a vault of its own, which holds exactly what the
/// record says was offered.
pub proof fn law_one_vault_per_offer(ledger: Ledger, first: Identity, second: Identity)
    requires
        ledger.wf(),
        ledger.offer(first) is Some,
        ledger.offer(second) is Some,
        first != second,
    ensures
        ledger.offer(first).unwrap().vault.key != ledger.offer(second).unwrap().vault.key,
        ledger.offer(first).unwrap().funded(),
        ledger.offer(second).unwrap().funded(),
{
    let s = ledger.offers();
    let i = choose|i: int| 0 <= i < s.len() && s[i].key == first;
    let j = choose|j: int| 0 <= j < s.len() && s[j].key == second;
    assert(i != j);
    if i < j {
        assert(s[i].vault.key != s[j].vault.key);
    } else {
        assert(s[j].vault.key != s[i].vault.key);
    }
    ledger.lemma_offer_funded(first);
    ledger.lemma_offer_funded(second);
}

} // verus!
