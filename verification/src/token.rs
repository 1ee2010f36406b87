//! Token accounts and the three movements that the ledger offers on them:
//! transfer, change of authority, and closing.

use vstd::prelude::*;
use crate::error::EscrowError;
use crate::identity::Identity;

verus! {

/// A party as it appears in a request: who it is, and whether it has
/// authorized the request.
#[derive(Clone, Copy, Debug, PartialEq, Eq)]
pub struct AccountInfo {
    pub key: Identity,
    pub is_signer: bool,
}

/// An account that holds an amount of one asset under one authority.
#[derive(Clone, Copy, Debug, PartialEq, Eq)]
pub struct TokenAccount {
    pub key: Identity,
    /// The asset held.
    pub mint: Identity,
    /// The identity whose authorization moves the funds.
    pub owner: Identity,
    pub amount: u64,
}

/// The accounts of a transfer.
#[derive(Clone, Copy, Debug, PartialEq, Eq)]
pub struct Transfer {
    pub from: Identity,
    pub to: Identity,
    pub authority: AccountInfo,
}

/// The accounts of a change of authority.
#[derive(Clone, Copy, Debug, PartialEq, Eq)]
pub struct SetAuthority {
    pub account_or_mint: Identity,
    pub current_authority: AccountInfo,
}

/// The accounts of a closing. What the closed account held as custodial
/// deposit goes to `destination`.
#[derive(Clone, Copy, Debug, PartialEq, Eq)]
pub struct CloseAccount {
    pub account: Identity,
    pub destination: Identity,
    pub authority: AccountInfo,
}

/// `authority` may act for an account owned by `owner`.
pub open spec fn authorizes(authority: AccountInfo, owner: Identity) -> bool {
    authority.is_signer && authority.key == owner
}

/// `account` with its amount replaced.
pub open spec fn with_amount(account: TokenAccount, amount: int) -> TokenAccount
    recommends
        0 <= amount <= u64::MAX,
{
    TokenAccount { amount: amount as u64, ..account }
}

/// `account` with its authority replaced.
pub open spec fn with_owner(account: TokenAccount, owner: Identity) -> TokenAccount {
    TokenAccount { owner, ..account }
}

/// `Ok` where no error stands in the way.
pub open spec fn outcome(error: Option<EscrowError>) -> Result<(), EscrowError> {
    match error {
        Some(e) => Err(e),
        None => Ok(()),
    }
}

/// Why a transfer is refused, if it is.
pub open spec fn transfer_error(
    ctx: Transfer,
    from: TokenAccount,
    to: TokenAccount,
    amount: u64,
) -> Option<EscrowError> {
    if ctx.from != from.key || ctx.to != to.key || from.mint != to.mint {
        Some(EscrowError::AccountMismatch)
    } else if !authorizes(ctx.authority, from.owner) {
        Some(EscrowError::Unauthorized)
    } else if from.amount < amount {
        Some(EscrowError::InsufficientFunds)
    } else {
        None
    }
}

/// Moves `amount` from `from` to `to`, two accounts of one asset, where the
/// context names them and its authority may act for `from`.
pub fn transfer(
    ctx: &Transfer,
    from: &mut TokenAccount,
    to: &mut TokenAccount,
    amount: u64,
) -> (r: Result<(), EscrowError>)
    requires
        old(to).amount + amount <= u64::MAX,
    ensures
        r == outcome(transfer_error(*ctx, *old(from), *old(to), amount)),
        r is Ok ==> *final(from) == with_amount(*old(from), old(from).amount - amount),
        r is Ok ==> *final(to) == with_amount(*old(to), old(to).amount + amount),
        r is Err ==> *final(from) == *old(from) && *final(to) == *old(to),
{
    if ctx.from != from.key || ctx.to != to.key || from.mint != to.mint {
        return Err(EscrowError::AccountMismatch);
    }
    if !ctx.authority.is_signer || ctx.authority.key != from.owner {
        return Err(EscrowError::Unauthorized);
    }
    if from.amount < amount {
        return Err(EscrowError::InsufficientFunds);
    }
    from.amount = from.amount - amount;
    to.amount = to.amount + amount;
    Ok(())
}

/// Why a change of authority is refused, if it is.
pub open spec fn set_authority_error(ctx: SetAuthority, account: TokenAccount) -> Option<
    EscrowError,
> {
    if ctx.account_or_mint != account.key {
        Some(EscrowError::AccountMismatch)
    } else if !authorizes(ctx.current_authority, account.owner) {
        Some(EscrowError::Unauthorized)
    } else {
        None
    }
}

/// Hands `account` over to `new_authority`, where the context names the
/// account and its current authority may act for it.
pub fn set_authority(ctx: &SetAuthority, account: &mut TokenAccount, new_authority: Identity) -> (r:
    Result<(), EscrowError>)
    ensures
        r == outcome(set_authority_error(*ctx, *old(account))),
        r is Ok ==> *final(account) == with_owner(*old(account), new_authority),
        r is Err ==> *final(account) == *old(account),
{
    if ctx.account_or_mint != account.key {
        return Err(EscrowError::AccountMismatch);
    }
    if !ctx.current_authority.is_signer || ctx.current_authority.key != account.owner {
        return Err(EscrowError::Unauthorized);
    }
    account.owner = new_authority;
    Ok(())
}

/// Why a closing is refused, if it is. An account that still holds funds is
/// not closed: closing destroys no asset.
pub open spec fn close_account_error(ctx: CloseAccount, account: TokenAccount) -> Option<
    EscrowError,
> {
    if ctx.account != account.key || account.amount != 0 {
        Some(EscrowError::AccountMismatch)
    } else if !authorizes(ctx.authority, account.owner) {
        Some(EscrowError::Unauthorized)
    } else {
        None
    }
}

/// Closes `account`, where the context names it, it is empty, and the
/// context's authority may act for it. Returns the identity that receives
/// the account's custodial deposit.
pub fn close_account(ctx: &CloseAccount, account: TokenAccount) -> (r: Result<
    Identity,
    EscrowError,
>)
    ensures
        r == match close_account_error(*ctx, account) {
            Some(e) => Err::<Identity, EscrowError>(e),
            None => Ok(ctx.destination),
        },
{
    if ctx.account != account.key || account.amount != 0 {
        return Err(EscrowError::AccountMismatch);
    }
    if !ctx.authority.is_signer || ctx.authority.key != account.owner {
        return Err(EscrowError::Unauthorized);
    }
    Ok(ctx.destination)
}

} // verus!
