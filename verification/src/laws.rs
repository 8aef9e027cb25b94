use vstd::prelude::*;

use crate::errors::EscrowError;
use crate::ledger::make_creates;
use crate::ledger::refund_settles;
use crate::ledger::Ledger;
use crate::state::escrow_key_matches;
use crate::state::escrows_index;

verus! {

/// Conservation: across any successful Make followed by a successful
/// Refund of the same escrow, the maker's balance of the offered asset
/// ends exactly where it began — the round trip leaks nothing and
/// counts nothing twice.
pub proof fn lemma_conservation(
    pre: Ledger,
    mid: Ledger,
    post: Ledger,
    maker: u64,
    seed: u64,
    asset_offered: u64,
    asset_requested: u64,
    deposit: u64,
    receive: u64,
)
    requires
        make_creates(pre, mid, maker, seed, asset_offered, asset_requested, deposit, receive),
        refund_settles(mid, post, maker, seed),
    ensures
        post.balance_of(maker, asset_offered) == pre.balance_of(maker, asset_offered),
{
}

/// Uniqueness of addresses: in a well-formed ledger, at most one live
/// escrow sits at the address derived from any (maker, seed) pair — any
/// two positions holding that address are the same position.
pub proof fn lemma_escrow_address_unique(l: Ledger, maker: u64, seed: u64, i: int, j: int)
    requires
        l.wf(),
        0 <= i < l.escrow_seq().len(),
        0 <= j < l.escrow_seq().len(),
        escrow_key_matches(l.escrow_seq()[i], maker, seed),
        escrow_key_matches(l.escrow_seq()[j], maker, seed),
    ensures
        i == j,
{
}

/// Uniqueness, second half: while an escrow at (maker, seed) is live, a
/// second Make by that maker with that seed fails with AddressCollision,
/// whatever amounts it asks for — the derived address is checked before
/// anything else.
pub proof fn lemma_second_make_collides(
    l: Ledger,
    maker: u64,
    seed: u64,
    asset_offered: u64,
    deposit: u64,
    receive: u64,
)
    requires
        l.has_escrow(maker, seed),
    ensures
        l.make_outcome(maker, seed, asset_offered, deposit, receive) == Err::<(), EscrowError>(
            EscrowError::AddressCollision,
        ),
{
}

/// Independence of seeds: while an escrow at (maker, seed) is live, a
/// Make by the same maker under a fresh seed with positive amounts and
/// sufficient funds succeeds, and the live escrow and its vault are
/// exactly as they were.
pub proof fn lemma_fresh_seed_independent(
    pre: Ledger,
    post: Ledger,
    maker: u64,
    live_seed: u64,
    fresh_seed: u64,
    asset_offered: u64,
    asset_requested: u64,
    deposit: u64,
    receive: u64,
)
    requires
        pre.has_escrow(maker, live_seed),
        !pre.has_escrow(maker, fresh_seed),
        deposit > 0,
        receive > 0,
        pre.balance_of(maker, asset_offered) >= deposit,
        make_creates(
            pre,
            post,
            maker,
            fresh_seed,
            asset_offered,
            asset_requested,
            deposit,
            receive,
        ),
    ensures
        pre.make_outcome(maker, fresh_seed, asset_offered, deposit, receive) == Ok::<
            (),
            EscrowError,
        >(()),
        post.has_escrow(maker, fresh_seed),
        post.has_escrow(maker, live_seed),
        post.escrow_at(maker, live_seed) == pre.escrow_at(maker, live_seed),
{
}

/// Atomicity of retirement: in a well-formed ledger no live escrow record
/// stands over an emptied vault — whenever the record exists, its vault
/// still holds a positive balance. (The converse needs no lemma: a vault
/// is a field of its live escrow, so it cannot outlive the record.)
pub proof fn lemma_no_hollow_state(l: Ledger, maker: u64, seed: u64)
    requires
        l.wf(),
        l.has_escrow(maker, seed),
    ensures
        l.escrow_at(maker, seed).vault_balance > 0,
{
    let i = escrows_index(l.escrow_seq(), maker, seed);
    assert(0 <= i < l.escrow_seq().len() && escrow_key_matches(l.escrow_seq()[i], maker, seed));
}

/// Authorization: a Refund attempted by any identity other than the
/// recorded maker ends in Unauthorized, never in success, whatever bump
/// it presents — provided a live vault sits at the address at all, which
/// is checked first.
pub proof fn lemma_refund_needs_maker(
    l: Ledger,
    caller: u64,
    maker: u64,
    seed: u64,
    vault_bump: u8,
)
    requires
        l.has_escrow(maker, seed),
        caller != l.escrow_at(maker, seed).record.maker,
    ensures
        l.refund_outcome(caller, maker, seed, vault_bump) == Err::<u64, EscrowError>(
            EscrowError::Unauthorized,
        ),
{
}

/// Amount validation: a Make asking to deposit nothing, or to receive
/// nothing, ends in InvalidAmount wherever it would not already have
/// collided — the address, checked first, must be free.
pub proof fn lemma_zero_amount_rejected(
    l: Ledger,
    caller: u64,
    seed: u64,
    asset_offered: u64,
    deposit: u64,
    receive: u64,
)
    requires
        !l.has_escrow(caller, seed),
        deposit == 0 || receive == 0,
    ensures
        l.make_outcome(caller, seed, asset_offered, deposit, receive) == Err::<(), EscrowError>(
            EscrowError::InvalidAmount,
        ),
{
}

} // verus!
