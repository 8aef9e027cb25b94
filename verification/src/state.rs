use vstd::prelude::*;

verus! {

/// The persisted terms of one escrow, keyed by (maker, seed).
#[derive(Clone, Copy, Debug, PartialEq, Eq, Structural)]
pub struct EscrowRecord {
    /// Identity of the party who created the escrow; sole refund authority.
    pub maker: u64,
    /// Caller-chosen integer distinguishing concurrent escrows of one maker.
    pub seed: u64,
    /// Identity of the asset type held in the vault.
    pub asset_offered: u64,
    /// Identity of the asset type the maker wants in return.
    pub asset_requested: u64,
    /// Quantity of `asset_requested` owed to the maker on fulfillment.
    pub amount_requested: u64,
    /// The canonicalization byte cached at creation, re-checked whenever an
    /// operation presents a vault, so addresses are never searched for twice.
    pub derivation_bump: u8,
}

/// One live escrow: the record together with its vault's balance. The two
/// are one value on purpose: a vault exists exactly as long as its record,
/// so no state can hold one without the other.
#[derive(Clone, Copy, Debug, PartialEq, Eq, Structural)]
pub struct LiveEscrow {
    pub record: EscrowRecord,
    pub vault_balance: u64,
}

/// A personal holding of one asset type by one identity.
#[derive(Clone, Copy, Debug, PartialEq, Eq, Structural)]
pub struct TokenAccount {
    pub owner: u64,
    pub asset: u64,
    pub amount: u64,
}

/// True when `e` sits at the address derived from (maker, seed).
pub open spec fn escrow_key_matches(e: LiveEscrow, maker: u64, seed: u64) -> bool {
    e.record.maker == maker && e.record.seed == seed
}

/// True when `a` is the holding of `asset` by `owner`.
pub open spec fn account_key_matches(a: TokenAccount, owner: u64, asset: u64) -> bool {
    a.owner == owner && a.asset == asset
}

/// No two live escrows share a (maker, seed) address.
pub open spec fn escrows_unique(s: Seq<LiveEscrow>) -> bool {
    forall|i: int, j: int|
        0 <= i < s.len() && 0 <= j < s.len() && i != j ==> ((#[trigger] s[i]).record.maker != (
        #[trigger] s[j]).record.maker || s[i].record.seed != s[j].record.seed)
}

/// No two token accounts share an (owner, asset) key.
pub open spec fn accounts_unique(s: Seq<TokenAccount>) -> bool {
    forall|i: int, j: int|
        0 <= i < s.len() && 0 <= j < s.len() && i != j ==> ((#[trigger] s[i]).owner != (
        #[trigger] s[j]).owner || s[i].asset != s[j].asset)
}

/// A live escrow sits at the address derived from (maker, seed).
pub open spec fn escrows_has(s: Seq<LiveEscrow>, maker: u64, seed: u64) -> bool {
    exists|i: int| 0 <= i < s.len() && escrow_key_matches(#[trigger] s[i], maker, seed)
}

/// The position of the live escrow at (maker, seed), when one exists.
pub open spec fn escrows_index(s: Seq<LiveEscrow>, maker: u64, seed: u64) -> int {
    choose|i: int| 0 <= i < s.len() && escrow_key_matches(#[trigger] s[i], maker, seed)
}

/// The live escrow at (maker, seed), when one exists.
pub open spec fn escrows_at(s: Seq<LiveEscrow>, maker: u64, seed: u64) -> LiveEscrow {
    s[escrows_index(s, maker, seed)]
}

/// A token account with key (owner, asset) exists.
pub open spec fn accounts_has(s: Seq<TokenAccount>, owner: u64, asset: u64) -> bool {
    exists|i: int| 0 <= i < s.len() && account_key_matches(#[trigger] s[i], owner, asset)
}

/// The position of the account keyed (owner, asset), when one exists.
pub open spec fn accounts_index(s: Seq<TokenAccount>, owner: u64, asset: u64) -> int {
    choose|i: int| 0 <= i < s.len() && account_key_matches(#[trigger] s[i], owner, asset)
}

/// The balance of `asset` held by `owner`: the amount in its account,
/// or zero when no account with that key exists.
pub open spec fn accounts_balance(s: Seq<TokenAccount>, owner: u64, asset: u64) -> u64 {
    if accounts_has(s, owner, asset) {
        s[accounts_index(s, owner, asset)].amount
    } else {
        0
    }
}

/// When the escrows are keyed uniquely, any position whose escrow matches
/// (maker, seed) is the one `escrows_index` picks.
pub proof fn lemma_escrow_index_is(s: Seq<LiveEscrow>, maker: u64, seed: u64, i: int)
    requires
        escrows_unique(s),
        0 <= i < s.len(),
        escrow_key_matches(s[i], maker, seed),
    ensures
        escrows_has(s, maker, seed),
        escrows_index(s, maker, seed) == i,
        escrows_at(s, maker, seed) == s[i],
{
    assert(escrows_has(s, maker, seed));
    let k = escrows_index(s, maker, seed);
    assert(0 <= k < s.len() && escrow_key_matches(s[k], maker, seed));
    if k != i {
        assert(s[i].record.maker != s[k].record.maker || s[i].record.seed != s[k].record.seed);
        assert(false);
    }
}

/// When the accounts are keyed uniquely, any position whose account matches
/// (owner, asset) is the one `accounts_index` picks.
pub proof fn lemma_account_index_is(s: Seq<TokenAccount>, owner: u64, asset: u64, i: int)
    requires
        accounts_unique(s),
        0 <= i < s.len(),
        account_key_matches(s[i], owner, asset),
    ensures
        accounts_has(s, owner, asset),
        accounts_index(s, owner, asset) == i,
        accounts_balance(s, owner, asset) == s[i].amount,
{
    assert(accounts_has(s, owner, asset));
    let k = accounts_index(s, owner, asset);
    assert(0 <= k < s.len() && account_key_matches(s[k], owner, asset));
    if k != i {
        assert(s[i].owner != s[k].owner || s[i].asset != s[k].asset);
        assert(false);
    }
}

/// Overwriting the account at position `j` with one of the same key keeps
/// the keys unique, sets that key's balance, and moves no other balance.
pub proof fn lemma_accounts_update(s: Seq<TokenAccount>, j: int, a: TokenAccount)
    requires
        accounts_unique(s),
        0 <= j < s.len(),
        a.owner == s[j].owner,
        a.asset == s[j].asset,
    ensures
        accounts_unique(s.update(j, a)),
        accounts_balance(s.update(j, a), a.owner, a.asset) == a.amount,
        forall|o: u64, t: u64|
            !(o == a.owner && t == a.asset) ==> #[trigger] accounts_balance(s.update(j, a), o, t)
                == accounts_balance(s, o, t),
{
    let s2 = s.update(j, a);
    assert(forall|x: int|
        0 <= x < s2.len() ==> (#[trigger] s2[x]).owner == s[x].owner && s2[x].asset
            == s[x].asset);
    assert(accounts_unique(s2));
    lemma_account_index_is(s2, a.owner, a.asset, j);
    assert forall|o: u64, t: u64|
        !(o == a.owner && t == a.asset) implies #[trigger] accounts_balance(s2, o, t)
        == accounts_balance(s, o, t) by {
        if accounts_has(s, o, t) {
            let i = accounts_index(s, o, t);
            assert(0 <= i < s.len() && account_key_matches(s[i], o, t));
            assert(i != j);
            assert(account_key_matches(s2[i], o, t));
            lemma_account_index_is(s2, o, t, i);
            lemma_account_index_is(s, o, t, i);
        } else {
            if accounts_has(s2, o, t) {
                let i2 = accounts_index(s2, o, t);
                assert(0 <= i2 < s2.len() && account_key_matches(s2[i2], o, t));
                assert(i2 != j);
                assert(account_key_matches(s[i2], o, t));
                assert(false);
            }
        }
    };
}

/// Appending an account whose key is fresh keeps the keys unique, gives
/// the new key its amount as balance, and moves no other balance.
pub proof fn lemma_accounts_push(s: Seq<TokenAccount>, a: TokenAccount)
    requires
        accounts_unique(s),
        !accounts_has(s, a.owner, a.asset),
    ensures
        accounts_unique(s.push(a)),
        accounts_balance(s.push(a), a.owner, a.asset) == a.amount,
        forall|o: u64, t: u64|
            !(o == a.owner && t == a.asset) ==> #[trigger] accounts_balance(s.push(a), o, t)
                == accounts_balance(s, o, t),
{
    let s2 = s.push(a);
    let n = s.len() as int;
    assert(forall|x: int| 0 <= x < n ==> #[trigger] s2[x] == s[x]);
    assert(s2[n] == a);
    assert forall|i: int, k: int|
        0 <= i < s2.len() && 0 <= k < s2.len() && i != k implies ((#[trigger] s2[i]).owner != (
    #[trigger] s2[k]).owner || s2[i].asset != s2[k].asset) by {
        if i == n {
            assert(account_key_matches(s[k], a.owner, a.asset) ==> accounts_has(
                s,
                a.owner,
                a.asset,
            ));
        } else if k == n {
            assert(account_key_matches(s[i], a.owner, a.asset) ==> accounts_has(
                s,
                a.owner,
                a.asset,
            ));
        }
    };
    lemma_account_index_is(s2, a.owner, a.asset, n);
    assert forall|o: u64, t: u64|
        !(o == a.owner && t == a.asset) implies #[trigger] accounts_balance(s2, o, t)
        == accounts_balance(s, o, t) by {
        if accounts_has(s, o, t) {
            let i = accounts_index(s, o, t);
            assert(0 <= i < s.len() && account_key_matches(s[i], o, t));
            assert(account_key_matches(s2[i], o, t));
            lemma_account_index_is(s2, o, t, i);
            lemma_account_index_is(s, o, t, i);
        } else {
            if accounts_has(s2, o, t) {
                let i2 = accounts_index(s2, o, t);
                assert(0 <= i2 < s2.len() && account_key_matches(s2[i2], o, t));
                assert(i2 != n);
                assert(account_key_matches(s[i2], o, t));
                assert(false);
            }
        }
    };
}

/// Appending a live escrow whose (maker, seed) address is fresh keeps the
/// addresses unique, makes that escrow live, and touches no other escrow.
pub proof fn lemma_escrows_push(s: Seq<LiveEscrow>, e: LiveEscrow)
    requires
        escrows_unique(s),
        !escrows_has(s, e.record.maker, e.record.seed),
    ensures
        escrows_unique(s.push(e)),
        escrows_has(s.push(e), e.record.maker, e.record.seed),
        escrows_at(s.push(e), e.record.maker, e.record.seed) == e,
        forall|m: u64, t: u64|
            !(m == e.record.maker && t == e.record.seed) ==> (#[trigger] escrows_has(
                s.push(e),
                m,
                t,
            ) == escrows_has(s, m, t) && (escrows_has(s, m, t) ==> escrows_at(s.push(e), m, t)
                == escrows_at(s, m, t))),
{
    let s2 = s.push(e);
    let n = s.len() as int;
    assert(forall|x: int| 0 <= x < n ==> #[trigger] s2[x] == s[x]);
    assert(s2[n] == e);
    assert forall|i: int, k: int|
        0 <= i < s2.len() && 0 <= k < s2.len() && i != k implies ((
    #[trigger] s2[i]).record.maker != (#[trigger] s2[k]).record.maker || s2[i].record.seed
        != s2[k].record.seed) by {
        if i == n {
            assert(escrow_key_matches(s[k], e.record.maker, e.record.seed) ==> escrows_has(
                s,
                e.record.maker,
                e.record.seed,
            ));
        } else if k == n {
            assert(escrow_key_matches(s[i], e.record.maker, e.record.seed) ==> escrows_has(
                s,
                e.record.maker,
                e.record.seed,
            ));
        }
    };
    lemma_escrow_index_is(s2, e.record.maker, e.record.seed, n);
    assert forall|m: u64, t: u64|
        !(m == e.record.maker && t == e.record.seed) implies (#[trigger] escrows_has(s2, m, t)
        == escrows_has(s, m, t) && (escrows_has(s, m, t) ==> escrows_at(s2, m, t) == escrows_at(
        s,
        m,
        t,
    ))) by {
        if escrows_has(s, m, t) {
            let i = escrows_index(s, m, t);
            assert(0 <= i < s.len() && escrow_key_matches(s[i], m, t));
            assert(escrow_key_matches(s2[i], m, t));
            lemma_escrow_index_is(s2, m, t, i);
            lemma_escrow_index_is(s, m, t, i);
        } else {
            if escrows_has(s2, m, t) {
                let i2 = escrows_index(s2, m, t);
                assert(0 <= i2 < s2.len() && escrow_key_matches(s2[i2], m, t));
                assert(i2 != n);
                assert(escrow_key_matches(s[i2], m, t));
                assert(false);
            }
        }
    };
}

/// Removing the live escrow at position `j` keeps the addresses unique,
/// retires exactly that (maker, seed) address, and touches no other escrow.
pub proof fn lemma_escrows_remove(s: Seq<LiveEscrow>, j: int)
    requires
        escrows_unique(s),
        0 <= j < s.len(),
    ensures
        escrows_unique(s.remove(j)),
        !escrows_has(s.remove(j), s[j].record.maker, s[j].record.seed),
        forall|m: u64, t: u64|
            !(m == s[j].record.maker && t == s[j].record.seed) ==> (#[trigger] escrows_has(
                s.remove(j),
                m,
                t,
            ) == escrows_has(s, m, t) && (escrows_has(s, m, t) ==> escrows_at(s.remove(j), m, t)
                == escrows_at(s, m, t))),
{
    let s2 = s.remove(j);
    s.remove_ensures(j);
    assert forall|i: int, k: int|
        0 <= i < s2.len() && 0 <= k < s2.len() && i != k implies ((
    #[trigger] s2[i]).record.maker != (#[trigger] s2[k]).record.maker || s2[i].record.seed
        != s2[k].record.seed) by {
        let oi: int = if i < j {
            i
        } else {
            i + 1
        };
        let ok: int = if k < j {
            k
        } else {
            k + 1
        };
        assert(s2[i] == s[oi]);
        assert(s2[k] == s[ok]);
        assert(oi != ok);
    };
    assert forall|i2: int|
        0 <= i2 < s2.len() implies !escrow_key_matches(
        s2[i2],
        s[j].record.maker,
        s[j].record.seed,
    ) by {
        let oi: int = if i2 < j {
            i2
        } else {
            i2 + 1
        };
        assert(s2[i2] == s[oi]);
        assert(oi != j);
    };
    assert(!escrows_has(s2, s[j].record.maker, s[j].record.seed));
    assert forall|m: u64, t: u64|
        !(m == s[j].record.maker && t == s[j].record.seed) implies (#[trigger] escrows_has(
        s2,
        m,
        t,
    ) == escrows_has(s, m, t) && (escrows_has(s, m, t) ==> escrows_at(s2, m, t) == escrows_at(
        s,
        m,
        t,
    ))) by {
        if escrows_has(s, m, t) {
            let i = escrows_index(s, m, t);
            assert(0 <= i < s.len() && escrow_key_matches(s[i], m, t));
            assert(i != j);
            let i2: int = if i < j {
                i
            } else {
                i - 1
            };
            assert(s2[i2] == s[i]);
            lemma_escrow_index_is(s2, m, t, i2);
            lemma_escrow_index_is(s, m, t, i);
        } else {
            if escrows_has(s2, m, t) {
                let w = escrows_index(s2, m, t);
                assert(0 <= w < s2.len() && escrow_key_matches(s2[w], m, t));
                let ow: int = if w < j {
                    w
                } else {
                    w + 1
                };
                assert(s2[w] == s[ow]);
                assert(escrow_key_matches(s[ow], m, t));
                assert(false);
            }
        }
    };
}

} // verus!
