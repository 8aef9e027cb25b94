use vstd::prelude::*;

use crate::derivation::derive_escrow_address;
use crate::derivation::spec_bump;
use crate::errors::EscrowError;
use crate::state::account_key_matches;
use crate::state::accounts_balance;
use crate::state::accounts_has;
use crate::state::accounts_unique;
use crate::state::escrow_key_matches;
use crate::state::escrows_at;
use crate::state::escrows_has;
use crate::state::escrows_index;
use crate::state::escrows_unique;
use crate::state::lemma_account_index_is;
use crate::state::lemma_accounts_push;
use crate::state::lemma_accounts_update;
use crate::state::lemma_escrow_index_is;
use crate::state::lemma_escrows_push;
use crate::state::lemma_escrows_remove;
use crate::state::EscrowRecord;
use crate::state::LiveEscrow;
use crate::state::TokenAccount;

verus! {

/// The observable state of one escrow program instance: the live escrows
/// (each record coupled with its vault) and the personal token holdings,
/// under one fixed program identity. Every operation is a single atomic
/// step on this state: it either commits whole or leaves the state as it
/// found it.
pub struct Ledger {
    program_id: u64,
    escrows: Vec<LiveEscrow>,
    accounts: Vec<TokenAccount>,
}

/// Every balance other than (owner, asset) reads the same in `post` as
/// in `pre`.
pub open spec fn balances_unchanged_except(pre: Ledger, post: Ledger, owner: u64, asset: u64) -> bool {
    forall|o: u64, a: u64|
        !(o == owner && a == asset) ==> #[trigger] post.balance_of(o, a) == pre.balance_of(o, a)
}

/// Every escrow address other than (maker, seed) holds the same escrow,
/// or none, in `post` as in `pre`.
pub open spec fn escrows_unchanged_except(pre: Ledger, post: Ledger, maker: u64, seed: u64) -> bool {
    forall|m: u64, t: u64|
        !(m == maker && t == seed) ==> ((#[trigger] post.has_escrow(m, t) == pre.has_escrow(m, t))
            && (pre.has_escrow(m, t) ==> post.escrow_at(m, t) == pre.escrow_at(m, t)))
}

/// The whole effect of a successful Make: the new escrow is live with the
/// given terms and a vault holding exactly the deposit, the deposit has
/// left the maker's personal holding, and nothing else moved.
pub open spec fn make_creates(
    pre: Ledger,
    post: Ledger,
    caller: u64,
    seed: u64,
    asset_offered: u64,
    asset_requested: u64,
    deposit: u64,
    receive: u64,
) -> bool {
    let entry = LiveEscrow {
        record: pre.made_record(caller, seed, asset_offered, asset_requested, receive),
        vault_balance: deposit,
    };
    &&& post.spec_program_id() == pre.spec_program_id()
    &&& post.escrow_seq() == pre.escrow_seq().push(entry)
    &&& post.has_escrow(caller, seed)
    &&& post.escrow_at(caller, seed) == entry
    &&& post.balance_of(caller, asset_offered) == pre.balance_of(caller, asset_offered) - deposit
    &&& escrows_unchanged_except(pre, post, caller, seed)
    &&& balances_unchanged_except(pre, post, caller, asset_offered)
}

/// The whole effect of a successful Refund: the escrow at (maker, seed)
/// is retired together with its vault in the same step, the vault's whole
/// balance is back in the maker's personal holding, and nothing else
/// moved.
pub open spec fn refund_settles(pre: Ledger, post: Ledger, maker: u64, seed: u64) -> bool {
    let e = escrows_at(pre.escrow_seq(), maker, seed);
    &&& post.spec_program_id() == pre.spec_program_id()
    &&& post.escrow_seq() == pre.escrow_seq().remove(escrows_index(pre.escrow_seq(), maker, seed))
    &&& !post.has_escrow(maker, seed)
    &&& post.balance_of(maker, e.record.asset_offered) == pre.balance_of(
        maker,
        e.record.asset_offered,
    ) + e.vault_balance
    &&& escrows_unchanged_except(pre, post, maker, seed)
    &&& balances_unchanged_except(pre, post, maker, e.record.asset_offered)
}

impl Ledger {
    /// The program identity fixed at creation, injected into every
    /// address derivation.
    pub closed spec fn spec_program_id(self) -> u64 {
        self.program_id
    }

    /// The live escrows, in order of creation.
    pub closed spec fn escrow_seq(self) -> Seq<LiveEscrow> {
        self.escrows@
    }

    /// The personal token accounts.
    pub closed spec fn account_seq(self) -> Seq<TokenAccount> {
        self.accounts@
    }

    /// A live escrow sits at the address derived from (maker, seed).
    pub open spec fn has_escrow(self, maker: u64, seed: u64) -> bool {
        escrows_has(self.escrow_seq(), maker, seed)
    }

    /// The live escrow at (maker, seed), when one exists.
    pub open spec fn escrow_at(self, maker: u64, seed: u64) -> LiveEscrow {
        escrows_at(self.escrow_seq(), maker, seed)
    }

    /// The balance of `asset` held personally by `owner` (zero when it
    /// holds no account of that asset).
    pub open spec fn balance_of(self, owner: u64, asset: u64) -> u64 {
        accounts_balance(self.account_seq(), owner, asset)
    }

    /// Well-formedness, held at every observable boundary: escrow
    /// addresses and account keys are collision-free, every live vault
    /// still holds its full deposit (which was positive), every recorded
    /// request is positive, and every stored bump is the canonical one
    /// for its address.
    pub open spec fn wf(self) -> bool {
        &&& escrows_unique(self.escrow_seq())
        &&& accounts_unique(self.account_seq())
        &&& forall|i: int|
            0 <= i < self.escrow_seq().len() ==> (#[trigger] self.escrow_seq()[i]).vault_balance
                > 0
        &&& forall|i: int|
            0 <= i < self.escrow_seq().len()
                ==> (#[trigger] self.escrow_seq()[i]).record.amount_requested > 0
        &&& forall|i: int|
            0 <= i < self.escrow_seq().len()
                ==> (#[trigger] self.escrow_seq()[i]).record.derivation_bump == spec_bump(
                self.spec_program_id(),
                self.escrow_seq()[i].record.maker,
                self.escrow_seq()[i].record.seed,
            )
    }

    /// The record a successful Make writes for these terms.
    pub open spec fn made_record(
        self,
        caller: u64,
        seed: u64,
        asset_offered: u64,
        asset_requested: u64,
        receive: u64,
    ) -> EscrowRecord {
        EscrowRecord {
            maker: caller,
            seed,
            asset_offered,
            asset_requested,
            amount_requested: receive,
            derivation_bump: spec_bump(self.spec_program_id(), caller, seed),
        }
    }

    /// Exactly how a Make on this state ends: the derived address is
    /// checked first, so a live escrow already at (caller, seed) collides
    /// whatever amounts are asked for; then zero amounts are rejected,
    /// then the funds check; success otherwise.
    pub open spec fn make_outcome(
        self,
        caller: u64,
        seed: u64,
        asset_offered: u64,
        deposit: u64,
        receive: u64,
    ) -> Result<(), EscrowError> {
        if self.has_escrow(caller, seed) {
            Err(EscrowError::AddressCollision)
        } else if deposit == 0 || receive == 0 {
            Err(EscrowError::InvalidAmount)
        } else if self.balance_of(caller, asset_offered) < deposit {
            Err(EscrowError::InsufficientFunds)
        } else {
            Ok(())
        }
    }

    /// Exactly how a Refund on this state ends: a missing or mismatched
    /// vault is rejected, then any caller but the recorded maker, then a
    /// credit the transfer primitive cannot perform; success otherwise,
    /// returning the vault's whole balance.
    pub open spec fn refund_outcome(
        self,
        caller: u64,
        maker: u64,
        seed: u64,
        vault_bump: u8,
    ) -> Result<u64, EscrowError> {
        if !self.has_escrow(maker, seed) {
            Err(EscrowError::InvalidVault)
        } else if caller != self.escrow_at(maker, seed).record.maker {
            Err(EscrowError::Unauthorized)
        } else if vault_bump != self.escrow_at(maker, seed).record.derivation_bump {
            Err(EscrowError::InvalidVault)
        } else if self.balance_of(maker, self.escrow_at(maker, seed).record.asset_offered)
            + self.escrow_at(maker, seed).vault_balance > u64::MAX {
            Err(EscrowError::TransferFailed)
        } else {
            Ok(self.escrow_at(maker, seed).vault_balance)
        }
    }

    /// A fresh ledger under the given program identity: no escrows, no
    /// holdings.
    pub fn new(program_id: u64) -> (r: Ledger)
        ensures
            r.wf(),
            r.spec_program_id() == program_id,
            r.escrow_seq().len() == 0,
            r.account_seq().len() == 0,
            forall|m: u64, t: u64| !(#[trigger] r.has_escrow(m, t)),
            forall|o: u64, a: u64| #[trigger] r.balance_of(o, a) == 0,
    {
        Ledger { program_id, escrows: Vec::new(), accounts: Vec::new() }
    }

    /// The position of the live escrow at (maker, seed), if any.
    fn find_escrow(&self, maker: u64, seed: u64) -> (r: Option<usize>)
        ensures
            match r {
                Some(i) => i < self.escrow_seq().len() && escrow_key_matches(
                    self.escrow_seq()[i as int],
                    maker,
                    seed,
                ) && self.has_escrow(maker, seed),
                None => !self.has_escrow(maker, seed),
            },
    {
        let n = self.escrows.len();
        let mut i: usize = 0;
        while i < n
            invariant
                n == self.escrows.len(),
                i <= n,
                forall|k: int| 0 <= k < i ==> !escrow_key_matches(#[trigger] self.escrows@[k], maker, seed),
            decreases n - i,
        {
            if self.escrows[i].record.maker == maker && self.escrows[i].record.seed == seed {
                return Some(i);
            }
            i = i + 1;
        }
        None
    }

    /// The position of the account keyed (owner, asset), if any.
    fn find_account(&self, owner: u64, asset: u64) -> (r: Option<usize>)
        ensures
            match r {
                Some(i) => i < self.account_seq().len() && account_key_matches(
                    self.account_seq()[i as int],
                    owner,
                    asset,
                ) && accounts_has(self.account_seq(), owner, asset),
                None => !accounts_has(self.account_seq(), owner, asset),
            },
    {
        let n = self.accounts.len();
        let mut i: usize = 0;
        while i < n
            invariant
                n == self.accounts.len(),
                i <= n,
                forall|k: int| 0 <= k < i ==> !account_key_matches(#[trigger] self.accounts@[k], owner, asset),
            decreases n - i,
        {
            if self.accounts[i].owner == owner && self.accounts[i].asset == asset {
                return Some(i);
            }
            i = i + 1;
        }
        None
    }

    /// Reads the balance of `asset` held personally by `owner`.
    pub fn balance(&self, owner: u64, asset: u64) -> (r: u64)
        requires
            self.wf(),
        ensures
            r == self.balance_of(owner, asset),
    {
        match self.find_account(owner, asset) {
            Some(i) => {
                proof {
                    lemma_account_index_is(self.account_seq(), owner, asset, i as int);
                }
                self.accounts[i].amount
            },
            None => 0,
        }
    }

    /// Credits `amount` of `asset` to `owner`'s personal holding: the
    /// endowment step a host performs before any escrow runs. Fails,
    /// moving nothing, when the credit would overflow the holding.
    pub fn mint(&mut self, owner: u64, asset: u64, amount: u64) -> (r: Result<(), EscrowError>)
        requires
            old(self).wf(),
        ensures
            final(self).wf(),
            final(self).spec_program_id() == old(self).spec_program_id(),
            final(self).escrow_seq() == old(self).escrow_seq(),
            match r {
                Ok(()) => {
                    &&& old(self).balance_of(owner, asset) + amount <= u64::MAX
                    &&& final(self).balance_of(owner, asset) == old(self).balance_of(owner, asset)
                        + amount
                    &&& balances_unchanged_except(*old(self), *final(self), owner, asset)
                },
                Err(e) => {
                    &&& e == EscrowError::TransferFailed
                    &&& old(self).balance_of(owner, asset) + amount > u64::MAX
                    &&& *final(self) == *old(self)
                },
            },
    {
        match self.find_account(owner, asset) {
            Some(i) => {
                proof {
                    lemma_account_index_is(self.account_seq(), owner, asset, i as int);
                }
                let cur = self.accounts[i].amount;
                if amount > u64::MAX - cur {
                    return Err(EscrowError::TransferFailed);
                }
                let credited = TokenAccount { owner, asset, amount: cur + amount };
                proof {
                    lemma_accounts_update(self.account_seq(), i as int, credited);
                }
                self.accounts.set(i, credited);
                Ok(())
            },
            None => {
                let credited = TokenAccount { owner, asset, amount };
                proof {
                    lemma_accounts_push(self.account_seq(), credited);
                }
                self.accounts.push(credited);
                Ok(())
            },
        }
    }

    /// Establishes an escrow: derives the (caller, seed) address, writes
    /// the record with the caller as maker and the canonical bump, and
    /// moves exactly `deposit` of the offered asset from the caller's
    /// personal holding into the new vault, all as one step. A live
    /// escrow already at that address, zero amounts, and a short balance
    /// are each rejected, in that order, with nothing created and
    /// nothing moved.
    pub fn make(
        &mut self,
        caller: u64,
        seed: u64,
        asset_offered: u64,
        asset_requested: u64,
        deposit: u64,
        receive: u64,
    ) -> (r: Result<(), EscrowError>)
        requires
            old(self).wf(),
        ensures
            final(self).wf(),
            r == old(self).make_outcome(caller, seed, asset_offered, deposit, receive),
            r is Ok ==> make_creates(
                *old(self),
                *final(self),
                caller,
                seed,
                asset_offered,
                asset_requested,
                deposit,
                receive,
            ),
            r is Err ==> *final(self) == *old(self),
    {
        if self.find_escrow(caller, seed).is_some() {
            return Err(EscrowError::AddressCollision);
        }
        if deposit == 0 || receive == 0 {
            return Err(EscrowError::InvalidAmount);
        }
        match self.find_account(caller, asset_offered) {
            None => {
                // No holding of the offered asset at all, and the deposit
                // is positive.
                Err(EscrowError::InsufficientFunds)
            },
            Some(i) => {
                proof {
                    lemma_account_index_is(self.account_seq(), caller, asset_offered, i as int);
                }
                let cur = self.accounts[i].amount;
                if cur < deposit {
                    return Err(EscrowError::InsufficientFunds);
                }
                let debited = TokenAccount {
                    owner: caller,
                    asset: asset_offered,
                    amount: cur - deposit,
                };
                proof {
                    lemma_accounts_update(self.account_seq(), i as int, debited);
                }
                self.accounts.set(i, debited);
                let (_, bump) = derive_escrow_address(self.program_id, caller, seed);
                let entry = LiveEscrow {
                    record: EscrowRecord {
                        maker: caller,
                        seed,
                        asset_offered,
                        asset_requested,
                        amount_requested: receive,
                        derivation_bump: bump,
                    },
                    vault_balance: deposit,
                };
                proof {
                    lemma_escrows_push(self.escrow_seq(), entry);
                }
                self.escrows.push(entry);
                Ok(())
            },
        }
    }

    /// Unwinds the escrow at (maker, seed): after checking that a live
    /// vault matches the address and bump derived from the record and
    /// that the caller is the recorded maker, moves the vault's whole
    /// balance back to the maker's personal holding and retires the
    /// vault and the record together, as one step. Returns the amount
    /// refunded. Every rejection leaves the escrow and all balances as
    /// they were.
    pub fn refund(&mut self, caller: u64, maker: u64, seed: u64, vault_bump: u8) -> (r: Result<
        u64,
        EscrowError,
    >)
        requires
            old(self).wf(),
        ensures
            final(self).wf(),
            r == old(self).refund_outcome(caller, maker, seed, vault_bump),
            r is Ok ==> refund_settles(*old(self), *final(self), maker, seed),
            r is Err ==> *final(self) == *old(self),
    {
        match self.find_escrow(maker, seed) {
            None => Err(EscrowError::InvalidVault),
            Some(j) => {
                proof {
                    lemma_escrow_index_is(self.escrow_seq(), maker, seed, j as int);
                }
                let rec = self.escrows[j].record;
                if caller != rec.maker {
                    return Err(EscrowError::Unauthorized);
                }
                if vault_bump != rec.derivation_bump {
                    return Err(EscrowError::InvalidVault);
                }
                let amount = self.escrows[j].vault_balance;
                match self.find_account(maker, rec.asset_offered) {
                    Some(k) => {
                        proof {
                            lemma_account_index_is(
                                self.account_seq(),
                                maker,
                                rec.asset_offered,
                                k as int,
                            );
                        }
                        let cur = self.accounts[k].amount;
                        if amount > u64::MAX - cur {
                            return Err(EscrowError::TransferFailed);
                        }
                        let credited = TokenAccount {
                            owner: maker,
                            asset: rec.asset_offered,
                            amount: cur + amount,
                        };
                        proof {
                            lemma_accounts_update(self.account_seq(), k as int, credited);
                        }
                        self.accounts.set(k, credited);
                    },
                    None => {
                        let credited = TokenAccount {
                            owner: maker,
                            asset: rec.asset_offered,
                            amount,
                        };
                        proof {
                            lemma_accounts_push(self.account_seq(), credited);
                        }
                        self.accounts.push(credited);
                    },
                }
                proof {
                    lemma_escrows_remove(self.escrow_seq(), j as int);
                }
                self.escrows.remove(j);
                Ok(amount)
            },
        }
    }

    /// How many escrows are live.
    pub fn escrow_count(&self) -> (r: usize)
        ensures
            r == self.escrow_seq().len(),
    {
        self.escrows.len()
    }

    /// Reads the recorded terms of the escrow at (maker, seed), if one is
    /// live.
    pub fn escrow_terms(&self, maker: u64, seed: u64) -> (r: Option<EscrowRecord>)
        requires
            self.wf(),
        ensures
            match r {
                Some(rec) => self.has_escrow(maker, seed) && rec == self.escrow_at(
                    maker,
                    seed,
                ).record,
                None => !self.has_escrow(maker, seed),
            },
    {
        match self.find_escrow(maker, seed) {
            Some(i) => {
                proof {
                    lemma_escrow_index_is(self.escrow_seq(), maker, seed, i as int);
                }
                Some(self.escrows[i].record)
            },
            None => None,
        }
    }

    /// Reads the vault balance of the escrow at (maker, seed), if one is
    /// live.
    pub fn vault_balance(&self, maker: u64, seed: u64) -> (r: Option<u64>)
        requires
            self.wf(),
        ensures
            match r {
                Some(v) => self.has_escrow(maker, seed) && v == self.escrow_at(
                    maker,
                    seed,
                ).vault_balance,
                None => !self.has_escrow(maker, seed),
            },
    {
        match self.find_escrow(maker, seed) {
            Some(i) => {
                proof {
                    lemma_escrow_index_is(self.escrow_seq(), maker, seed, i as int);
                }
                Some(self.escrows[i].vault_balance)
            },
            None => None,
        }
    }
}

} // verus!
