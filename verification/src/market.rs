//! The marketplace collaborator's deposit ledger: per-account balances
//! that prepay the storage of active listings.

use vstd::prelude::*;

use crate::str_map::{StringMap, StringSet};
use crate::{AccountId, Error, RequestContext, STORAGE_PRICE_PER_BYTE};

verus! {

/// Deposit required to keep one listing's storage.
pub const STORAGE_PER_SALE: u128 = 1000 * STORAGE_PRICE_PER_BYTE;

/// How many bids each listing keeps when none is configured.
pub const BID_HISTORY_LENGTH_DEFAULT: u8 = 1;

/// The marketplace's ledger: which payment tokens it accepts, each
/// account's storage deposit, and each account's active listings.
pub struct Contract {
    pub owner_id: AccountId,
    pub by_owner_id: StringMap<StringSet>,
    pub ft_token_ids: StringSet,
    pub storage_deposits: StringMap<u128>,
    pub bid_history_length: u8,
}

impl Contract {
    pub open spec fn wf(self) -> bool {
        &&& self.by_owner_id.wf()
        &&& self.ft_token_ids.wf()
        &&& self.storage_deposits.wf()
        &&& forall|a: Seq<char>|
            self.by_owner_id@.contains_key(a) ==> (#[trigger] self.by_owner_id@[a]).wf()
    }

    /// The listings the ledger records for `a`.
    pub open spec fn sales_of(self, a: Seq<char>) -> Set<Seq<char>> {
        if self.by_owner_id@.contains_key(a) {
            self.by_owner_id@[a]@
        } else {
            Set::empty()
        }
    }

    /// The deposit the ledger records for `a`.
    pub open spec fn deposit_of(self, a: Seq<char>) -> int {
        if self.storage_deposits@.contains_key(a) {
            self.storage_deposits@[a] as int
        } else {
            0
        }
    }

    /// `a`'s deposit covers `a`'s active listings.
    pub open spec fn solvent_for(self, a: Seq<char>) -> bool {
        self.deposit_of(a) >= self.sales_of(a).len() * STORAGE_PER_SALE
    }

    /// A fresh ledger that accepts the native token and any further
    /// listed payment tokens.
    pub fn new(
        owner_id: AccountId,
        ft_token_ids: Option<Vec<AccountId>>,
        bid_history_length: Option<u8>,
    ) -> (r: Contract)
        ensures
            r.wf(),
            r.owner_id == owner_id,
            r.storage_deposits@ == Map::<Seq<char>, u128>::empty(),
            r.by_owner_id@ == Map::<Seq<char>, StringSet>::empty(),
            r.ft_token_ids@.contains("near"@),
            match ft_token_ids {
                Option::Some(v) => forall|x: Seq<char>|
                    r.ft_token_ids@.contains(x) <==> (x == "near"@ || (exists|j: int|
                        0 <= j < v@.len() && (#[trigger] v@[j])@ == x)),
                Option::None => r.ft_token_ids@ == Set::<Seq<char>>::empty().insert("near"@),
            },
            r.bid_history_length == (match bid_history_length {
                Option::Some(b) => b,
                Option::None => BID_HISTORY_LENGTH_DEFAULT,
            }),
    {
        let mut this = Contract {
            owner_id,
            by_owner_id: StringMap::new(),
            ft_token_ids: StringSet::new(),
            storage_deposits: StringMap::new(),
            bid_history_length: match bid_history_length {
                Option::Some(b) => b,
                Option::None => BID_HISTORY_LENGTH_DEFAULT,
            },
        };
        this.ft_token_ids.insert("near".to_owned());
        if let Option::Some(ids) = ft_token_ids {
            let ghost init0 = this;
            let ghost base = this.ft_token_ids@;
            let n = ids.len();
            let mut i: usize = 0;
            while i < n
                invariant
                    i <= n,
                    n == ids@.len(),
                    this.ft_token_ids.wf(),
                    this == (Contract { ft_token_ids: this.ft_token_ids, ..init0 }),
                    this.by_owner_id@ == Map::<Seq<char>, StringSet>::empty(),
                    this.storage_deposits@ == Map::<Seq<char>, u128>::empty(),
                    this.by_owner_id.wf(),
                    this.storage_deposits.wf(),
                    base == Set::<Seq<char>>::empty().insert("near"@),
                    forall|x: Seq<char>|
                        #![trigger this.ft_token_ids@.contains(x)]
                        this.ft_token_ids@.contains(x) <==> (base.contains(x) || (exists|j: int|
                            0 <= j < i && (#[trigger] ids@[j])@ == x)),
                decreases n - i,
            {
                let ghost pre = this.ft_token_ids@;
                this.ft_token_ids.insert(ids[i].clone());
                proof {
                    assert forall|x: Seq<char>|
                        this.ft_token_ids@.contains(x) <==> (base.contains(x) || (exists|j: int|
                            0 <= j < i + 1 && (#[trigger] ids@[j])@ == x)) by {
                        if x == ids@[i as int]@ {
                            assert(0 <= i < i + 1 && ids@[i as int]@ == x);
                        } else {
                            assert(this.ft_token_ids@.contains(x) == pre.contains(x));
                            if exists|j: int| 0 <= j < i + 1 && (#[trigger] ids@[j])@ == x {
                                let j = choose|j: int|
                                    0 <= j < i + 1 && (#[trigger] ids@[j])@ == x;
                                assert(j < i);
                                assert(exists|l: int| 0 <= l < i && (#[trigger] ids@[l])@ == x);
                            }
                            if exists|j: int| 0 <= j < i && (#[trigger] ids@[j])@ == x {
                                let j = choose|j: int| 0 <= j < i && (#[trigger] ids@[j])@ == x;
                                assert(0 <= j < i + 1 && ids@[j]@ == x);
                            }
                        }
                    }
                }
                i = i + 1;
            }
        }
        this
    }

    /// Accepts further payment tokens; only the market owner may call.
    /// Reports, per listed token, whether it was newly accepted.
    pub fn add_ft_token_ids(&mut self, ctx: &RequestContext, ft_token_ids: Vec<AccountId>) -> (r:
        Result<Vec<bool>, Error>)
        requires
            old(self).wf(),
        ensures
            final(self).wf(),
            match r {
                Result::Ok(added) => {
                    &&& ctx.predecessor_id@ == old(self).owner_id@
                    &&& added@.len() == ft_token_ids@.len()
                    &&& forall|x: Seq<char>|
                        #![trigger final(self).ft_token_ids@.contains(x)]
                        final(self).ft_token_ids@.contains(x) <==> (old(
                            self,
                        ).ft_token_ids@.contains(x) || (exists|j: int|
                            0 <= j < ft_token_ids@.len() && (#[trigger] ft_token_ids@[j])@ == x))
                    &&& *final(self) == (Contract {
                        ft_token_ids: final(self).ft_token_ids,
                        ..*old(self)
                    })
                },
                Result::Err(e) => {
                    &&& *final(self) == *old(self)
                    &&& e == Error::Unauthorized
                    &&& ctx.predecessor_id@ != old(self).owner_id@
                },
            },
    {
        if !(ctx.predecessor_id == self.owner_id) {
            return Result::Err(Error::Unauthorized);
        }
        let ghost init = *self;
        let mut added: Vec<bool> = Vec::new();
        let n = ft_token_ids.len();
        let mut i: usize = 0;
        while i < n
            invariant
                i <= n,
                n == ft_token_ids@.len(),
                added@.len() == i,
                self.ft_token_ids.wf(),
                *self == (Contract { ft_token_ids: self.ft_token_ids, ..init }),
                init.wf(),
                forall|x: Seq<char>|
                    #![trigger self.ft_token_ids@.contains(x)]
                    #![trigger init.ft_token_ids@.contains(x)]
                    self.ft_token_ids@.contains(x) <==> (init.ft_token_ids@.contains(x) || (
                    exists|j: int| 0 <= j < i && (#[trigger] ft_token_ids@[j])@ == x)),
            decreases n - i,
        {
            let ghost pre = self.ft_token_ids@;
            let is_new = self.ft_token_ids.insert(ft_token_ids[i].clone());
            added.push(is_new);
            proof {
                assert forall|x: Seq<char>|
                    self.ft_token_ids@.contains(x) <==> (init.ft_token_ids@.contains(x) || (
                    exists|j: int| 0 <= j < i + 1 && (#[trigger] ft_token_ids@[j])@ == x)) by {
                    assert(init.ft_token_ids@.contains(x) || !init.ft_token_ids@.contains(x));
                    if x == ft_token_ids@[i as int]@ {
                        assert(0 <= i < i + 1 && ft_token_ids@[i as int]@ == x);
                    } else {
                        assert(self.ft_token_ids@.contains(x) == pre.contains(x));
                        if exists|j: int| 0 <= j < i + 1 && (#[trigger] ft_token_ids@[j])@ == x {
                            let j = choose|j: int|
                                0 <= j < i + 1 && (#[trigger] ft_token_ids@[j])@ == x;
                            assert(j < i);
                            assert(exists|l: int| 0 <= l < i && (#[trigger] ft_token_ids@[l])@ == x);
                        }
                        if exists|j: int| 0 <= j < i && (#[trigger] ft_token_ids@[j])@ == x {
                            let j = choose|j: int|
                                0 <= j < i && (#[trigger] ft_token_ids@[j])@ == x;
                            assert(0 <= j < i + 1 && ft_token_ids@[j]@ == x);
                        }
                    }
                }
            }
            i = i + 1;
        }
        Result::Ok(added)
    }

    /// Credits the attached deposit to an account's storage balance; a
    /// deposit under one listing's cost is refused.
    pub fn storage_deposit(&mut self, ctx: &RequestContext, account_id: Option<AccountId>) -> (r:
        Result<(), Error>)
        requires
            old(self).wf(),
            old(self).deposit_of(
                match account_id {
                    Option::Some(a) => a@,
                    Option::None => ctx.predecessor_id@,
                },
            ) + ctx.attached_deposit <= u128::MAX,
        ensures
            final(self).wf(),
            match r {
                Result::Ok(()) => {
                    let target = (match account_id {
                        Option::Some(a) => a@,
                        Option::None => ctx.predecessor_id@,
                    });
                    &&& ctx.attached_deposit >= STORAGE_PER_SALE
                    &&& final(self).deposit_of(target) == old(self).deposit_of(target)
                        + ctx.attached_deposit
                    &&& final(self).storage_deposits@ == old(self).storage_deposits@.insert(
                        target,
                        (old(self).deposit_of(target) + ctx.attached_deposit) as u128,
                    )
                    &&& *final(self) == (Contract {
                        storage_deposits: final(self).storage_deposits,
                        ..*old(self)
                    })
                },
                Result::Err(e) => {
                    &&& *final(self) == *old(self)
                    &&& e == Error::InsufficientDeposit
                    &&& ctx.attached_deposit < STORAGE_PER_SALE
                },
            },
    {
        if ctx.attached_deposit < STORAGE_PER_SALE {
            return Result::Err(Error::InsufficientDeposit);
        }
        let storage_account_id: AccountId = match account_id {
            Option::Some(a) => a,
            Option::None => ctx.predecessor_id.clone(),
        };
        let balance: u128 = match self.storage_deposits.get(&storage_account_id) {
            Option::Some(b) => *b,
            Option::None => 0,
        };
        let new_balance = balance + ctx.attached_deposit;
        self.storage_deposits.insert(storage_account_id, new_balance);
        Result::Ok(())
    }

    /// Withdraws the caller's storage balance beyond what its active
    /// listings lock, dropping the ledger entry; requires exactly one
    /// attached balance unit. Returns the amount paid back.
    pub fn storage_withdraw(&mut self, ctx: &RequestContext) -> (r: Result<u128, Error>)
        requires
            old(self).wf(),
            old(self).solvent_for(ctx.predecessor_id@),
        ensures
            final(self).wf(),
            match r {
                Result::Ok(amount) => {
                    &&& ctx.attached_deposit == 1
                    &&& amount == old(self).deposit_of(ctx.predecessor_id@) - old(self).sales_of(
                        ctx.predecessor_id@,
                    ).len() * STORAGE_PER_SALE
                    &&& final(self).storage_deposits@ == old(self).storage_deposits@.remove(
                        ctx.predecessor_id@,
                    )
                    &&& *final(self) == (Contract {
                        storage_deposits: final(self).storage_deposits,
                        ..*old(self)
                    })
                },
                Result::Err(e) => {
                    &&& *final(self) == *old(self)
                    &&& e == Error::InsufficientDeposit
                    &&& ctx.attached_deposit != 1
                },
            },
    {
        if ctx.attached_deposit != 1 {
            return Result::Err(Error::InsufficientDeposit);
        }
        let amount: u128 = match self.storage_deposits.remove(&ctx.predecessor_id) {
            Option::Some(b) => b,
            Option::None => 0,
        };
        let len: u128 = match self.by_owner_id.get(&ctx.predecessor_id) {
            Option::Some(sales) => {
                proof {
                    assert(old(self).by_owner_id@[ctx.predecessor_id@].wf());
                }
                sales.len() as u128
            },
            Option::None => 0,
        };
        proof {
            assert(len * STORAGE_PER_SALE <= amount);
        }
        Result::Ok(amount - len * STORAGE_PER_SALE)
    }

    /// The accepted payment tokens.
    pub fn supported_ft_token_ids(&self) -> (r: Vec<String>)
        ensures
            r@.map_values(|s: String| s@) == self.ft_token_ids.spec_items(),
    {
        self.ft_token_ids.to_vec()
    }

    /// Deposit required per listing.
    pub fn storage_amount(&self) -> (r: u128)
        ensures
            r == STORAGE_PER_SALE,
    {
        STORAGE_PER_SALE
    }

    /// The storage balance the ledger records for an account.
    pub fn storage_paid(&self, account_id: &String) -> (r: u128)
        requires
            self.wf(),
        ensures
            r == self.deposit_of(account_id@),
    {
        match self.storage_deposits.get(account_id) {
            Option::Some(b) => *b,
            Option::None => 0,
        }
    }
}

} // verus!
