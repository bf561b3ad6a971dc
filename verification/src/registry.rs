//! The registry state: the ownership ledger, the per-owner index, the
//! royalty configuration, and the record of transfers awaiting their
//! reconciliation callback.

use vstd::prelude::*;
use vstd::string::StrSliceExecFns;

use crate::contract_source::VersionedContractSourceMetadata;
use crate::str_map::{StringMap, StringSet};
use crate::token::{approvals_refund, NFTMetadata, Token, TokenMetadata};
use crate::{valid_account_id, AccountId, Error, RequestContext, TokenId, STORAGE_PRICE_PER_BYTE};

verus! {

/// The durable record of an optimistic transfer awaiting reconciliation:
/// who owned the token, who received it, and which approvals were cleared.
pub struct PendingTransfer {
    pub previous_owner_id: AccountId,
    pub receiver_id: AccountId,
    pub approved_account_ids: StringMap<u64>,
    pub next_approval_id: u64,
}

impl PendingTransfer {
    pub open spec fn wf(self) -> bool {
        &&& self.approved_account_ids.wf()
        &&& valid_account_id(self.previous_owner_id@)
        &&& valid_account_id(self.receiver_id@)
        &&& self.previous_owner_id@ != self.receiver_id@
        &&& forall|a: Seq<char>|
            #[trigger] self.approved_account_ids@.contains_key(a) ==> valid_account_id(a)
        &&& forall|a: Seq<char>|
            self.approved_account_ids@.contains_key(a)
                ==> #[trigger] self.approved_account_ids@[a] < self.next_approval_id
    }
}

/// What a committed transfer did to the ledger: the receiver owns the
/// token, the approval set is cleared, the approval counter and the rest
/// of the record are kept, and no other token is touched.
pub open spec fn spec_transferred(pre: Contract, post: Contract, t: Seq<char>, receiver: Seq<char>) -> bool {
    &&& pre.tokens_by_id@.contains_key(t)
    &&& post.tokens_by_id@.contains_key(t)
    &&& post.tokens_by_id@ == pre.tokens_by_id@.insert(t, post.tokens_by_id@[t])
    &&& post.tokens_by_id@[t].owner_id@ == receiver
    &&& post.tokens_by_id@[t].approved_account_ids@ == Map::<Seq<char>, u64>::empty()
    &&& post.tokens_by_id@[t].approved_account_ids.spec_entries() == Seq::<(Seq<char>, u64)>::empty()
    &&& post.tokens_by_id@[t].next_approval_id == pre.tokens_by_id@[t].next_approval_id
    &&& post.tokens_by_id@[t].royalty@ == pre.tokens_by_id@[t].royalty@
    &&& post.tokens_by_id@[t].royalty.spec_entries() == pre.tokens_by_id@[t].royalty.spec_entries()
    &&& post.tokens_by_id@[t].token_type == pre.tokens_by_id@[t].token_type
}

/// The registry.
pub struct Contract {
    pub contract_source_metadata: Option<VersionedContractSourceMetadata>,
    pub tokens_per_owner: StringMap<StringSet>,
    pub tokens_by_id: StringMap<Token>,
    pub token_metadata_by_id: StringMap<TokenMetadata>,
    pub owner_id: AccountId,
    pub extra_storage_in_bytes_per_token: u64,
    pub metadata: Option<NFTMetadata>,
    pub supply_cap_by_type: StringMap<u64>,
    pub tokens_per_type: StringMap<StringSet>,
    pub token_types_locked: StringSet,
    pub contract_royalty_owner: u32,
    pub contract_royalty_satori: u32,
    pub pending_transfers: StringMap<PendingTransfer>,
}

impl Contract {
    /// The token ids the per-owner index lists for `a`.
    pub open spec fn owned_by(self, a: Seq<char>) -> Set<Seq<char>> {
        if self.tokens_per_owner@.contains_key(a) {
            self.tokens_per_owner@[a]@
        } else {
            Set::empty()
        }
    }

    /// The per-owner index lists exactly the tokens the ledger says each
    /// account owns: both structures are updated together or not at all.
    pub open spec fn index_consistent(self) -> bool {
        forall|a: Seq<char>, t: Seq<char>|
            #![trigger self.owned_by(a).contains(t)]
            #![trigger self.owned_by(a), self.tokens_by_id@.contains_key(t)]
            self.owned_by(a).contains(t) <==> (self.tokens_by_id@.contains_key(t)
                && self.tokens_by_id@[t].owner_id@ == a)
    }

    /// Registry well-formedness: all collections keep distinct keys,
    /// every token record is internally consistent, the index matches the
    /// ledger, and every pending record is consistent.
    pub open spec fn wf(self) -> bool {
        &&& self.tokens_by_id.wf()
        &&& self.tokens_per_owner.wf()
        &&& self.token_metadata_by_id.wf()
        &&& self.supply_cap_by_type.wf()
        &&& self.tokens_per_type.wf()
        &&& self.token_types_locked.wf()
        &&& self.pending_transfers.wf()
        &&& valid_account_id(self.owner_id@)
        &&& forall|t: Seq<char>|
            self.tokens_by_id@.contains_key(t) ==> (#[trigger] self.tokens_by_id@[t]).wf()
        &&& forall|a: Seq<char>|
            self.tokens_per_owner@.contains_key(a) ==> (#[trigger] self.tokens_per_owner@[a]).wf()
        &&& self.index_consistent()
        &&& forall|t: Seq<char>|
            self.pending_transfers@.contains_key(t) ==> (
            #[trigger] self.pending_transfers@[t]).wf()
        &&& self.contract_royalty_owner <= crate::CONTRACT_ROYALTY_CAP
        &&& self.contract_royalty_satori <= crate::CONTRACT_ROYALTY_CAP_SATORI
    }

    /// The deposit released by clearing this token's approval set can be
    /// paid out without overflowing the balance type.
    pub open spec fn refund_fits(self, t: Seq<char>) -> bool {
        self.tokens_by_id@.contains_key(t) ==> approvals_refund(
            self.tokens_by_id@[t].approved_account_ids.spec_entries(),
        ) <= u128::MAX
    }

    /// As [`Self::refund_fits`], for the approval set captured in a
    /// pending transfer record.
    pub open spec fn pending_refund_fits(self, t: Seq<char>) -> bool {
        self.pending_transfers@.contains_key(t) ==> approvals_refund(
            self.pending_transfers@[t].approved_account_ids.spec_entries(),
        ) <= u128::MAX
    }

    /// Drops `token_id` from `account_id`'s slice of the index, removing
    /// an emptied slice altogether.
    pub(crate) fn internal_remove_token_from_owner(&mut self, account_id: &String, token_id: &String)
        requires
            old(self).tokens_per_owner.wf(),
            forall|a: Seq<char>|
                old(self).tokens_per_owner@.contains_key(a) ==> (
                #[trigger] old(self).tokens_per_owner@[a]).wf(),
        ensures
            final(self).tokens_per_owner.wf(),
            forall|a: Seq<char>|
                final(self).tokens_per_owner@.contains_key(a) ==> (
                #[trigger] final(self).tokens_per_owner@[a]).wf(),
            forall|a: Seq<char>|
                #[trigger] final(self).owned_by(a) == if a == account_id@ {
                    old(self).owned_by(a).remove(token_id@)
                } else {
                    old(self).owned_by(a)
                },
            *final(self) == (Contract {
                tokens_per_owner: final(self).tokens_per_owner,
                ..*old(self)
            }),
    {
        let slot = self.tokens_per_owner.remove(account_id);
        match slot {
            Option::Some(mut set) => {
                set.remove(token_id);
                if set.is_empty() {
                    proof {
                        assert forall|a: Seq<char>|
                            #[trigger] self.owned_by(a) == (if a == account_id@ {
                                old(self).owned_by(a).remove(token_id@)
                            } else {
                                old(self).owned_by(a)
                            }) by {
                            if a == account_id@ {
                                assert(self.owned_by(a) =~= old(self).owned_by(a).remove(
                                    token_id@,
                                ));
                            } else {
                                assert(self.owned_by(a) =~= old(self).owned_by(a));
                            }
                        }
                    }
                } else {
                    let ghost mid = *self;
                    self.tokens_per_owner.insert(account_id.clone(), set);
                    proof {
                        assert forall|a: Seq<char>|
                            #[trigger] self.owned_by(a) == (if a == account_id@ {
                                old(self).owned_by(a).remove(token_id@)
                            } else {
                                old(self).owned_by(a)
                            }) by {
                            if a == account_id@ {
                                assert(self.owned_by(a) =~= old(self).owned_by(a).remove(
                                    token_id@,
                                ));
                            } else {
                                assert(self.owned_by(a) =~= old(self).owned_by(a));
                            }
                        }
                    }
                }
            },
            Option::None => {
                proof {
                    assert forall|a: Seq<char>|
                        #[trigger] self.owned_by(a) == (if a == account_id@ {
                            old(self).owned_by(a).remove(token_id@)
                        } else {
                            old(self).owned_by(a)
                        }) by {
                        if a == account_id@ {
                            assert(self.owned_by(a) =~= old(self).owned_by(a).remove(token_id@));
                        } else {
                            assert(self.owned_by(a) =~= old(self).owned_by(a));
                        }
                    }
                }
            },
        }
    }

    /// Adds `token_id` to `account_id`'s slice of the index.
    pub(crate) fn internal_add_token_to_owner(&mut self, account_id: &String, token_id: &String)
        requires
            old(self).tokens_per_owner.wf(),
            forall|a: Seq<char>|
                old(self).tokens_per_owner@.contains_key(a) ==> (
                #[trigger] old(self).tokens_per_owner@[a]).wf(),
        ensures
            final(self).tokens_per_owner.wf(),
            forall|a: Seq<char>|
                final(self).tokens_per_owner@.contains_key(a) ==> (
                #[trigger] final(self).tokens_per_owner@[a]).wf(),
            forall|a: Seq<char>|
                #[trigger] final(self).owned_by(a) == if a == account_id@ {
                    old(self).owned_by(a).insert(token_id@)
                } else {
                    old(self).owned_by(a)
                },
            *final(self) == (Contract {
                tokens_per_owner: final(self).tokens_per_owner,
                ..*old(self)
            }),
    {
        let slot = self.tokens_per_owner.remove(account_id);
        let mut set = match slot {
            Option::Some(s) => s,
            Option::None => StringSet::new(),
        };
        set.insert(token_id.clone());
        self.tokens_per_owner.insert(account_id.clone(), set);
        proof {
            assert forall|a: Seq<char>|
                #[trigger] self.owned_by(a) == (if a == account_id@ {
                    old(self).owned_by(a).insert(token_id@)
                } else {
                    old(self).owned_by(a)
                }) by {
                if a == account_id@ {
                    assert(self.owned_by(a) =~= old(self).owned_by(a).insert(token_id@));
                } else {
                    assert(self.owned_by(a) =~= old(self).owned_by(a));
                }
            }
        }
    }

    /// Authorizes and performs the synchronous part of a transfer:
    /// reassigns ownership to the receiver, clears the approval set, keeps
    /// the approval counter, and returns the previous record. On any
    /// refusal the registry is unchanged.
    pub fn internal_transfer(
        &mut self,
        sender_id: &String,
        receiver_id: &String,
        token_id: &String,
        approval_id: Option<u64>,
    ) -> (r: Result<Token, Error>)
        requires
            old(self).wf(),
            valid_account_id(receiver_id@),
        ensures
            final(self).wf(),
            match r {
                Result::Ok(prev) => {
                    &&& old(self).tokens_by_id@.contains_key(token_id@)
                    &&& prev == old(self).tokens_by_id@[token_id@]
                    &&& prev.transfer_authorized(sender_id@, approval_id)
                    &&& receiver_id@ != prev.owner_id@
                    &&& final(self).tokens_by_id@.contains_key(token_id@)
                    &&& final(self).tokens_by_id@ == old(self).tokens_by_id@.insert(
                        token_id@,
                        final(self).tokens_by_id@[token_id@],
                    )
                    &&& final(self).tokens_by_id@[token_id@].owner_id@ == receiver_id@
                    &&& final(self).tokens_by_id@[token_id@].approved_account_ids@ == Map::<
                        Seq<char>,
                        u64,
                    >::empty()
                    &&& final(self).tokens_by_id@[token_id@].next_approval_id
                        == prev.next_approval_id
                    &&& final(self).tokens_by_id@[token_id@].royalty@ == prev.royalty@
                    &&& final(self).tokens_by_id@[token_id@].royalty.spec_entries()
                        == prev.royalty.spec_entries()
                    &&& final(self).tokens_by_id@[token_id@].token_type == prev.token_type
                    &&& spec_transferred(*old(self), *final(self), token_id@, receiver_id@)
                    &&& *final(self) == (Contract {
                        tokens_by_id: final(self).tokens_by_id,
                        tokens_per_owner: final(self).tokens_per_owner,
                        ..*old(self)
                    })
                },
                Result::Err(e) => {
                    &&& *final(self) == *old(self)
                    &&& (e == Error::NotFound || e == Error::Unauthorized)
                    &&& ((e == Error::NotFound) <==> !old(self).tokens_by_id@.contains_key(
                        token_id@,
                    ))
                    &&& ((e == Error::Unauthorized) <==> (old(self).tokens_by_id@.contains_key(
                        token_id@,
                    ) && !(old(self).tokens_by_id@[token_id@].transfer_authorized(
                        sender_id@,
                        approval_id,
                    ) && receiver_id@ != old(self).tokens_by_id@[token_id@].owner_id@)))
                },
            },
    {
        match self.tokens_by_id.get(token_id) {
            Option::None => {
                return Result::Err(Error::NotFound);
            },
            Option::Some(token) => {
                if *sender_id != token.owner_id {
                    match token.approved_account_ids.get(sender_id) {
                        Option::None => {
                            return Result::Err(Error::Unauthorized);
                        },
                        Option::Some(stored) => {
                            if let Option::Some(enforced) = approval_id {
                                if *stored != enforced {
                                    return Result::Err(Error::Unauthorized);
                                }
                            }
                        },
                    }
                }
                if *receiver_id == token.owner_id {
                    return Result::Err(Error::Unauthorized);
                }
            },
        }
        let ghost s0 = *old(self);
        let prev = self.tokens_by_id.remove(token_id).unwrap();
        let ghost s1 = *self;
        let prev_owner = prev.owner_id.clone();
        self.internal_remove_token_from_owner(&prev_owner, token_id);
        let ghost s2 = *self;
        self.internal_add_token_to_owner(receiver_id, token_id);
        let ghost s3 = *self;
        let new_token = Token {
            owner_id: receiver_id.clone(),
            royalty: prev.royalty.duplicate(),
            approved_account_ids: StringMap::new(),
            next_approval_id: prev.next_approval_id,
            token_type: match &prev.token_type {
                Option::Some(t) => Option::Some(t.clone()),
                Option::None => Option::None,
            },
        };
        self.tokens_by_id.insert(token_id.clone(), new_token);
        proof {
            assert(self.tokens_by_id@ =~= s0.tokens_by_id@.insert(
                token_id@,
                self.tokens_by_id@[token_id@],
            ));
            assert(prev_owner@ == s0.tokens_by_id@[token_id@].owner_id@);
            assert(receiver_id@ != prev_owner@);
            assert forall|a: Seq<char>, t: Seq<char>|
                self.owned_by(a).contains(t) <==> (self.tokens_by_id@.contains_key(t)
                    && self.tokens_by_id@[t].owner_id@ == a) by {
                assert(s0.owned_by(a).contains(t) <==> (s0.tokens_by_id@.contains_key(t)
                    && s0.tokens_by_id@[t].owner_id@ == a));
                assert(s1.owned_by(a) == s0.owned_by(a));
                assert(s2.owned_by(a) == (if a == prev_owner@ {
                    s1.owned_by(a).remove(token_id@)
                } else {
                    s1.owned_by(a)
                }));
                assert(s3.owned_by(a) == (if a == receiver_id@ {
                    s2.owned_by(a).insert(token_id@)
                } else {
                    s2.owned_by(a)
                }));
                assert(self.owned_by(a) == s3.owned_by(a));
                if t == token_id@ {
                    assert(self.tokens_by_id@[t].owner_id@ == receiver_id@);
                    assert(self.tokens_by_id@.contains_key(t));
                    if a == receiver_id@ {
                        assert(self.owned_by(a).contains(t));
                    } else if a == prev_owner@ {
                        assert(!self.owned_by(a).contains(t));
                    } else {
                        assert(!s0.owned_by(a).contains(t));
                        assert(!self.owned_by(a).contains(t));
                    }
                } else {
                    assert(self.owned_by(a).contains(t) == s0.owned_by(a).contains(t));
                    assert(self.tokens_by_id@.contains_key(t) == s0.tokens_by_id@.contains_key(t));
                    if self.tokens_by_id@.contains_key(t) {
                        assert(self.tokens_by_id@[t] == s0.tokens_by_id@[t]);
                    }
                }
            }
        }
        Result::Ok(prev)
    }
}


/// The default icon of the registry's collection-level metadata.
const DATA_IMAGE_SVG_NEAR_ICON: &'static str = "data:image/svg+xml,%3Csvg width='89' height='87' viewBox='0 0 89 87' fill='none' xmlns='http://www.w3.org/2000/svg'%3E%3Cpath d='M17.5427 48.1358C16.0363 48.1994 14.5323 47.9631 13.1165 47.4402C11.7006 46.9174 10.4007 46.1182 9.29096 45.0884C8.18118 44.0586 7.2833 42.8184 6.64855 41.4384C6.0138 40.0585 5.65465 38.5659 5.59156 37.0459C5.52847 35.5259 5.76267 34.0083 6.28084 32.5796C6.79901 31.151 7.59098 29.8393 8.61153 28.7194C9.63208 27.5996 10.8612 26.6936 12.2288 26.0531C13.5963 25.4126 15.0755 25.0502 16.5819 24.9865C24.9751 24.6329 35.6235 28.7963 45.0454 33.5128H45.1584C45.3247 33.5017 45.4826 33.4353 45.6073 33.3239C45.732 33.2125 45.8166 33.0624 45.8476 32.8973C45.8787 32.7322 45.8544 32.5613 45.7788 32.4115C45.7032 32.2618 45.5804 32.1416 45.4298 32.0699C34.3631 26.937 21.7648 22.4372 12.0376 23.1957C10.3305 23.3283 8.66598 23.7988 7.13906 24.5805C5.61215 25.3622 4.25275 26.4397 3.13852 27.7515C2.02429 29.0633 1.17706 30.5837 0.645141 32.2259C0.113223 33.8681 -0.0929378 35.5999 0.0384375 37.3225C0.169813 39.0451 0.636138 40.7247 1.41081 42.2655C2.18547 43.8062 3.25329 45.1779 4.55332 46.3022C5.85334 47.4265 7.36013 48.2815 8.98759 48.8182C10.6151 49.3549 12.3313 49.563 14.0385 49.4304C15.6964 49.2805 17.3083 48.7998 18.7805 48.016C18.3708 48.0818 17.9574 48.1218 17.5427 48.1358Z' fill='%23D5D4D8'/%3E%3Cpath d='M70.6208 62.6276C69.1906 61.7674 67.6059 61.2014 65.9579 60.9622C66.2954 61.1347 66.6237 61.3251 66.9414 61.5326C69.4762 63.2327 71.2378 65.8793 71.8388 68.8901C72.4398 71.9009 71.8309 75.0293 70.146 77.587C68.4612 80.1448 65.8383 81.9225 62.8545 82.5289C59.8708 83.1353 56.7704 82.5209 54.2356 80.8208C47.2384 76.1328 41.0438 66.4373 36.1491 57.0271C36.0056 56.9422 35.8383 56.9077 35.6734 56.9291C35.5084 56.9504 35.3551 57.0264 35.2374 57.1451C35.1198 57.2637 35.0446 57.4184 35.0234 57.5849C35.0022 57.7514 35.0364 57.9202 35.1205 58.065C41.0947 68.7699 48.6853 79.8968 56.9655 85.0525C58.4248 85.9573 60.0463 86.5631 61.7376 86.8355C63.4289 87.1079 65.1567 87.0415 66.8226 86.6401C68.4884 86.2386 70.0596 85.51 71.4464 84.4959C72.8332 83.4818 74.0084 82.2019 74.905 80.7295C75.8016 79.2571 76.4021 77.6208 76.672 75.9143C76.9419 74.2077 76.8761 72.4641 76.4783 70.7832C76.0805 69.1023 75.3584 67.5169 74.3534 66.1175C73.3484 64.7182 72.08 63.5323 70.6208 62.6276Z' fill='%23D5D4D8'/%3E%3Cpath d='M85.8925 28.0491C83.6519 25.3945 80.4581 23.7464 77.0135 23.4673C73.5688 23.1881 70.1553 24.3008 67.5235 26.5606C66.3246 27.6147 65.3366 28.8904 64.6127 30.319C64.8388 30.1023 65.0705 29.8913 65.3192 29.6917C66.498 28.7232 67.8557 28.0006 69.3135 27.5659C70.7713 27.1312 72.3001 26.9929 73.8113 27.1592C75.3224 27.3255 76.7859 27.7929 78.1165 28.5345C79.4472 29.276 80.6187 30.2769 81.5629 31.4789C82.5072 32.681 83.2054 34.0603 83.6171 35.5369C84.0289 37.0134 84.1459 38.5578 83.9613 40.0803C83.7768 41.6028 83.2944 43.0732 82.5421 44.4061C81.7899 45.739 80.7828 46.9079 79.5792 47.8449C73.0173 53.0861 62.058 56.029 51.6922 57.8084L51.6074 57.8825C51.4778 57.9889 51.3873 58.136 51.3504 58.3005C51.3135 58.4649 51.3324 58.637 51.404 58.7893C51.4762 58.9429 51.5971 59.0678 51.7476 59.1442C51.8981 59.2207 52.0695 59.2443 52.2348 59.2114C64.1662 56.7875 76.9906 52.9664 84.4174 46.5845C87.0482 44.3235 88.6815 41.1008 88.9581 37.625C89.2348 34.1492 88.1321 30.7048 85.8925 28.0491Z' fill='%23D5D4D8'/%3E%3Cpath d='M56.649 8.35602C56.0177 6.7294 55.0717 5.24598 53.866 3.99237C52.6603 2.73876 51.2192 1.7401 49.6268 1.05467C48.0344 0.369244 46.3227 0.0107821 44.5915 0.000239517C42.8603 -0.010303 41.1443 0.327284 39.5439 0.99327C37.9434 1.65926 36.4905 2.6403 35.2699 3.87914C34.0493 5.11797 33.0856 6.58976 32.4349 8.20857C31.7842 9.82738 31.4596 11.5608 31.4802 13.3075C31.5007 15.0543 31.8659 16.7795 32.5544 18.3822C33.1795 19.8541 34.0751 21.1932 35.194 22.3288C35.047 22.0266 34.9114 21.7186 34.7927 21.3992C34.2388 19.9674 33.9729 18.4387 34.0104 16.9022C34.048 15.3657 34.3881 13.8521 35.0112 12.4496C35.6342 11.047 36.5277 9.78363 37.6394 8.73301C38.7512 7.68238 40.0591 6.86554 41.4868 6.33006C42.9146 5.79458 44.4337 5.55116 45.9556 5.61402C47.4776 5.67688 48.9719 6.04475 50.3515 6.69618C51.7311 7.34761 52.9684 8.26957 53.9914 9.40836C55.0144 10.5472 55.8025 11.88 56.3099 13.3292C59.2207 21.2395 58.599 32.6858 57.0842 43.1569C57.0842 43.2139 57.1351 43.271 57.1577 43.3337C57.2187 43.4914 57.3302 43.624 57.4746 43.7103C57.6189 43.7966 57.7876 43.8318 57.954 43.8101C58.1204 43.7885 58.2748 43.7113 58.3927 43.5909C58.5106 43.4704 58.5852 43.3136 58.6046 43.1455C60.0063 30.9406 60.368 17.4526 56.649 8.35602Z' fill='%23D5D4D8'/%3E%3Cpath d='M37.6695 71.65C37.6148 72.0889 37.5298 72.5234 37.4152 72.9503C36.5737 75.8831 34.6186 78.362 31.9753 79.8479C29.3319 81.3338 26.2141 81.7065 23.2999 80.8849C20.3856 80.0633 17.9108 78.1139 16.4135 75.4606C14.9162 72.8074 14.5177 69.6649 15.3045 66.7168C17.5653 58.5327 24.8168 49.573 32.1984 41.9706C32.2366 41.8076 32.2203 41.6364 32.1519 41.4837C32.0835 41.331 31.967 41.2054 31.8205 41.1266C31.6739 41.0478 31.5057 41.0202 31.342 41.048C31.1782 41.0759 31.0282 41.1576 30.9154 41.2805C22.6748 50.3258 14.5245 61.0193 12.2298 70.5892C11.8279 72.2676 11.7575 74.0095 12.0227 75.7153C12.288 77.4212 12.8835 79.0576 13.7755 80.5312C14.6675 82.0048 15.8383 83.2867 17.2213 84.3036C18.6042 85.3206 20.1721 86.0528 21.8354 86.4584C23.4988 86.8639 25.225 86.9349 26.9155 86.6673C28.6061 86.3997 30.2278 85.7987 31.6882 84.8987C33.1485 83.9986 34.4189 82.8172 35.4268 81.4217C36.4346 80.0263 37.1602 78.4442 37.5621 76.7658C37.9426 75.0857 37.9792 73.3449 37.6695 71.65Z' fill='%23D5D4D8'/%3E%3C/svg%3E%0A";

/// Metadata-schema label of the registry.
pub const NFT_METADATA_SPEC: &'static str = "nft-1.0.0";

/// Storage overhead of one per-owner index slice beyond its key.
pub const TOKENS_PER_OWNER_ENTRY_OVERHEAD: u64 = 40;

/// The marginal storage footprint of one ownership-index entry, measured
/// for a maximally sized account key and padded by how much longer such
/// a key is than the registry owner's.
pub open spec fn spec_extra_storage_bytes(owner_len: int) -> int {
    64 + TOKENS_PER_OWNER_ENTRY_OVERHEAD + (64 - owner_len)
}

impl Contract {
    /// Calibrates the storage quote for future mints: the footprint of
    /// one ownership-index entry under a maximally sized synthetic
    /// account key.
    pub fn measure_min_token_storage_cost(&mut self)
        requires
            valid_account_id(old(self).owner_id@),
        ensures
            final(self).extra_storage_in_bytes_per_token == spec_extra_storage_bytes(
                old(self).owner_id@.len() as int,
            ),
            *final(self) == (Contract {
                extra_storage_in_bytes_per_token: final(self).extra_storage_in_bytes_per_token,
                ..*old(self)
            }),
    {
        let owner_len = self.owner_id.as_str().unicode_len() as u64;
        self.extra_storage_in_bytes_per_token = 64 + TOKENS_PER_OWNER_ENTRY_OVERHEAD + (64
            - owner_len);
    }

    /// Builds a fresh registry: no tokens, no pending transfers, zero
    /// registry-level royalty rates, and, unless `unlocked` is supplied,
    /// every listed token type locked.
    pub fn new(
        owner_id: AccountId,
        metadata: NFTMetadata,
        source_metadata: crate::contract_source::ContractSourceMetadata,
        supply_cap_by_type: StringMap<u64>,
        unlocked: Option<bool>,
    ) -> (r: Contract)
        requires
            valid_account_id(owner_id@),
            supply_cap_by_type.wf(),
        ensures
            r.wf(),
            r.owner_id == owner_id,
            r.contract_source_metadata == Option::Some(
                VersionedContractSourceMetadata::Current(source_metadata),
            ),
            r.tokens_by_id@ == Map::<Seq<char>, Token>::empty(),
            r.token_metadata_by_id@ == Map::<Seq<char>, TokenMetadata>::empty(),
            r.pending_transfers@ == Map::<Seq<char>, PendingTransfer>::empty(),
            r.metadata == Option::Some(metadata),
            r.supply_cap_by_type == supply_cap_by_type,
            r.contract_royalty_owner == 0,
            r.contract_royalty_satori == 0,
            unlocked is None ==> forall|x: Seq<char>|
                r.token_types_locked@.contains(x) <==> supply_cap_by_type@.contains_key(x),
            unlocked is Some ==> r.token_types_locked@ == Set::<Seq<char>>::empty(),
            r.extra_storage_in_bytes_per_token == spec_extra_storage_bytes(
                owner_id@.len() as int,
            ),
            forall|a: Seq<char>| r.owned_by(a) == Set::<Seq<char>>::empty(),
    {
        let mut this = Contract {
            contract_source_metadata: Option::Some(
                VersionedContractSourceMetadata::Current(source_metadata),
            ),
            tokens_per_owner: StringMap::new(),
            tokens_by_id: StringMap::new(),
            token_metadata_by_id: StringMap::new(),
            owner_id,
            extra_storage_in_bytes_per_token: 0,
            metadata: Option::Some(metadata),
            supply_cap_by_type,
            tokens_per_type: StringMap::new(),
            token_types_locked: StringSet::new(),
            contract_royalty_owner: 0,
            contract_royalty_satori: 0,
            pending_transfers: StringMap::new(),
        };
        if unlocked.is_none() {
            let ghost init = this;
            let ghost caps = this.supply_cap_by_type.spec_entries();
            let n = this.supply_cap_by_type.len();
            let mut i: usize = 0;
            while i < n
                invariant
                    i <= n,
                    n == caps.len(),
                    this == (Contract { token_types_locked: this.token_types_locked, ..init }),
                    this.supply_cap_by_type.wf(),
                    this.supply_cap_by_type.spec_entries() == caps,
                    this.token_types_locked.wf(),
                    forall|x: Seq<char>|
                        this.token_types_locked@.contains(x) <==> (exists|j: int|
                            0 <= j < i && caps[j].0 == x),
                decreases n - i,
            {
                let key = {
                    let entries = this.supply_cap_by_type.entries();
                    entries[i].0.clone()
                };
                this.token_types_locked.insert(key);
                proof {
                    assert forall|x: Seq<char>|
                        this.token_types_locked@.contains(x) <==> (exists|j: int|
                            0 <= j < i + 1 && caps[j].0 == x) by {
                        if this.token_types_locked@.contains(x) {
                            if x == caps[i as int].0 {
                                assert(0 <= i < i + 1 && caps[i as int].0 == x);
                            }
                        }
                        if exists|j: int| 0 <= j < i + 1 && caps[j].0 == x {
                            let j = choose|j: int| 0 <= j < i + 1 && caps[j].0 == x;
                        }
                    }
                }
                i = i + 1;
            }
            proof {
                assert forall|x: Seq<char>|
                    this.token_types_locked@.contains(x)
                        <==> this.supply_cap_by_type@.contains_key(x) by {
                    this.supply_cap_by_type.lemma_contains_entry(x);
                }
            }
        }
        this.measure_min_token_storage_cost();
        proof {
            assert forall|a: Seq<char>| this.owned_by(a) == Set::<Seq<char>>::empty() by {
                assert(this.owned_by(a) =~= Set::<Seq<char>>::empty());
            }
        }
        this
    }

    /// As [`Contract::new`], with this deployment's fixed collection
    /// metadata and source record, and all token types unlocked.
    pub fn new_default_meta(owner_id: AccountId, supply_cap_by_type: StringMap<u64>) -> (r:
        Contract)
        requires
            valid_account_id(owner_id@),
            supply_cap_by_type.wf(),
        ensures
            r.wf(),
            r.owner_id == owner_id,
            r.tokens_by_id@ == Map::<Seq<char>, Token>::empty(),
            r.supply_cap_by_type == supply_cap_by_type,
            r.token_types_locked@ == Set::<Seq<char>>::empty(),
            r.contract_royalty_owner == 0,
            r.contract_royalty_satori == 0,
            r.metadata is Some,
            r.metadata->0.spec@ == "nft-1.0.0"@,
            r.metadata->0.name@ == "Sonar by Satori"@,
            r.metadata->0.symbol@ == "SONAR"@,
            r.metadata->0.icon is Some,
            r.metadata->0.base_uri is None,
    {
        Contract::new(
            owner_id,
            NFTMetadata {
                spec: "nft-1.0.0".to_owned(),
                name: "Sonar by Satori".to_owned(),
                symbol: "SONAR".to_owned(),
                icon: Option::Some(DATA_IMAGE_SVG_NEAR_ICON.to_owned()),
                base_uri: Option::None,
                reference: Option::None,
                reference_hash: Option::None,
            },
            crate::contract_source::ContractSourceMetadata {
                version: Option::Some("1.0.0".to_owned()),
                commit_hash: Option::Some(
                    "b245d8f7fbe72c250cbabbd16544477f9958be2e".to_owned(),
                ),
                link: Option::Some("https://github.com/satori-hq/nft-series".to_owned()),
            },
            supply_cap_by_type,
            Option::Some(true),
        )
    }

    /// Registers a token minted to `owner_id` with its royalty map and
    /// metadata, and indexes it under its owner.
    pub fn add_token(
        &mut self,
        token_id: TokenId,
        owner_id: AccountId,
        royalty: StringMap<u32>,
        token_type: Option<String>,
        metadata: TokenMetadata,
    )
        requires
            old(self).wf(),
            valid_account_id(owner_id@),
            royalty.wf(),
            !old(self).tokens_by_id@.contains_key(token_id@),
        ensures
            final(self).wf(),
            final(self).tokens_by_id@.contains_key(token_id@),
            final(self).tokens_by_id@ == old(self).tokens_by_id@.insert(
                token_id@,
                final(self).tokens_by_id@[token_id@],
            ),
            final(self).tokens_by_id@[token_id@].owner_id@ == owner_id@,
            final(self).tokens_by_id@[token_id@].royalty@ == royalty@,
            final(self).tokens_by_id@[token_id@].royalty.spec_entries() == royalty.spec_entries(),
            final(self).tokens_by_id@[token_id@].approved_account_ids@ == Map::<
                Seq<char>,
                u64,
            >::empty(),
            final(self).tokens_by_id@[token_id@].approved_account_ids.spec_entries() == Seq::<
                (Seq<char>, u64),
            >::empty(),
            final(self).tokens_by_id@[token_id@].next_approval_id == 0,
            final(self).tokens_by_id@[token_id@].token_type == token_type,
            final(self).token_metadata_by_id@ == old(self).token_metadata_by_id@.insert(
                token_id@,
                final(self).token_metadata_by_id@[token_id@],
            ),
            *final(self) == (Contract {
                tokens_by_id: final(self).tokens_by_id,
                tokens_per_owner: final(self).tokens_per_owner,
                token_metadata_by_id: final(self).token_metadata_by_id,
                ..*old(self)
            }),
    {
        let ghost s0 = *old(self);
        self.internal_add_token_to_owner(&owner_id, &token_id);
        let ghost s1 = *self;
        let token = Token {
            owner_id,
            royalty,
            approved_account_ids: StringMap::new(),
            next_approval_id: 0,
            token_type,
        };
        self.tokens_by_id.insert(token_id.clone(), token);
        self.token_metadata_by_id.insert(token_id, metadata);
        proof {
            assert(self.tokens_by_id@ =~= s0.tokens_by_id@.insert(
                token_id@,
                self.tokens_by_id@[token_id@],
            ));
            assert(self.token_metadata_by_id@ =~= s0.token_metadata_by_id@.insert(
                token_id@,
                self.token_metadata_by_id@[token_id@],
            ));
            let ghost new_owner = self.tokens_by_id@[token_id@].owner_id@;
            assert forall|a: Seq<char>, t: Seq<char>|
                self.owned_by(a).contains(t) <==> (self.tokens_by_id@.contains_key(t)
                    && self.tokens_by_id@[t].owner_id@ == a) by {
                assert(s0.owned_by(a).contains(t) <==> (s0.tokens_by_id@.contains_key(t)
                    && s0.tokens_by_id@[t].owner_id@ == a));
                assert(s1.owned_by(a) == (if a == new_owner {
                    s0.owned_by(a).insert(token_id@)
                } else {
                    s0.owned_by(a)
                }));
                assert(self.owned_by(a) == s1.owned_by(a));
                if t == token_id@ {
                    assert(self.tokens_by_id@[t].owner_id@ == new_owner);
                } else {
                    assert(self.tokens_by_id@.contains_key(t) == s0.tokens_by_id@.contains_key(t));
                    if self.tokens_by_id@.contains_key(t) {
                        assert(self.tokens_by_id@[t] == s0.tokens_by_id@[t]);
                    }
                }
            }
        }
    }
}


impl Contract {
    /// Sets the registry-owner royalty rate; only the registry owner may
    /// call, and the rate is capped.
    pub fn set_contract_royalty_owner(&mut self, ctx: &RequestContext, contract_royalty_owner: u32) -> (r: Result<(), Error>)
        requires
            old(self).wf(),
        ensures
            final(self).wf(),
            match r {
                Result::Ok(()) => {
                    &&& ctx.predecessor_id@ == old(self).owner_id@
                    &&& contract_royalty_owner <= crate::CONTRACT_ROYALTY_CAP
                    &&& final(self).contract_royalty_owner == contract_royalty_owner
                    &&& *final(self) == (Contract {
                        contract_royalty_owner,
                        ..*old(self)
                    })
                },
                Result::Err(e) => {
                    &&& *final(self) == *old(self)
                    &&& (e == Error::Unauthorized || e == Error::RoyaltyCapExceeded)
                    &&& ((e == Error::Unauthorized) <==> ctx.predecessor_id@ != old(self).owner_id@)
                    &&& ((e == Error::RoyaltyCapExceeded) <==> (ctx.predecessor_id@ == old(
                        self,
                    ).owner_id@ && contract_royalty_owner > crate::CONTRACT_ROYALTY_CAP))
                },
            },
    {
        if !(ctx.predecessor_id == self.owner_id) {
            return Result::Err(Error::Unauthorized);
        }
        if contract_royalty_owner > crate::CONTRACT_ROYALTY_CAP {
            return Result::Err(Error::RoyaltyCapExceeded);
        }
        self.contract_royalty_owner = contract_royalty_owner;
        proof {
            assert forall|a: Seq<char>, t: Seq<char>|
                self.owned_by(a).contains(t) <==> (self.tokens_by_id@.contains_key(t)
                    && self.tokens_by_id@[t].owner_id@ == a) by {
                assert(old(self).owned_by(a).contains(t) <==> (
                old(self).tokens_by_id@.contains_key(t) && old(self).tokens_by_id@[t].owner_id@
                    == a));
                assert(self.owned_by(a) == old(self).owned_by(a));
            }
        }
        Result::Ok(())
    }

    /// Sets the platform royalty rate; only the registry owner may call,
    /// and the rate is capped.
    pub fn set_contract_royalty_satori(&mut self, ctx: &RequestContext, contract_royalty_satori: u32) -> (r: Result<(), Error>)
        requires
            old(self).wf(),
        ensures
            final(self).wf(),
            match r {
                Result::Ok(()) => {
                    &&& ctx.predecessor_id@ == old(self).owner_id@
                    &&& contract_royalty_satori <= crate::CONTRACT_ROYALTY_CAP_SATORI
                    &&& final(self).contract_royalty_satori == contract_royalty_satori
                    &&& *final(self) == (Contract {
                        contract_royalty_satori,
                        ..*old(self)
                    })
                },
                Result::Err(e) => {
                    &&& *final(self) == *old(self)
                    &&& (e == Error::Unauthorized || e == Error::RoyaltyCapExceeded)
                    &&& ((e == Error::Unauthorized) <==> ctx.predecessor_id@ != old(self).owner_id@)
                    &&& ((e == Error::RoyaltyCapExceeded) <==> (ctx.predecessor_id@ == old(
                        self,
                    ).owner_id@ && contract_royalty_satori > crate::CONTRACT_ROYALTY_CAP_SATORI))
                },
            },
    {
        if !(ctx.predecessor_id == self.owner_id) {
            return Result::Err(Error::Unauthorized);
        }
        if contract_royalty_satori > crate::CONTRACT_ROYALTY_CAP_SATORI {
            return Result::Err(Error::RoyaltyCapExceeded);
        }
        self.contract_royalty_satori = contract_royalty_satori;
        proof {
            assert forall|a: Seq<char>, t: Seq<char>|
                self.owned_by(a).contains(t) <==> (self.tokens_by_id@.contains_key(t)
                    && self.tokens_by_id@[t].owner_id@ == a) by {
                assert(old(self).owned_by(a).contains(t) <==> (
                old(self).tokens_by_id@.contains_key(t) && old(self).tokens_by_id@[t].owner_id@
                    == a));
                assert(self.owned_by(a) == old(self).owned_by(a));
            }
        }
        Result::Ok(())
    }

    /// Replaces a token's royalty map; only the registry owner may call.
    pub fn set_token_royalty(&mut self, ctx: &RequestContext, token_id: TokenId, royalty: StringMap<u32>) -> (r: Result<(), Error>)
        requires
            old(self).wf(),
            royalty.wf(),
        ensures
            final(self).wf(),
            match r {
                Result::Ok(()) => {
                    let t0 = old(self).tokens_by_id@[token_id@];
                    &&& ctx.predecessor_id@ == old(self).owner_id@
                    &&& old(self).tokens_by_id@.contains_key(token_id@)
                    &&& final(self).tokens_by_id@.contains_key(token_id@)
                    &&& final(self).tokens_by_id@ == old(self).tokens_by_id@.insert(
                        token_id@,
                        final(self).tokens_by_id@[token_id@],
                    )
                    &&& final(self).tokens_by_id@[token_id@].royalty@ == royalty@
                    &&& final(self).tokens_by_id@[token_id@].royalty.spec_entries()
                        == royalty.spec_entries()
                    &&& final(self).tokens_by_id@[token_id@].owner_id@ == t0.owner_id@
                    &&& final(self).tokens_by_id@[token_id@].approved_account_ids@
                        == t0.approved_account_ids@
                    &&& final(self).tokens_by_id@[token_id@].next_approval_id
                        == t0.next_approval_id
                    &&& final(self).tokens_by_id@[token_id@].token_type == t0.token_type
                    &&& *final(self) == (Contract {
                        tokens_by_id: final(self).tokens_by_id,
                        ..*old(self)
                    })
                },
                Result::Err(e) => {
                    &&& *final(self) == *old(self)
                    &&& (e == Error::Unauthorized || e == Error::NotFound)
                    &&& ((e == Error::Unauthorized) <==> ctx.predecessor_id@ != old(self).owner_id@)
                    &&& ((e == Error::NotFound) <==> (ctx.predecessor_id@ == old(self).owner_id@
                        && !old(self).tokens_by_id@.contains_key(token_id@)))
                },
            },
    {
        if !(ctx.predecessor_id == self.owner_id) {
            return Result::Err(Error::Unauthorized);
        }
        let mut token = match self.tokens_by_id.remove(&token_id) {
            Option::Some(token) => token,
            Option::None => {
                return Result::Err(Error::NotFound);
            },
        };
        let ghost t0 = old(self).tokens_by_id@[token_id@];
        token.royalty = royalty;
        self.tokens_by_id.insert(token_id.clone(), token);
        proof {
            assert(self.tokens_by_id@ =~= old(self).tokens_by_id@.insert(
                token_id@,
                self.tokens_by_id@[token_id@],
            ));
            assert forall|a: Seq<char>, t: Seq<char>|
                self.owned_by(a).contains(t) <==> (self.tokens_by_id@.contains_key(t)
                    && self.tokens_by_id@[t].owner_id@ == a) by {
                assert(old(self).owned_by(a).contains(t) <==> (
                old(self).tokens_by_id@.contains_key(t) && old(self).tokens_by_id@[t].owner_id@
                    == a));
                assert(self.owned_by(a) == old(self).owned_by(a));
                if t == token_id@ {
                    assert(self.tokens_by_id@[t].owner_id@ == t0.owner_id@);
                } else {
                    assert(self.tokens_by_id@.contains_key(t) == old(
                        self,
                    ).tokens_by_id@.contains_key(t));
                    if self.tokens_by_id@.contains_key(t) {
                        assert(self.tokens_by_id@[t] == old(self).tokens_by_id@[t]);
                    }
                }
            }
        }
        Result::Ok(())
    }

    /// The combined registry-level royalty rate.
    pub fn get_contract_royalty(&self) -> (r: u32)
        requires
            self.wf(),
        ensures
            r == self.contract_royalty_owner + self.contract_royalty_satori,
    {
        self.contract_royalty_owner + self.contract_royalty_satori
    }

    /// A copy of the per-type supply caps.
    pub fn get_supply_caps(&self) -> (r: StringMap<u64>)
        requires
            self.wf(),
        ensures
            r@ == self.supply_cap_by_type@,
    {
        self.supply_cap_by_type.duplicate()
    }

    /// The locked token types.
    pub fn get_token_types_locked(&self) -> (r: Vec<String>)
        requires
            self.wf(),
        ensures
            r@.map_values(|s: String| s@) == self.token_types_locked.spec_items(),
    {
        self.token_types_locked.to_vec()
    }

    /// Whether the named token's type is locked.
    pub fn is_token_locked(&self, token_id: &String) -> (r: Result<bool, Error>)
        requires
            self.wf(),
            self.tokens_by_id@.contains_key(token_id@) ==> self.tokens_by_id@[token_id@].token_type
                is Some,
        ensures
            match r {
                Result::Ok(b) => {
                    &&& self.tokens_by_id@.contains_key(token_id@)
                    &&& b == self.token_types_locked@.contains(
                        self.tokens_by_id@[token_id@].token_type->0@,
                    )
                },
                Result::Err(e) => {
                    &&& e == Error::NotFound
                    &&& !self.tokens_by_id@.contains_key(token_id@)
                },
            },
    {
        let token = match self.tokens_by_id.get(token_id) {
            Option::Some(token) => token,
            Option::None => {
                return Result::Err(Error::NotFound);
            },
        };
        match &token.token_type {
            Option::Some(token_type) => Result::Ok(self.token_types_locked.contains(token_type)),
            Option::None => Result::Err(Error::NotFound),
        }
    }

    /// Updates the collection metadata's base location. Only the
    /// registry owner may call; the attached deposit must cover the
    /// storage delta, and the remainder is refunded.
    pub fn patch_base_uri(&mut self, ctx: &RequestContext, base_uri: Option<String>) -> (r: Result<
        u128,
        Error,
    >)
        requires
            old(self).wf(),
        ensures
            final(self).wf(),
            match r {
                Result::Ok(refund) => {
                    &&& ctx.predecessor_id@ == old(self).owner_id@
                    &&& (if base_uri is Some && old(self).metadata is Some {
                        &&& final(self).metadata is Some
                        &&& final(self).metadata->0 == (NFTMetadata {
                            base_uri: final(self).metadata->0.base_uri,
                            ..old(self).metadata->0
                        })
                        &&& final(self).metadata->0.base_uri is Some
                        &&& final(self).metadata->0.base_uri->0@ == base_uri->0@
                    } else {
                        final(self).metadata == old(self).metadata
                    })
                    &&& *final(self) == (Contract { metadata: final(self).metadata, ..*old(self) })
                },
                Result::Err(e) => {
                    &&& *final(self) == *old(self)
                    &&& (e == Error::Unauthorized || e == Error::InsufficientDeposit)
                    &&& ((e == Error::Unauthorized) <==> ctx.predecessor_id@ != old(self).owner_id@)
                },
            },
    {
        if !(ctx.predecessor_id == self.owner_id) {
            return Result::Err(Error::Unauthorized);
        }
        let before: u64 = match &self.metadata {
            Option::Some(m) => match &m.base_uri {
                Option::Some(u) => u.as_str().unicode_len() as u64,
                Option::None => 0,
            },
            Option::None => 0,
        };
        let after: u64 = match &base_uri {
            Option::Some(u) => match &self.metadata {
                Option::Some(_) => u.as_str().unicode_len() as u64,
                Option::None => before,
            },
            Option::None => before,
        };
        let delta: u64 = if after > before {
            after - before
        } else {
            before - after
        };
        let required: u128 = (delta as u128) * STORAGE_PRICE_PER_BYTE;
        proof {
            assert((delta as u128) * STORAGE_PRICE_PER_BYTE <= 0x2_0000_0000_0000_0000u128
                * STORAGE_PRICE_PER_BYTE) by (nonlinear_arith)
                requires
                    delta as u128 <= 0x2_0000_0000_0000_0000u128,
                    STORAGE_PRICE_PER_BYTE == 10_000_000_000_000_000_000u128,
            ;
        }
        if ctx.attached_deposit < required {
            return Result::Err(Error::InsufficientDeposit);
        }
        if let Option::Some(new_uri) = base_uri {
            match &mut self.metadata {
                Option::Some(m) => {
                    m.base_uri = Option::Some(new_uri);
                },
                Option::None => {},
            }
        }
        proof {
            assert forall|a: Seq<char>, t: Seq<char>|
                self.owned_by(a).contains(t) <==> (self.tokens_by_id@.contains_key(t)
                    && self.tokens_by_id@[t].owner_id@ == a) by {
                assert(old(self).owned_by(a).contains(t) <==> (
                old(self).tokens_by_id@.contains_key(t) && old(self).tokens_by_id@[t].owner_id@
                    == a));
                assert(self.owned_by(a) == old(self).owned_by(a));
            }
        }
        Result::Ok(ctx.attached_deposit - required)
    }
}


impl Contract {
    /// Adds new token types with their supply caps; only the registry
    /// owner may call, the types must be new, and unless `unlocked` is
    /// supplied they start out locked.
    pub fn add_token_types(
        &mut self,
        ctx: &RequestContext,
        supply_cap_by_type: StringMap<u64>,
        unlocked: Option<bool>,
    ) -> (r: Result<(), Error>)
        requires
            old(self).wf(),
            supply_cap_by_type.wf(),
            forall|k: Seq<char>|
                #[trigger] supply_cap_by_type@.contains_key(k) ==> !old(
                    self,
                ).supply_cap_by_type@.contains_key(k),
            unlocked is None ==> forall|k: Seq<char>|
                #[trigger] supply_cap_by_type@.contains_key(k) ==> !old(
                    self,
                ).token_types_locked@.contains(k),
        ensures
            final(self).wf(),
            match r {
                Result::Ok(()) => {
                    &&& ctx.predecessor_id@ == old(self).owner_id@
                    &&& final(self).supply_cap_by_type@ == old(
                        self,
                    ).supply_cap_by_type@.union_prefer_right(supply_cap_by_type@)
                    &&& (unlocked is None ==> forall|x: Seq<char>|
                        final(self).token_types_locked@.contains(x) <==> (old(
                            self,
                        ).token_types_locked@.contains(x) || supply_cap_by_type@.contains_key(x)))
                    &&& (unlocked is Some ==> final(self).token_types_locked
                        == old(self).token_types_locked)
                    &&& *final(self) == (Contract {
                        supply_cap_by_type: final(self).supply_cap_by_type,
                        token_types_locked: final(self).token_types_locked,
                        ..*old(self)
                    })
                },
                Result::Err(e) => {
                    &&& *final(self) == *old(self)
                    &&& e == Error::Unauthorized
                    &&& ctx.predecessor_id@ != old(self).owner_id@
                },
            },
    {
        if !(ctx.predecessor_id == self.owner_id) {
            return Result::Err(Error::Unauthorized);
        }
        let ghost init = *self;
        let ghost new_entries = supply_cap_by_type.spec_entries();
        let n = supply_cap_by_type.len();
        let mut i: usize = 0;
        while i < n
            invariant
                i <= n,
                n == new_entries.len(),
                supply_cap_by_type.wf(),
                supply_cap_by_type.spec_entries() == new_entries,
                init.wf(),
                forall|k: Seq<char>|
                    #[trigger] supply_cap_by_type@.contains_key(k)
                        ==> !init.supply_cap_by_type@.contains_key(k),
                unlocked is None ==> forall|k: Seq<char>|
                    #[trigger] supply_cap_by_type@.contains_key(k)
                        ==> !init.token_types_locked@.contains(k),
                *self == (Contract {
                    supply_cap_by_type: self.supply_cap_by_type,
                    token_types_locked: self.token_types_locked,
                    ..init
                }),
                self.supply_cap_by_type.wf(),
                self.token_types_locked.wf(),
                self.supply_cap_by_type@ == init.supply_cap_by_type@.union_prefer_right(
                    crate::str_map::assoc_map(new_entries.subrange(0, i as int)),
                ),
                unlocked is None ==> forall|x: Seq<char>|
                    #![trigger self.token_types_locked@.contains(x)]
                    #![trigger init.token_types_locked@.contains(x)]
                    self.token_types_locked@.contains(x) <==> (init.token_types_locked@.contains(x)
                        || (exists|j: int| 0 <= j < i && (#[trigger] new_entries[j]).0 == x)),
                unlocked is Some ==> self.token_types_locked == init.token_types_locked,
            decreases n - i,
        {
            let ghost pre = new_entries.subrange(0, i as int);
            let ghost post = new_entries.subrange(0, i + 1);
            let (key, cap) = {
                let entries = supply_cap_by_type.entries();
                (entries[i].0.clone(), entries[i].1)
            };
            self.supply_cap_by_type.insert(key.clone(), cap);
            proof {
                assert(post.drop_last() =~= pre);
                assert(post.last() == new_entries[i as int]);
                assert(crate::str_map::assoc_map(post) =~= crate::str_map::assoc_map(pre).insert(
                    new_entries[i as int].0,
                    new_entries[i as int].1,
                ));
                assert(self.supply_cap_by_type@ =~= init.supply_cap_by_type@.union_prefer_right(
                    crate::str_map::assoc_map(post),
                ));
            }
            if unlocked.is_none() {
                let ghost locked_pre = self.token_types_locked@;
                self.token_types_locked.insert(key);
                proof {
                    assert forall|x: Seq<char>|
                        self.token_types_locked@.contains(x) <==> (
                        init.token_types_locked@.contains(x) || (exists|j: int|
                            0 <= j < i + 1 && (#[trigger] new_entries[j]).0 == x)) by {
                        assert(init.token_types_locked@.contains(x)
                            || !init.token_types_locked@.contains(x));
                        if x == new_entries[i as int].0 {
                            assert(0 <= i < i + 1 && new_entries[i as int].0 == x);
                            assert(self.token_types_locked@.contains(x));
                        } else {
                            assert(self.token_types_locked@.contains(x) == locked_pre.contains(x));
                            if exists|j: int| 0 <= j < i + 1 && (#[trigger] new_entries[j]).0 == x {
                                let j = choose|j: int|
                                    0 <= j < i + 1 && (#[trigger] new_entries[j]).0 == x;
                                assert(j < i);
                                assert(exists|l: int|
                                    0 <= l < i && (#[trigger] new_entries[l]).0 == x);
                            }
                            if exists|j: int| 0 <= j < i && (#[trigger] new_entries[j]).0 == x {
                                let j = choose|j: int|
                                    0 <= j < i && (#[trigger] new_entries[j]).0 == x;
                                assert(0 <= j < i + 1 && new_entries[j].0 == x);
                            }
                        }
                    }
                }
            }
            i = i + 1;
        }
        proof {
            assert(new_entries.subrange(0, n as int) =~= new_entries);
            supply_cap_by_type.lemma_view_entries();
            assert(self.supply_cap_by_type@ =~= init.supply_cap_by_type@.union_prefer_right(
                supply_cap_by_type@,
            ));
            if unlocked is None {
                assert forall|x: Seq<char>|
                    self.token_types_locked@.contains(x) <==> (init.token_types_locked@.contains(x)
                        || supply_cap_by_type@.contains_key(x)) by {
                    supply_cap_by_type.lemma_contains_entry(x);
                }
            }
            assert forall|a: Seq<char>, t: Seq<char>|
                self.owned_by(a).contains(t) <==> (self.tokens_by_id@.contains_key(t)
                    && self.tokens_by_id@[t].owner_id@ == a) by {
                assert(init.owned_by(a).contains(t) <==> (init.tokens_by_id@.contains_key(t)
                    && init.tokens_by_id@[t].owner_id@ == a));
                assert(self.owned_by(a) == init.owned_by(a));
            }
        }
        Result::Ok(())
    }

    /// Unlocks the listed token types; only the registry owner may call.
    pub fn unlock_token_types(&mut self, ctx: &RequestContext, token_types: Vec<String>) -> (r:
        Result<(), Error>)
        requires
            old(self).wf(),
        ensures
            final(self).wf(),
            match r {
                Result::Ok(()) => {
                    &&& ctx.predecessor_id@ == old(self).owner_id@
                    &&& forall|x: Seq<char>|
                        final(self).token_types_locked@.contains(x) <==> (old(
                            self,
                        ).token_types_locked@.contains(x) && !(exists|j: int|
                            0 <= j < token_types@.len() && (#[trigger] token_types@[j])@ == x))
                    &&& *final(self) == (Contract {
                        token_types_locked: final(self).token_types_locked,
                        ..*old(self)
                    })
                },
                Result::Err(e) => {
                    &&& *final(self) == *old(self)
                    &&& e == Error::Unauthorized
                    &&& ctx.predecessor_id@ != old(self).owner_id@
                },
            },
    {
        if !(ctx.predecessor_id == self.owner_id) {
            return Result::Err(Error::Unauthorized);
        }
        let ghost init = *self;
        let n = token_types.len();
        let mut i: usize = 0;
        while i < n
            invariant
                i <= n,
                n == token_types@.len(),
                init.wf(),
                *self == (Contract { token_types_locked: self.token_types_locked, ..init }),
                self.token_types_locked.wf(),
                forall|x: Seq<char>|
                    #![trigger self.token_types_locked@.contains(x)]
                    #![trigger init.token_types_locked@.contains(x)]
                    self.token_types_locked@.contains(x) <==> (init.token_types_locked@.contains(x)
                        && !(exists|j: int|
                        0 <= j < i && (#[trigger] token_types@[j])@ == x)),
            decreases n - i,
        {
            let ghost locked_pre = self.token_types_locked@;
            self.token_types_locked.remove(&token_types[i]);
            proof {
                let key = token_types@[i as int]@;
                assert forall|x: Seq<char>|
                    self.token_types_locked@.contains(x) <==> (init.token_types_locked@.contains(x)
                        && !(exists|j: int|
                        0 <= j < i + 1 && (#[trigger] token_types@[j])@ == x)) by {
                    assert(init.token_types_locked@.contains(x)
                        || !init.token_types_locked@.contains(x));
                    if self.token_types_locked@.contains(x) {
                        assert(locked_pre.contains(x) && x != key);
                        if exists|j: int| 0 <= j < i + 1 && (#[trigger] token_types@[j])@ == x {
                            let j = choose|j: int|
                                0 <= j < i + 1 && (#[trigger] token_types@[j])@ == x;
                            if j < i {
                                assert(exists|l: int|
                                    0 <= l < i && (#[trigger] token_types@[l])@ == x);
                                assert(!locked_pre.contains(x));
                            } else {
                                assert(x == key);
                            }
                            assert(false);
                        }
                    }
                    if init.token_types_locked@.contains(x) && !(exists|j: int|
                        0 <= j < i + 1 && (#[trigger] token_types@[j])@ == x) {
                        assert(!(exists|j: int|
                            0 <= j < i && (#[trigger] token_types@[j])@ == x)) by {
                            if exists|j: int| 0 <= j < i && (#[trigger] token_types@[j])@ == x {
                                let j = choose|j: int|
                                    0 <= j < i && (#[trigger] token_types@[j])@ == x;
                                assert(0 <= j < i + 1 && token_types@[j]@ == x);
                            }
                        }
                        assert(locked_pre.contains(x));
                        assert(x != key) by {
                            if x == key {
                                assert(0 <= i < i + 1 && token_types@[i as int]@ == x);
                            }
                        }
                        assert(self.token_types_locked@.contains(x));
                    }
                }
            }
            i = i + 1;
        }
        proof {
            assert forall|a: Seq<char>, t: Seq<char>|
                self.owned_by(a).contains(t) <==> (self.tokens_by_id@.contains_key(t)
                    && self.tokens_by_id@[t].owner_id@ == a) by {
                assert(init.owned_by(a).contains(t) <==> (init.tokens_by_id@.contains_key(t)
                    && init.tokens_by_id@[t].owner_id@ == a));
                assert(self.owned_by(a) == init.owned_by(a));
            }
        }
        Result::Ok(())
    }
}

/// The registry's first persisted schema.
pub struct ContractV1 {
    pub tokens_per_owner: StringMap<StringSet>,
    pub tokens_by_id: StringMap<Token>,
    pub token_metadata_by_id: StringMap<TokenMetadata>,
    pub owner_id: AccountId,
    pub extra_storage_in_bytes_per_token: u64,
    pub metadata: Option<NFTMetadata>,
    pub supply_cap_by_type: StringMap<u64>,
    pub tokens_per_type: StringMap<StringSet>,
    pub token_types_locked: StringSet,
    pub contract_royalty: u32,
}

/// The second persisted schema: the first plus the source record and a
/// single registry-level royalty rate.
pub struct ContractV2 {
    pub contract_source_metadata: Option<VersionedContractSourceMetadata>,
    pub tokens_per_owner: StringMap<StringSet>,
    pub tokens_by_id: StringMap<Token>,
    pub token_metadata_by_id: StringMap<TokenMetadata>,
    pub owner_id: AccountId,
    pub extra_storage_in_bytes_per_token: u64,
    pub metadata: Option<NFTMetadata>,
    pub supply_cap_by_type: StringMap<u64>,
    pub tokens_per_type: StringMap<StringSet>,
    pub token_types_locked: StringSet,
    pub contract_royalty: u32,
}

impl ContractV2 {
    /// Well-formedness of the old schema, as [`Contract::wf`] reads on
    /// its fields.
    pub open spec fn wf(self) -> bool {
        &&& self.tokens_by_id.wf()
        &&& self.tokens_per_owner.wf()
        &&& self.token_metadata_by_id.wf()
        &&& self.supply_cap_by_type.wf()
        &&& self.tokens_per_type.wf()
        &&& self.token_types_locked.wf()
        &&& valid_account_id(self.owner_id@)
        &&& forall|t: Seq<char>|
            self.tokens_by_id@.contains_key(t) ==> (#[trigger] self.tokens_by_id@[t]).wf()
        &&& forall|a: Seq<char>|
            self.tokens_per_owner@.contains_key(a) ==> (#[trigger] self.tokens_per_owner@[a]).wf()
        &&& forall|a: Seq<char>, t: Seq<char>|
            #![trigger self.spec_owned_by(a).contains(t)]
            #![trigger self.spec_owned_by(a), self.tokens_by_id@.contains_key(t)]
            self.spec_owned_by(a).contains(t) <==> (self.tokens_by_id@.contains_key(t)
                && self.tokens_by_id@[t].owner_id@ == a)
        &&& self.contract_royalty <= crate::CONTRACT_ROYALTY_CAP
    }

    /// The token ids the old schema's index lists for `a`.
    pub open spec fn spec_owned_by(self, a: Seq<char>) -> Set<Seq<char>> {
        if self.tokens_per_owner@.contains_key(a) {
            self.tokens_per_owner@[a]@
        } else {
            Set::empty()
        }
    }
}

/// The persisted registry as a tagged union over schema versions.
pub enum VersionedContract {
    Current(Contract),
}

impl From<ContractV2> for Contract {
    /// One-way upgrade from the second schema: the source record is
    /// reset, the old registry-level rate becomes the owner rate, the
    /// platform rate starts at its cap, and no transfer is pending.
    fn from(v2: ContractV2) -> (r: Contract) {
        Contract {
            contract_source_metadata: Option::None,
            tokens_per_owner: v2.tokens_per_owner,
            tokens_by_id: v2.tokens_by_id,
            token_metadata_by_id: v2.token_metadata_by_id,
            owner_id: v2.owner_id,
            extra_storage_in_bytes_per_token: v2.extra_storage_in_bytes_per_token,
            metadata: v2.metadata,
            supply_cap_by_type: v2.supply_cap_by_type,
            tokens_per_type: v2.tokens_per_type,
            token_types_locked: v2.token_types_locked,
            contract_royalty_owner: v2.contract_royalty,
            contract_royalty_satori: 250,
            pending_transfers: StringMap::new(),
        }
    }
}

impl vstd::std_specs::convert::FromSpecImpl<ContractV2> for Contract {
    open spec fn obeys_from_spec() -> bool {
        false
    }

    open spec fn from_spec(v2: ContractV2) -> Contract {
        vstd::pervasive::arbitrary::<Contract>()
    }
}

impl Contract {
    /// Upgrades a well-formed old registry to the current schema.
    pub fn migrate(old_state: ContractV2) -> (r: Contract)
        requires
            old_state.wf(),
        ensures
            r.wf(),
            r.tokens_by_id == old_state.tokens_by_id,
            r.tokens_per_owner == old_state.tokens_per_owner,
            r.token_metadata_by_id == old_state.token_metadata_by_id,
            r.owner_id == old_state.owner_id,
            r.metadata == old_state.metadata,
            r.supply_cap_by_type == old_state.supply_cap_by_type,
            r.token_types_locked == old_state.token_types_locked,
            r.contract_royalty_owner == old_state.contract_royalty,
            r.contract_royalty_satori == 250,
            r.contract_source_metadata is None,
            r.pending_transfers@ == Map::<Seq<char>, PendingTransfer>::empty(),
    {
        let r = Contract {
            contract_source_metadata: Option::None,
            tokens_per_owner: old_state.tokens_per_owner,
            tokens_by_id: old_state.tokens_by_id,
            token_metadata_by_id: old_state.token_metadata_by_id,
            owner_id: old_state.owner_id,
            extra_storage_in_bytes_per_token: old_state.extra_storage_in_bytes_per_token,
            metadata: old_state.metadata,
            supply_cap_by_type: old_state.supply_cap_by_type,
            tokens_per_type: old_state.tokens_per_type,
            token_types_locked: old_state.token_types_locked,
            contract_royalty_owner: old_state.contract_royalty,
            contract_royalty_satori: 250,
            pending_transfers: StringMap::new(),
        };
        proof {
            assert forall|a: Seq<char>, t: Seq<char>|
                r.owned_by(a).contains(t) <==> (r.tokens_by_id@.contains_key(t)
                    && r.tokens_by_id@[t].owner_id@ == a) by {
                assert(old_state.spec_owned_by(a).contains(t) <==> (
                old_state.tokens_by_id@.contains_key(t) && old_state.tokens_by_id@[t].owner_id@
                    == a));
                assert(r.owned_by(a) == old_state.spec_owned_by(a));
            }
        }
        r
    }
}

} // verus!
