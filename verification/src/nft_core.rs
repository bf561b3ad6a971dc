//! The transfer protocol: synchronous transfers, the payout-aware
//! variant, the notify-variant that hands a token to a receiving program,
//! and the reconciliation callback that commits or rolls back the
//! optimistic mutation.

use vstd::prelude::*;

use crate::registry::{spec_transferred, Contract, PendingTransfer};
use crate::royalty::{
    compute_payout, compute_payout_capped, distinct_roles, payout_entries, total_all_bps, Payout,
};
use crate::str_map::assoc_map;
use crate::token::{
    bytes_for_approved_account_id, refund_for_approvals, spec_bytes_for_approved_account, JsonToken,
    Token,
};
use crate::{
    valid_account_id, AccountId, Error, RequestContext, TokenId, CONTRACT_ROYALTY_CAP,
    GAS_FOR_NFT_APPROVE, GAS_FOR_NFT_TRANSFER_CALL, MINTER_ROYALTY_CAP, STORAGE_PRICE_PER_BYTE,
};

verus! {

/// What a grant of approval for `account` on token `t` must deposit:
/// the entry's storage at the fixed byte price for a new grant, nothing
/// when the grant merely overwrites an existing one.
pub open spec fn spec_approval_cost(t: Token, account: Seq<char>) -> int {
    if t.approved_account_ids@.contains_key(account) {
        0
    } else {
        spec_bytes_for_approved_account(account) * STORAGE_PRICE_PER_BYTE
    }
}

/// What a successful approval grant did to the token: the granted id is
/// the token's counter value, the counter advances by one, the grant is
/// recorded, and ownership and the rest of the record are kept.
pub open spec fn spec_approval_granted(
    pre: Contract,
    post: Contract,
    t: Seq<char>,
    account: Seq<char>,
    id: u64,
) -> bool {
    &&& pre.tokens_by_id@.contains_key(t)
    &&& post.tokens_by_id@.contains_key(t)
    &&& id == pre.tokens_by_id@[t].next_approval_id
    &&& post.tokens_by_id@[t].next_approval_id == pre.tokens_by_id@[t].next_approval_id + 1
    &&& post.tokens_by_id@[t].approved_account_ids@
        == pre.tokens_by_id@[t].approved_account_ids@.insert(account, id)
    &&& post.tokens_by_id@[t].owner_id@ == pre.tokens_by_id@[t].owner_id@
}

/// The structured transfer event emitted by the payout-aware transfer.
pub struct TransferEvent {
    pub old_owner_id: AccountId,
    pub new_owner_id: AccountId,
    pub token_id: TokenId,
}

/// Everything the host needs to dispatch the receiver notification of a
/// notify-variant transfer.
pub struct ReceiverNotification {
    pub receiver_id: AccountId,
    pub sender_id: AccountId,
    pub previous_owner_id: AccountId,
    pub token_id: TokenId,
    pub msg: String,
    pub attached_gas: u64,
}

/// Everything the host needs to dispatch the fire-and-forget approval
/// notification.
pub struct ApprovalNotification {
    pub receiver_id: AccountId,
    pub token_id: TokenId,
    pub owner_id: AccountId,
    pub approval_id: u64,
    pub msg: String,
    pub attached_gas: u64,
}

/// The single outcome the external call eventually reports back to the
/// reconciliation step.
pub enum PromiseOutcome {
    /// The call completed and returned these bytes.
    Successful(Vec<u8>),
    /// The call failed or was never completed.
    Failed,
}

impl Contract {
    /// A plain synchronous transfer. Requires exactly one attached
    /// balance unit; authorizes, reassigns ownership, clears approvals,
    /// and returns the deposit refunded to the previous owner for the
    /// cleared approval entries. On any failure nothing changes.
    pub fn nft_transfer(
        &mut self,
        ctx: &RequestContext,
        receiver_id: AccountId,
        token_id: TokenId,
        approval_id: Option<u64>,
        memo: Option<String>,
    ) -> (r: Result<u128, Error>)
        requires
            old(self).wf(),
            valid_account_id(receiver_id@),
            old(self).refund_fits(token_id@),
        ensures
            final(self).wf(),
            match r {
                Result::Ok(refund) => {
                    &&& ctx.attached_deposit == 1
                    &&& spec_transferred(*old(self), *final(self), token_id@, receiver_id@)
                    &&& old(self).tokens_by_id@[token_id@].transfer_authorized(
                        ctx.predecessor_id@,
                        approval_id,
                    )
                    &&& refund == crate::token::approvals_refund(
                        old(self).tokens_by_id@[token_id@].approved_account_ids.spec_entries(),
                    )
                    &&& *final(self) == (Contract {
                        tokens_by_id: final(self).tokens_by_id,
                        tokens_per_owner: final(self).tokens_per_owner,
                        ..*old(self)
                    })
                },
                Result::Err(e) => {
                    &&& (e == Error::InsufficientDeposit || e == Error::NotFound
                        || e == Error::Unauthorized)
                    &&& *final(self) == *old(self)
                    &&& ((e == Error::InsufficientDeposit) <==> ctx.attached_deposit != 1)
                    &&& ((e == Error::NotFound) <==> (ctx.attached_deposit == 1 && !old(
                        self,
                    ).tokens_by_id@.contains_key(token_id@)))
                    &&& ((e == Error::Unauthorized) <==> (ctx.attached_deposit == 1 && old(
                        self,
                    ).tokens_by_id@.contains_key(token_id@) && !(old(
                        self,
                    ).tokens_by_id@[token_id@].transfer_authorized(ctx.predecessor_id@, approval_id)
                        && receiver_id@ != old(self).tokens_by_id@[token_id@].owner_id@)))
                },
            },
    {
        if ctx.attached_deposit != 1 {
            return Result::Err(Error::InsufficientDeposit);
        }
        let previous_token = match self.internal_transfer(
            &ctx.predecessor_id,
            &receiver_id,
            &token_id,
            approval_id,
        ) {
            Result::Ok(prev) => prev,
            Result::Err(e) => {
                return Result::Err(e);
            },
        };
        let refund = refund_for_approvals(&previous_token.approved_account_ids);
        Result::Ok(refund)
    }

    /// The notify-variant transfer: authorizes and optimistically
    /// reassigns ownership, records the previous owner and approval set
    /// as a durable pending record keyed by token id, and returns the
    /// notification the host must dispatch with the remaining budget
    /// after reserving the reconciliation step's share.
    pub fn nft_transfer_call(
        &mut self,
        ctx: &RequestContext,
        receiver_id: AccountId,
        token_id: TokenId,
        approval_id: u64,
        memo: Option<String>,
        msg: String,
    ) -> (r: Result<ReceiverNotification, Error>)
        requires
            old(self).wf(),
            valid_account_id(receiver_id@),
            ctx.prepaid_gas >= GAS_FOR_NFT_TRANSFER_CALL,
        ensures
            final(self).wf(),
            match r {
                Result::Ok(n) => {
                    &&& ctx.attached_deposit == 1
                    &&& spec_transferred(*old(self), *final(self), token_id@, receiver_id@)
                    &&& old(self).tokens_by_id@[token_id@].transfer_authorized(
                        ctx.predecessor_id@,
                        Option::Some(approval_id),
                    )
                    &&& final(self).pending_transfers@.contains_key(token_id@)
                    &&& final(self).pending_transfers@ == old(self).pending_transfers@.insert(
                        token_id@,
                        final(self).pending_transfers@[token_id@],
                    )
                    &&& final(self).pending_transfers@[token_id@].previous_owner_id@ == old(
                        self,
                    ).tokens_by_id@[token_id@].owner_id@
                    &&& final(self).pending_transfers@[token_id@].receiver_id@ == receiver_id@
                    &&& final(self).pending_transfers@[token_id@].approved_account_ids@ == old(
                        self,
                    ).tokens_by_id@[token_id@].approved_account_ids@
                    &&& final(self).pending_transfers@[token_id@].approved_account_ids.spec_entries()
                        == old(self).tokens_by_id@[token_id@].approved_account_ids.spec_entries()
                    &&& final(self).pending_transfers@[token_id@].next_approval_id == old(
                        self,
                    ).tokens_by_id@[token_id@].next_approval_id
                    &&& n.receiver_id@ == receiver_id@
                    &&& n.sender_id@ == ctx.predecessor_id@
                    &&& n.previous_owner_id@ == old(self).tokens_by_id@[token_id@].owner_id@
                    &&& n.token_id@ == token_id@
                    &&& n.msg@ == msg@
                    &&& n.attached_gas == ctx.prepaid_gas - GAS_FOR_NFT_TRANSFER_CALL
                    &&& *final(self) == (Contract {
                        tokens_by_id: final(self).tokens_by_id,
                        tokens_per_owner: final(self).tokens_per_owner,
                        pending_transfers: final(self).pending_transfers,
                        ..*old(self)
                    })
                },
                Result::Err(e) => {
                    &&& (e == Error::InsufficientDeposit || e == Error::NotFound
                        || e == Error::Unauthorized)
                    &&& *final(self) == *old(self)
                    &&& ((e == Error::InsufficientDeposit) <==> ctx.attached_deposit != 1)
                    &&& ((e == Error::NotFound) <==> (ctx.attached_deposit == 1 && !old(
                        self,
                    ).tokens_by_id@.contains_key(token_id@)))
                    &&& ((e == Error::Unauthorized) <==> (ctx.attached_deposit == 1 && old(
                        self,
                    ).tokens_by_id@.contains_key(token_id@) && !(old(
                        self,
                    ).tokens_by_id@[token_id@].transfer_authorized(
                        ctx.predecessor_id@,
                        Option::Some(approval_id),
                    ) && receiver_id@ != old(self).tokens_by_id@[token_id@].owner_id@)))
                },
            },
    {
        if ctx.attached_deposit != 1 {
            return Result::Err(Error::InsufficientDeposit);
        }
        let previous_token = match self.internal_transfer(
            &ctx.predecessor_id,
            &receiver_id,
            &token_id,
            Option::Some(approval_id),
        ) {
            Result::Ok(prev) => prev,
            Result::Err(e) => {
                return Result::Err(e);
            },
        };
        let ghost mid = *self;
        let previous_owner_id = previous_token.owner_id;
        let record = PendingTransfer {
            previous_owner_id: previous_owner_id.clone(),
            receiver_id: receiver_id.clone(),
            approved_account_ids: previous_token.approved_account_ids,
            next_approval_id: previous_token.next_approval_id,
        };
        self.pending_transfers.insert(token_id.clone(), record);
        proof {
            assert(old(self).tokens_by_id@[token_id@].wf());
            assert(self.pending_transfers@ =~= old(self).pending_transfers@.insert(
                token_id@,
                self.pending_transfers@[token_id@],
            ));
            assert(self.pending_transfers@[token_id@].wf());
            assert forall|t: Seq<char>| self.pending_transfers@.contains_key(t) implies (
            #[trigger] self.pending_transfers@[t]).wf() by {
                if t != token_id@ {
                    assert(old(self).pending_transfers@[t].wf());
                }
            }
            assert forall|a: Seq<char>, t: Seq<char>|
                self.owned_by(a).contains(t) <==> (self.tokens_by_id@.contains_key(t)
                    && self.tokens_by_id@[t].owner_id@ == a) by {
                assert(mid.owned_by(a).contains(t) <==> (mid.tokens_by_id@.contains_key(t)
                    && mid.tokens_by_id@[t].owner_id@ == a));
                assert(self.owned_by(a) == mid.owned_by(a));
            }
        }
        Result::Ok(
            ReceiverNotification {
                receiver_id,
                sender_id: ctx.predecessor_id.clone(),
                previous_owner_id,
                token_id,
                msg,
                attached_gas: ctx.prepaid_gas - GAS_FOR_NFT_TRANSFER_CALL,
            },
        )
    }

    /// The reconciliation callback of a notify-variant transfer. Consumes
    /// the pending record for `token_id` and inspects the external
    /// outcome: when the call succeeded and decoded to `false` the
    /// transfer commits and the previous owner's cleared approvals are
    /// refunded; on any other outcome a rollback is attempted, but only
    /// while the token still exists and is still owned by the recorded
    /// receiver — otherwise the transfer is committed as it stands.
    /// Returns whether return was requested, and the freed approval
    /// deposit with the account it is owed to: the previous owner when
    /// the transfer commits, the receiver when it rolls back.
    pub fn nft_resolve_transfer(
        &mut self,
        token_id: TokenId,
        outcome: PromiseOutcome,
    ) -> (r: Result<(bool, AccountId, u128), Error>)
        requires
            old(self).wf(),
            old(self).refund_fits(token_id@),
            old(self).pending_refund_fits(token_id@),
        ensures
            final(self).wf(),
            match r {
                Result::Ok((returned, refund_to, refund)) => {
                    &&& old(self).pending_transfers@.contains_key(token_id@)
                    &&& final(self).pending_transfers@ == old(self).pending_transfers@.remove(
                        token_id@,
                    )
                    &&& (returned <==> !(outcome matches PromiseOutcome::Successful(v)
                        && crate::codec::json_bool_of(v@) == Option::Some(false)))
                    &&& {
                        let record = old(self).pending_transfers@[token_id@];
                        let rollback = returned && old(self).tokens_by_id@.contains_key(token_id@)
                            && old(self).tokens_by_id@[token_id@].owner_id@ == record.receiver_id@;
                        if rollback {
                            &&& refund_to@ == record.receiver_id@
                            &&& final(self).tokens_by_id@.contains_key(token_id@)
                            &&& final(self).tokens_by_id@ == old(self).tokens_by_id@.insert(
                                token_id@,
                                final(self).tokens_by_id@[token_id@],
                            )
                            &&& final(self).tokens_by_id@[token_id@].owner_id@
                                == record.previous_owner_id@
                            &&& final(self).tokens_by_id@[token_id@].approved_account_ids@
                                == record.approved_account_ids@
                            &&& final(self).tokens_by_id@[token_id@].next_approval_id == (if old(
                                self,
                            ).tokens_by_id@[token_id@].next_approval_id
                                > record.next_approval_id {
                                old(self).tokens_by_id@[token_id@].next_approval_id
                            } else {
                                record.next_approval_id
                            })
                            &&& final(self).tokens_by_id@[token_id@].royalty@ == old(
                                self,
                            ).tokens_by_id@[token_id@].royalty@
                            &&& final(self).tokens_by_id@[token_id@].token_type == old(
                                self,
                            ).tokens_by_id@[token_id@].token_type
                            &&& refund == crate::token::approvals_refund(
                                old(
                                    self,
                                ).tokens_by_id@[token_id@].approved_account_ids.spec_entries(),
                            )
                            &&& *final(self) == (Contract {
                                tokens_by_id: final(self).tokens_by_id,
                                tokens_per_owner: final(self).tokens_per_owner,
                                pending_transfers: final(self).pending_transfers,
                                ..*old(self)
                            })
                        } else {
                            &&& refund_to@ == record.previous_owner_id@
                            &&& final(self).tokens_by_id@ == old(self).tokens_by_id@
                            &&& refund == crate::token::approvals_refund(
                                record.approved_account_ids.spec_entries(),
                            )
                            &&& *final(self) == (Contract {
                                pending_transfers: final(self).pending_transfers,
                                ..*old(self)
                            })
                        }
                    }
                },
                Result::Err(e) => {
                    &&& *final(self) == *old(self)
                    &&& e == Error::NotFound
                    &&& !old(self).pending_transfers@.contains_key(token_id@)
                },
            },
    {
        let record = match self.pending_transfers.remove(&token_id) {
            Option::Some(record) => record,
            Option::None => {
                return Result::Err(Error::NotFound);
            },
        };
        let returned: bool = match &outcome {
            PromiseOutcome::Successful(value) => {
                match crate::codec::parse_bool_payload(value) {
                    Option::Some(false) => false,
                    _ => true,
                }
            },
            PromiseOutcome::Failed => true,
        };
        if !returned {
            // The receiver kept the token: commit, refund the previous
            // owner's cleared approvals.
            let refund = refund_for_approvals(&record.approved_account_ids);
            proof {
                assert forall|a: Seq<char>, t: Seq<char>|
                    self.owned_by(a).contains(t) <==> (self.tokens_by_id@.contains_key(t)
                        && self.tokens_by_id@[t].owner_id@ == a) by {
                    assert(old(self).owned_by(a).contains(t) <==> (
                    old(self).tokens_by_id@.contains_key(t) && old(
                        self,
                    ).tokens_by_id@[t].owner_id@ == a));
                    assert(self.owned_by(a) == old(self).owned_by(a));
                }
            }
            return Result::Ok((false, record.previous_owner_id, refund));
        }
        let (still_exists, owner_is_receiver) = match self.tokens_by_id.get(&token_id) {
            Option::Some(token) => (true, token.owner_id == record.receiver_id),
            Option::None => (false, false),
        };
        if !still_exists || !owner_is_receiver {
            // The token moved on or was burned while the call was in
            // flight: a rollback would take it from its rightful holder,
            // so the transfer is committed as it stands.
            let refund = refund_for_approvals(&record.approved_account_ids);
            proof {
                assert forall|a: Seq<char>, t: Seq<char>|
                    self.owned_by(a).contains(t) <==> (self.tokens_by_id@.contains_key(t)
                        && self.tokens_by_id@[t].owner_id@ == a) by {
                    assert(old(self).owned_by(a).contains(t) <==> (
                    old(self).tokens_by_id@.contains_key(t) && old(
                        self,
                    ).tokens_by_id@[t].owner_id@ == a));
                    assert(self.owned_by(a) == old(self).owned_by(a));
                }
            }
            return Result::Ok((true, record.previous_owner_id, refund));
        }
        let ghost s0 = *old(self);
        let ghost s1 = *self;
        let token = self.tokens_by_id.remove(&token_id).unwrap();
        let ghost s2 = *self;
        self.internal_remove_token_from_owner(&record.receiver_id, &token_id);
        let ghost s3 = *self;
        self.internal_add_token_to_owner(&record.previous_owner_id, &token_id);
        let ghost s4 = *self;
        let refund = refund_for_approvals(&token.approved_account_ids);
        let next_approval_id = if token.next_approval_id > record.next_approval_id {
            token.next_approval_id
        } else {
            record.next_approval_id
        };
        let refund_to = record.receiver_id;
        let restored = Token {
            owner_id: record.previous_owner_id,
            royalty: token.royalty,
            approved_account_ids: record.approved_account_ids,
            next_approval_id,
            token_type: token.token_type,
        };
        self.tokens_by_id.insert(token_id, restored);
        proof {
            assert(self.tokens_by_id@ =~= s1.tokens_by_id@.insert(
                token_id@,
                self.tokens_by_id@[token_id@],
            ));
            let ghost receiver = s0.pending_transfers@[token_id@].receiver_id@;
            let ghost prev_owner = s0.pending_transfers@[token_id@].previous_owner_id@;
            assert(s0.pending_transfers@[token_id@].wf());
            assert(receiver != prev_owner);
            assert forall|a: Seq<char>, t: Seq<char>|
                self.owned_by(a).contains(t) <==> (self.tokens_by_id@.contains_key(t)
                    && self.tokens_by_id@[t].owner_id@ == a) by {
                assert(s0.owned_by(a).contains(t) <==> (s0.tokens_by_id@.contains_key(t)
                    && s0.tokens_by_id@[t].owner_id@ == a));
                assert(s1.owned_by(a) == s0.owned_by(a));
                assert(s1.tokens_by_id@ == s0.tokens_by_id@);
                assert(s1.owned_by(a).contains(t) <==> (s1.tokens_by_id@.contains_key(t)
                    && s1.tokens_by_id@[t].owner_id@ == a));
                assert(s2.owned_by(a) == s1.owned_by(a));
                assert(s3.owned_by(a) == (if a == receiver {
                    s2.owned_by(a).remove(token_id@)
                } else {
                    s2.owned_by(a)
                }));
                assert(s4.owned_by(a) == (if a == prev_owner {
                    s3.owned_by(a).insert(token_id@)
                } else {
                    s3.owned_by(a)
                }));
                assert(self.owned_by(a) == s4.owned_by(a));
                if t == token_id@ {
                    assert(self.tokens_by_id@[t].owner_id@ == prev_owner);
                    if a == prev_owner {
                        assert(self.owned_by(a).contains(t));
                    } else if a == receiver {
                        assert(!self.owned_by(a).contains(t));
                    } else {
                        assert(!s1.owned_by(a).contains(t));
                        assert(!self.owned_by(a).contains(t));
                    }
                } else {
                    assert(self.owned_by(a).contains(t) == s1.owned_by(a).contains(t));
                    assert(self.tokens_by_id@.contains_key(t) == s1.tokens_by_id@.contains_key(t));
                    if self.tokens_by_id@.contains_key(t) {
                        assert(self.tokens_by_id@[t] == s1.tokens_by_id@[t]);
                    }
                }
            }
        }
        Result::Ok((true, refund_to, refund))
    }

    /// Grants `account_id` the right to transfer `token_id`, under the
    /// next approval id; the counter then advances and is never reused.
    /// Only the owner may call, at least one balance unit must be
    /// attached, and a new grant's storage must be covered by the
    /// deposit; the surplus is refunded. With a message, returns the
    /// fire-and-forget notification the host should dispatch.
    pub fn nft_approve(
        &mut self,
        ctx: &RequestContext,
        token_id: TokenId,
        account_id: AccountId,
        msg: Option<String>,
    ) -> (r: Result<(u128, Option<ApprovalNotification>), Error>)
        requires
            old(self).wf(),
            valid_account_id(account_id@),
            old(self).tokens_by_id@.contains_key(token_id@) ==> old(
                self,
            ).tokens_by_id@[token_id@].next_approval_id < u64::MAX,
            msg is Some ==> ctx.prepaid_gas >= GAS_FOR_NFT_APPROVE,
        ensures
            final(self).wf(),
            match r {
                Result::Ok((refund, notice)) => {
                    let t0 = old(self).tokens_by_id@[token_id@];
                    &&& ctx.attached_deposit >= 1
                    &&& old(self).tokens_by_id@.contains_key(token_id@)
                    &&& ctx.predecessor_id@ == t0.owner_id@
                    &&& ctx.attached_deposit >= spec_approval_cost(t0, account_id@)
                    &&& refund == ctx.attached_deposit - spec_approval_cost(t0, account_id@)
                    &&& final(self).tokens_by_id@.contains_key(token_id@)
                    &&& final(self).tokens_by_id@ == old(self).tokens_by_id@.insert(
                        token_id@,
                        final(self).tokens_by_id@[token_id@],
                    )
                    &&& final(self).tokens_by_id@[token_id@].approved_account_ids@
                        == t0.approved_account_ids@.insert(account_id@, t0.next_approval_id)
                    &&& final(self).tokens_by_id@[token_id@].next_approval_id
                        == t0.next_approval_id + 1
                    &&& final(self).tokens_by_id@[token_id@].owner_id@ == t0.owner_id@
                    &&& final(self).tokens_by_id@[token_id@].royalty@ == t0.royalty@
                    &&& final(self).tokens_by_id@[token_id@].royalty.spec_entries()
                        == t0.royalty.spec_entries()
                    &&& final(self).tokens_by_id@[token_id@].token_type == t0.token_type
                    &&& spec_approval_granted(
                        *old(self),
                        *final(self),
                        token_id@,
                        account_id@,
                        t0.next_approval_id,
                    )
                    &&& *final(self) == (Contract {
                        tokens_by_id: final(self).tokens_by_id,
                        ..*old(self)
                    })
                    &&& (match notice {
                        Option::Some(n) => {
                            &&& msg is Some
                            &&& n.receiver_id@ == account_id@
                            &&& n.token_id@ == token_id@
                            &&& n.owner_id@ == t0.owner_id@
                            &&& n.approval_id == t0.next_approval_id
                            &&& n.msg@ == msg->0@
                            &&& n.attached_gas == ctx.prepaid_gas - GAS_FOR_NFT_APPROVE
                        },
                        Option::None => msg is None,
                    })
                },
                Result::Err(e) => {
                    &&& *final(self) == *old(self)
                    &&& (e == Error::InsufficientDeposit || e == Error::NotFound
                        || e == Error::Unauthorized)
                    &&& ((e == Error::NotFound) <==> (ctx.attached_deposit >= 1 && !old(
                        self,
                    ).tokens_by_id@.contains_key(token_id@)))
                    &&& ((e == Error::Unauthorized) <==> (ctx.attached_deposit >= 1 && old(
                        self,
                    ).tokens_by_id@.contains_key(token_id@) && ctx.predecessor_id@ != old(
                        self,
                    ).tokens_by_id@[token_id@].owner_id@))
                    &&& ((e == Error::InsufficientDeposit) <==> (ctx.attached_deposit < 1 || (
                    ctx.attached_deposit >= 1 && old(self).tokens_by_id@.contains_key(token_id@)
                        && ctx.predecessor_id@ == old(self).tokens_by_id@[token_id@].owner_id@
                        && ctx.attached_deposit < spec_approval_cost(
                        old(self).tokens_by_id@[token_id@],
                        account_id@,
                    ))))
                },
            },
    {
        if ctx.attached_deposit < 1 {
            return Result::Err(Error::InsufficientDeposit);
        }
        let is_new: bool = match self.tokens_by_id.get(&token_id) {
            Option::None => {
                return Result::Err(Error::NotFound);
            },
            Option::Some(token) => {
                if !(ctx.predecessor_id == token.owner_id) {
                    return Result::Err(Error::Unauthorized);
                }
                !token.approved_account_ids.contains_key(&account_id)
            },
        };
        let required: u128 = if is_new {
            (bytes_for_approved_account_id(&account_id) as u128) * STORAGE_PRICE_PER_BYTE
        } else {
            0
        };
        if ctx.attached_deposit < required {
            return Result::Err(Error::InsufficientDeposit);
        }
        let mut token = self.tokens_by_id.remove(&token_id).unwrap();
        let ghost t0 = old(self).tokens_by_id@[token_id@];
        let approval_id: u64 = token.next_approval_id;
        token.approved_account_ids.insert(account_id.clone(), approval_id);
        token.next_approval_id = approval_id + 1;
        let owner_id = token.owner_id.clone();
        self.tokens_by_id.insert(token_id.clone(), token);
        proof {
            assert(self.tokens_by_id@ =~= old(self).tokens_by_id@.insert(
                token_id@,
                self.tokens_by_id@[token_id@],
            ));
            assert forall|a: Seq<char>, t: Seq<char>|
                self.owned_by(a).contains(t) <==> (self.tokens_by_id@.contains_key(t)
                    && self.tokens_by_id@[t].owner_id@ == a) by {
                assert(old(self).owned_by(a).contains(t) <==> (
                old(self).tokens_by_id@.contains_key(t) && old(self).tokens_by_id@[t].owner_id@
                    == a));
                assert(self.owned_by(a) == old(self).owned_by(a));
                if t == token_id@ {
                    assert(self.tokens_by_id@[t].owner_id@ == t0.owner_id@);
                } else {
                    assert(self.tokens_by_id@.contains_key(t) == old(
                        self,
                    ).tokens_by_id@.contains_key(t));
                    if self.tokens_by_id@.contains_key(t) {
                        assert(self.tokens_by_id@[t] == old(self).tokens_by_id@[t]);
                    }
                }
            }
        }
        let notice = match msg {
            Option::Some(m) => Option::Some(
                ApprovalNotification {
                    receiver_id: account_id,
                    token_id,
                    owner_id,
                    approval_id,
                    msg: m,
                    attached_gas: ctx.prepaid_gas - GAS_FOR_NFT_APPROVE,
                },
            ),
            Option::None => Option::None,
        };
        Result::Ok((ctx.attached_deposit - required, notice))
    }

    /// Withdraws `account_id`'s approval on `token_id` if one is stored;
    /// revoking an absent grant is a no-op, not an error. Only the owner
    /// may call, with exactly one balance unit attached. Returns the
    /// storage deposit refunded for the freed entry.
    pub fn nft_revoke(&mut self, ctx: &RequestContext, token_id: TokenId, account_id: AccountId) -> (r:
        Result<u128, Error>)
        requires
            old(self).wf(),
        ensures
            final(self).wf(),
            match r {
                Result::Ok(refund) => {
                    let t0 = old(self).tokens_by_id@[token_id@];
                    &&& ctx.attached_deposit == 1
                    &&& old(self).tokens_by_id@.contains_key(token_id@)
                    &&& ctx.predecessor_id@ == t0.owner_id@
                    &&& final(self).tokens_by_id@.contains_key(token_id@)
                    &&& final(self).tokens_by_id@ == old(self).tokens_by_id@.insert(
                        token_id@,
                        final(self).tokens_by_id@[token_id@],
                    )
                    &&& final(self).tokens_by_id@[token_id@].approved_account_ids@
                        == t0.approved_account_ids@.remove(account_id@)
                    &&& final(self).tokens_by_id@[token_id@].next_approval_id
                        == t0.next_approval_id
                    &&& final(self).tokens_by_id@[token_id@].owner_id@ == t0.owner_id@
                    &&& final(self).tokens_by_id@[token_id@].royalty@ == t0.royalty@
                    &&& final(self).tokens_by_id@[token_id@].token_type == t0.token_type
                    &&& refund == (if t0.approved_account_ids@.contains_key(account_id@) {
                        spec_bytes_for_approved_account(account_id@) * STORAGE_PRICE_PER_BYTE
                    } else {
                        0
                    })
                    &&& *final(self) == (Contract {
                        tokens_by_id: final(self).tokens_by_id,
                        ..*old(self)
                    })
                },
                Result::Err(e) => {
                    &&& (e == Error::InsufficientDeposit || e == Error::NotFound
                        || e == Error::Unauthorized)
                    &&& *final(self) == *old(self)
                    &&& ((e == Error::InsufficientDeposit) <==> ctx.attached_deposit != 1)
                    &&& ((e == Error::NotFound) <==> (ctx.attached_deposit == 1 && !old(
                        self,
                    ).tokens_by_id@.contains_key(token_id@)))
                    &&& ((e == Error::Unauthorized) <==> (ctx.attached_deposit == 1 && old(
                        self,
                    ).tokens_by_id@.contains_key(token_id@) && ctx.predecessor_id@ != old(
                        self,
                    ).tokens_by_id@[token_id@].owner_id@))
                },
            },
    {
        if ctx.attached_deposit != 1 {
            return Result::Err(Error::InsufficientDeposit);
        }
        match self.tokens_by_id.get(&token_id) {
            Option::None => {
                return Result::Err(Error::NotFound);
            },
            Option::Some(token) => {
                if !(ctx.predecessor_id == token.owner_id) {
                    return Result::Err(Error::Unauthorized);
                }
            },
        };
        let mut token = self.tokens_by_id.remove(&token_id).unwrap();
        let ghost t0 = old(self).tokens_by_id@[token_id@];
        let removed = token.approved_account_ids.remove(&account_id);
        let refund: u128 = match removed {
            Option::Some(_) => {
                proof {
                    assert(t0.wf());
                    assert(valid_account_id(account_id@));
                }
                (bytes_for_approved_account_id(&account_id) as u128) * STORAGE_PRICE_PER_BYTE
            },
            Option::None => 0,
        };
        self.tokens_by_id.insert(token_id.clone(), token);
        proof {
            assert(self.tokens_by_id@ =~= old(self).tokens_by_id@.insert(
                token_id@,
                self.tokens_by_id@[token_id@],
            ));
            assert forall|a: Seq<char>, t: Seq<char>|
                self.owned_by(a).contains(t) <==> (self.tokens_by_id@.contains_key(t)
                    && self.tokens_by_id@[t].owner_id@ == a) by {
                assert(old(self).owned_by(a).contains(t) <==> (
                old(self).tokens_by_id@.contains_key(t) && old(self).tokens_by_id@[t].owner_id@
                    == a));
                assert(self.owned_by(a) == old(self).owned_by(a));
                if t == token_id@ {
                    assert(self.tokens_by_id@[t].owner_id@ == t0.owner_id@);
                } else {
                    assert(self.tokens_by_id@.contains_key(t) == old(
                        self,
                    ).tokens_by_id@.contains_key(t));
                    if self.tokens_by_id@.contains_key(t) {
                        assert(self.tokens_by_id@[t] == old(self).tokens_by_id@[t]);
                    }
                }
            }
        }
        Result::Ok(refund)
    }

    /// Withdraws every approval on `token_id`. Only the owner may call,
    /// with exactly one balance unit attached. Returns the storage
    /// deposit refunded for the freed entries.
    pub fn nft_revoke_all(&mut self, ctx: &RequestContext, token_id: TokenId) -> (r: Result<
        u128,
        Error,
    >)
        requires
            old(self).wf(),
            old(self).refund_fits(token_id@),
        ensures
            final(self).wf(),
            match r {
                Result::Ok(refund) => {
                    let t0 = old(self).tokens_by_id@[token_id@];
                    &&& ctx.attached_deposit == 1
                    &&& old(self).tokens_by_id@.contains_key(token_id@)
                    &&& ctx.predecessor_id@ == t0.owner_id@
                    &&& final(self).tokens_by_id@.contains_key(token_id@)
                    &&& final(self).tokens_by_id@ == old(self).tokens_by_id@.insert(
                        token_id@,
                        final(self).tokens_by_id@[token_id@],
                    )
                    &&& final(self).tokens_by_id@[token_id@].approved_account_ids@ == Map::<
                        Seq<char>,
                        u64,
                    >::empty()
                    &&& final(self).tokens_by_id@[token_id@].approved_account_ids.spec_entries()
                        == Seq::<(Seq<char>, u64)>::empty()
                    &&& final(self).tokens_by_id@[token_id@].next_approval_id
                        == t0.next_approval_id
                    &&& final(self).tokens_by_id@[token_id@].owner_id@ == t0.owner_id@
                    &&& final(self).tokens_by_id@[token_id@].royalty@ == t0.royalty@
                    &&& final(self).tokens_by_id@[token_id@].token_type == t0.token_type
                    &&& refund == crate::token::approvals_refund(
                        t0.approved_account_ids.spec_entries(),
                    )
                    &&& *final(self) == (Contract {
                        tokens_by_id: final(self).tokens_by_id,
                        ..*old(self)
                    })
                },
                Result::Err(e) => {
                    &&& (e == Error::InsufficientDeposit || e == Error::NotFound
                        || e == Error::Unauthorized)
                    &&& *final(self) == *old(self)
                    &&& ((e == Error::InsufficientDeposit) <==> ctx.attached_deposit != 1)
                    &&& ((e == Error::NotFound) <==> (ctx.attached_deposit == 1 && !old(
                        self,
                    ).tokens_by_id@.contains_key(token_id@)))
                    &&& ((e == Error::Unauthorized) <==> (ctx.attached_deposit == 1 && old(
                        self,
                    ).tokens_by_id@.contains_key(token_id@) && ctx.predecessor_id@ != old(
                        self,
                    ).tokens_by_id@[token_id@].owner_id@))
                },
            },
    {
        if ctx.attached_deposit != 1 {
            return Result::Err(Error::InsufficientDeposit);
        }
        match self.tokens_by_id.get(&token_id) {
            Option::None => {
                return Result::Err(Error::NotFound);
            },
            Option::Some(token) => {
                if !(ctx.predecessor_id == token.owner_id) {
                    return Result::Err(Error::Unauthorized);
                }
            },
        };
        let mut token = self.tokens_by_id.remove(&token_id).unwrap();
        let ghost t0 = old(self).tokens_by_id@[token_id@];
        proof {
            assert(t0.wf());
        }
        let refund = refund_for_approvals(&token.approved_account_ids);
        token.approved_account_ids.clear();
        self.tokens_by_id.insert(token_id.clone(), token);
        proof {
            assert(self.tokens_by_id@ =~= old(self).tokens_by_id@.insert(
                token_id@,
                self.tokens_by_id@[token_id@],
            ));
            assert forall|a: Seq<char>, t: Seq<char>|
                self.owned_by(a).contains(t) <==> (self.tokens_by_id@.contains_key(t)
                    && self.tokens_by_id@[t].owner_id@ == a) by {
                assert(old(self).owned_by(a).contains(t) <==> (
                old(self).tokens_by_id@.contains_key(t) && old(self).tokens_by_id@[t].owner_id@
                    == a));
                assert(self.owned_by(a) == old(self).owned_by(a));
                if t == token_id@ {
                    assert(self.tokens_by_id@[t].owner_id@ == t0.owner_id@);
                } else {
                    assert(self.tokens_by_id@.contains_key(t) == old(
                        self,
                    ).tokens_by_id@.contains_key(t));
                    if self.tokens_by_id@.contains_key(t) {
                        assert(self.tokens_by_id@[t] == old(self).tokens_by_id@[t]);
                    }
                }
            }
        }
        Result::Ok(refund)
    }

    /// The read-only payout query: how `balance` would be split for
    /// `token_id` under its royalties and the registry-level rates. The
    /// combined royalty caps are not enforced here; only the receiver
    /// count is.
    pub fn nft_payout(&self, token_id: &String, balance: u128, max_len_payout: u32) -> (r: Result<
        Payout,
        Error,
    >)
        requires
            self.wf(),
            balance <= u128::MAX / 10000,
            self.tokens_by_id@.contains_key(token_id@) ==> total_all_bps(
                self.tokens_by_id@[token_id@].royalty.spec_entries(),
                self.tokens_by_id@[token_id@].owner_id@,
                self.owner_id@,
                self.contract_royalty_owner,
                self.contract_royalty_satori,
            ) <= 10000,
        ensures
            match r {
                Result::Ok(p) => {
                    let t0 = self.tokens_by_id@[token_id@];
                    &&& self.tokens_by_id@.contains_key(token_id@)
                    &&& t0.royalty.spec_entries().len() <= max_len_payout
                    &&& p.payout.wf()
                    &&& p.payout@ == assoc_map(
                        payout_entries(
                            t0.royalty.spec_entries(),
                            t0.owner_id@,
                            self.owner_id@,
                            self.contract_royalty_owner,
                            self.contract_royalty_satori,
                            balance as int,
                            false,
                        ),
                    )
                    &&& (distinct_roles(
                        t0.royalty.spec_entries(),
                        t0.owner_id@,
                        self.owner_id@,
                        self.contract_royalty_owner,
                        self.contract_royalty_satori,
                    ) ==> p.payout.spec_entries() == payout_entries(
                        t0.royalty.spec_entries(),
                        t0.owner_id@,
                        self.owner_id@,
                        self.contract_royalty_owner,
                        self.contract_royalty_satori,
                        balance as int,
                        false,
                    ))
                },
                Result::Err(e) => {
                    &&& (e == Error::NotFound || e == Error::TooManyReceivers)
                    &&& ((e == Error::NotFound) <==> !self.tokens_by_id@.contains_key(token_id@))
                    &&& ((e == Error::TooManyReceivers) <==> (self.tokens_by_id@.contains_key(
                        token_id@,
                    ) && self.tokens_by_id@[token_id@].royalty.spec_entries().len()
                        > max_len_payout))
                },
            },
    {
        let token = match self.tokens_by_id.get(token_id) {
            Option::None => {
                return Result::Err(Error::NotFound);
            },
            Option::Some(token) => token,
        };
        proof {
            assert(self.tokens_by_id@[token_id@].wf());
        }
        compute_payout(
            &token.royalty,
            &token.owner_id,
            &self.owner_id,
            self.contract_royalty_owner,
            self.contract_royalty_satori,
            balance,
            max_len_payout,
        )
    }

    /// The payout-aware transfer: authorizes, validates the payout
    /// against the receiver-count bound and the combined royalty caps,
    /// then transfers and returns the payout computed with the previous
    /// owner as the remainder recipient, the structured transfer event,
    /// and the approval-storage refund. All checks precede any mutation.
    pub fn nft_transfer_payout(
        &mut self,
        ctx: &RequestContext,
        receiver_id: AccountId,
        token_id: TokenId,
        approval_id: u64,
        memo: Option<String>,
        balance: Option<u128>,
        max_len_payout: Option<u32>,
    ) -> (r: Result<(Option<Payout>, TransferEvent, u128), Error>)
        requires
            old(self).wf(),
            valid_account_id(receiver_id@),
            old(self).refund_fits(token_id@),
            balance is Some ==> balance->0 <= u128::MAX / 10000,
        ensures
            final(self).wf(),
            match r {
                Result::Ok((payout_opt, event, refund)) => {
                    let t0 = old(self).tokens_by_id@[token_id@];
                    &&& ctx.attached_deposit == 1
                    &&& spec_transferred(*old(self), *final(self), token_id@, receiver_id@)
                    &&& t0.transfer_authorized(ctx.predecessor_id@, Option::Some(approval_id))
                    &&& refund == crate::token::approvals_refund(
                        t0.approved_account_ids.spec_entries(),
                    )
                    &&& event.old_owner_id@ == t0.owner_id@
                    &&& event.new_owner_id@ == receiver_id@
                    &&& event.token_id@ == token_id@
                    &&& (match payout_opt {
                        Option::Some(p) => {
                            &&& balance is Some
                            &&& (match max_len_payout {
                                Option::Some(m) => t0.royalty.spec_entries().len() <= m,
                                Option::None => true,
                            })
                            &&& total_all_bps(
                                t0.royalty.spec_entries(),
                                t0.owner_id@,
                                old(self).owner_id@,
                                old(self).contract_royalty_owner,
                                old(self).contract_royalty_satori,
                            ) <= MINTER_ROYALTY_CAP + CONTRACT_ROYALTY_CAP
                            &&& p.payout.wf()
                            &&& p.payout@ == assoc_map(
                                payout_entries(
                                    t0.royalty.spec_entries(),
                                    t0.owner_id@,
                                    old(self).owner_id@,
                                    old(self).contract_royalty_owner,
                                    old(self).contract_royalty_satori,
                                    balance->0 as int,
                                    true,
                                ),
                            )
                            &&& (distinct_roles(
                                t0.royalty.spec_entries(),
                                t0.owner_id@,
                                old(self).owner_id@,
                                old(self).contract_royalty_owner,
                                old(self).contract_royalty_satori,
                            ) ==> p.payout.spec_entries() == payout_entries(
                                t0.royalty.spec_entries(),
                                t0.owner_id@,
                                old(self).owner_id@,
                                old(self).contract_royalty_owner,
                                old(self).contract_royalty_satori,
                                balance->0 as int,
                                true,
                            ))
                        },
                        Option::None => balance is None,
                    })
                    &&& *final(self) == (Contract {
                        tokens_by_id: final(self).tokens_by_id,
                        tokens_per_owner: final(self).tokens_per_owner,
                        ..*old(self)
                    })
                },
                Result::Err(e) => {
                    &&& (e == Error::InsufficientDeposit || e == Error::NotFound
                        || e == Error::Unauthorized || e == Error::TooManyReceivers
                        || e == Error::RoyaltyCapExceeded)
                    &&& *final(self) == *old(self)
                    &&& ((e == Error::InsufficientDeposit) <==> ctx.attached_deposit != 1)
                    &&& ((e == Error::NotFound) <==> (ctx.attached_deposit == 1 && !old(
                        self,
                    ).tokens_by_id@.contains_key(token_id@)))
                    &&& ((e == Error::Unauthorized) <==> (ctx.attached_deposit == 1 && old(
                        self,
                    ).tokens_by_id@.contains_key(token_id@) && !(old(
                        self,
                    ).tokens_by_id@[token_id@].transfer_authorized(
                        ctx.predecessor_id@,
                        Option::Some(approval_id),
                    ) && receiver_id@ != old(self).tokens_by_id@[token_id@].owner_id@)))
                    &&& ((e == Error::TooManyReceivers) ==> (balance is Some
                        && max_len_payout is Some && old(
                        self,
                    ).tokens_by_id@[token_id@].royalty.spec_entries().len() > max_len_payout->0))
                    &&& ((e == Error::RoyaltyCapExceeded) ==> (balance is Some && total_all_bps(
                        old(self).tokens_by_id@[token_id@].royalty.spec_entries(),
                        old(self).tokens_by_id@[token_id@].owner_id@,
                        old(self).owner_id@,
                        old(self).contract_royalty_owner,
                        old(self).contract_royalty_satori,
                    ) > MINTER_ROYALTY_CAP + CONTRACT_ROYALTY_CAP))
                },
            },
    {
        if ctx.attached_deposit != 1 {
            return Result::Err(Error::InsufficientDeposit);
        }
        // Authorization is checked before the payout so that its
        // failures take precedence, and the payout is validated before
        // any mutation so that a refused payout leaves nothing changed.
        match self.tokens_by_id.get(&token_id) {
            Option::None => {
                return Result::Err(Error::NotFound);
            },
            Option::Some(token) => {
                if !(ctx.predecessor_id == token.owner_id) {
                    match token.approved_account_ids.get(&ctx.predecessor_id) {
                        Option::None => {
                            return Result::Err(Error::Unauthorized);
                        },
                        Option::Some(stored) => {
                            if *stored != approval_id {
                                return Result::Err(Error::Unauthorized);
                            }
                        },
                    }
                }
                if receiver_id == token.owner_id {
                    return Result::Err(Error::Unauthorized);
                }
            },
        }
        let payout_opt: Option<Payout> = match balance {
            Option::Some(b) => {
                let token = self.tokens_by_id.get(&token_id).unwrap();
                proof {
                    assert(self.tokens_by_id@[token_id@].wf());
                }
                match compute_payout_capped(
                    &token.royalty,
                    &token.owner_id,
                    &self.owner_id,
                    self.contract_royalty_owner,
                    self.contract_royalty_satori,
                    b,
                    max_len_payout,
                ) {
                    Result::Ok(p) => Option::Some(p),
                    Result::Err(e) => {
                        return Result::Err(e);
                    },
                }
            },
            Option::None => Option::None,
        };
        let previous_token = match self.internal_transfer(
            &ctx.predecessor_id,
            &receiver_id,
            &token_id,
            Option::Some(approval_id),
        ) {
            Result::Ok(prev) => prev,
            Result::Err(e) => {
                proof {
                    assert(false);
                }
                return Result::Err(e);
            },
        };
        let refund = refund_for_approvals(&previous_token.approved_account_ids);
        let event = TransferEvent {
            old_owner_id: previous_token.owner_id,
            new_owner_id: receiver_id,
            token_id,
        };
        Result::Ok((payout_opt, event, refund))
    }

    /// Number of tokens the registry has recorded metadata for.
    pub fn nft_total_supply(&self) -> (r: u64)
        requires
            self.wf(),
        ensures
            r == self.token_metadata_by_id@.dom().len(),
    {
        self.token_metadata_by_id.len() as u64
    }

    /// The token joined with its metadata, as reported to callers; a
    /// missing title defaults to the token id.
    pub fn nft_token(&self, token_id: TokenId) -> (r: Option<JsonToken>)
        requires
            self.wf(),
            self.tokens_by_id@.contains_key(token_id@) ==> self.token_metadata_by_id@.contains_key(
                token_id@,
            ),
        ensures
            r is Some <==> self.tokens_by_id@.contains_key(token_id@),
            match r {
                Option::Some(j) => {
                    let t0 = self.tokens_by_id@[token_id@];
                    let m0 = self.token_metadata_by_id@[token_id@];
                    &&& j.token_id@ == token_id@
                    &&& j.owner_id@ == t0.owner_id@
                    &&& j.royalty@ == t0.royalty@
                    &&& j.approved_account_ids@ == t0.approved_account_ids@
                    &&& j.token_type == t0.token_type
                    &&& j.metadata.title is Some
                    &&& j.metadata.title->0@ == (if m0.title is Some {
                        m0.title->0@
                    } else {
                        token_id@
                    })
                },
                Option::None => true,
            },
    {
        let token = match self.tokens_by_id.get(&token_id) {
            Option::None => {
                return Option::None;
            },
            Option::Some(token) => token,
        };
        proof {
            assert(self.tokens_by_id@[token_id@].wf());
        }
        let stored = self.token_metadata_by_id.get(&token_id).unwrap();
        let mut metadata = stored.duplicate();
        if metadata.title.is_none() {
            metadata.title = Option::Some(token_id.clone());
        }
        Option::Some(
            JsonToken {
                owner_id: token.owner_id.clone(),
                metadata,
                royalty: token.royalty.duplicate(),
                approved_account_ids: token.approved_account_ids.duplicate(),
                token_type: match &token.token_type {
                    Option::Some(t) => Option::Some(t.clone()),
                    Option::None => Option::None,
                },
                token_id,
            },
        )
    }
}


} // verus!
