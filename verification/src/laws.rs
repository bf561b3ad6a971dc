//! Registry-wide guarantees that relate several operations, stated and
//! proved over the effect predicates the operations' contracts use.

use vstd::prelude::*;

use crate::nft_core::spec_approval_granted;
use crate::registry::{spec_transferred, Contract};

verus! {

/// Approval ids are strictly increasing per token: of two grants made
/// one after the other on the same token, the second carries the larger
/// id, whoever received them.
pub proof fn lemma_approval_ids_strictly_increase(
    c0: Contract,
    c1: Contract,
    c2: Contract,
    t: Seq<char>,
    account1: Seq<char>,
    account2: Seq<char>,
    id1: u64,
    id2: u64,
)
    requires
        spec_approval_granted(c0, c1, t, account1, id1),
        spec_approval_granted(c1, c2, t, account2, id2),
    ensures
        id2 > id1,
{
}

/// A transfer wholesale invalidates the approvals that were granted
/// before it: afterwards no account other than the new owner is
/// authorized, whichever approval id it presents.
pub proof fn lemma_transfer_invalidates_approvals(
    pre: Contract,
    post: Contract,
    t: Seq<char>,
    receiver: Seq<char>,
    sender: Seq<char>,
    id: u64,
)
    requires
        spec_transferred(pre, post, t, receiver),
        sender != receiver,
    ensures
        !post.tokens_by_id@[t].transfer_authorized(sender, Option::Some(id)),
{
}

/// An approval id superseded by a transfer never becomes valid for its
/// former holder again, even when the counter reissues the same number
/// to a different account afterwards.
pub proof fn lemma_reissued_id_does_not_authorize_former_holder(
    pre: Contract,
    mid: Contract,
    post: Contract,
    t: Seq<char>,
    receiver: Seq<char>,
    former: Seq<char>,
    grantee: Seq<char>,
    id: u64,
)
    requires
        spec_transferred(pre, mid, t, receiver),
        spec_approval_granted(mid, post, t, grantee, id),
        former != grantee,
        former != receiver,
    ensures
        !post.tokens_by_id@[t].transfer_authorized(former, Option::Some(id)),
{
    assert(!post.tokens_by_id@[t].approved_account_ids@.contains_key(former));
}

} // verus!
