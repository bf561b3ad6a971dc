//! The token record and the storage-rent cost model.

use vstd::prelude::*;
use vstd::string::StrSliceExecFns;

use crate::str_map::StringMap;
use crate::{valid_account_id, AccountId, TokenId, STORAGE_PRICE_PER_BYTE};

verus! {

/// A uniquely owned token: its owner, its royalty configuration in basis
/// points, its live approval grants, and the monotonic approval counter.
pub struct Token {
    pub owner_id: AccountId,
    pub royalty: StringMap<u32>,
    pub approved_account_ids: StringMap<u64>,
    pub next_approval_id: u64,
    pub token_type: Option<String>,
}

impl Token {
    /// Internal consistency: distinct keys in both maps, a valid owner,
    /// valid approved accounts, and every granted approval id below the
    /// counter that will issue the next one.
    pub open spec fn wf(self) -> bool {
        &&& self.royalty.wf()
        &&& self.approved_account_ids.wf()
        &&& valid_account_id(self.owner_id@)
        &&& forall|a: Seq<char>|
            self.approved_account_ids@.contains_key(a) ==> #[trigger] self.approved_account_ids@[a]
                < self.next_approval_id
        &&& forall|a: Seq<char>|
            #[trigger] self.approved_account_ids@.contains_key(a) ==> valid_account_id(a)
    }

    /// Whether `sender` may transfer this token: the owner always may; an
    /// approved account may when it presents no approval id, or presents
    /// exactly the id stored for it.
    pub open spec fn transfer_authorized(self, sender: Seq<char>, approval_id: Option<u64>) -> bool {
        ||| sender == self.owner_id@
        ||| (self.approved_account_ids@.contains_key(sender) && match approval_id {
            Option::None => true,
            Option::Some(id) => self.approved_account_ids@[sender] == id,
        })
    }
}

/// Bytes of durable storage one approval-map entry occupies: the account
/// identifier plus a fixed serialization overhead.
pub open spec fn spec_bytes_for_approved_account(account: Seq<char>) -> int {
    account.len() + 12int
}

/// Storage bytes held by a whole approval map.
pub open spec fn approvals_bytes(s: Seq<(Seq<char>, u64)>) -> int
    decreases s.len(),
{
    if s.len() == 0 {
        0
    } else {
        approvals_bytes(s.drop_last()) + spec_bytes_for_approved_account(s.last().0)
    }
}

/// The deposit refunded when a whole approval map is released.
pub open spec fn approvals_refund(s: Seq<(Seq<char>, u64)>) -> int {
    approvals_bytes(s) * STORAGE_PRICE_PER_BYTE
}

proof fn lemma_approvals_bytes_nonneg(s: Seq<(Seq<char>, u64)>)
    ensures
        approvals_bytes(s) >= 0,
    decreases s.len(),
{
    if s.len() > 0 {
        lemma_approvals_bytes_nonneg(s.drop_last());
    }
}

/// Storage bytes for one approval-map entry.
pub fn bytes_for_approved_account_id(account_id: &String) -> (r: u64)
    requires
        valid_account_id(account_id@),
    ensures
        r == spec_bytes_for_approved_account(account_id@),
{
    (account_id.as_str().unicode_len() as u64) + 12
}

/// The deposit released by dropping every entry of `approvals`.
pub fn refund_for_approvals(approvals: &StringMap<u64>) -> (r: u128)
    requires
        approvals.wf(),
        forall|a: Seq<char>| #[trigger] approvals@.contains_key(a) ==> valid_account_id(a),
        approvals_refund(approvals.spec_entries()) <= u128::MAX,
    ensures
        r == approvals_refund(approvals.spec_entries()),
{
    let entries = approvals.entries();
    let ghost s = approvals.spec_entries();
    let mut total: u128 = 0;
    let mut i: usize = 0;
    let n = entries.len();
    while i < n
        invariant
            i <= n,
            n == s.len(),
            entries@.len() == s.len(),
            forall|j: int|
                0 <= j < entries@.len() ==> (#[trigger] s[j]) == (entries@[j].0@, entries@[j].1),
            approvals.wf(),
            approvals.spec_entries() == s,
            forall|a: Seq<char>| #[trigger] approvals@.contains_key(a) ==> valid_account_id(a),
            total == approvals_bytes(s.subrange(0, i as int)),
            total <= 76 * i,
        decreases n - i,
    {
        proof {
            approvals.lemma_entry_in_map(i as int);
            assert(valid_account_id(s[i as int].0));
            assert(s.subrange(0, i + 1).drop_last() =~= s.subrange(0, i as int));
            assert(s.subrange(0, i + 1).last() == s[i as int]);
        }
        let b = bytes_for_approved_account_id(&entries[i].0);
        total = total + b as u128;
        i = i + 1;
    }
    proof {
        assert(s.subrange(0, n as int) =~= s);
        lemma_approvals_bytes_nonneg(s);
    }
    total * STORAGE_PRICE_PER_BYTE
}

/// A royalty share in basis points applied to a balance, rounded down.
pub open spec fn spec_royalty_to_payout(bps: int, balance: int) -> int {
    bps * balance / 10000
}

/// Applies a basis-point rate to a balance.
pub fn royalty_to_payout(royalty_percentage: u32, amount_to_pay: u128) -> (r: u128)
    requires
        royalty_percentage * amount_to_pay <= u128::MAX,
    ensures
        r == spec_royalty_to_payout(royalty_percentage as int, amount_to_pay as int),
{
    (royalty_percentage as u128) * amount_to_pay / 10000
}

/// Descriptive fields attached to one token.
pub struct TokenMetadata {
    pub title: Option<String>,
    pub description: Option<String>,
    pub media: Option<String>,
    pub media_hash: Option<Vec<u8>>,
    pub copies: Option<u64>,
    pub issued_at: Option<u64>,
    pub expires_at: Option<u64>,
    pub starts_at: Option<u64>,
    pub updated_at: Option<u64>,
    pub extra: Option<String>,
    pub reference: Option<String>,
    pub reference_hash: Option<Vec<u8>>,
}

/// Descriptive fields for the registry as a whole.
pub struct NFTMetadata {
    pub spec: String,
    pub name: String,
    pub symbol: String,
    pub icon: Option<String>,
    pub base_uri: Option<String>,
    pub reference: Option<String>,
    pub reference_hash: Option<Vec<u8>>,
}

/// A token as reported to callers: the stored record joined with its
/// metadata.
pub struct JsonToken {
    pub token_id: TokenId,
    pub owner_id: AccountId,
    pub metadata: TokenMetadata,
    pub royalty: StringMap<u32>,
    pub approved_account_ids: StringMap<u64>,
    pub token_type: Option<String>,
}

fn copy_bytes(v: &Vec<u8>) -> (r: Vec<u8>)
    ensures
        r@ == v@,
{
    let mut out: Vec<u8> = Vec::new();
    let mut i: usize = 0;
    let n = v.len();
    while i < n
        invariant
            i <= n,
            n == v@.len(),
            out@.len() == i,
            forall|j: int| 0 <= j < i ==> out@[j] == v@[j],
        decreases n - i,
    {
        out.push(v[i]);
        i = i + 1;
    }
    proof {
        assert(out@ =~= v@);
    }
    out
}

fn copy_opt_string(v: &Option<String>) -> (r: Option<String>)
    ensures
        match r {
            Option::Some(s) => v is Some && s@ == v->0@,
            Option::None => v is None,
        },
{
    match v {
        Option::Some(s) => Option::Some(s.clone()),
        Option::None => Option::None,
    }
}

fn copy_opt_bytes(v: &Option<Vec<u8>>) -> (r: Option<Vec<u8>>)
    ensures
        match r {
            Option::Some(s) => v is Some && s@ == v->0@,
            Option::None => v is None,
        },
{
    match v {
        Option::Some(s) => Option::Some(copy_bytes(s)),
        Option::None => Option::None,
    }
}

impl TokenMetadata {
    /// A fresh copy whose string and byte fields view the same.
    pub fn duplicate(&self) -> (r: TokenMetadata)
        ensures
            r.title is Some <==> self.title is Some,
            r.title is Some ==> r.title->0@ == self.title->0@,
            r.copies == self.copies,
            r.issued_at == self.issued_at,
            r.expires_at == self.expires_at,
            r.starts_at == self.starts_at,
            r.updated_at == self.updated_at,
    {
        TokenMetadata {
            title: copy_opt_string(&self.title),
            description: copy_opt_string(&self.description),
            media: copy_opt_string(&self.media),
            media_hash: copy_opt_bytes(&self.media_hash),
            copies: self.copies,
            issued_at: self.issued_at,
            expires_at: self.expires_at,
            starts_at: self.starts_at,
            updated_at: self.updated_at,
            extra: copy_opt_string(&self.extra),
            reference: copy_opt_string(&self.reference),
            reference_hash: copy_opt_bytes(&self.reference_hash),
        }
    }
}

} // verus!
