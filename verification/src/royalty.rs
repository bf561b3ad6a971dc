//! The royalty calculator: splits a sale balance between the token's
//! royalty recipients, the registry owner, the platform account, and the
//! current owner, in fixed-point basis points with denominator 10000.

use vstd::prelude::*;

use crate::str_map::{assoc_map, lemma_assoc_map_contains, nodup_keys, StringMap};
use crate::token::{royalty_to_payout, spec_royalty_to_payout};
use crate::{Error, CONTRACT_ROYALTY_CAP, MINTER_ROYALTY_CAP};

verus! {

/// A payout split: each account mapped to the absolute amount it receives.
pub struct Payout {
    pub payout: StringMap<u128>,
}

/// The fixed platform account.
pub open spec fn satori_account() -> Seq<char> {
    "snft.near"@
}

/// The platform account as a string value.
pub fn satori_account_id() -> (r: String)
    ensures
        r@ == satori_account(),
{
    "snft.near".to_owned()
}

/// Total basis points over the royalty entries whose account is not the
/// current owner.
pub open spec fn total_perpetual_bps(s: Seq<(Seq<char>, u32)>, owner: Seq<char>) -> int
    decreases s.len(),
{
    if s.len() == 0 {
        0
    } else {
        total_perpetual_bps(s.drop_last(), owner) + if s.last().0 != owner {
            s.last().1 as int
        } else {
            0
        }
    }
}

/// Whether the registry-owner share applies.
pub open spec fn registry_share_applies(owner: Seq<char>, reg_owner: Seq<char>, rate_owner: u32) -> bool {
    rate_owner > 0 && reg_owner != owner
}

/// Total basis points paid away from the owner: the token's own royalties
/// plus the registry-owner and platform shares where they apply.
pub open spec fn total_all_bps(
    s: Seq<(Seq<char>, u32)>,
    owner: Seq<char>,
    reg_owner: Seq<char>,
    rate_owner: u32,
    rate_satori: u32,
) -> int {
    total_perpetual_bps(s, owner) + (if registry_share_applies(owner, reg_owner, rate_owner) {
        rate_owner as int
    } else {
        0
    }) + (if rate_satori > 0 {
        rate_satori as int
    } else {
        0
    })
}

/// Payout entries derived from the royalty map alone: one entry per
/// royalty recipient other than the owner, in storage order.
pub open spec fn royalty_payout_entries(
    s: Seq<(Seq<char>, u32)>,
    owner: Seq<char>,
    balance: int,
) -> Seq<(Seq<char>, u128)>
    decreases s.len(),
{
    if s.len() == 0 {
        Seq::empty()
    } else {
        let rest = royalty_payout_entries(s.drop_last(), owner, balance);
        if s.last().0 != owner {
            rest.push(
                (s.last().0, spec_royalty_to_payout(s.last().1 as int, balance) as u128),
            )
        } else {
            rest
        }
    }
}

/// The full payout as an entry sequence: royalty recipients, then the
/// registry owner and platform shares where they apply, then the owner's
/// remainder. With `always_remainder` false, a zero remainder is omitted.
pub open spec fn payout_entries(
    s: Seq<(Seq<char>, u32)>,
    owner: Seq<char>,
    reg_owner: Seq<char>,
    rate_owner: u32,
    rate_satori: u32,
    balance: int,
    always_remainder: bool,
) -> Seq<(Seq<char>, u128)> {
    let base = royalty_payout_entries(s, owner, balance);
    let with_reg = if registry_share_applies(owner, reg_owner, rate_owner) {
        base.push((reg_owner, spec_royalty_to_payout(rate_owner as int, balance) as u128))
    } else {
        base
    };
    let with_sat = if rate_satori > 0 {
        with_reg.push(
            (satori_account(), spec_royalty_to_payout(rate_satori as int, balance) as u128),
        )
    } else {
        with_reg
    };
    let rem = spec_royalty_to_payout(
        10000 - total_all_bps(s, owner, reg_owner, rate_owner, rate_satori),
        balance,
    );
    if always_remainder || rem > 0 {
        with_sat.push((owner, rem as u128))
    } else {
        with_sat
    }
}

/// No account would be paid under two roles at once: the registry owner
/// and the platform account, where their shares apply, are distinct from
/// every royalty recipient, from the owner, and from each other.
pub open spec fn distinct_roles(
    s: Seq<(Seq<char>, u32)>,
    owner: Seq<char>,
    reg_owner: Seq<char>,
    rate_owner: u32,
    rate_satori: u32,
) -> bool {
    &&& (registry_share_applies(owner, reg_owner, rate_owner) ==> forall|i: int|
        0 <= i < s.len() ==> (#[trigger] s[i]).0 != reg_owner)
    &&& (rate_satori > 0 ==> forall|i: int|
        0 <= i < s.len() ==> (#[trigger] s[i]).0 != satori_account())
    &&& (rate_satori > 0 ==> satori_account() != owner)
    &&& (rate_satori > 0 && registry_share_applies(owner, reg_owner, rate_owner)
        ==> satori_account() != reg_owner)
}

proof fn lemma_total_perpetual_nonneg(s: Seq<(Seq<char>, u32)>, owner: Seq<char>)
    ensures
        total_perpetual_bps(s, owner) >= 0,
    decreases s.len(),
{
    if s.len() > 0 {
        lemma_total_perpetual_nonneg(s.drop_last(), owner);
    }
}

/// Each royalty share other than the owner's is bounded by the total.
proof fn lemma_bps_le_total(s: Seq<(Seq<char>, u32)>, owner: Seq<char>, i: int)
    requires
        0 <= i < s.len(),
        s[i].0 != owner,
    ensures
        s[i].1 <= total_perpetual_bps(s, owner),
    decreases s.len(),
{
    lemma_total_perpetual_nonneg(s.drop_last(), owner);
    if i == s.len() - 1 {
    } else {
        lemma_bps_le_total(s.drop_last(), owner, i);
        assert(s.drop_last()[i] == s[i]);
    }
}

/// Keys of the royalty-derived payout entries come from the royalty map
/// and never name the owner.
proof fn lemma_royalty_entries_keys(
    s: Seq<(Seq<char>, u32)>,
    owner: Seq<char>,
    balance: int,
    k: Seq<char>,
)
    requires
        exists|j: int|
            0 <= j < royalty_payout_entries(s, owner, balance).len()
                && royalty_payout_entries(s, owner, balance)[j].0 == k,
    ensures
        k != owner,
        exists|i: int| 0 <= i < s.len() && (#[trigger] s[i]).0 == k,
    decreases s.len(),
{
    let e = royalty_payout_entries(s, owner, balance);
    let rest = royalty_payout_entries(s.drop_last(), owner, balance);
    let j = choose|j: int| 0 <= j < e.len() && e[j].0 == k;
    if s.last().0 != owner && j == e.len() - 1 {
        assert(s[s.len() - 1].0 == k);
    } else {
        assert(rest[j].0 == k);
        lemma_royalty_entries_keys(s.drop_last(), owner, balance, k);
        let i = choose|i: int| 0 <= i < s.drop_last().len() && (#[trigger] s.drop_last()[i]).0 == k;
        assert(s[i].0 == k);
    }
}

/// The total amount paid out by an entry sequence.
pub open spec fn sum_values(s: Seq<(Seq<char>, u128)>) -> int
    decreases s.len(),
{
    if s.len() == 0 {
        0
    } else {
        sum_values(s.drop_last()) + s.last().1
    }
}

/// A share of `b` basis points of a balance divisible by 10000 is exactly
/// `b` times one ten-thousandth of it.
proof fn lemma_exact_share(b: int, balance: int)
    requires
        0 <= b <= 10000,
        0 <= balance <= u128::MAX,
        balance % 10000 == 0,
    ensures
        spec_royalty_to_payout(b, balance) == b * (balance / 10000),
        0 <= spec_royalty_to_payout(b, balance) <= u128::MAX,
        spec_royalty_to_payout(b, balance) as u128 == spec_royalty_to_payout(b, balance),
{
    let q = balance / 10000;
    vstd::arithmetic::div_mod::lemma_fundamental_div_mod(balance, 10000);
    assert(balance == 10000 * q);
    assert(b * balance == 10000 * (b * q)) by (nonlinear_arith)
        requires
            balance == 10000 * q,
    ;
    vstd::arithmetic::div_mod::lemma_div_multiples_vanish(b * q, 10000);
    assert(spec_royalty_to_payout(b, balance) == b * q);
    assert(0 <= b * q <= 10000 * q) by (nonlinear_arith)
        requires
            0 <= b <= 10000,
            0 <= q,
    ;
    assert(10000 * q <= balance);
}

proof fn lemma_royalty_entries_sum(s: Seq<(Seq<char>, u32)>, owner: Seq<char>, balance: int)
    requires
        0 <= balance <= u128::MAX,
        balance % 10000 == 0,
        total_perpetual_bps(s, owner) <= 10000,
    ensures
        sum_values(royalty_payout_entries(s, owner, balance)) == total_perpetual_bps(s, owner) * (
        balance / 10000),
    decreases s.len(),
{
    let q = balance / 10000;
    if s.len() == 0 {
        assert(total_perpetual_bps(s, owner) * q == 0) by (nonlinear_arith)
            requires
                total_perpetual_bps(s, owner) == 0,
        ;
    } else {
        let t = s.drop_last();
        lemma_total_perpetual_nonneg(t, owner);
        lemma_royalty_entries_sum(t, owner, balance);
        if s.last().0 != owner {
            let b = s.last().1 as int;
            lemma_exact_share(b, balance);
            assert(royalty_payout_entries(s, owner, balance).drop_last() =~= royalty_payout_entries(
                t,
                owner,
                balance,
            ));
            assert((total_perpetual_bps(t, owner) + b) * q == total_perpetual_bps(t, owner) * q + b
                * q) by (nonlinear_arith);
        }
    }
}

/// The payout entries for a balance divisible by 10000 sum to exactly
/// that balance: every basis-point share divides evenly, and the owner's
/// remainder (written or omitted when zero) accounts for the rest.
pub proof fn lemma_payout_entries_sum(
    s: Seq<(Seq<char>, u32)>,
    owner: Seq<char>,
    reg_owner: Seq<char>,
    rate_owner: u32,
    rate_satori: u32,
    balance: int,
    always_remainder: bool,
)
    requires
        0 <= balance <= u128::MAX,
        balance % 10000 == 0,
        total_all_bps(s, owner, reg_owner, rate_owner, rate_satori) <= 10000,
    ensures
        sum_values(
            payout_entries(s, owner, reg_owner, rate_owner, rate_satori, balance, always_remainder),
        ) == balance,
{
    let q = balance / 10000;
    let tp = total_perpetual_bps(s, owner);
    let ta = total_all_bps(s, owner, reg_owner, rate_owner, rate_satori);
    lemma_total_perpetual_nonneg(s, owner);
    lemma_royalty_entries_sum(s, owner, balance);
    let base = royalty_payout_entries(s, owner, balance);
    let with_reg = if registry_share_applies(owner, reg_owner, rate_owner) {
        base.push((reg_owner, spec_royalty_to_payout(rate_owner as int, balance) as u128))
    } else {
        base
    };
    let reg_part: int = if registry_share_applies(owner, reg_owner, rate_owner) {
        rate_owner as int
    } else {
        0
    };
    let sat_part: int = if rate_satori > 0 {
        rate_satori as int
    } else {
        0
    };
    if registry_share_applies(owner, reg_owner, rate_owner) {
        lemma_exact_share(rate_owner as int, balance);
        assert(with_reg.drop_last() =~= base);
        assert(sum_values(with_reg) == tp * q + reg_part * q);
    } else {
        assert(sum_values(with_reg) == tp * q + reg_part * q) by (nonlinear_arith)
            requires
                sum_values(with_reg) == tp * q,
                reg_part == 0,
        ;
    }
    let with_sat = if rate_satori > 0 {
        with_reg.push(
            (satori_account(), spec_royalty_to_payout(rate_satori as int, balance) as u128),
        )
    } else {
        with_reg
    };
    if rate_satori > 0 {
        lemma_exact_share(rate_satori as int, balance);
        assert(with_sat.drop_last() =~= with_reg);
        assert(sum_values(with_sat) == tp * q + reg_part * q + sat_part * q);
    } else {
        assert(sum_values(with_sat) == tp * q + reg_part * q + sat_part * q) by (nonlinear_arith)
            requires
                sum_values(with_sat) == tp * q + reg_part * q,
                sat_part == 0,
        ;
    }
    assert(ta == tp + reg_part + sat_part);
    assert(sum_values(with_sat) == ta * q) by (nonlinear_arith)
        requires
            sum_values(with_sat) == tp * q + reg_part * q + sat_part * q,
            ta == tp + reg_part + sat_part,
    ;
    let rem = spec_royalty_to_payout(10000 - ta, balance);
    lemma_exact_share(10000 - ta, balance);
    let e = payout_entries(s, owner, reg_owner, rate_owner, rate_satori, balance, always_remainder);
    vstd::arithmetic::div_mod::lemma_fundamental_div_mod(balance, 10000);
    assert(ta * q + (10000 - ta) * q == 10000 * q) by (nonlinear_arith);
    if always_remainder || rem > 0 {
        assert(e.drop_last() =~= with_sat);
        assert(sum_values(e) == ta * q + rem);
    } else {
        assert(rem == 0);
        assert(sum_values(e) == ta * q);
    }
}

/// Totals the royalty shares that do not belong to the owner.
fn sum_royalty_bps(royalty: &StringMap<u32>, owner_id: &String) -> (total: u128)
    requires
        royalty.wf(),
    ensures
        total == total_perpetual_bps(royalty.spec_entries(), owner_id@),
        total <= 0x1_0000_0000_0000_0000_0000_0000u128,
{
    let entries = royalty.entries();
    let ghost s = royalty.spec_entries();
    let mut total: u128 = 0;
    let mut i: usize = 0;
    let n = entries.len();
    while i < n
        invariant
            i <= n,
            n == s.len(),
            entries@.len() == s.len(),
            forall|j: int|
                0 <= j < entries@.len() ==> (#[trigger] s[j]) == (entries@[j].0@, entries@[j].1),
            total == total_perpetual_bps(s.subrange(0, i as int), owner_id@),
            total <= i * 0x1_0000_0000,
        decreases n - i,
    {
        proof {
            assert(s.subrange(0, i + 1).drop_last() =~= s.subrange(0, i as int));
            assert(s.subrange(0, i + 1).last() == s[i as int]);
        }
        if entries[i].0 != *owner_id {
            total = total + entries[i].1 as u128;
        }
        i = i + 1;
    }
    proof {
        assert(s.subrange(0, n as int) =~= s);
        assert(total <= 0x1_0000_0000_0000_0000_0000_0000u128) by (nonlinear_arith)
            requires
                total <= i * 0x1_0000_0000,
                i <= 0xffff_ffff_ffff_ffffu128,
        ;
    }
    total
}

/// Builds the payout entries for the royalty recipients other than the
/// owner.
fn build_base_payout(royalty: &StringMap<u32>, owner_id: &String, balance: u128) -> (p: StringMap<
    u128,
>)
    requires
        royalty.wf(),
        balance <= u128::MAX / 10000,
        total_perpetual_bps(royalty.spec_entries(), owner_id@) <= 10000,
    ensures
        p.wf(),
        p.spec_entries() == royalty_payout_entries(royalty.spec_entries(), owner_id@, balance as int),
        p@ == assoc_map(royalty_payout_entries(royalty.spec_entries(), owner_id@, balance as int)),
{
    let entries = royalty.entries();
    let ghost s = royalty.spec_entries();
    let mut p = StringMap::<u128>::new();
    let mut i: usize = 0;
    let n = entries.len();
    while i < n
        invariant
            i <= n,
            n == s.len(),
            entries@.len() == s.len(),
            forall|j: int|
                0 <= j < entries@.len() ==> (#[trigger] s[j]) == (entries@[j].0@, entries@[j].1),
            royalty.wf(),
            royalty.spec_entries() == s,
            balance <= u128::MAX / 10000,
            total_perpetual_bps(s, owner_id@) <= 10000,
            p.wf(),
            p.spec_entries() == royalty_payout_entries(s.subrange(0, i as int), owner_id@, balance as int),
        decreases n - i,
    {
        let ghost pre = s.subrange(0, i as int);
        let ghost post = s.subrange(0, i + 1);
        proof {
            assert(post.drop_last() =~= pre);
            assert(post.last() == s[i as int]);
        }
        if entries[i].0 != *owner_id {
            proof {
                lemma_bps_le_total(s, owner_id@, i as int);
                lemma_total_perpetual_nonneg(s, owner_id@);
                assert(s[i as int].1 * balance <= 10000 * (u128::MAX / 10000)) by (nonlinear_arith)
                    requires
                        0 <= s[i as int].1 <= 10000,
                        0 <= balance <= u128::MAX / 10000,
                ;
                assert(!p@.contains_key(s[i as int].0)) by {
                    lemma_assoc_map_contains(p.spec_entries(), s[i as int].0);
                    p.lemma_view_entries();
                    royalty.lemma_view_entries();
                    assert(nodup_keys(s));
                    if p@.contains_key(s[i as int].0) {
                        lemma_royalty_entries_keys(pre, owner_id@, balance as int, s[i as int].0);
                        let l = choose|l: int|
                            0 <= l < pre.len() && (#[trigger] pre[l]).0 == s[i as int].0;
                        assert(pre[l] == s[l]);
                        assert(s[l].0 == s[i as int].0);
                        assert(l < i);
                        assert(false);
                    }
                }
            }
            let amount = royalty_to_payout(entries[i].1, balance);
            let key = entries[i].0.clone();
            p.insert(key, amount);
            proof {
                assert(p.spec_entries() =~= royalty_payout_entries(post, owner_id@, balance as int));
            }
        } else {
            proof {
                assert(p.spec_entries() =~= royalty_payout_entries(post, owner_id@, balance as int));
            }
        }
        i = i + 1;
    }
    proof {
        assert(s.subrange(0, n as int) =~= s);
        p.lemma_view_entries();
    }
    p
}

/// Completes a payout: the base royalty entries, then the registry-owner
/// and platform shares, then the owner's remainder.
fn finish_payout(
    royalty: &StringMap<u32>,
    owner_id: &String,
    registry_owner_id: &String,
    contract_royalty_owner: u32,
    contract_royalty_satori: u32,
    balance: u128,
    always_remainder: bool,
) -> (p: Payout)
    requires
        royalty.wf(),
        balance <= u128::MAX / 10000,
        total_all_bps(
            royalty.spec_entries(),
            owner_id@,
            registry_owner_id@,
            contract_royalty_owner,
            contract_royalty_satori,
        ) <= 10000,
    ensures
        p.payout.wf(),
        p.payout@ == assoc_map(
            payout_entries(
                royalty.spec_entries(),
                owner_id@,
                registry_owner_id@,
                contract_royalty_owner,
                contract_royalty_satori,
                balance as int,
                always_remainder,
            ),
        ),
        distinct_roles(
            royalty.spec_entries(),
            owner_id@,
            registry_owner_id@,
            contract_royalty_owner,
            contract_royalty_satori,
        ) ==> p.payout.spec_entries() == payout_entries(
            royalty.spec_entries(),
            owner_id@,
            registry_owner_id@,
            contract_royalty_owner,
            contract_royalty_satori,
            balance as int,
            always_remainder,
        ),
{
    let ghost s = royalty.spec_entries();
    let ghost distinct = distinct_roles(
        s,
        owner_id@,
        registry_owner_id@,
        contract_royalty_owner,
        contract_royalty_satori,
    );
    proof {
        lemma_total_perpetual_nonneg(s, owner_id@);
    }
    let total_perp = sum_royalty_bps(royalty, owner_id);
    let mut p = build_base_payout(royalty, owner_id, balance);
    let ghost base = royalty_payout_entries(s, owner_id@, balance as int);
    proof {
        assert forall|k: Seq<char>| #[trigger] assoc_map(base).contains_key(k) implies (k
            != owner_id@ && exists|i: int| 0 <= i < s.len() && (#[trigger] s[i]).0 == k) by {
            lemma_assoc_map_contains(base, k);
            lemma_royalty_entries_keys(s, owner_id@, balance as int, k);
        }
        p.lemma_view_entries();
    }
    let mut total_all: u128 = total_perp;
    let ghost with_reg = if registry_share_applies(owner_id@, registry_owner_id@, contract_royalty_owner) {
        base.push(
            (
                registry_owner_id@,
                spec_royalty_to_payout(contract_royalty_owner as int, balance as int) as u128,
            ),
        )
    } else {
        base
    };
    if contract_royalty_owner > 0 && *registry_owner_id != *owner_id {
        proof {
            assert(contract_royalty_owner * balance <= 10000 * (u128::MAX / 10000))
                by (nonlinear_arith)
                requires
                    0 <= contract_royalty_owner <= 10000,
                    0 <= balance <= u128::MAX / 10000,
            ;
        }
        let amount = royalty_to_payout(contract_royalty_owner, balance);
        proof {
            if distinct {
                assert(!p@.contains_key(registry_owner_id@));
            }
        }
        p.insert(registry_owner_id.clone(), amount);
        total_all = total_all + contract_royalty_owner as u128;
        proof {
            assert(with_reg.drop_last() =~= base);
            assert(p@ =~= assoc_map(with_reg));
            if distinct {
                assert(p.spec_entries() == with_reg);
            }
        }
    }
    let ghost with_sat = if contract_royalty_satori > 0 {
        with_reg.push(
            (
                satori_account(),
                spec_royalty_to_payout(contract_royalty_satori as int, balance as int) as u128,
            ),
        )
    } else {
        with_reg
    };
    if contract_royalty_satori > 0 {
        proof {
            assert(contract_royalty_satori * balance <= 10000 * (u128::MAX / 10000))
                by (nonlinear_arith)
                requires
                    0 <= contract_royalty_satori <= 10000,
                    0 <= balance <= u128::MAX / 10000,
            ;
        }
        let amount = royalty_to_payout(contract_royalty_satori, balance);
        proof {
            if distinct {
                assert(!p@.contains_key(satori_account())) by {
                    lemma_assoc_map_contains(with_reg, satori_account());
                    if p@.contains_key(satori_account()) {
                        let j = choose|j: int|
                            0 <= j < with_reg.len() && with_reg[j].0 == satori_account();
                        if j < base.len() {
                            assert(assoc_map(base).contains_key(satori_account())) by {
                                lemma_assoc_map_contains(base, satori_account());
                            }
                        }
                        assert(false);
                    }
                }
            }
        }
        p.insert(satori_account_id(), amount);
        total_all = total_all + contract_royalty_satori as u128;
        proof {
            assert(with_sat.drop_last() =~= with_reg);
            assert(p@ =~= assoc_map(with_sat));
            if distinct {
                assert(p.spec_entries() == with_sat);
            }
        }
    }
    let ghost total_spec = total_all_bps(
        s,
        owner_id@,
        registry_owner_id@,
        contract_royalty_owner,
        contract_royalty_satori,
    );
    proof {
        assert(total_all == total_spec);
    }
    let remainder_bps: u128 = 10000 - total_all;
    proof {
        assert((remainder_bps as u32) * balance <= 10000 * (u128::MAX / 10000))
            by (nonlinear_arith)
            requires
                0 <= remainder_bps <= 10000,
                0 <= balance <= u128::MAX / 10000,
                remainder_bps as u32 == remainder_bps,
        ;
    }
    let owner_amount = royalty_to_payout(remainder_bps as u32, balance);
    let ghost rem_spec = spec_royalty_to_payout(10000 - total_spec, balance as int);
    proof {
        assert(owner_amount == rem_spec);
    }
    let ghost with_rem = if always_remainder || rem_spec > 0 {
        with_sat.push((owner_id@, rem_spec as u128))
    } else {
        with_sat
    };
    if always_remainder || owner_amount > 0 {
        proof {
            if distinct {
                assert(!p@.contains_key(owner_id@)) by {
                    lemma_assoc_map_contains(with_sat, owner_id@);
                    if p@.contains_key(owner_id@) {
                        let j = choose|j: int|
                            0 <= j < with_sat.len() && with_sat[j].0 == owner_id@;
                        if j < base.len() {
                            assert(assoc_map(base).contains_key(owner_id@)) by {
                                lemma_assoc_map_contains(base, owner_id@);
                            }
                        }
                        assert(false);
                    }
                }
            }
        }
        p.insert(owner_id.clone(), owner_amount);
        proof {
            assert(with_rem.drop_last() =~= with_sat);
            assert(p@ =~= assoc_map(with_rem));
            if distinct {
                assert(p.spec_entries() == with_rem);
            }
        }
    }
    proof {
        assert(with_rem == payout_entries(
            s,
            owner_id@,
            registry_owner_id@,
            contract_royalty_owner,
            contract_royalty_satori,
            balance as int,
            always_remainder,
        ));
    }
    Payout { payout: p }
}

/// The read-only payout query: splits `balance` according to the token's
/// royalties and the registry-level rates, omitting a zero remainder for
/// the owner. Refuses only a royalty map larger than `max_len_payout`;
/// the combined royalty caps are not enforced here.
pub fn compute_payout(
    royalty: &StringMap<u32>,
    owner_id: &String,
    registry_owner_id: &String,
    contract_royalty_owner: u32,
    contract_royalty_satori: u32,
    balance: u128,
    max_len_payout: u32,
) -> (r: Result<Payout, Error>)
    requires
        royalty.wf(),
        balance <= u128::MAX / 10000,
        total_all_bps(
            royalty.spec_entries(),
            owner_id@,
            registry_owner_id@,
            contract_royalty_owner,
            contract_royalty_satori,
        ) <= 10000,
    ensures
        match r {
            Result::Ok(p) => {
                &&& royalty.spec_entries().len() <= max_len_payout
                &&& p.payout.wf()
                &&& p.payout@ == assoc_map(
                    payout_entries(
                        royalty.spec_entries(),
                        owner_id@,
                        registry_owner_id@,
                        contract_royalty_owner,
                        contract_royalty_satori,
                        balance as int,
                        false,
                    ),
                )
                &&& (distinct_roles(
                    royalty.spec_entries(),
                    owner_id@,
                    registry_owner_id@,
                    contract_royalty_owner,
                    contract_royalty_satori,
                ) ==> p.payout.spec_entries() == payout_entries(
                    royalty.spec_entries(),
                    owner_id@,
                    registry_owner_id@,
                    contract_royalty_owner,
                    contract_royalty_satori,
                    balance as int,
                    false,
                ))
            },
            Result::Err(e) => e == Error::TooManyReceivers && royalty.spec_entries().len()
                > max_len_payout,
        },
{
    if royalty.len() > max_len_payout as usize {
        return Result::Err(Error::TooManyReceivers);
    }
    Result::Ok(
        finish_payout(
            royalty,
            owner_id,
            registry_owner_id,
            contract_royalty_owner,
            contract_royalty_satori,
            balance,
            false,
        ),
    )
}

/// The payout used when a transfer commits: as [`compute_payout`], but the
/// owner's remainder entry is always written, the receiver count is
/// checked only when a bound is supplied, and the combined royalty total
/// must stay within the minter and registry caps.
pub fn compute_payout_capped(
    royalty: &StringMap<u32>,
    owner_id: &String,
    registry_owner_id: &String,
    contract_royalty_owner: u32,
    contract_royalty_satori: u32,
    balance: u128,
    max_len_payout: Option<u32>,
) -> (r: Result<Payout, Error>)
    requires
        royalty.wf(),
        balance <= u128::MAX / 10000,
    ensures
        match r {
            Result::Ok(p) => {
                &&& (match max_len_payout {
                    Option::Some(m) => royalty.spec_entries().len() <= m,
                    Option::None => true,
                })
                &&& total_all_bps(
                    royalty.spec_entries(),
                    owner_id@,
                    registry_owner_id@,
                    contract_royalty_owner,
                    contract_royalty_satori,
                ) <= MINTER_ROYALTY_CAP + CONTRACT_ROYALTY_CAP
                &&& p.payout.wf()
                &&& p.payout@ == assoc_map(
                    payout_entries(
                        royalty.spec_entries(),
                        owner_id@,
                        registry_owner_id@,
                        contract_royalty_owner,
                        contract_royalty_satori,
                        balance as int,
                        true,
                    ),
                )
                &&& (distinct_roles(
                    royalty.spec_entries(),
                    owner_id@,
                    registry_owner_id@,
                    contract_royalty_owner,
                    contract_royalty_satori,
                ) ==> p.payout.spec_entries() == payout_entries(
                    royalty.spec_entries(),
                    owner_id@,
                    registry_owner_id@,
                    contract_royalty_owner,
                    contract_royalty_satori,
                    balance as int,
                    true,
                ))
            },
            Result::Err(e) => {
                ||| (e == Error::TooManyReceivers && match max_len_payout {
                    Option::Some(m) => royalty.spec_entries().len() > m,
                    Option::None => false,
                })
                ||| (e == Error::RoyaltyCapExceeded && (match max_len_payout {
                    Option::Some(m) => royalty.spec_entries().len() <= m,
                    Option::None => true,
                }) && total_all_bps(
                    royalty.spec_entries(),
                    owner_id@,
                    registry_owner_id@,
                    contract_royalty_owner,
                    contract_royalty_satori,
                ) > MINTER_ROYALTY_CAP + CONTRACT_ROYALTY_CAP)
            },
        },
{
    if let Option::Some(m) = max_len_payout {
        if royalty.len() > m as usize {
            return Result::Err(Error::TooManyReceivers);
        }
    }
    proof {
        lemma_total_perpetual_nonneg(royalty.spec_entries(), owner_id@);
    }
    let total_perp = sum_royalty_bps(royalty, owner_id);
    let mut total_all: u128 = total_perp;
    if contract_royalty_owner > 0 && *registry_owner_id != *owner_id {
        total_all = total_all + contract_royalty_owner as u128;
    }
    if contract_royalty_satori > 0 {
        total_all = total_all + contract_royalty_satori as u128;
    }
    if total_all > (MINTER_ROYALTY_CAP + CONTRACT_ROYALTY_CAP) as u128 {
        return Result::Err(Error::RoyaltyCapExceeded);
    }
    Result::Ok(
        finish_payout(
            royalty,
            owner_id,
            registry_owner_id,
            contract_royalty_owner,
            contract_royalty_satori,
            balance,
            true,
        ),
    )
}

} // verus!
