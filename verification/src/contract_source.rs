//! Source bookkeeping for the registry: which program version is
//! deployed, kept as a tagged union over schema versions.

use vstd::prelude::*;
use vstd::string::StrSliceExecFns;

use crate::registry::Contract;
use crate::{Error, RequestContext, STORAGE_PRICE_PER_BYTE};

verus! {

/// Storage overhead charged for each present string field of the source
/// record, beyond the text itself.
pub const SOURCE_FIELD_OVERHEAD: u64 = 8;

/// Version, commit hash, and repository link of the deployed program.
pub struct ContractSourceMetadata {
    pub version: Option<String>,
    pub commit_hash: Option<String>,
    pub link: Option<String>,
}

/// The source metadata as persisted: a tagged union over schema
/// versions, upgraded explicitly and never inferred from field presence.
pub enum VersionedContractSourceMetadata {
    Current(ContractSourceMetadata),
}

/// Unwraps the current schema version.
pub fn versioned_source_metadata_to_source_metadata(
    versioned_source_metadata: VersionedContractSourceMetadata,
) -> (r: ContractSourceMetadata)
    ensures
        versioned_source_metadata == VersionedContractSourceMetadata::Current(r),
{
    match versioned_source_metadata {
        VersionedContractSourceMetadata::Current(current) => current,
    }
}

/// Storage bytes occupied by one optional string field.
pub open spec fn spec_opt_string_bytes(s: Option<String>) -> int {
    match s {
        Option::Some(v) => v@.len() + SOURCE_FIELD_OVERHEAD,
        Option::None => 0,
    }
}

/// Storage bytes occupied by a source-metadata record.
pub open spec fn spec_source_metadata_bytes(m: ContractSourceMetadata) -> int {
    spec_opt_string_bytes(m.version) + spec_opt_string_bytes(m.commit_hash)
        + spec_opt_string_bytes(m.link)
}

/// An empty source record.
pub open spec fn spec_empty_source_metadata() -> ContractSourceMetadata {
    ContractSourceMetadata { version: Option::None, commit_hash: Option::None, link: Option::None }
}

/// The record the registry currently holds, empty when none was written.
pub open spec fn spec_stored_source_metadata(c: Contract) -> ContractSourceMetadata {
    match c.contract_source_metadata {
        Option::Some(VersionedContractSourceMetadata::Current(m)) => m,
        Option::None => spec_empty_source_metadata(),
    }
}

/// How the stored record changes under a patch: each supplied field
/// replaces the stored one, absent fields are kept.
pub open spec fn spec_patched(
    old_m: ContractSourceMetadata,
    new_m: ContractSourceMetadata,
) -> ContractSourceMetadata {
    ContractSourceMetadata {
        version: if new_m.version is Some {
            new_m.version
        } else {
            old_m.version
        },
        commit_hash: if new_m.commit_hash is Some {
            new_m.commit_hash
        } else {
            old_m.commit_hash
        },
        link: if new_m.link is Some {
            new_m.link
        } else {
            old_m.link
        },
    }
}

/// The deposit a patch must attach: the absolute storage delta at the
/// fixed byte price.
pub open spec fn spec_patch_cost(old_m: ContractSourceMetadata, new_m: ContractSourceMetadata) -> int {
    let before = spec_source_metadata_bytes(old_m);
    let after = spec_source_metadata_bytes(spec_patched(old_m, new_m));
    (if after > before {
        after - before
    } else {
        before - after
    }) * STORAGE_PRICE_PER_BYTE
}

fn opt_string_bytes(s: &Option<String>) -> (r: u128)
    ensures
        r == spec_opt_string_bytes(*s),
        r <= 0x2_0000_0000_0000_0000u128,
{
    match s {
        Option::Some(v) => (v.as_str().unicode_len() as u128) + (SOURCE_FIELD_OVERHEAD as u128),
        Option::None => 0,
    }
}

fn source_metadata_bytes_of(m: &ContractSourceMetadata) -> (r: u128)
    ensures
        r == spec_source_metadata_bytes(*m),
{
    let a = opt_string_bytes(&m.version);
    let b = opt_string_bytes(&m.commit_hash);
    let c = opt_string_bytes(&m.link);
    a + b + c
}

/// A copy of an optional string equal to the original.
fn clone_opt_string_exact(v: &Option<String>) -> (r: Option<String>)
    ensures
        r == *v,
{
    match v {
        Option::Some(s) => Option::Some(s.clone()),
        Option::None => Option::None,
    }
}

/// View and patch access to the registry's source record.
pub trait ContractSourceMetadataTrait {
    /// Reports the source record, unwrapped from its schema version.
    fn contract_source_metadata(&self) -> Option<ContractSourceMetadata>;

    /// Merges the supplied fields into the stored record; only the
    /// registry owner may call, and the attached deposit must cover the
    /// storage delta. Returns the refunded remainder.
    fn patch_contract_source_metadata(
        &mut self,
        ctx: &RequestContext,
        new_source_metadata: ContractSourceMetadata,
    ) -> Result<u128, Error>;
}

impl Contract {
    /// The stored source record, or nothing when none was ever written.
    pub fn source_metadata_record(&self) -> (r: Option<ContractSourceMetadata>)
        ensures
            match r {
                Option::Some(m) => self.contract_source_metadata == Option::Some(
                    VersionedContractSourceMetadata::Current(m),
                ),
                Option::None => self.contract_source_metadata is None,
            },
    {
        match &self.contract_source_metadata {
            Option::Some(VersionedContractSourceMetadata::Current(m)) => Option::Some(
                ContractSourceMetadata {
                    version: clone_opt_string_exact(&m.version),
                    commit_hash: clone_opt_string_exact(&m.commit_hash),
                    link: clone_opt_string_exact(&m.link),
                },
            ),
            Option::None => Option::None,
        }
    }

    /// Applies a patch to the source record. Only the registry owner may
    /// call; the attached deposit must cover the storage delta at the
    /// fixed byte price, and the remainder is refunded.
    pub fn patch_source_metadata(
        &mut self,
        ctx: &RequestContext,
        new_source_metadata: ContractSourceMetadata,
    ) -> (r: Result<u128, Error>)
        ensures
            match r {
                Result::Ok(refund) => {
                    &&& ctx.predecessor_id@ == old(self).owner_id@
                    &&& ctx.attached_deposit >= spec_patch_cost(
                        spec_stored_source_metadata(*old(self)),
                        new_source_metadata,
                    )
                    &&& refund == ctx.attached_deposit - spec_patch_cost(
                        spec_stored_source_metadata(*old(self)),
                        new_source_metadata,
                    )
                    &&& final(self).contract_source_metadata == Option::Some(
                        VersionedContractSourceMetadata::Current(
                            spec_patched(
                                spec_stored_source_metadata(*old(self)),
                                new_source_metadata,
                            ),
                        ),
                    )
                    &&& *final(self) == (Contract {
                        contract_source_metadata: final(self).contract_source_metadata,
                        ..*old(self)
                    })
                },
                Result::Err(e) => {
                    &&& *final(self) == *old(self)
                    &&& (e == Error::Unauthorized || e == Error::InsufficientDeposit)
                    &&& ((e == Error::Unauthorized) <==> ctx.predecessor_id@ != old(
                        self,
                    ).owner_id@)
                    &&& ((e == Error::InsufficientDeposit) <==> (ctx.predecessor_id@ == old(
                        self,
                    ).owner_id@ && ctx.attached_deposit < spec_patch_cost(
                        spec_stored_source_metadata(*old(self)),
                        new_source_metadata,
                    )))
                },
            },
    {
        if !(ctx.predecessor_id == self.owner_id) {
            return Result::Err(Error::Unauthorized);
        }
        let old_record = match &self.contract_source_metadata {
            Option::Some(VersionedContractSourceMetadata::Current(m)) => ContractSourceMetadata {
                version: clone_opt_string_exact(&m.version),
                commit_hash: clone_opt_string_exact(&m.commit_hash),
                link: clone_opt_string_exact(&m.link),
            },
            Option::None => ContractSourceMetadata {
                version: Option::None,
                commit_hash: Option::None,
                link: Option::None,
            },
        };
        let before = source_metadata_bytes_of(&old_record);
        let patched = ContractSourceMetadata {
            version: if new_source_metadata.version.is_some() {
                new_source_metadata.version
            } else {
                old_record.version
            },
            commit_hash: if new_source_metadata.commit_hash.is_some() {
                new_source_metadata.commit_hash
            } else {
                old_record.commit_hash
            },
            link: if new_source_metadata.link.is_some() {
                new_source_metadata.link
            } else {
                old_record.link
            },
        };
        proof {
            assert(patched == spec_patched(spec_stored_source_metadata(*old(self)), new_source_metadata));
        }
        let after = source_metadata_bytes_of(&patched);
        let delta: u128 = if after > before {
            after - before
        } else {
            before - after
        };
        if delta > u128::MAX / STORAGE_PRICE_PER_BYTE {
            proof {
                let cost = spec_patch_cost(
                    spec_stored_source_metadata(*old(self)),
                    new_source_metadata,
                );
                assert(cost > u128::MAX) by (nonlinear_arith)
                    requires
                        cost == delta * STORAGE_PRICE_PER_BYTE,
                        delta > u128::MAX / STORAGE_PRICE_PER_BYTE,
                        STORAGE_PRICE_PER_BYTE == 10_000_000_000_000_000_000u128,
                        u128::MAX == 0xffffffffffffffffffffffffffffffffu128,
                ;
            }
            return Result::Err(Error::InsufficientDeposit);
        }
        let required: u128 = delta * STORAGE_PRICE_PER_BYTE;
        proof {
            assert(delta * STORAGE_PRICE_PER_BYTE <= u128::MAX) by (nonlinear_arith)
                requires
                    delta <= u128::MAX / STORAGE_PRICE_PER_BYTE,
                    STORAGE_PRICE_PER_BYTE == 10_000_000_000_000_000_000u128,
                    u128::MAX == 0xffffffffffffffffffffffffffffffffu128,
            ;
        }
        if ctx.attached_deposit < required {
            return Result::Err(Error::InsufficientDeposit);
        }
        self.contract_source_metadata = Option::Some(
            VersionedContractSourceMetadata::Current(patched),
        );
        Result::Ok(ctx.attached_deposit - required)
    }
}

impl ContractSourceMetadataTrait for Contract {
    fn contract_source_metadata(&self) -> Option<ContractSourceMetadata> {
        self.source_metadata_record()
    }

    fn patch_contract_source_metadata(
        &mut self,
        ctx: &RequestContext,
        new_source_metadata: ContractSourceMetadata,
    ) -> Result<u128, Error> {
        self.patch_source_metadata(ctx, new_source_metadata)
    }
}

} // verus!
