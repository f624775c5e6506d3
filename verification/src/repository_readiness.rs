//! A read-only, bounded manifest of what an attempt may read of a repository.
use vstd::prelude::*;
use crate::evidence_replay::Evidence;
use crate::model::EntityId;
use crate::record::Record;
use crate::text;

verus! {

/// The version of the manifest.
pub const REPOSITORY_READINESS_SCHEMA_VERSION: u16 = 1;

/// Why a repository is denied.
#[derive(Debug, Clone, Copy, PartialEq, Eq, Structural)]
pub enum DenialReason {
    WorkspaceNotBound,
}

/// Whether a repository may be read.
#[derive(Debug)]
pub enum ScopePermit {
    Permitted { organization_id: EntityId, repository_url: String },
    Denied(DenialReason),
}

/// What an attempt may read.
#[derive(Debug)]
pub struct RepositoryReadinessManifest {
    pub schema_version: u16,
    pub organization_id: EntityId,
    pub work_item_id: EntityId,
    pub attempt_id: EntityId,
    pub repository_url: String,
    pub requested_context_bytes: usize,
    pub admitted_context_bytes: usize,
    pub context_truncated: bool,
    pub evidence_ids: Vec<String>,
}

/// Why there is no manifest.
#[derive(Debug)]
pub enum RepositoryReadinessError {
    RepositoryDenied,
    OrganizationMismatch,
    InvalidByteMeasurement,
    EvidenceScopeMismatch { evidence_id: String },
    UnsafeEvidenceReference { evidence_id: String },
    DuplicateEvidence { evidence_id: String },
}

/// The reference is absolute or looks like it carries a credential.
pub open spec fn is_unsafe(reference: Seq<char>) -> bool {
    let lower = text::lower(reference);
    ||| text::begins_with(reference, "/"@)
    ||| text::contains(lower, "token="@)
    ||| text::contains(lower, "secret="@)
    ||| text::contains(lower, "password="@)
    ||| text::contains(lower, "api_key="@)
}

/// Whether a reference is absolute or looks like it carries a credential.
pub fn unsafe_reference(reference: &str) -> (r: bool)
    ensures
        r == is_unsafe(reference@),
{
    let lower: String = text::to_lower(reference);
    text::starts(reference, "/") || text::has(&lower, "token=") || text::has(&lower, "secret=")
        || text::has(&lower, "password=") || text::has(&lower, "api_key=")
}

/// What is wrong with a record of the evidence.
#[verifier::ext_equal]
pub ghost enum ManifestFault {
    Scope(Seq<char>),
    Unsafe(Seq<char>),
    Duplicate(Seq<char>),
}

/// The error says this fault.
pub open spec fn says(error: RepositoryReadinessError, fault: ManifestFault) -> bool {
    match (error, fault) {
        (
            RepositoryReadinessError::EvidenceScopeMismatch { evidence_id },
            ManifestFault::Scope(id),
        ) => evidence_id@ == id,
        (
            RepositoryReadinessError::UnsafeEvidenceReference { evidence_id },
            ManifestFault::Unsafe(id),
        ) => evidence_id@ == id,
        (
            RepositoryReadinessError::DuplicateEvidence { evidence_id },
            ManifestFault::Duplicate(id),
        ) => evidence_id@ == id,
        _ => false,
    }
}

/// The identifiers of the first `count` records.
pub open spec fn ids_of(evidence: Seq<Evidence>, count: int) -> Seq<Seq<char>> {
    Seq::new(count as nat, |i: int| evidence[i].id.value@)
}

/// What is wrong with a record of the evidence.
pub open spec fn record_fault(
    evidence: Seq<Evidence>,
    organization: EntityId,
    work_item: EntityId,
    attempt: EntityId,
    i: int,
) -> Option<ManifestFault> {
    let item = evidence[i];
    if !item.organization_id.alike(&organization) || !item.work_item_id.alike(&work_item)
        || !item.attempt_id.alike(&attempt) {
        Some(ManifestFault::Scope(item.id.value@))
    } else if is_unsafe(item.reference@) {
        Some(ManifestFault::Unsafe(item.id.value@))
    } else if ids_of(evidence, i).contains(item.id.value@) {
        Some(ManifestFault::Duplicate(item.id.value@))
    } else {
        None
    }
}

/// None of the first `count` records is faulty.
pub open spec fn is_sound(
    evidence: Seq<Evidence>,
    organization: EntityId,
    work_item: EntityId,
    attempt: EntityId,
    count: int,
) -> bool {
    forall|i: int|
        0 <= i < count ==> #[trigger] record_fault(evidence, organization, work_item, attempt, i)
            is None
}

/// What comes of building a manifest.
pub open spec fn build_result(
    permit: ScopePermit,
    work_item: EntityId,
    attempt: EntityId,
    requested: usize,
    admitted: usize,
    truncated: bool,
    evidence: Seq<Evidence>,
    r: Result<RepositoryReadinessManifest, RepositoryReadinessError>,
) -> bool {
    match permit {
        ScopePermit::Denied(_) => r == Err::<RepositoryReadinessManifest, RepositoryReadinessError>(
            RepositoryReadinessError::RepositoryDenied,
        ),
        ScopePermit::Permitted { organization_id, repository_url } => {
            if admitted > requested {
                r == Err::<RepositoryReadinessManifest, RepositoryReadinessError>(
                    RepositoryReadinessError::InvalidByteMeasurement,
                )
            } else {
                match r {
                    Ok(manifest) => {
                        &&& is_sound(
                            evidence,
                            organization_id,
                            work_item,
                            attempt,
                            evidence.len() as int,
                        )
                        &&& manifest.schema_version == REPOSITORY_READINESS_SCHEMA_VERSION
                        &&& manifest.organization_id == organization_id
                        &&& manifest.work_item_id == work_item
                        &&& manifest.attempt_id == attempt
                        &&& manifest.repository_url == repository_url
                        &&& manifest.requested_context_bytes == requested
                        &&& manifest.admitted_context_bytes == admitted
                        &&& manifest.context_truncated == truncated
                        &&& text::views(manifest.evidence_ids@) == ids_of(
                            evidence,
                            evidence.len() as int,
                        )
                    },
                    Err(error) => exists|i: int|
                        {
                            &&& 0 <= i < evidence.len()
                            &&& is_sound(evidence, organization_id, work_item, attempt, i)
                            &&& (#[trigger] record_fault(
                                evidence,
                                organization_id,
                                work_item,
                                attempt,
                                i,
                            )) is Some
                            &&& says(
                                error,
                                record_fault(evidence, organization_id, work_item, attempt, i)->0,
                            )
                        },
                }
            }
        },
    }
}

impl RepositoryReadinessManifest {
    /// Builds the manifest of a permitted repository. Every record of the evidence must stand in
    /// scope, refer safely and occur once.
    pub fn build(
        permit: ScopePermit,
        work_item_id: EntityId,
        attempt_id: EntityId,
        requested_context_bytes: usize,
        admitted_context_bytes: usize,
        context_truncated: bool,
        evidence: &Vec<Evidence>,
    ) -> (r: Result<RepositoryReadinessManifest, RepositoryReadinessError>)
        ensures
            build_result(
                permit,
                work_item_id,
                attempt_id,
                requested_context_bytes,
                admitted_context_bytes,
                context_truncated,
                evidence@,
                r,
            ),
    {
        let (organization_id, repository_url): (EntityId, String) = match permit {
            ScopePermit::Permitted { organization_id, repository_url } => (
                organization_id,
                repository_url,
            ),
            ScopePermit::Denied(_) => {
                return Err(RepositoryReadinessError::RepositoryDenied);
            },
        };
        if admitted_context_bytes > requested_context_bytes {
            return Err(RepositoryReadinessError::InvalidByteMeasurement);
        }
        let mut evidence_ids: Vec<String> = Vec::new();
        let mut i: usize = 0;
        assert(text::views(evidence_ids@) =~= ids_of(evidence@, 0));
        while i < evidence.len()
            invariant
                i <= evidence@.len(),
                permit == (ScopePermit::Permitted { organization_id, repository_url }),
                admitted_context_bytes <= requested_context_bytes,
                is_sound(evidence@, organization_id, work_item_id, attempt_id, i as int),
                text::views(evidence_ids@) == ids_of(evidence@, i as int),
            decreases evidence@.len() - i,
        {
            let item: &Evidence = &evidence[i];
            let ghost fault = record_fault(
                evidence@,
                organization_id,
                work_item_id,
                attempt_id,
                i as int,
            );
            if !item.organization_id.same(&organization_id) || !item.work_item_id.same(
                &work_item_id,
            ) || !item.attempt_id.same(&attempt_id) {
                let error: RepositoryReadinessError =
                    RepositoryReadinessError::EvidenceScopeMismatch {
                    evidence_id: item.id.value.clone(),
                };
                assert(says(error, fault->0));
                return Err(error);
            }
            if unsafe_reference(&item.reference) {
                let error: RepositoryReadinessError =
                    RepositoryReadinessError::UnsafeEvidenceReference {
                    evidence_id: item.id.value.clone(),
                };
                assert(says(error, fault->0));
                return Err(error);
            }
            if text::listed(&evidence_ids, &item.id.value) {
                let error: RepositoryReadinessError = RepositoryReadinessError::DuplicateEvidence {
                    evidence_id: item.id.value.clone(),
                };
                assert(says(error, fault->0));
                return Err(error);
            }
            let ghost earlier = evidence_ids@;
            evidence_ids.push(item.id.value.clone());
            assert(text::views(evidence_ids@) =~= text::views(earlier).push(item.id.value@));
            assert(ids_of(evidence@, i + 1) =~= ids_of(evidence@, i as int).push(item.id.value@));
            i = i + 1;
        }
        Ok(
            RepositoryReadinessManifest {
                schema_version: REPOSITORY_READINESS_SCHEMA_VERSION,
                organization_id,
                work_item_id,
                attempt_id,
                repository_url,
                requested_context_bytes,
                admitted_context_bytes,
                context_truncated,
                evidence_ids,
            },
        )
    }
}

/// A manifest never admits more than was requested, and no evidence outside its own scope.
pub proof fn law_manifest_is_scoped_and_measured(
    permit: ScopePermit,
    work_item: EntityId,
    attempt: EntityId,
    requested: usize,
    admitted: usize,
    truncated: bool,
    evidence: Seq<Evidence>,
    manifest: RepositoryReadinessManifest,
    i: int,
)
    requires
        build_result(
            permit,
            work_item,
            attempt,
            requested,
            admitted,
            truncated,
            evidence,
            Ok(manifest),
        ),
        0 <= i < evidence.len(),
    ensures
        manifest.admitted_context_bytes <= manifest.requested_context_bytes,
        evidence[i].organization_id.alike(&manifest.organization_id),
        evidence[i].work_item_id.alike(&manifest.work_item_id),
        evidence[i].attempt_id.alike(&manifest.attempt_id),
        !is_unsafe(evidence[i].reference@),
{
    assert(record_fault(evidence, manifest.organization_id, work_item, attempt, i) is None);
}

} // verus!
