//! MySQL 5.7's versioned, structured Sink capability boundary.
use crate::change_event::compatibility::capability::{
    law_another_build_has_another_digest, TargetCapabilityManifest,
};
use crate::change_event::compatibility::error::CompatibilityError;
use crate::change_event::compatibility::plan::{CompatibilityInput, CompatibilityResult};
use crate::change_event::compatibility::planner::explain::{ended, explanation, plan_stands};
use crate::change_event::compatibility::types::{ServerBuildIdentity, COMPATIBILITY_FORMAT};
use crate::json::{collide, docs, Contract};
use crate::mysql_source_contract::catalog::distinct_codes;
use crate::mysql_source_contract::manifest::{
    capability_manifest, law_published_entries_stand, shared_offers, shared_profile,
};
use crate::mysql_source_contract::offers::sound_offers;
use vstd::prelude::*;

verus! {

/// The manifest is the one that this Sink publishes for a server build.
pub open spec fn published(manifest: TargetCapabilityManifest, target_build: ServerBuildIdentity) -> bool {
    &&& manifest.connector.kind@ == "mysql"@
    &&& manifest.connector.version@ == "5.7"@
    &&& manifest.target_build == target_build
    &&& manifest.contract@ == COMPATIBILITY_FORMAT@
    &&& manifest.requires_primary_key
    &&& docs(manifest.capabilities@) == shared_offers(shared_profile("5.7", "mysql57"))
    &&& manifest.intact()
    &&& sound_offers(manifest.capabilities@)
}

/// The versioned capability manifest for one exact server build.
pub fn compatibility_manifest(target_build: ServerBuildIdentity) -> (result: TargetCapabilityManifest)
    ensures
        published(result, target_build),
{
    capability_manifest("5.7", "mysql57", target_build)
}

/// Descriptive alias for callers that distinguish the structured manifest from
/// the static summary of the adapter.
pub fn target_capability_manifest(
    target_build: ServerBuildIdentity,
) -> (result: TargetCapabilityManifest)
    ensures
        published(result, target_build),
{
    compatibility_manifest(target_build)
}

/// Alias named after the structured manifest.
pub fn structured_capability_manifest(
    target_build: ServerBuildIdentity,
) -> (result: TargetCapabilityManifest)
    ensures
        published(result, target_build),
{
    compatibility_manifest(target_build)
}

/// Descriptive alias used by registry and preflight code.
pub fn capability_manifest_for(target_build: ServerBuildIdentity) -> (result: TargetCapabilityManifest)
    ensures
        published(result, target_build),
{
    compatibility_manifest(target_build)
}

/// Plan one field binding. The planner is the database-neutral one.
pub fn plan_compatibility(input: CompatibilityInput<'_>) -> (result: Result<
    CompatibilityResult,
    CompatibilityError,
>)
    ensures
        ended(result) == explanation(input),
        plan_stands(result, input),
{
    crate::change_event::compatibility::planner::explain::plan_compatibility(input)
}

/// The Sink side of the connector.
pub struct SinkAdapter;

impl SinkAdapter {
    /// Publish the structured manifest through the adapter.
    pub fn structured_capability_manifest(
        &self,
        target_build: ServerBuildIdentity,
    ) -> (result: TargetCapabilityManifest)
        ensures
            published(result, target_build),
    {
        compatibility_manifest(target_build)
    }

    /// Plan one field binding through the adapter.
    pub fn plan_compatibility(&self, input: CompatibilityInput<'_>) -> (result: Result<
        CompatibilityResult,
        CompatibilityError,
    >)
        ensures
            ended(result) == explanation(input),
            plan_stands(result, input),
    {
        plan_compatibility(input)
    }
}

/// What this Sink publishes stands: the manifest has no fault, no two entries
/// have one code, exactly the exact ones allow keys, and all others have to be
/// confirmed.
pub proof fn law_published_manifests_stand(
    manifest: TargetCapabilityManifest,
    target_build: ServerBuildIdentity,
)
    requires
        published(manifest, target_build),
    ensures
        manifest.fault() is None,
        manifest.requires_primary_key,
        distinct_codes(manifest.capabilities@),
        forall|i: int|
            0 <= i < manifest.capabilities@.len() ==> {
                let rule = (#[trigger] manifest.capabilities@[i]).rule;
                &&& rule.allows_key <==> rule.qualification is Exact
                &&& rule.requires_confirmation <==> !rule.allows_key
            },
{
    law_published_entries_stand(manifest.capabilities@, "5.7", "mysql57");
}

/// Manifests for two server builds offer the same and are told apart: another
/// build never inherits the identity of a manifest, barring a collision.
pub proof fn law_builds_share_entries_but_no_identity(
    a: TargetCapabilityManifest,
    b: TargetCapabilityManifest,
    build: ServerBuildIdentity,
    other: ServerBuildIdentity,
)
    requires
        published(a, build),
        published(b, other),
        build.doc() != other.doc(),
        !collide(a.content(), b.content()),
    ensures
        a.target_build == build && b.target_build == other,
        docs(a.capabilities@) == docs(b.capabilities@),
        a.digest@ != b.digest@,
{
    law_another_build_has_another_digest(a, b);
}

} // verus!
