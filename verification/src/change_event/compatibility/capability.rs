//! What a target is known to take: the evidence of a probe, and the manifest
//! that a Sink publishes.
use crate::change_event::compatibility::capability_failure::{
    bare_failure_doc, lemma_bare, sanitized, TargetCapabilityFailure,
};
use crate::change_event::compatibility::error::{capability_error_doc, CompatibilityError};
use crate::change_event::compatibility::types::{
    blank, is_blank, CapabilityEntry, CapabilityProbeEntry, CapabilityProbeStatus,
    ConnectorIdentity, QualificationLevel, ServerBuildIdentity, TargetColumnMetadata,
    TargetSessionProfile, COMPATIBILITY_FORMAT,
};
use crate::encoding::digest_spelling;
use crate::json::{
    collide, digest, digest_json, docs, duplicate_list, json_array, with_present_list, Contract, Doc,
    Fields, Json,
};
use crate::text::same;
use vstd::prelude::*;

verus! {

/// Immutable target-side evidence collected during preflight.
#[derive(Debug, PartialEq, Eq)]
pub struct TargetCapabilityProbe {
    pub target_build: ServerBuildIdentity,
    pub database: String,
    pub table: String,
    pub column: String,
    pub column_metadata: TargetColumnMetadata,
    pub capabilities: Vec<CapabilityProbeEntry>,
    pub extensions: Vec<CapabilityProbeEntry>,
    pub session: TargetSessionProfile,
    pub digest: String,
}

impl Contract for TargetCapabilityProbe {
    open spec fn doc(&self) -> Doc {
        let members = Seq::<(Seq<char>, Doc)>::empty();
        let members = members.push(("target_build"@, self.target_build.doc()));
        let members = members.push(("database"@, Doc::Str(self.database@)));
        let members = members.push(("table"@, Doc::Str(self.table@)));
        let members = members.push(("column"@, Doc::Str(self.column@)));
        let members = members.push(("column_metadata"@, self.column_metadata.doc()));
        let members = with_present_list(members, "capabilities"@, self.capabilities@);
        let members = with_present_list(members, "extensions"@, self.extensions@);
        let members = members.push(("session"@, self.session.doc()));
        let members = members.push(("digest"@, Doc::Str(self.digest@)));
        Doc::Obj(members)
    }

    fn to_json(&self) -> (result: Json) {
        let mut fields = Fields::new();
        fields.put("target_build", self.target_build.to_json());
        fields.put_text("database", self.database.as_str());
        fields.put_text("table", self.table.as_str());
        fields.put_text("column", self.column.as_str());
        fields.put("column_metadata", self.column_metadata.to_json());
        fields.put_present_list("capabilities", &self.capabilities);
        fields.put_present_list("extensions", &self.extensions);
        fields.put("session", self.session.to_json());
        fields.put_text("digest", self.digest.as_str());
        fields.finish()
    }

    fn duplicate(&self) -> (result: Self) {
        TargetCapabilityProbe {
            target_build: self.target_build.duplicate(),
            database: self.database.clone(),
            table: self.table.clone(),
            column: self.column.clone(),
            column_metadata: self.column_metadata.duplicate(),
            capabilities: duplicate_list(&self.capabilities),
            extensions: duplicate_list(&self.extensions),
            session: self.session.duplicate(),
            digest: self.digest.clone(),
        }
    }
}

impl Clone for TargetCapabilityProbe {
    fn clone(&self) -> (result: Self)
        ensures
            result.doc() == self.doc(),
    {
        self.duplicate()
    }
}

/// Every piece of evidence has an identity of its own.
pub open spec fn sound_evidence(entries: Seq<CapabilityProbeEntry>) -> bool {
    &&& forall|i: int| 0 <= i < entries.len() ==> !blank((#[trigger] entries[i]).identity@)
    &&& forall|i: int, j: int|
        #![trigger entries[i], entries[j]]
        0 <= i < j < entries.len() ==> entries[i].identity@ != entries[j].identity@
}

impl TargetCapabilityProbe {
    /// What the digest of a probe covers.
    pub open spec fn content(&self) -> Doc {
        let members = Seq::<(Seq<char>, Doc)>::empty();
        let members = members.push(("target_build"@, self.target_build.doc()));
        let members = members.push(("database"@, Doc::Str(self.database@)));
        let members = members.push(("table"@, Doc::Str(self.table@)));
        let members = members.push(("column"@, Doc::Str(self.column@)));
        let members = members.push(("column_metadata"@, self.column_metadata.doc()));
        let members = members.push(("capabilities"@, Doc::Arr(docs(self.capabilities@))));
        let members = members.push(("extensions"@, Doc::Arr(docs(self.extensions@))));
        let members = members.push(("session"@, self.session.doc()));
        Doc::Obj(members)
    }

    fn content_json(&self) -> (result: Json)
        ensures
            result@ == self.content(),
    {
        let mut fields = Fields::new();
        fields.put("target_build", self.target_build.to_json());
        fields.put_text("database", self.database.as_str());
        fields.put_text("table", self.table.as_str());
        fields.put_text("column", self.column.as_str());
        fields.put("column_metadata", self.column_metadata.to_json());
        fields.put("capabilities", json_array(&self.capabilities));
        fields.put("extensions", json_array(&self.extensions));
        fields.put("session", self.session.to_json());
        fields.finish()
    }

    /// The digest is that of the content.
    pub open spec fn intact(&self) -> bool {
        self.digest@.len() > 0 && self.digest@ == digest(self.content())
    }

    /// Every capability is qualified and every extension at least installed.
    pub open spec fn qualified(&self) -> bool {
        &&& self.capabilities@.len() > 0
        &&& forall|i: int|
            0 <= i < self.capabilities@.len() ==> (#[trigger] self.capabilities@[i]).status
                is Qualified
        &&& forall|i: int|
            0 <= i < self.extensions@.len() ==> (#[trigger] self.extensions@[i]).status is Installed
                || self.extensions@[i].status is Qualified
    }

    /// The evidence that identifies the target is there.
    pub open spec fn identified(&self) -> bool {
        !blank(self.database@) && !blank(self.table@) && !blank(self.column@) && !blank(
            self.column_metadata.definition_fingerprint@,
        ) && !blank(self.session.identity@) && self.capabilities@.len() > 0
    }

    /// The code and the cause of what is wrong with a probe.
    pub open spec fn fault(&self) -> Option<(Seq<char>, Seq<char>)> {
        if !self.intact() {
            Some(
                (
                    "target_capability.invalid_probe"@,
                    "target capability probe digest is invalid"@,
                ),
            )
        } else if !self.identified() {
            Some(
                (
                    "target_capability.incomplete_probe"@,
                    "target capability probe is missing target identity evidence"@,
                ),
            )
        } else if !sound_evidence(self.capabilities@ + self.extensions@) {
            Some(
                (
                    "target_capability.invalid_probe"@,
                    "target capability probe contains an empty or duplicate evidence identity"@,
                ),
            )
        } else {
            None
        }
    }

    pub fn new(
        target_build: ServerBuildIdentity,
        database: &str,
        table: &str,
        column: &str,
        column_metadata: TargetColumnMetadata,
        capabilities: Vec<CapabilityProbeEntry>,
        extensions: Vec<CapabilityProbeEntry>,
        session: TargetSessionProfile,
    ) -> (result: Self)
        ensures
            result.target_build == target_build,
            result.database@ == database@,
            result.table@ == table@,
            result.column@ == column@,
            result.column_metadata == column_metadata,
            result.capabilities == capabilities,
            result.extensions == extensions,
            result.session == session,
            result.intact(),
    {
        let mut probe = Self {
            target_build,
            database: database.to_owned(),
            table: table.to_owned(),
            column: column.to_owned(),
            column_metadata,
            capabilities,
            extensions,
            session,
            digest: String::new(),
        };
        probe.refresh_digest();
        probe
    }

    pub fn computed_digest(&self) -> (result: String)
        ensures
            result@ == digest(self.content()),
            digest_spelling(result@),
    {
        digest_json(&self.content_json())
    }

    pub fn refresh_digest(&mut self)
        ensures
            *final(self) == (Self { digest: final(self).digest, ..*old(self) }),
            final(self).intact(),
    {
        self.digest = self.computed_digest();
        assert(self.content() == old(self).content());
    }

    pub fn verify_digest(&self) -> (result: bool)
        ensures
            result == self.intact(),
    {
        let computed = self.computed_digest();
        !self.digest.as_str().is_empty() && same(self.digest.as_str(), computed.as_str())
    }

    /// A probe is usable only when every capability has qualification evidence
    /// and every extension prerequisite is at least installed. Installed is
    /// deliberately not accepted for capability entries.
    pub fn is_qualified(&self) -> (result: bool)
        ensures
            result == self.qualified(),
    {
        if self.capabilities.len() == 0 {
            return false;
        }
        let mut i: usize = 0;
        while i < self.capabilities.len()
            invariant
                i <= self.capabilities@.len(),
                forall|k: int|
                    0 <= k < i ==> (#[trigger] self.capabilities@[k]).status is Qualified,
            decreases self.capabilities@.len() - i,
        {
            if !matches!(self.capabilities[i].status, CapabilityProbeStatus::Qualified) {
                return false;
            }
            i += 1;
        }
        let mut j: usize = 0;
        while j < self.extensions.len()
            invariant
                j <= self.extensions@.len(),
                forall|k: int|
                    0 <= k < j ==> (#[trigger] self.extensions@[k]).status is Installed
                        || self.extensions@[k].status is Qualified,
            decreases self.extensions@.len() - j,
        {
            if !matches!(
                self.extensions[j].status,
                CapabilityProbeStatus::Installed | CapabilityProbeStatus::Qualified
            ) {
                return false;
            }
            j += 1;
        }
        true
    }

    pub fn validate(&self) -> (result: Result<(), TargetCapabilityFailure>)
        ensures
            match result {
                Ok(_) => self.fault() is None,
                Err(failure) => self.fault() matches Some((code, message)) && failure.bare()
                    && failure.code@ == code && failure.cause->0@ == sanitized(message)
                    && failure.doc() == bare_failure_doc(code, message),
            },
    {
        proof {
            lemma_bare();
        }
        if !self.verify_digest() {
            return Err(
                TargetCapabilityFailure::new("target capability probe digest is invalid").with_code(
                    "target_capability.invalid_probe",
                ),
            );
        }
        if is_blank(self.database.as_str()) || is_blank(self.table.as_str()) || is_blank(
            self.column.as_str(),
        ) || is_blank(self.column_metadata.definition_fingerprint.as_str()) || is_blank(
            self.session.identity.as_str(),
        ) || self.capabilities.len() == 0 {
            return Err(
                TargetCapabilityFailure::new(
                    "target capability probe is missing target identity evidence",
                ).with_code("target_capability.incomplete_probe"),
            );
        }
        if !has_sound_evidence(&self.capabilities, &self.extensions) {
            return Err(
                TargetCapabilityFailure::new(
                    "target capability probe contains an empty or duplicate evidence identity",
                ).with_code("target_capability.invalid_probe"),
            );
        }
        Ok(())
    }
}

/// The entry at a place of two lists that follow each other.
fn entry_at<'a>(
    first: &'a Vec<CapabilityProbeEntry>,
    second: &'a Vec<CapabilityProbeEntry>,
    at: u128,
) -> (result: &'a CapabilityProbeEntry)
    requires
        at < first@.len() + second@.len(),
    ensures
        *result == (first@ + second@)[at as int],
{
    if at < first.len() as u128 {
        &first[at as usize]
    } else {
        assert(second.len() == second@.len());
        let rest: usize = (at - first.len() as u128) as usize;
        &second[rest]
    }
}

fn has_sound_evidence(
    capabilities: &Vec<CapabilityProbeEntry>,
    extensions: &Vec<CapabilityProbeEntry>,
) -> (result: bool)
    ensures
        result == sound_evidence(capabilities@ + extensions@),
{
    let ghost all = capabilities@ + extensions@;
    let count: u128 = capabilities.len() as u128 + extensions.len() as u128;
    let mut i: u128 = 0;
    while i < count
        invariant
            i <= count == all.len(),
            all == capabilities@ + extensions@,
            forall|k: int| 0 <= k < i ==> !blank((#[trigger] all[k]).identity@),
            forall|k: int, l: int|
                #![trigger all[k], all[l]]
                0 <= k < l < i ==> all[k].identity@ != all[l].identity@,
        decreases count - i,
    {
        let entry = entry_at(capabilities, extensions, i);
        if is_blank(entry.identity.as_str()) {
            assert(blank(all[i as int].identity@));
            return false;
        }
        let mut j: u128 = 0;
        while j < i
            invariant
                j <= i < count == all.len(),
                all == capabilities@ + extensions@,
                *entry == all[i as int],
                forall|k: int|
                    0 <= k < j ==> (#[trigger] all[k]).identity@ != entry.identity@,
            decreases i - j,
        {
            let other = entry_at(capabilities, extensions, j);
            if same(other.identity.as_str(), entry.identity.as_str()) {
                assert(all[j as int].identity@ == all[i as int].identity@);
                return false;
            }
            j += 1;
        }
        i += 1;
    }
    true
}

/// What a Sink can represent, and by which rules.
#[derive(Debug, PartialEq, Eq)]
pub struct TargetCapabilityManifest {
    pub connector: ConnectorIdentity,
    pub target_build: ServerBuildIdentity,
    pub contract: String,
    pub requires_primary_key: bool,
    pub capabilities: Vec<CapabilityEntry>,
    pub digest: String,
}

impl Contract for TargetCapabilityManifest {
    open spec fn doc(&self) -> Doc {
        let members = Seq::<(Seq<char>, Doc)>::empty();
        let members = members.push(("connector"@, self.connector.doc()));
        let members = members.push(("target_build"@, self.target_build.doc()));
        let members = members.push(("contract"@, Doc::Str(self.contract@)));
        let members = members.push(("requires_primary_key"@, Doc::Bool(self.requires_primary_key)));
        let members = members.push(("capabilities"@, Doc::Arr(docs(self.capabilities@))));
        let members = members.push(("digest"@, Doc::Str(self.digest@)));
        Doc::Obj(members)
    }

    fn to_json(&self) -> (result: Json) {
        let mut fields = Fields::new();
        fields.put("connector", self.connector.to_json());
        fields.put("target_build", self.target_build.to_json());
        fields.put_text("contract", self.contract.as_str());
        fields.put_bool("requires_primary_key", self.requires_primary_key);
        fields.put("capabilities", json_array(&self.capabilities));
        fields.put_text("digest", self.digest.as_str());
        fields.finish()
    }

    fn duplicate(&self) -> (result: Self) {
        TargetCapabilityManifest {
            connector: self.connector.duplicate(),
            target_build: self.target_build.duplicate(),
            contract: self.contract.clone(),
            requires_primary_key: self.requires_primary_key,
            capabilities: duplicate_list(&self.capabilities),
            digest: self.digest.clone(),
        }
    }
}

impl Clone for TargetCapabilityManifest {
    fn clone(&self) -> (result: Self)
        ensures
            result.doc() == self.doc(),
    {
        self.duplicate()
    }
}

/// An earlier entry has the code.
pub open spec fn code_before(entries: Seq<CapabilityEntry>, end: int, code: Seq<char>) -> bool {
    exists|j: int| 0 <= j < end && (#[trigger] entries[j]).code@ == code
}

/// The cause of what is wrong with one entry of a manifest.
pub open spec fn entry_fault(entries: Seq<CapabilityEntry>, at: int) -> Option<Seq<char>> {
    let entry = entries[at];
    if blank(entry.code@) || blank(entry.target.native_type@) || blank(entry.rule.id@) || blank(
        entry.rule.version@,
    ) || blank(entry.rule.evidence_digest@) || code_before(entries, at, entry.code@) {
        Some("target capability manifest contains an invalid or duplicate entry"@)
    } else if entry.rule.qualification is Unsupported {
        None
    } else if entry.rule.qualification is ExplicitConversion && entry.rule.allows_key {
        Some("an explicit conversion cannot be qualified for a key or Row Locator"@)
    } else if entry.rule.supported_operations@.len() == 0 || entry.rule.supported_presence@.len()
        == 0 {
        Some("qualified capability is missing operation or presence coverage"@)
    } else {
        None
    }
}

/// The cause of what is wrong with the entries from `from` on.
pub open spec fn entries_fault(entries: Seq<CapabilityEntry>, from: int) -> Option<Seq<char>>
    decreases entries.len() - from,
{
    if from < 0 || from >= entries.len() {
        None
    } else {
        match entry_fault(entries, from) {
            Some(fault) => Some(fault),
            None => entries_fault(entries, from + 1),
        }
    }
}

fn is_code_before(entries: &Vec<CapabilityEntry>, end: usize, code: &str) -> (result: bool)
    requires
        end <= entries@.len(),
    ensures
        result == code_before(entries@, end as int, code@),
{
    let mut j: usize = 0;
    while j < end
        invariant
            j <= end <= entries@.len(),
            forall|k: int| 0 <= k < j ==> (#[trigger] entries@[k]).code@ != code@,
        decreases end - j,
    {
        if same(entries[j].code.as_str(), code) {
            return true;
        }
        j += 1;
    }
    false
}

fn invalid_manifest(message: &str) -> (result: CompatibilityError)
    ensures
        result.doc() == capability_error_doc(
            bare_failure_doc("target_capability.invalid_manifest"@, message@),
        ),
{
    CompatibilityError::TargetCapability(Box::new(TargetCapabilityFailure::manifest(message)))
}

fn check_entry(entries: &Vec<CapabilityEntry>, at: usize) -> (result: Option<&'static str>)
    requires
        at < entries@.len(),
    ensures
        match result {
            Some(message) => entry_fault(entries@, at as int) == Some(message@),
            None => entry_fault(entries@, at as int) is None,
        },
{
    let entry = &entries[at];
    if is_blank(entry.code.as_str()) || is_blank(entry.target.native_type.as_str()) || is_blank(
        entry.rule.id.as_str(),
    ) || is_blank(entry.rule.version.as_str()) || is_blank(entry.rule.evidence_digest.as_str())
        || is_code_before(entries, at, entry.code.as_str()) {
        return Some("target capability manifest contains an invalid or duplicate entry");
    }
    match entry.rule.qualification {
        QualificationLevel::Unsupported => {
            return None;
        },
        QualificationLevel::ExplicitConversion => {
            if entry.rule.allows_key {
                return Some("an explicit conversion cannot be qualified for a key or Row Locator");
            }
        },
        _ => {},
    }
    if entry.rule.supported_operations.len() == 0 || entry.rule.supported_presence.len() == 0 {
        return Some("qualified capability is missing operation or presence coverage");
    }
    None
}

impl TargetCapabilityManifest {
    /// What the digest of a manifest covers.
    pub open spec fn content(&self) -> Doc {
        let members = Seq::<(Seq<char>, Doc)>::empty();
        let members = members.push(("connector"@, self.connector.doc()));
        let members = members.push(("target_build"@, self.target_build.doc()));
        let members = members.push(("contract"@, Doc::Str(self.contract@)));
        let members = members.push(("requires_primary_key"@, Doc::Bool(self.requires_primary_key)));
        let members = members.push(("capabilities"@, Doc::Arr(docs(self.capabilities@))));
        Doc::Obj(members)
    }

    fn content_json(&self) -> (result: Json)
        ensures
            result@ == self.content(),
    {
        let mut fields = Fields::new();
        fields.put("connector", self.connector.to_json());
        fields.put("target_build", self.target_build.to_json());
        fields.put_text("contract", self.contract.as_str());
        fields.put_bool("requires_primary_key", self.requires_primary_key);
        fields.put("capabilities", json_array(&self.capabilities));
        fields.finish()
    }

    /// The digest is that of the content.
    pub open spec fn intact(&self) -> bool {
        self.digest@.len() > 0 && self.digest@ == digest(self.content())
    }

    /// The cause of what is wrong with a manifest.
    pub open spec fn fault(&self) -> Option<Seq<char>> {
        if self.contract@ != COMPATIBILITY_FORMAT@ || !self.intact() {
            Some("target capability manifest is stale or invalid"@)
        } else {
            entries_fault(self.capabilities@, 0)
        }
    }

    pub fn new(
        connector: ConnectorIdentity,
        target_build: ServerBuildIdentity,
        capabilities: Vec<CapabilityEntry>,
        requires_primary_key: bool,
    ) -> (result: Self)
        ensures
            result.connector == connector,
            result.target_build == target_build,
            result.contract@ == COMPATIBILITY_FORMAT@,
            result.requires_primary_key == requires_primary_key,
            result.capabilities == capabilities,
            result.intact(),
    {
        let mut manifest = Self {
            connector,
            target_build,
            contract: COMPATIBILITY_FORMAT.to_owned(),
            requires_primary_key,
            capabilities,
            digest: String::new(),
        };
        manifest.digest = manifest.computed_digest();
        manifest
    }

    pub fn computed_digest(&self) -> (result: String)
        ensures
            result@ == digest(self.content()),
            digest_spelling(result@),
    {
        digest_json(&self.content_json())
    }

    pub fn verify_digest(&self) -> (result: bool)
        ensures
            result == self.intact(),
    {
        let computed = self.computed_digest();
        !self.digest.as_str().is_empty() && same(self.digest.as_str(), computed.as_str())
    }

    pub fn validate(&self) -> (result: Result<(), CompatibilityError>)
        ensures
            match result {
                Ok(_) => self.fault() is None,
                Err(error) => self.fault() matches Some(message) && error.doc()
                    == capability_error_doc(
                    bare_failure_doc("target_capability.invalid_manifest"@, message),
                ),
            },
    {
        if !same(self.contract.as_str(), COMPATIBILITY_FORMAT) || !self.verify_digest() {
            return Err(invalid_manifest("target capability manifest is stale or invalid"));
        }
        let mut i: usize = 0;
        while i < self.capabilities.len()
            invariant
                i <= self.capabilities@.len(),
                self.fault() == entries_fault(self.capabilities@, i as int),
            decreases self.capabilities@.len() - i,
        {
            match check_entry(&self.capabilities, i) {
                Some(message) => {
                    return Err(invalid_manifest(message));
                },
                None => {},
            }
            i += 1;
        }
        Ok(())
    }
}

// ---------------------------------------------------------------------------
// What digests tell apart
// ---------------------------------------------------------------------------

/// The digest of a manifest covers its connector, build, contract, key demand
/// and capabilities in their order, and nothing else: manifests whose contents
/// do not collide have one digest exactly where they agree on these.
pub proof fn law_manifest_digest_covers_the_content(
    a: TargetCapabilityManifest,
    b: TargetCapabilityManifest,
)
    requires
        !collide(a.content(), b.content()),
    ensures
        digest(a.content()) == digest(b.content()) <==> {
            &&& a.connector.doc() == b.connector.doc()
            &&& a.target_build.doc() == b.target_build.doc()
            &&& a.contract@ == b.contract@
            &&& a.requires_primary_key == b.requires_primary_key
            &&& docs(a.capabilities@) == docs(b.capabilities@)
        },
{
    let x = a.content()->Obj_0;
    let y = b.content()->Obj_0;
    if a.content() == b.content() {
        assert(x[0] == y[0] && x[1] == y[1] && x[2] == y[2] && x[3] == y[3] && x[4] == y[4]);
    }
}

/// A manifest whose content was changed, or whose digest was cleared, does not
/// verify.
pub proof fn law_a_changed_manifest_does_not_verify(
    before: TargetCapabilityManifest,
    after: TargetCapabilityManifest,
)
    requires
        before.intact(),
        !collide(before.content(), after.content()),
    ensures
        after.digest@ == before.digest@ && after.content() != before.content() ==> !after.intact(),
        after.digest@.len() == 0 ==> !after.intact(),
{
}

/// A manifest with the JSON form of another verifies where that one does.
pub proof fn law_a_manifest_read_back_verifies(
    written: TargetCapabilityManifest,
    read: TargetCapabilityManifest,
)
    requires
        read.doc() == written.doc(),
    ensures
        read.content() == written.content(),
        read.intact() == written.intact(),
{
    let x = read.doc()->Obj_0;
    let y = written.doc()->Obj_0;
    assert(x[0] == y[0] && x[1] == y[1] && x[2] == y[2] && x[3] == y[3] && x[4] == y[4] && x[5]
        == y[5]);
}

/// A manifest for another server build has another digest.
pub proof fn law_another_build_has_another_digest(
    a: TargetCapabilityManifest,
    b: TargetCapabilityManifest,
)
    requires
        a.intact(),
        b.intact(),
        a.target_build.doc() != b.target_build.doc(),
        !collide(a.content(), b.content()),
    ensures
        a.digest@ != b.digest@,
{
    law_manifest_digest_covers_the_content(a, b);
}

/// The digest of a probe covers all of it but the digest: probes whose contents
/// do not collide have one digest exactly where they agree on it.
pub proof fn law_probe_digest_covers_the_content(a: TargetCapabilityProbe, b: TargetCapabilityProbe)
    requires
        !collide(a.content(), b.content()),
    ensures
        digest(a.content()) == digest(b.content()) <==> {
            &&& a.target_build.doc() == b.target_build.doc()
            &&& a.database@ == b.database@
            &&& a.table@ == b.table@
            &&& a.column@ == b.column@
            &&& a.column_metadata.doc() == b.column_metadata.doc()
            &&& docs(a.capabilities@) == docs(b.capabilities@)
            &&& docs(a.extensions@) == docs(b.extensions@)
            &&& a.session.doc() == b.session.doc()
        },
{
    let x = a.content()->Obj_0;
    let y = b.content()->Obj_0;
    if a.content() == b.content() {
        assert(x[0] == y[0] && x[1] == y[1] && x[2] == y[2] && x[3] == y[3] && x[4] == y[4] && x[5]
            == y[5] && x[6] == y[6] && x[7] == y[7]);
    }
}

/// A probe whose content was changed, or whose digest was cleared, does not
/// verify.
pub proof fn law_a_changed_probe_does_not_verify(
    before: TargetCapabilityProbe,
    after: TargetCapabilityProbe,
)
    requires
        before.intact(),
        !collide(before.content(), after.content()),
    ensures
        after.digest@ == before.digest@ && after.content() != before.content() ==> !after.intact(),
        after.digest@.len() == 0 ==> !after.intact(),
{
}

} // verus!
