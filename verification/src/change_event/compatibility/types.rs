//! The descriptions that compatibility planning joins.
//!
//! Nothing here names a database or a driver. A Source connector supplies a
//! [`SourceTypeMapping`], while a Sink supplies a
//! [`TargetCapabilityManifest`].
use crate::change_event::compatibility::logical_type::LogicalType;
use crate::change_event::failure::{FailureClass, FailurePhase, RetryClassification};
use crate::change_event::model::{Datum, Operation};
use crate::json::{
    duplicate_list, duplicate_texts, with_present, with_present_list, with_present_text,
    with_present_texts, Contract, Doc, Fields, Json,
};
use crate::json::{array, collide, digest, digest_json, docs_of};
use crate::parameters::Parameters;
use crate::text::{
    leading_space, lemma_leading_space, lemma_trailing_space, trim, trimmed, white_space,
};
use vstd::prelude::*;

verus! {

pub const COMPATIBILITY_FORMAT: &'static str = "cdc.change-event-compatibility.v0.1";

pub const DIGEST_ALGORITHM: &'static str = "sha256";

/// Whether a text holds nothing but white space.
pub open spec fn blank(text: Seq<char>) -> bool {
    trim(text).len() == 0
}

/// A text with a character that is no white space is not blank.
pub proof fn lemma_not_blank(text: Seq<char>, at: int)
    requires
        0 <= at < text.len(),
        !white_space(text[at]),
    ensures
        !blank(text),
{
    lemma_leading_space(text, at);
    let from = leading_space(text) as int;
    let rest = text.skip(from);
    assert(rest[at - from] == text[at]);
    lemma_trailing_space(rest, at - from);
}

pub fn is_blank(text: &str) -> (result: bool)
    ensures
        result == blank(text@),
{
    let kept = trimmed(text);
    kept.as_str().is_empty()
}

/// Database-neutral identity of a connector release.
#[derive(Debug, PartialEq, Eq, Hash)]
pub struct ConnectorIdentity {
    pub kind: String,
    pub version: String,
}

impl Contract for ConnectorIdentity {
    open spec fn doc(&self) -> Doc {
        let members = Seq::<(Seq<char>, Doc)>::empty();
        let members = members.push(("kind"@, Doc::Str(self.kind@)));
        let members = members.push(("version"@, Doc::Str(self.version@)));
        Doc::Obj(members)
    }

    fn to_json(&self) -> (result: Json) {
        let mut fields = Fields::new();
        fields.put_text("kind", self.kind.as_str());
        fields.put_text("version", self.version.as_str());
        fields.finish()
    }

    fn duplicate(&self) -> (result: Self) {
        ConnectorIdentity {
            kind: self.kind.clone(),
            version: self.version.clone(),
        }
    }
}

impl Clone for ConnectorIdentity {
    fn clone(&self) -> (result: Self)
        ensures
            result.doc() == self.doc(),
    {
        self.duplicate()
    }
}

impl ConnectorIdentity {
    pub fn new(kind: &str, version: &str) -> (result: Self)
        ensures
            result.kind@ == kind@,
            result.version@ == version@,
    {
        Self { kind: kind.to_owned(), version: version.to_owned() }
    }
}

/// Exact server build evidence used when selecting a capability.
#[derive(Debug, PartialEq, Eq, Hash)]
pub struct ServerBuildIdentity {
    pub product: String,
    pub distribution: String,
    pub version: String,
    pub build: String,
}

impl Contract for ServerBuildIdentity {
    open spec fn doc(&self) -> Doc {
        let members = Seq::<(Seq<char>, Doc)>::empty();
        let members = members.push(("product"@, Doc::Str(self.product@)));
        let members = members.push(("distribution"@, Doc::Str(self.distribution@)));
        let members = members.push(("version"@, Doc::Str(self.version@)));
        let members = members.push(("build"@, Doc::Str(self.build@)));
        Doc::Obj(members)
    }

    fn to_json(&self) -> (result: Json) {
        let mut fields = Fields::new();
        fields.put_text("product", self.product.as_str());
        fields.put_text("distribution", self.distribution.as_str());
        fields.put_text("version", self.version.as_str());
        fields.put_text("build", self.build.as_str());
        fields.finish()
    }

    fn duplicate(&self) -> (result: Self) {
        ServerBuildIdentity {
            product: self.product.clone(),
            distribution: self.distribution.clone(),
            version: self.version.clone(),
            build: self.build.clone(),
        }
    }
}

impl Clone for ServerBuildIdentity {
    fn clone(&self) -> (result: Self)
        ensures
            result.doc() == self.doc(),
    {
        self.duplicate()
    }
}

impl ServerBuildIdentity {
    pub fn new(product: &str, distribution: &str, version: &str, build: &str) -> (result: Self)
        ensures
            result.product@ == product@,
            result.distribution@ == distribution@,
            result.version@ == version@,
            result.build@ == build@,
    {
        Self {
            product: product.to_owned(),
            distribution: distribution.to_owned(),
            version: version.to_owned(),
            build: build.to_owned(),
        }
    }
}

/// The state observed for one target-side capability or extension prerequisite.
/// The states are intentionally not collapsed into a boolean. An installed
/// extension is evidence that a target can load it, while a qualified
/// capability additionally requires the connector's versioned evidence.
#[derive(Debug, Clone, Copy, PartialEq, Eq, Hash, Structural)]
pub enum CapabilityProbeStatus {
    Detected,
    Available,
    Installed,
    Qualified,
    Missing,
    PermissionDenied,
    Incompatible,
}

impl CapabilityProbeStatus {
    /// The name that the value is written as.
    pub open spec fn label_spec(self) -> Seq<char> {
        match self {
            CapabilityProbeStatus::Detected => "detected"@,
            CapabilityProbeStatus::Available => "available"@,
            CapabilityProbeStatus::Installed => "installed"@,
            CapabilityProbeStatus::Qualified => "qualified"@,
            CapabilityProbeStatus::Missing => "missing"@,
            CapabilityProbeStatus::PermissionDenied => "permission_denied"@,
            CapabilityProbeStatus::Incompatible => "incompatible"@,
        }
    }

    pub fn label(self) -> (result: &'static str)
        ensures
            result@ == self.label_spec(),
    {
        match self {
            CapabilityProbeStatus::Detected => "detected",
            CapabilityProbeStatus::Available => "available",
            CapabilityProbeStatus::Installed => "installed",
            CapabilityProbeStatus::Qualified => "qualified",
            CapabilityProbeStatus::Missing => "missing",
            CapabilityProbeStatus::PermissionDenied => "permission_denied",
            CapabilityProbeStatus::Incompatible => "incompatible",
        }
    }
}

impl Contract for CapabilityProbeStatus {
    open spec fn doc(&self) -> Doc {
        Doc::Str(self.label_spec())
    }

    fn to_json(&self) -> (result: Json) {
        Json::Text(self.label().to_owned())
    }

    fn duplicate(&self) -> (result: Self) {
        *self
    }
}

/// One observed capability or extension.
#[derive(Debug, PartialEq, Eq, Hash)]
pub struct CapabilityProbeEntry {
    pub identity: String,
    pub status: CapabilityProbeStatus,
    pub version: Option<String>,
    pub evidence_digest: Option<String>,
}

impl Contract for CapabilityProbeEntry {
    open spec fn doc(&self) -> Doc {
        let members = Seq::<(Seq<char>, Doc)>::empty();
        let members = members.push(("identity"@, Doc::Str(self.identity@)));
        let members = members.push(("status"@, self.status.doc()));
        let members = with_present_text(members, "version"@, self.version);
        let members = with_present_text(members, "evidence_digest"@, self.evidence_digest);
        Doc::Obj(members)
    }

    fn to_json(&self) -> (result: Json) {
        let mut fields = Fields::new();
        fields.put_text("identity", self.identity.as_str());
        fields.put("status", self.status.to_json());
        fields.put_present_text("version", &self.version);
        fields.put_present_text("evidence_digest", &self.evidence_digest);
        fields.finish()
    }

    fn duplicate(&self) -> (result: Self) {
        CapabilityProbeEntry {
            identity: self.identity.clone(),
            status: self.status.duplicate(),
            version: self.version.clone(),
            evidence_digest: self.evidence_digest.clone(),
        }
    }
}

impl Clone for CapabilityProbeEntry {
    fn clone(&self) -> (result: Self)
        ensures
            result.doc() == self.doc(),
    {
        self.duplicate()
    }
}

impl CapabilityProbeEntry {
    pub fn new(identity: &str, status: CapabilityProbeStatus) -> (result: Self)
        ensures
            result.identity@ == identity@,
            result.status == status,
            result.version is None,
            result.evidence_digest is None,
    {
        Self { identity: identity.to_owned(), status, version: None, evidence_digest: None }
    }

    pub fn qualified(identity: &str) -> (result: Self)
        ensures
            result.identity@ == identity@,
            result.status is Qualified,
            result.version is None,
            result.evidence_digest is None,
    {
        Self::new(identity, CapabilityProbeStatus::Qualified)
    }

    pub fn installed(identity: &str) -> (result: Self)
        ensures
            result.identity@ == identity@,
            result.status is Installed,
            result.version is None,
            result.evidence_digest is None,
    {
        Self::new(identity, CapabilityProbeStatus::Installed)
    }

    pub fn with_version(self, version: &str) -> (result: Self)
        ensures
            result.version matches Some(text) && text@ == version@,
            result.identity == self.identity,
            result.status == self.status,
            result.evidence_digest == self.evidence_digest,
    {
        Self {
            identity: self.identity,
            status: self.status,
            version: Some(version.to_owned()),
            evidence_digest: self.evidence_digest,
        }
    }

    pub fn with_evidence_digest(self, digest: &str) -> (result: Self)
        ensures
            result.evidence_digest matches Some(text) && text@ == digest@,
            result.identity == self.identity,
            result.status == self.status,
            result.version == self.version,
    {
        Self {
            identity: self.identity,
            status: self.status,
            version: self.version,
            evidence_digest: Some(digest.to_owned()),
        }
    }
}

/// Catalog evidence for the exact target column bound by a plan.
#[derive(Debug, PartialEq, Eq, Hash)]
pub struct TargetColumnMetadata {
    pub definition_fingerprint: String,
    pub native_type: String,
    pub type_oid: Option<u64>,
    pub typmod: Option<i64>,
    pub precision: Option<u32>,
    pub scale: Option<i32>,
    pub length: Option<u64>,
    pub charset: Option<String>,
    pub collation: Option<String>,
    pub timezone: Option<String>,
    pub domain: Option<String>,
    pub extension: Option<String>,
    pub constraints: Vec<String>,
    pub indexes: Vec<String>,
}

impl Contract for TargetColumnMetadata {
    open spec fn doc(&self) -> Doc {
        let members = Seq::<(Seq<char>, Doc)>::empty();
        let members = members.push(("definition_fingerprint"@, Doc::Str(self.definition_fingerprint@)));
        let members = members.push(("native_type"@, Doc::Str(self.native_type@)));
        let members = with_present(
            members,
            "type_oid"@,
            match self.type_oid {
                Some(v) => Some(Doc::Int(v as int)),
                None => None,
            },
        );
        let members = with_present(
            members,
            "typmod"@,
            match self.typmod {
                Some(v) => Some(Doc::Int(v as int)),
                None => None,
            },
        );
        let members = with_present(
            members,
            "precision"@,
            match self.precision {
                Some(v) => Some(Doc::Int(v as int)),
                None => None,
            },
        );
        let members = with_present(
            members,
            "scale"@,
            match self.scale {
                Some(v) => Some(Doc::Int(v as int)),
                None => None,
            },
        );
        let members = with_present(
            members,
            "length"@,
            match self.length {
                Some(v) => Some(Doc::Int(v as int)),
                None => None,
            },
        );
        let members = with_present_text(members, "charset"@, self.charset);
        let members = with_present_text(members, "collation"@, self.collation);
        let members = with_present_text(members, "timezone"@, self.timezone);
        let members = with_present_text(members, "domain"@, self.domain);
        let members = with_present_text(members, "extension"@, self.extension);
        let members = with_present_texts(members, "constraints"@, self.constraints@);
        let members = with_present_texts(members, "indexes"@, self.indexes@);
        Doc::Obj(members)
    }

    fn to_json(&self) -> (result: Json) {
        let mut fields = Fields::new();
        fields.put_text("definition_fingerprint", self.definition_fingerprint.as_str());
        fields.put_text("native_type", self.native_type.as_str());
        if let Some(v) = &self.type_oid {
            fields.put_unsigned("type_oid", *v);
        }
        if let Some(v) = &self.typmod {
            fields.put_signed("typmod", *v as i64);
        }
        if let Some(v) = &self.precision {
            fields.put_unsigned("precision", *v as u64);
        }
        if let Some(v) = &self.scale {
            fields.put_signed("scale", *v as i64);
        }
        if let Some(v) = &self.length {
            fields.put_unsigned("length", *v);
        }
        fields.put_present_text("charset", &self.charset);
        fields.put_present_text("collation", &self.collation);
        fields.put_present_text("timezone", &self.timezone);
        fields.put_present_text("domain", &self.domain);
        fields.put_present_text("extension", &self.extension);
        fields.put_present_texts("constraints", &self.constraints);
        fields.put_present_texts("indexes", &self.indexes);
        fields.finish()
    }

    fn duplicate(&self) -> (result: Self) {
        TargetColumnMetadata {
            definition_fingerprint: self.definition_fingerprint.clone(),
            native_type: self.native_type.clone(),
            type_oid: self.type_oid,
            typmod: self.typmod,
            precision: self.precision,
            scale: self.scale,
            length: self.length,
            charset: self.charset.clone(),
            collation: self.collation.clone(),
            timezone: self.timezone.clone(),
            domain: self.domain.clone(),
            extension: self.extension.clone(),
            constraints: duplicate_texts(&self.constraints),
            indexes: duplicate_texts(&self.indexes),
        }
    }
}

impl Clone for TargetColumnMetadata {
    fn clone(&self) -> (result: Self)
        ensures
            result.doc() == self.doc(),
    {
        self.duplicate()
    }
}

impl TargetColumnMetadata {
    /// Nothing but the fingerprint is known.
    pub open spec fn bare(&self) -> bool {
        &&& self.native_type@.len() == 0
        &&& self.type_oid is None
        &&& self.typmod is None
        &&& self.precision is None
        &&& self.scale is None
        &&& self.length is None
        &&& self.charset is None
        &&& self.collation is None
        &&& self.timezone is None
        &&& self.domain is None
        &&& self.extension is None
        &&& self.constraints@.len() == 0
        &&& self.indexes@.len() == 0
    }

    pub fn new(definition_fingerprint: &str) -> (result: Self)
        ensures
            result.definition_fingerprint@ == definition_fingerprint@,
            result.bare(),
    {
        Self {
            definition_fingerprint: definition_fingerprint.to_owned(),
            native_type: String::new(),
            type_oid: None,
            typmod: None,
            precision: None,
            scale: None,
            length: None,
            charset: None,
            collation: None,
            timezone: None,
            domain: None,
            extension: None,
            constraints: Vec::new(),
            indexes: Vec::new(),
        }
    }

    pub fn with_native_type(self, native_type: &str) -> (result: Self)
        ensures
            result.native_type@ == native_type@,
            result == (Self { native_type: result.native_type, ..self }),
    {
        Self { native_type: native_type.to_owned(), ..self }
    }

    pub fn with_precision(self, precision: u32) -> (result: Self)
        ensures
            result.precision == Some(precision),
            result == (Self { precision: result.precision, ..self }),
    {
        Self { precision: Some(precision), ..self }
    }

    pub fn with_scale(self, scale: i32) -> (result: Self)
        ensures
            result.scale == Some(scale),
            result == (Self { scale: result.scale, ..self }),
    {
        Self { scale: Some(scale), ..self }
    }

    pub fn with_length(self, length: u64) -> (result: Self)
        ensures
            result.length == Some(length),
            result == (Self { length: result.length, ..self }),
    {
        Self { length: Some(length), ..self }
    }

    pub fn with_charset(self, charset: &str) -> (result: Self)
        ensures
            result.charset matches Some(text) && text@ == charset@,
            result == (Self { charset: result.charset, ..self }),
    {
        Self { charset: Some(charset.to_owned()), ..self }
    }

    pub fn with_collation(self, collation: &str) -> (result: Self)
        ensures
            result.collation matches Some(text) && text@ == collation@,
            result == (Self { collation: result.collation, ..self }),
    {
        Self { collation: Some(collation.to_owned()), ..self }
    }

    pub fn with_timezone(self, timezone: &str) -> (result: Self)
        ensures
            result.timezone matches Some(text) && text@ == timezone@,
            result == (Self { timezone: result.timezone, ..self }),
    {
        Self { timezone: Some(timezone.to_owned()), ..self }
    }

    pub fn with_domain(self, domain: &str) -> (result: Self)
        ensures
            result.domain matches Some(text) && text@ == domain@,
            result == (Self { domain: result.domain, ..self }),
    {
        Self { domain: Some(domain.to_owned()), ..self }
    }

    pub fn with_extension(self, extension: &str) -> (result: Self)
        ensures
            result.extension matches Some(text) && text@ == extension@,
            result == (Self { extension: result.extension, ..self }),
    {
        Self { extension: Some(extension.to_owned()), ..self }
    }

    pub fn with_constraints(self, constraints: Vec<String>) -> (result: Self)
        ensures
            result.constraints == constraints,
            result == (Self { constraints: result.constraints, ..self }),
    {
        Self { constraints: constraints, ..self }
    }

    pub fn with_indexes(self, indexes: Vec<String>) -> (result: Self)
        ensures
            result.indexes == indexes,
            result == (Self { indexes: result.indexes, ..self }),
    {
        Self { indexes: indexes, ..self }
    }
}

impl Default for TargetColumnMetadata {
    fn default() -> (result: Self)
        ensures
            result.definition_fingerprint@.len() == 0,
            result.bare(),
    {
        proof {
            reveal_strlit("");
        }
        Self::new("")
    }
}

/// The complete target session identity used while qualifying one plan.
#[derive(Debug, PartialEq, Eq, Hash)]
pub struct TargetSessionProfile {
    pub identity: String,
    pub settings: Parameters,
}

impl Contract for TargetSessionProfile {
    open spec fn doc(&self) -> Doc {
        let members = Seq::<(Seq<char>, Doc)>::empty();
        let members = members.push(("identity"@, Doc::Str(self.identity@)));
        let members = members.push(("settings"@, self.settings.doc()));
        Doc::Obj(members)
    }

    fn to_json(&self) -> (result: Json) {
        let mut fields = Fields::new();
        fields.put_text("identity", self.identity.as_str());
        fields.put("settings", self.settings.to_json());
        fields.finish()
    }

    fn duplicate(&self) -> (result: Self) {
        TargetSessionProfile {
            identity: self.identity.clone(),
            settings: self.settings.duplicate(),
        }
    }
}

impl Clone for TargetSessionProfile {
    fn clone(&self) -> (result: Self)
        ensures
            result.doc() == self.doc(),
    {
        self.duplicate()
    }
}

/// The parameters after each setting of a list, in order.
pub open spec fn settings_entries(settings: Seq<(&str, &str)>) -> Seq<(Seq<char>, Seq<char>)>
    decreases settings.len(),
{
    if settings.len() == 0 {
        Seq::empty()
    } else {
        crate::parameters::with_parameter(
            settings_entries(settings.drop_last()),
            settings.last().0@,
            settings.last().1@,
        )
    }
}

impl TargetSessionProfile {
    pub fn new(identity: &str, settings: Vec<(&str, &str)>) -> (result: Self)
        ensures
            result.identity@ == identity@,
            result.settings.entries() == settings_entries(settings@),
    {
        let mut kept = Parameters::new();
        let mut i: usize = 0;
        while i < settings.len()
            invariant
                i <= settings@.len(),
                kept.entries() == settings_entries(settings@.take(i as int)),
            decreases settings@.len() - i,
        {
            assert(settings@.take(i + 1).drop_last() =~= settings@.take(i as int));
            kept.insert(settings[i].0, settings[i].1);
            i += 1;
        }
        assert(settings@.take(i as int) =~= settings@);
        Self { identity: identity.to_owned(), settings: kept }
    }
}

/// An immutable source definition identity. The target has its own independent
/// instance of this type; the two fingerprints are never conflated.
#[derive(Debug, PartialEq, Eq, Hash)]
pub struct DefinitionReference {
    pub lineage_id: String,
    pub schema_fingerprint: String,
}

impl Contract for DefinitionReference {
    open spec fn doc(&self) -> Doc {
        let members = Seq::<(Seq<char>, Doc)>::empty();
        let members = members.push(("lineage_id"@, Doc::Str(self.lineage_id@)));
        let members = members.push(("schema_fingerprint"@, Doc::Str(self.schema_fingerprint@)));
        Doc::Obj(members)
    }

    fn to_json(&self) -> (result: Json) {
        let mut fields = Fields::new();
        fields.put_text("lineage_id", self.lineage_id.as_str());
        fields.put_text("schema_fingerprint", self.schema_fingerprint.as_str());
        fields.finish()
    }

    fn duplicate(&self) -> (result: Self) {
        DefinitionReference {
            lineage_id: self.lineage_id.clone(),
            schema_fingerprint: self.schema_fingerprint.clone(),
        }
    }
}

impl Clone for DefinitionReference {
    fn clone(&self) -> (result: Self)
        ensures
            result.doc() == self.doc(),
    {
        self.duplicate()
    }
}

impl DefinitionReference {
    pub fn new(lineage_id: &str, schema_fingerprint: &str) -> (result: Self)
        ensures
            result.lineage_id@ == lineage_id@,
            result.schema_fingerprint@ == schema_fingerprint@,
    {
        Self {
            lineage_id: lineage_id.to_owned(),
            schema_fingerprint: schema_fingerprint.to_owned(),
        }
    }

    /// Both identities are given.
    pub open spec fn complete(&self) -> bool {
        !blank(self.lineage_id@) && !blank(self.schema_fingerprint@)
    }

    pub fn is_complete(&self) -> (result: bool)
        ensures
            result == self.complete(),
    {
        !is_blank(self.lineage_id.as_str()) && !is_blank(self.schema_fingerprint.as_str())
    }
}

/// A source connector's strict, versioned mapping result.
#[derive(Debug, PartialEq, Eq)]
pub struct SourceTypeMapping {
    pub connector: ConnectorIdentity,
    pub native_type: String,
    pub logical_type: LogicalType,
    pub mapping_id: String,
    pub mapping_version: String,
    pub evidence_digest: Option<String>,
    pub source_definition_fingerprint: Option<String>,
    pub source_build: Option<ServerBuildIdentity>,
    pub environment_fingerprint: Option<String>,
}

impl Contract for SourceTypeMapping {
    open spec fn doc(&self) -> Doc {
        let members = Seq::<(Seq<char>, Doc)>::empty();
        let members = members.push(("connector"@, self.connector.doc()));
        let members = members.push(("native_type"@, Doc::Str(self.native_type@)));
        let members = members.push(("logical_type"@, self.logical_type.doc()));
        let members = members.push(("mapping_id"@, Doc::Str(self.mapping_id@)));
        let members = members.push(("mapping_version"@, Doc::Str(self.mapping_version@)));
        let members = with_present_text(members, "evidence_digest"@, self.evidence_digest);
        let members = with_present_text(
            members,
            "source_definition_fingerprint"@,
            self.source_definition_fingerprint,
        );
        let members = with_present(
            members,
            "source_build"@,
            match self.source_build {
                Some(v) => Some(v.doc()),
                None => None,
            },
        );
        let members = with_present_text(members, "environment_fingerprint"@, self.environment_fingerprint);
        Doc::Obj(members)
    }

    fn to_json(&self) -> (result: Json) {
        let mut fields = Fields::new();
        fields.put("connector", self.connector.to_json());
        fields.put_text("native_type", self.native_type.as_str());
        fields.put("logical_type", self.logical_type.to_json());
        fields.put_text("mapping_id", self.mapping_id.as_str());
        fields.put_text("mapping_version", self.mapping_version.as_str());
        fields.put_present_text("evidence_digest", &self.evidence_digest);
        fields.put_present_text("source_definition_fingerprint", &self.source_definition_fingerprint);
        if let Some(v) = &self.source_build {
            fields.put("source_build", v.to_json());
        }
        fields.put_present_text("environment_fingerprint", &self.environment_fingerprint);
        fields.finish()
    }

    fn duplicate(&self) -> (result: Self) {
        SourceTypeMapping {
            connector: self.connector.duplicate(),
            native_type: self.native_type.clone(),
            logical_type: self.logical_type.duplicate(),
            mapping_id: self.mapping_id.clone(),
            mapping_version: self.mapping_version.clone(),
            evidence_digest: self.evidence_digest.clone(),
            source_definition_fingerprint: self.source_definition_fingerprint.clone(),
            source_build: match &self.source_build {
                Some(v) => Some(v.duplicate()),
                None => None,
            },
            environment_fingerprint: self.environment_fingerprint.clone(),
        }
    }
}

impl Clone for SourceTypeMapping {
    fn clone(&self) -> (result: Self)
        ensures
            result.doc() == self.doc(),
    {
        self.duplicate()
    }
}

impl SourceTypeMapping {
    pub fn new(
        connector: ConnectorIdentity,
        native_type: &str,
        logical_type: LogicalType,
        mapping_id: &str,
        mapping_version: &str,
    ) -> (result: Self)
        ensures
            result.connector == connector,
            result.native_type@ == native_type@,
            result.logical_type == logical_type,
            result.mapping_id@ == mapping_id@,
            result.mapping_version@ == mapping_version@,
            result.evidence_digest is None,
            result.source_definition_fingerprint is None,
            result.source_build is None,
            result.environment_fingerprint is None,
    {
        Self {
            connector,
            native_type: native_type.to_owned(),
            logical_type,
            mapping_id: mapping_id.to_owned(),
            mapping_version: mapping_version.to_owned(),
            evidence_digest: None,
            source_definition_fingerprint: None,
            source_build: None,
            environment_fingerprint: None,
        }
    }

    /// What the evidence digest of a bound mapping covers.
    pub open spec fn evidence_doc(
        &self,
        source_definition_fingerprint: Seq<char>,
        source_build: ServerBuildIdentity,
        environment_fingerprint: Seq<char>,
    ) -> Doc {
        Doc::Arr(
            Seq::<Doc>::empty().push(self.connector.doc()).push(Doc::Str(self.native_type@)).push(
                self.logical_type.doc(),
            ).push(Doc::Str(self.mapping_id@)).push(Doc::Str(self.mapping_version@)).push(
                Doc::Str(source_definition_fingerprint),
            ).push(source_build.doc()).push(Doc::Str(environment_fingerprint)),
        )
    }

    /// Bind a mapping to the immutable source definition, exact server build,
    /// and semantic environment that qualified its interpretation.
    pub fn with_source_evidence(
        self,
        source_definition_fingerprint: &str,
        source_build: ServerBuildIdentity,
        environment_fingerprint: &str,
    ) -> (result: Self)
        ensures
            result.connector == self.connector,
            result.native_type == self.native_type,
            result.logical_type == self.logical_type,
            result.mapping_id == self.mapping_id,
            result.mapping_version == self.mapping_version,
            result.source_definition_fingerprint matches Some(text) && text@
                == source_definition_fingerprint@,
            result.source_build == Some(source_build),
            result.environment_fingerprint matches Some(text) && text@ == environment_fingerprint@,
            result.evidence_digest matches Some(text) && text@ == digest(
                self.evidence_doc(
                    source_definition_fingerprint@,
                    source_build,
                    environment_fingerprint@,
                ),
            ),
    {
        let mut items: Vec<Json> = Vec::new();
        items.push(self.connector.to_json());
        items.push(Json::Text(self.native_type.clone()));
        items.push(self.logical_type.to_json());
        items.push(Json::Text(self.mapping_id.clone()));
        items.push(Json::Text(self.mapping_version.clone()));
        items.push(Json::Text(source_definition_fingerprint.to_owned()));
        items.push(source_build.to_json());
        items.push(Json::Text(environment_fingerprint.to_owned()));
        assert(docs_of(items@) =~= self.evidence_doc(
            source_definition_fingerprint@,
            source_build,
            environment_fingerprint@,
        )->Arr_0);
        let evidence = digest_json(&array(items));
        Self {
            source_definition_fingerprint: Some(source_definition_fingerprint.to_owned()),
            source_build: Some(source_build),
            environment_fingerprint: Some(environment_fingerprint.to_owned()),
            evidence_digest: Some(evidence),
            ..self
        }
    }
}

/// A concrete target native representation. Target type names never enter a
/// change event; they are confined to this Sink-owned type.
#[derive(Debug, PartialEq, Eq)]
pub struct TargetRepresentation {
    pub native_type: String,
    pub parameters: Parameters,
}

impl Contract for TargetRepresentation {
    open spec fn doc(&self) -> Doc {
        let members = Seq::<(Seq<char>, Doc)>::empty();
        let members = members.push(("native_type"@, Doc::Str(self.native_type@)));
        let members = members.push(("parameters"@, self.parameters.doc()));
        Doc::Obj(members)
    }

    fn to_json(&self) -> (result: Json) {
        let mut fields = Fields::new();
        fields.put_text("native_type", self.native_type.as_str());
        fields.put("parameters", self.parameters.to_json());
        fields.finish()
    }

    fn duplicate(&self) -> (result: Self) {
        TargetRepresentation {
            native_type: self.native_type.clone(),
            parameters: self.parameters.duplicate(),
        }
    }
}

impl Clone for TargetRepresentation {
    fn clone(&self) -> (result: Self)
        ensures
            result.doc() == self.doc(),
    {
        self.duplicate()
    }
}

impl TargetRepresentation {
    pub fn new(native_type: &str) -> (result: Self)
        ensures
            result.native_type@ == native_type@,
            result.parameters.entries() == Seq::<(Seq<char>, Seq<char>)>::empty(),
    {
        Self { native_type: native_type.to_owned(), parameters: Parameters::new() }
    }
}

/// How well a target representation preserves a source type.
#[derive(Debug, Clone, Copy, PartialEq, Eq, PartialOrd, Ord, Hash, Structural)]
pub enum QualificationLevel {
    Exact,
    RangeChecked,
    ExplicitConversion,
    Unsupported,
}

impl QualificationLevel {
    /// The name that the value is written as.
    pub open spec fn label_spec(self) -> Seq<char> {
        match self {
            QualificationLevel::Exact => "EXACT"@,
            QualificationLevel::RangeChecked => "RANGE_CHECKED"@,
            QualificationLevel::ExplicitConversion => "EXPLICIT_CONVERSION"@,
            QualificationLevel::Unsupported => "UNSUPPORTED"@,
        }
    }

    pub fn label(self) -> (result: &'static str)
        ensures
            result@ == self.label_spec(),
    {
        match self {
            QualificationLevel::Exact => "EXACT",
            QualificationLevel::RangeChecked => "RANGE_CHECKED",
            QualificationLevel::ExplicitConversion => "EXPLICIT_CONVERSION",
            QualificationLevel::Unsupported => "UNSUPPORTED",
        }
    }
}

impl Contract for QualificationLevel {
    open spec fn doc(&self) -> Doc {
        Doc::Str(self.label_spec())
    }

    fn to_json(&self) -> (result: Json) {
        Json::Text(self.label().to_owned())
    }

    fn duplicate(&self) -> (result: Self) {
        *self
    }
}

pub type Qualification = QualificationLevel;

/// What a conversion may cost.
#[derive(Debug, Clone, Copy, PartialEq, Eq, PartialOrd, Ord, Hash, Structural)]
pub enum RiskLevel {
    NoRisk,
    Low,
    Medium,
    High,
    Critical,
}

impl RiskLevel {
    /// The name that the value is written as.
    pub open spec fn label_spec(self) -> Seq<char> {
        match self {
            RiskLevel::NoRisk => "NONE"@,
            RiskLevel::Low => "LOW"@,
            RiskLevel::Medium => "MEDIUM"@,
            RiskLevel::High => "HIGH"@,
            RiskLevel::Critical => "CRITICAL"@,
        }
    }

    pub fn label(self) -> (result: &'static str)
        ensures
            result@ == self.label_spec(),
    {
        match self {
            RiskLevel::NoRisk => "NONE",
            RiskLevel::Low => "LOW",
            RiskLevel::Medium => "MEDIUM",
            RiskLevel::High => "HIGH",
            RiskLevel::Critical => "CRITICAL",
        }
    }
}

impl Contract for RiskLevel {
    open spec fn doc(&self) -> Doc {
        Doc::Str(self.label_spec())
    }

    fn to_json(&self) -> (result: Json) {
        Json::Text(self.label().to_owned())
    }

    fn duplicate(&self) -> (result: Self) {
        *self
    }
}

/// What a representation may lose.
#[derive(Debug, PartialEq, Eq, Hash)]
pub struct LossAssessment {
    /// Whether the selected representation can lose source value semantics.
    pub value: bool,
    /// Whether target equality/uniqueness comparison can differ.
    pub comparison: bool,
    /// Whether ordering semantics can differ.
    pub ordering: bool,
    /// Whether source constraints require an explicit target policy.
    pub constraints: bool,
    pub explanation: String,
}

impl Contract for LossAssessment {
    open spec fn doc(&self) -> Doc {
        let members = Seq::<(Seq<char>, Doc)>::empty();
        let members = members.push(("value"@, Doc::Bool(self.value)));
        let members = members.push(("comparison"@, Doc::Bool(self.comparison)));
        let members = members.push(("ordering"@, Doc::Bool(self.ordering)));
        let members = members.push(("constraints"@, Doc::Bool(self.constraints)));
        let members = members.push(("explanation"@, Doc::Str(self.explanation@)));
        Doc::Obj(members)
    }

    fn to_json(&self) -> (result: Json) {
        let mut fields = Fields::new();
        fields.put_bool("value", self.value);
        fields.put_bool("comparison", self.comparison);
        fields.put_bool("ordering", self.ordering);
        fields.put_bool("constraints", self.constraints);
        fields.put_text("explanation", self.explanation.as_str());
        fields.finish()
    }

    fn duplicate(&self) -> (result: Self) {
        LossAssessment {
            value: self.value,
            comparison: self.comparison,
            ordering: self.ordering,
            constraints: self.constraints,
            explanation: self.explanation.clone(),
        }
    }
}

impl Clone for LossAssessment {
    fn clone(&self) -> (result: Self)
        ensures
            result.doc() == self.doc(),
    {
        self.duplicate()
    }
}

/// The form of the loss that a qualification declares.
pub open spec fn loss_doc(qualification: QualificationLevel, key_like: bool) -> Doc {
    let (value, comparison, ordering, constraints, explanation) = match qualification {
        QualificationLevel::Exact => (
            false,
            false,
            false,
            false,
            "source semantics are preserved by the qualified target representation"@,
        ),
        QualificationLevel::RangeChecked => (
            false,
            false,
            false,
            false,
            "values are preserved when the declared target range check passes"@,
        ),
        QualificationLevel::ExplicitConversion => (
            true,
            key_like,
            key_like,
            true,
            "the selected rule is an explicit semantic conversion and carries a declared guarantee downgrade"@,
        ),
        QualificationLevel::Unsupported => (
            true,
            true,
            true,
            true,
            "no qualified target representation exists"@,
        ),
    };
    let members = Seq::<(Seq<char>, Doc)>::empty();
    let members = members.push(("value"@, Doc::Bool(value)));
    let members = members.push(("comparison"@, Doc::Bool(comparison)));
    let members = members.push(("ordering"@, Doc::Bool(ordering)));
    let members = members.push(("constraints"@, Doc::Bool(constraints)));
    let members = members.push(("explanation"@, Doc::Str(explanation)));
    Doc::Obj(members)
}

impl LossAssessment {
    pub fn for_qualification(qualification: QualificationLevel, key_like: bool) -> (result: Self)
        ensures
            result.doc() == loss_doc(qualification, key_like),
    {
        match qualification {
            QualificationLevel::Exact => Self {
                value: false,
                comparison: false,
                ordering: false,
                constraints: false,
                explanation:
                    "source semantics are preserved by the qualified target representation".to_owned(),
            },
            QualificationLevel::RangeChecked => Self {
                value: false,
                comparison: false,
                ordering: false,
                constraints: false,
                explanation:
                    "values are preserved when the declared target range check passes".to_owned(),
            },
            QualificationLevel::ExplicitConversion => Self {
                value: true,
                comparison: key_like,
                ordering: key_like,
                constraints: true,
                explanation:
                    "the selected rule is an explicit semantic conversion and carries a declared guarantee downgrade".to_owned(),
            },
            QualificationLevel::Unsupported => Self {
                value: true,
                comparison: true,
                ordering: true,
                constraints: true,
                explanation: "no qualified target representation exists".to_owned(),
            },
        }
    }
}

impl Default for LossAssessment {
    fn default() -> (result: Self)
        ensures
            !result.value,
            !result.comparison,
            !result.ordering,
            !result.constraints,
            result.explanation@.len() == 0,
    {
        Self {
            value: false,
            comparison: false,
            ordering: false,
            constraints: false,
            explanation: String::new(),
        }
    }
}

/// A pair of names that shows a conversion.
#[derive(Debug, PartialEq, Eq, Hash)]
pub struct ConversionExample {
    pub source: String,
    pub target: String,
}

impl Contract for ConversionExample {
    open spec fn doc(&self) -> Doc {
        let members = Seq::<(Seq<char>, Doc)>::empty();
        let members = members.push(("source"@, Doc::Str(self.source@)));
        let members = members.push(("target"@, Doc::Str(self.target@)));
        Doc::Obj(members)
    }

    fn to_json(&self) -> (result: Json) {
        let mut fields = Fields::new();
        fields.put_text("source", self.source.as_str());
        fields.put_text("target", self.target.as_str());
        fields.finish()
    }

    fn duplicate(&self) -> (result: Self) {
        ConversionExample {
            source: self.source.clone(),
            target: self.target.clone(),
        }
    }
}

impl Clone for ConversionExample {
    fn clone(&self) -> (result: Self)
        ensures
            result.doc() == self.doc(),
    {
        self.duplicate()
    }
}

/// What a plan does to the Row Locator.
#[derive(Debug, Clone, Copy, PartialEq, Eq, Hash, Structural)]
pub enum LocatorImpact {
    Preserved,
    NotUsed,
    ValueOnly,
    Blocked,
}

impl LocatorImpact {
    /// The name that the value is written as.
    pub open spec fn label_spec(self) -> Seq<char> {
        match self {
            LocatorImpact::Preserved => "preserved"@,
            LocatorImpact::NotUsed => "not_used"@,
            LocatorImpact::ValueOnly => "value_only"@,
            LocatorImpact::Blocked => "blocked"@,
        }
    }

    pub fn label(self) -> (result: &'static str)
        ensures
            result@ == self.label_spec(),
    {
        match self {
            LocatorImpact::Preserved => "preserved",
            LocatorImpact::NotUsed => "not_used",
            LocatorImpact::ValueOnly => "value_only",
            LocatorImpact::Blocked => "blocked",
        }
    }
}

impl Contract for LocatorImpact {
    open spec fn doc(&self) -> Doc {
        Doc::Str(self.label_spec())
    }

    fn to_json(&self) -> (result: Json) {
        Json::Text(self.label().to_owned())
    }

    fn duplicate(&self) -> (result: Self) {
        *self
    }
}

/// Whether a plan waits for a confirmation.
#[derive(Debug, Clone, Copy, PartialEq, Eq, Hash, Structural)]
pub enum PlanConfirmationState {
    NotRequired,
    Required,
    Confirmed,
}

impl PlanConfirmationState {
    /// The name that the value is written as.
    pub open spec fn label_spec(self) -> Seq<char> {
        match self {
            PlanConfirmationState::NotRequired => "not_required"@,
            PlanConfirmationState::Required => "required"@,
            PlanConfirmationState::Confirmed => "confirmed"@,
        }
    }

    pub fn label(self) -> (result: &'static str)
        ensures
            result@ == self.label_spec(),
    {
        match self {
            PlanConfirmationState::NotRequired => "not_required",
            PlanConfirmationState::Required => "required",
            PlanConfirmationState::Confirmed => "confirmed",
        }
    }
}

impl Contract for PlanConfirmationState {
    open spec fn doc(&self) -> Doc {
        Doc::Str(self.label_spec())
    }

    fn to_json(&self) -> (result: Json) {
        Json::Text(self.label().to_owned())
    }

    fn duplicate(&self) -> (result: Self) {
        *self
    }
}

/// What a row image knows of a column.
#[derive(Debug, Clone, Copy, PartialEq, Eq, Hash, Structural)]
pub enum PresenceState {
    Value,
    Null,
    Unchanged,
    Unavailable,
    GeneratedObservation,
}

impl PresenceState {
    /// The name that the value is written as.
    pub open spec fn label_spec(self) -> Seq<char> {
        match self {
            PresenceState::Value => "VALUE"@,
            PresenceState::Null => "NULL"@,
            PresenceState::Unchanged => "UNCHANGED"@,
            PresenceState::Unavailable => "UNAVAILABLE"@,
            PresenceState::GeneratedObservation => "GENERATED_OBSERVATION"@,
        }
    }

    pub fn label(self) -> (result: &'static str)
        ensures
            result@ == self.label_spec(),
    {
        match self {
            PresenceState::Value => "VALUE",
            PresenceState::Null => "NULL",
            PresenceState::Unchanged => "UNCHANGED",
            PresenceState::Unavailable => "UNAVAILABLE",
            PresenceState::GeneratedObservation => "GENERATED_OBSERVATION",
        }
    }
}

impl Contract for PresenceState {
    open spec fn doc(&self) -> Doc {
        Doc::Str(self.label_spec())
    }

    fn to_json(&self) -> (result: Json) {
        Json::Text(self.label().to_owned())
    }

    fn duplicate(&self) -> (result: Self) {
        *self
    }
}

impl PresenceState {
    /// The presence of a datum.
    pub open spec fn of_datum(datum: Datum, generated: bool) -> PresenceState {
        match datum {
            Datum::Value(_) => if generated {
                PresenceState::GeneratedObservation
            } else {
                PresenceState::Value
            },
            Datum::Null => PresenceState::Null,
            Datum::Unchanged => PresenceState::Unchanged,
            Datum::Unavailable => PresenceState::Unavailable,
        }
    }

    pub fn from_datum(datum: &Datum, generated: bool) -> (result: Self)
        ensures
            result == PresenceState::of_datum(*datum, generated),
    {
        match datum {
            Datum::Value(_) => if generated {
                Self::GeneratedObservation
            } else {
                Self::Value
            },
            Datum::Null => Self::Null,
            Datum::Unchanged => Self::Unchanged,
            Datum::Unavailable => Self::Unavailable,
        }
    }
}

impl Default for LocatorImpact {
    fn default() -> (result: Self)
        ensures
            result is NotUsed,
    {
        LocatorImpact::NotUsed
    }
}

impl Default for PlanConfirmationState {
    fn default() -> (result: Self)
        ensures
            result is NotRequired,
    {
        PlanConfirmationState::NotRequired
    }
}

/// The outcome of planning one field binding.
#[derive(Debug, Clone, Copy, PartialEq, Eq, Hash, Structural)]
pub enum CompatibilityStatus {
    Compatible,
    NeedsConfirmation,
    NeedsConfiguration,
    Unsupported,
    Blocked,
    Stale,
}

impl CompatibilityStatus {
    /// The name that the value is written as.
    pub open spec fn label_spec(self) -> Seq<char> {
        match self {
            CompatibilityStatus::Compatible => "COMPATIBLE"@,
            CompatibilityStatus::NeedsConfirmation => "NEEDS_CONFIRMATION"@,
            CompatibilityStatus::NeedsConfiguration => "NEEDS_CONFIGURATION"@,
            CompatibilityStatus::Unsupported => "UNSUPPORTED"@,
            CompatibilityStatus::Blocked => "BLOCKED"@,
            CompatibilityStatus::Stale => "STALE"@,
        }
    }

    pub fn label(self) -> (result: &'static str)
        ensures
            result@ == self.label_spec(),
    {
        match self {
            CompatibilityStatus::Compatible => "COMPATIBLE",
            CompatibilityStatus::NeedsConfirmation => "NEEDS_CONFIRMATION",
            CompatibilityStatus::NeedsConfiguration => "NEEDS_CONFIGURATION",
            CompatibilityStatus::Unsupported => "UNSUPPORTED",
            CompatibilityStatus::Blocked => "BLOCKED",
            CompatibilityStatus::Stale => "STALE",
        }
    }
}

impl Contract for CompatibilityStatus {
    open spec fn doc(&self) -> Doc {
        Doc::Str(self.label_spec())
    }

    fn to_json(&self) -> (result: Json) {
        Json::Text(self.label().to_owned())
    }

    fn duplicate(&self) -> (result: Self) {
        *self
    }
}

/// What is done about a value that does not fit.
#[derive(Debug, Clone, Copy, PartialEq, Eq, Hash, Structural)]
pub enum FailurePolicy {
    Reject,
    RetryTransaction,
    ResolveCommitUnknown,
}

impl FailurePolicy {
    /// The name that the value is written as.
    pub open spec fn label_spec(self) -> Seq<char> {
        match self {
            FailurePolicy::Reject => "REJECT"@,
            FailurePolicy::RetryTransaction => "RETRY_TRANSACTION"@,
            FailurePolicy::ResolveCommitUnknown => "RESOLVE_COMMIT_UNKNOWN"@,
        }
    }

    pub fn label(self) -> (result: &'static str)
        ensures
            result@ == self.label_spec(),
    {
        match self {
            FailurePolicy::Reject => "REJECT",
            FailurePolicy::RetryTransaction => "RETRY_TRANSACTION",
            FailurePolicy::ResolveCommitUnknown => "RESOLVE_COMMIT_UNKNOWN",
        }
    }
}

impl Contract for FailurePolicy {
    open spec fn doc(&self) -> Doc {
        Doc::Str(self.label_spec())
    }

    fn to_json(&self) -> (result: Json) {
        Json::Text(self.label().to_owned())
    }

    fn duplicate(&self) -> (result: Self) {
        *self
    }
}

/// The kind of value that an option takes.
#[derive(Debug, Clone, Copy, PartialEq, Eq, Hash, Structural)]
pub enum OptionValueKind {
    Boolean,
    Integer,
    String,
    Enum,
}

impl OptionValueKind {
    /// The name that the value is written as.
    pub open spec fn label_spec(self) -> Seq<char> {
        match self {
            OptionValueKind::Boolean => "boolean"@,
            OptionValueKind::Integer => "integer"@,
            OptionValueKind::String => "string"@,
            OptionValueKind::Enum => "enum"@,
        }
    }

    pub fn label(self) -> (result: &'static str)
        ensures
            result@ == self.label_spec(),
    {
        match self {
            OptionValueKind::Boolean => "boolean",
            OptionValueKind::Integer => "integer",
            OptionValueKind::String => "string",
            OptionValueKind::Enum => "enum",
        }
    }
}

impl Contract for OptionValueKind {
    open spec fn doc(&self) -> Doc {
        Doc::Str(self.label_spec())
    }

    fn to_json(&self) -> (result: Json) {
        Json::Text(self.label().to_owned())
    }

    fn duplicate(&self) -> (result: Self) {
        *self
    }
}

/// An option of a conversion rule.
#[derive(Debug, PartialEq, Eq)]
pub struct OptionSpec {
    pub name: String,
    pub value_kind: OptionValueKind,
    pub required: bool,
    pub default: Option<String>,
    pub allowed_values: Vec<String>,
}

impl Contract for OptionSpec {
    open spec fn doc(&self) -> Doc {
        let members = Seq::<(Seq<char>, Doc)>::empty();
        let members = members.push(("name"@, Doc::Str(self.name@)));
        let members = members.push(("value_kind"@, self.value_kind.doc()));
        let members = members.push(("required"@, Doc::Bool(self.required)));
        let members = with_present_text(members, "default"@, self.default);
        let members = with_present_texts(members, "allowed_values"@, self.allowed_values@);
        Doc::Obj(members)
    }

    fn to_json(&self) -> (result: Json) {
        let mut fields = Fields::new();
        fields.put_text("name", self.name.as_str());
        fields.put("value_kind", self.value_kind.to_json());
        fields.put_bool("required", self.required);
        fields.put_present_text("default", &self.default);
        fields.put_present_texts("allowed_values", &self.allowed_values);
        fields.finish()
    }

    fn duplicate(&self) -> (result: Self) {
        OptionSpec {
            name: self.name.clone(),
            value_kind: self.value_kind.duplicate(),
            required: self.required,
            default: self.default.clone(),
            allowed_values: duplicate_texts(&self.allowed_values),
        }
    }
}

impl Clone for OptionSpec {
    fn clone(&self) -> (result: Self)
        ensures
            result.doc() == self.doc(),
    {
        self.duplicate()
    }
}

/// The identity of a conversion rule.
#[derive(Debug, PartialEq, Eq)]
pub struct RuleReference {
    pub id: String,
    pub version: String,
}

impl Contract for RuleReference {
    open spec fn doc(&self) -> Doc {
        let members = Seq::<(Seq<char>, Doc)>::empty();
        let members = members.push(("id"@, Doc::Str(self.id@)));
        let members = members.push(("version"@, Doc::Str(self.version@)));
        Doc::Obj(members)
    }

    fn to_json(&self) -> (result: Json) {
        let mut fields = Fields::new();
        fields.put_text("id", self.id.as_str());
        fields.put_text("version", self.version.as_str());
        fields.finish()
    }

    fn duplicate(&self) -> (result: Self) {
        RuleReference {
            id: self.id.clone(),
            version: self.version.clone(),
        }
    }
}

impl Clone for RuleReference {
    fn clone(&self) -> (result: Self)
        ensures
            result.doc() == self.doc(),
    {
        self.duplicate()
    }
}

/// A versioned rule by which a Sink stores a source type.
#[derive(Debug, PartialEq, Eq)]
pub struct ConversionRule {
    pub id: String,
    pub version: String,
    pub qualification: QualificationLevel,
    pub risk: RiskLevel,
    pub risk_code: Option<String>,
    pub requires_confirmation: bool,
    pub options: Vec<OptionSpec>,
    pub supported_operations: Vec<Operation>,
    pub supported_presence: Vec<PresenceState>,
    pub allows_key: bool,
    pub failure_policy: FailurePolicy,
    pub evidence_digest: String,
}

impl Contract for ConversionRule {
    open spec fn doc(&self) -> Doc {
        let members = Seq::<(Seq<char>, Doc)>::empty();
        let members = members.push(("id"@, Doc::Str(self.id@)));
        let members = members.push(("version"@, Doc::Str(self.version@)));
        let members = members.push(("qualification"@, self.qualification.doc()));
        let members = members.push(("risk"@, self.risk.doc()));
        let members = with_present_text(members, "risk_code"@, self.risk_code);
        let members = members.push(("requires_confirmation"@, Doc::Bool(self.requires_confirmation)));
        let members = with_present_list(members, "options"@, self.options@);
        let members = with_present_list(members, "supported_operations"@, self.supported_operations@);
        let members = with_present_list(members, "supported_presence"@, self.supported_presence@);
        let members = members.push(("allows_key"@, Doc::Bool(self.allows_key)));
        let members = members.push(("failure_policy"@, self.failure_policy.doc()));
        let members = members.push(("evidence_digest"@, Doc::Str(self.evidence_digest@)));
        Doc::Obj(members)
    }

    fn to_json(&self) -> (result: Json) {
        let mut fields = Fields::new();
        fields.put_text("id", self.id.as_str());
        fields.put_text("version", self.version.as_str());
        fields.put("qualification", self.qualification.to_json());
        fields.put("risk", self.risk.to_json());
        fields.put_present_text("risk_code", &self.risk_code);
        fields.put_bool("requires_confirmation", self.requires_confirmation);
        fields.put_present_list("options", &self.options);
        fields.put_present_list("supported_operations", &self.supported_operations);
        fields.put_present_list("supported_presence", &self.supported_presence);
        fields.put_bool("allows_key", self.allows_key);
        fields.put("failure_policy", self.failure_policy.to_json());
        fields.put_text("evidence_digest", self.evidence_digest.as_str());
        fields.finish()
    }

    fn duplicate(&self) -> (result: Self) {
        ConversionRule {
            id: self.id.clone(),
            version: self.version.clone(),
            qualification: self.qualification.duplicate(),
            risk: self.risk.duplicate(),
            risk_code: self.risk_code.clone(),
            requires_confirmation: self.requires_confirmation,
            options: duplicate_list(&self.options),
            supported_operations: duplicate_list(&self.supported_operations),
            supported_presence: duplicate_list(&self.supported_presence),
            allows_key: self.allows_key,
            failure_policy: self.failure_policy.duplicate(),
            evidence_digest: self.evidence_digest.clone(),
        }
    }
}

impl Clone for ConversionRule {
    fn clone(&self) -> (result: Self)
        ensures
            result.doc() == self.doc(),
    {
        self.duplicate()
    }
}

/// The form of a rule reference.
pub open spec fn rule_reference_doc(id: Seq<char>, version: Seq<char>) -> Doc {
    Doc::Obj(
        Seq::<(Seq<char>, Doc)>::empty().push(("id"@, Doc::Str(id))).push(
            ("version"@, Doc::Str(version)),
        ),
    )
}

impl ConversionRule {
    pub fn reference(&self) -> (result: RuleReference)
        ensures
            result.id == self.id,
            result.version == self.version,
            result.doc() == rule_reference_doc(self.id@, self.version@),
    {
        RuleReference { id: self.id.clone(), version: self.version.clone() }
    }
}

/// One source type that a Sink can store.
#[derive(Debug, PartialEq, Eq)]
pub struct CapabilityEntry {
    pub code: String,
    pub source_logical_type: LogicalType,
    pub target: TargetRepresentation,
    pub rule: ConversionRule,
    pub supported_operations: Vec<Operation>,
    pub supported_presence: Vec<PresenceState>,
}

impl Contract for CapabilityEntry {
    open spec fn doc(&self) -> Doc {
        let members = Seq::<(Seq<char>, Doc)>::empty();
        let members = members.push(("code"@, Doc::Str(self.code@)));
        let members = members.push(("source_logical_type"@, self.source_logical_type.doc()));
        let members = members.push(("target"@, self.target.doc()));
        let members = members.push(("rule"@, self.rule.doc()));
        let members = with_present_list(members, "supported_operations"@, self.supported_operations@);
        let members = with_present_list(members, "supported_presence"@, self.supported_presence@);
        Doc::Obj(members)
    }

    fn to_json(&self) -> (result: Json) {
        let mut fields = Fields::new();
        fields.put_text("code", self.code.as_str());
        fields.put("source_logical_type", self.source_logical_type.to_json());
        fields.put("target", self.target.to_json());
        fields.put("rule", self.rule.to_json());
        fields.put_present_list("supported_operations", &self.supported_operations);
        fields.put_present_list("supported_presence", &self.supported_presence);
        fields.finish()
    }

    fn duplicate(&self) -> (result: Self) {
        CapabilityEntry {
            code: self.code.clone(),
            source_logical_type: self.source_logical_type.duplicate(),
            target: self.target.duplicate(),
            rule: self.rule.duplicate(),
            supported_operations: duplicate_list(&self.supported_operations),
            supported_presence: duplicate_list(&self.supported_presence),
        }
    }
}

impl Clone for CapabilityEntry {
    fn clone(&self) -> (result: Self)
        ensures
            result.doc() == self.doc(),
    {
        self.duplicate()
    }
}

/// The definition of one field.
#[derive(Debug, PartialEq, Eq)]
pub struct FieldDefinition {
    pub reference: DefinitionReference,
    pub ordinal: usize,
    pub name: String,
    pub native_type: String,
    pub logical_type: LogicalType,
    pub nullable: bool,
    pub collation: Option<String>,
    pub generated: bool,
    pub primary_key_ordinal: Option<usize>,
    /// A unique key column is protected by the same lossy-conversion rule as
    /// a primary key even when the current Row Locator implementation does not
    /// use it as its preferred locator.
    pub unique: bool,
    /// A route may designate a non-key column as a Row Locator when a future
    /// Sink proves that strategy. Such a column is still protected here.
    pub row_locator: bool,
}

impl Contract for FieldDefinition {
    open spec fn doc(&self) -> Doc {
        let members = Seq::<(Seq<char>, Doc)>::empty();
        let members = members.push(("reference"@, self.reference.doc()));
        let members = members.push(("ordinal"@, Doc::Int(self.ordinal as int)));
        let members = members.push(("name"@, Doc::Str(self.name@)));
        let members = members.push(("native_type"@, Doc::Str(self.native_type@)));
        let members = members.push(("logical_type"@, self.logical_type.doc()));
        let members = members.push(("nullable"@, Doc::Bool(self.nullable)));
        let members = with_present_text(members, "collation"@, self.collation);
        let members = members.push(("generated"@, Doc::Bool(self.generated)));
        let members = with_present(
            members,
            "primary_key_ordinal"@,
            match self.primary_key_ordinal {
                Some(v) => Some(Doc::Int(v as int)),
                None => None,
            },
        );
        let members = members.push(("unique"@, Doc::Bool(self.unique)));
        let members = members.push(("row_locator"@, Doc::Bool(self.row_locator)));
        Doc::Obj(members)
    }

    fn to_json(&self) -> (result: Json) {
        let mut fields = Fields::new();
        fields.put("reference", self.reference.to_json());
        fields.put_unsigned("ordinal", self.ordinal as u64);
        fields.put_text("name", self.name.as_str());
        fields.put_text("native_type", self.native_type.as_str());
        fields.put("logical_type", self.logical_type.to_json());
        fields.put_bool("nullable", self.nullable);
        fields.put_present_text("collation", &self.collation);
        fields.put_bool("generated", self.generated);
        if let Some(v) = &self.primary_key_ordinal {
            fields.put_unsigned("primary_key_ordinal", *v as u64);
        }
        fields.put_bool("unique", self.unique);
        fields.put_bool("row_locator", self.row_locator);
        fields.finish()
    }

    fn duplicate(&self) -> (result: Self) {
        FieldDefinition {
            reference: self.reference.duplicate(),
            ordinal: self.ordinal,
            name: self.name.clone(),
            native_type: self.native_type.clone(),
            logical_type: self.logical_type.duplicate(),
            nullable: self.nullable,
            collation: self.collation.clone(),
            generated: self.generated,
            primary_key_ordinal: self.primary_key_ordinal,
            unique: self.unique,
            row_locator: self.row_locator,
        }
    }
}

impl Clone for FieldDefinition {
    fn clone(&self) -> (result: Self)
        ensures
            result.doc() == self.doc(),
    {
        self.duplicate()
    }
}

pub type ColumnDefinition = FieldDefinition;

/// An operator has accepted the risk of one plan.
#[derive(Debug, PartialEq, Eq)]
pub struct RiskConfirmation {
    pub source_field_lineage: String,
    pub target_field_lineage: String,
    pub rule: RuleReference,
    pub plan_digest: String,
    pub actor: String,
    pub confirmed_at: String,
    pub reason: Option<String>,
}

impl Contract for RiskConfirmation {
    open spec fn doc(&self) -> Doc {
        let members = Seq::<(Seq<char>, Doc)>::empty();
        let members = members.push(("source_field_lineage"@, Doc::Str(self.source_field_lineage@)));
        let members = members.push(("target_field_lineage"@, Doc::Str(self.target_field_lineage@)));
        let members = members.push(("rule"@, self.rule.doc()));
        let members = members.push(("plan_digest"@, Doc::Str(self.plan_digest@)));
        let members = members.push(("actor"@, Doc::Str(self.actor@)));
        let members = members.push(("confirmed_at"@, Doc::Str(self.confirmed_at@)));
        let members = with_present_text(members, "reason"@, self.reason);
        Doc::Obj(members)
    }

    fn to_json(&self) -> (result: Json) {
        let mut fields = Fields::new();
        fields.put_text("source_field_lineage", self.source_field_lineage.as_str());
        fields.put_text("target_field_lineage", self.target_field_lineage.as_str());
        fields.put("rule", self.rule.to_json());
        fields.put_text("plan_digest", self.plan_digest.as_str());
        fields.put_text("actor", self.actor.as_str());
        fields.put_text("confirmed_at", self.confirmed_at.as_str());
        fields.put_present_text("reason", &self.reason);
        fields.finish()
    }

    fn duplicate(&self) -> (result: Self) {
        RiskConfirmation {
            source_field_lineage: self.source_field_lineage.clone(),
            target_field_lineage: self.target_field_lineage.clone(),
            rule: self.rule.duplicate(),
            plan_digest: self.plan_digest.clone(),
            actor: self.actor.clone(),
            confirmed_at: self.confirmed_at.clone(),
            reason: self.reason.clone(),
        }
    }
}

impl Clone for RiskConfirmation {
    fn clone(&self) -> (result: Self)
        ensures
            result.doc() == self.doc(),
    {
        self.duplicate()
    }
}

/// A target representation that could be chosen.
#[derive(Debug, PartialEq, Eq)]
pub struct TargetTypeCandidate {
    pub target: TargetRepresentation,
    pub rule: RuleReference,
    pub capability_code: String,
    pub qualification: QualificationLevel,
    pub risk: RiskLevel,
    pub risk_code: Option<String>,
    pub requires_confirmation: bool,
}

impl Contract for TargetTypeCandidate {
    open spec fn doc(&self) -> Doc {
        let members = Seq::<(Seq<char>, Doc)>::empty();
        let members = members.push(("target"@, self.target.doc()));
        let members = members.push(("rule"@, self.rule.doc()));
        let members = members.push(("capability_code"@, Doc::Str(self.capability_code@)));
        let members = members.push(("qualification"@, self.qualification.doc()));
        let members = members.push(("risk"@, self.risk.doc()));
        let members = with_present_text(members, "risk_code"@, self.risk_code);
        let members = members.push(("requires_confirmation"@, Doc::Bool(self.requires_confirmation)));
        Doc::Obj(members)
    }

    fn to_json(&self) -> (result: Json) {
        let mut fields = Fields::new();
        fields.put("target", self.target.to_json());
        fields.put("rule", self.rule.to_json());
        fields.put_text("capability_code", self.capability_code.as_str());
        fields.put("qualification", self.qualification.to_json());
        fields.put("risk", self.risk.to_json());
        fields.put_present_text("risk_code", &self.risk_code);
        fields.put_bool("requires_confirmation", self.requires_confirmation);
        fields.finish()
    }

    fn duplicate(&self) -> (result: Self) {
        TargetTypeCandidate {
            target: self.target.duplicate(),
            rule: self.rule.duplicate(),
            capability_code: self.capability_code.clone(),
            qualification: self.qualification.duplicate(),
            risk: self.risk.duplicate(),
            risk_code: self.risk_code.clone(),
            requires_confirmation: self.requires_confirmation,
        }
    }
}

impl Clone for TargetTypeCandidate {
    fn clone(&self) -> (result: Self)
        ensures
            result.doc() == self.doc(),
    {
        self.duplicate()
    }
}

/// The identity of a plan.
#[derive(Debug, PartialEq, Eq)]
pub struct PlanSummary {
    pub input_digest: String,
    pub plan_digest: String,
    pub rule: RuleReference,
    pub capability_code: String,
}

impl Contract for PlanSummary {
    open spec fn doc(&self) -> Doc {
        let members = Seq::<(Seq<char>, Doc)>::empty();
        let members = members.push(("input_digest"@, Doc::Str(self.input_digest@)));
        let members = members.push(("plan_digest"@, Doc::Str(self.plan_digest@)));
        let members = members.push(("rule"@, self.rule.doc()));
        let members = members.push(("capability_code"@, Doc::Str(self.capability_code@)));
        Doc::Obj(members)
    }

    fn to_json(&self) -> (result: Json) {
        let mut fields = Fields::new();
        fields.put_text("input_digest", self.input_digest.as_str());
        fields.put_text("plan_digest", self.plan_digest.as_str());
        fields.put("rule", self.rule.to_json());
        fields.put_text("capability_code", self.capability_code.as_str());
        fields.finish()
    }

    fn duplicate(&self) -> (result: Self) {
        PlanSummary {
            input_digest: self.input_digest.clone(),
            plan_digest: self.plan_digest.clone(),
            rule: self.rule.duplicate(),
            capability_code: self.capability_code.clone(),
        }
    }
}

impl Clone for PlanSummary {
    fn clone(&self) -> (result: Self)
        ensures
            result.doc() == self.doc(),
    {
        self.duplicate()
    }
}

/// Why a field binding cannot be used as it is.
#[derive(Debug, PartialEq, Eq)]
pub struct CompatibilityFailure {
    pub class: FailureClass,
    pub code: String,
    pub phase: FailurePhase,
    pub retry: RetryClassification,
    pub message: String,
}

impl Contract for CompatibilityFailure {
    open spec fn doc(&self) -> Doc {
        let members = Seq::<(Seq<char>, Doc)>::empty();
        let members = members.push(("class"@, self.class.doc()));
        let members = members.push(("code"@, Doc::Str(self.code@)));
        let members = members.push(("phase"@, self.phase.doc()));
        let members = members.push(("retry"@, self.retry.doc()));
        let members = members.push(("message"@, Doc::Str(self.message@)));
        Doc::Obj(members)
    }

    fn to_json(&self) -> (result: Json) {
        let mut fields = Fields::new();
        fields.put("class", self.class.to_json());
        fields.put_text("code", self.code.as_str());
        fields.put("phase", self.phase.to_json());
        fields.put("retry", self.retry.to_json());
        fields.put_text("message", self.message.as_str());
        fields.finish()
    }

    fn duplicate(&self) -> (result: Self) {
        CompatibilityFailure {
            class: self.class.duplicate(),
            code: self.code.clone(),
            phase: self.phase.duplicate(),
            retry: self.retry.duplicate(),
            message: self.message.clone(),
        }
    }
}

impl Clone for CompatibilityFailure {
    fn clone(&self) -> (result: Self)
        ensures
            result.doc() == self.doc(),
    {
        self.duplicate()
    }
}

/// The form of a failure that must not be retried.
pub open spec fn failure_doc(
    class: FailureClass,
    code: Seq<char>,
    phase: FailurePhase,
    message: Seq<char>,
) -> Doc {
    let members = Seq::<(Seq<char>, Doc)>::empty();
    let members = members.push(("class"@, class.doc()));
    let members = members.push(("code"@, Doc::Str(code)));
    let members = members.push(("phase"@, phase.doc()));
    let members = members.push(("retry"@, RetryClassification::NotRetryable.doc()));
    let members = members.push(("message"@, Doc::Str(message)));
    Doc::Obj(members)
}

impl CompatibilityFailure {
    pub fn new(class: FailureClass, code: &str, phase: FailurePhase, message: &str) -> (result: Self)
        ensures
            result.class == class,
            result.code@ == code@,
            result.phase == phase,
            result.retry is NotRetryable,
            result.message@ == message@,
            result.doc() == failure_doc(class, code@, phase, message@),
    {
        Self {
            class,
            code: code.to_owned(),
            phase,
            retry: RetryClassification::NotRetryable,
            message: message.to_owned(),
        }
    }
}

/// Two bindings of one mapping have one evidence digest exactly where the
/// definition, the build and the environment are the same, barring a collision.
pub proof fn law_source_evidence_is_told_apart(
    mapping: SourceTypeMapping,
    definition: Seq<char>,
    build: ServerBuildIdentity,
    environment: Seq<char>,
    other_definition: Seq<char>,
    other_build: ServerBuildIdentity,
    other_environment: Seq<char>,
)
    requires
        !collide(
            mapping.evidence_doc(definition, build, environment),
            mapping.evidence_doc(other_definition, other_build, other_environment),
        ),
    ensures
        digest(mapping.evidence_doc(definition, build, environment)) == digest(
            mapping.evidence_doc(other_definition, other_build, other_environment),
        ) <==> definition == other_definition && build.doc() == other_build.doc() && environment
            == other_environment,
{
    let x = mapping.evidence_doc(definition, build, environment)->Arr_0;
    let y = mapping.evidence_doc(other_definition, other_build, other_environment)->Arr_0;
    if x == y {
        assert(x[5] == y[5] && x[6] == y[6] && x[7] == y[7]);
    }
}

} // verus!
