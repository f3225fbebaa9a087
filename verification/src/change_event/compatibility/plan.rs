//! The plan by which one column is converted, and what a request for one
//! holds.
use crate::change_event::compatibility::capability::{
    TargetCapabilityManifest, TargetCapabilityProbe,
};
use crate::change_event::compatibility::types::{
    CompatibilityFailure, CompatibilityStatus, ConnectorIdentity, ConversionExample,
    DefinitionReference, FailurePolicy, FieldDefinition, LocatorImpact, LossAssessment,
    PlanConfirmationState, PlanSummary, PresenceState, QualificationLevel, RiskConfirmation,
    RiskLevel, RuleReference, ServerBuildIdentity, SourceTypeMapping, TargetRepresentation,
    TargetTypeCandidate,
};
use crate::change_event::model::Operation;
use crate::change_event::validate::ValidatedTransaction;
use crate::encoding::digest_spelling;
use crate::json::{
    collide, digest, digest_json, docs, duplicate_list, duplicate_optional, json_array, nullable_doc,
    optional_doc, optional_text_doc, with_present, with_present_list, with_present_text, Contract,
    Doc, Fields, Json,
};
use crate::json::same_value;
use crate::parameters::Parameters;
use crate::text::same;
use vstd::prelude::*;

verus! {

/// What a route asks for.
#[derive(Debug, PartialEq, Eq)]
pub struct RouteOptions {
    pub route_id: String,
    pub configuration_revision: String,
    pub selected_rule: Option<RuleReference>,
    pub parameters: Parameters,
    pub confirmations: Vec<RiskConfirmation>,
    /// Optional target preflight evidence. Callers may omit it while connectors
    /// migrate to probe-backed activation; when present it is always part of
    /// the immutable plan identity.
    pub target_probe: Option<TargetCapabilityProbe>,
}

impl Contract for RouteOptions {
    open spec fn doc(&self) -> Doc {
        let members = Seq::<(Seq<char>, Doc)>::empty();
        let members = members.push(("route_id"@, Doc::Str(self.route_id@)));
        let members = members.push(("configuration_revision"@, Doc::Str(self.configuration_revision@)));
        let members = with_present(members, "selected_rule"@, optional_doc(self.selected_rule));
        let members = members.push(("parameters"@, self.parameters.doc()));
        let members = members.push(("confirmations"@, Doc::Arr(docs(self.confirmations@))));
        let members = with_present(members, "target_probe"@, optional_doc(self.target_probe));
        Doc::Obj(members)
    }

    fn to_json(&self) -> (result: Json) {
        let mut fields = Fields::new();
        fields.put_text("route_id", self.route_id.as_str());
        fields.put_text("configuration_revision", self.configuration_revision.as_str());
        fields.put_present("selected_rule", &self.selected_rule);
        fields.put("parameters", self.parameters.to_json());
        fields.put("confirmations", json_array(&self.confirmations));
        fields.put_present("target_probe", &self.target_probe);
        fields.finish()
    }

    fn duplicate(&self) -> (result: Self) {
        RouteOptions {
            route_id: self.route_id.clone(),
            configuration_revision: self.configuration_revision.clone(),
            selected_rule: duplicate_optional(&self.selected_rule),
            parameters: self.parameters.duplicate(),
            confirmations: duplicate_list(&self.confirmations),
            target_probe: duplicate_optional(&self.target_probe),
        }
    }
}

impl Clone for RouteOptions {
    fn clone(&self) -> (result: Self)
        ensures
            result.doc() == self.doc(),
    {
        self.duplicate()
    }
}

pub type CompatibilityOptions = RouteOptions;

impl Default for RouteOptions {
    fn default() -> (result: Self)
        ensures
            result.route_id@.len() == 0,
            result.configuration_revision@.len() == 0,
            result.selected_rule is None,
            result.parameters.entries().len() == 0,
            result.confirmations@.len() == 0,
            result.target_probe is None,
    {
        RouteOptions {
            route_id: String::new(),
            configuration_revision: String::new(),
            selected_rule: None,
            parameters: Parameters::new(),
            confirmations: Vec::new(),
            target_probe: None,
        }
    }
}

/// What one field binding of a transaction is planned from.
pub struct CompatibilityInput<'a> {
    pub transaction: &'a ValidatedTransaction,
    pub source_field: FieldDefinition,
    pub target_field: FieldDefinition,
    pub source_type_mapping: SourceTypeMapping,
    pub source_connector: ConnectorIdentity,
    pub sink_connector: ConnectorIdentity,
    pub source_build: Option<ServerBuildIdentity>,
    pub target_build: Option<ServerBuildIdentity>,
    pub manifest: &'a TargetCapabilityManifest,
    pub options: RouteOptions,
}

/// Catalog-time compatibility input used by preflight and route activation. It
/// deliberately carries only source/target definitions and the
/// operation/presence contract; no row sample is used to choose a plan.
pub struct FieldCompatibilityInput<'a> {
    pub source_field: FieldDefinition,
    pub target_field: FieldDefinition,
    pub source_type_mapping: SourceTypeMapping,
    pub source_connector: ConnectorIdentity,
    pub sink_connector: ConnectorIdentity,
    pub source_build: Option<ServerBuildIdentity>,
    pub target_build: Option<ServerBuildIdentity>,
    pub manifest: &'a TargetCapabilityManifest,
    pub operations: Vec<Operation>,
    pub presences: Vec<PresenceState>,
    pub source_has_primary_key: bool,
    pub options: RouteOptions,
}

impl<'a> Clone for CompatibilityInput<'a> {
    fn clone(&self) -> (result: Self)
        ensures
            result.transaction == self.transaction,
            result.source_field.doc() == self.source_field.doc(),
            result.target_field.doc() == self.target_field.doc(),
            result.source_type_mapping.doc() == self.source_type_mapping.doc(),
            result.source_connector.doc() == self.source_connector.doc(),
            result.sink_connector.doc() == self.sink_connector.doc(),
            optional_doc(result.source_build) == optional_doc(self.source_build),
            optional_doc(result.target_build) == optional_doc(self.target_build),
            result.manifest == self.manifest,
            result.options.doc() == self.options.doc(),
    {
        CompatibilityInput {
            transaction: self.transaction,
            source_field: self.source_field.clone(),
            target_field: self.target_field.clone(),
            source_type_mapping: self.source_type_mapping.clone(),
            source_connector: self.source_connector.clone(),
            sink_connector: self.sink_connector.clone(),
            source_build: duplicate_optional(&self.source_build),
            target_build: duplicate_optional(&self.target_build),
            manifest: self.manifest,
            options: self.options.clone(),
        }
    }
}

impl<'a> Clone for FieldCompatibilityInput<'a> {
    fn clone(&self) -> (result: Self)
        ensures
            result.source_field.doc() == self.source_field.doc(),
            result.target_field.doc() == self.target_field.doc(),
            result.source_type_mapping.doc() == self.source_type_mapping.doc(),
            result.source_connector.doc() == self.source_connector.doc(),
            result.sink_connector.doc() == self.sink_connector.doc(),
            optional_doc(result.source_build) == optional_doc(self.source_build),
            optional_doc(result.target_build) == optional_doc(self.target_build),
            result.manifest == self.manifest,
            docs(result.operations@) == docs(self.operations@),
            docs(result.presences@) == docs(self.presences@),
            result.source_has_primary_key == self.source_has_primary_key,
            result.options.doc() == self.options.doc(),
    {
        FieldCompatibilityInput {
            source_field: self.source_field.clone(),
            target_field: self.target_field.clone(),
            source_type_mapping: self.source_type_mapping.clone(),
            source_connector: self.source_connector.clone(),
            sink_connector: self.sink_connector.clone(),
            source_build: duplicate_optional(&self.source_build),
            target_build: duplicate_optional(&self.target_build),
            manifest: self.manifest,
            operations: duplicate_list(&self.operations),
            presences: duplicate_list(&self.presences),
            source_has_primary_key: self.source_has_primary_key,
            options: self.options.clone(),
        }
    }
}

/// The immutable decision how one column is converted.
#[derive(Debug, PartialEq, Eq)]
pub struct ColumnConversionPlan {
    pub format: String,
    pub route_id: String,
    pub configuration_revision: String,
    pub source_field: DefinitionReference,
    pub target_field: DefinitionReference,
    pub source_connector: ConnectorIdentity,
    pub sink_connector: ConnectorIdentity,
    pub source_build: Option<ServerBuildIdentity>,
    pub target_build: Option<ServerBuildIdentity>,
    pub source_mapping_id: String,
    pub source_mapping_version: String,
    pub target: TargetRepresentation,
    pub rule: RuleReference,
    pub rule_digest: String,
    pub capability_code: String,
    pub capability_manifest_digest: String,
    pub target_probe_digest: Option<String>,
    pub qualification: QualificationLevel,
    pub risk: RiskLevel,
    pub risk_code: Option<String>,
    pub loss: LossAssessment,
    pub examples: Vec<ConversionExample>,
    pub locator_impact: LocatorImpact,
    pub confirmation: PlanConfirmationState,
    pub parameters: Parameters,
    pub failure_policy: FailurePolicy,
    pub input_digest: String,
    pub plan_digest: String,
}

impl Contract for ColumnConversionPlan {
    open spec fn doc(&self) -> Doc {
        let members = Seq::<(Seq<char>, Doc)>::empty();
        let members = members.push(("format"@, Doc::Str(self.format@)));
        let members = members.push(("route_id"@, Doc::Str(self.route_id@)));
        let members = members.push(("configuration_revision"@, Doc::Str(self.configuration_revision@)));
        let members = members.push(("source_field"@, self.source_field.doc()));
        let members = members.push(("target_field"@, self.target_field.doc()));
        let members = members.push(("source_connector"@, self.source_connector.doc()));
        let members = members.push(("sink_connector"@, self.sink_connector.doc()));
        let members = with_present(members, "source_build"@, optional_doc(self.source_build));
        let members = with_present(members, "target_build"@, optional_doc(self.target_build));
        let members = members.push(("source_mapping_id"@, Doc::Str(self.source_mapping_id@)));
        let members = members.push(("source_mapping_version"@, Doc::Str(self.source_mapping_version@)));
        let members = members.push(("target"@, self.target.doc()));
        let members = members.push(("rule"@, self.rule.doc()));
        let members = members.push(("rule_digest"@, Doc::Str(self.rule_digest@)));
        let members = members.push(("capability_code"@, Doc::Str(self.capability_code@)));
        let members = members.push(("capability_manifest_digest"@, Doc::Str(self.capability_manifest_digest@)));
        let members = with_present_text(members, "target_probe_digest"@, self.target_probe_digest);
        let members = members.push(("qualification"@, self.qualification.doc()));
        let members = members.push(("risk"@, self.risk.doc()));
        let members = with_present_text(members, "risk_code"@, self.risk_code);
        let members = members.push(("loss"@, self.loss.doc()));
        let members = with_present_list(members, "examples"@, self.examples@);
        let members = members.push(("locator_impact"@, self.locator_impact.doc()));
        let members = members.push(("confirmation"@, self.confirmation.doc()));
        let members = members.push(("parameters"@, self.parameters.doc()));
        let members = members.push(("failure_policy"@, self.failure_policy.doc()));
        let members = members.push(("input_digest"@, Doc::Str(self.input_digest@)));
        let members = members.push(("plan_digest"@, Doc::Str(self.plan_digest@)));
        Doc::Obj(members)
    }

    fn to_json(&self) -> (result: Json) {
        let mut fields = Fields::new();
        fields.put_text("format", self.format.as_str());
        fields.put_text("route_id", self.route_id.as_str());
        fields.put_text("configuration_revision", self.configuration_revision.as_str());
        fields.put("source_field", self.source_field.to_json());
        fields.put("target_field", self.target_field.to_json());
        fields.put("source_connector", self.source_connector.to_json());
        fields.put("sink_connector", self.sink_connector.to_json());
        fields.put_present("source_build", &self.source_build);
        fields.put_present("target_build", &self.target_build);
        fields.put_text("source_mapping_id", self.source_mapping_id.as_str());
        fields.put_text("source_mapping_version", self.source_mapping_version.as_str());
        fields.put("target", self.target.to_json());
        fields.put("rule", self.rule.to_json());
        fields.put_text("rule_digest", self.rule_digest.as_str());
        fields.put_text("capability_code", self.capability_code.as_str());
        fields.put_text("capability_manifest_digest", self.capability_manifest_digest.as_str());
        fields.put_present_text("target_probe_digest", &self.target_probe_digest);
        fields.put("qualification", self.qualification.to_json());
        fields.put("risk", self.risk.to_json());
        fields.put_present_text("risk_code", &self.risk_code);
        fields.put("loss", self.loss.to_json());
        fields.put_present_list("examples", &self.examples);
        fields.put("locator_impact", self.locator_impact.to_json());
        fields.put("confirmation", self.confirmation.to_json());
        fields.put("parameters", self.parameters.to_json());
        fields.put("failure_policy", self.failure_policy.to_json());
        fields.put_text("input_digest", self.input_digest.as_str());
        fields.put_text("plan_digest", self.plan_digest.as_str());
        fields.finish()
    }

    fn duplicate(&self) -> (result: Self) {
        ColumnConversionPlan {
            format: self.format.clone(),
            route_id: self.route_id.clone(),
            configuration_revision: self.configuration_revision.clone(),
            source_field: self.source_field.duplicate(),
            target_field: self.target_field.duplicate(),
            source_connector: self.source_connector.duplicate(),
            sink_connector: self.sink_connector.duplicate(),
            source_build: duplicate_optional(&self.source_build),
            target_build: duplicate_optional(&self.target_build),
            source_mapping_id: self.source_mapping_id.clone(),
            source_mapping_version: self.source_mapping_version.clone(),
            target: self.target.duplicate(),
            rule: self.rule.duplicate(),
            rule_digest: self.rule_digest.clone(),
            capability_code: self.capability_code.clone(),
            capability_manifest_digest: self.capability_manifest_digest.clone(),
            target_probe_digest: self.target_probe_digest.clone(),
            qualification: self.qualification.duplicate(),
            risk: self.risk.duplicate(),
            risk_code: self.risk_code.clone(),
            loss: self.loss.duplicate(),
            examples: duplicate_list(&self.examples),
            locator_impact: self.locator_impact.duplicate(),
            confirmation: self.confirmation.duplicate(),
            parameters: self.parameters.duplicate(),
            failure_policy: self.failure_policy.duplicate(),
            input_digest: self.input_digest.clone(),
            plan_digest: self.plan_digest.clone(),
        }
    }
}

impl Clone for ColumnConversionPlan {
    fn clone(&self) -> (result: Self)
        ensures
            result.doc() == self.doc(),
    {
        self.duplicate()
    }
}

impl ColumnConversionPlan {
    /// What the digest of a plan covers: all of it but the confirmation.
    pub open spec fn content(&self) -> Doc {
        let members = Seq::<(Seq<char>, Doc)>::empty();
        let members = members.push(("format"@, Doc::Str(self.format@)));
        let members = members.push(("route_id"@, Doc::Str(self.route_id@)));
        let members = members.push(("configuration_revision"@, Doc::Str(self.configuration_revision@)));
        let members = members.push(("source_field"@, self.source_field.doc()));
        let members = members.push(("target_field"@, self.target_field.doc()));
        let members = members.push(("source_connector"@, self.source_connector.doc()));
        let members = members.push(("sink_connector"@, self.sink_connector.doc()));
        let members = members.push(("source_build"@, nullable_doc(self.source_build)));
        let members = members.push(("target_build"@, nullable_doc(self.target_build)));
        let members = members.push(("source_mapping_id"@, Doc::Str(self.source_mapping_id@)));
        let members = members.push(("source_mapping_version"@, Doc::Str(self.source_mapping_version@)));
        let members = members.push(("target"@, self.target.doc()));
        let members = members.push(("rule"@, self.rule.doc()));
        let members = members.push(("rule_digest"@, Doc::Str(self.rule_digest@)));
        let members = members.push(("capability_code"@, Doc::Str(self.capability_code@)));
        let members = members.push(("capability_manifest_digest"@, Doc::Str(self.capability_manifest_digest@)));
        let members = members.push(("target_probe_digest"@, optional_text_doc(self.target_probe_digest)));
        let members = members.push(("qualification"@, self.qualification.doc()));
        let members = members.push(("risk"@, self.risk.doc()));
        let members = members.push(("risk_code"@, optional_text_doc(self.risk_code)));
        let members = members.push(("loss"@, self.loss.doc()));
        let members = members.push(("examples"@, Doc::Arr(docs(self.examples@))));
        let members = members.push(("locator_impact"@, self.locator_impact.doc()));
        let members = members.push(("parameters"@, self.parameters.doc()));
        let members = members.push(("failure_policy"@, self.failure_policy.doc()));
        let members = members.push(("input_digest"@, Doc::Str(self.input_digest@)));
        Doc::Obj(members)
    }

    fn content_json(&self) -> (result: Json)
        ensures
            result@ == self.content(),
    {
        let mut fields = Fields::new();
        fields.put_text("format", self.format.as_str());
        fields.put_text("route_id", self.route_id.as_str());
        fields.put_text("configuration_revision", self.configuration_revision.as_str());
        fields.put("source_field", self.source_field.to_json());
        fields.put("target_field", self.target_field.to_json());
        fields.put("source_connector", self.source_connector.to_json());
        fields.put("sink_connector", self.sink_connector.to_json());
        fields.put_nullable("source_build", &self.source_build);
        fields.put_nullable("target_build", &self.target_build);
        fields.put_text("source_mapping_id", self.source_mapping_id.as_str());
        fields.put_text("source_mapping_version", self.source_mapping_version.as_str());
        fields.put("target", self.target.to_json());
        fields.put("rule", self.rule.to_json());
        fields.put_text("rule_digest", self.rule_digest.as_str());
        fields.put_text("capability_code", self.capability_code.as_str());
        fields.put_text("capability_manifest_digest", self.capability_manifest_digest.as_str());
        fields.put_optional_text("target_probe_digest", &self.target_probe_digest);
        fields.put("qualification", self.qualification.to_json());
        fields.put("risk", self.risk.to_json());
        fields.put_optional_text("risk_code", &self.risk_code);
        fields.put("loss", self.loss.to_json());
        fields.put("examples", json_array(&self.examples));
        fields.put("locator_impact", self.locator_impact.to_json());
        fields.put("parameters", self.parameters.to_json());
        fields.put("failure_policy", self.failure_policy.to_json());
        fields.put_text("input_digest", self.input_digest.as_str());
        fields.finish()
    }

    /// The digest is that of the content.
    pub open spec fn intact(&self) -> bool {
        self.plan_digest@ == digest(self.content())
    }

    pub fn verify_digest(&self) -> (result: bool)
        ensures
            result == self.intact(),
    {
        let computed = self.computed_digest();
        same(self.plan_digest.as_str(), computed.as_str())
    }

    pub fn computed_digest(&self) -> (result: String)
        ensures
            result@ == digest(self.content()),
            digest_spelling(result@),
    {
        digest_json(&self.content_json())
    }

    /// The confirmation is one of this very plan.
    pub open spec fn confirmed_by(&self, confirmation: RiskConfirmation) -> bool {
        &&& confirmation.source_field_lineage@ == self.source_field.lineage_id@
        &&& confirmation.target_field_lineage@ == self.target_field.lineage_id@
        &&& confirmation.rule.doc() == self.rule.doc()
        &&& confirmation.plan_digest@ == self.plan_digest@
    }

    pub fn confirmation_matches(&self, confirmation: &RiskConfirmation) -> (result: bool)
        ensures
            result == self.confirmed_by(*confirmation),
    {
        same(
            confirmation.source_field_lineage.as_str(),
            self.source_field.lineage_id.as_str(),
        ) && same(
            confirmation.target_field_lineage.as_str(),
            self.target_field.lineage_id.as_str(),
        ) && same_value(&confirmation.rule, &self.rule) && same(
            confirmation.plan_digest.as_str(),
            self.plan_digest.as_str(),
        )
    }
}

/// To confirm a plan changes neither its content nor its digest.
pub proof fn law_confirming_keeps_the_digest(plan: ColumnConversionPlan, state: PlanConfirmationState)
    ensures
        (ColumnConversionPlan { confirmation: state, ..plan }).content() == plan.content(),
        (ColumnConversionPlan { confirmation: state, ..plan }).intact() == plan.intact(),
{
}

/// The digest of a plan covers all of it but the confirmation and the digest:
/// plans whose contents do not collide have one digest exactly where they agree
/// on it.
pub proof fn law_plan_digest_covers_the_content(a: ColumnConversionPlan, b: ColumnConversionPlan)
    requires
        !collide(a.content(), b.content()),
    ensures
        digest(a.content()) == digest(b.content()) <==> {
            &&& a.format@ == b.format@
            &&& a.route_id@ == b.route_id@
            &&& a.configuration_revision@ == b.configuration_revision@
            &&& a.source_field.doc() == b.source_field.doc()
            &&& a.target_field.doc() == b.target_field.doc()
            &&& a.source_connector.doc() == b.source_connector.doc()
            &&& a.sink_connector.doc() == b.sink_connector.doc()
            &&& nullable_doc(a.source_build) == nullable_doc(b.source_build)
            &&& nullable_doc(a.target_build) == nullable_doc(b.target_build)
            &&& a.source_mapping_id@ == b.source_mapping_id@
            &&& a.source_mapping_version@ == b.source_mapping_version@
            &&& a.target.doc() == b.target.doc()
            &&& a.rule.doc() == b.rule.doc()
            &&& a.rule_digest@ == b.rule_digest@
            &&& a.capability_code@ == b.capability_code@
            &&& a.capability_manifest_digest@ == b.capability_manifest_digest@
            &&& optional_text_doc(a.target_probe_digest) == optional_text_doc(b.target_probe_digest)
            &&& a.qualification.doc() == b.qualification.doc()
            &&& a.risk.doc() == b.risk.doc()
            &&& optional_text_doc(a.risk_code) == optional_text_doc(b.risk_code)
            &&& a.loss.doc() == b.loss.doc()
            &&& docs(a.examples@) == docs(b.examples@)
            &&& a.locator_impact.doc() == b.locator_impact.doc()
            &&& a.parameters.doc() == b.parameters.doc()
            &&& a.failure_policy.doc() == b.failure_policy.doc()
            &&& a.input_digest@ == b.input_digest@
        },
{
    if a.content() == b.content() {
        let x = a.content()->Obj_0;
        let y = b.content()->Obj_0;
        // The route.
        assert(x[0] == y[0] && x[1] == y[1] && x[2] == y[2]);
        // The fields and the connectors.
        assert(x[3] == y[3] && x[4] == y[4] && x[5] == y[5] && x[6] == y[6]);
        // The builds and the source mapping.
        assert(x[7] == y[7] && x[8] == y[8] && x[9] == y[9] && x[10] == y[10]);
        // The target, the rule and the capability.
        assert(x[11] == y[11] && x[12] == y[12] && x[13] == y[13] && x[14] == y[14]
            && x[15] == y[15] && x[16] == y[16]);
        // The assessment.
        assert(x[17] == y[17] && x[18] == y[18] && x[19] == y[19] && x[20] == y[20]
            && x[21] == y[21] && x[22] == y[22]);
        // The parameters, the failure policy and the inputs.
        assert(x[23] == y[23] && x[24] == y[24] && x[25] == y[25]);
    }
}

/// Whether a field binding is compatible, why, and by which plan.
#[derive(Debug, PartialEq, Eq)]
pub struct CompatibilityResult {
    pub source_field: DefinitionReference,
    pub target_field: DefinitionReference,
    pub status: CompatibilityStatus,
    pub qualification: QualificationLevel,
    pub risk: RiskLevel,
    pub reason_code: String,
    pub explanation: String,
    pub requires_confirmation: bool,
    pub rule: Option<RuleReference>,
    pub plan: Option<ColumnConversionPlan>,
    pub candidates: Vec<TargetTypeCandidate>,
    pub failure: Option<CompatibilityFailure>,
    pub summary: Option<PlanSummary>,
}

impl Contract for CompatibilityResult {
    open spec fn doc(&self) -> Doc {
        let members = Seq::<(Seq<char>, Doc)>::empty();
        let members = members.push(("source_field"@, self.source_field.doc()));
        let members = members.push(("target_field"@, self.target_field.doc()));
        let members = members.push(("status"@, self.status.doc()));
        let members = members.push(("qualification"@, self.qualification.doc()));
        let members = members.push(("risk"@, self.risk.doc()));
        let members = members.push(("reason_code"@, Doc::Str(self.reason_code@)));
        let members = members.push(("explanation"@, Doc::Str(self.explanation@)));
        let members = members.push(("requires_confirmation"@, Doc::Bool(self.requires_confirmation)));
        let members = with_present(members, "rule"@, optional_doc(self.rule));
        let members = with_present(members, "plan"@, optional_doc(self.plan));
        let members = members.push(("candidates"@, Doc::Arr(docs(self.candidates@))));
        let members = with_present(members, "failure"@, optional_doc(self.failure));
        let members = with_present(members, "summary"@, optional_doc(self.summary));
        Doc::Obj(members)
    }

    fn to_json(&self) -> (result: Json) {
        let mut fields = Fields::new();
        fields.put("source_field", self.source_field.to_json());
        fields.put("target_field", self.target_field.to_json());
        fields.put("status", self.status.to_json());
        fields.put("qualification", self.qualification.to_json());
        fields.put("risk", self.risk.to_json());
        fields.put_text("reason_code", self.reason_code.as_str());
        fields.put_text("explanation", self.explanation.as_str());
        fields.put_bool("requires_confirmation", self.requires_confirmation);
        fields.put_present("rule", &self.rule);
        fields.put_present("plan", &self.plan);
        fields.put("candidates", json_array(&self.candidates));
        fields.put_present("failure", &self.failure);
        fields.put_present("summary", &self.summary);
        fields.finish()
    }

    fn duplicate(&self) -> (result: Self) {
        CompatibilityResult {
            source_field: self.source_field.duplicate(),
            target_field: self.target_field.duplicate(),
            status: self.status.duplicate(),
            qualification: self.qualification.duplicate(),
            risk: self.risk.duplicate(),
            reason_code: self.reason_code.clone(),
            explanation: self.explanation.clone(),
            requires_confirmation: self.requires_confirmation,
            rule: duplicate_optional(&self.rule),
            plan: duplicate_optional(&self.plan),
            candidates: duplicate_list(&self.candidates),
            failure: duplicate_optional(&self.failure),
            summary: duplicate_optional(&self.summary),
        }
    }
}

impl Clone for CompatibilityResult {
    fn clone(&self) -> (result: Self)
        ensures
            result.doc() == self.doc(),
    {
        self.duplicate()
    }
}

/// What a request for a plan comes to, with plans, rules and candidates in
/// their JSON form.
#[verifier::ext_equal]
pub struct Outcome {
    pub source_field: Doc,
    pub target_field: Doc,
    pub status: CompatibilityStatus,
    pub qualification: QualificationLevel,
    pub risk: RiskLevel,
    pub reason_code: Seq<char>,
    pub explanation: Seq<char>,
    pub requires_confirmation: bool,
    pub rule: Option<Doc>,
    pub plan: Option<Doc>,
    pub plan_digest: Option<Seq<char>>,
    pub candidates: Seq<Doc>,
    pub failure: Option<Doc>,
    pub summary: Option<Doc>,
}

impl CompatibilityResult {
    /// What the result says.
    pub open spec fn outcome(&self) -> Outcome {
        Outcome {
            source_field: self.source_field.doc(),
            target_field: self.target_field.doc(),
            status: self.status,
            qualification: self.qualification,
            risk: self.risk,
            reason_code: self.reason_code@,
            explanation: self.explanation@,
            requires_confirmation: self.requires_confirmation,
            rule: optional_doc(self.rule),
            plan: optional_doc(self.plan),
            plan_digest: match self.plan {
                Some(plan) => Some(plan.plan_digest@),
                None => None,
            },
            candidates: docs(self.candidates@),
            failure: optional_doc(self.failure),
            summary: optional_doc(self.summary),
        }
    }

    /// The parts of the result agree. Exactly a selectable result is free of a
    /// failure. Exactly a selectable result and one that waits for a
    /// confirmation have a plan; the summary then names that plan, its inputs,
    /// its rule and its capability, and the plan is confirmed, or waits, or
    /// needs no confirmation, as the result says.
    pub open spec fn agrees(&self) -> bool {
        &&& self.failure is None <==> self.status is Compatible
        &&& self.plan is Some <==> self.status is Compatible || self.status is NeedsConfirmation
        &&& self.status is NeedsConfirmation ==> self.requires_confirmation
        &&& match self.plan {
            None => self.summary is None,
            Some(plan) => {
                &&& plan.confirmation == if !self.requires_confirmation {
                    PlanConfirmationState::NotRequired
                } else if self.status is Compatible {
                    PlanConfirmationState::Confirmed
                } else {
                    PlanConfirmationState::Required
                }
                &&& self.rule matches Some(rule) && rule.doc() == plan.rule.doc()
                &&& self.summary matches Some(summary) && {
                    &&& summary.plan_digest@ == plan.plan_digest@
                    &&& summary.input_digest@ == plan.input_digest@
                    &&& summary.rule.doc() == plan.rule.doc()
                    &&& summary.capability_code@ == plan.capability_code@
                }
            },
        }
    }

    pub fn is_selectable(&self) -> (result: bool)
        ensures
            result == (self.status is Compatible),
    {
        matches!(self.status, CompatibilityStatus::Compatible)
    }
}

} // verus!
