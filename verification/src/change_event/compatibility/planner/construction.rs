//! From a chosen capability to the plan.
use crate::change_event::compatibility::capability::{
    TargetCapabilityManifest, TargetCapabilityProbe,
};
use crate::change_event::compatibility::plan::{ColumnConversionPlan, RouteOptions};
use crate::change_event::compatibility::planner::matching::{
    candidate_native, candidate_native_type, is_key_like, key_like, parameter_is,
};
use crate::change_event::compatibility::planner::representation::{
    optional_or, plan_target_representation, planned_entries, read_optional_or, Entries,
};
use crate::change_event::compatibility::types::{
    loss_doc, rule_reference_doc, CapabilityEntry, ConnectorIdentity, ConversionExample,
    DefinitionReference, FieldDefinition, LocatorImpact, LossAssessment, PlanConfirmationState, PresenceState,
    QualificationLevel, ServerBuildIdentity, SourceTypeMapping, TargetRepresentation,
    TargetTypeCandidate, COMPATIBILITY_FORMAT,
};
use crate::change_event::model::{ChangeTransaction, Operation, RowChange};
use crate::change_event::validate::same_optional_text;
use crate::json::{
    array, digest, digest_json, docs, docs_of, duplicate_optional, json_array, nullable_doc,
    optional_doc, optional_text_doc, with_present, with_present_text, Contract, Doc, Fields, Json,
};
use crate::parameters::{lookup, parameters_doc, with_parameter, Parameters};
use vstd::prelude::*;

verus! {

/// What a plan binds together.
pub struct Binding<'a> {
    pub source: &'a FieldDefinition,
    pub target: &'a FieldDefinition,
    pub mapping: &'a SourceTypeMapping,
    pub source_connector: &'a ConnectorIdentity,
    pub sink_connector: &'a ConnectorIdentity,
    pub source_build: &'a Option<ServerBuildIdentity>,
    pub target_build: &'a Option<ServerBuildIdentity>,
    pub manifest: &'a TargetCapabilityManifest,
    pub options: &'a RouteOptions,
}

/// What a plan is asked for: a transaction, or what a catalog declares.
pub enum Basis<'a> {
    Transaction(&'a ChangeTransaction),
    Catalog { operations: &'a Vec<Operation>, presences: &'a Vec<PresenceState> },
}

// ---------------------------------------------------------------------------
// Candidates
// ---------------------------------------------------------------------------

/// The form of a representation.
pub open spec fn representation_doc(native_type: Seq<char>, entries: Entries) -> Doc {
    let members = Seq::<(Seq<char>, Doc)>::empty();
    let members = members.push(("native_type"@, Doc::Str(native_type)));
    let members = members.push(("parameters"@, parameters_doc(entries)));
    Doc::Obj(members)
}

/// The rule of the entry asks for a confirmation.
pub open spec fn asks_confirmation(entry: CapabilityEntry) -> bool {
    entry.rule.requires_confirmation || entry.rule.qualification is ExplicitConversion
}

pub(crate) fn does_ask_confirmation(entry: &CapabilityEntry) -> (result: bool)
    ensures
        result == asks_confirmation(*entry),
{
    entry.rule.requires_confirmation || matches!(
        entry.rule.qualification,
        QualificationLevel::ExplicitConversion
    )
}

/// The form of the candidate that an entry gives for a target field.
pub open spec fn candidate_doc(entry: CapabilityEntry, target: FieldDefinition) -> Doc {
    let members = Seq::<(Seq<char>, Doc)>::empty();
    let members = members.push(
        (
            "target"@,
            representation_doc(candidate_native(entry, target), entry.target.parameters.entries()),
        ),
    );
    let members = members.push(("rule"@, rule_reference_doc(entry.rule.id@, entry.rule.version@)));
    let members = members.push(("capability_code"@, Doc::Str(entry.code@)));
    let members = members.push(("qualification"@, entry.rule.qualification.doc()));
    let members = members.push(("risk"@, entry.rule.risk.doc()));
    let members = with_present_text(members, "risk_code"@, entry.rule.risk_code);
    let members = members.push(("requires_confirmation"@, Doc::Bool(asks_confirmation(entry))));
    Doc::Obj(members)
}

pub(crate) fn candidate_of(
    entry: &CapabilityEntry,
    target: &FieldDefinition,
) -> (result: TargetTypeCandidate)
    ensures
        result.doc() == candidate_doc(*entry, *target),
        result.target.native_type@ == candidate_native(*entry, *target),
        result.target.parameters.entries() == entry.target.parameters.entries(),
{
    TargetTypeCandidate {
        target: TargetRepresentation {
            native_type: candidate_native_type(entry, target),
            parameters: entry.target.parameters.clone(),
        },
        rule: entry.rule.reference(),
        capability_code: entry.code.clone(),
        qualification: entry.rule.qualification,
        risk: entry.rule.risk,
        risk_code: entry.rule.risk_code.clone(),
        requires_confirmation: does_ask_confirmation(entry),
    }
}

// ---------------------------------------------------------------------------
// The digest of the inputs
// ---------------------------------------------------------------------------

/// The digest of the evidence, where there is some.
pub open spec fn probe_digest(probe: Option<TargetCapabilityProbe>) -> Option<String> {
    match probe {
        Some(probe) => Some(probe.digest),
        None => None,
    }
}

pub(crate) fn read_probe_digest(probe: &Option<TargetCapabilityProbe>) -> (result: Option<String>)
    ensures
        optional_text_doc(result) == optional_text_doc(probe_digest(*probe)),
        same_optional_text(result, probe_digest(*probe)),
{
    match probe {
        Some(probe) => Some(probe.digest.clone()),
        None => None,
    }
}

/// The form of a change without its row images.
pub open spec fn change_shape(change: RowChange) -> Doc {
    let members = Seq::<(Seq<char>, Doc)>::empty();
    let members = members.push(("operation"@, change.operation.doc()));
    let members = members.push(("database"@, optional_text_doc(change.database)));
    let members = members.push(("schema"@, Doc::Str(change.schema@)));
    let members = members.push(("table"@, Doc::Str(change.table@)));
    let members = members.push(("source_cursor"@, change.source_cursor.doc()));
    let members = members.push(("source_timestamp"@, Doc::Int(change.source_timestamp as int)));
    let members = members.push(("schema_basis"@, Doc::Str(change.schema_basis@)));
    Doc::Obj(members)
}

fn shape_of(change: &RowChange) -> (result: Json)
    ensures
        result@ == change_shape(*change),
{
    let mut fields = Fields::new();
    fields.put("operation", change.operation.to_json());
    fields.put_optional_text("database", &change.database);
    fields.put_text("schema", change.schema.as_str());
    fields.put_text("table", change.table.as_str());
    fields.put("source_cursor", change.source_cursor.to_json());
    fields.put_unsigned("source_timestamp", change.source_timestamp as u64);
    fields.put_text("schema_basis", change.schema_basis.as_str());
    fields.finish()
}

/// The forms of the changes without their row images.
pub open spec fn change_shapes(changes: Seq<RowChange>) -> Seq<Doc> {
    Seq::new(changes.len(), |i: int| change_shape(changes[i]))
}

/// The form of a transaction without its row images.
pub open spec fn transaction_shape(transaction: ChangeTransaction) -> Doc {
    let members = Seq::<(Seq<char>, Doc)>::empty();
    let members = members.push(("source"@, transaction.source.doc()));
    let members = members.push(("id"@, Doc::Str(transaction.id@)));
    let members = members.push(("begin_cursor"@, transaction.begin_cursor.doc()));
    let members = members.push(("commit_cursor"@, transaction.commit_cursor.doc()));
    let members = members.push(("changes"@, Doc::Arr(change_shapes(transaction.changes@))));
    Doc::Obj(members)
}

fn shape_of_transaction(transaction: &ChangeTransaction) -> (result: Json)
    ensures
        result@ == transaction_shape(*transaction),
{
    let mut changes: Vec<Json> = Vec::new();
    let mut i: usize = 0;
    while i < transaction.changes.len()
        invariant
            i <= transaction.changes@.len(),
            changes@.len() == i,
            forall|k: int|
                0 <= k < i ==> (#[trigger] changes@[k])@ == change_shape(transaction.changes@[k]),
        decreases transaction.changes@.len() - i,
    {
        changes.push(shape_of(&transaction.changes[i]));
        i += 1;
    }
    assert(docs_of(changes@) =~= change_shapes(transaction.changes@));
    let mut fields = Fields::new();
    fields.put("source", transaction.source.to_json());
    fields.put_text("id", transaction.id.as_str());
    fields.put("begin_cursor", transaction.begin_cursor.to_json());
    fields.put("commit_cursor", transaction.commit_cursor.to_json());
    fields.put("changes", array(changes));
    fields.finish()
}

/// The form of the options that a plan depends on.
pub open spec fn options_doc(options: RouteOptions, parameters: Entries) -> Doc {
    let members = Seq::<(Seq<char>, Doc)>::empty();
    let members = members.push(("route_id"@, Doc::Str(options.route_id@)));
    let members = members.push(
        ("configuration_revision"@, Doc::Str(options.configuration_revision@)),
    );
    let members = members.push(("selected_rule"@, nullable_doc(options.selected_rule)));
    let members = members.push(("parameters"@, parameters_doc(parameters)));
    Doc::Obj(members)
}

fn options_json(options: &RouteOptions, parameters: &Parameters) -> (result: Json)
    ensures
        result@ == options_doc(*options, parameters.entries()),
{
    let mut fields = Fields::new();
    fields.put_text("route_id", options.route_id.as_str());
    fields.put_text("configuration_revision", options.configuration_revision.as_str());
    fields.put_nullable("selected_rule", &options.selected_rule);
    fields.put("parameters", parameters.to_json());
    fields.finish()
}

/// The form of the inputs that a plan depends on.
pub open spec fn inputs_doc(
    b: Binding<'_>,
    basis: Basis<'_>,
    entry: CapabilityEntry,
    parameters: Entries,
) -> Doc {
    let members = Seq::<(Seq<char>, Doc)>::empty();
    let members = match basis {
        Basis::Transaction(transaction) => members.push(
            ("transaction"@, transaction_shape(*transaction)),
        ),
        Basis::Catalog { .. } => members,
    };
    let members = members.push(("source_field"@, b.source.doc()));
    let members = members.push(("target_field"@, b.target.doc()));
    let members = members.push(("mapping"@, b.mapping.doc()));
    let members = members.push(("source_connector"@, b.source_connector.doc()));
    let members = members.push(("sink_connector"@, b.sink_connector.doc()));
    let members = members.push(("source_build"@, nullable_doc(*b.source_build)));
    let members = members.push(("target_build"@, nullable_doc(*b.target_build)));
    let members = members.push(("manifest_digest"@, Doc::Str(b.manifest.digest@)));
    let members = members.push(
        ("target_probe_digest"@, optional_text_doc(probe_digest(b.options.target_probe))),
    );
    let members = match basis {
        Basis::Transaction(_) => members,
        Basis::Catalog { operations, presences } => members.push(
            ("operations"@, Doc::Arr(docs(operations@))),
        ).push(("presences"@, Doc::Arr(docs(presences@)))),
    };
    let members = members.push(("options"@, options_doc(*b.options, parameters)));
    let members = members.push(("candidate"@, candidate_doc(entry, *b.target)));
    Doc::Obj(members)
}

fn inputs_json(
    b: &Binding<'_>,
    basis: &Basis<'_>,
    entry: &CapabilityEntry,
    parameters: &Parameters,
) -> (result: Json)
    ensures
        result@ == inputs_doc(*b, *basis, *entry, parameters.entries()),
{
    let probe = read_probe_digest(&b.options.target_probe);
    let candidate = candidate_of(entry, b.target);
    let mut fields = Fields::new();
    if let Basis::Transaction(transaction) = basis {
        fields.put("transaction", shape_of_transaction(transaction));
    }
    fields.put("source_field", b.source.to_json());
    fields.put("target_field", b.target.to_json());
    fields.put("mapping", b.mapping.to_json());
    fields.put("source_connector", b.source_connector.to_json());
    fields.put("sink_connector", b.sink_connector.to_json());
    fields.put_nullable("source_build", b.source_build);
    fields.put_nullable("target_build", b.target_build);
    fields.put_text("manifest_digest", b.manifest.digest.as_str());
    fields.put_optional_text("target_probe_digest", &probe);
    if let Basis::Catalog { operations, presences } = basis {
        fields.put("operations", json_array(operations));
        fields.put("presences", json_array(presences));
    }
    fields.put("options", options_json(b.options, parameters));
    fields.put("candidate", candidate.to_json());
    fields.finish()
}

// ---------------------------------------------------------------------------
// The plan
// ---------------------------------------------------------------------------

/// The parameters that a representation is planned with.
pub open spec fn planning_entries(b: Binding<'_>, parameters: Entries) -> Entries {
    with_parameter(
        with_parameter(parameters, "source_native_type"@, b.source.native_type@),
        "target_native_type"@,
        b.target.native_type@,
    )
}

/// The parameters of the representation that a plan saves.
pub open spec fn plan_entries(b: Binding<'_>, entry: CapabilityEntry, parameters: Entries) -> Entries {
    let planned = planned_entries(
        b.source.logical_type,
        b.target.logical_type,
        candidate_native(entry, *b.target),
        entry.target.parameters.entries(),
        planning_entries(b, parameters),
    );
    if lookup(planned, "conversion_kind"@) == Some("text"@) {
        with_parameter(
            with_parameter(
                planned,
                "source_collation"@,
                optional_or(b.source.collation, "none"@),
            ),
            "target_collation"@,
            optional_or(b.target.collation, "none"@),
        )
    } else {
        planned
    }
}

fn plan_representation(
    b: &Binding<'_>,
    entry: &CapabilityEntry,
    parameters: &Parameters,
) -> (result: TargetRepresentation)
    ensures
        result.doc() == representation_doc(
            candidate_native(*entry, *b.target),
            plan_entries(*b, *entry, parameters.entries()),
        ),
{
    let candidate = candidate_of(entry, b.target);
    let mut planning = parameters.clone();
    planning.insert("source_native_type", b.source.native_type.as_str());
    planning.insert("target_native_type", b.target.native_type.as_str());
    let planned = plan_target_representation(
        &b.source.logical_type,
        &b.target.logical_type,
        &candidate.target,
        &planning,
    );
    let TargetRepresentation { native_type, parameters: entries } = planned;
    let mut entries = entries;
    if parameter_is(&entries, "conversion_kind", "text") {
        let source_collation = read_optional_or(&b.source.collation, "none");
        let target_collation = read_optional_or(&b.target.collation, "none");
        entries.insert("source_collation", source_collation.as_str());
        entries.insert("target_collation", target_collation.as_str());
    }
    TargetRepresentation { native_type, parameters: entries }
}

/// What a plan does to the location of rows.
pub open spec fn locator_impact(b: Binding<'_>, entry: CapabilityEntry) -> LocatorImpact {
    if key_like(*b.source) {
        LocatorImpact::Preserved
    } else if entry.rule.qualification is ExplicitConversion {
        LocatorImpact::ValueOnly
    } else {
        LocatorImpact::NotUsed
    }
}

fn read_locator_impact(b: &Binding<'_>, entry: &CapabilityEntry) -> (result: LocatorImpact)
    ensures
        result == locator_impact(*b, *entry),
{
    if is_key_like(b.source) {
        LocatorImpact::Preserved
    } else if matches!(entry.rule.qualification, QualificationLevel::ExplicitConversion) {
        LocatorImpact::ValueOnly
    } else {
        LocatorImpact::NotUsed
    }
}

/// The form of the example of a plan.
pub open spec fn example_docs(b: Binding<'_>) -> Seq<Doc> {
    let members = Seq::<(Seq<char>, Doc)>::empty();
    let members = members.push(("source"@, Doc::Str(b.source.logical_type.family())));
    let members = members.push(("target"@, Doc::Str(b.target.native_type@)));
    seq![Doc::Obj(members)]
}

fn examples_of(b: &Binding<'_>) -> (result: Vec<ConversionExample>)
    ensures
        docs(result@) == example_docs(*b),
        result@.len() == 1,
{
    let example = ConversionExample {
        source: b.source.logical_type.family_name().to_owned(),
        target: b.target.native_type.clone(),
    };
    let mut result: Vec<ConversionExample> = Vec::new();
    result.push(example);
    assert(docs(result@) =~= example_docs(*b));
    result
}

/// What the digest of a plan covers.
pub open spec fn plan_content(
    b: Binding<'_>,
    entry: CapabilityEntry,
    parameters: Entries,
    input_digest: Seq<char>,
) -> Doc {
    let members = Seq::<(Seq<char>, Doc)>::empty();
    let members = members.push(("format"@, Doc::Str(COMPATIBILITY_FORMAT@)));
    let members = members.push(("route_id"@, Doc::Str(b.options.route_id@)));
    let members = members.push(("configuration_revision"@, Doc::Str(b.options.configuration_revision@)));
    let members = members.push(("source_field"@, b.source.reference.doc()));
    let members = members.push(("target_field"@, b.target.reference.doc()));
    let members = members.push(("source_connector"@, b.source_connector.doc()));
    let members = members.push(("sink_connector"@, b.sink_connector.doc()));
    let members = members.push(("source_build"@, nullable_doc(*b.source_build)));
    let members = members.push(("target_build"@, nullable_doc(*b.target_build)));
    let members = members.push(("source_mapping_id"@, Doc::Str(b.mapping.mapping_id@)));
    let members = members.push(("source_mapping_version"@, Doc::Str(b.mapping.mapping_version@)));
    let members = members
        .push((
            "target"@,
            representation_doc(
                candidate_native(entry, *b.target),
                plan_entries(b, entry, parameters),
            ),
        ));
    let members = members.push(("rule"@, rule_reference_doc(entry.rule.id@, entry.rule.version@)));
    let members = members.push(("rule_digest"@, Doc::Str(digest(entry.rule.doc()))));
    let members = members.push(("capability_code"@, Doc::Str(entry.code@)));
    let members = members.push(("capability_manifest_digest"@, Doc::Str(b.manifest.digest@)));
    let members = members.push(("target_probe_digest"@, optional_text_doc(probe_digest(b.options.target_probe))));
    let members = members.push(("qualification"@, entry.rule.qualification.doc()));
    let members = members.push(("risk"@, entry.rule.risk.doc()));
    let members = members.push(("risk_code"@, optional_text_doc(entry.rule.risk_code)));
    let members = members.push(("loss"@, loss_doc(entry.rule.qualification, key_like(*b.source))));
    let members = members.push(("examples"@, Doc::Arr(example_docs(b))));
    let members = members.push(("locator_impact"@, locator_impact(b, entry).doc()));
    let members = members.push(("parameters"@, parameters_doc(parameters)));
    let members = members.push(("failure_policy"@, entry.rule.failure_policy.doc()));
    let members = members.push(("input_digest"@, Doc::Str(input_digest)));
    Doc::Obj(members)
}

/// The digest of a plan.
pub open spec fn plan_digest(
    b: Binding<'_>,
    entry: CapabilityEntry,
    parameters: Entries,
    input_digest: Seq<char>,
) -> Seq<char> {
    digest(plan_content(b, entry, parameters, input_digest))
}

/// The form of a plan.
pub open spec fn plan_doc(
    b: Binding<'_>,
    entry: CapabilityEntry,
    parameters: Entries,
    input_digest: Seq<char>,
    confirmation: PlanConfirmationState,
) -> Doc {
    let members = Seq::<(Seq<char>, Doc)>::empty();
    let members = members.push(("format"@, Doc::Str(COMPATIBILITY_FORMAT@)));
    let members = members.push(("route_id"@, Doc::Str(b.options.route_id@)));
    let members = members.push(("configuration_revision"@, Doc::Str(b.options.configuration_revision@)));
    let members = members.push(("source_field"@, b.source.reference.doc()));
    let members = members.push(("target_field"@, b.target.reference.doc()));
    let members = members.push(("source_connector"@, b.source_connector.doc()));
    let members = members.push(("sink_connector"@, b.sink_connector.doc()));
    let members = with_present(members, "source_build"@, optional_doc(*b.source_build));
    let members = with_present(members, "target_build"@, optional_doc(*b.target_build));
    let members = members.push(("source_mapping_id"@, Doc::Str(b.mapping.mapping_id@)));
    let members = members.push(("source_mapping_version"@, Doc::Str(b.mapping.mapping_version@)));
    let members = members
        .push((
            "target"@,
            representation_doc(
                candidate_native(entry, *b.target),
                plan_entries(b, entry, parameters),
            ),
        ));
    let members = members.push(("rule"@, rule_reference_doc(entry.rule.id@, entry.rule.version@)));
    let members = members.push(("rule_digest"@, Doc::Str(digest(entry.rule.doc()))));
    let members = members.push(("capability_code"@, Doc::Str(entry.code@)));
    let members = members.push(("capability_manifest_digest"@, Doc::Str(b.manifest.digest@)));
    let members = with_present_text(members, "target_probe_digest"@, probe_digest(b.options.target_probe));
    let members = members.push(("qualification"@, entry.rule.qualification.doc()));
    let members = members.push(("risk"@, entry.rule.risk.doc()));
    let members = with_present_text(members, "risk_code"@, entry.rule.risk_code);
    let members = members.push(("loss"@, loss_doc(entry.rule.qualification, key_like(*b.source))));
    let members = members.push(("examples"@, Doc::Arr(example_docs(b))));
    let members = members.push(("locator_impact"@, locator_impact(b, entry).doc()));
    let members = members.push(("confirmation"@, confirmation.doc()));
    let members = members.push(("parameters"@, parameters_doc(parameters)));
    let members = members.push(("failure_policy"@, entry.rule.failure_policy.doc()));
    let members = members.push(("input_digest"@, Doc::Str(input_digest)));
    let members = members.push(("plan_digest"@, Doc::Str(plan_digest(b, entry, parameters, input_digest))));
    Doc::Obj(members)
}

/// The confirmation with which a plan starts.
pub open spec fn first_confirmation(entry: CapabilityEntry) -> PlanConfirmationState {
    if asks_confirmation(entry) {
        PlanConfirmationState::Required
    } else {
        PlanConfirmationState::NotRequired
    }
}

/// The digest of the inputs that a plan depends on.
pub open spec fn inputs_digest(
    b: Binding<'_>,
    basis: Basis<'_>,
    entry: CapabilityEntry,
    parameters: Entries,
) -> Seq<char> {
    digest(inputs_doc(b, basis, entry, parameters))
}

fn copy_reference(reference: &DefinitionReference) -> (result: DefinitionReference)
    ensures
        result.lineage_id@ == reference.lineage_id@,
        result.doc() == reference.doc(),
{
    DefinitionReference {
        lineage_id: reference.lineage_id.clone(),
        schema_fingerprint: reference.schema_fingerprint.clone(),
    }
}

fn fill_plan(
    b: &Binding<'_>,
    entry: &CapabilityEntry,
    parameters: &Parameters,
    input_digest: String,
    confirmation: PlanConfirmationState,
) -> (result: ColumnConversionPlan)
    ensures
        result.content() == plan_content(*b, *entry, parameters.entries(), input_digest@),
        result.confirmation == confirmation,
        result.input_digest@ == input_digest@,
        result.plan_digest@ == plan_digest(*b, *entry, parameters.entries(), input_digest@),
        result.doc() == plan_doc(
            *b,
            *entry,
            parameters.entries(),
            input_digest@,
            confirmation,
        ),
        forall|state: PlanConfirmationState|
            (ColumnConversionPlan { confirmation: state, ..result }).doc() == #[trigger] plan_doc(
                *b,
                *entry,
                parameters.entries(),
                input_digest@,
                state,
            ),
        result.source_field.lineage_id@ == b.source.reference.lineage_id@,
        result.target_field.lineage_id@ == b.target.reference.lineage_id@,
        result.rule.doc() == rule_reference_doc(entry.rule.id@, entry.rule.version@),
        result.capability_code@ == entry.code@,
        same_optional_text(result.target_probe_digest, probe_digest(b.options.target_probe)),
        result.intact(),
{
    let target = plan_representation(b, entry, parameters);
    let examples = examples_of(b);
    let mut plan = ColumnConversionPlan {
        format: COMPATIBILITY_FORMAT.to_owned(),
        route_id: b.options.route_id.clone(),
        configuration_revision: b.options.configuration_revision.clone(),
        source_field: copy_reference(&b.source.reference),
        target_field: copy_reference(&b.target.reference),
        source_connector: b.source_connector.duplicate(),
        sink_connector: b.sink_connector.duplicate(),
        source_build: duplicate_optional(b.source_build),
        target_build: duplicate_optional(b.target_build),
        source_mapping_id: b.mapping.mapping_id.clone(),
        source_mapping_version: b.mapping.mapping_version.clone(),
        target,
        rule: entry.rule.reference(),
        rule_digest: digest_json(&entry.rule.to_json()),
        capability_code: entry.code.clone(),
        capability_manifest_digest: b.manifest.digest.clone(),
        target_probe_digest: read_probe_digest(&b.options.target_probe),
        qualification: entry.rule.qualification,
        risk: entry.rule.risk,
        risk_code: entry.rule.risk_code.clone(),
        loss: LossAssessment::for_qualification(entry.rule.qualification, is_key_like(b.source)),
        examples,
        locator_impact: read_locator_impact(b, entry),
        confirmation,
        parameters: parameters.clone(),
        failure_policy: entry.rule.failure_policy,
        input_digest: input_digest.clone(),
        plan_digest: String::new(),
    };
    let digest = plan.computed_digest();
    plan.plan_digest = digest;
    plan
}

/// Builds the plan of a chosen capability.
pub(crate) fn build_plan(
    b: &Binding<'_>,
    basis: &Basis<'_>,
    entry: &CapabilityEntry,
    parameters: &Parameters,
) -> (result: ColumnConversionPlan)
    ensures
        result.doc() == plan_doc(
            *b,
            *entry,
            parameters.entries(),
            inputs_digest(*b, *basis, *entry, parameters.entries()),
            first_confirmation(*entry),
        ),
        forall|state: PlanConfirmationState|
            (ColumnConversionPlan { confirmation: state, ..result }).doc() == #[trigger] plan_doc(
                *b,
                *entry,
                parameters.entries(),
                inputs_digest(*b, *basis, *entry, parameters.entries()),
                state,
            ),
        result.input_digest@ == inputs_digest(*b, *basis, *entry, parameters.entries()),
        result.plan_digest@ == plan_digest(
            *b,
            *entry,
            parameters.entries(),
            inputs_digest(*b, *basis, *entry, parameters.entries()),
        ),
        result.source_field.lineage_id@ == b.source.reference.lineage_id@,
        result.target_field.lineage_id@ == b.target.reference.lineage_id@,
        result.rule.doc() == rule_reference_doc(entry.rule.id@, entry.rule.version@),
        result.capability_code@ == entry.code@,
        result.confirmation == first_confirmation(*entry),
        same_optional_text(result.target_probe_digest, probe_digest(b.options.target_probe)),
        result.intact(),
{
    let inputs = inputs_json(b, basis, entry, parameters);
    let input_digest = digest_json(&inputs);
    let confirmation = if does_ask_confirmation(entry) {
        PlanConfirmationState::Required
    } else {
        PlanConfirmationState::NotRequired
    };
    fill_plan(b, entry, parameters, input_digest, confirmation)
}

} // verus!
