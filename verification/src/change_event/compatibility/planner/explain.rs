//! Explaining a field binding: its candidates, what is missing, and its plan.
use crate::change_event::compatibility::error::{
    plan_invalidated_doc, stale_input_doc, CompatibilityError,
};
use crate::change_event::compatibility::logical_type::LogicalType;
use crate::change_event::compatibility::plan::{
    law_confirming_keeps_the_digest, ColumnConversionPlan, CompatibilityInput, CompatibilityResult,
    FieldCompatibilityInput, Outcome,
};
use crate::change_event::compatibility::planner::construction::{
    asks_confirmation, build_plan, candidate_doc, candidate_of, does_ask_confirmation,
    first_confirmation, inputs_digest, plan_digest, plan_doc, probe_digest, read_probe_digest,
    Basis, Binding,
};
use crate::change_event::compatibility::planner::input::{
    captured, error_of, field_input_error, has_key, input_error, lemma_captured, operations,
    presences,
    same_position, transaction_has_key, transaction_operations, transaction_presences, validate_field_input,
    validate_input,
};
use crate::change_event::compatibility::planner::matching::{
    capability_matches_source, exact_candidate_matches_binding, exact_matches, explicit_matches,
    explicit_template_matches_binding, is_key_like, is_range_template, key_like,
    operations_declared, presences_declared, probe_qualifies, probe_qualifies_capability,
    range_template, source_matches, supports_declared, target_matches,
    target_representation_matches_binding,
};
use crate::change_event::compatibility::planner::options::{
    normalize_options, normalized, parameters_complaint, validate_explicit_parameters,
};
use crate::change_event::compatibility::planner::representation::Entries;
use crate::change_event::compatibility::types::{
    failure_doc, rule_reference_doc, CapabilityEntry, CompatibilityFailure, CompatibilityStatus,
    FieldDefinition,
    PlanConfirmationState, PlanSummary, PresenceState, QualificationLevel, RiskConfirmation,
    RiskLevel, RuleReference, TargetTypeCandidate,
};
use crate::change_event::failure::{FailureClass, FailurePhase};
use crate::change_event::model::Operation;
use crate::change_event::validate::{eq_optional_text, same_optional_text};
use crate::json::{docs, optional_doc, same_value, Contract, Doc};
use crate::order::{keyed_of, law_sort_orders_and_keeps, second, sort_by_key, sort_keyed, Keyed};
use crate::parameters::Parameters;
use crate::text::{concat, join, join_texts, same, text_le, texts};
use vstd::prelude::*;

verus! {

// ---------------------------------------------------------------------------
// Candidates
// ---------------------------------------------------------------------------

/// The route has chosen no rule, or that of the entry.
pub open spec fn rule_open(selected: Option<RuleReference>, entry: CapabilityEntry) -> bool {
    match selected {
        Some(rule) => rule.id@ == entry.rule.id@ && rule.version@ == entry.rule.version@,
        None => true,
    }
}

fn is_rule_open(selected: &Option<RuleReference>, entry: &CapabilityEntry) -> (result: bool)
    ensures
        result == rule_open(*selected, *entry),
{
    match selected {
        Some(rule) => same(rule.id.as_str(), entry.rule.id.as_str()) && same(
            rule.version.as_str(),
            entry.rule.version.as_str(),
        ),
        None => true,
    }
}

/// The target field may hold null where the source field may. A catalog asks
/// for the same nullability.
pub open spec fn nullability_fits(b: Binding<'_>, catalog: bool) -> bool {
    if catalog {
        b.source.nullable == b.target.nullable
    } else {
        b.source.nullable ==> b.target.nullable
    }
}

/// The operations and presences that a plan must support.
pub struct Needs {
    pub operations: Vec<Operation>,
    pub presences: Vec<PresenceState>,
    pub catalog: bool,
}

/// What a plan must support.
#[verifier::ext_equal]
pub struct Wanted {
    pub operations: Seq<Operation>,
    pub presences: Seq<PresenceState>,
    pub catalog: bool,
}

impl View for Needs {
    type V = Wanted;

    open spec fn view(&self) -> Wanted {
        Wanted {
            operations: self.operations@,
            presences: self.presences@,
            catalog: self.catalog,
        }
    }
}

/// The entry can hold the source field in the target field.
pub open spec fn qualifies(b: Binding<'_>, needs: Wanted, entry: CapabilityEntry) -> bool {
    &&& source_matches(entry, b.source.logical_type)
    &&& !(entry.rule.qualification is Unsupported)
    &&& probe_qualifies(b.options.target_probe, entry)
    &&& target_matches(entry, *b.target)
    &&& rule_open(b.options.selected_rule, entry)
    &&& supports_declared(
        entry.supported_operations@,
        entry.rule.supported_operations@,
        needs.operations,
    )
    &&& supports_declared(
        entry.supported_presence@,
        entry.rule.supported_presence@,
        needs.presences,
    )
    &&& key_like(*b.source) ==> entry.rule.allows_key
    &&& exact_matches(entry, *b.source, *b.target)
    &&& explicit_matches(entry, *b.source, *b.target, b.options.selected_rule)
    &&& b.source.generated == b.target.generated
    &&& nullability_fits(b, needs.catalog)
    &&& range_template(entry) ==> b.source.logical_type.doc() != b.target.logical_type.doc()
}

fn does_qualify(b: &Binding<'_>, needs: &Needs, entry: &CapabilityEntry) -> (result: bool)
    ensures
        result == qualifies(*b, needs@, *entry),
{
    let nullability = if needs.catalog {
        b.source.nullable == b.target.nullable
    } else {
        !(b.source.nullable && !b.target.nullable)
    };
    capability_matches_source(entry, &b.source.logical_type) && !matches!(
        entry.rule.qualification,
        QualificationLevel::Unsupported
    ) && probe_qualifies_capability(&b.options.target_probe, entry)
        && target_representation_matches_binding(entry, b.target) && is_rule_open(
        &b.options.selected_rule,
        entry,
    ) && operations_declared(
        &entry.supported_operations,
        &entry.rule.supported_operations,
        &needs.operations,
    ) && presences_declared(
        &entry.supported_presence,
        &entry.rule.supported_presence,
        &needs.presences,
    ) && !(is_key_like(b.source) && !entry.rule.allows_key) && exact_candidate_matches_binding(
        entry,
        b.source,
        b.target,
    ) && explicit_template_matches_binding(
        entry,
        b.source,
        b.target,
        &b.options.selected_rule,
    ) && b.source.generated == b.target.generated && nullability && (!is_range_template(entry)
        || !same_value(&b.source.logical_type, &b.target.logical_type))
}

/// The place of a qualification in the order of candidates.
pub open spec fn qualification_rank(level: QualificationLevel) -> char {
    match level {
        QualificationLevel::Exact => '0',
        QualificationLevel::RangeChecked => '1',
        QualificationLevel::ExplicitConversion => '2',
        QualificationLevel::Unsupported => '3',
    }
}

/// The place of a risk in the order of candidates.
pub open spec fn risk_rank(level: RiskLevel) -> char {
    match level {
        RiskLevel::NoRisk => '0',
        RiskLevel::Low => '1',
        RiskLevel::Medium => '2',
        RiskLevel::High => '3',
        RiskLevel::Critical => '4',
    }
}

/// What candidates are ordered by: the qualification, the risk, the code.
pub open spec fn rank(entry: CapabilityEntry) -> Seq<char> {
    Seq::<char>::empty().push(qualification_rank(entry.rule.qualification)).push(
        risk_rank(entry.rule.risk),
    ) + entry.code@
}

fn rank_of(entry: &CapabilityEntry) -> (result: String)
    ensures
        result@ == rank(*entry),
{
    let first = match entry.rule.qualification {
        QualificationLevel::Exact => '0',
        QualificationLevel::RangeChecked => '1',
        QualificationLevel::ExplicitConversion => '2',
        QualificationLevel::Unsupported => '3',
    };
    let second = match entry.rule.risk {
        RiskLevel::NoRisk => '0',
        RiskLevel::Low => '1',
        RiskLevel::Medium => '2',
        RiskLevel::High => '3',
        RiskLevel::Critical => '4',
    };
    let mut result = String::new();
    result.push(first);
    result.push(second);
    result.append(entry.code.as_str());
    assert(result@ =~= rank(*entry));
    result
}

/// An entry that is kept.
pub struct Kept<'a> {
    pub entry: &'a CapabilityEntry,
}

impl<'a> View for Kept<'a> {
    type V = CapabilityEntry;

    open spec fn view(&self) -> CapabilityEntry {
        *self.entry
    }
}

/// The entries that qualify, with what they are ordered by.
pub open spec fn qualified(b: Binding<'_>, needs: Wanted, entries: Seq<CapabilityEntry>) -> Seq<
    (Seq<char>, CapabilityEntry),
>
    decreases entries.len(),
{
    if entries.len() == 0 {
        Seq::empty()
    } else {
        let before = qualified(b, needs, entries.drop_last());
        if qualifies(b, needs, entries.last()) {
            before.push((rank(entries.last()), entries.last()))
        } else {
            before
        }
    }
}

/// The entries that qualify, best first.
pub open spec fn ranked(b: Binding<'_>, needs: Wanted) -> Seq<CapabilityEntry> {
    second(sort_by_key(qualified(b, needs, b.manifest.capabilities@)))
}

/// The entries behind a row of references.
pub open spec fn entries_of(list: Seq<&CapabilityEntry>) -> Seq<CapabilityEntry> {
    Seq::new(list.len(), |i: int| *list[i])
}

fn rank_candidates<'a>(b: &Binding<'a>, needs: &Needs) -> (result: Vec<&'a CapabilityEntry>)
    ensures
        entries_of(result@) == ranked(*b, needs@),
{
    let manifest = b.manifest;
    let entries = &manifest.capabilities;
    let mut kept: Vec<Keyed<Kept<'a>>> = Vec::new();
    let mut i: usize = 0;
    assert(entries@.take(0) =~= Seq::<CapabilityEntry>::empty());
    assert(keyed_of(kept@) =~= Seq::<(Seq<char>, CapabilityEntry)>::empty());
    while i < entries.len()
        invariant
            i <= entries@.len(),
            keyed_of(kept@) == qualified(*b, needs@, entries@.take(i as int)),
        decreases entries@.len() - i,
    {
        assert(entries@.take(i + 1).drop_last() =~= entries@.take(i as int));
        assert(entries@.take(i + 1).last() == entries@[i as int]);
        let entry = &entries[i];
        if does_qualify(b, needs, entry) {
            let ghost before = keyed_of(kept@);
            kept.push(Keyed { key: rank_of(entry), item: Kept { entry } });
            assert(keyed_of(kept@) =~= before.push((rank(*entry), *entry)));
        }
        i += 1;
    }
    assert(entries@.take(i as int) =~= entries@);
    let sorted = sort_keyed(kept);
    let ghost whole = keyed_of(sorted@);
    let mut result: Vec<&'a CapabilityEntry> = Vec::new();
    let mut i: usize = 0;
    while i < sorted.len()
        invariant
            i <= sorted@.len(),
            whole == keyed_of(sorted@),
            result@.len() == i,
            forall|k: int| 0 <= k < i ==> *(#[trigger] result@[k]) == whole[k].1,
        decreases sorted@.len() - i,
    {
        assert(whole[i as int].1 == *sorted@[i as int].item.entry);
        result.push(sorted[i].item.entry);
        i += 1;
    }
    assert(entries_of(result@) =~= second(whole));
    result
}

/// The forms of the candidates.
pub open spec fn candidate_docs(b: Binding<'_>, list: Seq<CapabilityEntry>) -> Seq<Doc> {
    Seq::new(list.len(), |i: int| candidate_doc(list[i], *b.target))
}

fn candidates_of(b: &Binding<'_>, list: &Vec<&CapabilityEntry>) -> (result: Vec<TargetTypeCandidate>)
    ensures
        docs(result@) == candidate_docs(*b, entries_of(list@)),
{
    let mut result: Vec<TargetTypeCandidate> = Vec::new();
    let mut i: usize = 0;
    while i < list.len()
        invariant
            i <= list@.len(),
            result@.len() == i,
            forall|k: int|
                0 <= k < i ==> (#[trigger] result@[k]).doc() == candidate_doc(*list@[k], *b.target),
        decreases list@.len() - i,
    {
        result.push(candidate_of(list[i], b.target));
        i += 1;
    }
    assert(docs(result@) =~= candidate_docs(*b, entries_of(list@)));
    result
}

/// Some candidate asks for a confirmation.
pub open spec fn some_ask(list: Seq<CapabilityEntry>) -> bool {
    exists|i: int| 0 <= i < list.len() && asks_confirmation(#[trigger] list[i])
}

fn do_some_ask(list: &Vec<&CapabilityEntry>) -> (result: bool)
    ensures
        result == some_ask(entries_of(list@)),
{
    let mut i: usize = 0;
    while i < list.len()
        invariant
            i <= list@.len(),
            forall|k: int| 0 <= k < i ==> !asks_confirmation(#[trigger] entries_of(list@)[k]),
        decreases list@.len() - i,
    {
        if does_ask_confirmation(list[i]) {
            assert(asks_confirmation(entries_of(list@)[i as int]));
            return true;
        }
        i += 1;
    }
    false
}

// ---------------------------------------------------------------------------
// Bindings without a plan
// ---------------------------------------------------------------------------

/// A refusal because of what the target cannot do.
pub open spec fn refused(
    b: Binding<'_>,
    status: CompatibilityStatus,
    risk: RiskLevel,
    code: Seq<char>,
    message: Seq<char>,
) -> Outcome {
    Outcome {
        source_field: b.source.reference.doc(),
        target_field: b.target.reference.doc(),
        status,
        qualification: QualificationLevel::Unsupported,
        risk,
        reason_code: code,
        explanation: message,
        requires_confirmation: false,
        rule: None,
        plan: None,
        plan_digest: None,
        candidates: Seq::empty(),
        failure: Some(
            failure_doc(
                FailureClass::TargetCapability,
                code,
                FailurePhase::CapabilityQualification,
                message,
            ),
        ),
        summary: None,
    }
}

fn refuse(
    b: &Binding<'_>,
    status: CompatibilityStatus,
    risk: RiskLevel,
    code: &str,
    message: &str,
) -> (result: CompatibilityResult)
    ensures
        result.outcome() == refused(*b, status, risk, code@, message@),
        result.plan is None,
{
    let result = CompatibilityResult {
        source_field: b.source.reference.duplicate(),
        target_field: b.target.reference.duplicate(),
        status,
        qualification: QualificationLevel::Unsupported,
        risk,
        reason_code: code.to_owned(),
        explanation: message.to_owned(),
        requires_confirmation: false,
        rule: None,
        plan: None,
        candidates: Vec::new(),
        failure: Some(
            CompatibilityFailure::new(
                FailureClass::TargetCapability,
                code,
                FailurePhase::CapabilityQualification,
                message,
            ),
        ),
        summary: None,
    };
    assert(result.outcome() =~= refused(*b, status, risk, code@, message@));
    result
}

/// A key field could only be converted with loss.
pub open spec fn key_blocked(b: Binding<'_>) -> bool {
    let entries = b.manifest.capabilities@;
    key_like(*b.source) && exists|i: int|
        0 <= i < entries.len() && source_matches(#[trigger] entries[i], b.source.logical_type)
            && target_matches(entries[i], *b.target) && !entries[i].rule.allows_key
}

fn is_key_blocked(b: &Binding<'_>) -> (result: bool)
    ensures
        result == key_blocked(*b),
{
    if !is_key_like(b.source) {
        return false;
    }
    let entries = &b.manifest.capabilities;
    let mut i: usize = 0;
    while i < entries.len()
        invariant
            i <= entries@.len(),
            entries@ == b.manifest.capabilities@,
            key_like(*b.source),
            forall|k: int|
                0 <= k < i ==> !(source_matches(#[trigger] entries@[k], b.source.logical_type)
                    && target_matches(entries@[k], *b.target) && !entries@[k].rule.allows_key),
        decreases entries@.len() - i,
    {
        if capability_matches_source(&entries[i], &b.source.logical_type)
            && target_representation_matches_binding(&entries[i], b.target)
            && !entries[i].rule.allows_key {
            assert(source_matches(entries@[i as int], b.source.logical_type));
            return true;
        }
        i += 1;
    }
    false
}

/// No candidate qualifies.
pub open spec fn without_candidate(b: Binding<'_>) -> Outcome {
    if key_blocked(b) {
        refused(
            b,
            CompatibilityStatus::Blocked,
            RiskLevel::Critical,
            "target_capability.lossy_key_conversion"@,
            "a key or Row Locator field cannot use a lossy conversion"@,
        )
    } else {
        match b.source.logical_type {
            LogicalType::Binary { .. } => refused(
                b,
                CompatibilityStatus::Unsupported,
                RiskLevel::High,
                "target_capability.binary_representation_missing"@,
                "no qualified raw-byte target exists; binary values are never silently encoded as text"@,
            ),
            LogicalType::BitString { .. } => refused(
                b,
                CompatibilityStatus::Unsupported,
                RiskLevel::High,
                "target_capability.bit_string_representation_missing"@,
                "no qualified bit-string target declares length, padding, and bit order"@,
            ),
            LogicalType::Spatial { .. } => refused(
                b,
                CompatibilityStatus::Blocked,
                RiskLevel::High,
                "target_capability.spatial_metadata_or_capability_missing"@,
                "spatial conversion requires qualified SRID, CRS, geometry type, dimensions, format, and target capability"@,
            ),
            LogicalType::Array { .. } => without_structure(b),
            LogicalType::Struct { .. } => without_structure(b),
            LogicalType::MapType { .. } => without_structure(b),
            LogicalType::Range { .. } => without_structure(b),
            LogicalType::MultiRange { .. } => without_structure(b),
            _ => refused(
                b,
                CompatibilityStatus::Unsupported,
                RiskLevel::High,
                "target_capability.no_qualified_representation"@,
                "no qualified target representation matches this source semantic"@,
            ),
        }
    }
}

/// No candidate qualifies for a structured value.
pub open spec fn without_structure(b: Binding<'_>) -> Outcome {
    refused(
        b,
        CompatibilityStatus::Unsupported,
        RiskLevel::High,
        "target_capability.recursive_structure_unqualified"@,
        "recursive or structured values require an explicit element/field/key/range mapping rule"@,
    )
}

fn explain_without_candidate(b: &Binding<'_>) -> (result: CompatibilityResult)
    ensures
        result.outcome() == without_candidate(*b),
        result.plan is None,
{
    if is_key_blocked(b) {
        return refuse(
            b,
            CompatibilityStatus::Blocked,
            RiskLevel::Critical,
            "target_capability.lossy_key_conversion",
            "a key or Row Locator field cannot use a lossy conversion",
        );
    }
    match &b.source.logical_type {
        LogicalType::Binary { .. } => refuse(
            b,
            CompatibilityStatus::Unsupported,
            RiskLevel::High,
            "target_capability.binary_representation_missing",
            "no qualified raw-byte target exists; binary values are never silently encoded as text",
        ),
        LogicalType::BitString { .. } => refuse(
            b,
            CompatibilityStatus::Unsupported,
            RiskLevel::High,
            "target_capability.bit_string_representation_missing",
            "no qualified bit-string target declares length, padding, and bit order",
        ),
        LogicalType::Spatial { .. } => refuse(
            b,
            CompatibilityStatus::Blocked,
            RiskLevel::High,
            "target_capability.spatial_metadata_or_capability_missing",
            "spatial conversion requires qualified SRID, CRS, geometry type, dimensions, format, and target capability",
        ),
        LogicalType::Array { .. }
        | LogicalType::Struct { .. }
        | LogicalType::MapType { .. }
        | LogicalType::Range { .. }
        | LogicalType::MultiRange { .. } => refuse(
            b,
            CompatibilityStatus::Unsupported,
            RiskLevel::High,
            "target_capability.recursive_structure_unqualified",
            "recursive or structured values require an explicit element/field/key/range mapping rule",
        ),
        _ => refuse(
            b,
            CompatibilityStatus::Unsupported,
            RiskLevel::High,
            "target_capability.no_qualified_representation",
            "no qualified target representation matches this source semantic",
        ),
    }
}

/// Several candidates qualify. A catalog is told of the best rule and whether
/// one asks for a confirmation.
pub open spec fn with_choice(b: Binding<'_>, list: Seq<CapabilityEntry>, catalog: bool) -> Outcome {
    Outcome {
        source_field: b.source.reference.doc(),
        target_field: b.target.reference.doc(),
        status: CompatibilityStatus::NeedsConfiguration,
        qualification: list[0].rule.qualification,
        risk: list[0].rule.risk,
        reason_code: "target_capability.multiple_candidates"@,
        explanation: "multiple qualified target representations require an explicit rule selection"@,
        requires_confirmation: catalog && some_ask(list),
        rule: if catalog {
            Some(rule_reference_doc(list[0].rule.id@, list[0].rule.version@))
        } else {
            None
        },
        plan: None,
        plan_digest: None,
        candidates: candidate_docs(b, list),
        failure: Some(
            failure_doc(
                FailureClass::InvalidInput,
                "target_capability.multiple_candidates"@,
                FailurePhase::PlanConstruction,
                "multiple qualified target representations require an explicit rule selection"@,
            ),
        ),
        summary: None,
    }
}

fn explain_choice(
    b: &Binding<'_>,
    list: &Vec<&CapabilityEntry>,
    catalog: bool,
) -> (result: CompatibilityResult)
    requires
        list@.len() > 0,
    ensures
        result.outcome() == with_choice(*b, entries_of(list@), catalog),
        result.plan is None,
{
    let best = list[0];
    assert(entries_of(list@)[0] == *best);
    let requires_confirmation = catalog && do_some_ask(list);
    let rule = if catalog {
        Some(best.rule.reference())
    } else {
        None
    };
    let result = CompatibilityResult {
        source_field: b.source.reference.duplicate(),
        target_field: b.target.reference.duplicate(),
        status: CompatibilityStatus::NeedsConfiguration,
        qualification: best.rule.qualification,
        risk: best.rule.risk,
        reason_code: "target_capability.multiple_candidates".to_owned(),
        explanation:
            "multiple qualified target representations require an explicit rule selection".to_owned(),
        requires_confirmation,
        rule,
        plan: None,
        candidates: candidates_of(b, list),
        failure: Some(
            CompatibilityFailure::new(
                FailureClass::InvalidInput,
                "target_capability.multiple_candidates",
                FailurePhase::PlanConstruction,
                "multiple qualified target representations require an explicit rule selection",
            ),
        ),
        summary: None,
    };
    assert(result.outcome() =~= with_choice(*b, entries_of(list@), catalog));
    result
}

/// What one chosen capability comes to, without what depends on the plan.
pub open spec fn chosen(
    b: Binding<'_>,
    entry: CapabilityEntry,
    status: CompatibilityStatus,
    code: Seq<char>,
    message: Seq<char>,
    failure: Option<Doc>,
) -> Outcome {
    Outcome {
        source_field: b.source.reference.doc(),
        target_field: b.target.reference.doc(),
        status,
        qualification: entry.rule.qualification,
        risk: entry.rule.risk,
        reason_code: code,
        explanation: message,
        requires_confirmation: asks_confirmation(entry),
        rule: Some(rule_reference_doc(entry.rule.id@, entry.rule.version@)),
        plan: None,
        plan_digest: None,
        candidates: seq![candidate_doc(entry, *b.target)],
        failure,
        summary: None,
    }
}

fn explain_chosen(
    b: &Binding<'_>,
    entry: &CapabilityEntry,
    status: CompatibilityStatus,
    code: &str,
    message: &str,
    failure: Option<CompatibilityFailure>,
) -> (result: CompatibilityResult)
    ensures
        result.outcome() == chosen(
            *b,
            *entry,
            status,
            code@,
            message@,
            optional_doc(failure),
        ),
        result.plan is None,
{
    let mut candidates: Vec<TargetTypeCandidate> = Vec::new();
    candidates.push(candidate_of(entry, b.target));
    assert(docs(candidates@) =~= seq![candidate_doc(*entry, *b.target)]);
    CompatibilityResult {
        source_field: b.source.reference.duplicate(),
        target_field: b.target.reference.duplicate(),
        status,
        qualification: entry.rule.qualification,
        risk: entry.rule.risk,
        reason_code: code.to_owned(),
        explanation: message.to_owned(),
        requires_confirmation: does_ask_confirmation(entry),
        rule: Some(entry.rule.reference()),
        plan: None,
        candidates,
        failure,
        summary: None,
    }
}

// ---------------------------------------------------------------------------
// Bindings with a plan
// ---------------------------------------------------------------------------

/// An operator has confirmed the plan of this digest.
pub open spec fn confirmed(b: Binding<'_>, entry: CapabilityEntry, digest: Seq<char>) -> bool {
    let given = b.options.confirmations@;
    exists|i: int|
        0 <= i < given.len() && (#[trigger] given[i]).source_field_lineage@
            == b.source.reference.lineage_id@ && given[i].target_field_lineage@
            == b.target.reference.lineage_id@ && given[i].rule.doc() == rule_reference_doc(
            entry.rule.id@,
            entry.rule.version@,
        ) && given[i].plan_digest@ == digest
}

fn is_confirmed(
    plan: &ColumnConversionPlan,
    given: &Vec<RiskConfirmation>,
) -> (result: bool)
    ensures
        result == exists|i: int|
            0 <= i < given@.len() && plan.confirmed_by(#[trigger] given@[i]),
{
    let mut i: usize = 0;
    while i < given.len()
        invariant
            i <= given@.len(),
            forall|k: int| 0 <= k < i ==> !plan.confirmed_by(#[trigger] given@[k]),
        decreases given@.len() - i,
    {
        if plan.confirmation_matches(&given[i]) {
            assert(plan.confirmed_by(given@[i as int]));
            return true;
        }
        i += 1;
    }
    false
}

/// The form of the summary of a plan.
pub open spec fn summary_doc(
    input_digest: Seq<char>,
    plan_digest: Seq<char>,
    entry: CapabilityEntry,
) -> Doc {
    let members = Seq::<(Seq<char>, Doc)>::empty();
    let members = members.push(("input_digest"@, Doc::Str(input_digest)));
    let members = members.push(("plan_digest"@, Doc::Str(plan_digest)));
    let members = members.push(("rule"@, rule_reference_doc(entry.rule.id@, entry.rule.version@)));
    let members = members.push(("capability_code"@, Doc::Str(entry.code@)));
    Doc::Obj(members)
}

/// A plan could be built.
pub open spec fn planned(
    b: Binding<'_>,
    basis: Basis<'_>,
    entry: CapabilityEntry,
    parameters: Entries,
) -> Outcome {
    let input_digest = inputs_digest(b, basis, entry, parameters);
    let digest = plan_digest(b, entry, parameters, input_digest);
    let confirmed = asks_confirmation(entry) && confirmed(b, entry, digest);
    let state = if confirmed {
        PlanConfirmationState::Confirmed
    } else {
        first_confirmation(entry)
    };
    let outcome = if asks_confirmation(entry) && !confirmed {
        chosen(
            b,
            entry,
            CompatibilityStatus::NeedsConfirmation,
            "target_capability.confirmation_required"@,
            "this deterministic conversion requires per-field risk confirmation"@,
            Some(
                failure_doc(
                    FailureClass::MissingConfirmation,
                    "target_capability.confirmation_required"@,
                    FailurePhase::PlanConstruction,
                    "this deterministic conversion requires per-field risk confirmation"@,
                ),
            ),
        )
    } else {
        chosen(
            b,
            entry,
            CompatibilityStatus::Compatible,
            "target_capability.qualified"@,
            "the source and target field binding has a qualified conversion plan"@,
            None,
        )
    };
    Outcome {
        plan: Some(plan_doc(b, entry, parameters, input_digest, state)),
        plan_digest: Some(digest),
        summary: Some(summary_doc(input_digest, digest, entry)),
        ..outcome
    }
}

fn explain_plan(
    b: &Binding<'_>,
    basis: &Basis<'_>,
    entry: &CapabilityEntry,
    parameters: &Parameters,
) -> (result: CompatibilityResult)
    ensures
        result.outcome() == planned(*b, *basis, *entry, parameters.entries()),
        sound_plan(result, *b),
{
    let mut plan = build_plan(b, basis, entry, parameters);
    let ghost input_digest = inputs_digest(*b, *basis, *entry, parameters.entries());
    let ghost digest = plan_digest(*b, *entry, parameters.entries(), input_digest);
    let found = is_confirmed(&plan, &b.options.confirmations);
    proof {
        let given = b.options.confirmations@;
        if found {
            let i = choose|i: int| 0 <= i < given.len() && plan.confirmed_by(#[trigger] given[i]);
            assert(given[i].plan_digest@ == digest);
        }
        if confirmed(*b, *entry, digest) {
            let i = choose|i: int|
                0 <= i < given.len() && (#[trigger] given[i]).source_field_lineage@
                    == b.source.reference.lineage_id@ && given[i].target_field_lineage@
                    == b.target.reference.lineage_id@ && given[i].rule.doc() == rule_reference_doc(
                    entry.rule.id@,
                    entry.rule.version@,
                ) && given[i].plan_digest@ == digest;
            assert(plan.confirmed_by(given[i]));
        }
        assert(found == confirmed(*b, *entry, digest));
        law_confirming_keeps_the_digest(plan, PlanConfirmationState::Confirmed);
    }
    let asks = does_ask_confirmation(entry);
    let confirmed = asks && found;
    let ghost before = plan;
    if confirmed {
        plan.confirmation = PlanConfirmationState::Confirmed;
        assert(plan == (ColumnConversionPlan {
            confirmation: PlanConfirmationState::Confirmed,
            ..before
        }));
    }
    assert(plan.doc() == plan_doc(
        *b,
        *entry,
        parameters.entries(),
        input_digest,
        if confirmed {
            PlanConfirmationState::Confirmed
        } else {
            first_confirmation(*entry)
        },
    ));
    let summary = PlanSummary {
        input_digest: plan.input_digest.clone(),
        plan_digest: plan.plan_digest.clone(),
        rule: entry.rule.reference(),
        capability_code: plan.capability_code.clone(),
    };
    assert(summary.doc() == summary_doc(input_digest, digest, *entry));
    let result = if asks && !confirmed {
        explain_chosen(
            b,
            entry,
            CompatibilityStatus::NeedsConfirmation,
            "target_capability.confirmation_required",
            "this deterministic conversion requires per-field risk confirmation",
            Some(
                CompatibilityFailure::new(
                    FailureClass::MissingConfirmation,
                    "target_capability.confirmation_required",
                    FailurePhase::PlanConstruction,
                    "this deterministic conversion requires per-field risk confirmation",
                ),
            ),
        )
    } else {
        explain_chosen(
            b,
            entry,
            CompatibilityStatus::Compatible,
            "target_capability.qualified",
            "the source and target field binding has a qualified conversion plan",
            None,
        )
    };
    let mut result = result;
    result.plan = Some(plan);
    result.summary = Some(summary);
    assert(result.outcome() =~= planned(*b, *basis, *entry, parameters.entries()));
    result
}

/// What is wrong with the parameters of one chosen capability.
pub open spec fn invalid_parameters(b: Binding<'_>, entry: CapabilityEntry) -> Seq<Seq<char>> {
    let (parameters, missing, invalid) = normalized(
        entry.rule,
        b.options.parameters.entries(),
    );
    let fault = parameters_complaint(
        entry.target.parameters.entries(),
        *b.source,
        *b.target,
        parameters,
    );
    if missing.len() == 0 && fault is Some {
        invalid.push(fault->0)
    } else {
        invalid
    }
}

/// One capability is chosen.
pub open spec fn with_one(b: Binding<'_>, basis: Basis<'_>, entry: CapabilityEntry) -> Outcome {
    let (parameters, missing, _) = normalized(entry.rule, b.options.parameters.entries());
    let invalid = invalid_parameters(b, entry);
    if invalid.len() > 0 {
        let message = "conversion parameters are invalid: "@ + join(invalid, ", "@);
        chosen(
            b,
            entry,
            CompatibilityStatus::Blocked,
            "target_capability.invalid_parameters"@,
            message,
            Some(
                failure_doc(
                    FailureClass::InvalidInput,
                    "target_capability.invalid_parameters"@,
                    FailurePhase::PlanConstruction,
                    message,
                ),
            ),
        )
    } else if missing.len() > 0 {
        let message = "required conversion parameters are missing: "@ + join(missing, ", "@);
        chosen(
            b,
            entry,
            CompatibilityStatus::NeedsConfiguration,
            "target_capability.missing_parameters"@,
            message,
            Some(
                failure_doc(
                    FailureClass::MissingConfirmation,
                    "target_capability.missing_parameters"@,
                    FailurePhase::PlanConstruction,
                    message,
                ),
            ),
        )
    } else {
        planned(b, basis, entry, parameters)
    }
}

/// The result agrees with itself, and a plan of it is intact and of the given
/// evidence.
pub open spec fn sound_plan(result: CompatibilityResult, b: Binding<'_>) -> bool {
    &&& result.agrees()
    &&& result.plan matches Some(plan) ==> plan.intact() && same_optional_text(
        plan.target_probe_digest,
        probe_digest(b.options.target_probe),
    )
}

fn explain_one(
    b: &Binding<'_>,
    basis: &Basis<'_>,
    entry: &CapabilityEntry,
) -> (result: CompatibilityResult)
    ensures
        result.outcome() == with_one(*b, *basis, *entry),
        sound_plan(result, *b),
{
    let options = normalize_options(&entry.rule, &b.options.parameters);
    let ghost normal = normalized(entry.rule, b.options.parameters.entries());
    let mut invalid = options.invalid;
    assert(texts(invalid@) == normal.2);
    assert(texts(options.missing@) == normal.1);
    if options.missing.len() == 0 {
        match validate_explicit_parameters(
            &entry.target,
            b.source,
            b.target,
            &options.parameters,
        ) {
            Ok(_) => {},
            Err(reason) => {
                invalid.push(reason);
                assert(texts(invalid@) =~= normal.2.push(reason@));
            },
        }
    }
    assert(texts(invalid@) == invalid_parameters(*b, *entry));
    if invalid.len() > 0 {
        let reasons = join_texts(&invalid, ", ");
        let message = concat("conversion parameters are invalid: ", reasons.as_str());
        return explain_chosen(
            b,
            entry,
            CompatibilityStatus::Blocked,
            "target_capability.invalid_parameters",
            message.as_str(),
            Some(
                CompatibilityFailure::new(
                    FailureClass::InvalidInput,
                    "target_capability.invalid_parameters",
                    FailurePhase::PlanConstruction,
                    message.as_str(),
                ),
            ),
        );
    }
    if options.missing.len() > 0 {
        let names = join_texts(&options.missing, ", ");
        let message = concat("required conversion parameters are missing: ", names.as_str());
        return explain_chosen(
            b,
            entry,
            CompatibilityStatus::NeedsConfiguration,
            "target_capability.missing_parameters",
            message.as_str(),
            Some(
                CompatibilityFailure::new(
                    FailureClass::MissingConfirmation,
                    "target_capability.missing_parameters",
                    FailurePhase::PlanConstruction,
                    message.as_str(),
                ),
            ),
        );
    }
    explain_plan(b, basis, entry, &options.parameters)
}

/// What a sound request comes to.
#[verifier::opaque]
pub open spec fn explained(b: Binding<'_>, basis: Basis<'_>, needs: Wanted) -> Outcome {
    let list = ranked(b, needs);
    if list.len() == 0 {
        without_candidate(b)
    } else if list.len() > 1 {
        with_choice(b, list, needs.catalog)
    } else {
        with_one(b, basis, list[0])
    }
}

fn explain(b: &Binding<'_>, basis: &Basis<'_>, needs: &Needs) -> (result: CompatibilityResult)
    ensures
        result.outcome() == explained(*b, *basis, needs@),
        sound_plan(result, *b),
{
    proof {
        reveal(explained);
    }
    let list = rank_candidates(b, needs);
    assert(entries_of(list@).len() == list@.len());
    if list.len() == 0 {
        explain_without_candidate(b)
    } else if list.len() > 1 {
        explain_choice(b, &list, needs.catalog)
    } else {
        assert(entries_of(list@)[0] == *list@[0]);
        explain_one(b, basis, list[0])
    }
}

// ---------------------------------------------------------------------------
// Requests
// ---------------------------------------------------------------------------

/// What a call ends with: an outcome, or the form of an error.
pub open spec fn ended(result: Result<CompatibilityResult, CompatibilityError>) -> Result<
    Outcome,
    Doc,
> {
    match result {
        Ok(result) => Ok(result.outcome()),
        Err(error) => Err(error.doc()),
    }
}

/// What one field of a transaction binds together.
pub open spec fn transaction_binding<'a>(input: &'a CompatibilityInput<'a>) -> Binding<'a> {
    Binding {
        source: &input.source_field,
        target: &input.target_field,
        mapping: &input.source_type_mapping,
        source_connector: &input.source_connector,
        sink_connector: &input.sink_connector,
        source_build: &input.source_build,
        target_build: &input.target_build,
        manifest: input.manifest,
        options: &input.options,
    }
}

/// What a transaction wants of a plan.
pub open spec fn transaction_wants(input: CompatibilityInput<'_>) -> Wanted {
    let changes = input.transaction.inner().changes@;
    Wanted {
        operations: operations(changes),
        presences: presences(captured(changes, input.source_field)),
        catalog: false,
    }
}

/// What a request for one field of a transaction ends with.
pub open spec fn explanation(input: CompatibilityInput<'_>) -> Result<Outcome, Doc> {
    let b = transaction_binding(&input);
    match input_error(input) {
        Some(error) => Err(error),
        None => if input.manifest.requires_primary_key && !has_key(
            input.transaction.inner().changes@,
        ) {
            Ok(
                refused(
                    b,
                    CompatibilityStatus::Blocked,
                    RiskLevel::Critical,
                    "target_capability.primary_key_required"@,
                    "the MySQL 8.0 Sink requires a primary-key Row Locator"@,
                ),
            )
        } else {
            Ok(
                explained(
                    b,
                    Basis::Transaction(&input.transaction.inner()),
                    transaction_wants(input),
                ),
            )
        },
    }
}

/// The result agrees with itself, and the plan, where there is one, stands
/// against the inputs.
pub open spec fn plan_stands(
    result: Result<CompatibilityResult, CompatibilityError>,
    input: CompatibilityInput<'_>,
) -> bool {
    match result {
        Ok(explained) => explained.agrees() && match explained.plan {
            Some(plan) => plan.intact() && against_error(plan, input) is None,
            None => true,
        },
        Err(_) => true,
    }
}

/// The result agrees with itself, and the plan, where there is one, has the
/// digest of its content.
pub open spec fn plan_is_intact(result: Result<CompatibilityResult, CompatibilityError>) -> bool {
    match result {
        Ok(explained) => explained.agrees() && match explained.plan {
            Some(plan) => plan.intact(),
            None => true,
        },
        Err(_) => true,
    }
}

proof fn lemma_plan_stands(
    result: Result<CompatibilityResult, CompatibilityError>,
    input: CompatibilityInput<'_>,
)
    requires
        ended(result) == explanation(input),
        result matches Ok(explained) ==> sound_plan(explained, transaction_binding(&input)),
    ensures
        plan_stands(result, input),
{
}

/// Explain and, when possible, build the immutable plan for one field binding.
///
/// Unsupported capabilities are an ordinary structured result rather than a
/// Rust error: callers need to render them in a preview. Rust errors represent
/// malformed inputs or an invalid/stale manifest. A plan that is returned
/// stands against the very inputs it was built from.
pub fn explain_compatibility(input: CompatibilityInput<'_>) -> (result: Result<
    CompatibilityResult,
    CompatibilityError,
>)
    ensures
        ended(result) == explanation(input),
        plan_stands(result, input),
{
    match validate_input(&input) {
        Err(error) => return Err(error),
        Ok(_) => {},
    }
    let transaction = input.transaction.transaction();
    let b = Binding {
        source: &input.source_field,
        target: &input.target_field,
        mapping: &input.source_type_mapping,
        source_connector: &input.source_connector,
        sink_connector: &input.sink_connector,
        source_build: &input.source_build,
        target_build: &input.target_build,
        manifest: input.manifest,
        options: &input.options,
    };
    if input.manifest.requires_primary_key && !transaction_has_key(transaction) {
        let result = Ok(
            refuse(
                &b,
                CompatibilityStatus::Blocked,
                RiskLevel::Critical,
                "target_capability.primary_key_required",
                "the MySQL 8.0 Sink requires a primary-key Row Locator",
            ),
        );
        proof {
            lemma_plan_stands(result, input);
        }
        return result;
    }
    let needs = Needs {
        operations: transaction_operations(transaction),
        presences: transaction_presences(transaction, &input.source_field),
        catalog: false,
    };
    assert(needs@ =~= transaction_wants(input));
    let result = Ok(explain(&b, &Basis::Transaction(transaction), &needs));
    proof {
        lemma_plan_stands(result, input);
    }
    result
}

pub fn plan_compatibility(input: CompatibilityInput<'_>) -> (result: Result<
    CompatibilityResult,
    CompatibilityError,
>)
    ensures
        ended(result) == explanation(input),
        plan_stands(result, input),
{
    explain_compatibility(input)
}

/// What one field of a catalog binds together.
pub open spec fn catalog_binding<'a>(input: &'a FieldCompatibilityInput<'a>) -> Binding<'a> {
    Binding {
        source: &input.source_field,
        target: &input.target_field,
        mapping: &input.source_type_mapping,
        source_connector: &input.source_connector,
        sink_connector: &input.sink_connector,
        source_build: &input.source_build,
        target_build: &input.target_build,
        manifest: input.manifest,
        options: &input.options,
    }
}

/// What a request for one field of a catalog ends with.
pub open spec fn field_explanation(input: FieldCompatibilityInput<'_>) -> Result<Outcome, Doc> {
    let b = catalog_binding(&input);
    match field_input_error(input) {
        Some(error) => Err(error),
        None => if input.manifest.requires_primary_key && !input.source_has_primary_key {
            Ok(
                refused(
                    b,
                    CompatibilityStatus::Blocked,
                    RiskLevel::Critical,
                    "target_capability.primary_key_required"@,
                    "the selected Sink requires a primary-key Row Locator"@,
                ),
            )
        } else if input.source_field.primary_key_ordinal != input.target_field.primary_key_ordinal {
            Ok(
                refused(
                    b,
                    CompatibilityStatus::Blocked,
                    RiskLevel::Critical,
                    "target_capability.primary_key_mismatch"@,
                    "source and target Row Locator key positions are not equivalent"@,
                ),
            )
        } else {
            Ok(
                explained(
                    b,
                    Basis::Catalog { operations: &input.operations, presences: &input.presences },
                    Wanted {
                        operations: input.operations@,
                        presences: input.presences@,
                        catalog: true,
                    },
                ),
            )
        },
    }
}

/// Explain and, when possible, build a plan from catalog definitions alone.
///
/// This is the Web/activation counterpart of [`explain_compatibility`]. The
/// runtime path should use the transaction-bearing function so event values
/// are checked as well; the catalog path never fabricates a row value merely
/// to satisfy the planner.
pub fn explain_field_compatibility(input: FieldCompatibilityInput<'_>) -> (result: Result<
    CompatibilityResult,
    CompatibilityError,
>)
    ensures
        ended(result) == field_explanation(input),
        plan_is_intact(result),
{
    match validate_field_input(&input) {
        Err(error) => return Err(error),
        Ok(_) => {},
    }
    let ghost asked = input;
    let FieldCompatibilityInput {
        source_field,
        target_field,
        source_type_mapping,
        source_connector,
        sink_connector,
        source_build,
        target_build,
        manifest,
        operations,
        presences,
        source_has_primary_key,
        options,
    } = input;
    let b = Binding {
        source: &source_field,
        target: &target_field,
        mapping: &source_type_mapping,
        source_connector: &source_connector,
        sink_connector: &sink_connector,
        source_build: &source_build,
        target_build: &target_build,
        manifest,
        options: &options,
    };
    if manifest.requires_primary_key && !source_has_primary_key {
        return Ok(
            refuse(
                &b,
                CompatibilityStatus::Blocked,
                RiskLevel::Critical,
                "target_capability.primary_key_required",
                "the selected Sink requires a primary-key Row Locator",
            ),
        );
    }
    if !same_position(&source_field.primary_key_ordinal, &target_field.primary_key_ordinal) {
        return Ok(
            refuse(
                &b,
                CompatibilityStatus::Blocked,
                RiskLevel::Critical,
                "target_capability.primary_key_mismatch",
                "source and target Row Locator key positions are not equivalent",
            ),
        );
    }
    let needs = Needs { operations, presences, catalog: true };
    assert(needs@ =~= Wanted {
        operations: asked.operations@,
        presences: asked.presences@,
        catalog: true,
    });
    let basis = Basis::Catalog { operations: &needs.operations, presences: &needs.presences };
    Ok(explain(&b, &basis, &needs))
}

pub fn plan_field_compatibility(input: FieldCompatibilityInput<'_>) -> (result: Result<
    CompatibilityResult,
    CompatibilityError,
>)
    ensures
        ended(result) == field_explanation(input),
        plan_is_intact(result),
{
    explain_field_compatibility(input)
}

// ---------------------------------------------------------------------------
// Stored plans
// ---------------------------------------------------------------------------

/// Why a stored plan does not stand against current inputs.
pub open spec fn against_error(plan: ColumnConversionPlan, input: CompatibilityInput<'_>) -> Option<
    Doc,
> {
    if !plan.intact() {
        Some(
            stale_input_doc(
                "compatibility.plan_digest_mismatch"@,
                FailurePhase::PlanConstruction,
                "the stored ColumnConversionPlan digest is invalid"@,
            ),
        )
    } else if !same_optional_text(
        plan.target_probe_digest,
        probe_digest(input.options.target_probe),
    ) {
        Some(
            plan_invalidated_doc(
                "compatibility.plan_inputs_changed"@,
                "target capability, column, extension, or session evidence changed; requalification is required"@,
            ),
        )
    } else {
        match explanation(input) {
            Err(error) => Some(error),
            Ok(outcome) => match outcome.plan_digest {
                None => Some(
                    plan_invalidated_doc(
                        "compatibility.plan_no_longer_qualifies"@,
                        "the stored ColumnConversionPlan no longer qualifies for current inputs"@,
                    ),
                ),
                Some(current) => if current != plan.plan_digest@ {
                    Some(
                        plan_invalidated_doc(
                            "compatibility.plan_inputs_changed"@,
                            "ColumnConversionPlan inputs changed; requalification is required"@,
                        ),
                    )
                } else {
                    None
                },
            },
        }
    }
}

impl ColumnConversionPlan {
    /// Rebuild the plan from current immutable inputs and reject any changed
    /// fingerprint, connector, capability, rule, option, or transaction shape.
    pub fn validate_against(&self, input: CompatibilityInput<'_>) -> (result: Result<
        (),
        CompatibilityError,
    >)
        ensures
            error_of(result) == against_error(*self, input),
    {
        if !self.verify_digest() {
            return Err(
                CompatibilityError::stale_input(
                    "compatibility.plan_digest_mismatch",
                    FailurePhase::PlanConstruction,
                    "the stored ColumnConversionPlan digest is invalid",
                ),
            );
        }
        let current_probe = read_probe_digest(&input.options.target_probe);
        if !eq_optional_text(&self.target_probe_digest, &current_probe) {
            return Err(
                CompatibilityError::plan_invalidated(
                    "compatibility.plan_inputs_changed",
                    "target capability, column, extension, or session evidence changed; requalification is required",
                ),
            );
        }
        let result = match explain_compatibility(input) {
            Err(error) => return Err(error),
            Ok(result) => result,
        };
        match &result.plan {
            None => Err(
                CompatibilityError::plan_invalidated(
                    "compatibility.plan_no_longer_qualifies",
                    "the stored ColumnConversionPlan no longer qualifies for current inputs",
                ),
            ),
            Some(current) => if !same(current.plan_digest.as_str(), self.plan_digest.as_str()) {
                Err(
                    CompatibilityError::plan_invalidated(
                        "compatibility.plan_inputs_changed",
                        "ColumnConversionPlan inputs changed; requalification is required",
                    ),
                )
            } else {
                Ok(())
            },
        }
    }
}

// ---------------------------------------------------------------------------
// Laws
// ---------------------------------------------------------------------------

/// No explicit conversion qualifies for a field that belongs to a key or
/// locates rows.
pub proof fn law_keys_are_never_converted(b: Binding<'_>, needs: Wanted, entry: CapabilityEntry)
    requires
        key_like(*b.source) || key_like(*b.target),
        qualifies(b, needs, entry),
    ensures
        entry.target.parameters.value_of("conversion_kind"@) is None,
        key_like(*b.source) ==> entry.rule.allows_key,
{
}

proof fn lemma_qualified(b: Binding<'_>, needs: Wanted, entries: Seq<CapabilityEntry>)
    ensures
        forall|i: int|
            0 <= i < qualified(b, needs, entries).len() ==> qualifies(
                b,
                needs,
                (#[trigger] qualified(b, needs, entries)[i]).1,
            ),
    decreases entries.len(),
{
    if entries.len() > 0 {
        lemma_qualified(b, needs, entries.drop_last());
        let before = qualified(b, needs, entries.drop_last());
        let all = qualified(b, needs, entries);
        assert forall|i: int| 0 <= i < all.len() implies qualifies(
            b,
            needs,
            (#[trigger] all[i]).1,
        ) by {
            if i < before.len() {
                assert(all[i] == before[i]);
            }
        }
    }
}

/// Every candidate qualifies.
pub proof fn law_candidates_qualify(b: Binding<'_>, needs: Wanted, at: int)
    requires
        0 <= at < ranked(b, needs).len(),
    ensures
        qualifies(b, needs, ranked(b, needs)[at]),
{
    broadcast use vstd::seq_lib::group_to_multiset_ensures;

    let given = qualified(b, needs, b.manifest.capabilities@);
    let sorted = sort_by_key(given);
    law_sort_orders_and_keeps(given);
    lemma_qualified(b, needs, b.manifest.capabilities@);
    assert(sorted.contains(sorted[at]));
    assert(given.to_multiset().count(sorted[at]) > 0);
    assert(given.contains(sorted[at]));
}

/// Exactly a compatible binding is free of a failure. Exactly a compatible
/// binding and one that waits for a confirmation have a plan.
pub proof fn law_compatible_means_planned(b: Binding<'_>, basis: Basis<'_>, needs: Wanted)
    ensures
        explained(b, basis, needs).plan is Some <==> explained(b, basis, needs).status is Compatible
            || explained(b, basis, needs).status is NeedsConfirmation,
        explained(b, basis, needs).failure is None <==> explained(b, basis, needs).status
            is Compatible,
{
    reveal(explained);
}

/// A plan and its summary are of the same inputs, the same digest and the same
/// rule. The plan needs no confirmation where its capability asks for none; it
/// is confirmed where the binding is compatible nevertheless, and waits
/// otherwise.
pub proof fn law_the_summary_names_the_plan(b: Binding<'_>, basis: Basis<'_>, needs: Wanted)
    requires
        explained(b, basis, needs).plan is Some,
    ensures
        ranked(b, needs).len() == 1,
        ({
            let outcome = explained(b, basis, needs);
            let entry = ranked(b, needs)[0];
            let parameters = normalized(entry.rule, b.options.parameters.entries()).0;
            let input_digest = inputs_digest(b, basis, entry, parameters);
            let digest = plan_digest(b, entry, parameters, input_digest);
            let state = if !asks_confirmation(entry) {
                PlanConfirmationState::NotRequired
            } else if outcome.status is Compatible {
                PlanConfirmationState::Confirmed
            } else {
                PlanConfirmationState::Required
            };
            &&& outcome.requires_confirmation == asks_confirmation(entry)
            &&& outcome.plan == Some(plan_doc(b, entry, parameters, input_digest, state))
            &&& outcome.plan_digest == Some(digest)
            &&& outcome.summary == Some(summary_doc(input_digest, digest, entry))
            &&& outcome.rule == Some(rule_reference_doc(entry.rule.id@, entry.rule.version@))
        }),
{
    reveal(explained);
}

/// A risk is never taken unasked: where the capability of a compatible binding
/// asks for a confirmation, one was given for these two fields, this rule and
/// the digest of this very plan.
pub proof fn law_risks_need_their_own_confirmation(
    b: Binding<'_>,
    basis: Basis<'_>,
    needs: Wanted,
)
    requires
        explained(b, basis, needs).status is Compatible,
    ensures
        ranked(b, needs).len() == 1,
        explained(b, basis, needs).plan_digest matches Some(digest) && (asks_confirmation(
            ranked(b, needs)[0],
        ) ==> confirmed(b, ranked(b, needs)[0], digest)),
{
    reveal(explained);
}

/// The candidates are entries of the manifest, and every entry of the manifest
/// that qualifies is a candidate.
pub proof fn law_candidates_are_the_qualifying_entries(
    b: Binding<'_>,
    needs: Wanted,
    entry: CapabilityEntry,
)
    ensures
        ranked(b, needs).contains(entry) <==> b.manifest.capabilities@.contains(entry) && qualifies(
            b,
            needs,
            entry,
        ),
{
    broadcast use vstd::seq_lib::group_to_multiset_ensures;

    let given = qualified(b, needs, b.manifest.capabilities@);
    let sorted = sort_by_key(given);
    let pair = (rank(entry), entry);
    law_sort_orders_and_keeps(given);
    lemma_kept(b, needs, b.manifest.capabilities@, entry);
    if ranked(b, needs).contains(entry) {
        let i = choose|i: int| 0 <= i < ranked(b, needs).len() && ranked(b, needs)[i] == entry;
        assert(sorted[i].1 == entry);
        assert(sorted.contains(sorted[i]));
        assert(given.to_multiset().count(sorted[i]) > 0);
        assert(given.contains(sorted[i]));
    }
    if given.contains(pair) {
        assert(sorted.to_multiset().count(pair) > 0);
        assert(sorted.contains(pair));
        let i = choose|i: int| 0 <= i < sorted.len() && sorted[i] == pair;
        assert(ranked(b, needs)[i] == entry);
    }
}

proof fn lemma_kept(
    b: Binding<'_>,
    needs: Wanted,
    entries: Seq<CapabilityEntry>,
    entry: CapabilityEntry,
)
    ensures
        qualified(b, needs, entries).contains((rank(entry), entry)) <==> entries.contains(entry)
            && qualifies(b, needs, entry),
        forall|i: int|
            0 <= i < qualified(b, needs, entries).len() && (#[trigger] qualified(
                b,
                needs,
                entries,
            )[i]).1 == entry ==> qualified(b, needs, entries)[i].0 == rank(entry),
    decreases entries.len(),
{
    let all = qualified(b, needs, entries);
    let pair = (rank(entry), entry);
    if entries.len() > 0 {
        let rest = entries.drop_last();
        let before = qualified(b, needs, rest);
        lemma_kept(b, needs, rest, entry);
        assert(entries =~= rest.push(entries.last()));
        if entries.contains(entry) && entries.last() != entry {
            let i = choose|i: int| 0 <= i < entries.len() && entries[i] == entry;
            assert(rest[i] == entry);
        }
        if rest.contains(entry) {
            let i = choose|i: int| 0 <= i < rest.len() && rest[i] == entry;
            assert(entries[i] == entry);
        }
        if entries.last() == entry {
            assert(entries[entries.len() - 1] == entry);
        }
        if qualifies(b, needs, entries.last()) {
            assert forall|i: int| 0 <= i < all.len() && (#[trigger] all[i]).1 == entry implies
                all[i].0 == rank(entry) by {
                if i < before.len() {
                    assert(all[i] == before[i]);
                }
            }
            if before.contains(pair) {
                let i = choose|i: int| 0 <= i < before.len() && before[i] == pair;
                assert(all[i] == pair);
            }
            if all.contains(pair) {
                let i = choose|i: int| 0 <= i < all.len() && all[i] == pair;
                if i < before.len() {
                    assert(before[i] == pair);
                }
            }
            if entries.last() == entry {
                assert(all[all.len() - 1] == pair);
            }
        }
    }
}

/// What a plan may rely on: its capability comes from the manifest, was not
/// refused by its evidence, is the one that was selected, and declares every
/// operation and presence that is wanted of it. Nulls of the source have a place
/// in the target; a catalog asks for the same nullability.
pub proof fn law_a_plan_serves_its_binding(b: Binding<'_>, basis: Basis<'_>, needs: Wanted)
    requires
        explained(b, basis, needs).status is Compatible || explained(b, basis, needs).status
            is NeedsConfirmation,
    ensures
        b.source.nullable ==> b.target.nullable,
        needs.catalog ==> b.source.nullable == b.target.nullable,
        b.source.generated == b.target.generated,
        ({
            let entry = ranked(b, needs)[0];
            &&& ranked(b, needs).len() == 1
            &&& b.manifest.capabilities@.contains(entry)
            &&& entry.rule.qualification is Exact || entry.rule.qualification is RangeChecked
                || entry.rule.qualification is ExplicitConversion
            &&& b.options.selected_rule matches Some(rule) ==> rule.id@ == entry.rule.id@
                && rule.version@ == entry.rule.version@
            &&& b.options.target_probe matches Some(probe) ==> exists|i: int|
                0 <= i < probe.capabilities@.len() && (#[trigger] probe.capabilities@[i]).identity@
                    == entry.code@ && probe.capabilities@[i].status is Qualified
            &&& b.source.primary_key_ordinal is Some || b.source.unique || b.source.row_locator
                ==> entry.rule.allows_key && entry.target.parameters.value_of("conversion_kind"@)
                is None
            &&& forall|i: int|
                0 <= i < needs.operations.len() ==> {
                    &&& entry.supported_operations@.len() == 0
                        || entry.supported_operations@.contains(#[trigger] needs.operations[i])
                    &&& entry.rule.supported_operations@.len() == 0
                        || entry.rule.supported_operations@.contains(needs.operations[i])
                }
            &&& forall|i: int|
                0 <= i < needs.presences.len() ==> {
                    &&& entry.supported_presence@.len() == 0
                        || entry.supported_presence@.contains(#[trigger] needs.presences[i])
                    &&& entry.rule.supported_presence@.len() == 0
                        || entry.rule.supported_presence@.contains(needs.presences[i])
                }
        }),
{
    reveal(explained);
    law_compatible_means_planned(b, basis, needs);
    let list = ranked(b, needs);
    assert(list.len() == 1);
    law_candidates_qualify(b, needs, 0);
    assert(list.contains(list[0]));
    law_candidates_are_the_qualifying_entries(b, needs, list[0]);
}

/// Making a target field nullable takes no candidate of a transaction away, and
/// neither does ruling nulls out at the source.
pub proof fn law_room_for_null_costs_no_candidate(
    b: Binding<'_>,
    needs: Wanted,
    entry: CapabilityEntry,
    target: FieldDefinition,
    source: FieldDefinition,
)
    requires
        !needs.catalog,
        target == (FieldDefinition { nullable: true, ..*b.target }),
        source == (FieldDefinition { nullable: false, ..*b.source }),
        ranked(b, needs).contains(entry),
    ensures
        ranked(Binding { target: &target, ..b }, needs).contains(entry),
        ranked(Binding { source: &source, ..b }, needs).contains(entry),
{
    law_candidates_are_the_qualifying_entries(b, needs, entry);
    law_candidates_are_the_qualifying_entries(Binding { target: &target, ..b }, needs, entry);
    law_candidates_are_the_qualifying_entries(Binding { source: &source, ..b }, needs, entry);
}

/// Whoever wants less of a plan keeps all candidates.
pub proof fn law_wanting_less_costs_no_candidate(
    b: Binding<'_>,
    more: Wanted,
    less: Wanted,
    entry: CapabilityEntry,
)
    requires
        less.catalog == more.catalog,
        forall|i: int|
            0 <= i < less.operations.len() ==> more.operations.contains(
                #[trigger] less.operations[i],
            ),
        forall|i: int|
            0 <= i < less.presences.len() ==> more.presences.contains(#[trigger] less.presences[i]),
        ranked(b, more).contains(entry),
    ensures
        ranked(b, less).contains(entry),
{
    law_candidates_are_the_qualifying_entries(b, more, entry);
    law_candidates_are_the_qualifying_entries(b, less, entry);
}

/// Candidates come best first: an exact representation before one that is
/// checked for its range, and that before a conversion. Among equals, less risk
/// comes first.
pub proof fn law_better_candidates_come_first(b: Binding<'_>, needs: Wanted, first: int, later: int)
    requires
        0 <= first < later < ranked(b, needs).len(),
    ensures
        ({
            let a = ranked(b, needs)[first].rule;
            let c = ranked(b, needs)[later].rule;
            &&& c.qualification is Exact ==> a.qualification is Exact
            &&& c.qualification is RangeChecked ==> !(a.qualification is ExplicitConversion)
            &&& a.qualification == c.qualification ==> {
                &&& c.risk is NoRisk ==> a.risk is NoRisk
                &&& c.risk is Low ==> a.risk is NoRisk || a.risk is Low
                &&& c.risk is Medium ==> !(a.risk is High) && !(a.risk is Critical)
                &&& c.risk is High ==> !(a.risk is Critical)
            }
        }),
{
    broadcast use vstd::seq_lib::group_to_multiset_ensures;

    let given = qualified(b, needs, b.manifest.capabilities@);
    let sorted = sort_by_key(given);
    law_sort_orders_and_keeps(given);
    law_candidates_qualify(b, needs, first);
    law_candidates_qualify(b, needs, later);
    lemma_rank_of_place(b, needs, first);
    lemma_rank_of_place(b, needs, later);
    let x = rank(ranked(b, needs)[first]);
    let y = rank(ranked(b, needs)[later]);
    assert(text_le(sorted[first].0, sorted[later].0));
    assert(text_le(x, y));
    reveal_with_fuel(text_le, 3);
    assert(x.drop_first()[0] == x[1] && y.drop_first()[0] == y[1]);
    assert(x[0] <= y[0]);
    assert(x[0] == y[0] ==> x[1] <= y[1]);
}

proof fn lemma_rank_of_place(b: Binding<'_>, needs: Wanted, at: int)
    requires
        0 <= at < ranked(b, needs).len(),
    ensures
        sort_by_key(qualified(b, needs, b.manifest.capabilities@))[at].0 == rank(
            ranked(b, needs)[at],
        ),
{
    broadcast use vstd::seq_lib::group_to_multiset_ensures;

    let given = qualified(b, needs, b.manifest.capabilities@);
    let sorted = sort_by_key(given);
    law_sort_orders_and_keeps(given);
    assert(sorted.contains(sorted[at]));
    assert(given.to_multiset().count(sorted[at]) > 0);
    assert(given.contains(sorted[at]));
    lemma_kept(b, needs, b.manifest.capabilities@, sorted[at].1);
}

/// A transaction with a plan has nothing that its capability does not declare:
/// every operation of its changes, and the presence of every column that is the
/// field.
pub proof fn law_a_planned_transaction_is_declared(input: CompatibilityInput<'_>, at: int)
    requires
        explanation(input) matches Ok(outcome) && outcome.plan is Some,
        0 <= at < input.transaction.inner().changes@.len(),
    ensures
        ({
            let b = transaction_binding(&input);
            let entry = ranked(b, transaction_wants(input))[0];
            let change = input.transaction.inner().changes@[at];
            &&& entry.rule.supported_operations@.len() == 0
                || entry.rule.supported_operations@.contains(change.operation)
            &&& entry.supported_operations@.len() == 0 || entry.supported_operations@.contains(
                change.operation,
            )
        }),
        forall|k: int|
            #![trigger input.transaction.inner().changes@[at].after->0@[k]]
            input.transaction.inner().changes@[at].after is Some && 0 <= k
                < input.transaction.inner().changes@[at].after->0@.len()
                && input.transaction.inner().changes@[at].after->0@[k].ordinal
                == input.source_field.ordinal
                && input.transaction.inner().changes@[at].after->0@[k].name@
                == input.source_field.name@ ==> {
                let entry = ranked(transaction_binding(&input), transaction_wants(input))[0];
                let column = input.transaction.inner().changes@[at].after->0@[k];
                entry.rule.supported_presence@.len() == 0
                    || entry.rule.supported_presence@.contains(
                    PresenceState::of_datum(column.datum, column.generated),
                )
            },
{
    let b = transaction_binding(&input);
    let needs = transaction_wants(input);
    let changes = input.transaction.inner().changes@;
    let basis = Basis::Transaction(&input.transaction.inner());
    let entry = ranked(b, needs)[0];
    law_compatible_means_planned(b, basis, needs);
    law_a_plan_serves_its_binding(b, basis, needs);
    assert(needs.operations[at] == changes[at].operation);
    if changes[at].after is Some {
        let image = changes[at].after->0@;
        assert forall|k: int| 0 <= k < image.len() && (#[trigger] image[k]).ordinal
            == input.source_field.ordinal && image[k].name@ == input.source_field.name@ implies
            needs.presences.contains(
            PresenceState::of_datum(image[k].datum, image[k].generated),
        ) by {
            lemma_captured(changes, input.source_field, at, k);
        }
        assert forall|k: int| 0 <= k < image.len() && (#[trigger] image[k]).ordinal
            == input.source_field.ordinal && image[k].name@ == input.source_field.name@ implies
            entry.rule.supported_presence@.len() == 0
            || entry.rule.supported_presence@.contains(
            PresenceState::of_datum(image[k].datum, image[k].generated),
        ) by {
            let presence = PresenceState::of_datum(image[k].datum, image[k].generated);
            assert(needs.presences.contains(presence));
            let j = choose|j: int| 0 <= j < needs.presences.len() && needs.presences[j] == presence;
            assert(needs.presences[j] == presence);
        }
    }
}

} // verus!
