//! What a request for a plan must hold.
use crate::change_event::compatibility::capability::{
    TargetCapabilityManifest, TargetCapabilityProbe,
};
use crate::change_event::compatibility::capability_failure::{
    bare_failure_doc, routed_failure_doc, TargetCapabilityFailure,
};
use crate::change_event::compatibility::error::{
    capability_error_doc, invalid_input_doc, named_doc, source_contract_doc, stale_input_doc,
    CompatibilityError,
};
use crate::change_event::compatibility::logical_type::{value_matches, LogicalType};
use crate::change_event::compatibility::plan::{
    CompatibilityInput, FieldCompatibilityInput, RouteOptions,
};
use crate::change_event::compatibility::planner::matching::supports_presence;
use crate::change_event::compatibility::types::{
    blank, failure_doc, is_blank, CompatibilityFailure, ConnectorIdentity, FieldDefinition,
    PresenceState, ServerBuildIdentity, SourceTypeMapping,
};
use crate::change_event::failure::{FailureClass, FailurePhase};
use crate::change_event::model::{ChangeTransaction, ColumnDatum, Datum, Operation, RowChange};
use crate::change_event::validate::{eq_optional_text, same_optional_text};
use crate::json::{same_value, Contract, Doc};
use crate::text::{eq_ignore_case, has_prefix, same, same_ignoring_case, starts_with};
use vstd::prelude::*;

verus! {

/// The form of the error that a check ends with.
pub open spec fn error_of(result: Result<(), CompatibilityError>) -> Option<Doc> {
    match result {
        Ok(_) => None,
        Err(error) => Some(error.doc()),
    }
}

/// The first of two errors.
pub open spec fn first_error(first: Option<Doc>, second: Option<Doc>) -> Option<Doc> {
    match first {
        Some(error) => Some(error),
        None => second,
    }
}

// ---------------------------------------------------------------------------
// Definitions and identities
// ---------------------------------------------------------------------------

/// What is wrong with the definitions and the route of a request.
pub open spec fn definition_error(
    source: FieldDefinition,
    target: FieldDefinition,
    options: RouteOptions,
) -> Option<Doc> {
    if !source.reference.complete() || !target.reference.complete() {
        Some(
            stale_input_doc(
                "compatibility.missing_schema_fingerprint"@,
                FailurePhase::InputValidation,
                "source and target definition references require lineage and Schema Fingerprint"@,
            ),
        )
    } else if blank(options.route_id@) || blank(options.configuration_revision@) {
        Some(
            invalid_input_doc(
                "compatibility.missing_route_identity"@,
                FailurePhase::InputValidation,
                "route_id and configuration_revision are required"@,
            ),
        )
    } else if blank(source.name@) || blank(target.name@) || blank(source.native_type@) || blank(
        target.native_type@,
    ) {
        Some(
            invalid_input_doc(
                "compatibility.invalid_field_definition"@,
                FailurePhase::InputValidation,
                "source and target field definitions are incomplete"@,
            ),
        )
    } else {
        None
    }
}

fn check_definitions(source: &FieldDefinition, target: &FieldDefinition, options: &RouteOptions) -> (result: Result<
    (),
    CompatibilityError,
>)
    ensures
        error_of(result) == definition_error(*source, *target, *options),
{
    if !source.reference.is_complete() || !target.reference.is_complete() {
        return Err(
            CompatibilityError::stale_input(
                "compatibility.missing_schema_fingerprint",
                FailurePhase::InputValidation,
                "source and target definition references require lineage and Schema Fingerprint",
            ),
        );
    }
    if is_blank(options.route_id.as_str()) || is_blank(options.configuration_revision.as_str()) {
        return Err(
            CompatibilityError::invalid_input(
                "compatibility.missing_route_identity",
                FailurePhase::InputValidation,
                "route_id and configuration_revision are required",
            ),
        );
    }
    if is_blank(source.name.as_str()) || is_blank(target.name.as_str()) || is_blank(
        source.native_type.as_str(),
    ) || is_blank(target.native_type.as_str()) {
        return Err(
            CompatibilityError::invalid_input(
                "compatibility.invalid_field_definition",
                FailurePhase::InputValidation,
                "source and target field definitions are incomplete",
            ),
        );
    }
    Ok(())
}

/// The mapping describes the source field.
pub open spec fn mapping_describes(
    mapping: SourceTypeMapping,
    connector: ConnectorIdentity,
    source: FieldDefinition,
) -> bool {
    &&& mapping.connector.doc() == connector.doc()
    &&& mapping.logical_type.doc() == source.logical_type.doc()
    &&& same_ignoring_case(mapping.native_type@, source.native_type@)
    &&& !blank(mapping.mapping_id@)
    &&& !blank(mapping.mapping_version@)
}

/// The manifest belongs to another server build.
pub open spec fn build_changed(
    build: Option<ServerBuildIdentity>,
    manifest: TargetCapabilityManifest,
) -> bool {
    match build {
        Some(build) => build.doc() != manifest.target_build.doc(),
        None => false,
    }
}

/// What is wrong with the mapping and the identity of the target.
pub open spec fn identity_error(
    mapping: SourceTypeMapping,
    source_connector: ConnectorIdentity,
    source: FieldDefinition,
    sink_connector: ConnectorIdentity,
    target_build: Option<ServerBuildIdentity>,
    manifest: TargetCapabilityManifest,
) -> Option<Doc> {
    if !mapping_describes(mapping, source_connector, source) {
        Some(
            source_contract_doc(
                "source_contract.type_mapping_mismatch"@,
                FailurePhase::SourceContract,
                "the SourceTypeMapping does not describe the selected source field"@,
            ),
        )
    } else if manifest.connector.doc() != sink_connector.doc() {
        Some(
            stale_input_doc(
                "compatibility.connector_identity_changed"@,
                FailurePhase::InputValidation,
                "the selected Sink capability manifest belongs to another connector identity"@,
            ),
        )
    } else if build_changed(target_build, manifest) {
        Some(
            stale_input_doc(
                "compatibility.target_build_changed"@,
                FailurePhase::InputValidation,
                "the target server build no longer matches the capability manifest"@,
            ),
        )
    } else {
        None
    }
}

fn check_identities(
    mapping: &SourceTypeMapping,
    source_connector: &ConnectorIdentity,
    source: &FieldDefinition,
    sink_connector: &ConnectorIdentity,
    target_build: &Option<ServerBuildIdentity>,
    manifest: &TargetCapabilityManifest,
) -> (result: Result<(), CompatibilityError>)
    ensures
        error_of(result) == identity_error(
            *mapping,
            *source_connector,
            *source,
            *sink_connector,
            *target_build,
            *manifest,
        ),
{
    if !same_value(&mapping.connector, source_connector) || !same_value(
        &mapping.logical_type,
        &source.logical_type,
    ) || !eq_ignore_case(mapping.native_type.as_str(), source.native_type.as_str()) || is_blank(
        mapping.mapping_id.as_str(),
    ) || is_blank(mapping.mapping_version.as_str()) {
        return Err(
            CompatibilityError::source_contract(
                "source_contract.type_mapping_mismatch",
                FailurePhase::SourceContract,
                "the SourceTypeMapping does not describe the selected source field",
            ),
        );
    }
    if !same_value(&manifest.connector, sink_connector) {
        return Err(
            CompatibilityError::stale_input(
                "compatibility.connector_identity_changed",
                FailurePhase::InputValidation,
                "the selected Sink capability manifest belongs to another connector identity",
            ),
        );
    }
    if let Some(build) = target_build {
        if !same_value(build, &manifest.target_build) {
            return Err(
                CompatibilityError::stale_input(
                    "compatibility.target_build_changed",
                    FailurePhase::InputValidation,
                    "the target server build no longer matches the capability manifest",
                ),
            );
        }
    }
    Ok(())
}

/// What is wrong with a manifest.
pub open spec fn manifest_error(manifest: TargetCapabilityManifest) -> Option<Doc> {
    match manifest.fault() {
        Some(message) => Some(
            capability_error_doc(bare_failure_doc("target_capability.invalid_manifest"@, message)),
        ),
        None => None,
    }
}

/// The probe was made of another target.
pub open spec fn probe_changed(
    probe: TargetCapabilityProbe,
    target: FieldDefinition,
    build: ServerBuildIdentity,
) -> bool {
    let native_type = probe.column_metadata.native_type@;
    ||| probe.target_build.doc() != build.doc()
    ||| probe.column@ != target.name@
    ||| probe.column_metadata.definition_fingerprint@ != target.reference.schema_fingerprint@
    ||| native_type.len() > 0 && !same_ignoring_case(native_type, target.native_type@)
}

/// What is wrong with the evidence on a target.
pub open spec fn probe_error(
    probe: Option<TargetCapabilityProbe>,
    target: FieldDefinition,
    build: ServerBuildIdentity,
    route: Seq<char>,
) -> Option<Doc> {
    match probe {
        None => None,
        Some(probe) => match probe.fault() {
            Some((code, message)) => Some(
                capability_error_doc(routed_failure_doc(code, route, message)),
            ),
            None => if probe_changed(probe, target, build) {
                Some(
                    named_doc(
                        "PlanInvalidated"@,
                        failure_doc(
                            FailureClass::StaleInput,
                            "compatibility.target_probe_changed"@,
                            FailurePhase::InputValidation,
                            "target column metadata or target build no longer matches the plan input"@,
                        ),
                    ),
                )
            } else if !probe.qualified() {
                Some(
                    capability_error_doc(
                        routed_failure_doc(
                            "target_capability.probe_not_qualified"@,
                            route,
                            "target preflight did not produce qualified capability evidence"@,
                        ),
                    ),
                )
            } else {
                None
            },
        },
    }
}

fn validate_target_probe(
    probe: &Option<TargetCapabilityProbe>,
    target: &FieldDefinition,
    build: &ServerBuildIdentity,
    route_id: &str,
) -> (result: Result<(), CompatibilityError>)
    ensures
        error_of(result) == probe_error(*probe, *target, *build, route_id@),
{
    let probe = match probe {
        None => return Ok(()),
        Some(probe) => probe,
    };
    match probe.validate() {
        Ok(_) => {},
        Err(failure) => {
            let failure = failure.routed(route_id, Ghost((probe.fault()->0).1));
            return Err(CompatibilityError::TargetCapability(Box::new(failure)));
        },
    }
    let metadata = &probe.column_metadata;
    if !same_value(&probe.target_build, build) || !same(
        probe.column.as_str(),
        target.name.as_str(),
    ) || !same(
        metadata.definition_fingerprint.as_str(),
        target.reference.schema_fingerprint.as_str(),
    ) || (!metadata.native_type.as_str().is_empty() && !eq_ignore_case(
        metadata.native_type.as_str(),
        target.native_type.as_str(),
    )) {
        return Err(
            CompatibilityError::PlanInvalidated(
                CompatibilityFailure::new(
                    FailureClass::StaleInput,
                    "compatibility.target_probe_changed",
                    FailurePhase::InputValidation,
                    "target column metadata or target build no longer matches the plan input",
                ),
            ),
        );
    }
    if !probe.is_qualified() {
        let cause = "target preflight did not produce qualified capability evidence";
        let failure = TargetCapabilityFailure::new(cause).with_code(
            "target_capability.probe_not_qualified",
        ).routed(route_id, Ghost(cause@));
        return Err(CompatibilityError::TargetCapability(Box::new(failure)));
    }
    Ok(())
}

// ---------------------------------------------------------------------------
// The columns of a transaction
// ---------------------------------------------------------------------------

/// The columns of an image that are the field.
pub open spec fn field_columns(image: Seq<ColumnDatum>, field: FieldDefinition) -> Seq<ColumnDatum>
    decreases image.len(),
{
    if image.len() == 0 {
        Seq::empty()
    } else {
        let before = field_columns(image.drop_last(), field);
        if image.last().ordinal == field.ordinal && image.last().name@ == field.name@ {
            before.push(image.last())
        } else {
            before
        }
    }
}

/// The columns of an image, where there is one.
pub open spec fn image_columns(image: Option<Vec<ColumnDatum>>, field: FieldDefinition) -> Seq<
    ColumnDatum,
> {
    match image {
        Some(image) => field_columns(image@, field),
        None => Seq::empty(),
    }
}

/// The columns of all changes that are the field, in order.
pub open spec fn captured(changes: Seq<RowChange>, field: FieldDefinition) -> Seq<ColumnDatum>
    decreases changes.len(),
{
    if changes.len() == 0 {
        Seq::empty()
    } else {
        captured(changes.drop_last(), field) + image_columns(changes.last().before, field)
            + image_columns(changes.last().after, field)
    }
}

/// The columns behind a row of references.
pub open spec fn referred(columns: Seq<&ColumnDatum>) -> Seq<ColumnDatum> {
    Seq::new(columns.len(), |i: int| *columns[i])
}

fn take_image<'a>(
    image: &'a Option<Vec<ColumnDatum>>,
    field: &FieldDefinition,
    columns: &mut Vec<&'a ColumnDatum>,
)
    ensures
        referred(final(columns)@) == referred(old(columns)@) + image_columns(*image, *field),
{
    let ghost start = referred(columns@);
    if let Some(list) = image {
        let mut i: usize = 0;
        assert(list@.take(0) =~= Seq::<ColumnDatum>::empty());
        assert(referred(columns@) =~= start + Seq::<ColumnDatum>::empty());
        while i < list.len()
            invariant
                i <= list@.len(),
                referred(columns@) == start + field_columns(list@.take(i as int), *field),
            decreases list@.len() - i,
        {
            assert(list@.take(i + 1).drop_last() =~= list@.take(i as int));
            assert(list@.take(i + 1).last() == list@[i as int]);
            let column = &list[i];
            let ghost before = referred(columns@);
            if column.ordinal == field.ordinal && same(column.name.as_str(), field.name.as_str()) {
                columns.push(column);
                assert(referred(columns@) =~= before.push(*column));
                assert(referred(columns@) =~= start + field_columns(list@.take(i + 1), *field));
            }
            i += 1;
        }
        assert(list@.take(i as int) =~= list@);
    } else {
        assert(referred(columns@) =~= start + Seq::<ColumnDatum>::empty());
    }
}

pub(crate) fn captured_columns<'a>(changes: &'a Vec<RowChange>, field: &FieldDefinition) -> (result: Vec<
    &'a ColumnDatum,
>)
    ensures
        referred(result@) == captured(changes@, *field),
{
    let mut columns: Vec<&'a ColumnDatum> = Vec::new();
    let mut i: usize = 0;
    assert(changes@.take(0) =~= Seq::<RowChange>::empty());
    assert(referred(columns@) =~= Seq::<ColumnDatum>::empty());
    while i < changes.len()
        invariant
            i <= changes@.len(),
            referred(columns@) == captured(changes@.take(i as int), *field),
        decreases changes@.len() - i,
    {
        assert(changes@.take(i + 1).drop_last() =~= changes@.take(i as int));
        assert(changes@.take(i + 1).last() == changes@[i as int]);
        take_image(&changes[i].before, field, &mut columns);
        take_image(&changes[i].after, field, &mut columns);
        i += 1;
    }
    assert(changes@.take(i as int) =~= changes@);
    columns
}

/// The column has the definition of the field.
pub open spec fn column_agrees(column: ColumnDatum, field: FieldDefinition) -> bool {
    &&& same_ignoring_case(column.native_type@, field.native_type@)
    &&& column.primary_key_ordinal == field.primary_key_ordinal
    &&& column.generated == field.generated
    &&& same_optional_text(column.collation, field.collation)
}

pub(crate) fn same_position(left: &Option<usize>, right: &Option<usize>) -> (result: bool)
    ensures
        result == (*left == *right),
{
    match (left, right) {
        (Some(a), Some(b)) => *a == *b,
        (None, None) => true,
        _ => false,
    }
}

fn does_column_agree(column: &ColumnDatum, field: &FieldDefinition) -> (result: bool)
    ensures
        result == column_agrees(*column, *field),
{
    eq_ignore_case(column.native_type.as_str(), field.native_type.as_str()) && same_position(
        &column.primary_key_ordinal,
        &field.primary_key_ordinal,
    ) && column.generated == field.generated && eq_optional_text(
        &column.collation,
        &field.collation,
    )
}

/// The value of the column, where it has one, is of the type.
pub open spec fn value_agrees(column: ColumnDatum, logical_type: LogicalType) -> bool {
    match column.datum {
        Datum::Value(value) => value_matches(logical_type, value),
        _ => true,
    }
}

/// What is wrong with the columns of a transaction that are the field.
pub open spec fn column_error(columns: Seq<ColumnDatum>, field: FieldDefinition) -> Option<Doc> {
    if columns.len() == 0 {
        Some(
            invalid_input_doc(
                "compatibility.field_not_in_transaction"@,
                FailurePhase::InputValidation,
                "the selected source field is not present in the validated transaction"@,
            ),
        )
    } else if exists|i: int|
        0 <= i < columns.len() && !column_agrees(#[trigger] columns[i], field) {
        Some(
            source_contract_doc(
                "source_contract.field_definition_mismatch"@,
                FailurePhase::SourceContract,
                "the source field definition does not match the validated ChangeEvent"@,
            ),
        )
    } else if exists|i: int|
        0 <= i < columns.len() && !value_agrees(#[trigger] columns[i], field.logical_type) {
        Some(
            source_contract_doc(
                "source_contract.logical_value_mismatch"@,
                FailurePhase::SourceContract,
                "a captured LogicalValue does not match the selected LogicalType"@,
            ),
        )
    } else {
        None
    }
}

fn check_columns(columns: &Vec<&ColumnDatum>, field: &FieldDefinition) -> (result: Result<
    (),
    CompatibilityError,
>)
    ensures
        error_of(result) == column_error(referred(columns@), *field),
{
    let ghost all = referred(columns@);
    if columns.len() == 0 {
        return Err(
            CompatibilityError::invalid_input(
                "compatibility.field_not_in_transaction",
                FailurePhase::InputValidation,
                "the selected source field is not present in the validated transaction",
            ),
        );
    }
    let mut i: usize = 0;
    while i < columns.len()
        invariant
            i <= columns@.len(),
            columns@.len() > 0,
            all == referred(columns@),
            forall|k: int| 0 <= k < i ==> column_agrees(#[trigger] all[k], *field),
        decreases columns@.len() - i,
    {
        if !does_column_agree(columns[i], field) {
            assert(!column_agrees(all[i as int], *field));
            return Err(
                CompatibilityError::source_contract(
                    "source_contract.field_definition_mismatch",
                    FailurePhase::SourceContract,
                    "the source field definition does not match the validated ChangeEvent",
                ),
            );
        }
        i += 1;
    }
    let mut i: usize = 0;
    while i < columns.len()
        invariant
            i <= columns@.len(),
            columns@.len() > 0,
            all == referred(columns@),
            forall|k: int| 0 <= k < columns@.len() ==> column_agrees(#[trigger] all[k], *field),
            forall|k: int| 0 <= k < i ==> value_agrees(#[trigger] all[k], field.logical_type),
        decreases columns@.len() - i,
    {
        let agrees = match &columns[i].datum {
            Datum::Value(value) => field.logical_type.matches_value(value),
            _ => true,
        };
        if !agrees {
            assert(!value_agrees(all[i as int], field.logical_type));
            return Err(
                CompatibilityError::source_contract(
                    "source_contract.logical_value_mismatch",
                    FailurePhase::SourceContract,
                    "a captured LogicalValue does not match the selected LogicalType",
                ),
            );
        }
        i += 1;
    }
    Ok(())
}

/// The presences of the columns, each once, in order.
pub open spec fn presences(columns: Seq<ColumnDatum>) -> Seq<PresenceState>
    decreases columns.len(),
{
    if columns.len() == 0 {
        Seq::empty()
    } else {
        let before = presences(columns.drop_last());
        let last = PresenceState::of_datum(columns.last().datum, columns.last().generated);
        if before.contains(last) {
            before
        } else {
            before.push(last)
        }
    }
}

fn read_presences(columns: &Vec<&ColumnDatum>) -> (result: Vec<PresenceState>)
    ensures
        result@ == presences(referred(columns@)),
{
    let ghost all = referred(columns@);
    let mut result: Vec<PresenceState> = Vec::new();
    let mut i: usize = 0;
    assert(all.take(0) =~= Seq::<ColumnDatum>::empty());
    while i < columns.len()
        invariant
            i <= columns@.len(),
            all == referred(columns@),
            result@ == presences(all.take(i as int)),
        decreases columns@.len() - i,
    {
        assert(all.take(i + 1).drop_last() =~= all.take(i as int));
        assert(all.take(i + 1).last() == *columns@[i as int]);
        let presence = PresenceState::from_datum(&columns[i].datum, columns[i].generated);
        if !supports_presence(&result, presence) {
            result.push(presence);
        }
        i += 1;
    }
    assert(all.take(i as int) =~= all);
    result
}

/// The presences in which a transaction has the field.
pub(crate) fn transaction_presences(transaction: &ChangeTransaction, field: &FieldDefinition) -> (result: Vec<
    PresenceState,
>)
    ensures
        result@ == presences(captured(transaction.changes@, *field)),
{
    let columns = captured_columns(&transaction.changes, field);
    read_presences(&columns)
}

/// The operations of a transaction.
pub open spec fn operations(changes: Seq<RowChange>) -> Seq<Operation> {
    Seq::new(changes.len(), |i: int| changes[i].operation)
}

pub(crate) fn transaction_operations(transaction: &ChangeTransaction) -> (result: Vec<Operation>)
    ensures
        result@ == operations(transaction.changes@),
{
    let mut result: Vec<Operation> = Vec::new();
    let mut i: usize = 0;
    while i < transaction.changes.len()
        invariant
            i <= transaction.changes@.len(),
            result@ =~= operations(transaction.changes@).take(i as int),
        decreases transaction.changes@.len() - i,
    {
        result.push(transaction.changes[i].operation);
        i += 1;
    }
    assert(result@ =~= operations(transaction.changes@));
    result
}

/// The image has a column of the primary key.
pub open spec fn image_has_key(image: Option<Vec<ColumnDatum>>) -> bool {
    match image {
        Some(image) => exists|i: int|
            0 <= i < image@.len() && (#[trigger] image@[i]).primary_key_ordinal is Some,
        None => false,
    }
}

/// The transaction has a column of a primary key.
pub open spec fn has_key(changes: Seq<RowChange>) -> bool {
    exists|i: int|
        0 <= i < changes.len() && (image_has_key((#[trigger] changes[i]).before) || image_has_key(
            changes[i].after,
        ))
}

fn does_image_have_key(image: &Option<Vec<ColumnDatum>>) -> (result: bool)
    ensures
        result == image_has_key(*image),
{
    if let Some(list) = image {
        let mut i: usize = 0;
        while i < list.len()
            invariant
                i <= list@.len(),
                *image == Some(*list),
                forall|k: int| 0 <= k < i ==> (#[trigger] list@[k]).primary_key_ordinal is None,
            decreases list@.len() - i,
        {
            if list[i].primary_key_ordinal.is_some() {
                return true;
            }
            i += 1;
        }
    }
    false
}

pub(crate) fn transaction_has_key(transaction: &ChangeTransaction) -> (result: bool)
    ensures
        result == has_key(transaction.changes@),
{
    let changes = &transaction.changes;
    let mut i: usize = 0;
    while i < changes.len()
        invariant
            i <= changes@.len(),
            *changes == transaction.changes,
            forall|k: int|
                0 <= k < i ==> !image_has_key((#[trigger] changes@[k]).before) && !image_has_key(
                    changes@[k].after,
                ),
        decreases changes@.len() - i,
    {
        if does_image_have_key(&changes[i].before) || does_image_have_key(&changes[i].after) {
            return true;
        }
        i += 1;
    }
    false
}

// ---------------------------------------------------------------------------
// Requests
// ---------------------------------------------------------------------------

/// What is wrong with the source of a transaction.
pub open spec fn source_error(transaction: ChangeTransaction, connector: ConnectorIdentity) -> Option<
    Doc,
> {
    if transaction.source.kind@ != connector.kind@ || !has_prefix(
        transaction.source.version@,
        connector.version@,
    ) {
        Some(
            source_contract_doc(
                "source_contract.connector_identity_mismatch"@,
                FailurePhase::SourceContract,
                "the validated transaction belongs to another source connector identity"@,
            ),
        )
    } else {
        None
    }
}

fn check_source(transaction: &ChangeTransaction, connector: &ConnectorIdentity) -> (result: Result<
    (),
    CompatibilityError,
>)
    ensures
        error_of(result) == source_error(*transaction, *connector),
{
    if !same(transaction.source.kind.as_str(), connector.kind.as_str()) || !starts_with(
        transaction.source.version.as_str(),
        connector.version.as_str(),
    ) {
        return Err(
            CompatibilityError::source_contract(
                "source_contract.connector_identity_mismatch",
                FailurePhase::SourceContract,
                "the validated transaction belongs to another source connector identity",
            ),
        );
    }
    Ok(())
}

/// What is wrong with a request for one field of a transaction.
pub open spec fn input_error(input: CompatibilityInput<'_>) -> Option<Doc> {
    let transaction = input.transaction.inner();
    first_error(
        definition_error(input.source_field, input.target_field, input.options),
        first_error(
            identity_error(
                input.source_type_mapping,
                input.source_connector,
                input.source_field,
                input.sink_connector,
                input.target_build,
                *input.manifest,
            ),
            first_error(
                source_error(transaction, input.source_connector),
                first_error(
                    manifest_error(*input.manifest),
                    first_error(
                        probe_error(
                            input.options.target_probe,
                            input.target_field,
                            input.manifest.target_build,
                            input.options.route_id@,
                        ),
                        column_error(
                            captured(transaction.changes@, input.source_field),
                            input.source_field,
                        ),
                    ),
                ),
            ),
        ),
    )
}

pub(crate) fn validate_input(input: &CompatibilityInput<'_>) -> (result: Result<
    (),
    CompatibilityError,
>)
    ensures
        error_of(result) == input_error(*input),
{
    match check_definitions(&input.source_field, &input.target_field, &input.options) {
        Err(error) => return Err(error),
        Ok(_) => {},
    }
    match check_identities(
        &input.source_type_mapping,
        &input.source_connector,
        &input.source_field,
        &input.sink_connector,
        &input.target_build,
        input.manifest,
    ) {
        Err(error) => return Err(error),
        Ok(_) => {},
    }
    let transaction = input.transaction.transaction();
    match check_source(transaction, &input.source_connector) {
        Err(error) => return Err(error),
        Ok(_) => {},
    }
    match input.manifest.validate() {
        Err(error) => return Err(error),
        Ok(_) => {},
    }
    match validate_target_probe(
        &input.options.target_probe,
        &input.target_field,
        &input.manifest.target_build,
        input.options.route_id.as_str(),
    ) {
        Err(error) => return Err(error),
        Ok(_) => {},
    }
    let columns = captured_columns(&transaction.changes, &input.source_field);
    check_columns(&columns, &input.source_field)
}

/// The collations of the fields differ.
pub open spec fn collations_differ(input: FieldCompatibilityInput<'_>) -> bool {
    let differ = !same_optional_text(input.source_field.collation, input.target_field.collation);
    if input.source_connector.doc() == input.sink_connector.doc() {
        differ
    } else {
        input.source_field.collation is Some && input.target_field.collation is Some && differ
    }
}

/// What is wrong with the collations of the fields: text, labels and members
/// may have a collation of the target, other values may not, unless a rule or
/// a parameter was chosen.
pub open spec fn collation_error(input: FieldCompatibilityInput<'_>) -> Option<Doc> {
    let source = input.source_field.logical_type;
    if collations_differ(input) && !(source is Text || source is Enum || source is SetType)
        && input.options.parameters.entries().len() == 0 && input.options.selected_rule is None {
        Some(
            capability_error_doc(
                routed_failure_doc(
                    "target_capability.collation_mismatch"@,
                    input.options.route_id@,
                    "source and target field collations are not equivalent"@,
                ),
            ),
        )
    } else {
        None
    }
}

fn check_collations(input: &FieldCompatibilityInput<'_>) -> (result: Result<(), CompatibilityError>)
    ensures
        error_of(result) == collation_error(*input),
{
    let differ = !eq_optional_text(&input.source_field.collation, &input.target_field.collation);
    let mismatch = if same_value(&input.source_connector, &input.sink_connector) {
        differ
    } else {
        input.source_field.collation.is_some() && input.target_field.collation.is_some() && differ
    };
    let configurable = matches!(
        &input.source_field.logical_type,
        LogicalType::Text { .. } | LogicalType::Enum { .. } | LogicalType::SetType { .. }
    );
    if mismatch && !configurable && input.options.parameters.is_empty()
        && input.options.selected_rule.is_none() {
        let cause = "source and target field collations are not equivalent";
        let failure = TargetCapabilityFailure::new(cause).with_code(
            "target_capability.collation_mismatch",
        ).routed(input.options.route_id.as_str(), Ghost(cause@));
        return Err(CompatibilityError::TargetCapability(Box::new(failure)));
    }
    Ok(())
}

/// What is wrong with the operations and presences that a field must support.
pub open spec fn requirement_error(input: FieldCompatibilityInput<'_>) -> Option<Doc> {
    if input.operations@.len() == 0 || input.presences@.len() == 0 {
        Some(
            invalid_input_doc(
                "compatibility.missing_requirements"@,
                FailurePhase::InputValidation,
                "at least one operation and presence state are required"@,
            ),
        )
    } else {
        None
    }
}

/// What is wrong with a request for one field of a catalog.
pub open spec fn field_input_error(input: FieldCompatibilityInput<'_>) -> Option<Doc> {
    first_error(
        definition_error(input.source_field, input.target_field, input.options),
        first_error(
            collation_error(input),
            first_error(
                identity_error(
                    input.source_type_mapping,
                    input.source_connector,
                    input.source_field,
                    input.sink_connector,
                    input.target_build,
                    *input.manifest,
                ),
                first_error(
                    requirement_error(input),
                    first_error(
                        manifest_error(*input.manifest),
                        probe_error(
                            input.options.target_probe,
                            input.target_field,
                            input.manifest.target_build,
                            input.options.route_id@,
                        ),
                    ),
                ),
            ),
        ),
    )
}

pub(crate) fn validate_field_input(input: &FieldCompatibilityInput<'_>) -> (result: Result<
    (),
    CompatibilityError,
>)
    ensures
        error_of(result) == field_input_error(*input),
{
    match check_definitions(&input.source_field, &input.target_field, &input.options) {
        Err(error) => return Err(error),
        Ok(_) => {},
    }
    match check_collations(input) {
        Err(error) => return Err(error),
        Ok(_) => {},
    }
    match check_identities(
        &input.source_type_mapping,
        &input.source_connector,
        &input.source_field,
        &input.sink_connector,
        &input.target_build,
        input.manifest,
    ) {
        Err(error) => return Err(error),
        Ok(_) => {},
    }
    if input.operations.len() == 0 || input.presences.len() == 0 {
        return Err(
            CompatibilityError::invalid_input(
                "compatibility.missing_requirements",
                FailurePhase::InputValidation,
                "at least one operation and presence state are required",
            ),
        );
    }
    match input.manifest.validate() {
        Err(error) => return Err(error),
        Ok(_) => {},
    }
    validate_target_probe(
        &input.options.target_probe,
        &input.target_field,
        &input.manifest.target_build,
        input.options.route_id.as_str(),
    )
}

/// A column of an image behind a change is among the columns of its field, and
/// its presence among their presences.
pub proof fn lemma_captured(changes: Seq<RowChange>, field: FieldDefinition, at: int, k: int)
    requires
        0 <= at < changes.len(),
        changes[at].after matches Some(image) && 0 <= k < image@.len() && image@[k].ordinal
            == field.ordinal && image@[k].name@ == field.name@,
    ensures
        captured(changes, field).contains(changes[at].after->0@[k]),
        presences(captured(changes, field)).contains(
            PresenceState::of_datum(
                changes[at].after->0@[k].datum,
                changes[at].after->0@[k].generated,
            ),
        ),
    decreases changes.len(),
{
    let column = changes[at].after->0@[k];
    let all = captured(changes, field);
    let front = captured(changes.drop_last(), field);
    if at < changes.len() - 1 {
        lemma_captured(changes.drop_last(), field, at, k);
        let i = choose|i: int| 0 <= i < front.len() && front[i] == column;
        assert(all[i] == column);
    } else {
        let image = changes[at].after->0@;
        let own = field_columns(image, field);
        lemma_field_columns(image, field, k);
        let i = choose|i: int| 0 <= i < own.len() && own[i] == column;
        let before = front + image_columns(changes.last().before, field);
        assert(all == before + own);
        assert(all[before.len() + i] == column);
    }
    let i = choose|i: int| 0 <= i < all.len() && all[i] == column;
    lemma_presences(all, i);
}

proof fn lemma_field_columns(image: Seq<ColumnDatum>, field: FieldDefinition, k: int)
    requires
        0 <= k < image.len(),
        image[k].ordinal == field.ordinal,
        image[k].name@ == field.name@,
    ensures
        field_columns(image, field).contains(image[k]),
    decreases image.len(),
{
    let all = field_columns(image, field);
    let front = field_columns(image.drop_last(), field);
    if k < image.len() - 1 {
        lemma_field_columns(image.drop_last(), field, k);
        let i = choose|i: int| 0 <= i < front.len() && front[i] == image[k];
        assert(all[i] == image[k]);
    } else {
        assert(all[all.len() - 1] == image[k]);
    }
}

proof fn lemma_presences(columns: Seq<ColumnDatum>, at: int)
    requires
        0 <= at < columns.len(),
    ensures
        presences(columns).contains(
            PresenceState::of_datum(columns[at].datum, columns[at].generated),
        ),
    decreases columns.len(),
{
    let all = presences(columns);
    let front = presences(columns.drop_last());
    let wanted = PresenceState::of_datum(columns[at].datum, columns[at].generated);
    if at < columns.len() - 1 {
        lemma_presences(columns.drop_last(), at);
        let i = choose|i: int| 0 <= i < front.len() && front[i] == wanted;
        assert(all[i] == wanted);
    } else if !front.contains(wanted) {
        assert(all[all.len() - 1] == wanted);
    }
}

} // verus!
