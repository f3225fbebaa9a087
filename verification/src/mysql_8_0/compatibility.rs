//! MySQL 8.0's versioned, structured Sink capability boundary.
use crate::change_event::compatibility::capability::{
    law_another_build_has_another_digest, TargetCapabilityManifest,
};
use crate::change_event::compatibility::error::CompatibilityError;
use crate::change_event::compatibility::plan::{CompatibilityInput, CompatibilityResult, Outcome};
use crate::change_event::compatibility::planner::explain::{ended, explanation, plan_stands};
use crate::change_event::compatibility::types::{
    CapabilityEntry, ConnectorIdentity, ServerBuildIdentity, SourceTypeMapping,
    COMPATIBILITY_FORMAT,
};
use crate::change_event::compatibility::capability_failure::{
    routed_failure_doc, TargetCapabilityFailure,
};
use crate::change_event::compatibility::error::capability_error_doc;
use crate::change_event::compatibility::logical_type::LogicalType;
use crate::json::{collide, docs, same_value, Contract, Doc};
use crate::mysql_5_7::republished::{mapping_of, republish, republished_mapping};
use crate::mysql_5_7::type_mapping::{keeps_text, view_of};
use crate::mysql_source_contract::catalog::{
    distinct_codes, lemma_all_integers, lemma_all_large_texts, lemma_binaries, lemma_bit_offers,
    lemma_blobs, lemma_char_targets, lemma_chars, lemma_conversion, lemma_dates_to_sets,
    lemma_decimal_offers, lemma_entries_stand, lemma_float_offers, lemma_temporal_targets,
    lemma_text_targets, lemma_unbounded_text, lemma_varchars, ordered_charsets,
};
use crate::mysql_source_contract::codes::{
    charset_place, lemma_join_told_apart, lemma_spread_tells_apart, plain, spread, told_apart,
};
use crate::mysql_source_contract::offers::{
    add_all_large_texts, add_binaries, add_bits, add_blobs, add_char_targets, add_chars,
    add_dates_to_sets, add_decimals, add_deliberate, add_floats, add_integers,
    add_temporal_targets, add_text_targets, add_unbounded_text, add_varchars, all_integers,
    all_large_texts, binaries, bit_offers, blobs, char_targets, chars, dates_to_sets,
    decimal_offers, deliberate_offer, float_offers, temporal_targets, text_targets,
    sound_offer, sound_offers, unbounded_text, varchars, Profile,
};
use crate::text::{eq_ignore_case, same, same_ignoring_case};
use vstd::prelude::*;

verus! {

pub const MAPPING_VERSION: &'static str = "mysql-8.0.source-type-mapping.v1";

/// The manifest is the one that this Sink publishes for a server build.
pub open spec fn published(manifest: TargetCapabilityManifest, target_build: ServerBuildIdentity) -> bool {
    &&& manifest.connector.kind@ == "mysql"@
    &&& manifest.connector.version@ == "8.0"@
    &&& manifest.target_build == target_build
    &&& manifest.contract@ == COMPATIBILITY_FORMAT@
    &&& manifest.requires_primary_key
    &&& docs(manifest.capabilities@) == own_offers()
    &&& manifest.intact()
    &&& sound_offers(manifest.capabilities@)
}

/// The identity under which this Sink publishes its entries.
pub open spec fn own_profile() -> Profile<'static> {
    Profile {
        version: "8.0",
        prefix: "mysql80",
        evidence: "mysql-8.0.sink-conversion.v1",
        range_rule: "",
    }
}

/// The entries for truth values and UUIDs.
pub open spec fn own_conversions() -> Seq<Doc> {
    let p = own_profile();
    seq![
        deliberate_offer(p, LogicalType::Boolean.doc(), "tinyint(1)"@, "boolean.tinyint1"@),
        deliberate_offer(p, LogicalType::Boolean.doc(), "tinyint"@, "boolean.tinyint"@),
        deliberate_offer(p, LogicalType::Uuid.doc(), "char(36)"@, "uuid.char36"@),
        deliberate_offer(p, LogicalType::Uuid.doc(), "varchar(36)"@, "uuid.varchar36"@),
    ]
}

/// The entries of the manifest, in order. A target column has the declared
/// parameters of the source mapping, or stands behind a rule that has to be
/// confirmed.
pub open spec fn own_offers() -> Seq<Doc> {
    let p = own_profile();
    Seq::<Doc>::empty() + all_integers(p) + decimal_offers(p, false, 65) + decimal_offers(
        p,
        true,
        65,
    ) + float_offers(p) + varchars(p, "utf8mb4"@) + varchars(p, "utf8"@) + varchars(p, "latin1"@)
        + varchars(p, "ascii"@) + chars(p, "utf8mb4"@) + chars(p, "utf8"@) + chars(p, "latin1"@)
        + chars(p, "ascii"@) + varchars(p, "UTF8"@) + all_large_texts(
        p,
        seq!["utf8mb4", "utf8", "latin1", "ascii"],
    ) + binaries(p) + bit_offers(p, 64) + blobs(p) + dates_to_sets(p) + seq![unbounded_text(p)]
        + text_targets(p) + char_targets(p) + temporal_targets(p, 7) + own_conversions()
}

fn add_texts(list: &mut Vec<CapabilityEntry>, p: &Profile<'_>)
    ensures
        sound_offers(old(list)@) ==> sound_offers(final(list)@),
        docs(final(list)@) == docs(old(list)@) + varchars(*p, "utf8mb4"@) + varchars(*p, "utf8"@)
            + varchars(*p, "latin1"@) + varchars(*p, "ascii"@) + chars(*p, "utf8mb4"@) + chars(
            *p,
            "utf8"@,
        ) + chars(*p, "latin1"@) + chars(*p, "ascii"@) + varchars(*p, "UTF8"@) + all_large_texts(
            *p,
            seq!["utf8mb4", "utf8", "latin1", "ascii"],
        ),
{
    add_varchars(list, p, "utf8mb4");
    add_varchars(list, p, "utf8");
    add_varchars(list, p, "latin1");
    add_varchars(list, p, "ascii");
    add_chars(list, p, "utf8mb4");
    add_chars(list, p, "utf8");
    add_chars(list, p, "latin1");
    add_chars(list, p, "ascii");
    add_varchars(list, p, "UTF8");
    let mut charsets: Vec<&str> = Vec::new();
    charsets.push("utf8mb4");
    charsets.push("utf8");
    charsets.push("latin1");
    charsets.push("ascii");
    assert(charsets@ =~= seq!["utf8mb4", "utf8", "latin1", "ascii"]);
    add_all_large_texts(list, p, &charsets);
}

fn add_conversions(list: &mut Vec<CapabilityEntry>, p: &Profile<'_>)
    requires
        *p == own_profile(),
    ensures
        sound_offers(old(list)@) ==> sound_offers(final(list)@),
        docs(final(list)@) == docs(old(list)@) + own_conversions(),
{
    add_deliberate(list, p, LogicalType::Boolean, "tinyint(1)", "boolean.tinyint1");
    add_deliberate(list, p, LogicalType::Boolean, "tinyint", "boolean.tinyint");
    add_deliberate(list, p, LogicalType::Uuid, "char(36)", "uuid.char36");
    add_deliberate(list, p, LogicalType::Uuid, "varchar(36)", "uuid.varchar36");
    assert(docs(list@) =~= docs(old(list)@) + own_conversions());
}

/// The versioned capability manifest for one exact server build. The build is
/// an explicit input, so that a patch release cannot silently inherit a
/// qualification from another target instance.
pub fn compatibility_manifest(target_build: ServerBuildIdentity) -> (result: TargetCapabilityManifest)
    ensures
        published(result, target_build),
{
    let p = Profile {
        version: "8.0",
        prefix: "mysql80",
        evidence: "mysql-8.0.sink-conversion.v1",
        range_rule: "",
    };
    let mut list: Vec<CapabilityEntry> = Vec::new();
    assert(docs(list@) =~= Seq::<Doc>::empty());
    add_integers(&mut list, &p);
    add_decimals(&mut list, &p, false);
    add_decimals(&mut list, &p, true);
    add_floats(&mut list, &p);
    add_texts(&mut list, &p);
    add_binaries(&mut list, &p);
    add_bits(&mut list, &p);
    add_blobs(&mut list, &p);
    add_dates_to_sets(&mut list, &p);
    let ghost before = docs(list@);
    add_unbounded_text(&mut list, &p);
    assert(docs(list@) =~= before + seq![unbounded_text(p)]);
    add_text_targets(&mut list, &p);
    add_char_targets(&mut list, &p);
    add_temporal_targets(&mut list, &p);
    add_conversions(&mut list, &p);
    TargetCapabilityManifest::new(
        ConnectorIdentity::new("mysql", "8.0"),
        target_build,
        list,
        true,
    )
}

/// Descriptive alias for callers that distinguish the structured manifest from
/// the static summary of the adapter.
pub fn target_capability_manifest(
    target_build: ServerBuildIdentity,
) -> (result: TargetCapabilityManifest)
    ensures
        published(result, target_build),
{
    compatibility_manifest(target_build)
}

/// Alias named after the structured manifest.
pub fn structured_capability_manifest(
    target_build: ServerBuildIdentity,
) -> (result: TargetCapabilityManifest)
    ensures
        published(result, target_build),
{
    compatibility_manifest(target_build)
}

/// Descriptive alias used by registry and preflight code.
pub fn capability_manifest_for(target_build: ServerBuildIdentity) -> (result: TargetCapabilityManifest)
    ensures
        published(result, target_build),
{
    compatibility_manifest(target_build)
}

/// MySQL 8.0 uses the declaration semantics of the shared MySQL source
/// contract, but publishes its own connector identity and mapping version.
pub fn source_type_mapping(native_type: &str, charset: Option<&str>, collation: Option<&str>) -> (result: Result<
    SourceTypeMapping,
    String,
>)
    ensures
        mapping_of(result) == republished_mapping(
            native_type@,
            view_of(charset),
            view_of(collation),
            "8.0"@,
            "mysql80."@,
            MAPPING_VERSION@,
        ),
        result matches Ok(mapping) ==> keeps_text(
            mapping.logical_type,
            native_type@,
            view_of(charset),
        ),
{
    republish(native_type, charset, collation, "8.0", "mysql80.", MAPPING_VERSION)
}

/// The collation of values of this type can be chosen for a target.
pub open spec fn collation_configurable(logical_type: LogicalType) -> bool {
    logical_type is Text || logical_type is Enum || logical_type is SetType
}

/// The source mapping speaks of the source field.
pub open spec fn mapping_matches(input: CompatibilityInput<'_>) -> bool {
    &&& input.source_type_mapping.connector.doc() == input.source_connector.doc()
    &&& input.source_type_mapping.logical_type.doc() == input.source_field.logical_type.doc()
    &&& same_ignoring_case(
        input.source_type_mapping.native_type@,
        input.source_field.native_type@,
    )
}

/// Both fields have a collation, and it is not the same.
pub open spec fn collations_differ(input: CompatibilityInput<'_>) -> bool {
    match (input.source_field.collation, input.target_field.collation) {
        (Some(source), Some(target)) => source@ != target@,
        _ => false,
    }
}

/// The fields cannot be bound: their collations differ, and nothing says what
/// to do about it.
pub open spec fn collation_refused(input: CompatibilityInput<'_>) -> bool {
    &&& collations_differ(input)
    &&& !collation_configurable(input.source_field.logical_type) || !mapping_matches(input)
    &&& input.options.parameters.entries().len() == 0
    &&& input.options.selected_rule is None
}

/// What a request ends with.
pub open spec fn own_explanation(input: CompatibilityInput<'_>) -> Result<Outcome, Doc> {
    if collation_refused(input) {
        Err(
            capability_error_doc(
                routed_failure_doc(
                    "target_capability.collation_mismatch"@,
                    input.options.route_id@,
                    "MySQL 8.0 field collations are not equivalent"@,
                ),
            ),
        )
    } else {
        explanation(input)
    }
}

fn do_collations_differ(input: &CompatibilityInput<'_>) -> (result: bool)
    ensures
        result == collations_differ(*input),
{
    match (&input.source_field.collation, &input.target_field.collation) {
        (Some(source), Some(target)) => !same(source.as_str(), target.as_str()),
        _ => false,
    }
}

fn is_collation_configurable(logical_type: &LogicalType) -> (result: bool)
    ensures
        result == collation_configurable(*logical_type),
{
    match logical_type {
        LogicalType::Text { .. } => true,
        LogicalType::Enum { .. } => true,
        LogicalType::SetType { .. } => true,
        _ => false,
    }
}

fn does_mapping_match(input: &CompatibilityInput<'_>) -> (result: bool)
    ensures
        result == mapping_matches(*input),
{
    same_value(&input.source_type_mapping.connector, &input.source_connector) && same_value(
        &input.source_type_mapping.logical_type,
        &input.source_field.logical_type,
    ) && eq_ignore_case(
        input.source_type_mapping.native_type.as_str(),
        input.source_field.native_type.as_str(),
    )
}

/// Run the database-neutral planner behind the collation rule of this Sink.
/// Preflight and runtime call the same function.
pub fn plan_compatibility(input: CompatibilityInput<'_>) -> (result: Result<
    CompatibilityResult,
    CompatibilityError,
>)
    ensures
        ended(result) == own_explanation(input),
        !collation_refused(input) ==> plan_stands(result, input),
{
    if do_collations_differ(&input) && (!is_collation_configurable(&input.source_field.logical_type)
        || !does_mapping_match(&input)) && input.options.parameters.is_empty()
        && input.options.selected_rule.is_none() {
        let failure = TargetCapabilityFailure::new("MySQL 8.0 field collations are not equivalent");
        let failure = failure.with_code("target_capability.collation_mismatch");
        let failure = failure.routed(
            input.options.route_id.as_str(),
            Ghost("MySQL 8.0 field collations are not equivalent"@),
        );
        return Err(CompatibilityError::TargetCapability(Box::new(failure)));
    }
    crate::change_event::compatibility::planner::explain::plan_compatibility(input)
}

/// The Sink side of the connector.
pub struct SinkAdapter;

impl SinkAdapter {
    /// Publish the structured manifest through the adapter.
    pub fn structured_capability_manifest(
        &self,
        target_build: ServerBuildIdentity,
    ) -> (result: TargetCapabilityManifest)
        ensures
            published(result, target_build),
    {
        compatibility_manifest(target_build)
    }

    /// Plan one field binding through the adapter.
    pub fn plan_compatibility(&self, input: CompatibilityInput<'_>) -> (result: Result<
        CompatibilityResult,
        CompatibilityError,
    >)
        ensures
            ended(result) == own_explanation(input),
            !collation_refused(input) ==> plan_stands(result, input),
    {
        plan_compatibility(input)
    }
}

proof fn lemma_own_charsets()
    ensures
        plain("utf8mb4"@) && "utf8mb4"@.len() > 0 && charset_place("utf8mb4"@) == 0,
        plain("utf8"@) && "utf8"@.len() > 0 && charset_place("utf8"@) == 1,
        plain("latin1"@) && "latin1"@.len() > 0 && charset_place("latin1"@) == 2,
        plain("ascii"@) && "ascii"@.len() > 0 && charset_place("ascii"@) == 3,
        plain("UTF8"@) && "UTF8"@.len() > 0 && charset_place("UTF8"@) == 4,
{
    reveal_strlit("utf8mb4");
    reveal_strlit("utf8");
    reveal_strlit("latin1");
    reveal_strlit("ascii");
    reveal_strlit("UTF8");
}

proof fn lemma_own_conversions()
    ensures
        spread(own_profile(), own_conversions(), 80, 0, 200),
{
    let p = own_profile();
    reveal_strlit("boolean");
    reveal_strlit("uuid");
    reveal_strlit("tinyint");
    reveal_strlit("tinyint1");
    reveal_strlit("tinyint(1)");
    reveal_strlit("char36");
    reveal_strlit("varchar36");
    reveal_strlit("char(36)");
    reveal_strlit("varchar(36)");
    reveal_strlit("boolean.tinyint");
    reveal_strlit("boolean.tinyint1");
    reveal_strlit("uuid.char36");
    reveal_strlit("uuid.varchar36");
    reveal_strlit(".");
    assert("boolean.tinyint"@ =~= "boolean"@ + "."@ + "tinyint"@);
    assert("boolean.tinyint1"@ =~= "boolean"@ + "."@ + "tinyint1"@);
    assert("uuid.char36"@ =~= "uuid"@ + "."@ + "char36"@);
    assert("uuid.varchar36"@ =~= "uuid"@ + "."@ + "varchar36"@);
    assert("uuid"@.len() != "boolean"@.len());
    lemma_conversion(p, LogicalType::Boolean.doc(), "tinyint(1)"@, "boolean"@, "tinyint1"@);
    lemma_conversion(p, LogicalType::Boolean.doc(), "tinyint"@, "boolean"@, "tinyint"@);
    lemma_conversion(p, LogicalType::Uuid.doc(), "char(36)"@, "uuid"@, "char36"@);
    lemma_conversion(p, LogicalType::Uuid.doc(), "varchar(36)"@, "uuid"@, "varchar36"@);
}

/// The codes of the entries of the manifest tell them apart.
#[verifier::spinoff_prover]
#[verifier::rlimit(40)]
proof fn lemma_own_codes() -> (lists: Set<int>)
    ensures
        told_apart(own_profile(), own_offers(), lists),
{
    let p = own_profile();
    lemma_own_charsets();
    let charsets = seq!["utf8mb4", "utf8", "latin1", "ascii"];
    assert(ordered_charsets(charsets));
    let all0 = Seq::<Doc>::empty();
    let done0 = Set::<int>::empty();
    let list1 = all_integers(p);
    lemma_all_integers(p);
    lemma_spread_tells_apart(p, list1, 1, 0, 520);
    let all1 = all0 + list1;
    let done1 = done0.union(set![1int]);
    lemma_join_told_apart(p, all0, list1, done0, set![1int]);
    let list2 = decimal_offers(p, false, 65);
    lemma_decimal_offers(p, false, 65);
    lemma_spread_tells_apart(p, list2, 2, 0, 6600);
    let all2 = all1 + list2;
    let done2 = done1.union(set![2int]);
    lemma_join_told_apart(p, all1, list2, done1, set![2int]);
    let list3 = decimal_offers(p, true, 65);
    lemma_decimal_offers(p, true, 65);
    lemma_spread_tells_apart(p, list3, 4, 0, 6600);
    let all3 = all2 + list3;
    let done3 = done2.union(set![4int]);
    lemma_join_told_apart(p, all2, list3, done2, set![4int]);
    let list4 = float_offers(p);
    lemma_float_offers(p);
    lemma_spread_tells_apart(p, list4, 3, 0, 3);
    let all4 = all3 + list4;
    let done4 = done3.union(set![3int]);
    lemma_join_told_apart(p, all3, list4, done3, set![3int]);
    let list5 = varchars(p, "utf8mb4"@);
    lemma_varchars(p, "utf8mb4"@);
    lemma_spread_tells_apart(p, list5, 10, 0, 65536);
    let all5 = all4 + list5;
    let done5 = done4.union(set![10int]);
    lemma_join_told_apart(p, all4, list5, done4, set![10int]);
    let list6 = varchars(p, "utf8"@);
    lemma_varchars(p, "utf8"@);
    lemma_spread_tells_apart(p, list6, 11, 0, 65536);
    let all6 = all5 + list6;
    let done6 = done5.union(set![11int]);
    lemma_join_told_apart(p, all5, list6, done5, set![11int]);
    let list7 = varchars(p, "latin1"@);
    lemma_varchars(p, "latin1"@);
    lemma_spread_tells_apart(p, list7, 12, 0, 65536);
    let all7 = all6 + list7;
    let done7 = done6.union(set![12int]);
    lemma_join_told_apart(p, all6, list7, done6, set![12int]);
    let list8 = varchars(p, "ascii"@);
    lemma_varchars(p, "ascii"@);
    lemma_spread_tells_apart(p, list8, 13, 0, 65536);
    let all8 = all7 + list8;
    let done8 = done7.union(set![13int]);
    lemma_join_told_apart(p, all7, list8, done7, set![13int]);
    let list9 = chars(p, "utf8mb4"@);
    lemma_chars(p, "utf8mb4"@);
    lemma_spread_tells_apart(p, list9, 20, 0, 256);
    let all9 = all8 + list9;
    let done9 = done8.union(set![20int]);
    lemma_join_told_apart(p, all8, list9, done8, set![20int]);
    let list10 = chars(p, "utf8"@);
    lemma_chars(p, "utf8"@);
    lemma_spread_tells_apart(p, list10, 21, 0, 256);
    let all10 = all9 + list10;
    let done10 = done9.union(set![21int]);
    lemma_join_told_apart(p, all9, list10, done9, set![21int]);
    let list11 = chars(p, "latin1"@);
    lemma_chars(p, "latin1"@);
    lemma_spread_tells_apart(p, list11, 22, 0, 256);
    let all11 = all10 + list11;
    let done11 = done10.union(set![22int]);
    lemma_join_told_apart(p, all10, list11, done10, set![22int]);
    let list12 = chars(p, "ascii"@);
    lemma_chars(p, "ascii"@);
    lemma_spread_tells_apart(p, list12, 23, 0, 256);
    let all12 = all11 + list12;
    let done12 = done11.union(set![23int]);
    lemma_join_told_apart(p, all11, list12, done11, set![23int]);
    let list13 = varchars(p, "UTF8"@);
    lemma_varchars(p, "UTF8"@);
    lemma_spread_tells_apart(p, list13, 14, 0, 65536);
    let all13 = all12 + list13;
    let done13 = done12.union(set![14int]);
    lemma_join_told_apart(p, all12, list13, done12, set![14int]);
    let list14 = all_large_texts(p, charsets);
    lemma_all_large_texts(p, charsets);
    let all14 = all13 + list14;
    let done14 = done13.union(set![30int, 31int, 32int, 33int]);
    lemma_join_told_apart(p, all13, list14, done13, set![30int, 31int, 32int, 33int]);
    let list15 = binaries(p);
    lemma_binaries(p);
    lemma_spread_tells_apart(p, list15, 41, 0, 131072);
    let all15 = all14 + list15;
    let done15 = done14.union(set![41int]);
    lemma_join_told_apart(p, all14, list15, done14, set![41int]);
    let list16 = bit_offers(p, 64);
    lemma_bit_offers(p, 64);
    lemma_spread_tells_apart(p, list16, 40, 0, 65);
    let all16 = all15 + list16;
    let done16 = done15.union(set![40int]);
    lemma_join_told_apart(p, all15, list16, done15, set![40int]);
    let list17 = blobs(p);
    lemma_blobs(p);
    lemma_spread_tells_apart(p, list17, 42, 0, 4);
    let all17 = all16 + list17;
    let done17 = done16.union(set![42int]);
    lemma_join_told_apart(p, all16, list17, done16, set![42int]);
    let list18 = dates_to_sets(p);
    lemma_dates_to_sets(p);
    let all18 = all17 + list18;
    let done18 = done17.union(set![50int, 51int, 52int, 53int]);
    lemma_join_told_apart(p, all17, list18, done17, set![50int, 51int, 52int, 53int]);
    let list19 = seq![unbounded_text(p)];
    lemma_unbounded_text(p);
    lemma_spread_tells_apart(p, list19, 35, 0, 1);
    let all19 = all18 + list19;
    let done19 = done18.union(set![35int]);
    lemma_join_told_apart(p, all18, list19, done18, set![35int]);
    let list20 = text_targets(p);
    lemma_text_targets(p);
    let all20 = all19 + list20;
    let done20 = done19.union(set![60int, 61int]);
    lemma_join_told_apart(p, all19, list20, done19, set![60int, 61int]);
    let list21 = char_targets(p);
    lemma_char_targets(p);
    lemma_spread_tells_apart(p, list21, 62, 0, 512);
    let all21 = all20 + list21;
    let done21 = done20.union(set![62int]);
    lemma_join_told_apart(p, all20, list21, done20, set![62int]);
    let list22 = temporal_targets(p, 7);
    lemma_temporal_targets(p, 7);
    lemma_spread_tells_apart(p, list22, 70, 0, 35);
    let all22 = all21 + list22;
    let done22 = done21.union(set![70int]);
    lemma_join_told_apart(p, all21, list22, done21, set![70int]);
    let list23 = own_conversions();
    lemma_own_conversions();
    lemma_spread_tells_apart(p, list23, 80, 0, 200);
    let all23 = all22 + list23;
    let done23 = done22.union(set![80int]);
    lemma_join_told_apart(p, all22, list23, done22, set![80int]);
    done23
}

/// What this Sink publishes stands: the manifest has no fault, no two entries
/// have one code, exactly the exact ones allow keys, and all others have to be
/// confirmed.
pub proof fn law_published_manifests_stand(
    manifest: TargetCapabilityManifest,
    target_build: ServerBuildIdentity,
)
    requires
        published(manifest, target_build),
    ensures
        manifest.fault() is None,
        manifest.requires_primary_key,
        distinct_codes(manifest.capabilities@),
        forall|i: int|
            0 <= i < manifest.capabilities@.len() ==> {
                let rule = (#[trigger] manifest.capabilities@[i]).rule;
                &&& rule.allows_key <==> rule.qualification is Exact
                &&& rule.requires_confirmation <==> !rule.allows_key
            },
{
    let lists = lemma_own_codes();
    lemma_entries_stand(own_profile(), manifest.capabilities@, lists);
    assert forall|i: int| 0 <= i < manifest.capabilities@.len() implies {
        let rule = (#[trigger] manifest.capabilities@[i]).rule;
        &&& rule.allows_key <==> rule.qualification is Exact
        &&& rule.requires_confirmation <==> !rule.allows_key
    } by {
        assert(sound_offer(manifest.capabilities@[i]));
    }
}

/// Manifests for two server builds offer the same and are told apart: another
/// build never inherits the identity of a manifest, barring a collision.
pub proof fn law_builds_share_entries_but_no_identity(
    a: TargetCapabilityManifest,
    b: TargetCapabilityManifest,
    build: ServerBuildIdentity,
    other: ServerBuildIdentity,
)
    requires
        published(a, build),
        published(b, other),
        build.doc() != other.doc(),
        !collide(a.content(), b.content()),
    ensures
        a.target_build == build && b.target_build == other,
        docs(a.capabilities@) == docs(b.capabilities@),
        a.digest@ != b.digest@,
{
    law_another_build_has_another_digest(a, b);
}

} // verus!
