//! The capability manifest that MySQL 5.7 and 8.4 Sinks publish.
use crate::change_event::compatibility::capability::{entries_fault, TargetCapabilityManifest};
use crate::change_event::compatibility::logical_type::LogicalType;
use crate::change_event::compatibility::types::{
    CapabilityEntry, ConnectorIdentity, ServerBuildIdentity, COMPATIBILITY_FORMAT,
};
use crate::json::{docs, Contract, Doc};
use crate::mysql_source_contract::catalog::{
    distinct_codes, lemma_all_integers, lemma_all_large_texts, lemma_binaries, lemma_bit_offers,
    lemma_blobs, lemma_conversion, lemma_dates_to_sets, lemma_decimal_offers, lemma_entries_stand,
    lemma_float_offers, lemma_temporal_targets, lemma_text_targets, lemma_unbounded_text,
    lemma_varchars, ordered_charsets,
};
use crate::mysql_source_contract::codes::{
    charset_place, lemma_join_told_apart, lemma_spread_tells_apart, plain, spread, told_apart,
};
use crate::mysql_source_contract::offers::{
    add_all_large_texts, add_binaries, add_bits, add_blobs, add_dates_to_sets, add_decimals,
    add_deliberate, add_floats, add_integers, add_temporal_targets, add_text_targets,
    add_unbounded_text, add_varchars, all_integers, all_large_texts, binaries, bit_offers, blobs,
    dates_to_sets, decimal_offers, deliberate_offer, float_offers, sound_offer, sound_offers, temporal_targets,
    text_targets,
    unbounded_text, varchars, Profile,
};
use vstd::prelude::*;

verus! {

/// The profile of a connector version.
pub open spec fn shared_profile<'a>(version: &'a str, prefix: &'a str) -> Profile<'a> {
    Profile { version, prefix, evidence: version, range_rule: "range_checked." }
}

/// The entries for truth values and UUIDs. They are deliberate conversions of
/// single fields, and no key can use them.
pub open spec fn shared_conversions(p: Profile<'_>) -> Seq<Doc> {
    seq![
        deliberate_offer(p, LogicalType::Boolean.doc(), "tinyint"@, "boolean.tinyint"@),
        deliberate_offer(p, LogicalType::Boolean.doc(), "tinyint(1)"@, "boolean.tinyint(1)"@),
        deliberate_offer(p, LogicalType::Uuid.doc(), "char(36)"@, "uuid.char(36)"@),
        deliberate_offer(p, LogicalType::Uuid.doc(), "varchar(36)"@, "uuid.varchar(36)"@),
    ]
}

fn add_conversions(list: &mut Vec<CapabilityEntry>, p: &Profile<'_>)
    ensures
        sound_offers(old(list)@) ==> sound_offers(final(list)@),
        docs(final(list)@) == docs(old(list)@) + shared_conversions(*p),
{
    add_deliberate(list, p, LogicalType::Boolean, "tinyint", "boolean.tinyint");
    add_deliberate(list, p, LogicalType::Boolean, "tinyint(1)", "boolean.tinyint(1)");
    add_deliberate(list, p, LogicalType::Uuid, "char(36)", "uuid.char(36)");
    add_deliberate(list, p, LogicalType::Uuid, "varchar(36)", "uuid.varchar(36)");
    assert(docs(list@) =~= docs(old(list)@) + shared_conversions(*p));
}

/// The entries of a manifest, in order.
pub open spec fn shared_offers(p: Profile<'_>) -> Seq<Doc> {
    Seq::<Doc>::empty() + all_integers(p) + decimal_offers(p, false, 65) + decimal_offers(
        p,
        true,
        65,
    ) + float_offers(p) + varchars(p, "utf8mb4"@) + varchars(p, "utf8"@) + varchars(p, "UTF8"@)
        + all_large_texts(p, seq!["utf8mb4", "utf8"]) + seq![unbounded_text(p)] + text_targets(p)
        + temporal_targets(p, 7) + bit_offers(p, 64) + binaries(p) + blobs(p) + dates_to_sets(p)
        + shared_conversions(p)
}

/// The manifest of a connector version.
pub fn capability_manifest(
    connector_version: &str,
    code_prefix: &str,
    target_build: ServerBuildIdentity,
) -> (result: TargetCapabilityManifest)
    ensures
        result.connector.kind@ == "mysql"@,
        result.connector.version@ == connector_version@,
        result.target_build == target_build,
        result.contract@ == COMPATIBILITY_FORMAT@,
        result.requires_primary_key,
        docs(result.capabilities@) == shared_offers(
            shared_profile(connector_version, code_prefix),
        ),
        result.intact(),
        sound_offers(result.capabilities@),
{
    let p = Profile {
        version: connector_version,
        prefix: code_prefix,
        evidence: connector_version,
        range_rule: "range_checked.",
    };
    let mut charsets: Vec<&str> = Vec::new();
    charsets.push("utf8mb4");
    charsets.push("utf8");
    assert(charsets@ =~= seq!["utf8mb4", "utf8"]);
    let mut list: Vec<CapabilityEntry> = Vec::new();
    assert(docs(list@) =~= Seq::<Doc>::empty());
    add_integers(&mut list, &p);
    add_decimals(&mut list, &p, false);
    add_decimals(&mut list, &p, true);
    add_floats(&mut list, &p);
    add_varchars(&mut list, &p, "utf8mb4");
    add_varchars(&mut list, &p, "utf8");
    add_varchars(&mut list, &p, "UTF8");
    add_all_large_texts(&mut list, &p, &charsets);
    let ghost before = docs(list@);
    add_unbounded_text(&mut list, &p);
    assert(docs(list@) =~= before + seq![unbounded_text(p)]);
    add_text_targets(&mut list, &p);
    add_temporal_targets(&mut list, &p);
    add_bits(&mut list, &p);
    add_binaries(&mut list, &p);
    add_blobs(&mut list, &p);
    add_dates_to_sets(&mut list, &p);
    add_conversions(&mut list, &p);
    assert(docs(list@) =~= Seq::<Doc>::empty() + docs(list@));
    TargetCapabilityManifest::new(
        ConnectorIdentity::new("mysql", connector_version),
        target_build,
        list,
        true,
    )
}

proof fn lemma_charsets()
    ensures
        plain("utf8mb4"@) && "utf8mb4"@.len() > 0 && charset_place("utf8mb4"@) == 0,
        plain("utf8"@) && "utf8"@.len() > 0 && charset_place("utf8"@) == 1,
        plain("UTF8"@) && "UTF8"@.len() > 0 && charset_place("UTF8"@) == 4,
{
    reveal_strlit("utf8mb4");
    reveal_strlit("utf8");
    reveal_strlit("UTF8");
}

proof fn lemma_shared_conversions(p: Profile<'_>)
    ensures
        spread(p, shared_conversions(p), 80, 0, 200),
{
    reveal_strlit("boolean");
    reveal_strlit("uuid");
    reveal_strlit("tinyint");
    reveal_strlit("tinyint(1)");
    reveal_strlit("char(36)");
    reveal_strlit("varchar(36)");
    reveal_strlit("boolean.tinyint");
    reveal_strlit("boolean.tinyint(1)");
    reveal_strlit("uuid.char(36)");
    reveal_strlit("uuid.varchar(36)");
    reveal_strlit(".");
    assert("boolean.tinyint"@ =~= "boolean"@ + "."@ + "tinyint"@);
    assert("boolean.tinyint(1)"@ =~= "boolean"@ + "."@ + "tinyint(1)"@);
    assert("uuid.char(36)"@ =~= "uuid"@ + "."@ + "char(36)"@);
    assert("uuid.varchar(36)"@ =~= "uuid"@ + "."@ + "varchar(36)"@);
    assert("uuid"@.len() != "boolean"@.len());
    lemma_conversion(p, LogicalType::Boolean.doc(), "tinyint"@, "boolean"@, "tinyint"@);
    lemma_conversion(p, LogicalType::Boolean.doc(), "tinyint(1)"@, "boolean"@, "tinyint(1)"@);
    lemma_conversion(p, LogicalType::Uuid.doc(), "char(36)"@, "uuid"@, "char(36)"@);
    lemma_conversion(p, LogicalType::Uuid.doc(), "varchar(36)"@, "uuid"@, "varchar(36)"@);
}

/// The codes of the entries of a manifest tell them apart.
pub proof fn lemma_shared_codes(p: Profile<'_>) -> (lists: Set<int>)
    ensures
        told_apart(p, shared_offers(p), lists),
{
    lemma_charsets();
    let charsets = seq!["utf8mb4", "utf8"];
    assert(ordered_charsets(charsets));
    let all0 = Seq::<Doc>::empty();
    let done0 = Set::<int>::empty();
    let list1 = all_integers(p);
    lemma_all_integers(p);
    lemma_spread_tells_apart(p, list1, 1, 0, 520);
    let all1 = all0 + list1;
    let done1 = done0.union(set![1int]);
    lemma_join_told_apart(p, all0, list1, done0, set![1int]);
    let list2 = decimal_offers(p, false, 65);
    lemma_decimal_offers(p, false, 65);
    lemma_spread_tells_apart(p, list2, 2, 0, 6600);
    let all2 = all1 + list2;
    let done2 = done1.union(set![2int]);
    lemma_join_told_apart(p, all1, list2, done1, set![2int]);
    let list3 = decimal_offers(p, true, 65);
    lemma_decimal_offers(p, true, 65);
    lemma_spread_tells_apart(p, list3, 4, 0, 6600);
    let all3 = all2 + list3;
    let done3 = done2.union(set![4int]);
    lemma_join_told_apart(p, all2, list3, done2, set![4int]);
    let list4 = float_offers(p);
    lemma_float_offers(p);
    lemma_spread_tells_apart(p, list4, 3, 0, 3);
    let all4 = all3 + list4;
    let done4 = done3.union(set![3int]);
    lemma_join_told_apart(p, all3, list4, done3, set![3int]);
    let list5 = varchars(p, "utf8mb4"@);
    lemma_varchars(p, "utf8mb4"@);
    lemma_spread_tells_apart(p, list5, 10, 0, 65536);
    let all5 = all4 + list5;
    let done5 = done4.union(set![10int]);
    lemma_join_told_apart(p, all4, list5, done4, set![10int]);
    let list6 = varchars(p, "utf8"@);
    lemma_varchars(p, "utf8"@);
    lemma_spread_tells_apart(p, list6, 11, 0, 65536);
    let all6 = all5 + list6;
    let done6 = done5.union(set![11int]);
    lemma_join_told_apart(p, all5, list6, done5, set![11int]);
    let list7 = varchars(p, "UTF8"@);
    lemma_varchars(p, "UTF8"@);
    lemma_spread_tells_apart(p, list7, 14, 0, 65536);
    let all7 = all6 + list7;
    let done7 = done6.union(set![14int]);
    lemma_join_told_apart(p, all6, list7, done6, set![14int]);
    let list8 = all_large_texts(p, charsets);
    lemma_all_large_texts(p, charsets);
    let all8 = all7 + list8;
    let done8 = done7.union(set![30int, 31int, 32int, 33int]);
    lemma_join_told_apart(p, all7, list8, done7, set![30int, 31int, 32int, 33int]);
    let list9 = seq![unbounded_text(p)];
    lemma_unbounded_text(p);
    lemma_spread_tells_apart(p, list9, 35, 0, 1);
    let all9 = all8 + list9;
    let done9 = done8.union(set![35int]);
    lemma_join_told_apart(p, all8, list9, done8, set![35int]);
    let list10 = text_targets(p);
    lemma_text_targets(p);
    let all10 = all9 + list10;
    let done10 = done9.union(set![60int, 61int]);
    lemma_join_told_apart(p, all9, list10, done9, set![60int, 61int]);
    let list11 = temporal_targets(p, 7);
    lemma_temporal_targets(p, 7);
    lemma_spread_tells_apart(p, list11, 70, 0, 35);
    let all11 = all10 + list11;
    let done11 = done10.union(set![70int]);
    lemma_join_told_apart(p, all10, list11, done10, set![70int]);
    let list12 = bit_offers(p, 64);
    lemma_bit_offers(p, 64);
    lemma_spread_tells_apart(p, list12, 40, 0, 65);
    let all12 = all11 + list12;
    let done12 = done11.union(set![40int]);
    lemma_join_told_apart(p, all11, list12, done11, set![40int]);
    let list13 = binaries(p);
    lemma_binaries(p);
    lemma_spread_tells_apart(p, list13, 41, 0, 131072);
    let all13 = all12 + list13;
    let done13 = done12.union(set![41int]);
    lemma_join_told_apart(p, all12, list13, done12, set![41int]);
    let list14 = blobs(p);
    lemma_blobs(p);
    lemma_spread_tells_apart(p, list14, 42, 0, 4);
    let all14 = all13 + list14;
    let done14 = done13.union(set![42int]);
    lemma_join_told_apart(p, all13, list14, done13, set![42int]);
    let list15 = dates_to_sets(p);
    lemma_dates_to_sets(p);
    let all15 = all14 + list15;
    let done15 = done14.union(set![50int, 51int, 52int, 53int]);
    lemma_join_told_apart(p, all14, list15, done14, set![50int, 51int, 52int, 53int]);
    let list16 = shared_conversions(p);
    lemma_shared_conversions(p);
    lemma_spread_tells_apart(p, list16, 80, 0, 200);
    let all16 = all15 + list16;
    let done16 = done15.union(set![80int]);
    lemma_join_told_apart(p, all15, list16, done15, set![80int]);
    done16
}

/// The manifest of every connector version stands: no entry has a fault, no two
/// have one code, exactly the exact ones allow keys, and all others have to be
/// confirmed.
pub proof fn law_published_entries_stand(
    entries: Seq<CapabilityEntry>,
    connector_version: &str,
    code_prefix: &str,
)
    requires
        docs(entries) == shared_offers(shared_profile(connector_version, code_prefix)),
        sound_offers(entries),
    ensures
        entries_fault(entries, 0) is None,
        distinct_codes(entries),
        forall|i: int|
            0 <= i < entries.len() ==> {
                &&& (#[trigger] entries[i]).rule.allows_key <==> entries[i].rule.qualification
                    is Exact
                &&& entries[i].rule.requires_confirmation <==> !entries[i].rule.allows_key
            },
{
    let p = shared_profile(connector_version, code_prefix);
    let lists = lemma_shared_codes(p);
    lemma_entries_stand(p, entries, lists);
    assert forall|i: int| 0 <= i < entries.len() implies {
        &&& (#[trigger] entries[i]).rule.allows_key <==> entries[i].rule.qualification is Exact
        &&& entries[i].rule.requires_confirmation <==> !entries[i].rule.allows_key
    } by {
        assert(sound_offer(entries[i]));
    }
}

} // verus!
