//! The entries of MySQL capability manifests.
//!
//! Each versioned Sink publishes entries under its own identity; the rules by
//! which an entry is named and described are the same.
use crate::change_event::compatibility::logical_type::{
    family_members, DuplicateKeyPolicy, JsonProfile, LengthUnit, LogicalType,
};
use crate::change_event::compatibility::planner::construction::representation_doc;
use crate::change_event::compatibility::planner::representation::{flag_text, spell_flag, Entries};
use crate::change_event::compatibility::types::{
    blank, lemma_not_blank, CapabilityEntry, ConversionRule, FailurePolicy, OptionSpec, OptionValueKind, PresenceState,
    QualificationLevel, RiskLevel, TargetRepresentation,
};
use crate::change_event::model::Operation;
use crate::encoding::digest_spelling;
use crate::json::{
    array, digest, digest_json, docs, docs_of, texts_doc, with_present, Contract, Doc, Json,
};
use crate::number::{decimal, decimal_text};
use crate::parameters::{with_parameter, Parameters};
use crate::text::{concat, concat3, concat4, concat5};
use vstd::prelude::*;

verus! {

/// Under which identity a Sink publishes its entries.
pub struct Profile<'a> {
    /// The version of the connector.
    pub version: &'a str,
    /// What the codes of the entries begin with.
    pub prefix: &'a str,
    /// What the evidence of an entry is bound to.
    pub evidence: &'a str,
    /// What stands before the code in the name of a range-checked rule.
    pub range_rule: &'a str,
}

// ---------------------------------------------------------------------------
// One entry
// ---------------------------------------------------------------------------

/// The operations that every entry supports.
pub open spec fn all_operations() -> Seq<Doc> {
    seq![Operation::Insert.doc(), Operation::Update.doc(), Operation::Delete.doc()]
}

pub(crate) fn operations() -> (result: Vec<Operation>)
    ensures
        docs(result@) == all_operations(),
        result@ == seq![Operation::Insert, Operation::Update, Operation::Delete],
{
    let mut result: Vec<Operation> = Vec::new();
    result.push(Operation::Insert);
    result.push(Operation::Update);
    result.push(Operation::Delete);
    assert(docs(result@) =~= all_operations());
    result
}

/// The presences that every entry supports.
pub open spec fn all_presences() -> Seq<Doc> {
    seq![
        PresenceState::Value.doc(),
        PresenceState::Null.doc(),
        PresenceState::Unchanged.doc(),
        PresenceState::Unavailable.doc(),
        PresenceState::GeneratedObservation.doc(),
    ]
}

pub(crate) fn presence() -> (result: Vec<PresenceState>)
    ensures
        docs(result@) == all_presences(),
        result@.len() == 5,
{
    let mut result: Vec<PresenceState> = Vec::new();
    result.push(PresenceState::Value);
    result.push(PresenceState::Null);
    result.push(PresenceState::Unchanged);
    result.push(PresenceState::Unavailable);
    result.push(PresenceState::GeneratedObservation);
    assert(docs(result@) =~= all_presences());
    result
}

/// The risk of a rule, by its qualification.
pub open spec fn risk_of(level: QualificationLevel) -> RiskLevel {
    match level {
        QualificationLevel::Exact => RiskLevel::NoRisk,
        QualificationLevel::RangeChecked => RiskLevel::Medium,
        _ => RiskLevel::High,
    }
}

/// The code of the risk of a rule, by its qualification.
pub open spec fn risk_code_of(p: Profile<'_>, level: QualificationLevel) -> Option<Doc> {
    match level {
        QualificationLevel::Exact => None,
        QualificationLevel::RangeChecked => Some(Doc::Str(p.prefix@ + ".range_checked"@)),
        _ => Some(Doc::Str(p.prefix@ + ".explicit_conversion"@)),
    }
}

fn read_risk_code(p: &Profile<'_>, level: QualificationLevel) -> (result: Option<String>)
    ensures
        risk_code_of(*p, level) == match result {
            Some(code) => Some(Doc::Str(code@)),
            None => None,
        },
{
    match level {
        QualificationLevel::Exact => None,
        QualificationLevel::RangeChecked => Some(concat(p.prefix, ".range_checked")),
        _ => Some(concat(p.prefix, ".explicit_conversion")),
    }
}

/// The digest of the evidence of an entry.
pub open spec fn evidence_digest(p: Profile<'_>, code: Seq<char>, logical: Doc, target: Doc) -> Seq<
    char,
> {
    digest(Doc::Arr(seq![Doc::Str(p.evidence@), Doc::Str(code), logical, target]))
}

fn evidence_digest_of(
    p: &Profile<'_>,
    code: &str,
    logical: &LogicalType,
    target: &TargetRepresentation,
) -> (result: String)
    ensures
        result@ == evidence_digest(*p, code@, logical.doc(), target.doc()),
        digest_spelling(result@),
{
    let mut items: Vec<Json> = Vec::new();
    items.push(Json::Text(p.evidence.to_owned()));
    items.push(Json::Text(code.to_owned()));
    items.push(logical.to_json());
    items.push(target.to_json());
    assert(docs_of(items@) =~= seq![
        Doc::Str(p.evidence@),
        Doc::Str(code@),
        logical.doc(),
        target.doc(),
    ]);
    digest_json(&array(items))
}

/// The members, followed by a list of forms where it is not empty.
pub open spec fn with_present_docs(
    members: Seq<(Seq<char>, Doc)>,
    key: Seq<char>,
    list: Seq<Doc>,
) -> Seq<(Seq<char>, Doc)> {
    if list.len() > 0 {
        members.push((key, Doc::Arr(list)))
    } else {
        members
    }
}

/// The form of the rule of an entry.
#[verifier::opaque]
pub open spec fn rule_doc(
    p: Profile<'_>,
    id: Seq<char>,
    version: Seq<char>,
    level: QualificationLevel,
    options: Seq<Doc>,
    evidence: Seq<char>,
) -> Doc {
    let members = Seq::<(Seq<char>, Doc)>::empty();
    let members = members.push(("id"@, Doc::Str(id)));
    let members = members.push(("version"@, Doc::Str(version)));
    let members = members.push(("qualification"@, level.doc()));
    let members = members.push(("risk"@, risk_of(level).doc()));
    let members = with_present(members, "risk_code"@, risk_code_of(p, level));
    let members = members.push(("requires_confirmation"@, Doc::Bool(!(level is Exact))));
    let members = with_present_docs(members, "options"@, options);
    let members = members.push(("supported_operations"@, Doc::Arr(all_operations())));
    let members = members.push(("supported_presence"@, Doc::Arr(all_presences())));
    let members = members.push(("allows_key"@, Doc::Bool(level is Exact)));
    let members = members.push(("failure_policy"@, FailurePolicy::Reject.doc()));
    let members = members.push(("evidence_digest"@, Doc::Str(evidence)));
    Doc::Obj(members)
}

/// The form of an entry.
#[verifier::opaque]
pub open spec fn offer_doc(
    p: Profile<'_>,
    code: Seq<char>,
    logical: Doc,
    target: Doc,
    rule_id: Seq<char>,
    rule_version: Seq<char>,
    level: QualificationLevel,
    options: Seq<Doc>,
) -> Doc {
    let members = Seq::<(Seq<char>, Doc)>::empty();
    let members = members.push(("code"@, Doc::Str(code)));
    let members = members.push(("source_logical_type"@, logical));
    let members = members.push(("target"@, target));
    let members = members.push(
        (
            "rule"@,
            rule_doc(
                p,
                rule_id,
                rule_version,
                level,
                options,
                evidence_digest(p, code, logical, target),
            ),
        ),
    );
    let members = members.push(("supported_operations"@, Doc::Arr(all_operations())));
    let members = members.push(("supported_presence"@, Doc::Arr(all_presences())));
    Doc::Obj(members)
}

/// An entry names what stands behind it: only an exact entry allows keys, and
/// every other has to be confirmed.
pub open spec fn sound_offer(entry: CapabilityEntry) -> bool {
    &&& !(entry.rule.qualification is Unsupported)
    &&& entry.rule.allows_key <==> entry.rule.qualification is Exact
    &&& entry.rule.requires_confirmation <==> !entry.rule.allows_key
    &&& entry.rule.supported_operations@.len() == 3
    &&& entry.rule.supported_presence@.len() == 5
    &&& !blank(entry.rule.id@)
    &&& !blank(entry.rule.version@)
    &&& digest_spelling(entry.rule.evidence_digest@)
}

pub open spec fn sound_offers(list: Seq<CapabilityEntry>) -> bool {
    forall|i: int| 0 <= i < list.len() ==> sound_offer(#[trigger] list[i])
}

fn make_offer(
    p: &Profile<'_>,
    code: String,
    logical: LogicalType,
    target: TargetRepresentation,
    rule_id: String,
    rule_version: String,
    level: QualificationLevel,
    options: Vec<OptionSpec>,
) -> (result: CapabilityEntry)
    requires
        !(level is Unsupported),
        !blank(rule_id@),
        !blank(rule_version@),
    ensures
        sound_offer(result),
        result.doc() == offer_doc(
            *p,
            code@,
            logical.doc(),
            target.doc(),
            rule_id@,
            rule_version@,
            level,
            docs(options@),
        ),
{
    let evidence = evidence_digest_of(p, code.as_str(), &logical, &target);
    let exact = matches!(level, QualificationLevel::Exact);
    let risk = match level {
        QualificationLevel::Exact => RiskLevel::NoRisk,
        QualificationLevel::RangeChecked => RiskLevel::Medium,
        _ => RiskLevel::High,
    };
    let rule = ConversionRule {
        id: rule_id,
        version: rule_version,
        qualification: level,
        risk,
        risk_code: read_risk_code(p, level),
        requires_confirmation: !exact,
        options,
        supported_operations: operations(),
        supported_presence: presence(),
        allows_key: exact,
        failure_policy: FailurePolicy::Reject,
        evidence_digest: evidence,
    };
    proof {
        reveal(rule_doc);
        reveal(offer_doc);
        assert(rule.doc() == rule_doc(
            *p,
            rule_id@,
            rule_version@,
            level,
            docs(options@),
            evidence@,
        ));
    }
    CapabilityEntry {
        code,
        source_logical_type: logical,
        target,
        rule,
        supported_operations: operations(),
        supported_presence: presence(),
    }
}

fn add_offer(list: &mut Vec<CapabilityEntry>, entry: CapabilityEntry)
    requires
        sound_offer(entry),
    ensures
        sound_offers(old(list)@) ==> sound_offers(final(list)@),
        docs(final(list)@) == docs(old(list)@).push(entry.doc()),
{
    list.push(entry);
    assert(docs(list@) =~= docs(old(list)@).push(entry.doc()));
}

// ---------------------------------------------------------------------------
// Kinds of entries
// ---------------------------------------------------------------------------

proof fn lemma_conversion_id(prefix: Seq<char>, rest: Seq<char>)
    ensures
        !blank(prefix + ".conversion."@ + rest),
{
    reveal_strlit(".conversion.");
    lemma_not_blank(prefix + ".conversion."@ + rest, prefix.len() as int);
}

/// The version of the rules of a profile.
pub open spec fn rule_version(p: Profile<'_>, revision: Seq<char>) -> Seq<char> {
    "mysql-"@ + p.version@ + ".sink-conversion."@ + revision
}

fn rule_version_of(p: &Profile<'_>, revision: &str) -> (result: String)
    ensures
        result@ == rule_version(*p, revision@),
        !blank(result@),
{
    proof {
        reveal_strlit("mysql-");
        lemma_not_blank(rule_version(*p, revision@), 0);
    }
    concat4("mysql-", p.version, ".sink-conversion.", revision)
}

/// An entry that keeps every value.
pub open spec fn exact_offer(
    p: Profile<'_>,
    logical: Doc,
    native: Seq<char>,
    parameters: Entries,
    suffix: Seq<char>,
    revision: Seq<char>,
) -> Doc {
    offer_doc(
        p,
        p.prefix@ + ".exact."@ + suffix,
        logical,
        representation_doc(native, parameters),
        p.prefix@ + ".conversion."@ + suffix,
        rule_version(p, revision),
        QualificationLevel::Exact,
        Seq::empty(),
    )
}

fn add_exact_target(
    list: &mut Vec<CapabilityEntry>,
    p: &Profile<'_>,
    logical: LogicalType,
    native: String,
    parameters: Parameters,
    suffix: &str,
    revision: &str,
)
    ensures
        sound_offers(old(list)@) ==> sound_offers(final(list)@),
        docs(final(list)@) == docs(old(list)@).push(
            exact_offer(
                *p,
                logical.doc(),
                native@,
                parameters.entries(),
                suffix@,
                revision@,
            ),
        ),
{
    let options: Vec<OptionSpec> = Vec::new();
    assert(docs(options@) =~= Seq::<Doc>::empty());
    proof {
        lemma_conversion_id(p.prefix@, suffix@);
    }
    add_offer(
        list,
        make_offer(
            p,
            concat3(p.prefix, ".exact.", suffix),
            logical,
            TargetRepresentation { native_type: native, parameters },
            concat3(p.prefix, ".conversion.", suffix),
            rule_version_of(p, revision),
            QualificationLevel::Exact,
            options,
        ),
    );
}

/// An entry without parameters that keeps every value.
pub open spec fn plain_offer(p: Profile<'_>, logical: Doc, native: Seq<char>, suffix: Seq<char>) -> Doc {
    exact_offer(p, logical, native, Seq::empty(), suffix, "v1"@)
}

pub(crate) fn add_exact(
    list: &mut Vec<CapabilityEntry>,
    p: &Profile<'_>,
    logical: LogicalType,
    native: String,
    suffix: &str,
)
    ensures
        sound_offers(old(list)@) ==> sound_offers(final(list)@),
        docs(final(list)@) == docs(old(list)@).push(
            plain_offer(*p, logical.doc(), native@, suffix@),
        ),
{
    add_exact_target(list, p, logical, native, Parameters::new(), suffix, "v1");
}

/// An entry that converts deliberately, without parameters.
pub open spec fn deliberate_offer(
    p: Profile<'_>,
    logical: Doc,
    native: Seq<char>,
    suffix: Seq<char>,
) -> Doc {
    offer_doc(
        p,
        p.prefix@ + ".explicit."@ + suffix,
        logical,
        representation_doc(native, Seq::empty()),
        p.prefix@ + ".conversion."@ + suffix,
        rule_version(p, "v1"@),
        QualificationLevel::ExplicitConversion,
        Seq::empty(),
    )
}

pub(crate) fn add_deliberate(
    list: &mut Vec<CapabilityEntry>,
    p: &Profile<'_>,
    logical: LogicalType,
    native: &str,
    suffix: &str,
)
    ensures
        sound_offers(old(list)@) ==> sound_offers(final(list)@),
        docs(final(list)@) == docs(old(list)@).push(
            deliberate_offer(*p, logical.doc(), native@, suffix@),
        ),
{
    let options: Vec<OptionSpec> = Vec::new();
    assert(docs(options@) =~= Seq::<Doc>::empty());
    proof {
        lemma_conversion_id(p.prefix@, suffix@);
    }
    add_offer(
        list,
        make_offer(
            p,
            concat3(p.prefix, ".explicit.", suffix),
            logical,
            TargetRepresentation::new(native),
            concat3(p.prefix, ".conversion.", suffix),
            rule_version_of(p, "v1"),
            QualificationLevel::ExplicitConversion,
            options,
        ),
    );
}

/// An entry that converts by the parameters that a route chooses.
pub open spec fn explicit_offer(
    p: Profile<'_>,
    logical: Doc,
    native: Seq<char>,
    parameters: Entries,
    suffix: Seq<char>,
    options: Seq<Doc>,
) -> Doc {
    let code = p.prefix@ + ".explicit."@ + suffix;
    offer_doc(
        p,
        code,
        logical,
        representation_doc(native, parameters),
        p.prefix@ + ".conversion."@ + code,
        rule_version(p, "v2"@),
        QualificationLevel::ExplicitConversion,
        options,
    )
}

fn add_explicit(
    list: &mut Vec<CapabilityEntry>,
    p: &Profile<'_>,
    logical: LogicalType,
    native: &str,
    parameters: Parameters,
    suffix: &str,
    options: Vec<OptionSpec>,
)
    ensures
        sound_offers(old(list)@) ==> sound_offers(final(list)@),
        docs(final(list)@) == docs(old(list)@).push(
            explicit_offer(
                *p,
                logical.doc(),
                native@,
                parameters.entries(),
                suffix@,
                docs(options@),
            ),
        ),
{
    let code = concat3(p.prefix, ".explicit.", suffix);
    let rule_id = concat3(p.prefix, ".conversion.", code.as_str());
    proof {
        lemma_conversion_id(p.prefix@, code@);
    }
    add_offer(
        list,
        make_offer(
            p,
            code,
            logical,
            TargetRepresentation { native_type: native.to_owned(), parameters },
            rule_id,
            rule_version_of(p, "v2"),
            QualificationLevel::ExplicitConversion,
            options,
        ),
    );
}

/// An entry that checks the range of every value.
pub open spec fn range_offer(
    p: Profile<'_>,
    logical: Doc,
    native: Seq<char>,
    parameters: Entries,
    suffix: Seq<char>,
) -> Doc {
    let code = p.prefix@ + ".range_checked."@ + suffix;
    offer_doc(
        p,
        code,
        logical,
        representation_doc(native, parameters),
        p.prefix@ + ".conversion."@ + p.range_rule@ + code,
        rule_version(p, "v1"@),
        QualificationLevel::RangeChecked,
        Seq::empty(),
    )
}

fn add_range(
    list: &mut Vec<CapabilityEntry>,
    p: &Profile<'_>,
    logical: LogicalType,
    native: String,
    parameters: Parameters,
    suffix: &str,
)
    ensures
        sound_offers(old(list)@) ==> sound_offers(final(list)@),
        docs(final(list)@) == docs(old(list)@).push(
            range_offer(*p, logical.doc(), native@, parameters.entries(), suffix@),
        ),
{
    let code = concat3(p.prefix, ".range_checked.", suffix);
    let rule_id = concat4(p.prefix, ".conversion.", p.range_rule, code.as_str());
    proof {
        lemma_conversion_id(p.prefix@, p.range_rule@ + code@);
        assert(rule_id@ =~= p.prefix@ + ".conversion."@ + (p.range_rule@ + code@));
    }
    let options: Vec<OptionSpec> = Vec::new();
    assert(docs(options@) =~= Seq::<Doc>::empty());
    add_offer(
        list,
        make_offer(
            p,
            code,
            logical,
            TargetRepresentation { native_type: native, parameters },
            rule_id,
            rule_version_of(p, "v1"),
            QualificationLevel::RangeChecked,
            options,
        ),
    );
}

// ---------------------------------------------------------------------------
// Options
// ---------------------------------------------------------------------------

/// The form of an option.
pub open spec fn option_doc(
    name: Seq<char>,
    kind: OptionValueKind,
    required: bool,
    default: Option<Seq<char>>,
    allowed: Seq<Seq<char>>,
) -> Doc {
    let members = Seq::<(Seq<char>, Doc)>::empty();
    let members = members.push(("name"@, Doc::Str(name)));
    let members = members.push(("value_kind"@, kind.doc()));
    let members = members.push(("required"@, Doc::Bool(required)));
    let members = with_present(
        members,
        "default"@,
        match default {
            Some(text) => Some(Doc::Str(text)),
            None => None,
        },
    );
    let members = if allowed.len() > 0 {
        members.push(
            ("allowed_values"@, Doc::Arr(Seq::new(allowed.len(), |i: int| Doc::Str(allowed[i])))),
        )
    } else {
        members
    };
    Doc::Obj(members)
}

fn make_option(
    name: &str,
    kind: OptionValueKind,
    required: bool,
    default: Option<&str>,
    allowed: &Vec<&str>,
) -> (result: OptionSpec)
    ensures
        result.doc() == option_doc(
            name@,
            kind,
            required,
            match default {
                Some(text) => Some(text@),
                None => None,
            },
            Seq::new(allowed@.len(), |i: int| allowed@[i]@),
        ),
{
    let ghost wanted = Seq::new(allowed@.len(), |i: int| allowed@[i]@);
    let mut allowed_values: Vec<String> = Vec::new();
    let mut i: usize = 0;
    while i < allowed.len()
        invariant
            i <= allowed@.len(),
            allowed_values@.len() == i,
            forall|k: int| 0 <= k < i ==> (#[trigger] allowed_values@[k])@ == allowed@[k]@,
        decreases allowed@.len() - i,
    {
        allowed_values.push(allowed[i].to_owned());
        i += 1;
    }
    proof {
        let spelled = Seq::new(wanted.len(), |i: int| Doc::Str(wanted[i]));
        assert(texts_doc(allowed_values@)->Arr_0 =~= spelled);
    }
    let default = match default {
        Some(text) => Some(text.to_owned()),
        None => None,
    };
    OptionSpec { name: name.to_owned(), value_kind: kind, required, default, allowed_values }
}

/// An option that takes any value.
pub open spec fn open_option(name: Seq<char>, kind: OptionValueKind, required: bool) -> Doc {
    option_doc(name, kind, required, None, Seq::empty())
}

fn make_open_option(name: &str, kind: OptionValueKind, required: bool) -> (result: OptionSpec)
    ensures
        result.doc() == open_option(name@, kind, required),
{
    let allowed: Vec<&str> = Vec::new();
    assert(Seq::new(allowed@.len(), |i: int| allowed@[i]@) =~= Seq::<Seq<char>>::empty());
    make_option(name, kind, required, None, &allowed)
}

/// An option with one value.
pub open spec fn fixed_option(name: Seq<char>, value: Seq<char>) -> Doc {
    option_doc(name, OptionValueKind::Enum, false, Some(value), seq![value])
}

fn make_fixed_option(name: &str, value: &str) -> (result: OptionSpec)
    ensures
        result.doc() == fixed_option(name@, value@),
{
    let mut allowed: Vec<&str> = Vec::new();
    allowed.push(value);
    assert(Seq::new(allowed@.len(), |i: int| allowed@[i]@) =~= seq![value@]);
    make_option(name, OptionValueKind::Enum, false, Some(value), &allowed)
}

fn add_option(list: &mut Vec<OptionSpec>, option: OptionSpec)
    ensures
        docs(final(list)@) == docs(old(list)@).push(option.doc()),
{
    list.push(option);
    assert(docs(list@) =~= docs(old(list)@).push(option.doc()));
}

/// The options of a conversion of text.
pub open spec fn text_options() -> Seq<Doc> {
    Seq::<Doc>::empty().push(
        option_doc(
            "target_charset"@,
            OptionValueKind::String,
            true,
            None,
            seq!["utf8"@, "utf8mb4"@, "UTF8"@, "ascii"@, "latin1"@],
        ),
    ).push(open_option("target_length"@, OptionValueKind::String, true)).push(
        option_doc(
            "target_length_unit"@,
            OptionValueKind::Enum,
            true,
            None,
            seq!["bytes"@, "characters"@],
        ),
    ).push(open_option("target_collation"@, OptionValueKind::String, true)).push(
        fixed_option("encoding_policy"@, "strict"@),
    ).push(fixed_option("length_policy"@, "reject"@)).push(
        fixed_option("collation_policy"@, "target"@),
    )
}

fn make_text_options() -> (result: Vec<OptionSpec>)
    ensures
        docs(result@) == text_options(),
{
    let mut charsets: Vec<&str> = Vec::new();
    charsets.push("utf8");
    charsets.push("utf8mb4");
    charsets.push("UTF8");
    charsets.push("ascii");
    charsets.push("latin1");
    let mut units: Vec<&str> = Vec::new();
    units.push("bytes");
    units.push("characters");
    assert(Seq::new(charsets@.len(), |i: int| charsets@[i]@) =~= seq![
        "utf8"@,
        "utf8mb4"@,
        "UTF8"@,
        "ascii"@,
        "latin1"@,
    ]);
    assert(Seq::new(units@.len(), |i: int| units@[i]@) =~= seq!["bytes"@, "characters"@]);
    let mut result: Vec<OptionSpec> = Vec::new();
    assert(docs(result@) =~= Seq::<Doc>::empty());
    add_option(
        &mut result,
        make_option("target_charset", OptionValueKind::String, true, None, &charsets),
    );
    add_option(
        &mut result,
        make_open_option("target_length", OptionValueKind::String, true),
    );
    add_option(
        &mut result,
        make_option("target_length_unit", OptionValueKind::Enum, true, None, &units),
    );
    add_option(
        &mut result,
        make_open_option("target_collation", OptionValueKind::String, true),
    );
    add_option(&mut result, make_fixed_option("encoding_policy", "strict"));
    add_option(&mut result, make_fixed_option("length_policy", "reject"));
    add_option(&mut result, make_fixed_option("collation_policy", "target"));
    result
}

/// The options of writing JSON as text. `raw_text` is declared so that the
/// planner can say why it is not available: no event holds a source spelling.
pub open spec fn json_text_options() -> Seq<Doc> {
    text_options().push(
        option_doc(
            "json_strategy"@,
            OptionValueKind::Enum,
            true,
            None,
            seq!["normalized_text"@, "raw_text"@],
        ),
    )
}

fn make_json_text_options() -> (result: Vec<OptionSpec>)
    ensures
        docs(result@) == json_text_options(),
{
    let mut strategies: Vec<&str> = Vec::new();
    strategies.push("normalized_text");
    strategies.push("raw_text");
    assert(Seq::new(strategies@.len(), |i: int| strategies@[i]@) =~= seq![
        "normalized_text"@,
        "raw_text"@,
    ]);
    let mut result = make_text_options();
    add_option(
        &mut result,
        make_option("json_strategy", OptionValueKind::Enum, true, None, &strategies),
    );
    result
}

/// The options of a conversion of temporal values.
pub open spec fn temporal_options() -> Seq<Doc> {
    Seq::<Doc>::empty().push(
        open_option("target_precision"@, OptionValueKind::Integer, true),
    ).push(
        option_doc(
            "temporal_strategy"@,
            OptionValueKind::Enum,
            true,
            None,
            seq![
                "preserve_local"@,
                "preserve_absolute"@,
                "preserve_duration"@,
                "local_to_absolute"@,
                "absolute_to_local"@,
            ],
        ),
    ).push(open_option("time_zone"@, OptionValueKind::String, false)).push(
        fixed_option("precision_policy"@, "reject"@),
    )
}

fn make_temporal_options() -> (result: Vec<OptionSpec>)
    ensures
        docs(result@) == temporal_options(),
{
    let mut strategies: Vec<&str> = Vec::new();
    strategies.push("preserve_local");
    strategies.push("preserve_absolute");
    strategies.push("preserve_duration");
    strategies.push("local_to_absolute");
    strategies.push("absolute_to_local");
    assert(Seq::new(strategies@.len(), |i: int| strategies@[i]@) =~= seq![
        "preserve_local"@,
        "preserve_absolute"@,
        "preserve_duration"@,
        "local_to_absolute"@,
        "absolute_to_local"@,
    ]);
    let mut result: Vec<OptionSpec> = Vec::new();
    assert(docs(result@) =~= Seq::<Doc>::empty());
    add_option(
        &mut result,
        make_open_option("target_precision", OptionValueKind::Integer, true),
    );
    add_option(
        &mut result,
        make_option("temporal_strategy", OptionValueKind::Enum, true, None, &strategies),
    );
    add_option(&mut result, make_open_option("time_zone", OptionValueKind::String, false));
    add_option(&mut result, make_fixed_option("precision_policy", "reject"));
    result
}

// ---------------------------------------------------------------------------
// Numbers
// ---------------------------------------------------------------------------

/// A type with one parameter.
pub open spec fn sized(name: Seq<char>, size: nat) -> Seq<char> {
    name + "("@ + decimal(size) + ")"@
}

pub(crate) fn sized_type(name: &str, size: u64) -> (result: String)
    ensures
        result@ == sized(name@, size as nat),
{
    let digits = decimal_text(size as u128);
    concat4(name, "(", digits.as_str(), ")")
}

/// What the suffix of an integer entry begins with.
pub open spec fn integer_suffix(signed: bool, bits: u8) -> Seq<char> {
    "integer."@ + decimal(bits as nat) + if signed {
        ".signed"@
    } else {
        ".unsigned"@
    }
}

/// The parameters of a range-checked integer.
pub open spec fn integer_range(signed: bool, bits: u8) -> Entries {
    let e = with_parameter(Seq::empty(), "range_kind"@, "integer"@);
    let e = with_parameter(e, "target_signed"@, flag_text(signed));
    with_parameter(e, "target_bits"@, decimal(bits as nat))
}

/// The entries of an integer type of one signedness.
pub open spec fn signed_offers(p: Profile<'_>, signed: bool, bits: u8, native: Seq<char>) -> Seq<Doc> {
    let logical = (LogicalType::Integer { signed, bits }).doc();
    let suffix = integer_suffix(signed, bits);
    let target = if signed {
        native
    } else {
        native + " unsigned"@
    };
    let displayed = if signed {
        native + "(11)"@
    } else {
        native + "(11) unsigned"@
    };
    seq![
        plain_offer(p, logical, target, suffix),
        plain_offer(p, logical, displayed, suffix + ".display_width_11"@),
        range_offer(
            p,
            (LogicalType::Integer { signed: true, bits: 0 }).doc(),
            target,
            integer_range(signed, bits),
            suffix + ".domain"@,
        ),
    ]
}

fn add_signed(
    list: &mut Vec<CapabilityEntry>,
    p: &Profile<'_>,
    signed: bool,
    bits: u8,
    native: &str,
)
    ensures
        sound_offers(old(list)@) ==> sound_offers(final(list)@),
        docs(final(list)@) == docs(old(list)@) + signed_offers(*p, signed, bits, native@),
{
    let digits = decimal_text(bits as u128);
    let suffix = concat3(
        "integer.",
        digits.as_str(),
        if signed {
            ".signed"
        } else {
            ".unsigned"
        },
    );
    let target = if signed {
        native.to_owned()
    } else {
        concat(native, " unsigned")
    };
    let displayed = if signed {
        concat(native, "(11)")
    } else {
        concat(native, "(11) unsigned")
    };
    let display_suffix = concat(suffix.as_str(), ".display_width_11");
    let domain_suffix = concat(suffix.as_str(), ".domain");
    let mut parameters = Parameters::new();
    parameters.insert("range_kind", "integer");
    parameters.insert("target_signed", spell_flag(signed));
    parameters.insert("target_bits", digits.as_str());
    add_exact(list, p, LogicalType::integer(signed, bits), target.clone(), suffix.as_str());
    // MySQL commonly reports an integer display width. It does not change the
    // numeric domain, so that catalog spelling is qualified explicitly.
    add_exact(list, p, LogicalType::integer(signed, bits), displayed, display_suffix.as_str());
    add_range(
        list,
        p,
        LogicalType::integer(true, 0),
        target,
        parameters,
        domain_suffix.as_str(),
    );
    assert(docs(list@) =~= docs(old(list)@) + signed_offers(*p, signed, bits, native@));
}

/// The entries of an integer type.
pub open spec fn integer_offers(p: Profile<'_>, bits: u8, native: Seq<char>) -> Seq<Doc> {
    signed_offers(p, true, bits, native) + signed_offers(p, false, bits, native)
}

fn add_integer(list: &mut Vec<CapabilityEntry>, p: &Profile<'_>, bits: u8, native: &str)
    ensures
        sound_offers(old(list)@) ==> sound_offers(final(list)@),
        docs(final(list)@) == docs(old(list)@) + integer_offers(*p, bits, native@),
{
    add_signed(list, p, true, bits, native);
    add_signed(list, p, false, bits, native);
    assert(docs(list@) =~= docs(old(list)@) + integer_offers(*p, bits, native@));
}

/// The entries of all integer types.
pub open spec fn all_integers(p: Profile<'_>) -> Seq<Doc> {
    integer_offers(p, 8, "tinyint"@) + integer_offers(p, 16, "smallint"@) + integer_offers(
        p,
        24,
        "mediumint"@,
    ) + integer_offers(p, 32, "int"@) + integer_offers(p, 64, "bigint"@)
}

pub(crate) fn add_integers(list: &mut Vec<CapabilityEntry>, p: &Profile<'_>)
    ensures
        sound_offers(old(list)@) ==> sound_offers(final(list)@),
        docs(final(list)@) == docs(old(list)@) + all_integers(*p),
{
    add_integer(list, p, 8, "tinyint");
    add_integer(list, p, 16, "smallint");
    add_integer(list, p, 24, "mediumint");
    add_integer(list, p, 32, "int");
    add_integer(list, p, 64, "bigint");
    assert(docs(list@) =~= docs(old(list)@) + all_integers(*p));
}

/// A decimal type.
pub open spec fn decimal_native(precision: nat, scale: nat) -> Seq<char> {
    "decimal("@ + decimal(precision) + ","@ + decimal(scale) + ")"@
}

pub open spec fn decimal_suffix(precision: nat, scale: nat) -> Seq<char> {
    "decimal."@ + decimal(precision) + "."@ + decimal(scale)
}

/// The parameters of a range-checked decimal.
pub open spec fn decimal_range(precision: nat, scale: nat) -> Entries {
    let e = with_parameter(Seq::empty(), "range_kind"@, "decimal"@);
    let e = with_parameter(e, "target_precision"@, decimal(precision));
    with_parameter(e, "target_scale"@, decimal(scale))
}

/// The entry of one decimal type.
pub open spec fn decimal_offer(p: Profile<'_>, ranged: bool, precision: u16, scale: u16) -> Doc {
    let native = decimal_native(precision as nat, scale as nat);
    let suffix = decimal_suffix(precision as nat, scale as nat);
    if ranged {
        range_offer(
            p,
            (LogicalType::Decimal { precision: 0, scale: 0 }).doc(),
            native,
            decimal_range(precision as nat, scale as nat),
            suffix,
        )
    } else {
        plain_offer(
            p,
            (LogicalType::Decimal { precision, scale: scale as i32 }).doc(),
            native,
            suffix,
        )
    }
}

fn add_decimal(
    list: &mut Vec<CapabilityEntry>,
    p: &Profile<'_>,
    ranged: bool,
    precision: u16,
    scale: u16,
)
    ensures
        sound_offers(old(list)@) ==> sound_offers(final(list)@),
        docs(final(list)@) == docs(old(list)@).push(decimal_offer(*p, ranged, precision, scale)),
{
    let digits = decimal_text(precision as u128);
    let places = decimal_text(scale as u128);
    let native = concat5("decimal(", digits.as_str(), ",", places.as_str(), ")");
    let suffix = concat4("decimal.", digits.as_str(), ".", places.as_str());
    if ranged {
        let mut parameters = Parameters::new();
        parameters.insert("range_kind", "decimal");
        parameters.insert("target_precision", digits.as_str());
        parameters.insert("target_scale", places.as_str());
        add_range(list, p, LogicalType::decimal(0, 0), native, parameters, suffix.as_str());
    } else {
        add_exact(
            list,
            p,
            LogicalType::decimal(precision, scale as i32),
            native,
            suffix.as_str(),
        );
    }
}

/// The entries of the decimal types of one precision with fewer than `count`
/// places.
pub open spec fn scale_offers(p: Profile<'_>, ranged: bool, precision: int, count: int) -> Seq<Doc>
    decreases count,
{
    if count <= 0 {
        Seq::empty()
    } else {
        scale_offers(p, ranged, precision, count - 1).push(
            decimal_offer(p, ranged, precision as u16, (count - 1) as u16),
        )
    }
}

/// The entries of the decimal types up to a precision. No type has more than
/// thirty places.
pub open spec fn decimal_offers(p: Profile<'_>, ranged: bool, precision: int) -> Seq<Doc>
    decreases precision,
{
    if precision <= 0 {
        Seq::empty()
    } else {
        decimal_offers(p, ranged, precision - 1) + scale_offers(
            p,
            ranged,
            precision,
            if precision < 30 {
                precision + 1
            } else {
                31
            },
        )
    }
}

fn add_scales(
    list: &mut Vec<CapabilityEntry>,
    p: &Profile<'_>,
    ranged: bool,
    precision: u16,
    count: u16,
)
    ensures
        sound_offers(old(list)@) ==> sound_offers(final(list)@),
        docs(final(list)@) == docs(old(list)@) + scale_offers(
            *p,
            ranged,
            precision as int,
            count as int,
        ),
{
    let ghost start = docs(list@);
    let mut scale: u16 = 0;
    assert(start =~= start + scale_offers(*p, ranged, precision as int, 0));
    while scale < count
        invariant
            sound_offers(old(list)@) ==> sound_offers(list@),
            scale <= count,
            docs(list@) == start + scale_offers(*p, ranged, precision as int, scale as int),
        decreases count - scale,
    {
        add_decimal(list, p, ranged, precision, scale);
        scale += 1;
        assert(docs(list@) =~= start + scale_offers(*p, ranged, precision as int, scale as int));
    }
}

pub(crate) fn add_decimals(list: &mut Vec<CapabilityEntry>, p: &Profile<'_>, ranged: bool)
    ensures
        sound_offers(old(list)@) ==> sound_offers(final(list)@),
        docs(final(list)@) == docs(old(list)@) + decimal_offers(*p, ranged, 65),
{
    let ghost start = docs(list@);
    let mut precision: u16 = 0;
    assert(start =~= start + decimal_offers(*p, ranged, 0));
    while precision < 65
        invariant
            sound_offers(old(list)@) ==> sound_offers(list@),
            precision <= 65,
            docs(list@) == start + decimal_offers(*p, ranged, precision as int),
        decreases 65 - precision,
    {
        precision += 1;
        let count: u16 = if precision < 30 {
            precision + 1
        } else {
            31
        };
        add_scales(list, p, ranged, precision, count);
        assert(docs(list@) =~= start + decimal_offers(*p, ranged, precision as int));
    }
}

/// The entries of the floating-point types.
pub open spec fn float_offers(p: Profile<'_>) -> Seq<Doc> {
    seq![
        plain_offer(p, (LogicalType::Float { bits: 32 }).doc(), "float"@, "float.32"@),
        plain_offer(p, (LogicalType::Float { bits: 64 }).doc(), "double"@, "float.64"@),
        range_offer(
            p,
            (LogicalType::Float { bits: 0 }).doc(),
            "float"@,
            with_parameter(
                with_parameter(Seq::empty(), "range_kind"@, "float"@),
                "target_bits"@,
                "32"@,
            ),
            "float.64_to_32"@,
        ),
    ]
}

pub(crate) fn add_floats(list: &mut Vec<CapabilityEntry>, p: &Profile<'_>)
    ensures
        sound_offers(old(list)@) ==> sound_offers(final(list)@),
        docs(final(list)@) == docs(old(list)@) + float_offers(*p),
{
    add_exact(list, p, LogicalType::float(32), "float".to_owned(), "float.32");
    add_exact(list, p, LogicalType::float(64), "double".to_owned(), "float.64");
    let mut parameters = Parameters::new();
    parameters.insert("range_kind", "float");
    parameters.insert("target_bits", "32");
    add_range(list, p, LogicalType::float(0), "float".to_owned(), parameters, "float.64_to_32");
    assert(docs(list@) =~= docs(old(list)@) + float_offers(*p));
}

// ---------------------------------------------------------------------------
// Text
// ---------------------------------------------------------------------------

/// The declared lengths of text and binary columns.
pub open spec fn lengths() -> Seq<u64> {
    counted(255) + seq![256u64, 512, 1024, 2048, 4096, 8192, 16_383, 32_767, 65_535]
}

/// The numbers from one on.
pub open spec fn counted(count: int) -> Seq<u64>
    decreases count,
{
    if count <= 0 {
        Seq::empty()
    } else {
        counted(count - 1).push(count as u64)
    }
}

fn count_to(count: u64) -> (result: Vec<u64>)
    ensures
        result@ == counted(count as int),
{
    let mut result: Vec<u64> = Vec::new();
    let mut i: u64 = 0;
    while i < count
        invariant
            i <= count,
            result@ == counted(i as int),
        decreases count - i,
    {
        i += 1;
        result.push(i);
    }
    result
}

pub(crate) fn declared_lengths() -> (result: Vec<u64>)
    ensures
        result@ == lengths(),
{
    let mut result = count_to(255);
    result.push(256);
    result.push(512);
    result.push(1024);
    result.push(2048);
    result.push(4096);
    result.push(8192);
    result.push(16_383);
    result.push(32_767);
    result.push(65_535);
    assert(result@ =~= lengths());
    result
}

/// The form of a text type without a collation.
pub open spec fn text_doc(charset: Seq<char>, max_length: Option<u64>, unit: LengthUnit) -> Doc {
    Doc::Obj(
        with_present(
            family_members("text"@).push(("charset"@, Doc::Str(charset))),
            "max_length"@,
            match max_length {
                Some(length) => Some(Doc::Int(length as int)),
                None => None,
            },
        ).push(("length_unit"@, unit.doc())),
    )
}

fn text_type(charset: &str, max_length: Option<u64>, length_unit: LengthUnit) -> (result: LogicalType)
    ensures
        result.doc() == text_doc(charset@, max_length, length_unit),
{
    LogicalType::Text { charset: charset.to_owned(), max_length, length_unit, collation: None }
}

/// The entry of a text type that counts characters.
pub open spec fn counted_text(
    p: Profile<'_>,
    name: Seq<char>,
    charset: Seq<char>,
    length: u64,
) -> Doc {
    plain_offer(
        p,
        text_doc(charset, Some(length), LengthUnit::Characters),
        sized(name, length as nat),
        "text."@ + charset + "."@ + name + "."@ + decimal(length as nat),
    )
}

/// The entries of text types that count characters.
pub open spec fn counted_texts(
    p: Profile<'_>,
    name: Seq<char>,
    charset: Seq<char>,
    lengths: Seq<u64>,
) -> Seq<Doc>
    decreases lengths.len(),
{
    if lengths.len() == 0 {
        Seq::empty()
    } else {
        counted_texts(p, name, charset, lengths.drop_last()).push(
            counted_text(p, name, charset, lengths.last()),
        )
    }
}

fn add_counted_texts(
    list: &mut Vec<CapabilityEntry>,
    p: &Profile<'_>,
    name: &str,
    charset: &str,
    sizes: &Vec<u64>,
)
    ensures
        sound_offers(old(list)@) ==> sound_offers(final(list)@),
        docs(final(list)@) == docs(old(list)@) + counted_texts(*p, name@, charset@, sizes@),
{
    let ghost start = docs(list@);
    let mut i: usize = 0;
    assert(sizes@.take(0) =~= Seq::<u64>::empty());
    assert(start =~= start + counted_texts(*p, name@, charset@, sizes@.take(0)));
    while i < sizes.len()
        invariant
            sound_offers(old(list)@) ==> sound_offers(list@),
            i <= sizes@.len(),
            docs(list@) == start + counted_texts(*p, name@, charset@, sizes@.take(i as int)),
        decreases sizes@.len() - i,
    {
        assert(sizes@.take(i + 1).drop_last() =~= sizes@.take(i as int));
        assert(sizes@.take(i + 1).last() == sizes@[i as int]);
        let length: u64 = sizes[i];
        let digits = decimal_text(length as u128);
        let head = concat5("text.", charset, ".", name, ".");
        let suffix = concat(head.as_str(), digits.as_str());
        add_exact(
            list,
            p,
            text_type(charset, Some(length), LengthUnit::Characters),
            sized_type(name, length),
            suffix.as_str(),
        );
        i += 1;
        assert(docs(list@) =~= start + counted_texts(
            *p,
            name@,
            charset@,
            sizes@.take(i as int),
        ));
    }
    assert(sizes@.take(i as int) =~= sizes@);
}

/// The entries of `varchar` types.
pub open spec fn varchars(p: Profile<'_>, charset: Seq<char>) -> Seq<Doc> {
    counted_texts(p, "varchar"@, charset, lengths())
}

pub(crate) fn add_varchars(list: &mut Vec<CapabilityEntry>, p: &Profile<'_>, charset: &str)
    ensures
        sound_offers(old(list)@) ==> sound_offers(final(list)@),
        docs(final(list)@) == docs(old(list)@) + varchars(*p, charset@),
{
    let sizes = declared_lengths();
    add_counted_texts(list, p, "varchar", charset, &sizes);
}

/// The entries of `char` types.
pub open spec fn chars(p: Profile<'_>, charset: Seq<char>) -> Seq<Doc> {
    counted_texts(p, "char"@, charset, counted(255))
}

pub(crate) fn add_chars(list: &mut Vec<CapabilityEntry>, p: &Profile<'_>, charset: &str)
    ensures
        sound_offers(old(list)@) ==> sound_offers(final(list)@),
        docs(final(list)@) == docs(old(list)@) + chars(*p, charset@),
{
    let sizes = count_to(255);
    add_counted_texts(list, p, "char", charset, &sizes);
}

/// The entry of a large text type.
pub open spec fn large_text(p: Profile<'_>, native: Seq<char>, length: u64, charset: Seq<char>) -> Doc {
    plain_offer(
        p,
        text_doc(charset, Some(length), LengthUnit::Bytes),
        native,
        "text."@ + charset + "."@ + native,
    )
}

/// The entries of a large text type in several character sets.
pub open spec fn large_texts(
    p: Profile<'_>,
    native: Seq<char>,
    length: u64,
    charsets: Seq<&str>,
) -> Seq<Doc>
    decreases charsets.len(),
{
    if charsets.len() == 0 {
        Seq::empty()
    } else {
        large_texts(p, native, length, charsets.drop_last()).push(
            large_text(p, native, length, charsets.last()@),
        )
    }
}

fn add_large_texts(
    list: &mut Vec<CapabilityEntry>,
    p: &Profile<'_>,
    native: &str,
    length: u64,
    charsets: &Vec<&str>,
)
    ensures
        sound_offers(old(list)@) ==> sound_offers(final(list)@),
        docs(final(list)@) == docs(old(list)@) + large_texts(*p, native@, length, charsets@),
{
    let ghost start = docs(list@);
    let mut i: usize = 0;
    assert(charsets@.take(0) =~= Seq::<&str>::empty());
    assert(start =~= start + large_texts(*p, native@, length, charsets@.take(0)));
    while i < charsets.len()
        invariant
            sound_offers(old(list)@) ==> sound_offers(list@),
            i <= charsets@.len(),
            docs(list@) == start + large_texts(*p, native@, length, charsets@.take(i as int)),
        decreases charsets@.len() - i,
    {
        assert(charsets@.take(i + 1).drop_last() =~= charsets@.take(i as int));
        assert(charsets@.take(i + 1).last() == charsets@[i as int]);
        let charset = charsets[i];
        let suffix = concat4("text.", charset, ".", native);
        add_exact(
            list,
            p,
            text_type(charset, Some(length), LengthUnit::Bytes),
            native.to_owned(),
            suffix.as_str(),
        );
        i += 1;
        assert(docs(list@) =~= start + large_texts(
            *p,
            native@,
            length,
            charsets@.take(i as int),
        ));
    }
    assert(charsets@.take(i as int) =~= charsets@);
}

/// The entries of all large text types.
pub open spec fn all_large_texts(p: Profile<'_>, charsets: Seq<&str>) -> Seq<Doc> {
    large_texts(p, "tinytext"@, 255, charsets) + large_texts(p, "text"@, 65_535, charsets)
        + large_texts(p, "mediumtext"@, 16_777_215, charsets) + large_texts(
        p,
        "longtext"@,
        4_294_967_295,
        charsets,
    )
}

pub(crate) fn add_all_large_texts(
    list: &mut Vec<CapabilityEntry>,
    p: &Profile<'_>,
    charsets: &Vec<&str>,
)
    ensures
        sound_offers(old(list)@) ==> sound_offers(final(list)@),
        docs(final(list)@) == docs(old(list)@) + all_large_texts(*p, charsets@),
{
    add_large_texts(list, p, "tinytext", 255, charsets);
    add_large_texts(list, p, "text", 65_535, charsets);
    add_large_texts(list, p, "mediumtext", 16_777_215, charsets);
    add_large_texts(list, p, "longtext", 4_294_967_295, charsets);
    assert(docs(list@) =~= docs(old(list)@) + all_large_texts(*p, charsets@));
}

/// The entry of unbounded text. `longtext` is the only type whose bound in
/// bytes is not smaller than what a source without bounds can send.
pub open spec fn unbounded_text(p: Profile<'_>) -> Doc {
    plain_offer(
        p,
        text_doc("UTF8"@, None, LengthUnit::Characters),
        "longtext"@,
        "text.UTF8.longtext.unbounded"@,
    )
}

pub(crate) fn add_unbounded_text(list: &mut Vec<CapabilityEntry>, p: &Profile<'_>)
    ensures
        sound_offers(old(list)@) ==> sound_offers(final(list)@),
        docs(final(list)@) == docs(old(list)@).push(unbounded_text(*p)),
{
    add_exact(
        list,
        p,
        text_type("UTF8", None, LengthUnit::Characters),
        "longtext".to_owned(),
        "text.UTF8.longtext.unbounded",
    );
}

/// The form of the type of normalized JSON.
pub open spec fn json_doc() -> Doc {
    (LogicalType::Json {
        profile: JsonProfile { normalized: true, duplicate_keys: DuplicateKeyPolicy::Reject },
    }).doc()
}

/// The two entries that convert text and JSON to a text type. Length and
/// collation are bound to the target column by the planner; no rule truncates.
pub open spec fn text_target_offers(p: Profile<'_>, native: Seq<char>) -> Seq<Doc> {
    seq![
        explicit_offer(
            p,
            text_doc("*"@, None, LengthUnit::Bytes),
            native,
            with_parameter(Seq::empty(), "conversion_kind"@, "text"@),
            "text."@ + native,
            text_options(),
        ),
        explicit_offer(
            p,
            json_doc(),
            native,
            with_parameter(
                with_parameter(Seq::empty(), "conversion_kind"@, "json"@),
                "json_strategy"@,
                "normalized_text"@,
            ),
            "json_text."@ + native,
            json_text_options(),
        ),
    ]
}

fn add_text_target(list: &mut Vec<CapabilityEntry>, p: &Profile<'_>, native: &str)
    ensures
        sound_offers(old(list)@) ==> sound_offers(final(list)@),
        docs(final(list)@) == docs(old(list)@) + text_target_offers(*p, native@),
{
    let mut text_parameters = Parameters::new();
    text_parameters.insert("conversion_kind", "text");
    let mut json_parameters = Parameters::new();
    json_parameters.insert("conversion_kind", "json");
    json_parameters.insert("json_strategy", "normalized_text");
    let text_suffix = concat("text.", native);
    let json_suffix = concat("json_text.", native);
    add_explicit(
        list,
        p,
        text_type("*", None, LengthUnit::Bytes),
        native,
        text_parameters,
        text_suffix.as_str(),
        make_text_options(),
    );
    add_explicit(
        list,
        p,
        LogicalType::json(),
        native,
        json_parameters,
        json_suffix.as_str(),
        make_json_text_options(),
    );
    assert(docs(list@) =~= docs(old(list)@) + text_target_offers(*p, native@));
}

/// The entries that convert to text types of declared lengths.
pub open spec fn sized_text_targets(p: Profile<'_>, name: Seq<char>, lengths: Seq<u64>) -> Seq<Doc>
    decreases lengths.len(),
{
    if lengths.len() == 0 {
        Seq::empty()
    } else {
        sized_text_targets(p, name, lengths.drop_last()) + text_target_offers(
            p,
            sized(name, lengths.last() as nat),
        )
    }
}

fn add_sized_text_targets(
    list: &mut Vec<CapabilityEntry>,
    p: &Profile<'_>,
    name: &str,
    sizes: &Vec<u64>,
)
    ensures
        sound_offers(old(list)@) ==> sound_offers(final(list)@),
        docs(final(list)@) == docs(old(list)@) + sized_text_targets(*p, name@, sizes@),
{
    let ghost start = docs(list@);
    let mut i: usize = 0;
    assert(sizes@.take(0) =~= Seq::<u64>::empty());
    assert(start =~= start + sized_text_targets(*p, name@, sizes@.take(0)));
    while i < sizes.len()
        invariant
            sound_offers(old(list)@) ==> sound_offers(list@),
            i <= sizes@.len(),
            docs(list@) == start + sized_text_targets(*p, name@, sizes@.take(i as int)),
        decreases sizes@.len() - i,
    {
        assert(sizes@.take(i + 1).drop_last() =~= sizes@.take(i as int));
        assert(sizes@.take(i + 1).last() == sizes@[i as int]);
        let native = sized_type(name, sizes[i]);
        add_text_target(list, p, native.as_str());
        i += 1;
        assert(docs(list@) =~= start + sized_text_targets(*p, name@, sizes@.take(i as int)));
    }
    assert(sizes@.take(i as int) =~= sizes@);
}

/// The entries that convert to text types.
pub open spec fn text_targets(p: Profile<'_>) -> Seq<Doc> {
    sized_text_targets(p, "varchar"@, lengths()) + text_target_offers(p, "tinytext"@)
        + text_target_offers(p, "text"@) + text_target_offers(p, "mediumtext"@)
        + text_target_offers(p, "longtext"@)
}

pub(crate) fn add_text_targets(list: &mut Vec<CapabilityEntry>, p: &Profile<'_>)
    ensures
        sound_offers(old(list)@) ==> sound_offers(final(list)@),
        docs(final(list)@) == docs(old(list)@) + text_targets(*p),
{
    let sizes = declared_lengths();
    add_sized_text_targets(list, p, "varchar", &sizes);
    add_text_target(list, p, "tinytext");
    add_text_target(list, p, "text");
    add_text_target(list, p, "mediumtext");
    add_text_target(list, p, "longtext");
    assert(docs(list@) =~= docs(old(list)@) + text_targets(*p));
}

/// The entries that convert to `char` types.
pub open spec fn char_targets(p: Profile<'_>) -> Seq<Doc> {
    sized_text_targets(p, "char"@, counted(255))
}

pub(crate) fn add_char_targets(list: &mut Vec<CapabilityEntry>, p: &Profile<'_>)
    ensures
        sound_offers(old(list)@) ==> sound_offers(final(list)@),
        docs(final(list)@) == docs(old(list)@) + char_targets(*p),
{
    let sizes = count_to(255);
    add_sized_text_targets(list, p, "char", &sizes);
}

// ---------------------------------------------------------------------------
// Bytes and bits
// ---------------------------------------------------------------------------

/// The entries of the binary types of one length.
pub open spec fn binary_offers(p: Profile<'_>, length: u64) -> Seq<Doc> {
    let logical = (LogicalType::Binary { max_length: Some(length) }).doc();
    seq![
        plain_offer(
            p,
            logical,
            sized("varbinary"@, length as nat),
            "binary.varbinary."@ + decimal(length as nat),
        ),
        plain_offer(
            p,
            logical,
            sized("binary"@, length as nat),
            "binary.fixed."@ + decimal(length as nat),
        ),
    ]
}

/// The entries of the binary types of declared lengths.
pub open spec fn sized_binaries(p: Profile<'_>, lengths: Seq<u64>) -> Seq<Doc>
    decreases lengths.len(),
{
    if lengths.len() == 0 {
        Seq::empty()
    } else {
        sized_binaries(p, lengths.drop_last()) + binary_offers(p, lengths.last())
    }
}

fn add_binary(list: &mut Vec<CapabilityEntry>, p: &Profile<'_>, length: u64)
    ensures
        sound_offers(old(list)@) ==> sound_offers(final(list)@),
        docs(final(list)@) == docs(old(list)@) + binary_offers(*p, length),
{
    let digits = decimal_text(length as u128);
    let variable = concat("binary.varbinary.", digits.as_str());
    let fixed = concat("binary.fixed.", digits.as_str());
    add_exact(
        list,
        p,
        LogicalType::binary(Some(length)),
        sized_type("varbinary", length),
        variable.as_str(),
    );
    add_exact(
        list,
        p,
        LogicalType::binary(Some(length)),
        sized_type("binary", length),
        fixed.as_str(),
    );
    assert(docs(list@) =~= docs(old(list)@) + binary_offers(*p, length));
}

/// The entries of the binary types.
pub open spec fn binaries(p: Profile<'_>) -> Seq<Doc> {
    sized_binaries(p, lengths())
}

pub(crate) fn add_binaries(list: &mut Vec<CapabilityEntry>, p: &Profile<'_>)
    ensures
        sound_offers(old(list)@) ==> sound_offers(final(list)@),
        docs(final(list)@) == docs(old(list)@) + binaries(*p),
{
    let sizes = declared_lengths();
    let ghost start = docs(list@);
    let mut i: usize = 0;
    assert(sizes@.take(0) =~= Seq::<u64>::empty());
    assert(start =~= start + sized_binaries(*p, sizes@.take(0)));
    while i < sizes.len()
        invariant
            sound_offers(old(list)@) ==> sound_offers(list@),
            i <= sizes@.len(),
            docs(list@) == start + sized_binaries(*p, sizes@.take(i as int)),
        decreases sizes@.len() - i,
    {
        assert(sizes@.take(i + 1).drop_last() =~= sizes@.take(i as int));
        assert(sizes@.take(i + 1).last() == sizes@[i as int]);
        add_binary(list, p, sizes[i]);
        i += 1;
        assert(docs(list@) =~= start + sized_binaries(*p, sizes@.take(i as int)));
    }
    assert(sizes@.take(i as int) =~= sizes@);
}

/// The entry of a blob type.
pub open spec fn blob_offer(p: Profile<'_>, native: Seq<char>, length: u64) -> Doc {
    plain_offer(
        p,
        (LogicalType::Binary { max_length: Some(length) }).doc(),
        native,
        "binary."@ + native,
    )
}

fn add_blob(list: &mut Vec<CapabilityEntry>, p: &Profile<'_>, native: &str, length: u64)
    ensures
        sound_offers(old(list)@) ==> sound_offers(final(list)@),
        docs(final(list)@) == docs(old(list)@).push(blob_offer(*p, native@, length)),
{
    let suffix = concat("binary.", native);
    add_exact(
        list,
        p,
        LogicalType::binary(Some(length)),
        native.to_owned(),
        suffix.as_str(),
    );
}

/// The entries of the blob types.
pub open spec fn blobs(p: Profile<'_>) -> Seq<Doc> {
    seq![
        blob_offer(p, "tinyblob"@, 255),
        blob_offer(p, "blob"@, 65_535),
        blob_offer(p, "mediumblob"@, 16_777_215),
        blob_offer(p, "longblob"@, 4_294_967_295),
    ]
}

pub(crate) fn add_blobs(list: &mut Vec<CapabilityEntry>, p: &Profile<'_>)
    ensures
        sound_offers(old(list)@) ==> sound_offers(final(list)@),
        docs(final(list)@) == docs(old(list)@) + blobs(*p),
{
    add_blob(list, p, "tinyblob", 255);
    add_blob(list, p, "blob", 65_535);
    add_blob(list, p, "mediumblob", 16_777_215);
    add_blob(list, p, "longblob", 4_294_967_295);
    assert(docs(list@) =~= docs(old(list)@) + blobs(*p));
}

/// The parameters of a bit type.
pub open spec fn bit_parameters(length: u64) -> Entries {
    let e = with_parameter(Seq::empty(), "bit_length_unit"@, "bits"@);
    let e = with_parameter(e, "target_bit_order"@, "msb_first"@);
    with_parameter(
        e,
        "target_padding"@,
        if length % 8 == 0 {
            "none"@
        } else {
            "zero"@
        },
    )
}

/// The entries of the bit types up to a length.
pub open spec fn bit_offers(p: Profile<'_>, length: int) -> Seq<Doc>
    decreases length,
{
    if length <= 0 {
        Seq::empty()
    } else {
        bit_offers(p, length - 1).push(
            exact_offer(
                p,
                (LogicalType::BitString { length: length as u64 }).doc(),
                sized("bit"@, length as nat),
                bit_parameters(length as u64),
                "bit."@ + decimal(length as nat),
                "v1"@,
            ),
        )
    }
}

pub(crate) fn add_bits(list: &mut Vec<CapabilityEntry>, p: &Profile<'_>)
    ensures
        sound_offers(old(list)@) ==> sound_offers(final(list)@),
        docs(final(list)@) == docs(old(list)@) + bit_offers(*p, 64),
{
    let ghost start = docs(list@);
    let mut length: u64 = 0;
    assert(start =~= start + bit_offers(*p, 0));
    while length < 64
        invariant
            sound_offers(old(list)@) ==> sound_offers(list@),
            length <= 64,
            docs(list@) == start + bit_offers(*p, length as int),
        decreases 64 - length,
    {
        length += 1;
        let digits = decimal_text(length as u128);
        let suffix = concat("bit.", digits.as_str());
        let mut parameters = Parameters::new();
        parameters.insert("bit_length_unit", "bits");
        parameters.insert("target_bit_order", "msb_first");
        parameters.insert(
            "target_padding",
            if length % 8 == 0 {
                "none"
            } else {
                "zero"
            },
        );
        add_exact_target(
            list,
            p,
            LogicalType::bit_string(length),
            sized_type("bit", length),
            parameters,
            suffix.as_str(),
            "v1",
        );
        assert(docs(list@) =~= start + bit_offers(*p, length as int));
    }
}

// ---------------------------------------------------------------------------
// Dates and times
// ---------------------------------------------------------------------------

/// A temporal type with a precision.
pub open spec fn timed(name: Seq<char>, precision: u8) -> Seq<char> {
    if precision == 0 {
        name
    } else {
        sized(name, precision as nat)
    }
}

fn timed_type(name: &str, precision: u8) -> (result: String)
    ensures
        result@ == timed(name@, precision),
{
    if precision == 0 {
        name.to_owned()
    } else {
        sized_type(name, precision as u64)
    }
}

/// The entries of the temporal types of one precision.
pub open spec fn timed_offers(p: Profile<'_>, precision: u8) -> Seq<Doc> {
    let digits = decimal(precision as nat);
    seq![
        plain_offer(
            p,
            (LogicalType::LocalDatetime { fractional_precision: precision }).doc(),
            timed("datetime"@, precision),
            "local_datetime."@ + digits,
        ),
        plain_offer(
            p,
            (LogicalType::Instant { fractional_precision: precision }).doc(),
            timed("timestamp"@, precision),
            "instant."@ + digits,
        ),
        plain_offer(
            p,
            (LogicalType::Duration { fractional_precision: precision }).doc(),
            timed("time"@, precision),
            "duration."@ + digits,
        ),
    ]
}

/// The entries of the temporal types with fewer than `count` places.
pub open spec fn temporal_offers(p: Profile<'_>, count: int) -> Seq<Doc>
    decreases count,
{
    if count <= 0 {
        Seq::empty()
    } else {
        temporal_offers(p, count - 1) + timed_offers(p, (count - 1) as u8)
    }
}

fn add_timed(list: &mut Vec<CapabilityEntry>, p: &Profile<'_>, precision: u8)
    ensures
        sound_offers(old(list)@) ==> sound_offers(final(list)@),
        docs(final(list)@) == docs(old(list)@) + timed_offers(*p, precision),
{
    let digits = decimal_text(precision as u128);
    let local = concat("local_datetime.", digits.as_str());
    let instant = concat("instant.", digits.as_str());
    let duration = concat("duration.", digits.as_str());
    add_exact(
        list,
        p,
        LogicalType::LocalDatetime { fractional_precision: precision },
        timed_type("datetime", precision),
        local.as_str(),
    );
    add_exact(
        list,
        p,
        LogicalType::Instant { fractional_precision: precision },
        timed_type("timestamp", precision),
        instant.as_str(),
    );
    add_exact(
        list,
        p,
        LogicalType::Duration { fractional_precision: precision },
        timed_type("time", precision),
        duration.as_str(),
    );
    assert(docs(list@) =~= docs(old(list)@) + timed_offers(*p, precision));
}

pub(crate) fn add_temporals(list: &mut Vec<CapabilityEntry>, p: &Profile<'_>)
    ensures
        sound_offers(old(list)@) ==> sound_offers(final(list)@),
        docs(final(list)@) == docs(old(list)@) + temporal_offers(*p, 7),
{
    let ghost start = docs(list@);
    let mut precision: u8 = 0;
    assert(start =~= start + temporal_offers(*p, 0));
    while precision < 7
        invariant
            sound_offers(old(list)@) ==> sound_offers(list@),
            precision <= 7,
            docs(list@) == start + temporal_offers(*p, precision as int),
        decreases 7 - precision,
    {
        add_timed(list, p, precision);
        precision += 1;
        assert(docs(list@) =~= start + temporal_offers(*p, precision as int));
    }
}

/// The entry of a conversion of temporal values of any precision.
pub open spec fn temporal_target(p: Profile<'_>, logical: Doc, native: Seq<char>, suffix: Seq<char>) -> Doc {
    explicit_offer(
        p,
        logical,
        native,
        with_parameter(Seq::empty(), "conversion_kind"@, "temporal"@),
        "temporal."@ + suffix,
        temporal_options(),
    )
}

fn add_temporal_target(
    list: &mut Vec<CapabilityEntry>,
    p: &Profile<'_>,
    logical: LogicalType,
    native: String,
    suffix: &str,
)
    ensures
        sound_offers(old(list)@) ==> sound_offers(final(list)@),
        docs(final(list)@) == docs(old(list)@).push(
            temporal_target(*p, logical.doc(), native@, suffix@),
        ),
{
    let mut parameters = Parameters::new();
    parameters.insert("conversion_kind", "temporal");
    let whole = concat("temporal.", suffix);
    add_explicit(
        list,
        p,
        logical,
        native.as_str(),
        parameters,
        whole.as_str(),
        make_temporal_options(),
    );
}

/// The entries that convert to the temporal types of one precision. To change
/// between local and absolute time a fixed offset is needed.
pub open spec fn timed_targets(p: Profile<'_>, precision: u8) -> Seq<Doc> {
    let digits = decimal(precision as nat);
    let local = (LogicalType::LocalDatetime { fractional_precision: u8::MAX }).doc();
    let instant = (LogicalType::Instant { fractional_precision: u8::MAX }).doc();
    let duration = (LogicalType::Duration { fractional_precision: u8::MAX }).doc();
    seq![
        temporal_target(p, local, timed("datetime"@, precision), "local_datetime."@ + digits),
        temporal_target(p, instant, timed("timestamp"@, precision), "instant."@ + digits),
        temporal_target(p, duration, timed("time"@, precision), "duration."@ + digits),
        temporal_target(
            p,
            local,
            timed("timestamp"@, precision),
            "local_datetime_to_instant."@ + digits,
        ),
        temporal_target(
            p,
            instant,
            timed("datetime"@, precision),
            "instant_to_local_datetime."@ + digits,
        ),
    ]
}

/// The entries that convert to temporal types with fewer than `count` places.
pub open spec fn temporal_targets(p: Profile<'_>, count: int) -> Seq<Doc>
    decreases count,
{
    if count <= 0 {
        Seq::empty()
    } else {
        temporal_targets(p, count - 1) + timed_targets(p, (count - 1) as u8)
    }
}

fn add_timed_targets(list: &mut Vec<CapabilityEntry>, p: &Profile<'_>, precision: u8)
    ensures
        sound_offers(old(list)@) ==> sound_offers(final(list)@),
        docs(final(list)@) == docs(old(list)@) + timed_targets(*p, precision),
{
    let digits = decimal_text(precision as u128);
    let local = concat("local_datetime.", digits.as_str());
    let instant = concat("instant.", digits.as_str());
    let duration = concat("duration.", digits.as_str());
    let to_instant = concat("local_datetime_to_instant.", digits.as_str());
    let to_local = concat("instant_to_local_datetime.", digits.as_str());
    add_temporal_target(
        list,
        p,
        LogicalType::LocalDatetime { fractional_precision: u8::MAX },
        timed_type("datetime", precision),
        local.as_str(),
    );
    add_temporal_target(
        list,
        p,
        LogicalType::Instant { fractional_precision: u8::MAX },
        timed_type("timestamp", precision),
        instant.as_str(),
    );
    add_temporal_target(
        list,
        p,
        LogicalType::Duration { fractional_precision: u8::MAX },
        timed_type("time", precision),
        duration.as_str(),
    );
    add_temporal_target(
        list,
        p,
        LogicalType::LocalDatetime { fractional_precision: u8::MAX },
        timed_type("timestamp", precision),
        to_instant.as_str(),
    );
    add_temporal_target(
        list,
        p,
        LogicalType::Instant { fractional_precision: u8::MAX },
        timed_type("datetime", precision),
        to_local.as_str(),
    );
    assert(docs(list@) =~= docs(old(list)@) + timed_targets(*p, precision));
}

pub(crate) fn add_temporal_targets(list: &mut Vec<CapabilityEntry>, p: &Profile<'_>)
    ensures
        sound_offers(old(list)@) ==> sound_offers(final(list)@),
        docs(final(list)@) == docs(old(list)@) + temporal_targets(*p, 7),
{
    let ghost start = docs(list@);
    let mut precision: u8 = 0;
    assert(start =~= start + temporal_targets(*p, 0));
    while precision < 7
        invariant
            sound_offers(old(list)@) ==> sound_offers(list@),
            precision <= 7,
            docs(list@) == start + temporal_targets(*p, precision as int),
        decreases 7 - precision,
    {
        add_timed_targets(list, p, precision);
        precision += 1;
        assert(docs(list@) =~= start + temporal_targets(*p, precision as int));
    }
}

// ---------------------------------------------------------------------------
// Dates, years, JSON, labels
// ---------------------------------------------------------------------------

pub open spec fn date_offer(p: Profile<'_>) -> Doc {
    plain_offer(p, LogicalType::Date.doc(), "date"@, "date"@)
}

pub open spec fn year_offer(p: Profile<'_>) -> Doc {
    plain_offer(p, LogicalType::Year.doc(), "year"@, "year"@)
}

/// The form of an enumeration or set of any members.
pub open spec fn members_doc(family: Seq<char>) -> Doc {
    Doc::Obj(family_members(family).push(("members"@, Doc::Arr(Seq::empty()))))
}

/// The entries of JSON, enumerations and sets.
pub open spec fn structured_offers(p: Profile<'_>) -> Seq<Doc> {
    seq![
        exact_offer(
            p,
            json_doc(),
            "json"@,
            with_parameter(Seq::empty(), "json_strategy"@, "structured"@),
            "json"@,
            "v2"@,
        ),
        exact_offer(
            p,
            members_doc("enum"@),
            "enum"@,
            with_parameter(Seq::empty(), "value_strategy"@, "enum_label"@),
            "enum"@,
            "v2"@,
        ),
        explicit_offer(
            p,
            members_doc("enum"@),
            "enum"@,
            with_parameter(
                with_parameter(Seq::empty(), "conversion_kind"@, "enum"@),
                "value_strategy"@,
                "enum_label"@,
            ),
            "enum_by_label"@,
            Seq::empty(),
        ),
        exact_offer(
            p,
            members_doc("set"@),
            "set"@,
            with_parameter(Seq::empty(), "value_strategy"@, "set_members"@),
            "set"@,
            "v2"@,
        ),
    ]
}

fn enum_type() -> (result: LogicalType)
    ensures
        result.doc() == members_doc("enum"@),
{
    let members: Vec<String> = Vec::new();
    assert(texts_doc(members@)->Arr_0 =~= Seq::<Doc>::empty());
    LogicalType::Enum { members }
}

fn set_type() -> (result: LogicalType)
    ensures
        result.doc() == members_doc("set"@),
{
    let members: Vec<String> = Vec::new();
    assert(texts_doc(members@)->Arr_0 =~= Seq::<Doc>::empty());
    LogicalType::SetType { members }
}

pub(crate) fn add_structured(list: &mut Vec<CapabilityEntry>, p: &Profile<'_>)
    ensures
        sound_offers(old(list)@) ==> sound_offers(final(list)@),
        docs(final(list)@) == docs(old(list)@) + structured_offers(*p),
{
    let mut json = Parameters::new();
    json.insert("json_strategy", "structured");
    let mut label = Parameters::new();
    label.insert("value_strategy", "enum_label");
    let mut by_label = Parameters::new();
    by_label.insert("conversion_kind", "enum");
    by_label.insert("value_strategy", "enum_label");
    let mut members = Parameters::new();
    members.insert("value_strategy", "set_members");
    let options: Vec<OptionSpec> = Vec::new();
    assert(docs(options@) =~= Seq::<Doc>::empty());
    add_exact_target(list, p, LogicalType::json(), "json".to_owned(), json, "json", "v2");
    add_exact_target(list, p, enum_type(), "enum".to_owned(), label, "enum", "v2");
    add_explicit(list, p, enum_type(), "enum", by_label, "enum_by_label", options);
    add_exact_target(list, p, set_type(), "set".to_owned(), members, "set", "v2");
    assert(docs(list@) =~= docs(old(list)@) + structured_offers(*p));
}

/// The entries from dates to sets.
pub open spec fn dates_to_sets(p: Profile<'_>) -> Seq<Doc> {
    seq![date_offer(p)] + temporal_offers(p, 7) + seq![year_offer(p)] + structured_offers(p)
}

pub(crate) fn add_dates_to_sets(list: &mut Vec<CapabilityEntry>, p: &Profile<'_>)
    ensures
        sound_offers(old(list)@) ==> sound_offers(final(list)@),
        docs(final(list)@) == docs(old(list)@) + dates_to_sets(*p),
{
    add_exact(list, p, LogicalType::date(), "date".to_owned(), "date");
    add_temporals(list, p);
    add_exact(list, p, LogicalType::year(), "year".to_owned(), "year");
    add_structured(list, p);
    assert(docs(list@) =~= docs(old(list)@) + dates_to_sets(*p));
}

} // verus!
