//! Why a target cannot take a field or a value.
use crate::change_event::compatibility::types::{
    ConnectorIdentity, QualificationLevel, RuleReference, ServerBuildIdentity,
};
use crate::change_event::failure::{FailureClass, FailurePhase, RetryClassification};
use crate::json::{
    duplicate_optional, optional_doc, with_present, with_present_text, Contract, Doc, Fields, Json,
};
use crate::text::{chars_of, concat3, control, is_control};
use vstd::prelude::*;

verus! {

/// A target cannot take a field or a value.
#[derive(Debug, PartialEq, Eq)]
pub struct TargetCapabilityFailure {
    pub class: FailureClass,
    pub code: String,
    pub route_id: Option<String>,
    pub source: Option<ConnectorIdentity>,
    pub sink: Option<ConnectorIdentity>,
    pub source_transaction_id: Option<String>,
    pub event_identity: Option<String>,
    pub source_table_lineage: Option<String>,
    pub source_field_lineage: Option<String>,
    pub target_field_lineage: Option<String>,
    pub source_definition_fingerprint: Option<String>,
    pub target_definition_fingerprint: Option<String>,
    pub target_schema_fingerprint: Option<String>,
    pub target_server_build: Option<ServerBuildIdentity>,
    pub capability_identity: Option<String>,
    pub conversion_rule: Option<RuleReference>,
    pub plan_digest: Option<String>,
    pub qualification: Option<QualificationLevel>,
    pub risk_code: Option<String>,
    pub phase: FailurePhase,
    pub retry: RetryClassification,
    pub vendor_code: Option<String>,
    /// Sanitized cause text. Row values, bound parameters, SQL and secrets do
    /// not belong in this diagnostic.
    pub cause: Option<String>,
}

/// The members that name the route and the event.
#[verifier::opaque]
pub open spec fn route_members(
    members: Seq<(Seq<char>, Doc)>,
    failure: TargetCapabilityFailure,
) -> Seq<(Seq<char>, Doc)> {
    let members = members.push(("class"@, failure.class.doc()));
    let members = members.push(("code"@, Doc::Str(failure.code@)));
    let members = with_present_text(members, "route_id"@, failure.route_id);
    let members = with_present(members, "source"@, optional_doc(failure.source));
    let members = with_present(members, "sink"@, optional_doc(failure.sink));
    let members = with_present_text(members, "source_transaction_id"@, failure.source_transaction_id);
    let members = with_present_text(members, "event_identity"@, failure.event_identity);
    members
}

fn put_route(fields: &mut Fields, failure: &TargetCapabilityFailure)
    ensures
        final(fields)@ == route_members(old(fields)@, *failure),
{
    proof {
        reveal(route_members);
    }
    fields.put("class", failure.class.to_json());
    fields.put_text("code", failure.code.as_str());
    fields.put_present_text("route_id", &failure.route_id);
    fields.put_present("source", &failure.source);
    fields.put_present("sink", &failure.sink);
    fields.put_present_text("source_transaction_id", &failure.source_transaction_id);
    fields.put_present_text("event_identity", &failure.event_identity);
}

/// The members that name the fields.
#[verifier::opaque]
pub open spec fn lineage_members(
    members: Seq<(Seq<char>, Doc)>,
    failure: TargetCapabilityFailure,
) -> Seq<(Seq<char>, Doc)> {
    let members = with_present_text(members, "source_table_lineage"@, failure.source_table_lineage);
    let members = with_present_text(members, "source_field_lineage"@, failure.source_field_lineage);
    let members = with_present_text(members, "target_field_lineage"@, failure.target_field_lineage);
    let members = with_present_text(
        members,
        "source_definition_fingerprint"@,
        failure.source_definition_fingerprint,
    );
    let members = with_present_text(
        members,
        "target_definition_fingerprint"@,
        failure.target_definition_fingerprint,
    );
    let members = with_present_text(members, "target_schema_fingerprint"@, failure.target_schema_fingerprint);
    let members = with_present(members, "target_server_build"@, optional_doc(failure.target_server_build));
    members
}

fn put_lineage(fields: &mut Fields, failure: &TargetCapabilityFailure)
    ensures
        final(fields)@ == lineage_members(old(fields)@, *failure),
{
    proof {
        reveal(lineage_members);
    }
    fields.put_present_text("source_table_lineage", &failure.source_table_lineage);
    fields.put_present_text("source_field_lineage", &failure.source_field_lineage);
    fields.put_present_text("target_field_lineage", &failure.target_field_lineage);
    fields.put_present_text("source_definition_fingerprint", &failure.source_definition_fingerprint);
    fields.put_present_text("target_definition_fingerprint", &failure.target_definition_fingerprint);
    fields.put_present_text("target_schema_fingerprint", &failure.target_schema_fingerprint);
    fields.put_present("target_server_build", &failure.target_server_build);
}

/// The members that name the rule.
#[verifier::opaque]
pub open spec fn rule_members(
    members: Seq<(Seq<char>, Doc)>,
    failure: TargetCapabilityFailure,
) -> Seq<(Seq<char>, Doc)> {
    let members = with_present_text(members, "capability_identity"@, failure.capability_identity);
    let members = with_present(members, "conversion_rule"@, optional_doc(failure.conversion_rule));
    let members = with_present_text(members, "plan_digest"@, failure.plan_digest);
    let members = with_present(members, "qualification"@, optional_doc(failure.qualification));
    let members = with_present_text(members, "risk_code"@, failure.risk_code);
    members
}

fn put_rule(fields: &mut Fields, failure: &TargetCapabilityFailure)
    ensures
        final(fields)@ == rule_members(old(fields)@, *failure),
{
    proof {
        reveal(rule_members);
    }
    fields.put_present_text("capability_identity", &failure.capability_identity);
    fields.put_present("conversion_rule", &failure.conversion_rule);
    fields.put_present_text("plan_digest", &failure.plan_digest);
    fields.put_present("qualification", &failure.qualification);
    fields.put_present_text("risk_code", &failure.risk_code);
}

/// The members that say what failed.
#[verifier::opaque]
pub open spec fn cause_members(
    members: Seq<(Seq<char>, Doc)>,
    failure: TargetCapabilityFailure,
) -> Seq<(Seq<char>, Doc)> {
    let members = members.push(("phase"@, failure.phase.doc()));
    let members = members.push(("retry"@, failure.retry.doc()));
    let members = with_present_text(members, "vendor_code"@, failure.vendor_code);
    let members = with_present_text(members, "cause"@, failure.cause);
    members
}

fn put_cause(fields: &mut Fields, failure: &TargetCapabilityFailure)
    ensures
        final(fields)@ == cause_members(old(fields)@, *failure),
{
    proof {
        reveal(cause_members);
    }
    fields.put("phase", failure.phase.to_json());
    fields.put("retry", failure.retry.to_json());
    fields.put_present_text("vendor_code", &failure.vendor_code);
    fields.put_present_text("cause", &failure.cause);
}

impl Contract for TargetCapabilityFailure {
    open spec fn doc(&self) -> Doc {
        let members = Seq::<(Seq<char>, Doc)>::empty();
        let members = route_members(members, *self);
        let members = lineage_members(members, *self);
        let members = rule_members(members, *self);
        let members = cause_members(members, *self);
        Doc::Obj(members)
    }

    fn to_json(&self) -> (result: Json) {
        let mut fields = Fields::new();
        put_route(&mut fields, self);
        put_lineage(&mut fields, self);
        put_rule(&mut fields, self);
        put_cause(&mut fields, self);
        fields.finish()
    }

    fn duplicate(&self) -> (result: Self) {
        let result = TargetCapabilityFailure {
            class: self.class.duplicate(),
            code: self.code.clone(),
            route_id: self.route_id.clone(),
            source: duplicate_optional(&self.source),
            sink: duplicate_optional(&self.sink),
            source_transaction_id: self.source_transaction_id.clone(),
            event_identity: self.event_identity.clone(),
            source_table_lineage: self.source_table_lineage.clone(),
            source_field_lineage: self.source_field_lineage.clone(),
            target_field_lineage: self.target_field_lineage.clone(),
            source_definition_fingerprint: self.source_definition_fingerprint.clone(),
            target_definition_fingerprint: self.target_definition_fingerprint.clone(),
            target_schema_fingerprint: self.target_schema_fingerprint.clone(),
            target_server_build: duplicate_optional(&self.target_server_build),
            capability_identity: self.capability_identity.clone(),
            conversion_rule: duplicate_optional(&self.conversion_rule),
            plan_digest: self.plan_digest.clone(),
            qualification: duplicate_optional(&self.qualification),
            risk_code: self.risk_code.clone(),
            phase: self.phase.duplicate(),
            retry: self.retry.duplicate(),
            vendor_code: self.vendor_code.clone(),
            cause: self.cause.clone(),
        };
        assert(forall|members: Seq<(Seq<char>, Doc)>| #[trigger]
            route_members(members, result) == route_members(members, *self)) by {
            reveal(route_members);
        }
        assert(forall|members: Seq<(Seq<char>, Doc)>| #[trigger]
            lineage_members(members, result) == lineage_members(members, *self)) by {
            reveal(lineage_members);
        }
        assert(forall|members: Seq<(Seq<char>, Doc)>| #[trigger]
            rule_members(members, result) == rule_members(members, *self)) by {
            reveal(rule_members);
        }
        assert(forall|members: Seq<(Seq<char>, Doc)>| #[trigger]
            cause_members(members, result) == cause_members(members, *self)) by {
            reveal(cause_members);
        }
        result
    }
}

impl Clone for TargetCapabilityFailure {
    fn clone(&self) -> (result: Self)
        ensures
            result.doc() == self.doc(),
    {
        self.duplicate()
    }
}

/// The first `limit` characters that are no control characters.
pub open spec fn kept_characters(text: Seq<char>, limit: int) -> Seq<char>
    decreases text.len(),
{
    if text.len() == 0 {
        Seq::empty()
    } else {
        let kept = kept_characters(text.drop_last(), limit);
        if control(text.last()) || kept.len() >= limit {
            kept
        } else {
            kept.push(text.last())
        }
    }
}

/// A cause without control characters, and not longer than a diagnostic may be.
pub open spec fn sanitized(message: Seq<char>) -> Seq<char> {
    kept_characters(message, 512)
}

fn sanitize_cause(message: &str) -> (result: String)
    ensures
        result@ == sanitized(message@),
{
    let chars = chars_of(message);
    let mut kept = String::new();
    let mut count: usize = 0;
    let mut i: usize = 0;
    assert(chars@.take(0) =~= Seq::<char>::empty());
    while i < chars.len()
        invariant
            i <= chars@.len(),
            count <= 512,
            count == kept@.len(),
            kept@ == kept_characters(chars@.take(i as int), 512),
        decreases chars@.len() - i,
    {
        assert(chars@.take(i + 1).drop_last() =~= chars@.take(i as int));
        if count < 512 && !is_control(chars[i]) {
            kept.push(chars[i]);
            count += 1;
        }
        i += 1;
    }
    assert(chars@.take(i as int) =~= chars@);
    kept
}

/// The form of a failure of which only the code and the cause are known.
pub open spec fn bare_failure_doc(code: Seq<char>, message: Seq<char>) -> Doc {
    let members = Seq::<(Seq<char>, Doc)>::empty();
    let members = members.push(("class"@, FailureClass::TargetCapability.doc()));
    let members = members.push(("code"@, Doc::Str(code)));
    let members = members.push(("phase"@, FailurePhase::CapabilityQualification.doc()));
    let members = members.push(("retry"@, RetryClassification::NotRetryable.doc()));
    let members = members.push(("cause"@, Doc::Str(sanitized(message))));
    Doc::Obj(members)
}

/// The form of a failure of which only the code and the cause are known.
pub proof fn lemma_bare()
    ensures
        forall|failure: TargetCapabilityFailure, message: Seq<char>|
            failure.bare() && failure.cause->0@ == #[trigger] sanitized(message) ==>
                #[trigger] failure.doc() == bare_failure_doc(failure.code@, message),
{
    reveal(route_members);
    reveal(lineage_members);
    reveal(rule_members);
    reveal(cause_members);
}

/// The form of a failure of which only the code, the route and the cause are
/// known.
pub open spec fn routed_failure_doc(code: Seq<char>, route: Seq<char>, message: Seq<char>) -> Doc {
    let members = Seq::<(Seq<char>, Doc)>::empty();
    let members = members.push(("class"@, FailureClass::TargetCapability.doc()));
    let members = members.push(("code"@, Doc::Str(code)));
    let members = members.push(("route_id"@, Doc::Str(route)));
    let members = members.push(("phase"@, FailurePhase::CapabilityQualification.doc()));
    let members = members.push(("retry"@, RetryClassification::NotRetryable.doc()));
    let members = members.push(("cause"@, Doc::Str(sanitized(message))));
    Doc::Obj(members)
}

impl TargetCapabilityFailure {
    /// Only the class, the code, the phase, the retry rule and the cause are
    /// known.
    pub open spec fn bare(&self) -> bool {
        &&& self.class is TargetCapability
        &&& self.phase is CapabilityQualification
        &&& self.retry is NotRetryable
        &&& self.cause is Some
        &&& self.route_id is None
        &&& self.source is None
        &&& self.sink is None
        &&& self.source_transaction_id is None
        &&& self.event_identity is None
        &&& self.source_table_lineage is None
        &&& self.source_field_lineage is None
        &&& self.target_field_lineage is None
        &&& self.source_definition_fingerprint is None
        &&& self.target_definition_fingerprint is None
        &&& self.target_schema_fingerprint is None
        &&& self.target_server_build is None
        &&& self.capability_identity is None
        &&& self.conversion_rule is None
        &&& self.plan_digest is None
        &&& self.qualification is None
        &&& self.risk_code is None
        &&& self.vendor_code is None
    }

    pub fn new(message: &str) -> (result: Self)
        ensures
            result.bare(),
            result.code@ == "target_capability.unspecified"@,
            result.cause->0@ == sanitized(message@),
            result.doc() == bare_failure_doc("target_capability.unspecified"@, message@),
    {
        proof {
            lemma_bare();
        }
        Self {
            class: FailureClass::TargetCapability,
            code: "target_capability.unspecified".to_owned(),
            route_id: None,
            source: None,
            sink: None,
            source_transaction_id: None,
            event_identity: None,
            source_table_lineage: None,
            source_field_lineage: None,
            target_field_lineage: None,
            source_definition_fingerprint: None,
            target_definition_fingerprint: None,
            target_schema_fingerprint: None,
            target_server_build: None,
            capability_identity: None,
            conversion_rule: None,
            plan_digest: None,
            qualification: None,
            risk_code: None,
            vendor_code: None,
            phase: FailurePhase::CapabilityQualification,
            retry: RetryClassification::NotRetryable,
            cause: Some(sanitize_cause(message)),
        }
    }

    pub(crate) fn manifest(message: &str) -> (result: Self)
        ensures
            result.bare(),
            result.code@ == "target_capability.invalid_manifest"@,
            result.doc() == bare_failure_doc("target_capability.invalid_manifest"@, message@),
    {
        proof {
            lemma_bare();
        }
        Self::new(message).with_code("target_capability.invalid_manifest")
    }

    pub fn with_code(self, code: &str) -> (result: Self)
        ensures
            result.code@ == code@,
            result == (Self { code: result.code, ..self }),
    {
        Self { code: code.to_owned(), ..self }
    }

    pub fn with_route(self, route_id: &str) -> (result: Self)
        ensures
            result.route_id matches Some(route) && route@ == route_id@,
            result == (Self { route_id: result.route_id, ..self }),
    {
        Self { route_id: Some(route_id.to_owned()), ..self }
    }

    /// A bare failure that names its route.
    pub(crate) fn routed(self, route_id: &str, Ghost(message): Ghost<Seq<char>>) -> (result: Self)
        requires
            self.bare(),
            self.cause->0@ == sanitized(message),
        ensures
            result.doc() == routed_failure_doc(self.code@, route_id@, message),
    {
        proof {
            reveal(route_members);
            reveal(lineage_members);
            reveal(rule_members);
            reveal(cause_members);
        }
        self.with_route(route_id)
    }

    pub fn with_plan_digest(self, digest: &str) -> (result: Self)
        ensures
            result.plan_digest matches Some(plan) && plan@ == digest@,
            result == (Self { plan_digest: result.plan_digest, ..self }),
    {
        Self { plan_digest: Some(digest.to_owned()), ..self }
    }

    pub fn stable_code(&self) -> (result: &str)
        ensures
            result@ == self.code@,
    {
        self.code.as_str()
    }

    pub fn class(&self) -> (result: FailureClass)
        ensures
            result == self.class,
    {
        self.class
    }

    pub fn phase(&self) -> (result: FailurePhase)
        ensures
            result == self.phase,
    {
        self.phase
    }

    pub fn retry_classification(&self) -> (result: RetryClassification)
        ensures
            result == self.retry,
    {
        self.retry
    }

    pub fn is_retryable(&self) -> (result: bool)
        ensures
            result == (self.retry is Retryable),
    {
        matches!(self.retry, RetryClassification::Retryable)
    }

    /// The text of the failure.
    pub open spec fn text(&self) -> Seq<char> {
        let head = "Target Capability Failure ["@ + self.code@ + "]"@;
        match self.cause {
            Some(cause) => head + ": "@ + cause@,
            None => head,
        }
    }

    pub fn message(&self) -> (result: String)
        ensures
            result@ == self.text(),
    {
        let head = concat3("Target Capability Failure [", self.code.as_str(), "]");
        match &self.cause {
            Some(cause) => concat3(head.as_str(), ": ", cause.as_str()),
            None => head,
        }
    }
}

} // verus!
