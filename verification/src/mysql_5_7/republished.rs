//! Mappings that a later MySQL version publishes under its own identity.
use crate::change_event::compatibility::types::{ConnectorIdentity, SourceTypeMapping};
use crate::json::{digest, stable_digest, Contract, Doc};
use crate::mysql_5_7::type_mapping::{
    keeps_text, mapping_evidence, source_mapping, source_type_mapping, view_of,
};
use crate::text::{concat, lower, strip_prefix, trim};
use vstd::prelude::*;

verus! {

/// The form of a mapping that is bound to no catalog.
pub open spec fn unbound_mapping_doc(
    version: Seq<char>,
    native_type: Seq<char>,
    logical: Doc,
    mapping_id: Seq<char>,
    mapping_version: Seq<char>,
    evidence: Seq<char>,
) -> Doc {
    let connector = Seq::<(Seq<char>, Doc)>::empty();
    let connector = connector.push(("kind"@, Doc::Str("mysql"@)));
    let connector = connector.push(("version"@, Doc::Str(version)));
    let members = Seq::<(Seq<char>, Doc)>::empty();
    let members = members.push(("connector"@, Doc::Obj(connector)));
    let members = members.push(("native_type"@, Doc::Str(native_type)));
    let members = members.push(("logical_type"@, logical));
    let members = members.push(("mapping_id"@, Doc::Str(mapping_id)));
    let members = members.push(("mapping_version"@, Doc::Str(mapping_version)));
    let members = members.push(("evidence_digest"@, Doc::Str(evidence)));
    Doc::Obj(members)
}

/// The form of the mapping of a native type under another identity. Its evidence
/// is the digest of the mapping that still holds the evidence of MySQL 5.7.
pub open spec fn republished_mapping(
    native_type: Seq<char>,
    charset: Option<Seq<char>>,
    collation: Option<Seq<char>>,
    version: Seq<char>,
    prefix: Seq<char>,
    mapping_version: Seq<char>,
) -> Result<Doc, Seq<char>> {
    match source_mapping(native_type, charset) {
        Err(complaint) => Err(complaint.0 + ": "@ + complaint.1),
        Ok((base, logical)) => {
            let native = lower(trim(native_type));
            let id = prefix + ("source-type."@ + base);
            let own = unbound_mapping_doc(
                version,
                native,
                logical,
                id,
                mapping_version,
                mapping_evidence(native, charset, collation, logical),
            );
            Ok(unbound_mapping_doc(version, native, logical, id, mapping_version, digest(own)))
        },
    }
}

/// What republishing has given.
pub open spec fn mapping_of(result: Result<SourceTypeMapping, String>) -> Result<Doc, Seq<char>> {
    match result {
        Ok(mapping) => Ok(mapping.doc()),
        Err(message) => Err(message@),
    }
}

/// Map a column declaration as MySQL 5.7 does, and publish the mapping under
/// another identity.
pub(crate) fn republish(
    native_type: &str,
    charset: Option<&str>,
    collation: Option<&str>,
    version: &str,
    prefix: &str,
    mapping_version: &str,
) -> (result: Result<SourceTypeMapping, String>)
    ensures
        mapping_of(result) == republished_mapping(
            native_type@,
            view_of(charset),
            view_of(collation),
            version@,
            prefix@,
            mapping_version@,
        ),
        result matches Ok(mapping) ==> keeps_text(
            mapping.logical_type,
            native_type@,
            view_of(charset),
        ),
{
    let mut mapping = match source_type_mapping(native_type, charset, collation) {
        Ok(mapping) => mapping,
        Err(error) => return Err(error.message()),
    };
    let ghost base = (source_mapping(native_type@, view_of(charset))->Ok_0).0;
    proof {
        reveal_strlit("mysql57.");
        reveal_strlit("source-type.");
        reveal_strlit("mysql57.source-type.");
        assert(mapping.mapping_id@ =~= "mysql57."@ + ("source-type."@ + base));
        assert(mapping.mapping_id@.take(8) =~= "mysql57."@);
        assert(mapping.mapping_id@.skip(8) =~= "source-type."@ + base);
    }
    let name = match strip_prefix(mapping.mapping_id.as_str(), "mysql57.") {
        Some(name) => name,
        None => "source-type.unknown".to_owned(),
    };
    mapping.connector = ConnectorIdentity::new("mysql", version);
    mapping.mapping_id = concat(prefix, name.as_str());
    mapping.mapping_version = mapping_version.to_owned();
    let evidence = stable_digest(&mapping);
    mapping.evidence_digest = Some(evidence);
    Ok(mapping)
}

} // verus!
