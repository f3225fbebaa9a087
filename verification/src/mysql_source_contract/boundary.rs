//! The boundary between a snapshot and the changes behind it.
use crate::change_event::model::SourceCursor;
use crate::encoding::utf8_bytes;
use crate::json::{flat_object, flat_read, json_text, write_json, Doc, Fields};
use crate::number::{decimal, decimal_text};
use crate::read_json::{
    json_read, lookup_member, member_of, read_doc, read_json, Parsed, ReadDoc,
};
use crate::text::{concat, concat5, same};
use vstd::prelude::*;
use vstd::utf8::encode_utf8;

verus! {

pub const BOUNDARY_FORMAT: &'static str = "mysql.snapshot-boundary.v1";

/// What a boundary names: the way in which changes are found behind it, a
/// position, and the transactions that are in the snapshot.
#[derive(Debug)]
pub struct Boundary {
    pub mode: String,
    pub file: String,
    pub position: u64,
    pub executed_gtids: String,
}

/// What a boundary names.
pub type BoundaryParts = (Seq<char>, Seq<char>, u64, Seq<char>);

impl Boundary {
    pub open spec fn parts(&self) -> BoundaryParts {
        (self.mode@, self.file@, self.position, self.executed_gtids@)
    }
}

/// The document of a boundary. The members stand in the order of their keys.
pub open spec fn boundary_doc(boundary: BoundaryParts) -> Doc {
    let members = Seq::<(Seq<char>, Doc)>::empty();
    let members = members.push(("executed_gtids"@, Doc::Str(boundary.3)));
    let members = members.push(("file"@, Doc::Str(boundary.1)));
    let members = members.push(("mode"@, Doc::Str(boundary.0)));
    let members = members.push(("position"@, Doc::Int(boundary.2 as int)));
    Doc::Obj(members)
}

/// A member that has to be there.
pub open spec fn wanted(document: ReadDoc, name: Seq<char>) -> Result<ReadDoc, Seq<char>> {
    match lookup_member(document, name) {
        Some(member) => Ok(member),
        None => Err("snapshot boundary is missing "@ + name),
    }
}

/// A member that has to be a text.
pub open spec fn wanted_text(document: ReadDoc, name: Seq<char>, complaint: Seq<char>) -> Result<
    Seq<char>,
    Seq<char>,
> {
    match wanted(document, name) {
        Err(message) => Err(message),
        Ok(ReadDoc::Text(text)) => Ok(text),
        Ok(_) => Err(complaint),
    }
}

/// What a document names, or what is wrong with it.
pub open spec fn document_boundary(document: ReadDoc) -> Result<BoundaryParts, Seq<char>> {
    match wanted_text(document, "mode"@, "snapshot boundary mode is not text"@) {
        Err(message) => Err(message),
        Ok(mode) => match wanted_text(
            document,
            "file"@,
            "snapshot boundary file is not text"@,
        ) {
            Err(message) => Err(message),
            Ok(file) => match wanted(document, "position"@) {
                Err(message) => Err(message),
                Ok(ReadDoc::Whole(position)) => match wanted_text(
                    document,
                    "executed_gtids"@,
                    "snapshot boundary GTID set is not text"@,
                ) {
                    Err(message) => Err(message),
                    Ok(gtids) => Ok((mode, file, position, gtids)),
                },
                Ok(_) => Err("snapshot boundary position is not an integer"@),
            },
        },
    }
}

/// What a cursor names as a boundary, or why it names none.
pub open spec fn cursor_boundary(cursor: SourceCursor) -> Result<BoundaryParts, Seq<char>> {
    if cursor.format@ != BOUNDARY_FORMAT@ {
        Err("unsupported snapshot boundary cursor"@)
    } else {
        match json_read(encode_utf8(cursor.value@)) {
            Err(message) => Err(message),
            Ok(document) => document_boundary(document),
        }
    }
}

/// What reading has given.
pub open spec fn boundary_of(result: Result<Boundary, String>) -> Result<
    BoundaryParts,
    Seq<char>,
> {
    match result {
        Ok(boundary) => Ok(boundary.parts()),
        Err(message) => Err(message@),
    }
}

proof fn lemma_boundary_is_flat(boundary: BoundaryParts)
    ensures
        flat_object(boundary_doc(boundary)),
        document_boundary(flat_read(boundary_doc(boundary))) == Ok::<_, Seq<char>>(boundary),
{
    reveal_strlit("executed_gtids");
    reveal_strlit("file");
    reveal_strlit("mode");
    reveal_strlit("position");
    let members = boundary_doc(boundary)->Obj_0;
    assert("file"@[0] != "mode"@[0]);
    assert("executed_gtids"@.len() == 14 && "file"@.len() == 4 && "mode"@.len() == 4
        && "position"@.len() == 8);
    assert forall|i: int, j: int|
        #![trigger members[i], members[j]]
        0 <= i < j < members.len() implies members[i].0 != members[j].0 by {
        assert(members[0].0.len() == 14 && members[1].0 == "file"@ && members[2].0 == "mode"@
            && members[3].0.len() == 8);
    }
    let read = flat_read(boundary_doc(boundary))->Object_0;
    assert(read.len() == 4);
    reveal_with_fuel(member_of, 5);
    assert(read.last() == ("position"@, ReadDoc::Whole(boundary.2)));
    assert(read.drop_last().last() == ("mode"@, ReadDoc::Text(boundary.0)));
    assert(read.drop_last().drop_last().last() == ("file"@, ReadDoc::Text(boundary.1)));
    assert(read.drop_last().drop_last().drop_last().last() == (
        "executed_gtids"@,
        ReadDoc::Text(boundary.3),
    ));
}

/// The cursor of a boundary. Reading it gives the boundary back.
pub fn boundary_cursor(
    mode: &str,
    file: &str,
    position: u64,
    executed_gtids: &str,
) -> (result: SourceCursor)
    ensures
        result.format@ == BOUNDARY_FORMAT@,
        result.value@ == json_text(
            boundary_doc((mode@, file@, position, executed_gtids@)),
        ),
        result.display@ == mode@ + ":"@ + file@ + ":"@ + decimal(position as nat),
        cursor_boundary(result) == Ok::<_, Seq<char>>((mode@, file@, position, executed_gtids@)),
{
    let mut fields = Fields::new();
    fields.put_text("executed_gtids", executed_gtids);
    fields.put_text("file", file);
    fields.put_text("mode", mode);
    fields.put_unsigned("position", position);
    let document = fields.finish();
    proof {
        lemma_boundary_is_flat((mode@, file@, position, executed_gtids@));
    }
    let value = write_json(&document);
    let number = decimal_text(position as u128);
    SourceCursor {
        format: BOUNDARY_FORMAT.to_owned(),
        value,
        display: concat5(mode, ":", file, ":", number.as_str()),
    }
}

fn want<'a>(document: &'a Parsed, name: &str) -> (result: Result<&'a Parsed, String>)
    ensures
        match result {
            Ok(member) => wanted(read_doc(*document), name@) == Ok::<_, Seq<char>>(
                read_doc(*member),
            ),
            Err(message) => wanted(read_doc(*document), name@) == Err::<ReadDoc, _>(message@),
        },
{
    match document.member(name) {
        Some(member) => Ok(member),
        None => Err(concat("snapshot boundary is missing ", name)),
    }
}

fn want_text(document: &Parsed, name: &str, complaint: &str) -> (result: Result<String, String>)
    ensures
        (match result {
            Ok(text) => Ok(text@),
            Err(message) => Err(message@),
        }) == wanted_text(read_doc(*document), name@, complaint@),
{
    match want(document, name) {
        Err(message) => Err(message),
        Ok(member) => match member.as_text() {
            Some(text) => Ok(text.to_owned()),
            None => Err(complaint.to_owned()),
        },
    }
}

/// What a document that has been read names as a boundary.
pub fn read_boundary(document: &Parsed) -> (result: Result<Boundary, String>)
    ensures
        boundary_of(result) == document_boundary(read_doc(*document)),
{
    let mode = match want_text(document, "mode", "snapshot boundary mode is not text") {
        Ok(mode) => mode,
        Err(message) => return Err(message),
    };
    let file = match want_text(document, "file", "snapshot boundary file is not text") {
        Ok(file) => file,
        Err(message) => return Err(message),
    };
    let position: u64 = match want(document, "position") {
        Err(message) => return Err(message),
        Ok(member) => match member.as_whole() {
            Some(position) => position,
            None => return Err("snapshot boundary position is not an integer".to_owned()),
        },
    };
    let executed_gtids = match want_text(
        document,
        "executed_gtids",
        "snapshot boundary GTID set is not text",
    ) {
        Ok(gtids) => gtids,
        Err(message) => return Err(message),
    };
    Ok(Boundary { mode, file, position, executed_gtids })
}

/// What a cursor names as a boundary.
pub fn decode_snapshot_boundary(cursor: &SourceCursor) -> (result: Result<Boundary, String>)
    ensures
        boundary_of(result) == cursor_boundary(*cursor),
{
    if !same(cursor.format.as_str(), BOUNDARY_FORMAT) {
        return Err("unsupported snapshot boundary cursor".to_owned());
    }
    match read_json(&utf8_bytes(cursor.value.as_str())) {
        Ok(document) => read_boundary(&document),
        Err(message) => Err(message),
    }
}

} // verus!
