//! JSON documents.
//!
//! A [`Json`] is the document that a contract value is written as. Its view, a
//! [`Doc`], is the mathematical model that the contract types share: two
//! values with one `Doc` are written, and digested, alike.
use crate::encoding::{digest_spelling, digest_text, text_digest};
use crate::read_json::{json_read, ReadDoc};
use crate::text::texts;
use vstd::prelude::*;
use vstd::utf8::encode_utf8;

verus! {

/// A JSON document, with the order of its object members.
pub enum Doc {
    Null,
    Bool(bool),
    Int(int),
    Str(Seq<char>),
    Arr(Seq<Doc>),
    Obj(Seq<(Seq<char>, Doc)>),
}

/// A JSON document to be written.
#[derive(Debug)]
pub enum Json {
    Null,
    Bool(bool),
    Signed(i64),
    Unsigned(u64),
    Text(String),
    Array(Vec<Json>),
    Object(Vec<Member>),
}

/// One member of a JSON object.
#[derive(Debug)]
pub struct Member {
    pub key: String,
    pub value: Json,
}

/// The document that a [`Json`] stands for.
pub open spec fn json_doc(json: Json) -> Doc
    decreases json,
{
    match json {
        Json::Null => Doc::Null,
        Json::Bool(value) => Doc::Bool(value),
        Json::Signed(value) => Doc::Int(value as int),
        Json::Unsigned(value) => Doc::Int(value as int),
        Json::Text(text) => Doc::Str(text@),
        Json::Array(items) => Doc::Arr(
            Seq::new(
                items@.len(),
                |i: int|
                    if 0 <= i < items@.len() {
                        json_doc(items@[i])
                    } else {
                        Doc::Null
                    },
            ),
        ),
        Json::Object(members) => Doc::Obj(
            Seq::new(
                members@.len(),
                |i: int|
                    if 0 <= i < members@.len() {
                        (members@[i].key@, json_doc(members@[i].value))
                    } else {
                        (Seq::empty(), Doc::Null)
                    },
            ),
        ),
    }
}

impl View for Json {
    type V = Doc;

    open spec fn view(&self) -> Doc {
        json_doc(*self)
    }
}

/// The documents of a list.
pub open spec fn docs_of(items: Seq<Json>) -> Seq<Doc> {
    Seq::new(items.len(), |i: int| items[i]@)
}

/// The members of an object.
pub open spec fn members_of(members: Seq<Member>) -> Seq<(Seq<char>, Doc)> {
    Seq::new(members.len(), |i: int| (members[i].key@, members[i].value@))
}

/// The members of an object that is being written.
pub struct Fields {
    members: Vec<Member>,
}

impl View for Fields {
    type V = Seq<(Seq<char>, Doc)>;

    closed spec fn view(&self) -> Seq<(Seq<char>, Doc)> {
        members_of(self.members@)
    }
}

impl Fields {
    pub fn new() -> (result: Self)
        ensures
            result@ == Seq::<(Seq<char>, Doc)>::empty(),
    {
        let result = Fields { members: Vec::new() };
        assert(result@ =~= Seq::<(Seq<char>, Doc)>::empty());
        result
    }

    /// Appends one member.
    pub fn put(&mut self, key: &str, value: Json)
        ensures
            final(self)@ == old(self)@.push((key@, value@)),
    {
        self.members.push(Member { key: key.to_owned(), value });
        assert(self@ =~= old(self)@.push((key@, value@)));
    }

    /// Appends a member whose value is a text.
    pub fn put_text(&mut self, key: &str, value: &str)
        ensures
            final(self)@ == old(self)@.push((key@, Doc::Str(value@))),
    {
        self.put(key, Json::Text(value.to_owned()));
    }

    /// Appends a member whose value is a text or null.
    pub fn put_optional_text(&mut self, key: &str, value: &Option<String>)
        ensures
            final(self)@ == old(self)@.push((key@, optional_text_doc(*value))),
    {
        match value {
            Some(text) => self.put(key, Json::Text(text.clone())),
            None => self.put(key, Json::Null),
        }
    }

    /// Appends a member whose value is a text, where there is one.
    pub fn put_present_text(&mut self, key: &str, value: &Option<String>)
        ensures
            final(self)@ == with_present_text(old(self)@, key@, *value),
    {
        if let Some(text) = value {
            self.put(key, Json::Text(text.clone()));
        }
    }

    /// Appends a member, where there is a value for it.
    pub fn put_present<T: Contract>(&mut self, key: &str, value: &Option<T>)
        ensures
            final(self)@ == with_present(old(self)@, key@, optional_doc(*value)),
    {
        if let Some(value) = value {
            self.put(key, value.to_json());
        }
    }

    /// Appends a member whose value may be null.
    pub fn put_nullable<T: Contract>(&mut self, key: &str, value: &Option<T>)
        ensures
            final(self)@ == old(self)@.push((key@, nullable_doc(*value))),
    {
        match value {
            Some(value) => self.put(key, value.to_json()),
            None => self.put(key, Json::Null),
        }
    }

    /// Appends a member whose value is a list of texts, where the list is not
    /// empty.
    pub fn put_present_texts(&mut self, key: &str, list: &Vec<String>)
        ensures
            final(self)@ == with_present_texts(old(self)@, key@, list@),
    {
        if list.len() > 0 {
            self.put(key, text_array(list));
        }
    }

    /// Appends a member whose value is a list, where the list is not empty.
    pub fn put_present_list<T: Contract>(&mut self, key: &str, list: &Vec<T>)
        ensures
            final(self)@ == with_present_list(old(self)@, key@, list@),
    {
        if list.len() > 0 {
            self.put(key, json_array(list));
        }
    }

    /// Appends a member whose value is a number.
    pub fn put_unsigned(&mut self, key: &str, value: u64)
        ensures
            final(self)@ == old(self)@.push((key@, Doc::Int(value as int))),
    {
        self.put(key, Json::Unsigned(value));
    }

    /// Appends a member whose value is a signed number.
    pub fn put_signed(&mut self, key: &str, value: i64)
        ensures
            final(self)@ == old(self)@.push((key@, Doc::Int(value as int))),
    {
        self.put(key, Json::Signed(value));
    }

    /// Appends a member whose value is a truth value.
    pub fn put_bool(&mut self, key: &str, value: bool)
        ensures
            final(self)@ == old(self)@.push((key@, Doc::Bool(value))),
    {
        self.put(key, Json::Bool(value));
    }

    pub fn finish(self) -> (result: Json)
        ensures
            result@ == Doc::Obj(self@),
    {
        let result = Json::Object(self.members);
        assert(result@->Obj_0 =~= self@);
        result
    }
}

/// A text, or null where there is none.
pub open spec fn optional_text_doc(value: Option<String>) -> Doc {
    match value {
        Some(text) => Doc::Str(text@),
        None => Doc::Null,
    }
}

/// The members, followed by a text member where there is a text.
pub open spec fn with_present_text(
    members: Seq<(Seq<char>, Doc)>,
    key: Seq<char>,
    value: Option<String>,
) -> Seq<(Seq<char>, Doc)> {
    match value {
        Some(text) => members.push((key, Doc::Str(text@))),
        None => members,
    }
}

/// The members, followed by one member where there is a value for it.
pub open spec fn with_present(
    members: Seq<(Seq<char>, Doc)>,
    key: Seq<char>,
    value: Option<Doc>,
) -> Seq<(Seq<char>, Doc)> {
    match value {
        Some(doc) => members.push((key, doc)),
        None => members,
    }
}

/// The members, followed by a list of texts where it is not empty.
pub open spec fn with_present_texts(
    members: Seq<(Seq<char>, Doc)>,
    key: Seq<char>,
    list: Seq<String>,
) -> Seq<(Seq<char>, Doc)> {
    if list.len() > 0 {
        members.push((key, texts_doc(list)))
    } else {
        members
    }
}

/// The members, followed by a list where it is not empty.
pub open spec fn with_present_list<T: Contract>(
    members: Seq<(Seq<char>, Doc)>,
    key: Seq<char>,
    list: Seq<T>,
) -> Seq<(Seq<char>, Doc)> {
    if list.len() > 0 {
        members.push((key, Doc::Arr(docs(list))))
    } else {
        members
    }
}

pub fn array(items: Vec<Json>) -> (result: Json)
    ensures
        result@ == Doc::Arr(docs_of(items@)),
{
    let result = Json::Array(items);
    assert(result@->Arr_0 =~= docs_of(items@));
    result
}

/// An array of texts.
pub open spec fn texts_doc(list: Seq<String>) -> Doc {
    Doc::Arr(Seq::new(list.len(), |i: int| Doc::Str(list[i]@)))
}

pub fn text_array(list: &Vec<String>) -> (result: Json)
    ensures
        result@ == texts_doc(list@),
{
    let mut items: Vec<Json> = Vec::new();
    let mut i: usize = 0;
    while i < list.len()
        invariant
            i <= list@.len(),
            items@.len() == i,
            forall|k: int| 0 <= k < i ==> (#[trigger] items@[k])@ == Doc::Str(list@[k]@),
        decreases list@.len() - i,
    {
        items.push(Json::Text(list[i].clone()));
        i += 1;
    }
    assert(docs_of(items@) =~= texts_doc(list@)->Arr_0);
    array(items)
}

/// A contract value: it has a JSON form, which is all that is observable of
/// it, and it can be duplicated.
pub trait Contract: Sized {
    /// The JSON form.
    spec fn doc(&self) -> Doc;

    fn to_json(&self) -> (result: Json)
        ensures
            result@ == self.doc(),
    ;

    fn duplicate(&self) -> (result: Self)
        ensures
            result.doc() == self.doc(),
    ;
}

/// The form of a value, where there is one.
pub open spec fn optional_doc<T: Contract>(value: Option<T>) -> Option<Doc> {
    match value {
        Some(value) => Some(value.doc()),
        None => None,
    }
}

/// The form of a value, or null where there is none.
pub open spec fn nullable_doc<T: Contract>(value: Option<T>) -> Doc {
    match value {
        Some(value) => value.doc(),
        None => Doc::Null,
    }
}

pub fn duplicate_optional<T: Contract>(value: &Option<T>) -> (result: Option<T>)
    ensures
        optional_doc(result) == optional_doc(*value),
        nullable_doc(result) == nullable_doc(*value),
{
    match value {
        Some(value) => Some(value.duplicate()),
        None => None,
    }
}

/// The JSON forms of a list of values.
pub open spec fn docs<T: Contract>(list: Seq<T>) -> Seq<Doc> {
    Seq::new(list.len(), |i: int| list[i].doc())
}

pub fn json_array<T: Contract>(list: &Vec<T>) -> (result: Json)
    ensures
        result@ == Doc::Arr(docs(list@)),
{
    let mut items: Vec<Json> = Vec::new();
    let mut i: usize = 0;
    while i < list.len()
        invariant
            i <= list@.len(),
            items@.len() == i,
            forall|k: int| 0 <= k < i ==> (#[trigger] items@[k])@ == list@[k].doc(),
        decreases list@.len() - i,
    {
        items.push(list[i].to_json());
        i += 1;
    }
    assert(docs_of(items@) =~= docs(list@));
    array(items)
}

/// Whether two documents are the same.
pub fn same_json(left: &Json, right: &Json) -> (result: bool)
    ensures
        result == (left@ == right@),
    decreases left,
{
    match (left, right) {
        (Json::Null, Json::Null) => true,
        (Json::Bool(a), Json::Bool(b)) => *a == *b,
        (Json::Signed(a), Json::Signed(b)) => *a == *b,
        (Json::Unsigned(a), Json::Unsigned(b)) => *a == *b,
        (Json::Signed(a), Json::Unsigned(b)) => *a as i128 == *b as i128,
        (Json::Unsigned(a), Json::Signed(b)) => *a as i128 == *b as i128,
        (Json::Text(a), Json::Text(b)) => *a == *b,
        (Json::Array(a), Json::Array(b)) => {
            if a.len() != b.len() {
                assert(left@->Arr_0.len() != right@->Arr_0.len());
                return false;
            }
            let mut i: usize = 0;
            while i < a.len()
                invariant
                    i <= a@.len() == b@.len(),
                    *left == Json::Array(*a),
                    *right == Json::Array(*b),
                    forall|k: int| 0 <= k < i ==> (#[trigger] a@[k])@ == b@[k]@,
                decreases a@.len() - i,
            {
                if !same_json(&a[i], &b[i]) {
                    assert(left@->Arr_0[i as int] == a@[i as int]@);
                    assert(right@->Arr_0[i as int] == b@[i as int]@);
                    return false;
                }
                i += 1;
            }
            assert(left@->Arr_0 =~= right@->Arr_0);
            true
        },
        (Json::Object(a), Json::Object(b)) => {
            if a.len() != b.len() {
                assert(left@->Obj_0.len() != right@->Obj_0.len());
                return false;
            }
            let mut i: usize = 0;
            while i < a.len()
                invariant
                    i <= a@.len() == b@.len(),
                    *left == Json::Object(*a),
                    *right == Json::Object(*b),
                    forall|k: int|
                        0 <= k < i ==> (#[trigger] a@[k]).key@ == b@[k].key@ && a@[k].value@
                            == b@[k].value@,
                decreases a@.len() - i,
            {
                if a[i].key != b[i].key || !same_json(&a[i].value, &b[i].value) {
                    assert(left@->Obj_0[i as int] == (a@[i as int].key@, a@[i as int].value@));
                    assert(right@->Obj_0[i as int] == (b@[i as int].key@, b@[i as int].value@));
                    return false;
                }
                i += 1;
            }
            assert(left@->Obj_0 =~= right@->Obj_0);
            true
        },
        _ => false,
    }
}

/// Whether two contract values are the same.
pub fn same_value<T: Contract>(left: &T, right: &T) -> (result: bool)
    ensures
        result == (left.doc() == right.doc()),
{
    let a = left.to_json();
    let b = right.to_json();
    same_json(&a, &b)
}

pub fn duplicate_list<T: Contract>(list: &Vec<T>) -> (result: Vec<T>)
    ensures
        docs(result@) == docs(list@),
        result@.len() == list@.len(),
{
    let mut result: Vec<T> = Vec::new();
    let mut i: usize = 0;
    while i < list.len()
        invariant
            i <= list@.len(),
            result@.len() == i,
            forall|k: int| 0 <= k < i ==> (#[trigger] result@[k]).doc() == list@[k].doc(),
        decreases list@.len() - i,
    {
        result.push(list[i].duplicate());
        i += 1;
    }
    assert(docs(result@) =~= docs(list@));
    result
}

pub fn duplicate_texts(list: &Vec<String>) -> (result: Vec<String>)
    ensures
        result@ == list@,
{
    let mut result: Vec<String> = Vec::new();
    let mut i: usize = 0;
    while i < list.len()
        invariant
            i <= list@.len(),
            result@ == list@.take(i as int),
        decreases list@.len() - i,
    {
        result.push(list[i].clone());
        i += 1;
        assert(result@ =~= list@.take(i as int));
    }
    assert(list@.take(i as int) =~= list@);
    result
}

// ---------------------------------------------------------------------------
// Writing and reading
// ---------------------------------------------------------------------------

/// The compact text that `serde_json` writes a document as.
pub uninterp spec fn json_text(document: Doc) -> Seq<char>;

#[verifier::external_type_specification]
#[verifier::external_body]
pub struct ExSerdeJsonValue(serde_json::Value);

/// `serde_json::Value`'s variants for the same document, one for one.
#[verifier::external_body]
fn serde_value(json: &Json) -> serde_json::Value {
    match json {
        Json::Null => serde_json::Value::Null,
        Json::Bool(value) => serde_json::Value::Bool(*value),
        Json::Signed(value) => serde_json::Value::from(*value),
        Json::Unsigned(value) => serde_json::Value::from(*value),
        Json::Text(text) => serde_json::Value::String(text.clone()),
        Json::Array(items) => items.iter().map(serde_value).collect(),
        Json::Object(members) => serde_json::Value::Object(
            members.iter().map(|m| (m.key.clone(), serde_value(&m.value))).collect()),
    }
}

/// A member that is a text or a whole number, and what it is read back as.
pub open spec fn scalar_read(value: Doc) -> Option<ReadDoc> {
    match value {
        Doc::Str(text) => Some(ReadDoc::Text(text)),
        Doc::Int(number) => if 0 <= number <= u64::MAX {
            Some(ReadDoc::Whole(number as u64))
        } else {
            None
        },
        _ => None,
    }
}

/// An object whose members have different keys and are texts and whole numbers.
pub open spec fn flat_object(document: Doc) -> bool {
    document matches Doc::Obj(members) && {
        &&& forall|i: int| 0 <= i < members.len() ==> scalar_read((#[trigger] members[i]).1) is Some
        &&& forall|i: int, j: int|
            #![trigger members[i], members[j]]
            0 <= i < j < members.len() ==> members[i].0 != members[j].0
    }
}

/// What a flat object is read back as.
pub open spec fn flat_read(document: Doc) -> ReadDoc {
    let members = document->Obj_0;
    ReadDoc::Object(
        Seq::new(members.len(), |i: int| (members[i].0, scalar_read(members[i].1)->0)),
    )
}

/// A text of a flat object is read as that object.
pub open spec fn reads_back(text: Seq<char>, document: Doc) -> bool {
    flat_object(document) ==> json_read(encode_utf8(text)) == Ok::<_, Seq<char>>(
        flat_read(document),
    )
}

/// `serde_json::to_string` on the document, members in their order: the text
/// is a function of the document. A flat object is read back as it was written.
#[verifier::external_body]
pub(crate) fn write_json(json: &Json) -> (result: String)
    ensures
        result@ == json_text(json@),
        reads_back(result@, json@),
{
    serde_json::to_string(&serde_value(json)).expect("a JSON document has a text")
}

/// The texts that `serde_json` reads a JSON array of strings as; `None` where
/// the text is no such array.
pub uninterp spec fn json_text_list(text: Seq<char>) -> Option<Seq<Seq<char>>>;

pub open spec fn list_view(list: Option<Vec<String>>) -> Option<Seq<Seq<char>>> {
    match list {
        Some(list) => Some(texts(list@)),
        None => None,
    }
}

/// `serde_json::from_str` into a list of strings: the list is a function of the
/// text, and there is none where `serde_json` reports an error.
#[verifier::external_body]
pub(crate) fn read_text_list(text: &str) -> (result: Option<Vec<String>>)
    ensures
        list_view(result) == json_text_list(text@),
{
    serde_json::from_str::<Vec<String>>(text).ok()
}

/// The digest of a document: SHA-256 of its compact text, in hexadecimal.
pub open spec fn digest(document: Doc) -> Seq<char> {
    text_digest(json_text(document))
}

/// Two different documents have one digest.
pub open spec fn collide(a: Doc, b: Doc) -> bool {
    a != b && digest(a) == digest(b)
}

pub fn digest_json(json: &Json) -> (result: String)
    ensures
        result@ == digest(json@),
        digest_spelling(result@),
{
    let text = write_json(json);
    digest_text(text.as_str())
}

/// Digest the canonical JSON representation of a contract value. All contract
/// types have a fixed member order and sequence-preserving arrays, so the
/// digest is a function of the value alone.
pub fn stable_digest<T: Contract>(value: &T) -> (result: String)
    ensures
        result@ == digest(value.doc()),
        digest_spelling(result@),
{
    let json = value.to_json();
    digest_json(&json)
}

} // verus!
