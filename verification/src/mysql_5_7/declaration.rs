//! Native type declarations of the catalog.
use crate::text::{
    chars_of, concat, concat3, contains_char, debug_spelling, debug_text, find_last, first_index,
    is_white_space, last_index, lower, same, split, split_text, split_words, text_between, texts,
    to_lower, trim, trimmed, white_space, words,
};
use vstd::prelude::*;

verus! {

/// A declaration that has no lossless mapping.
#[derive(Debug, Clone, PartialEq, Eq)]
pub struct SourceTypeMappingError {
    code: &'static str,
    message: String,
}

/// The code of a declaration that is malformed or out of bounds.
pub const INVALID_DECLARATION: &'static str = "mysql57.source_type.invalid_declaration";

/// The code of a declaration without a mapping.
pub const UNSUPPORTED_TYPE: &'static str = "mysql57.source_type.unsupported";

/// A code and a message.
pub type Complaint = (Seq<char>, Seq<char>);

pub open spec fn invalid(message: Seq<char>) -> Complaint {
    (INVALID_DECLARATION@, message)
}

pub open spec fn unsupported(base: Seq<char>) -> Complaint {
    (
        UNSUPPORTED_TYPE@,
        "MySQL 5.7 native type "@ + debug_text(base) + " has no lossless LogicalType mapping"@,
    )
}

impl SourceTypeMappingError {
    pub closed spec fn complaint(&self) -> Complaint {
        (self.code@, self.message@)
    }

    pub(crate) fn invalid(message: &str) -> (result: Self)
        ensures
            result.complaint() == invalid(message@),
    {
        Self { code: INVALID_DECLARATION, message: message.to_owned() }
    }

    pub(crate) fn unsupported(base: &str) -> (result: Self)
        ensures
            result.complaint() == unsupported(base@),
    {
        let spelled = debug_spelling(base);
        Self {
            code: UNSUPPORTED_TYPE,
            message: concat3(
                "MySQL 5.7 native type ",
                spelled.as_str(),
                " has no lossless LogicalType mapping",
            ),
        }
    }

    pub fn code(&self) -> (result: &'static str)
        ensures
            result@ == self.complaint().0,
    {
        self.code
    }

    /// The code and the message as one text.
    pub fn message(&self) -> (result: String)
        ensures
            result@ == self.complaint().0 + ": "@ + self.complaint().1,
    {
        concat3(self.code, ": ", self.message.as_str())
    }
}

// ---------------------------------------------------------------------------
// Quoted labels
// ---------------------------------------------------------------------------

/// The character that an escaped one stands for.
pub open spec fn unescaped(c: char) -> char {
    if c == '0' {
        '\0'
    } else if c == 'b' {
        '\u{0008}'
    } else if c == 'n' {
        '\n'
    } else if c == 'r' {
        '\r'
    } else if c == 't' {
        '\t'
    } else if c == 'Z' {
        '\u{001a}'
    } else {
        c
    }
}

fn unescape(c: char) -> (result: char)
    ensures
        result == unescaped(c),
{
    if c == '0' {
        '\0'
    } else if c == 'b' {
        '\u{0008}'
    } else if c == 'n' {
        '\n'
    } else if c == 'r' {
        '\r'
    } else if c == 't' {
        '\t'
    } else if c == 'Z' {
        '\u{001a}'
    } else {
        c
    }
}

/// What reading a label behind its opening quote comes to.
#[verifier::ext_equal]
pub enum Label {
    /// The text ends behind a backslash.
    Dangling,
    /// The text ends before the closing quote.
    Open,
    /// The label, and what follows its closing quote.
    Closed(Seq<char>, Seq<char>),
}

/// Reads a label: a backslash escapes the next character, two quotes stand for
/// one, and one quote ends the label.
pub open spec fn label(text: Seq<char>, read: Seq<char>) -> Label
    decreases text.len(),
{
    if text.len() == 0 {
        Label::Open
    } else if text[0] == '\\' {
        if text.len() == 1 {
            Label::Dangling
        } else {
            label(text.skip(2), read.push(unescaped(text[1])))
        }
    } else if text[0] == '\'' {
        if text.len() > 1 && text[1] == '\'' {
            label(text.skip(2), read.push('\''))
        } else {
            Label::Closed(read, text.skip(1))
        }
    } else {
        label(text.skip(1), read.push(text[0]))
    }
}

pub proof fn lemma_label_ends(text: Seq<char>, read: Seq<char>)
    ensures
        label(text, read) matches Label::Closed(_, rest) ==> rest.len() < text.len(),
    decreases text.len(),
{
    if text.len() == 0 {
    } else if text[0] == '\\' {
        if text.len() > 1 {
            lemma_label_ends(text.skip(2), read.push(unescaped(text[1])));
        }
    } else if text[0] == '\'' {
        if text.len() > 1 && text[1] == '\'' {
            lemma_label_ends(text.skip(2), read.push('\''));
        }
    } else {
        lemma_label_ends(text.skip(1), read.push(text[0]));
    }
}

/// The text from its first character that is not white space.
pub open spec fn without_leading_space(text: Seq<char>) -> Seq<char>
    decreases text.len(),
{
    if text.len() > 0 && white_space(text[0]) {
        without_leading_space(text.drop_first())
    } else {
        text
    }
}

pub proof fn lemma_without_leading_space(text: Seq<char>)
    ensures
        without_leading_space(text).len() <= text.len(),
    decreases text.len(),
{
    if text.len() > 0 && white_space(text[0]) {
        lemma_without_leading_space(text.drop_first());
    }
}

/// The members that a list of quoted labels declares, behind those known.
pub open spec fn quoted_members(text: Seq<char>, known: Seq<Seq<char>>) -> Result<
    Seq<Seq<char>>,
    Complaint,
>
    decreases text.len(),
{
    let rest = without_leading_space(text);
    if rest.len() == 0 {
        if known.len() == 0 {
            Err(invalid("ENUM/SET requires at least one member"@))
        } else {
            Ok(known)
        }
    } else if rest[0] != '\'' {
        Err(invalid("ENUM/SET members must use single-quoted labels"@))
    } else {
        proof {
            lemma_without_leading_space(text);
            lemma_label_ends(rest.skip(1), Seq::empty());
        }
        match label(rest.skip(1), Seq::empty()) {
            Label::Dangling => Err(invalid("ENUM/SET label has a dangling escape"@)),
            Label::Open => Err(
                invalid("ENUM/SET label is empty, unterminated, or contains NUL"@),
            ),
            Label::Closed(member, after) => {
                proof {
                    lemma_without_leading_space(after);
                }
                let after = without_leading_space(after);
                if member.len() == 0 || member.contains('\0') {
                    Err(invalid("ENUM/SET label is empty, unterminated, or contains NUL"@))
                } else if known.contains(member) {
                    Err(invalid("ENUM/SET labels must be unique"@))
                } else if after.len() == 0 {
                    Ok(known.push(member))
                } else if after[0] == ',' {
                    quoted_members(after.skip(1), known.push(member))
                } else {
                    Err(invalid("ENUM/SET members must be comma separated"@))
                }
            },
        }
    }
}

fn skip_space(chars: &Vec<char>, from: usize) -> (result: usize)
    requires
        from <= chars@.len(),
    ensures
        from <= result <= chars@.len(),
        chars@.skip(result as int) == without_leading_space(chars@.skip(from as int)),
{
    let mut at: usize = from;
    while at < chars.len() && is_white_space(chars[at])
        invariant
            from <= at <= chars@.len(),
            without_leading_space(chars@.skip(from as int)) == without_leading_space(
                chars@.skip(at as int),
            ),
        decreases chars@.len() - at,
    {
        assert(chars@.skip(at as int)[0] == chars@[at as int]);
        assert(chars@.skip(at as int).drop_first() =~= chars@.skip(at + 1));
        at += 1;
    }
    proof {
        if at < chars@.len() {
            assert(chars@.skip(at as int)[0] == chars@[at as int]);
        }
    }
    at
}

/// Where reading a label ended.
enum Read {
    Dangling,
    Open,
    Closed(String, usize),
}

/// What was read of a label.
spec fn read_label_view(read: Read, chars: Seq<char>) -> Label {
    match read {
        Read::Dangling => Label::Dangling,
        Read::Open => Label::Open,
        Read::Closed(member, at) => Label::Closed(member@, chars.skip(at as int)),
    }
}

fn read_label(chars: &Vec<char>, from: usize) -> (result: Read)
    requires
        from <= chars@.len(),
    ensures
        read_label_view(result, chars@) == label(chars@.skip(from as int), Seq::empty()),
        result matches Read::Closed(_, at) ==> from < at <= chars@.len(),
{
    let mut member = String::new();
    let mut at: usize = from;
    let length: usize = chars.len();
    while at < length
        invariant
            from <= at <= length,
            length == chars@.len(),
            label(chars@.skip(from as int), Seq::empty()) == label(chars@.skip(at as int), member@),
        decreases length - at,
    {
        let ghost rest = chars@.skip(at as int);
        assert(rest[0] == chars@[at as int]);
        assert(rest.skip(1) =~= chars@.skip(at + 1));
        if chars[at] == '\\' {
            if at + 1 == length {
                return Read::Dangling;
            }
            assert(rest[1] == chars@[at + 1]);
            assert(rest.skip(2) =~= chars@.skip(at + 2));
            member.push(unescape(chars[at + 1]));
            at += 2;
        } else if chars[at] == '\'' {
            if at + 1 < length && chars[at + 1] == '\'' {
                assert(rest[1] == chars@[at + 1]);
                assert(rest.skip(2) =~= chars@.skip(at + 2));
                member.push('\'');
                at += 2;
            } else {
                proof {
                    if at + 1 < length {
                        assert(rest[1] == chars@[at + 1]);
                    }
                }
                return Read::Closed(member, at + 1);
            }
        } else {
            member.push(chars[at]);
            at += 1;
        }
    }
    assert(chars@.skip(at as int) =~= Seq::<char>::empty());
    Read::Open
}

fn is_known(known: &Vec<String>, member: &str) -> (result: bool)
    ensures
        result == texts(known@).contains(member@),
{
    let mut i: usize = 0;
    while i < known.len()
        invariant
            i <= known@.len(),
            forall|k: int| 0 <= k < i ==> #[trigger] texts(known@)[k] != member@,
        decreases known@.len() - i,
    {
        if same(known[i].as_str(), member) {
            assert(texts(known@)[i as int] == member@);
            return true;
        }
        i += 1;
    }
    false
}

fn parse_quoted_members(text: &str) -> (result: Result<Vec<String>, SourceTypeMappingError>)
    ensures
        match result {
            Ok(members) => quoted_members(text@, Seq::empty()) == Ok::<_, Complaint>(
                texts(members@),
            ),
            Err(error) => quoted_members(text@, Seq::empty()) == Err::<Seq<Seq<char>>, _>(
                error.complaint(),
            ),
        },
{
    let chars = chars_of(text);
    let mut members: Vec<String> = Vec::new();
    let mut at: usize = 0;
    assert(chars@.skip(0) =~= text@);
    assert(texts(members@) =~= Seq::<Seq<char>>::empty());
    loop
        invariant
            at <= chars@.len(),
            quoted_members(text@, Seq::empty()) == quoted_members(
                chars@.skip(at as int),
                texts(members@),
            ),
        decreases chars@.len() - at,
    {
        let start = skip_space(&chars, at);
        let ghost rest = chars@.skip(start as int);
        if start == chars.len() {
            if members.len() == 0 {
                return Err(
                    SourceTypeMappingError::invalid("ENUM/SET requires at least one member"),
                );
            }
            return Ok(members);
        }
        assert(rest[0] == chars@[start as int]);
        if chars[start] != '\'' {
            return Err(
                SourceTypeMappingError::invalid("ENUM/SET members must use single-quoted labels"),
            );
        }
        assert(rest.skip(1) =~= chars@.skip(start + 1));
        let (member, end) = match read_label(&chars, start + 1) {
            Read::Dangling => {
                return Err(SourceTypeMappingError::invalid("ENUM/SET label has a dangling escape"));
            },
            Read::Open => {
                return Err(
                    SourceTypeMappingError::invalid(
                        "ENUM/SET label is empty, unterminated, or contains NUL",
                    ),
                );
            },
            Read::Closed(member, end) => (member, end),
        };
        if member.as_str().is_empty() || contains_char(member.as_str(), '\0') {
            return Err(
                SourceTypeMappingError::invalid(
                    "ENUM/SET label is empty, unterminated, or contains NUL",
                ),
            );
        }
        if is_known(&members, member.as_str()) {
            return Err(SourceTypeMappingError::invalid("ENUM/SET labels must be unique"));
        }
        let ghost before = texts(members@);
        members.push(member);
        assert(texts(members@) =~= before.push(member@));
        let next = skip_space(&chars, end);
        if next == chars.len() {
            return Ok(members);
        }
        assert(chars@.skip(next as int)[0] == chars@[next as int]);
        if chars[next] != ',' {
            return Err(SourceTypeMappingError::invalid("ENUM/SET members must be comma separated"));
        }
        assert(chars@.skip(next as int).skip(1) =~= chars@.skip(next + 1));
        at = next + 1;
    }
}

// ---------------------------------------------------------------------------
// Declarations
// ---------------------------------------------------------------------------

/// What a declaration says.
#[verifier::ext_equal]
pub struct Declared {
    pub base: Seq<char>,
    pub arguments: Seq<Seq<char>>,
    pub modifiers: Seq<Seq<char>>,
}

/// A parsed declaration.
#[derive(Debug)]
pub struct NativeDeclaration {
    pub base: String,
    pub arguments: Vec<String>,
    pub modifiers: Vec<String>,
}

impl View for NativeDeclaration {
    type V = Declared;

    open spec fn view(&self) -> Declared {
        Declared {
            base: self.base@,
            arguments: texts(self.arguments@),
            modifiers: texts(self.modifiers@),
        }
    }
}

/// What stands before the first bracket.
pub open spec fn head(text: Seq<char>) -> Seq<char> {
    text.take(first_index(text, '('))
}

/// The texts without white space at their ends.
pub open spec fn trimmed_texts(list: Seq<Seq<char>>) -> Seq<Seq<char>> {
    Seq::new(list.len(), |i: int| trim(list[i]))
}

/// The texts in lower case.
pub open spec fn lowered_texts(list: Seq<Seq<char>>) -> Seq<Seq<char>> {
    Seq::new(list.len(), |i: int| lower(list[i]))
}

/// The first word of a text, in lower case.
pub open spec fn first_word(text: Seq<char>) -> Seq<char> {
    let list = words(text);
    if list.len() > 0 {
        lower(list[0])
    } else {
        Seq::empty()
    }
}

/// An enumeration or a set. The labels keep their spelling and order, which
/// are evidence of the catalog.
pub open spec fn labelled_declaration(raw: Seq<char>) -> Result<Declared, Complaint> {
    let base = first_word(head(raw));
    let open = first_index(raw, '(');
    let close = last_index(raw, ')');
    if open >= raw.len() {
        Err(invalid(base + " requires quoted members"@))
    } else if close <= open {
        Err(invalid("ENUM/SET member list is unclosed"@))
    } else if trim(raw.skip(close + 1)).len() > 0 || raw.take(open).contains(')') {
        Err(invalid("ENUM/SET declaration has misplaced characters"@))
    } else {
        match quoted_members(raw.subrange(open + 1, close), Seq::empty()) {
            Err(complaint) => Err(complaint),
            Ok(members) => Ok(
                Declared {
                    base,
                    arguments: members,
                    modifiers: lowered_texts(words(head(raw)).drop_first()),
                },
            ),
        }
    }
}

/// One of the texts is empty.
pub open spec fn some_empty(list: Seq<Seq<char>>) -> bool {
    exists|i: int| 0 <= i < list.len() && (#[trigger] list[i]).len() == 0
}

/// A declaration with plain arguments.
pub open spec fn plain_declaration(value: Seq<char>) -> Result<Declared, Complaint> {
    let open = first_index(value, '(');
    let close = last_index(value, ')');
    if open < value.len() && close <= open {
        Err(invalid("native type arguments are unclosed"@))
    } else if open < value.len() && (value.skip(close + 1).contains('(') || value.take(
        open,
    ).contains(')')) {
        Err(invalid("native type declaration has misplaced parentheses"@))
    } else {
        let arguments = if open < value.len() {
            trimmed_texts(split(value.subrange(open + 1, close), ','))
        } else {
            Seq::empty()
        };
        let tail = if open < value.len() {
            value.skip(close + 1)
        } else {
            Seq::empty()
        };
        let names = words(head(value));
        if names.len() == 0 {
            Err(invalid("native type has no base name"@))
        } else if some_empty(arguments) {
            Err(invalid("native type contains an empty argument"@))
        } else {
            Ok(
                Declared {
                    base: names[0],
                    arguments,
                    modifiers: names.drop_first() + words(tail),
                },
            )
        }
    }
}

/// What a native type declares.
pub open spec fn declared(native_type: Seq<char>) -> Result<Declared, Complaint> {
    let raw = trim(native_type);
    let base = first_word(head(raw));
    if raw.len() == 0 {
        Err(invalid("native type declaration is empty"@))
    } else if base == "enum"@ || base == "set"@ {
        labelled_declaration(raw)
    } else {
        plain_declaration(lower(raw))
    }
}

/// What parsing has given.
pub open spec fn parsed(result: Result<NativeDeclaration, SourceTypeMappingError>) -> Result<
    Declared,
    Complaint,
> {
    match result {
        Ok(declaration) => Ok(declaration@),
        Err(error) => Err(error.complaint()),
    }
}

fn lower_words(list: &Vec<String>, from: usize) -> (result: Vec<String>)
    requires
        from <= list@.len(),
    ensures
        texts(result@) == lowered_texts(texts(list@).skip(from as int)),
{
    let mut result: Vec<String> = Vec::new();
    let mut i: usize = from;
    while i < list.len()
        invariant
            from <= i <= list@.len(),
            result@.len() == i - from,
            forall|k: int|
                0 <= k < result@.len() ==> (#[trigger] result@[k])@ == lower(list@[from + k]@),
        decreases list@.len() - i,
    {
        result.push(to_lower(list[i].as_str()));
        i += 1;
    }
    assert(texts(result@) =~= lowered_texts(texts(list@).skip(from as int)));
    result
}

fn contains_between(chars: &Vec<char>, from: usize, to: usize, c: char) -> (result: bool)
    requires
        from <= to <= chars@.len(),
    ensures
        result == chars@.subrange(from as int, to as int).contains(c),
{
    let ghost part = chars@.subrange(from as int, to as int);
    let mut i: usize = from;
    while i < to
        invariant
            from <= i <= to <= chars@.len(),
            part == chars@.subrange(from as int, to as int),
            forall|k: int| 0 <= k < i - from ==> #[trigger] part[k] != c,
        decreases to - i,
    {
        if chars[i] == c {
            assert(part[i - from] == c);
            return true;
        }
        i += 1;
    }
    false
}

fn find_first(chars: &Vec<char>, c: char) -> (result: usize)
    ensures
        result == first_index(chars@, c),
        result <= chars@.len(),
{
    let at = crate::text::find_from(chars, c, 0);
    assert(chars@.skip(0) =~= chars@);
    at
}

fn parse_labelled(raw: &str, base: String, names: &Vec<String>) -> (result: Result<
    NativeDeclaration,
    SourceTypeMappingError,
>)
    requires
        base@ == first_word(head(raw@)),
        texts(names@) == words(head(raw@)),
        names@.len() > 0,
    ensures
        parsed(result) == labelled_declaration(raw@),
{
    let chars = chars_of(raw);
    let length: usize = chars.len();
    let open = find_first(&chars, '(');
    if open >= length {
        return Err(
            SourceTypeMappingError::invalid(
                concat(base.as_str(), " requires quoted members").as_str(),
            ),
        );
    }
    let close: usize = match find_last(&chars, ')') {
        Some(close) => if close > open {
            close
        } else {
            return Err(SourceTypeMappingError::invalid("ENUM/SET member list is unclosed"));
        },
        None => {
            return Err(SourceTypeMappingError::invalid("ENUM/SET member list is unclosed"));
        },
    };
    let tail = text_between(&chars, close + 1, length);
    assert(tail@ =~= raw@.skip(close + 1));
    let kept = trimmed(tail.as_str());
    assert(chars@.subrange(0, open as int) =~= raw@.take(open as int));
    if !kept.as_str().is_empty() || contains_between(&chars, 0, open, ')') {
        return Err(
            SourceTypeMappingError::invalid("ENUM/SET declaration has misplaced characters"),
        );
    }
    let inner = text_between(&chars, open + 1, close);
    let modifiers = lower_words(names, 1);
    assert(texts(names@).skip(1) =~= words(head(raw@)).drop_first());
    match parse_quoted_members(inner.as_str()) {
        Ok(arguments) => Ok(NativeDeclaration { base, arguments, modifiers }),
        Err(error) => Err(error),
    }
}

fn trim_all(list: &Vec<String>) -> (result: Vec<String>)
    ensures
        texts(result@) == trimmed_texts(texts(list@)),
{
    let mut result: Vec<String> = Vec::new();
    let mut i: usize = 0;
    while i < list.len()
        invariant
            i <= list@.len(),
            result@.len() == i,
            forall|k: int| 0 <= k < i ==> (#[trigger] result@[k])@ == trim(list@[k]@),
        decreases list@.len() - i,
    {
        result.push(trimmed(list[i].as_str()));
        i += 1;
    }
    assert(texts(result@) =~= trimmed_texts(texts(list@)));
    result
}

fn has_empty(list: &Vec<String>) -> (result: bool)
    ensures
        result == some_empty(texts(list@)),
{
    let mut i: usize = 0;
    while i < list.len()
        invariant
            i <= list@.len(),
            forall|k: int| 0 <= k < i ==> (#[trigger] texts(list@)[k]).len() != 0,
        decreases list@.len() - i,
    {
        if list[i].as_str().is_empty() {
            assert(texts(list@)[i as int].len() == 0);
            return true;
        }
        i += 1;
    }
    false
}

fn append_texts(list: &mut Vec<String>, more: &Vec<String>, from: usize)
    requires
        from <= more@.len(),
    ensures
        texts(final(list)@) == texts(old(list)@) + texts(more@).skip(from as int),
{
    let ghost start = texts(list@);
    let mut i: usize = from;
    assert(start =~= start + texts(more@).subrange(from as int, from as int));
    while i < more.len()
        invariant
            from <= i <= more@.len(),
            texts(list@) == start + texts(more@).subrange(from as int, i as int),
        decreases more@.len() - i,
    {
        let ghost before = texts(list@);
        list.push(more[i].clone());
        assert(texts(list@) =~= before.push(more@[i as int]@));
        i += 1;
        assert(texts(list@) =~= start + texts(more@).subrange(from as int, i as int));
    }
    assert(texts(more@).subrange(from as int, i as int) =~= texts(more@).skip(from as int));
}

fn parse_plain(value: &str) -> (result: Result<NativeDeclaration, SourceTypeMappingError>)
    ensures
        parsed(result) == plain_declaration(value@),
{
    let chars = chars_of(value);
    let length: usize = chars.len();
    let open = find_first(&chars, '(');
    let head_text = text_between(&chars, 0, open);
    assert(head_text@ =~= head(value@));
    let mut arguments: Vec<String> = Vec::new();
    let mut tail = String::new();
    assert(texts(arguments@) =~= Seq::<Seq<char>>::empty());
    assert(tail@ =~= Seq::<char>::empty());
    if open < length {
        let close: usize = match find_last(&chars, ')') {
            Some(close) => if close > open {
                close
            } else {
                return Err(SourceTypeMappingError::invalid("native type arguments are unclosed"));
            },
            None => {
                return Err(SourceTypeMappingError::invalid("native type arguments are unclosed"));
            },
        };
        assert(chars@.subrange(close + 1, length as int) =~= value@.skip(close + 1));
        assert(chars@.subrange(0, open as int) =~= value@.take(open as int));
        if contains_between(&chars, close + 1, length, '(') || contains_between(
            &chars,
            0,
            open,
            ')',
        ) {
            return Err(
                SourceTypeMappingError::invalid(
                    "native type declaration has misplaced parentheses",
                ),
            );
        }
        let inner = text_between(&chars, open + 1, close);
        let pieces = split_text(inner.as_str(), ',');
        arguments = trim_all(&pieces);
        tail = text_between(&chars, close + 1, length);
    }
    let names = split_words(head_text.as_str());
    if names.len() == 0 {
        return Err(SourceTypeMappingError::invalid("native type has no base name"));
    }
    if has_empty(&arguments) {
        return Err(SourceTypeMappingError::invalid("native type contains an empty argument"));
    }
    let tail_words = split_words(tail.as_str());
    let mut modifiers: Vec<String> = Vec::new();
    assert(texts(modifiers@) =~= Seq::<Seq<char>>::empty());
    append_texts(&mut modifiers, &names, 1);
    append_texts(&mut modifiers, &tail_words, 0);
    assert(texts(modifiers@) =~= words(head(value@)).drop_first() + words(tail@));
    assert(texts(names@)[0] == names@[0]@);
    Ok(NativeDeclaration { base: names[0].clone(), arguments, modifiers })
}

pub(crate) fn parse_declaration(native_type: &str) -> (result: Result<
    NativeDeclaration,
    SourceTypeMappingError,
>)
    ensures
        parsed(result) == declared(native_type@),
{
    let raw = trimmed(native_type);
    if raw.as_str().is_empty() {
        return Err(SourceTypeMappingError::invalid("native type declaration is empty"));
    }
    let chars = chars_of(raw.as_str());
    let open = find_first(&chars, '(');
    let head_text = text_between(&chars, 0, open);
    assert(head_text@ =~= head(raw@));
    let names = split_words(head_text.as_str());
    if names.len() > 0 {
        assert(texts(names@)[0] == names@[0]@);
        let base = to_lower(names[0].as_str());
        if same(base.as_str(), "enum") || same(base.as_str(), "set") {
            return parse_labelled(raw.as_str(), base, &names);
        }
    } else {
        proof {
            reveal_strlit("enum");
            reveal_strlit("set");
            assert(first_word(head(raw@)).len() == 0);
        }
    }
    let value = to_lower(raw.as_str());
    parse_plain(value.as_str())
}

// ---------------------------------------------------------------------------
// Lists of labels
// ---------------------------------------------------------------------------

/// The label with every quote and every backslash doubled.
pub open spec fn escaped(label: Seq<char>) -> Seq<char>
    decreases label.len(),
{
    if label.len() == 0 {
        Seq::empty()
    } else if label[0] == '\'' || label[0] == '\\' {
        seq![label[0], label[0]] + escaped(label.drop_first())
    } else {
        seq![label[0]] + escaped(label.drop_first())
    }
}

/// The labels in quotes, with commas between them.
pub open spec fn listed(labels: Seq<Seq<char>>) -> Seq<char>
    decreases labels.len(),
{
    if labels.len() == 0 {
        Seq::empty()
    } else if labels.len() == 1 {
        seq!['\''] + escaped(labels[0]) + seq!['\'']
    } else {
        seq!['\''] + escaped(labels[0]) + seq!['\'', ','] + listed(labels.drop_first())
    }
}

proof fn lemma_label_reads_back(own: Seq<char>, rest: Seq<char>, read: Seq<char>)
    requires
        rest.len() > 0 ==> rest[0] != '\'',
    ensures
        label(escaped(own) + seq!['\''] + rest, read) == Label::Closed(read + own, rest),
    decreases own.len(),
{
    let text = escaped(own) + seq!['\''] + rest;
    if own.len() == 0 {
        assert(text =~= seq!['\''] + rest);
        assert(text.skip(1) =~= rest);
        assert(read + own =~= read);
    } else {
        let less = own.drop_first();
        let after = escaped(less) + seq!['\''] + rest;
        lemma_label_reads_back(less, rest, read.push(own[0]));
        assert(read.push(own[0]) + less =~= read + own);
        if own[0] == '\'' || own[0] == '\\' {
            assert(text.skip(2) =~= after);
            assert(text[0] == own[0] && text[1] == own[0]);
        } else {
            assert(text.skip(1) =~= after);
            assert(text[0] == own[0]);
        }
    }
}

/// A list of labels that is written with its quotes and backslashes doubled reads
/// back as those very labels in their order.
pub proof fn law_a_list_of_labels_reads_back(labels: Seq<Seq<char>>, known: Seq<Seq<char>>)
    requires
        labels.len() > 0,
        forall|i: int|
            0 <= i < labels.len() ==> (#[trigger] labels[i]).len() > 0 && !labels[i].contains('\0')
                && !known.contains(labels[i]),
        forall|i: int, j: int|
            #![trigger labels[i], labels[j]]
            0 <= i < j < labels.len() ==> labels[i] != labels[j],
    ensures
        quoted_members(listed(labels), known) == Ok::<_, Complaint>(known + labels),
    decreases labels.len(),
{
    let text = listed(labels);
    let own = labels[0];
    let rest = if labels.len() == 1 {
        Seq::<char>::empty()
    } else {
        seq![','] + listed(labels.drop_first())
    };
    assert(text =~= seq!['\''] + (escaped(own) + seq!['\''] + rest));
    assert(text[0] == '\'' && !white_space('\''));
    assert(without_leading_space(text) == text);
    assert(text.skip(1) =~= escaped(own) + seq!['\''] + rest);
    lemma_label_reads_back(own, rest, Seq::empty());
    assert(Seq::<char>::empty() + own =~= own);
    assert(label(text.skip(1), Seq::empty()) == Label::Closed(own, rest));
    if labels.len() == 1 {
        assert(without_leading_space(rest) == rest);
        assert(known.push(own) =~= known + labels);
    } else {
        let others = labels.drop_first();
        assert(rest[0] == ',' && !white_space(','));
        assert(without_leading_space(rest) == rest);
        assert(rest.skip(1) =~= listed(others));
        assert forall|i: int| 0 <= i < others.len() implies (#[trigger] others[i]).len() > 0
            && !others[i].contains('\0') && !known.push(own).contains(others[i]) by {
            assert(others[i] == labels[i + 1]);
            assert(labels[0] != labels[i + 1]);
            if known.push(own).contains(others[i]) {
                let k = choose|k: int|
                    0 <= k < known.push(own).len() && known.push(own)[k] == others[i];
                if k < known.len() {
                    assert(known[k] == others[i]);
                }
            }
        }
        assert forall|i: int, j: int|
            #![trigger others[i], others[j]]
            0 <= i < j < others.len() implies others[i] != others[j] by {
            assert(labels[i + 1] != labels[j + 1]);
        }
        law_a_list_of_labels_reads_back(others, known.push(own));
        assert(known.push(own) + others =~= known + labels);
    }
}

} // verus!
