//! JSON values, and reading a record of named fields out of one.
//!
//! A record may come as an object, whose unknown members are passed over, or
//! as an array, which lists the fields in order. Fields may be left out where
//! they have a default.

use crate::single::Single;
use crate::text;
use vstd::prelude::*;

verus! {

/// A JSON value.
#[derive(Debug)]
pub enum Json {
    /// `null`
    Null,
    /// `true` or `false`
    Bool(bool),
    /// An integer from 0 up.
    Unsigned(u64),
    /// A negative integer.
    Negative(i64),
    /// A number of single precision.
    Single(Single),
    /// Any other number, in its decimal form.
    Float(String),
    /// A string.
    Text(String),
    /// An array.
    List(Vec<Json>),
    /// An object, as its members in order.
    Object(Vec<(String, Json)>),
}

/// A JSON value without what is inside an array or an object.
pub enum Flat {
    Null,
    Bool(bool),
    Unsigned(u64),
    Negative(i64),
    Single(Single),
    Float(Seq<char>),
    Text(Seq<char>),
    List,
    Object,
}

/// A JSON value down to the elements of an array or the members of an object.
pub enum Shape {
    Plain(Flat),
    List(Seq<Flat>),
    Object(Seq<(Seq<char>, Flat)>),
}

impl Json {
    /// The value without what is inside an array or an object.
    pub open spec fn flat(self) -> Flat {
        match self {
            Json::Null => Flat::Null,
            Json::Bool(b) => Flat::Bool(b),
            Json::Unsigned(n) => Flat::Unsigned(n),
            Json::Negative(n) => Flat::Negative(n),
            Json::Single(x) => Flat::Single(x),
            Json::Float(t) => Flat::Float(t@),
            Json::Text(t) => Flat::Text(t@),
            Json::List(_) => Flat::List,
            Json::Object(_) => Flat::Object,
        }
    }

    /// The value down to the elements of an array or the members of an object.
    pub open spec fn view(self) -> Shape {
        match self {
            Json::List(items) => Shape::List(items@.map_values(|v: Json| v.flat())),
            Json::Object(members) => Shape::Object(
                members@.map_values(|m: (String, Json)| (m.0@, m.1.flat())),
            ),
            _ => Shape::Plain(self.flat()),
        }
    }
}

/// What a field holds, and whether it may be left out.
#[derive(Debug, Clone, Copy)]
pub enum Kind {
    /// A string that must be there.
    Text,
    /// A string that may be `null` or left out.
    OptionalText,
    /// A boolean, `false` where it is left out.
    Flag,
    /// An unsigned integer that must be there.
    Count,
    /// An unsigned integer of the machine's size that must be there.
    Size,
}

/// A field of a record.
#[derive(Debug, Clone, Copy)]
pub struct Field {
    /// The name of the field.
    pub name: &'static str,
    /// What it holds.
    pub kind: Kind,
}

/// The content of a field.
#[derive(Debug, Clone)]
pub enum Content {
    /// Of a [`Kind::Text`].
    Text(String),
    /// Of a [`Kind::OptionalText`].
    OptionalText(Option<String>),
    /// Of a [`Kind::Flag`].
    Flag(bool),
    /// Of a [`Kind::Count`].
    Count(u64),
    /// Of a [`Kind::Size`].
    Size(usize),
}

/// The content of a field, its text as a sequence of characters.
pub enum ContentView {
    Text(Seq<char>),
    OptionalText(Option<Seq<char>>),
    Flag(bool),
    Count(u64),
    Size(usize),
}

impl Content {
    /// The content with its text as a sequence of characters.
    pub open spec fn view(self) -> ContentView {
        match self {
            Content::Text(t) => ContentView::Text(t@),
            Content::OptionalText(Some(t)) => ContentView::OptionalText(Some(t@)),
            Content::OptionalText(None) => ContentView::OptionalText(None),
            Content::Flag(b) => ContentView::Flag(b),
            Content::Count(n) => ContentView::Count(n),
            Content::Size(n) => ContentView::Size(n),
        }
    }
}

/// Why a value is not the record that was asked for.
#[derive(Debug, Clone, PartialEq, Eq)]
pub enum PayloadError {
    /// A field that must be there is not.
    Missing(String),
    /// A member occurs twice.
    Duplicate(String),
    /// A value of the wrong type: what was found, and what was expected.
    WrongType(String, String),
    /// A number out of range: what was found, and what was expected.
    WrongValue(String, String),
    /// An array too short: its length, the record, the number of its fields.
    TooShort(usize, String, usize),
    /// An array with more elements than the record has fields: its length.
    TooLong(usize),
}

/// A [`PayloadError`] with its texts as sequences of characters.
pub enum Fault {
    Missing(Seq<char>),
    Duplicate(Seq<char>),
    WrongType(Seq<char>, Seq<char>),
    WrongValue(Seq<char>, Seq<char>),
    TooShort(nat, Seq<char>, nat),
    TooLong(nat),
}

impl Fault {
    /// The fault in words.
    pub open spec fn words(self) -> Seq<char> {
        match self {
            Fault::Missing(name) => "missing field `"@ + name + "`"@,
            Fault::Duplicate(name) => "duplicate field `"@ + name + "`"@,
            Fault::WrongType(found, expected) => "invalid type: "@ + found + ", expected "@
                + expected,
            Fault::WrongValue(found, expected) => "invalid value: "@ + found + ", expected "@
                + expected,
            Fault::TooShort(len, record, fields) => "invalid length "@ + text::decimal_text(len)
                + ", expected struct "@ + record + " with "@ + text::decimal_text(fields) + (
            if fields == 1 {
                " element"@
            } else {
                " elements"@
            }),
            Fault::TooLong(len) => "invalid length "@ + text::decimal_text(len)
                + ", expected fewer elements in array"@,
        }
    }
}

impl PayloadError {
    /// The error with its texts as sequences of characters.
    pub open spec fn view(self) -> Fault {
        match self {
            PayloadError::Missing(name) => Fault::Missing(name@),
            PayloadError::Duplicate(name) => Fault::Duplicate(name@),
            PayloadError::WrongType(found, expected) => Fault::WrongType(found@, expected@),
            PayloadError::WrongValue(found, expected) => Fault::WrongValue(found@, expected@),
            PayloadError::TooShort(len, record, fields) => Fault::TooShort(
                len as nat,
                record@,
                fields as nat,
            ),
            PayloadError::TooLong(len) => Fault::TooLong(len as nat),
        }
    }

    /// The error in words.
    pub fn message(&self) -> (r: String)
        ensures
            r@ == self@.words(),
    {
        match self {
            PayloadError::Missing(name) => text::joined3("missing field `", name.as_str(), "`"),
            PayloadError::Duplicate(name) => text::joined3("duplicate field `", name.as_str(), "`"),
            PayloadError::WrongType(found, expected) => text::joined4(
                "invalid type: ",
                found.as_str(),
                ", expected ",
                expected.as_str(),
            ),
            PayloadError::WrongValue(found, expected) => text::joined4(
                "invalid value: ",
                found.as_str(),
                ", expected ",
                expected.as_str(),
            ),
            PayloadError::TooShort(len, record, fields) => {
                let mut r = text::joined4(
                    "invalid length ",
                    text::decimal(*len as u64).as_str(),
                    ", expected struct ",
                    record.as_str(),
                );
                r.append(" with ");
                r.append(text::decimal(*fields as u64).as_str());
                if *fields == 1 {
                    r.append(" element");
                } else {
                    r.append(" elements");
                }
                r
            },
            PayloadError::TooLong(len) => text::joined3(
                "invalid length ",
                text::decimal(*len as u64).as_str(),
                ", expected fewer elements in array",
            ),
        }
    }
}

/// What a value is, in words.
pub open spec fn described(v: Flat) -> Seq<char> {
    match v {
        Flat::Null => "null"@,
        Flat::Bool(b) => "boolean `"@ + (if b {
            "true"@
        } else {
            "false"@
        }) + "`"@,
        Flat::Unsigned(n) => "integer `"@ + text::decimal_text(n as nat) + "`"@,
        Flat::Negative(n) => "integer `"@ + text::signed_text(n as int) + "`"@,
        Flat::Single(_) => "floating point"@,
        Flat::Float(t) => "floating point `"@ + t + "`"@,
        Flat::Text(t) => "string "@ + text::debug_quoted(t),
        Flat::List => "sequence"@,
        Flat::Object => "map"@,
    }
}

/// What a value is, in words.
fn describe(v: &Json) -> (r: String)
    ensures
        r@ == described(v.flat()),
{
    match v {
        Json::Null => "null".to_owned(),
        Json::Bool(b) => text::joined3(
            "boolean `",
            if *b {
                "true"
            } else {
                "false"
            },
            "`",
        ),
        Json::Unsigned(n) => text::joined3("integer `", text::decimal(*n).as_str(), "`"),
        Json::Negative(n) => text::joined3("integer `", text::signed_decimal(*n).as_str(), "`"),
        Json::Single(_) => "floating point".to_owned(),
        Json::Float(t) => text::joined3("floating point `", t.as_str(), "`"),
        Json::Text(t) => text::joined2("string ", text::quoted(t.as_str()).as_str()),
        Json::List(_) => "sequence".to_owned(),
        Json::Object(_) => "map".to_owned(),
    }
}

/// What a field of this kind is expected to hold, in words.
pub open spec fn expectation(kind: Kind) -> Seq<char> {
    match kind {
        Kind::Text | Kind::OptionalText => "a string"@,
        Kind::Flag => "a boolean"@,
        Kind::Count => "u64"@,
        Kind::Size => "usize"@,
    }
}

fn expected(kind: Kind) -> (r: &'static str)
    ensures
        r@ == expectation(kind),
{
    match kind {
        Kind::Text | Kind::OptionalText => "a string",
        Kind::Flag => "a boolean",
        Kind::Count => "u64",
        Kind::Size => "usize",
    }
}

/// The content that a value gives a field of this kind.
pub open spec fn content(kind: Kind, v: Flat) -> Result<ContentView, Fault> {
    match (kind, v) {
        (Kind::Text, Flat::Text(t)) => Ok(ContentView::Text(t)),
        (Kind::OptionalText, Flat::Null) => Ok(ContentView::OptionalText(None)),
        (Kind::OptionalText, Flat::Text(t)) => Ok(ContentView::OptionalText(Some(t))),
        (Kind::Flag, Flat::Bool(b)) => Ok(ContentView::Flag(b)),
        (Kind::Count, Flat::Unsigned(n)) => Ok(ContentView::Count(n)),
        (Kind::Size, Flat::Unsigned(n)) => if n <= usize::MAX {
            Ok(ContentView::Size(n as usize))
        } else {
            Err(Fault::WrongValue(described(v), expectation(kind)))
        },
        (Kind::Count, Flat::Negative(_)) | (Kind::Size, Flat::Negative(_)) => Err(
            Fault::WrongValue(described(v), expectation(kind)),
        ),
        _ => Err(Fault::WrongType(described(v), expectation(kind))),
    }
}

/// The content of a field that is left out, if it may be.
pub open spec fn absent(kind: Kind) -> Option<ContentView> {
    match kind {
        Kind::OptionalText => Some(ContentView::OptionalText(None)),
        Kind::Flag => Some(ContentView::Flag(false)),
        _ => None,
    }
}

/// A result in its mathematical form.
pub open spec fn content_view(r: Result<Content, PayloadError>) -> Result<ContentView, Fault> {
    match r {
        Ok(c) => Ok(c@),
        Err(e) => Err(e@),
    }
}

/// The content that a value gives a field of this kind.
fn read_content(kind: Kind, v: &Json) -> (r: Result<Content, PayloadError>)
    ensures
        content_view(r) == content(kind, v.flat()),
{
    match (kind, v) {
        (Kind::Text, Json::Text(t)) => Ok(Content::Text(t.clone())),
        (Kind::OptionalText, Json::Null) => Ok(Content::OptionalText(None)),
        (Kind::OptionalText, Json::Text(t)) => Ok(Content::OptionalText(Some(t.clone()))),
        (Kind::Flag, Json::Bool(b)) => Ok(Content::Flag(*b)),
        (Kind::Count, Json::Unsigned(n)) => Ok(Content::Count(*n)),
        (Kind::Size, Json::Unsigned(n)) => if *n <= usize::MAX as u64 {
            Ok(Content::Size(*n as usize))
        } else {
            Err(PayloadError::WrongValue(describe(v), expected(kind).to_owned()))
        },
        (Kind::Count, Json::Negative(_)) | (Kind::Size, Json::Negative(_)) => Err(
            PayloadError::WrongValue(describe(v), expected(kind).to_owned()),
        ),
        _ => Err(PayloadError::WrongType(describe(v), expected(kind).to_owned())),
    }
}

/// The content of a field that is left out, if it may be.
fn absent_content(kind: Kind) -> (r: Option<Content>)
    ensures
        match r {
            Some(c) => absent(kind) == Some(c@),
            None => absent(kind) is None,
        },
{
    match kind {
        Kind::OptionalText => Some(Content::OptionalText(None)),
        Kind::Flag => Some(Content::Flag(false)),
        _ => None,
    }
}

/// The fields of a record: the name and the kind of each.
pub open spec fn schema(fields: Seq<Field>) -> Seq<(Seq<char>, Kind)> {
    fields.map_values(|f: Field| (f.name@, f.kind))
}

/// Whether no two fields have the same name.
pub open spec fn distinct_names(fields: Seq<(Seq<char>, Kind)>) -> bool {
    forall|i: int, j: int|
        0 <= i < j < fields.len() ==> (#[trigger] fields[i]).0 != (#[trigger] fields[j]).0
}

/// The kind of the field with this name, if there is one.
pub open spec fn kind_of(fields: Seq<(Seq<char>, Kind)>, name: Seq<char>) -> Option<Kind>
    decreases fields.len(),
{
    if fields.len() == 0 {
        None
    } else if fields.last().0 == name {
        Some(fields.last().1)
    } else {
        kind_of(fields.drop_last(), name)
    }
}

/// The value of the last member with this name among the first `n`.
pub open spec fn member(members: Seq<(Seq<char>, Flat)>, name: Seq<char>, n: nat) -> Option<Flat>
    decreases n,
{
    if n == 0 {
        None
    } else if members[n - 1].0 == name {
        Some(members[n - 1].1)
    } else {
        member(members, name, (n - 1) as nat)
    }
}

/// What is wrong with a member: its name was there before, or its value does
/// not fit the field. A member that is no field is never wrong.
pub open spec fn member_fault(
    fields: Seq<(Seq<char>, Kind)>,
    members: Seq<(Seq<char>, Flat)>,
    i: nat,
) -> Option<Fault> {
    let (name, value) = members[i as int];
    match kind_of(fields, name) {
        None => None,
        Some(kind) => if member(members, name, i) is Some {
            Some(Fault::Duplicate(name))
        } else {
            match content(kind, value) {
                Ok(_) => None,
                Err(f) => Some(f),
            }
        },
    }
}

/// The first thing wrong among the first `n` members.
pub open spec fn first_fault(
    fields: Seq<(Seq<char>, Kind)>,
    members: Seq<(Seq<char>, Flat)>,
    n: nat,
) -> Option<Fault>
    decreases n,
{
    if n == 0 {
        None
    } else {
        match first_fault(fields, members, (n - 1) as nat) {
            Some(f) => Some(f),
            None => member_fault(fields, members, (n - 1) as nat),
        }
    }
}

/// The content of a field, read from the member with its name.
pub open spec fn named_content(
    field: (Seq<char>, Kind),
    members: Seq<(Seq<char>, Flat)>,
) -> Result<ContentView, Fault> {
    match member(members, field.0, members.len()) {
        Some(v) => content(field.1, v),
        None => match absent(field.1) {
            Some(c) => Ok(c),
            None => Err(Fault::Missing(field.0)),
        },
    }
}

/// The contents of the first `n` fields, read by name.
pub open spec fn named_contents(
    fields: Seq<(Seq<char>, Kind)>,
    members: Seq<(Seq<char>, Flat)>,
    n: nat,
) -> Result<Seq<ContentView>, Fault>
    decreases n,
{
    if n == 0 {
        Ok(Seq::empty())
    } else {
        match named_contents(fields, members, (n - 1) as nat) {
            Err(f) => Err(f),
            Ok(front) => match named_content(fields[n - 1], members) {
                Err(f) => Err(f),
                Ok(c) => Ok(front.push(c)),
            },
        }
    }
}

/// The contents of the first `n` fields, read by position.
pub open spec fn listed_contents(
    record: Seq<char>,
    fields: Seq<(Seq<char>, Kind)>,
    items: Seq<Flat>,
    n: nat,
) -> Result<Seq<ContentView>, Fault>
    decreases n,
{
    if n == 0 {
        Ok(Seq::empty())
    } else {
        match listed_contents(record, fields, items, (n - 1) as nat) {
            Err(f) => Err(f),
            Ok(front) => {
                let kind = fields[n - 1].1;
                if n <= items.len() {
                    match content(kind, items[n - 1]) {
                        Err(f) => Err(f),
                        Ok(c) => Ok(front.push(c)),
                    }
                } else {
                    match absent(kind) {
                        Some(c) => Ok(front.push(c)),
                        None => Err(Fault::TooShort((n - 1) as nat, record, fields.len())),
                    }
                }
            },
        }
    }
}

/// The contents of the fields of a record, or the first thing that is wrong.
pub open spec fn contents(
    record: Seq<char>,
    fields: Seq<(Seq<char>, Kind)>,
    value: Shape,
) -> Result<Seq<ContentView>, Fault> {
    match value {
        Shape::Object(members) => match first_fault(fields, members, members.len()) {
            Some(f) => Err(f),
            None => named_contents(fields, members, fields.len()),
        },
        Shape::List(items) => match listed_contents(record, fields, items, fields.len()) {
            Err(f) => Err(f),
            Ok(list) => if items.len() > fields.len() {
                Err(Fault::TooLong(items.len()))
            } else {
                Ok(list)
            },
        },
        Shape::Plain(v) => Err(Fault::WrongType(described(v), "struct "@ + record)),
    }
}

/// Contents in their mathematical form.
pub open spec fn contents_of(list: Seq<Content>) -> Seq<ContentView> {
    list.map_values(|c: Content| c@)
}

/// A result in its mathematical form.
pub open spec fn contents_view(r: Result<Vec<Content>, PayloadError>) -> Result<
    Seq<ContentView>,
    Fault,
> {
    match r {
        Ok(list) => Ok(contents_of(list@)),
        Err(e) => Err(e@),
    }
}

pub(crate) proof fn lemma_kind_of(fields: Seq<(Seq<char>, Kind)>, j: int)
    requires
        distinct_names(fields),
        0 <= j < fields.len(),
    ensures
        kind_of(fields, fields[j].0) == Some(fields[j].1),
    decreases fields.len(),
{
    if j < fields.len() - 1 {
        let front = fields.drop_last();
        assert(fields[j].0 != fields[fields.len() - 1].0);
        assert(distinct_names(front)) by {
            assert forall|i: int, k: int| 0 <= i < k < front.len() implies (
            #[trigger] front[i]).0 != (#[trigger] front[k]).0 by {
                assert(fields[i].0 != fields[k].0);
            }
        }
        lemma_kind_of(front, j);
    }
}

proof fn lemma_no_kind(fields: Seq<(Seq<char>, Kind)>, name: Seq<char>)
    requires
        forall|j: int| 0 <= j < fields.len() ==> (#[trigger] fields[j]).0 != name,
    ensures
        kind_of(fields, name) is None,
    decreases fields.len(),
{
    if fields.len() > 0 {
        assert(fields[fields.len() - 1].0 != name);
        let front = fields.drop_last();
        assert forall|j: int| 0 <= j < front.len() implies (#[trigger] front[j]).0 != name by {
            assert(fields[j].0 != name);
        }
        lemma_no_kind(front, name);
    }
}

/// The place of the field with this name, or the number of fields.
fn place_of(fields: &[Field], name: &str) -> (r: usize)
    ensures
        r <= fields@.len(),
        r < fields@.len() ==> fields@[r as int].name@ == name@,
        forall|j: int| 0 <= j < r ==> (#[trigger] fields@[j]).name@ != name@,
{
    let mut j: usize = 0;
    while j < fields.len() && !text::same_text(fields[j].name, name)
        invariant
            j <= fields@.len(),
            forall|k: int| 0 <= k < j ==> (#[trigger] fields@[k]).name@ != name@,
        decreases fields@.len() - j,
    {
        j += 1;
    }
    j
}

/// Members in their mathematical form.
pub open spec fn members_of(members: Seq<(String, Json)>) -> Seq<(Seq<char>, Flat)> {
    members.map_values(|m: (String, Json)| (m.0@, m.1.flat()))
}

/// The value of the last member with this name among the first `n`.
fn find_member<'a>(members: &'a Vec<(String, Json)>, name: &str, n: usize) -> (r: Option<&'a Json>)
    requires
        n <= members@.len(),
    ensures
        match r {
            Some(v) => member(members_of(members@), name@, n as nat) == Some(v.flat()),
            None => member(members_of(members@), name@, n as nat) is None,
        },
{
    let mut i: usize = n;
    while i > 0
        invariant
            i <= n <= members@.len(),
            member(members_of(members@), name@, n as nat) == member(
                members_of(members@),
                name@,
                i as nat,
            ),
        decreases i,
    {
        let m = &members[i - 1];
        if text::same_text(m.0.as_str(), name) {
            return Some(&m.1);
        }
        i -= 1;
    }
    None
}

/// What is wrong with the member at `i`.
fn check_member(fields: &[Field], members: &Vec<(String, Json)>, i: usize) -> (r: Option<
    PayloadError,
>)
    requires
        distinct_names(schema(fields@)),
        i < members@.len(),
    ensures
        match r {
            Some(e) => member_fault(schema(fields@), members_of(members@), i as nat) == Some(e@),
            None => member_fault(schema(fields@), members_of(members@), i as nat) is None,
        },
{
    let m = &members[i];
    let name = m.0.as_str();
    let j: usize = place_of(fields, name);
    let ghost list = schema(fields@);
    if j >= fields.len() {
        proof {
            assert forall|k: int| 0 <= k < list.len() implies (#[trigger] list[k]).0 != name@ by {
                assert(fields@[k].name@ != name@);
            }
            lemma_no_kind(list, name@);
        }
        return None;
    }
    proof {
        assert(list[j as int] == (fields@[j as int].name@, fields@[j as int].kind));
        lemma_kind_of(list, j as int);
    }
    if find_member(members, name, i).is_some() {
        return Some(PayloadError::Duplicate(name.to_owned()));
    }
    match read_content(fields[j].kind, &m.1) {
        Ok(_) => None,
        Err(e) => Some(e),
    }
}

/// The contents of the fields, read by name.
fn read_object(fields: &[Field], members: &Vec<(String, Json)>) -> (r: Result<
    Vec<Content>,
    PayloadError,
>)
    requires
        distinct_names(schema(fields@)),
    ensures
        contents_view(r) == (match first_fault(
            schema(fields@),
            members_of(members@),
            members@.len(),
        ) {
            Some(f) => Err(f),
            None => named_contents(schema(fields@), members_of(members@), fields@.len()),
        }),
{
    let ghost list = schema(fields@);
    let ghost shape = members_of(members@);
    let mut i: usize = 0;
    while i < members.len()
        invariant
            list == schema(fields@),
            shape == members_of(members@),
            distinct_names(list),
            i <= members@.len(),
            first_fault(list, shape, i as nat) is None,
        decreases members@.len() - i,
    {
        if let Some(e) = check_member(fields, members, i) {
            proof {
                lemma_first_fault(list, shape, (i + 1) as nat, members@.len());
            }
            return Err(e);
        }
        i += 1;
    }
    let mut out: Vec<Content> = Vec::new();
    let mut j: usize = 0;
    assert(contents_of(out@) =~= Seq::empty());
    while j < fields.len()
        invariant
            list == schema(fields@),
            shape == members_of(members@),
            j <= fields@.len(),
            first_fault(list, shape, members@.len()) is None,
            named_contents(list, shape, j as nat) == Ok::<Seq<ContentView>, Fault>(
                contents_of(out@),
            ),
        decreases fields@.len() - j,
    {
        let field = fields[j];
        assert(list[j as int] == (field.name@, field.kind));
        let read = match find_member(members, field.name, members.len()) {
            Some(v) => read_content(field.kind, v),
            None => match absent_content(field.kind) {
                Some(c) => Ok(c),
                None => Err(PayloadError::Missing(field.name.to_owned())),
            },
        };
        assert(content_view(read) == named_content(list[j as int], shape));
        match read {
            Err(e) => {
                proof {
                    lemma_named_fault(list, shape, (j + 1) as nat, fields@.len());
                }
                return Err(e);
            },
            Ok(c) => {
                let ghost before = out@;
                out.push(c);
                assert(contents_of(out@) =~= contents_of(before).push(c@));
            },
        }
        j += 1;
    }
    Ok(out)
}

pub(crate) proof fn lemma_first_fault(
    fields: Seq<(Seq<char>, Kind)>,
    members: Seq<(Seq<char>, Flat)>,
    i: nat,
    n: nat,
)
    requires
        i <= n,
        first_fault(fields, members, i) is Some,
    ensures
        first_fault(fields, members, n) == first_fault(fields, members, i),
    decreases n,
{
    if i < n {
        lemma_first_fault(fields, members, i, (n - 1) as nat);
    }
}

proof fn lemma_named_fault(
    fields: Seq<(Seq<char>, Kind)>,
    members: Seq<(Seq<char>, Flat)>,
    i: nat,
    n: nat,
)
    requires
        i <= n,
        named_contents(fields, members, i) is Err,
    ensures
        named_contents(fields, members, n) == named_contents(fields, members, i),
    decreases n,
{
    if i < n {
        lemma_named_fault(fields, members, i, (n - 1) as nat);
    }
}

proof fn lemma_listed_fault(
    record: Seq<char>,
    fields: Seq<(Seq<char>, Kind)>,
    items: Seq<Flat>,
    i: nat,
    n: nat,
)
    requires
        i <= n,
        listed_contents(record, fields, items, i) is Err,
    ensures
        listed_contents(record, fields, items, n) == listed_contents(record, fields, items, i),
    decreases n,
{
    if i < n {
        lemma_listed_fault(record, fields, items, i, (n - 1) as nat);
    }
}

/// The contents of the fields, read by position.
fn read_list(record: &str, fields: &[Field], items: &Vec<Json>) -> (r: Result<
    Vec<Content>,
    PayloadError,
>)
    ensures
        contents_view(r) == listed_contents(
            record@,
            schema(fields@),
            items@.map_values(|v: Json| v.flat()),
            fields@.len(),
        ),
{
    let ghost list = schema(fields@);
    let ghost shape = items@.map_values(|v: Json| v.flat());
    let mut out: Vec<Content> = Vec::new();
    let mut j: usize = 0;
    assert(contents_of(out@) =~= Seq::empty());
    while j < fields.len()
        invariant
            list == schema(fields@),
            shape == items@.map_values(|v: Json| v.flat()),
            j <= fields@.len(),
            listed_contents(record@, list, shape, j as nat) == Ok::<Seq<ContentView>, Fault>(
                contents_of(out@),
            ),
        decreases fields@.len() - j,
    {
        let field = fields[j];
        assert(list[j as int] == (field.name@, field.kind));
        let read = if j < items.len() {
            assert(shape[j as int] == items@[j as int].flat());
            read_content(field.kind, &items[j])
        } else {
            match absent_content(field.kind) {
                Some(c) => Ok(c),
                None => Err(PayloadError::TooShort(j, record.to_owned(), fields.len())),
            }
        };
        match read {
            Err(e) => {
                proof {
                    lemma_listed_fault(record@, list, shape, (j + 1) as nat, fields@.len());
                }
                return Err(e);
            },
            Ok(c) => {
                let ghost before = out@;
                out.push(c);
                assert(contents_of(out@) =~= contents_of(before).push(c@));
            },
        }
        j += 1;
    }
    Ok(out)
}

/// The contents of the fields of a record, or the first thing that is wrong.
pub fn read_record(record: &str, fields: &[Field], value: &Json) -> (r: Result<
    Vec<Content>,
    PayloadError,
>)
    requires
        distinct_names(schema(fields@)),
    ensures
        contents_view(r) == contents(record@, schema(fields@), value@),
{
    match value {
        Json::Object(members) => read_object(fields, members),
        Json::List(items) => {
            let list = read_list(record, fields, items)?;
            if items.len() > fields.len() {
                return Err(PayloadError::TooLong(items.len()));
            }
            Ok(list)
        },
        _ => Err(PayloadError::WrongType(describe(value), text::joined2("struct ", record))),
    }
}

/// Whether a content is one of a field of this kind.
pub open spec fn fits(kind: Kind, c: ContentView) -> bool {
    match kind {
        Kind::Text => c is Text,
        Kind::OptionalText => c is OptionalText,
        Kind::Flag => c is Flag,
        Kind::Count => c is Count,
        Kind::Size => c is Size,
    }
}

/// The value that stands for a content; an optional text that is not there
/// has none.
pub open spec fn written(c: ContentView) -> Option<Flat> {
    match c {
        ContentView::Text(t) => Some(Flat::Text(t)),
        ContentView::OptionalText(Some(t)) => Some(Flat::Text(t)),
        ContentView::OptionalText(None) => None,
        ContentView::Flag(b) => Some(Flat::Bool(b)),
        ContentView::Count(n) => Some(Flat::Unsigned(n)),
        ContentView::Size(n) => Some(Flat::Unsigned(n as u64)),
    }
}

/// The members that stand for the first `n` fields: one for each, in order,
/// but none for an optional text that is not there.
pub open spec fn written_members(
    fields: Seq<(Seq<char>, Kind)>,
    list: Seq<ContentView>,
    n: nat,
) -> Seq<(Seq<char>, Flat)>
    decreases n,
{
    if n == 0 {
        Seq::empty()
    } else {
        let front = written_members(fields, list, (n - 1) as nat);
        match written(list[n - 1]) {
            Some(v) => front.push((fields[n - 1].0, v)),
            None => front,
        }
    }
}

/// The object that stands for a record.
pub open spec fn written_record(fields: Seq<(Seq<char>, Kind)>, list: Seq<ContentView>) -> Shape {
    Shape::Object(written_members(fields, list, fields.len()))
}

fn write_content(c: &Content) -> (r: Option<Json>)
    ensures
        match r {
            Some(v) => written(c@) == Some(v.flat()),
            None => written(c@) is None,
        },
{
    match c {
        Content::Text(t) => Some(Json::Text(t.clone())),
        Content::OptionalText(Some(t)) => Some(Json::Text(t.clone())),
        Content::OptionalText(None) => None,
        Content::Flag(b) => Some(Json::Bool(*b)),
        Content::Count(n) => Some(Json::Unsigned(*n)),
        Content::Size(n) => Some(Json::Unsigned(*n as u64)),
    }
}

/// The object that stands for a record.
pub fn write_record(fields: &[Field], list: &[Content]) -> (r: Json)
    requires
        fields@.len() == list@.len(),
    ensures
        r@ == written_record(schema(fields@), contents_of(list@)),
{
    let mut members: Vec<(String, Json)> = Vec::new();
    let mut j: usize = 0;
    assert(members_of(members@) =~= Seq::empty());
    while j < fields.len()
        invariant
            j <= fields@.len(),
            fields@.len() == list@.len(),
            members_of(members@) == written_members(
                schema(fields@),
                contents_of(list@),
                j as nat,
            ),
        decreases fields@.len() - j,
    {
        let field = fields[j];
        assert(schema(fields@)[j as int] == (field.name@, field.kind));
        assert(contents_of(list@)[j as int] == list@[j as int]@);
        if let Some(v) = write_content(&list[j]) {
            let ghost before = members@;
            members.push((field.name.to_owned(), v));
            assert(members_of(members@) =~= members_of(before).push((field.name@, v.flat())));
        }
        j += 1;
    }
    Json::Object(members)
}

proof fn lemma_member_prefix(
    members: Seq<(Seq<char>, Flat)>,
    extra: (Seq<char>, Flat),
    name: Seq<char>,
    n: nat,
)
    requires
        n <= members.len(),
    ensures
        member(members.push(extra), name, n) == member(members, name, n),
    decreases n,
{
    if n > 0 {
        lemma_member_prefix(members, extra, name, (n - 1) as nat);
    }
}

proof fn lemma_first_fault_prefix(
    fields: Seq<(Seq<char>, Kind)>,
    members: Seq<(Seq<char>, Flat)>,
    extra: (Seq<char>, Flat),
    n: nat,
)
    requires
        n <= members.len(),
    ensures
        first_fault(fields, members.push(extra), n) == first_fault(fields, members, n),
    decreases n,
{
    if n > 0 {
        lemma_first_fault_prefix(fields, members, extra, (n - 1) as nat);
        lemma_member_prefix(members, extra, members[n - 1].0, (n - 1) as nat);
    }
}

proof fn lemma_written_members(fields: Seq<(Seq<char>, Kind)>, list: Seq<ContentView>, n: nat)
    requires
        distinct_names(fields),
        n <= fields.len() == list.len(),
        forall|j: int| 0 <= j < list.len() ==> fits(fields[j].1, #[trigger] list[j]),
    ensures
        ({
            let members = written_members(fields, list, n);
            &&& first_fault(fields, members, members.len()) is None
            &&& forall|j: int|
                0 <= j < n ==> member(members, (#[trigger] fields[j]).0, members.len()) == written(
                    list[j],
                )
            &&& forall|j: int|
                n <= j < fields.len() ==> member(
                    members,
                    (#[trigger] fields[j]).0,
                    members.len(),
                ) is None
        }),
    decreases n,
{
    if n > 0 {
        let last = (n - 1) as nat;
        lemma_written_members(fields, list, last);
        let front = written_members(fields, list, last);
        assert(fits(fields[last as int].1, list[last as int]));
        if let Some(v) = written(list[last as int]) {
            let extra = (fields[last as int].0, v);
            let all = front.push(extra);
            assert forall|j: int| 0 <= j < fields.len() implies member(
                all,
                (#[trigger] fields[j]).0,
                all.len(),
            ) == (if j == last {
                Some(v)
            } else {
                member(front, fields[j].0, front.len())
            }) by {
                lemma_member_prefix(front, extra, fields[j].0, front.len());
                if j < last {
                    assert(fields[j].0 != fields[last as int].0);
                } else if j > last {
                    assert(fields[last as int].0 != fields[j].0);
                }
            }
            lemma_first_fault_prefix(fields, front, extra, front.len());
            lemma_kind_of(fields, last as int);
            lemma_member_prefix(front, extra, extra.0, front.len());
            assert(member_fault(fields, all, front.len()) is None);
        }
    }
}

/// Reading gives back what writing wrote: every record, read from the object
/// that stands for it.
pub proof fn record_round_trip(
    record: Seq<char>,
    fields: Seq<(Seq<char>, Kind)>,
    list: Seq<ContentView>,
)
    requires
        distinct_names(fields),
        fields.len() == list.len(),
        forall|j: int| 0 <= j < list.len() ==> fits(fields[j].1, #[trigger] list[j]),
    ensures
        contents(record, fields, written_record(fields, list)) == Ok::<Seq<ContentView>, Fault>(
            list,
        ),
{
    let members = written_members(fields, list, fields.len());
    lemma_written_members(fields, list, fields.len());
    lemma_named_back(fields, list, members, fields.len());
    assert(list.take(fields.len() as int) =~= list);
}

proof fn lemma_named_back(
    fields: Seq<(Seq<char>, Kind)>,
    list: Seq<ContentView>,
    members: Seq<(Seq<char>, Flat)>,
    n: nat,
)
    requires
        n <= fields.len() == list.len(),
        forall|j: int| 0 <= j < list.len() ==> fits(fields[j].1, #[trigger] list[j]),
        forall|j: int|
            0 <= j < fields.len() ==> member(members, (#[trigger] fields[j]).0, members.len())
                == written(list[j]),
    ensures
        named_contents(fields, members, n) == Ok::<Seq<ContentView>, Fault>(list.take(n as int)),
    decreases n,
{
    if n > 0 {
        lemma_named_back(fields, list, members, (n - 1) as nat);
        assert(fits(fields[n - 1].1, list[n - 1]));
        assert(member(members, fields[n - 1].0, members.len()) == written(list[n - 1]));
        assert(list.take(n as int) =~= list.take(n - 1).push(list[n - 1]));
    } else {
        assert(list.take(0) =~= Seq::empty());
    }
}

proof fn lemma_named_contents_fit(
    fields: Seq<(Seq<char>, Kind)>,
    members: Seq<(Seq<char>, Flat)>,
    n: nat,
)
    requires
        n <= fields.len(),
    ensures
        match named_contents(fields, members, n) {
            Ok(list) => list.len() == n && forall|j: int|
                0 <= j < n ==> fits(fields[j].1, #[trigger] list[j]),
            Err(_) => true,
        },
    decreases n,
{
    if n > 0 {
        lemma_named_contents_fit(fields, members, (n - 1) as nat);
    }
}

proof fn lemma_listed_contents_fit(
    record: Seq<char>,
    fields: Seq<(Seq<char>, Kind)>,
    items: Seq<Flat>,
    n: nat,
)
    requires
        n <= fields.len(),
    ensures
        match listed_contents(record, fields, items, n) {
            Ok(list) => list.len() == n && forall|j: int|
                0 <= j < n ==> fits(fields[j].1, #[trigger] list[j]),
            Err(_) => true,
        },
    decreases n,
{
    if n > 0 {
        lemma_listed_contents_fit(record, fields, items, (n - 1) as nat);
    }
}

/// What is read is one content for each field, of the field's kind.
pub proof fn contents_fit(record: Seq<char>, fields: Seq<(Seq<char>, Kind)>, value: Shape)
    ensures
        match contents(record, fields, value) {
            Ok(list) => list.len() == fields.len() && forall|j: int|
                0 <= j < list.len() ==> fits(fields[j].1, #[trigger] list[j]),
            Err(_) => true,
        },
{
    match value {
        Shape::Object(members) => {
            lemma_named_contents_fit(fields, members, fields.len());
        },
        Shape::List(items) => {
            lemma_listed_contents_fit(record, fields, items, fields.len());
        },
        Shape::Plain(_) => {},
    }
}

impl Content {
    /// The text of a text field.
    pub fn text(&self) -> (r: String)
        requires
            self@ is Text,
        ensures
            self@ == ContentView::Text(r@),
    {
        match self {
            Content::Text(t) => t.clone(),
            _ => String::new(),
        }
    }

    /// The text of an optional text field.
    pub fn optional_text(&self) -> (r: Option<String>)
        requires
            self@ is OptionalText,
        ensures
            self@ == ContentView::OptionalText(optional(r)),
    {
        match self {
            Content::OptionalText(Some(t)) => Some(t.clone()),
            _ => None,
        }
    }

    /// The value of a flag.
    pub fn flag(&self) -> (r: bool)
        requires
            self@ is Flag,
        ensures
            self@ == ContentView::Flag(r),
    {
        match self {
            Content::Flag(b) => *b,
            _ => false,
        }
    }

    /// The number in a count field.
    pub fn count(&self) -> (r: u64)
        requires
            self@ is Count,
        ensures
            self@ == ContentView::Count(r),
    {
        match self {
            Content::Count(n) => *n,
            _ => 0,
        }
    }

    /// The number in a size field.
    pub fn size(&self) -> (r: usize)
        requires
            self@ is Size,
        ensures
            self@ == ContentView::Size(r),
    {
        match self {
            Content::Size(n) => *n,
            _ => 0,
        }
    }
}

/// An optional text as a sequence of characters.
pub open spec fn optional(t: Option<String>) -> Option<Seq<char>> {
    match t {
        Some(t) => Some(t@),
        None => None,
    }
}

/// What is read of an object is, field by field, what stands under the
/// field's name.
pub proof fn named_contents_are_members(
    fields: Seq<(Seq<char>, Kind)>,
    members: Seq<(Seq<char>, Flat)>,
    n: nat,
    j: int,
)
    requires
        0 <= j < n <= fields.len(),
        named_contents(fields, members, n) is Ok,
    ensures
        named_contents(fields, members, n)->Ok_0.len() == n,
        named_content(fields[j], members) == Ok::<ContentView, Fault>(
            named_contents(fields, members, n)->Ok_0[j],
        ),
    decreases n,
{
    lemma_named_contents_fit(fields, members, n);
    lemma_named_contents_fit(fields, members, (n - 1) as nat);
    if j < n - 1 {
        named_contents_are_members(fields, members, (n - 1) as nat, j);
    }
}

proof fn lemma_extra_member(
    fields: Seq<(Seq<char>, Kind)>,
    members: Seq<(Seq<char>, Flat)>,
    extra: (Seq<char>, Flat),
    n: nat,
)
    requires
        n <= fields.len(),
        forall|j: int| 0 <= j < fields.len() ==> (#[trigger] fields[j]).0 != extra.0,
    ensures
        named_contents(fields, members.push(extra), n) == named_contents(fields, members, n),
    decreases n,
{
    if n > 0 {
        lemma_extra_member(fields, members, extra, (n - 1) as nat);
        assert(fields[n - 1].0 != extra.0);
        lemma_member_prefix(members, extra, fields[n - 1].0, members.len());
    }
}

/// A member that is no field of the record changes nothing.
pub proof fn unknown_member_is_passed_over(
    record: Seq<char>,
    fields: Seq<(Seq<char>, Kind)>,
    members: Seq<(Seq<char>, Flat)>,
    extra: (Seq<char>, Flat),
)
    requires
        forall|j: int| 0 <= j < fields.len() ==> (#[trigger] fields[j]).0 != extra.0,
    ensures
        contents(record, fields, Shape::Object(members.push(extra))) == contents(
            record,
            fields,
            Shape::Object(members),
        ),
{
    lemma_extra_member(fields, members, extra, fields.len());
    lemma_first_fault_prefix(fields, members, extra, members.len());
    lemma_no_kind(fields, extra.0);
}

} // verus!
