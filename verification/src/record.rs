//! Package records and their JSON form.

use crate::json::{field_of, find_field, owned, Json};
use vstd::prelude::*;

verus! {

/// One catalog entry. Only `name` is always present; `homepage` holds zero or
/// more URIs in the order in which they were given.
#[derive(Debug, Clone, PartialEq, Eq)]
pub struct PackageRecord {
    pub name: String,
    pub pname: Option<String>,
    pub version: Option<String>,
    pub description: Option<String>,
    pub homepage: Vec<String>,
    pub position: Option<String>,
}

/// What a record says, as mathematical values.
pub struct RecordView {
    pub name: Seq<char>,
    pub pname: Option<Seq<char>>,
    pub version: Option<Seq<char>>,
    pub description: Option<Seq<char>>,
    pub homepage: Seq<Seq<char>>,
    pub position: Option<Seq<char>>,
}

/// The fields that a package's `meta` object contributes.
pub struct MetaView {
    pub description: Option<Seq<char>>,
    pub homepage: Seq<Seq<char>>,
    pub position: Option<Seq<char>>,
}

/// The texts of a list of strings.
pub open spec fn names_of(items: Seq<String>) -> Seq<Seq<char>> {
    Seq::new(items.len(), |i: int| items[i]@)
}

/// The text of an optional string.
pub open spec fn text_of(value: Option<String>) -> Option<Seq<char>> {
    match value {
        Some(s) => Some(s@),
        None => None,
    }
}

impl View for PackageRecord {
    type V = RecordView;

    open spec fn view(&self) -> RecordView {
        RecordView {
            name: self.name@,
            pname: text_of(self.pname),
            version: text_of(self.version),
            description: text_of(self.description),
            homepage: names_of(self.homepage@),
            position: text_of(self.position),
        }
    }
}

/// Copies an optional text.
pub fn copy_text(value: &Option<String>) -> (r: Option<String>)
    ensures
        text_of(r) == text_of(*value),
{
    match value {
        Some(s) => Some(s.clone()),
        None => None,
    }
}

/// Copies a list of texts.
pub fn copy_texts(items: &Vec<String>) -> (r: Vec<String>)
    ensures
        names_of(r@) == names_of(items@),
{
    let mut r: Vec<String> = Vec::new();
    let mut i: usize = 0;
    while i < items.len()
        invariant
            i <= items.len(),
            r@.len() == i,
            forall|j: int| 0 <= j < i ==> (#[trigger] r@[j])@ == items@[j]@,
        decreases items.len() - i,
    {
        r.push(items[i].clone());
        i += 1;
    }
    proof {
        assert(names_of(r@) =~= names_of(items@));
    }
    r
}

impl PackageRecord {
    /// A copy of the record, field for field.
    pub fn duplicate(&self) -> (r: PackageRecord)
        ensures
            r@ == self@,
    {
        PackageRecord {
            name: self.name.clone(),
            pname: copy_text(&self.pname),
            version: copy_text(&self.version),
            description: copy_text(&self.description),
            homepage: copy_texts(&self.homepage),
            position: copy_text(&self.position),
        }
    }
}

/// A homepage as the catalog source writes it: one URI, or a list of them.
#[derive(Debug, Clone, PartialEq, Eq)]
pub enum Homepage {
    Simple(String),
    List(Vec<String>),
}

/// Every document of `items` is a string.
pub open spec fn all_text(items: Seq<Json>) -> bool {
    forall|i: int| 0 <= i < items.len() ==> (#[trigger] items[i]) is Text
}

/// The text of a string document, and the empty text for any other.
pub open spec fn text_in(doc: Json) -> Seq<char> {
    match doc {
        Json::Text(s) => s@,
        _ => Seq::empty(),
    }
}

/// The texts of a list of string documents.
pub open spec fn texts_of(items: Seq<Json>) -> Seq<Seq<char>> {
    Seq::new(items.len(), |i: int| text_in(items[i]))
}

/// The URIs that a `homepage` member stands for: none where it is absent or
/// null, one for a string, the list's own for a list of strings. `None` for
/// any other shape.
pub open spec fn homepage_of(value: Option<Json>) -> Option<Seq<Seq<char>>> {
    match value {
        None => Some(Seq::empty()),
        Some(Json::Null) => Some(Seq::empty()),
        Some(Json::Text(s)) => Some(seq![s@]),
        Some(Json::List(items)) => if all_text(items@) {
            Some(texts_of(items@))
        } else {
            None
        },
        Some(_) => None,
    }
}

/// What an optional string member stands for: absent where the member is
/// missing or null, its text where it is a string. `None` for any other shape.
pub open spec fn optional_text_of(value: Option<Json>) -> Option<Option<Seq<char>>> {
    match value {
        None => Some(None),
        Some(Json::Null) => Some(None),
        Some(Json::Text(s)) => Some(Some(s@)),
        Some(_) => None,
    }
}

/// What a `meta` member stands for. A missing or null `meta` leaves every
/// field absent; one that is no object, or holds a member of the wrong shape,
/// gives `None`.
pub open spec fn meta_of(value: Option<Json>) -> Option<MetaView> {
    match value {
        None => Some(MetaView { description: None, homepage: Seq::empty(), position: None }),
        Some(Json::Null) => Some(
            MetaView { description: None, homepage: Seq::empty(), position: None },
        ),
        Some(Json::Object(members)) => match (
            optional_text_of(field_of(members@, "description"@)),
            homepage_of(field_of(members@, "homepage"@)),
            optional_text_of(field_of(members@, "position"@)),
        ) {
            (Some(description), Some(homepage), Some(position)) => Some(
                MetaView { description, homepage, position },
            ),
            _ => None,
        },
        Some(_) => None,
    }
}

/// The record that a package object stands for, or `None` where it is no
/// object, lacks a string `name`, or holds a known member of the wrong shape.
/// Members with other names are ignored.
pub open spec fn record_of(doc: Json) -> Option<RecordView> {
    match doc {
        Json::Object(members) => match (
            field_of(members@, "name"@),
            optional_text_of(field_of(members@, "pname"@)),
            optional_text_of(field_of(members@, "version"@)),
            meta_of(field_of(members@, "meta"@)),
        ) {
            (Some(Json::Text(name)), Some(pname), Some(version), Some(meta)) => Some(
                RecordView {
                    name: name@,
                    pname,
                    version,
                    description: meta.description,
                    homepage: meta.homepage,
                    position: meta.position,
                },
            ),
            _ => None,
        },
        _ => None,
    }
}

/// Reads a list of string documents: their texts in order, or `None` where
/// one of them is no string.
pub fn decode_texts(items: &Vec<Json>) -> (r: Option<Vec<String>>)
    ensures
        r.is_some() == all_text(items@),
        r.is_some() ==> names_of(r.unwrap()@) == texts_of(items@),
{
    let mut texts: Vec<String> = Vec::new();
    let mut i: usize = 0;
    while i < items.len()
        invariant
            i <= items.len(),
            texts@.len() == i,
            forall|j: int| 0 <= j < i ==> (#[trigger] items@[j]) is Text,
            forall|j: int| 0 <= j < i ==> (#[trigger] texts@[j])@ == text_in(items@[j]),
        decreases items.len() - i,
    {
        match &items[i] {
            Json::Text(s) => {
                texts.push(s.clone());
            },
            _ => {
                proof {
                    assert(!(items@[i as int] is Text));
                }
                return None;
            },
        }
        i += 1;
    }
    proof {
        assert(names_of(texts@) =~= texts_of(items@));
    }
    Some(texts)
}

impl Homepage {
    /// The URIs of a homepage, in order.
    pub open spec fn uris_spec(self) -> Seq<Seq<char>> {
        match self {
            Homepage::Simple(uri) => seq![uri@],
            Homepage::List(uris) => names_of(uris@),
        }
    }

    /// Normalises a homepage to its sequence of URIs.
    pub fn uris(self) -> (r: Vec<String>)
        ensures
            names_of(r@) == self.uris_spec(),
    {
        match self {
            Homepage::Simple(uri) => {
                let r = vec![uri];
                proof {
                    assert(names_of(r@) =~= seq![uri@]);
                }
                r
            },
            Homepage::List(uris) => uris,
        }
    }

    /// Reads a homepage from a present, non-null member: a string gives
    /// `Simple`, a list of strings gives `List`, anything else `None`.
    pub fn from_json(doc: &Json) -> (r: Option<Homepage>)
        ensures
            match *doc {
                Json::Text(s) => r.is_some() && r.unwrap() is Simple && r.unwrap().uris_spec()
                    == seq![s@],
                Json::List(items) => if all_text(items@) {
                    r.is_some() && r.unwrap() is List && r.unwrap().uris_spec() == texts_of(
                        items@,
                    )
                } else {
                    r.is_none()
                },
                _ => r.is_none(),
            },
    {
        match doc {
            Json::Text(s) => Some(Homepage::Simple(s.clone())),
            Json::List(items) => match decode_texts(items) {
                Some(uris) => Some(Homepage::List(uris)),
                None => None,
            },
            _ => None,
        }
    }
}

/// Reads an optional string member.
pub fn decode_optional_text(value: Option<&Json>) -> (r: Option<Option<String>>)
    ensures
        match optional_text_of(owned(value)) {
            Some(text) => r.is_some() && text_of(r.unwrap()) == text,
            None => r.is_none(),
        },
{
    match value {
        None => Some(None),
        Some(Json::Null) => Some(None),
        Some(Json::Text(s)) => Some(Some(s.clone())),
        Some(_) => None,
    }
}

/// Reads a `homepage` member and normalises it to a sequence of URIs.
pub fn decode_homepage(value: Option<&Json>) -> (r: Option<Vec<String>>)
    ensures
        match homepage_of(owned(value)) {
            Some(uris) => r.is_some() && names_of(r.unwrap()@) == uris,
            None => r.is_none(),
        },
{
    match value {
        None => {
            let r: Vec<String> = Vec::new();
            proof {
                assert(names_of(r@) =~= Seq::empty());
            }
            Some(r)
        },
        Some(Json::Null) => {
            let r: Vec<String> = Vec::new();
            proof {
                assert(names_of(r@) =~= Seq::empty());
            }
            Some(r)
        },
        Some(doc) => match Homepage::from_json(doc) {
            Some(homepage) => Some(homepage.uris()),
            None => None,
        },
    }
}

/// Decodes one package object.
pub fn decode_record(doc: &Json) -> (r: Option<PackageRecord>)
    ensures
        match record_of(*doc) {
            Some(record) => r.is_some() && r.unwrap()@ == record,
            None => r.is_none(),
        },
{
    let members = match doc {
        Json::Object(members) => members,
        _ => {
            return None;
        },
    };
    let name: String = match find_field(members, "name") {
        Some(Json::Text(name)) => name.clone(),
        _ => {
            return None;
        },
    };
    let pname = match decode_optional_text(find_field(members, "pname")) {
        Some(pname) => pname,
        None => {
            return None;
        },
    };
    let version = match decode_optional_text(find_field(members, "version")) {
        Some(version) => version,
        None => {
            return None;
        },
    };
    let mut description: Option<String> = None;
    let mut homepage: Vec<String> = Vec::new();
    let mut position: Option<String> = None;
    proof {
        assert(names_of(homepage@) =~= Seq::empty());
    }
    match find_field(members, "meta") {
        None => {},
        Some(Json::Null) => {},
        Some(Json::Object(meta)) => {
            match decode_optional_text(find_field(meta, "description")) {
                Some(text) => {
                    description = text;
                },
                None => {
                    return None;
                },
            }
            match decode_homepage(find_field(meta, "homepage")) {
                Some(uris) => {
                    homepage = uris;
                },
                None => {
                    return None;
                },
            }
            match decode_optional_text(find_field(meta, "position")) {
                Some(text) => {
                    position = text;
                },
                None => {
                    return None;
                },
            }
        },
        Some(_) => {
            return None;
        },
    }
    Some(PackageRecord { name, pname, version, description, homepage, position })
}

/// `doc` is the JSON form of an optional text: the string, or null where it
/// is absent.
pub open spec fn encodes_optional_text(doc: Json, text: Option<Seq<char>>) -> bool {
    match text {
        None => doc is Null,
        Some(t) => match doc {
            Json::Text(s) => s@ == t,
            _ => false,
        },
    }
}

/// `doc` is the JSON form of a sequence of texts: the list of them as strings.
pub open spec fn encodes_texts(doc: Json, uris: Seq<Seq<char>>) -> bool {
    match doc {
        Json::List(items) => all_text(items@) && texts_of(items@) == uris,
        _ => false,
    }
}

/// `doc` is the `meta` object of `record`: the members `description`,
/// `homepage` and `position`, in that order.
pub open spec fn encodes_meta(doc: Json, record: RecordView) -> bool {
    match doc {
        Json::Object(members) => {
            &&& members@.len() == 3
            &&& members@[0].0@ == "description"@
            &&& encodes_optional_text(members@[0].1, record.description)
            &&& members@[1].0@ == "homepage"@
            &&& encodes_texts(members@[1].1, record.homepage)
            &&& members@[2].0@ == "position"@
            &&& encodes_optional_text(members@[2].1, record.position)
        },
        _ => false,
    }
}

/// `doc` is the JSON form of `record`: an object with the members `name`,
/// `pname`, `version` and `meta`, in that order.
pub open spec fn encodes_record(doc: Json, record: RecordView) -> bool {
    match doc {
        Json::Object(members) => {
            &&& members@.len() == 4
            &&& members@[0].0@ == "name"@
            &&& encodes_optional_text(members@[0].1, Some(record.name))
            &&& members@[1].0@ == "pname"@
            &&& encodes_optional_text(members@[1].1, record.pname)
            &&& members@[2].0@ == "version"@
            &&& encodes_optional_text(members@[2].1, record.version)
            &&& members@[3].0@ == "meta"@
            &&& encodes_meta(members@[3].1, record)
        },
        _ => false,
    }
}

/// Writes an optional text as a string or null.
pub fn encode_optional_text(text: &Option<String>) -> (doc: Json)
    ensures
        encodes_optional_text(doc, text_of(*text)),
{
    match text {
        Some(s) => Json::Text(s.clone()),
        None => Json::Null,
    }
}

/// Writes a sequence of texts as a list of strings.
pub fn encode_texts(uris: &Vec<String>) -> (doc: Json)
    ensures
        encodes_texts(doc, names_of(uris@)),
{
    let mut items: Vec<Json> = Vec::new();
    let mut i: usize = 0;
    while i < uris.len()
        invariant
            i <= uris.len(),
            items@.len() == i,
            forall|j: int| 0 <= j < i ==> (#[trigger] items@[j]) is Text,
            forall|j: int| 0 <= j < i ==> text_in(#[trigger] items@[j]) == uris@[j]@,
        decreases uris.len() - i,
    {
        items.push(Json::Text(uris[i].clone()));
        i += 1;
    }
    proof {
        assert(texts_of(items@) =~= names_of(uris@));
    }
    Json::List(items)
}

/// Encodes one record as a package object. Absent fields are written as null
/// and the homepage always as a list.
pub fn encode_record(record: &PackageRecord) -> (doc: Json)
    ensures
        encodes_record(doc, record@),
{
    let mut meta: Vec<(String, Json)> = Vec::new();
    meta.push(("description".to_owned(), encode_optional_text(&record.description)));
    meta.push(("homepage".to_owned(), encode_texts(&record.homepage)));
    meta.push(("position".to_owned(), encode_optional_text(&record.position)));
    let mut members: Vec<(String, Json)> = Vec::new();
    members.push(("name".to_owned(), Json::Text(record.name.clone())));
    members.push(("pname".to_owned(), encode_optional_text(&record.pname)));
    members.push(("version".to_owned(), encode_optional_text(&record.version)));
    members.push(("meta".to_owned(), Json::Object(meta)));
    Json::Object(members)
}

/// Decoding the JSON form of a record gives that record back, field for
/// field, absent fields included.
pub proof fn lemma_record_round_trip(doc: Json, record: RecordView)
    requires
        encodes_record(doc, record),
    ensures
        record_of(doc) == Some(record),
{
    reveal_strlit("name");
    reveal_strlit("pname");
    reveal_strlit("version");
    reveal_strlit("meta");
    reveal_strlit("description");
    reveal_strlit("homepage");
    reveal_strlit("position");
    reveal_with_fuel(field_of, 5);
    let members = doc->Object_0@;
    let meta = members[3].1->Object_0@;
    assert("name"@[0] != "meta"@[0]);
    assert("homepage"@[0] != "position"@[0]);
    assert(field_of(meta, "position"@) == Some(meta[2].1));
    assert(field_of(meta, "homepage"@) == Some(meta[1].1));
    assert(field_of(meta, "description"@) == Some(meta[0].1));
    assert(meta_of(Some(members[3].1)) == Some(
        MetaView {
            description: record.description,
            homepage: record.homepage,
            position: record.position,
        },
    ));
    let m3 = members.drop_last();
    let m2 = m3.drop_last();
    let m1 = m2.drop_last();
    assert(m3.last() == members[2] && m2.last() == members[1] && m1.last() == members[0]);
    assert("name"@.len() == 4 && "pname"@.len() == 5 && "version"@.len() == 7 && "meta"@.len()
        == 4);
    assert(field_of(members, "meta"@) == Some(members[3].1));
    assert(field_of(members, "version"@) == Some(members[2].1));
    assert(field_of(members, "pname"@) == Some(members[1].1));
    assert(field_of(members, "name"@) == Some(members[0].1));
}

} // verus!
