//! The catalog's JSON form: an object that maps each identifier to its
//! package object.

use crate::catalog::{lemma_insert_entry, map_of, Catalog};
use crate::json::{parse, parsed, render, rendered, Json};
use crate::record::{
    decode_record, encode_record, encodes_record, lemma_record_round_trip, record_of, text_of,
    RecordView,
};
use crate::text::strictly_sorted;
use vstd::prelude::*;

verus! {

/// Why a document was not accepted as a catalog. `key` is the identifier of
/// the first package object that was rejected; it is absent where the
/// document as a whole is malformed or is no object.
#[derive(Debug, Clone, PartialEq, Eq)]
pub struct CatalogParseError {
    pub key: Option<String>,
}

/// The catalog that the members of a document stand for, or `None` where one
/// of the package objects is rejected. Where an identifier occurs twice the
/// later member counts.
pub open spec fn catalog_of(members: Seq<(String, Json)>) -> Option<Map<Seq<char>, RecordView>>
    decreases members.len(),
{
    if members.len() == 0 {
        Some(Map::empty())
    } else {
        match (catalog_of(members.drop_last()), record_of(members.last().1)) {
            (Some(catalog), Some(record)) => Some(catalog.insert(members.last().0@, record)),
            _ => None,
        }
    }
}

/// The member at `i` is the first whose package object is rejected.
pub open spec fn first_rejected(members: Seq<(String, Json)>, i: int) -> bool {
    &&& 0 <= i < members.len()
    &&& record_of(members[i].1) is None
    &&& forall|j: int| 0 <= j < i ==> record_of((#[trigger] members[j]).1) is Some
}

/// `outcome` is what decoding `doc` gives: the catalog where every member is
/// accepted, else an error that names the first member rejected, and an error
/// without a key where `doc` is no object.
pub open spec fn decodes_to(doc: Json, outcome: Result<Catalog, CatalogParseError>) -> bool {
    match doc {
        Json::Object(members) => match catalog_of(members@) {
            Some(catalog) => match outcome {
                Ok(decoded) => decoded.wf() && decoded@ == catalog,
                Err(_) => false,
            },
            None => match outcome {
                Ok(_) => false,
                Err(error) => exists|i: int| #[trigger]
                    first_rejected(members@, i) && text_of(error.key) == Some(members@[i].0@),
            },
        },
        _ => match outcome {
            Ok(_) => false,
            Err(error) => error.key is None,
        },
    }
}

/// A catalog is rejected as soon as one of its package objects is.
pub proof fn lemma_rejected(members: Seq<(String, Json)>, i: int)
    requires
        0 <= i < members.len(),
        record_of(members[i].1) is None,
    ensures
        catalog_of(members) is None,
    decreases members.len(),
{
    if i < members.len() - 1 {
        lemma_rejected(members.drop_last(), i);
    }
}

/// Decodes a catalog document.
pub fn decode_catalog(doc: &Json) -> (r: Result<Catalog, CatalogParseError>)
    ensures
        decodes_to(*doc, r),
{
    let members = match doc {
        Json::Object(members) => members,
        _ => {
            return Err(CatalogParseError { key: None });
        },
    };
    let mut catalog = Catalog::new();
    let mut i: usize = 0;
    proof {
        assert(members@.subrange(0, 0) =~= Seq::empty());
    }
    while i < members.len()
        invariant
            *doc == Json::Object(*members),
            i <= members.len(),
            catalog.wf(),
            catalog_of(members@.subrange(0, i as int)) == Some(catalog@),
            forall|j: int| 0 <= j < i ==> record_of((#[trigger] members@[j]).1) is Some,
        decreases members.len() - i,
    {
        let ghost front = members@.subrange(0, i as int + 1);
        proof {
            assert(front.last() == members@[i as int]);
            assert(front.drop_last() =~= members@.subrange(0, i as int));
        }
        match decode_record(&members[i].1) {
            Some(record) => {
                catalog.insert(members[i].0.clone(), record);
            },
            None => {
                proof {
                    lemma_rejected(members@, i as int);
                    assert(first_rejected(members@, i as int));
                }
                return Err(CatalogParseError { key: Some(members[i].0.clone()) });
            },
        }
        i += 1;
    }
    proof {
        assert(members@.subrange(0, i as int) =~= members@);
    }
    Ok(catalog)
}

/// `outcome` is what reading a catalog from bytes gives: an error without a
/// key where the bytes are no JSON document, else what decoding the document
/// gives.
pub open spec fn reads_to(
    document: Option<Json>,
    outcome: Result<Catalog, CatalogParseError>,
) -> bool {
    match document {
        Some(doc) => decodes_to(doc, outcome),
        None => match outcome {
            Ok(_) => false,
            Err(error) => error.key is None,
        },
    }
}

/// Reads a catalog from the bytes of a JSON document.
pub fn parse_catalog(bytes: &[u8]) -> (r: Result<Catalog, CatalogParseError>)
    ensures
        reads_to(parsed(bytes@), r),
{
    match parse(bytes) {
        Some(doc) => decode_catalog(&doc),
        None => Err(CatalogParseError { key: None }),
    }
}

/// `members` holds one member for each of `keys`, in order, whose value is
/// the JSON form of the record at the same position.
pub open spec fn encodes_entries(
    members: Seq<(String, Json)>,
    keys: Seq<Seq<char>>,
    records: Seq<RecordView>,
) -> bool {
    &&& members.len() == keys.len()
    &&& forall|i: int|
        0 <= i < members.len() ==> (#[trigger] members[i]).0@ == keys[i] && encodes_record(
            members[i].1,
            records[i],
        )
}

/// `doc` is the JSON form of the catalog with these keys and records.
pub open spec fn encodes_catalog(
    doc: Json,
    keys: Seq<Seq<char>>,
    records: Seq<RecordView>,
) -> bool {
    match doc {
        Json::Object(members) => encodes_entries(members@, keys, records),
        _ => false,
    }
}

/// Encodes a catalog as a document, one member for each identifier, in
/// identifier order.
pub fn encode_catalog(catalog: &Catalog) -> (doc: Json)
    ensures
        encodes_catalog(doc, catalog.keys(), catalog.records()),
{
    let mut members: Vec<(String, Json)> = Vec::new();
    let mut i: usize = 0;
    let n: usize = catalog.len();
    while i < n
        invariant
            n == catalog.keys().len(),
            i <= n,
            members@.len() == i,
            forall|j: int|
                0 <= j < i ==> (#[trigger] members@[j]).0@ == catalog.keys()[j] && encodes_record(
                    members@[j].1,
                    catalog.records()[j],
                ),
        decreases n - i,
    {
        members.push((catalog.key_at(i).clone(), encode_record(catalog.record_at(i))));
        i += 1;
    }
    Json::Object(members)
}

/// `bytes` is what writing `doc` gives.
pub open spec fn renders_to(doc: Json, bytes: Option<Vec<u8>>) -> bool {
    match rendered(doc) {
        Some(written) => bytes.is_some() && bytes.unwrap()@ == written,
        None => bytes.is_none(),
    }
}

/// Writes a catalog as the bytes of a JSON document.
pub fn catalog_bytes(catalog: &Catalog) -> (r: Option<Vec<u8>>)
    ensures
        exists|doc: Json| #[trigger]
            encodes_catalog(doc, catalog.keys(), catalog.records()) && renders_to(doc, r),
{
    let doc = encode_catalog(catalog);
    render(&doc)
}

/// The members written for a sorted catalog decode to its mapping.
pub proof fn lemma_entries_round_trip(
    members: Seq<(String, Json)>,
    keys: Seq<Seq<char>>,
    records: Seq<RecordView>,
)
    requires
        strictly_sorted(keys),
        keys.len() == records.len(),
        encodes_entries(members, keys, records),
    ensures
        catalog_of(members) == Some(map_of(keys, records)),
    decreases members.len(),
{
    if members.len() == 0 {
        assert(map_of(keys, records) =~= Map::empty());
    } else {
        let n = members.len() - 1;
        lemma_entries_round_trip(members.drop_last(), keys.drop_last(), records.drop_last());
        lemma_record_round_trip(members[n].1, records[n]);
        lemma_insert_entry(keys.drop_last(), records.drop_last(), n, keys[n], records[n]);
        assert(keys.drop_last().insert(n, keys[n]) =~= keys);
        assert(records.drop_last().insert(n, records[n]) =~= records);
    }
}

/// Decoding what a catalog was encoded to gives the same catalog back: the
/// same identifiers, each with the same record, field for field.
pub proof fn lemma_catalog_round_trip(
    catalog: Catalog,
    doc: Json,
    outcome: Result<Catalog, CatalogParseError>,
)
    requires
        catalog.wf(),
        encodes_catalog(doc, catalog.keys(), catalog.records()),
        decodes_to(doc, outcome),
    ensures
        outcome is Ok,
        outcome.unwrap()@ == catalog@,
{
    lemma_entries_round_trip(doc->Object_0@, catalog.keys(), catalog.records());
}

} // verus!
