//! The name index of a catalog, and prefix queries over it.

use crate::catalog::Catalog;
use crate::codec::renders_to;
use crate::json::{parse, parsed, render, Json};
use crate::record::{
    all_text, decode_texts, encode_texts, encodes_texts, names_of, texts_of,
    PackageRecord, RecordView,
};
use crate::text::{lemma_precedes_asymmetric, precedes, starts_with, strictly_sorted};
use vstd::prelude::*;

verus! {

/// An identifier of the index for which the catalog holds no record.
#[derive(Debug, Clone, PartialEq, Eq)]
pub struct IndexCorrupt {
    pub key: String,
}

/// A strictly sorted sequence holds no name twice.
pub proof fn lemma_sorted_distinct(names: Seq<Seq<char>>)
    requires
        strictly_sorted(names),
    ensures
        names.no_duplicates(),
{
    assert forall|i: int, j: int|
        0 <= i < names.len() && 0 <= j < names.len() && i != j implies names[i] != names[j] by {
        if i < j {
            lemma_precedes_asymmetric(names[i], names[j]);
        } else {
            lemma_precedes_asymmetric(names[j], names[i]);
        }
    }
}

/// Derives the name index of a catalog: its identifiers in lexicographic
/// order, each once.
pub fn build_index(catalog: &Catalog) -> (index: Vec<String>)
    requires
        catalog.wf(),
    ensures
        names_of(index@) == catalog.keys(),
        strictly_sorted(names_of(index@)),
        names_of(index@).no_duplicates(),
        forall|k: Seq<char>| catalog@.contains_key(k) <==> names_of(index@).contains(k),
{
    let mut index: Vec<String> = Vec::new();
    let n: usize = catalog.len();
    let mut i: usize = 0;
    while i < n
        invariant
            n == catalog.keys().len(),
            i <= n,
            index@.len() == i,
            forall|j: int| 0 <= j < i ==> (#[trigger] index@[j])@ == catalog.keys()[j],
        decreases n - i,
    {
        index.push(catalog.key_at(i).clone());
        i += 1;
    }
    proof {
        assert(names_of(index@) =~= catalog.keys());
        lemma_sorted_distinct(catalog.keys());
    }
    index
}

/// The test that a name begins with `prefix`.
pub open spec fn begins_with(prefix: Seq<char>) -> spec_fn(Seq<char>) -> bool {
    |name: Seq<char>| prefix.is_prefix_of(name)
}

/// The names that begin with `prefix`, in the order of `names`.
pub open spec fn matching(prefix: Seq<char>, names: Seq<Seq<char>>) -> Seq<Seq<char>> {
    names.filter(begins_with(prefix))
}

/// Selects the identifiers of the index that begin with `prefix`, in the
/// index's order.
pub fn query(prefix: &str, index: &Vec<String>) -> (hits: Vec<String>)
    ensures
        names_of(hits@) == matching(prefix@, names_of(index@)),
{
    let mut hits: Vec<String> = Vec::new();
    let mut i: usize = 0;
    let ghost names = names_of(index@);
    proof {
        reveal(Seq::filter);
        assert(names.subrange(0, 0) =~= Seq::empty());
        assert(names_of(hits@) =~= matching(prefix@, names.subrange(0, 0)));
    }
    while i < index.len()
        invariant
            names == names_of(index@),
            i <= index.len(),
            names_of(hits@) == matching(prefix@, names.subrange(0, i as int)),
        decreases index.len() - i,
    {
        let ghost front = names.subrange(0, i as int + 1);
        let ghost before = hits@;
        proof {
            reveal(Seq::filter);
            assert(front.last() == index@[i as int]@);
            assert(front.drop_last() =~= names.subrange(0, i as int));
        }
        if starts_with(index[i].as_str(), prefix) {
            hits.push(index[i].clone());
            proof {
                assert(names_of(hits@) =~= names_of(before).push(index@[i as int]@));
            }
        }
        i += 1;
    }
    proof {
        assert(names.subrange(0, i as int) =~= names);
    }
    hits
}

/// Every name begins with the empty prefix, so the empty prefix selects the
/// whole index.
pub proof fn lemma_query_all(names: Seq<Seq<char>>)
    ensures
        matching(Seq::empty(), names) == names,
    decreases names.len(),
{
    reveal(Seq::filter);
    if names.len() > 0 {
        lemma_query_all(names.drop_last());
        assert(Seq::<char>::empty().is_prefix_of(names.last()));
        assert(names.drop_last().push(names.last()) =~= names);
    }
}

/// A prefix with which no name begins selects nothing.
pub proof fn lemma_query_none(prefix: Seq<char>, names: Seq<Seq<char>>)
    requires
        forall|i: int| 0 <= i < names.len() ==> !prefix.is_prefix_of(#[trigger] names[i]),
    ensures
        matching(prefix, names) == Seq::<Seq<char>>::empty(),
    decreases names.len(),
{
    reveal(Seq::filter);
    if names.len() > 0 {
        lemma_query_none(prefix, names.drop_last());
        assert(!prefix.is_prefix_of(names[names.len() - 1]));
    }
}

/// What a query selects is the subsequence of the index whose names begin
/// with the prefix: it holds none but such names of the index, all of them,
/// and in the index's order.
pub proof fn lemma_query_selects(prefix: Seq<char>, names: Seq<Seq<char>>)
    ensures
        forall|i: int|
            0 <= i < matching(prefix, names).len() ==> prefix.is_prefix_of(
                #[trigger] matching(prefix, names)[i],
            ) && names.contains(matching(prefix, names)[i]),
        forall|i: int|
            0 <= i < names.len() && prefix.is_prefix_of(#[trigger] names[i]) ==> matching(
                prefix,
                names,
            ).contains(names[i]),
        strictly_sorted(names) ==> strictly_sorted(matching(prefix, names)),
    decreases names.len(),
{
    reveal(Seq::filter);
    if names.len() > 0 {
        let front = names.drop_last();
        let last = names.last();
        let hits = matching(prefix, names);
        lemma_query_selects(prefix, front);
        assert forall|i: int| 0 <= i < hits.len() implies prefix.is_prefix_of(#[trigger] hits[i])
            && names.contains(hits[i]) by {
            if i < matching(prefix, front).len() {
                let j = front.index_of(matching(prefix, front)[i]);
                assert(names[j] == hits[i]);
            } else {
                assert(names[names.len() - 1] == hits[i]);
            }
        }
        assert forall|i: int|
            0 <= i < names.len() && prefix.is_prefix_of(#[trigger] names[i]) implies hits.contains(
            names[i],
        ) by {
            if i < front.len() {
                assert(front[i] == names[i]);
                let j = matching(prefix, front).index_of(front[i]);
                assert(hits[j] == names[i]);
            } else {
                assert(hits[hits.len() - 1] == names[i]);
            }
        }
        if strictly_sorted(names) {
            assert(strictly_sorted(front));
            assert forall|i: int, j: int| 0 <= i < j < hits.len() implies precedes(
                hits[i],
                hits[j],
            ) by {
                if j == matching(prefix, front).len() {
                    let k = front.index_of(matching(prefix, front)[i]);
                    assert(names[k] == hits[i]);
                }
            }
        }
    }
}

/// An index derived from a catalog holds no orphan: whatever a query selects
/// from it is an identifier of the catalog.
pub proof fn lemma_built_index_has_no_orphan(catalog: Catalog, prefix: Seq<char>)
    requires
        catalog.wf(),
    ensures
        forall|i: int|
            0 <= i < matching(prefix, catalog.keys()).len() ==> catalog@.contains_key(
                #[trigger] matching(prefix, catalog.keys())[i],
            ),
{
    lemma_query_selects(prefix, catalog.keys());
}

/// The name with its record, for each of `hits`.
pub open spec fn found(hits: Seq<Seq<char>>, catalog: Map<Seq<char>, RecordView>) -> Seq<
    (Seq<char>, RecordView),
> {
    Seq::new(hits.len(), |i: int| (hits[i], catalog[hits[i]]))
}

/// What a list of pairs says, as mathematical values.
pub open spec fn pairs_of(pairs: Seq<(String, PackageRecord)>) -> Seq<(Seq<char>, RecordView)> {
    Seq::new(pairs.len(), |i: int| (pairs[i].0@, pairs[i].1@))
}

/// The name at `i` is the first of `hits` that the catalog lacks.
pub open spec fn first_orphan(
    hits: Seq<Seq<char>>,
    catalog: Map<Seq<char>, RecordView>,
    i: int,
) -> bool {
    &&& 0 <= i < hits.len()
    &&& !catalog.contains_key(hits[i])
    &&& forall|j: int| 0 <= j < i ==> catalog.contains_key(#[trigger] hits[j])
}

/// Answers a prefix query: each identifier of the index that begins with
/// `prefix`, in the index's order, with its record. An identifier that the
/// catalog lacks is reported, the first such one by name.
pub fn lookup(prefix: &str, index: &Vec<String>, catalog: &Catalog) -> (r: Result<
    Vec<(String, PackageRecord)>,
    IndexCorrupt,
>)
    requires
        catalog.wf(),
    ensures
        match r {
            Ok(pairs) => {
                &&& forall|i: int|
                    0 <= i < matching(prefix@, names_of(index@)).len() ==> catalog@.contains_key(
                        #[trigger] matching(prefix@, names_of(index@))[i],
                    )
                &&& pairs_of(pairs@) == found(matching(prefix@, names_of(index@)), catalog@)
            },
            Err(error) => exists|i: int| #[trigger]
                first_orphan(matching(prefix@, names_of(index@)), catalog@, i) && error.key@
                    == matching(prefix@, names_of(index@))[i],
        },
{
    let hits = query(prefix, index);
    let ghost names = matching(prefix@, names_of(index@));
    let mut pairs: Vec<(String, PackageRecord)> = Vec::new();
    let mut i: usize = 0;
    while i < hits.len()
        invariant
            catalog.wf(),
            names == names_of(hits@),
            names == matching(prefix@, names_of(index@)),
            i <= hits.len(),
            pairs@.len() == i,
            forall|j: int| 0 <= j < i ==> catalog@.contains_key(#[trigger] names[j]),
            forall|j: int|
                0 <= j < i ==> (#[trigger] pairs@[j]).0@ == names[j] && pairs@[j].1@
                    == catalog@[names[j]],
        decreases hits.len() - i,
    {
        assert(names[i as int] == hits@[i as int]@);
        match catalog.get(hits[i].as_str()) {
            Some(record) => {
                pairs.push((hits[i].clone(), record.duplicate()));
            },
            None => {
                proof {
                    assert(first_orphan(names, catalog@, i as int));
                }
                return Err(IndexCorrupt { key: hits[i].clone() });
            },
        }
        i += 1;
    }
    proof {
        assert(pairs_of(pairs@) =~= found(names, catalog@));
    }
    Ok(pairs)
}

/// The index that a document stands for: the texts of a list of strings, and
/// `None` for any other document.
pub open spec fn index_of_doc(doc: Json) -> Option<Seq<Seq<char>>> {
    match doc {
        Json::List(items) => if all_text(items@) {
            Some(texts_of(items@))
        } else {
            None
        },
        _ => None,
    }
}

/// The index that the outcome of parsing stands for.
pub open spec fn index_read(document: Option<Json>) -> Option<Seq<Seq<char>>> {
    match document {
        Some(doc) => index_of_doc(doc),
        None => None,
    }
}

/// Decodes an index document.
pub fn decode_index(doc: &Json) -> (r: Option<Vec<String>>)
    ensures
        r.is_some() == index_of_doc(*doc).is_some(),
        r.is_some() ==> names_of(r.unwrap()@) == index_of_doc(*doc).unwrap(),
{
    match doc {
        Json::List(items) => decode_texts(items),
        _ => None,
    }
}

/// Encodes an index as a list of strings, in the index's order.
pub fn encode_index(index: &Vec<String>) -> (doc: Json)
    ensures
        encodes_texts(doc, names_of(index@)),
        index_of_doc(doc) == Some(names_of(index@)),
{
    encode_texts(index)
}

/// Reads an index from the bytes of a JSON document.
pub fn parse_index(bytes: &[u8]) -> (r: Option<Vec<String>>)
    ensures
        r.is_some() == index_read(parsed(bytes@)).is_some(),
        r.is_some() ==> names_of(r.unwrap()@) == index_read(parsed(bytes@)).unwrap(),
{
    match parse(bytes) {
        Some(doc) => decode_index(&doc),
        None => None,
    }
}

/// Writes an index as the bytes of a JSON document.
pub fn index_bytes(index: &Vec<String>) -> (r: Option<Vec<u8>>)
    ensures
        exists|doc: Json| #[trigger] encodes_texts(doc, names_of(index@)) && renders_to(doc, r),
{
    let doc = encode_index(index);
    render(&doc)
}

} // verus!
