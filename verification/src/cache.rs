//! The cache's lifecycle: when it counts as valid, what a rebuild produces
//! from the producer's output, and what loading the two files gives.

use crate::catalog::Catalog;
use crate::codec::{
    catalog_bytes, catalog_of, encodes_catalog, parse_catalog, reads_to, renders_to,
    CatalogParseError,
};
use crate::index::{
    build_index, found, index_bytes, index_read, lookup, matching, pairs_of, parse_index,
    first_orphan, IndexCorrupt,
};
use crate::json::{parsed, Json};
use crate::record::{encodes_texts, names_of, PackageRecord};
use vstd::prelude::*;

verus! {

/// The name of the file that holds the catalog.
pub fn catalog_file() -> (r: &'static str)
    ensures
        r@ == "pkgs.json"@,
{
    "pkgs.json"
}

/// The name of the file that holds the name index.
pub fn index_file() -> (r: &'static str)
    ensures
        r@ == "keys.json"@,
{
    "keys.json"
}

/// Where the cache lives: its directory and the paths of the two files in it.
#[derive(Debug, Clone, PartialEq, Eq)]
pub struct CacheLocation {
    pub dir: String,
    pub catalog: String,
    pub index: String,
}

/// The path of `file` inside the directory `dir`.
pub open spec fn path_in(dir: Seq<char>, file: Seq<char>) -> Seq<char> {
    dir + "/"@ + file
}

/// Resolves the two file paths inside the cache directory `dir`. Nothing on
/// disk is looked at.
pub fn locate(dir: &str) -> (r: CacheLocation)
    ensures
        r.dir@ == dir@,
        r.catalog@ == path_in(dir@, "pkgs.json"@),
        r.index@ == path_in(dir@, "keys.json"@),
{
    CacheLocation {
        dir: dir.to_owned(),
        catalog: dir.to_owned().concat("/").concat(catalog_file()),
        index: dir.to_owned().concat("/").concat(index_file()),
    }
}

/// Everything that can go wrong between the producer and a query's answer.
#[derive(Debug, Clone, PartialEq, Eq)]
pub enum CacheError {
    ProducerUnavailable,
    ProducerFailed,
    CatalogParse(CatalogParseError),
    CacheCorrupt,
    IndexCorrupt(IndexCorrupt),
    Filesystem,
}

impl CacheError {
    /// The text shown to the user for each kind of error.
    pub open spec fn message_text(self) -> Seq<char> {
        match self {
            CacheError::ProducerUnavailable => "the catalog producer was not found"@,
            CacheError::ProducerFailed => "the catalog producer exited with an error"@,
            CacheError::CatalogParse(_) => "the package catalog could not be decoded"@,
            CacheError::CacheCorrupt => "a cache file could not be decoded"@,
            CacheError::IndexCorrupt(_) => "the index names a package that the catalog lacks"@,
            CacheError::Filesystem => "a file or directory operation failed"@,
        }
    }

    /// Two errors are of the same kind.
    pub open spec fn same_kind(self, other: CacheError) -> bool {
        match (self, other) {
            (CacheError::ProducerUnavailable, CacheError::ProducerUnavailable) => true,
            (CacheError::ProducerFailed, CacheError::ProducerFailed) => true,
            (CacheError::CatalogParse(_), CacheError::CatalogParse(_)) => true,
            (CacheError::CacheCorrupt, CacheError::CacheCorrupt) => true,
            (CacheError::IndexCorrupt(_), CacheError::IndexCorrupt(_)) => true,
            (CacheError::Filesystem, CacheError::Filesystem) => true,
            _ => false,
        }
    }

    /// The message for this error.
    pub fn message(&self) -> (r: &'static str)
        ensures
            r@ == self.message_text(),
    {
        match self {
            CacheError::ProducerUnavailable => "the catalog producer was not found",
            CacheError::ProducerFailed => "the catalog producer exited with an error",
            CacheError::CatalogParse(_) => "the package catalog could not be decoded",
            CacheError::CacheCorrupt => "a cache file could not be decoded",
            CacheError::IndexCorrupt(_) => "the index names a package that the catalog lacks",
            CacheError::Filesystem => "a file or directory operation failed",
        }
    }
}

/// Errors of different kinds have different messages.
pub proof fn lemma_messages_distinct(a: CacheError, b: CacheError)
    requires
        !a.same_kind(b),
    ensures
        a.message_text() != b.message_text(),
{
    reveal_strlit("the catalog producer was not found");
    reveal_strlit("the catalog producer exited with an error");
    reveal_strlit("the package catalog could not be decoded");
    reveal_strlit("a cache file could not be decoded");
    reveal_strlit("the index names a package that the catalog lacks");
    reveal_strlit("a file or directory operation failed");
    assert(a.message_text().len() != b.message_text().len());
}

/// What is present on disk: the cache directory and the two files in it.
#[derive(Debug, Clone, Copy, PartialEq, Eq, Structural)]
pub struct Presence {
    pub dir: bool,
    pub catalog: bool,
    pub index: bool,
}

/// What to do before a query can be answered.
#[derive(Debug, Clone, Copy, PartialEq, Eq, Structural)]
pub enum Step {
    /// The cache is there: load it.
    Load,
    /// Run the producer and write both files, after creating the cache
    /// directory where `create_dir` is set.
    Rebuild { create_dir: bool },
}

/// The cache is valid where the directory and both files exist. Nothing is
/// asked of their contents.
pub open spec fn valid(presence: Presence) -> bool {
    presence.dir && presence.catalog && presence.index
}

/// The step to take: a forced rebuild rebuilds whatever is present, a valid
/// cache is loaded, and anything else creates the directory and rebuilds.
pub open spec fn plan_of(presence: Presence, force: bool) -> Step {
    if force {
        Step::Rebuild { create_dir: false }
    } else if valid(presence) {
        Step::Load
    } else {
        Step::Rebuild { create_dir: true }
    }
}

/// Whether the cache counts as valid.
pub fn is_valid(presence: &Presence) -> (r: bool)
    ensures
        r == valid(*presence),
{
    presence.dir && presence.catalog && presence.index
}

/// Decides the step to take for what is present and whether a rebuild was
/// asked for.
pub fn plan(presence: &Presence, force: bool) -> (step: Step)
    ensures
        step == plan_of(*presence, force),
{
    if force {
        Step::Rebuild { create_dir: false }
    } else if is_valid(presence) {
        Step::Load
    } else {
        Step::Rebuild { create_dir: true }
    }
}

/// How an attempt to create the cache directory ended.
#[derive(Debug, Clone, Copy, PartialEq, Eq, Structural)]
pub enum DirCreation {
    Created,
    AlreadyExists,
    Failed,
}

/// A directory that already exists is as good as one just created; any other
/// failure is a filesystem error.
pub fn directory_ready(outcome: DirCreation) -> (r: Result<(), CacheError>)
    ensures
        outcome is Failed ==> r == Err::<(), CacheError>(CacheError::Filesystem),
        !(outcome is Failed) ==> r is Ok,
{
    match outcome {
        DirCreation::Failed => Err(CacheError::Filesystem),
        _ => Ok(()),
    }
}

/// How the run of the catalog producer ended.
#[derive(Debug, Clone, PartialEq, Eq)]
pub enum Producer {
    /// The producer could not be started.
    Unavailable,
    /// The producer ran; `output` is what it wrote to its standard output.
    Exited { success: bool, output: Vec<u8> },
}

/// A catalog with its name index.
#[derive(Debug, Clone, PartialEq, Eq)]
pub struct Cache {
    pub catalog: Catalog,
    pub index: Vec<String>,
}

/// The contents of the two cache files.
#[derive(Debug, Clone, PartialEq, Eq)]
pub struct CacheFiles {
    pub catalog: Vec<u8>,
    pub index: Vec<u8>,
}

/// The document is a catalog whose every package object is accepted.
pub open spec fn accepted(document: Option<Json>) -> bool {
    match document {
        Some(Json::Object(members)) => catalog_of(members@) is Some,
        _ => false,
    }
}

/// One of the two documents written for `catalog` cannot be turned into
/// bytes.
pub open spec fn unwritable(catalog: Catalog) -> bool {
    ||| exists|doc: Json| #[trigger]
        encodes_catalog(doc, catalog.keys(), catalog.records()) && renders_to(doc, None)
    ||| exists|doc: Json| #[trigger]
        encodes_texts(doc, catalog.keys()) && renders_to(doc, None)
}

/// `outcome` is what a rebuild gives for the document that the producer
/// wrote: the catalog it stands for with the index derived from it and both
/// files' contents, or the parse error. A filesystem error comes only where
/// the catalog was accepted and one of the files' contents could not be
/// written.
pub open spec fn rebuilt(
    document: Option<Json>,
    outcome: Result<(Cache, CacheFiles), CacheError>,
) -> bool {
    match outcome {
        Ok((cache, files)) => {
            &&& reads_to(document, Ok(cache.catalog))
            &&& names_of(cache.index@) == cache.catalog.keys()
            &&& exists|doc: Json| #[trigger]
                encodes_catalog(doc, cache.catalog.keys(), cache.catalog.records())
                    && renders_to(doc, Some(files.catalog))
            &&& exists|doc: Json| #[trigger]
                encodes_texts(doc, names_of(cache.index@)) && renders_to(doc, Some(files.index))
        },
        Err(CacheError::CatalogParse(error)) => reads_to(document, Err(error)),
        Err(CacheError::Filesystem) => exists|catalog: Catalog| #[trigger]
            reads_to(document, Ok(catalog)) && unwritable(catalog),
        Err(_) => false,
    }
}

/// Rebuilds the cache from the outcome of a producer run. Output is parsed
/// only where the producer succeeded.
pub fn rebuild(producer: &Producer) -> (r: Result<(Cache, CacheFiles), CacheError>)
    ensures
        match *producer {
            Producer::Unavailable => r == Err::<(Cache, CacheFiles), CacheError>(
                CacheError::ProducerUnavailable,
            ),
            Producer::Exited { success, output } => if success {
                rebuilt(parsed(output@), r)
            } else {
                r == Err::<(Cache, CacheFiles), CacheError>(CacheError::ProducerFailed)
            },
        },
{
    match producer {
        Producer::Unavailable => Err(CacheError::ProducerUnavailable),
        Producer::Exited { success, output } => {
            if !*success {
                return Err(CacheError::ProducerFailed);
            }
            let catalog = match parse_catalog(output.as_slice()) {
                Ok(catalog) => catalog,
                Err(error) => {
                    return Err(CacheError::CatalogParse(error));
                },
            };
            let index = build_index(&catalog);
            let catalog_file = match catalog_bytes(&catalog) {
                Some(bytes) => bytes,
                None => {
                    proof {
                        assert(unwritable(catalog));
                        assert(reads_to(parsed(output@), Ok(catalog)));
                    }
                    return Err(CacheError::Filesystem);
                },
            };
            let index_file = match index_bytes(&index) {
                Some(bytes) => bytes,
                None => {
                    proof {
                        assert(unwritable(catalog));
                        assert(reads_to(parsed(output@), Ok(catalog)));
                    }
                    return Err(CacheError::Filesystem);
                },
            };
            Ok((Cache { catalog, index }, CacheFiles { catalog: catalog_file, index: index_file }))
        },
    }
}

/// Loads the cache from the contents of its two files. Either file failing
/// to decode makes the cache corrupt.
pub fn load(catalog_file: &[u8], index_file: &[u8]) -> (r: Result<Cache, CacheError>)
    ensures
        match r {
            Ok(cache) => reads_to(parsed(catalog_file@), Ok(cache.catalog)) && index_read(
                parsed(index_file@),
            ) == Some(names_of(cache.index@)),
            Err(error) => error is CacheCorrupt && (!accepted(parsed(catalog_file@)) || index_read(
                parsed(index_file@),
            ) is None),
        },
{
    let catalog = match parse_catalog(catalog_file) {
        Ok(catalog) => catalog,
        Err(_) => {
            return Err(CacheError::CacheCorrupt);
        },
    };
    let index = match parse_index(index_file) {
        Some(index) => index,
        None => {
            return Err(CacheError::CacheCorrupt);
        },
    };
    Ok(Cache { catalog, index })
}

impl Cache {
    /// Answers a prefix query from the loaded cache. An identifier of the
    /// index that the catalog lacks makes the index corrupt.
    pub fn search(&self, prefix: &str) -> (r: Result<Vec<(String, PackageRecord)>, CacheError>)
        requires
            self.catalog.wf(),
        ensures
            match r {
                Ok(pairs) => {
                    &&& forall|i: int|
                        0 <= i < matching(prefix@, names_of(self.index@)).len()
                            ==> self.catalog@.contains_key(
                            #[trigger] matching(prefix@, names_of(self.index@))[i],
                        )
                    &&& pairs_of(pairs@) == found(
                        matching(prefix@, names_of(self.index@)),
                        self.catalog@,
                    )
                },
                Err(CacheError::IndexCorrupt(error)) => exists|i: int| #[trigger]
                    first_orphan(matching(prefix@, names_of(self.index@)), self.catalog@, i)
                        && error.key@ == matching(prefix@, names_of(self.index@))[i],
                Err(_) => false,
            },
    {
        match lookup(prefix, &self.index, &self.catalog) {
            Ok(pairs) => Ok(pairs),
            Err(error) => Err(CacheError::IndexCorrupt(error)),
        }
    }
}

} // verus!
