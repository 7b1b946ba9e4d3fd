//! Catalog generations: what a generation is made of, when a stored one may be
//! used, and which one is active.

use vstd::prelude::*;
use vstd::utf8::{
    encode_utf8_valid_utf8, is_ascii_chars_encode_utf8, is_char_boundary_iff_not_is_continuation_byte,
    is_continuation_byte,
};

use crate::digest::{digest_text_valid, is_digest_text, is_hex_byte, sha256, sha256_name};
use crate::error::{RuntimeHostError, RuntimeHostResult};
use crate::ordered_map::OrderedMap;
use crate::policy::catalog::{fatal, policy_fatal, policy_request, request, PolicyCatalog};
use crate::search::{first_position, lemma_first_position, lemma_no_position};
use crate::text::{lemma_utf8_concat, lemma_utf8_injective, same_text, utf8};

verus! {

pub const CATALOG_STATE_SCHEMA: &'static str = "actingcommand.catalog-state.v1";

pub const LEGACY_CATALOG_POINTER_SCHEMA: &'static str = "actingcommand.catalog-pointer-file.v1";

pub const ACTIVE_POINTER_STATE_KEY: &'static str = "policy.catalog.active";

/// How long a pointer file may be.
pub const MAX_POINTER_BYTES: u64 = 16_384;

/// How long a manifest may be.
pub const MAX_MANIFEST_BYTES: u64 = 65_536;

/// A document that a generation was compiled from.
#[derive(Debug, Clone, PartialEq, Eq)]
pub struct CatalogSourceRecord {
    pub kind: String,
    pub source_uri: String,
    pub sha256: String,
}

/// The value of a source record.
pub struct SourceRecordView {
    pub kind: Seq<char>,
    pub source_uri: Seq<char>,
    pub sha256: Seq<char>,
}

impl View for CatalogSourceRecord {
    type V = SourceRecordView;

    open spec fn view(&self) -> SourceRecordView {
        SourceRecordView {
            kind: self.kind@,
            source_uri: self.source_uri@,
            sha256: self.sha256@,
        }
    }
}

#[derive(Debug, Clone, PartialEq, Eq)]
pub struct CatalogGeneration {
    pub schema_version: String,
    pub catalog_id: String,
    pub catalog_version: u64,
    pub catalog_hash: String,
    pub sources: Vec<CatalogSourceRecord>,
}

/// The value of a generation.
pub struct GenerationView {
    pub schema_version: Seq<char>,
    pub catalog_id: Seq<char>,
    pub catalog_version: u64,
    pub catalog_hash: Seq<char>,
    pub sources: Seq<SourceRecordView>,
}

pub open spec fn source_records(records: Seq<CatalogSourceRecord>) -> Seq<SourceRecordView> {
    records.map_values(|record: CatalogSourceRecord| record@)
}

impl View for CatalogGeneration {
    type V = GenerationView;

    open spec fn view(&self) -> GenerationView {
        GenerationView {
            schema_version: self.schema_version@,
            catalog_id: self.catalog_id@,
            catalog_version: self.catalog_version,
            catalog_hash: self.catalog_hash@,
            sources: source_records(self.sources@),
        }
    }
}

impl CatalogGeneration {
    pub fn catalog_id(&self) -> (id: &str)
        ensures
            id@ == self.catalog_id@,
    {
        self.catalog_id.as_str()
    }

    pub fn catalog_version(&self) -> (version: u64)
        ensures
            version == self.catalog_version,
    {
        self.catalog_version
    }

    pub fn catalog_hash(&self) -> (hash: &str)
        ensures
            hash@ == self.catalog_hash@,
    {
        self.catalog_hash.as_str()
    }

    /// The same generation once more.
    pub fn copy(&self) -> (generation: Self)
        ensures
            generation@ == self@,
    {
        let mut sources: Vec<CatalogSourceRecord> = Vec::new();
        let mut index: usize = 0;
        while index < self.sources.len()
            invariant
                index <= self.sources.len(),
                source_records(sources@) == source_records(self.sources@).take(index as int),
            decreases self.sources.len() - index,
        {
            let record = &self.sources[index];
            let ghost before = sources@;
            sources.push(
                CatalogSourceRecord {
                    kind: record.kind.clone(),
                    source_uri: record.source_uri.clone(),
                    sha256: record.sha256.clone(),
                },
            );
            proof {
                assert(source_records(sources@) =~= source_records(before).push(record@));
                assert(source_records(self.sources@).take(index + 1) =~= source_records(
                    self.sources@,
                ).take(index as int).push(record@));
            }
            index += 1;
        }
        assert(source_records(self.sources@).take(index as int) =~= source_records(self.sources@));
        CatalogGeneration {
            schema_version: self.schema_version.clone(),
            catalog_id: self.catalog_id.clone(),
            catalog_version: self.catalog_version,
            catalog_hash: self.catalog_hash.clone(),
            sources,
        }
    }

    pub fn same(&self, other: &CatalogGeneration) -> (same: bool)
        ensures
            same == (self@ == other@),
    {
        if !same_text(self.schema_version.as_str(), other.schema_version.as_str()) || !same_text(
            self.catalog_id.as_str(),
            other.catalog_id.as_str(),
        ) || self.catalog_version != other.catalog_version || !same_text(
            self.catalog_hash.as_str(),
            other.catalog_hash.as_str(),
        ) {
            return false;
        }
        if self.sources.len() != other.sources.len() {
            assert(self@.sources.len() != other@.sources.len());
            return false;
        }
        let mut index: usize = 0;
        while index < self.sources.len()
            invariant
                index <= self.sources.len() == other.sources.len(),
                forall|i: int| 0 <= i < index ==> self@.sources[i] == other@.sources[i],
            decreases self.sources.len() - index,
        {
            let left = &self.sources[index];
            let right = &other.sources[index];
            assert(self@.sources[index as int] == left@);
            assert(other@.sources[index as int] == right@);
            if !same_text(left.kind.as_str(), right.kind.as_str()) || !same_text(
                left.source_uri.as_str(),
                right.source_uri.as_str(),
            ) || !same_text(left.sha256.as_str(), right.sha256.as_str()) {
                return false;
            }
            index += 1;
        }
        assert(self@.sources =~= other@.sources);
        true
    }
}

/// One of the documents of a catalog.
#[derive(Debug, Clone, PartialEq, Eq)]
pub struct CatalogDocumentSource {
    pub source_uri: String,
    pub bytes: Vec<u8>,
}

/// The documents of a catalog.
#[derive(Debug, Clone, PartialEq, Eq)]
pub struct CatalogSources {
    pub tasks: CatalogDocumentSource,
    pub pools: CatalogDocumentSource,
    pub activity: CatalogDocumentSource,
    pub timeline: CatalogDocumentSource,
}

pub open spec fn record_of(kind: Seq<char>, source: CatalogDocumentSource) -> SourceRecordView {
    SourceRecordView { kind, source_uri: source.source_uri@, sha256: sha256_name(source.bytes@) }
}

pub fn source_record(kind: &str, source: &CatalogDocumentSource) -> (record: CatalogSourceRecord)
    ensures
        record@ == record_of(kind@, *source),
{
    CatalogSourceRecord {
        kind: kind.to_owned(),
        source_uri: source.source_uri.clone(),
        sha256: sha256(source.bytes.as_slice()),
    }
}

/// The generation that a compiled catalog and its documents make.
pub fn generation_from(compiled: &PolicyCatalog, sources: &CatalogSources) -> (generation:
    CatalogGeneration)
    ensures
        generation@ == (GenerationView {
            schema_version: CATALOG_STATE_SCHEMA@,
            catalog_id: compiled.catalog_id@,
            catalog_version: compiled.catalog_version,
            catalog_hash: compiled.catalog_hash@,
            sources: seq![
                record_of("tasks"@, sources.tasks),
                record_of("pools"@, sources.pools),
                record_of("activity"@, sources.activity),
                record_of("timeline"@, sources.timeline),
            ],
        }),
{
    let mut records: Vec<CatalogSourceRecord> = Vec::new();
    records.push(source_record("tasks", &sources.tasks));
    records.push(source_record("pools", &sources.pools));
    records.push(source_record("activity", &sources.activity));
    records.push(source_record("timeline", &sources.timeline));
    assert(source_records(records@) =~= seq![
        record_of("tasks"@, sources.tasks),
        record_of("pools"@, sources.pools),
        record_of("activity"@, sources.activity),
        record_of("timeline"@, sources.timeline),
    ]);
    CatalogGeneration {
        schema_version: CATALOG_STATE_SCHEMA.to_owned(),
        catalog_id: compiled.catalog_id.clone(),
        catalog_version: compiled.catalog_version,
        catalog_hash: compiled.catalog_hash.clone(),
        sources: records,
    }
}

pub open spec fn hash_refused() -> RuntimeHostError {
    policy_request("catalog_hash_invalid", "resolve_catalog_generation")
}

/// The directory of a generation: its hash without the name of the algorithm.
pub fn generation_path(hash: &str) -> (result: RuntimeHostResult<String>)
    ensures
        digest_text_valid(hash@) ==> (result matches Ok(directory) && hash@ == "sha256:"@
            + directory@),
        !digest_text_valid(hash@) ==> (result matches Err(error) && error == hash_refused()),
{
    if !is_digest_text(hash) {
        return Err(request("catalog_hash_invalid", "resolve_catalog_generation"));
    }
    proof {
        encode_utf8_valid_utf8(hash@);
        reveal_strlit("sha256:");
        is_char_boundary_iff_not_is_continuation_byte(utf8(hash@), 7);
        assert(is_hex_byte(utf8(hash@)[7]));
        assert(forall|byte: u8| is_hex_byte(byte) ==> !is_continuation_byte(byte)) by (bit_vector);
    }
    let (_, directory) = hash.split_at(7);
    proof {
        lemma_utf8_concat("sha256:"@, directory@);
        is_ascii_chars_encode_utf8("sha256:"@);
        assert(utf8("sha256:"@) + utf8(directory@) =~= utf8(hash@));
        lemma_utf8_injective("sha256:"@ + directory@, hash@);
    }
    Ok(directory.to_owned())
}

/// A file is read only if it is not too long.
pub fn check_file_size(length: u64, maximum: u64) -> (result: RuntimeHostResult<()>)
    ensures
        length <= maximum ==> result is Ok,
        length > maximum ==> result == Err::<(), _>(
            policy_fatal("catalog_file_too_large", "read_catalog_state"),
        ),
{
    if length > maximum {
        return Err(fatal("catalog_file_too_large", "read_catalog_state"));
    }
    Ok(())
}

/// The manifest found under a hash must be the one of that hash.
pub fn check_manifest(hash: &str, manifest: Option<CatalogGeneration>) -> (result:
    RuntimeHostResult<CatalogGeneration>)
    ensures
        match manifest {
            None => result matches Err(error) && error == policy_fatal(
                "catalog_manifest_invalid",
                "load_catalog_generation",
            ),
            Some(generation) => if generation.schema_version@ == CATALOG_STATE_SCHEMA@
                && generation.catalog_hash@ == hash@ {
                result matches Ok(checked) && checked == generation
            } else {
                result matches Err(error) && error == policy_fatal(
                    "catalog_generation_identity_mismatch",
                    "load_catalog_generation",
                )
            },
        },
{
    match manifest {
        None => Err(fatal("catalog_manifest_invalid", "load_catalog_generation")),
        Some(generation) => {
            if !same_text(generation.schema_version.as_str(), CATALOG_STATE_SCHEMA) || !same_text(
                generation.catalog_hash.as_str(),
                hash,
            ) {
                return Err(
                    fatal("catalog_generation_identity_mismatch", "load_catalog_generation"),
                );
            }
            Ok(generation)
        },
    }
}

pub open spec fn source_of_kind(kind: Seq<char>) -> spec_fn(CatalogSourceRecord) -> bool {
    |record: CatalogSourceRecord| record.kind@ == kind
}

/// A document of a generation, once its bytes are those that were recorded.
pub fn load_source(generation: &CatalogGeneration, kind: &str, bytes: RuntimeHostResult<Vec<u8>>)
    -> (result: RuntimeHostResult<CatalogDocumentSource>)
    ensures
        match first_position(generation.sources@, source_of_kind(kind@)) {
            None => result matches Err(error) && error == policy_fatal(
                "catalog_source_missing",
                "load_catalog_generation",
            ),
            Some(index) => match bytes {
                Err(unread) => result matches Err(error) && error == unread,
                Ok(bytes) => if sha256_name(bytes@) == generation.sources@[index].sha256@ {
                    result matches Ok(document) && document.bytes == bytes
                        && document.source_uri@ == generation.sources@[index].source_uri@
                } else {
                    result matches Err(error) && error == policy_fatal(
                        "catalog_source_hash_mismatch",
                        "load_catalog_generation",
                    )
                },
            },
        },
{
    let ghost wanted = source_of_kind(kind@);
    let mut index: usize = 0;
    while index < generation.sources.len()
        invariant
            index <= generation.sources.len(),
            wanted == source_of_kind(kind@),
            forall|i: int| 0 <= i < index ==> !wanted(#[trigger] generation.sources@[i]),
        decreases generation.sources.len() - index,
    {
        if same_text(generation.sources[index].kind.as_str(), kind) {
            proof {
                lemma_first_position(generation.sources@, wanted, index as int);
            }
            let bytes = bytes?;
            let digest = sha256(bytes.as_slice());
            if !same_text(digest.as_str(), generation.sources[index].sha256.as_str()) {
                return Err(fatal("catalog_source_hash_mismatch", "load_catalog_generation"));
            }
            return Ok(
                CatalogDocumentSource {
                    source_uri: generation.sources[index].source_uri.clone(),
                    bytes,
                },
            );
        }
        index += 1;
    }
    proof {
        lemma_no_position(generation.sources@, wanted);
    }
    Err(fatal("catalog_source_missing", "load_catalog_generation"))
}

/// A generation that may be used.
#[derive(Debug, Clone)]
pub struct LoadedCatalog {
    pub generation: CatalogGeneration,
    pub compiled: PolicyCatalog,
}

impl LoadedCatalog {
    /// The catalog is the one that the generation names.
    pub open spec fn wf(&self) -> bool {
        &&& self.compiled.catalog_hash@ == self.generation.catalog_hash@
        &&& self.compiled.catalog_id@ == self.generation.catalog_id@
        &&& self.compiled.catalog_version == self.generation.catalog_version
    }
}

/// A stored generation may be used if its documents still compile to it.
pub fn check_compiled(generation: CatalogGeneration, compiled: Option<PolicyCatalog>) -> (result:
    RuntimeHostResult<LoadedCatalog>)
    ensures
        match compiled {
            None => result matches Err(error) && error == policy_fatal(
                "catalog_generation_invalid",
                "load_catalog_generation",
            ),
            Some(compiled) => if (LoadedCatalog { generation, compiled }).wf() {
                result matches Ok(loaded) && loaded == (LoadedCatalog { generation, compiled })
            } else {
                result matches Err(error) && error == policy_fatal(
                    "catalog_generation_content_mismatch",
                    "load_catalog_generation",
                )
            },
        },
{
    match compiled {
        None => Err(fatal("catalog_generation_invalid", "load_catalog_generation")),
        Some(compiled) => {
            if !same_text(compiled.catalog_hash.as_str(), generation.catalog_hash.as_str())
                || !same_text(compiled.catalog_id.as_str(), generation.catalog_id.as_str())
                || compiled.catalog_version != generation.catalog_version {
                return Err(
                    fatal("catalog_generation_content_mismatch", "load_catalog_generation"),
                );
            }
            Ok(LoadedCatalog { generation, compiled })
        },
    }
}

/// The generations that are stored and may be used, by hash.
pub struct CatalogShelf {
    pub loaded: OrderedMap<String, LoadedCatalog>,
}

impl CatalogShelf {
    /// Every generation stands under its own hash.
    pub open spec fn wf(&self) -> bool {
        &&& self.loaded.wf()
        &&& forall|hash: Seq<char>| #[trigger]
            self.loaded@.contains_key(hash) ==> self.loaded@[hash].wf()
                && self.loaded@[hash].generation.catalog_hash@ == hash && digest_text_valid(hash)
    }

    /// The generation of a hash. A hash that is none has no file name, and
    /// what is not stored cannot be read.
    pub open spec fn lookup(&self, hash: Seq<char>) -> Result<LoadedCatalog, RuntimeHostError> {
        if !digest_text_valid(hash) {
            Err(hash_refused())
        } else if !self.loaded@.contains_key(hash) {
            Err(policy_fatal("catalog_file_unavailable", "read_catalog_state"))
        } else {
            Ok(self.loaded@[hash])
        }
    }

    pub fn new() -> (shelf: Self)
        ensures
            shelf.wf(),
            shelf.loaded@ == Map::<Seq<char>, LoadedCatalog>::empty(),
    {
        CatalogShelf { loaded: OrderedMap::new() }
    }

    /// Puts a loaded generation on the shelf. One that is there already stays.
    pub fn stage(&mut self, catalog: LoadedCatalog) -> (result: RuntimeHostResult<()>)
        requires
            old(self).wf(),
            catalog.wf(),
        ensures
            final(self).wf(),
            ({
                let hash = catalog.generation.catalog_hash@;
                if !digest_text_valid(hash) {
                    result == Err::<(), _>(hash_refused()) && *final(self) == *old(self)
                } else if old(self).loaded@.contains_key(hash) {
                    result is Ok && *final(self) == *old(self)
                } else {
                    result is Ok && final(self).loaded@ == old(self).loaded@.insert(hash, catalog)
                }
            }),
    {
        if !is_digest_text(catalog.generation.catalog_hash.as_str()) {
            return Err(request("catalog_hash_invalid", "resolve_catalog_generation"));
        }
        let hash = catalog.generation.catalog_hash.clone();
        if self.loaded.contains(&hash) {
            return Ok(());
        }
        self.loaded.insert(hash, catalog);
        Ok(())
    }

    pub fn load_generation(&self, hash: &str) -> (result: RuntimeHostResult<&LoadedCatalog>)
        requires
            self.wf(),
        ensures
            match self.lookup(hash@) {
                Ok(loaded) => result matches Ok(found) && *found == loaded,
                Err(error) => result matches Err(actual) && actual == error,
            },
    {
        if !is_digest_text(hash) {
            return Err(request("catalog_hash_invalid", "resolve_catalog_generation"));
        }
        let key: String = hash.to_owned();
        match self.loaded.get(&key) {
            Some(loaded) => Ok(loaded),
            None => Err(fatal("catalog_file_unavailable", "read_catalog_state")),
        }
    }
}

/// Which generation is active, as it is stored.
#[derive(Debug, Clone, PartialEq, Eq)]
pub struct CatalogPointer {
    pub schema_version: String,
    pub generation: CatalogGeneration,
}

/// The error of a pointer that names no usable generation.
pub open spec fn pointer_error(
    pointer: Option<CatalogPointer>,
    shelf: CatalogShelf,
    operation: &'static str,
) -> Option<RuntimeHostError> {
    match pointer {
        None => Some(policy_fatal("catalog_pointer_invalid", operation)),
        Some(pointer) => if pointer.schema_version@ != CATALOG_STATE_SCHEMA@ {
            Some(policy_fatal("catalog_pointer_version_unsupported", operation))
        } else {
            match shelf.lookup(pointer.generation.catalog_hash@) {
                Err(error) => Some(error),
                Ok(loaded) => if loaded.generation@ != pointer.generation@ {
                    Some(policy_fatal("catalog_pointer_generation_mismatch", operation))
                } else {
                    None
                },
            }
        },
    }
}

/// The generation that a decoded pointer names.
pub fn follow_pointer<'a>(
    pointer: &Option<CatalogPointer>,
    shelf: &'a CatalogShelf,
    operation: &'static str,
) -> (result: RuntimeHostResult<&'a LoadedCatalog>)
    requires
        shelf.wf(),
    ensures
        match pointer_error(*pointer, *shelf, operation) {
            Some(error) => result matches Err(actual) && actual == error,
            None => result matches Ok(loaded) && shelf.lookup(
                pointer->0.generation.catalog_hash@,
            ) == Ok::<LoadedCatalog, RuntimeHostError>(*loaded) && loaded.generation@
                == pointer->0.generation@,
        },
{
    match pointer {
        None => Err(fatal("catalog_pointer_invalid", operation)),
        Some(pointer) => {
            if !same_text(pointer.schema_version.as_str(), CATALOG_STATE_SCHEMA) {
                return Err(fatal("catalog_pointer_version_unsupported", operation));
            }
            let loaded = shelf.load_generation(pointer.generation.catalog_hash.as_str())?;
            if !loaded.generation.same(&pointer.generation) {
                return Err(fatal("catalog_pointer_generation_mismatch", operation));
            }
            Ok(loaded)
        },
    }
}

/// The stored document that names the active generation.
#[derive(Debug, Clone)]
pub struct PointerDocument {
    pub schema_version: String,
    pub pointer: Option<CatalogPointer>,
}

/// The active generation, if one was ever made active.
pub fn load_active<'a>(document: &Option<PointerDocument>, shelf: &'a CatalogShelf) -> (result:
    RuntimeHostResult<Option<&'a LoadedCatalog>>)
    requires
        shelf.wf(),
    ensures
        match *document {
            None => result matches Ok(active) && active is None,
            Some(document) => if document.schema_version@ != CATALOG_STATE_SCHEMA@ {
                result matches Err(error) && error == policy_fatal(
                    "catalog_pointer_version_unsupported",
                    "load_active_catalog",
                )
            } else {
                match pointer_error(document.pointer, *shelf, "load_active_catalog") {
                    Some(error) => result matches Err(actual) && actual == error,
                    None => result matches Ok(Some(active)) && active.generation@
                        == document.pointer->0.generation@ && shelf.lookup(
                        document.pointer->0.generation.catalog_hash@,
                    ) == Ok::<LoadedCatalog, RuntimeHostError>(*active),
                }
            },
        },
{
    match document {
        None => Ok(None),
        Some(document) => {
            if !same_text(document.schema_version.as_str(), CATALOG_STATE_SCHEMA) {
                return Err(fatal("catalog_pointer_version_unsupported", "load_active_catalog"));
            }
            match follow_pointer(&document.pointer, shelf, "load_active_catalog") {
                Ok(loaded) => Ok(Some(loaded)),
                Err(error) => Err(error),
            }
        },
    }
}

/// The pointer to a generation.
pub fn pointer_to(generation: &CatalogGeneration) -> (pointer: CatalogPointer)
    ensures
        pointer.schema_version@ == CATALOG_STATE_SCHEMA@,
        pointer.generation@ == generation@,
{
    CatalogPointer {
        schema_version: CATALOG_STATE_SCHEMA.to_owned(),
        generation: generation.copy(),
    }
}

/// The pointer to a stored generation leads back to that generation.
pub proof fn law_pointer_leads_to_its_generation(
    shelf: CatalogShelf,
    pointer: CatalogPointer,
    hash: Seq<char>,
    operation: &'static str,
)
    requires
        shelf.wf(),
        shelf.loaded@.contains_key(hash),
        pointer.schema_version@ == CATALOG_STATE_SCHEMA@,
        pointer.generation@ == shelf.loaded@[hash].generation@,
    ensures
        pointer_error(Some(pointer), shelf, operation) is None,
        shelf.lookup(pointer.generation.catalog_hash@) == Ok::<LoadedCatalog, RuntimeHostError>(
            shelf.loaded@[hash],
        ),
{
    assert(pointer.generation@.catalog_hash == hash);
}

/// A generation is found under its hash, and only under a hash that is one and
/// is stored.
pub proof fn law_generation_is_found_by_its_hash(shelf: CatalogShelf, hash: Seq<char>)
    requires
        shelf.wf(),
    ensures
        shelf.lookup(hash) is Ok <==> shelf.loaded@.contains_key(hash),
        shelf.lookup(hash) matches Ok(loaded) ==> loaded.generation.catalog_hash@ == hash,
        shelf.lookup(hash) matches Ok(loaded) ==> loaded.compiled.catalog_id@
            == loaded.generation.catalog_id@ && loaded.compiled.catalog_version
            == loaded.generation.catalog_version && loaded.compiled.catalog_hash@ == hash,
        !digest_text_valid(hash) ==> shelf.lookup(hash) == Err::<LoadedCatalog, RuntimeHostError>(
            hash_refused(),
        ),
{
}

/// A pointer is usable exactly when it is there, has the current schema and
/// names a stored generation as that generation names itself.
pub proof fn law_usable_pointer_names_a_stored_generation(
    pointer: Option<CatalogPointer>,
    shelf: CatalogShelf,
    operation: &'static str,
)
    requires
        shelf.wf(),
    ensures
        pointer_error(pointer, shelf, operation) is None <==> pointer is Some
            && pointer->0.schema_version@ == CATALOG_STATE_SCHEMA@ && shelf.loaded@.contains_key(
            pointer->0.generation.catalog_hash@,
        ) && shelf.loaded@[pointer->0.generation.catalog_hash@].generation@
            == pointer->0.generation@,
{
}

/// The record of a source tells its kind, where it came from and the digest
/// of its bytes.
pub proof fn law_record_tells_its_source(kind: Seq<char>, source: CatalogDocumentSource)
    ensures
        record_of(kind, source).kind == kind,
        record_of(kind, source).source_uri == source.source_uri@,
        record_of(kind, source).sha256 == sha256_name(source.bytes@),
{
}

} // verus!
