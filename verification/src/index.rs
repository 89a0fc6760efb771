//! The live handle of one open collection: one writer slot under a verified
//! reader-writer lock (shared access to enqueue, exclusive access to
//! commit), one reader whose snapshots are refreshed only by an explicit
//! `reload`, and the schema the collection was created with.
//!
//! Visibility policy: a commit does not refresh the reader; callers (or the
//! application's policy) call `reload` to make committed state searchable.
//! This keeps read-after-write visibility an explicit, caller-triggered
//! step.

use vstd::prelude::*;
use vstd::rwlock::{RwLock, RwLockPredicate};

use crate::config;
use crate::dto::{AddDocReq, DeleteByTermReq, ScoredDocument, SearchReq, SearchResp};
use crate::engine;
use crate::engine::{EngineWriter, SearchFailure};
use crate::error::{field_not_exist, Error};
use crate::index_config::{AnalyzerConfig, IndexConfig};
use crate::query;

verus! {

/// Any writer value may sit in the writer slot; the lock is for access
/// discipline (shared enqueue, exclusive commit), not for a data invariant.
pub struct WriterSlot {}

impl RwLockPredicate<EngineWriter> for WriterSlot {
    open spec fn inv(self, v: EngineWriter) -> bool {
        true
    }
}

/// One open collection.
pub struct LocalIndex {
    id: u64,
    schema: tantivy::schema::Schema,
    index: tantivy::Index,
    reader: tantivy::IndexReader,
    writer: RwLock<EngineWriter, WriterSlot>,
}

impl LocalIndex {
    /// The registry-assigned identity of this handle.
    pub closed spec fn id_spec(self) -> u64 {
        self.id
    }

    pub fn id(&self) -> (r: u64)
        ensures
            r == self.id_spec(),
    {
        self.id
    }

    /// Registers each configured analyzer on the index, under its name;
    /// succeeds exactly when every configuration is buildable.
    fn add_analyzers(index: &tantivy::Index, analyzers: &Vec<AnalyzerConfig>) -> (r: Result<
        (),
        Error,
    >)
        ensures
            r is Ok <==> (forall|i: int|
                0 <= i < analyzers@.len() ==> crate::index_config::analyzer_config_ok(
                    #[trigger] analyzers@[i],
                )),
            r matches Err(e) ==> e is ValueParse,
    {
        let n = analyzers.len();
        let mut i: usize = 0;
        while i < n
            invariant
                i <= n,
                n == analyzers@.len(),
                forall|j: int|
                    0 <= j < i ==> crate::index_config::analyzer_config_ok(
                        #[trigger] analyzers@[j],
                    ),
            decreases n - i,
        {
            match analyzers[i].make_analyzer() {
                Some(a) => {
                    engine::register_analyzer(index, &analyzers[i].name, a);
                },
                None => {
                    return Err(
                        Error::ValueParse {
                            detail: String::from_str("invalid analyzer configuration"),
                        },
                    );
                },
            }
            i = i + 1;
        }
        Ok(())
    }

    /// Wraps an opened engine index: reads its schema, builds the
    /// manual-reload reader and the writer sized by the configuration.
    fn from_tantivy_index(index: tantivy::Index, config: &config::Search, id: u64) -> (r: Result<
        LocalIndex,
        Error,
    >)
        ensures
            r matches Ok(h) ==> h.id_spec() == id,
            r matches Err(e) ==> e is Engine,
            config.indexer_num_threads == Some(0usize) ==> r is Err,
    {
        let schema = engine::engine_schema(&index);
        let reader = match engine::engine_reader(&index) {
            Ok(rd) => rd,
            Err(e) => {
                return Err(Error::Engine { detail: engine::error_text(&e) });
            },
        };
        let writer_result = match config.indexer_num_threads {
            Some(threads) => {
                if threads >= 1 {
                    engine::engine_writer_threads(&index, threads, config.indexer_heap_size)
                } else {
                    return Err(
                        Error::Engine {
                            detail: String::from_str("indexer thread count must be positive"),
                        },
                    );
                }
            },
            None => engine::engine_writer(&index, config.indexer_heap_size),
        };
        let writer = match writer_result {
            Ok(w) => w,
            Err(e) => {
                return Err(Error::Engine { detail: engine::error_text(&e) });
            },
        };
        Ok(
            LocalIndex {
                id,
                schema,
                index,
                reader,
                writer: RwLock::new(writer, Ghost(WriterSlot {  })),
            },
        )
    }

    /// Materializes a new collection in `path` (an existing, empty
    /// directory) and wraps it.  `AlreadyExists` reports an index already
    /// present in the directory, under the path as its name; the caller maps
    /// it to the collection name.
    pub fn creare_in_dir(
        path: &String,
        index_conf: &IndexConfig,
        config: &config::Search,
        id: u64,
    ) -> (r: Result<LocalIndex, Error>)
        ensures
            r matches Ok(h) ==> h.id_spec() == id,
            r is Ok ==> (forall|i: int|
                0 <= i < index_conf.analyzers@.len() ==> crate::index_config::analyzer_config_ok(
                    #[trigger] index_conf.analyzers@[i],
                )),
            r matches Err(e) ==> (e is AlreadyExists || e is Engine || e is ValueParse),
    {
        let index = match engine::engine_create_in_dir(path, &index_conf.settings,
            &index_conf.schema) {
            Ok(idx) => idx,
            Err(e) => {
                if engine::error_is_already_exists(&e) {
                    return Err(Error::AlreadyExists { name: path.clone() });
                } else {
                    return Err(Error::Engine { detail: engine::error_text(&e) });
                }
            },
        };
        Self::add_analyzers(&index, &index_conf.analyzers)?;
        Self::from_tantivy_index(index, config, id)
    }

    /// Opens the collection stored in `path` and wraps it.  `NotFound`
    /// reports that no index lives there, under the path as its name; the
    /// caller maps it to the collection name.  The analyzers are the ones
    /// the collection was created with, restored by the caller.
    pub fn open_in_dir(
        path: &String,
        analyzers: &Vec<AnalyzerConfig>,
        config: &config::Search,
        id: u64,
    ) -> (r: Result<LocalIndex, Error>)
        ensures
            r matches Ok(h) ==> h.id_spec() == id,
            r is Ok ==> (forall|i: int|
                0 <= i < analyzers@.len() ==> crate::index_config::analyzer_config_ok(
                    #[trigger] analyzers@[i],
                )),
            r matches Err(e) ==> (e is NotFound || e is Engine || e is ValueParse),
    {
        let index = match engine::engine_open_in_dir(path) {
            Ok(idx) => idx,
            Err(e) => {
                if engine::error_is_missing_index(&e) {
                    return Err(Error::NotFound { name: path.clone() });
                } else {
                    return Err(Error::Engine { detail: engine::error_text(&e) });
                }
            },
        };
        Self::add_analyzers(&index, analyzers)?;
        Self::from_tantivy_index(index, config, id)
    }

    /// Tears the handle down: takes the writer back out of the verified lock
    /// and drops it, which releases the engine's directory lockfile.  The
    /// lock hands its contents back only explicitly, so an evicted
    /// collection must be closed this way before its directory can host a
    /// writer again in this process.
    pub fn close(self) {
        let _writer = self.writer.into_inner();
    }

    /// Parses the document against the schema and enqueues it under shared
    /// writer access; commits afterwards when asked to.  Fails with
    /// `DocumentParse` when the payload is not a JSON object, when it names
    /// a field the schema does not declare, or when the engine rejects a
    /// value.
    pub fn add_document(&self, req: AddDocReq) -> (r: Result<(), Error>)
        ensures
            r matches Err(e) ==> (e is DocumentParse || e is Engine),
            engine::json_keys_of(req.doc@) is None ==> (r matches Err(e) && e is DocumentParse),
    {
        let names = match engine::doc_field_names(&req.doc) {
            Some(names) => names,
            None => {
                return Err(
                    Error::DocumentParse {
                        detail: String::from_str("the document is not a JSON object"),
                    },
                );
            },
        };
        let field_count = names.len();
        let mut i: usize = 0;
        while i < field_count
            invariant
                i <= field_count,
                field_count == names@.len(),
            decreases field_count - i,
        {
            if engine::schema_get_field(&self.schema, &names[i]).is_none() {
                return Err(
                    Error::DocumentParse {
                        detail: String::from_str("no such field in schema: ").concat(
                            names[i].as_str(),
                        ),
                    },
                );
            }
            i = i + 1;
        }
        let doc = match engine::parse_document(&self.schema, &req.doc) {
            Ok(d) => d,
            Err(detail) => {
                return Err(Error::DocumentParse { detail });
            },
        };
        let read_handle = self.writer.acquire_read();
        let enqueue = engine::writer_add_document(read_handle.borrow(), doc);
        read_handle.release_read();
        if let Err(e) = enqueue {
            return Err(Error::Engine { detail: engine::error_text(&e) });
        }
        if req.commit {
            self.commit()?;
        }
        Ok(())
    }

    /// Resolves the field, converts the textual term to the field's type
    /// and enqueues the deletion under shared writer access; commits
    /// afterwards when asked to.  Fails with `FieldNotFound` exactly when
    /// the schema lacks the field, and with `ValueParse` exactly when the
    /// text is not convertible.
    pub fn delete_by_term(&self, req: DeleteByTermReq) -> (r: Result<(), Error>)
        ensures
            r matches Err(e) ==> (e is FieldNotFound || e is ValueParse || e is Engine),
            r matches Err(Error::FieldNotFound { field }) ==> field == req.field,
    {
        let DeleteByTermReq { field: field_name, term, commit } = req;
        let (field, code) = match engine::schema_get_field(&self.schema, &field_name) {
            Some(fc) => fc,
            None => {
                return Err(field_not_exist(field_name));
            },
        };
        let kind = match query::kind_of_code(code) {
            Some(k) => k,
            None => {
                return Err(
                    Error::Engine { detail: String::from_str("unknown field type code") },
                );
            },
        };
        let typed_term = query::make_term(field, kind, &term)?;
        let read_handle = self.writer.acquire_read();
        let _stamp = engine::writer_delete_term(read_handle.borrow(), typed_term);
        read_handle.release_read();
        if commit {
            self.commit()?;
        }
        Ok(())
    }

    /// Takes exclusive access to the writer slot and asks the engine for a
    /// durable commit of everything enqueued before the call.  Does not
    /// refresh the reader.
    pub fn commit(&self) -> (r: Result<(), Error>)
        ensures
            r matches Err(e) ==> e is Engine,
    {
        let (mut writer, write_handle) = self.writer.acquire_write();
        let committed = engine::writer_commit(&mut writer);
        write_handle.release_write(writer);
        match committed {
            Ok(_stamp) => Ok(()),
            Err(e) => Err(Error::Engine { detail: engine::error_text(&e) }),
        }
    }

    /// Makes the last committed state visible to subsequent searches.
    pub fn reload(&self) -> (r: Result<(), Error>)
        ensures
            r matches Err(e) ==> e is Engine,
    {
        match engine::reader_reload(&self.reader) {
            Ok(()) => Ok(()),
            Err(e) => Err(Error::Engine { detail: engine::error_text(&e) }),
        }
    }

    /// Fetches the stored document of every hit, in order, pairing it with
    /// the hit's score bits: one output row per input hit, scores carried
    /// through unchanged.  Fails as an engine fault when a document cannot
    /// be fetched.
    fn collect_hits(
        searcher: &tantivy::Searcher,
        schema: &tantivy::schema::Schema,
        hits: &Vec<(u32, u32, u32)>,
    ) -> (r: Result<Vec<ScoredDocument>, Error>)
        ensures
            r matches Ok(docs) ==> (docs@.len() == hits@.len() && forall|i: int|
                0 <= i < hits@.len() ==> (#[trigger] docs@[i]).score_bits == hits@[i].0),
            r matches Err(e) ==> e is Engine,
    {
        let n = hits.len();
        let mut docs: Vec<ScoredDocument> = Vec::new();
        let mut i: usize = 0;
        while i < n
            invariant
                i <= n,
                n == hits@.len(),
                docs@.len() == i,
                forall|j: int|
                    0 <= j < i ==> (#[trigger] docs@[j]).score_bits == hits@[j].0,
            decreases n - i,
        {
            let (score_bits, segment, doc_id) = hits[i];
            let doc = match engine::fetch_doc_json(searcher, schema, segment, doc_id) {
                Ok(d) => d,
                Err(detail) => {
                    return Err(Error::Engine { detail });
                },
            };
            docs.push(ScoredDocument { score_bits, doc });
            i = i + 1;
        }
        Ok(docs)
    }

    /// Runs the query against the current reader snapshot, never touching
    /// the writer slot.  Returns at most `limit` hits, best first, each
    /// hit's document fetched and paired with its score by `collect_hits`;
    /// a limit of zero returns no hits without consulting the engine, and
    /// so does an offset so large that `offset + limit` cannot fit a
    /// `usize` (no index can hold that many hits, and the engine's
    /// collector computes that sum).  Fails with `QueryParse` exactly when
    /// the engine rejects the query text.
    pub fn search(&self, req: SearchReq) -> (r: Result<SearchResp, Error>)
        ensures
            r matches Ok(resp) ==> resp.docs@.len() <= req.limit,
            req.limit == 0 ==> (r matches Ok(resp) && resp.docs@.len() == 0),
            req.offset > usize::MAX - req.limit ==> (r matches Ok(resp) && resp.docs@.len()
                == 0),
            r matches Err(e) ==> (e is QueryParse || e is Engine),
    {
        if req.limit == 0 {
            return Ok(SearchResp { docs: Vec::new() });
        }
        if req.offset > usize::MAX - req.limit {
            return Ok(SearchResp { docs: Vec::new() });
        }
        let searcher = engine::reader_searcher(&self.reader);
        let hits = match engine::engine_search(
            &searcher,
            &self.index,
            &req.query,
            req.limit,
            req.offset,
        ) {
            Ok(h) => h,
            Err(SearchFailure::Query { detail }) => {
                return Err(Error::QueryParse { detail });
            },
            Err(SearchFailure::Other { detail }) => {
                return Err(Error::Engine { detail });
            },
        };
        let docs = Self::collect_hits(&searcher, &self.schema, &hits)?;
        Ok(SearchResp { docs })
    }
}

} // verus!
