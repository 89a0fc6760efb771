//! The boundary to the tantivy engine.  Everything tantivy-shaped is declared
//! or wrapped here; the rest of the crate works against the contracts of
//! these items.  Each wrapper names the engine function it relies on.

use vstd::prelude::*;

use tantivy::schema::Document;

verus! {

#[verifier::external_type_specification]
#[verifier::external_body]
pub struct ExIndex(tantivy::Index);

#[verifier::external_type_specification]
#[verifier::external_body]
pub struct ExIndexReader(tantivy::IndexReader);

#[verifier::external_type_specification]
#[verifier::external_body]
pub struct ExSearcher(tantivy::Searcher);

#[verifier::external_type_specification]
#[verifier::external_body]
pub struct ExSchema(tantivy::schema::Schema);

#[verifier::external_type_specification]
#[verifier::external_body]
pub struct ExField(tantivy::schema::Field);

#[verifier::external_type_specification]
#[verifier::external_body]
pub struct ExTerm(tantivy::schema::Term);

#[verifier::external_type_specification]
#[verifier::external_body]
pub struct ExTantivyDocument(tantivy::TantivyDocument);

#[verifier::external_type_specification]
#[verifier::external_body]
pub struct ExIndexSettings(tantivy::IndexSettings);

#[verifier::external_type_specification]
#[verifier::external_body]
pub struct ExTantivyError(tantivy::TantivyError);

#[verifier::external_type_specification]
#[verifier::external_body]
pub struct ExTextAnalyzer(tantivy::tokenizer::TextAnalyzer);

/// A single writer of one on-disk index.  The engine's writer type keeps its
/// document type as a generic parameter, which cannot be declared to the
/// verifier, so it is held opaquely here.
#[verifier::external_body]
pub struct EngineWriter {
    inner: tantivy::IndexWriter,
}

/// An analyzer under construction.  The engine's builder type carries the
/// tokenizer chain in its type, which cannot be declared to the verifier, so
/// it is held opaquely here.
#[verifier::external_body]
pub struct AnalyzerBuilder {
    inner: tantivy::tokenizer::TextAnalyzerBuilder,
}

/// Why a search could not be run.
pub enum SearchFailure {
    /// The query text did not parse.
    Query { detail: String },
    /// The engine failed while running the query.
    Other { detail: String },
}

/// Whether this text parses as a 64-bit float; left uninterpreted, the
/// engine's parser is the definition.
pub uninterp spec fn f64_parses(s: Seq<char>) -> bool;

/// The UNIX seconds denoted by this RFC 3339 text, if it parses; left
/// uninterpreted, the parser of the `time` crate is the definition.
pub uninterp spec fn rfc3339_secs_of(s: Seq<char>) -> Option<i64>;

/// The bytes denoted by this standard-alphabet, padded base64 text, if it
/// decodes; left uninterpreted, the `base64` crate is the definition.
pub uninterp spec fn base64_decode_of(s: Seq<char>) -> Option<Seq<u8>>;

/// The top-level keys of this JSON object text, if it is one; left
/// uninterpreted, the `serde_json` parser is the definition.
pub uninterp spec fn json_keys_of(s: Seq<char>) -> Option<Seq<Seq<char>>>;

/// Whether the engine's stemmer knows a language of this name; left
/// uninterpreted, the serde form of tantivy's `Language` enum is the
/// definition.
pub uninterp spec fn stemmer_known(lang: Seq<char>) -> bool;

/// Relies on tantivy's `IndexBuilder::create_in_dir`: materializes a new
/// index in the given existing directory; fails with `IndexAlreadyExists`
/// when the directory already holds one, and with a directory error when the
/// directory is missing.
#[verifier::external_body]
pub(crate) fn engine_create_in_dir(
    path: &String,
    settings: &tantivy::IndexSettings,
    schema: &tantivy::schema::Schema,
) -> (r: Result<tantivy::Index, tantivy::TantivyError>) {
    tantivy::Index::builder().settings(settings.clone()).schema(schema.clone()).create_in_dir(
        path.as_str(),
    )
}

/// Relies on tantivy's `Index::open_in_dir`: opens the index stored in the
/// directory; fails when the directory or the index files are missing.
#[verifier::external_body]
pub(crate) fn engine_open_in_dir(path: &String) -> (r: Result<
    tantivy::Index,
    tantivy::TantivyError,
>) {
    tantivy::Index::open_in_dir(path.as_str())
}

/// Relies on the `Display` impl of `tantivy::TantivyError`.
#[verifier::external_body]
pub(crate) fn error_text(e: &tantivy::TantivyError) -> (r: String) {
    format!("{e}")
}

/// Relies on the variants of `tantivy::TantivyError`: recognizes the
/// already-exists outcome of `create_in_dir`.
#[verifier::external_body]
pub(crate) fn error_is_already_exists(e: &tantivy::TantivyError) -> (r: bool) {
    matches!(e, tantivy::TantivyError::IndexAlreadyExists)
}

/// Relies on the variants of `tantivy::TantivyError`: recognizes the
/// outcomes of `open_in_dir` that mean no index is present at the path
/// (missing directory, or missing index files inside it).
#[verifier::external_body]
pub(crate) fn error_is_missing_index(e: &tantivy::TantivyError) -> (r: bool) {
    matches!(
        e,
        tantivy::TantivyError::OpenDirectoryError(
            tantivy::directory::error::OpenDirectoryError::DoesNotExist(_)
        ) | tantivy::TantivyError::OpenReadError(
            tantivy::directory::error::OpenReadError::FileDoesNotExist(_)
        )
    )
}

/// Relies on tantivy's `Index::schema`: the schema the index was created
/// with.
#[verifier::external_body]
pub(crate) fn engine_schema(index: &tantivy::Index) -> (r: tantivy::schema::Schema) {
    index.schema()
}

/// Relies on tantivy's `IndexReaderBuilder` (`reader_builder`,
/// `reload_policy`, `try_into`): a reader over the committed state, reloaded
/// only on demand.
#[verifier::external_body]
pub(crate) fn engine_reader(index: &tantivy::Index) -> (r: Result<
    tantivy::IndexReader,
    tantivy::TantivyError,
>) {
    index.reader_builder().reload_policy(tantivy::ReloadPolicy::Manual).try_into()
}

/// Relies on tantivy's `IndexReader::reload`: makes the last committed state
/// visible to subsequent searchers.
#[verifier::external_body]
pub(crate) fn reader_reload(reader: &tantivy::IndexReader) -> (r: Result<
    (),
    tantivy::TantivyError,
>) {
    reader.reload()
}

/// Relies on tantivy's `IndexReader::searcher`: a point-in-time snapshot of
/// the last reloaded state.
#[verifier::external_body]
pub(crate) fn reader_searcher(reader: &tantivy::IndexReader) -> (r: tantivy::Searcher) {
    reader.searcher()
}

/// Relies on tantivy's `Index::writer`: a writer with the given overall
/// memory budget and an engine-chosen thread count.
#[verifier::external_body]
pub(crate) fn engine_writer(index: &tantivy::Index, budget: usize) -> (r: Result<
    EngineWriter,
    tantivy::TantivyError,
>) {
    index.writer(budget).map(|w| EngineWriter { inner: w })
}

/// Relies on tantivy's `Index::writer_with_num_threads`, which divides the
/// budget by the thread count.
#[verifier::external_body]
pub(crate) fn engine_writer_threads(index: &tantivy::Index, threads: usize, budget: usize) -> (r:
    Result<EngineWriter, tantivy::TantivyError>)
    requires
        threads >= 1,
{
    index.writer_with_num_threads(threads, budget).map(|w| EngineWriter { inner: w })
}

/// Relies on tantivy's `IndexWriter::add_document`, safe for concurrent
/// callers through a shared reference: enqueues the document and returns its
/// operation stamp.
#[verifier::external_body]
pub(crate) fn writer_add_document(w: &EngineWriter, doc: tantivy::TantivyDocument) -> (r: Result<
    u64,
    tantivy::TantivyError,
>) {
    w.inner.add_document(doc)
}

/// Relies on tantivy's `IndexWriter::delete_term`, safe for concurrent
/// callers through a shared reference: enqueues the deletion of every
/// document matching the term.
#[verifier::external_body]
pub(crate) fn writer_delete_term(w: &EngineWriter, term: tantivy::schema::Term) -> (r: u64) {
    w.inner.delete_term(term)
}

/// Relies on tantivy's `IndexWriter::commit` (exclusive access): flushes all
/// mutations enqueued before the call to stable storage.
#[verifier::external_body]
pub(crate) fn writer_commit(w: &mut EngineWriter) -> (r: Result<u64, tantivy::TantivyError>) {
    w.inner.commit()
}

/// Relies on `serde_json::from_str`: the top-level keys of the JSON object,
/// or `None` when the text is not a JSON object; the result depends on the
/// text alone.
#[verifier::external_body]
pub(crate) fn doc_field_names(doc: &String) -> (r: Option<Vec<String>>)
    ensures
        (r is Some) == (json_keys_of(doc@) is Some),
        r matches Some(names) ==> (json_keys_of(doc@) matches Some(keys) && names@.len()
            == keys.len() && forall|i: int| 0 <= i < keys.len() ==> names@[i]@ == keys[i]),
{
    serde_json::from_str::<serde_json::Map<String, serde_json::Value>>(doc.as_str()).ok().map(
        |m| m.keys().cloned().collect(),
    )
}

/// Relies on tantivy's `TantivyDocument::parse_json`: parses a JSON document
/// against the schema; the error is handed back as its display text.
#[verifier::external_body]
pub(crate) fn parse_document(schema: &tantivy::schema::Schema, doc: &String) -> (r: Result<
    tantivy::TantivyDocument,
    String,
>) {
    tantivy::TantivyDocument::parse_json(schema, doc.as_str()).map_err(|e| format!("{e}"))
}

/// Relies on tantivy's `Schema::get_field`, `Schema::get_field_entry` and
/// `Type::to_code`: the field of that name, with the one-byte code of its
/// declared type, or `None` when the schema has no such field.
#[verifier::external_body]
pub(crate) fn schema_get_field(schema: &tantivy::schema::Schema, name: &String) -> (r: Option<
    (tantivy::schema::Field, u8),
>) {
    match schema.get_field(name.as_str()) {
        Ok(f) => Some((f, schema.get_field_entry(f).field_type().value_type().to_code())),
        Err(_) => None,
    }
}

/// Relies on tantivy's `Term::from_field_text`.
#[verifier::external_body]
pub(crate) fn term_text(field: tantivy::schema::Field, value: &String) -> (r:
    tantivy::schema::Term) {
    tantivy::schema::Term::from_field_text(field, value.as_str())
}

/// Relies on tantivy's `Term::from_field_u64`.
#[verifier::external_body]
pub(crate) fn term_u64(field: tantivy::schema::Field, value: u64) -> (r: tantivy::schema::Term) {
    tantivy::schema::Term::from_field_u64(field, value)
}

/// Relies on tantivy's `Term::from_field_i64`.
#[verifier::external_body]
pub(crate) fn term_i64(field: tantivy::schema::Field, value: i64) -> (r: tantivy::schema::Term) {
    tantivy::schema::Term::from_field_i64(field, value)
}

/// Relies on tantivy's `Term::from_field_bool`.
#[verifier::external_body]
pub(crate) fn term_bool(field: tantivy::schema::Field, value: bool) -> (r:
    tantivy::schema::Term) {
    tantivy::schema::Term::from_field_bool(field, value)
}

/// Relies on `str::parse` for the engine's float type and on tantivy's
/// `Term::from_field_f64`; whether the text parses depends on the text
/// alone.
#[verifier::external_body]
pub(crate) fn term_f64_parse(field: tantivy::schema::Field, value: &String) -> (r: Option<
    tantivy::schema::Term,
>)
    ensures
        r is Some <==> f64_parses(value@),
{
    value.as_str().parse().ok().map(|v| tantivy::schema::Term::from_field_f64(field, v))
}

/// Relies on `time::OffsetDateTime::parse` with the RFC 3339 well-known
/// format, and on `OffsetDateTime::unix_timestamp`; the result depends on
/// the text alone.
#[verifier::external_body]
pub(crate) fn parse_rfc3339_secs(value: &String) -> (r: Option<i64>)
    ensures
        r == rfc3339_secs_of(value@),
{
    time::OffsetDateTime::parse(value.as_str(), &time::format_description::well_known::Rfc3339)
        .ok()
        .map(|d| d.unix_timestamp())
}

/// Relies on tantivy's `DateTime::from_timestamp_secs` and
/// `Term::from_field_date`.  The engine stores nanoseconds in a 64-bit
/// integer, so only timestamps whose nanosecond form fits are admitted.
#[verifier::external_body]
pub(crate) fn term_date(field: tantivy::schema::Field, secs: i64) -> (r: tantivy::schema::Term)
    requires
        -9_223_372_036 <= secs <= 9_223_372_036,
{
    tantivy::schema::Term::from_field_date(field, tantivy::DateTime::from_timestamp_secs(secs))
}

/// Relies on the `base64` crate's standard-alphabet, padded engine
/// (`Engine::decode` on `general_purpose::STANDARD`); the result depends on
/// the text alone.
#[verifier::external_body]
pub(crate) fn base64_decode(value: &String) -> (r: Option<Vec<u8>>)
    ensures
        (r is Some) == (base64_decode_of(value@) is Some),
        r matches Some(b) ==> base64_decode_of(value@) == Some(b@),
{
    base64::Engine::decode(&base64::engine::general_purpose::STANDARD, value.as_str()).ok()
}

/// Relies on tantivy's `Term::from_field_bytes`.
#[verifier::external_body]
pub(crate) fn term_bytes(field: tantivy::schema::Field, value: &Vec<u8>) -> (r:
    tantivy::schema::Term) {
    tantivy::schema::Term::from_field_bytes(field, value.as_slice())
}

/// Relies on tantivy's `QueryParser::for_index` / `parse_query`,
/// `TopDocs::with_limit` / `and_offset` / `order_by_score` and
/// `Searcher::search`: the top
/// `limit` hits after skipping `offset`, each as the score's bit pattern
/// with the hit's segment ordinal and document id within this searcher.
/// `TopDocs::with_limit` demands a positive limit, the collector computes
/// `offset + limit` (so their sum must fit a `usize`), and it returns at
/// most `limit` hits.
#[verifier::external_body]
pub(crate) fn engine_search(
    searcher: &tantivy::Searcher,
    index: &tantivy::Index,
    query: &String,
    limit: usize,
    offset: usize,
) -> (r: Result<Vec<(u32, u32, u32)>, SearchFailure>)
    requires
        limit >= 1,
        limit + offset <= usize::MAX,
    ensures
        r matches Ok(hits) ==> hits@.len() <= limit,
{
    let parser = tantivy::query::QueryParser::for_index(index, Vec::new());
    let q = parser.parse_query(query.as_str()).map_err(
        |e| SearchFailure::Query { detail: format!("{e}") },
    )?;
    let collector = tantivy::collector::TopDocs::with_limit(limit).and_offset(offset)
        .order_by_score();
    let hits = searcher.search(&q, &collector).map_err(
        |e| SearchFailure::Other { detail: format!("{e}") },
    )?;
    Ok(hits.into_iter().map(|(s, a)| (s.to_bits(), a.segment_ord, a.doc_id)).collect())
}

/// Relies on tantivy's `Searcher::segment_readers`, `Searcher::doc`,
/// `Document::to_named_doc` and `serde_json::to_string`: the stored document
/// at the given address of this same searcher, as a JSON object keyed by
/// field name.  A segment ordinal the searcher does not have is reported as
/// an error before `doc` would index with it; a document id the segment does
/// not hold surfaces as the engine's own lookup error.
#[verifier::external_body]
pub(crate) fn fetch_doc_json(
    searcher: &tantivy::Searcher,
    schema: &tantivy::schema::Schema,
    segment: u32,
    doc: u32,
) -> (r: Result<String, String>) {
    if segment as usize >= searcher.segment_readers().len() {
        return Err(format!("segment ordinal {segment} out of range"));
    }
    let d: tantivy::TantivyDocument = searcher.doc(tantivy::DocAddress::new(segment, doc))
        .map_err(|e| format!("{e}"))?;
    serde_json::to_string(&d.to_named_doc(schema)).map_err(|e| format!("{e}"))
}

/// Relies on tantivy's `Index::tokenizers` and `TokenizerManager::register`:
/// makes the analyzer available to the index under the given name.
#[verifier::external_body]
pub(crate) fn register_analyzer(
    index: &tantivy::Index,
    name: &String,
    analyzer: tantivy::tokenizer::TextAnalyzer,
) {
    index.tokenizers().register(name.as_str(), analyzer);
}

/// Relies on `tantivy::IndexSettings::default`.
#[verifier::external_body]
pub(crate) fn default_settings() -> (r: tantivy::IndexSettings) {
    tantivy::IndexSettings::default()
}

/// Relies on tantivy's `TextAnalyzer::builder` over `RawTokenizer`.
#[verifier::external_body]
pub(crate) fn builder_raw() -> (r: AnalyzerBuilder) {
    AnalyzerBuilder {
        inner: tantivy::tokenizer::TextAnalyzer::builder(
            tantivy::tokenizer::RawTokenizer::default(),
        ).dynamic(),
    }
}

/// Relies on tantivy's `TextAnalyzer::builder` over `SimpleTokenizer`.
#[verifier::external_body]
pub(crate) fn builder_simple() -> (r: AnalyzerBuilder) {
    AnalyzerBuilder {
        inner: tantivy::tokenizer::TextAnalyzer::builder(
            tantivy::tokenizer::SimpleTokenizer::default(),
        ).dynamic(),
    }
}

/// Relies on tantivy's `TextAnalyzer::builder` over `FacetTokenizer`.
#[verifier::external_body]
pub(crate) fn builder_facet() -> (r: AnalyzerBuilder) {
    AnalyzerBuilder {
        inner: tantivy::tokenizer::TextAnalyzer::builder(
            tantivy::tokenizer::FacetTokenizer::default(),
        ).dynamic(),
    }
}

/// Relies on tantivy's `NgramTokenizer::new`, which accepts exactly the
/// configurations with `1 <= min_gram <= max_gram`.
#[verifier::external_body]
pub(crate) fn builder_ngram(min_gram: usize, max_gram: usize, prefix_only: bool) -> (r: Option<
    AnalyzerBuilder,
>)
    ensures
        r is Some <==> (1 <= min_gram && min_gram <= max_gram),
{
    tantivy::tokenizer::NgramTokenizer::new(min_gram, max_gram, prefix_only).ok().map(
        |t| AnalyzerBuilder { inner: tantivy::tokenizer::TextAnalyzer::builder(t).dynamic() },
    )
}

/// Relies on tantivy's `TextAnalyzerBuilder::filter_dynamic` with
/// `LowerCaser`.
#[verifier::external_body]
pub(crate) fn filter_lowercase(b: AnalyzerBuilder) -> (r: AnalyzerBuilder) {
    AnalyzerBuilder { inner: b.inner.filter_dynamic(tantivy::tokenizer::LowerCaser) }
}

/// Relies on tantivy's `TextAnalyzerBuilder::filter_dynamic` with
/// `RemoveLongFilter::limit`.
#[verifier::external_body]
pub(crate) fn filter_remove_long(b: AnalyzerBuilder, limit: usize) -> (r: AnalyzerBuilder) {
    AnalyzerBuilder {
        inner: b.inner.filter_dynamic(tantivy::tokenizer::RemoveLongFilter::limit(limit)),
    }
}

/// Relies on tantivy's `TextAnalyzerBuilder::filter_dynamic` with
/// `AlphaNumOnlyFilter`.
#[verifier::external_body]
pub(crate) fn filter_alphanum(b: AnalyzerBuilder) -> (r: AnalyzerBuilder) {
    AnalyzerBuilder { inner: b.inner.filter_dynamic(tantivy::tokenizer::AlphaNumOnlyFilter) }
}

/// Relies on tantivy's `TextAnalyzerBuilder::filter_dynamic` with
/// `AsciiFoldingFilter`.
#[verifier::external_body]
pub(crate) fn filter_ascii_folding(b: AnalyzerBuilder) -> (r: AnalyzerBuilder) {
    AnalyzerBuilder { inner: b.inner.filter_dynamic(tantivy::tokenizer::AsciiFoldingFilter) }
}

/// Relies on tantivy's `Stemmer::new` and the serde form of its `Language`
/// enum: the language is named by its variant name, as it is persisted.
#[verifier::external_body]
pub(crate) fn filter_stemmer(b: AnalyzerBuilder, lang: &String) -> (r: Option<AnalyzerBuilder>)
    ensures
        (r is Some) == stemmer_known(lang@),
{
    serde_json::from_str::<tantivy::tokenizer::Language>(&format!("\"{}\"", lang)).ok().map(
        |l| AnalyzerBuilder { inner: b.inner.filter_dynamic(tantivy::tokenizer::Stemmer::new(l)) },
    )
}

/// Relies on tantivy's `TextAnalyzerBuilder::build`.
#[verifier::external_body]
pub(crate) fn build_analyzer(b: AnalyzerBuilder) -> (r: tantivy::tokenizer::TextAnalyzer) {
    b.inner.build()
}

} // verus!
