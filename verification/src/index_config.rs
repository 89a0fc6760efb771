//! What a collection is created with: engine settings, the schema, and the
//! custom analyzers to register on the index.  Analyzer behaviour itself is
//! the engine's business; this module assembles engine analyzers from their
//! persisted configuration.

use vstd::prelude::*;

use crate::engine;
use crate::engine::AnalyzerBuilder;

verus! {

pub struct NgramTokenizerConfig {
    /// min size of the n-gram
    pub min_gram: usize,
    /// max size of the n-gram
    pub max_gram: usize,
    /// if true, will only parse the leading edge of the input
    pub prefix_only: bool,
}

pub enum TokenizerConfig {
    Raw,
    Simple,
    Ngram(NgramTokenizerConfig),
    Facet,
}

pub struct RemoveLongFilterConfig {
    pub limit: usize,
}

pub struct StemmerConfig {
    /// The language, by the engine's variant name (`English`, `French`, ...).
    pub lang: String,
}

pub enum TokenFilterConfig {
    Lowercase,
    RemoveLong(RemoveLongFilterConfig),
    AlphaNum,
    AsciiFolding,
    Stemmer(StemmerConfig),
}

/// The filter can be built: a stemmer demands a language the engine knows.
pub open spec fn filter_config_ok(f: TokenFilterConfig) -> bool {
    match f {
        TokenFilterConfig::Stemmer(c) => engine::stemmer_known(c.lang@),
        _ => true,
    }
}

/// The analyzer can be built: an n-gram tokenizer demands
/// `1 <= min_gram <= max_gram`, and every filter must be buildable.
pub open spec fn analyzer_config_ok(a: AnalyzerConfig) -> bool {
    &&& match a.tokenizer {
        TokenizerConfig::Ngram(c) => 1 <= c.min_gram <= c.max_gram,
        _ => true,
    }
    &&& forall|i: int|
        0 <= i < a.token_filters.len() ==> filter_config_ok(#[trigger] a.token_filters@[i])
}

impl TokenFilterConfig {
    /// Appends this filter to the analyzer under construction; fails exactly
    /// for a stemmer whose language the engine does not know.
    pub fn apply_token_filter(&self, builder: AnalyzerBuilder) -> (r: Option<AnalyzerBuilder>)
        ensures
            (r is Some) == filter_config_ok(*self),
    {
        match self {
            TokenFilterConfig::Lowercase => Some(engine::filter_lowercase(builder)),
            TokenFilterConfig::RemoveLong(conf) => Some(
                engine::filter_remove_long(builder, conf.limit),
            ),
            TokenFilterConfig::AlphaNum => Some(engine::filter_alphanum(builder)),
            TokenFilterConfig::AsciiFolding => Some(engine::filter_ascii_folding(builder)),
            TokenFilterConfig::Stemmer(conf) => engine::filter_stemmer(builder, &conf.lang),
        }
    }
}

pub struct AnalyzerConfig {
    pub name: String,
    pub tokenizer: TokenizerConfig,
    pub token_filters: Vec<TokenFilterConfig>,
}

impl AnalyzerConfig {
    /// Assembles the engine analyzer: the configured tokenizer, then the
    /// filters in order.  Succeeds exactly for buildable configurations.
    pub fn make_analyzer(&self) -> (r: Option<tantivy::tokenizer::TextAnalyzer>)
        ensures
            (r is Some) == analyzer_config_ok(*self),
    {
        let mut builder = match &self.tokenizer {
            TokenizerConfig::Raw => engine::builder_raw(),
            TokenizerConfig::Simple => engine::builder_simple(),
            TokenizerConfig::Ngram(conf) => {
                match engine::builder_ngram(conf.min_gram, conf.max_gram, conf.prefix_only) {
                    Some(b) => b,
                    None => {
                        return None;
                    },
                }
            },
            TokenizerConfig::Facet => engine::builder_facet(),
        };
        let n = self.token_filters.len();
        let mut i: usize = 0;
        while i < n
            invariant
                i <= n,
                n == self.token_filters@.len(),
                match self.tokenizer {
                    TokenizerConfig::Ngram(c) => 1 <= c.min_gram <= c.max_gram,
                    _ => true,
                },
                forall|j: int|
                    0 <= j < i ==> filter_config_ok(#[trigger] self.token_filters@[j]),
            decreases n - i,
        {
            builder = match self.token_filters[i].apply_token_filter(builder) {
                Some(b) => b,
                None => {
                    return None;
                },
            };
            i = i + 1;
        }
        Some(engine::build_analyzer(builder))
    }
}

pub type Analyzers = Vec<AnalyzerConfig>;

/// Everything a collection is created with.
pub struct IndexConfig {
    pub settings: tantivy::IndexSettings,
    pub analyzers: Analyzers,
    pub schema: tantivy::schema::Schema,
}

impl IndexConfig {
    pub fn new(
        settings: tantivy::IndexSettings,
        analyzers: Analyzers,
        schema: tantivy::schema::Schema,
    ) -> (r: Self)
        ensures
            r.analyzers == analyzers,
    {
        IndexConfig { settings, analyzers, schema }
    }
}

} // verus!
