//! Configuration of the search core.

use vstd::prelude::*;

verus! {

/// Where collections live on disk and how the engine's writers are sized.
pub struct Search {
    /// Directory that holds one subdirectory per collection.
    pub data_dir: String,
    /// Writer threads per collection; the engine picks when absent.
    pub indexer_num_threads: Option<usize>,
    /// Overall writer memory budget per collection, in bytes.
    pub indexer_heap_size: usize,
}

impl Clone for Search {
    /// The clone carries the same configuration.
    fn clone(&self) -> (r: Self)
        ensures
            r == *self,
    {
        Search {
            data_dir: self.data_dir.clone(),
            indexer_num_threads: match self.indexer_num_threads {
                Some(n) => Some(n),
                None => None,
            },
            indexer_heap_size: self.indexer_heap_size,
        }
    }
}

} // verus!
