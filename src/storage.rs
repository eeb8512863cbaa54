//! Crawl records and where they are kept.
//!
//! Reading and writing the files is left to the caller; this module holds the
//! records, the configuration that names the file, and the lookups on them.
use vstd::prelude::*;

use crate::text::{chars_of, string_of};

verus! {

/// Where records are written: a directory and a file name within it.
#[derive(Debug, Clone)]
pub struct StorageConfig {
    pub output_path: String,
    pub file_name: String,
}

/// What is recorded of one fetched page.
#[derive(Debug, Clone)]
pub struct DataEntry {
    pub url: String,
    pub status_code: i32,
    pub content_type: Option<String>,
    pub title: Option<String>,
    /// When the page was fetched, in seconds since the Unix epoch (UTC).
    pub crawled_at: i64,
}

/// A store of crawl records, configured once.
#[derive(Debug, Clone)]
pub struct Storage {
    pub config: StorageConfig,
}

/// The path of the storage configuration file.
pub fn get_storage_config_path() -> (r: String)
    ensures
        r@ == "storage_config.json"@,
{
    "storage_config.json".to_owned()
}

impl StorageConfig {
    /// The configuration with its file name replaced by `name` followed by `.json`,
    /// or unchanged when no name is given.
    pub fn with_file_name(self, name: Option<&str>) -> (r: StorageConfig)
        ensures
            r.output_path@ == self.output_path@,
            name is None ==> r.file_name@ == self.file_name@,
            name is Some ==> r.file_name@ == name->0@ + ".json"@,
    {
        match name {
            Some(n) => {
                let mut v = chars_of(n);
                let mut ext = chars_of(".json");
                v.append(&mut ext);
                StorageConfig { output_path: self.output_path, file_name: string_of(&v, 0, v.len()) }
            },
            None => self,
        }
    }
}

/// Whether `entries` holds a record for `url`.
pub open spec fn has_entry(entries: Seq<DataEntry>, url: Seq<char>) -> bool {
    exists|i: int| 0 <= i < entries.len() && (#[trigger] entries[i]).url@ == url
}

impl Storage {
    /// A store with the given configuration.
    pub fn new(config: StorageConfig) -> (r: Self)
        ensures
            r.config == config,
    {
        Storage { config }
    }

    /// The position of the first record for `url` in `entries`.
    pub fn find_entry(entries: &Vec<DataEntry>, url: &str) -> (r: Option<usize>)
        ensures
            r is None <==> !has_entry(entries@, url@),
            r is Some ==> r->0 < entries@.len() && entries@[r->0 as int].url@ == url@ && forall|
                j: int,
            |
                0 <= j < r->0 ==> (#[trigger] entries@[j]).url@ != url@,
    {
        let u = url.to_owned();
        let mut i: usize = 0;
        while i < entries.len()
            invariant
                0 <= i <= entries.len(),
                u@ == url@,
                forall|j: int| 0 <= j < i ==> (#[trigger] entries@[j]).url@ != url@,
            decreases entries.len() - i,
        {
            if entries[i].url == u {
                return Some(i);
            }
            i = i + 1;
        }
        None
    }
}

} // verus!
