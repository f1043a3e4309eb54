//! Process-wide configuration, constructed once at startup from the
//! environment and passed explicitly to the components that need it.

use vstd::prelude::*;

verus! {

/// The immutable settings of the service: the metadata-store connection
/// string and the root directory of the blob namespace.
pub struct Config {
    pub db_url: String,
    pub upload_dir: String,
}

impl Config {
    pub fn new(db_url: String, upload_dir: String) -> (r: Config)
        ensures
            r.db_url@ == db_url@,
            r.upload_dir@ == upload_dir@,
    {
        Config { db_url, upload_dir }
    }
}

} // verus!
