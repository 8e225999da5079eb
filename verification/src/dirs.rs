//! The program's data, configuration and cache locations, as plain
//! paths.  Resolving them against the platform's conventions happens
//! outside the library; the library only carries the values.

use vstd::prelude::*;

verus! {

/// Where the program keeps its files.
#[derive(Debug, Clone)]
pub struct Directories {
    pub data: String,
    pub config: String,
    pub cache: String,
}

impl Directories {
    /// Bundles resolved locations.
    pub fn new(data: String, config: String, cache: String) -> (r: Directories)
        ensures
            r.data == data,
            r.config == config,
            r.cache == cache,
    {
        Directories { data, config, cache }
    }
}

} // verus!
