//! A database on disk. Nothing is stored yet: the types stand for what is
//! to come.

use vstd::prelude::*;
use std::sync::Arc;

verus! {

pub struct OnDiskDatabase;

impl OnDiskDatabase {
    /// The database of the name.
    pub fn new(name: &str) -> (database: Arc<OnDiskDatabase>)
        ensures
            *database == OnDiskDatabase,
    {
        Arc::new(OnDiskDatabase)
    }
}

pub struct OnDiskSchema;

pub struct OnDiskTable;

} // verus!
