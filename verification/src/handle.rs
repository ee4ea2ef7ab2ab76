//! An open database file that can be closed while handles to it are alive:
//! once closed, every use of it fails with `Closed`, naming its path.

use vstd::prelude::*;

use crate::durability::DurabilityMode;
use crate::units::{ClError, Result};

verus! {

/// How a redb file is opened: the size of its page cache, if capped, and
/// whether commits leave the file so that an unclean exit needs only a
/// quick repair.
#[derive(Debug, Clone, Copy, PartialEq, Eq)]
pub struct RedbOptions {
    pub cache_bytes: Option<usize>,
    pub quick_repair: bool,
}

impl Default for RedbOptions {
    fn default() -> (r: Self)
        ensures
            r.cache_bytes is None,
            !r.quick_repair,
    {
        RedbOptions { cache_bytes: None, quick_repair: false }
    }
}

/// What every write transaction of a handle is set to.
#[derive(Debug, Clone, Copy, PartialEq, Eq)]
pub struct WriteSettings {
    /// Commit with immediate durability.
    pub immediate: bool,
    pub quick_repair: bool,
}

/// Strict durability commits immediately; quick repair is as the file was
/// opened.
pub fn write_settings(durability: DurabilityMode, quick_repair: bool) -> (r: WriteSettings)
    ensures
        r.immediate == (durability == DurabilityMode::Strict),
        r.quick_repair == quick_repair,
{
    WriteSettings { immediate: durability.is_strict(), quick_repair }
}

/// The slot of an open database: the database until it is closed.
#[derive(Debug)]
pub struct DbSlot<T> {
    pub db: Option<T>,
    pub path: String,
}

impl<T> DbSlot<T> {
    pub fn new(db: T, path: String) -> (r: Self)
        ensures
            r.db == Some(db),
            r.path == path,
    {
        DbSlot { db: Some(db), path }
    }

    /// The database, or `Closed` once it was closed.
    pub fn get(&self) -> (r: Result<&T>)
        ensures
            match self.db {
                Some(d) => r == Ok::<&T, ClError>(&d),
                None => r matches Err(ClError::Closed { path }) && path@ == self.path@,
            },
    {
        match &self.db {
            Some(d) => Ok(d),
            None => Err(ClError::Closed { path: self.path.clone() }),
        }
    }

    /// Closes the database and hands it back (`None` when it was closed
    /// already); every later `get` fails.
    pub fn close(&mut self) -> (r: Option<T>)
        ensures
            r == old(self).db,
            final(self).db is None,
            final(self).path == old(self).path,
    {
        self.db.take()
    }

    pub fn is_closed(&self) -> (r: bool)
        ensures
            r == self.db is None,
    {
        self.db.is_none()
    }
}

} // verus!
