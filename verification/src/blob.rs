//! Where blob sidecar files live: `{db_dir}/{db_name}.blobs/{table}/{id}`.
//! Reading and writing them is the caller's part.

use vstd::prelude::*;

use crate::text::{path_join, spec_path_join};

verus! {

pub open spec fn spec_blob_root(db_dir: Seq<char>, db_name: Seq<char>) -> Seq<char> {
    spec_path_join(db_dir, db_name + ".blobs"@)
}

pub open spec fn spec_blob_table_dir(db_dir: Seq<char>, db_name: Seq<char>, table: Seq<char>) -> Seq<char> {
    spec_path_join(spec_blob_root(db_dir, db_name), table)
}

pub open spec fn spec_blob_path(db_dir: Seq<char>, db_name: Seq<char>, table: Seq<char>, id: Seq<char>) -> Seq<char> {
    spec_path_join(spec_blob_table_dir(db_dir, db_name, table), id)
}

/// `{db_dir}/{db_name}.blobs`
pub fn blob_root(db_dir: &str, db_name: &str) -> (r: String)
    ensures
        r@ == spec_blob_root(db_dir@, db_name@),
{
    let mut name = db_name.to_owned();
    name.append(".blobs");
    path_join(db_dir, name.as_str())
}

/// The root of the blob sidecars (another name for `blob_root`).
pub fn blobs_root(db_dir: &str, db_name: &str) -> (r: String)
    ensures
        r@ == spec_blob_root(db_dir@, db_name@),
{
    blob_root(db_dir, db_name)
}

/// `{db_dir}/{db_name}.blobs/{table}`
pub fn blob_table_dir(db_dir: &str, db_name: &str, table: &str) -> (r: String)
    ensures
        r@ == spec_blob_table_dir(db_dir@, db_name@, table@),
{
    let root = blob_root(db_dir, db_name);
    path_join(root.as_str(), table)
}

/// `{db_dir}/{db_name}.blobs/{table}/{id}`
pub fn blob_path(db_dir: &str, db_name: &str, table: &str, id: &str) -> (r: String)
    ensures
        r@ == spec_blob_path(db_dir@, db_name@, table@, id@),
{
    let dir = blob_table_dir(db_dir, db_name, table);
    path_join(dir.as_str(), id)
}

/// The blob sidecar store of one database.
#[derive(Debug, Clone)]
pub struct BlobStore {
    pub db_dir: String,
    pub db_name: String,
}

impl BlobStore {
    pub fn new(db_dir: &str, db_name: &str) -> (r: Self)
        ensures
            r.db_dir@ == db_dir@,
            r.db_name@ == db_name@,
    {
        BlobStore { db_dir: db_dir.to_owned(), db_name: db_name.to_owned() }
    }

    pub fn root(&self) -> (r: String)
        ensures
            r@ == spec_blob_root(self.db_dir@, self.db_name@),
    {
        blob_root(self.db_dir.as_str(), self.db_name.as_str())
    }

    pub fn table_dir(&self, table: &str) -> (r: String)
        ensures
            r@ == spec_blob_table_dir(self.db_dir@, self.db_name@, table@),
    {
        blob_table_dir(self.db_dir.as_str(), self.db_name.as_str(), table)
    }

    pub fn path(&self, table: &str, id: &str) -> (r: String)
        ensures
            r@ == spec_blob_path(self.db_dir@, self.db_name@, table@, id@),
    {
        blob_path(self.db_dir.as_str(), self.db_name.as_str(), table, id)
    }
}

} // verus!
