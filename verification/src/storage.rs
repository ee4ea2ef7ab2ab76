//! Configuration of a storage and of each database in it, and the checks
//! made before a database is opened.

use vstd::prelude::*;

use crate::durability::{DurabilityMode, DEFAULT_MAX_COMMIT_BATCH_ENTRIES};
use crate::metadata::types::TableStorageMode;
use crate::migration::layout::FieldLayout;
use crate::units::{ClError, Result};
use crate::upgrade::pipeline::TableRegistration;

verus! {

pub const DEFAULT_CACHE_CAPACITY: u64 = 10_000;
pub const DEFAULT_CACHE_TTL: u64 = 300;
pub const DEFAULT_CACHE_IDLE: u64 = 60;
pub const LOG_CHANNEL_CAPACITY: usize = 1024;

pub struct DatabaseConfig {
    pub has_cache: bool,
    pub dir_path: String,
    pub backup_dir_path: Option<String>,
    pub dir_name: String,
    pub db_name: String,
    pub cache_capacity: u64,
    pub cache_ttl: u64,
    pub cache_idle: u64,
    /// The registered tables, in registration order.
    pub tables: Vec<TableRegistration>,
    pub backup_enabled: bool,
    pub blob_enabled: bool,
    /// `None` means inherit from the storage's durability when the database
    /// is added.
    pub durability: Option<DurabilityMode>,
    pub max_commit_batch_entries: usize,
}

impl DatabaseConfig {
    /// Blob sidecars exclude both the cache and the backup: a configuration
    /// with blobs enabled has neither.
    pub open spec fn wf(&self) -> bool {
        self.blob_enabled ==> !self.has_cache && !self.backup_enabled
    }

    /// A database `db_name` in directory `dir_name`, with the cache on, no
    /// backup, no blobs and the default limits.
    pub fn new(dir_name: &str, db_name: &str) -> (r: Self)
        ensures
            r.wf(),
            r.has_cache,
            r.dir_path@.len() == 0,
            r.backup_dir_path is None,
            r.dir_name@ == dir_name@,
            r.db_name@ == db_name@,
            r.cache_capacity == DEFAULT_CACHE_CAPACITY,
            r.cache_ttl == DEFAULT_CACHE_TTL,
            r.cache_idle == DEFAULT_CACHE_IDLE,
            r.tables@.len() == 0,
            !r.backup_enabled,
            !r.blob_enabled,
            r.durability is None,
            r.max_commit_batch_entries == DEFAULT_MAX_COMMIT_BATCH_ENTRIES,
    {
        DatabaseConfig {
            has_cache: true,
            dir_path: String::new(),
            backup_dir_path: None,
            dir_name: dir_name.to_owned(),
            db_name: db_name.to_owned(),
            cache_capacity: DEFAULT_CACHE_CAPACITY,
            cache_ttl: DEFAULT_CACHE_TTL,
            cache_idle: DEFAULT_CACHE_IDLE,
            tables: Vec::new(),
            backup_enabled: false,
            blob_enabled: false,
            durability: None,
            max_commit_batch_entries: DEFAULT_MAX_COMMIT_BATCH_ENTRIES,
        }
    }

    /// Turns the cache on or off; turning it on turns blobs off.
    pub fn has_cache(self, has_cache: bool) -> (r: Self)
        ensures
            self.wf() ==> r.wf(),
            r == (DatabaseConfig { has_cache, blob_enabled: self.blob_enabled && !has_cache, ..self }),
    {
        let mut c = self;
        c.has_cache = has_cache;
        if has_cache {
            c.blob_enabled = false;
        }
        c
    }

    pub fn durability(self, mode: DurabilityMode) -> (r: Self)
        ensures
            self.wf() ==> r.wf(),
            r == (DatabaseConfig { durability: Some(mode), ..self }),
    {
        let mut c = self;
        c.durability = Some(mode);
        c
    }

    /// The largest number of entries one commit may hold; at least 1.
    pub fn max_commit_batch_entries(self, max: usize) -> (r: Self)
        ensures
            self.wf() ==> r.wf(),
            r == (DatabaseConfig { max_commit_batch_entries: if max < 1 { 1 } else { max }, ..self }),
    {
        let mut c = self;
        c.max_commit_batch_entries = if max < 1 { 1 } else { max };
        c
    }

    pub fn dir_path(self, path: String) -> (r: Self)
        ensures
            self.wf() ==> r.wf(),
            r == (DatabaseConfig { dir_path: path, ..self }),
    {
        let mut c = self;
        c.dir_path = path;
        c
    }

    /// Keeps a backup in `path`; a backup turns blobs off.
    pub fn backup_dir(self, path: String) -> (r: Self)
        ensures
            self.wf() ==> r.wf(),
            r == (DatabaseConfig { backup_enabled: true, blob_enabled: false, backup_dir_path: Some(path), ..self }),
    {
        let mut c = self;
        c.backup_enabled = true;
        c.blob_enabled = false;
        c.backup_dir_path = Some(path);
        c
    }

    /// Turns the backup on or off; turning it on turns blobs off.
    pub fn backup_enabled(self, enabled: bool) -> (r: Self)
        ensures
            self.wf() ==> r.wf(),
            r == (DatabaseConfig { backup_enabled: enabled, blob_enabled: self.blob_enabled && !enabled, ..self }),
    {
        let mut c = self;
        c.backup_enabled = enabled;
        if enabled {
            c.blob_enabled = false;
        }
        c
    }

    /// Turns blob sidecars on or off; turning them on turns the backup and
    /// the cache off.
    pub fn blob_enabled(self, enabled: bool) -> (r: Self)
        ensures
            r.wf(),
            r == (DatabaseConfig {
                blob_enabled: enabled,
                backup_enabled: self.backup_enabled && !enabled,
                has_cache: self.has_cache && !enabled,
                ..self
            }),
    {
        let mut c = self;
        c.blob_enabled = enabled;
        if enabled {
            c.backup_enabled = false;
            c.has_cache = false;
        } else {
            assert(!c.blob_enabled);
        }
        c
    }

    /// Sizes the cache in bytes (a budget for keys and values together) with
    /// its time-to-live and idle windows, and turns the cache on (and blobs
    /// off).
    pub fn cache_bytes(self, max_bytes: u64, ttl_secs: u64, idle_secs: u64) -> (r: Self)
        ensures
            self.wf() ==> r.wf(),
            r == (DatabaseConfig {
                cache_capacity: max_bytes,
                cache_ttl: ttl_secs,
                cache_idle: idle_secs,
                has_cache: true,
                blob_enabled: false,
                ..self
            }),
    {
        let mut c = self;
        c.cache_capacity = max_bytes;
        c.cache_ttl = ttl_secs;
        c.cache_idle = idle_secs;
        c.has_cache = true;
        c.blob_enabled = false;
        c
    }

    /// Registers a table whose rows are stored inline, with the layout of its
    /// entity type.
    pub fn register(self, table: &str, layout: FieldLayout) -> (r: Self)
        ensures
            self.wf() ==> r.wf(),
            r.tables@.len() == self.tables@.len() + 1,
            r.tables@.drop_last() == self.tables@,
            r.tables@.last().name@ == table@,
            r.tables@.last().layout == layout,
            r.tables@.last().storage == TableStorageMode::InlineJson,
            r == (DatabaseConfig { tables: r.tables, ..self }),
    {
        self.register_with_storage(table, layout, TableStorageMode::InlineJson)
    }

    /// Registers a table whose payloads are stored in blob sidecar files.
    pub fn register_blob(self, table: &str, layout: FieldLayout) -> (r: Self)
        ensures
            self.wf() ==> r.wf(),
            r.tables@.len() == self.tables@.len() + 1,
            r.tables@.drop_last() == self.tables@,
            r.tables@.last().name@ == table@,
            r.tables@.last().layout == layout,
            r.tables@.last().storage == TableStorageMode::BlobSidecar,
            r == (DatabaseConfig { tables: r.tables, ..self }),
    {
        self.register_with_storage(table, layout, TableStorageMode::BlobSidecar)
    }

    fn register_with_storage(self, table: &str, layout: FieldLayout, storage: TableStorageMode) -> (r: Self)
        ensures
            self.wf() ==> r.wf(),
            r.tables@.len() == self.tables@.len() + 1,
            r.tables@.drop_last() == self.tables@,
            r.tables@.last().name@ == table@,
            r.tables@.last().layout == layout,
            r.tables@.last().storage == storage,
            r == (DatabaseConfig { tables: r.tables, ..self }),
    {
        let mut c = self;
        c.tables.push(TableRegistration { name: table.to_owned(), layout, storage });
        assert(c.tables@.drop_last() =~= self.tables@);
        c
    }

    /// Whether some registered table stores its payloads in blob sidecars.
    pub open spec fn spec_has_blob_table(&self) -> bool {
        exists|i: int| 0 <= i < self.tables@.len() && (#[trigger] self.tables@[i]).storage == TableStorageMode::BlobSidecar
    }

    /// The checks before a database is opened: it registers at least one
    /// table, and a blob table needs blobs enabled.
    pub fn validate(&self) -> (r: Result<()>)
        ensures
            r is Ok <==> (self.tables@.len() > 0 && (self.spec_has_blob_table() ==> self.blob_enabled)),
            self.tables@.len() == 0 ==> (r matches Err(ClError::Validation(m))
                && m@ == "DatabaseConfig must register at least one table"@),
            self.tables@.len() > 0 && self.spec_has_blob_table() && !self.blob_enabled ==>
                (r matches Err(ClError::Validation(m)) && m@ == "register_blob requires blob_enabled(true) on DatabaseConfig"@),
    {
        if self.tables.len() == 0 {
            return Err(ClError::Validation("DatabaseConfig must register at least one table".to_owned()));
        }
        let mut has_blob = false;
        let mut i: usize = 0;
        while i < self.tables.len()
            invariant
                i <= self.tables@.len(),
                has_blob == exists|j: int| 0 <= j < i && (#[trigger] self.tables@[j]).storage == TableStorageMode::BlobSidecar,
            decreases self.tables@.len() - i,
        {
            if self.tables[i].storage == TableStorageMode::BlobSidecar {
                has_blob = true;
            }
            i = i + 1;
        }
        if has_blob && !self.blob_enabled {
            return Err(ClError::Validation("register_blob requires blob_enabled(true) on DatabaseConfig".to_owned()));
        }
        Ok(())
    }
}

pub struct StorageConfig {
    pub log_channel_capacity: usize,
    pub name: String,
    pub dir_path: String,
    pub durability: DurabilityMode,
}

impl StorageConfig {
    /// The default configuration for a storage whose databases live in
    /// `dir_path` (the executable's directory, by default).
    pub fn in_dir(dir_path: String) -> (r: Self)
        ensures
            r.log_channel_capacity == LOG_CHANNEL_CAPACITY,
            r.name@ == "storage"@,
            r.dir_path == dir_path,
            r.durability == DurabilityMode::Strict,
    {
        StorageConfig {
            log_channel_capacity: LOG_CHANNEL_CAPACITY,
            name: "storage".to_owned(),
            dir_path,
            durability: DurabilityMode::Strict,
        }
    }

    pub fn change_log_channel_capacity(self, capacity: usize) -> (r: Self)
        ensures
            r == (StorageConfig { log_channel_capacity: capacity, ..self }),
    {
        StorageConfig { log_channel_capacity: capacity, ..self }
    }

    pub fn change_name(self, name: &str) -> (r: Self)
        ensures
            r.name@ == name@,
            r == (StorageConfig { name: r.name, ..self }),
    {
        StorageConfig { name: name.to_owned(), ..self }
    }

    pub fn change_dir_path(self, path: String) -> (r: Self)
        ensures
            r == (StorageConfig { dir_path: path, ..self }),
    {
        StorageConfig { dir_path: path, ..self }
    }

    pub fn durability(self, mode: DurabilityMode) -> (r: Self)
        ensures
            r == (StorageConfig { durability: mode, ..self }),
    {
        StorageConfig { durability: mode, ..self }
    }
}

/// The databases of a storage, before it is opened.
pub struct StorageBuilder {
    pub database_configs: Vec<DatabaseConfig>,
    pub storage_config: StorageConfig,
}

impl StorageBuilder {
    pub fn new(config: StorageConfig) -> (r: Self)
        ensures
            r.database_configs@.len() == 0,
            r.storage_config == config,
    {
        StorageBuilder { database_configs: Vec::new(), storage_config: config }
    }

    /// Adds a database, filling in what it leaves to the storage: an empty
    /// directory becomes the storage's, an enabled backup without a directory
    /// goes beside the database, and an unset durability is the storage's.
    pub fn add_database(self, config: DatabaseConfig) -> (r: Self)
        ensures
            r.storage_config == self.storage_config,
            r.database_configs@.len() == self.database_configs@.len() + 1,
            r.database_configs@.drop_last() == self.database_configs@,
            ({
                let c = r.database_configs@.last();
                let dir = if config.dir_path@.len() == 0 { self.storage_config.dir_path } else { config.dir_path };
                &&& c.dir_path == dir
                &&& c.backup_dir_path == (if config.backup_enabled && config.backup_dir_path is None {
                    Some(dir)
                } else {
                    config.backup_dir_path
                })
                &&& c.durability == Some(match config.durability {
                    Some(d) => d,
                    None => self.storage_config.durability,
                })
                &&& c.has_cache == config.has_cache && c.backup_enabled == config.backup_enabled
                &&& c.blob_enabled == config.blob_enabled
                &&& c.tables == config.tables
                &&& c.dir_name == config.dir_name && c.db_name == config.db_name
                &&& c.cache_capacity == config.cache_capacity && c.cache_ttl == config.cache_ttl
                &&& c.cache_idle == config.cache_idle
                &&& c.max_commit_batch_entries == config.max_commit_batch_entries
                &&& (config.wf() ==> c.wf())
            }),
    {
        let mut config = config;
        if config.dir_path.as_str().unicode_len() == 0 {
            config.dir_path = self.storage_config.dir_path.clone();
        }
        if config.backup_enabled && config.backup_dir_path.is_none() {
            config.backup_dir_path = Some(config.dir_path.clone());
        }
        if config.durability.is_none() {
            config.durability = Some(self.storage_config.durability);
        }
        let mut b = self;
        b.database_configs.push(config);
        assert(b.database_configs@.drop_last() =~= self.database_configs@);
        b
    }
}

} // verus!
