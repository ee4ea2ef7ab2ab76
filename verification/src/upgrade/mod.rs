pub mod legacy_migration;
pub mod legacy_record;
pub mod migration_refs;
pub mod backup_normalize;
pub mod pipeline;
