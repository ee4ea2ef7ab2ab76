pub mod batch;
pub mod layout;
pub mod migrate_to;
pub mod chain;
pub mod decoder;
pub mod field_map;
pub mod guard;
pub mod plan;
pub mod report;
pub mod runner;
pub mod scan;
pub mod step_registry;
pub mod types;
