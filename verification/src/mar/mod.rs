pub mod chunks;
pub mod clean;
pub mod config;
pub mod export_format;
pub mod manifest;
pub mod upload;
pub mod mar_entry;
pub mod mar_entry_builder;
pub mod export;
