pub mod disk_size;
pub mod math;
pub mod name_map;
pub mod patterns;
pub mod wildcard_pattern;
pub mod named_store;
