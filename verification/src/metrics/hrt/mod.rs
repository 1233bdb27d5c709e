pub mod report;
pub mod schema;
