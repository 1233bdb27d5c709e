pub mod battery;
pub mod connectivity;
pub mod core_metrics;
pub mod crashfree_interval;
pub mod hrt;
pub mod internal_metrics;
pub mod messages;
pub mod metric_reading;
pub mod metric_report;
pub mod metric_string_key;
pub mod metrics_event_handler;
pub mod session_event_handler;
pub mod session_name;
pub mod system_metrics;
