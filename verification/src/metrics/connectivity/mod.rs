pub mod connectivity_monitor;
pub mod report_sync_event_handler;
