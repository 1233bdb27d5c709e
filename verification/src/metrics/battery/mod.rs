pub mod battery_monitor;
pub mod sysfs;
pub mod battery_reading_handler;
