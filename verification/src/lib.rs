//! Photo sorting logic: EXIF date extraction, destination planning,
//! and the reports shown while scanning and sorting.

pub mod date;
pub mod exif_date;
pub mod log;
pub mod plan;
pub mod report;
pub mod text;
pub mod types;
pub mod ui;

pub use date::{month_name, parse_exif_date};
pub use types::{ScanResult, ScanStatus, WorkerMsg};
