//! FindBT core library: the three-phase Bluetooth capture model, the device
//! registry that folds raw observations into one row per device, the HTML and
//! PDF report writers, and the application's decisions (wizard, capture state
//! machine, settings validation, device table filtering).

pub mod text;
pub mod time;
pub mod models;
pub mod order;
pub mod registry;
pub mod session;
pub mod report;
pub mod settings;
pub mod ui;
pub mod backend;
pub mod pdf;
pub mod pdf_report;
pub mod pdf_file;
pub mod wizard;
pub mod controller;
pub mod device_filter;
pub mod icon;
pub mod profiler;
pub mod pdf_ascii;
