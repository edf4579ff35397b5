//! Diagnostics for ROS 2 nodes: status summaries, frequency and timestamp
//! monitoring, and the bookkeeping of an updater that publishes them.

pub mod diagnostic_status_wrapper;
pub mod diagnostic_updater;
pub mod msg;
pub mod text;
pub mod timer;
pub mod update_functions;

pub use crate::diagnostic_status_wrapper::{DiagnosticStatus, DiagnosticStatusWrapper, KeyValue};
pub use crate::diagnostic_updater::{CompositeDiagnosticTask, DiagnosticTask, UpdaterCore};
pub use crate::msg::{builtin_time_to_nanos, stamp_from_nanos, DiagnosticArray, Header, Time};
pub use crate::timer::{first_deadline, timer_step};
pub use crate::update_functions::{
    DelayTexts, FrequencyBand, FrequencyStatus, TimeStampStatus, WindowSample,
};
