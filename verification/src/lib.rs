//! Temperatures from the thermal sensors that the operating system shows as
//! files: which files are sensors, what a sensor is called, what its file
//! says, when the sensors are read again, and how a reading is shown.
//!
//! Nothing here touches the file system, the clock or the terminal. The
//! caller walks the directories, reads the files and the clock, and hands
//! over what it found; every function here is a function of its arguments.
//! Temperatures are whole millidegrees Celsius throughout, as the sensors
//! report them.

pub mod config;
pub mod decimal;
pub mod label;
pub mod locate;
pub mod poll;
pub mod reading;
pub mod report;
pub mod severity;
pub mod source;
pub mod stamp;
pub mod table;
pub mod text;

pub use crate::config::{Config, ConfigError};
pub use crate::decimal::ParseError;
pub use crate::label::{get_label_for_sensor, label_path};
pub use crate::locate::{get_available_temp_sensors, PatternError, WalkEntry};
pub use crate::poll::{Poller, Tick};
pub use crate::reading::{parse_reading, read_temp_data, ReadingError, SensorFile, ThermalInfo};
pub use crate::report::{cycle_lines, header_line, malformed_lines, report_lines};
pub use crate::severity::{severity, Severity, Threshold};
pub use crate::source::{source_of, Source};
pub use crate::stamp::timestamp;
pub use crate::table::ThermalInfoColumn;
