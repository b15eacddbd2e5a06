//! The settings of one run.

use crate::decimal::{parse_decimal, parse_unsigned, ParseError};
use crate::severity::Threshold;
use crate::text::chars_of;
use vstd::prelude::*;

verus! {

/// The refresh rate that applies where none is given, as it is written.
pub const DEFAULT_REFRESH_RATE: &'static str = "30";

/// The settings of one run. They do not change while it lasts.
#[derive(Debug)]
pub struct Config {
    /// The seconds between two polls; never zero.
    pub refresh_rate: u64,
    /// The threshold, if readings are to be marked.
    pub threshold: Option<Threshold>,
    /// The suffix that the label of a reading must end with to be shown, if
    /// only some are to be shown.
    pub sensor_id: Option<String>,
    /// Whether the readings go to the interactive table (else to the log).
    pub with_tui: bool,
}

/// The mathematical content of a `Config`.
pub struct Settings {
    pub refresh_rate: nat,
    pub threshold: Option<Threshold>,
    pub sensor_id: Option<Seq<char>>,
    pub with_tui: bool,
}

impl View for Config {
    type V = Settings;

    open spec fn view(&self) -> Settings {
        Settings {
            refresh_rate: self.refresh_rate as nat,
            threshold: self.threshold,
            sensor_id: self.sensor_id.deep_view(),
            with_tui: self.with_tui,
        }
    }
}

impl Clone for Config {
    fn clone(&self) -> (copy: Self)
        ensures
            copy@ == self@,
    {
        let sensor_id = match &self.sensor_id {
            Some(suffix) => Some(suffix.clone()),
            None => None,
        };
        Config {
            refresh_rate: self.refresh_rate,
            threshold: self.threshold,
            sensor_id,
            with_tui: self.with_tui,
        }
    }
}

/// Why settings were refused.
#[derive(Clone, Copy, Debug, PartialEq, Eq, Structural)]
pub enum ConfigError {
    /// The refresh rate is not an unsigned number of seconds.
    RefreshRate(ParseError),
    /// The refresh rate is zero.
    ZeroRefreshRate,
}

/// The refresh rate that the text `written` sets: a positive number of
/// seconds, written as an unsigned decimal number.
pub open spec fn refresh_rate_of(written: Seq<char>) -> Result<u64, ConfigError> {
    match parse_unsigned(written) {
        Err(e) => Err(ConfigError::RefreshRate(e)),
        Ok(seconds) => if seconds == 0 {
            Err(ConfigError::ZeroRefreshRate)
        } else {
            Ok(seconds)
        },
    }
}

impl Config {
    /// Whether the settings are valid: the refresh rate is positive.
    pub open spec fn wf(&self) -> bool {
        self.refresh_rate > 0
    }

    /// Makes the settings of a run from what was given for it. The refresh
    /// rate comes as it was written and is refused unless it is a positive
    /// number; the rest is taken as it is.
    pub fn new(
        refresh_rate: &str,
        threshold: Option<Threshold>,
        sensor_id: Option<String>,
        with_tui: bool,
    ) -> (r: Result<Config, ConfigError>)
        ensures
            match r {
                Ok(config) => {
                    &&& refresh_rate_of(refresh_rate@) == Ok::<u64, ConfigError>(
                        config.refresh_rate,
                    )
                    &&& config.wf()
                    &&& config.threshold == threshold
                    &&& config.sensor_id == sensor_id
                    &&& config.with_tui == with_tui
                },
                Err(e) => refresh_rate_of(refresh_rate@) == Err::<u64, ConfigError>(e),
            },
    {
        match parse_decimal(&chars_of(refresh_rate)) {
            Err(e) => Err(ConfigError::RefreshRate(e)),
            Ok(seconds) => {
                if seconds == 0 {
                    Err(ConfigError::ZeroRefreshRate)
                } else {
                    Ok(Config { refresh_rate: seconds, threshold, sensor_id, with_tui })
                }
            },
        }
    }
}

} // verus!
