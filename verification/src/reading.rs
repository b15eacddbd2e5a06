//! One temperature reading, and how it is made from what a sensor file held.

use crate::decimal::{
    all_digits, decimal_value, is_digit, parse_decimal, parse_unsigned, unsigned_part, ParseError,
};
use crate::label::{get_label_for_sensor, label_of};
use crate::text::{
    chars_of, is_whitespace_char, lemma_filter_all, lemma_filter_none, remove_whitespace,
    strip_whitespace, visible,
};
use vstd::prelude::*;

verus! {

/// One reading of one sensor.
#[derive(Debug)]
pub struct ThermalInfo {
    /// The temperature in millidegrees Celsius, as the sensor reports it:
    /// the temperature in degrees is `temp / 1000`.
    pub temp: u64,
    /// The path of the file that the value was read from.
    pub sensor: String,
    /// The class of the sensor. No class is assigned: it is left empty.
    pub kind: String,
    /// The label of the sensor, empty where it has none.
    pub name: String,
}

/// The mathematical content of a `ThermalInfo`.
pub struct Reading {
    pub temp: nat,
    pub sensor: Seq<char>,
    pub kind: Seq<char>,
    pub name: Seq<char>,
}

impl View for ThermalInfo {
    type V = Reading;

    open spec fn view(&self) -> Reading {
        Reading {
            temp: self.temp as nat,
            sensor: self.sensor@,
            kind: self.kind@,
            name: self.name@,
        }
    }
}

impl DeepView for ThermalInfo {
    type V = Reading;

    open spec fn deep_view(&self) -> Reading {
        self@
    }
}

impl Clone for ThermalInfo {
    fn clone(&self) -> (copy: Self)
        ensures
            copy@ == self@,
    {
        ThermalInfo {
            temp: self.temp,
            sensor: self.sensor.clone(),
            kind: self.kind.clone(),
            name: self.name.clone(),
        }
    }
}

/// What was found at one candidate path.
#[derive(Debug)]
pub struct SensorFile {
    /// The path of the sensor's value file.
    pub path: String,
    /// What the value file held, or `None` where it could not be read.
    pub content: Option<String>,
    /// What the file that names the sensor held, or `None` where there is no
    /// such file or it could not be read.
    pub label: Option<String>,
}

/// The mathematical content of a `SensorFile`.
pub struct Observation {
    pub path: Seq<char>,
    pub content: Option<Seq<char>>,
    pub label: Option<Seq<char>>,
}

impl View for SensorFile {
    type V = Observation;

    open spec fn view(&self) -> Observation {
        Observation {
            path: self.path@,
            content: self.content.deep_view(),
            label: self.label.deep_view(),
        }
    }
}

impl DeepView for SensorFile {
    type V = Observation;

    open spec fn deep_view(&self) -> Observation {
        self@
    }
}

/// Why a sensor yields no reading.
#[derive(Clone, Copy, Debug, PartialEq, Eq, Structural)]
pub enum ReadingError {
    /// The value file could not be read.
    Unreadable,
    /// The value file held something other than one unsigned number.
    Malformed(ParseError),
}

/// The reading that an observation amounts to. The content, with all white
/// space removed, must be one unsigned number: the millidegrees.
pub open spec fn reading_of(seen: Observation) -> Result<Reading, ReadingError> {
    match seen.content {
        None => Err(ReadingError::Unreadable),
        Some(text) => match parse_unsigned(strip_whitespace(text)) {
            Err(e) => Err(ReadingError::Malformed(e)),
            Ok(millidegrees) => Ok(
                Reading {
                    temp: millidegrees as nat,
                    sensor: seen.path,
                    kind: Seq::empty(),
                    name: label_of(seen.path, seen.label),
                },
            ),
        },
    }
}

/// The readings of a poll: one for each observation that amounts to a
/// reading, in the order of the observations. The others leave no trace.
pub open spec fn readings_of(seen: Seq<Observation>) -> Seq<Reading>
    decreases seen.len(),
{
    if seen.len() == 0 {
        Seq::empty()
    } else {
        let earlier = readings_of(seen.drop_last());
        match reading_of(seen.last()) {
            Ok(reading) => earlier.push(reading),
            Err(_) => earlier,
        }
    }
}

/// A file that holds an unsigned number and white space after it gives the
/// reading of exactly that number of millidegrees, which is that number
/// divided by 1000 in degrees.
pub proof fn lemma_padded_number(digits: Seq<char>, padding: Seq<char>, seen: Observation)
    requires
        digits.len() > 0,
        all_digits(digits),
        decimal_value(digits) <= u64::MAX,
        forall|i: int| 0 <= i < padding.len() ==> is_whitespace_char(#[trigger] padding[i]),
        seen.content == Some(digits + padding),
    ensures
        reading_of(seen) == Ok::<Reading, ReadingError>(
            Reading {
                temp: decimal_value(digits),
                sensor: seen.path,
                kind: Seq::empty(),
                name: label_of(seen.path, seen.label),
            },
        ),
{
    assert forall|i: int| 0 <= i < digits.len() implies visible()(#[trigger] digits[i]) by {
        assert(is_digit(digits[i]));
    }
    lemma_filter_all(digits, visible());
    lemma_filter_none(padding, visible());
    Seq::filter_distributes_over_add(digits, padding, visible());
    assert(strip_whitespace(digits + padding) =~= digits);
    assert(is_digit(digits[0]));
    assert(unsigned_part(digits) == digits);
}

/// The readings of two runs of observations, one after the other, are the
/// readings of the first and then those of the second.
pub proof fn lemma_readings_concat(first: Seq<Observation>, second: Seq<Observation>)
    ensures
        readings_of(first + second) == readings_of(first) + readings_of(second),
    decreases second.len(),
{
    if second.len() == 0 {
        assert(first + second =~= first);
        assert(readings_of(first) + readings_of(second) =~= readings_of(first));
    } else {
        assert((first + second).drop_last() =~= first + second.drop_last());
        assert((first + second).last() == second.last());
        lemma_readings_concat(first, second.drop_last());
        match reading_of(second.last()) {
            Ok(reading) => {
                assert((readings_of(first) + readings_of(second.drop_last())).push(reading)
                    =~= readings_of(first) + readings_of(second.drop_last()).push(reading));
            },
            Err(_) => {},
        }
    }
}

/// A sensor that yields no reading, be it unreadable or malformed, is left
/// out of the poll, and the poll holds the readings of the sensors before
/// it and after it as if it had not been there.
pub proof fn lemma_failed_sensor_left_out(
    before: Seq<Observation>,
    failed: Observation,
    after: Seq<Observation>,
)
    requires
        failed.content matches Some(text) ==> parse_unsigned(strip_whitespace(text)).is_err(),
    ensures
        reading_of(failed).is_err(),
        readings_of(before.push(failed) + after) == readings_of(before) + readings_of(after),
{
    lemma_readings_concat(before.push(failed), after);
    assert(before.push(failed).drop_last() =~= before);
}

/// A sensor that yields a reading has it in the poll, between the readings
/// of the sensors before it and after it.
pub proof fn lemma_good_sensor_kept(
    before: Seq<Observation>,
    good: Observation,
    after: Seq<Observation>,
)
    requires
        reading_of(good).is_ok(),
    ensures
        readings_of(before.push(good) + after) == readings_of(before).push(
            reading_of(good).unwrap(),
        ) + readings_of(after),
{
    lemma_readings_concat(before.push(good), after);
    assert(before.push(good).drop_last() =~= before);
}

/// Whether no two of the observations are of the same path.
pub open spec fn distinct_paths(seen: Seq<Observation>) -> bool {
    forall|i: int, j: int| 0 <= i < j < seen.len() ==> seen[i].path != seen[j].path
}

/// Whether no two of the readings are of the same sensor.
pub open spec fn distinct_sensors(readings: Seq<Reading>) -> bool {
    forall|i: int, j: int| 0 <= i < j < readings.len() ==> readings[i].sensor != readings[j].sensor
}

/// Every reading of a poll is the reading of one of the observations.
pub proof fn lemma_reading_has_source(seen: Seq<Observation>, k: int)
    requires
        0 <= k < readings_of(seen).len(),
    ensures
        exists|i: int|
            0 <= i < seen.len() && reading_of(#[trigger] seen[i]) == Ok::<Reading, ReadingError>(
                readings_of(seen)[k],
            ),
    decreases seen.len(),
{
    if seen.len() > 0 {
        let earlier = readings_of(seen.drop_last());
        if k < earlier.len() {
            lemma_reading_has_source(seen.drop_last(), k);
            let i = choose|i: int|
                0 <= i < seen.drop_last().len() && reading_of(#[trigger] seen.drop_last()[i])
                    == Ok::<Reading, ReadingError>(earlier[k]);
            assert(seen[i] == seen.drop_last()[i]);
        } else {
            assert(reading_of(seen[seen.len() - 1]) == Ok::<Reading, ReadingError>(
                readings_of(seen)[k],
            ));
        }
    }
}

/// Where every path was observed once, every sensor has one reading at
/// most: no two readings of a poll are of the same path.
pub proof fn lemma_one_reading_for_each_path(seen: Seq<Observation>)
    requires
        distinct_paths(seen),
    ensures
        distinct_sensors(readings_of(seen)),
    decreases seen.len(),
{
    if seen.len() > 0 {
        let earlier = readings_of(seen.drop_last());
        let head = seen.drop_last();
        assert forall|i: int, j: int| 0 <= i < j < head.len() implies head[i].path
            != head[j].path by {
            assert(head[i] == seen[i]);
            assert(head[j] == seen[j]);
        }
        lemma_one_reading_for_each_path(seen.drop_last());
        let all = readings_of(seen);
        assert forall|i: int, j: int| 0 <= i < j < all.len() implies all[i].sensor
            != all[j].sensor by {
            if j == earlier.len() {
                lemma_reading_has_source(seen.drop_last(), i);
                let k = choose|k: int|
                    0 <= k < seen.drop_last().len() && reading_of(#[trigger] seen.drop_last()[k])
                        == Ok::<Reading, ReadingError>(earlier[i]);
                assert(seen.drop_last()[k] == seen[k]);
                assert(all[i].sensor == seen[k].path);
                assert(all[j].sensor == seen[seen.len() - 1].path);
            }
        }
    }
}

/// Makes the reading of one sensor from what was found at its path.
pub fn parse_reading(file: &SensorFile) -> (r: Result<ThermalInfo, ReadingError>)
    ensures
        r.is_ok() == reading_of(file@).is_ok(),
        r matches Ok(info) ==> reading_of(file@) == Ok::<Reading, ReadingError>(info@),
        r matches Err(e) ==> reading_of(file@) == Err::<Reading, ReadingError>(e),
{
    match &file.content {
        None => Err(ReadingError::Unreadable),
        Some(text) => {
            let digits = remove_whitespace(&chars_of(text.as_str()));
            match parse_decimal(&digits) {
                Err(e) => Err(ReadingError::Malformed(e)),
                Ok(millidegrees) => {
                    let sibling: Option<&str> = match &file.label {
                        Some(l) => Some(l.as_str()),
                        None => None,
                    };
                    let name = get_label_for_sensor(file.path.as_str(), sibling);
                    Ok(
                        ThermalInfo {
                            temp: millidegrees,
                            sensor: file.path.clone(),
                            kind: String::new(),
                            name,
                        },
                    )
                },
            }
        },
    }
}

/// One poll: the readings of all the sensors that yield one. A sensor whose
/// file could not be read, or held no number, is left out, and the others
/// are not affected.
pub fn read_temp_data(files: &Vec<SensorFile>) -> (readings: Vec<ThermalInfo>)
    ensures
        readings.deep_view() == readings_of(files.deep_view()),
{
    let mut readings: Vec<ThermalInfo> = Vec::new();
    let mut i: usize = 0;
    proof {
        assert(files.deep_view().take(0) =~= Seq::<Observation>::empty());
        assert(readings.deep_view() =~= Seq::<Reading>::empty());
    }
    while i < files.len()
        invariant
            i <= files.len(),
            readings.deep_view() == readings_of(files.deep_view().take(i as int)),
        decreases files.len() - i,
    {
        let ghost before = readings.deep_view();
        let ghost grown = files.deep_view().take(i + 1);
        proof {
            assert(grown.drop_last() =~= files.deep_view().take(i as int));
            assert(grown.last() == files[i as int]@);
        }
        match parse_reading(&files[i]) {
            Ok(info) => {
                readings.push(info);
                proof {
                    assert(readings.deep_view() =~= before.push(info@));
                }
            },
            Err(_) => {},
        }
        i += 1;
    }
    proof {
        assert(files.deep_view().take(files.len() as int) =~= files.deep_view());
    }
    readings
}

} // verus!
