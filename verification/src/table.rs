//! The readings as rows of a table: what each column shows of a reading, and
//! how two readings are ordered by a column.

use crate::reading::{Reading, ThermalInfo};
use crate::report::{celsius_text, format_celsius};
use crate::text::{
    chars_of, code_of, code_point, common_prefix, common_prefix_len, lemma_common_prefix,
};
use core::cmp::Ordering;
use vstd::prelude::*;

verus! {

/// The columns of the table.
#[derive(Copy, Clone, Debug, PartialEq, Eq, Hash, Structural)]
pub enum ThermalInfoColumn {
    /// The path of the sensor's value file.
    Sensor,
    /// The temperature in degrees Celsius.
    Temp,
    /// The label of the sensor.
    Name,
}

/// The order of two texts: as the code points of the first characters in
/// which they differ, a text coming before every longer text that it begins.
pub open spec fn text_order(a: Seq<char>, b: Seq<char>) -> Ordering {
    let n = common_prefix_len(a, b);
    if n == a.len() {
        if n == b.len() {
            Ordering::Equal
        } else {
            Ordering::Less
        }
    } else if n == b.len() {
        Ordering::Greater
    } else if code_point(a[n]) < code_point(b[n]) {
        Ordering::Less
    } else {
        Ordering::Greater
    }
}

/// The order of two numbers.
pub open spec fn number_order(a: nat, b: nat) -> Ordering {
    if a < b {
        Ordering::Less
    } else if a > b {
        Ordering::Greater
    } else {
        Ordering::Equal
    }
}

/// What `column` shows of a reading.
pub open spec fn cell_of(reading: Reading, column: ThermalInfoColumn) -> Seq<char> {
    match column {
        ThermalInfoColumn::Sensor => reading.sensor,
        ThermalInfoColumn::Temp => celsius_text(reading.temp),
        ThermalInfoColumn::Name => reading.name,
    }
}

/// The order of two readings by `column`: by temperature in the temperature
/// column, by the text shown in the others.
pub open spec fn row_order(a: Reading, b: Reading, column: ThermalInfoColumn) -> Ordering {
    match column {
        ThermalInfoColumn::Sensor => text_order(a.sensor, b.sensor),
        ThermalInfoColumn::Temp => number_order(a.temp, b.temp),
        ThermalInfoColumn::Name => text_order(a.name, b.name),
    }
}

/// Orders two texts.
pub fn order_texts(a: &Vec<char>, b: &Vec<char>) -> (o: Ordering)
    ensures
        o == text_order(a@, b@),
{
    proof {
        lemma_common_prefix(a@, b@);
    }
    let n = common_prefix(a, b);
    if n == a.len() {
        if n == b.len() {
            Ordering::Equal
        } else {
            Ordering::Less
        }
    } else if n == b.len() {
        Ordering::Greater
    } else if code_of(a[n]) < code_of(b[n]) {
        Ordering::Less
    } else {
        Ordering::Greater
    }
}

impl ThermalInfo {
    /// What `column` shows of this reading.
    pub fn to_column(&self, column: ThermalInfoColumn) -> (cell: String)
        ensures
            cell@ == cell_of(self@, column),
    {
        match column {
            ThermalInfoColumn::Sensor => self.sensor.clone(),
            ThermalInfoColumn::Temp => format_celsius(self.temp),
            ThermalInfoColumn::Name => self.name.clone(),
        }
    }

    /// Orders this reading and `other` by `column`.
    pub fn cmp(&self, other: &ThermalInfo, column: ThermalInfoColumn) -> (o: Ordering)
        ensures
            o == row_order(self@, other@, column),
    {
        match column {
            ThermalInfoColumn::Sensor => order_texts(
                &chars_of(self.sensor.as_str()),
                &chars_of(other.sensor.as_str()),
            ),
            ThermalInfoColumn::Temp => {
                if self.temp < other.temp {
                    Ordering::Less
                } else if self.temp > other.temp {
                    Ordering::Greater
                } else {
                    Ordering::Equal
                }
            },
            ThermalInfoColumn::Name => order_texts(
                &chars_of(self.name.as_str()),
                &chars_of(other.name.as_str()),
            ),
        }
    }
}

} // verus!
