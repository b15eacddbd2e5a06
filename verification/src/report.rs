//! The lines of the text log: which readings are shown, and how.

use crate::config::{Config, Settings};
use crate::decimal::{
    decimal_digits, decimal_value, digit_char, digit_of, digit_value, push_decimal, ParseError,
};
use crate::reading::{
    parse_reading, read_temp_data, reading_of, readings_of, Observation, Reading, ReadingError,
    SensorFile, ThermalInfo,
};
use crate::severity::{classify, severity, Threshold};
use crate::text::{chars_of, ends_with, push_all, string_of};
use vstd::prelude::*;

verus! {

/// The width that a temperature is padded to in a line of the log.
pub const TEMPERATURE_WIDTH: usize = 4;

/// The three decimal places that write `thousandths` thousandths.
pub open spec fn three_places(thousandths: nat) -> Seq<char>
    recommends
        thousandths < 1000,
{
    seq![
        digit_char(thousandths / 100),
        digit_char(thousandths / 10 % 10),
        digit_char(thousandths % 10),
    ]
}

/// `s` without the zeros at its end.
pub open spec fn trim_zeros(s: Seq<char>) -> Seq<char>
    decreases s.len(),
{
    if s.len() > 0 && s.last() == '0' {
        trim_zeros(s.drop_last())
    } else {
        s
    }
}

/// The decimal places of `thousandths` thousandths as they are shown: the
/// point and the places without the zeros at their end, or nothing at all
/// where there are no thousandths.
pub open spec fn fraction_text(thousandths: nat) -> Seq<char>
    recommends
        thousandths < 1000,
{
    if thousandths == 0 {
        Seq::empty()
    } else {
        seq!['.'] + trim_zeros(three_places(thousandths))
    }
}

/// A temperature of `millidegrees` written in degrees Celsius: the whole
/// degrees, then the thousandths as far as they are not zero.
pub open spec fn celsius_text(millidegrees: nat) -> Seq<char> {
    decimal_digits(millidegrees / 1000) + fraction_text(millidegrees % 1000)
}

/// `text` with spaces put before it until it has `width` characters.
pub open spec fn pad_left(text: Seq<char>, width: nat) -> Seq<char> {
    if text.len() >= width {
        text
    } else {
        Seq::new((width - text.len()) as nat, |i: int| ' ') + text
    }
}

/// Whether a reading with the label `name` is shown: always where no sensor
/// is asked for, else where the label ends with what is asked for.
pub open spec fn is_shown(name: Seq<char>, sensor_id: Option<Seq<char>>) -> bool {
    match sensor_id {
        None => true,
        Some(suffix) => suffix.is_suffix_of(name),
    }
}

/// The predicate that holds of the readings that are shown.
pub open spec fn shown(sensor_id: Option<Seq<char>>) -> spec_fn(Reading) -> bool {
    |r: Reading| is_shown(r.name, sensor_id)
}

/// The readings that are shown, in their order.
pub open spec fn shown_readings(readings: Seq<Reading>, sensor_id: Option<Seq<char>>) -> Seq<
    Reading,
> {
    readings.filter(shown(sensor_id))
}

/// The line of one reading: its label, its temperature in degrees, padded,
/// and its marker, with a tab between them.
pub open spec fn line_of(reading: Reading, threshold: Option<Threshold>) -> Seq<char> {
    reading.name + seq!['\t'] + pad_left(celsius_text(reading.temp), TEMPERATURE_WIDTH as nat)
        + seq!['\t'] + classify(
        threshold,
        reading.temp,
    ).marker_text()
}

/// The function that gives each reading its line.
pub open spec fn liner(threshold: Option<Threshold>) -> spec_fn(Reading) -> Seq<char> {
    |r: Reading| line_of(r, threshold)
}

/// The lines of one poll: one for each reading that is shown.
pub open spec fn report_of(readings: Seq<Reading>, settings: Settings) -> Seq<Seq<char>> {
    shown_readings(readings, settings.sensor_id).map_values(liner(settings.threshold))
}

/// The line that heads the readings of one poll.
pub open spec fn header_of(timestamp: Seq<char>) -> Seq<char> {
    seq!['\t', '#', ' '] + timestamp + seq![' ', '#']
}

/// What one poll adds to the log: the header for the time of the poll, then
/// the lines of the readings that are shown.
pub open spec fn cycle_of(
    timestamp: Seq<char>,
    seen: Seq<Observation>,
    settings: Settings,
) -> Seq<Seq<char>> {
    seq![header_of(timestamp)] + report_of(readings_of(seen), settings)
}

/// What is logged of a sensor file that could not be read.
pub open spec fn failure_of(path: Seq<char>, cause: Seq<char>) -> Seq<char> {
    seq!['p', 'a', 't', 'h', ':', ' '] + path + seq![',', ' '] + cause
}

/// What is logged of one observation: nothing where it amounts to a reading
/// or could not be read at all, and for a file that held no number its path
/// and what is wrong with its content.
pub open spec fn complaint_of(seen: Observation) -> Option<Seq<char>> {
    match reading_of(seen) {
        Err(ReadingError::Malformed(e)) => Some(failure_of(seen.path, e.message_text())),
        _ => None,
    }
}

/// What is logged of a poll: one line for each file that held no number, in
/// the order of the observations.
pub open spec fn complaints_of(seen: Seq<Observation>) -> Seq<Seq<char>>
    decreases seen.len(),
{
    if seen.len() == 0 {
        Seq::empty()
    } else {
        let earlier = complaints_of(seen.drop_last());
        match complaint_of(seen.last()) {
            Some(line) => earlier.push(line),
            None => earlier,
        }
    }
}

/// A reading written out in full: the temperature in degrees and `C`, then
/// the path, the class and the label, with a tab before each.
pub open spec fn text_of(reading: Reading) -> Seq<char> {
    celsius_text(reading.temp) + seq!['C', '\t'] + reading.sensor + seq!['\t'] + reading.kind
        + seq!['\t'] + reading.name
}

/// With no sensor asked for every reading is shown. With one asked for, the
/// readings shown are those whose label ends with what is asked for: each
/// reading shown has such a label, and each reading with such a label is
/// shown.
pub proof fn lemma_sensor_filter(readings: Seq<Reading>, sensor_id: Option<Seq<char>>)
    ensures
        sensor_id is None ==> shown_readings(readings, sensor_id) == readings,
        forall|i: int|
            0 <= i < shown_readings(readings, sensor_id).len() ==> is_shown(
                (#[trigger] shown_readings(readings, sensor_id)[i]).name,
                sensor_id,
            ),
        forall|i: int|
            0 <= i < readings.len() && is_shown(readings[i].name, sensor_id) ==> shown_readings(
                readings,
                sensor_id,
            ).contains(#[trigger] readings[i]),
{
    let pred = shown(sensor_id);
    if sensor_id is None {
        crate::text::lemma_filter_all(readings, pred);
    }
    assert forall|i: int| 0 <= i < readings.filter(pred).len() implies is_shown(
        (#[trigger] readings.filter(pred)[i]).name,
        sensor_id,
    ) by {
        readings.lemma_filter_pred(pred, i);
    }
    assert forall|i: int| 0 <= i < readings.len() && is_shown(
        readings[i].name,
        sensor_id,
    ) implies readings.filter(pred).contains(#[trigger] readings[i]) by {
        readings.lemma_filter_contains(pred, i);
    }
}

/// The places shown for a number of thousandths, case by case.
proof fn lemma_fraction_cases(thousandths: nat)
    requires
        0 < thousandths < 1000,
    ensures
        fraction_text(thousandths) == if thousandths % 100 == 0 {
            seq!['.', digit_char(thousandths / 100)]
        } else if thousandths % 10 == 0 {
            seq!['.', digit_char(thousandths / 100), digit_char(thousandths / 10 % 10)]
        } else {
            seq![
                '.',
                digit_char(thousandths / 100),
                digit_char(thousandths / 10 % 10),
                digit_char(thousandths % 10),
            ]
        },
{
    let places = three_places(thousandths);
    let two = seq![digit_char(thousandths / 100), digit_char(thousandths / 10 % 10)];
    let one = seq![digit_char(thousandths / 100)];
    assert(places.drop_last() =~= two);
    assert(two.drop_last() =~= one);
    assert(digit_char(0) == '0');
    assert(forall|d: nat| 0 < d < 10 ==> digit_char(d) != '0');
    reveal_with_fuel(trim_zeros, 3);
    if thousandths % 100 == 0 {
        assert(trim_zeros(places) == one);
        assert(seq!['.'] + one =~= seq!['.', digit_char(thousandths / 100)]);
    } else if thousandths % 10 == 0 {
        assert(trim_zeros(places) == two);
        assert(seq!['.'] + two =~= seq![
            '.',
            digit_char(thousandths / 100),
            digit_char(thousandths / 10 % 10),
        ]);
    } else {
        assert(trim_zeros(places) == places);
        assert(seq!['.'] + places =~= seq![
            '.',
            digit_char(thousandths / 100),
            digit_char(thousandths / 10 % 10),
            digit_char(thousandths % 10),
        ]);
    }
}

/// What is shown of a temperature is the temperature: the digits before the
/// point write the whole degrees, and the three places that the digits after
/// the point are cut from write the thousandths that are left.
pub proof fn lemma_celsius_exact(millidegrees: nat)
    ensures
        1000 * decimal_value(decimal_digits(millidegrees / 1000)) + decimal_value(
            three_places(millidegrees % 1000),
        ) == millidegrees,
{
    let t = millidegrees % 1000;
    let places = three_places(t);
    crate::decimal::lemma_digits_value(millidegrees / 1000);
    reveal_with_fuel(decimal_value, 4);
    assert(places.drop_last() =~= seq![digit_char(t / 100), digit_char(t / 10 % 10)]);
    assert(places.drop_last().drop_last() =~= seq![digit_char(t / 100)]);
    assert(places.drop_last().drop_last().drop_last() =~= Seq::<char>::empty());
    assert(forall|d: nat| d < 10 ==> digit_value(digit_char(d)) == d);
    assert(decimal_value(places) == 100 * (t / 100) + 10 * (t / 10 % 10) + t % 10);
}

/// Appends a temperature in degrees Celsius to `out`.
pub fn push_celsius(out: &mut Vec<char>, millidegrees: u64)
    ensures
        final(out)@ == old(out)@ + celsius_text(millidegrees as nat),
{
    push_decimal(out, millidegrees / 1000);
    let f: u64 = millidegrees % 1000;
    proof {
        if f != 0 {
            lemma_fraction_cases(f as nat);
        }
    }
    if f != 0 {
        out.push('.');
        out.push(digit_of(f / 100));
        if f % 100 != 0 {
            out.push(digit_of(f / 10 % 10));
            if f % 10 != 0 {
                out.push(digit_of(f % 10));
            }
        }
    }
}

/// A temperature written in degrees Celsius.
pub fn format_celsius(millidegrees: u64) -> (s: String)
    ensures
        s@ == celsius_text(millidegrees as nat),
{
    let mut out: Vec<char> = Vec::new();
    push_celsius(&mut out, millidegrees);
    string_of(&out)
}

/// Appends `text` to `out`, with spaces before it where it is shorter than
/// `width`.
pub fn push_padded(out: &mut Vec<char>, text: &Vec<char>, width: usize)
    ensures
        final(out)@ == old(out)@ + pad_left(text@, width as nat),
{
    let mut i: usize = text.len();
    while i < width
        invariant
            text.len() <= i,
            i <= width || i == text.len(),
            out@ == old(out)@ + Seq::new((i - text.len()) as nat, |k: int| ' '),
        decreases width - i,
    {
        out.push(' ');
        proof {
            assert(Seq::new((i - text.len()) as nat, |k: int| ' ').push(' ') =~= Seq::new(
                (i + 1 - text.len()) as nat,
                |k: int| ' ',
            ));
        }
        i += 1;
    }
    push_all(out, text);
}

/// Whether a reading with the label `name` is shown.
pub fn matches_sensor(name: &str, sensor_id: &Option<String>) -> (b: bool)
    ensures
        b == is_shown(name@, sensor_id.deep_view()),
{
    match sensor_id {
        None => true,
        Some(suffix) => ends_with(&chars_of(name), &chars_of(suffix.as_str())),
    }
}

/// The readings that are shown: all where no sensor is asked for, else those
/// whose label ends with what is asked for.
pub fn select_readings(readings: &Vec<ThermalInfo>, sensor_id: &Option<String>) -> (kept: Vec<
    ThermalInfo,
>)
    ensures
        kept.deep_view() == shown_readings(readings.deep_view(), sensor_id.deep_view()),
{
    let mut kept: Vec<ThermalInfo> = Vec::new();
    let mut i: usize = 0;
    let ghost all = readings.deep_view();
    let ghost pred = shown(sensor_id.deep_view());
    proof {
        reveal(Seq::filter);
        assert(all.take(0) =~= Seq::<Reading>::empty());
        assert(kept.deep_view() =~= Seq::<Reading>::empty());
    }
    while i < readings.len()
        invariant
            i <= readings.len(),
            all == readings.deep_view(),
            pred == shown(sensor_id.deep_view()),
            kept.deep_view() == all.take(i as int).filter(pred),
        decreases readings.len() - i,
    {
        let ghost before = kept.deep_view();
        proof {
            crate::text::lemma_filter_push(all.take(i as int), readings[i as int]@, pred);
            assert(all.take(i as int).push(readings[i as int]@) =~= all.take(i + 1));
        }
        if matches_sensor(readings[i].name.as_str(), sensor_id) {
            kept.push(readings[i].clone());
            proof {
                assert(kept.deep_view() =~= before.push(readings[i as int]@));
            }
        }
        i += 1;
    }
    proof {
        assert(all.take(readings.len() as int) =~= all);
    }
    kept
}

/// The line of one reading in the log.
pub fn reading_line(info: &ThermalInfo, threshold: Option<Threshold>) -> (line: String)
    ensures
        line@ == line_of(info@, threshold),
{
    let mut out = chars_of(info.name.as_str());
    out.push('\t');
    let mut degrees: Vec<char> = Vec::new();
    push_celsius(&mut degrees, info.temp);
    push_padded(&mut out, &degrees, TEMPERATURE_WIDTH);
    out.push('\t');
    push_all(&mut out, &chars_of(severity(threshold, info.temp).marker()));
    string_of(&out)
}

/// The lines of one poll, in the order of the readings.
pub fn report_lines(config: &Config, readings: &Vec<ThermalInfo>) -> (lines: Vec<String>)
    ensures
        lines.deep_view() == report_of(readings.deep_view(), config@),
{
    let kept = select_readings(readings, &config.sensor_id);
    let ghost f = liner(config.threshold);
    let mut lines: Vec<String> = Vec::new();
    let mut i: usize = 0;
    proof {
        assert(lines.deep_view() =~= kept.deep_view().take(0).map_values(f));
    }
    while i < kept.len()
        invariant
            i <= kept.len(),
            f == liner(config.threshold),
            lines.deep_view() == kept.deep_view().take(i as int).map_values(f),
        decreases kept.len() - i,
    {
        let ghost before = lines.deep_view();
        let line = reading_line(&kept[i], config.threshold);
        lines.push(line);
        proof {
            assert(lines.deep_view() =~= before.push(line@));
            assert(kept.deep_view().take(i + 1).map_values(f) =~= kept.deep_view().take(
                i as int,
            ).map_values(f).push(f(kept[i as int]@)));
        }
        i += 1;
    }
    proof {
        assert(kept.deep_view().take(kept.len() as int) =~= kept.deep_view());
    }
    lines
}

/// The line that heads the readings of one poll, for the time `timestamp`.
pub fn header_line(timestamp: &str) -> (line: String)
    ensures
        line@ == header_of(timestamp@),
{
    let mut out: Vec<char> = Vec::new();
    out.push('\t');
    out.push('#');
    out.push(' ');
    push_all(&mut out, &chars_of(timestamp));
    out.push(' ');
    out.push('#');
    string_of(&out)
}

/// What one poll adds to the log, the poll having found `files` at the time
/// that `timestamp` writes.
pub fn cycle_lines(config: &Config, timestamp: &str, files: &Vec<SensorFile>) -> (lines: Vec<
    String,
>)
    ensures
        lines.deep_view() == cycle_of(timestamp@, files.deep_view(), config@),
{
    let mut lines: Vec<String> = Vec::new();
    let header = header_line(timestamp);
    lines.push(header);
    let readings = read_temp_data(files);
    let mut rest = report_lines(config, &readings);
    lines.append(&mut rest);
    lines
}

/// What is logged of the sensor file at `path` that could not be read for
/// the reason `cause`.
pub fn failure_line(path: &str, cause: &str) -> (line: String)
    ensures
        line@ == failure_of(path@, cause@),
{
    proof {
        reveal_strlit("path: ");
        reveal_strlit(", ");
    }
    let mut out = chars_of("path: ");
    push_all(&mut out, &chars_of(path));
    push_all(&mut out, &chars_of(", "));
    push_all(&mut out, &chars_of(cause));
    string_of(&out)
}

/// What is logged of a poll that found `files`: a line for each sensor file
/// that was read and held no number. Such a sensor is left out of the
/// readings; here is what says so.
pub fn malformed_lines(files: &Vec<SensorFile>) -> (lines: Vec<String>)
    ensures
        lines.deep_view() == complaints_of(files.deep_view()),
{
    let mut lines: Vec<String> = Vec::new();
    let mut i: usize = 0;
    proof {
        assert(files.deep_view().take(0) =~= Seq::<Observation>::empty());
        assert(lines.deep_view() =~= Seq::<Seq<char>>::empty());
    }
    while i < files.len()
        invariant
            i <= files.len(),
            lines.deep_view() == complaints_of(files.deep_view().take(i as int)),
        decreases files.len() - i,
    {
        let ghost before = lines.deep_view();
        let ghost grown = files.deep_view().take(i + 1);
        proof {
            assert(grown.drop_last() =~= files.deep_view().take(i as int));
            assert(grown.last() == files[i as int]@);
        }
        match parse_reading(&files[i]) {
            Err(ReadingError::Malformed(e)) => {
                let line = failure_line(files[i].path.as_str(), e.message());
                lines.push(line);
                proof {
                    assert(lines.deep_view() =~= before.push(line@));
                }
            },
            _ => {},
        }
        i += 1;
    }
    proof {
        assert(files.deep_view().take(files.len() as int) =~= files.deep_view());
    }
    lines
}

impl ThermalInfo {
    /// The reading written out in full.
    pub fn to_text(&self) -> (s: String)
        ensures
            s@ == text_of(self@),
    {
        let mut out: Vec<char> = Vec::new();
        push_celsius(&mut out, self.temp);
        out.push('C');
        out.push('\t');
        push_all(&mut out, &chars_of(self.sensor.as_str()));
        out.push('\t');
        push_all(&mut out, &chars_of(self.kind.as_str()));
        out.push('\t');
        push_all(&mut out, &chars_of(self.name.as_str()));
        string_of(&out)
    }
}

} // verus!
