//! Which of the entries found below the sensor directories are sensor value
//! files. The directories are walked by the caller; the choice is made here,
//! by the file name alone.

use vstd::prelude::*;

verus! {

/// The directory below which thermal zones are found.
pub const THERMAL_ROOT: &'static str = "/sys/class/thermal/";

/// The directory below which hardware monitors are found.
pub const HWMON_ROOT: &'static str = "/sys/class/hwmon/";

/// How many levels below a root the walk descends.
pub const MAX_DEPTH: usize = 2;

/// Whether the walk follows symbolic links.
pub const FOLLOW_LINKS: bool = true;

/// One entry that the walk came by.
#[derive(Debug)]
pub struct WalkEntry {
    /// The full path of the entry.
    pub path: String,
    /// The last component of the path.
    pub file_name: String,
}

/// The mathematical content of a `WalkEntry`.
pub struct Entry {
    pub path: Seq<char>,
    pub file_name: Seq<char>,
}

impl View for WalkEntry {
    type V = Entry;

    open spec fn view(&self) -> Entry {
        Entry { path: self.path@, file_name: self.file_name@ }
    }
}

impl DeepView for WalkEntry {
    type V = Entry;

    open spec fn deep_view(&self) -> Entry {
        self@
    }
}

/// A name pattern was not accepted as a regular expression.
#[derive(Clone, Copy, Debug, PartialEq, Eq, Structural)]
pub struct PatternError;

/// What the `regex` crate finds for `pattern` in `text`: `None` where
/// `pattern` does not compile, else whether it matches anywhere in `text`.
pub uninterp spec fn regex_match(pattern: Seq<char>, text: Seq<char>) -> Option<bool>;

/// Compiles `pattern` with `regex::Regex::new` and searches `text` with
/// `Regex::is_match`. Both depend on their arguments alone, so the outcome is
/// named by `regex_match`; nothing more is claimed of it.
#[verifier::external_body]
fn regex_is_match(pattern: &str, text: &str) -> (found: Option<bool>)
    ensures
        found == regex_match(pattern@, text@),
{
    match regex::Regex::new(pattern) {
        Ok(compiled) => Some(compiled.is_match(text)),
        Err(_) => None,
    }
}

/// The pattern of a thermal-zone value file: the name `temp` and no other.
pub open spec fn thermal_pattern() -> Seq<char> {
    "^temp$"@
}

/// The pattern of a hardware-monitor value file: a name that begins with
/// `temp` and ends with `_input`.
pub open spec fn hwmon_pattern() -> Seq<char> {
    "^temp.*_input$"@
}

/// The choice for one name, given what each of the two patterns found in it:
/// the name is taken where either pattern matches, and there is no choice
/// where a pattern did not compile.
pub open spec fn choice_of(thermal: Option<bool>, hwmon: Option<bool>) -> Result<
    bool,
    PatternError,
> {
    match (thermal, hwmon) {
        (Some(a), Some(b)) => Ok(a || b),
        _ => Err(PatternError),
    }
}

/// Whether a file of this name is a sensor value file.
pub open spec fn is_sensor_name(name: Seq<char>) -> Result<bool, PatternError> {
    choice_of(regex_match(thermal_pattern(), name), regex_match(hwmon_pattern(), name))
}

/// The paths of the sensor value files among `entries`, in the order of the
/// entries; an error where a pattern did not compile.
pub open spec fn sensors_among(entries: Seq<Entry>) -> Result<Seq<Seq<char>>, PatternError>
    decreases entries.len(),
{
    if entries.len() == 0 {
        Ok(Seq::empty())
    } else {
        match (sensors_among(entries.drop_last()), is_sensor_name(entries.last().file_name)) {
            (Ok(paths), Ok(true)) => Ok(paths.push(entries.last().path)),
            (Ok(paths), Ok(false)) => Ok(paths),
            _ => Err(PatternError),
        }
    }
}

/// Decides on one name from what the two patterns found in it.
pub fn pick(thermal: Option<bool>, hwmon: Option<bool>) -> (r: Result<bool, PatternError>)
    ensures
        r == choice_of(thermal, hwmon),
{
    match (thermal, hwmon) {
        (Some(a), Some(b)) => Ok(a || b),
        _ => Err(PatternError),
    }
}

/// Whether a file named `name` is a sensor value file.
pub fn sensor_name(name: &str) -> (r: Result<bool, PatternError>)
    ensures
        r == is_sensor_name(name@),
{
    let thermal = regex_is_match("^temp$", name);
    let hwmon = regex_is_match("^temp.*_input$", name);
    pick(thermal, hwmon)
}

/// The paths of the sensor value files among the entries of a walk.
pub fn get_available_temp_sensors(entries: &Vec<WalkEntry>) -> (r: Result<
    Vec<String>,
    PatternError,
>)
    ensures
        r.is_ok() == sensors_among(entries.deep_view()).is_ok(),
        r matches Ok(paths) ==> sensors_among(entries.deep_view()) == Ok::<
            Seq<Seq<char>>,
            PatternError,
        >(paths.deep_view()),
{
    let mut paths: Vec<String> = Vec::new();
    let mut i: usize = 0;
    proof {
        assert(entries.deep_view().take(0) =~= Seq::<Entry>::empty());
        assert(paths.deep_view() =~= Seq::<Seq<char>>::empty());
    }
    while i < entries.len()
        invariant
            i <= entries.len(),
            sensors_among(entries.deep_view().take(i as int)) == Ok::<Seq<Seq<char>>, PatternError>(
                paths.deep_view(),
            ),
        decreases entries.len() - i,
    {
        let ghost before = paths.deep_view();
        let ghost grown = entries.deep_view().take(i + 1);
        proof {
            assert(grown.drop_last() =~= entries.deep_view().take(i as int));
            assert(grown.last() == entries[i as int]@);
        }
        match sensor_name(entries[i].file_name.as_str()) {
            Ok(true) => {
                paths.push(entries[i].path.clone());
                proof {
                    assert(paths.deep_view() =~= before.push(entries[i as int]@.path));
                }
            },
            Ok(false) => {},
            Err(e) => {
                proof {
                    lemma_error_stays(entries.deep_view(), i + 1);
                }
                return Err(e);
            },
        }
        i += 1;
    }
    proof {
        assert(entries.deep_view().take(entries.len() as int) =~= entries.deep_view());
    }
    Ok(paths)
}

/// Once the choice fails among the first `n` entries it fails among all.
pub proof fn lemma_error_stays(entries: Seq<Entry>, n: int)
    requires
        0 <= n <= entries.len(),
        sensors_among(entries.take(n)).is_err(),
    ensures
        sensors_among(entries).is_err(),
    decreases entries.len(),
{
    if n == entries.len() {
        assert(entries.take(n) =~= entries);
    } else {
        assert(entries.drop_last().take(n) =~= entries.take(n));
        lemma_error_stays(entries.drop_last(), n);
    }
}

} // verus!
