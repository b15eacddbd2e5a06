//! Names for sensors: where the label of a sensor file lives, and what the
//! label is once that place was read.

use crate::text::{
    chars_of, ends_with, prefix, push_all, remove_whitespace, string_of, strip_whitespace,
};
use vstd::prelude::*;

verus! {

/// `s` with its last `old_suffix.len()` characters replaced by `new_suffix`.
pub open spec fn replace_suffix(s: Seq<char>, old_suffix: Seq<char>, new_suffix: Seq<char>) -> Seq<
    char,
>
    recommends
        old_suffix.is_suffix_of(s),
{
    s.take(s.len() - old_suffix.len()) + new_suffix
}

/// The file that names the sensor at `path`. A hardware-monitor value file
/// ends in `_input` and is named by the file that ends in `_label` instead; a
/// thermal-zone value file ends in `temp` and is named by the file that ends
/// in `_type` instead. Any other path has no such file.
pub open spec fn label_path_of(path: Seq<char>) -> Option<Seq<char>> {
    if "_input"@.is_suffix_of(path) {
        Some(replace_suffix(path, "_input"@, "_label"@))
    } else if "temp"@.is_suffix_of(path) {
        Some(replace_suffix(path, "temp"@, "_type"@))
    } else {
        None
    }
}

/// The label of the sensor at `path`, where `sibling` is what was read from
/// the file that names it, or `None` where that file could not be read.
/// A path that has no naming file has the empty label, and so has a sensor
/// whose naming file could not be read.
pub open spec fn label_of(path: Seq<char>, sibling: Option<Seq<char>>) -> Seq<char> {
    match (label_path_of(path), sibling) {
        (Some(_), Some(text)) => strip_whitespace(text),
        _ => Seq::empty(),
    }
}

/// A path that ends in `_input` is named by the path with `_label` in place
/// of these six characters; any other path that ends in `temp` is named by
/// the path with `_type` in place of these four; every other path is named
/// by no file and has the empty label, whatever was read. A sensor whose
/// naming file could not be read has the empty label too.
pub proof fn lemma_label_resolution(path: Seq<char>, sibling: Option<Seq<char>>)
    ensures
        "_input"@.is_suffix_of(path) ==> label_path_of(path) == Some(
            path.take(path.len() - 6) + "_label"@,
        ),
        !"_input"@.is_suffix_of(path) && "temp"@.is_suffix_of(path) ==> label_path_of(path) == Some(
            path.take(path.len() - 4) + "_type"@,
        ),
        !"_input"@.is_suffix_of(path) && !"temp"@.is_suffix_of(path) ==> label_path_of(path) is None
            && label_of(path, sibling) == Seq::<char>::empty(),
        sibling is None ==> label_of(path, sibling) == Seq::<char>::empty(),
        label_path_of(path) is Some && sibling is Some ==> label_of(path, sibling)
            == strip_whitespace(sibling.unwrap()),
{
    reveal_strlit("_input");
    reveal_strlit("temp");
}

/// `path` with the suffix `old_suffix` replaced by `new_suffix`.
fn with_suffix(path: &Vec<char>, old_suffix: &Vec<char>, new_suffix: &Vec<char>) -> (out: Vec<char>)
    requires
        old_suffix@.is_suffix_of(path@),
    ensures
        out@ == replace_suffix(path@, old_suffix@, new_suffix@),
{
    let mut out = prefix(path, path.len() - old_suffix.len());
    push_all(&mut out, new_suffix);
    out
}

/// The path of the file that names the sensor at `path`, if it has one.
pub fn label_path(path: &str) -> (sibling: Option<String>)
    ensures
        sibling.deep_view() == label_path_of(path@),
{
    let chars = chars_of(path);
    let input = chars_of("_input");
    let temp = chars_of("temp");
    if ends_with(&chars, &input) {
        let out = with_suffix(&chars, &input, &chars_of("_label"));
        Some(string_of(&out))
    } else if ends_with(&chars, &temp) {
        let out = with_suffix(&chars, &temp, &chars_of("_type"));
        Some(string_of(&out))
    } else {
        None
    }
}

/// The label of the sensor at `path`. `sibling` is the content of the file
/// that `label_path` names, or `None` where that file is missing or
/// unreadable; neither is an error, both give the empty label.
pub fn get_label_for_sensor(path: &str, sibling: Option<&str>) -> (label: String)
    ensures
        label@ == label_of(path@, sibling.deep_view()),
{
    match sibling {
        Some(text) => {
            if label_path(path).is_some() {
                let kept = remove_whitespace(&chars_of(text));
                string_of(&kept)
            } else {
                String::new()
            }
        },
        None => String::new(),
    }
}

} // verus!
