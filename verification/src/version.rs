//! Reading a runtime's self-reported identity: its version string, its
//! vendor token, its word size, and the major version that ranks it.

use crate::text::{
    chars_of, contains, find_char, find_from, first_token, first_token_of, has_substring,
    lines_of, parse_u32, parse_u32_spec, split_lines, string_from, string_of, text_view, views,
};
use vstd::prelude::*;

verus! {

/// The number that a dot-separated segment writes, or `fallback` where it
/// writes none.
pub open spec fn segment_value(segment: Seq<char>, fallback: u32) -> u32 {
    match parse_u32_spec(segment) {
        Some(n) => n,
        None => fallback,
    }
}

/// The major version of a version string. The text before the first dot is
/// read as a number, `0` where it is none. Where that number is exactly `1`
/// and a dot follows, the string uses the legacy `1.x` scheme and the major
/// version is the next segment, or `1` where that is no number.
pub open spec fn major_version_of(version: Seq<char>) -> u32 {
    let first_dot = find_from(version, '.', 0);
    let leading = segment_value(version.subrange(0, first_dot), 0);
    if leading == 1 && first_dot < version.len() {
        let second_dot = find_from(version, '.', first_dot + 1);
        segment_value(version.subrange(first_dot + 1, second_dot), 1)
    } else {
        leading
    }
}

/// The text between the first two double quotes of a line.
pub open spec fn quoted(line: Seq<char>) -> Option<Seq<char>> {
    let open = find_from(line, '"', 0);
    if open >= line.len() {
        None
    } else {
        let close = find_from(line, '"', open + 1);
        if close >= line.len() {
            None
        } else {
            Some(line.subrange(open + 1, close))
        }
    }
}

/// The version that one line announces: its first quoted text, where the
/// line holds the word `version`.
pub open spec fn version_in_line(line: Seq<char>) -> Option<Seq<char>> {
    if contains(line, "version"@) {
        quoted(line)
    } else {
        None
    }
}

/// The version announced by the first of `lines[from..]` that announces one.
pub open spec fn first_version(lines: Seq<Seq<char>>, from: int) -> Option<Seq<char>>
    decreases lines.len() - from,
{
    if from < 0 || from >= lines.len() {
        None
    } else {
        match version_in_line(lines[from]) {
            Some(v) => Some(v),
            None => first_version(lines, from + 1),
        }
    }
}

/// The version string that a runtime's output announces, if any.
pub open spec fn version_of_output(output: Seq<char>) -> Option<Seq<char>> {
    first_version(lines_of(output), 0)
}

/// The vendor token of a runtime's output: the first white-space-delimited
/// token of its first line.
pub open spec fn vendor_of_output(output: Seq<char>) -> Option<Seq<char>> {
    let lines = lines_of(output);
    if lines.len() == 0 {
        None
    } else {
        first_token(lines[0])
    }
}

/// Whether a runtime's output carries a 64-bit marker, in either spelling.
pub open spec fn reports_64bit(output: Seq<char>) -> bool {
    contains(output, "64-Bit"@) || contains(output, "64-bit"@)
}

/// Derives the major version from a version string.
pub fn parse_major_version(version: &str) -> (major: u32)
    ensures
        major == major_version_of(version@),
{
    let chars = chars_of(version);
    let first_dot: usize = find_char(&chars, '.', 0);
    let leading: u32 = match parse_u32(&chars, 0, first_dot) {
        Some(n) => n,
        None => 0,
    };
    if leading == 1 && first_dot < chars.len() {
        let second_dot: usize = find_char(&chars, '.', first_dot + 1);
        match parse_u32(&chars, first_dot + 1, second_dot) {
            Some(n) => n,
            None => 1,
        }
    } else {
        leading
    }
}

/// Finds the text between the first two double quotes of a line.
pub fn quoted_text(line: &Vec<char>) -> (r: Option<String>)
    ensures
        text_view(r) == quoted(line@),
{
    let open: usize = find_char(line, '"', 0);
    if open >= line.len() {
        return None;
    }
    let close: usize = find_char(line, '"', open + 1);
    if close >= line.len() {
        return None;
    }
    Some(string_of(line, open + 1, close))
}

/// Extracts the version string from a runtime's output.
pub fn extract_version(output: &str) -> (r: Option<String>)
    ensures
        text_view(r) == version_of_output(output@),
{
    let chars = chars_of(output);
    let lines = split_lines(&chars);
    let marker = chars_of("version");
    let mut i: usize = 0;
    while i < lines.len()
        invariant
            i <= lines@.len(),
            views(lines@) == lines_of(output@),
            marker@ == "version"@,
            first_version(lines_of(output@), 0) == first_version(lines_of(output@), i as int),
        decreases lines@.len() - i,
    {
        proof {
            assert(views(lines@)[i as int] == lines@[i as int]@);
        }
        if has_substring(&lines[i], &marker) {
            let found = quoted_text(&lines[i]);
            if found.is_some() {
                return found;
            }
        }
        i = i + 1;
    }
    None
}

/// Extracts the vendor token from a runtime's output.
pub fn extract_vendor(output: &str) -> (r: Option<String>)
    ensures
        text_view(r) == vendor_of_output(output@),
{
    let chars = chars_of(output);
    let lines = split_lines(&chars);
    if lines.len() == 0 {
        return None;
    }
    proof {
        assert(views(lines@)[0] == lines@[0]@);
    }
    match first_token_of(&lines[0]) {
        Some(token) => Some(string_from(&token)),
        None => None,
    }
}

/// Tells whether a runtime's output carries a 64-bit marker.
pub fn has_64bit_marker(output: &str) -> (r: bool)
    ensures
        r == reports_64bit(output@),
{
    let chars = chars_of(output);
    let upper = chars_of("64-Bit");
    let lower = chars_of("64-bit");
    has_substring(&chars, &upper) || has_substring(&chars, &lower)
}

} // verus!
