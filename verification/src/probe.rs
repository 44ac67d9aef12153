//! Turning what one candidate executable printed into a runtime descriptor.
//!
//! Launching the candidate and asking the platform where it lives are the
//! caller's part; their outcome travels here in a [`ProbeReport`].

use crate::text::{
    chars_of, lines_of, split_lines, string_from, text_view, trim_chars, trimmed, views,
};
use crate::version::{
    extract_vendor, extract_version, has_64bit_marker, major_version_of, parse_major_version,
    reports_64bit, vendor_of_output, version_of_output,
};
use vstd::prelude::*;
use vstd::string::*;

verus! {

/// One discovered Java runtime.
#[derive(Debug)]
pub struct JavaInfo {
    /// Resolved path of the executable.
    pub path: String,
    /// Version string as the runtime reported it, or `unknown`.
    pub version: String,
    /// First token of the runtime's identity line, or `unknown`.
    pub vendor: String,
    /// Whether the runtime reported a 64-bit virtual machine.
    pub is_64bit: bool,
    /// Major version derived from `version`; `0` where undetermined.
    pub major_version: u32,
}

/// The mathematical content of a [`JavaInfo`].
pub ghost struct JavaInfoView {
    pub path: Seq<char>,
    pub version: Seq<char>,
    pub vendor: Seq<char>,
    pub is_64bit: bool,
    pub major_version: u32,
}

impl View for JavaInfo {
    type V = JavaInfoView;

    open spec fn view(&self) -> JavaInfoView {
        JavaInfoView {
            path: self.path@,
            version: self.version@,
            vendor: self.vendor@,
            is_64bit: self.is_64bit,
            major_version: self.major_version,
        }
    }
}

impl JavaInfoView {
    /// The major version is the one that the version string gives.
    pub open spec fn consistent(self) -> bool {
        self.major_version == major_version_of(self.version)
    }
}

impl Clone for JavaInfo {
    fn clone(&self) -> (r: Self)
        ensures
            r@ == self@,
    {
        JavaInfo {
            path: self.path.clone(),
            version: self.version.clone(),
            vendor: self.vendor.clone(),
            is_64bit: self.is_64bit,
            major_version: self.major_version,
        }
    }
}

/// What the host observed when it tried one candidate.
#[derive(Debug)]
pub struct ProbeReport {
    /// The candidate as it was tried: a bare name or a path.
    pub candidate: String,
    /// Whether the candidate could be run with the version query.
    pub launched: bool,
    /// What it wrote to standard output.
    pub stdout: String,
    /// What it wrote to standard error.
    pub stderr: String,
    /// Whether the candidate is an absolute path that exists.
    pub absolute_and_present: bool,
    /// Standard output of the platform's executable locator asked about the
    /// candidate; `None` where the locator could not be run.
    pub located: Option<String>,
}

/// The mathematical content of a [`ProbeReport`].
pub ghost struct ProbeReportView {
    pub candidate: Seq<char>,
    pub launched: bool,
    pub stdout: Seq<char>,
    pub stderr: Seq<char>,
    pub absolute_and_present: bool,
    pub located: Option<Seq<char>>,
}

impl View for ProbeReport {
    type V = ProbeReportView;

    open spec fn view(&self) -> ProbeReportView {
        ProbeReportView {
            candidate: self.candidate@,
            launched: self.launched,
            stdout: self.stdout@,
            stderr: self.stderr@,
            absolute_and_present: self.absolute_and_present,
            located: text_view(self.located),
        }
    }
}

/// The text that identifies the runtime: standard error where it is not
/// empty, standard output otherwise.
pub open spec fn combined_output(report: ProbeReportView) -> Seq<char> {
    if report.stderr.len() > 0 {
        report.stderr
    } else {
        report.stdout
    }
}

/// The first line of the locator's answer, trimmed, where it has a line.
pub open spec fn first_located(answer: Seq<char>) -> Option<Seq<char>> {
    let lines = lines_of(answer);
    if lines.len() == 0 {
        None
    } else {
        Some(trimmed(lines[0]))
    }
}

/// The resolution of a candidate, where there is one: the candidate itself
/// when it is an absolute path that exists, else the first line of the
/// locator's answer.
pub open spec fn resolution(report: ProbeReportView) -> Option<Seq<char>> {
    if report.absolute_and_present {
        Some(report.candidate)
    } else {
        match report.located {
            Some(answer) => first_located(answer),
            None => None,
        }
    }
}

/// The path under which a runtime is reported: its resolution, or the
/// candidate as tried where it has none.
pub open spec fn resolved_path(report: ProbeReportView) -> Seq<char> {
    match resolution(report) {
        Some(p) => p,
        None => report.candidate,
    }
}

/// `text`, or the word `unknown` where there is none.
pub open spec fn or_unknown(text: Option<Seq<char>>) -> Seq<char> {
    match text {
        Some(t) => t,
        None => "unknown"@,
    }
}

/// The descriptor that a report yields. A candidate that could not be run, or
/// that printed nothing on either stream, yields none.
pub open spec fn described(report: ProbeReportView) -> Option<JavaInfoView> {
    let output = combined_output(report);
    if !report.launched || output.len() == 0 {
        None
    } else {
        let version = or_unknown(version_of_output(output));
        Some(
            JavaInfoView {
                path: resolved_path(report),
                version,
                vendor: or_unknown(vendor_of_output(output)),
                is_64bit: reports_64bit(output),
                major_version: major_version_of(version),
            },
        )
    }
}

/// The view of an optional descriptor.
pub open spec fn info_view(info: Option<JavaInfo>) -> Option<JavaInfoView> {
    match info {
        Some(i) => Some(i@),
        None => None,
    }
}

/// The message with which an unusable path is refused.
pub open spec fn invalid_path_message(path: Seq<char>) -> Seq<char> {
    "Invalid Java path: "@ + path
}

/// A candidate that is an absolute path that exists, was run and printed
/// something is described under that very path: so is every such path that
/// came out of an earlier probe.
pub proof fn lemma_present_path_is_kept(report: ProbeReportView)
    requires
        report.launched,
        report.absolute_and_present,
        report.stdout.len() > 0 || report.stderr.len() > 0,
    ensures
        described(report) is Some,
        described(report)->0.path == report.candidate,
        described(report)->0.consistent(),
{
}

/// Reads the first line of the locator's answer, trimmed.
pub fn first_located_line(answer: &str) -> (r: Option<String>)
    ensures
        text_view(r) == first_located(answer@),
{
    let chars = chars_of(answer);
    let lines = split_lines(&chars);
    if lines.len() == 0 {
        return None;
    }
    proof {
        assert(views(lines@)[0] == lines@[0]@);
    }
    Some(string_from(&trim_chars(&lines[0])))
}

/// Resolves a candidate to the path of its executable.
pub fn resolve_java_path(report: &ProbeReport) -> (r: Option<String>)
    ensures
        text_view(r) == resolution(report@),
{
    if report.absolute_and_present {
        return Some(report.candidate.clone());
    }
    match &report.located {
        Some(answer) => first_located_line(answer.as_str()),
        None => None,
    }
}

/// Builds the descriptor of the runtime that a report speaks of.
pub fn check_java(report: &ProbeReport) -> (r: Option<JavaInfo>)
    ensures
        info_view(r) == described(report@),
        r is Some ==> r->0@.consistent(),
{
    if !report.launched {
        return None;
    }
    let combined: &str = if report.stderr.as_str().is_empty() {
        report.stdout.as_str()
    } else {
        report.stderr.as_str()
    };
    if combined.is_empty() {
        return None;
    }
    let version = match extract_version(combined) {
        Some(v) => v,
        None => String::from_str("unknown"),
    };
    let vendor = match extract_vendor(combined) {
        Some(v) => v,
        None => String::from_str("unknown"),
    };
    let is_64bit = has_64bit_marker(combined);
    let major_version = parse_major_version(version.as_str());
    let path = match resolve_java_path(report) {
        Some(p) => p,
        None => report.candidate.clone(),
    };
    Some(JavaInfo { path, version, vendor, is_64bit, major_version })
}

/// Checks one path given by the user: the descriptor of its runtime, or a
/// message that names the path where it yields none.
pub fn validate_java(report: &ProbeReport) -> (r: Result<JavaInfo, String>)
    ensures
        match r {
            Ok(info) => described(report@) == Some(info@) && info@.consistent(),
            Err(message) => described(report@) is None && message@ == invalid_path_message(
                report@.candidate,
            ),
        },
{
    match check_java(report) {
        Some(info) => Ok(info),
        None => Err(String::from_str("Invalid Java path: ").concat(report.candidate.as_str())),
    }
}

} // verus!
