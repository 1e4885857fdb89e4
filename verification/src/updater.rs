//! The decisions of the background updater that need no network: the name of
//! the update target and the flag that lets one update run at a time.

use vstd::prelude::*;
use crate::text::same_text;

verus! {

/// What the user interface is told once an update is ready to install.
#[derive(Debug, PartialEq, Eq)]
pub struct UpdateReadyInfo {
    pub version: String,
}

/// The name of the update target of a platform, by operating system and
/// processor architecture.
pub open spec fn update_target_of(os: Seq<char>, arch: Seq<char>) -> Seq<char> {
    if os == "macos"@ && arch == "aarch64"@ {
        "darwin-aarch64"@
    } else if os == "macos"@ && arch == "x86_64"@ {
        "darwin-x86_64"@
    } else {
        "unknown"@
    }
}

/// The name of the update target of the platform with the operating system
/// `os` and the processor architecture `arch`.
pub fn get_update_target(os: &str, arch: &str) -> (target: &'static str)
    ensures
        target@ == update_target_of(os@, arch@),
{
    if same_text(os, "macos") && same_text(arch, "aarch64") {
        "darwin-aarch64"
    } else if same_text(os, "macos") && same_text(arch, "x86_64") {
        "darwin-x86_64"
    } else {
        "unknown"
    }
}

/// The flag of the updater: at most one check or download runs at a time.
#[derive(Debug, PartialEq, Eq)]
pub struct UpdateFlag {
    pub in_progress: bool,
}

impl UpdateFlag {
    /// The flag while nothing runs.
    pub fn new() -> (flag: UpdateFlag)
        ensures
            !flag.in_progress,
    {
        UpdateFlag { in_progress: false }
    }

    /// Asks to run. Returns whether the caller may: it may not while another
    /// run is in progress. The flag is set afterwards either way.
    pub fn try_begin(&mut self) -> (admitted: bool)
        ensures
            admitted == !old(self).in_progress,
            final(self).in_progress,
    {
        let admitted = !self.in_progress;
        self.in_progress = true;
        admitted
    }

    /// Clears the flag when the run is over, however it ended.
    pub fn finish(&mut self)
        ensures
            !final(self).in_progress,
    {
        self.in_progress = false;
    }
}

/// What a finished run reports: whether an update was downloaded, and what
/// the user interface is told then.
pub fn update_ready(downloaded: Option<String>) -> (report: (bool, Option<UpdateReadyInfo>))
    ensures
        report.0 == downloaded is Some,
        report.1 == match downloaded {
            Some(version) => Some(UpdateReadyInfo { version }),
            None => None,
        },
{
    match downloaded {
        Some(version) => (true, Some(UpdateReadyInfo { version })),
        None => (false, None),
    }
}

} // verus!
