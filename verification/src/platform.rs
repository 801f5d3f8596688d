//! Platform diagnostic information for bug reports. Collecting the facts
//! reads the environment and is the caller's work; the report is rendered
//! here.

use vstd::prelude::*;

use crate::text::push_str;

verus! {

/// Runtime and compile-time platform information, every field as text.
#[derive(Debug, Clone, PartialEq, Eq)]
pub struct PlatformInfo {
    /// The application's version.
    pub app_version: String,
    /// The Rust compiler version, or `unknown`.
    pub rustc_version: String,
    /// The target this binary was compiled for.
    pub target_triple: String,
    /// The operating system family.
    pub os: String,
    /// The CPU architecture.
    pub arch: String,
    /// The number of logical CPUs, or `unknown`.
    pub logical_cpus: String,
    /// The home directory with its last component redacted.
    pub home_redacted: String,
    /// Where configuration lives on this platform.
    pub config_dir_hint: String,
}

/// The multi-line diagnostic text of the platform facts.
pub open spec fn platform_report(p: PlatformInfo) -> Seq<char> {
    "ForskScope "@ + p.app_version@ + "\nRust: "@ + p.rustc_version@ + "\nOS: "@ + p.os@ + " ("@
        + p.target_triple@ + ")\nArch: "@ + p.arch@ + "\nCPUs: "@ + p.logical_cpus@ + "\nHome: "@
        + p.home_redacted@ + "\nConfig: "@ + p.config_dir_hint@
}

impl PlatformInfo {
    /// Formats the facts as a multi-line string for the clipboard.
    pub fn to_report(&self) -> (s: String)
        ensures
            s@ == platform_report(*self),
    {
        let mut s = String::new();
        push_str(&mut s, "ForskScope ");
        push_str(&mut s, self.app_version.as_str());
        push_str(&mut s, "\nRust: ");
        push_str(&mut s, self.rustc_version.as_str());
        push_str(&mut s, "\nOS: ");
        push_str(&mut s, self.os.as_str());
        push_str(&mut s, " (");
        push_str(&mut s, self.target_triple.as_str());
        push_str(&mut s, ")\nArch: ");
        push_str(&mut s, self.arch.as_str());
        push_str(&mut s, "\nCPUs: ");
        push_str(&mut s, self.logical_cpus.as_str());
        push_str(&mut s, "\nHome: ");
        push_str(&mut s, self.home_redacted.as_str());
        push_str(&mut s, "\nConfig: ");
        push_str(&mut s, self.config_dir_hint.as_str());
        assert(s@ =~= platform_report(*self));
        s
    }
}

} // verus!
