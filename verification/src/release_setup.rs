//! Decisions around the downloaded voice-input helper and the self-update
//! command: which release archive fits the platform, which asset of a
//! release to fetch, and what the update run reports. Downloading,
//! unpacking and running are the caller's.

use vstd::prelude::*;
use crate::text::{chars_contain_sub, chars_eq, push_chars, seq_contains_sub, str_chars, string_from_chars};

verus! {

/// File name of the helper binary on the platform.
pub fn whisper_binary_name(windows: bool) -> (r: &'static str)
    ensures
        windows ==> r@ == "whispercrabs.exe"@,
        !windows ==> r@ == "whispercrabs"@,
{
    if windows {
        "whispercrabs.exe"
    } else {
        "whispercrabs"
    }
}

/// The release platform of an operating system name (as
/// `std::env::consts::OS` gives it): its name in release assets and its
/// archive kind.
pub open spec fn release_platform_spec(os: Seq<char>) -> Option<(Seq<char>, Seq<char>)> {
    if os == "linux"@ {
        Some(("linux"@, "tar.gz"@))
    } else if os == "macos"@ {
        Some(("macos"@, "tar.gz"@))
    } else if os == "windows"@ {
        Some(("windows"@, "zip"@))
    } else {
        None
    }
}

/// The release platform of `os`, or the message refusing it.
pub fn release_platform(os: &str) -> (r: Result<(&'static str, &'static str), String>)
    ensures
        match release_platform_spec(os@) {
            Some((name, ext)) => r matches Ok(p) && p.0@ == name && p.1@ == ext,
            None => r matches Err(m) && m@ == "Unsupported OS: "@ + os@,
        },
{
    let o = str_chars(os);
    if chars_eq(&o, &str_chars("linux")) {
        Ok(("linux", "tar.gz"))
    } else if chars_eq(&o, &str_chars("macos")) {
        Ok(("macos", "tar.gz"))
    } else if chars_eq(&o, &str_chars("windows")) {
        Ok(("windows", "zip"))
    } else {
        let mut out = str_chars("Unsupported OS: ");
        push_chars(&mut out, &o);
        Err(string_from_chars(&out))
    }
}

/// The text an asset name must contain for platform `os_name` and
/// architecture `arch`.
pub fn release_asset_pattern(os_name: &str, arch: &str) -> (r: String)
    ensures
        r@ == "whispercrabs-"@ + os_name@ + "-"@ + arch@,
{
    let mut out = str_chars("whispercrabs-");
    push_chars(&mut out, &str_chars(os_name));
    push_chars(&mut out, &str_chars("-"));
    push_chars(&mut out, &str_chars(arch));
    string_from_chars(&out)
}

/// The message when no asset fits.
pub fn no_release_message(os_name: &str, arch: &str) -> (r: String)
    ensures
        r@ == "No release found for "@ + os_name@ + "-"@ + arch@,
{
    let mut out = str_chars("No release found for ");
    push_chars(&mut out, &str_chars(os_name));
    push_chars(&mut out, &str_chars("-"));
    push_chars(&mut out, &str_chars(arch));
    string_from_chars(&out)
}

/// Position of the first asset, from position `i` on, whose name is a
/// string containing `pattern`.
pub open spec fn first_asset(names: Seq<Option<Seq<char>>>, pattern: Seq<char>, i: int) -> Option<int>
    decreases names.len() - i,
{
    if i < 0 || i >= names.len() {
        None
    } else if names[i] matches Some(n) && seq_contains_sub(n, pattern) {
        Some(i)
    } else {
        first_asset(names, pattern, i + 1)
    }
}

pub open spec fn names_view(names: Seq<Option<String>>) -> Seq<Option<Seq<char>>> {
    names.map_values(|n: Option<String>| match n {
        Some(s) => Some(s@),
        None => None,
    })
}

/// The asset of a release to download: the first whose name (`None` when
/// the asset has no string name) contains `pattern`.
pub fn find_release_asset(names: &[Option<String>], pattern: &str) -> (r: Option<usize>)
    ensures
        match first_asset(names_view(names@), pattern@, 0) {
            Some(i) => r == Some(i as usize),
            None => r is None,
        },
{
    let p = str_chars(pattern);
    let ghost nv = names_view(names@);
    let mut i: usize = 0;
    while i < names.len()
        invariant
            i <= names@.len(),
            nv == names_view(names@),
            p@ == pattern@,
            first_asset(nv, pattern@, 0) == first_asset(nv, pattern@, i as int),
        decreases names@.len() - i,
    {
        assert(nv[i as int] == match names@[i as int] {
            Some(s) => Some(s@),
            None => None::<Seq<char>>,
        });
        match &names[i] {
            Some(n) => {
                if chars_contain_sub(&str_chars(n.as_str()), &p) {
                    return Some(i);
                }
            },
            None => {},
        }
        i += 1;
    }
    None
}

/// How a run of the update tool ended.
#[derive(Clone, Debug, PartialEq, Eq)]
pub enum EvolveOutcome {
    /// It ran: whether it succeeded, its error text and its output.
    Ran { success: bool, error: Option<String>, output: String },
    /// It could not run: this error text.
    Failed(String),
}

/// What the update run reports in the chat, if anything: the failure, or
/// the output of a successful run that printed something.
pub fn evolve_report(outcome: &EvolveOutcome) -> (r: Option<String>)
    ensures
        match *outcome {
            EvolveOutcome::Ran { success, error, output } => if !success {
                match error {
                    Some(e) => r matches Some(m) && m@ == "Evolve failed: "@ + e@,
                    None => r matches Some(m) && m@ == "Evolve failed (unknown error)"@,
                }
            } else if output@.len() > 0 {
                r matches Some(m) && m@ == output@
            } else {
                r is None
            },
            EvolveOutcome::Failed(e) => r matches Some(m) && m@ == "Evolve error: "@ + e@,
        },
{
    match outcome {
        EvolveOutcome::Ran { success, error, output } => {
            if !*success {
                match error {
                    Some(e) => {
                        let mut out = str_chars("Evolve failed: ");
                        push_chars(&mut out, &str_chars(e.as_str()));
                        Some(string_from_chars(&out))
                    },
                    None => Some(string_from_chars(&str_chars("Evolve failed (unknown error)"))),
                }
            } else if str_chars(output.as_str()).len() > 0 {
                Some(output.clone())
            } else {
                None
            }
        },
        EvolveOutcome::Failed(e) => {
            let mut out = str_chars("Evolve error: ");
            push_chars(&mut out, &str_chars(e.as_str()));
            Some(string_from_chars(&out))
        },
    }
}

} // verus!
