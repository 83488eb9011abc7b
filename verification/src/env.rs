//! The engine's few reads of the host environment: the clock for fresh task
//! identifiers and the platform's standard directories. Each outside call
//! sits behind one trusted wrapper; everything done with the values is
//! verified.

use vstd::prelude::*;

use crate::config::{choose_download_directory, spec_choose_dir, spec_parse_config};
use crate::task::spec_join_path;

verus! {

/// The view of an optional file content.
pub open spec fn content_view(c: Option<String>) -> Option<Seq<char>> {
    match c {
        Some(s) => Some(s@),
        None => None,
    }
}

/// Relies on chrono's `Utc::now().timestamp_millis()`: the current time as
/// milliseconds since the Unix epoch. Nothing can be promised of a clock
/// reading; chrono aborts when the system clock is before the epoch.
#[verifier::external_body]
fn now_timestamp_millis() -> (r: i64) {
    chrono::Utc::now().timestamp_millis()
}

/// Relies on `dirs::config_dir`: the platform's configuration directory,
/// when the platform defines one. The path depends on the host environment,
/// so nothing is promised of the value.
#[verifier::external_body]
fn os_config_dir() -> (r: Option<String>) {
    dirs::config_dir().map(|p| p.to_string_lossy().to_string())
}

/// Relies on `dirs::download_dir`: the platform's download directory, when
/// the platform defines one. The path depends on the host environment, so
/// nothing is promised of the value.
#[verifier::external_body]
fn os_download_dir() -> (r: Option<String>) {
    dirs::download_dir().map(|p| p.to_string_lossy().to_string())
}

/// The clock reading used for fresh identifiers, clamped to zero for a clock
/// that reads before the epoch.
pub fn current_millis() -> (r: u64) {
    let t = now_timestamp_millis();
    if t < 0 {
        0
    } else {
        t as u64
    }
}

/// Resolves the download directory: the configured path when the given file
/// content parses, else the host's download directory, else `./downloads`.
/// Whatever directory the host reports, a parsed configuration wins.
pub fn host_download_directory(config_content: Option<String>) -> (r: String)
    ensures
        (match content_view(config_content) {
            Some(s) => match spec_parse_config(s) {
                Some(p) => r@ == p,
                None => true,
            },
            None => true,
        }),
        exists|os: Option<Seq<char>>|
            r@ == #[trigger] spec_choose_dir(content_view(config_content), os),
{
    let os = os_download_dir();
    let ghost os_view: Option<Seq<char>> = match &os {
        Some(d) => Some(d@),
        None => None,
    };
    let passed: Option<String> = match &config_content {
        Some(s) => Some(s.clone()),
        None => None,
    };
    let ghost cv: Option<Seq<char>> = match &config_content {
        Some(s) => Some(s@),
        None => None,
    };
    proof {
        assert(cv == (match passed {
            Some(s) => Some(s@),
            None => None,
        }));
    }
    let r = choose_download_directory(passed, os);
    proof {
        assert(cv == content_view(config_content));
        assert(r@ == spec_choose_dir(content_view(config_content), os_view));
    }
    r
}

/// The configuration file's location under the host's configuration
/// directory, when the host defines one.
pub fn host_config_file_path() -> (r: Option<String>)
    ensures
        r matches Some(p) ==> exists|d: Seq<char>|
            p@ == #[trigger] spec_join_path(
                spec_join_path(d, "OpenStore"@),
                "download_config.json"@,
            ),
{
    match os_config_dir() {
        Some(d) => {
            let p = crate::config::config_file_path(d.as_str());
            proof {
                assert(p@ == spec_join_path(
                    spec_join_path(d@, "OpenStore"@),
                    "download_config.json"@,
                ));
            }
            Some(p)
        },
        None => None,
    }
}

} // verus!
