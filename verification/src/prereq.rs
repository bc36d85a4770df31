//! Start-up prerequisites: git, bun and gbrain.
//!
//! A program whose path is known counts as available when its file exists; only git is probed
//! by running it. Version strings are display-only and come from [`PrereqCache`] when not
//! probed. Probing and file checks happen outside; this module assembles the report.
use vstd::prelude::*;
use crate::l10n::L10n;
use crate::text::{owned, push_str};

verus! {

/// Cached version strings.
#[derive(Debug, Clone, Default)]
pub struct PrereqCache {
    pub git: Option<String>,
    pub bun: Option<String>,
    pub gbrain: Option<String>,
}

/// One prerequisite in the report.
#[derive(Debug, Clone)]
pub struct DepStatus {
    pub name: String,
    pub available: bool,
    /// The version string; `None` while unknown.
    pub detail: Option<String>,
    pub install_hint: L10n,
    pub url: String,
}

pub open spec fn opt_view(o: Option<String>) -> Option<Seq<char>> {
    match o {
        Some(s) => Some(s@),
        None => None,
    }
}

fn dep(name: &str, available: bool, detail: Option<String>, hint: &str, url: &str) -> (r: DepStatus)
    ensures
        r.name@ == name@,
        r.available == available,
        r.detail == detail,
        r.install_hint@ == (hint@, Seq::<(Seq<char>, Seq<char>)>::empty()),
        r.url@ == url@,
{
    DepStatus { name: owned(name), available, detail, install_hint: L10n::new(hint), url: owned(url) }
}

fn or_cached(probe: Option<String>, cached: &Option<String>) -> (r: Option<String>)
    ensures
        opt_view(r) == (if probe is Some { opt_view(probe) } else { opt_view(*cached) }),
{
    match probe {
        Some(p) => Some(p),
        None => match cached {
            Some(c) => Some(owned(c.as_str())),
            None => None,
        },
    }
}

/// The prerequisite report: git is available when its probe answered (its version is the
/// probe's answer, else the cached one); bun and gbrain are available when their files exist,
/// with the cached versions.
pub fn check_all(
    git_probe: Option<String>,
    bun_exists: bool,
    gbrain_exists: bool,
    cache: &PrereqCache,
) -> (r: Vec<DepStatus>)
    ensures
        r@.len() == 3,
        r@[0].name@ == "git"@ && r@[0].available == (git_probe is Some) && opt_view(r@[0].detail)
            == (if git_probe is Some { opt_view(git_probe) } else { opt_view(cache.git) })
            && r@[0].install_hint@.0 == "prereq.git.hint"@ && r@[0].url@ == "https://git-scm.com/downloads"@,
        r@[1].name@ == "bun"@ && r@[1].available == bun_exists && opt_view(r@[1].detail) == opt_view(cache.bun)
            && r@[1].install_hint@.0 == "prereq.bun.hint"@
            && r@[1].url@ == "https://bun.com/docs/installation#installation"@,
        r@[2].name@ == "gbrain"@ && r@[2].available == gbrain_exists && opt_view(r@[2].detail)
            == opt_view(cache.gbrain) && r@[2].install_hint@.0 == "prereq.gbrain.hint"@
            && r@[2].url@ == "https://github.com/garrytan/gbrain#cli-standalone-no-agent"@,
{
    let git_ok = git_probe.is_some();
    let mut deps: Vec<DepStatus> = Vec::new();
    deps.push(dep("git", git_ok, or_cached(git_probe, &cache.git), "prereq.git.hint", "https://git-scm.com/downloads"));
    deps.push(dep("bun", bun_exists, or_cached(None, &cache.bun), "prereq.bun.hint", "https://bun.com/docs/installation#installation"));
    deps.push(dep("gbrain", gbrain_exists, or_cached(None, &cache.gbrain), "prereq.gbrain.hint", "https://github.com/garrytan/gbrain#cli-standalone-no-agent"));
    deps
}

/// The bun executable's file name on a platform.
pub fn bun_bin_name(windows: bool) -> (r: &'static str)
    ensures
        r@ == (if windows { "bun.exe"@ } else { "bun"@ }),
{
    if windows { "bun.exe" } else { "bun" }
}

/// The gbrain executable's file name on a platform.
pub fn gbrain_bin_name(windows: bool) -> (r: &'static str)
    ensures
        r@ == (if windows { "gbrain.exe"@ } else { "gbrain"@ }),
{
    if windows { "gbrain.exe" } else { "gbrain" }
}

/// The first line of a probe's output, trimmed.
pub fn probe_line(out: &str) -> (r: String)
    ensures
        r@ == crate::text::trim_spec(crate::text::first_line_spec(out@)),
{
    let l = crate::text::first_line(out);
    crate::text::trim(l.as_str())
}


/// The gbrain executable to ask for its version: the configured one when it exists, else the one
/// beside bun when that exists, else none.
pub fn gbrain_probe_target(
    gbrain_exe: &str,
    exe_exists: bool,
    beside_bun: Option<String>,
    beside_exists: bool,
) -> (r: Option<String>)
    ensures
        exe_exists ==> (r matches Some(x) && x@ == gbrain_exe@),
        !exe_exists ==> match beside_bun {
            Some(b) => if beside_exists { r matches Some(x) && x@ == b@ } else { r is None },
            None => r is None,
        },
{
    if exe_exists {
        Some(owned(gbrain_exe))
    } else {
        match beside_bun {
            Some(b) => if beside_exists { Some(b) } else { None },
            None => None,
        }
    }
}

/// The refreshed version cache: what each probe answered (`None` when it did not).
pub fn refresh_details(git: Option<String>, bun: Option<String>, gbrain: Option<String>) -> (r: PrereqCache)
    ensures
        opt_view(r.git) == opt_view(git),
        opt_view(r.bun) == opt_view(bun),
        opt_view(r.gbrain) == opt_view(gbrain),
{
    PrereqCache { git, bun, gbrain }
}

} // verus!
