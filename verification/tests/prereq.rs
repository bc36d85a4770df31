use operoid::prereq::{gbrain_probe_target, refresh_details};
use operoid::prereq::{bun_bin_name, check_all, gbrain_bin_name, probe_line, PrereqCache};

#[test]
fn fast_check_uses_cache_without_spawn() {
    let cache = PrereqCache { git: None, bun: Some("1.2.3".into()), gbrain: Some("0.46.0".into()) };
    // "/nonexistent/gbrain" does not exist; git answered its probe.
    let deps = check_all(Some("git version 2.43.0".to_string()), false, false, &cache);
    let bun = deps.iter().find(|d| d.name == "bun").unwrap();
    assert_eq!(bun.detail.as_deref(), Some("1.2.3"));
    let gbrain = deps.iter().find(|d| d.name == "gbrain").unwrap();
    assert!(!gbrain.available);
    assert_eq!(gbrain.detail.as_deref(), Some("0.46.0"));
    let git = deps.iter().find(|d| d.name == "git").unwrap();
    assert!(git.available);
    assert!(git.detail.is_some());
}

#[test]
fn git_falls_back_to_cached_version_when_probe_fails() {
    let cache = PrereqCache { git: Some("git version 2.0".into()), bun: None, gbrain: None };
    let deps = check_all(None, true, true, &cache);
    assert_eq!(deps.len(), 3);
    assert!(!deps[0].available);
    assert_eq!(deps[0].detail.as_deref(), Some("git version 2.0"));
    assert!(deps[1].available && deps[1].detail.is_none());
    assert!(deps[2].available && deps[2].detail.is_none());
    assert_eq!(deps[2].url, "https://github.com/garrytan/gbrain#cli-standalone-no-agent");
}

#[test]
fn bin_names_and_probe_line() {
    assert_eq!(bun_bin_name(true), "bun.exe");
    assert_eq!(bun_bin_name(false), "bun");
    assert_eq!(gbrain_bin_name(true), "gbrain.exe");
    assert_eq!(probe_line("  1.2.3  \nmore\n"), "1.2.3");
    assert_eq!(probe_line(""), "");
}

#[test]
fn refresh_probes_the_right_gbrain() {
    assert_eq!(gbrain_probe_target("/g", true, Some("/b/gbrain".into()), true).as_deref(), Some("/g"));
    assert_eq!(gbrain_probe_target("/g", false, Some("/b/gbrain".into()), true).as_deref(), Some("/b/gbrain"));
    assert!(gbrain_probe_target("/g", false, Some("/b/gbrain".into()), false).is_none());
    assert!(gbrain_probe_target("/g", false, None, true).is_none());
    let c = refresh_details(Some("git version 2".into()), None, Some("0.46.0".into()));
    assert_eq!(c.git.as_deref(), Some("git version 2"));
    assert!(c.bun.is_none());
    assert_eq!(c.gbrain.as_deref(), Some("0.46.0"));
}
