use operoid::app_config::{
    brain_entry, brain_id_from_home, AppConfig, BrainEntry, DEFAULT_BRAIN_ID,
};

#[test]
fn defaults_seed_default_brain_and_active() {
    let c = AppConfig::default();
    assert!(c.brains.iter().any(|b| b.is_default()));
    assert_eq!(c.active_brain_id.as_deref(), Some(DEFAULT_BRAIN_ID));
    assert!(c.gbrain_home_override.is_none());
}

#[test]
fn migrates_override_into_registry() {
    let mut c = AppConfig::default();
    c.brains.clear();
    c.active_brain_id = None;
    c.gbrain_home_override = Some("C:/tmp/mybrain".into());
    c.normalize();
    assert!(c.brains.iter().any(|b| b.is_default()));
    let mine = c
        .brains
        .iter()
        .find(|b| b.gbrain_home.as_deref() == Some("C:/tmp/mybrain"))
        .unwrap();
    assert_eq!(c.active_brain_id.as_deref(), Some(mine.id.as_str()));
    assert_eq!(mine.id, "mybrain");
    assert!(c.gbrain_home_override.is_none());
}

#[test]
fn migration_is_idempotent() {
    let mut c = AppConfig::default();
    c.brains.clear();
    c.active_brain_id = None;
    c.gbrain_home_override = Some("C:/tmp/idem".into());
    c.normalize();
    let n = c.brains.len();
    let active = c.active_brain_id.clone();
    c.normalize();
    assert_eq!(c.brains.len(), n);
    assert_eq!(c.active_brain_id, active);
}

#[test]
fn active_brain_resolves() {
    let mut c = AppConfig::default();
    c.brains = vec![
        BrainEntry::default_brain(),
        BrainEntry {
            id: "demo".into(),
            name: "demo".into(),
            gbrain_home: Some("C:/demo".into()),
        },
    ];
    c.active_brain_id = Some("demo".into());
    assert_eq!(c.active_brain().unwrap().id, "demo");
    assert_eq!(c.active_env_home(), Some("C:/demo"));
    c.active_brain_id = Some(DEFAULT_BRAIN_ID.into());
    assert_eq!(c.active_env_home(), None);
}

#[test]
fn dot_gbrain_path() {
    let iso = BrainEntry {
        id: "x".into(),
        name: "x".into(),
        gbrain_home: Some("C:/parent".into()),
    };
    assert!(iso.dot_gbrain_path().ends_with(".gbrain"));
    assert!(iso.dot_gbrain_path().contains("parent"));
}

#[test]
fn unsupported_locale_and_dangling_active_are_repaired() {
    let mut c = AppConfig::default();
    c.locale = Some("fr".into());
    c.active_brain_id = Some("gone".into());
    c.brains = vec![BrainEntry { id: "a".into(), name: "a".into(), gbrain_home: Some("/a".into()) }];
    c.normalize();
    assert_eq!(c.locale, None);
    assert_eq!(c.active_brain_id.as_deref(), Some(DEFAULT_BRAIN_ID));
    assert_eq!(c.brains.len(), 2);
    assert!(c.brains[1].is_default());
    let mut d = AppConfig::default();
    d.locale = Some("en".into());
    d.normalize();
    assert_eq!(d.locale.as_deref(), Some("en"));
}

#[test]
fn brain_ids_from_homes() {
    assert_eq!(brain_id_from_home("  C:/Users/Me/My Brain  "), "brain");
    assert_eq!(brain_id_from_home("/home/me/Work_Notes"), "work_notes");
    assert_eq!(brain_id_from_home("C:\\tmp\\mybrain"), "mybrain");
    assert_eq!(brain_id_from_home("///"), "brain");
}

#[test]
fn defaults_follow_platform() {
    let w = AppConfig::defaults_for("C:\\Users\\me", true);
    assert_eq!(w.gbrain_exe_path, "C:\\Users\\me\\.bun\\bin\\gbrain.exe");
    let u = AppConfig::defaults_for("/home/me", false);
    assert_eq!(u.gbrain_exe_path, "/home/me/.bun/bin/gbrain");
    assert_eq!(u.notes_repo_path, "/home/me/notes");
    assert_eq!(f64::from_bits(u.llm_temperature_bits), 0.2);
    assert_eq!(u.server_port, 7340);
}

#[test]
fn brain_entry_lookup() {
    let c = AppConfig::default();
    assert!(brain_entry(&c, DEFAULT_BRAIN_ID).unwrap().is_default());
    let e = brain_entry(&c, "nope").unwrap_err();
    assert_eq!(e.code(), "brain.notFound");
}

#[test]
fn override_is_absorbed_for_the_given_home() {
    // Without a known home the override is always registered and made active.
    let mut c = AppConfig::default();
    c.gbrain_home_override = Some("  /srv/teambrain ".into());
    c.absorb_override_for(None);
    let b = c.brains.iter().find(|b| b.gbrain_home.as_deref() == Some("/srv/teambrain")).unwrap();
    assert_eq!(b.id, "teambrain");
    assert_eq!(c.active_brain_id.as_deref(), Some("teambrain"));
    assert!(c.gbrain_home_override.is_none());

    // An override that is the user's home is the default brain: nothing is registered.
    let mut c = AppConfig::default();
    let before = c.brains.len();
    c.gbrain_home_override = Some("/home/u".into());
    c.absorb_override_for(Some("/home/u".into()));
    assert_eq!(c.brains.len(), before);
    assert_eq!(c.active_brain_id.as_deref(), Some(DEFAULT_BRAIN_ID));
    assert!(c.gbrain_home_override.is_none());

    // Another home does not stop it.
    let mut c = AppConfig::default();
    c.gbrain_home_override = Some("/srv/other".into());
    c.absorb_override_for(Some("/home/u".into()));
    assert_eq!(c.active_brain_id.as_deref(), Some("other"));
}
