use operoid::factory_types::active_pack;
use operoid::factory_types::{
    legacy_pack, normalize_page_type, pack_for, type_infos, v2_hint, v2_pack, Pipeline,
};

#[test]
fn v2_pack_has_15_types() {
    assert_eq!(v2_pack().types.len(), 15);
    assert_eq!(v2_pack().catchall_id(), "note");
    assert_eq!(legacy_pack().types.len(), 6);
    assert_eq!(legacy_pack().catchall_id(), "inbox");
}

#[test]
fn pack_for_fallbacks() {
    assert_eq!(pack_for(None).name, "gbrain-base-v2");
    assert_eq!(pack_for(Some("gbrain-base-v2")).name, "gbrain-base-v2");
    assert_eq!(pack_for(Some("gbrain-base")).name, "gbrain-base");
    assert_eq!(pack_for(Some("custom-pack")).name, "gbrain-base-v2");
}

#[test]
fn normalize_synonyms() {
    let v2 = v2_pack();
    let legacy = legacy_pack();
    assert_eq!(v2.normalize("People"), "person");
    assert_eq!(v2.normalize("COMPANY"), "company");
    assert_eq!(legacy.normalize("會議"), "meeting");
    assert_eq!(v2.normalize("會議"), "note");
    assert_eq!(v2.normalize("Concept"), "concept");
    assert_eq!(v2.normalize("專案"), "project");
    assert_eq!(v2.normalize("inbox"), "note");
    assert_eq!(v2.normalize("agenda"), "note");
    assert_eq!(legacy.normalize("person"), "people");
    assert_eq!(legacy.normalize("筆記"), "inbox");
}

#[test]
fn kind_lookup_covers_heuristic_kinds() {
    let v2 = v2_pack();
    let legacy = legacy_pack();
    for kind in ["people", "company", "projects"] {
        assert!(v2.id_of_kind(kind).is_some(), "v2 lacks {kind}");
        assert!(legacy.id_of_kind(kind).is_some(), "legacy lacks {kind}");
    }
    assert!(legacy.id_of_kind("meeting").is_some());
    assert_eq!(v2.id_of_kind("meeting"), None);
    assert_eq!(v2.id_of_kind("people"), Some("person"));
    assert_eq!(legacy.id_of_kind("meeting"), Some("meeting"));
    assert_eq!(v2.id_of_kind("nope"), None);
}

#[test]
fn spec_lookup_and_capture() {
    let v2 = v2_pack();
    let legacy = legacy_pack();
    assert_eq!(v2.spec("person").unwrap().dir, "person");
    assert!(v2.spec("note").unwrap().is_capture());
    assert!(v2.spec("people").is_err(), "v2 has no legacy id");
    assert!(legacy.spec("meeting").unwrap().dir == "meetings");
}

#[test]
fn v2_hint_only_for_non_v2() {
    assert!(v2_hint(Some("gbrain-base")).is_some());
    assert!(v2_hint(Some("gbrain-base-v2")).is_none());
    assert!(v2_hint(None).is_none());
}

#[test]
fn unknown_factory_error_names_the_id() {
    let e = v2_pack().spec("people").unwrap_err();
    assert_eq!(e.code(), "factory.unknown");
    assert_eq!(e.msg.params, vec![("factory".to_string(), "people".to_string())]);
}

#[test]
fn v2_hint_carries_pack_name() {
    let h = v2_hint(Some("gbrain-base")).unwrap();
    assert_eq!(h.key, "factories.v2Hint");
    assert_eq!(h.params, vec![("pack".to_string(), "gbrain-base".to_string())]);
}

#[test]
fn prompt_lines_enumerate_types() {
    let lines = legacy_pack().prompt_lines();
    let v: Vec<&str> = lines.split('\n').collect();
    assert_eq!(v.len(), 6);
    assert_eq!(v[0], "- people：聯絡人/通訊錄/名片/個人資料");
    assert_eq!(v[5], "- inbox：其他一般筆記");
}

#[test]
fn normalize_trims_before_matching() {
    assert_eq!(v2_pack().normalize("  Tweets \n"), "tweet");
}

#[test]
fn page_type_defaults_when_blank() {
    let v2 = v2_pack();
    let spec = v2.spec("person").unwrap();
    assert_eq!(normalize_page_type(&v2, spec, "   "), "person");
    assert_eq!(normalize_page_type(&v2, spec, "  concept "), "concept");
}

#[test]
fn page_type_outside_the_pack_falls_back() {
    let v2 = v2_pack();
    let company = v2.spec("company").unwrap();
    assert_eq!(normalize_page_type(&v2, company, " meeting "), "company");
    assert_eq!(normalize_page_type(&v2, company, "  "), "company");
    assert_eq!(normalize_page_type(&v2, company, "person"), "person");
    let legacy = legacy_pack();
    let meeting = legacy.spec("meeting").unwrap();
    assert_eq!(normalize_page_type(&legacy, meeting, " meeting "), "meeting");
    assert_eq!(normalize_page_type(&legacy, meeting, "tweet"), "meeting");
}

#[test]
fn only_canonical_kinds_map_to_an_id() {
    for p in [v2_pack(), legacy_pack()] {
        assert_eq!(p.id_of_kind(""), None);
        assert_eq!(p.id_of_kind("nope"), None);
        assert!(p.id_of_kind("company").is_some());
    }
    assert_eq!(v2_pack().id_of_kind("projects"), Some("project"));
    assert_eq!(legacy_pack().id_of_kind("projects"), Some("projects"));
}

#[test]
fn pack_tables_hold_every_field() {
    let v2 = v2_pack();
    let person = v2.spec("person").unwrap();
    assert_eq!(person.default_tags, vec!["person", "contact"]);
    assert_eq!(person.synonyms, vec!["people", "person", "contact", "聯絡人", "联络人", "人物"]);
    assert_eq!(person.heuristic_kind, "people");
    assert_eq!(v2.spec("media").unwrap().zh, "媒體報導/報導文章/新聞剪報");
    let legacy = legacy_pack();
    let meeting = legacy.spec("meeting").unwrap();
    assert_eq!(meeting.page_type, "meeting");
    assert_eq!(meeting.synonyms, vec!["meeting", "meetings", "會議", "会议"]);
    assert_eq!(legacy.spec("inbox").unwrap().page_type, "note");
}

#[test]
fn type_infos_follow_pack_order() {
    let infos = type_infos(&legacy_pack());
    assert_eq!(infos.len(), 6);
    assert_eq!(infos[2].id, "meeting");
    assert_eq!(infos[2].dir, "meetings");
    assert_eq!(infos[0].extensions, vec!["csv", "txt", "md"]);
    assert_eq!(infos[5].pipeline, Pipeline::Capture);
    assert_eq!(Pipeline::Textual.extensions(), vec!["txt", "md", "pdf"]);
}

#[test]
fn active_pack_follows_schema_pack() {
    let (p, n) = active_pack(Some("gbrain-base".to_string()));
    assert_eq!(p.name, "gbrain-base");
    assert_eq!(n.as_deref(), Some("gbrain-base"));
    let (p, n) = active_pack(None);
    assert_eq!(p.name, "gbrain-base-v2");
    assert!(n.is_none());
    assert_eq!(active_pack(Some("my-v2-pack".to_string())).0.name, "gbrain-base-v2");
}
