use operoid::app_config::AppConfig;
use operoid::companies::{CompaniesImport, CompanyPage};
use operoid::contract::EventKind;
use operoid::factories::{
    authored_event, authored_slug, emit_factory_events, extract_companies_core, file_err, has_text_input,
    inbox_result, is_frozen, no_api_key, own_dir, people_input_of, people_result, raw_source, removable,
    run_kind, target_dir_of, textual_dir, textual_result, untitled_fallback, write_pages_core, Capture,
    Conversion, FileRun, InboxRun, PageWrite, PeopleInput, PreviewPage, RawSource, RunKind, WritePage,
};

fn pp(slug: &str, dir: &str, name: &str) -> PreviewPage {
    PreviewPage { slug: slug.into(), target_dir: dir.into(), name: name.into(), markdown: format!("# {name}\n") }
}

#[test]
fn factory_directories() {
    assert_eq!(target_dir_of("people").unwrap(), "people");
    assert_eq!(target_dir_of("meeting").unwrap(), "meetings");
    assert_eq!(target_dir_of("inbox").unwrap(), "inbox");
    let e = target_dir_of("nope").unwrap_err();
    assert_eq!(e.code(), "factory.unknown");
    assert_eq!(e.msg.params, vec![("factory".to_string(), "nope".to_string())]);
    assert_eq!(textual_dir("companies"), "companies");
    assert_eq!(textual_dir("meeting"), "meetings");
    assert_eq!(textual_dir("whatever"), "concepts");
    assert_eq!(own_dir("meeting"), "meetings");
    assert_eq!(own_dir("inbox"), "");
    assert!(run_kind("people").unwrap() == RunKind::People);
    assert!(run_kind("projects").unwrap() == RunKind::Textual);
    assert!(run_kind("inbox").unwrap() == RunKind::Inbox);
    assert_eq!(run_kind("x").unwrap_err().code(), "factory.unknown");
}

#[test]
fn inputs_are_routed_by_extension() {
    assert!(people_input_of(Some("CSV".into())) == PeopleInput::Csv);
    assert!(people_input_of(Some("Md".into())) == PeopleInput::Text);
    assert!(people_input_of(Some("pdf".into())) == PeopleInput::Unsupported);
    assert!(people_input_of(None) == PeopleInput::Unsupported);
    assert!(has_text_input(&vec![Some("csv".into()), Some("TXT".into())]));
    assert!(!has_text_input(&vec![Some("csv".into()), None]));
    assert!(raw_source(Some("Markdown".into())).unwrap() == RawSource::Text);
    assert!(raw_source(Some("PDF".into())).unwrap() == RawSource::Pdf);
    assert_eq!(
        raw_source(Some("DOCX".into())).unwrap_err(),
        "不支援的副檔名：docx（people=csv；companies/meeting/projects/concepts=txt,md,pdf）"
    );
    assert_eq!(
        raw_source(None).unwrap_err(),
        "不支援的副檔名：（people=csv；companies/meeting/projects/concepts=txt,md,pdf）"
    );
}

#[test]
fn missing_api_key_is_refused_except_for_ollama() {
    let e = no_api_key(false, "openai", Some("OPENAI_API_KEY")).unwrap();
    assert_eq!(e.code(), "llm.noApiKey");
    assert_eq!(
        e.msg.params,
        vec![("provider".to_string(), "openai".to_string()), ("envKey".to_string(), "OPENAI_API_KEY".to_string())]
    );
    assert_eq!(no_api_key(false, "custom", None).unwrap().msg.params[1].1, "?");
    assert!(no_api_key(false, "ollama", None).is_none());
    assert!(no_api_key(true, "openai", None).is_none());
}

#[test]
fn people_run_lists_files_writes_and_errors_in_order() {
    let files = vec![
        FileRun {
            path: "a.csv".into(),
            conversion: Conversion::Pages(vec![pp("amy", "people", "Amy"), pp("bo", "people", "Bo")]),
            writes: vec![Ok("/n/people/amy.md".into()), Err("disk full".into())],
        },
        FileRun { path: "b.docx".into(), conversion: Conversion::Unsupported, writes: vec![] },
        FileRun { path: "c.txt".into(), conversion: Conversion::Failed("timeout".into()), writes: vec![] },
    ];
    let r = people_result(&files, 5, 1);
    assert_eq!(r.factory, "people");
    assert_eq!(r.total, 2);
    assert_eq!(r.sample.len(), 2);
    assert_eq!(r.written, vec!["/n/people/amy.md".to_string()]);
    assert_eq!(r.errors.len(), 3);
    assert_eq!(r.errors[0].key, "factory.fileError");
    assert_eq!(r.errors[0].params[0].1, "people/bo");
    assert_eq!(r.errors[0].params[1].1, "disk full");
    assert_eq!(r.errors[1].key, "factory.csvOnly");
    assert_eq!(r.errors[1].params, vec![("file".to_string(), "b.docx".to_string())]);
    assert_eq!(r.errors[2].params[1].1, "timeout");
    assert!(r.files[0].ok && r.files[0].message.is_none() && r.files[0].pages.len() == 2);
    assert!(!r.files[1].ok && r.files[1].pages.is_empty());
    assert_eq!(r.summary.key, "factory.peopleSummary");
    assert_eq!(
        r.summary.params,
        vec![
            ("rows".to_string(), "5".to_string()),
            ("merged".to_string(), "1".to_string()),
            ("written".to_string(), "1".to_string())
        ]
    );
    let r0 = people_result(&vec![], 0, 0);
    assert_eq!(r0.summary.key, "factory.writtenN");
    assert_eq!(r0.summary.params[1], ("n".to_string(), "0".to_string()));
}

#[test]
fn sample_holds_the_first_ten_pages() {
    let pages: Vec<PreviewPage> = (0..12).map(|i| pp(&format!("p{i}"), "people", "X")).collect();
    let writes = (0..12).map(|i| Ok(format!("/n/p{i}.md"))).collect();
    let r = people_result(&vec![FileRun { path: "x.csv".into(), conversion: Conversion::Pages(pages), writes }], 12, 0);
    assert_eq!(r.total, 12);
    assert_eq!(r.sample.len(), 10);
    assert_eq!(r.sample[9].slug, "p9");
    assert_eq!(r.written.len(), 12);
}

#[test]
fn textual_run_marks_unwritten_pages_as_failed() {
    let files = vec![
        FileRun {
            path: "m1.txt".into(),
            conversion: Conversion::Pages(vec![pp("standup", "meetings", "Standup")]),
            writes: vec![Err("denied".into())],
        },
        FileRun {
            path: "m2.md".into(),
            conversion: Conversion::Pages(vec![pp("retro", "meetings", "Retro")]),
            writes: vec![Ok("/n/meetings/retro.md".into())],
        },
        FileRun { path: "m3.docx".into(), conversion: Conversion::Failed("不支援".into()), writes: vec![] },
    ];
    let r = textual_result("meeting", &files);
    assert_eq!(r.factory, "meeting");
    assert!(!r.files[0].ok);
    assert_eq!(r.files[0].message.as_ref().unwrap().params[0].1, "meetings/standup");
    assert_eq!(r.files[0].pages.len(), 1);
    assert!(r.files[1].ok && r.files[1].message.is_none());
    assert!(!r.files[2].ok && r.files[2].pages.is_empty());
    assert_eq!(r.total, 2);
    assert_eq!(r.written, vec!["/n/meetings/retro.md".to_string()]);
    assert_eq!(r.errors.len(), 2);
    assert_eq!(r.summary.key, "factory.writtenN");
    assert_eq!(
        r.summary.params,
        vec![("factory".to_string(), "meeting".to_string()), ("n".to_string(), "1".to_string())]
    );
}

#[test]
fn inbox_run_uses_printed_slug_or_path() {
    let runs = vec![
        InboxRun { path: "/d/a.txt".into(), capture: Capture::Captured("  inbox/a-note \n".into()) },
        InboxRun { path: "/d/b.txt".into(), capture: Capture::Captured("".into()) },
        InboxRun { path: "/d/c.txt".into(), capture: Capture::Refused(" bad file \n".into()) },
        InboxRun { path: "/d/d.txt".into(), capture: Capture::NotStarted("no gbrain".into()) },
    ];
    let names = vec![Some("a.txt".to_string()), None, Some("c.txt".to_string()), Some("d.txt".to_string())];
    let r = inbox_result(&runs, &names);
    assert_eq!(r.factory, "inbox");
    assert_eq!(r.written, vec!["inbox/a-note".to_string(), "/d/b.txt".to_string()]);
    assert_eq!(r.total, 2);
    assert_eq!(r.sample.len(), 2);
    assert_eq!(r.sample[0].target_dir, "inbox/");
    assert_eq!(r.sample[0].name, "a.txt");
    assert_eq!(r.sample[1].name, "note");
    assert_eq!(r.sample[1].slug, "");
    assert_eq!(r.errors[0].params[1].1, "bad file");
    assert_eq!(r.errors[1].params[1].1, "no gbrain");
    assert_eq!(r.summary.key, "factory.inboxCaptured");
    assert!(r.files.is_empty());
}

#[test]
fn edited_pages_write_result() {
    let pages = vec![
        WritePage { slug: "a".into(), target_dir: "people".into(), markdown: "x".into() },
        WritePage { slug: "b".into(), target_dir: "companies".into(), markdown: "y".into() },
    ];
    let r = write_pages_core(&pages, &vec![Ok("/n/people/a.md".into()), Err("locked".into())]);
    assert_eq!(r.written, vec!["/n/people/a.md".to_string()]);
    assert_eq!(r.errors.len(), 1);
    assert_eq!(r.errors[0].params[0].1, "companies/b");
    assert!(r.note.is_none());
    let m = file_err("f", "d");
    assert_eq!(m.key, "factory.fileError");
}

#[test]
fn factory_events_follow_the_review_switch() {
    let mut cfg = AppConfig::default();
    cfg.active_brain_id = Some("demo".into());
    let long: String = "字".repeat(900);
    let pages = vec![WritePage { slug: "acme".into(), target_dir: "companies".into(), markdown: long }];
    cfg.event_review_enabled = false;
    assert!(emit_factory_events(&cfg, &pages).is_empty());
    assert!(authored_event(&cfg, "acme", "companies", "x").is_none());
    cfg.event_review_enabled = true;
    let ev = emit_factory_events(&cfg, &pages);
    assert_eq!(ev.len(), 1);
    assert!(ev[0].kind == EventKind::FactoryWritten);
    assert_eq!(ev[0].source, "factory");
    assert_eq!(ev[0].brain_id.as_deref(), Some("demo"));
    assert_eq!(ev[0].title, "acme");
    assert_eq!(ev[0].content.chars().count(), 800);
    assert_eq!(ev[0].category.as_deref(), Some("companies"));
    assert!(ev[0].employee_id.is_none() && ev[0].reply_to.is_none());
    assert_eq!(authored_event(&cfg, "n", "concepts", "short").unwrap().content, "short");
}

#[test]
fn company_rebuild_counts_frozen_and_removed() {
    let imp = CompaniesImport {
        people_read: 4,
        people_with_org: 3,
        distinct: 3,
        total_links: 5,
        pages: vec![
            CompanyPage { slug: "acme".into(), name: "Acme".into(), markdown: "m".into() },
            CompanyPage { slug: "beta".into(), name: "Beta".into(), markdown: "m".into() },
            CompanyPage { slug: "gamma".into(), name: "Gamma".into(), markdown: "m".into() },
        ],
    };
    assert!(is_frozen(&Some("---\nenriched: true\n---\n".into())));
    assert!(!is_frozen(&None));
    assert!(removable("old", &imp.pages, &Some("# Old\n".into())));
    assert!(!removable("old", &imp.pages, &Some("<!-- enriched -->".into())));
    assert!(!removable("beta", &imp.pages, &None));
    let files = vec!["/c/acme.md".to_string(), "/c/beta.md".to_string(), "/c/gamma.md".to_string()];
    let writes = vec![PageWrite::Frozen, PageWrite::Written, PageWrite::Failed("denied".into())];
    let r = extract_companies_core(&imp, &files, &writes, true, 2);
    assert_eq!(r.written, vec!["/c/beta.md".to_string()]);
    assert_eq!(r.errors[0].params, vec![
        ("file".to_string(), "/c/gamma.md".to_string()),
        ("detail".to_string(), "denied".to_string())
    ]);
    let n = r.note.unwrap();
    assert_eq!(n.key, "factory.companiesRebuiltClean");
    assert_eq!(n.params[3], ("frozen".to_string(), "1".to_string()));
    assert_eq!(n.params[4], ("removed".to_string(), "2".to_string()));
    let r2 = extract_companies_core(&imp, &files, &writes, false, 0);
    let n2 = r2.note.unwrap();
    assert_eq!(n2.key, "factory.companiesRebuilt");
    assert_eq!(n2.params.len(), 4);
    assert_eq!(n2.params[0], ("people".to_string(), "4".to_string()));
}

#[test]
fn hand_written_page_naming() {
    assert_eq!(untitled_fallback("concepts//"), "untitled-concepts");
    assert_eq!(untitled_fallback("inbox"), "untitled-inbox");
    assert_eq!(authored_slug(Some("kept"), "Title", "title"), ("kept".to_string(), false));
    assert_eq!(authored_slug(Some(""), "Title", "title"), ("title".to_string(), false));
    assert_eq!(authored_slug(None, "   ", "untitled-concepts"), ("untitled-concepts".to_string(), true));
}

#[test]
fn extensions_follow_the_file_name() {
    let paths = vec![
        "/home/u/a.CSV".to_string(),
        "C:\\x\\b.md".to_string(),
        "notes".to_string(),
        ".bashrc".to_string(),
        "a.tar.gz".to_string(),
    ];
    assert_eq!(
        operoid::factories::extensions(&paths),
        vec![Some("CSV".to_string()), Some("md".to_string()), None, None, Some("gz".to_string())]
    );
}
