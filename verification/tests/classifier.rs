use operoid::classifier::{
    cap, classify_csv, classify_prompt, heuristic, llm_classification, no_llm_fallback, reader_for,
    sample, text_verdict, verdict, ClassifySource, Confidence, LlmOutcome, LlmVerdict, Reader,
    Verdict,
};
use operoid::factory_types::{legacy_pack, v2_pack};

fn done(v: Verdict) -> operoid::classifier::FileClassification {
    match v {
        Verdict::Done(c) => c,
        Verdict::Llm(_) => panic!("expected a decided verdict"),
    }
}

#[test]
fn csv_contacts_header_is_people_high() {
    let body = "Name,Given Name,Phone 1 - Value,E-mail 1 - Value\nAlice,Alice,0911,a@b.c\n";
    let c = classify_csv(&v2_pack(), "c.csv", Some(body));
    assert_eq!(c.factory, "person");
    assert_eq!(c.confidence, Confidence::High);
    let c2 = classify_csv(&legacy_pack(), "c.csv", Some(body));
    assert_eq!(c2.factory, "people");
}

#[test]
fn csv_non_contact_header_is_not_high() {
    let c = classify_csv(&v2_pack(), "s.csv", Some("month,revenue,region\n1,100,TW\n"));
    assert_eq!(c.factory, "person");
    assert_ne!(c.confidence, Confidence::High);
}

#[test]
fn meeting_text_detected_by_heuristic() {
    let body = "產品周會 會議記錄\n出席者：甲、乙\n議程：檢視進度";
    let c = done(verdict(&legacy_pack(), "m.txt", Some("txt"), Some(body.to_string()), true));
    assert_eq!(c.factory, "meeting");
    assert_eq!(c.confidence, Confidence::High);
    assert_eq!(c.source, ClassifySource::Heuristic);
    assert!(matches!(
        verdict(&v2_pack(), "m.txt", Some("txt"), Some(body.to_string()), true),
        Verdict::Llm(_)
    ));
}

#[test]
fn company_text_detected_by_heuristic() {
    let body = "晶瀚半導體 公司簡介\n統一編號 12345\n資本額 10億";
    let c = done(verdict(&v2_pack(), "co.txt", Some("txt"), Some(body.to_string()), true));
    assert_eq!(c.factory, "company");
    let c = done(verdict(&legacy_pack(), "co.txt", Some("txt"), Some(body.to_string()), true));
    assert_eq!(c.factory, "companies");
}

#[test]
fn heuristic_without_endpoint_downgrades_to_low() {
    let body = "產品周會 會議記錄\n出席者：甲、乙";
    let c = done(verdict(&legacy_pack(), "m2.txt", Some("txt"), Some(body.to_string()), false));
    assert_eq!(c.factory, "meeting");
    assert_eq!(c.confidence, Confidence::Low);
    assert_eq!(c.reason, "偵測到會議特徵（執行需 LLM，未設 API key）");
}

#[test]
fn ambiguous_text_escalates_to_llm() {
    let body = "今天天氣不錯，我們去散步，順便聊了一下未來的計畫。";
    match verdict(&v2_pack(), "p.txt", Some("txt"), Some(body.to_string()), true) {
        Verdict::Llm(s) => assert_eq!(s, body),
        Verdict::Done(_) => panic!("ambiguous text goes to the LLM"),
    }
}

#[test]
fn no_endpoint_fallback_is_low_catchall() {
    let c = no_llm_fallback(&v2_pack(), "x.txt");
    assert_eq!(c.factory, "note");
    assert_eq!(c.confidence, Confidence::Low);
    let c2 = no_llm_fallback(&legacy_pack(), "x.txt");
    assert_eq!(c2.factory, "inbox");
}

#[test]
fn unsupported_extension_is_skipped() {
    let c = done(verdict(&v2_pack(), "d.docx", Some("docx"), None, true));
    assert_eq!(c.factory, "");
    assert_eq!(c.confidence, Confidence::Low);
    assert_eq!(c.reason, "不支援的副檔名：docx");
}

#[test]
fn project_text_detected_by_heuristic() {
    let body = "E-07 機台改善 專案\n里程碑：4/30 試作、5/30 量產\n交付項目：新 recipe";
    let c = done(verdict(&v2_pack(), "pr.txt", Some("TXT"), Some(body.to_string()), true));
    assert_eq!(c.factory, "project");
}

#[test]
fn llm_prompt_enumerates_pack_types() {
    let v2 = v2_pack();
    let system = format!(
        "你是檔案分類器。判斷這份文件最適合歸入哪個知識庫分類：\n{}\n{}",
        v2.prompt_lines(),
        v2.types.iter().map(|t| t.id).collect::<Vec<_>>().join("|")
    );
    assert!(system.contains("- person："));
    assert!(system.contains("- social-digest："));
    assert!(system.contains("- note："));
    assert!(system.contains("person|company"));
}

#[test]
fn classify_prompt_lists_ids_and_content() {
    let (system, user) = classify_prompt(&legacy_pack(), "abc");
    assert!(system.contains("- meeting：會議記錄/逐字稿/議程/開會筆記"));
    assert!(system.contains("{\"factory\":\"people|companies|meeting|concepts|projects|inbox\""));
    assert_eq!(user, "文件內容：\nabc\n\n請只回傳 JSON 物件。");
}

#[test]
fn empty_text_is_low_catchall() {
    let c = done(text_verdict(&v2_pack(), "e.md", Some("  \n ".to_string()), true));
    assert_eq!(c.factory, "note");
    assert_eq!(c.reason, "檔案為空或無法讀取文字");
    let c = done(text_verdict(&legacy_pack(), "e.md", None, true));
    assert_eq!(c.factory, "inbox");
}

#[test]
fn mixed_signals_are_ambiguous() {
    assert!(heuristic(&v2_pack(), "公司簡介 與 里程碑").is_none());
    let h = heuristic(&v2_pack(), "BEGIN:VCARD").unwrap();
    assert_eq!(h.factory, "person");
}

#[test]
fn readers_follow_extension() {
    assert_eq!(reader_for(Some("PDF")), Reader::Pdf);
    assert_eq!(reader_for(Some("markdown")), Reader::Text);
    assert_eq!(reader_for(Some("csv")), Reader::Text);
    assert_eq!(reader_for(Some("docx")), Reader::Nothing);
    assert_eq!(reader_for(None), Reader::Nothing);
}

#[test]
fn sample_and_cap_cut_long_text() {
    let long: String = std::iter::repeat('字').take(3001).collect();
    let s = sample(&long);
    assert_eq!(s.chars().count(), 3000 + 4);
    assert!(s.ends_with("\n[…]"));
    assert_eq!(sample("short"), "short");
    assert_eq!(cap("  abcdef  ", 3), "abc…");
    assert_eq!(cap(" abc ", 3), "abc");
}

#[test]
fn llm_outcomes_map_to_classifications() {
    let v = LlmVerdict {
        factory: " Meetings ".to_string(),
        confidence: "HIGH".to_string(),
        reason: " ".to_string(),
    };
    let c = llm_classification(&legacy_pack(), "a.txt", LlmOutcome::Parsed(v));
    assert_eq!(c.factory, "meeting");
    assert_eq!(c.confidence, Confidence::High);
    assert_eq!(c.reason, "LLM 判斷（未附理由）");
    assert_eq!(c.source, ClassifySource::Llm);
    let c = llm_classification(&v2_pack(), "a.txt", LlmOutcome::Unparsable(" oops ".to_string()));
    assert_eq!(c.factory, "note");
    assert_eq!(c.reason, "LLM 回應無法解析，預設 note：oops");
    let c = llm_classification(&v2_pack(), "a.txt", LlmOutcome::Failed("timeout".to_string()));
    assert_eq!(c.reason, "LLM 分類失敗，預設 note：timeout");
    assert_eq!(c.confidence, Confidence::Low);
}
