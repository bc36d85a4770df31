use operoid::companies::{
    build_page, company_pages, group_companies, is_enriched, sort_by_name, unique_members, unquote_yaml,
    yaml_single_quote, PersonPage,
};

fn page(slug: &str, text: &str) -> PersonPage {
    PersonPage { slug: slug.to_string(), text: text.to_string() }
}

#[test]
fn builds_companies_from_people() {
    // Directory order: bob.md, jane.md.
    let people = vec![
        page("bob", "---\ntype: person\ntitle: 'Bob'\n---\n# Bob\n\n- 公司/組織: Acme\n- 公司/組織: Beta\n"),
        page("jane", "---\ntype: person\ntitle: 'Jane Doe'\n---\n# Jane Doe\n\n- 公司/組織: Acme\n"),
    ];
    let aliases: Vec<(String, String)> = Vec::new();
    let groups = group_companies(&people, &aliases);
    let slugs = vec!["acme".to_string(), "beta".to_string()];
    let imp = company_pages(&groups, &slugs);
    assert_eq!(imp.people_read, 2);
    assert_eq!(imp.people_with_org, 2);
    assert_eq!(imp.distinct, 2); // Acme, Beta
    assert_eq!(imp.total_links, 3);

    let acme = imp.pages.iter().find(|p| p.slug == "acme").unwrap();
    assert!(acme.markdown.contains("- [[people/bob|Bob]]"));
    assert!(acme.markdown.contains("- [[people/jane|Jane Doe]]"));
    assert!(acme.markdown.contains("通訊錄中有 2 位聯絡人"));
    let beta = imp.pages.iter().find(|p| p.slug == "beta").unwrap();
    assert!(beta.markdown.contains("- [[people/bob|Bob]]"));
}

#[test]
fn enriched_detection() {
    assert!(is_enriched("---\ntype: company\nenriched: true\n---\n"));
    assert!(is_enriched("# X\n\n<!-- enriched -->\n"));
    assert!(!is_enriched("---\ntype: company\n---\n# Plain\n"));
}

#[test]
fn aliases_merge_variants_and_names_fall_back() {
    let people = vec![
        page("a", "# Alice\n- 公司/組織:   ACME  Corp \n"),
        page("b", "no heading\n- 公司/組織: Acme\n- 公司/組織:   \n"),
        page("c", "---\ntitle: ''\n---\n# Carol\n"),
    ];
    let aliases = vec![("Acme".to_string(), "ACME Corp".to_string())];
    let groups = group_companies(&people, &aliases);
    assert_eq!(groups.people_read, 3);
    assert_eq!(groups.people_with_org, 2);
    assert_eq!(groups.total_links, 2);
    assert_eq!(groups.groups.len(), 1);
    let g = &groups.groups[0];
    assert_eq!(g.key, "ACME Corp");
    assert_eq!(g.display, "ACME  Corp");
    assert_eq!(g.members, vec![("a".to_string(), "Alice".to_string()), ("b".to_string(), "b".to_string())]);
    assert_eq!(g.variants, vec!["Acme".to_string()]);
    let imp = company_pages(&groups, &vec!["acme-corp".to_string()]);
    assert!(imp.pages[0].markdown.contains("別名：Acme\n"));
    assert_eq!(imp.pages[0].name, "ACME  Corp");
}

#[test]
fn page_layout_is_exact() {
    let members = vec![("z".to_string(), "Zed".to_string()), ("a".to_string(), "Amy".to_string())];
    let md = build_page("O'Neil Inc", &members, &vec!["ON".to_string(), "Oneil".to_string()]);
    assert_eq!(
        md,
        "---\ntype: company\ntitle: 'O''Neil Inc'\ntags: [companies, contact]\n---\n\n# O'Neil Inc\n\n\
O'Neil Inc，通訊錄中有 2 位聯絡人。\n\n別名：ON、Oneil\n\n## 聯絡人\n\n- [[people/z|Zed]]\n- [[people/a|Amy]]\n"
    );
}

#[test]
fn members_deduplicate_by_slug_and_sort_stably() {
    let v = vec![
        ("b".to_string(), "Bob".to_string()),
        ("a".to_string(), "Amy".to_string()),
        ("b".to_string(), "Bobby".to_string()),
        ("c".to_string(), "Amy".to_string()),
    ];
    let u = unique_members(&v);
    assert_eq!(u.len(), 3);
    let s = sort_by_name(&u);
    assert_eq!(s[0], ("a".to_string(), "Amy".to_string()));
    assert_eq!(s[1], ("c".to_string(), "Amy".to_string()));
    assert_eq!(s[2], ("b".to_string(), "Bob".to_string()));
}

#[test]
fn yaml_quotes_round_trip() {
    assert_eq!(yaml_single_quote("it's"), "'it''s'");
    assert_eq!(unquote_yaml("  'it''s'  "), "it's");
    assert_eq!(unquote_yaml("plain"), "plain");
    assert_eq!(unquote_yaml(&yaml_single_quote("''")), "''");
}

#[test]
fn enriched_flag_needs_a_line_start_and_allows_white_space() {
    assert!(is_enriched("enriched:   true"));
    assert!(is_enriched("a: b\nenriched:\ntrue\n"));
    assert!(!is_enriched("x enriched: true\n"));
    assert!(!is_enriched("enriched: false\n"));
}
