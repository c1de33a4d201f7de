use atui::confluence::{
    add_labels_request, basic_auth_value, connectivity_url, cql_query_error, label_delete_url,
    label_names, labels_url, search_url, spaces_url, validate_config, ConfluenceConfig,
    ConfluencePage, PageLabel, PageLabels, PageMetadata,
};
use atui::ctag::{
    child_prefix, flat_page_line, get_page_labels, page_display_name, parse_label_updates,
    parse_tag_list, should_highlight_page, tree_page_line,
};
use atui::domain_loader::{
    assemble_domain, confluence_product_from_spaces, domain_name_from_url,
    unavailable_confluence_product,
};
use atui::errors::ConfluenceError;
use atui::models::ProductType;
use atui::page_tree::{ConfluencePageTree, PageLabelAction};

fn page(id: &str, title: &str, labels: &[&str]) -> ConfluencePage {
    ConfluencePage {
        id: id.to_string(),
        title: title.to_string(),
        page_type: "page".to_string(),
        status: "current".to_string(),
        links: None,
        ancestors: None,
        metadata: Some(PageMetadata {
            labels: Some(PageLabels {
                results: labels
                    .iter()
                    .map(|l| PageLabel { id: None, name: l.to_string(), prefix: None })
                    .collect(),
                size: Some(labels.len() as i32),
            }),
        }),
    }
}

#[test]
fn urls_are_built_with_percent_encoding() {
    let base = "https://example.atlassian.net";
    assert_eq!(
        search_url(base, "space = \"ENG\""),
        "https://example.atlassian.net/wiki/rest/api/content/search?cql=space%20%3D%20%22ENG%22&expand=metadata.labels,ancestors"
    );
    assert_eq!(
        labels_url(base, "123"),
        "https://example.atlassian.net/wiki/rest/api/content/123/label"
    );
    assert_eq!(
        label_delete_url(base, "123", "my label"),
        "https://example.atlassian.net/wiki/rest/api/content/123/label/my%20label"
    );
    assert_eq!(
        spaces_url(base),
        "https://example.atlassian.net/wiki/rest/api/space?expand=description.plain&limit=1000"
    );
    assert_eq!(connectivity_url(base), "https://example.atlassian.net/wiki/rest/api/space");
}

#[test]
fn basic_auth_encodes_user_and_token() {
    let config = ConfluenceConfig {
        base_url: "https://example.atlassian.net".to_string(),
        api_token: "token".to_string(),
        username: "user".to_string(),
    };
    assert_eq!(basic_auth_value(&config), "Basic dXNlcjp0b2tlbg==");
}

#[test]
fn config_validation_requires_a_parsable_url() {
    let bad = ConfluenceConfig {
        base_url: "not a url".to_string(),
        api_token: "t".to_string(),
        username: "u".to_string(),
    };
    match validate_config(&bad) {
        Err(ConfluenceError::Config { message }) => {
            assert_eq!(message, "Invalid base URL: not a url");
        }
        other => panic!("expected a configuration error, got {:?}", other),
    }
    let good = ConfluenceConfig {
        base_url: "https://example.atlassian.net".to_string(),
        api_token: "t".to_string(),
        username: "u".to_string(),
    };
    assert!(validate_config(&good).is_ok());
}

#[test]
fn error_messages_render_their_data() {
    let e = cql_query_error("space = \"ENG\"", 404, "missing");
    assert_eq!(
        e.message(),
        "CQL query failed: space = \"ENG\" - HTTP 404: missing"
    );
    let api = ConfluenceError::ApiError { status: 503, message: "down".to_string() };
    assert_eq!(api.message(), "API error 503: down");
    let nf = ConfluenceError::PageNotFound { page_id: "77".to_string() };
    assert_eq!(nf.message(), "Page not found: 77");
}

#[test]
fn label_helpers_extract_names_and_build_requests() {
    let p = page("1", "Home", &["alpha", "beta"]);
    assert_eq!(get_page_labels(&p), vec!["alpha", "beta"]);
    let bare = ConfluencePage { metadata: None, ..page("2", "Bare", &[]) };
    assert!(get_page_labels(&bare).is_empty());

    if let Some(m) = &p.metadata {
        if let Some(l) = &m.labels {
            assert_eq!(label_names(l), vec!["alpha", "beta"]);
        }
    }

    let request = add_labels_request(&vec!["x".to_string()]);
    assert_eq!(request.labels.len(), 1);
    assert_eq!(request.labels[0].prefix, "global");
    assert_eq!(request.labels[0].name, "x");
}

#[test]
fn highlighting_needs_a_shared_label() {
    let labels = vec!["alpha".to_string(), "beta".to_string()];
    let tags = vec!["beta".to_string()];
    assert!(should_highlight_page(&labels, Some(&tags)));
    let other = vec!["gamma".to_string()];
    assert!(!should_highlight_page(&labels, Some(&other)));
    assert!(!should_highlight_page(&labels, None));
}

#[test]
fn page_lines_render_prefix_symbol_and_labels() {
    assert_eq!(page_display_name("Home", false), "Home");
    assert_eq!(page_display_name("Home", true), "\u{1b}[1;33mHome\u{1b}[0m");
    let labels = vec!["a".to_string(), "b".to_string()];
    assert_eq!(tree_page_line("", true, "Home", &labels), "└── Home [a, b]");
    assert_eq!(tree_page_line("│   ", false, "Sub", &vec![]), "│   ├── Sub");
    assert_eq!(flat_page_line("Home", &labels), "Home [a, b]");
    assert_eq!(flat_page_line("Home", &vec![]), "Home");
    assert_eq!(child_prefix("", true), "    ");
    assert_eq!(child_prefix("", false), "│   ");
}

#[test]
fn tag_lists_split_and_trim() {
    assert_eq!(parse_tag_list("foo,bar, baz "), vec!["foo", "bar", "baz"]);
    assert_eq!(parse_tag_list("solo"), vec!["solo"]);
    assert_eq!(parse_tag_list(""), vec![""]);
}

#[test]
fn label_updates_parse_or_name_the_bad_piece() {
    assert_eq!(
        parse_label_updates("foo:bar, baz : qux").unwrap(),
        vec![
            ("foo".to_string(), "bar".to_string()),
            ("baz".to_string(), "qux".to_string())
        ]
    );
    assert_eq!(
        parse_label_updates("foo:bar,oops").unwrap_err(),
        "Invalid update format 'oops'. Expected 'old:new'"
    );
    assert_eq!(
        parse_label_updates("a:b:c").unwrap_err(),
        "Invalid update format 'a:b:c'. Expected 'old:new'"
    );
}

#[test]
fn domain_assembly_names_the_host_and_orders_products() {
    assert_eq!(domain_name_from_url("https://example.atlassian.net"), "example.atlassian.net");
    assert_eq!(domain_name_from_url("not a url"), "not a url");

    let spaces = vec![atui::confluence::ConfluenceSpace {
        id: "9".to_string(),
        key: "ENG".to_string(),
        name: "Engineering".to_string(),
        space_type: "global".to_string(),
        status: "current".to_string(),
        description: None,
        links: None,
    }];
    let confluence = confluence_product_from_spaces(spaces);
    assert!(confluence.available);
    assert_eq!(confluence.projects.len(), 1);
    assert_eq!(confluence.projects[0].key, "ENG");
    assert_eq!(confluence.projects[0].project_type, "space");

    let domain = assemble_domain("https://example.atlassian.net".to_string(), confluence);
    assert_eq!(domain.name, "example.atlassian.net");
    assert_eq!(domain.products.len(), 3);
    assert_eq!(domain.products[0].product_type, ProductType::Confluence);
    assert_eq!(domain.products[1].name, "Jira (coming soon)");
    assert!(!domain.products[1].available);
    assert_eq!(domain.products[2].name, "Jira Service Management (coming soon)");

    let broken = unavailable_confluence_product("HTTP request failed: boom");
    assert!(!broken.available);
    assert_eq!(broken.name, "Confluence (Error: HTTP request failed: boom)");
}

#[test]
fn page_tree_records_label_actions() {
    let mut tree = ConfluencePageTree::new("https://example/page".to_string());
    assert!(tree.list_labels().is_empty());

    tree.add_label("draft".to_string());
    tree.add_label("draft".to_string());
    tree.add_label("old".to_string());
    assert_eq!(tree.list_labels(), vec!["draft", "draft", "old"]);

    tree.update_label("draft", "final");
    assert_eq!(tree.list_labels(), vec!["final", "final", "old"]);

    tree.delete_label("final");
    assert_eq!(tree.list_labels(), vec!["old"]);

    assert_eq!(tree.tag_actions.len(), 5);
    assert_eq!(tree.tag_actions[3], PageLabelAction::Update {
        from: "draft".to_string(),
        to: "final".to_string(),
    });
    assert_eq!(tree.tag_actions[4], PageLabelAction::Delete { tag: "final".to_string() });

    assert!(tree.apply_actions(true).is_ok());
    assert!(tree.apply_actions(false).is_ok());
}

#[test]
fn product_kind_names_and_api_paths() {
    assert_eq!(ProductType::Confluence.display_name(), "Confluence");
    assert_eq!(ProductType::Jira.display_name(), "Jira");
    assert_eq!(ProductType::Jsm.display_name(), "Jira Service Management");
    assert_eq!(ProductType::Confluence.api_path(), "/wiki/rest/api");
    assert_eq!(ProductType::Jira.api_path(), "/rest/api/2");
    assert_eq!(ProductType::Jsm.api_path(), "/rest/servicedeskapi");
}
