use atui::search::SearchManager;
use atui::ui::Ui;

fn rows(names: &[&str]) -> Vec<(String, usize, bool)> {
    names.iter().map(|n| (n.to_string(), 0usize, false)).collect()
}

#[test]
fn word_start_match_ranks_above_scattered_match() {
    // Scenario: query "eng" over rows Wiki, DOCS, ENG must rank ENG strictly
    // above Wiki (word-start match beats scattered substring match).
    let mut manager = SearchManager::new();
    manager.search_query = "eng".to_string();
    let items = rows(&["Wiki", "DOCS", "ENG"]);
    manager.update_search_filter(&items);
    let filtered = manager.filtered_tree_items.as_ref().expect("filter must stand");
    assert!(!filtered.is_empty());
    assert_eq!(filtered[0].0, "ENG");
    let eng_score = filtered[0].3;
    for row in filtered.iter().skip(1) {
        assert!(row.3 < eng_score, "ENG must rank strictly highest");
        assert_ne!(row.0, "DOCS", "DOCS holds no match for 'eng'");
    }
}

#[test]
fn filter_output_is_never_longer_and_back_references_hold() {
    let mut manager = SearchManager::new();
    manager.search_query = "doc".to_string();
    let items = rows(&["Wiki", "DOCS", "ENG", "More docs"]);
    manager.update_search_filter(&items);
    let filtered = manager.filtered_tree_items.as_ref().unwrap();
    assert!(filtered.len() <= items.len());
    for row in filtered.iter() {
        // every original index points back at the row it was computed from
        assert_eq!(items[row.5].0, row.0);
    }
}

#[test]
fn equal_scores_keep_original_order() {
    let mut manager = SearchManager::new();
    manager.search_query = "same".to_string();
    // identical texts score identically: the stable sort keeps input order
    let items = rows(&["same", "same", "same"]);
    manager.update_search_filter(&items);
    let filtered = manager.filtered_tree_items.as_ref().unwrap();
    assert_eq!(filtered.len(), 3);
    assert_eq!(filtered[0].5, 0);
    assert_eq!(filtered[1].5, 1);
    assert_eq!(filtered[2].5, 2);
    assert_eq!(filtered[0].3, filtered[1].3);
}

#[test]
fn empty_query_clears_the_filter() {
    let mut manager = SearchManager::new();
    manager.search_query = String::new();
    let items = rows(&["Wiki"]);
    assert_eq!(manager.update_search_filter(&items), 0);
    assert!(manager.filtered_tree_items.is_none());
}

#[test]
fn unmatched_rows_are_dropped_entirely() {
    let mut manager = SearchManager::new();
    manager.search_query = "zzz".to_string();
    let items = rows(&["Wiki", "DOCS"]);
    manager.update_search_filter(&items);
    let filtered = manager.filtered_tree_items.as_ref().unwrap();
    assert!(filtered.is_empty());
}

#[test]
fn query_edits_recompute_the_filter() {
    let mut manager = SearchManager::new();
    let items = rows(&["Wiki", "DOCS", "ENG"]);
    assert_eq!(manager.add_to_query('e', &items), 0);
    assert_eq!(manager.search_query, "e");
    assert!(manager.filtered_tree_items.is_some());

    assert_eq!(manager.remove_from_query(&items), 0);
    assert_eq!(manager.search_query, "");
    assert!(manager.filtered_tree_items.is_none());

    // removing from an empty query is a no-op
    assert_eq!(manager.remove_from_query(&items), 0);
    assert_eq!(manager.search_query, "");
}

#[test]
fn clean_text_strips_decoration_before_matching() {
    let manager = SearchManager::new();
    assert_eq!(manager.extract_clean_text("  ▼ 📊 Wiki"), "Wiki");
    assert_eq!(manager.extract_clean_text("    📁 Documentation"), "Documentation");
    assert_eq!(manager.extract_clean_text("plain"), "plain");
    assert_eq!(manager.extract_clean_text("  "), "");
}

#[test]
fn matching_ignores_decoration() {
    let mut manager = SearchManager::new();
    manager.search_query = "wiki".to_string();
    let items = rows(&["▼ 📊 Wiki"]);
    manager.update_search_filter(&items);
    let filtered = manager.filtered_tree_items.as_ref().unwrap();
    assert_eq!(filtered.len(), 1);
    assert_eq!(filtered[0].5, 0);
}

#[test]
fn match_positions_follow_a_greedy_subsequence() {
    let manager = SearchManager::new();
    assert_eq!(manager.find_match_positions("Engineering", "eng"), vec![0, 1, 2]);
    assert_eq!(manager.find_match_positions("Wiki", "ik"), vec![1, 2]);
    assert_eq!(manager.find_match_positions("abc", "x"), Vec::<usize>::new());
    // a partially findable query matches as far as it goes
    assert_eq!(manager.find_match_positions("ab", "ax"), vec![0]);
}

#[test]
fn original_index_lookup_respects_bounds() {
    let mut manager = SearchManager::new();
    assert_eq!(manager.get_original_index_for_filtered_item(0), None);
    manager.search_query = "eng".to_string();
    let items = rows(&["Wiki", "DOCS", "ENG"]);
    manager.update_search_filter(&items);
    let n = manager.filtered_tree_items.as_ref().unwrap().len();
    assert_eq!(manager.get_original_index_for_filtered_item(0), Some(2));
    assert_eq!(manager.get_original_index_for_filtered_item(n), None);
}

#[test]
fn search_mode_transitions_update_status() {
    let mut manager = SearchManager::new();
    let mut ui = Ui::new();
    manager.enter_search_mode(&mut ui);
    assert!(manager.search_mode);
    assert_eq!(ui.status_message, "Search mode: type to filter, Esc to exit");

    let items = rows(&["Wiki"]);
    manager.add_to_query('w', &items);
    manager.exit_search_mode_keep_filter(&mut ui);
    assert!(!manager.search_mode);
    assert!(manager.filtered_tree_items.is_some());
    assert_eq!(ui.status_message, "Filtered by: 'w'");

    manager.exit_search_mode(&mut ui);
    assert!(manager.filtered_tree_items.is_none());
    assert_eq!(ui.status_message, "Ready");
}

#[test]
fn display_items_fall_back_to_the_full_rows() {
    let mut manager = SearchManager::new();
    let items = rows(&["Wiki", "DOCS"]);
    assert_eq!(manager.get_display_items(&items), items);

    manager.search_query = "docs".to_string();
    manager.update_search_filter(&items);
    let shown = manager.get_display_items(&items);
    assert_eq!(shown.len(), 1);
    assert_eq!(shown[0].0, "DOCS");
}
