use atui::models::{AtlassianDomain, AtlassianProduct, ProductType, Project, TreeNode};
use atui::tree_navigation::TreeNavigationManager;

fn project(id: &str, name: &str, key: &str) -> Project {
    Project {
        id: id.to_string(),
        name: name.to_string(),
        key: key.to_string(),
        description: None,
        project_type: "space".to_string(),
    }
}

fn wiki_domain() -> AtlassianDomain {
    AtlassianDomain {
        name: "example.atlassian.net".to_string(),
        base_url: "https://example.atlassian.net".to_string(),
        products: vec![AtlassianProduct {
            product_type: ProductType::Confluence,
            name: "Wiki".to_string(),
            projects: vec![project("1", "Documentation", "DOCS"), project("2", "Engineering", "ENG")],
            available: true,
        }],
    }
}

fn manager_with_wiki() -> TreeNavigationManager {
    let mut manager = TreeNavigationManager::new();
    manager.build_tree_data(wiki_domain());
    manager
}

#[test]
fn flatten_empty_tree_has_no_rows() {
    let manager = TreeNavigationManager::new();
    assert!(manager.get_tree_items().is_empty());
}

#[test]
fn flatten_counts_only_reachable_rows() {
    let mut manager = manager_with_wiki();
    // The Confluence product has projects, so it starts expanded: one root
    // plus two children are visible.
    assert_eq!(manager.get_tree_items().len(), 3);

    // Collapsing the root hides exactly its two children.
    manager.tree_selection = 0;
    manager.collapse_current_node();
    assert_eq!(manager.get_tree_items().len(), 1);
}

#[test]
fn flatten_decorates_rows_with_depth_and_markers() {
    let manager = manager_with_wiki();
    let items = manager.get_tree_items();
    assert_eq!(items[0].0, "▼ 📊 Wiki");
    assert_eq!(items[0].1, 0);
    assert!(!items[0].2);
    assert_eq!(items[1].0, "    📁 Documentation");
    assert_eq!(items[1].1, 1);
    assert_eq!(items[2].0, "    📁 Engineering");
    assert_eq!(items[2].1, 1);
}

#[test]
fn expanding_a_collapsed_node_adds_exactly_its_children() {
    let mut manager = manager_with_wiki();
    manager.tree_selection = 0;
    manager.collapse_current_node();
    let before = manager.get_tree_items().len();
    manager.expand_current_node();
    let after = manager.get_tree_items().len();
    // Two children, none with descendants of their own.
    assert_eq!(after, before + 2);
}

#[test]
fn resolve_path_addresses_each_visible_row() {
    let manager = manager_with_wiki();
    assert_eq!(manager.get_node_path_at_index(0), Some(vec![0]));
    assert_eq!(manager.get_node_path_at_index(1), Some(vec![0, 0]));
    assert_eq!(manager.get_node_path_at_index(2), Some(vec![0, 1]));
    assert_eq!(manager.get_node_path_at_index(3), None);
}

#[test]
fn resolve_path_skips_hidden_children() {
    let mut manager = manager_with_wiki();
    manager.tree_selection = 0;
    manager.collapse_current_node();
    assert_eq!(manager.get_node_path_at_index(0), Some(vec![0]));
    assert_eq!(manager.get_node_path_at_index(1), None);
}

fn count_selected(nodes: &[TreeNode]) -> usize {
    nodes
        .iter()
        .map(|n| (n.selected as usize) + count_selected(&n.children))
        .sum()
}

#[test]
fn select_marks_exactly_one_node() {
    let mut manager = manager_with_wiki();
    let domain = wiki_domain();

    manager.tree_selection = 2;
    manager.select_current_node(Some(&domain));
    assert_eq!(count_selected(&manager.tree_data), 1);
    assert!(manager.tree_data[0].children[1].selected);

    manager.tree_selection = 0;
    manager.select_current_node(Some(&domain));
    assert_eq!(count_selected(&manager.tree_data), 1);
    assert!(manager.tree_data[0].selected);
}

#[test]
fn select_project_completes_context_and_yields_space_cql() {
    let mut manager = manager_with_wiki();
    let domain = wiki_domain();

    // Select the path to ENG (root 0, child 1).
    manager.tree_selection = 2;
    manager.select_current_node(Some(&domain));

    let context = &manager.navigation_context;
    assert!(context.is_complete());
    assert_eq!(context.cql_context(), Some("space = \"ENG\"".to_string()));
}

#[test]
fn select_product_alone_leaves_context_incomplete() {
    let mut manager = manager_with_wiki();
    let domain = wiki_domain();
    manager.tree_selection = 0;
    manager.select_current_node(Some(&domain));
    assert!(!manager.navigation_context.is_complete());
    assert_eq!(manager.navigation_context.cql_context(), None);
}

#[test]
fn select_with_parents_expands_and_selects_both() {
    let mut manager = manager_with_wiki();
    let domain = wiki_domain();
    manager.tree_selection = 0;
    manager.collapse_current_node();

    // With the product collapsed only the root is visible; re-expand and pick
    // the leaf as a search commit would.
    manager.tree_selection = 0;
    manager.expand_current_node();
    manager.tree_selection = 2;
    manager.select_current_node_with_parents(Some(&domain));

    assert!(manager.tree_data[0].expanded);
    assert!(manager.tree_data[0].selected);
    assert!(manager.tree_data[0].children[1].selected);
    assert_eq!(count_selected(&manager.tree_data), 2);
    assert!(manager.navigation_context.is_complete());
}

#[test]
fn stale_paths_are_ignored() {
    let mut manager = manager_with_wiki();
    let before = manager.get_tree_items();
    manager.set_node_expanded(&vec![5], true);
    manager.set_node_expanded(&vec![0, 7], true);
    manager.set_node_selected(&vec![9, 9], true);
    let after = manager.get_tree_items();
    assert_eq!(before, after);
}

#[test]
fn movement_clamps_to_visible_rows() {
    let mut manager = manager_with_wiki();
    manager.move_selection_up();
    assert_eq!(manager.tree_selection, 0);
    manager.move_selection_down();
    assert_eq!(manager.tree_selection, 1);
    manager.page_down();
    assert_eq!(manager.tree_selection, 2);
    manager.page_up();
    assert_eq!(manager.tree_selection, 0);
}

#[test]
fn toggle_expansion_flips_the_flag() {
    let mut node = TreeNode::new_project(project("1", "Documentation", "DOCS"));
    assert!(!node.expanded);
    node.toggle_expansion();
    assert!(node.expanded);
    node.set_selected(true);
    assert!(node.selected);
}

#[test]
fn jira_product_yields_project_cql() {
    let mut manager = TreeNavigationManager::new();
    let domain = AtlassianDomain {
        name: "example".to_string(),
        base_url: "https://example.atlassian.net".to_string(),
        products: vec![AtlassianProduct {
            product_type: ProductType::Jira,
            name: "Jira".to_string(),
            projects: vec![project("7", "Tracker", "TRK")],
            available: true,
        }],
    };
    manager.build_tree_data(domain.clone());
    // Jira products do not start expanded.
    assert_eq!(manager.get_tree_items().len(), 1);
    manager.tree_selection = 0;
    manager.expand_current_node();
    manager.tree_selection = 1;
    manager.select_current_node(Some(&domain));
    assert_eq!(
        manager.navigation_context.cql_context(),
        Some("project = \"TRK\"".to_string())
    );
}

#[test]
fn cleanup_clears_the_tree() {
    let mut manager = manager_with_wiki();
    manager.tree_selection = 2;
    manager.cleanup();
    assert!(manager.get_tree_items().is_empty());
    assert_eq!(manager.tree_selection, 0);
}
