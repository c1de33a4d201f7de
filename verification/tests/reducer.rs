use atui::app::App;
use atui::command::CommandInputMode;
use atui::command::CommandResult;
use atui::event_handler::{EventHandler, InputEvent, KeyInput, MouseKind};
use atui::models::{AtlassianDomain, AtlassianProduct, ProductType, Project};
use atui::screens::Screen;

fn wiki_domain() -> AtlassianDomain {
    AtlassianDomain {
        name: "example.atlassian.net".to_string(),
        base_url: "https://example.atlassian.net".to_string(),
        products: vec![AtlassianProduct {
            product_type: ProductType::Confluence,
            name: "Wiki".to_string(),
            projects: vec![
                Project {
                    id: "1".to_string(),
                    name: "Documentation".to_string(),
                    key: "DOCS".to_string(),
                    description: None,
                    project_type: "space".to_string(),
                },
                Project {
                    id: "2".to_string(),
                    name: "Engineering".to_string(),
                    key: "ENG".to_string(),
                    description: None,
                    project_type: "space".to_string(),
                },
            ],
            available: true,
        }],
    }
}

fn app_with_domain() -> App {
    let mut app = App::new();
    app.load_domain_data(wiki_domain());
    app
}

fn key(code: KeyInput) -> InputEvent {
    InputEvent::Key { code, ctrl: false }
}

#[test]
fn control_c_requests_shutdown() {
    let mut app = app_with_domain();
    EventHandler::handle_event(&mut app, InputEvent::Key { code: KeyInput::Char('c'), ctrl: true });
    assert!(app.should_quit);
}

#[test]
fn command_screen_needs_a_complete_context() {
    let mut app = app_with_domain();
    // No selection stands: 'c' must not enter the command screen.
    EventHandler::handle_event(&mut app, key(KeyInput::Char('c')));
    assert_eq!(app.current_screen, Screen::TreeNavigation);

    // Select the ENG project, completing the context; now 'c' enters it.
    app.tree_navigation.tree_selection = 2;
    EventHandler::handle_event(&mut app, key(KeyInput::Enter));
    assert!(app.get_navigation_context().is_complete());
    EventHandler::handle_event(&mut app, key(KeyInput::Char('c')));
    assert_eq!(app.current_screen, Screen::CommandExecution);

    // Escape returns to browsing.
    EventHandler::handle_event(&mut app, key(KeyInput::Esc));
    assert_eq!(app.current_screen, Screen::TreeNavigation);
}

#[test]
fn arrows_move_the_tree_cursor() {
    let mut app = app_with_domain();
    EventHandler::handle_event(&mut app, key(KeyInput::Down));
    assert_eq!(app.get_tree_selection(), 1);
    EventHandler::handle_event(&mut app, key(KeyInput::Up));
    assert_eq!(app.get_tree_selection(), 0);
    EventHandler::handle_event(&mut app, InputEvent::Mouse { kind: MouseKind::ScrollDown });
    assert_eq!(app.get_tree_selection(), 1);
    EventHandler::handle_event(&mut app, InputEvent::Mouse { kind: MouseKind::ScrollUp });
    assert_eq!(app.get_tree_selection(), 0);
}

#[test]
fn collapse_and_expand_change_the_visible_rows() {
    let mut app = app_with_domain();
    assert_eq!(app.get_tree_items().len(), 3);
    EventHandler::handle_event(&mut app, key(KeyInput::Left));
    assert_eq!(app.get_tree_items().len(), 1);
    EventHandler::handle_event(&mut app, key(KeyInput::Right));
    assert_eq!(app.get_tree_items().len(), 3);
}

#[test]
fn search_commits_map_back_to_the_unfiltered_tree() {
    let mut app = app_with_domain();
    // Enter search mode and narrow to the engineering space.
    EventHandler::handle_event(&mut app, key(KeyInput::Char('/')));
    assert!(app.is_search_mode());
    EventHandler::handle_event(&mut app, key(KeyInput::Char('e')));
    EventHandler::handle_event(&mut app, key(KeyInput::Char('n')));
    EventHandler::handle_event(&mut app, key(KeyInput::Char('g')));
    assert_eq!(app.get_search_query(), "eng");
    let filtered = app.get_filtered_tree_items().expect("filter stands");
    assert!(!filtered.is_empty());

    // Committing the top hit selects ENG on the real tree and leaves search.
    EventHandler::handle_event(&mut app, key(KeyInput::Enter));
    assert!(!app.is_search_mode());
    assert!(app.get_navigation_context().is_complete());
    assert_eq!(
        app.get_navigation_context().cql_context(),
        Some("space = \"ENG\"".to_string())
    );
}

#[test]
fn search_escape_restores_browsing() {
    let mut app = app_with_domain();
    EventHandler::handle_event(&mut app, key(KeyInput::Char('/')));
    EventHandler::handle_event(&mut app, key(KeyInput::Char('w')));
    EventHandler::handle_event(&mut app, key(KeyInput::Esc));
    assert!(!app.is_search_mode());
    assert!(app.get_filtered_tree_items().is_none());
    assert_eq!(app.get_tree_selection(), 0);
}

#[test]
fn command_flow_builds_a_request() {
    let mut app = app_with_domain();
    app.tree_navigation.tree_selection = 2;
    EventHandler::handle_event(&mut app, key(KeyInput::Enter));
    EventHandler::handle_event(&mut app, key(KeyInput::Char('c')));
    assert_eq!(app.current_screen, Screen::CommandExecution);

    // Pick the first operation (list) and confirm; then type free arguments.
    let request = EventHandler::handle_event(&mut app, key(KeyInput::Enter));
    assert!(request.is_none());
    assert_eq!(app.command_input.mode, CommandInputMode::TypingArgs);

    EventHandler::handle_event(&mut app, key(KeyInput::Char('x')));
    EventHandler::handle_event(&mut app, key(KeyInput::Char(' ')));
    EventHandler::handle_event(&mut app, key(KeyInput::Char('y')));
    let request = EventHandler::handle_event(&mut app, key(KeyInput::Enter))
        .expect("complete context must yield a request");
    assert_eq!(request.command_line, "ctag list \"space = \"ENG\"\" x y");
    assert_eq!(request.args, vec!["ctag", "list", "space = ENG", "x", "y"]);

    // The captured result lands in the history and on the status line.
    EventHandler::complete_command_execution(
        &mut app,
        CommandResult {
            exit_code: 0,
            stdout: "done".to_string(),
            stderr: String::new(),
            command: request.command_line.clone(),
            success: true,
        },
    );
    assert_eq!(app.command_executor.history.len(), 1);
    assert_eq!(
        app.ui.status_message,
        "Command executed successfully: ctag list \"space = \"ENG\"\" x y"
    );

    EventHandler::complete_command_execution(
        &mut app,
        CommandResult {
            exit_code: 1,
            stdout: String::new(),
            stderr: "boom".to_string(),
            command: request.command_line.clone(),
            success: false,
        },
    );
    assert_eq!(app.ui.status_message, "Command failed: boom");
}

#[test]
fn executing_without_context_reports_the_failure() {
    let mut app = app_with_domain();
    app.switch_screen(Screen::CommandExecution);
    app.command_input.set_command(atui::command::AvailableCommand::Ctag {
        operation: atui::command::CtagOperation::List,
        description: "List labels".to_string(),
    });
    let request = EventHandler::handle_event(&mut app, key(KeyInput::Enter));
    assert!(request.is_none());
    assert_eq!(
        app.ui.status_message,
        "Error executing command: No valid context for command execution"
    );
}

#[test]
fn quick_selection_jumps_to_the_operation() {
    let mut app = app_with_domain();
    app.tree_navigation.tree_selection = 2;
    EventHandler::handle_event(&mut app, key(KeyInput::Enter));
    EventHandler::handle_event(&mut app, key(KeyInput::Char('c')));

    EventHandler::handle_event(&mut app, key(KeyInput::Char('R')));
    assert_eq!(app.command_selection, 3);
    EventHandler::handle_event(&mut app, key(KeyInput::Char('a')));
    assert_eq!(app.command_selection, 1);
    EventHandler::handle_event(&mut app, key(KeyInput::Down));
    assert_eq!(app.command_selection, 2);
    EventHandler::handle_event(&mut app, key(KeyInput::Up));
    assert_eq!(app.command_selection, 1);
}

#[test]
fn legacy_screens_route_between_each_other() {
    let mut app = app_with_domain();
    app.switch_screen(Screen::MainMenu);
    EventHandler::handle_event(&mut app, key(KeyInput::Char('1')));
    assert_eq!(app.current_screen, Screen::CqlBuilder);
    EventHandler::handle_event(&mut app, key(KeyInput::Enter));
    assert_eq!(app.current_screen, Screen::PageBrowser);
    EventHandler::handle_event(&mut app, key(KeyInput::Enter));
    assert_eq!(app.current_screen, Screen::LabelManager);
    EventHandler::handle_event(&mut app, key(KeyInput::Backspace));
    assert_eq!(app.current_screen, Screen::PageBrowser);
    EventHandler::handle_event(&mut app, key(KeyInput::Backspace));
    assert_eq!(app.current_screen, Screen::MainMenu);
    EventHandler::handle_event(&mut app, key(KeyInput::Char('h')));
    assert_eq!(app.current_screen, Screen::Help);
    EventHandler::handle_event(&mut app, key(KeyInput::Esc));
    assert_eq!(app.current_screen, Screen::MainMenu);
}

#[test]
fn app_accessors_reflect_state() {
    let mut app = app_with_domain();
    assert!(app.get_last_command_result().is_none());
    assert!(app.get_available_commands().is_empty());
    assert_eq!(app.get_display_items().len(), 3);
    assert!(app.get_fuzzy_display_items().is_none());
    assert!(app.domain.is_some());

    app.tree_navigation.tree_selection = 2;
    EventHandler::handle_event(&mut app, key(KeyInput::Enter));
    assert_eq!(app.get_available_commands().len(), 4);

    app.cleanup_resources();
    assert!(app.domain.is_none());
    assert!(app.get_tree_items().is_empty());
}

#[test]
fn highlight_segments_mark_matched_positions() {
    let text: Vec<char> = "Wiki".chars().collect();
    let segments = atui::ui::highlight_segments(&text, &vec![1, 2]);
    assert_eq!(
        segments,
        vec![('W', false), ('i', true), ('k', true), ('i', false)]
    );
}
