use atui::command::{
    AvailableCommand, CommandError, CommandExecutor, CommandInput, CommandInputMode, CommandResult,
    CtagOperation, TuiCommand,
};
use atui::models::{AtlassianDomain, AtlassianProduct, NavigationContext, ProductType, Project};

fn complete_context() -> NavigationContext {
    NavigationContext {
        domain: Some(AtlassianDomain {
            name: "example".to_string(),
            base_url: "https://example.atlassian.net".to_string(),
            products: vec![],
        }),
        product: Some(AtlassianProduct {
            product_type: ProductType::Confluence,
            name: "Wiki".to_string(),
            projects: vec![],
            available: true,
        }),
        project: Some(Project {
            id: "2".to_string(),
            name: "Engineering".to_string(),
            key: "ENG".to_string(),
            description: None,
            project_type: "space".to_string(),
        }),
    }
}

#[test]
fn no_operations_without_a_complete_context() {
    // Scenario: with no project selected, the available operations are empty.
    let executor = CommandExecutor::new(NavigationContext::new());
    assert!(executor.get_available_commands().is_empty());
}

#[test]
fn complete_wiki_context_exposes_exactly_four_operations() {
    let executor = CommandExecutor::new(complete_context());
    let commands = executor.get_available_commands();
    assert_eq!(commands.len(), 4);
    let ops: Vec<&'static str> = commands
        .iter()
        .map(|c| {
            let AvailableCommand::Ctag { operation, .. } = c;
            operation.as_str()
        })
        .collect();
    assert_eq!(ops, vec!["list", "add", "update", "remove"]);
}

#[test]
fn tracker_contexts_expose_no_operations_yet() {
    let mut context = complete_context();
    context.product.as_mut().unwrap().product_type = ProductType::Jira;
    let executor = CommandExecutor::new(context);
    assert!(executor.get_available_commands().is_empty());
}

#[test]
fn build_command_string_quotes_the_query_fragment() {
    let executor = CommandExecutor::new(complete_context());
    let command = TuiCommand {
        name: "ctag".to_string(),
        operation: "add".to_string(),
        args: vec!["foo".to_string(), "bar".to_string()],
        dry_run: false,
    };
    let built = executor.build_command_string(&command).expect("complete context");
    assert_eq!(built, "ctag add \"space = \"ENG\"\" foo bar");
}

#[test]
fn build_command_string_appends_the_dry_run_flag() {
    let executor = CommandExecutor::new(complete_context());
    let command = TuiCommand {
        name: "ctag".to_string(),
        operation: "list".to_string(),
        args: vec![],
        dry_run: true,
    };
    let built = executor.build_command_string(&command).unwrap();
    assert_eq!(built, "ctag list \"space = \"ENG\"\" --dry-run");
}

#[test]
fn build_command_string_fails_without_context() {
    let executor = CommandExecutor::new(NavigationContext::new());
    let command = TuiCommand {
        name: "ctag".to_string(),
        operation: "list".to_string(),
        args: vec![],
        dry_run: false,
    };
    match executor.build_command_string(&command) {
        Err(CommandError::NoValidContext) => {}
        other => panic!("expected NoValidContext, got {:?}", other),
    }
    assert_eq!(
        CommandError::NoValidContext.message(),
        "No valid context for command execution"
    );
}

#[test]
fn build_command_string_rejects_unknown_commands() {
    let executor = CommandExecutor::new(complete_context());
    let command = TuiCommand {
        name: "frob".to_string(),
        operation: "list".to_string(),
        args: vec![],
        dry_run: false,
    };
    match executor.build_command_string(&command) {
        Err(e @ CommandError::UnknownCommand { .. }) => {
            assert_eq!(e.message(), "Unknown command: frob");
        }
        other => panic!("expected UnknownCommand, got {:?}", other),
    }
}

#[test]
fn parse_command_args_respects_quotes() {
    let executor = CommandExecutor::new(NavigationContext::new());
    assert_eq!(
        executor.parse_command_args("ctag list \"space = \"ENG\"\" foo"),
        vec!["ctag", "list", "space = ENG", "foo"]
    );
    assert_eq!(executor.parse_command_args(""), Vec::<String>::new());
    assert_eq!(executor.parse_command_args("  a  b "), vec!["a", "b"]);
}

#[test]
fn history_is_append_only_and_clearable() {
    let mut executor = CommandExecutor::new(NavigationContext::new());
    assert!(executor.get_last_result().is_none());
    executor.record_result(CommandResult {
        exit_code: 0,
        stdout: "ok".to_string(),
        stderr: String::new(),
        command: "ctag list".to_string(),
        success: true,
    });
    executor.record_result(CommandResult {
        exit_code: 1,
        stdout: String::new(),
        stderr: "boom".to_string(),
        command: "ctag add".to_string(),
        success: false,
    });
    assert_eq!(executor.history.len(), 2);
    let last = executor.get_last_result().unwrap();
    assert_eq!(last.command, "ctag add");
    assert!(!last.success);
    executor.clear_history();
    assert!(executor.get_last_result().is_none());
}

#[test]
fn operation_words_and_descriptions() {
    assert_eq!(CtagOperation::List.as_str(), "list");
    assert_eq!(CtagOperation::Add.as_str(), "add");
    assert_eq!(CtagOperation::Update.as_str(), "update");
    assert_eq!(CtagOperation::Remove.as_str(), "remove");
    assert_eq!(CtagOperation::List.description(), "List labels for pages matching CQL");
    assert_eq!(CtagOperation::Remove.description(), "Remove labels from pages matching CQL");
}

#[test]
fn command_input_edits_at_the_cursor() {
    let mut input = CommandInput::new();
    assert_eq!(input.mode, CommandInputMode::SelectingCommand);
    input.insert_char('a');
    input.insert_char('c');
    input.move_cursor_left();
    input.insert_char('b');
    assert_eq!(input.text, "abc");
    assert_eq!(input.cursor, 2);
    input.move_cursor_right();
    input.delete_char();
    assert_eq!(input.text, "ab");
    input.move_cursor_left();
    input.move_cursor_left();
    input.move_cursor_left();
    assert_eq!(input.cursor, 0);
    input.delete_char();
    assert_eq!(input.text, "ab");
    input.clear();
    assert_eq!(input.text, "");
    assert_eq!(input.cursor, 0);
}

#[test]
fn command_input_mode_transitions() {
    let mut input = CommandInput::new();
    input.insert_char('x');
    input.set_command(AvailableCommand::Ctag {
        operation: CtagOperation::List,
        description: "List labels".to_string(),
    });
    assert_eq!(input.mode, CommandInputMode::TypingArgs);
    assert_eq!(input.text, "");
    assert!(input.selected_command.is_some());
    input.reset_to_selection();
    assert_eq!(input.mode, CommandInputMode::SelectingCommand);
    assert!(input.selected_command.is_none());
}
