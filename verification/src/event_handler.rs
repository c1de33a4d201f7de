//! The reducer of the interface: input events become state transitions.
//! Every legality rule of the screen state machine is enforced here — in
//! particular, the command screen is reachable only from a complete context —
//! and every event arm's effect on the state is part of the contract.
//! Reading the terminal and spawning the external command happen outside the
//! library; a spawn is handed out as a request and its captured result is
//! handed back.

use vstd::prelude::*;
use vstd::string::StringExecFns;
use vstd::string::StrSliceExecFns;

use crate::app::App;
use crate::command::{
    command_view, ctag_command_set, exposes_ctag, spec_command_args, spec_command_parts,
    AvailableCommand, CommandInputMode, CommandResult, TuiCommand,
};
use crate::models::{AtlassianDomain, AtlassianDomainView};
use crate::screens::Screen;
use crate::search::{filter_result, items_view};
use crate::strutil::{join_with, spec_split_whitespace, strings_view};
use crate::tree_navigation::{
    expand_outcome, flatten_seq, select_outcome, select_with_parents_outcome, visible_count_seq,
    TreeNavigationManager,
};

verus! {

broadcast use vstd::std_specs::vec::group_vec_axioms;

/// A key, reduced to what the reducer distinguishes.
#[derive(Debug, Clone, Copy, PartialEq, Eq, Structural)]
pub enum KeyInput {
    Char(char),
    Enter,
    Esc,
    Backspace,
    Up,
    Down,
    Left,
    Right,
    PageUp,
    PageDown,
    Delete,
    Other,
}

/// A mouse event, reduced to what the reducer distinguishes.
#[derive(Debug, Clone, Copy, PartialEq, Eq, Structural)]
pub enum MouseKind {
    ScrollUp,
    ScrollDown,
    Other,
}

/// An input event: a key with its control-modifier flag, or a mouse scroll.
#[derive(Debug, Clone, Copy, PartialEq, Eq, Structural)]
pub enum InputEvent {
    Key { code: KeyInput, ctrl: bool },
    Mouse { kind: MouseKind },
    Other,
}

/// A request to run the external command surface: the command line as built,
/// and its argument vector.
#[derive(Debug)]
pub struct CommandRequest {
    /// The command line, for display and for the history.
    pub command_line: String,
    /// The split argument vector handed to the external invocation.
    pub args: Vec<String>,
}

/// The ASCII-lowercased character.
pub open spec fn spec_ascii_lower(c: char) -> char {
    if c == 'A' {
        'a'
    } else if c == 'B' {
        'b'
    } else if c == 'C' {
        'c'
    } else if c == 'D' {
        'd'
    } else if c == 'E' {
        'e'
    } else if c == 'F' {
        'f'
    } else if c == 'G' {
        'g'
    } else if c == 'H' {
        'h'
    } else if c == 'I' {
        'i'
    } else if c == 'J' {
        'j'
    } else if c == 'K' {
        'k'
    } else if c == 'L' {
        'l'
    } else if c == 'M' {
        'm'
    } else if c == 'N' {
        'n'
    } else if c == 'O' {
        'o'
    } else if c == 'P' {
        'p'
    } else if c == 'Q' {
        'q'
    } else if c == 'R' {
        'r'
    } else if c == 'S' {
        's'
    } else if c == 'T' {
        't'
    } else if c == 'U' {
        'u'
    } else if c == 'V' {
        'v'
    } else if c == 'W' {
        'w'
    } else if c == 'X' {
        'x'
    } else if c == 'Y' {
        'y'
    } else if c == 'Z' {
        'z'
    } else {
        c
    }
}

/// Lowercase an ASCII letter; anything else is returned as it is.
fn ascii_lower(c: char) -> (r: char)
    ensures
        r == spec_ascii_lower(c),
{
    match c {
        'A' => 'a',
        'B' => 'b',
        'C' => 'c',
        'D' => 'd',
        'E' => 'e',
        'F' => 'f',
        'G' => 'g',
        'H' => 'h',
        'I' => 'i',
        'J' => 'j',
        'K' => 'k',
        'L' => 'l',
        'M' => 'm',
        'N' => 'n',
        'O' => 'o',
        'P' => 'p',
        'Q' => 'q',
        'R' => 'r',
        'S' => 's',
        'T' => 't',
        'U' => 'u',
        'V' => 'v',
        'W' => 'w',
        'X' => 'x',
        'Y' => 'y',
        'Z' => 'z',
        _ => c,
    }
}

/// The view of the domain the application stores, as the selection receives
/// it.
pub open spec fn stored_domain_view(d: Option<AtlassianDomain>) -> Option<AtlassianDomainView> {
    match d {
        Some(x) => Some(x@),
        None => None,
    }
}

/// Search mode left behind: flags cleared, query emptied, filter dropped,
/// and the status line back at rest.
pub open spec fn search_exited(pre: App, post: App) -> bool {
    &&& !post.search_manager.search_mode
    &&& post.search_manager.search_query@ == Seq::<char>::empty()
    &&& post.search_manager.filtered_tree_items is None
    &&& post.ui.status_message@ == "Ready"@
    &&& post.ui.is_loading == pre.ui.is_loading
}

/// How many commands the current context exposes.
pub open spec fn available_len(pre: App) -> int {
    if exposes_ctag(pre.command_executor.spec_context()) {
        4
    } else {
        0
    }
}

/// The operation index a quick-selection letter picks, by the first letters
/// of the four operations; any other letter leaves the selection alone.
pub open spec fn quick_pick(c: char, pre_selection: usize) -> int {
    let t = spec_ascii_lower(c);
    if t == 'l' {
        0int
    } else if t == 'a' {
        1int
    } else if t == 'u' {
        2int
    } else if t == 'r' {
        3int
    } else {
        pre_selection as int
    }
}

/// What one key does on the browsing screen: Enter selects the row under the
/// cursor and re-resolves the context; arrows move the cursor or fold the
/// row; 'c' enters the command screen only from a complete context; '/'
/// enters search mode; anything else changes nothing.
pub open spec fn tree_nav_effect(pre: App, post: App, code: KeyInput) -> bool {
    let nav = pre.tree_navigation;
    match code {
        KeyInput::Enter => {
            &&& post == (App {
                tree_navigation: post.tree_navigation,
                command_executor: post.command_executor,
                ..pre
            })
            &&& post.command_executor.history == pre.command_executor.history
            &&& post.command_executor.spec_context() == post.tree_navigation.navigation_context@
            &&& select_outcome(nav, post.tree_navigation, stored_domain_view(pre.domain))
        },
        KeyInput::Up => {
            &&& post == (App { tree_navigation: post.tree_navigation, ..pre })
            &&& post.tree_navigation.tree_data == nav.tree_data
            &&& post.tree_navigation.navigation_context == nav.navigation_context
            &&& post.tree_navigation.tree_selection == if nav.tree_selection > 0 {
                nav.tree_selection - 1
            } else {
                0int
            }
        },
        KeyInput::Down => {
            &&& post == (App { tree_navigation: post.tree_navigation, ..pre })
            &&& post.tree_navigation.tree_data == nav.tree_data
            &&& post.tree_navigation.navigation_context == nav.navigation_context
            &&& post.tree_navigation.tree_selection == if nav.tree_selection + 1
                < visible_count_seq(nav.tree()) {
                nav.tree_selection + 1
            } else {
                nav.tree_selection as int
            }
        },
        KeyInput::Right => {
            &&& post == (App { tree_navigation: post.tree_navigation, ..pre })
            &&& expand_outcome(nav, post.tree_navigation, true)
        },
        KeyInput::Left => {
            &&& post == (App { tree_navigation: post.tree_navigation, ..pre })
            &&& expand_outcome(nav, post.tree_navigation, false)
        },
        KeyInput::PageUp => {
            &&& post == (App { tree_navigation: post.tree_navigation, ..pre })
            &&& post.tree_navigation.tree_data == nav.tree_data
            &&& post.tree_navigation.navigation_context == nav.navigation_context
            &&& post.tree_navigation.tree_selection == if nav.tree_selection >= 10 {
                nav.tree_selection - 10
            } else {
                0int
            }
        },
        KeyInput::PageDown => {
            &&& post == (App { tree_navigation: post.tree_navigation, ..pre })
            &&& post.tree_navigation.tree_data == nav.tree_data
            &&& post.tree_navigation.navigation_context == nav.navigation_context
            &&& post.tree_navigation.tree_selection == if nav.tree_selection + 10
                < visible_count_seq(nav.tree()) {
                nav.tree_selection + 10
            } else if visible_count_seq(nav.tree()) > 0 && nav.tree_selection < visible_count_seq(
                nav.tree(),
            ) {
                visible_count_seq(nav.tree()) - 1
            } else {
                nav.tree_selection as int
            }
        },
        KeyInput::Char(c) => {
            if c == 'c' {
                post == (App {
                    current_screen: if nav.navigation_context@.complete() {
                        Screen::CommandExecution
                    } else {
                        pre.current_screen
                    },
                    ..pre
                })
            } else if c == '/' {
                &&& post == (App { search_manager: post.search_manager, ui: post.ui, ..pre })
                &&& post.search_manager.search_mode
                &&& post.search_manager.search_query@ == Seq::<char>::empty()
                &&& post.search_manager.filtered_tree_items is None
                &&& post.ui.status_message@ == "Search mode: type to filter, Esc to exit"@
                &&& post.ui.is_loading == pre.ui.is_loading
            } else {
                post == pre
            }
        },
        _ => post == pre,
    }
}

/// What one key does in search mode: query edits recompute the filter over
/// the current flattened rows and rest the cursor at the top; Enter commits
/// the filtered row under the cursor by its original index, selecting it with
/// its parents, and leaves search; Escape leaves search; arrows move within
/// the filtered rows.
pub open spec fn search_effect(pre: App, post: App, code: KeyInput) -> bool {
    let nav = pre.tree_navigation;
    let q = pre.search_manager.search_query@;
    match code {
        KeyInput::Esc => {
            &&& post == (App {
                search_manager: post.search_manager,
                ui: post.ui,
                tree_navigation: post.tree_navigation,
                ..pre
            })
            &&& post.tree_navigation.tree_data == nav.tree_data
            &&& post.tree_navigation.navigation_context == nav.navigation_context
            &&& post.tree_navigation.tree_selection == 0
            &&& search_exited(pre, post)
        },
        KeyInput::Enter => {
            match pre.search_manager.filtered_tree_items {
                Some(f) => {
                    if nav.tree_selection < f@.len() {
                        &&& post == (App {
                            tree_navigation: post.tree_navigation,
                            command_executor: post.command_executor,
                            search_manager: post.search_manager,
                            ui: post.ui,
                            ..pre
                        })
                        &&& post.command_executor.history == pre.command_executor.history
                        &&& post.command_executor.spec_context()
                            == post.tree_navigation.navigation_context@
                        &&& search_exited(pre, post)
                        &&& select_with_parents_outcome(
                            TreeNavigationManager {
                                tree_selection: f@[nav.tree_selection as int].5,
                                ..nav
                            },
                            post.tree_navigation,
                            stored_domain_view(pre.domain),
                        )
                    } else {
                        &&& post == (App {
                            search_manager: post.search_manager,
                            ui: post.ui,
                            ..pre
                        })
                        &&& search_exited(pre, post)
                    }
                },
                None => {
                    &&& post == (App { search_manager: post.search_manager, ui: post.ui, ..pre })
                    &&& search_exited(pre, post)
                },
            }
        },
        KeyInput::Backspace => {
            &&& post == (App {
                search_manager: post.search_manager,
                tree_navigation: post.tree_navigation,
                ..pre
            })
            &&& post.tree_navigation.tree_data == nav.tree_data
            &&& post.tree_navigation.navigation_context == nav.navigation_context
            &&& post.tree_navigation.tree_selection == 0
            &&& post.search_manager.search_mode == pre.search_manager.search_mode
            &&& q.len() == 0 ==> post.search_manager.search_query == pre.search_manager.search_query
                && post.search_manager.filtered_tree_items
                == pre.search_manager.filtered_tree_items
            &&& q.len() > 0 ==> post.search_manager.search_query@ == q.drop_last()
            &&& q.len() > 1 ==> (post.search_manager.filtered_tree_items matches Some(v)
                && items_view(v@) == filter_result(flatten_seq(nav.tree(), 0), q.drop_last()))
            &&& q.len() == 1 ==> post.search_manager.filtered_tree_items is None
        },
        KeyInput::Char(c) => {
            &&& post == (App {
                search_manager: post.search_manager,
                tree_navigation: post.tree_navigation,
                ..pre
            })
            &&& post.tree_navigation.tree_data == nav.tree_data
            &&& post.tree_navigation.navigation_context == nav.navigation_context
            &&& post.tree_navigation.tree_selection == 0
            &&& post.search_manager.search_mode == pre.search_manager.search_mode
            &&& post.search_manager.search_query@ == q.push(c)
            &&& (post.search_manager.filtered_tree_items matches Some(v) && items_view(v@)
                == filter_result(flatten_seq(nav.tree(), 0), q.push(c)))
        },
        KeyInput::Up => {
            &&& post == (App { tree_navigation: post.tree_navigation, ..pre })
            &&& post.tree_navigation.tree_data == nav.tree_data
            &&& post.tree_navigation.navigation_context == nav.navigation_context
            &&& post.tree_navigation.tree_selection == if nav.tree_selection > 0 {
                nav.tree_selection - 1
            } else {
                0int
            }
        },
        KeyInput::Down => {
            &&& post == (App { tree_navigation: post.tree_navigation, ..pre })
            &&& post.tree_navigation.tree_data == nav.tree_data
            &&& post.tree_navigation.navigation_context == nav.navigation_context
            &&& post.tree_navigation.tree_selection == match pre.search_manager.filtered_tree_items {
                Some(f) => if nav.tree_selection + 1 < f@.len() {
                    nav.tree_selection + 1
                } else {
                    nav.tree_selection as int
                },
                None => if nav.tree_selection + 1 < visible_count_seq(nav.tree()) {
                    nav.tree_selection + 1
                } else {
                    nav.tree_selection as int
                },
            }
        },
        _ => post == pre,
    }
}

/// What a mouse event does: scrolling moves the tree cursor while browsing
/// outside search mode; everything else changes nothing.
pub open spec fn mouse_effect(pre: App, post: App, kind: MouseKind) -> bool {
    let nav = pre.tree_navigation;
    if pre.current_screen == Screen::TreeNavigation && !pre.search_manager.search_mode {
        match kind {
            MouseKind::ScrollUp => {
                &&& post == (App { tree_navigation: post.tree_navigation, ..pre })
                &&& post.tree_navigation.tree_data == nav.tree_data
                &&& post.tree_navigation.navigation_context == nav.navigation_context
                &&& post.tree_navigation.tree_selection == if nav.tree_selection > 0 {
                    nav.tree_selection - 1
                } else {
                    0int
                }
            },
            MouseKind::ScrollDown => {
                &&& post == (App { tree_navigation: post.tree_navigation, ..pre })
                &&& post.tree_navigation.tree_data == nav.tree_data
                &&& post.tree_navigation.navigation_context == nav.navigation_context
                &&& post.tree_navigation.tree_selection == if nav.tree_selection + 1
                    < visible_count_seq(nav.tree()) {
                    nav.tree_selection + 1
                } else {
                    nav.tree_selection as int
                }
            },
            MouseKind::Other => post == pre,
        }
    } else {
        post == pre
    }
}

/// What one key does on the main menu.
pub open spec fn main_menu_effect(pre: App, post: App, code: KeyInput) -> bool {
    post == (App {
        current_screen: if code == KeyInput::Char('1') {
            Screen::CqlBuilder
        } else if code == KeyInput::Char('2') {
            Screen::PageBrowser
        } else if code == KeyInput::Char('3') {
            Screen::LabelManager
        } else if code == KeyInput::Char('h') {
            Screen::Help
        } else {
            pre.current_screen
        },
        ..pre
    })
}

/// What one key does on the query builder screen.
pub open spec fn cql_builder_effect(pre: App, post: App, code: KeyInput) -> bool {
    post == (App {
        current_screen: if code == KeyInput::Backspace {
            Screen::MainMenu
        } else if code == KeyInput::Enter {
            Screen::PageBrowser
        } else {
            pre.current_screen
        },
        ..pre
    })
}

/// What one key does on the page browser screen.
pub open spec fn page_browser_effect(pre: App, post: App, code: KeyInput) -> bool {
    post == (App {
        current_screen: if code == KeyInput::Backspace {
            Screen::MainMenu
        } else if code == KeyInput::Enter {
            Screen::LabelManager
        } else {
            pre.current_screen
        },
        ..pre
    })
}

/// What one key does on the label manager screen.
pub open spec fn label_manager_effect(pre: App, post: App, code: KeyInput) -> bool {
    post == (App {
        current_screen: if code == KeyInput::Backspace {
            Screen::PageBrowser
        } else {
            pre.current_screen
        },
        ..pre
    })
}

/// What one key does on the help screen.
pub open spec fn help_effect(pre: App, post: App, code: KeyInput) -> bool {
    post == (App {
        current_screen: if code == KeyInput::Backspace || code == KeyInput::Esc {
            Screen::MainMenu
        } else {
            pre.current_screen
        },
        ..pre
    })
}

/// What confirming the selected command does: with no operation picked,
/// nothing; with a complete context, the state stands and the built command
/// line is handed out; with an incomplete context, nothing is handed out and
/// only the status line changes, saying why.
pub open spec fn execute_effect(pre: App, post: App, r: Option<CommandRequest>) -> bool {
    match pre.command_input.selected_command {
        None => post == pre && r is None,
        Some(cmd) => {
            if pre.command_executor.spec_context().complete() {
                &&& post == pre
                &&& r matches Some(req) && req.command_line@ == join_with(
                    spec_command_parts(
                        command_view(cmd).0.spec_word(),
                        pre.command_executor.spec_context().cql()->0,
                        spec_split_whitespace(pre.command_input.text@),
                        false,
                    ),
                    " "@,
                ) && strings_view(req.args@) == spec_command_args(req.command_line@)
            } else {
                &&& r is None
                &&& post == (App { ui: post.ui, ..pre })
                &&& post.ui.is_loading == pre.ui.is_loading
                &&& post.ui.status_message@
                    == "Error executing command: No valid context for command execution"@
            }
        },
    }
}

/// What one key does on the command screen: Escape or Backspace return to
/// browsing; Enter picks the highlighted operation or confirms the command;
/// arrows and Delete edit the selection or the typed arguments; letters
/// quick-select an operation by its first letter or type into the arguments.
pub open spec fn command_exec_effect(
    pre: App,
    post: App,
    code: KeyInput,
    r: Option<CommandRequest>,
) -> bool {
    let input = pre.command_input;
    match code {
        KeyInput::Backspace => post == (App {
            current_screen: Screen::TreeNavigation,
            ..pre
        }) && r is None,
        KeyInput::Esc => post == (App { current_screen: Screen::TreeNavigation, ..pre }) && r
            is None,
        KeyInput::Enter => {
            match input.mode {
                CommandInputMode::SelectingCommand => {
                    &&& r is None
                    &&& if pre.command_selection < available_len(pre) {
                        &&& post == (App { command_input: post.command_input, ..pre })
                        &&& post.command_input.mode == CommandInputMode::TypingArgs
                        &&& post.command_input.text@ == Seq::<char>::empty()
                        &&& post.command_input.cursor == 0
                        &&& (post.command_input.selected_command matches Some(cmd) && command_view(
                            cmd,
                        ) == ctag_command_set()[pre.command_selection as int])
                    } else {
                        post == pre
                    }
                },
                CommandInputMode::TypingArgs => execute_effect(pre, post, r),
                CommandInputMode::Ready => execute_effect(pre, post, r),
            }
        },
        KeyInput::Up => {
            &&& r is None
            &&& post == (App { command_selection: post.command_selection, ..pre })
            &&& post.command_selection == if input.mode == CommandInputMode::SelectingCommand
                && pre.command_selection > 0 {
                pre.command_selection - 1
            } else {
                pre.command_selection as int
            }
        },
        KeyInput::Down => {
            &&& r is None
            &&& post == (App { command_selection: post.command_selection, ..pre })
            &&& post.command_selection == if input.mode == CommandInputMode::SelectingCommand
                && pre.command_selection + 1 < available_len(pre) {
                pre.command_selection + 1
            } else {
                pre.command_selection as int
            }
        },
        KeyInput::Left => {
            &&& r is None
            &&& if input.mode == CommandInputMode::TypingArgs {
                &&& post == (App { command_input: post.command_input, ..pre })
                &&& post.command_input.text == input.text
                &&& post.command_input.selected_command == input.selected_command
                &&& post.command_input.mode == input.mode
                &&& post.command_input.cursor == if input.cursor > 0 {
                    input.cursor - 1
                } else {
                    0int
                }
            } else {
                post == pre
            }
        },
        KeyInput::Right => {
            &&& r is None
            &&& if input.mode == CommandInputMode::TypingArgs {
                &&& post == (App { command_input: post.command_input, ..pre })
                &&& post.command_input.text == input.text
                &&& post.command_input.selected_command == input.selected_command
                &&& post.command_input.mode == input.mode
                &&& post.command_input.cursor == if input.cursor < input.text@.len() {
                    input.cursor + 1
                } else {
                    input.cursor as int
                }
            } else {
                post == pre
            }
        },
        KeyInput::Delete => {
            &&& r is None
            &&& if input.mode == CommandInputMode::TypingArgs {
                &&& post == (App { command_input: post.command_input, ..pre })
                &&& post.command_input.selected_command == input.selected_command
                &&& post.command_input.mode == input.mode
                &&& input.cursor == 0 ==> post.command_input == input
                &&& input.cursor > 0 ==> post.command_input.cursor == input.cursor - 1
                    && post.command_input.text@ == input.text@.remove(input.cursor - 1)
            } else {
                post == pre
            }
        },
        KeyInput::Char(c) => {
            match input.mode {
                CommandInputMode::TypingArgs => {
                    &&& r is None
                    &&& post == (App { command_input: post.command_input, ..pre })
                    &&& post.command_input.selected_command == input.selected_command
                    &&& post.command_input.mode == input.mode
                    &&& post.command_input.cursor == input.cursor + 1
                    &&& post.command_input.text@ == input.text@.insert(input.cursor as int, c)
                },
                CommandInputMode::SelectingCommand => {
                    &&& r is None
                    &&& post == (App { command_selection: post.command_selection, ..pre })
                    &&& if available_len(pre) == 4 {
                        post.command_selection == quick_pick(c, pre.command_selection)
                    } else {
                        post.command_selection == pre.command_selection
                    }
                },
                CommandInputMode::Ready => post == pre && r is None,
            }
        },
        _ => post == pre && r is None,
    }
}

/// Event handler for the application.
pub struct EventHandler;

impl EventHandler {
    /// Create a new event handler instance.
    pub fn new() -> Self {
        EventHandler
    }

    /// Handle an incoming event: control-c always requests shutdown; any
    /// other event is routed by the current screen and has exactly the
    /// routed handler's effect. The command screen is entered only from a
    /// complete context.
    pub fn handle_event(app: &mut App, event: InputEvent) -> (r: Option<CommandRequest>)
        requires
            old(app).wf(),
        ensures
            final(app).wf(),
            final(app).current_screen == Screen::CommandExecution && old(app).current_screen
                != Screen::CommandExecution ==> old(
                app,
            ).tree_navigation.navigation_context@.complete(),
            event matches InputEvent::Key { code, ctrl } && ctrl && code == KeyInput::Char('c')
                ==> *final(app) == (App { should_quit: true, ..*old(app) }) && r is None,
            event matches InputEvent::Key { code, ctrl } ==> (!(ctrl && code == KeyInput::Char(
                'c',
            )) ==> {
                &&& old(app).current_screen == Screen::TreeNavigation && old(
                    app,
                ).search_manager.search_mode ==> search_effect(*old(app), *final(app), code) && r
                    is None
                &&& old(app).current_screen == Screen::TreeNavigation && !old(
                    app,
                ).search_manager.search_mode ==> tree_nav_effect(*old(app), *final(app), code) && r
                    is None
                &&& old(app).current_screen == Screen::CommandExecution ==> command_exec_effect(
                    *old(app),
                    *final(app),
                    code,
                    r,
                )
                &&& old(app).current_screen == Screen::MainMenu ==> main_menu_effect(
                    *old(app),
                    *final(app),
                    code,
                ) && r is None
                &&& old(app).current_screen == Screen::CqlBuilder ==> cql_builder_effect(
                    *old(app),
                    *final(app),
                    code,
                ) && r is None
                &&& old(app).current_screen == Screen::PageBrowser ==> page_browser_effect(
                    *old(app),
                    *final(app),
                    code,
                ) && r is None
                &&& old(app).current_screen == Screen::LabelManager ==> label_manager_effect(
                    *old(app),
                    *final(app),
                    code,
                ) && r is None
                &&& old(app).current_screen == Screen::Help ==> help_effect(
                    *old(app),
                    *final(app),
                    code,
                ) && r is None
            }),
            event matches InputEvent::Mouse { kind } ==> mouse_effect(*old(app), *final(app), kind)
                && r is None,
            event is Other ==> *final(app) == *old(app) && r is None,
    {
        match event {
            InputEvent::Key { code, ctrl } => {
                if ctrl {
                    if let KeyInput::Char(c) = code {
                        if c == 'c' {
                            app.should_quit = true;
                            return None;
                        }
                    }
                }
                match app.current_screen {
                    Screen::TreeNavigation => {
                        if app.is_search_mode() {
                            Self::handle_search_input(app, code);
                        } else {
                            Self::handle_tree_navigation_input(app, code);
                        }
                        None
                    },
                    Screen::CommandExecution => Self::handle_command_execution_input(app, code),
                    Screen::MainMenu => {
                        Self::handle_main_menu_input(app, code);
                        None
                    },
                    Screen::CqlBuilder => {
                        Self::handle_cql_builder_input(app, code);
                        None
                    },
                    Screen::PageBrowser => {
                        Self::handle_page_browser_input(app, code);
                        None
                    },
                    Screen::LabelManager => {
                        Self::handle_label_manager_input(app, code);
                        None
                    },
                    Screen::Help => {
                        Self::handle_help_input(app, code);
                        None
                    },
                }
            },
            InputEvent::Mouse { kind } => {
                Self::handle_mouse_event(app, kind);
                None
            },
            InputEvent::Other => None,
        }
    }

    /// Handle tree navigation input; the whole effect of every key is
    /// `tree_nav_effect`.
    pub fn handle_tree_navigation_input(app: &mut App, code: KeyInput)
        requires
            old(app).wf(),
        ensures
            final(app).wf(),
            tree_nav_effect(*old(app), *final(app), code),
    {
        match code {
            KeyInput::Enter => {
                let domain_ref = app.domain.as_ref();
                proof {
                    assert(crate::tree_navigation::opt_domain_view(domain_ref)
                        == stored_domain_view(old(app).domain));
                }
                app.tree_navigation.select_current_node(domain_ref);
                let context_copy = app.tree_navigation.navigation_context.clone();
                app.command_executor.update_context(context_copy);
            },
            KeyInput::Up => {
                app.tree_navigation.move_selection_up();
            },
            KeyInput::Down => {
                app.tree_navigation.move_selection_down();
            },
            KeyInput::Right => {
                app.tree_navigation.expand_current_node();
            },
            KeyInput::Left => {
                app.tree_navigation.collapse_current_node();
            },
            KeyInput::Char(c) => {
                if c == 'c' {
                    if app.tree_navigation.navigation_context.is_complete() {
                        app.switch_screen(Screen::CommandExecution);
                    }
                } else if c == '/' {
                    app.search_manager.enter_search_mode(&mut app.ui);
                }
            },
            KeyInput::PageUp => {
                app.tree_navigation.page_up();
            },
            KeyInput::PageDown => {
                app.tree_navigation.page_down();
            },
            _ => {},
        }
    }

    /// Handle search input; the whole effect of every key is `search_effect`.
    pub fn handle_search_input(app: &mut App, code: KeyInput)
        requires
            old(app).wf(),
        ensures
            final(app).wf(),
            search_effect(*old(app), *final(app), code),
    {
        match code {
            KeyInput::Esc => {
                app.search_manager.exit_search_mode(&mut app.ui);
                app.tree_navigation.tree_selection = 0;
            },
            KeyInput::Enter => {
                let found = app.search_manager.get_original_index_for_filtered_item(
                    app.tree_navigation.tree_selection,
                );
                if let Some(original_index) = found {
                    app.tree_navigation.tree_selection = original_index;
                    let domain_ref = app.domain.as_ref();
                    proof {
                        assert(crate::tree_navigation::opt_domain_view(domain_ref)
                            == stored_domain_view(old(app).domain));
                    }
                    app.tree_navigation.select_current_node_with_parents(domain_ref);
                    let context_copy = app.tree_navigation.navigation_context.clone();
                    app.command_executor.update_context(context_copy);
                    app.search_manager.exit_search_mode(&mut app.ui);
                } else {
                    app.search_manager.exit_search_mode(&mut app.ui);
                }
            },
            KeyInput::Backspace => {
                let tree_items = app.tree_navigation.get_tree_items();
                app.tree_navigation.tree_selection = app.search_manager.remove_from_query(
                    &tree_items,
                );
            },
            KeyInput::Char(c) => {
                let tree_items = app.tree_navigation.get_tree_items();
                app.tree_navigation.tree_selection = app.search_manager.add_to_query(
                    c,
                    &tree_items,
                );
            },
            KeyInput::Up => {
                if app.search_manager.filtered_tree_items.is_some() {
                    if app.tree_navigation.tree_selection > 0 {
                        app.tree_navigation.tree_selection = app.tree_navigation.tree_selection
                            - 1;
                    }
                } else {
                    app.tree_navigation.move_selection_up();
                }
            },
            KeyInput::Down => {
                if let Some(filtered_items) = &app.search_manager.filtered_tree_items {
                    if app.tree_navigation.tree_selection < filtered_items.len().saturating_sub(
                        1,
                    ) {
                        app.tree_navigation.tree_selection = app.tree_navigation.tree_selection
                            + 1;
                    }
                } else {
                    app.tree_navigation.move_selection_down();
                }
            },
            _ => {},
        }
    }

    /// Handle mouse events; the whole effect is `mouse_effect`.
    pub fn handle_mouse_event(app: &mut App, kind: MouseKind)
        requires
            old(app).wf(),
        ensures
            final(app).wf(),
            mouse_effect(*old(app), *final(app), kind),
    {
        match kind {
            MouseKind::ScrollUp => {
                if app.current_screen == Screen::TreeNavigation && !app.is_search_mode() {
                    app.tree_navigation.move_selection_up();
                }
            },
            MouseKind::ScrollDown => {
                if app.current_screen == Screen::TreeNavigation && !app.is_search_mode() {
                    app.tree_navigation.move_selection_down();
                }
            },
            MouseKind::Other => {},
        }
    }

    /// Handle main menu input: number keys pick a screen.
    pub fn handle_main_menu_input(app: &mut App, code: KeyInput)
        ensures
            main_menu_effect(*old(app), *final(app), code),
    {
        match code {
            KeyInput::Char(c) => {
                if c == '1' {
                    app.switch_screen(Screen::CqlBuilder);
                } else if c == '2' {
                    app.switch_screen(Screen::PageBrowser);
                } else if c == '3' {
                    app.switch_screen(Screen::LabelManager);
                } else if c == 'h' {
                    app.switch_screen(Screen::Help);
                }
            },
            _ => {},
        }
    }

    /// Handle CQL builder input: back on backspace, results on enter.
    pub fn handle_cql_builder_input(app: &mut App, code: KeyInput)
        ensures
            cql_builder_effect(*old(app), *final(app), code),
    {
        match code {
            KeyInput::Backspace => {
                app.switch_screen(Screen::MainMenu);
            },
            KeyInput::Enter => {
                app.switch_screen(Screen::PageBrowser);
            },
            _ => {},
        }
    }

    /// Handle page browser input: back on backspace, labels on enter.
    pub fn handle_page_browser_input(app: &mut App, code: KeyInput)
        ensures
            page_browser_effect(*old(app), *final(app), code),
    {
        match code {
            KeyInput::Backspace => {
                app.switch_screen(Screen::MainMenu);
            },
            KeyInput::Enter => {
                app.switch_screen(Screen::LabelManager);
            },
            _ => {},
        }
    }

    /// Handle label manager input: back on backspace.
    pub fn handle_label_manager_input(app: &mut App, code: KeyInput)
        ensures
            label_manager_effect(*old(app), *final(app), code),
    {
        match code {
            KeyInput::Backspace => {
                app.switch_screen(Screen::PageBrowser);
            },
            _ => {},
        }
    }

    /// Handle help input: back on backspace or escape.
    pub fn handle_help_input(app: &mut App, code: KeyInput)
        ensures
            help_effect(*old(app), *final(app), code),
    {
        match code {
            KeyInput::Backspace => {
                app.switch_screen(Screen::MainMenu);
            },
            KeyInput::Esc => {
                app.switch_screen(Screen::MainMenu);
            },
            _ => {},
        }
    }

    /// Handle input on the command screen; the whole effect of every key,
    /// and when a request is owed, is `command_exec_effect`.
    #[verifier::loop_isolation(false)]
    pub fn handle_command_execution_input(app: &mut App, code: KeyInput) -> (r: Option<
        CommandRequest,
    >)
        requires
            old(app).wf(),
        ensures
            final(app).wf(),
            command_exec_effect(*old(app), *final(app), code, r),
    {
        match code {
            KeyInput::Backspace => {
                app.switch_screen(Screen::TreeNavigation);
                None
            },
            KeyInput::Esc => {
                app.switch_screen(Screen::TreeNavigation);
                None
            },
            KeyInput::Enter => {
                match app.command_input.mode {
                    CommandInputMode::SelectingCommand => {
                        let available_commands = app.command_executor.get_available_commands();

                        proof {
                            if exposes_ctag(old(app).command_executor.spec_context()) {
                                assert(ctag_command_set().len() == 4);
                                assert(crate::command::commands_view(available_commands@).len()
                                    == available_commands@.len());
                            }
                            assert(available_commands@.len() == available_len(*old(app)));
                        }
                        if app.command_selection < available_commands.len() {
                            let command = available_commands[app.command_selection].clone();
                            proof {
                                assert(command_view(command) == crate::command::commands_view(
                                    available_commands@,
                                )[old(app).command_selection as int]);
                            }
                            app.command_input.set_command(command);
                        }
                        None
                    },
                    CommandInputMode::TypingArgs => Self::execute_selected_command(app),
                    CommandInputMode::Ready => Self::execute_selected_command(app),
                }
            },
            KeyInput::Up => {
                if app.command_input.mode == CommandInputMode::SelectingCommand
                    && app.command_selection > 0 {
                    app.command_selection = app.command_selection - 1;
                }
                None
            },
            KeyInput::Down => {
                if app.command_input.mode == CommandInputMode::SelectingCommand {
                    let available_commands = app.command_executor.get_available_commands();
                    proof {
                        if exposes_ctag(old(app).command_executor.spec_context()) {
                            assert(ctag_command_set().len() == 4);
                            assert(crate::command::commands_view(available_commands@).len()
                                == available_commands@.len());
                        }
                        assert(available_commands@.len() == available_len(*old(app)));
                    }
                    if app.command_selection < available_commands.len().saturating_sub(1) {
                        app.command_selection = app.command_selection + 1;
                    }
                }
                None
            },
            KeyInput::Left => {
                if app.command_input.mode == CommandInputMode::TypingArgs {
                    app.command_input.move_cursor_left();
                }
                None
            },
            KeyInput::Right => {
                if app.command_input.mode == CommandInputMode::TypingArgs {
                    app.command_input.move_cursor_right();
                }
                None
            },
            KeyInput::Delete => {
                if app.command_input.mode == CommandInputMode::TypingArgs {
                    app.command_input.delete_char();
                }
                None
            },
            KeyInput::Char(c) => {
                match app.command_input.mode {
                    CommandInputMode::TypingArgs => {
                        app.command_input.insert_char(c);
                        None
                    },
                    CommandInputMode::SelectingCommand => {
                        let available_commands = app.command_executor.get_available_commands();
                        let ghost ops = ctag_command_set();
                        proof {
                            if exposes_ctag(old(app).command_executor.spec_context()) {
                                assert(ctag_command_set().len() == 4);
                                assert(crate::command::commands_view(available_commands@).len()
                                    == available_commands@.len());
                            }
                            assert(available_commands@.len() == available_len(*old(app)));
                            reveal_strlit("list");
                            reveal_strlit("add");
                            reveal_strlit("update");
                            reveal_strlit("remove");
                            assert(ops[0].0.spec_word()[0] == 'l');
                            assert(ops[1].0.spec_word()[0] == 'a');
                            assert(ops[2].0.spec_word()[0] == 'u');
                            assert(ops[3].0.spec_word()[0] == 'r');
                        }
                        let target = ascii_lower(c);
                        let mut pick: Option<usize> = None;
                        let mut i: usize = 0;
                        while i < available_commands.len()
                            invariant
                                i <= available_commands@.len(),
                                *app == *old(app),
                                match pick {
                                    Some(j) => j < i && spec_ascii_lower(c) == (
                                    #[trigger] ops[j as int].0.spec_word())[0] && forall|k: int|
                                        0 <= k < j ==> spec_ascii_lower(c) != (
                                        #[trigger] ops[k].0.spec_word())[0],
                                    None => forall|k: int|
                                        0 <= k < i ==> spec_ascii_lower(c) != (
                                        #[trigger] ops[k].0.spec_word())[0],
                                },
                            decreases available_commands@.len() - i,
                        {
                            let AvailableCommand::Ctag { operation, .. } = &available_commands[i];
                            let op_str = operation.as_str();
                            let first_char = if op_str.unicode_len() > 0 {
                                op_str.get_char(0)
                            } else {
                                ' '
                            };
                            proof {
                                assert(crate::command::commands_view(
                                    available_commands@,
                                )[i as int] == ops[i as int]);
                            }
                            if pick.is_none() && target == ascii_lower(first_char) {
                                pick = Some(i);
                            }
                            i = i + 1;
                        }
                        if let Some(j) = pick {
                            app.command_selection = j;
                        }
                        None
                    },
                    CommandInputMode::Ready => None,
                }
            },
            _ => None,
        }
    }

    /// Build and hand out the currently selected command: the operation as
    /// picked, the query fragment of the context, and the typed free
    /// arguments split into words. The whole effect, on both outcome paths,
    /// is `execute_effect`: in particular, the history and the rest of the
    /// state stand untouched.
    pub fn execute_selected_command(app: &mut App) -> (r: Option<CommandRequest>)
        requires
            old(app).wf(),
        ensures
            final(app).wf(),
            execute_effect(*old(app), *final(app), r),
    {
        if let Some(selected) = &app.command_input.selected_command {
            let AvailableCommand::Ctag { operation, .. } = selected;
            let args = crate::strutil::split_whitespace_words(app.command_input.text.as_str());
            let command = TuiCommand {
                name: String::from_str("ctag"),
                operation: operation.as_str().to_owned(),
                args,
                dry_run: false,
            };
            let built = app.command_executor.build_command_string(&command);
            match built {
                Ok(cmd_string) => {
                    let parsed = app.command_executor.parse_command_args(cmd_string.as_str());
                    Some(CommandRequest { command_line: cmd_string, args: parsed })
                },
                Err(e) => {
                    let mut msg = String::from_str("Error executing command: ");
                    let detail = e.message();
                    msg.append(detail.as_str());
                    proof {
                        reveal_strlit("Error executing command: ");
                        reveal_strlit("No valid context for command execution");
                        reveal_strlit(
                            "Error executing command: No valid context for command execution",
                        );
                        assert(msg@
                            =~= "Error executing command: No valid context for command execution"@);
                    }
                    app.ui.set_status(msg);
                    None
                },
            }
        } else {
            None
        }
    }

    /// Record a captured command result: it enters the history, the status
    /// line reports success or the captured standard error, and nothing else
    /// of the state moves.
    pub fn complete_command_execution(app: &mut App, result: CommandResult)
        ensures
            *final(app) == (App {
                command_executor: final(app).command_executor,
                ui: final(app).ui,
                ..*old(app)
            }),
            final(app).command_executor.history@ == old(app).command_executor.history@.push(
                result,
            ),
            final(app).command_executor.spec_context() == old(
                app,
            ).command_executor.spec_context(),
            final(app).ui.is_loading == old(app).ui.is_loading,
            result.success ==> final(app).ui.status_message@
                == "Command executed successfully: "@ + result.command@,
            !result.success ==> final(app).ui.status_message@ == "Command failed: "@
                + result.stderr@,
            old(app).wf() ==> final(app).wf(),
    {
        let mut msg: String;
        if result.success {
            msg = String::from_str("Command executed successfully: ");
            msg.append(result.command.as_str());
        } else {
            msg = String::from_str("Command failed: ");
            msg.append(result.stderr.as_str());
        }
        app.command_executor.record_result(result);
        app.ui.set_status(msg);
    }
}

} // verus!
