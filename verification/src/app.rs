//! The application state the screens share. The terminal, the HTTP client
//! and the event loop live outside the library; they feed this state through
//! the event handler and read it back for drawing.

use vstd::prelude::*;

use crate::command::{AvailableCommand, CommandExecutor, CommandInput, CommandResult};
use crate::models::{AtlassianDomain, NavigationContext};
use crate::screens::Screen;
use crate::search::{FilteredItem, SearchManager};
use crate::tree_navigation::{
    flatten_seq, product_nodes, rows_view, visible_count_seq, TreeNavigationManager,
};
use crate::ui::Ui;

verus! {

/// Main application state.
pub struct App {
    /// Should the application exit?
    pub should_quit: bool,
    /// Current active screen.
    pub current_screen: Screen,
    /// UI state handler.
    pub ui: Ui,
    /// Tree navigation manager.
    pub tree_navigation: TreeNavigationManager,
    /// Search manager.
    pub search_manager: SearchManager,
    /// Available domain loaded at startup.
    pub domain: Option<AtlassianDomain>,
    /// Command executor for running label commands.
    pub command_executor: CommandExecutor,
    /// Command input state.
    pub command_input: CommandInput,
    /// Current command selection index.
    pub command_selection: usize,
    /// Command output lines.
    pub command_output: Vec<String>,
    /// Command output scroll position.
    pub command_output_scroll: usize,
}

impl App {
    /// The machine bounds the state keeps: the tree's height and the command
    /// cursor stay in range.
    pub open spec fn wf(self) -> bool {
        self.tree_navigation.wf() && self.command_input.wf()
    }

    /// Create a new application state; domain data is loaded separately.
    pub fn new() -> (r: Self)
        ensures
            !r.should_quit,
            r.current_screen == Screen::TreeNavigation,
            r.domain is None,
            r.tree_navigation.tree() =~= Seq::<crate::models::TreeNodeView>::empty(),
            r.tree_navigation.tree_selection == 0,
            !r.search_manager.search_mode,
            r.command_executor.history@.len() == 0,
            r.command_selection == 0,
            r.command_output@.len() == 0,
            r.command_output_scroll == 0,
            r.command_input.mode == crate::command::CommandInputMode::SelectingCommand,
            r.wf(),
    {
        let tree_navigation = TreeNavigationManager::new();
        let context_copy = tree_navigation.navigation_context.clone();
        let command_executor = CommandExecutor::new(context_copy);
        App {
            should_quit: false,
            current_screen: Screen::TreeNavigation,
            ui: Ui::new(),
            tree_navigation,
            search_manager: SearchManager::new(),
            domain: None,
            command_executor,
            command_input: CommandInput::new(),
            command_selection: 0,
            command_output: Vec::new(),
            command_output_scroll: 0,
        }
    }

    /// Install discovered domain data: the tree is rebuilt from it.
    pub fn load_domain_data(&mut self, domain: AtlassianDomain)
        ensures
            final(self).tree_navigation.tree() == product_nodes(domain@.products),
            final(self).domain matches Some(d) && d@ == domain@,
            final(self).should_quit == old(self).should_quit,
            final(self).current_screen == old(self).current_screen,
            final(self).command_input == old(self).command_input,
            old(self).command_input.wf() ==> final(self).wf(),
    {
        let domain_copy = domain.clone();
        self.tree_navigation.build_tree_data(domain_copy);
        self.domain = Some(domain);
    }

    /// Switch to a different screen.
    pub fn switch_screen(&mut self, screen: Screen)
        ensures
            *final(self) == (App { current_screen: screen, ..*old(self) }),
    {
        self.current_screen = screen;
    }

    /// Get available commands for the current context.
    pub fn get_available_commands(&self) -> (r: Vec<AvailableCommand>)
        ensures
            crate::command::exposes_ctag(self.command_executor.spec_context())
                ==> crate::command::commands_view(r@) == crate::command::ctag_command_set(),
            !crate::command::exposes_ctag(self.command_executor.spec_context()) ==> r@.len() == 0,
    {
        self.command_executor.get_available_commands()
    }

    /// Get the most recent command result.
    pub fn get_last_command_result(&self) -> (r: Option<&CommandResult>)
        ensures
            self.command_executor.history@.len() == 0 ==> r is None,
            self.command_executor.history@.len() > 0 ==> r == Some(
                &self.command_executor.history@.last(),
            ),
    {
        self.command_executor.get_last_result()
    }

    /// Get all visible tree items for display (flattened with indentation).
    pub fn get_tree_items(&self) -> (items: Vec<(String, usize, bool)>)
        requires
            self.wf(),
        ensures
            rows_view(items@) == flatten_seq(self.tree_navigation.tree(), 0),
            items@.len() == visible_count_seq(self.tree_navigation.tree()),
    {
        self.tree_navigation.get_tree_items()
    }

    /// Get the items to display: the filtered rows when a filter stands, else
    /// the full flattened rows.
    pub fn get_display_items(&self) -> (r: Vec<(String, usize, bool)>)
        requires
            self.wf(),
        ensures
            self.search_manager.filtered_tree_items is None ==> rows_view(r@) == flatten_seq(
                self.tree_navigation.tree(),
                0,
            ),
            self.search_manager.filtered_tree_items matches Some(f) ==> r@.len() == f@.len(),
    {
        let tree_items = self.tree_navigation.get_tree_items();
        self.search_manager.get_display_items(&tree_items)
    }

    /// Get fuzzy search results with highlighting information.
    pub fn get_fuzzy_display_items(&self) -> (r: Option<&Vec<FilteredItem>>)
        ensures
            match r {
                Some(v) => self.search_manager.filtered_tree_items == Some(*v),
                None => self.search_manager.filtered_tree_items is None,
            },
    {
        self.search_manager.get_fuzzy_display_items()
    }

    /// Get current tree selection index.
    pub fn get_tree_selection(&self) -> (r: usize)
        ensures
            r == self.tree_navigation.tree_selection,
    {
        self.tree_navigation.tree_selection
    }

    /// Check if in search mode.
    pub fn is_search_mode(&self) -> (r: bool)
        ensures
            r == self.search_manager.search_mode,
    {
        self.search_manager.search_mode
    }

    /// Get current search query.
    pub fn get_search_query(&self) -> (r: &str)
        ensures
            r@ == self.search_manager.search_query@,
    {
        self.search_manager.search_query.as_str()
    }

    /// Get navigation context.
    pub fn get_navigation_context(&self) -> (r: &NavigationContext)
        ensures
            r == &self.tree_navigation.navigation_context,
    {
        &self.tree_navigation.navigation_context
    }

    /// Get filtered tree items.
    pub fn get_filtered_tree_items(&self) -> (r: Option<&Vec<FilteredItem>>)
        ensures
            match r {
                Some(v) => self.search_manager.filtered_tree_items == Some(*v),
                None => self.search_manager.filtered_tree_items is None,
            },
    {
        self.search_manager.filtered_tree_items.as_ref()
    }

    /// Clear navigation and search state.
    pub fn cleanup_resources(&mut self)
        ensures
            final(self).tree_navigation.tree() =~= Seq::<crate::models::TreeNodeView>::empty(),
            final(self).tree_navigation.tree_selection == 0,
            !final(self).search_manager.search_mode,
            final(self).domain is None,
            old(self).command_input.wf() ==> final(self).wf(),
    {
        self.tree_navigation.cleanup();
        self.search_manager.cleanup();
        self.domain = None;
    }
}

} // verus!
