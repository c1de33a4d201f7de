//! The screens of the interface. Transitions between them are decided by the
//! event handler, which admits the command screen only on a complete context.

use vstd::prelude::*;

verus! {

/// The screens the interface can show.
#[derive(Debug, Clone, Copy, PartialEq, Eq, Structural)]
pub enum Screen {
    /// Tree navigation screen for selecting domain/product/project.
    TreeNavigation,
    /// Main menu screen (legacy).
    MainMenu,
    /// CQL query builder screen.
    CqlBuilder,
    /// Page browser screen showing results.
    PageBrowser,
    /// Label management screen.
    LabelManager,
    /// Help screen.
    Help,
    /// Command execution screen for running label commands.
    CommandExecution,
}

} // verus!
