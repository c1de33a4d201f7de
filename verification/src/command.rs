//! Command building and execution state: the operations a context exposes,
//! the command line built from a context, and the input state machine of the
//! command screen. Spawning the external process happens outside the library;
//! its captured result is recorded here.

use vstd::prelude::*;
use vstd::string::StringExecFns;

use crate::models::{NavigationContext, ProductType};
use crate::strutil::{join_with, strings_view};

verus! {

broadcast use vstd::std_specs::vec::group_vec_axioms;

/// A command that can be dispatched from the interface.
#[derive(Debug)]
pub struct TuiCommand {
    /// Command name (e.g., "ctag").
    pub name: String,
    /// Command operation (e.g., "list", "add", "remove").
    pub operation: String,
    /// Additional arguments.
    pub args: Vec<String>,
    /// Whether this is a dry run.
    pub dry_run: bool,
}

/// Result of executing a command.
#[derive(Debug)]
pub struct CommandResult {
    /// Exit code of the command.
    pub exit_code: i32,
    /// Standard output.
    pub stdout: String,
    /// Standard error.
    pub stderr: String,
    /// Command that was executed.
    pub command: String,
    /// Whether the command was successful.
    pub success: bool,
}

impl Clone for CommandResult {
    fn clone(&self) -> (r: Self)
        ensures
            r.exit_code == self.exit_code,
            r.stdout == self.stdout,
            r.stderr == self.stderr,
            r.command == self.command,
            r.success == self.success,
    {
        CommandResult {
            exit_code: self.exit_code,
            stdout: self.stdout.clone(),
            stderr: self.stderr.clone(),
            command: self.command.clone(),
            success: self.success,
        }
    }
}

/// ctag operations.
#[derive(Debug, Clone, Copy, PartialEq, Eq, Structural)]
pub enum CtagOperation {
    List,
    Add,
    Update,
    Remove,
}

impl CtagOperation {
    /// The word the operation is named by on the command line.
    pub open spec fn spec_word(self) -> Seq<char> {
        match self {
            CtagOperation::List => "list"@,
            CtagOperation::Add => "add"@,
            CtagOperation::Update => "update"@,
            CtagOperation::Remove => "remove"@,
        }
    }

    /// The word the operation is named by on the command line.
    pub fn as_str(&self) -> (r: &'static str)
        ensures
            r@ == self.spec_word(),
    {
        match self {
            CtagOperation::List => "list",
            CtagOperation::Add => "add",
            CtagOperation::Update => "update",
            CtagOperation::Remove => "remove",
        }
    }

    /// What the operation does, in words.
    pub fn description(&self) -> (r: &'static str)
        ensures
            *self == CtagOperation::List ==> r@ == "List labels for pages matching CQL"@,
            *self == CtagOperation::Add ==> r@ == "Add labels to pages matching CQL"@,
            *self == CtagOperation::Update ==> r@ == "Update labels on pages matching CQL"@,
            *self == CtagOperation::Remove ==> r@ == "Remove labels from pages matching CQL"@,
    {
        match self {
            CtagOperation::List => "List labels for pages matching CQL",
            CtagOperation::Add => "Add labels to pages matching CQL",
            CtagOperation::Update => "Update labels on pages matching CQL",
            CtagOperation::Remove => "Remove labels from pages matching CQL",
        }
    }
}

/// A command the current context exposes.
#[derive(Debug)]
pub enum AvailableCommand {
    /// ctag command for Confluence.
    Ctag { operation: CtagOperation, description: String },
}

/// The view of an available command: its operation and its description.
pub open spec fn command_view(c: AvailableCommand) -> (CtagOperation, Seq<char>) {
    match c {
        AvailableCommand::Ctag { operation, description } => (operation, description@),
    }
}

/// The views of available commands, in order.
pub open spec fn commands_view(s: Seq<AvailableCommand>) -> Seq<(CtagOperation, Seq<char>)> {
    s.map_values(|c: AvailableCommand| command_view(c))
}

impl Clone for AvailableCommand {
    fn clone(&self) -> (r: Self)
        ensures
            command_view(r) == command_view(*self),
    {
        match self {
            AvailableCommand::Ctag { operation, description } => AvailableCommand::Ctag {
                operation: *operation,
                description: description.clone(),
            },
        }
    }
}

/// The label operations a complete Confluence context exposes, in order.
pub open spec fn ctag_command_set() -> Seq<(CtagOperation, Seq<char>)> {
    seq![
        (CtagOperation::List, "List labels for pages in this space"@),
        (CtagOperation::Add, "Add labels to pages in this space"@),
        (CtagOperation::Update, "Update labels on pages in this space"@),
        (CtagOperation::Remove, "Remove labels from pages in this space"@),
    ]
}

/// Whether a context exposes the label operations: it is complete and its
/// product is the wiki-style one.
pub open spec fn exposes_ctag(ctx: crate::models::NavigationContextView) -> bool {
    ctx.complete() && ctx.product->0.product_type == ProductType::Confluence
}

/// Why a command could not be built.
#[derive(Debug)]
pub enum CommandError {
    /// The navigation context is not complete, so no query fragment exists.
    NoValidContext,
    /// The command name is not one this interface dispatches.
    UnknownCommand { name: String },
}

impl CommandError {
    /// The failure, in words.
    pub fn message(&self) -> (r: String)
        ensures
            *self is NoValidContext ==> r@ == "No valid context for command execution"@,
            self matches CommandError::UnknownCommand { name } ==> r@ == "Unknown command: "@
                + name@,
    {
        match self {
            CommandError::NoValidContext => String::from_str(
                "No valid context for command execution",
            ),
            CommandError::UnknownCommand { name } => {
                let mut s = String::from_str("Unknown command: ");
                s.append(name.as_str());
                s
            },
        }
    }
}

/// The argument list a command string splits into: whitespace-separated,
/// with double quotes grouping and dropped.
pub open spec fn parse_args_rec(
    s: Seq<char>,
    in_quotes: bool,
    current: Seq<char>,
    acc: Seq<Seq<char>>,
) -> Seq<Seq<char>>
    decreases s.len(),
{
    if s.len() == 0 {
        if current.len() > 0 {
            acc.push(current)
        } else {
            acc
        }
    } else {
        let c = s[0];
        if c == '"' {
            parse_args_rec(s.drop_first(), !in_quotes, current, acc)
        } else if c == ' ' && !in_quotes {
            if current.len() > 0 {
                parse_args_rec(s.drop_first(), in_quotes, Seq::empty(), acc.push(current))
            } else {
                parse_args_rec(s.drop_first(), in_quotes, current, acc)
            }
        } else {
            parse_args_rec(s.drop_first(), in_quotes, current.push(c), acc)
        }
    }
}

/// The arguments of a command string.
pub open spec fn spec_command_args(s: Seq<char>) -> Seq<Seq<char>> {
    parse_args_rec(s, false, Seq::empty(), Seq::empty())
}

/// The words the built command line joins: the tool's command, the operation,
/// the quoted query fragment, the free arguments, and the dry-run flag.
pub open spec fn spec_command_parts(
    operation: Seq<char>,
    cql: Seq<char>,
    args: Seq<Seq<char>>,
    dry_run: bool,
) -> Seq<Seq<char>> {
    seq!["ctag"@, operation, "\""@ + cql + "\""@] + args + (if dry_run {
        seq!["--dry-run"@]
    } else {
        Seq::<Seq<char>>::empty()
    })
}

/// Command execution engine.
pub struct CommandExecutor {
    /// Current navigation context.
    pub context: NavigationContext,
    /// Command history.
    pub history: Vec<CommandResult>,
}

impl CommandExecutor {
    /// The context commands are built against.
    pub open spec fn spec_context(self) -> crate::models::NavigationContextView {
        self.context@
    }

    pub fn new(context: NavigationContext) -> (r: Self)
        ensures
            r.spec_context() == context@,
            r.history@.len() == 0,
    {
        CommandExecutor { context, history: Vec::new() }
    }

    /// Update the navigation context.
    pub fn update_context(&mut self, context: NavigationContext)
        ensures
            final(self).spec_context() == context@,
            final(self).history == old(self).history,
    {
        self.context = context;
    }

    /// Get available commands for the current context: a complete context
    /// under the wiki-style product exposes exactly the four label
    /// operations; anything else exposes none.
    pub fn get_available_commands(&self) -> (r: Vec<AvailableCommand>)
        ensures
            exposes_ctag(self.spec_context()) ==> commands_view(r@) == ctag_command_set(),
            !exposes_ctag(self.spec_context()) ==> r@.len() == 0,
    {
        let mut commands: Vec<AvailableCommand> = Vec::new();

        if self.context.domain.is_some() && self.context.product.is_some()
            && self.context.project.is_some() {
            let product = self.context.product.as_ref().unwrap();
            match product.product_type {
                ProductType::Confluence => {
                    commands.push(
                        AvailableCommand::Ctag {
                            operation: CtagOperation::List,
                            description: String::from_str("List labels for pages in this space"),
                        },
                    );
                    commands.push(
                        AvailableCommand::Ctag {
                            operation: CtagOperation::Add,
                            description: String::from_str("Add labels to pages in this space"),
                        },
                    );
                    commands.push(
                        AvailableCommand::Ctag {
                            operation: CtagOperation::Update,
                            description: String::from_str("Update labels on pages in this space"),
                        },
                    );
                    commands.push(
                        AvailableCommand::Ctag {
                            operation: CtagOperation::Remove,
                            description: String::from_str(
                                "Remove labels from pages in this space",
                            ),
                        },
                    );
                    proof {
                        assert(commands_view(commands@) =~= ctag_command_set());
                    }
                },
                ProductType::Jira => {},
                ProductType::Jsm => {},
            }
        }

        commands
    }

    /// Build the command string for a command against the current context.
    /// Succeeds exactly for the dispatched command name on a complete
    /// context; each failure names its cause.
    pub fn build_command_string(&self, command: &TuiCommand) -> (r: Result<String, CommandError>)
        ensures
            command.name@ != "ctag"@ ==> (r matches Err(CommandError::UnknownCommand { name })
                && name@ == command.name@),
            command.name@ == "ctag"@ && !self.spec_context().complete() ==> r matches Err(
                CommandError::NoValidContext,
            ),
            command.name@ == "ctag"@ && self.spec_context().complete() ==> (r matches Ok(s) && s@
                == join_with(
                spec_command_parts(
                    command.operation@,
                    self.spec_context().cql()->0,
                    strings_view(command.args@),
                    command.dry_run,
                ),
                " "@,
            )),
    {
        if !crate::strutil::str_eq(command.name.as_str(), "ctag") {
            return Err(CommandError::UnknownCommand { name: command.name.clone() });
        }
        let cql_context = match self.context.cql_context() {
            Some(c) => c,
            None => {
                return Err(CommandError::NoValidContext);
            },
        };

        let mut cmd_parts: Vec<String> = Vec::new();
        cmd_parts.push(String::from_str("ctag"));
        cmd_parts.push(command.operation.clone());

        let mut quoted = String::from_str("\"");
        quoted.append(cql_context.as_str());
        quoted.append("\"");
        cmd_parts.push(quoted);

        let mut i: usize = 0;
        while i < command.args.len()
            invariant
                i <= command.args@.len(),
                strings_view(cmd_parts@) =~= seq![
                    "ctag"@,
                    command.operation@,
                    "\""@ + self.spec_context().cql()->0 + "\""@,
                ] + strings_view(command.args@).take(i as int),
            decreases command.args@.len() - i,
        {
            let ghost prev = cmd_parts@;
            cmd_parts.push(command.args[i].clone());
            proof {
                assert(strings_view(cmd_parts@) =~= strings_view(prev).push(
                    command.args@[i as int]@,
                ));
                assert(strings_view(command.args@).take(i + 1) =~= strings_view(
                    command.args@,
                ).take(i as int).push(command.args@[i as int]@));
            }
            i = i + 1;
        }

        if command.dry_run {
            cmd_parts.push(String::from_str("--dry-run"));
        }

        proof {
            assert(strings_view(command.args@).take(command.args@.len() as int) =~= strings_view(
                command.args@,
            ));
            assert(strings_view(cmd_parts@) =~= spec_command_parts(
                command.operation@,
                self.spec_context().cql()->0,
                strings_view(command.args@),
                command.dry_run,
            ));
        }

        Ok(crate::strutil::join_strings(&cmd_parts, " "))
    }

    /// Parse a command string into arguments: split by spaces, but respect
    /// double quotes, which group and are dropped.
    #[verifier::loop_isolation(false)]
    pub fn parse_command_args(&self, cmd_string: &str) -> (r: Vec<String>)
        ensures
            strings_view(r@) == spec_command_args(cmd_string@),
    {
        let chars = crate::strutil::str_chars(cmd_string);
        let ghost s = cmd_string@;

        let mut args: Vec<String> = Vec::new();
        let mut current_arg: Vec<char> = Vec::new();
        let mut in_quotes = false;
        let mut i: usize = 0;
        proof {
            assert(s.skip(0) =~= s);
            assert(current_arg@ =~= Seq::<char>::empty());
            assert(strings_view(args@) =~= Seq::<Seq<char>>::empty());
        }
        while i < chars.len()
            invariant
                i <= s.len(),
                chars@ == s,
                spec_command_args(s) == parse_args_rec(
                    s.skip(i as int),
                    in_quotes,
                    current_arg@,
                    strings_view(args@),
                ),
            decreases s.len() - i,
        {
            let c = chars[i];
            proof {
                assert(s.skip(i as int)[0] == c);
                assert(s.skip(i as int).drop_first() =~= s.skip(i as int + 1));
            }
            if c == '"' {
                in_quotes = !in_quotes;
            } else if c == ' ' && !in_quotes {
                if !current_arg.is_empty() {
                    let arg = crate::strutil::chars_to_string(&current_arg);
                    let ghost prev_args = args@;
                    args.push(arg);
                    current_arg = Vec::new();
                    proof {
                        assert(strings_view(args@) =~= strings_view(prev_args).push(
                            args@.last()@,
                        ));
                    }
                }
            } else {
                current_arg.push(c);
            }
            i = i + 1;
        }
        proof {
            assert(s.skip(s.len() as int) =~= Seq::<char>::empty());
        }
        if !current_arg.is_empty() {
            let arg = crate::strutil::chars_to_string(&current_arg);
            let ghost prev_args = args@;
            args.push(arg);
            proof {
                assert(strings_view(args@) =~= strings_view(prev_args).push(args@.last()@));
            }
        }
        args
    }

    /// Record a captured result in the append-only history.
    pub fn record_result(&mut self, result: CommandResult)
        ensures
            final(self).history@ == old(self).history@.push(result),
            final(self).spec_context() == old(self).spec_context(),
    {
        self.history.push(result);
    }

    /// Get the most recent command result.
    pub fn get_last_result(&self) -> (r: Option<&CommandResult>)
        ensures
            self.history@.len() == 0 ==> r is None,
            self.history@.len() > 0 ==> r == Some(&self.history@.last()),
    {
        self.history.last()
    }

    /// Clear command history.
    pub fn clear_history(&mut self)
        ensures
            final(self).history@.len() == 0,
            final(self).spec_context() == old(self).spec_context(),
    {
        self.history.clear();
    }
}

/// Input mode of the command screen's sub-state machine.
#[derive(Debug, Clone, Copy, PartialEq, Eq, Structural)]
pub enum CommandInputMode {
    SelectingCommand,
    TypingArgs,
    Ready,
}

/// Command input state.
#[derive(Debug)]
pub struct CommandInput {
    /// Current input text.
    pub text: String,
    /// Cursor position, in characters.
    pub cursor: usize,
    /// Selected command type.
    pub selected_command: Option<AvailableCommand>,
    /// Input mode (typing args, selecting command, etc.).
    pub mode: CommandInputMode,
}

impl CommandInput {
    /// The cursor always stays within the text.
    pub open spec fn wf(self) -> bool {
        self.cursor <= self.text@.len()
    }

    pub fn new() -> (r: Self)
        ensures
            r.text@ == Seq::<char>::empty(),
            r.cursor == 0,
            r.selected_command is None,
            r.mode == CommandInputMode::SelectingCommand,
            r.wf(),
    {
        CommandInput {
            text: String::new(),
            cursor: 0,
            selected_command: None,
            mode: CommandInputMode::SelectingCommand,
        }
    }

    /// Insert a character at the cursor position.
    pub fn insert_char(&mut self, c: char)
        requires
            old(self).wf(),
        ensures
            final(self).text@ == old(self).text@.insert(old(self).cursor as int, c),
            final(self).cursor == old(self).cursor + 1,
            final(self).selected_command == old(self).selected_command,
            final(self).mode == old(self).mode,
            final(self).wf(),
    {
        self.text = crate::strutil::insert_char_at(self.text.as_str(), self.cursor, c);
        let n = self.text.as_str().unicode_len();
        proof {
            assert(n == old(self).text@.len() + 1);
        }
        self.cursor = self.cursor + 1;
    }

    /// Delete the character before the cursor, if any.
    pub fn delete_char(&mut self)
        requires
            old(self).wf(),
        ensures
            old(self).cursor == 0 ==> *final(self) == *old(self),
            old(self).cursor > 0 ==> final(self).cursor == old(self).cursor - 1
                && final(self).text@ == old(self).text@.remove(old(self).cursor - 1),
            final(self).selected_command == old(self).selected_command,
            final(self).mode == old(self).mode,
            final(self).wf(),
    {
        if self.cursor > 0 {
            self.cursor = self.cursor - 1;
            self.text = crate::strutil::remove_char_at(self.text.as_str(), self.cursor);
        }
    }

    /// Move the cursor left.
    pub fn move_cursor_left(&mut self)
        ensures
            final(self).text == old(self).text,
            final(self).selected_command == old(self).selected_command,
            final(self).mode == old(self).mode,
            final(self).cursor == if old(self).cursor > 0 {
                old(self).cursor - 1
            } else {
                0int
            },
            old(self).wf() ==> final(self).wf(),
    {
        if self.cursor > 0 {
            self.cursor = self.cursor - 1;
        }
    }

    /// Move the cursor right, up to the end of the text.
    pub fn move_cursor_right(&mut self)
        ensures
            final(self).text == old(self).text,
            final(self).selected_command == old(self).selected_command,
            final(self).mode == old(self).mode,
            final(self).cursor == if old(self).cursor < old(self).text@.len() {
                old(self).cursor + 1
            } else {
                old(self).cursor as int
            },
            old(self).wf() ==> final(self).wf(),
    {
        if self.cursor < self.text.as_str().unicode_len() {
            self.cursor = self.cursor + 1;
        }
    }

    /// Clear the input.
    pub fn clear(&mut self)
        ensures
            final(self).text@ == Seq::<char>::empty(),
            final(self).cursor == 0,
            final(self).selected_command == old(self).selected_command,
            final(self).mode == old(self).mode,
            final(self).wf(),
    {
        self.text = String::new();
        self.cursor = 0;
    }

    /// Select a command and move to argument entry.
    pub fn set_command(&mut self, command: AvailableCommand)
        ensures
            final(self).selected_command == Some(command),
            final(self).mode == CommandInputMode::TypingArgs,
            final(self).text@ == Seq::<char>::empty(),
            final(self).cursor == 0,
            final(self).wf(),
    {
        self.selected_command = Some(command);
        self.mode = CommandInputMode::TypingArgs;
        self.clear();
    }

    /// Reset to command selection mode.
    pub fn reset_to_selection(&mut self)
        ensures
            final(self).selected_command is None,
            final(self).mode == CommandInputMode::SelectingCommand,
            final(self).text@ == Seq::<char>::empty(),
            final(self).cursor == 0,
            final(self).wf(),
    {
        self.selected_command = None;
        self.mode = CommandInputMode::SelectingCommand;
        self.clear();
    }
}

} // verus!
