//! The daemon binary's command line: no subcommand (or `daemon`) starts the
//! daemon, every other subcommand is sent to a running daemon as a command.
use vstd::prelude::*;

use crate::command::{action_text, signed_decimal, Command};
use crate::text::decimal_digits;
use crate::tree::{Direction, SplitDirection};

verus! {

/// The parsed command line.
#[derive(Debug)]
pub struct Cli {
    pub command: Option<CliCommand>,
}

/// A subcommand.
#[derive(Debug, Clone, Copy, PartialEq, Eq, Structural)]
pub enum CliCommand {
    /// Start the daemon.
    Daemon,
    Focus { direction: DirectionArg },
    MoveWindow { direction: DirectionArg },
    Split { direction: SplitArg },
    Workspace { id: u32 },
    MoveWindowToWorkspace { id: u32 },
    Close,
    ToggleLayout,
    /// Toggle the status bar visibility.
    ToggleBar,
    SetGapOuter { pixels: i32 },
    SetGapInner { pixels: i32 },
    ReloadConfig,
    State,
    /// Stop the daemon and the status bar.
    Quit,
}

/// A direction argument on the command line.
#[derive(Debug, Clone, Copy, PartialEq, Eq, Structural)]
pub enum DirectionArg {
    Left,
    Right,
    Up,
    Down,
}

/// A split argument on the command line.
#[derive(Debug, Clone, Copy, PartialEq, Eq, Structural)]
pub enum SplitArg {
    Horizontal,
    Vertical,
}

pub open spec fn direction_of(d: DirectionArg) -> Direction {
    match d {
        DirectionArg::Left => Direction::Left,
        DirectionArg::Right => Direction::Right,
        DirectionArg::Up => Direction::Up,
        DirectionArg::Down => Direction::Down,
    }
}

pub open spec fn split_of(d: SplitArg) -> SplitDirection {
    match d {
        SplitArg::Horizontal => SplitDirection::Horizontal,
        SplitArg::Vertical => SplitDirection::Vertical,
    }
}

impl From<DirectionArg> for Direction {
    fn from(d: DirectionArg) -> (r: Self) {
        match d {
            DirectionArg::Left => Direction::Left,
            DirectionArg::Right => Direction::Right,
            DirectionArg::Up => Direction::Up,
            DirectionArg::Down => Direction::Down,
        }
    }
}

impl vstd::std_specs::convert::FromSpecImpl<DirectionArg> for Direction {
    open spec fn obeys_from_spec() -> bool {
        true
    }

    open spec fn from_spec(v: DirectionArg) -> Direction {
        direction_of(v)
    }
}

impl From<SplitArg> for SplitDirection {
    fn from(d: SplitArg) -> (r: Self) {
        match d {
            SplitArg::Horizontal => SplitDirection::Horizontal,
            SplitArg::Vertical => SplitDirection::Vertical,
        }
    }
}

impl vstd::std_specs::convert::FromSpecImpl<SplitArg> for SplitDirection {
    open spec fn obeys_from_spec() -> bool {
        true
    }

    open spec fn from_spec(v: SplitArg) -> SplitDirection {
        split_of(v)
    }
}

/// The command a subcommand sends; `Daemon` sends none.
pub open spec fn command_of_spec(c: CliCommand) -> Option<Command> {
    match c {
        CliCommand::Daemon => None,
        CliCommand::Focus { direction } => Some(Command::Focus { direction: direction_of(direction) }),
        CliCommand::MoveWindow { direction } => Some(Command::MoveWindow { direction: direction_of(direction) }),
        CliCommand::Split { direction } => Some(Command::Split { direction: split_of(direction) }),
        CliCommand::Workspace { id } => Some(Command::Workspace { id }),
        CliCommand::MoveWindowToWorkspace { id } => Some(Command::MoveWindowToWorkspace { id }),
        CliCommand::Close => Some(Command::Close),
        CliCommand::ToggleLayout => Some(Command::ToggleLayout),
        CliCommand::ToggleBar => Some(Command::ToggleBar),
        CliCommand::SetGapOuter { pixels } => Some(Command::SetGapOuter { pixels }),
        CliCommand::SetGapInner { pixels } => Some(Command::SetGapInner { pixels }),
        CliCommand::ReloadConfig => Some(Command::ReloadConfig),
        CliCommand::State => Some(Command::QueryState),
        CliCommand::Quit => Some(Command::Quit),
    }
}

/// The command a subcommand sends to the daemon; `None` for `Daemon`, which
/// starts the daemon instead.
pub fn command_of(c: CliCommand) -> (r: Option<Command>)
    ensures
        r == command_of_spec(c),
{
    match c {
        CliCommand::Daemon => None,
        CliCommand::Focus { direction } => Some(Command::Focus { direction: Direction::from(direction) }),
        CliCommand::MoveWindow { direction } => Some(Command::MoveWindow { direction: Direction::from(direction) }),
        CliCommand::Split { direction } => Some(Command::Split { direction: SplitDirection::from(direction) }),
        CliCommand::Workspace { id } => Some(Command::Workspace { id }),
        CliCommand::MoveWindowToWorkspace { id } => Some(Command::MoveWindowToWorkspace { id }),
        CliCommand::Close => Some(Command::Close),
        CliCommand::ToggleLayout => Some(Command::ToggleLayout),
        CliCommand::ToggleBar => Some(Command::ToggleBar),
        CliCommand::SetGapOuter { pixels } => Some(Command::SetGapOuter { pixels }),
        CliCommand::SetGapInner { pixels } => Some(Command::SetGapInner { pixels }),
        CliCommand::ReloadConfig => Some(Command::ReloadConfig),
        CliCommand::State => Some(Command::QueryState),
        CliCommand::Quit => Some(Command::Quit),
    }
}

/// The word for a direction argument.
pub open spec fn arg_word(d: DirectionArg) -> Seq<char> {
    match d {
        DirectionArg::Left => "left"@,
        DirectionArg::Right => "right"@,
        DirectionArg::Up => "up"@,
        DirectionArg::Down => "down"@,
    }
}

/// The word for a split argument.
pub open spec fn split_arg_word(d: SplitArg) -> Seq<char> {
    match d {
        SplitArg::Horizontal => "horizontal"@,
        SplitArg::Vertical => "vertical"@,
    }
}

/// The action a subcommand asks for, named as the keybinds name actions:
/// the subcommand's own name in kebab case with its arguments appended
/// (`workspace 3` is `workspace-3`, `focus left` is `focus-left`), and
/// `state` asking for `query-state`. `daemon` asks for none.
pub open spec fn cli_action(c: CliCommand) -> Option<Seq<char>> {
    match c {
        CliCommand::Daemon => None,
        CliCommand::Focus { direction } => Some("focus-"@ + arg_word(direction)),
        CliCommand::MoveWindow { direction } => Some("move-window-"@ + arg_word(direction)),
        CliCommand::Split { direction } => Some("split-"@ + split_arg_word(direction)),
        CliCommand::Workspace { id } => Some("workspace-"@ + decimal_digits(id as nat)),
        CliCommand::MoveWindowToWorkspace { id } => Some("move-window-to-workspace-"@ + decimal_digits(id as nat)),
        CliCommand::Close => Some("close"@),
        CliCommand::ToggleLayout => Some("toggle-layout"@),
        CliCommand::ToggleBar => Some("toggle-bar"@),
        CliCommand::SetGapOuter { pixels } => Some("set-gap-outer-"@ + signed_decimal(pixels)),
        CliCommand::SetGapInner { pixels } => Some("set-gap-inner-"@ + signed_decimal(pixels)),
        CliCommand::ReloadConfig => Some("reload-config"@),
        CliCommand::State => Some("query-state"@),
        CliCommand::Quit => Some("quit"@),
    }
}

/// Every subcommand but `daemon` sends a command, and it is the command
/// the subcommand names, with the same arguments: its action name is the
/// subcommand's.
pub proof fn law_subcommand_sends_its_namesake(c: CliCommand)
    ensures
        command_of_spec(c) is None <==> c == CliCommand::Daemon,
        command_of_spec(c) matches Some(cmd) ==> action_text(cmd) == cli_action(c),
{
}

/// Different subcommands send different commands.
pub proof fn law_subcommands_send_distinct_commands(a: CliCommand, b: CliCommand)
    requires
        a != b,
    ensures
        command_of_spec(a) != command_of_spec(b),
{
}

} // verus!
