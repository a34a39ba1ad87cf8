//! The standalone control client's command line: every subcommand is sent
//! to the daemon as a command.
use vstd::prelude::*;

use crate::command::Command;
use crate::tree::{Direction, SplitDirection};

verus! {

/// The parsed command line.
#[derive(Debug)]
pub struct Cli {
    pub command: CliCommand,
}

/// A subcommand.
#[derive(Debug, Clone, Copy, PartialEq, Eq, Structural)]
pub enum CliCommand {
    Focus { direction: DirectionArg },
    MoveWindow { direction: DirectionArg },
    Split { direction: SplitArg },
    Workspace { id: u32 },
    MoveWindowToWorkspace { id: u32 },
    Close,
    ToggleLayout,
    SetGapOuter { pixels: i32 },
    SetGapInner { pixels: i32 },
    ReloadConfig,
    State,
}

/// A direction argument on the command line.
#[derive(Debug, Clone, Copy, PartialEq, Eq, Structural)]
pub enum DirectionArg {
    Left,
    Right,
    Up,
    Down,
}

/// A split argument on the command line.
#[derive(Debug, Clone, Copy, PartialEq, Eq, Structural)]
pub enum SplitArg {
    Horizontal,
    Vertical,
}

pub open spec fn direction_of(d: DirectionArg) -> Direction {
    match d {
        DirectionArg::Left => Direction::Left,
        DirectionArg::Right => Direction::Right,
        DirectionArg::Up => Direction::Up,
        DirectionArg::Down => Direction::Down,
    }
}

pub open spec fn split_of(d: SplitArg) -> SplitDirection {
    match d {
        SplitArg::Horizontal => SplitDirection::Horizontal,
        SplitArg::Vertical => SplitDirection::Vertical,
    }
}

impl From<DirectionArg> for Direction {
    fn from(d: DirectionArg) -> (r: Self) {
        match d {
            DirectionArg::Left => Direction::Left,
            DirectionArg::Right => Direction::Right,
            DirectionArg::Up => Direction::Up,
            DirectionArg::Down => Direction::Down,
        }
    }
}

impl vstd::std_specs::convert::FromSpecImpl<DirectionArg> for Direction {
    open spec fn obeys_from_spec() -> bool {
        true
    }

    open spec fn from_spec(v: DirectionArg) -> Direction {
        direction_of(v)
    }
}

impl From<SplitArg> for SplitDirection {
    fn from(d: SplitArg) -> (r: Self) {
        match d {
            SplitArg::Horizontal => SplitDirection::Horizontal,
            SplitArg::Vertical => SplitDirection::Vertical,
        }
    }
}

impl vstd::std_specs::convert::FromSpecImpl<SplitArg> for SplitDirection {
    open spec fn obeys_from_spec() -> bool {
        true
    }

    open spec fn from_spec(v: SplitArg) -> SplitDirection {
        split_of(v)
    }
}

/// The command a subcommand sends.
pub open spec fn command_of_spec(c: CliCommand) -> Command {
    match c {
        CliCommand::Focus { direction } => Command::Focus { direction: direction_of(direction) },
        CliCommand::MoveWindow { direction } => Command::MoveWindow { direction: direction_of(direction) },
        CliCommand::Split { direction } => Command::Split { direction: split_of(direction) },
        CliCommand::Workspace { id } => Command::Workspace { id },
        CliCommand::MoveWindowToWorkspace { id } => Command::MoveWindowToWorkspace { id },
        CliCommand::Close => Command::Close,
        CliCommand::ToggleLayout => Command::ToggleLayout,
        CliCommand::SetGapOuter { pixels } => Command::SetGapOuter { pixels },
        CliCommand::SetGapInner { pixels } => Command::SetGapInner { pixels },
        CliCommand::ReloadConfig => Command::ReloadConfig,
        CliCommand::State => Command::QueryState,
    }
}

impl From<CliCommand> for Command {
    fn from(c: CliCommand) -> (r: Self) {
        match c {
            CliCommand::Focus { direction } => Command::Focus { direction: Direction::from(direction) },
            CliCommand::MoveWindow { direction } => Command::MoveWindow { direction: Direction::from(direction) },
            CliCommand::Split { direction } => Command::Split { direction: SplitDirection::from(direction) },
            CliCommand::Workspace { id } => Command::Workspace { id },
            CliCommand::MoveWindowToWorkspace { id } => Command::MoveWindowToWorkspace { id },
            CliCommand::Close => Command::Close,
            CliCommand::ToggleLayout => Command::ToggleLayout,
            CliCommand::SetGapOuter { pixels } => Command::SetGapOuter { pixels },
            CliCommand::SetGapInner { pixels } => Command::SetGapInner { pixels },
            CliCommand::ReloadConfig => Command::ReloadConfig,
            CliCommand::State => Command::QueryState,
        }
    }
}

impl vstd::std_specs::convert::FromSpecImpl<CliCommand> for Command {
    open spec fn obeys_from_spec() -> bool {
        true
    }

    open spec fn from_spec(v: CliCommand) -> Command {
        command_of_spec(v)
    }
}

} // verus!
