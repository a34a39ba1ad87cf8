//! The command vocabulary shared by the CLI, the keybinds and the daemon, the
//! daemon's replies and the messages pushed to the status bar.
use vstd::prelude::*;

use crate::layout::Rect;
use crate::text::{
    decimal_digits, is_digit, lemma_decimal_digits, magnitude_spec, parse_i32, parse_i32_spec, parse_u32,
    parse_u32_spec, starts_with_spec, str_eq, strip_prefix,
};
use crate::tree::{Direction, SplitDirection, WindowId};

verus! {

/// How a workspace arranges its windows.
#[derive(Debug, Clone, Copy, PartialEq, Eq, Structural)]
pub enum LayoutMode {
    Tile,
    Accordion,
}

/// A request to the window manager.
#[derive(Debug, Clone, Copy, PartialEq, Eq, Structural)]
pub enum Command {
    Focus { direction: Direction },
    MoveWindow { direction: Direction },
    Split { direction: SplitDirection },
    Workspace { id: u32 },
    MoveWindowToWorkspace { id: u32 },
    Close,
    ToggleLayout,
    SetLayout { mode: LayoutMode },
    SetGapOuter { pixels: i32 },
    SetGapInner { pixels: i32 },
    ToggleBar,
    ReloadConfig,
    QueryState,
    /// Shut the daemon down (and the bar with it).
    Quit,
    /// Move the focus to the neighbouring display in `direction`.
    FocusDisplay { direction: Direction },
    /// Move the focused window to the neighbouring display in `direction`.
    MoveWindowToDisplay { direction: Direction },
}

/// The fixed action names and the command each one stands for.
pub open spec fn named_action(s: Seq<char>) -> Option<Command> {
    if s == "focus-left"@ {
        Some(Command::Focus { direction: Direction::Left })
    } else if s == "focus-right"@ {
        Some(Command::Focus { direction: Direction::Right })
    } else if s == "focus-up"@ {
        Some(Command::Focus { direction: Direction::Up })
    } else if s == "focus-down"@ {
        Some(Command::Focus { direction: Direction::Down })
    } else if s == "move-window-left"@ {
        Some(Command::MoveWindow { direction: Direction::Left })
    } else if s == "move-window-right"@ {
        Some(Command::MoveWindow { direction: Direction::Right })
    } else if s == "move-window-up"@ {
        Some(Command::MoveWindow { direction: Direction::Up })
    } else if s == "move-window-down"@ {
        Some(Command::MoveWindow { direction: Direction::Down })
    } else if s == "split-horizontal"@ {
        Some(Command::Split { direction: SplitDirection::Horizontal })
    } else if s == "split-vertical"@ {
        Some(Command::Split { direction: SplitDirection::Vertical })
    } else if s == "close"@ {
        Some(Command::Close)
    } else if s == "toggle-layout"@ {
        Some(Command::ToggleLayout)
    } else if s == "set-layout-tile"@ {
        Some(Command::SetLayout { mode: LayoutMode::Tile })
    } else if s == "set-layout-accordion"@ {
        Some(Command::SetLayout { mode: LayoutMode::Accordion })
    } else if s == "toggle-bar"@ {
        Some(Command::ToggleBar)
    } else if s == "reload-config"@ {
        Some(Command::ReloadConfig)
    } else if s == "query-state"@ {
        Some(Command::QueryState)
    } else if s == "quit"@ {
        Some(Command::Quit)
    } else {
        None
    }
}

/// A workspace number: a decimal `u32` that is not zero.
pub open spec fn parse_id_spec(n: Seq<char>) -> Option<u32> {
    match parse_u32_spec(n) {
        Some(v) => if v > 0 {
            Some(v)
        } else {
            None
        },
        None => None,
    }
}

/// The command an action string stands for: a fixed name, or one of the
/// prefixes `workspace-`, `move-window-to-workspace-` (followed by a
/// workspace number), `set-gap-outer-`, `set-gap-inner-` (followed by a
/// decimal `i32`).
pub open spec fn parse_action_spec(s: Seq<char>) -> Option<Command> {
    if named_action(s) is Some {
        named_action(s)
    } else if starts_with_spec(s, "workspace-"@) {
        match parse_id_spec(s.skip("workspace-"@.len() as int)) {
            Some(id) => Some(Command::Workspace { id }),
            None => None,
        }
    } else if starts_with_spec(s, "move-window-to-workspace-"@) {
        match parse_id_spec(s.skip("move-window-to-workspace-"@.len() as int)) {
            Some(id) => Some(Command::MoveWindowToWorkspace { id }),
            None => None,
        }
    } else if starts_with_spec(s, "set-gap-outer-"@) {
        match parse_i32_spec(s.skip("set-gap-outer-"@.len() as int)) {
            Some(pixels) => Some(Command::SetGapOuter { pixels }),
            None => None,
        }
    } else if starts_with_spec(s, "set-gap-inner-"@) {
        match parse_i32_spec(s.skip("set-gap-inner-"@.len() as int)) {
            Some(pixels) => Some(Command::SetGapInner { pixels }),
            None => None,
        }
    } else {
        None
    }
}

fn lookup_named_action(s: &str) -> (r: Option<Command>)
    ensures
        r == named_action(s@),
{
    if str_eq(s, "focus-left") {
        Some(Command::Focus { direction: Direction::Left })
    } else if str_eq(s, "focus-right") {
        Some(Command::Focus { direction: Direction::Right })
    } else if str_eq(s, "focus-up") {
        Some(Command::Focus { direction: Direction::Up })
    } else if str_eq(s, "focus-down") {
        Some(Command::Focus { direction: Direction::Down })
    } else if str_eq(s, "move-window-left") {
        Some(Command::MoveWindow { direction: Direction::Left })
    } else if str_eq(s, "move-window-right") {
        Some(Command::MoveWindow { direction: Direction::Right })
    } else if str_eq(s, "move-window-up") {
        Some(Command::MoveWindow { direction: Direction::Up })
    } else if str_eq(s, "move-window-down") {
        Some(Command::MoveWindow { direction: Direction::Down })
    } else if str_eq(s, "split-horizontal") {
        Some(Command::Split { direction: SplitDirection::Horizontal })
    } else if str_eq(s, "split-vertical") {
        Some(Command::Split { direction: SplitDirection::Vertical })
    } else if str_eq(s, "close") {
        Some(Command::Close)
    } else if str_eq(s, "toggle-layout") {
        Some(Command::ToggleLayout)
    } else if str_eq(s, "set-layout-tile") {
        Some(Command::SetLayout { mode: LayoutMode::Tile })
    } else if str_eq(s, "set-layout-accordion") {
        Some(Command::SetLayout { mode: LayoutMode::Accordion })
    } else if str_eq(s, "toggle-bar") {
        Some(Command::ToggleBar)
    } else if str_eq(s, "reload-config") {
        Some(Command::ReloadConfig)
    } else if str_eq(s, "query-state") {
        Some(Command::QueryState)
    } else if str_eq(s, "quit") {
        Some(Command::Quit)
    } else {
        None
    }
}

impl Command {
    /// Parse one action string of the keybind vocabulary: `move-window-left`,
    /// `set-layout-tile`, `workspace-3`, `set-gap-outer-12`, ...
    pub fn parse_action(s: &str) -> (r: Option<Command>)
        ensures
            r == parse_action_spec(s@),
    {
        if let Some(action) = lookup_named_action(s) {
            return Some(action);
        }
        if let Some(n) = strip_prefix(s, "workspace-") {
            return match Command::parse_id(n) {
                Some(id) => Some(Command::Workspace { id }),
                None => None,
            };
        }
        if let Some(n) = strip_prefix(s, "move-window-to-workspace-") {
            return match Command::parse_id(n) {
                Some(id) => Some(Command::MoveWindowToWorkspace { id }),
                None => None,
            };
        }
        if let Some(n) = strip_prefix(s, "set-gap-outer-") {
            return match parse_i32(n) {
                Some(pixels) => Some(Command::SetGapOuter { pixels }),
                None => None,
            };
        }
        if let Some(n) = strip_prefix(s, "set-gap-inner-") {
            return match parse_i32(n) {
                Some(pixels) => Some(Command::SetGapInner { pixels }),
                None => None,
            };
        }
        None
    }

    /// A workspace number: a positive decimal `u32`.
    fn parse_id(n: &str) -> (r: Option<u32>)
        ensures
            r == parse_id_spec(n@),
    {
        match parse_u32(n) {
            Some(v) => if v > 0 {
                Some(v)
            } else {
                None
            },
            None => None,
        }
    }
}

/// The daemon's reply to a command.
#[derive(Debug)]
pub enum DaemonResponse {
    Ack,
    State { workspaces: Vec<WorkspaceInfo> },
    Error { message: String },
}

/// A workspace as reported by `QueryState`.
#[derive(Debug)]
pub struct WorkspaceInfo {
    pub name: String,
    pub monitor_id: u32,
    pub window_count: usize,
    pub focused_window: Option<WindowId>,
}

/// Messages the daemon pushes to a connected status bar.
#[derive(Debug, Clone)]
pub enum BarMessage {
    Show,
    Hide,
    Exit,
    Reload,
    State(BarState),
}

/// A workspace as the status bar shows it.
#[derive(Debug, Clone)]
pub struct BarWorkspace {
    pub name: String,
    pub monitor_id: u32,
    pub window_count: usize,
    pub active: bool,
    /// Display names of the apps owning each window, one entry per window.
    pub windows: Vec<String>,
}

/// Everything the status bar draws.
#[derive(Debug, Clone)]
pub struct BarState {
    pub workspaces: Vec<BarWorkspace>,
    /// Index into `workspaces` of the focused workspace.
    pub active_workspace: usize,
    /// Split direction of the active workspace's focused split container.
    pub split_direction: Option<SplitDirection>,
    /// Global rect of the bar strip on the primary display; `None` while the
    /// bar is hidden.
    pub rect: Option<Rect>,
}

/// A workspace number written after `workspace-` (or
/// `move-window-to-workspace-`) parses back to that workspace: the keybind
/// vocabulary names every workspace.
pub proof fn law_workspace_action_roundtrip(n: u32)
    requires
        n > 0,
    ensures
        parse_action_spec("workspace-"@ + decimal_digits(n as nat)) == Some(Command::Workspace { id: n }),
        parse_action_spec("move-window-to-workspace-"@ + decimal_digits(n as nat)) == Some(
            Command::MoveWindowToWorkspace { id: n },
        ),
{
    let d = decimal_digits(n as nat);
    lemma_decimal_digits(n as nat);
    reveal_strlit("workspace-");
    reveal_strlit("move-window-to-workspace-");
    reveal_strlit("focus-left");
    reveal_strlit("focus-right");
    reveal_strlit("focus-up");
    reveal_strlit("focus-down");
    reveal_strlit("move-window-left");
    reveal_strlit("move-window-right");
    reveal_strlit("move-window-up");
    reveal_strlit("move-window-down");
    reveal_strlit("split-horizontal");
    reveal_strlit("split-vertical");
    reveal_strlit("close");
    reveal_strlit("toggle-layout");
    reveal_strlit("set-layout-tile");
    reveal_strlit("set-layout-accordion");
    reveal_strlit("toggle-bar");
    reveal_strlit("reload-config");
    reveal_strlit("query-state");
    reveal_strlit("quit");
    assert(is_digit(d[0]));
    assert(magnitude_spec(d, u32::MAX as int) == Some(n as int));
    assert(parse_u32_spec(d) == Some(n));
    let s = "workspace-"@ + d;
    assert(s[0] == 'w');
    assert(named_action(s) is None);
    assert(s.take("workspace-"@.len() as int) =~= "workspace-"@);
    assert(s.skip("workspace-"@.len() as int) =~= d);
    let t = "move-window-to-workspace-"@ + d;
    assert(t[0] == 'm');
    assert(t[12] == 't');
    assert(named_action(t) is None);
    assert(!starts_with_spec(t, "workspace-"@)) by {
        assert(t.take("workspace-"@.len() as int)[0] == 'm');
    }
    assert(t.take("move-window-to-workspace-"@.len() as int) =~= "move-window-to-workspace-"@);
    assert(t.skip("move-window-to-workspace-"@.len() as int) =~= d);
}

/// Every fixed action name parses to its command.
pub proof fn law_named_actions_parse(s: Seq<char>)
    requires
        named_action(s) is Some,
    ensures
        parse_action_spec(s) == named_action(s),
{
}


/// A parsed workspace number is never zero: `workspace-0` and
/// `move-window-to-workspace-0` are no actions.
pub proof fn law_parsed_workspace_ids_positive(s: Seq<char>)
    ensures
        parse_action_spec(s) matches Some(Command::Workspace { id }) ==> id >= 1,
        parse_action_spec(s) matches Some(Command::MoveWindowToWorkspace { id }) ==> id >= 1,
{
}


/// A number written in decimal, with a leading `-` when negative.
pub open spec fn signed_decimal(p: i32) -> Seq<char> {
    if p < 0 {
        "-"@ + decimal_digits((-p) as nat)
    } else {
        decimal_digits(p as nat)
    }
}

proof fn lemma_signed_decimal_parses(p: i32)
    ensures
        parse_i32_spec(signed_decimal(p)) == Some(p),
        signed_decimal(p).len() > 0,
        signed_decimal(p)[0] == '-' || is_digit(signed_decimal(p)[0]),
{
    reveal_strlit("-");
    if p < 0 {
        let d = decimal_digits((-p) as nat);
        lemma_decimal_digits((-p) as nat);
        let t = "-"@ + d;
        assert(t[0] == '-');
        assert(t.drop_first() =~= d);
        assert(magnitude_spec(d, 0x8000_0000) == Some(-p as int));
    } else {
        let d = decimal_digits(p as nat);
        lemma_decimal_digits(p as nat);
        assert(is_digit(d[0]));
        assert(magnitude_spec(d, i32::MAX as int) == Some(p as int));
    }
}

/// A gap written after `set-gap-outer-` or `set-gap-inner-` (in decimal,
/// negative ones with a `-`) parses back to that gap.
pub proof fn law_gap_action_roundtrip(p: i32)
    ensures
        parse_action_spec("set-gap-outer-"@ + signed_decimal(p)) == Some(Command::SetGapOuter { pixels: p }),
        parse_action_spec("set-gap-inner-"@ + signed_decimal(p)) == Some(Command::SetGapInner { pixels: p }),
{
    let d = signed_decimal(p);
    lemma_signed_decimal_parses(p);
    reveal_strlit("set-gap-outer-");
    reveal_strlit("set-gap-inner-");
    reveal_strlit("workspace-");
    reveal_strlit("move-window-to-workspace-");
    reveal_strlit("focus-left");
    reveal_strlit("focus-right");
    reveal_strlit("focus-up");
    reveal_strlit("focus-down");
    reveal_strlit("move-window-left");
    reveal_strlit("move-window-right");
    reveal_strlit("move-window-up");
    reveal_strlit("move-window-down");
    reveal_strlit("split-horizontal");
    reveal_strlit("split-vertical");
    reveal_strlit("close");
    reveal_strlit("toggle-layout");
    reveal_strlit("set-layout-tile");
    reveal_strlit("set-layout-accordion");
    reveal_strlit("toggle-bar");
    reveal_strlit("reload-config");
    reveal_strlit("query-state");
    reveal_strlit("quit");
    let s = "set-gap-outer-"@ + d;
    assert(s[0] == 's' && s[8] == 'o');
    assert(named_action(s) is None);
    assert(!starts_with_spec(s, "workspace-"@)) by {
        assert(s.take("workspace-"@.len() as int)[0] == 's');
    }
    assert(!starts_with_spec(s, "move-window-to-workspace-"@)) by {
        if s.len() >= "move-window-to-workspace-"@.len() {
            assert(s.take("move-window-to-workspace-"@.len() as int)[0] == 's');
        }
    }
    assert(s.take("set-gap-outer-"@.len() as int) =~= "set-gap-outer-"@);
    assert(s.skip("set-gap-outer-"@.len() as int) =~= d);
    let t = "set-gap-inner-"@ + d;
    assert(t[0] == 's' && t[8] == 'i');
    assert(named_action(t) is None);
    assert(!starts_with_spec(t, "workspace-"@)) by {
        assert(t.take("workspace-"@.len() as int)[0] == 's');
    }
    assert(!starts_with_spec(t, "move-window-to-workspace-"@)) by {
        if t.len() >= "move-window-to-workspace-"@.len() {
            assert(t.take("move-window-to-workspace-"@.len() as int)[0] == 's');
        }
    }
    assert(!starts_with_spec(t, "set-gap-outer-"@)) by {
        assert(t.take("set-gap-outer-"@.len() as int)[8] == 'i');
    }
    assert(t.take("set-gap-inner-"@.len() as int) =~= "set-gap-inner-"@);
    assert(t.skip("set-gap-inner-"@.len() as int) =~= d);
}


/// A number written in decimal reads back as itself: an unsigned one as a
/// `u32`, a signed one (with `-` when negative) as an `i32`.
pub proof fn law_decimal_text_reads_back(n: u32, p: i32)
    ensures
        parse_u32_spec(decimal_digits(n as nat)) == Some(n),
        parse_i32_spec(signed_decimal(p)) == Some(p),
{
    let d = decimal_digits(n as nat);
    lemma_decimal_digits(n as nat);
    assert(is_digit(d[0]));
    assert(magnitude_spec(d, u32::MAX as int) == Some(n as int));
    lemma_signed_decimal_parses(p);
}

/// The word for a direction in action names.
pub open spec fn direction_word(d: Direction) -> Seq<char> {
    match d {
        Direction::Left => "left"@,
        Direction::Right => "right"@,
        Direction::Up => "up"@,
        Direction::Down => "down"@,
    }
}

/// The word for a split in action names.
pub open spec fn split_word(d: SplitDirection) -> Seq<char> {
    match d {
        SplitDirection::Horizontal => "horizontal"@,
        SplitDirection::Vertical => "vertical"@,
    }
}

/// The word for a layout in action names.
pub open spec fn layout_word(m: LayoutMode) -> Seq<char> {
    match m {
        LayoutMode::Tile => "tile"@,
        LayoutMode::Accordion => "accordion"@,
    }
}

/// The action name of a command, in kebab case: the command's name, then
/// its direction, split, layout, workspace number or gap in pixels. The
/// display commands have none.
pub open spec fn action_text(c: Command) -> Option<Seq<char>> {
    match c {
        Command::Focus { direction } => Some("focus-"@ + direction_word(direction)),
        Command::MoveWindow { direction } => Some("move-window-"@ + direction_word(direction)),
        Command::Split { direction } => Some("split-"@ + split_word(direction)),
        Command::Workspace { id } => Some("workspace-"@ + decimal_digits(id as nat)),
        Command::MoveWindowToWorkspace { id } => Some("move-window-to-workspace-"@ + decimal_digits(id as nat)),
        Command::Close => Some("close"@),
        Command::ToggleLayout => Some("toggle-layout"@),
        Command::SetLayout { mode } => Some("set-layout-"@ + layout_word(mode)),
        Command::SetGapOuter { pixels } => Some("set-gap-outer-"@ + signed_decimal(pixels)),
        Command::SetGapInner { pixels } => Some("set-gap-inner-"@ + signed_decimal(pixels)),
        Command::ToggleBar => Some("toggle-bar"@),
        Command::ReloadConfig => Some("reload-config"@),
        Command::QueryState => Some("query-state"@),
        Command::Quit => Some("quit"@),
        Command::FocusDisplay { .. } => None,
        Command::MoveWindowToDisplay { .. } => None,
    }
}

proof fn lemma_named_action_values()
    ensures
        named_action("focus-left"@) == Some(Command::Focus { direction: Direction::Left }),
        named_action("focus-right"@) == Some(Command::Focus { direction: Direction::Right }),
        named_action("focus-up"@) == Some(Command::Focus { direction: Direction::Up }),
        named_action("focus-down"@) == Some(Command::Focus { direction: Direction::Down }),
        named_action("move-window-left"@) == Some(Command::MoveWindow { direction: Direction::Left }),
        named_action("move-window-right"@) == Some(Command::MoveWindow { direction: Direction::Right }),
        named_action("move-window-up"@) == Some(Command::MoveWindow { direction: Direction::Up }),
        named_action("move-window-down"@) == Some(Command::MoveWindow { direction: Direction::Down }),
        named_action("split-horizontal"@) == Some(Command::Split { direction: SplitDirection::Horizontal }),
        named_action("split-vertical"@) == Some(Command::Split { direction: SplitDirection::Vertical }),
        named_action("close"@) == Some(Command::Close),
        named_action("toggle-layout"@) == Some(Command::ToggleLayout),
        named_action("set-layout-tile"@) == Some(Command::SetLayout { mode: LayoutMode::Tile }),
        named_action("set-layout-accordion"@) == Some(Command::SetLayout { mode: LayoutMode::Accordion }),
        named_action("toggle-bar"@) == Some(Command::ToggleBar),
        named_action("reload-config"@) == Some(Command::ReloadConfig),
        named_action("query-state"@) == Some(Command::QueryState),
        named_action("quit"@) == Some(Command::Quit),
{
    assert(named_action("focus-left"@) == Some(Command::Focus { direction: Direction::Left })) by {
        reveal_strlit("focus-left");
        assert("focus-left"@.len() == 10);
    }
    assert(named_action("focus-right"@) == Some(Command::Focus { direction: Direction::Right })) by {
        reveal_strlit("focus-right");
        assert("focus-right"@.len() == 11);
        reveal_strlit("focus-left");
        assert("focus-left"@.len() == 10);
    }
    assert(named_action("focus-up"@) == Some(Command::Focus { direction: Direction::Up })) by {
        reveal_strlit("focus-up");
        assert("focus-up"@.len() == 8);
        reveal_strlit("focus-left");
        assert("focus-left"@.len() == 10);
        reveal_strlit("focus-right");
        assert("focus-right"@.len() == 11);
    }
    assert(named_action("focus-down"@) == Some(Command::Focus { direction: Direction::Down })) by {
        reveal_strlit("focus-down");
        assert("focus-down"@.len() == 10);
        reveal_strlit("focus-left");
        assert("focus-left"@[6] == 'l');
        reveal_strlit("focus-right");
        assert("focus-right"@.len() == 11);
        reveal_strlit("focus-up");
        assert("focus-up"@.len() == 8);
    }
    assert(named_action("move-window-left"@) == Some(Command::MoveWindow { direction: Direction::Left })) by {
        reveal_strlit("move-window-left");
        assert("move-window-left"@.len() == 16);
        reveal_strlit("focus-left");
        assert("focus-left"@.len() == 10);
        reveal_strlit("focus-right");
        assert("focus-right"@.len() == 11);
        reveal_strlit("focus-up");
        assert("focus-up"@.len() == 8);
        reveal_strlit("focus-down");
        assert("focus-down"@.len() == 10);
    }
    assert(named_action("move-window-right"@) == Some(Command::MoveWindow { direction: Direction::Right })) by {
        reveal_strlit("move-window-right");
        assert("move-window-right"@.len() == 17);
        reveal_strlit("focus-left");
        assert("focus-left"@.len() == 10);
        reveal_strlit("focus-right");
        assert("focus-right"@.len() == 11);
        reveal_strlit("focus-up");
        assert("focus-up"@.len() == 8);
        reveal_strlit("focus-down");
        assert("focus-down"@.len() == 10);
        reveal_strlit("move-window-left");
        assert("move-window-left"@.len() == 16);
    }
    assert(named_action("move-window-up"@) == Some(Command::MoveWindow { direction: Direction::Up })) by {
        reveal_strlit("move-window-up");
        assert("move-window-up"@.len() == 14);
        reveal_strlit("focus-left");
        assert("focus-left"@.len() == 10);
        reveal_strlit("focus-right");
        assert("focus-right"@.len() == 11);
        reveal_strlit("focus-up");
        assert("focus-up"@.len() == 8);
        reveal_strlit("focus-down");
        assert("focus-down"@.len() == 10);
        reveal_strlit("move-window-left");
        assert("move-window-left"@.len() == 16);
        reveal_strlit("move-window-right");
        assert("move-window-right"@.len() == 17);
    }
    assert(named_action("move-window-down"@) == Some(Command::MoveWindow { direction: Direction::Down })) by {
        reveal_strlit("move-window-down");
        assert("move-window-down"@.len() == 16);
        reveal_strlit("focus-left");
        assert("focus-left"@.len() == 10);
        reveal_strlit("focus-right");
        assert("focus-right"@.len() == 11);
        reveal_strlit("focus-up");
        assert("focus-up"@.len() == 8);
        reveal_strlit("focus-down");
        assert("focus-down"@.len() == 10);
        reveal_strlit("move-window-left");
        assert("move-window-left"@[12] == 'l');
        reveal_strlit("move-window-right");
        assert("move-window-right"@.len() == 17);
        reveal_strlit("move-window-up");
        assert("move-window-up"@.len() == 14);
    }
    assert(named_action("split-horizontal"@) == Some(Command::Split { direction: SplitDirection::Horizontal })) by {
        reveal_strlit("split-horizontal");
        assert("split-horizontal"@.len() == 16);
        reveal_strlit("focus-left");
        assert("focus-left"@.len() == 10);
        reveal_strlit("focus-right");
        assert("focus-right"@.len() == 11);
        reveal_strlit("focus-up");
        assert("focus-up"@.len() == 8);
        reveal_strlit("focus-down");
        assert("focus-down"@.len() == 10);
        reveal_strlit("move-window-left");
        assert("move-window-left"@[0] == 'm');
        reveal_strlit("move-window-right");
        assert("move-window-right"@.len() == 17);
        reveal_strlit("move-window-up");
        assert("move-window-up"@.len() == 14);
        reveal_strlit("move-window-down");
        assert("move-window-down"@[0] == 'm');
    }
    assert(named_action("split-vertical"@) == Some(Command::Split { direction: SplitDirection::Vertical })) by {
        reveal_strlit("split-vertical");
        assert("split-vertical"@.len() == 14);
        reveal_strlit("focus-left");
        assert("focus-left"@.len() == 10);
        reveal_strlit("focus-right");
        assert("focus-right"@.len() == 11);
        reveal_strlit("focus-up");
        assert("focus-up"@.len() == 8);
        reveal_strlit("focus-down");
        assert("focus-down"@.len() == 10);
        reveal_strlit("move-window-left");
        assert("move-window-left"@.len() == 16);
        reveal_strlit("move-window-right");
        assert("move-window-right"@.len() == 17);
        reveal_strlit("move-window-up");
        assert("move-window-up"@[0] == 'm');
        reveal_strlit("move-window-down");
        assert("move-window-down"@.len() == 16);
        reveal_strlit("split-horizontal");
        assert("split-horizontal"@.len() == 16);
    }
    assert(named_action("close"@) == Some(Command::Close)) by {
        reveal_strlit("close");
        assert("close"@.len() == 5);
        reveal_strlit("focus-left");
        assert("focus-left"@.len() == 10);
        reveal_strlit("focus-right");
        assert("focus-right"@.len() == 11);
        reveal_strlit("focus-up");
        assert("focus-up"@.len() == 8);
        reveal_strlit("focus-down");
        assert("focus-down"@.len() == 10);
        reveal_strlit("move-window-left");
        assert("move-window-left"@.len() == 16);
        reveal_strlit("move-window-right");
        assert("move-window-right"@.len() == 17);
        reveal_strlit("move-window-up");
        assert("move-window-up"@.len() == 14);
        reveal_strlit("move-window-down");
        assert("move-window-down"@.len() == 16);
        reveal_strlit("split-horizontal");
        assert("split-horizontal"@.len() == 16);
        reveal_strlit("split-vertical");
        assert("split-vertical"@.len() == 14);
    }
    assert(named_action("toggle-layout"@) == Some(Command::ToggleLayout)) by {
        reveal_strlit("toggle-layout");
        assert("toggle-layout"@.len() == 13);
        reveal_strlit("focus-left");
        assert("focus-left"@.len() == 10);
        reveal_strlit("focus-right");
        assert("focus-right"@.len() == 11);
        reveal_strlit("focus-up");
        assert("focus-up"@.len() == 8);
        reveal_strlit("focus-down");
        assert("focus-down"@.len() == 10);
        reveal_strlit("move-window-left");
        assert("move-window-left"@.len() == 16);
        reveal_strlit("move-window-right");
        assert("move-window-right"@.len() == 17);
        reveal_strlit("move-window-up");
        assert("move-window-up"@.len() == 14);
        reveal_strlit("move-window-down");
        assert("move-window-down"@.len() == 16);
        reveal_strlit("split-horizontal");
        assert("split-horizontal"@.len() == 16);
        reveal_strlit("split-vertical");
        assert("split-vertical"@.len() == 14);
        reveal_strlit("close");
        assert("close"@.len() == 5);
    }
    assert(named_action("set-layout-tile"@) == Some(Command::SetLayout { mode: LayoutMode::Tile })) by {
        reveal_strlit("set-layout-tile");
        assert("set-layout-tile"@.len() == 15);
        reveal_strlit("focus-left");
        assert("focus-left"@.len() == 10);
        reveal_strlit("focus-right");
        assert("focus-right"@.len() == 11);
        reveal_strlit("focus-up");
        assert("focus-up"@.len() == 8);
        reveal_strlit("focus-down");
        assert("focus-down"@.len() == 10);
        reveal_strlit("move-window-left");
        assert("move-window-left"@.len() == 16);
        reveal_strlit("move-window-right");
        assert("move-window-right"@.len() == 17);
        reveal_strlit("move-window-up");
        assert("move-window-up"@.len() == 14);
        reveal_strlit("move-window-down");
        assert("move-window-down"@.len() == 16);
        reveal_strlit("split-horizontal");
        assert("split-horizontal"@.len() == 16);
        reveal_strlit("split-vertical");
        assert("split-vertical"@.len() == 14);
        reveal_strlit("close");
        assert("close"@.len() == 5);
        reveal_strlit("toggle-layout");
        assert("toggle-layout"@.len() == 13);
    }
    assert(named_action("set-layout-accordion"@) == Some(Command::SetLayout { mode: LayoutMode::Accordion })) by {
        reveal_strlit("set-layout-accordion");
        assert("set-layout-accordion"@.len() == 20);
        reveal_strlit("focus-left");
        assert("focus-left"@.len() == 10);
        reveal_strlit("focus-right");
        assert("focus-right"@.len() == 11);
        reveal_strlit("focus-up");
        assert("focus-up"@.len() == 8);
        reveal_strlit("focus-down");
        assert("focus-down"@.len() == 10);
        reveal_strlit("move-window-left");
        assert("move-window-left"@.len() == 16);
        reveal_strlit("move-window-right");
        assert("move-window-right"@.len() == 17);
        reveal_strlit("move-window-up");
        assert("move-window-up"@.len() == 14);
        reveal_strlit("move-window-down");
        assert("move-window-down"@.len() == 16);
        reveal_strlit("split-horizontal");
        assert("split-horizontal"@.len() == 16);
        reveal_strlit("split-vertical");
        assert("split-vertical"@.len() == 14);
        reveal_strlit("close");
        assert("close"@.len() == 5);
        reveal_strlit("toggle-layout");
        assert("toggle-layout"@.len() == 13);
        reveal_strlit("set-layout-tile");
        assert("set-layout-tile"@.len() == 15);
    }
    assert(named_action("toggle-bar"@) == Some(Command::ToggleBar)) by {
        reveal_strlit("toggle-bar");
        assert("toggle-bar"@.len() == 10);
        reveal_strlit("focus-left");
        assert("focus-left"@[0] == 'f');
        reveal_strlit("focus-right");
        assert("focus-right"@.len() == 11);
        reveal_strlit("focus-up");
        assert("focus-up"@.len() == 8);
        reveal_strlit("focus-down");
        assert("focus-down"@[0] == 'f');
        reveal_strlit("move-window-left");
        assert("move-window-left"@.len() == 16);
        reveal_strlit("move-window-right");
        assert("move-window-right"@.len() == 17);
        reveal_strlit("move-window-up");
        assert("move-window-up"@.len() == 14);
        reveal_strlit("move-window-down");
        assert("move-window-down"@.len() == 16);
        reveal_strlit("split-horizontal");
        assert("split-horizontal"@.len() == 16);
        reveal_strlit("split-vertical");
        assert("split-vertical"@.len() == 14);
        reveal_strlit("close");
        assert("close"@.len() == 5);
        reveal_strlit("toggle-layout");
        assert("toggle-layout"@.len() == 13);
        reveal_strlit("set-layout-tile");
        assert("set-layout-tile"@.len() == 15);
        reveal_strlit("set-layout-accordion");
        assert("set-layout-accordion"@.len() == 20);
    }
    assert(named_action("reload-config"@) == Some(Command::ReloadConfig)) by {
        reveal_strlit("reload-config");
        assert("reload-config"@.len() == 13);
        reveal_strlit("focus-left");
        assert("focus-left"@.len() == 10);
        reveal_strlit("focus-right");
        assert("focus-right"@.len() == 11);
        reveal_strlit("focus-up");
        assert("focus-up"@.len() == 8);
        reveal_strlit("focus-down");
        assert("focus-down"@.len() == 10);
        reveal_strlit("move-window-left");
        assert("move-window-left"@.len() == 16);
        reveal_strlit("move-window-right");
        assert("move-window-right"@.len() == 17);
        reveal_strlit("move-window-up");
        assert("move-window-up"@.len() == 14);
        reveal_strlit("move-window-down");
        assert("move-window-down"@.len() == 16);
        reveal_strlit("split-horizontal");
        assert("split-horizontal"@.len() == 16);
        reveal_strlit("split-vertical");
        assert("split-vertical"@.len() == 14);
        reveal_strlit("close");
        assert("close"@.len() == 5);
        reveal_strlit("toggle-layout");
        assert("toggle-layout"@[0] == 't');
        reveal_strlit("set-layout-tile");
        assert("set-layout-tile"@.len() == 15);
        reveal_strlit("set-layout-accordion");
        assert("set-layout-accordion"@.len() == 20);
        reveal_strlit("toggle-bar");
        assert("toggle-bar"@.len() == 10);
    }
    assert(named_action("query-state"@) == Some(Command::QueryState)) by {
        reveal_strlit("query-state");
        assert("query-state"@.len() == 11);
        reveal_strlit("focus-left");
        assert("focus-left"@.len() == 10);
        reveal_strlit("focus-right");
        assert("focus-right"@[0] == 'f');
        reveal_strlit("focus-up");
        assert("focus-up"@.len() == 8);
        reveal_strlit("focus-down");
        assert("focus-down"@.len() == 10);
        reveal_strlit("move-window-left");
        assert("move-window-left"@.len() == 16);
        reveal_strlit("move-window-right");
        assert("move-window-right"@.len() == 17);
        reveal_strlit("move-window-up");
        assert("move-window-up"@.len() == 14);
        reveal_strlit("move-window-down");
        assert("move-window-down"@.len() == 16);
        reveal_strlit("split-horizontal");
        assert("split-horizontal"@.len() == 16);
        reveal_strlit("split-vertical");
        assert("split-vertical"@.len() == 14);
        reveal_strlit("close");
        assert("close"@.len() == 5);
        reveal_strlit("toggle-layout");
        assert("toggle-layout"@.len() == 13);
        reveal_strlit("set-layout-tile");
        assert("set-layout-tile"@.len() == 15);
        reveal_strlit("set-layout-accordion");
        assert("set-layout-accordion"@.len() == 20);
        reveal_strlit("toggle-bar");
        assert("toggle-bar"@.len() == 10);
        reveal_strlit("reload-config");
        assert("reload-config"@.len() == 13);
    }
    assert(named_action("quit"@) == Some(Command::Quit)) by {
        reveal_strlit("quit");
        assert("quit"@.len() == 4);
        reveal_strlit("focus-left");
        assert("focus-left"@.len() == 10);
        reveal_strlit("focus-right");
        assert("focus-right"@.len() == 11);
        reveal_strlit("focus-up");
        assert("focus-up"@.len() == 8);
        reveal_strlit("focus-down");
        assert("focus-down"@.len() == 10);
        reveal_strlit("move-window-left");
        assert("move-window-left"@.len() == 16);
        reveal_strlit("move-window-right");
        assert("move-window-right"@.len() == 17);
        reveal_strlit("move-window-up");
        assert("move-window-up"@.len() == 14);
        reveal_strlit("move-window-down");
        assert("move-window-down"@.len() == 16);
        reveal_strlit("split-horizontal");
        assert("split-horizontal"@.len() == 16);
        reveal_strlit("split-vertical");
        assert("split-vertical"@.len() == 14);
        reveal_strlit("close");
        assert("close"@.len() == 5);
        reveal_strlit("toggle-layout");
        assert("toggle-layout"@.len() == 13);
        reveal_strlit("set-layout-tile");
        assert("set-layout-tile"@.len() == 15);
        reveal_strlit("set-layout-accordion");
        assert("set-layout-accordion"@.len() == 20);
        reveal_strlit("toggle-bar");
        assert("toggle-bar"@.len() == 10);
        reveal_strlit("reload-config");
        assert("reload-config"@.len() == 13);
        reveal_strlit("query-state");
        assert("query-state"@.len() == 11);
    }
}

/// Every action name of a command (a workspace number being at least 1)
/// parses back to that command: `focus-up` is focus up,
/// `workspace-3` is workspace 3, `set-gap-inner--4` sets the inner gap to
/// -4.
pub proof fn law_action_text_parses(c: Command)
    requires
        action_text(c) is Some,
        c matches Command::Workspace { id } ==> id >= 1,
        c matches Command::MoveWindowToWorkspace { id } ==> id >= 1,
    ensures
        parse_action_spec(action_text(c)->0) == Some(c),
{
    lemma_named_action_values();
    reveal_strlit("focus-");
    reveal_strlit("move-window-");
    reveal_strlit("split-");
    reveal_strlit("set-layout-");
    reveal_strlit("left");
    reveal_strlit("right");
    reveal_strlit("up");
    reveal_strlit("down");
    reveal_strlit("horizontal");
    reveal_strlit("vertical");
    reveal_strlit("tile");
    reveal_strlit("accordion");
    reveal_strlit("focus-left");
    reveal_strlit("focus-right");
    reveal_strlit("focus-up");
    reveal_strlit("focus-down");
    reveal_strlit("move-window-left");
    reveal_strlit("move-window-right");
    reveal_strlit("move-window-up");
    reveal_strlit("move-window-down");
    reveal_strlit("split-horizontal");
    reveal_strlit("split-vertical");
    reveal_strlit("close");
    reveal_strlit("toggle-layout");
    reveal_strlit("set-layout-tile");
    reveal_strlit("set-layout-accordion");
    reveal_strlit("toggle-bar");
    reveal_strlit("reload-config");
    reveal_strlit("query-state");
    reveal_strlit("quit");
    match c {
        Command::Workspace { id } => law_workspace_action_roundtrip(id),
        Command::MoveWindowToWorkspace { id } => law_workspace_action_roundtrip(id),
        Command::SetGapOuter { pixels } => law_gap_action_roundtrip(pixels),
        Command::SetGapInner { pixels } => law_gap_action_roundtrip(pixels),
        _ => {
            let s = action_text(c)->0;
            if c == (Command::Focus { direction: Direction::Left }) {
                assert(s =~= "focus-left"@);
            }            else if c == (Command::Focus { direction: Direction::Right }) {
                assert(s =~= "focus-right"@);
            }            else if c == (Command::Focus { direction: Direction::Up }) {
                assert(s =~= "focus-up"@);
            }            else if c == (Command::Focus { direction: Direction::Down }) {
                assert(s =~= "focus-down"@);
            }            else if c == (Command::MoveWindow { direction: Direction::Left }) {
                assert(s =~= "move-window-left"@);
            }            else if c == (Command::MoveWindow { direction: Direction::Right }) {
                assert(s =~= "move-window-right"@);
            }            else if c == (Command::MoveWindow { direction: Direction::Up }) {
                assert(s =~= "move-window-up"@);
            }            else if c == (Command::MoveWindow { direction: Direction::Down }) {
                assert(s =~= "move-window-down"@);
            }            else if c == (Command::Split { direction: SplitDirection::Horizontal }) {
                assert(s =~= "split-horizontal"@);
            }            else if c == (Command::Split { direction: SplitDirection::Vertical }) {
                assert(s =~= "split-vertical"@);
            }            else if c == Command::Close {
                assert(s =~= "close"@);
            }            else if c == Command::ToggleLayout {
                assert(s =~= "toggle-layout"@);
            }            else if c == (Command::SetLayout { mode: LayoutMode::Tile }) {
                assert(s =~= "set-layout-tile"@);
            }            else if c == (Command::SetLayout { mode: LayoutMode::Accordion }) {
                assert(s =~= "set-layout-accordion"@);
            }            else if c == Command::ToggleBar {
                assert(s =~= "toggle-bar"@);
            }            else if c == Command::ReloadConfig {
                assert(s =~= "reload-config"@);
            }            else if c == Command::QueryState {
                assert(s =~= "query-state"@);
            }            else if c == Command::Quit {
                assert(s =~= "quit"@);
            }
            law_named_actions_parse(s);
        },
    }
}


} // verus!
