//! Keyboard bindings: the default table, lookup by key and modifiers, and
//! parsing of `modifier-modifier-key = "action"` entries.
use vstd::prelude::*;

use crate::command::{parse_action_spec, Command, LayoutMode};
use crate::text::{
    ascii_lower, chars_eq_ignore_ascii_case, chars_of, eq_ignore_ascii_case_spec, str_eq, trim_chars, trim_spec,
};
use crate::toml_doc::{pairs_view, parse_toml, table_string_entries, toml_document, toml_string_entries};
use crate::tree::Direction;

verus! {

/// A set of modifier keys, as the bits of the keyboard event flags.
pub type ModifierFlags = u64;

pub const MODIFIER_NONE: ModifierFlags = 0;
pub const MODIFIER_CMD: ModifierFlags = 0x0010_0000;
pub const MODIFIER_ALT: ModifierFlags = 0x0008_0000;
pub const MODIFIER_CTRL: ModifierFlags = 0x0004_0000;
pub const MODIFIER_SHIFT: ModifierFlags = 0x0002_0000;

/// One key combination and the command it triggers.
#[derive(Debug, Clone, Copy, PartialEq, Eq, Structural)]
pub struct Keybind {
    pub keycode: u16,
    pub modifiers: ModifierFlags,
    pub action: Command,
}

/// The active bindings, searched in order.
#[derive(Debug, Clone)]
pub struct KeybindConfig {
    pub bindings: Vec<Keybind>,
}

/// The built-in bindings: vim-style and arrow focus on alt, moves on
/// alt-shift, workspaces on alt-digit, layouts, reload, bar toggle and
/// display moves on alt-ctrl(-shift) arrows.
pub open spec fn default_bindings() -> Seq<Keybind> {
    seq![
    Keybind { keycode: 0x04, modifiers: MODIFIER_ALT, action: Command::Focus { direction: Direction::Left } },
    Keybind { keycode: 0x26, modifiers: MODIFIER_ALT, action: Command::Focus { direction: Direction::Down } },
    Keybind { keycode: 0x28, modifiers: MODIFIER_ALT, action: Command::Focus { direction: Direction::Up } },
    Keybind { keycode: 0x25, modifiers: MODIFIER_ALT, action: Command::Focus { direction: Direction::Right } },
    Keybind { keycode: 0x7B, modifiers: MODIFIER_ALT, action: Command::Focus { direction: Direction::Left } },
    Keybind { keycode: 0x7D, modifiers: MODIFIER_ALT, action: Command::Focus { direction: Direction::Down } },
    Keybind { keycode: 0x7E, modifiers: MODIFIER_ALT, action: Command::Focus { direction: Direction::Up } },
    Keybind { keycode: 0x7C, modifiers: MODIFIER_ALT, action: Command::Focus { direction: Direction::Right } },
    Keybind { keycode: 0x04, modifiers: MODIFIER_ALT | MODIFIER_SHIFT, action: Command::MoveWindow { direction: Direction::Left } },
    Keybind { keycode: 0x26, modifiers: MODIFIER_ALT | MODIFIER_SHIFT, action: Command::MoveWindow { direction: Direction::Down } },
    Keybind { keycode: 0x28, modifiers: MODIFIER_ALT | MODIFIER_SHIFT, action: Command::MoveWindow { direction: Direction::Up } },
    Keybind { keycode: 0x25, modifiers: MODIFIER_ALT | MODIFIER_SHIFT, action: Command::MoveWindow { direction: Direction::Right } },
    Keybind { keycode: 0x12, modifiers: MODIFIER_ALT, action: Command::Workspace { id: 1 } },
    Keybind { keycode: 0x13, modifiers: MODIFIER_ALT, action: Command::Workspace { id: 2 } },
    Keybind { keycode: 0x14, modifiers: MODIFIER_ALT, action: Command::Workspace { id: 3 } },
    Keybind { keycode: 0x15, modifiers: MODIFIER_ALT, action: Command::Workspace { id: 4 } },
    Keybind { keycode: 0x17, modifiers: MODIFIER_ALT, action: Command::Workspace { id: 5 } },
    Keybind { keycode: 0x16, modifiers: MODIFIER_ALT, action: Command::Workspace { id: 6 } },
    Keybind { keycode: 0x1A, modifiers: MODIFIER_ALT, action: Command::Workspace { id: 7 } },
    Keybind { keycode: 0x1B, modifiers: MODIFIER_ALT, action: Command::Workspace { id: 8 } },
    Keybind { keycode: 0x19, modifiers: MODIFIER_ALT, action: Command::Workspace { id: 9 } },
    Keybind { keycode: 0x12, modifiers: MODIFIER_ALT | MODIFIER_SHIFT, action: Command::MoveWindowToWorkspace { id: 1 } },
    Keybind { keycode: 0x13, modifiers: MODIFIER_ALT | MODIFIER_SHIFT, action: Command::MoveWindowToWorkspace { id: 2 } },
    Keybind { keycode: 0x14, modifiers: MODIFIER_ALT | MODIFIER_SHIFT, action: Command::MoveWindowToWorkspace { id: 3 } },
    Keybind { keycode: 0x15, modifiers: MODIFIER_ALT | MODIFIER_SHIFT, action: Command::MoveWindowToWorkspace { id: 4 } },
    Keybind { keycode: 0x17, modifiers: MODIFIER_ALT | MODIFIER_SHIFT, action: Command::MoveWindowToWorkspace { id: 5 } },
    Keybind { keycode: 0x16, modifiers: MODIFIER_ALT | MODIFIER_SHIFT, action: Command::MoveWindowToWorkspace { id: 6 } },
    Keybind { keycode: 0x1A, modifiers: MODIFIER_ALT | MODIFIER_SHIFT, action: Command::MoveWindowToWorkspace { id: 7 } },
    Keybind { keycode: 0x1B, modifiers: MODIFIER_ALT | MODIFIER_SHIFT, action: Command::MoveWindowToWorkspace { id: 8 } },
    Keybind { keycode: 0x19, modifiers: MODIFIER_ALT | MODIFIER_SHIFT, action: Command::MoveWindowToWorkspace { id: 9 } },
    Keybind { keycode: 0x2C, modifiers: MODIFIER_ALT, action: Command::SetLayout { mode: LayoutMode::Tile } },
    Keybind { keycode: 0x2F, modifiers: MODIFIER_ALT, action: Command::SetLayout { mode: LayoutMode::Tile } },
    Keybind { keycode: 0x2B, modifiers: MODIFIER_ALT, action: Command::SetLayout { mode: LayoutMode::Accordion } },
    Keybind { keycode: 0x11, modifiers: MODIFIER_ALT, action: Command::ToggleLayout },
    Keybind { keycode: 0x0F, modifiers: MODIFIER_CMD | MODIFIER_SHIFT, action: Command::ReloadConfig },
    Keybind { keycode: 0x0B, modifiers: MODIFIER_ALT, action: Command::ToggleBar },
    Keybind { keycode: 0x7B, modifiers: MODIFIER_ALT | MODIFIER_CTRL, action: Command::FocusDisplay { direction: Direction::Left } },
    Keybind { keycode: 0x7C, modifiers: MODIFIER_ALT | MODIFIER_CTRL, action: Command::FocusDisplay { direction: Direction::Right } },
    Keybind { keycode: 0x7E, modifiers: MODIFIER_ALT | MODIFIER_CTRL, action: Command::FocusDisplay { direction: Direction::Up } },
    Keybind { keycode: 0x7D, modifiers: MODIFIER_ALT | MODIFIER_CTRL, action: Command::FocusDisplay { direction: Direction::Down } },
    Keybind { keycode: 0x7B, modifiers: MODIFIER_ALT | MODIFIER_CTRL | MODIFIER_SHIFT, action: Command::MoveWindowToDisplay { direction: Direction::Left } },
    Keybind { keycode: 0x7C, modifiers: MODIFIER_ALT | MODIFIER_CTRL | MODIFIER_SHIFT, action: Command::MoveWindowToDisplay { direction: Direction::Right } },
    Keybind { keycode: 0x7E, modifiers: MODIFIER_ALT | MODIFIER_CTRL | MODIFIER_SHIFT, action: Command::MoveWindowToDisplay { direction: Direction::Up } },
    Keybind { keycode: 0x7D, modifiers: MODIFIER_ALT | MODIFIER_CTRL | MODIFIER_SHIFT, action: Command::MoveWindowToDisplay { direction: Direction::Down } },
    ]
}

impl Default for KeybindConfig {
    fn default() -> (r: KeybindConfig)
        ensures
            r.bindings@ == default_bindings(),
    {
        let bindings = vec![
        Keybind { keycode: 0x04, modifiers: MODIFIER_ALT, action: Command::Focus { direction: Direction::Left } },
        Keybind { keycode: 0x26, modifiers: MODIFIER_ALT, action: Command::Focus { direction: Direction::Down } },
        Keybind { keycode: 0x28, modifiers: MODIFIER_ALT, action: Command::Focus { direction: Direction::Up } },
        Keybind { keycode: 0x25, modifiers: MODIFIER_ALT, action: Command::Focus { direction: Direction::Right } },
        Keybind { keycode: 0x7B, modifiers: MODIFIER_ALT, action: Command::Focus { direction: Direction::Left } },
        Keybind { keycode: 0x7D, modifiers: MODIFIER_ALT, action: Command::Focus { direction: Direction::Down } },
        Keybind { keycode: 0x7E, modifiers: MODIFIER_ALT, action: Command::Focus { direction: Direction::Up } },
        Keybind { keycode: 0x7C, modifiers: MODIFIER_ALT, action: Command::Focus { direction: Direction::Right } },
        Keybind { keycode: 0x04, modifiers: MODIFIER_ALT | MODIFIER_SHIFT, action: Command::MoveWindow { direction: Direction::Left } },
        Keybind { keycode: 0x26, modifiers: MODIFIER_ALT | MODIFIER_SHIFT, action: Command::MoveWindow { direction: Direction::Down } },
        Keybind { keycode: 0x28, modifiers: MODIFIER_ALT | MODIFIER_SHIFT, action: Command::MoveWindow { direction: Direction::Up } },
        Keybind { keycode: 0x25, modifiers: MODIFIER_ALT | MODIFIER_SHIFT, action: Command::MoveWindow { direction: Direction::Right } },
        Keybind { keycode: 0x12, modifiers: MODIFIER_ALT, action: Command::Workspace { id: 1 } },
        Keybind { keycode: 0x13, modifiers: MODIFIER_ALT, action: Command::Workspace { id: 2 } },
        Keybind { keycode: 0x14, modifiers: MODIFIER_ALT, action: Command::Workspace { id: 3 } },
        Keybind { keycode: 0x15, modifiers: MODIFIER_ALT, action: Command::Workspace { id: 4 } },
        Keybind { keycode: 0x17, modifiers: MODIFIER_ALT, action: Command::Workspace { id: 5 } },
        Keybind { keycode: 0x16, modifiers: MODIFIER_ALT, action: Command::Workspace { id: 6 } },
        Keybind { keycode: 0x1A, modifiers: MODIFIER_ALT, action: Command::Workspace { id: 7 } },
        Keybind { keycode: 0x1B, modifiers: MODIFIER_ALT, action: Command::Workspace { id: 8 } },
        Keybind { keycode: 0x19, modifiers: MODIFIER_ALT, action: Command::Workspace { id: 9 } },
        Keybind { keycode: 0x12, modifiers: MODIFIER_ALT | MODIFIER_SHIFT, action: Command::MoveWindowToWorkspace { id: 1 } },
        Keybind { keycode: 0x13, modifiers: MODIFIER_ALT | MODIFIER_SHIFT, action: Command::MoveWindowToWorkspace { id: 2 } },
        Keybind { keycode: 0x14, modifiers: MODIFIER_ALT | MODIFIER_SHIFT, action: Command::MoveWindowToWorkspace { id: 3 } },
        Keybind { keycode: 0x15, modifiers: MODIFIER_ALT | MODIFIER_SHIFT, action: Command::MoveWindowToWorkspace { id: 4 } },
        Keybind { keycode: 0x17, modifiers: MODIFIER_ALT | MODIFIER_SHIFT, action: Command::MoveWindowToWorkspace { id: 5 } },
        Keybind { keycode: 0x16, modifiers: MODIFIER_ALT | MODIFIER_SHIFT, action: Command::MoveWindowToWorkspace { id: 6 } },
        Keybind { keycode: 0x1A, modifiers: MODIFIER_ALT | MODIFIER_SHIFT, action: Command::MoveWindowToWorkspace { id: 7 } },
        Keybind { keycode: 0x1B, modifiers: MODIFIER_ALT | MODIFIER_SHIFT, action: Command::MoveWindowToWorkspace { id: 8 } },
        Keybind { keycode: 0x19, modifiers: MODIFIER_ALT | MODIFIER_SHIFT, action: Command::MoveWindowToWorkspace { id: 9 } },
        Keybind { keycode: 0x2C, modifiers: MODIFIER_ALT, action: Command::SetLayout { mode: LayoutMode::Tile } },
        Keybind { keycode: 0x2F, modifiers: MODIFIER_ALT, action: Command::SetLayout { mode: LayoutMode::Tile } },
        Keybind { keycode: 0x2B, modifiers: MODIFIER_ALT, action: Command::SetLayout { mode: LayoutMode::Accordion } },
        Keybind { keycode: 0x11, modifiers: MODIFIER_ALT, action: Command::ToggleLayout },
        Keybind { keycode: 0x0F, modifiers: MODIFIER_CMD | MODIFIER_SHIFT, action: Command::ReloadConfig },
        Keybind { keycode: 0x0B, modifiers: MODIFIER_ALT, action: Command::ToggleBar },
        Keybind { keycode: 0x7B, modifiers: MODIFIER_ALT | MODIFIER_CTRL, action: Command::FocusDisplay { direction: Direction::Left } },
        Keybind { keycode: 0x7C, modifiers: MODIFIER_ALT | MODIFIER_CTRL, action: Command::FocusDisplay { direction: Direction::Right } },
        Keybind { keycode: 0x7E, modifiers: MODIFIER_ALT | MODIFIER_CTRL, action: Command::FocusDisplay { direction: Direction::Up } },
        Keybind { keycode: 0x7D, modifiers: MODIFIER_ALT | MODIFIER_CTRL, action: Command::FocusDisplay { direction: Direction::Down } },
        Keybind { keycode: 0x7B, modifiers: MODIFIER_ALT | MODIFIER_CTRL | MODIFIER_SHIFT, action: Command::MoveWindowToDisplay { direction: Direction::Left } },
        Keybind { keycode: 0x7C, modifiers: MODIFIER_ALT | MODIFIER_CTRL | MODIFIER_SHIFT, action: Command::MoveWindowToDisplay { direction: Direction::Right } },
        Keybind { keycode: 0x7E, modifiers: MODIFIER_ALT | MODIFIER_CTRL | MODIFIER_SHIFT, action: Command::MoveWindowToDisplay { direction: Direction::Up } },
        Keybind { keycode: 0x7D, modifiers: MODIFIER_ALT | MODIFIER_CTRL | MODIFIER_SHIFT, action: Command::MoveWindowToDisplay { direction: Direction::Down } },
        ];
        assert(bindings@ =~= default_bindings());
        KeybindConfig { bindings }
    }
}

impl KeybindConfig {
    /// The built-in bindings.
    pub fn new() -> (r: KeybindConfig)
        ensures
            r.bindings@ == default_bindings(),
    {
        Self::default()
    }
}

/// The action of the first binding in `bs` for `keycode` with exactly
/// `modifiers`.
pub open spec fn lookup_binding(bs: Seq<Keybind>, keycode: u16, modifiers: ModifierFlags) -> Option<Command>
    decreases bs.len(),
{
    if bs.len() == 0 {
        None
    } else if bs[0].keycode == keycode && bs[0].modifiers == modifiers {
        Some(bs[0].action)
    } else {
        lookup_binding(bs.drop_first(), keycode, modifiers)
    }
}

/// The command bound to `keycode` with exactly `modifiers`: the first
/// matching binding wins.
pub fn find_keybind(keycode: u16, modifiers: ModifierFlags, config: &KeybindConfig) -> (r: Option<Command>)
    ensures
        r == lookup_binding(config.bindings@, keycode, modifiers),
{
    let bs = &config.bindings;
    let mut i: usize = 0;
    assert(bs@.skip(0) =~= bs@);
    while i < bs.len()
        invariant
            bs@ == config.bindings@,
            i <= bs@.len(),
            lookup_binding(bs@, keycode, modifiers) == lookup_binding(bs@.skip(i as int), keycode, modifiers),
        decreases bs@.len() - i,
    {
        assert(bs@.skip(i as int)[0] == bs@[i as int]);
        assert(bs@.skip(i as int).drop_first() =~= bs@.skip(i + 1));
        if bs[i].keycode == keycode && bs[i].modifiers == modifiers {
            assert(lookup_binding(bs@.skip(i as int), keycode, modifiers) == Some(bs@[i as int].action));
            return Some(bs[i].action);
        }
        i = i + 1;
    }
    assert(bs@.skip(i as int).len() == 0);
    None
}

/// The virtual key code of a key name: letters, digits, arrows, a few
/// punctuation keys and named keys.
pub open spec fn keycode_spec(name: Seq<char>) -> Option<u16> {
    if name == "a"@ {
        Some(0x00)
    } else if name == "b"@ {
        Some(0x0B)
    } else if name == "c"@ {
        Some(0x08)
    } else if name == "d"@ {
        Some(0x02)
    } else if name == "e"@ {
        Some(0x0E)
    } else if name == "f"@ {
        Some(0x03)
    } else if name == "g"@ {
        Some(0x05)
    } else if name == "h"@ {
        Some(0x04)
    } else if name == "i"@ {
        Some(0x22)
    } else if name == "j"@ {
        Some(0x26)
    } else if name == "k"@ {
        Some(0x28)
    } else if name == "l"@ {
        Some(0x25)
    } else if name == "m"@ {
        Some(0x2E)
    } else if name == "n"@ {
        Some(0x2D)
    } else if name == "o"@ {
        Some(0x1F)
    } else if name == "p"@ {
        Some(0x23)
    } else if name == "q"@ {
        Some(0x0C)
    } else if name == "r"@ {
        Some(0x0F)
    } else if name == "s"@ {
        Some(0x01)
    } else if name == "t"@ {
        Some(0x11)
    } else if name == "u"@ {
        Some(0x20)
    } else if name == "v"@ {
        Some(0x09)
    } else if name == "w"@ {
        Some(0x0D)
    } else if name == "x"@ {
        Some(0x07)
    } else if name == "y"@ {
        Some(0x10)
    } else if name == "z"@ {
        Some(0x06)
    } else if name == "0"@ {
        Some(0x1D)
    } else if name == "1"@ {
        Some(0x12)
    } else if name == "2"@ {
        Some(0x13)
    } else if name == "3"@ {
        Some(0x14)
    } else if name == "4"@ {
        Some(0x15)
    } else if name == "5"@ {
        Some(0x17)
    } else if name == "6"@ {
        Some(0x16)
    } else if name == "7"@ {
        Some(0x1A)
    } else if name == "8"@ {
        Some(0x1B)
    } else if name == "9"@ {
        Some(0x19)
    } else if name == "left"@ {
        Some(0x7B)
    } else if name == "right"@ {
        Some(0x7C)
    } else if name == "down"@ {
        Some(0x7D)
    } else if name == "up"@ {
        Some(0x7E)
    } else if name == ","@ {
        Some(0x2B)
    } else if name == "."@ {
        Some(0x2F)
    } else if name == "/"@ {
        Some(0x2C)
    } else if name == "space"@ {
        Some(0x31)
    } else if name == "tab"@ {
        Some(0x30)
    } else if name == "escape"@ {
        Some(0x35)
    } else if name == "return"@ {
        Some(0x24)
    } else if name == "delete"@ {
        Some(0x33)
    } else if name == "home"@ {
        Some(0x73)
    } else if name == "end"@ {
        Some(0x77)
    } else if name == "pageup"@ {
        Some(0x74)
    } else if name == "pagedown"@ {
        Some(0x79)
    } else {
        None
    }
}

/// The virtual key code of a key name (`"h"`, `"1"`, `"left"`, `","`,
/// `"space"`, ...), `None` for an unknown name.
pub fn key_name_to_keycode(name: &str) -> (r: Option<u16>)
    ensures
        r == keycode_spec(name@),
{
    if str_eq(name, "a") {
        Some(0x00)
    } else if str_eq(name, "b") {
        Some(0x0B)
    } else if str_eq(name, "c") {
        Some(0x08)
    } else if str_eq(name, "d") {
        Some(0x02)
    } else if str_eq(name, "e") {
        Some(0x0E)
    } else if str_eq(name, "f") {
        Some(0x03)
    } else if str_eq(name, "g") {
        Some(0x05)
    } else if str_eq(name, "h") {
        Some(0x04)
    } else if str_eq(name, "i") {
        Some(0x22)
    } else if str_eq(name, "j") {
        Some(0x26)
    } else if str_eq(name, "k") {
        Some(0x28)
    } else if str_eq(name, "l") {
        Some(0x25)
    } else if str_eq(name, "m") {
        Some(0x2E)
    } else if str_eq(name, "n") {
        Some(0x2D)
    } else if str_eq(name, "o") {
        Some(0x1F)
    } else if str_eq(name, "p") {
        Some(0x23)
    } else if str_eq(name, "q") {
        Some(0x0C)
    } else if str_eq(name, "r") {
        Some(0x0F)
    } else if str_eq(name, "s") {
        Some(0x01)
    } else if str_eq(name, "t") {
        Some(0x11)
    } else if str_eq(name, "u") {
        Some(0x20)
    } else if str_eq(name, "v") {
        Some(0x09)
    } else if str_eq(name, "w") {
        Some(0x0D)
    } else if str_eq(name, "x") {
        Some(0x07)
    } else if str_eq(name, "y") {
        Some(0x10)
    } else if str_eq(name, "z") {
        Some(0x06)
    } else if str_eq(name, "0") {
        Some(0x1D)
    } else if str_eq(name, "1") {
        Some(0x12)
    } else if str_eq(name, "2") {
        Some(0x13)
    } else if str_eq(name, "3") {
        Some(0x14)
    } else if str_eq(name, "4") {
        Some(0x15)
    } else if str_eq(name, "5") {
        Some(0x17)
    } else if str_eq(name, "6") {
        Some(0x16)
    } else if str_eq(name, "7") {
        Some(0x1A)
    } else if str_eq(name, "8") {
        Some(0x1B)
    } else if str_eq(name, "9") {
        Some(0x19)
    } else if str_eq(name, "left") {
        Some(0x7B)
    } else if str_eq(name, "right") {
        Some(0x7C)
    } else if str_eq(name, "down") {
        Some(0x7D)
    } else if str_eq(name, "up") {
        Some(0x7E)
    } else if str_eq(name, ",") {
        Some(0x2B)
    } else if str_eq(name, ".") {
        Some(0x2F)
    } else if str_eq(name, "/") {
        Some(0x2C)
    } else if str_eq(name, "space") {
        Some(0x31)
    } else if str_eq(name, "tab") {
        Some(0x30)
    } else if str_eq(name, "escape") {
        Some(0x35)
    } else if str_eq(name, "return") {
        Some(0x24)
    } else if str_eq(name, "delete") {
        Some(0x33)
    } else if str_eq(name, "home") {
        Some(0x73)
    } else if str_eq(name, "end") {
        Some(0x77)
    } else if str_eq(name, "pageup") {
        Some(0x74)
    } else if str_eq(name, "pagedown") {
        Some(0x79)
    } else {
        None
    }
}

/// The flag a single modifier word stands for, after trimming whitespace and
/// ignoring ASCII case; 0 for an unknown word.
pub open spec fn modifier_word_flag(p: Seq<char>) -> ModifierFlags {
    let t = trim_spec(p);
    if eq_ignore_ascii_case_spec(t, "cmd"@) || eq_ignore_ascii_case_spec(t, "command"@) {
        MODIFIER_CMD
    } else if eq_ignore_ascii_case_spec(t, "alt"@) || eq_ignore_ascii_case_spec(t, "option"@) {
        MODIFIER_ALT
    } else if eq_ignore_ascii_case_spec(t, "ctrl"@) || eq_ignore_ascii_case_spec(t, "control"@) {
        MODIFIER_CTRL
    } else if eq_ignore_ascii_case_spec(t, "shift"@) {
        MODIFIER_SHIFT
    } else {
        0
    }
}

/// The pieces of `s` between `-` separators (an empty string gives one
/// empty piece).
pub open spec fn dash_parts(s: Seq<char>) -> Seq<Seq<char>>
    decreases s.len(),
{
    if s.len() == 0 {
        seq![Seq::<char>::empty()]
    } else {
        let pre = dash_parts(s.drop_last());
        if s.last() == '-' {
            pre.push(Seq::<char>::empty())
        } else {
            pre.update(pre.len() - 1, pre.last().push(s.last()))
        }
    }
}

/// The union of the flags of the modifier words `parts`.
pub open spec fn flags_of(parts: Seq<Seq<char>>) -> ModifierFlags
    decreases parts.len(),
{
    if parts.len() == 0 {
        0
    } else {
        flags_of(parts.drop_last()) | modifier_word_flag(parts.last())
    }
}

/// The modifier flags of a `-`-separated list of modifier words.
pub open spec fn parse_modifiers_spec(s: Seq<char>) -> ModifierFlags {
    if s.len() == 0 {
        MODIFIER_NONE
    } else {
        flags_of(dash_parts(s))
    }
}

proof fn lemma_dash_parts_nonempty(s: Seq<char>)
    ensures
        dash_parts(s).len() >= 1,
    decreases s.len(),
{
    if s.len() > 0 {
        lemma_dash_parts_nonempty(s.drop_last());
    }
}

fn word_flag(part: &Vec<char>) -> (r: ModifierFlags)
    ensures
        r == modifier_word_flag(part@),
{
    let t = trim_chars(part);
    if chars_eq_ignore_ascii_case(&t, &chars_of("cmd")) || chars_eq_ignore_ascii_case(&t, &chars_of("command")) {
        MODIFIER_CMD
    } else if chars_eq_ignore_ascii_case(&t, &chars_of("alt")) || chars_eq_ignore_ascii_case(
        &t,
        &chars_of("option"),
    ) {
        MODIFIER_ALT
    } else if chars_eq_ignore_ascii_case(&t, &chars_of("ctrl")) || chars_eq_ignore_ascii_case(
        &t,
        &chars_of("control"),
    ) {
        MODIFIER_CTRL
    } else if chars_eq_ignore_ascii_case(&t, &chars_of("shift")) {
        MODIFIER_SHIFT
    } else {
        0
    }
}

/// The modifier flags of a `-`-separated list such as `"cmd-shift"`.
/// Words are trimmed and compared ignoring case; unknown words add nothing.
pub fn parse_modifiers(s: &str) -> (r: ModifierFlags)
    ensures
        r == parse_modifiers_spec(s@),
{
    let cs = chars_of(s);
    if cs.len() == 0 {
        return MODIFIER_NONE;
    }
    let mut flags: ModifierFlags = MODIFIER_NONE;
    let mut cur: Vec<char> = Vec::new();
    let ghost mut done: Seq<Seq<char>> = Seq::empty();
    let mut i: usize = 0;
    assert(cs@.take(0) =~= Seq::<char>::empty());
    assert(dash_parts(Seq::<char>::empty()) =~= done.push(cur@));
    while i < cs.len()
        invariant
            cs@ == s@,
            i <= cs@.len(),
            dash_parts(cs@.take(i as int)) == done.push(cur@),
            flags == flags_of(done),
        decreases cs@.len() - i,
    {
        let c = cs[i];
        let ghost pre = cs@.take(i as int);
        assert(cs@.take(i + 1).drop_last() =~= pre);
        assert(cs@.take(i + 1).last() == c);
        if c == '-' {
            let f = word_flag(&cur);
            proof {
                assert(done.push(cur@).drop_last() =~= done);
                done = done.push(cur@);
            }
            flags = flags | f;
            cur = Vec::new();
            assert(dash_parts(cs@.take(i + 1)) =~= done.push(cur@));
        } else {
            cur.push(c);
            assert(dash_parts(cs@.take(i + 1)) =~= done.push(cur@));
        }
        i = i + 1;
    }
    assert(cs@.take(i as int) =~= cs@);
    let f = word_flag(&cur);
    assert(done.push(cur@).drop_last() =~= done);
    flags | f
}

/// The command an action string stands for.
pub fn parse_action(s: &str) -> (r: Option<Command>)
    ensures
        r == parse_action_spec(s@),
{
    Command::parse_action(s)
}

/// The position of the last `-` in `s`, or -1.
pub open spec fn last_dash(s: Seq<char>) -> int
    decreases s.len(),
{
    if s.len() == 0 {
        -1
    } else if s.last() == '-' {
        s.len() - 1
    } else {
        last_dash(s.drop_last())
    }
}

/// A binding name split at its last `-` into modifiers and key; without a
/// `-` the modifiers are empty.
pub open spec fn split_keybind_spec(s: Seq<char>) -> (Seq<char>, Seq<char>) {
    let k = last_dash(s);
    if k >= 0 {
        (s.take(k), s.skip(k + 1))
    } else {
        (Seq::<char>::empty(), s)
    }
}

proof fn lemma_last_dash(s: Seq<char>, k: int)
    requires
        -1 <= k < s.len(),
        k >= 0 ==> s[k] == '-',
        forall|j: int| k < j < s.len() ==> s[j] != '-',
    ensures
        last_dash(s) == k,
    decreases s.len(),
{
    if s.len() > 0 && k < s.len() - 1 {
        assert(s[s.len() - 1] != '-');
        lemma_last_dash(s.drop_last(), k);
    }
}

/// Split a binding name such as `"cmd-shift-h"` into `("cmd-shift", "h")`.
pub fn split_keybind_str(s: &str) -> (r: (&str, &str))
    ensures
        (r.0@, r.1@) == split_keybind_spec(s@),
{
    let n = s.unicode_len();
    let mut k: usize = n;
    while k > 0 && s.get_char(k - 1) != '-'
        invariant
            n == s@.len(),
            k <= n,
            forall|j: int| k <= j < n ==> s@[j] != '-',
        decreases k,
    {
        k = k - 1;
    }
    if k > 0 {
        proof {
            lemma_last_dash(s@, k - 1);
        }
        let mods = s.substring_char(0, k - 1);
        let key = s.substring_char(k, n);
        assert(mods@ =~= s@.take(k - 1));
        assert(key@ =~= s@.skip(k as int));
        (mods, key)
    } else {
        proof {
            lemma_last_dash(s@, -1);
        }
        let key = s.substring_char(0, n);
        assert(key@ =~= s@);
        proof {
            reveal_strlit("");
        }
        ("", key)
    }
}

/// The views of `(binding name, action string if the value is a string)`
/// entries.
pub open spec fn entries_view(es: Seq<(String, Option<String>)>) -> Seq<(Seq<char>, Option<Seq<char>>)> {
    es.map_values(
        |e: (String, Option<String>)|
            (
                e.0@,
                match e.1 {
                    Some(a) => Some(a@),
                    None => None,
                },
            ),
    )
}

/// The binding one entry describes, when its value is a string naming an
/// action and its key name is known.
pub open spec fn entry_binding(e: (Seq<char>, Option<Seq<char>>)) -> Option<Keybind> {
    match e.1 {
        None => None,
        Some(a) => match parse_action_spec(a) {
            None => None,
            Some(action) => {
                let (mods, key) = split_keybind_spec(e.0);
                match keycode_spec(key) {
                    None => None,
                    Some(keycode) => Some(Keybind { keycode, modifiers: parse_modifiers_spec(mods), action }),
                }
            },
        },
    }
}

/// The bindings of the valid entries, in order; invalid entries are skipped.
pub open spec fn bindings_of(es: Seq<(Seq<char>, Option<Seq<char>>)>) -> Seq<Keybind>
    decreases es.len(),
{
    if es.len() == 0 {
        Seq::empty()
    } else {
        let pre = bindings_of(es.drop_last());
        match entry_binding(es.last()) {
            Some(b) => pre.push(b),
            None => pre,
        }
    }
}

fn binding_of_entry(e: &(String, Option<String>)) -> (r: Option<Keybind>)
    ensures
        r == entry_binding(
            (
                e.0@,
                match e.1 {
                    Some(a) => Some(a@),
                    None => None,
                },
            ),
        ),
{
    let action_str = match &e.1 {
        Some(a) => a.as_str(),
        None => return None,
    };
    let action = match parse_action(action_str) {
        Some(a) => a,
        None => return None,
    };
    let (modifier_str, key_name) = split_keybind_str(e.0.as_str());
    let modifiers = parse_modifiers(modifier_str);
    match key_name_to_keycode(key_name) {
        Some(keycode) => Some(Keybind { keycode, modifiers, action }),
        None => None,
    }
}

/// The bindings described by `(binding name, value)` entries, skipping
/// values that are not strings, unknown actions and unknown keys.
pub fn bindings_from_entries(entries: &Vec<(String, Option<String>)>) -> (r: KeybindConfig)
    ensures
        r.bindings@ == bindings_of(entries_view(entries@)),
{
    let ghost ev = entries_view(entries@);
    let mut bindings: Vec<Keybind> = Vec::new();
    let mut i: usize = 0;
    assert(ev.take(0) =~= Seq::<(Seq<char>, Option<Seq<char>>)>::empty());
    while i < entries.len()
        invariant
            ev == entries_view(entries@),
            ev.len() == entries@.len(),
            i <= entries@.len(),
            bindings@ == bindings_of(ev.take(i as int)),
        decreases entries@.len() - i,
    {
        let b = binding_of_entry(&entries[i]);
        assert(ev.take(i + 1).drop_last() =~= ev.take(i as int));
        assert(ev.take(i + 1).last() == ev[i as int]);
        match b {
            Some(b) => bindings.push(b),
            None => {},
        }
        i = i + 1;
    }
    assert(ev.take(i as int) =~= ev);
    KeybindConfig { bindings }
}

/// The modifier bits a binding can use.
pub open spec fn modifier_mask() -> u64 {
    MODIFIER_CMD | MODIFIER_ALT | MODIFIER_CTRL | MODIFIER_SHIFT
}

/// The system shortcuts that are never intercepted: Cmd(+Shift)+Tab,
/// Cmd(+Shift)+`, Cmd+Space and Cmd+Alt+Space.
pub open spec fn is_system_shortcut_spec(keycode: u16, flags: ModifierFlags) -> bool {
    ||| keycode == 0x30 && flags == MODIFIER_CMD
    ||| keycode == 0x30 && flags == (MODIFIER_CMD | MODIFIER_SHIFT)
    ||| keycode == 0x32 && flags == MODIFIER_CMD
    ||| keycode == 0x32 && flags == (MODIFIER_CMD | MODIFIER_SHIFT)
    ||| keycode == 0x31 && flags == MODIFIER_CMD
    ||| keycode == 0x31 && flags == (MODIFIER_CMD | MODIFIER_ALT)
}

/// Whether `keycode` with exactly `flags` is a protected system shortcut.
pub fn is_system_shortcut(keycode: u16, flags: ModifierFlags) -> (r: bool)
    ensures
        r == is_system_shortcut_spec(keycode, flags),
{
    (keycode == 0x30 && flags == MODIFIER_CMD) || (keycode == 0x30 && flags == (MODIFIER_CMD | MODIFIER_SHIFT)) || (
    keycode == 0x32 && flags == MODIFIER_CMD) || (keycode == 0x32 && flags == (MODIFIER_CMD | MODIFIER_SHIFT)) || (
    keycode == 0x31 && flags == MODIFIER_CMD) || (keycode == 0x31 && flags == (MODIFIER_CMD | MODIFIER_ALT))
}

/// The command a key-down event triggers: none without a modifier, none
/// for a protected system shortcut, else the binding for the key and its
/// modifier bits (other event flags are ignored).
pub open spec fn event_command_spec(keycode: u16, flags: u64, bindings: Seq<Keybind>) -> Option<Command> {
    let m = flags & modifier_mask();
    if m == MODIFIER_NONE || is_system_shortcut_spec(keycode, m) {
        None
    } else {
        lookup_binding(bindings, keycode, m)
    }
}

/// The command a key-down event with raw event `flags` triggers.
pub fn command_for_key_event(keycode: u16, flags: u64, config: &KeybindConfig) -> (r: Option<Command>)
    ensures
        r == event_command_spec(keycode, flags, config.bindings@),
{
    let filtered = flags & (MODIFIER_CMD | MODIFIER_ALT | MODIFIER_CTRL | MODIFIER_SHIFT);
    if filtered == MODIFIER_NONE {
        return None;
    }
    if is_system_shortcut(keycode, filtered) {
        return None;
    }
    find_keybind(keycode, filtered, config)
}

/// The event-mask bit of an event type.
#[allow(non_snake_case)]
pub fn CGEventMaskBit(event_type: u32) -> (r: u64)
    requires
        event_type < 64,
    ensures
        r == 1u64 << event_type,
{
    1u64 << event_type
}

proof fn lemma_flags_within_mask(parts: Seq<Seq<char>>)
    ensures
        flags_of(parts) & !modifier_mask() == 0,
    decreases parts.len(),
{
    if parts.len() > 0 {
        lemma_flags_within_mask(parts.drop_last());
        let a = flags_of(parts.drop_last());
        let b = modifier_word_flag(parts.last());
        assert(b & !modifier_mask() == 0) by {
            assert(0x0010_0000u64 & !(0x0010_0000u64 | 0x0008_0000u64 | 0x0004_0000u64 | 0x0002_0000u64) == 0)
                by (bit_vector);
            assert(0x0008_0000u64 & !(0x0010_0000u64 | 0x0008_0000u64 | 0x0004_0000u64 | 0x0002_0000u64) == 0)
                by (bit_vector);
            assert(0x0004_0000u64 & !(0x0010_0000u64 | 0x0008_0000u64 | 0x0004_0000u64 | 0x0002_0000u64) == 0)
                by (bit_vector);
            assert(0x0002_0000u64 & !(0x0010_0000u64 | 0x0008_0000u64 | 0x0004_0000u64 | 0x0002_0000u64) == 0)
                by (bit_vector);
            assert(0u64 & !(0x0010_0000u64 | 0x0008_0000u64 | 0x0004_0000u64 | 0x0002_0000u64) == 0)
                by (bit_vector);
        }
        let m = modifier_mask();
        assert((a | b) & !m == 0) by (bit_vector)
            requires
                a & !m == 0,
                b & !m == 0,
        ;
    } else {
        let m = modifier_mask();
        assert(0u64 & !m == 0) by (bit_vector);
    }
}

/// Parsed modifiers only ever hold the four modifier bits: unknown words
/// add nothing.
pub proof fn law_modifiers_within_mask(s: Seq<char>)
    ensures
        parse_modifiers_spec(s) & !modifier_mask() == 0,
{
    if s.len() > 0 {
        lemma_flags_within_mask(dash_parts(s));
    } else {
        assert(0u64 & !(0x0010_0000u64 | 0x0008_0000u64 | 0x0004_0000u64 | 0x0002_0000u64) == 0) by (bit_vector);
    }
}

/// A key event is only ever matched with its modifier bits: events that
/// differ only in other flag bits trigger the same command.
pub proof fn law_event_ignores_other_flags(keycode: u16, f1: u64, f2: u64, bindings: Seq<Keybind>)
    requires
        f1 & modifier_mask() == f2 & modifier_mask(),
    ensures
        event_command_spec(keycode, f1, bindings) == event_command_spec(keycode, f2, bindings),
{
}

/// The bindings of a TOML table of `binding = "action"` entries, skipping
/// invalid ones; none when the value is not a table.
pub fn from_toml_value(value: &toml::Value) -> (r: KeybindConfig)
    ensures
        r.bindings@ == match toml_string_entries(*value) {
            Some(es) => bindings_of(es),
            None => Seq::empty(),
        },
{
    match table_string_entries(value) {
        Some(es) => {
            assert(entries_view(es@) == pairs_view(es@));
            bindings_from_entries(&es)
        },
        None => KeybindConfig { bindings: Vec::new() },
    }
}

/// Why an entry is rejected, if it is: its value is not a string, names no
/// action, or its key name is unknown.
pub open spec fn entry_error(e: (Seq<char>, Option<Seq<char>>)) -> Option<Seq<char>> {
    match e.1 {
        None => Some("keybind '"@ + e.0 + "' value must be a string"@),
        Some(a) => match parse_action_spec(a) {
            None => Some("unknown action '"@ + a + "' for keybind '"@ + e.0 + "'"@),
            Some(_) => {
                let key = split_keybind_spec(e.0).1;
                match keycode_spec(key) {
                    None => Some("unknown key '"@ + key + "' for keybind '"@ + e.0 + "'"@),
                    Some(_) => None,
                }
            },
        },
    }
}

/// The reason the first rejected entry is rejected.
pub open spec fn first_error(es: Seq<(Seq<char>, Option<Seq<char>>)>) -> Option<Seq<char>>
    decreases es.len(),
{
    if es.len() == 0 {
        None
    } else {
        match first_error(es.drop_last()) {
            Some(m) => Some(m),
            None => entry_error(es.last()),
        }
    }
}

proof fn lemma_no_error_all_bind(es: Seq<(Seq<char>, Option<Seq<char>>)>)
    requires
        first_error(es) is None,
    ensures
        bindings_of(es).len() == es.len(),
        forall|i: int| 0 <= i < es.len() ==> entry_binding(#[trigger] es[i]) is Some,
    decreases es.len(),
{
    if es.len() > 0 {
        lemma_no_error_all_bind(es.drop_last());
        assert forall|i: int| 0 <= i < es.len() implies entry_binding(#[trigger] es[i]) is Some by {
            if i < es.len() - 1 {
                assert(es[i] == es.drop_last()[i]);
            }
        }
    }
}

fn entry_error_text(e: &(String, Option<String>)) -> (r: Option<String>)
    ensures
        match r {
            Some(m) => entry_error(
                (
                    e.0@,
                    match e.1 {
                        Some(a) => Some(a@),
                        None => None,
                    },
                ),
            ) == Some(m@),
            None => entry_error(
                (
                    e.0@,
                    match e.1 {
                        Some(a) => Some(a@),
                        None => None,
                    },
                ),
            ) is None,
        },
{
    let key_str = e.0.as_str();
    let action_str = match &e.1 {
        Some(a) => a.as_str(),
        None => {
            let mut m = String::from_str("keybind '");
            m.append(key_str);
            m.append("' value must be a string");
            return Some(m);
        },
    };
    if parse_action(action_str).is_none() {
        let mut m = String::from_str("unknown action '");
        m.append(action_str);
        m.append("' for keybind '");
        m.append(key_str);
        m.append("'");
        return Some(m);
    }
    let (_, key_name) = split_keybind_str(key_str);
    if key_name_to_keycode(key_name).is_none() {
        let mut m = String::from_str("unknown key '");
        m.append(key_name);
        m.append("' for keybind '");
        m.append(key_str);
        m.append("'");
        return Some(m);
    }
    None
}

/// The bindings of a TOML table of `binding = "action"` entries; the first
/// invalid entry is an error naming it. A value that is not a table gives
/// no bindings.
pub fn try_from_toml_value(value: &toml::Value) -> (r: Result<KeybindConfig, String>)
    ensures
        match toml_string_entries(*value) {
            None => r is Ok && r->Ok_0.bindings@.len() == 0,
            Some(es) => match first_error(es) {
                Some(m) => r is Err && r->Err_0@ == m,
                None => r is Ok && r->Ok_0.bindings@ == bindings_of(es),
            },
        },
{
    let es = match table_string_entries(value) {
        Some(es) => es,
        None => return Ok(KeybindConfig { bindings: Vec::new() }),
    };
    let ghost ev = pairs_view(es@);
    let mut i: usize = 0;
    assert(ev.take(0) =~= Seq::<(Seq<char>, Option<Seq<char>>)>::empty());
    while i < es.len()
        invariant
            ev == pairs_view(es@),
            toml_string_entries(*value) == Some(ev),
            ev.len() == es@.len(),
            i <= es@.len(),
            first_error(ev.take(i as int)) is None,
        decreases es@.len() - i,
    {
        assert(ev.take(i + 1).drop_last() =~= ev.take(i as int));
        assert(ev.take(i + 1).last() == ev[i as int]);
        assert(ev[i as int] == (
            es@[i as int].0@,
            match es@[i as int].1 {
                Some(a) => Some(a@),
                None => None,
            },
        ));
        match entry_error_text(&es[i]) {
            Some(m) => {
                proof {
                    assert(first_error(ev.take(i + 1)) == Some(m@));
                    lemma_first_error_prefix(ev, i + 1);
                }
                return Err(m);
            },
            None => {},
        }
        i = i + 1;
    }
    assert(ev.take(i as int) =~= ev);
    assert(entries_view(es@) == ev);
    Ok(bindings_from_entries(&es))
}

proof fn lemma_first_error_prefix(es: Seq<(Seq<char>, Option<Seq<char>>)>, k: int)
    requires
        0 <= k <= es.len(),
        first_error(es.take(k)) is Some,
    ensures
        first_error(es) == first_error(es.take(k)),
    decreases es.len() - k,
{
    if k < es.len() {
        assert(es.drop_last().take(k) =~= es.take(k));
        lemma_first_error_prefix(es.drop_last(), k);
    } else {
        assert(es.take(k) =~= es);
    }
}

/// The bindings a keybind file holds: those of its top-level table, or the
/// built-in ones when the text is not valid TOML.
pub fn keybinds_from_text(contents: &str) -> (r: KeybindConfig)
    ensures
        r.bindings@ == match toml_document(contents@) {
            Some(v) => match toml_string_entries(v) {
                Some(es) => bindings_of(es),
                None => Seq::empty(),
            },
            None => default_bindings(),
        },
{
    match parse_toml(contents) {
        Ok(value) => from_toml_value(&value),
        Err(_) => KeybindConfig::default(),
    }
}


/// The one-character key names in the order of their virtual key codes:
/// the key at position `c` has code `c`. The rows of the keyboard run
/// through it (`a s d f h g z x c v`, then `b q w e r y t`, the digits,
/// ...); `_` marks a code that no one-character name stands for.
pub open spec fn keys_by_code() -> Seq<char> {
    seq!['a', 's', 'd', 'f', 'h', 'g', 'z', 'x', 'c', 'v', '_', 'b', 'q', 'w', 'e', 'r', 'y', 't', '1', '2', '3', '4', '6', '5', '_', '9', '7', '8', '_', '0', '_', 'o', 'u', '_', 'i', 'p', '_', 'l', 'j', '_', 'k', '_', '_', ',', '/', 'n', 'm', '.']
}

/// The named keys and their virtual key codes.
pub open spec fn named_keys() -> Seq<(Seq<char>, u16)> {
    seq![
        ("left"@, 0x7Bu16),
        ("right"@, 0x7Cu16),
        ("down"@, 0x7Du16),
        ("up"@, 0x7Eu16),
        ("space"@, 0x31u16),
        ("tab"@, 0x30u16),
        ("escape"@, 0x35u16),
        ("return"@, 0x24u16),
        ("delete"@, 0x33u16),
        ("home"@, 0x73u16),
        ("end"@, 0x77u16),
        ("pageup"@, 0x74u16),
        ("pagedown"@, 0x79u16),
    ]
}

/// The key name made of the single character `ch`.
pub open spec fn one_char(ch: char) -> Seq<char> {
    seq![ch]
}

proof fn lemma_codes_of_listed_keys()
    ensures
        keycode_spec(one_char('a')) == Some(0x00u16),
        keycode_spec(one_char('s')) == Some(0x01u16),
        keycode_spec(one_char('d')) == Some(0x02u16),
        keycode_spec(one_char('f')) == Some(0x03u16),
        keycode_spec(one_char('h')) == Some(0x04u16),
        keycode_spec(one_char('g')) == Some(0x05u16),
        keycode_spec(one_char('z')) == Some(0x06u16),
        keycode_spec(one_char('x')) == Some(0x07u16),
        keycode_spec(one_char('c')) == Some(0x08u16),
        keycode_spec(one_char('v')) == Some(0x09u16),
        keycode_spec(one_char('b')) == Some(0x0Bu16),
        keycode_spec(one_char('q')) == Some(0x0Cu16),
        keycode_spec(one_char('w')) == Some(0x0Du16),
        keycode_spec(one_char('e')) == Some(0x0Eu16),
        keycode_spec(one_char('r')) == Some(0x0Fu16),
        keycode_spec(one_char('y')) == Some(0x10u16),
        keycode_spec(one_char('t')) == Some(0x11u16),
        keycode_spec(one_char('1')) == Some(0x12u16),
        keycode_spec(one_char('2')) == Some(0x13u16),
        keycode_spec(one_char('3')) == Some(0x14u16),
        keycode_spec(one_char('4')) == Some(0x15u16),
        keycode_spec(one_char('6')) == Some(0x16u16),
        keycode_spec(one_char('5')) == Some(0x17u16),
        keycode_spec(one_char('9')) == Some(0x19u16),
        keycode_spec(one_char('7')) == Some(0x1Au16),
        keycode_spec(one_char('8')) == Some(0x1Bu16),
        keycode_spec(one_char('0')) == Some(0x1Du16),
        keycode_spec(one_char('o')) == Some(0x1Fu16),
        keycode_spec(one_char('u')) == Some(0x20u16),
        keycode_spec(one_char('i')) == Some(0x22u16),
        keycode_spec(one_char('p')) == Some(0x23u16),
        keycode_spec(one_char('l')) == Some(0x25u16),
        keycode_spec(one_char('j')) == Some(0x26u16),
        keycode_spec(one_char('k')) == Some(0x28u16),
        keycode_spec(one_char(',')) == Some(0x2Bu16),
        keycode_spec(one_char('/')) == Some(0x2Cu16),
        keycode_spec(one_char('n')) == Some(0x2Du16),
        keycode_spec(one_char('m')) == Some(0x2Eu16),
        keycode_spec(one_char('.')) == Some(0x2Fu16),
        keycode_spec("left"@) == Some(0x7Bu16),
        keycode_spec("right"@) == Some(0x7Cu16),
        keycode_spec("down"@) == Some(0x7Du16),
        keycode_spec("up"@) == Some(0x7Eu16),
        keycode_spec("space"@) == Some(0x31u16),
        keycode_spec("tab"@) == Some(0x30u16),
        keycode_spec("escape"@) == Some(0x35u16),
        keycode_spec("return"@) == Some(0x24u16),
        keycode_spec("delete"@) == Some(0x33u16),
        keycode_spec("home"@) == Some(0x73u16),
        keycode_spec("end"@) == Some(0x77u16),
        keycode_spec("pageup"@) == Some(0x74u16),
        keycode_spec("pagedown"@) == Some(0x79u16),
{
    assert(keycode_spec(one_char('a')) == Some(0x00u16)) by {
        reveal_strlit("a");
        assert(one_char('a') =~= "a"@);
    }
    assert(keycode_spec(one_char('b')) == Some(0x0Bu16)) by {
        reveal_strlit("a");
        reveal_strlit("b");
        assert("a"@[0] == 'a');
        assert(one_char('b') =~= "b"@);
    }
    assert(keycode_spec(one_char('c')) == Some(0x08u16)) by {
        reveal_strlit("a");
        reveal_strlit("b");
        reveal_strlit("c");
        assert("a"@[0] == 'a');
        assert("b"@[0] == 'b');
        assert(one_char('c') =~= "c"@);
    }
    assert(keycode_spec(one_char('d')) == Some(0x02u16)) by {
        reveal_strlit("a");
        reveal_strlit("b");
        reveal_strlit("c");
        reveal_strlit("d");
        assert("a"@[0] == 'a');
        assert("b"@[0] == 'b');
        assert("c"@[0] == 'c');
        assert(one_char('d') =~= "d"@);
    }
    assert(keycode_spec(one_char('e')) == Some(0x0Eu16)) by {
        reveal_strlit("a");
        reveal_strlit("b");
        reveal_strlit("c");
        reveal_strlit("d");
        reveal_strlit("e");
        assert("a"@[0] == 'a');
        assert("b"@[0] == 'b');
        assert("c"@[0] == 'c');
        assert("d"@[0] == 'd');
        assert(one_char('e') =~= "e"@);
    }
    assert(keycode_spec(one_char('f')) == Some(0x03u16)) by {
        reveal_strlit("a");
        reveal_strlit("b");
        reveal_strlit("c");
        reveal_strlit("d");
        reveal_strlit("e");
        reveal_strlit("f");
        assert("a"@[0] == 'a');
        assert("b"@[0] == 'b');
        assert("c"@[0] == 'c');
        assert("d"@[0] == 'd');
        assert("e"@[0] == 'e');
        assert(one_char('f') =~= "f"@);
    }
    assert(keycode_spec(one_char('g')) == Some(0x05u16)) by {
        reveal_strlit("a");
        reveal_strlit("b");
        reveal_strlit("c");
        reveal_strlit("d");
        reveal_strlit("e");
        reveal_strlit("f");
        reveal_strlit("g");
        assert("a"@[0] == 'a');
        assert("b"@[0] == 'b');
        assert("c"@[0] == 'c');
        assert("d"@[0] == 'd');
        assert("e"@[0] == 'e');
        assert("f"@[0] == 'f');
        assert(one_char('g') =~= "g"@);
    }
    assert(keycode_spec(one_char('h')) == Some(0x04u16)) by {
        reveal_strlit("a");
        reveal_strlit("b");
        reveal_strlit("c");
        reveal_strlit("d");
        reveal_strlit("e");
        reveal_strlit("f");
        reveal_strlit("g");
        reveal_strlit("h");
        assert("a"@[0] == 'a');
        assert("b"@[0] == 'b');
        assert("c"@[0] == 'c');
        assert("d"@[0] == 'd');
        assert("e"@[0] == 'e');
        assert("f"@[0] == 'f');
        assert("g"@[0] == 'g');
        assert(one_char('h') =~= "h"@);
    }
    assert(keycode_spec(one_char('i')) == Some(0x22u16)) by {
        reveal_strlit("a");
        reveal_strlit("b");
        reveal_strlit("c");
        reveal_strlit("d");
        reveal_strlit("e");
        reveal_strlit("f");
        reveal_strlit("g");
        reveal_strlit("h");
        reveal_strlit("i");
        assert("a"@[0] == 'a');
        assert("b"@[0] == 'b');
        assert("c"@[0] == 'c');
        assert("d"@[0] == 'd');
        assert("e"@[0] == 'e');
        assert("f"@[0] == 'f');
        assert("g"@[0] == 'g');
        assert("h"@[0] == 'h');
        assert(one_char('i') =~= "i"@);
    }
    assert(keycode_spec(one_char('j')) == Some(0x26u16)) by {
        reveal_strlit("a");
        reveal_strlit("b");
        reveal_strlit("c");
        reveal_strlit("d");
        reveal_strlit("e");
        reveal_strlit("f");
        reveal_strlit("g");
        reveal_strlit("h");
        reveal_strlit("i");
        reveal_strlit("j");
        assert("a"@[0] == 'a');
        assert("b"@[0] == 'b');
        assert("c"@[0] == 'c');
        assert("d"@[0] == 'd');
        assert("e"@[0] == 'e');
        assert("f"@[0] == 'f');
        assert("g"@[0] == 'g');
        assert("h"@[0] == 'h');
        assert("i"@[0] == 'i');
        assert(one_char('j') =~= "j"@);
    }
    assert(keycode_spec(one_char('k')) == Some(0x28u16)) by {
        reveal_strlit("a");
        reveal_strlit("b");
        reveal_strlit("c");
        reveal_strlit("d");
        reveal_strlit("e");
        reveal_strlit("f");
        reveal_strlit("g");
        reveal_strlit("h");
        reveal_strlit("i");
        reveal_strlit("j");
        reveal_strlit("k");
        assert("a"@[0] == 'a');
        assert("b"@[0] == 'b');
        assert("c"@[0] == 'c');
        assert("d"@[0] == 'd');
        assert("e"@[0] == 'e');
        assert("f"@[0] == 'f');
        assert("g"@[0] == 'g');
        assert("h"@[0] == 'h');
        assert("i"@[0] == 'i');
        assert("j"@[0] == 'j');
        assert(one_char('k') =~= "k"@);
    }
    assert(keycode_spec(one_char('l')) == Some(0x25u16)) by {
        reveal_strlit("a");
        reveal_strlit("b");
        reveal_strlit("c");
        reveal_strlit("d");
        reveal_strlit("e");
        reveal_strlit("f");
        reveal_strlit("g");
        reveal_strlit("h");
        reveal_strlit("i");
        reveal_strlit("j");
        reveal_strlit("k");
        reveal_strlit("l");
        assert("a"@[0] == 'a');
        assert("b"@[0] == 'b');
        assert("c"@[0] == 'c');
        assert("d"@[0] == 'd');
        assert("e"@[0] == 'e');
        assert("f"@[0] == 'f');
        assert("g"@[0] == 'g');
        assert("h"@[0] == 'h');
        assert("i"@[0] == 'i');
        assert("j"@[0] == 'j');
        assert("k"@[0] == 'k');
        assert(one_char('l') =~= "l"@);
    }
    assert(keycode_spec(one_char('m')) == Some(0x2Eu16)) by {
        reveal_strlit("a");
        reveal_strlit("b");
        reveal_strlit("c");
        reveal_strlit("d");
        reveal_strlit("e");
        reveal_strlit("f");
        reveal_strlit("g");
        reveal_strlit("h");
        reveal_strlit("i");
        reveal_strlit("j");
        reveal_strlit("k");
        reveal_strlit("l");
        reveal_strlit("m");
        assert("a"@[0] == 'a');
        assert("b"@[0] == 'b');
        assert("c"@[0] == 'c');
        assert("d"@[0] == 'd');
        assert("e"@[0] == 'e');
        assert("f"@[0] == 'f');
        assert("g"@[0] == 'g');
        assert("h"@[0] == 'h');
        assert("i"@[0] == 'i');
        assert("j"@[0] == 'j');
        assert("k"@[0] == 'k');
        assert("l"@[0] == 'l');
        assert(one_char('m') =~= "m"@);
    }
    assert(keycode_spec(one_char('n')) == Some(0x2Du16)) by {
        reveal_strlit("a");
        reveal_strlit("b");
        reveal_strlit("c");
        reveal_strlit("d");
        reveal_strlit("e");
        reveal_strlit("f");
        reveal_strlit("g");
        reveal_strlit("h");
        reveal_strlit("i");
        reveal_strlit("j");
        reveal_strlit("k");
        reveal_strlit("l");
        reveal_strlit("m");
        reveal_strlit("n");
        assert("a"@[0] == 'a');
        assert("b"@[0] == 'b');
        assert("c"@[0] == 'c');
        assert("d"@[0] == 'd');
        assert("e"@[0] == 'e');
        assert("f"@[0] == 'f');
        assert("g"@[0] == 'g');
        assert("h"@[0] == 'h');
        assert("i"@[0] == 'i');
        assert("j"@[0] == 'j');
        assert("k"@[0] == 'k');
        assert("l"@[0] == 'l');
        assert("m"@[0] == 'm');
        assert(one_char('n') =~= "n"@);
    }
    assert(keycode_spec(one_char('o')) == Some(0x1Fu16)) by {
        reveal_strlit("a");
        reveal_strlit("b");
        reveal_strlit("c");
        reveal_strlit("d");
        reveal_strlit("e");
        reveal_strlit("f");
        reveal_strlit("g");
        reveal_strlit("h");
        reveal_strlit("i");
        reveal_strlit("j");
        reveal_strlit("k");
        reveal_strlit("l");
        reveal_strlit("m");
        reveal_strlit("n");
        reveal_strlit("o");
        assert("a"@[0] == 'a');
        assert("b"@[0] == 'b');
        assert("c"@[0] == 'c');
        assert("d"@[0] == 'd');
        assert("e"@[0] == 'e');
        assert("f"@[0] == 'f');
        assert("g"@[0] == 'g');
        assert("h"@[0] == 'h');
        assert("i"@[0] == 'i');
        assert("j"@[0] == 'j');
        assert("k"@[0] == 'k');
        assert("l"@[0] == 'l');
        assert("m"@[0] == 'm');
        assert("n"@[0] == 'n');
        assert(one_char('o') =~= "o"@);
    }
    assert(keycode_spec(one_char('p')) == Some(0x23u16)) by {
        reveal_strlit("a");
        reveal_strlit("b");
        reveal_strlit("c");
        reveal_strlit("d");
        reveal_strlit("e");
        reveal_strlit("f");
        reveal_strlit("g");
        reveal_strlit("h");
        reveal_strlit("i");
        reveal_strlit("j");
        reveal_strlit("k");
        reveal_strlit("l");
        reveal_strlit("m");
        reveal_strlit("n");
        reveal_strlit("o");
        reveal_strlit("p");
        assert("a"@[0] == 'a');
        assert("b"@[0] == 'b');
        assert("c"@[0] == 'c');
        assert("d"@[0] == 'd');
        assert("e"@[0] == 'e');
        assert("f"@[0] == 'f');
        assert("g"@[0] == 'g');
        assert("h"@[0] == 'h');
        assert("i"@[0] == 'i');
        assert("j"@[0] == 'j');
        assert("k"@[0] == 'k');
        assert("l"@[0] == 'l');
        assert("m"@[0] == 'm');
        assert("n"@[0] == 'n');
        assert("o"@[0] == 'o');
        assert(one_char('p') =~= "p"@);
    }
    assert(keycode_spec(one_char('q')) == Some(0x0Cu16)) by {
        reveal_strlit("a");
        reveal_strlit("b");
        reveal_strlit("c");
        reveal_strlit("d");
        reveal_strlit("e");
        reveal_strlit("f");
        reveal_strlit("g");
        reveal_strlit("h");
        reveal_strlit("i");
        reveal_strlit("j");
        reveal_strlit("k");
        reveal_strlit("l");
        reveal_strlit("m");
        reveal_strlit("n");
        reveal_strlit("o");
        reveal_strlit("p");
        reveal_strlit("q");
        assert("a"@[0] == 'a');
        assert("b"@[0] == 'b');
        assert("c"@[0] == 'c');
        assert("d"@[0] == 'd');
        assert("e"@[0] == 'e');
        assert("f"@[0] == 'f');
        assert("g"@[0] == 'g');
        assert("h"@[0] == 'h');
        assert("i"@[0] == 'i');
        assert("j"@[0] == 'j');
        assert("k"@[0] == 'k');
        assert("l"@[0] == 'l');
        assert("m"@[0] == 'm');
        assert("n"@[0] == 'n');
        assert("o"@[0] == 'o');
        assert("p"@[0] == 'p');
        assert(one_char('q') =~= "q"@);
    }
    assert(keycode_spec(one_char('r')) == Some(0x0Fu16)) by {
        reveal_strlit("a");
        reveal_strlit("b");
        reveal_strlit("c");
        reveal_strlit("d");
        reveal_strlit("e");
        reveal_strlit("f");
        reveal_strlit("g");
        reveal_strlit("h");
        reveal_strlit("i");
        reveal_strlit("j");
        reveal_strlit("k");
        reveal_strlit("l");
        reveal_strlit("m");
        reveal_strlit("n");
        reveal_strlit("o");
        reveal_strlit("p");
        reveal_strlit("q");
        reveal_strlit("r");
        assert("a"@[0] == 'a');
        assert("b"@[0] == 'b');
        assert("c"@[0] == 'c');
        assert("d"@[0] == 'd');
        assert("e"@[0] == 'e');
        assert("f"@[0] == 'f');
        assert("g"@[0] == 'g');
        assert("h"@[0] == 'h');
        assert("i"@[0] == 'i');
        assert("j"@[0] == 'j');
        assert("k"@[0] == 'k');
        assert("l"@[0] == 'l');
        assert("m"@[0] == 'm');
        assert("n"@[0] == 'n');
        assert("o"@[0] == 'o');
        assert("p"@[0] == 'p');
        assert("q"@[0] == 'q');
        assert(one_char('r') =~= "r"@);
    }
    assert(keycode_spec(one_char('s')) == Some(0x01u16)) by {
        reveal_strlit("a");
        reveal_strlit("b");
        reveal_strlit("c");
        reveal_strlit("d");
        reveal_strlit("e");
        reveal_strlit("f");
        reveal_strlit("g");
        reveal_strlit("h");
        reveal_strlit("i");
        reveal_strlit("j");
        reveal_strlit("k");
        reveal_strlit("l");
        reveal_strlit("m");
        reveal_strlit("n");
        reveal_strlit("o");
        reveal_strlit("p");
        reveal_strlit("q");
        reveal_strlit("r");
        reveal_strlit("s");
        assert("a"@[0] == 'a');
        assert("b"@[0] == 'b');
        assert("c"@[0] == 'c');
        assert("d"@[0] == 'd');
        assert("e"@[0] == 'e');
        assert("f"@[0] == 'f');
        assert("g"@[0] == 'g');
        assert("h"@[0] == 'h');
        assert("i"@[0] == 'i');
        assert("j"@[0] == 'j');
        assert("k"@[0] == 'k');
        assert("l"@[0] == 'l');
        assert("m"@[0] == 'm');
        assert("n"@[0] == 'n');
        assert("o"@[0] == 'o');
        assert("p"@[0] == 'p');
        assert("q"@[0] == 'q');
        assert("r"@[0] == 'r');
        assert(one_char('s') =~= "s"@);
    }
    assert(keycode_spec(one_char('t')) == Some(0x11u16)) by {
        reveal_strlit("a");
        reveal_strlit("b");
        reveal_strlit("c");
        reveal_strlit("d");
        reveal_strlit("e");
        reveal_strlit("f");
        reveal_strlit("g");
        reveal_strlit("h");
        reveal_strlit("i");
        reveal_strlit("j");
        reveal_strlit("k");
        reveal_strlit("l");
        reveal_strlit("m");
        reveal_strlit("n");
        reveal_strlit("o");
        reveal_strlit("p");
        reveal_strlit("q");
        reveal_strlit("r");
        reveal_strlit("s");
        reveal_strlit("t");
        assert("a"@[0] == 'a');
        assert("b"@[0] == 'b');
        assert("c"@[0] == 'c');
        assert("d"@[0] == 'd');
        assert("e"@[0] == 'e');
        assert("f"@[0] == 'f');
        assert("g"@[0] == 'g');
        assert("h"@[0] == 'h');
        assert("i"@[0] == 'i');
        assert("j"@[0] == 'j');
        assert("k"@[0] == 'k');
        assert("l"@[0] == 'l');
        assert("m"@[0] == 'm');
        assert("n"@[0] == 'n');
        assert("o"@[0] == 'o');
        assert("p"@[0] == 'p');
        assert("q"@[0] == 'q');
        assert("r"@[0] == 'r');
        assert("s"@[0] == 's');
        assert(one_char('t') =~= "t"@);
    }
    assert(keycode_spec(one_char('u')) == Some(0x20u16)) by {
        reveal_strlit("a");
        reveal_strlit("b");
        reveal_strlit("c");
        reveal_strlit("d");
        reveal_strlit("e");
        reveal_strlit("f");
        reveal_strlit("g");
        reveal_strlit("h");
        reveal_strlit("i");
        reveal_strlit("j");
        reveal_strlit("k");
        reveal_strlit("l");
        reveal_strlit("m");
        reveal_strlit("n");
        reveal_strlit("o");
        reveal_strlit("p");
        reveal_strlit("q");
        reveal_strlit("r");
        reveal_strlit("s");
        reveal_strlit("t");
        reveal_strlit("u");
        assert("a"@[0] == 'a');
        assert("b"@[0] == 'b');
        assert("c"@[0] == 'c');
        assert("d"@[0] == 'd');
        assert("e"@[0] == 'e');
        assert("f"@[0] == 'f');
        assert("g"@[0] == 'g');
        assert("h"@[0] == 'h');
        assert("i"@[0] == 'i');
        assert("j"@[0] == 'j');
        assert("k"@[0] == 'k');
        assert("l"@[0] == 'l');
        assert("m"@[0] == 'm');
        assert("n"@[0] == 'n');
        assert("o"@[0] == 'o');
        assert("p"@[0] == 'p');
        assert("q"@[0] == 'q');
        assert("r"@[0] == 'r');
        assert("s"@[0] == 's');
        assert("t"@[0] == 't');
        assert(one_char('u') =~= "u"@);
    }
    assert(keycode_spec(one_char('v')) == Some(0x09u16)) by {
        reveal_strlit("a");
        reveal_strlit("b");
        reveal_strlit("c");
        reveal_strlit("d");
        reveal_strlit("e");
        reveal_strlit("f");
        reveal_strlit("g");
        reveal_strlit("h");
        reveal_strlit("i");
        reveal_strlit("j");
        reveal_strlit("k");
        reveal_strlit("l");
        reveal_strlit("m");
        reveal_strlit("n");
        reveal_strlit("o");
        reveal_strlit("p");
        reveal_strlit("q");
        reveal_strlit("r");
        reveal_strlit("s");
        reveal_strlit("t");
        reveal_strlit("u");
        reveal_strlit("v");
        assert("a"@[0] == 'a');
        assert("b"@[0] == 'b');
        assert("c"@[0] == 'c');
        assert("d"@[0] == 'd');
        assert("e"@[0] == 'e');
        assert("f"@[0] == 'f');
        assert("g"@[0] == 'g');
        assert("h"@[0] == 'h');
        assert("i"@[0] == 'i');
        assert("j"@[0] == 'j');
        assert("k"@[0] == 'k');
        assert("l"@[0] == 'l');
        assert("m"@[0] == 'm');
        assert("n"@[0] == 'n');
        assert("o"@[0] == 'o');
        assert("p"@[0] == 'p');
        assert("q"@[0] == 'q');
        assert("r"@[0] == 'r');
        assert("s"@[0] == 's');
        assert("t"@[0] == 't');
        assert("u"@[0] == 'u');
        assert(one_char('v') =~= "v"@);
    }
    assert(keycode_spec(one_char('w')) == Some(0x0Du16)) by {
        reveal_strlit("a");
        reveal_strlit("b");
        reveal_strlit("c");
        reveal_strlit("d");
        reveal_strlit("e");
        reveal_strlit("f");
        reveal_strlit("g");
        reveal_strlit("h");
        reveal_strlit("i");
        reveal_strlit("j");
        reveal_strlit("k");
        reveal_strlit("l");
        reveal_strlit("m");
        reveal_strlit("n");
        reveal_strlit("o");
        reveal_strlit("p");
        reveal_strlit("q");
        reveal_strlit("r");
        reveal_strlit("s");
        reveal_strlit("t");
        reveal_strlit("u");
        reveal_strlit("v");
        reveal_strlit("w");
        assert("a"@[0] == 'a');
        assert("b"@[0] == 'b');
        assert("c"@[0] == 'c');
        assert("d"@[0] == 'd');
        assert("e"@[0] == 'e');
        assert("f"@[0] == 'f');
        assert("g"@[0] == 'g');
        assert("h"@[0] == 'h');
        assert("i"@[0] == 'i');
        assert("j"@[0] == 'j');
        assert("k"@[0] == 'k');
        assert("l"@[0] == 'l');
        assert("m"@[0] == 'm');
        assert("n"@[0] == 'n');
        assert("o"@[0] == 'o');
        assert("p"@[0] == 'p');
        assert("q"@[0] == 'q');
        assert("r"@[0] == 'r');
        assert("s"@[0] == 's');
        assert("t"@[0] == 't');
        assert("u"@[0] == 'u');
        assert("v"@[0] == 'v');
        assert(one_char('w') =~= "w"@);
    }
    assert(keycode_spec(one_char('x')) == Some(0x07u16)) by {
        reveal_strlit("a");
        reveal_strlit("b");
        reveal_strlit("c");
        reveal_strlit("d");
        reveal_strlit("e");
        reveal_strlit("f");
        reveal_strlit("g");
        reveal_strlit("h");
        reveal_strlit("i");
        reveal_strlit("j");
        reveal_strlit("k");
        reveal_strlit("l");
        reveal_strlit("m");
        reveal_strlit("n");
        reveal_strlit("o");
        reveal_strlit("p");
        reveal_strlit("q");
        reveal_strlit("r");
        reveal_strlit("s");
        reveal_strlit("t");
        reveal_strlit("u");
        reveal_strlit("v");
        reveal_strlit("w");
        reveal_strlit("x");
        assert("a"@[0] == 'a');
        assert("b"@[0] == 'b');
        assert("c"@[0] == 'c');
        assert("d"@[0] == 'd');
        assert("e"@[0] == 'e');
        assert("f"@[0] == 'f');
        assert("g"@[0] == 'g');
        assert("h"@[0] == 'h');
        assert("i"@[0] == 'i');
        assert("j"@[0] == 'j');
        assert("k"@[0] == 'k');
        assert("l"@[0] == 'l');
        assert("m"@[0] == 'm');
        assert("n"@[0] == 'n');
        assert("o"@[0] == 'o');
        assert("p"@[0] == 'p');
        assert("q"@[0] == 'q');
        assert("r"@[0] == 'r');
        assert("s"@[0] == 's');
        assert("t"@[0] == 't');
        assert("u"@[0] == 'u');
        assert("v"@[0] == 'v');
        assert("w"@[0] == 'w');
        assert(one_char('x') =~= "x"@);
    }
    assert(keycode_spec(one_char('y')) == Some(0x10u16)) by {
        reveal_strlit("a");
        reveal_strlit("b");
        reveal_strlit("c");
        reveal_strlit("d");
        reveal_strlit("e");
        reveal_strlit("f");
        reveal_strlit("g");
        reveal_strlit("h");
        reveal_strlit("i");
        reveal_strlit("j");
        reveal_strlit("k");
        reveal_strlit("l");
        reveal_strlit("m");
        reveal_strlit("n");
        reveal_strlit("o");
        reveal_strlit("p");
        reveal_strlit("q");
        reveal_strlit("r");
        reveal_strlit("s");
        reveal_strlit("t");
        reveal_strlit("u");
        reveal_strlit("v");
        reveal_strlit("w");
        reveal_strlit("x");
        reveal_strlit("y");
        assert("a"@[0] == 'a');
        assert("b"@[0] == 'b');
        assert("c"@[0] == 'c');
        assert("d"@[0] == 'd');
        assert("e"@[0] == 'e');
        assert("f"@[0] == 'f');
        assert("g"@[0] == 'g');
        assert("h"@[0] == 'h');
        assert("i"@[0] == 'i');
        assert("j"@[0] == 'j');
        assert("k"@[0] == 'k');
        assert("l"@[0] == 'l');
        assert("m"@[0] == 'm');
        assert("n"@[0] == 'n');
        assert("o"@[0] == 'o');
        assert("p"@[0] == 'p');
        assert("q"@[0] == 'q');
        assert("r"@[0] == 'r');
        assert("s"@[0] == 's');
        assert("t"@[0] == 't');
        assert("u"@[0] == 'u');
        assert("v"@[0] == 'v');
        assert("w"@[0] == 'w');
        assert("x"@[0] == 'x');
        assert(one_char('y') =~= "y"@);
    }
    assert(keycode_spec(one_char('z')) == Some(0x06u16)) by {
        reveal_strlit("a");
        reveal_strlit("b");
        reveal_strlit("c");
        reveal_strlit("d");
        reveal_strlit("e");
        reveal_strlit("f");
        reveal_strlit("g");
        reveal_strlit("h");
        reveal_strlit("i");
        reveal_strlit("j");
        reveal_strlit("k");
        reveal_strlit("l");
        reveal_strlit("m");
        reveal_strlit("n");
        reveal_strlit("o");
        reveal_strlit("p");
        reveal_strlit("q");
        reveal_strlit("r");
        reveal_strlit("s");
        reveal_strlit("t");
        reveal_strlit("u");
        reveal_strlit("v");
        reveal_strlit("w");
        reveal_strlit("x");
        reveal_strlit("y");
        reveal_strlit("z");
        assert("a"@[0] == 'a');
        assert("b"@[0] == 'b');
        assert("c"@[0] == 'c');
        assert("d"@[0] == 'd');
        assert("e"@[0] == 'e');
        assert("f"@[0] == 'f');
        assert("g"@[0] == 'g');
        assert("h"@[0] == 'h');
        assert("i"@[0] == 'i');
        assert("j"@[0] == 'j');
        assert("k"@[0] == 'k');
        assert("l"@[0] == 'l');
        assert("m"@[0] == 'm');
        assert("n"@[0] == 'n');
        assert("o"@[0] == 'o');
        assert("p"@[0] == 'p');
        assert("q"@[0] == 'q');
        assert("r"@[0] == 'r');
        assert("s"@[0] == 's');
        assert("t"@[0] == 't');
        assert("u"@[0] == 'u');
        assert("v"@[0] == 'v');
        assert("w"@[0] == 'w');
        assert("x"@[0] == 'x');
        assert("y"@[0] == 'y');
        assert(one_char('z') =~= "z"@);
    }
    assert(keycode_spec(one_char('0')) == Some(0x1Du16)) by {
        reveal_strlit("a");
        reveal_strlit("b");
        reveal_strlit("c");
        reveal_strlit("d");
        reveal_strlit("e");
        reveal_strlit("f");
        reveal_strlit("g");
        reveal_strlit("h");
        reveal_strlit("i");
        reveal_strlit("j");
        reveal_strlit("k");
        reveal_strlit("l");
        reveal_strlit("m");
        reveal_strlit("n");
        reveal_strlit("o");
        reveal_strlit("p");
        reveal_strlit("q");
        reveal_strlit("r");
        reveal_strlit("s");
        reveal_strlit("t");
        reveal_strlit("u");
        reveal_strlit("v");
        reveal_strlit("w");
        reveal_strlit("x");
        reveal_strlit("y");
        reveal_strlit("z");
        reveal_strlit("0");
        assert("a"@[0] == 'a');
        assert("b"@[0] == 'b');
        assert("c"@[0] == 'c');
        assert("d"@[0] == 'd');
        assert("e"@[0] == 'e');
        assert("f"@[0] == 'f');
        assert("g"@[0] == 'g');
        assert("h"@[0] == 'h');
        assert("i"@[0] == 'i');
        assert("j"@[0] == 'j');
        assert("k"@[0] == 'k');
        assert("l"@[0] == 'l');
        assert("m"@[0] == 'm');
        assert("n"@[0] == 'n');
        assert("o"@[0] == 'o');
        assert("p"@[0] == 'p');
        assert("q"@[0] == 'q');
        assert("r"@[0] == 'r');
        assert("s"@[0] == 's');
        assert("t"@[0] == 't');
        assert("u"@[0] == 'u');
        assert("v"@[0] == 'v');
        assert("w"@[0] == 'w');
        assert("x"@[0] == 'x');
        assert("y"@[0] == 'y');
        assert("z"@[0] == 'z');
        assert(one_char('0') =~= "0"@);
    }
    assert(keycode_spec(one_char('1')) == Some(0x12u16)) by {
        reveal_strlit("a");
        reveal_strlit("b");
        reveal_strlit("c");
        reveal_strlit("d");
        reveal_strlit("e");
        reveal_strlit("f");
        reveal_strlit("g");
        reveal_strlit("h");
        reveal_strlit("i");
        reveal_strlit("j");
        reveal_strlit("k");
        reveal_strlit("l");
        reveal_strlit("m");
        reveal_strlit("n");
        reveal_strlit("o");
        reveal_strlit("p");
        reveal_strlit("q");
        reveal_strlit("r");
        reveal_strlit("s");
        reveal_strlit("t");
        reveal_strlit("u");
        reveal_strlit("v");
        reveal_strlit("w");
        reveal_strlit("x");
        reveal_strlit("y");
        reveal_strlit("z");
        reveal_strlit("0");
        reveal_strlit("1");
        assert("a"@[0] == 'a');
        assert("b"@[0] == 'b');
        assert("c"@[0] == 'c');
        assert("d"@[0] == 'd');
        assert("e"@[0] == 'e');
        assert("f"@[0] == 'f');
        assert("g"@[0] == 'g');
        assert("h"@[0] == 'h');
        assert("i"@[0] == 'i');
        assert("j"@[0] == 'j');
        assert("k"@[0] == 'k');
        assert("l"@[0] == 'l');
        assert("m"@[0] == 'm');
        assert("n"@[0] == 'n');
        assert("o"@[0] == 'o');
        assert("p"@[0] == 'p');
        assert("q"@[0] == 'q');
        assert("r"@[0] == 'r');
        assert("s"@[0] == 's');
        assert("t"@[0] == 't');
        assert("u"@[0] == 'u');
        assert("v"@[0] == 'v');
        assert("w"@[0] == 'w');
        assert("x"@[0] == 'x');
        assert("y"@[0] == 'y');
        assert("z"@[0] == 'z');
        assert("0"@[0] == '0');
        assert(one_char('1') =~= "1"@);
    }
    assert(keycode_spec(one_char('2')) == Some(0x13u16)) by {
        reveal_strlit("a");
        reveal_strlit("b");
        reveal_strlit("c");
        reveal_strlit("d");
        reveal_strlit("e");
        reveal_strlit("f");
        reveal_strlit("g");
        reveal_strlit("h");
        reveal_strlit("i");
        reveal_strlit("j");
        reveal_strlit("k");
        reveal_strlit("l");
        reveal_strlit("m");
        reveal_strlit("n");
        reveal_strlit("o");
        reveal_strlit("p");
        reveal_strlit("q");
        reveal_strlit("r");
        reveal_strlit("s");
        reveal_strlit("t");
        reveal_strlit("u");
        reveal_strlit("v");
        reveal_strlit("w");
        reveal_strlit("x");
        reveal_strlit("y");
        reveal_strlit("z");
        reveal_strlit("0");
        reveal_strlit("1");
        reveal_strlit("2");
        assert("a"@[0] == 'a');
        assert("b"@[0] == 'b');
        assert("c"@[0] == 'c');
        assert("d"@[0] == 'd');
        assert("e"@[0] == 'e');
        assert("f"@[0] == 'f');
        assert("g"@[0] == 'g');
        assert("h"@[0] == 'h');
        assert("i"@[0] == 'i');
        assert("j"@[0] == 'j');
        assert("k"@[0] == 'k');
        assert("l"@[0] == 'l');
        assert("m"@[0] == 'm');
        assert("n"@[0] == 'n');
        assert("o"@[0] == 'o');
        assert("p"@[0] == 'p');
        assert("q"@[0] == 'q');
        assert("r"@[0] == 'r');
        assert("s"@[0] == 's');
        assert("t"@[0] == 't');
        assert("u"@[0] == 'u');
        assert("v"@[0] == 'v');
        assert("w"@[0] == 'w');
        assert("x"@[0] == 'x');
        assert("y"@[0] == 'y');
        assert("z"@[0] == 'z');
        assert("0"@[0] == '0');
        assert("1"@[0] == '1');
        assert(one_char('2') =~= "2"@);
    }
    assert(keycode_spec(one_char('3')) == Some(0x14u16)) by {
        reveal_strlit("a");
        reveal_strlit("b");
        reveal_strlit("c");
        reveal_strlit("d");
        reveal_strlit("e");
        reveal_strlit("f");
        reveal_strlit("g");
        reveal_strlit("h");
        reveal_strlit("i");
        reveal_strlit("j");
        reveal_strlit("k");
        reveal_strlit("l");
        reveal_strlit("m");
        reveal_strlit("n");
        reveal_strlit("o");
        reveal_strlit("p");
        reveal_strlit("q");
        reveal_strlit("r");
        reveal_strlit("s");
        reveal_strlit("t");
        reveal_strlit("u");
        reveal_strlit("v");
        reveal_strlit("w");
        reveal_strlit("x");
        reveal_strlit("y");
        reveal_strlit("z");
        reveal_strlit("0");
        reveal_strlit("1");
        reveal_strlit("2");
        reveal_strlit("3");
        assert("a"@[0] == 'a');
        assert("b"@[0] == 'b');
        assert("c"@[0] == 'c');
        assert("d"@[0] == 'd');
        assert("e"@[0] == 'e');
        assert("f"@[0] == 'f');
        assert("g"@[0] == 'g');
        assert("h"@[0] == 'h');
        assert("i"@[0] == 'i');
        assert("j"@[0] == 'j');
        assert("k"@[0] == 'k');
        assert("l"@[0] == 'l');
        assert("m"@[0] == 'm');
        assert("n"@[0] == 'n');
        assert("o"@[0] == 'o');
        assert("p"@[0] == 'p');
        assert("q"@[0] == 'q');
        assert("r"@[0] == 'r');
        assert("s"@[0] == 's');
        assert("t"@[0] == 't');
        assert("u"@[0] == 'u');
        assert("v"@[0] == 'v');
        assert("w"@[0] == 'w');
        assert("x"@[0] == 'x');
        assert("y"@[0] == 'y');
        assert("z"@[0] == 'z');
        assert("0"@[0] == '0');
        assert("1"@[0] == '1');
        assert("2"@[0] == '2');
        assert(one_char('3') =~= "3"@);
    }
    assert(keycode_spec(one_char('4')) == Some(0x15u16)) by {
        reveal_strlit("a");
        reveal_strlit("b");
        reveal_strlit("c");
        reveal_strlit("d");
        reveal_strlit("e");
        reveal_strlit("f");
        reveal_strlit("g");
        reveal_strlit("h");
        reveal_strlit("i");
        reveal_strlit("j");
        reveal_strlit("k");
        reveal_strlit("l");
        reveal_strlit("m");
        reveal_strlit("n");
        reveal_strlit("o");
        reveal_strlit("p");
        reveal_strlit("q");
        reveal_strlit("r");
        reveal_strlit("s");
        reveal_strlit("t");
        reveal_strlit("u");
        reveal_strlit("v");
        reveal_strlit("w");
        reveal_strlit("x");
        reveal_strlit("y");
        reveal_strlit("z");
        reveal_strlit("0");
        reveal_strlit("1");
        reveal_strlit("2");
        reveal_strlit("3");
        reveal_strlit("4");
        assert("a"@[0] == 'a');
        assert("b"@[0] == 'b');
        assert("c"@[0] == 'c');
        assert("d"@[0] == 'd');
        assert("e"@[0] == 'e');
        assert("f"@[0] == 'f');
        assert("g"@[0] == 'g');
        assert("h"@[0] == 'h');
        assert("i"@[0] == 'i');
        assert("j"@[0] == 'j');
        assert("k"@[0] == 'k');
        assert("l"@[0] == 'l');
        assert("m"@[0] == 'm');
        assert("n"@[0] == 'n');
        assert("o"@[0] == 'o');
        assert("p"@[0] == 'p');
        assert("q"@[0] == 'q');
        assert("r"@[0] == 'r');
        assert("s"@[0] == 's');
        assert("t"@[0] == 't');
        assert("u"@[0] == 'u');
        assert("v"@[0] == 'v');
        assert("w"@[0] == 'w');
        assert("x"@[0] == 'x');
        assert("y"@[0] == 'y');
        assert("z"@[0] == 'z');
        assert("0"@[0] == '0');
        assert("1"@[0] == '1');
        assert("2"@[0] == '2');
        assert("3"@[0] == '3');
        assert(one_char('4') =~= "4"@);
    }
    assert(keycode_spec(one_char('5')) == Some(0x17u16)) by {
        reveal_strlit("a");
        reveal_strlit("b");
        reveal_strlit("c");
        reveal_strlit("d");
        reveal_strlit("e");
        reveal_strlit("f");
        reveal_strlit("g");
        reveal_strlit("h");
        reveal_strlit("i");
        reveal_strlit("j");
        reveal_strlit("k");
        reveal_strlit("l");
        reveal_strlit("m");
        reveal_strlit("n");
        reveal_strlit("o");
        reveal_strlit("p");
        reveal_strlit("q");
        reveal_strlit("r");
        reveal_strlit("s");
        reveal_strlit("t");
        reveal_strlit("u");
        reveal_strlit("v");
        reveal_strlit("w");
        reveal_strlit("x");
        reveal_strlit("y");
        reveal_strlit("z");
        reveal_strlit("0");
        reveal_strlit("1");
        reveal_strlit("2");
        reveal_strlit("3");
        reveal_strlit("4");
        reveal_strlit("5");
        assert("a"@[0] == 'a');
        assert("b"@[0] == 'b');
        assert("c"@[0] == 'c');
        assert("d"@[0] == 'd');
        assert("e"@[0] == 'e');
        assert("f"@[0] == 'f');
        assert("g"@[0] == 'g');
        assert("h"@[0] == 'h');
        assert("i"@[0] == 'i');
        assert("j"@[0] == 'j');
        assert("k"@[0] == 'k');
        assert("l"@[0] == 'l');
        assert("m"@[0] == 'm');
        assert("n"@[0] == 'n');
        assert("o"@[0] == 'o');
        assert("p"@[0] == 'p');
        assert("q"@[0] == 'q');
        assert("r"@[0] == 'r');
        assert("s"@[0] == 's');
        assert("t"@[0] == 't');
        assert("u"@[0] == 'u');
        assert("v"@[0] == 'v');
        assert("w"@[0] == 'w');
        assert("x"@[0] == 'x');
        assert("y"@[0] == 'y');
        assert("z"@[0] == 'z');
        assert("0"@[0] == '0');
        assert("1"@[0] == '1');
        assert("2"@[0] == '2');
        assert("3"@[0] == '3');
        assert("4"@[0] == '4');
        assert(one_char('5') =~= "5"@);
    }
    assert(keycode_spec(one_char('6')) == Some(0x16u16)) by {
        reveal_strlit("a");
        reveal_strlit("b");
        reveal_strlit("c");
        reveal_strlit("d");
        reveal_strlit("e");
        reveal_strlit("f");
        reveal_strlit("g");
        reveal_strlit("h");
        reveal_strlit("i");
        reveal_strlit("j");
        reveal_strlit("k");
        reveal_strlit("l");
        reveal_strlit("m");
        reveal_strlit("n");
        reveal_strlit("o");
        reveal_strlit("p");
        reveal_strlit("q");
        reveal_strlit("r");
        reveal_strlit("s");
        reveal_strlit("t");
        reveal_strlit("u");
        reveal_strlit("v");
        reveal_strlit("w");
        reveal_strlit("x");
        reveal_strlit("y");
        reveal_strlit("z");
        reveal_strlit("0");
        reveal_strlit("1");
        reveal_strlit("2");
        reveal_strlit("3");
        reveal_strlit("4");
        reveal_strlit("5");
        reveal_strlit("6");
        assert("a"@[0] == 'a');
        assert("b"@[0] == 'b');
        assert("c"@[0] == 'c');
        assert("d"@[0] == 'd');
        assert("e"@[0] == 'e');
        assert("f"@[0] == 'f');
        assert("g"@[0] == 'g');
        assert("h"@[0] == 'h');
        assert("i"@[0] == 'i');
        assert("j"@[0] == 'j');
        assert("k"@[0] == 'k');
        assert("l"@[0] == 'l');
        assert("m"@[0] == 'm');
        assert("n"@[0] == 'n');
        assert("o"@[0] == 'o');
        assert("p"@[0] == 'p');
        assert("q"@[0] == 'q');
        assert("r"@[0] == 'r');
        assert("s"@[0] == 's');
        assert("t"@[0] == 't');
        assert("u"@[0] == 'u');
        assert("v"@[0] == 'v');
        assert("w"@[0] == 'w');
        assert("x"@[0] == 'x');
        assert("y"@[0] == 'y');
        assert("z"@[0] == 'z');
        assert("0"@[0] == '0');
        assert("1"@[0] == '1');
        assert("2"@[0] == '2');
        assert("3"@[0] == '3');
        assert("4"@[0] == '4');
        assert("5"@[0] == '5');
        assert(one_char('6') =~= "6"@);
    }
    assert(keycode_spec(one_char('7')) == Some(0x1Au16)) by {
        reveal_strlit("a");
        reveal_strlit("b");
        reveal_strlit("c");
        reveal_strlit("d");
        reveal_strlit("e");
        reveal_strlit("f");
        reveal_strlit("g");
        reveal_strlit("h");
        reveal_strlit("i");
        reveal_strlit("j");
        reveal_strlit("k");
        reveal_strlit("l");
        reveal_strlit("m");
        reveal_strlit("n");
        reveal_strlit("o");
        reveal_strlit("p");
        reveal_strlit("q");
        reveal_strlit("r");
        reveal_strlit("s");
        reveal_strlit("t");
        reveal_strlit("u");
        reveal_strlit("v");
        reveal_strlit("w");
        reveal_strlit("x");
        reveal_strlit("y");
        reveal_strlit("z");
        reveal_strlit("0");
        reveal_strlit("1");
        reveal_strlit("2");
        reveal_strlit("3");
        reveal_strlit("4");
        reveal_strlit("5");
        reveal_strlit("6");
        reveal_strlit("7");
        assert("a"@[0] == 'a');
        assert("b"@[0] == 'b');
        assert("c"@[0] == 'c');
        assert("d"@[0] == 'd');
        assert("e"@[0] == 'e');
        assert("f"@[0] == 'f');
        assert("g"@[0] == 'g');
        assert("h"@[0] == 'h');
        assert("i"@[0] == 'i');
        assert("j"@[0] == 'j');
        assert("k"@[0] == 'k');
        assert("l"@[0] == 'l');
        assert("m"@[0] == 'm');
        assert("n"@[0] == 'n');
        assert("o"@[0] == 'o');
        assert("p"@[0] == 'p');
        assert("q"@[0] == 'q');
        assert("r"@[0] == 'r');
        assert("s"@[0] == 's');
        assert("t"@[0] == 't');
        assert("u"@[0] == 'u');
        assert("v"@[0] == 'v');
        assert("w"@[0] == 'w');
        assert("x"@[0] == 'x');
        assert("y"@[0] == 'y');
        assert("z"@[0] == 'z');
        assert("0"@[0] == '0');
        assert("1"@[0] == '1');
        assert("2"@[0] == '2');
        assert("3"@[0] == '3');
        assert("4"@[0] == '4');
        assert("5"@[0] == '5');
        assert("6"@[0] == '6');
        assert(one_char('7') =~= "7"@);
    }
    assert(keycode_spec(one_char('8')) == Some(0x1Bu16)) by {
        reveal_strlit("a");
        reveal_strlit("b");
        reveal_strlit("c");
        reveal_strlit("d");
        reveal_strlit("e");
        reveal_strlit("f");
        reveal_strlit("g");
        reveal_strlit("h");
        reveal_strlit("i");
        reveal_strlit("j");
        reveal_strlit("k");
        reveal_strlit("l");
        reveal_strlit("m");
        reveal_strlit("n");
        reveal_strlit("o");
        reveal_strlit("p");
        reveal_strlit("q");
        reveal_strlit("r");
        reveal_strlit("s");
        reveal_strlit("t");
        reveal_strlit("u");
        reveal_strlit("v");
        reveal_strlit("w");
        reveal_strlit("x");
        reveal_strlit("y");
        reveal_strlit("z");
        reveal_strlit("0");
        reveal_strlit("1");
        reveal_strlit("2");
        reveal_strlit("3");
        reveal_strlit("4");
        reveal_strlit("5");
        reveal_strlit("6");
        reveal_strlit("7");
        reveal_strlit("8");
        assert("a"@[0] == 'a');
        assert("b"@[0] == 'b');
        assert("c"@[0] == 'c');
        assert("d"@[0] == 'd');
        assert("e"@[0] == 'e');
        assert("f"@[0] == 'f');
        assert("g"@[0] == 'g');
        assert("h"@[0] == 'h');
        assert("i"@[0] == 'i');
        assert("j"@[0] == 'j');
        assert("k"@[0] == 'k');
        assert("l"@[0] == 'l');
        assert("m"@[0] == 'm');
        assert("n"@[0] == 'n');
        assert("o"@[0] == 'o');
        assert("p"@[0] == 'p');
        assert("q"@[0] == 'q');
        assert("r"@[0] == 'r');
        assert("s"@[0] == 's');
        assert("t"@[0] == 't');
        assert("u"@[0] == 'u');
        assert("v"@[0] == 'v');
        assert("w"@[0] == 'w');
        assert("x"@[0] == 'x');
        assert("y"@[0] == 'y');
        assert("z"@[0] == 'z');
        assert("0"@[0] == '0');
        assert("1"@[0] == '1');
        assert("2"@[0] == '2');
        assert("3"@[0] == '3');
        assert("4"@[0] == '4');
        assert("5"@[0] == '5');
        assert("6"@[0] == '6');
        assert("7"@[0] == '7');
        assert(one_char('8') =~= "8"@);
    }
    assert(keycode_spec(one_char('9')) == Some(0x19u16)) by {
        reveal_strlit("a");
        reveal_strlit("b");
        reveal_strlit("c");
        reveal_strlit("d");
        reveal_strlit("e");
        reveal_strlit("f");
        reveal_strlit("g");
        reveal_strlit("h");
        reveal_strlit("i");
        reveal_strlit("j");
        reveal_strlit("k");
        reveal_strlit("l");
        reveal_strlit("m");
        reveal_strlit("n");
        reveal_strlit("o");
        reveal_strlit("p");
        reveal_strlit("q");
        reveal_strlit("r");
        reveal_strlit("s");
        reveal_strlit("t");
        reveal_strlit("u");
        reveal_strlit("v");
        reveal_strlit("w");
        reveal_strlit("x");
        reveal_strlit("y");
        reveal_strlit("z");
        reveal_strlit("0");
        reveal_strlit("1");
        reveal_strlit("2");
        reveal_strlit("3");
        reveal_strlit("4");
        reveal_strlit("5");
        reveal_strlit("6");
        reveal_strlit("7");
        reveal_strlit("8");
        reveal_strlit("9");
        assert("a"@[0] == 'a');
        assert("b"@[0] == 'b');
        assert("c"@[0] == 'c');
        assert("d"@[0] == 'd');
        assert("e"@[0] == 'e');
        assert("f"@[0] == 'f');
        assert("g"@[0] == 'g');
        assert("h"@[0] == 'h');
        assert("i"@[0] == 'i');
        assert("j"@[0] == 'j');
        assert("k"@[0] == 'k');
        assert("l"@[0] == 'l');
        assert("m"@[0] == 'm');
        assert("n"@[0] == 'n');
        assert("o"@[0] == 'o');
        assert("p"@[0] == 'p');
        assert("q"@[0] == 'q');
        assert("r"@[0] == 'r');
        assert("s"@[0] == 's');
        assert("t"@[0] == 't');
        assert("u"@[0] == 'u');
        assert("v"@[0] == 'v');
        assert("w"@[0] == 'w');
        assert("x"@[0] == 'x');
        assert("y"@[0] == 'y');
        assert("z"@[0] == 'z');
        assert("0"@[0] == '0');
        assert("1"@[0] == '1');
        assert("2"@[0] == '2');
        assert("3"@[0] == '3');
        assert("4"@[0] == '4');
        assert("5"@[0] == '5');
        assert("6"@[0] == '6');
        assert("7"@[0] == '7');
        assert("8"@[0] == '8');
        assert(one_char('9') =~= "9"@);
    }
    assert(keycode_spec("left"@) == Some(0x7Bu16)) by {
        reveal_strlit("left");
        assert("left"@.len() == 4);
        reveal_strlit("a");
        assert("a"@.len() == 1);
        reveal_strlit("b");
        assert("b"@.len() == 1);
        reveal_strlit("c");
        assert("c"@.len() == 1);
        reveal_strlit("d");
        assert("d"@.len() == 1);
        reveal_strlit("e");
        assert("e"@.len() == 1);
        reveal_strlit("f");
        assert("f"@.len() == 1);
        reveal_strlit("g");
        assert("g"@.len() == 1);
        reveal_strlit("h");
        assert("h"@.len() == 1);
        reveal_strlit("i");
        assert("i"@.len() == 1);
        reveal_strlit("j");
        assert("j"@.len() == 1);
        reveal_strlit("k");
        assert("k"@.len() == 1);
        reveal_strlit("l");
        assert("l"@.len() == 1);
        reveal_strlit("m");
        assert("m"@.len() == 1);
        reveal_strlit("n");
        assert("n"@.len() == 1);
        reveal_strlit("o");
        assert("o"@.len() == 1);
        reveal_strlit("p");
        assert("p"@.len() == 1);
        reveal_strlit("q");
        assert("q"@.len() == 1);
        reveal_strlit("r");
        assert("r"@.len() == 1);
        reveal_strlit("s");
        assert("s"@.len() == 1);
        reveal_strlit("t");
        assert("t"@.len() == 1);
        reveal_strlit("u");
        assert("u"@.len() == 1);
        reveal_strlit("v");
        assert("v"@.len() == 1);
        reveal_strlit("w");
        assert("w"@.len() == 1);
        reveal_strlit("x");
        assert("x"@.len() == 1);
        reveal_strlit("y");
        assert("y"@.len() == 1);
        reveal_strlit("z");
        assert("z"@.len() == 1);
        reveal_strlit("0");
        assert("0"@.len() == 1);
        reveal_strlit("1");
        assert("1"@.len() == 1);
        reveal_strlit("2");
        assert("2"@.len() == 1);
        reveal_strlit("3");
        assert("3"@.len() == 1);
        reveal_strlit("4");
        assert("4"@.len() == 1);
        reveal_strlit("5");
        assert("5"@.len() == 1);
        reveal_strlit("6");
        assert("6"@.len() == 1);
        reveal_strlit("7");
        assert("7"@.len() == 1);
        reveal_strlit("8");
        assert("8"@.len() == 1);
        reveal_strlit("9");
        assert("9"@.len() == 1);
    }
    assert(keycode_spec("right"@) == Some(0x7Cu16)) by {
        reveal_strlit("right");
        assert("right"@.len() == 5);
        reveal_strlit("a");
        assert("a"@.len() == 1);
        reveal_strlit("b");
        assert("b"@.len() == 1);
        reveal_strlit("c");
        assert("c"@.len() == 1);
        reveal_strlit("d");
        assert("d"@.len() == 1);
        reveal_strlit("e");
        assert("e"@.len() == 1);
        reveal_strlit("f");
        assert("f"@.len() == 1);
        reveal_strlit("g");
        assert("g"@.len() == 1);
        reveal_strlit("h");
        assert("h"@.len() == 1);
        reveal_strlit("i");
        assert("i"@.len() == 1);
        reveal_strlit("j");
        assert("j"@.len() == 1);
        reveal_strlit("k");
        assert("k"@.len() == 1);
        reveal_strlit("l");
        assert("l"@.len() == 1);
        reveal_strlit("m");
        assert("m"@.len() == 1);
        reveal_strlit("n");
        assert("n"@.len() == 1);
        reveal_strlit("o");
        assert("o"@.len() == 1);
        reveal_strlit("p");
        assert("p"@.len() == 1);
        reveal_strlit("q");
        assert("q"@.len() == 1);
        reveal_strlit("r");
        assert("r"@.len() == 1);
        reveal_strlit("s");
        assert("s"@.len() == 1);
        reveal_strlit("t");
        assert("t"@.len() == 1);
        reveal_strlit("u");
        assert("u"@.len() == 1);
        reveal_strlit("v");
        assert("v"@.len() == 1);
        reveal_strlit("w");
        assert("w"@.len() == 1);
        reveal_strlit("x");
        assert("x"@.len() == 1);
        reveal_strlit("y");
        assert("y"@.len() == 1);
        reveal_strlit("z");
        assert("z"@.len() == 1);
        reveal_strlit("0");
        assert("0"@.len() == 1);
        reveal_strlit("1");
        assert("1"@.len() == 1);
        reveal_strlit("2");
        assert("2"@.len() == 1);
        reveal_strlit("3");
        assert("3"@.len() == 1);
        reveal_strlit("4");
        assert("4"@.len() == 1);
        reveal_strlit("5");
        assert("5"@.len() == 1);
        reveal_strlit("6");
        assert("6"@.len() == 1);
        reveal_strlit("7");
        assert("7"@.len() == 1);
        reveal_strlit("8");
        assert("8"@.len() == 1);
        reveal_strlit("9");
        assert("9"@.len() == 1);
        reveal_strlit("left");
        assert("left"@.len() == 4);
    }
    assert(keycode_spec("down"@) == Some(0x7Du16)) by {
        reveal_strlit("down");
        assert("down"@.len() == 4);
        reveal_strlit("a");
        assert("a"@.len() == 1);
        reveal_strlit("b");
        assert("b"@.len() == 1);
        reveal_strlit("c");
        assert("c"@.len() == 1);
        reveal_strlit("d");
        assert("d"@.len() == 1);
        reveal_strlit("e");
        assert("e"@.len() == 1);
        reveal_strlit("f");
        assert("f"@.len() == 1);
        reveal_strlit("g");
        assert("g"@.len() == 1);
        reveal_strlit("h");
        assert("h"@.len() == 1);
        reveal_strlit("i");
        assert("i"@.len() == 1);
        reveal_strlit("j");
        assert("j"@.len() == 1);
        reveal_strlit("k");
        assert("k"@.len() == 1);
        reveal_strlit("l");
        assert("l"@.len() == 1);
        reveal_strlit("m");
        assert("m"@.len() == 1);
        reveal_strlit("n");
        assert("n"@.len() == 1);
        reveal_strlit("o");
        assert("o"@.len() == 1);
        reveal_strlit("p");
        assert("p"@.len() == 1);
        reveal_strlit("q");
        assert("q"@.len() == 1);
        reveal_strlit("r");
        assert("r"@.len() == 1);
        reveal_strlit("s");
        assert("s"@.len() == 1);
        reveal_strlit("t");
        assert("t"@.len() == 1);
        reveal_strlit("u");
        assert("u"@.len() == 1);
        reveal_strlit("v");
        assert("v"@.len() == 1);
        reveal_strlit("w");
        assert("w"@.len() == 1);
        reveal_strlit("x");
        assert("x"@.len() == 1);
        reveal_strlit("y");
        assert("y"@.len() == 1);
        reveal_strlit("z");
        assert("z"@.len() == 1);
        reveal_strlit("0");
        assert("0"@.len() == 1);
        reveal_strlit("1");
        assert("1"@.len() == 1);
        reveal_strlit("2");
        assert("2"@.len() == 1);
        reveal_strlit("3");
        assert("3"@.len() == 1);
        reveal_strlit("4");
        assert("4"@.len() == 1);
        reveal_strlit("5");
        assert("5"@.len() == 1);
        reveal_strlit("6");
        assert("6"@.len() == 1);
        reveal_strlit("7");
        assert("7"@.len() == 1);
        reveal_strlit("8");
        assert("8"@.len() == 1);
        reveal_strlit("9");
        assert("9"@.len() == 1);
        reveal_strlit("left");
        assert("left"@[0] == 'l');
        reveal_strlit("right");
        assert("right"@.len() == 5);
    }
    assert(keycode_spec("up"@) == Some(0x7Eu16)) by {
        reveal_strlit("up");
        assert("up"@.len() == 2);
        reveal_strlit("a");
        assert("a"@.len() == 1);
        reveal_strlit("b");
        assert("b"@.len() == 1);
        reveal_strlit("c");
        assert("c"@.len() == 1);
        reveal_strlit("d");
        assert("d"@.len() == 1);
        reveal_strlit("e");
        assert("e"@.len() == 1);
        reveal_strlit("f");
        assert("f"@.len() == 1);
        reveal_strlit("g");
        assert("g"@.len() == 1);
        reveal_strlit("h");
        assert("h"@.len() == 1);
        reveal_strlit("i");
        assert("i"@.len() == 1);
        reveal_strlit("j");
        assert("j"@.len() == 1);
        reveal_strlit("k");
        assert("k"@.len() == 1);
        reveal_strlit("l");
        assert("l"@.len() == 1);
        reveal_strlit("m");
        assert("m"@.len() == 1);
        reveal_strlit("n");
        assert("n"@.len() == 1);
        reveal_strlit("o");
        assert("o"@.len() == 1);
        reveal_strlit("p");
        assert("p"@.len() == 1);
        reveal_strlit("q");
        assert("q"@.len() == 1);
        reveal_strlit("r");
        assert("r"@.len() == 1);
        reveal_strlit("s");
        assert("s"@.len() == 1);
        reveal_strlit("t");
        assert("t"@.len() == 1);
        reveal_strlit("u");
        assert("u"@.len() == 1);
        reveal_strlit("v");
        assert("v"@.len() == 1);
        reveal_strlit("w");
        assert("w"@.len() == 1);
        reveal_strlit("x");
        assert("x"@.len() == 1);
        reveal_strlit("y");
        assert("y"@.len() == 1);
        reveal_strlit("z");
        assert("z"@.len() == 1);
        reveal_strlit("0");
        assert("0"@.len() == 1);
        reveal_strlit("1");
        assert("1"@.len() == 1);
        reveal_strlit("2");
        assert("2"@.len() == 1);
        reveal_strlit("3");
        assert("3"@.len() == 1);
        reveal_strlit("4");
        assert("4"@.len() == 1);
        reveal_strlit("5");
        assert("5"@.len() == 1);
        reveal_strlit("6");
        assert("6"@.len() == 1);
        reveal_strlit("7");
        assert("7"@.len() == 1);
        reveal_strlit("8");
        assert("8"@.len() == 1);
        reveal_strlit("9");
        assert("9"@.len() == 1);
        reveal_strlit("left");
        assert("left"@.len() == 4);
        reveal_strlit("right");
        assert("right"@.len() == 5);
        reveal_strlit("down");
        assert("down"@.len() == 4);
    }
    assert(keycode_spec(one_char(',')) == Some(0x2Bu16)) by {
        reveal_strlit("a");
        reveal_strlit("b");
        reveal_strlit("c");
        reveal_strlit("d");
        reveal_strlit("e");
        reveal_strlit("f");
        reveal_strlit("g");
        reveal_strlit("h");
        reveal_strlit("i");
        reveal_strlit("j");
        reveal_strlit("k");
        reveal_strlit("l");
        reveal_strlit("m");
        reveal_strlit("n");
        reveal_strlit("o");
        reveal_strlit("p");
        reveal_strlit("q");
        reveal_strlit("r");
        reveal_strlit("s");
        reveal_strlit("t");
        reveal_strlit("u");
        reveal_strlit("v");
        reveal_strlit("w");
        reveal_strlit("x");
        reveal_strlit("y");
        reveal_strlit("z");
        reveal_strlit("0");
        reveal_strlit("1");
        reveal_strlit("2");
        reveal_strlit("3");
        reveal_strlit("4");
        reveal_strlit("5");
        reveal_strlit("6");
        reveal_strlit("7");
        reveal_strlit("8");
        reveal_strlit("9");
        reveal_strlit("left");
        reveal_strlit("right");
        reveal_strlit("down");
        reveal_strlit("up");
        reveal_strlit(",");
        assert("a"@[0] == 'a');
        assert("b"@[0] == 'b');
        assert("c"@[0] == 'c');
        assert("d"@[0] == 'd');
        assert("e"@[0] == 'e');
        assert("f"@[0] == 'f');
        assert("g"@[0] == 'g');
        assert("h"@[0] == 'h');
        assert("i"@[0] == 'i');
        assert("j"@[0] == 'j');
        assert("k"@[0] == 'k');
        assert("l"@[0] == 'l');
        assert("m"@[0] == 'm');
        assert("n"@[0] == 'n');
        assert("o"@[0] == 'o');
        assert("p"@[0] == 'p');
        assert("q"@[0] == 'q');
        assert("r"@[0] == 'r');
        assert("s"@[0] == 's');
        assert("t"@[0] == 't');
        assert("u"@[0] == 'u');
        assert("v"@[0] == 'v');
        assert("w"@[0] == 'w');
        assert("x"@[0] == 'x');
        assert("y"@[0] == 'y');
        assert("z"@[0] == 'z');
        assert("0"@[0] == '0');
        assert("1"@[0] == '1');
        assert("2"@[0] == '2');
        assert("3"@[0] == '3');
        assert("4"@[0] == '4');
        assert("5"@[0] == '5');
        assert("6"@[0] == '6');
        assert("7"@[0] == '7');
        assert("8"@[0] == '8');
        assert("9"@[0] == '9');
        assert(one_char(',') =~= ","@);
    }
    assert(keycode_spec(one_char('.')) == Some(0x2Fu16)) by {
        reveal_strlit("a");
        reveal_strlit("b");
        reveal_strlit("c");
        reveal_strlit("d");
        reveal_strlit("e");
        reveal_strlit("f");
        reveal_strlit("g");
        reveal_strlit("h");
        reveal_strlit("i");
        reveal_strlit("j");
        reveal_strlit("k");
        reveal_strlit("l");
        reveal_strlit("m");
        reveal_strlit("n");
        reveal_strlit("o");
        reveal_strlit("p");
        reveal_strlit("q");
        reveal_strlit("r");
        reveal_strlit("s");
        reveal_strlit("t");
        reveal_strlit("u");
        reveal_strlit("v");
        reveal_strlit("w");
        reveal_strlit("x");
        reveal_strlit("y");
        reveal_strlit("z");
        reveal_strlit("0");
        reveal_strlit("1");
        reveal_strlit("2");
        reveal_strlit("3");
        reveal_strlit("4");
        reveal_strlit("5");
        reveal_strlit("6");
        reveal_strlit("7");
        reveal_strlit("8");
        reveal_strlit("9");
        reveal_strlit("left");
        reveal_strlit("right");
        reveal_strlit("down");
        reveal_strlit("up");
        reveal_strlit(",");
        reveal_strlit(".");
        assert("a"@[0] == 'a');
        assert("b"@[0] == 'b');
        assert("c"@[0] == 'c');
        assert("d"@[0] == 'd');
        assert("e"@[0] == 'e');
        assert("f"@[0] == 'f');
        assert("g"@[0] == 'g');
        assert("h"@[0] == 'h');
        assert("i"@[0] == 'i');
        assert("j"@[0] == 'j');
        assert("k"@[0] == 'k');
        assert("l"@[0] == 'l');
        assert("m"@[0] == 'm');
        assert("n"@[0] == 'n');
        assert("o"@[0] == 'o');
        assert("p"@[0] == 'p');
        assert("q"@[0] == 'q');
        assert("r"@[0] == 'r');
        assert("s"@[0] == 's');
        assert("t"@[0] == 't');
        assert("u"@[0] == 'u');
        assert("v"@[0] == 'v');
        assert("w"@[0] == 'w');
        assert("x"@[0] == 'x');
        assert("y"@[0] == 'y');
        assert("z"@[0] == 'z');
        assert("0"@[0] == '0');
        assert("1"@[0] == '1');
        assert("2"@[0] == '2');
        assert("3"@[0] == '3');
        assert("4"@[0] == '4');
        assert("5"@[0] == '5');
        assert("6"@[0] == '6');
        assert("7"@[0] == '7');
        assert("8"@[0] == '8');
        assert("9"@[0] == '9');
        assert(","@[0] == ',');
        assert(one_char('.') =~= "."@);
    }
    assert(keycode_spec(one_char('/')) == Some(0x2Cu16)) by {
        reveal_strlit("a");
        reveal_strlit("b");
        reveal_strlit("c");
        reveal_strlit("d");
        reveal_strlit("e");
        reveal_strlit("f");
        reveal_strlit("g");
        reveal_strlit("h");
        reveal_strlit("i");
        reveal_strlit("j");
        reveal_strlit("k");
        reveal_strlit("l");
        reveal_strlit("m");
        reveal_strlit("n");
        reveal_strlit("o");
        reveal_strlit("p");
        reveal_strlit("q");
        reveal_strlit("r");
        reveal_strlit("s");
        reveal_strlit("t");
        reveal_strlit("u");
        reveal_strlit("v");
        reveal_strlit("w");
        reveal_strlit("x");
        reveal_strlit("y");
        reveal_strlit("z");
        reveal_strlit("0");
        reveal_strlit("1");
        reveal_strlit("2");
        reveal_strlit("3");
        reveal_strlit("4");
        reveal_strlit("5");
        reveal_strlit("6");
        reveal_strlit("7");
        reveal_strlit("8");
        reveal_strlit("9");
        reveal_strlit("left");
        reveal_strlit("right");
        reveal_strlit("down");
        reveal_strlit("up");
        reveal_strlit(",");
        reveal_strlit(".");
        reveal_strlit("/");
        assert("a"@[0] == 'a');
        assert("b"@[0] == 'b');
        assert("c"@[0] == 'c');
        assert("d"@[0] == 'd');
        assert("e"@[0] == 'e');
        assert("f"@[0] == 'f');
        assert("g"@[0] == 'g');
        assert("h"@[0] == 'h');
        assert("i"@[0] == 'i');
        assert("j"@[0] == 'j');
        assert("k"@[0] == 'k');
        assert("l"@[0] == 'l');
        assert("m"@[0] == 'm');
        assert("n"@[0] == 'n');
        assert("o"@[0] == 'o');
        assert("p"@[0] == 'p');
        assert("q"@[0] == 'q');
        assert("r"@[0] == 'r');
        assert("s"@[0] == 's');
        assert("t"@[0] == 't');
        assert("u"@[0] == 'u');
        assert("v"@[0] == 'v');
        assert("w"@[0] == 'w');
        assert("x"@[0] == 'x');
        assert("y"@[0] == 'y');
        assert("z"@[0] == 'z');
        assert("0"@[0] == '0');
        assert("1"@[0] == '1');
        assert("2"@[0] == '2');
        assert("3"@[0] == '3');
        assert("4"@[0] == '4');
        assert("5"@[0] == '5');
        assert("6"@[0] == '6');
        assert("7"@[0] == '7');
        assert("8"@[0] == '8');
        assert("9"@[0] == '9');
        assert(","@[0] == ',');
        assert("."@[0] == '.');
        assert(one_char('/') =~= "/"@);
    }
    assert(keycode_spec("space"@) == Some(0x31u16)) by {
        reveal_strlit("space");
        assert("space"@.len() == 5);
        reveal_strlit("a");
        assert("a"@.len() == 1);
        reveal_strlit("b");
        assert("b"@.len() == 1);
        reveal_strlit("c");
        assert("c"@.len() == 1);
        reveal_strlit("d");
        assert("d"@.len() == 1);
        reveal_strlit("e");
        assert("e"@.len() == 1);
        reveal_strlit("f");
        assert("f"@.len() == 1);
        reveal_strlit("g");
        assert("g"@.len() == 1);
        reveal_strlit("h");
        assert("h"@.len() == 1);
        reveal_strlit("i");
        assert("i"@.len() == 1);
        reveal_strlit("j");
        assert("j"@.len() == 1);
        reveal_strlit("k");
        assert("k"@.len() == 1);
        reveal_strlit("l");
        assert("l"@.len() == 1);
        reveal_strlit("m");
        assert("m"@.len() == 1);
        reveal_strlit("n");
        assert("n"@.len() == 1);
        reveal_strlit("o");
        assert("o"@.len() == 1);
        reveal_strlit("p");
        assert("p"@.len() == 1);
        reveal_strlit("q");
        assert("q"@.len() == 1);
        reveal_strlit("r");
        assert("r"@.len() == 1);
        reveal_strlit("s");
        assert("s"@.len() == 1);
        reveal_strlit("t");
        assert("t"@.len() == 1);
        reveal_strlit("u");
        assert("u"@.len() == 1);
        reveal_strlit("v");
        assert("v"@.len() == 1);
        reveal_strlit("w");
        assert("w"@.len() == 1);
        reveal_strlit("x");
        assert("x"@.len() == 1);
        reveal_strlit("y");
        assert("y"@.len() == 1);
        reveal_strlit("z");
        assert("z"@.len() == 1);
        reveal_strlit("0");
        assert("0"@.len() == 1);
        reveal_strlit("1");
        assert("1"@.len() == 1);
        reveal_strlit("2");
        assert("2"@.len() == 1);
        reveal_strlit("3");
        assert("3"@.len() == 1);
        reveal_strlit("4");
        assert("4"@.len() == 1);
        reveal_strlit("5");
        assert("5"@.len() == 1);
        reveal_strlit("6");
        assert("6"@.len() == 1);
        reveal_strlit("7");
        assert("7"@.len() == 1);
        reveal_strlit("8");
        assert("8"@.len() == 1);
        reveal_strlit("9");
        assert("9"@.len() == 1);
        reveal_strlit("left");
        assert("left"@.len() == 4);
        reveal_strlit("right");
        assert("right"@[0] == 'r');
        reveal_strlit("down");
        assert("down"@.len() == 4);
        reveal_strlit("up");
        assert("up"@.len() == 2);
        reveal_strlit(",");
        assert(","@.len() == 1);
        reveal_strlit(".");
        assert("."@.len() == 1);
        reveal_strlit("/");
        assert("/"@.len() == 1);
    }
    assert(keycode_spec("tab"@) == Some(0x30u16)) by {
        reveal_strlit("tab");
        assert("tab"@.len() == 3);
        reveal_strlit("a");
        assert("a"@.len() == 1);
        reveal_strlit("b");
        assert("b"@.len() == 1);
        reveal_strlit("c");
        assert("c"@.len() == 1);
        reveal_strlit("d");
        assert("d"@.len() == 1);
        reveal_strlit("e");
        assert("e"@.len() == 1);
        reveal_strlit("f");
        assert("f"@.len() == 1);
        reveal_strlit("g");
        assert("g"@.len() == 1);
        reveal_strlit("h");
        assert("h"@.len() == 1);
        reveal_strlit("i");
        assert("i"@.len() == 1);
        reveal_strlit("j");
        assert("j"@.len() == 1);
        reveal_strlit("k");
        assert("k"@.len() == 1);
        reveal_strlit("l");
        assert("l"@.len() == 1);
        reveal_strlit("m");
        assert("m"@.len() == 1);
        reveal_strlit("n");
        assert("n"@.len() == 1);
        reveal_strlit("o");
        assert("o"@.len() == 1);
        reveal_strlit("p");
        assert("p"@.len() == 1);
        reveal_strlit("q");
        assert("q"@.len() == 1);
        reveal_strlit("r");
        assert("r"@.len() == 1);
        reveal_strlit("s");
        assert("s"@.len() == 1);
        reveal_strlit("t");
        assert("t"@.len() == 1);
        reveal_strlit("u");
        assert("u"@.len() == 1);
        reveal_strlit("v");
        assert("v"@.len() == 1);
        reveal_strlit("w");
        assert("w"@.len() == 1);
        reveal_strlit("x");
        assert("x"@.len() == 1);
        reveal_strlit("y");
        assert("y"@.len() == 1);
        reveal_strlit("z");
        assert("z"@.len() == 1);
        reveal_strlit("0");
        assert("0"@.len() == 1);
        reveal_strlit("1");
        assert("1"@.len() == 1);
        reveal_strlit("2");
        assert("2"@.len() == 1);
        reveal_strlit("3");
        assert("3"@.len() == 1);
        reveal_strlit("4");
        assert("4"@.len() == 1);
        reveal_strlit("5");
        assert("5"@.len() == 1);
        reveal_strlit("6");
        assert("6"@.len() == 1);
        reveal_strlit("7");
        assert("7"@.len() == 1);
        reveal_strlit("8");
        assert("8"@.len() == 1);
        reveal_strlit("9");
        assert("9"@.len() == 1);
        reveal_strlit("left");
        assert("left"@.len() == 4);
        reveal_strlit("right");
        assert("right"@.len() == 5);
        reveal_strlit("down");
        assert("down"@.len() == 4);
        reveal_strlit("up");
        assert("up"@.len() == 2);
        reveal_strlit(",");
        assert(","@.len() == 1);
        reveal_strlit(".");
        assert("."@.len() == 1);
        reveal_strlit("/");
        assert("/"@.len() == 1);
        reveal_strlit("space");
        assert("space"@.len() == 5);
    }
    assert(keycode_spec("escape"@) == Some(0x35u16)) by {
        reveal_strlit("escape");
        assert("escape"@.len() == 6);
        reveal_strlit("a");
        assert("a"@.len() == 1);
        reveal_strlit("b");
        assert("b"@.len() == 1);
        reveal_strlit("c");
        assert("c"@.len() == 1);
        reveal_strlit("d");
        assert("d"@.len() == 1);
        reveal_strlit("e");
        assert("e"@.len() == 1);
        reveal_strlit("f");
        assert("f"@.len() == 1);
        reveal_strlit("g");
        assert("g"@.len() == 1);
        reveal_strlit("h");
        assert("h"@.len() == 1);
        reveal_strlit("i");
        assert("i"@.len() == 1);
        reveal_strlit("j");
        assert("j"@.len() == 1);
        reveal_strlit("k");
        assert("k"@.len() == 1);
        reveal_strlit("l");
        assert("l"@.len() == 1);
        reveal_strlit("m");
        assert("m"@.len() == 1);
        reveal_strlit("n");
        assert("n"@.len() == 1);
        reveal_strlit("o");
        assert("o"@.len() == 1);
        reveal_strlit("p");
        assert("p"@.len() == 1);
        reveal_strlit("q");
        assert("q"@.len() == 1);
        reveal_strlit("r");
        assert("r"@.len() == 1);
        reveal_strlit("s");
        assert("s"@.len() == 1);
        reveal_strlit("t");
        assert("t"@.len() == 1);
        reveal_strlit("u");
        assert("u"@.len() == 1);
        reveal_strlit("v");
        assert("v"@.len() == 1);
        reveal_strlit("w");
        assert("w"@.len() == 1);
        reveal_strlit("x");
        assert("x"@.len() == 1);
        reveal_strlit("y");
        assert("y"@.len() == 1);
        reveal_strlit("z");
        assert("z"@.len() == 1);
        reveal_strlit("0");
        assert("0"@.len() == 1);
        reveal_strlit("1");
        assert("1"@.len() == 1);
        reveal_strlit("2");
        assert("2"@.len() == 1);
        reveal_strlit("3");
        assert("3"@.len() == 1);
        reveal_strlit("4");
        assert("4"@.len() == 1);
        reveal_strlit("5");
        assert("5"@.len() == 1);
        reveal_strlit("6");
        assert("6"@.len() == 1);
        reveal_strlit("7");
        assert("7"@.len() == 1);
        reveal_strlit("8");
        assert("8"@.len() == 1);
        reveal_strlit("9");
        assert("9"@.len() == 1);
        reveal_strlit("left");
        assert("left"@.len() == 4);
        reveal_strlit("right");
        assert("right"@.len() == 5);
        reveal_strlit("down");
        assert("down"@.len() == 4);
        reveal_strlit("up");
        assert("up"@.len() == 2);
        reveal_strlit(",");
        assert(","@.len() == 1);
        reveal_strlit(".");
        assert("."@.len() == 1);
        reveal_strlit("/");
        assert("/"@.len() == 1);
        reveal_strlit("space");
        assert("space"@.len() == 5);
        reveal_strlit("tab");
        assert("tab"@.len() == 3);
    }
    assert(keycode_spec("return"@) == Some(0x24u16)) by {
        reveal_strlit("return");
        assert("return"@.len() == 6);
        reveal_strlit("a");
        assert("a"@.len() == 1);
        reveal_strlit("b");
        assert("b"@.len() == 1);
        reveal_strlit("c");
        assert("c"@.len() == 1);
        reveal_strlit("d");
        assert("d"@.len() == 1);
        reveal_strlit("e");
        assert("e"@.len() == 1);
        reveal_strlit("f");
        assert("f"@.len() == 1);
        reveal_strlit("g");
        assert("g"@.len() == 1);
        reveal_strlit("h");
        assert("h"@.len() == 1);
        reveal_strlit("i");
        assert("i"@.len() == 1);
        reveal_strlit("j");
        assert("j"@.len() == 1);
        reveal_strlit("k");
        assert("k"@.len() == 1);
        reveal_strlit("l");
        assert("l"@.len() == 1);
        reveal_strlit("m");
        assert("m"@.len() == 1);
        reveal_strlit("n");
        assert("n"@.len() == 1);
        reveal_strlit("o");
        assert("o"@.len() == 1);
        reveal_strlit("p");
        assert("p"@.len() == 1);
        reveal_strlit("q");
        assert("q"@.len() == 1);
        reveal_strlit("r");
        assert("r"@.len() == 1);
        reveal_strlit("s");
        assert("s"@.len() == 1);
        reveal_strlit("t");
        assert("t"@.len() == 1);
        reveal_strlit("u");
        assert("u"@.len() == 1);
        reveal_strlit("v");
        assert("v"@.len() == 1);
        reveal_strlit("w");
        assert("w"@.len() == 1);
        reveal_strlit("x");
        assert("x"@.len() == 1);
        reveal_strlit("y");
        assert("y"@.len() == 1);
        reveal_strlit("z");
        assert("z"@.len() == 1);
        reveal_strlit("0");
        assert("0"@.len() == 1);
        reveal_strlit("1");
        assert("1"@.len() == 1);
        reveal_strlit("2");
        assert("2"@.len() == 1);
        reveal_strlit("3");
        assert("3"@.len() == 1);
        reveal_strlit("4");
        assert("4"@.len() == 1);
        reveal_strlit("5");
        assert("5"@.len() == 1);
        reveal_strlit("6");
        assert("6"@.len() == 1);
        reveal_strlit("7");
        assert("7"@.len() == 1);
        reveal_strlit("8");
        assert("8"@.len() == 1);
        reveal_strlit("9");
        assert("9"@.len() == 1);
        reveal_strlit("left");
        assert("left"@.len() == 4);
        reveal_strlit("right");
        assert("right"@.len() == 5);
        reveal_strlit("down");
        assert("down"@.len() == 4);
        reveal_strlit("up");
        assert("up"@.len() == 2);
        reveal_strlit(",");
        assert(","@.len() == 1);
        reveal_strlit(".");
        assert("."@.len() == 1);
        reveal_strlit("/");
        assert("/"@.len() == 1);
        reveal_strlit("space");
        assert("space"@.len() == 5);
        reveal_strlit("tab");
        assert("tab"@.len() == 3);
        reveal_strlit("escape");
        assert("escape"@[0] == 'e');
    }
    assert(keycode_spec("delete"@) == Some(0x33u16)) by {
        reveal_strlit("delete");
        assert("delete"@.len() == 6);
        reveal_strlit("a");
        assert("a"@.len() == 1);
        reveal_strlit("b");
        assert("b"@.len() == 1);
        reveal_strlit("c");
        assert("c"@.len() == 1);
        reveal_strlit("d");
        assert("d"@.len() == 1);
        reveal_strlit("e");
        assert("e"@.len() == 1);
        reveal_strlit("f");
        assert("f"@.len() == 1);
        reveal_strlit("g");
        assert("g"@.len() == 1);
        reveal_strlit("h");
        assert("h"@.len() == 1);
        reveal_strlit("i");
        assert("i"@.len() == 1);
        reveal_strlit("j");
        assert("j"@.len() == 1);
        reveal_strlit("k");
        assert("k"@.len() == 1);
        reveal_strlit("l");
        assert("l"@.len() == 1);
        reveal_strlit("m");
        assert("m"@.len() == 1);
        reveal_strlit("n");
        assert("n"@.len() == 1);
        reveal_strlit("o");
        assert("o"@.len() == 1);
        reveal_strlit("p");
        assert("p"@.len() == 1);
        reveal_strlit("q");
        assert("q"@.len() == 1);
        reveal_strlit("r");
        assert("r"@.len() == 1);
        reveal_strlit("s");
        assert("s"@.len() == 1);
        reveal_strlit("t");
        assert("t"@.len() == 1);
        reveal_strlit("u");
        assert("u"@.len() == 1);
        reveal_strlit("v");
        assert("v"@.len() == 1);
        reveal_strlit("w");
        assert("w"@.len() == 1);
        reveal_strlit("x");
        assert("x"@.len() == 1);
        reveal_strlit("y");
        assert("y"@.len() == 1);
        reveal_strlit("z");
        assert("z"@.len() == 1);
        reveal_strlit("0");
        assert("0"@.len() == 1);
        reveal_strlit("1");
        assert("1"@.len() == 1);
        reveal_strlit("2");
        assert("2"@.len() == 1);
        reveal_strlit("3");
        assert("3"@.len() == 1);
        reveal_strlit("4");
        assert("4"@.len() == 1);
        reveal_strlit("5");
        assert("5"@.len() == 1);
        reveal_strlit("6");
        assert("6"@.len() == 1);
        reveal_strlit("7");
        assert("7"@.len() == 1);
        reveal_strlit("8");
        assert("8"@.len() == 1);
        reveal_strlit("9");
        assert("9"@.len() == 1);
        reveal_strlit("left");
        assert("left"@.len() == 4);
        reveal_strlit("right");
        assert("right"@.len() == 5);
        reveal_strlit("down");
        assert("down"@.len() == 4);
        reveal_strlit("up");
        assert("up"@.len() == 2);
        reveal_strlit(",");
        assert(","@.len() == 1);
        reveal_strlit(".");
        assert("."@.len() == 1);
        reveal_strlit("/");
        assert("/"@.len() == 1);
        reveal_strlit("space");
        assert("space"@.len() == 5);
        reveal_strlit("tab");
        assert("tab"@.len() == 3);
        reveal_strlit("escape");
        assert("escape"@[0] == 'e');
        reveal_strlit("return");
        assert("return"@[0] == 'r');
    }
    assert(keycode_spec("home"@) == Some(0x73u16)) by {
        reveal_strlit("home");
        assert("home"@.len() == 4);
        reveal_strlit("a");
        assert("a"@.len() == 1);
        reveal_strlit("b");
        assert("b"@.len() == 1);
        reveal_strlit("c");
        assert("c"@.len() == 1);
        reveal_strlit("d");
        assert("d"@.len() == 1);
        reveal_strlit("e");
        assert("e"@.len() == 1);
        reveal_strlit("f");
        assert("f"@.len() == 1);
        reveal_strlit("g");
        assert("g"@.len() == 1);
        reveal_strlit("h");
        assert("h"@.len() == 1);
        reveal_strlit("i");
        assert("i"@.len() == 1);
        reveal_strlit("j");
        assert("j"@.len() == 1);
        reveal_strlit("k");
        assert("k"@.len() == 1);
        reveal_strlit("l");
        assert("l"@.len() == 1);
        reveal_strlit("m");
        assert("m"@.len() == 1);
        reveal_strlit("n");
        assert("n"@.len() == 1);
        reveal_strlit("o");
        assert("o"@.len() == 1);
        reveal_strlit("p");
        assert("p"@.len() == 1);
        reveal_strlit("q");
        assert("q"@.len() == 1);
        reveal_strlit("r");
        assert("r"@.len() == 1);
        reveal_strlit("s");
        assert("s"@.len() == 1);
        reveal_strlit("t");
        assert("t"@.len() == 1);
        reveal_strlit("u");
        assert("u"@.len() == 1);
        reveal_strlit("v");
        assert("v"@.len() == 1);
        reveal_strlit("w");
        assert("w"@.len() == 1);
        reveal_strlit("x");
        assert("x"@.len() == 1);
        reveal_strlit("y");
        assert("y"@.len() == 1);
        reveal_strlit("z");
        assert("z"@.len() == 1);
        reveal_strlit("0");
        assert("0"@.len() == 1);
        reveal_strlit("1");
        assert("1"@.len() == 1);
        reveal_strlit("2");
        assert("2"@.len() == 1);
        reveal_strlit("3");
        assert("3"@.len() == 1);
        reveal_strlit("4");
        assert("4"@.len() == 1);
        reveal_strlit("5");
        assert("5"@.len() == 1);
        reveal_strlit("6");
        assert("6"@.len() == 1);
        reveal_strlit("7");
        assert("7"@.len() == 1);
        reveal_strlit("8");
        assert("8"@.len() == 1);
        reveal_strlit("9");
        assert("9"@.len() == 1);
        reveal_strlit("left");
        assert("left"@[0] == 'l');
        reveal_strlit("right");
        assert("right"@.len() == 5);
        reveal_strlit("down");
        assert("down"@[0] == 'd');
        reveal_strlit("up");
        assert("up"@.len() == 2);
        reveal_strlit(",");
        assert(","@.len() == 1);
        reveal_strlit(".");
        assert("."@.len() == 1);
        reveal_strlit("/");
        assert("/"@.len() == 1);
        reveal_strlit("space");
        assert("space"@.len() == 5);
        reveal_strlit("tab");
        assert("tab"@.len() == 3);
        reveal_strlit("escape");
        assert("escape"@.len() == 6);
        reveal_strlit("return");
        assert("return"@.len() == 6);
        reveal_strlit("delete");
        assert("delete"@.len() == 6);
    }
    assert(keycode_spec("end"@) == Some(0x77u16)) by {
        reveal_strlit("end");
        assert("end"@.len() == 3);
        reveal_strlit("a");
        assert("a"@.len() == 1);
        reveal_strlit("b");
        assert("b"@.len() == 1);
        reveal_strlit("c");
        assert("c"@.len() == 1);
        reveal_strlit("d");
        assert("d"@.len() == 1);
        reveal_strlit("e");
        assert("e"@.len() == 1);
        reveal_strlit("f");
        assert("f"@.len() == 1);
        reveal_strlit("g");
        assert("g"@.len() == 1);
        reveal_strlit("h");
        assert("h"@.len() == 1);
        reveal_strlit("i");
        assert("i"@.len() == 1);
        reveal_strlit("j");
        assert("j"@.len() == 1);
        reveal_strlit("k");
        assert("k"@.len() == 1);
        reveal_strlit("l");
        assert("l"@.len() == 1);
        reveal_strlit("m");
        assert("m"@.len() == 1);
        reveal_strlit("n");
        assert("n"@.len() == 1);
        reveal_strlit("o");
        assert("o"@.len() == 1);
        reveal_strlit("p");
        assert("p"@.len() == 1);
        reveal_strlit("q");
        assert("q"@.len() == 1);
        reveal_strlit("r");
        assert("r"@.len() == 1);
        reveal_strlit("s");
        assert("s"@.len() == 1);
        reveal_strlit("t");
        assert("t"@.len() == 1);
        reveal_strlit("u");
        assert("u"@.len() == 1);
        reveal_strlit("v");
        assert("v"@.len() == 1);
        reveal_strlit("w");
        assert("w"@.len() == 1);
        reveal_strlit("x");
        assert("x"@.len() == 1);
        reveal_strlit("y");
        assert("y"@.len() == 1);
        reveal_strlit("z");
        assert("z"@.len() == 1);
        reveal_strlit("0");
        assert("0"@.len() == 1);
        reveal_strlit("1");
        assert("1"@.len() == 1);
        reveal_strlit("2");
        assert("2"@.len() == 1);
        reveal_strlit("3");
        assert("3"@.len() == 1);
        reveal_strlit("4");
        assert("4"@.len() == 1);
        reveal_strlit("5");
        assert("5"@.len() == 1);
        reveal_strlit("6");
        assert("6"@.len() == 1);
        reveal_strlit("7");
        assert("7"@.len() == 1);
        reveal_strlit("8");
        assert("8"@.len() == 1);
        reveal_strlit("9");
        assert("9"@.len() == 1);
        reveal_strlit("left");
        assert("left"@.len() == 4);
        reveal_strlit("right");
        assert("right"@.len() == 5);
        reveal_strlit("down");
        assert("down"@.len() == 4);
        reveal_strlit("up");
        assert("up"@.len() == 2);
        reveal_strlit(",");
        assert(","@.len() == 1);
        reveal_strlit(".");
        assert("."@.len() == 1);
        reveal_strlit("/");
        assert("/"@.len() == 1);
        reveal_strlit("space");
        assert("space"@.len() == 5);
        reveal_strlit("tab");
        assert("tab"@[0] == 't');
        reveal_strlit("escape");
        assert("escape"@.len() == 6);
        reveal_strlit("return");
        assert("return"@.len() == 6);
        reveal_strlit("delete");
        assert("delete"@.len() == 6);
        reveal_strlit("home");
        assert("home"@.len() == 4);
    }
    assert(keycode_spec("pageup"@) == Some(0x74u16)) by {
        reveal_strlit("pageup");
        assert("pageup"@.len() == 6);
        reveal_strlit("a");
        assert("a"@.len() == 1);
        reveal_strlit("b");
        assert("b"@.len() == 1);
        reveal_strlit("c");
        assert("c"@.len() == 1);
        reveal_strlit("d");
        assert("d"@.len() == 1);
        reveal_strlit("e");
        assert("e"@.len() == 1);
        reveal_strlit("f");
        assert("f"@.len() == 1);
        reveal_strlit("g");
        assert("g"@.len() == 1);
        reveal_strlit("h");
        assert("h"@.len() == 1);
        reveal_strlit("i");
        assert("i"@.len() == 1);
        reveal_strlit("j");
        assert("j"@.len() == 1);
        reveal_strlit("k");
        assert("k"@.len() == 1);
        reveal_strlit("l");
        assert("l"@.len() == 1);
        reveal_strlit("m");
        assert("m"@.len() == 1);
        reveal_strlit("n");
        assert("n"@.len() == 1);
        reveal_strlit("o");
        assert("o"@.len() == 1);
        reveal_strlit("p");
        assert("p"@.len() == 1);
        reveal_strlit("q");
        assert("q"@.len() == 1);
        reveal_strlit("r");
        assert("r"@.len() == 1);
        reveal_strlit("s");
        assert("s"@.len() == 1);
        reveal_strlit("t");
        assert("t"@.len() == 1);
        reveal_strlit("u");
        assert("u"@.len() == 1);
        reveal_strlit("v");
        assert("v"@.len() == 1);
        reveal_strlit("w");
        assert("w"@.len() == 1);
        reveal_strlit("x");
        assert("x"@.len() == 1);
        reveal_strlit("y");
        assert("y"@.len() == 1);
        reveal_strlit("z");
        assert("z"@.len() == 1);
        reveal_strlit("0");
        assert("0"@.len() == 1);
        reveal_strlit("1");
        assert("1"@.len() == 1);
        reveal_strlit("2");
        assert("2"@.len() == 1);
        reveal_strlit("3");
        assert("3"@.len() == 1);
        reveal_strlit("4");
        assert("4"@.len() == 1);
        reveal_strlit("5");
        assert("5"@.len() == 1);
        reveal_strlit("6");
        assert("6"@.len() == 1);
        reveal_strlit("7");
        assert("7"@.len() == 1);
        reveal_strlit("8");
        assert("8"@.len() == 1);
        reveal_strlit("9");
        assert("9"@.len() == 1);
        reveal_strlit("left");
        assert("left"@.len() == 4);
        reveal_strlit("right");
        assert("right"@.len() == 5);
        reveal_strlit("down");
        assert("down"@.len() == 4);
        reveal_strlit("up");
        assert("up"@.len() == 2);
        reveal_strlit(",");
        assert(","@.len() == 1);
        reveal_strlit(".");
        assert("."@.len() == 1);
        reveal_strlit("/");
        assert("/"@.len() == 1);
        reveal_strlit("space");
        assert("space"@.len() == 5);
        reveal_strlit("tab");
        assert("tab"@.len() == 3);
        reveal_strlit("escape");
        assert("escape"@[0] == 'e');
        reveal_strlit("return");
        assert("return"@[0] == 'r');
        reveal_strlit("delete");
        assert("delete"@[0] == 'd');
        reveal_strlit("home");
        assert("home"@.len() == 4);
        reveal_strlit("end");
        assert("end"@.len() == 3);
    }
    assert(keycode_spec("pagedown"@) == Some(0x79u16)) by {
        reveal_strlit("pagedown");
        assert("pagedown"@.len() == 8);
        reveal_strlit("a");
        assert("a"@.len() == 1);
        reveal_strlit("b");
        assert("b"@.len() == 1);
        reveal_strlit("c");
        assert("c"@.len() == 1);
        reveal_strlit("d");
        assert("d"@.len() == 1);
        reveal_strlit("e");
        assert("e"@.len() == 1);
        reveal_strlit("f");
        assert("f"@.len() == 1);
        reveal_strlit("g");
        assert("g"@.len() == 1);
        reveal_strlit("h");
        assert("h"@.len() == 1);
        reveal_strlit("i");
        assert("i"@.len() == 1);
        reveal_strlit("j");
        assert("j"@.len() == 1);
        reveal_strlit("k");
        assert("k"@.len() == 1);
        reveal_strlit("l");
        assert("l"@.len() == 1);
        reveal_strlit("m");
        assert("m"@.len() == 1);
        reveal_strlit("n");
        assert("n"@.len() == 1);
        reveal_strlit("o");
        assert("o"@.len() == 1);
        reveal_strlit("p");
        assert("p"@.len() == 1);
        reveal_strlit("q");
        assert("q"@.len() == 1);
        reveal_strlit("r");
        assert("r"@.len() == 1);
        reveal_strlit("s");
        assert("s"@.len() == 1);
        reveal_strlit("t");
        assert("t"@.len() == 1);
        reveal_strlit("u");
        assert("u"@.len() == 1);
        reveal_strlit("v");
        assert("v"@.len() == 1);
        reveal_strlit("w");
        assert("w"@.len() == 1);
        reveal_strlit("x");
        assert("x"@.len() == 1);
        reveal_strlit("y");
        assert("y"@.len() == 1);
        reveal_strlit("z");
        assert("z"@.len() == 1);
        reveal_strlit("0");
        assert("0"@.len() == 1);
        reveal_strlit("1");
        assert("1"@.len() == 1);
        reveal_strlit("2");
        assert("2"@.len() == 1);
        reveal_strlit("3");
        assert("3"@.len() == 1);
        reveal_strlit("4");
        assert("4"@.len() == 1);
        reveal_strlit("5");
        assert("5"@.len() == 1);
        reveal_strlit("6");
        assert("6"@.len() == 1);
        reveal_strlit("7");
        assert("7"@.len() == 1);
        reveal_strlit("8");
        assert("8"@.len() == 1);
        reveal_strlit("9");
        assert("9"@.len() == 1);
        reveal_strlit("left");
        assert("left"@.len() == 4);
        reveal_strlit("right");
        assert("right"@.len() == 5);
        reveal_strlit("down");
        assert("down"@.len() == 4);
        reveal_strlit("up");
        assert("up"@.len() == 2);
        reveal_strlit(",");
        assert(","@.len() == 1);
        reveal_strlit(".");
        assert("."@.len() == 1);
        reveal_strlit("/");
        assert("/"@.len() == 1);
        reveal_strlit("space");
        assert("space"@.len() == 5);
        reveal_strlit("tab");
        assert("tab"@.len() == 3);
        reveal_strlit("escape");
        assert("escape"@.len() == 6);
        reveal_strlit("return");
        assert("return"@.len() == 6);
        reveal_strlit("delete");
        assert("delete"@.len() == 6);
        reveal_strlit("home");
        assert("home"@.len() == 4);
        reveal_strlit("end");
        assert("end"@.len() == 3);
        reveal_strlit("pageup");
        assert("pageup"@.len() == 6);
    }
}

/// Each key name stands for the virtual key code of the key it names: a
/// one-character name for the code at its place in the key order, a named
/// key for its listed code; no other name has a code.
pub proof fn law_key_codes_follow_key_order(name: Seq<char>)
    ensures
        forall|c: int|
            0 <= c < keys_by_code().len() && #[trigger] keys_by_code()[c] != '_' ==> keycode_spec(one_char(keys_by_code()[c])) == Some(c as u16),
        forall|i: int| 0 <= i < named_keys().len() ==> keycode_spec(#[trigger] named_keys()[i].0) == Some(named_keys()[i].1),
        keycode_spec(name) is Some ==> (exists|c: int|
            0 <= c < keys_by_code().len() && #[trigger] keys_by_code()[c] != '_' && name == one_char(keys_by_code()[c])
                && keycode_spec(name) == Some(c as u16)) || (exists|i: int|
            0 <= i < named_keys().len() && #[trigger] named_keys()[i].0 == name),
{
    lemma_codes_of_listed_keys();
    let row = keys_by_code();
    let nk = named_keys();
    assert forall|c: int| 0 <= c < row.len() && #[trigger] row[c] != '_' implies keycode_spec(one_char(row[c])) == Some(c as u16) by {
        if c == 0 {
            assert(row[0] == 'a');
        }        else if c == 1 {
            assert(row[1] == 's');
        }        else if c == 2 {
            assert(row[2] == 'd');
        }        else if c == 3 {
            assert(row[3] == 'f');
        }        else if c == 4 {
            assert(row[4] == 'h');
        }        else if c == 5 {
            assert(row[5] == 'g');
        }        else if c == 6 {
            assert(row[6] == 'z');
        }        else if c == 7 {
            assert(row[7] == 'x');
        }        else if c == 8 {
            assert(row[8] == 'c');
        }        else if c == 9 {
            assert(row[9] == 'v');
        }        else if c == 11 {
            assert(row[11] == 'b');
        }        else if c == 12 {
            assert(row[12] == 'q');
        }        else if c == 13 {
            assert(row[13] == 'w');
        }        else if c == 14 {
            assert(row[14] == 'e');
        }        else if c == 15 {
            assert(row[15] == 'r');
        }        else if c == 16 {
            assert(row[16] == 'y');
        }        else if c == 17 {
            assert(row[17] == 't');
        }        else if c == 18 {
            assert(row[18] == '1');
        }        else if c == 19 {
            assert(row[19] == '2');
        }        else if c == 20 {
            assert(row[20] == '3');
        }        else if c == 21 {
            assert(row[21] == '4');
        }        else if c == 22 {
            assert(row[22] == '6');
        }        else if c == 23 {
            assert(row[23] == '5');
        }        else if c == 25 {
            assert(row[25] == '9');
        }        else if c == 26 {
            assert(row[26] == '7');
        }        else if c == 27 {
            assert(row[27] == '8');
        }        else if c == 29 {
            assert(row[29] == '0');
        }        else if c == 31 {
            assert(row[31] == 'o');
        }        else if c == 32 {
            assert(row[32] == 'u');
        }        else if c == 34 {
            assert(row[34] == 'i');
        }        else if c == 35 {
            assert(row[35] == 'p');
        }        else if c == 37 {
            assert(row[37] == 'l');
        }        else if c == 38 {
            assert(row[38] == 'j');
        }        else if c == 40 {
            assert(row[40] == 'k');
        }        else if c == 43 {
            assert(row[43] == ',');
        }        else if c == 44 {
            assert(row[44] == '/');
        }        else if c == 45 {
            assert(row[45] == 'n');
        }        else if c == 46 {
            assert(row[46] == 'm');
        }        else if c == 47 {
            assert(row[47] == '.');
        } else {
            assert(row[c] == '_');
        }
    }
    assert forall|i: int| 0 <= i < nk.len() implies keycode_spec(#[trigger] nk[i].0) == Some(nk[i].1) by {
        if i == 0 {
            assert(nk[0] == ("left"@, 0x7Bu16));
        }        else if i == 1 {
            assert(nk[1] == ("right"@, 0x7Cu16));
        }        else if i == 2 {
            assert(nk[2] == ("down"@, 0x7Du16));
        }        else if i == 3 {
            assert(nk[3] == ("up"@, 0x7Eu16));
        }        else if i == 4 {
            assert(nk[4] == ("space"@, 0x31u16));
        }        else if i == 5 {
            assert(nk[5] == ("tab"@, 0x30u16));
        }        else if i == 6 {
            assert(nk[6] == ("escape"@, 0x35u16));
        }        else if i == 7 {
            assert(nk[7] == ("return"@, 0x24u16));
        }        else if i == 8 {
            assert(nk[8] == ("delete"@, 0x33u16));
        }        else if i == 9 {
            assert(nk[9] == ("home"@, 0x73u16));
        }        else if i == 10 {
            assert(nk[10] == ("end"@, 0x77u16));
        }        else if i == 11 {
            assert(nk[11] == ("pageup"@, 0x74u16));
        }        else if i == 12 {
            assert(nk[12] == ("pagedown"@, 0x79u16));
        }
    }
    if keycode_spec(name) is Some {
        law_named_key_listed(name);
    }
}

proof fn law_named_key_listed(name: Seq<char>)
    requires
        keycode_spec(name) is Some,
    ensures
        (exists|c: int|
            0 <= c < keys_by_code().len() && #[trigger] keys_by_code()[c] != '_' && name == one_char(keys_by_code()[c])
                && keycode_spec(name) == Some(c as u16)) || (exists|i: int|
            0 <= i < named_keys().len() && #[trigger] named_keys()[i].0 == name),
{
    lemma_codes_of_listed_keys();
    let row = keys_by_code();
    let nk = named_keys();
    reveal_strlit("a");
    reveal_strlit("s");
    reveal_strlit("d");
    reveal_strlit("f");
    reveal_strlit("h");
    reveal_strlit("g");
    reveal_strlit("z");
    reveal_strlit("x");
    reveal_strlit("c");
    reveal_strlit("v");
    reveal_strlit("b");
    reveal_strlit("q");
    reveal_strlit("w");
    reveal_strlit("e");
    reveal_strlit("r");
    reveal_strlit("y");
    reveal_strlit("t");
    reveal_strlit("1");
    reveal_strlit("2");
    reveal_strlit("3");
    reveal_strlit("4");
    reveal_strlit("6");
    reveal_strlit("5");
    reveal_strlit("9");
    reveal_strlit("7");
    reveal_strlit("8");
    reveal_strlit("0");
    reveal_strlit("o");
    reveal_strlit("u");
    reveal_strlit("i");
    reveal_strlit("p");
    reveal_strlit("l");
    reveal_strlit("j");
    reveal_strlit("k");
    reveal_strlit(",");
    reveal_strlit("/");
    reveal_strlit("n");
    reveal_strlit("m");
    reveal_strlit(".");
    reveal_strlit("left");
    reveal_strlit("right");
    reveal_strlit("down");
    reveal_strlit("up");
    reveal_strlit("space");
    reveal_strlit("tab");
    reveal_strlit("escape");
    reveal_strlit("return");
    reveal_strlit("delete");
    reveal_strlit("home");
    reveal_strlit("end");
    reveal_strlit("pageup");
    reveal_strlit("pagedown");
    if name == "a"@ {
        assert(one_char('a') =~= name);
        assert(row[0] == 'a');
    }    else if name == "s"@ {
        assert(one_char('s') =~= name);
        assert(row[1] == 's');
    }    else if name == "d"@ {
        assert(one_char('d') =~= name);
        assert(row[2] == 'd');
    }    else if name == "f"@ {
        assert(one_char('f') =~= name);
        assert(row[3] == 'f');
    }    else if name == "h"@ {
        assert(one_char('h') =~= name);
        assert(row[4] == 'h');
    }    else if name == "g"@ {
        assert(one_char('g') =~= name);
        assert(row[5] == 'g');
    }    else if name == "z"@ {
        assert(one_char('z') =~= name);
        assert(row[6] == 'z');
    }    else if name == "x"@ {
        assert(one_char('x') =~= name);
        assert(row[7] == 'x');
    }    else if name == "c"@ {
        assert(one_char('c') =~= name);
        assert(row[8] == 'c');
    }    else if name == "v"@ {
        assert(one_char('v') =~= name);
        assert(row[9] == 'v');
    }    else if name == "b"@ {
        assert(one_char('b') =~= name);
        assert(row[11] == 'b');
    }    else if name == "q"@ {
        assert(one_char('q') =~= name);
        assert(row[12] == 'q');
    }    else if name == "w"@ {
        assert(one_char('w') =~= name);
        assert(row[13] == 'w');
    }    else if name == "e"@ {
        assert(one_char('e') =~= name);
        assert(row[14] == 'e');
    }    else if name == "r"@ {
        assert(one_char('r') =~= name);
        assert(row[15] == 'r');
    }    else if name == "y"@ {
        assert(one_char('y') =~= name);
        assert(row[16] == 'y');
    }    else if name == "t"@ {
        assert(one_char('t') =~= name);
        assert(row[17] == 't');
    }    else if name == "1"@ {
        assert(one_char('1') =~= name);
        assert(row[18] == '1');
    }    else if name == "2"@ {
        assert(one_char('2') =~= name);
        assert(row[19] == '2');
    }    else if name == "3"@ {
        assert(one_char('3') =~= name);
        assert(row[20] == '3');
    }    else if name == "4"@ {
        assert(one_char('4') =~= name);
        assert(row[21] == '4');
    }    else if name == "6"@ {
        assert(one_char('6') =~= name);
        assert(row[22] == '6');
    }    else if name == "5"@ {
        assert(one_char('5') =~= name);
        assert(row[23] == '5');
    }    else if name == "9"@ {
        assert(one_char('9') =~= name);
        assert(row[25] == '9');
    }    else if name == "7"@ {
        assert(one_char('7') =~= name);
        assert(row[26] == '7');
    }    else if name == "8"@ {
        assert(one_char('8') =~= name);
        assert(row[27] == '8');
    }    else if name == "0"@ {
        assert(one_char('0') =~= name);
        assert(row[29] == '0');
    }    else if name == "o"@ {
        assert(one_char('o') =~= name);
        assert(row[31] == 'o');
    }    else if name == "u"@ {
        assert(one_char('u') =~= name);
        assert(row[32] == 'u');
    }    else if name == "i"@ {
        assert(one_char('i') =~= name);
        assert(row[34] == 'i');
    }    else if name == "p"@ {
        assert(one_char('p') =~= name);
        assert(row[35] == 'p');
    }    else if name == "l"@ {
        assert(one_char('l') =~= name);
        assert(row[37] == 'l');
    }    else if name == "j"@ {
        assert(one_char('j') =~= name);
        assert(row[38] == 'j');
    }    else if name == "k"@ {
        assert(one_char('k') =~= name);
        assert(row[40] == 'k');
    }    else if name == ","@ {
        assert(one_char(',') =~= name);
        assert(row[43] == ',');
    }    else if name == "/"@ {
        assert(one_char('/') =~= name);
        assert(row[44] == '/');
    }    else if name == "n"@ {
        assert(one_char('n') =~= name);
        assert(row[45] == 'n');
    }    else if name == "m"@ {
        assert(one_char('m') =~= name);
        assert(row[46] == 'm');
    }    else if name == "."@ {
        assert(one_char('.') =~= name);
        assert(row[47] == '.');
    } else if name == "left"@ {
        assert(nk[0].0 == name);
    } else if name == "right"@ {
        assert(nk[1].0 == name);
    } else if name == "down"@ {
        assert(nk[2].0 == name);
    } else if name == "up"@ {
        assert(nk[3].0 == name);
    } else if name == "space"@ {
        assert(nk[4].0 == name);
    } else if name == "tab"@ {
        assert(nk[5].0 == name);
    } else if name == "escape"@ {
        assert(nk[6].0 == name);
    } else if name == "return"@ {
        assert(nk[7].0 == name);
    } else if name == "delete"@ {
        assert(nk[8].0 == name);
    } else if name == "home"@ {
        assert(nk[9].0 == name);
    } else if name == "end"@ {
        assert(nk[10].0 == name);
    } else if name == "pageup"@ {
        assert(nk[11].0 == name);
    } else if name == "pagedown"@ {
        assert(nk[12].0 == name);
    }
}

/// The first binding in `bs` for `keycode` with exactly `modifiers` is the
/// one at `i`.
proof fn lemma_lookup_at(bs: Seq<Keybind>, i: int, keycode: u16, modifiers: ModifierFlags)
    requires
        0 <= i < bs.len(),
        bs[i].keycode == keycode && bs[i].modifiers == modifiers,
        forall|j: int| 0 <= j < i ==> !(#[trigger] bs[j].keycode == keycode && bs[j].modifiers == modifiers),
    ensures
        lookup_binding(bs, keycode, modifiers) == Some(bs[i].action),
    decreases i,
{
    if i > 0 {
        let t = bs.drop_first();
        assert forall|j: int| 0 <= j < i - 1 implies !(#[trigger] t[j].keycode == keycode && t[j].modifiers == modifiers) by {
            assert(t[j] == bs[j + 1]);
        }
        lemma_lookup_at(t, i - 1, keycode, modifiers);
        assert(!(bs[0].keycode == keycode && bs[0].modifiers == modifiers));
    }
}

/// The vim-style key for a direction: h, j, k, l for left, down, up,
/// right.
pub open spec fn vim_key(d: Direction) -> Seq<char> {
    match d {
        Direction::Left => one_char('h'),
        Direction::Down => one_char('j'),
        Direction::Up => one_char('k'),
        Direction::Right => one_char('l'),
    }
}

/// The arrow key for a direction.
pub open spec fn arrow_key(d: Direction) -> Seq<char> {
    match d {
        Direction::Left => "left"@,
        Direction::Right => "right"@,
        Direction::Up => "up"@,
        Direction::Down => "down"@,
    }
}

/// The digit key for `n` in `1..=9`.
pub open spec fn digit_key(n: int) -> Seq<char> {
    one_char(
        if n == 1 {
            '1'
        }
        else if n == 2 {
            '2'
        }
        else if n == 3 {
            '3'
        }
        else if n == 4 {
            '4'
        }
        else if n == 5 {
            '5'
        }
        else if n == 6 {
            '6'
        }
        else if n == 7 {
            '7'
        }
        else if n == 8 {
            '8'
        }
        else if n == 9 {
            '9'
        }
        else {
            '0'
        },
    )
}

/// The command the default bindings give to the key named `key` pressed
/// with exactly `modifiers`.
pub open spec fn default_for(key: Seq<char>, modifiers: ModifierFlags) -> Option<Command> {
    match keycode_spec(key) {
        Some(code) => lookup_binding(default_bindings(), code, modifiers),
        None => None,
    }
}

/// What the default bindings promise for a direction: alt with the
/// vim-style key and alt with the arrow both move the focus that way,
/// alt-shift with the vim-style key moves the focused window that way,
/// alt-ctrl with the arrow moves the focus to the display that way and
/// alt-ctrl-shift with the arrow moves the focused window there.
pub proof fn law_default_direction_keys(d: Direction)
    ensures
        default_for(vim_key(d), MODIFIER_ALT) == Some(Command::Focus { direction: d }),
        default_for(arrow_key(d), MODIFIER_ALT) == Some(Command::Focus { direction: d }),
        default_for(vim_key(d), MODIFIER_ALT | MODIFIER_SHIFT) == Some(Command::MoveWindow { direction: d }),
        default_for(arrow_key(d), MODIFIER_ALT | MODIFIER_CTRL) == Some(Command::FocusDisplay { direction: d }),
        default_for(arrow_key(d), MODIFIER_ALT | MODIFIER_CTRL | MODIFIER_SHIFT) == Some(
            Command::MoveWindowToDisplay { direction: d },
        ),
{
    lemma_codes_of_listed_keys();
    let bs = default_bindings();
    let (v, a, s, c, cs): (int, int, int, int, int) = match d {
        Direction::Left => (0, 4, 8, 36, 40),
        Direction::Down => (1, 5, 9, 39, 43),
        Direction::Up => (2, 6, 10, 38, 42),
        Direction::Right => (3, 7, 11, 37, 41),
    };
    let vc: u16 = keycode_spec(vim_key(d))->0;
    let ac: u16 = keycode_spec(arrow_key(d))->0;
    assert(MODIFIER_ALT | MODIFIER_SHIFT == 0x000A_0000u64) by (bit_vector);
    assert(MODIFIER_ALT | MODIFIER_CTRL == 0x000C_0000u64) by (bit_vector);
    assert(MODIFIER_ALT | MODIFIER_CTRL | MODIFIER_SHIFT == 0x000E_0000u64) by (bit_vector);
    assert(MODIFIER_CMD | MODIFIER_SHIFT == 0x0012_0000u64) by (bit_vector);
    lemma_lookup_at(bs, v, vc, MODIFIER_ALT);
    lemma_lookup_at(bs, a, ac, MODIFIER_ALT);
    lemma_lookup_at(bs, s, vc, MODIFIER_ALT | MODIFIER_SHIFT);
    lemma_lookup_at(bs, c, ac, MODIFIER_ALT | MODIFIER_CTRL);
    lemma_lookup_at(bs, cs, ac, MODIFIER_ALT | MODIFIER_CTRL | MODIFIER_SHIFT);
}

/// What the default bindings promise for the digits: alt with digit `n`
/// switches to workspace `n`, alt-shift with it moves the focused window
/// there.
pub proof fn law_default_digit_keys(n: int)
    requires
        1 <= n <= 9,
    ensures
        default_for(digit_key(n), MODIFIER_ALT) == Some(Command::Workspace { id: n as u32 }),
        default_for(digit_key(n), MODIFIER_ALT | MODIFIER_SHIFT) == Some(Command::MoveWindowToWorkspace { id: n as u32 }),
{
    lemma_codes_of_listed_keys();
    let bs = default_bindings();
    let dc: u16 = keycode_spec(digit_key(n))->0;
    assert(MODIFIER_ALT | MODIFIER_SHIFT == 0x000A_0000u64) by (bit_vector);
    assert(MODIFIER_CMD | MODIFIER_SHIFT == 0x0012_0000u64) by (bit_vector);
    lemma_lookup_at(bs, 11 + n, dc, MODIFIER_ALT);
    lemma_lookup_at(bs, 20 + n, dc, MODIFIER_ALT | MODIFIER_SHIFT);
}

/// What the default bindings promise for the remaining keys: alt-/ and
/// alt-. tile, alt-, accordion, alt-t toggles the layout, cmd-shift-r
/// reloads the configuration and alt-b toggles the bar.
pub proof fn law_default_layout_keys()
    ensures
        default_for(one_char('/'), MODIFIER_ALT) == Some(Command::SetLayout { mode: LayoutMode::Tile }),
        default_for(one_char('.'), MODIFIER_ALT) == Some(Command::SetLayout { mode: LayoutMode::Tile }),
        default_for(one_char(','), MODIFIER_ALT) == Some(Command::SetLayout { mode: LayoutMode::Accordion }),
        default_for(one_char('t'), MODIFIER_ALT) == Some(Command::ToggleLayout),
        default_for(one_char('r'), MODIFIER_CMD | MODIFIER_SHIFT) == Some(Command::ReloadConfig),
        default_for(one_char('b'), MODIFIER_ALT) == Some(Command::ToggleBar),
{
    lemma_codes_of_listed_keys();
    let bs = default_bindings();
    assert(MODIFIER_ALT | MODIFIER_SHIFT == 0x000A_0000u64) by (bit_vector);
    assert(MODIFIER_ALT | MODIFIER_CTRL == 0x000C_0000u64) by (bit_vector);
    assert(MODIFIER_CMD | MODIFIER_SHIFT == 0x0012_0000u64) by (bit_vector);
    lemma_lookup_at(bs, 30, 0x2C, MODIFIER_ALT);
    lemma_lookup_at(bs, 31, 0x2F, MODIFIER_ALT);
    lemma_lookup_at(bs, 32, 0x2B, MODIFIER_ALT);
    lemma_lookup_at(bs, 33, 0x11, MODIFIER_ALT);
    lemma_lookup_at(bs, 34, 0x0F, MODIFIER_CMD | MODIFIER_SHIFT);
    lemma_lookup_at(bs, 35, 0x0B, MODIFIER_ALT);
}

/// No two key names share a keycode.
pub proof fn law_keycodes_distinct(a: Seq<char>, b: Seq<char>)
    requires
        keycode_spec(a) is Some,
        keycode_spec(a) == keycode_spec(b),
    ensures
        a == b,
{
}


proof fn lemma_dash_parts_concat(a: Seq<char>, b: Seq<char>)
    ensures
        dash_parts(a + "-"@ + b) == dash_parts(a) + dash_parts(b),
    decreases b.len(),
{
    reveal_strlit("-");
    let s = a + "-"@ + b;
    if b.len() == 0 {
        assert(s.drop_last() =~= a);
        assert(s.last() == '-');
        assert(dash_parts(b) =~= seq![Seq::<char>::empty()]);
        assert(dash_parts(a).push(Seq::<char>::empty()) =~= dash_parts(a) + dash_parts(b));
    } else {
        let b1 = b.drop_last();
        lemma_dash_parts_concat(a, b1);
        lemma_dash_parts_nonempty(b1);
        assert(s.drop_last() =~= a + "-"@ + b1);
        assert(s.last() == b.last());
        let x = dash_parts(a);
        let y = dash_parts(b1);
        if b.last() == '-' {
            assert((x + y).push(Seq::<char>::empty()) =~= x + y.push(Seq::<char>::empty()));
        } else {
            let xy = x + y;
            assert(xy.update(xy.len() - 1, xy.last().push(b.last())) =~= x + y.update(
                y.len() - 1,
                y.last().push(b.last()),
            ));
        }
    }
}

proof fn lemma_flags_concat(x: Seq<Seq<char>>, y: Seq<Seq<char>>)
    ensures
        flags_of(x + y) == flags_of(x) | flags_of(y),
    decreases y.len(),
{
    let fx = flags_of(x);
    if y.len() == 0 {
        assert(x + y =~= x);
        assert(fx | 0u64 == fx) by (bit_vector);
    } else {
        let y1 = y.drop_last();
        lemma_flags_concat(x, y1);
        assert((x + y).drop_last() =~= x + y1);
        assert((x + y).last() == y.last());
        let fy1 = flags_of(y1);
        let w = modifier_word_flag(y.last());
        assert((fx | fy1) | w == fx | (fy1 | w)) by (bit_vector);
    }
}

proof fn lemma_empty_word_flag()
    ensures
        modifier_word_flag(Seq::<char>::empty()) == 0,
        parse_modifiers_spec(Seq::<char>::empty()) == flags_of(dash_parts(Seq::<char>::empty())),
{
    reveal_strlit("cmd");
    reveal_strlit("command");
    reveal_strlit("alt");
    reveal_strlit("option");
    reveal_strlit("ctrl");
    reveal_strlit("control");
    reveal_strlit("shift");
    let e = Seq::<char>::empty();
    assert(trim_spec(e) =~= e);
    assert(dash_parts(e) =~= seq![e]);
    assert(seq![e].drop_last() =~= Seq::<Seq<char>>::empty());
    assert(flags_of(Seq::<Seq<char>>::empty()) == 0);
    assert(seq![e].last() == e);
    assert(flags_of(seq![e]) == flags_of(seq![e].drop_last()) | modifier_word_flag(e));
    assert(0u64 | 0u64 == 0u64) by (bit_vector);
}

/// Parsing `a-b` gives the modifiers of `a` together with those of `b`: a
/// list of modifier words means the union of its words' flags, whatever
/// their order or repetition.
pub proof fn law_modifiers_union(a: Seq<char>, b: Seq<char>)
    ensures
        parse_modifiers_spec(a + "-"@ + b) == parse_modifiers_spec(a) | parse_modifiers_spec(b),
{
    reveal_strlit("-");
    lemma_dash_parts_concat(a, b);
    lemma_flags_concat(dash_parts(a), dash_parts(b));
    lemma_empty_word_flag();
    assert((a + "-"@ + b).len() > 0);
}


/// The order of two modifier lists does not matter: `a-b` and `b-a` parse
/// to the same flags.
pub proof fn law_modifiers_order_free(a: Seq<char>, b: Seq<char>)
    ensures
        parse_modifiers_spec(a + "-"@ + b) == parse_modifiers_spec(b + "-"@ + a),
{
    law_modifiers_union(a, b);
    law_modifiers_union(b, a);
    let pa = parse_modifiers_spec(a);
    let pb = parse_modifiers_spec(b);
    assert(pa | pb == pb | pa) by (bit_vector);
}


/// One of the modifier words `parts` stands for flag `b`.
pub open spec fn has_flag(parts: Seq<Seq<char>>, b: ModifierFlags) -> bool {
    exists|i: int| 0 <= i < parts.len() && #[trigger] modifier_word_flag(parts[i]) == b
}

proof fn lemma_or_bits(x: u64, f: u64)
    by (bit_vector)
    requires
        x & !(0x0010_0000u64 | 0x0008_0000u64 | 0x0004_0000u64 | 0x0002_0000u64) == 0,
        f == 0 || f == 0x0010_0000u64 || f == 0x0008_0000u64 || f == 0x0004_0000u64 || f == 0x0002_0000u64,
    ensures
        (x | f) & !(0x0010_0000u64 | 0x0008_0000u64 | 0x0004_0000u64 | 0x0002_0000u64) == 0,
        ((x | f) & 0x0010_0000u64 != 0) == ((x & 0x0010_0000u64 != 0) || f == 0x0010_0000u64),
        ((x | f) & 0x0008_0000u64 != 0) == ((x & 0x0008_0000u64 != 0) || f == 0x0008_0000u64),
        ((x | f) & 0x0004_0000u64 != 0) == ((x & 0x0004_0000u64 != 0) || f == 0x0004_0000u64),
        ((x | f) & 0x0002_0000u64 != 0) == ((x & 0x0002_0000u64 != 0) || f == 0x0002_0000u64),
{
}

proof fn lemma_bits_determine(x: u64, y: u64)
    by (bit_vector)
    requires
        x & !(0x0010_0000u64 | 0x0008_0000u64 | 0x0004_0000u64 | 0x0002_0000u64) == 0,
        y & !(0x0010_0000u64 | 0x0008_0000u64 | 0x0004_0000u64 | 0x0002_0000u64) == 0,
        (x & 0x0010_0000u64 != 0) == (y & 0x0010_0000u64 != 0),
        (x & 0x0008_0000u64 != 0) == (y & 0x0008_0000u64 != 0),
        (x & 0x0004_0000u64 != 0) == (y & 0x0004_0000u64 != 0),
        (x & 0x0002_0000u64 != 0) == (y & 0x0002_0000u64 != 0),
    ensures
        x == y,
{
}

proof fn lemma_flags_bits(parts: Seq<Seq<char>>)
    ensures
        flags_of(parts) & !(0x0010_0000u64 | 0x0008_0000u64 | 0x0004_0000u64 | 0x0002_0000u64) == 0,
        (flags_of(parts) & 0x0010_0000u64 != 0) == has_flag(parts, MODIFIER_CMD),
        (flags_of(parts) & 0x0008_0000u64 != 0) == has_flag(parts, MODIFIER_ALT),
        (flags_of(parts) & 0x0004_0000u64 != 0) == has_flag(parts, MODIFIER_CTRL),
        (flags_of(parts) & 0x0002_0000u64 != 0) == has_flag(parts, MODIFIER_SHIFT),
    decreases parts.len(),
{
    if parts.len() == 0 {
        assert(0u64 & !(0x0010_0000u64 | 0x0008_0000u64 | 0x0004_0000u64 | 0x0002_0000u64) == 0) by (bit_vector);
        assert(0u64 & 0x0010_0000u64 == 0 && 0u64 & 0x0008_0000u64 == 0 && 0u64 & 0x0004_0000u64 == 0 && 0u64
            & 0x0002_0000u64 == 0) by (bit_vector);
    } else {
        let pre = parts.drop_last();
        lemma_flags_bits(pre);
        let x = flags_of(pre);
        let f = modifier_word_flag(parts.last());
        lemma_or_bits(x, f);
        assert forall|b: ModifierFlags| has_flag(parts, b) == (has_flag(pre, b) || f == b) by {
            if has_flag(pre, b) {
                let i = choose|i: int| 0 <= i < pre.len() && #[trigger] modifier_word_flag(pre[i]) == b;
                assert(parts[i] == pre[i]);
            }
            if f == b {
                assert(modifier_word_flag(parts[parts.len() - 1]) == b);
            }
            if has_flag(parts, b) {
                let i = choose|i: int| 0 <= i < parts.len() && #[trigger] modifier_word_flag(parts[i]) == b;
                if i < parts.len() - 1 {
                    assert(pre[i] == parts[i]);
                }
            }
        }
    }
}

/// The flags of a list of modifier words depend only on which flags its
/// words stand for: order, repetition and words standing for nothing do
/// not matter.
pub proof fn law_modifier_flags_by_set(x: Seq<Seq<char>>, y: Seq<Seq<char>>)
    requires
        forall|b: ModifierFlags| has_flag(x, b) == has_flag(y, b),
    ensures
        flags_of(x) == flags_of(y),
{
    lemma_flags_bits(x);
    lemma_flags_bits(y);
    assert(has_flag(x, MODIFIER_CMD) == has_flag(y, MODIFIER_CMD));
    assert(has_flag(x, MODIFIER_ALT) == has_flag(y, MODIFIER_ALT));
    assert(has_flag(x, MODIFIER_CTRL) == has_flag(y, MODIFIER_CTRL));
    assert(has_flag(x, MODIFIER_SHIFT) == has_flag(y, MODIFIER_SHIFT));
    lemma_bits_determine(flags_of(x), flags_of(y));
}

proof fn lemma_same_word_flag(p: Seq<char>, q: Seq<char>)
    requires
        eq_ignore_ascii_case_spec(trim_spec(p), trim_spec(q)),
    ensures
        modifier_word_flag(p) == modifier_word_flag(q),
{
    let tp = trim_spec(p);
    let tq = trim_spec(q);
    assert forall|w: Seq<char>| eq_ignore_ascii_case_spec(tp, w) == eq_ignore_ascii_case_spec(tq, w) by {
        if eq_ignore_ascii_case_spec(tp, w) {
            assert forall|i: int| 0 <= i < tq.len() implies ascii_lower(#[trigger] tq[i]) == ascii_lower(w[i]) by {
                assert(ascii_lower(tp[i]) == ascii_lower(tq[i]));
                assert(ascii_lower(tp[i]) == ascii_lower(w[i]));
            }
        }
        if eq_ignore_ascii_case_spec(tq, w) {
            assert forall|i: int| 0 <= i < tp.len() implies ascii_lower(#[trigger] tp[i]) == ascii_lower(w[i]) by {
                assert(ascii_lower(tp[i]) == ascii_lower(tq[i]));
                assert(ascii_lower(tq[i]) == ascii_lower(w[i]));
            }
        }
    }
}

/// Only the `-`-separated words of a modifier list matter, each compared
/// after trimming and ignoring ASCII case, and only as a set: two lists
/// whose words match in both directions parse to the same flags.
#[verifier::rlimit(40)]
pub proof fn law_modifiers_by_normalised_words(s: Seq<char>, t: Seq<char>)
    requires
        forall|i: int|
            0 <= i < dash_parts(s).len() ==> exists|j: int|
                0 <= j < dash_parts(t).len() && eq_ignore_ascii_case_spec(
                    trim_spec(#[trigger] dash_parts(s)[i]),
                    trim_spec(dash_parts(t)[j]),
                ),
        forall|j: int|
            0 <= j < dash_parts(t).len() ==> exists|i: int|
                0 <= i < dash_parts(s).len() && eq_ignore_ascii_case_spec(
                    trim_spec(dash_parts(s)[i]),
                    trim_spec(#[trigger] dash_parts(t)[j]),
                ),
    ensures
        parse_modifiers_spec(s) == parse_modifiers_spec(t),
{
    let x = dash_parts(s);
    let y = dash_parts(t);
    lemma_empty_word_flag();
    assert forall|b: ModifierFlags| has_flag(x, b) == has_flag(y, b) by {
        if has_flag(x, b) {
            let i = choose|i: int| 0 <= i < x.len() && #[trigger] modifier_word_flag(x[i]) == b;
            let j = choose|j: int|
                0 <= j < y.len() && eq_ignore_ascii_case_spec(trim_spec(x[i]), trim_spec(y[j]));
            lemma_same_word_flag(x[i], y[j]);
            assert(modifier_word_flag(y[j]) == b);
        }
        if has_flag(y, b) {
            let j = choose|j: int| 0 <= j < y.len() && #[trigger] modifier_word_flag(y[j]) == b;
            let i = choose|i: int|
                0 <= i < x.len() && eq_ignore_ascii_case_spec(trim_spec(x[i]), trim_spec(y[j]));
            lemma_same_word_flag(x[i], y[j]);
            assert(modifier_word_flag(x[i]) == b);
        }
    }
    law_modifier_flags_by_set(x, y);
    if s.len() == 0 {
        assert(s =~= Seq::<char>::empty());
    }
    if t.len() == 0 {
        assert(t =~= Seq::<char>::empty());
    }
}

} // verus!
