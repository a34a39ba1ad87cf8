//! Messages between the daemon and external UI clients.
use vstd::prelude::*;

use crate::command::BarMessage;

verus! {

/// Commands that external clients can send to the daemon.
#[derive(Debug, Clone)]
pub enum IpcCommand {
    /// Change the maximum number of tiles of a workspace.
    SetMaxTiles { workspace: u8, limit: usize },
    /// Define a new hotkey action.
    RegisterHotkey { keys: Vec<String>, action: String },
    ReloadConfig,
    /// Request the current state of the window tree.
    GetState,
}

/// Events sent from the daemon to every connected UI client.
#[derive(Debug, Clone)]
pub enum UiEvent {
    /// The layout or state changed.
    StateChanged(UiState),
}

/// The window manager's state as UI clients see it.
#[derive(Debug, Clone)]
pub struct UiState {
    /// The managed windows and their geometry.
    pub windows: Vec<WindowInfo>,
    /// The id of the focused window, if any.
    pub focused_window: Option<usize>,
}

impl Default for UiState {
    fn default() -> (r: UiState)
        ensures
            r.windows@.len() == 0,
            r.focused_window is None,
    {
        UiState { windows: Vec::new(), focused_window: None }
    }
}

/// A managed window: its id, title and geometry in pixels.
#[derive(Debug, Clone)]
pub struct WindowInfo {
    pub id: usize,
    pub title: String,
    pub x: i32,
    pub y: i32,
    pub width: u32,
    pub height: u32,
}


/// What a bar that connects late is sent first: the last visibility
/// message (`Show` or `Hide`) and the last state, each as the bytes of its
/// line, in that order.
pub struct BarReplay {
    visibility: Option<Vec<u8>>,
    state: Option<Vec<u8>>,
}

/// The bytes of an optional line.
pub open spec fn line_view(l: Option<Vec<u8>>) -> Option<Seq<u8>> {
    match l {
        Some(v) => Some(v@),
        None => None,
    }
}

/// The lines a late bar is sent, given the last visibility and state lines.
pub open spec fn replay_lines(visibility: Option<Seq<u8>>, state: Option<Seq<u8>>) -> Seq<Seq<u8>> {
    let v: Seq<Seq<u8>> = match visibility {
        Some(l) => seq![l],
        None => Seq::empty(),
    };
    let s: Seq<Seq<u8>> = match state {
        Some(l) => seq![l],
        None => Seq::empty(),
    };
    v + s
}

impl BarReplay {
    /// The last visibility line kept.
    pub closed spec fn spec_visibility(&self) -> Option<Seq<u8>> {
        line_view(self.visibility)
    }

    /// The last state line kept.
    pub closed spec fn spec_state(&self) -> Option<Seq<u8>> {
        line_view(self.state)
    }

    /// Nothing kept yet.
    pub fn new() -> (r: BarReplay)
        ensures
            r.spec_visibility() is None,
            r.spec_state() is None,
    {
        BarReplay { visibility: None, state: None }
    }

    /// Keep `line`, the bytes sent for `msg`: as the last visibility line
    /// for `Show` and `Hide`, as the last state for `State`; other messages
    /// are not replayed.
    pub fn record(&mut self, msg: &BarMessage, line: Vec<u8>)
        ensures
            (msg is Show || msg is Hide) ==> final(self).spec_visibility() == Some(line@) && final(self).spec_state()
                == old(self).spec_state(),
            msg is State ==> final(self).spec_state() == Some(line@) && final(self).spec_visibility() == old(
                self,
            ).spec_visibility(),
            (msg is Exit || msg is Reload) ==> final(self).spec_visibility() == old(self).spec_visibility()
                && final(self).spec_state() == old(self).spec_state(),
    {
        match msg {
            BarMessage::Show | BarMessage::Hide => {
                self.visibility = Some(line);
            },
            BarMessage::State(_) => {
                self.state = Some(line);
            },
            BarMessage::Exit | BarMessage::Reload => {},
        }
    }

    /// The lines to send a bar that has just connected, oldest kind first:
    /// the last visibility line, then the last state line.
    pub fn replay(&self) -> (r: Vec<Vec<u8>>)
        ensures
            r@.map_values(|l: Vec<u8>| l@) == replay_lines(self.spec_visibility(), self.spec_state()),
    {
        let mut out: Vec<Vec<u8>> = Vec::new();
        match &self.visibility {
            Some(l) => out.push(l.clone()),
            None => {},
        }
        match &self.state {
            Some(l) => out.push(l.clone()),
            None => {},
        }
        assert(out@.map_values(|l: Vec<u8>| l@) =~= replay_lines(self.spec_visibility(), self.spec_state()));
        out
    }
}

} // verus!
