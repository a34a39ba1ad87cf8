//! What the window manager knows of a display.
use vstd::prelude::*;

verus! {

/// A connected display: its id, its origin in global coordinates and its
/// size in points.
#[derive(Debug, Clone, Copy)]
pub struct DisplayInfo {
    pub id: u32,
    pub origin: (i32, i32),
    pub size: (u32, u32),
}

/// The first display in `ds` with id `id`.
pub open spec fn display_with_id(ds: Seq<DisplayInfo>, id: u32) -> Option<DisplayInfo>
    decreases ds.len(),
{
    if ds.len() == 0 {
        None
    } else if ds[0].id == id {
        Some(ds[0])
    } else {
        display_with_id(ds.drop_first(), id)
    }
}

/// The first display in `displays` with id `id`.
pub fn find_display(displays: &[DisplayInfo], id: u32) -> (r: Option<DisplayInfo>)
    ensures
        r == display_with_id(displays@, id),
{
    let mut i: usize = 0;
    assert(displays@.skip(0) =~= displays@);
    while i < displays.len()
        invariant
            i <= displays@.len(),
            display_with_id(displays@, id) == display_with_id(displays@.skip(i as int), id),
        decreases displays@.len() - i,
    {
        assert(displays@.skip(i as int).drop_first() =~= displays@.skip(i + 1));
        assert(displays@.skip(i as int)[0] == displays@[i as int]);
        if displays[i].id == id {
            return Some(displays[i]);
        }
        i = i + 1;
    }
    None
}

/// Display reconfiguration flag: a display was added.
#[allow(non_upper_case_globals)]
pub const kCGDisplayAddFlag: u32 = 1;

/// Display reconfiguration flag: a display was removed.
#[allow(non_upper_case_globals)]
pub const kCGDisplayRemoveFlag: u32 = 2;

/// Display reconfiguration flag: a display's mode (size) changed.
#[allow(non_upper_case_globals)]
pub const kCGDisplaySetModeFlag: u32 = 8;

/// A change that a display reconfiguration reports.
#[derive(Debug, Clone, Copy, PartialEq, Eq, Structural)]
pub enum DisplayChange {
    Added(u32),
    Removed(u32),
    Resized(u32),
}

/// The changes that reconfiguration `flags` report for `display`, in the
/// order added, removed, resized.
pub open spec fn display_changes_spec(display: u32, flags: u32) -> Seq<DisplayChange> {
    let a = if flags & kCGDisplayAddFlag != 0 {
        seq![DisplayChange::Added(display)]
    } else {
        Seq::empty()
    };
    let r = if flags & kCGDisplayRemoveFlag != 0 {
        seq![DisplayChange::Removed(display)]
    } else {
        Seq::empty()
    };
    let m = if flags & kCGDisplaySetModeFlag != 0 {
        seq![DisplayChange::Resized(display)]
    } else {
        Seq::empty()
    };
    a + r + m
}

/// The changes a display reconfiguration callback reports.
pub fn display_changes(display: u32, flags: u32) -> (r: Vec<DisplayChange>)
    ensures
        r@ == display_changes_spec(display, flags),
{
    let mut out: Vec<DisplayChange> = Vec::new();
    if flags & kCGDisplayAddFlag != 0 {
        out.push(DisplayChange::Added(display));
    }
    if flags & kCGDisplayRemoveFlag != 0 {
        out.push(DisplayChange::Removed(display));
    }
    if flags & kCGDisplaySetModeFlag != 0 {
        out.push(DisplayChange::Resized(display));
    }
    assert(out@ =~= display_changes_spec(display, flags));
    out
}

} // verus!
