//! The `[bar]` configuration shared by the daemon (geometry and spawning)
//! and the status bar (rendering), with its defaults.
use vstd::prelude::*;

verus! {

/// Which edge of the display the bar strip occupies.
#[derive(Debug, Clone, Copy, PartialEq, Eq, Structural)]
pub enum BarPosition {
    Top,
    Bottom,
    Left,
    Right,
}

impl Default for BarPosition {
    fn default() -> (r: BarPosition)
        ensures
            r == BarPosition::Top,
    {
        BarPosition::Top
    }
}

/// The theme used when the configuration names none.
pub const DEFAULT_THEME: &'static str = "tokyo-night";

/// The `[bar.colors]` table: colour strings that replace the theme's
/// colours, each when it is a valid colour. (Its font size, a float, is
/// read by the bar itself.)
#[derive(Debug, Clone)]
pub struct ColorOverrides {
    pub background: Option<String>,
    pub foreground: Option<String>,
    pub accent: Option<String>,
    pub inactive: Option<String>,
    pub border: Option<String>,
}

/// The `[bar]` table: where the strip sits, how thick it is, whether it is
/// shown and spawned at all, its theme and colour overrides. (Its corner
/// radius, a float, is read by the bar itself.)
#[derive(Debug, Clone)]
pub struct BarConfig {
    pub position: BarPosition,
    pub thickness: i32,
    pub visible: bool,
    /// Whether the daemon spawns the bar process at startup at all.
    pub enabled: bool,
    pub theme: String,
    pub colors: Option<ColorOverrides>,
}

pub fn default_position() -> (r: BarPosition)
    ensures
        r == BarPosition::Top,
{
    BarPosition::Top
}

pub fn default_thickness() -> (r: i32)
    ensures
        r == 32,
{
    32
}

pub fn default_true() -> (r: bool)
    ensures
        r,
{
    true
}

pub fn default_theme() -> (r: String)
    ensures
        r@ == DEFAULT_THEME@,
{
    String::from_str(DEFAULT_THEME)
}

impl Default for BarConfig {
    /// A visible top strip of 32 points, not spawned, in the default theme
    /// with no colour overrides.
    fn default() -> (r: BarConfig)
        ensures
            r.position == BarPosition::Top,
            r.thickness == 32,
            r.visible,
            !r.enabled,
            r.theme@ == DEFAULT_THEME@,
            r.colors is None,
    {
        BarConfig {
            position: BarPosition::Top,
            thickness: 32,
            visible: true,
            enabled: false,
            theme: String::from_str(DEFAULT_THEME),
            colors: None,
        }
    }
}

} // verus!
