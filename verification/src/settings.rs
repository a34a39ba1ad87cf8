//! The daemon's settings: gaps, tile capacity, the bar and menubar tables
//! and the named workspaces with the apps routed into each.
use vstd::prelude::*;

use crate::config::BarConfig;
use crate::keybinds::{bindings_of, default_bindings, first_error, try_from_toml_value, KeybindConfig};
use crate::toml_doc::{parse_toml, toml_document, toml_error_text, toml_field, toml_get, toml_string_entries};

verus! {

/// One named workspace and the apps (bundle ids or app names, compared
/// ignoring ASCII case) whose windows are routed into it.
#[derive(Debug, Clone)]
pub struct WorkspaceEntry {
    pub name: String,
    pub apps: Vec<String>,
}

/// A workspace entry as its name and its app list.
pub open spec fn entry_view(e: WorkspaceEntry) -> (Seq<char>, Seq<Seq<char>>) {
    (e.name@, e.apps@.map_values(|a: String| a@))
}

/// The entries as names and app lists.
pub open spec fn entries_view(es: Seq<WorkspaceEntry>) -> Seq<(Seq<char>, Seq<Seq<char>>)> {
    es.map_values(|e: WorkspaceEntry| entry_view(e))
}

/// The five built-in workspaces: Development, Browsing, Notes, Music and
/// Messaging, each with the apps that belong there.
pub open spec fn default_workspaces_spec() -> Seq<(Seq<char>, Seq<Seq<char>>)> {
    seq![
            (
                "Development"@,
                seq![
                    "com.apple.dt.Xcode"@,
                    "com.googlecode.iterm2"@,
                    "com.microsoft.VSCode"@,
                    "com.apple.Terminal"@,
                    "ghostty"@,
                    "com.warp.Warp"@,
                    "Xcode"@,
                    "iTerm2"@,
                    "Code"@,
                    "Terminal"@,
                    "Ghostty"@,
                    "Warp"@,
                    "kitty"@,
                    "Alacritty"@,
                    "zed"@,
                ],
            ),
            (
                "Browsing"@,
                seq![
                    "com.apple.Safari"@,
                    "com.google.Chrome"@,
                    "org.mozilla.firefox"@,
                    "company.thebrowser.Browser"@,
                    "com.microsoft.edgemac"@,
                    "com.brave.Browser"@,
                    "Safari"@,
                    "Chrome"@,
                    "Firefox"@,
                    "Arc"@,
                    "Edge"@,
                    "Brave"@,
                    "Opera"@,
                ],
            ),
            (
                "Notes"@,
                seq![
                    "com.apple.Notes"@,
                    "md.obsidian"@,
                    "com.github.notion"@,
                    "Notes"@,
                    "Obsidian"@,
                    "Notion"@,
                ],
            ),
            (
                "Music"@,
                seq![
                    "com.apple.Music"@,
                    "com.spotify.client"@,
                    "Music"@,
                    "Spotify"@,
                ],
            ),
            (
                "Messaging"@,
                seq![
                    "com.apple.MobileSMS"@,
                    "com.apple.iChat"@,
                    "com.tinyspeck.slackmacgap"@,
                    "com.hnc.Discord"@,
                    "com.whatsapp.WhatsApp"@,
                    "com.tencent.xinWeChat"@,
                    "Messages"@,
                    "Slack"@,
                    "Discord"@,
                    "WhatsApp"@,
                    "WeChat"@,
                    "Telegram"@,
                ],
            ),
    ]
}

/// The built-in named workspaces.
pub fn default_workspaces() -> (r: Vec<WorkspaceEntry>)
    ensures
        entries_view(r@) =~~= default_workspaces_spec(),
{
    let r = vec![
            WorkspaceEntry {
                name: String::from_str("Development"),
                apps: vec![
                    String::from_str("com.apple.dt.Xcode"),
                    String::from_str("com.googlecode.iterm2"),
                    String::from_str("com.microsoft.VSCode"),
                    String::from_str("com.apple.Terminal"),
                    String::from_str("ghostty"),
                    String::from_str("com.warp.Warp"),
                    String::from_str("Xcode"),
                    String::from_str("iTerm2"),
                    String::from_str("Code"),
                    String::from_str("Terminal"),
                    String::from_str("Ghostty"),
                    String::from_str("Warp"),
                    String::from_str("kitty"),
                    String::from_str("Alacritty"),
                    String::from_str("zed"),
                ],
            },
            WorkspaceEntry {
                name: String::from_str("Browsing"),
                apps: vec![
                    String::from_str("com.apple.Safari"),
                    String::from_str("com.google.Chrome"),
                    String::from_str("org.mozilla.firefox"),
                    String::from_str("company.thebrowser.Browser"),
                    String::from_str("com.microsoft.edgemac"),
                    String::from_str("com.brave.Browser"),
                    String::from_str("Safari"),
                    String::from_str("Chrome"),
                    String::from_str("Firefox"),
                    String::from_str("Arc"),
                    String::from_str("Edge"),
                    String::from_str("Brave"),
                    String::from_str("Opera"),
                ],
            },
            WorkspaceEntry {
                name: String::from_str("Notes"),
                apps: vec![
                    String::from_str("com.apple.Notes"),
                    String::from_str("md.obsidian"),
                    String::from_str("com.github.notion"),
                    String::from_str("Notes"),
                    String::from_str("Obsidian"),
                    String::from_str("Notion"),
                ],
            },
            WorkspaceEntry {
                name: String::from_str("Music"),
                apps: vec![
                    String::from_str("com.apple.Music"),
                    String::from_str("com.spotify.client"),
                    String::from_str("Music"),
                    String::from_str("Spotify"),
                ],
            },
            WorkspaceEntry {
                name: String::from_str("Messaging"),
                apps: vec![
                    String::from_str("com.apple.MobileSMS"),
                    String::from_str("com.apple.iChat"),
                    String::from_str("com.tinyspeck.slackmacgap"),
                    String::from_str("com.hnc.Discord"),
                    String::from_str("com.whatsapp.WhatsApp"),
                    String::from_str("com.tencent.xinWeChat"),
                    String::from_str("Messages"),
                    String::from_str("Slack"),
                    String::from_str("Discord"),
                    String::from_str("WhatsApp"),
                    String::from_str("WeChat"),
                    String::from_str("Telegram"),
                ],
            },
    ];
    r
}

/// The `[menubar]` table.
#[derive(Debug, Clone)]
pub struct MenubarConfig {
    /// Whether the daemon spawns the menubar status item.
    pub enabled: bool,
}

pub fn default_true() -> (r: bool)
    ensures
        r,
{
    true
}

impl Default for MenubarConfig {
    fn default() -> (r: MenubarConfig)
        ensures
            r.enabled,
    {
        MenubarConfig { enabled: true }
    }
}

pub fn default_gap() -> (r: i32)
    ensures
        r == 10,
{
    10
}

pub fn default_gap_inner() -> (r: i32)
    ensures
        r == 5,
{
    5
}

pub fn default_max_tiles() -> (r: usize)
    ensures
        r == 4,
{
    4
}

/// The daemon's settings.
#[derive(Debug, Clone)]
pub struct Settings {
    pub gap_outer: i32,
    pub gap_inner: i32,
    pub max_tiles: usize,
    pub restricted_apps: Vec<String>,
    pub bar: BarConfig,
    pub menubar: MenubarConfig,
    /// The named workspaces created on every monitor, in order.
    pub workspaces: Vec<WorkspaceEntry>,
}

impl Default for Settings {
    fn default() -> (r: Settings)
        ensures
            r.gap_outer == 10,
            r.gap_inner == 5,
            r.max_tiles == 4,
            r.restricted_apps@.len() == 0,
            r.bar.position == crate::config::BarPosition::Top,
            r.bar.thickness == 32,
            r.bar.visible,
            !r.bar.enabled,
            r.bar.theme@ == crate::config::DEFAULT_THEME@,
            r.menubar.enabled,
            entries_view(r.workspaces@) =~~= default_workspaces_spec(),
    {
        Settings {
            gap_outer: 10,
            gap_inner: 5,
            max_tiles: 4,
            restricted_apps: Vec::new(),
            bar: BarConfig::default(),
            menubar: MenubarConfig::default(),
            workspaces: default_workspaces(),
        }
    }
}

/// A configuration file that could not be read or parsed, with the reason.
#[derive(Debug)]
pub struct ConfigError(pub String);

impl ConfigError {
    /// The reason, as the error's display text.
    pub fn message(&self) -> (r: String)
        ensures
            r@ == self.0@,
    {
        self.0.clone()
    }
}

/// The TOML document of a configuration file's text; when the text is not
/// valid TOML, an error naming the file (`origin`) with the parser's reason.
pub fn parse_config(contents: &str, origin: &str) -> (r: Result<toml::Value, ConfigError>)
    ensures
        r is Ok <==> toml_document(contents@) is Some,
        r matches Ok(v) ==> toml_document(contents@) == Some(v),
        r matches Err(e) ==> exists|reason: Seq<char>|
            e.0@ == "Failed to parse config '"@ + origin@ + "': "@ + reason,
{
    match parse_toml(contents) {
        Ok(v) => Ok(v),
        Err(e) => {
            let reason = toml_error_text(&e);
            let mut m = String::from_str("Failed to parse config '");
            m.append(origin);
            m.append("': ");
            m.append(reason.as_str());
            assert(m@ == "Failed to parse config '"@ + origin@ + "': "@ + reason@);
            Err(ConfigError(m))
        },
    }
}

/// The keybinds of a configuration document: its `keybinds` table, the
/// built-in bindings when it has none, or an error naming the file and the
/// first invalid entry.
pub fn keybinds_section(value: &toml::Value, origin: &str) -> (r: Result<KeybindConfig, ConfigError>)
    ensures
        match toml_field(*value, "keybinds"@) {
            None => r is Ok && r->Ok_0.bindings@ == default_bindings(),
            Some(kb) => match toml_string_entries(kb) {
                None => r is Ok && r->Ok_0.bindings@.len() == 0,
                Some(es) => match first_error(es) {
                    Some(m) => r is Err && r->Err_0.0@ == "Invalid [keybinds] in '"@ + origin@ + "': "@ + m,
                    None => r is Ok && r->Ok_0.bindings@ == bindings_of(es),
                },
            },
        },
{
    match toml_get(value, "keybinds") {
        Some(kb) => match try_from_toml_value(&kb) {
            Ok(k) => Ok(k),
            Err(reason) => {
                let mut m = String::from_str("Invalid [keybinds] in '");
                m.append(origin);
                m.append("': ");
                m.append(reason.as_str());
                Err(ConfigError(m))
            },
        },
        None => Ok(KeybindConfig::default()),
    }
}

} // verus!
