use vstd::prelude::*;
use crate::text::{join_path, path_join};
use crate::tier::NexusTier;

verus! {

/// Root NEXUS configuration, stored in `~/.config/nexus/config.toml`.
#[derive(Debug, Clone, PartialEq)]
pub struct NexusConfig {
    pub general: GeneralConfig,
    pub appearance: AppearanceConfig,
    pub bar: BarConfig,
}

/// General settings: the active tier and whether the config file is watched.
#[derive(Debug, Clone, PartialEq)]
pub struct GeneralConfig {
    pub tier: NexusTier,
    pub auto_reload: bool,
}

/// Appearance settings.
#[derive(Debug, Clone, PartialEq)]
pub struct AppearanceConfig {
    pub accent_color: String,
    pub dynamic_theming: bool,
    pub wallpaper_path: Option<String>,
    pub corner_radius: u32,
    pub blur_strength: u32,
}

/// Top bar settings.
#[derive(Debug, Clone, PartialEq)]
pub struct BarConfig {
    pub position: String,
    pub height: u32,
    pub show_workspaces: bool,
    pub show_tray: bool,
    pub show_clock: bool,
}

/// The default general settings: the Core tier, reloading on change.
pub open spec fn is_default_general(g: GeneralConfig) -> bool {
    &&& g.tier == NexusTier::Core
    &&& g.auto_reload
}

/// The default appearance: sky-blue accent, dynamic theming, no wallpaper,
/// corner radius 14 and blur strength 20.
pub open spec fn is_default_appearance(a: AppearanceConfig) -> bool {
    &&& a.accent_color@ == "#38BDF8"@
    &&& a.dynamic_theming
    &&& a.wallpaper_path is None
    &&& a.corner_radius == 14
    &&& a.blur_strength == 20
}

/// The default bar: at the top, 44 pixels high, showing workspaces, tray and clock.
pub open spec fn is_default_bar(b: BarConfig) -> bool {
    &&& b.position@ == "top"@
    &&& b.height == 44
    &&& b.show_workspaces
    &&& b.show_tray
    &&& b.show_clock
}

/// Where the configuration file lives below a home directory.
pub open spec fn config_path_for(home: Option<Seq<char>>) -> Seq<char> {
    let base = match home {
        Some(h) => h,
        None => "."@,
    };
    path_join(base, ".config/nexus/config.toml"@)
}

/// The value of switches that are on unless the file says otherwise.
pub fn default_true() -> (res: bool)
    ensures
        res,
{
    true
}

/// The default accent colour: sky blue.
pub fn default_accent() -> (res: String)
    ensures
        res@ == "#38BDF8"@,
{
    "#38BDF8".to_owned()
}

/// The default window corner radius.
pub fn default_corner_radius() -> (res: u32)
    ensures
        res == 14,
{
    14
}

/// The default blur strength.
pub fn default_blur_strength() -> (res: u32)
    ensures
        res == 20,
{
    20
}

/// The default bar position.
pub fn default_bar_position() -> (res: String)
    ensures
        res@ == "top"@,
{
    "top".to_owned()
}

/// The default bar height.
pub fn default_bar_height() -> (res: u32)
    ensures
        res == 44,
{
    44
}

impl Default for GeneralConfig {
    fn default() -> (res: Self)
        ensures
            is_default_general(res),
    {
        GeneralConfig { tier: NexusTier::Core, auto_reload: true }
    }
}

impl Default for AppearanceConfig {
    fn default() -> (res: Self)
        ensures
            is_default_appearance(res),
    {
        AppearanceConfig {
            accent_color: default_accent(),
            dynamic_theming: true,
            wallpaper_path: None,
            corner_radius: default_corner_radius(),
            blur_strength: default_blur_strength(),
        }
    }
}

impl Default for BarConfig {
    fn default() -> (res: Self)
        ensures
            is_default_bar(res),
    {
        BarConfig {
            position: default_bar_position(),
            height: default_bar_height(),
            show_workspaces: true,
            show_tray: true,
            show_clock: true,
        }
    }
}

impl Default for NexusConfig {
    fn default() -> (res: Self)
        ensures
            is_default_general(res.general),
            is_default_appearance(res.appearance),
            is_default_bar(res.bar),
    {
        NexusConfig {
            general: GeneralConfig::default(),
            appearance: AppearanceConfig::default(),
            bar: BarConfig::default(),
        }
    }
}

impl NexusConfig {
    /// The user's configuration file: `.config/nexus/config.toml` below the home
    /// directory, or below `.` when the home directory is not known.
    pub fn default_config_path(home: Option<&str>) -> (res: String)
        ensures
            res@ == config_path_for(
                match home {
                    Some(h) => Some(h@),
                    None => None,
                },
            ),
    {
        match home {
            Some(h) => join_path(h, ".config/nexus/config.toml"),
            None => join_path(".", ".config/nexus/config.toml"),
        }
    }
}

} // verus!
