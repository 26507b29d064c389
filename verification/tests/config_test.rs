use nexus_de::config::{
    default_accent, default_bar_height, default_bar_position, default_blur_strength,
    default_corner_radius, default_true, AppearanceConfig, BarConfig, GeneralConfig,
    NexusConfig,
};
use nexus_de::tier::NexusTier;

#[test]
fn default_config_values() {
    let c = NexusConfig::default();
    assert_eq!(c.general.tier, NexusTier::Core);
    assert!(c.general.auto_reload);
    assert_eq!(c.appearance.accent_color, "#38BDF8");
    assert!(c.appearance.dynamic_theming);
    assert_eq!(c.appearance.wallpaper_path, None);
    assert_eq!(c.appearance.corner_radius, 14);
    assert_eq!(c.appearance.blur_strength, 20);
    assert_eq!(c.bar.position, "top");
    assert_eq!(c.bar.height, 44);
    assert!(c.bar.show_workspaces && c.bar.show_tray && c.bar.show_clock);
    assert_eq!(c.general, GeneralConfig::default());
    assert_eq!(c.appearance, AppearanceConfig::default());
    assert_eq!(c.bar, BarConfig::default());
}

#[test]
fn default_field_functions() {
    assert!(default_true());
    assert_eq!(default_accent(), "#38BDF8");
    assert_eq!(default_corner_radius(), 14);
    assert_eq!(default_blur_strength(), 20);
    assert_eq!(default_bar_position(), "top");
    assert_eq!(default_bar_height(), 44);
}

#[test]
fn config_path_below_home() {
    assert_eq!(
        NexusConfig::default_config_path(Some("/home/ada")),
        "/home/ada/.config/nexus/config.toml"
    );
    assert_eq!(
        NexusConfig::default_config_path(Some("/home/ada/")),
        "/home/ada/.config/nexus/config.toml"
    );
    assert_eq!(NexusConfig::default_config_path(Some("")), ".config/nexus/config.toml");
}

#[test]
fn config_path_without_home() {
    assert_eq!(NexusConfig::default_config_path(None), "./.config/nexus/config.toml");
}
