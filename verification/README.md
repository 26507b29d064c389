# nexus-de

Core logic of the NEXUS desktop environment, verified with Verus.

- `src/tier.rs` — the three operating tiers, their identifiers, labels and feature switches.
- `src/config.rs` — the configuration schema, its defaults and the config file location.
- `src/theme.rs` — palettes: reading hex colour text, writing `#RRGGBB` and `rgba(..)`
  colours, assembling a palette from its tones, choosing the startup palette, decoding a
  wallpaper into its 64x64 thumbnail, CSS and Hyprland exports.
- `src/wallpaper.rs` — bucket quantization and the dominant colour of weighted samples.
- `src/watch.rs` — when a file-system event reloads the configuration.
- `src/metrics.rs` — memory sizes in mebibytes.
- `src/hyprland.rs` — Hyprland socket paths, dispatch commands and JSON replies.
- `src/dbus.rs` — the daemon's D-Bus names.
- `src/text.rs` — text helpers shared by the above (trimming, UTF-8 lengths, path joining).

`app/` is the daemon around the library: environment and file I/O, TOML and JSON
serialization, the HSL colour math (floating point), system metrics, the file watcher,
the D-Bus service and the GTK settings window (`--settings`).
