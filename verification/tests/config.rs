use tileboard::config::{automatic_default, default_accent, is_automatic, Config, ConfigError, OptionValue, TileOption};
use tileboard::grid::Placement;
use tileboard::theme::Theme;
use tileboard::tiles::{Registry, TileError};

fn aspect(width: u16, height: u16) -> u64 {
    (f64::from(width) / f64::from(height.max(1))).to_bits()
}

#[test]
fn profiles_obey_width_height_aspect_and_order() {
    let mut config = Config::default();
    assert_eq!(config.profile_for(110, 30, aspect(110, 30)), 0);
    assert_eq!(config.profile_for(109, 30, aspect(109, 30)), 1);
    assert_eq!(config.profile_for(69, 30, aspect(69, 30)), 3);
    assert_eq!(config.profile_for(50, 40, aspect(50, 40)), 2);
    config.profiles[0].min_height = 40;
    assert_eq!(config.profile_for(120, 30, aspect(120, 30)), 1);
    config.profiles[0].min_aspect = Some(4.0f64.to_bits());
    assert_eq!(config.profile_for(120, 40, aspect(120, 40)), 1);
    assert_eq!(config.profile_for(160, 40, aspect(160, 40)), 0);
}

#[test]
fn printed_defaults_are_valid() {
    let config = Config::default();
    assert!(config.validate(&Registry::builtin()).is_ok());
    assert_eq!(config.profiles.len(), 6);
    assert!(matches!(config.theme, Theme::Slate));
    let names: Vec<&str> = config.profiles.iter().map(|p| p.name.as_str()).collect();
    assert_eq!(names, ["wide", "compact", "tall", "small", "short", "minimal"]);
}

#[test]
fn invalid_configurations_name_their_first_problem() {
    let registry = Registry::builtin();
    let mut overlapping = Config::default();
    overlapping.profiles[0].tiles[1].placement.column = 0;
    assert!(matches!(overlapping.validate(&registry), Err(ConfigError::TilePlacement(0, 0))));

    let mut duplicate = Config::default();
    duplicate.profiles[1].name = "wide".into();
    assert!(matches!(duplicate.validate(&registry), Err(ConfigError::ProfileName(1))));

    let mut fallback = Config::default();
    fallback.profiles[5].min_width = 10;
    assert!(matches!(fallback.validate(&registry), Err(ConfigError::Fallback)));

    let mut pinned = Config::default();
    pinned.active_profile = Some("missing".into());
    assert!(matches!(pinned.validate(&registry), Err(ConfigError::ActiveProfile)));

    let mut version = Config::default();
    version.version = 2;
    assert!(matches!(version.validate(&registry), Err(ConfigError::Version)));

    let mut grid = Config::default();
    grid.profiles[2].columns = 65;
    assert!(matches!(grid.validate(&registry), Err(ConfigError::GridSize(2))));

    let mut refresh = Config::default();
    refresh.profiles[0].tiles[0].refresh_ms = Some(100);
    assert!(matches!(refresh.validate(&registry), Err(ConfigError::Tile(0, 0, TileError::RefreshRange))));

    let mut option = Config::default();
    option.profiles[0].tiles[0].options.push(TileOption {
        key: "bogus".into(),
        value: OptionValue::Text("x".into(), None),
    });
    assert!(matches!(option.validate(&registry), Err(ConfigError::Tile(0, 0, TileError::UnknownOption(0)))));
}

#[test]
fn free_slots_are_found_in_reading_order() {
    let mut config = Config::default();
    assert!(config.profiles[0].free_slot().is_none());
    config.profiles[0].tiles.remove(2);
    assert_eq!(
        config.profiles[0].free_slot(),
        Some(Placement { column: 2, row: 0, column_span: 1, row_span: 1 })
    );
    assert!(config.profiles[0].can_place(None, Placement { column: 2, row: 0, column_span: 2, row_span: 2 }));
    assert!(!config.profiles[0].can_place(None, Placement { column: 1, row: 0, column_span: 2, row_span: 2 }));
    assert!(config.profiles[0].can_place(Some(0), Placement { column: 1, row: 0, column_span: 2, row_span: 2 }));
}

#[test]
fn a_pinned_profile_wins_over_the_terminal_size() {
    let mut config = Config::default();
    config.active_profile = Some("minimal".into());
    assert_eq!(config.selected_profile(200, 60, aspect(200, 60)), 5);
    config.active_profile = Some("gone".into());
    assert_eq!(config.selected_profile(200, 60, aspect(200, 60)), 0);
}

#[test]
fn serialization_defaults_fill_missing_entries() {
    assert_eq!(default_accent(), "cyan");
    assert!(automatic_default());
    assert!(is_automatic(&true));
    assert!(!is_automatic(&false));
}

#[test]
fn refusals_name_the_version_profile_tile_and_option() {
    let registry = Registry::builtin();
    let mut version = Config::default();
    version.version = 2;
    let e = version.validate(&registry).unwrap_err();
    assert_eq!(e.message(&version), "Unsupported config version 2");

    let mut grid = Config::default();
    grid.profiles[2].columns = 65;
    let e = grid.validate(&registry).unwrap_err();
    assert_eq!(e.message(&grid), "Profile tall: grid dimensions must be 1..64");

    let mut overlapping = Config::default();
    overlapping.profiles[0].tiles[1].placement.column = 0;
    let e = overlapping.validate(&registry).unwrap_err();
    assert_eq!(e.message(&overlapping), "Profile wide: tile cpu overlaps or is outside the grid");

    let mut option = Config::default();
    option.profiles[0].tiles[0].options.push(TileOption {
        key: "bogus".into(),
        value: OptionValue::Text("x".into(), None),
    });
    let e = option.validate(&registry).unwrap_err();
    assert_eq!(e.message(&option), "Profile wide, tile cpu: Unknown option: bogus");

    let mut fallback = Config::default();
    fallback.profiles[5].min_width = 10;
    let e = fallback.validate(&registry).unwrap_err();
    assert_eq!(e.message(&fallback), e.text());
}

#[test]
fn an_option_set_twice_is_refused_and_named() {
    let registry = Registry::builtin();
    let mut config = Config::default();
    let tile = &mut config.profiles[0].tiles[0];
    tile.kind = "clock".into();
    tile.refresh_ms = None;
    tile.options = vec![
        TileOption { key: "format".into(), value: OptionValue::Text("%H:%M".into(), None) },
        TileOption { key: "format".into(), value: OptionValue::Text("%H".into(), None) },
    ];
    let error = config.validate(&registry).unwrap_err();
    assert!(matches!(error, ConfigError::Tile(0, 0, TileError::DuplicateOption(1))));
    assert!(error.message(&config).ends_with("Option format is set twice"));
    config.profiles[0].tiles[0].options.pop();
    assert!(config.validate(&registry).is_ok());
}
