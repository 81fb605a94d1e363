use tileboard::app::{App, Candidate, Effect, KeyCode, KeyPress, Modal, MouseEvent, MouseKind};
use tileboard::config::Config;
use tileboard::theme::{self, Theme};
use tileboard::grid::Rect;
use tileboard::tiles::Registry;

fn aspect(width: u16, height: u16) -> u64 {
    (f64::from(width) / f64::from(height.max(1))).to_bits()
}

fn resized(app: &mut App, width: u16, height: u16) {
    app.resize(Rect::new(0, 0, width, height), aspect(width, height));
}

fn key(app: &mut App, code: KeyCode) -> Effect {
    app.handle_key(KeyPress::plain(code), 0)
}

fn control(app: &mut App, c: char) -> Effect {
    app.handle_key(
        KeyPress {
            code: KeyCode::Char(c),
            shift: false,
            control: true,
            alt: false,
        },
        0,
    )
}

fn app() -> App {
    let mut app = App::new(Config::default(), Registry::builtin(), 0);
    resized(&mut app, 120, 32);
    key(&mut app, KeyCode::Char('e'));
    app
}

fn kind_index(app: &App, kind: &str) -> usize {
    app.registry.list().iter().position(|d| d.kind == kind).unwrap()
}

fn mouse(app: &mut App, kind: MouseKind, column: u16, row: u16) {
    app.handle_mouse(MouseEvent { kind, column, row }, 0);
}

#[test]
fn packed_grid_swaps_preview_both_slots_and_undo_as_one_edit() {
    let mut app = app();
    let original = app.config.clone();
    assert!(app.config.profiles[0].free_slot().is_none());
    key(&mut app, KeyCode::Right);
    assert!(matches!(app.candidate, Some(Candidate::Swap(2))));
    assert_eq!(app.placement_preview().unwrap().len(), 2);
    assert!(app.config.same(&original));
    key(&mut app, KeyCode::Enter);
    assert_eq!(
        app.config.profiles[0].tiles[0].placement,
        original.profiles[0].tiles[2].placement
    );
    assert_eq!(
        app.config.profiles[0].tiles[2].placement,
        original.profiles[0].tiles[0].placement
    );
    assert!(app.config.validate(&app.registry).is_ok());
    key(&mut app, KeyCode::Char('u'));
    assert!(app.config.same(&original));
}

#[test]
fn arrow_preview_can_traverse_a_packed_row_and_return_to_origin() {
    let mut app = app();
    key(&mut app, KeyCode::Right);
    key(&mut app, KeyCode::Left);
    assert_eq!(
        app.placement_preview().unwrap()[0].1,
        app.config.profiles[0].tiles[0].placement
    );
    key(&mut app, KeyCode::Right);
    key(&mut app, KeyCode::Right);
    assert!(matches!(app.candidate, Some(Candidate::Swap(1))));
    key(&mut app, KeyCode::Right);
    assert!(!app.candidate_valid());
    key(&mut app, KeyCode::Esc);
    assert!(!app.is_dirty());
}

#[test]
fn dragging_across_multiple_occupied_tiles_targets_the_drop_slot() {
    let mut app = app();
    let original = app.config.clone();
    let start = app.tile_rect(original.profiles[0].tiles[0].placement);
    let end = app.tile_rect(original.profiles[0].tiles[5].placement);
    mouse(&mut app, MouseKind::Down, start.x + 2, start.y + 1);
    mouse(&mut app, MouseKind::Drag, end.x + 2, end.y + 1);
    mouse(&mut app, MouseKind::Up, end.x + 2, end.y + 1);
    assert_eq!(
        app.config.profiles[0].tiles[0].placement,
        original.profiles[0].tiles[5].placement
    );
    assert_eq!(
        app.config.profiles[0].tiles[5].placement,
        original.profiles[0].tiles[0].placement
    );
    assert!(app.config.validate(&app.registry).is_ok());
}

#[test]
fn replace_in_a_full_grid_preserves_slot_and_is_undoable() {
    let mut app = app();
    let original = app.config.clone();
    key(&mut app, KeyCode::Char('r'));
    let index = kind_index(&app, "weather");
    for _ in 0..index {
        key(&mut app, KeyCode::Down);
    }
    key(&mut app, KeyCode::Enter);
    let tile = &app.config.profiles[0].tiles[0];
    assert_eq!(tile.kind, "weather");
    assert_eq!(tile.placement, original.profiles[0].tiles[0].placement);
    assert_eq!(tile.refresh_ms, None);
    assert_eq!(app.config.profiles[0].tiles.len(), 6);
    assert!(app.config.validate(&app.registry).is_ok());
    key(&mut app, KeyCode::Char('u'));
    assert!(app.config.same(&original));
}

#[test]
fn resize_collision_does_not_change_layout_and_cancel_restores_session() {
    let mut app = app();
    let original = app.config.clone();
    key(&mut app, KeyCode::Char('l'));
    assert!(!app.candidate_valid());
    key(&mut app, KeyCode::Enter);
    assert!(app.config.same(&original));
    assert!(app.status.starts_with("Blocked"));
    key(&mut app, KeyCode::Esc);
    key(&mut app, KeyCode::Char('h'));
    assert!(app.candidate_valid());
    key(&mut app, KeyCode::Enter);
    assert_eq!(app.config.profiles[0].tiles[0].placement.column_span, 1);
    key(&mut app, KeyCode::Char('u'));
    assert!(app.config.same(&original));
    key(&mut app, KeyCode::Char('d'));
    assert_eq!(app.config.profiles[0].tiles.len(), 5);
    key(&mut app, KeyCode::Esc);
    assert!(!app.editing);
    assert!(app.config.same(&original));
}

#[test]
fn mouse_resize_and_swap_keep_layout_valid() {
    let mut app = app();
    let rect = app.tile_rect(app.config.profiles[0].tiles[0].placement);
    mouse(&mut app, MouseKind::Down, rect.right() - 1, rect.bottom() - 1);
    mouse(&mut app, MouseKind::Drag, rect.right() - 22, rect.bottom() - 1);
    mouse(&mut app, MouseKind::Up, rect.right() - 22, rect.bottom() - 1);
    assert_eq!(app.config.profiles[0].tiles[0].placement.column_span, 1);
    assert!(app.config.validate(&app.registry).is_ok());
    let before = app.config.clone();
    mouse(&mut app, MouseKind::Down, rect.x + 1, rect.y + 1);
    mouse(&mut app, MouseKind::Drag, rect.x + 60, rect.y + 1);
    mouse(&mut app, MouseKind::Up, rect.x + 60, rect.y + 1);
    assert!(app.candidate.is_none());
    assert_eq!(
        app.config.profiles[0].tiles[0].placement,
        before.profiles[0].tiles[2].placement
    );
    assert_eq!(
        app.config.profiles[0].tiles[2].placement,
        before.profiles[0].tiles[0].placement
    );
    assert!(app.config.validate(&app.registry).is_ok());
}

#[test]
fn undo_returns_to_the_profile_and_tile_that_changed() {
    let mut app = app();
    key(&mut app, KeyCode::Char('h'));
    key(&mut app, KeyCode::Enter);
    assert!(app.is_dirty());
    key(&mut app, KeyCode::Char('p'));
    assert_eq!(app.profile, 1);
    key(&mut app, KeyCode::Char('u'));
    assert_eq!(app.profile, 0);
    assert_eq!(app.selected, 0);
    assert!(!app.is_dirty());
}

#[test]
fn add_settings_and_delete_are_undoable() {
    let mut app = app();
    key(&mut app, KeyCode::Char('d'));
    key(&mut app, KeyCode::Char('a'));
    let clock = kind_index(&app, "clock");
    for _ in 0..clock {
        key(&mut app, KeyCode::Down);
    }
    key(&mut app, KeyCode::Enter);
    assert_eq!(app.config.profiles[0].tiles.len(), 6);
    assert_eq!(app.config.profiles[0].tiles[app.selected].kind, "clock");
    assert_eq!(app.config.profiles[0].tiles[app.selected].id, "clock-1");
    key(&mut app, KeyCode::Char('t'));
    control(&mut app, 'u');
    for c in "My clock".chars() {
        key(&mut app, KeyCode::Char(c));
    }
    assert!(matches!(key(&mut app, KeyCode::Enter), Effect::ApplySettings));
    app.apply_settings(&vec![None], 0);
    assert_eq!(app.config.profiles[0].tiles[app.selected].title, "My clock");
    key(&mut app, KeyCode::Char('u'));
    assert_eq!(app.config.profiles[0].tiles[app.selected].title, "Local time");
}

#[test]
fn new_tile_fits_readably_and_bad_settings_leave_original_intact() {
    let mut app = app();
    key(&mut app, KeyCode::Char('d'));
    key(&mut app, KeyCode::Char('a'));
    let index = kind_index(&app, "network");
    for _ in 0..index {
        key(&mut app, KeyCode::Down);
    }
    key(&mut app, KeyCode::Enter);
    let tile = app.config.profiles[0].tiles[app.selected].clone();
    assert_eq!(tile.kind, "network");
    let area = app.tile_rect(tile.placement);
    assert!(area.width >= 12 && area.height >= 4);
    key(&mut app, KeyCode::Char('t'));
    key(&mut app, KeyCode::Tab);
    control(&mut app, 'u');
    app.paste("invalid-color");
    assert!(matches!(key(&mut app, KeyCode::Enter), Effect::ApplySettings));
    app.apply_settings(&vec![None], 0);
    assert!(matches!(app.modal, Some(Modal::Settings { .. })));
    assert!(app.status.contains("Invalid settings"));
    assert_eq!(app.config.profiles[0].tiles[app.selected].accent, tile.accent);
}

#[test]
fn accent_field_cycles_colors_and_refresh_must_be_whole_milliseconds() {
    let mut app = app();
    key(&mut app, KeyCode::Char('t'));
    key(&mut app, KeyCode::Tab);
    key(&mut app, KeyCode::Right);
    let Some(Modal::Settings { fields, .. }) = &app.modal else {
        panic!("settings were not opened");
    };
    assert_eq!(fields[1].1, "magenta");
    key(&mut app, KeyCode::BackTab);
    key(&mut app, KeyCode::BackTab);
    control(&mut app, 'u');
    app.paste("fast");
    key(&mut app, KeyCode::Enter);
    app.apply_settings(&vec![], 0);
    assert_eq!(app.status, "Refresh must be a whole number of milliseconds");
    assert!(matches!(app.modal, Some(Modal::Settings { .. })));
}

#[test]
fn editing_keys_report_their_effects() {
    let mut app = App::new(Config::default(), Registry::builtin(), 0);
    resized(&mut app, 120, 32);
    assert!(matches!(key(&mut app, KeyCode::Char('r')), Effect::Reload));
    key(&mut app, KeyCode::Char('e'));
    assert!(app.editing);
    key(&mut app, KeyCode::Right);
    assert!(matches!(key(&mut app, KeyCode::Char('s')), Effect::Nothing));
    assert!(app.status.starts_with("Apply the preview"));
    key(&mut app, KeyCode::Esc);
    assert!(matches!(key(&mut app, KeyCode::Char('s')), Effect::Save));
    app.finish_save(Ok(()), "layout.toml", 0);
    assert!(!app.editing);
    assert_eq!(app.status, "Saved layout.toml");
    control(&mut app, 'c');
    assert!(app.quit);
}

#[test]
fn theme_changes_are_undoable_and_help_scrolls() {
    let mut app = app();
    key(&mut app, KeyCode::Char('c'));
    assert_eq!(app.config.theme.name(), "amber");
    assert_eq!(app.status, "Theme: amber · s to save");
    key(&mut app, KeyCode::Char('u'));
    assert_eq!(app.config.theme.name(), "slate");
    key(&mut app, KeyCode::Char('?'));
    for _ in 0..50 {
        key(&mut app, KeyCode::Down);
    }
    assert!(matches!(app.modal, Some(Modal::Help { scroll: 37 })));
    key(&mut app, KeyCode::PageUp);
    assert!(matches!(app.modal, Some(Modal::Help { scroll: 32 })));
    key(&mut app, KeyCode::Esc);
    assert!(app.modal.is_none());
    assert_eq!(app.status, "Dialog closed · ? for help");
}

#[test]
fn success_notices_expire_but_errors_remain_visible() {
    let mut app = App::new(Config::default(), Registry::builtin(), 0);
    resized(&mut app, 120, 32);
    assert_eq!(app.visible_status(0), "");
    app.status = "Saved config.toml".into();
    assert!(app.visible_status(1000).starts_with("Saved"));
    assert_eq!(app.visible_status(5000), "");
    app.status = "Save failed: read-only directory".into();
    app.visible_status(1000);
    assert!(app.visible_status(61000).starts_with("Save failed"));
}

#[test]
fn settings_validate_persist_and_cancel_interval_changes() {
    let mut app = app();
    let original = app.config.clone();
    key(&mut app, KeyCode::Char('t'));
    key(&mut app, KeyCode::BackTab);
    control(&mut app, 'u');
    app.paste("0");
    key(&mut app, KeyCode::Enter);
    app.apply_settings(&vec![], 0);
    assert!(app.status.contains("250..86400000"));
    assert!(app.config.same(&original));
    control(&mut app, 'u');
    app.paste("5000");
    key(&mut app, KeyCode::Enter);
    app.apply_settings(&vec![], 0);
    assert_eq!(app.config.profiles[0].tiles[0].refresh_ms, Some(5000));
    assert_eq!(app.schedule.states[0][0].interval, 5000);
    assert!(matches!(key(&mut app, KeyCode::Char('s')), Effect::Save));
    assert_eq!(app.config.profiles[0].tiles[0].refresh_ms, Some(5000));
    key(&mut app, KeyCode::Esc);
    assert!(app.config.same(&original));
    assert_eq!(app.schedule.states[0][0].interval, 1000);
}

#[test]
fn editing_pins_profile_until_saved_then_resumes_responsiveness() {
    let mut app = app();
    resized(&mut app, 50, 30);
    assert_eq!(app.profile, 0);
    key(&mut app, KeyCode::Char('h'));
    key(&mut app, KeyCode::Enter);
    assert!(matches!(key(&mut app, KeyCode::Char('s')), Effect::Save));
    let saved = app.config.clone();
    app.finish_save(Ok(()), "config.toml", 0);
    assert!(!app.editing);
    assert_eq!(app.config.profiles[app.profile].name, "small");
    assert_eq!(saved.profiles[0].tiles[0].placement.column_span, 1);
    assert_eq!(saved.profiles[3].tiles[0].placement.column_span, 2);
}

#[test]
fn unequal_spans_exchange_slots_preserving_settings_and_save_cancel() {
    let mut config = Config::default();
    let mut cpu = config.profiles[0].tiles[0].clone();
    cpu.placement.column_span = 4;
    cpu.title = "Processor".into();
    let clock = config.profiles[0].tiles[1].clone();
    config.profiles[0].tiles = vec![cpu, clock];
    let mut app = App::new(config.clone(), Registry::builtin(), 0);
    resized(&mut app, 120, 40);
    key(&mut app, KeyCode::Char('e'));
    key(&mut app, KeyCode::Right);
    assert!(matches!(app.candidate, Some(Candidate::Swap(1))));
    key(&mut app, KeyCode::Enter);
    assert_eq!(app.config.profiles[0].tiles[0].placement, config.profiles[0].tiles[1].placement);
    assert_eq!(app.config.profiles[0].tiles[1].placement, config.profiles[0].tiles[0].placement);
    assert_eq!(app.config.profiles[0].tiles[0].kind, "cpu");
    assert_eq!(app.config.profiles[0].tiles[0].title, "Processor");
    assert!(app.config.validate(&app.registry).is_ok());
    key(&mut app, KeyCode::Esc);
    assert!(app.config.same(&config));
    key(&mut app, KeyCode::Char('e'));
    key(&mut app, KeyCode::Right);
    key(&mut app, KeyCode::Enter);
    assert!(matches!(key(&mut app, KeyCode::Char('s')), Effect::Save));
    let saved = app.config.clone();
    app.finish_save(Ok(()), "layout.toml", 0);
    assert!(app.config.same(&saved));
    assert!(!app.config.same(&config));
}

#[test]
fn theme_changes_are_visible_undoable_and_saved_as_configuration() {
    let mut app = App::new(Config::default(), Registry::builtin(), 0);
    resized(&mut app, 120, 32);
    key(&mut app, KeyCode::Char('e'));
    key(&mut app, KeyCode::Char('c'));
    assert_eq!(app.config.theme, Theme::Amber);
    assert_eq!(app.config.theme.color(theme::BACKGROUND), 0x181614);
    key(&mut app, KeyCode::Char('c'));
    assert_eq!(app.config.theme, Theme::Mono);
    key(&mut app, KeyCode::Char('u'));
    assert_eq!(app.config.theme, Theme::Amber);
    key(&mut app, KeyCode::Esc);
    assert_eq!(app.config.theme, Theme::Slate);
}

#[test]
fn default_profiles_keep_readable_tiles_across_supported_terminal_shapes() {
    let mut app = App::new(Config::default(), Registry::builtin(), 0);
    for (width, height, profile) in [
        (120, 32, "wide"),
        (80, 24, "compact"),
        (58, 28, "small"),
        (38, 40, "tall"),
        (120, 12, "short"),
        (38, 16, "minimal"),
        (26, 10, "minimal"),
    ] {
        resized(&mut app, width, height);
        let shown = &app.config.profiles[app.profile];
        assert_eq!(shown.name, profile);
        for tile in &shown.tiles {
            let minimum = app.registry.get(&tile.kind).unwrap().minimum_size;
            let rect = app.tile_rect(tile.placement);
            assert!(rect.width >= minimum.0 && rect.height >= minimum.1, "Unreadable tile at {width}x{height}");
        }
    }
}

#[test]
fn added_tiles_take_the_first_free_numbered_id() {
    let mut config = Config::default();
    let mut cpu = config.profiles[0].tiles[0].clone();
    cpu.id = "cpu-1".into();
    config.profiles[0].tiles = vec![cpu];
    let mut app = App::new(config, Registry::builtin(), 0);
    resized(&mut app, 120, 32);
    key(&mut app, KeyCode::Char('e'));
    key(&mut app, KeyCode::Char('a'));
    for _ in 0..kind_index(&app, "cpu") {
        key(&mut app, KeyCode::Down);
    }
    key(&mut app, KeyCode::Enter);
    let tiles = &app.config.profiles[0].tiles;
    assert_eq!(tiles.len(), 2);
    assert_eq!(tiles[1].id, "cpu-2");
    assert_eq!(tiles[1].kind, "cpu");
    assert_eq!(app.selected, 1);
}

#[test]
fn reloading_keeps_the_dashboard_when_the_file_is_refused() {
    let mut app = App::new(Config::default(), Registry::builtin(), 0);
    resized(&mut app, 120, 32);
    assert!(matches!(key(&mut app, KeyCode::Char('r')), Effect::Reload));
    let mut refused = Config::default();
    refused.version = 2;
    app.finish_reload(Ok(refused), 0);
    assert_eq!(app.status, "Reload failed: Unsupported config version 2");
    assert_eq!(app.config.version, 1);
    app.finish_reload(Err("Invalid TOML configuration".into()), 0);
    assert_eq!(app.status, "Reload failed: Invalid TOML configuration");
    let mut narrow = Config::default();
    narrow.profiles[0].name = "broad".into();
    app.finish_reload(Ok(narrow), 0);
    assert_eq!(app.status, "Configuration reloaded");
    assert_eq!(app.config.profiles[0].name, "broad");
}
