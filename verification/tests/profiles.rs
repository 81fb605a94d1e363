use tileboard::app::{optional_field, parse_field, parse_flag, switch_write, App, Effect, KeyCode, KeyPress, Modal, StoredFile};
use tileboard::config::Config;
use tileboard::grid::Rect;
use tileboard::tiles::Registry;

fn aspect(width: u16, height: u16) -> u64 {
    (f64::from(width) / f64::from(height.max(1))).to_bits()
}

fn resized(app: &mut App, width: u16, height: u16) {
    app.resize(Rect::new(0, 0, width, height), aspect(width, height));
}

fn number(text: &str) -> Result<Option<u64>, ()> {
    let text = text.trim();
    if text.is_empty() {
        Ok(None)
    } else {
        text.parse::<f64>().map(|v| Some(v.to_bits())).map_err(|_| ())
    }
}

/// Presses a key and carries out what it asks for, as the dashboard does.
fn key(app: &mut App, code: KeyCode) {
    press(app, KeyPress::plain(code));
}

fn press(app: &mut App, key: KeyPress) {
    match app.handle_key(key, 0) {
        Effect::Switch(config) => app.finish_switch(config, Ok(())),
        Effect::Save => app.finish_save(Ok(()), "config.toml", 0),
        Effect::ProfileSettings => {
            let profile = &app.config.profiles[app.profile];
            let text = |v: Option<u64>| v.map(|b| f64::from_bits(b).to_string()).unwrap_or_default();
            let (min, max) = (text(profile.min_aspect), text(profile.max_aspect));
            app.open_profile_settings(min, max);
        }
        Effect::ApplyProfileSettings => {
            let Some(Modal::ProfileSettings { fields, .. }) = &app.modal else {
                panic!("profile settings were not open");
            };
            let (min, max) = (number(&fields[8].1), number(&fields[9].1));
            app.apply_profile_settings(min, max, 0);
        }
        _ => {}
    }
}

fn replace_field(app: &mut App, value: &str) {
    press(
        app,
        KeyPress {
            code: KeyCode::Char('u'),
            shift: false,
            control: true,
            alt: false,
        },
    );
    app.paste(value);
}

fn set_settings_fields(app: &mut App, values: &[(usize, &str)]) {
    let Some(Modal::ProfileSettings {
        fields,
        selected,
        cursor,
    }) = &mut app.modal
    else {
        panic!("profile settings were not opened");
    };
    for &(index, value) in values {
        fields[index].1 = value.into();
    }
    *cursor = fields[*selected].1.len();
}

fn saved_app() -> App {
    let mut app = App::new(Config::default(), Registry::builtin(), 0);
    resized(&mut app, 120, 32);
    app
}

fn choose_profile(app: &mut App, index: usize) {
    key(app, KeyCode::Char('p'));
    key(app, KeyCode::Home);
    for _ in 0..=index {
        key(app, KeyCode::Down);
    }
    key(app, KeyCode::Enter);
    assert!(app.modal.is_none(), "{}", app.status);
}

#[test]
fn picker_saves_a_pin_across_resize_and_restart_then_restores_auto() {
    let mut app = saved_app();
    key(&mut app, KeyCode::Char('p'));
    assert!(matches!(app.modal, Some(Modal::Profiles { selected: 0 })));
    key(&mut app, KeyCode::Down);
    key(&mut app, KeyCode::Enter);
    assert_eq!(app.config.active_profile.as_deref(), Some("wide"));
    resized(&mut app, 50, 40);
    assert_eq!(app.config.profiles[app.profile].name, "wide");
    let mut restarted = App::new(app.config.clone(), Registry::builtin(), 0);
    resized(&mut restarted, 50, 40);
    assert_eq!(restarted.config.profiles[restarted.profile].name, "wide");
    key(&mut restarted, KeyCode::Char('p'));
    assert!(matches!(restarted.modal, Some(Modal::Profiles { selected: 1 })));
    key(&mut restarted, KeyCode::Home);
    key(&mut restarted, KeyCode::Enter);
    assert_eq!(restarted.config.active_profile, None);
    assert_eq!(restarted.config.profiles[restarted.profile].name, "tall");
    resized(&mut restarted, 120, 32);
    assert_eq!(restarted.config.profiles[restarted.profile].name, "wide");
}

#[test]
fn quick_switch_cycles_both_directions_and_persists_the_selection() {
    let mut app = saved_app();
    for (shortcut, name) in [('[', "minimal"), (']', "wide"), (']', "compact")] {
        key(&mut app, KeyCode::Char(shortcut));
        assert_eq!(app.config.profiles[app.profile].name, name);
        assert_eq!(app.config.active_profile.as_deref(), Some(name));
    }
    let mut restarted = App::new(app.config.clone(), Registry::builtin(), 0);
    resized(&mut restarted, 20, 10);
    assert_eq!(restarted.config.profiles[restarted.profile].name, "compact");
}

#[test]
fn profile_settings_support_keyboard_editing_and_atomic_undo() {
    let mut app = saved_app();
    let original = app.config.clone();
    key(&mut app, KeyCode::Char('e'));
    key(&mut app, KeyCode::Char('g'));
    for value in ["Work layout", "8", "6", "true", "130", "24", "200", "60", "2", "6"] {
        replace_field(&mut app, value);
        key(&mut app, KeyCode::Tab);
    }
    key(&mut app, KeyCode::Enter);
    assert!(app.modal.is_none(), "{}", app.status);
    let profile = &app.config.profiles[0];
    assert_eq!(profile.name, "Work layout");
    assert_eq!((profile.columns, profile.rows), (8, 6));
    assert!(profile.automatic);
    assert_eq!((profile.min_width, profile.min_height), (130, 24));
    assert_eq!((profile.max_width, profile.max_height), (Some(200), Some(60)));
    assert_eq!(
        (profile.min_aspect, profile.max_aspect),
        (Some(2.0f64.to_bits()), Some(6.0f64.to_bits()))
    );
    assert_eq!(profile.tiles.len(), original.profiles[0].tiles.len());
    assert!(app.is_dirty());
    key(&mut app, KeyCode::Char('u'));
    assert!(app.config.same(&original));
    assert!(!app.is_dirty());
    assert_eq!(app.profile, 0);
}

#[test]
fn invalid_profile_settings_preserve_layout_and_saved_configuration() {
    let mut app = saved_app();
    let original = app.config.clone();
    key(&mut app, KeyCode::Char('e'));
    let invalid: &[&[(usize, &str)]] = &[
        &[(0, "   ")],
        &[(0, "compact")],
        &[(1, "5")],
        &[(2, "3")],
        &[(1, "0")],
        &[(2, "65")],
        &[(3, "yes")],
        &[(4, "150"), (6, "100")],
        &[(5, "40"), (7, "20")],
        &[(8, "NaN")],
        &[(9, "inf")],
        &[(8, "0")],
        &[(8, "4"), (9, "2")],
    ];
    for changes in invalid {
        key(&mut app, KeyCode::Char('g'));
        set_settings_fields(&mut app, changes);
        key(&mut app, KeyCode::Enter);
        assert!(
            matches!(app.modal, Some(Modal::ProfileSettings { .. })),
            "accepted {changes:?}"
        );
        assert!(app.status.starts_with("Invalid profile:"), "{}", app.status);
        assert!(app.config.same(&original), "mutated configuration for {changes:?}");
        assert!(!app.is_dirty());
        key(&mut app, KeyCode::Esc);
    }
}

#[test]
fn fallback_cannot_be_disabled_or_given_responsive_limits() {
    let mut app = saved_app();
    let fallback = app.config.profiles.len() - 1;
    choose_profile(&mut app, fallback);
    key(&mut app, KeyCode::Char('e'));
    let original = app.config.clone();
    for change in [(3, "false"), (4, "1"), (5, "1"), (6, "100"), (7, "40"), (8, "1"), (9, "5")] {
        key(&mut app, KeyCode::Char('g'));
        set_settings_fields(&mut app, &[change]);
        key(&mut app, KeyCode::Enter);
        assert!(app.status.contains("unconditional fallback"), "{}", app.status);
        assert!(app.config.same(&original));
        key(&mut app, KeyCode::Esc);
    }
}

#[test]
fn renaming_a_pinned_profile_updates_its_reference_and_runtime_tiles() {
    let mut app = saved_app();
    choose_profile(&mut app, 0);
    key(&mut app, KeyCode::Char('e'));
    key(&mut app, KeyCode::Char('g'));
    replace_field(&mut app, "Work 한글");
    key(&mut app, KeyCode::Enter);
    assert_eq!(app.config.active_profile.as_deref(), Some("Work 한글"));
    assert_eq!(app.config.profiles[app.profile].name, "Work 한글");
    assert!(!app.schedule.states.iter().flatten().any(|s| s.key.0 == "wide"));
    assert_eq!(
        app.schedule.states.iter().flatten().filter(|s| s.key.0 == "Work 한글").count(),
        6
    );
    key(&mut app, KeyCode::Char('s'));
    assert!(!app.editing, "{}", app.status);
    let mut restarted = App::new(app.config.clone(), Registry::builtin(), 0);
    resized(&mut restarted, 30, 10);
    assert_eq!(restarted.config.profiles[restarted.profile].name, "Work 한글");
}

#[test]
fn save_as_creates_an_independent_manual_layout_and_reloads_it_selected() {
    let mut app = saved_app();
    let original = app.config.clone();
    key(&mut app, KeyCode::Char('e'));
    key(&mut app, KeyCode::Char('n'));
    replace_field(&mut app, "My dashboard");
    key(&mut app, KeyCode::Enter);
    assert!(app.modal.is_none(), "{}", app.status);
    let copy = app.profile;
    assert_eq!(copy, original.profiles.len() - 1);
    assert_eq!(app.config.profiles.len(), original.profiles.len() + 1);
    assert!(!app.config.profiles[copy].automatic);
    assert_eq!(app.config.profiles.last().unwrap().name, "minimal");
    assert_eq!(app.config.active_profile.as_deref(), Some("My dashboard"));
    key(&mut app, KeyCode::Char('t'));
    replace_field(&mut app, "Work CPU");
    key(&mut app, KeyCode::Enter);
    app.apply_settings(&vec![], 0);
    assert_eq!(app.config.profiles[copy].tiles[0].title, "Work CPU");
    assert_eq!(app.config.profiles[0].tiles[0].title, original.profiles[0].tiles[0].title);
    key(&mut app, KeyCode::Char('s'));
    assert!(!app.editing, "{}", app.status);
    let mut restarted = App::new(app.config.clone(), Registry::builtin(), 0);
    resized(&mut restarted, 30, 10);
    assert_eq!(restarted.config.profiles[restarted.profile].name, "My dashboard");
}

#[test]
fn copied_fallback_is_undoable_and_cancelling_restores_the_entire_session() {
    let mut app = saved_app();
    let fallback = app.config.profiles.len() - 1;
    choose_profile(&mut app, fallback);
    let original = app.config.clone();
    key(&mut app, KeyCode::Char('e'));
    key(&mut app, KeyCode::Char('n'));
    key(&mut app, KeyCode::Enter);
    assert_eq!(app.profile, fallback);
    assert_eq!(app.config.profiles[app.profile].name, "minimal-copy");
    assert!(app.is_dirty());
    key(&mut app, KeyCode::Char('u'));
    assert!(app.config.same(&original));
    assert_eq!(app.profile, fallback);
    assert!(!app.schedule.states.iter().flatten().any(|s| s.key.0 == "minimal-copy"));
    assert!(!app.is_dirty());
    key(&mut app, KeyCode::Char('d'));
    key(&mut app, KeyCode::Char('n'));
    key(&mut app, KeyCode::Enter);
    assert!(app.config.profiles[app.profile].tiles.is_empty());
    key(&mut app, KeyCode::Esc);
    assert!(!app.editing);
    assert!(app.config.same(&original));
    assert_eq!(app.profile, fallback);
}

#[test]
fn duplicate_or_empty_copy_names_do_not_change_the_existing_profiles() {
    let mut app = saved_app();
    let original = app.config.clone();
    key(&mut app, KeyCode::Char('e'));
    for name in ["wide", "minimal", "  "] {
        key(&mut app, KeyCode::Char('n'));
        replace_field(&mut app, name);
        key(&mut app, KeyCode::Enter);
        assert!(matches!(app.modal, Some(Modal::SaveProfile { .. })));
        assert!(app.status.contains("nonempty and unique"));
        assert!(app.config.same(&original));
        assert!(!app.is_dirty());
        key(&mut app, KeyCode::Esc);
    }
}

#[test]
fn automatic_selection_skips_manual_profiles_even_when_their_rules_match() {
    let mut config = Config::default();
    let mut manual = config.profiles.last().unwrap().clone();
    manual.name = "Manual first".into();
    manual.automatic = false;
    config.profiles.insert(0, manual);
    assert!(config.validate(&Registry::builtin()).is_ok());
    assert_eq!(config.profiles[config.profile_for(120, 32, aspect(120, 32))].name, "wide");
    assert_eq!(config.profiles[config.profile_for(10, 5, aspect(10, 5))].name, "minimal");
    config.active_profile = Some("Manual first".into());
    assert_eq!(config.selected_profile(120, 32, aspect(120, 32)), 0);
}

#[test]
fn switching_and_saving_failures_preserve_selection_and_staged_edits() {
    let mut app = saved_app();
    let original = app.config.clone();
    let original_profile = app.profile;
    let Effect::Switch(config) = app.handle_key(KeyPress::plain(KeyCode::Char(']')), 0) else {
        panic!("switching did not ask to store the choice");
    };
    app.finish_switch(config, Err("Configuration changed on disk".into()));
    assert!(app.status.starts_with("Cannot switch profile:"), "{}", app.status);
    assert!(app.config.same(&original));
    assert_eq!(app.profile, original_profile);
    key(&mut app, KeyCode::Char('e'));
    key(&mut app, KeyCode::Char('n'));
    key(&mut app, KeyCode::Enter);
    let staged = app.config.clone();
    let staged_profile = app.profile;
    assert!(matches!(app.handle_key(KeyPress::plain(KeyCode::Char('s')), 0), Effect::Save));
    app.finish_save(Err("read-only directory".into()), "config.toml", 0);
    assert!(app.status.starts_with("Save failed:"), "{}", app.status);
    assert!(app.editing);
    assert!(app.is_dirty());
    assert!(app.config.same(&staged));
    assert_eq!(app.profile, staged_profile);
    key(&mut app, KeyCode::Esc);
    assert!(app.config.same(&original));
    assert_eq!(app.profile, original_profile);
}

#[test]
fn profile_form_refusals_name_the_field_or_the_problem() {
    let mut app = saved_app();
    key(&mut app, KeyCode::Char('e'));
    for (changes, expected) in [
        (&[(3, "yes")][..], "Invalid profile: Invalid Automatic selection (true / false)"),
        (&[(4, "wide")][..], "Invalid profile: Minimum terminal width: Invalid Minimum terminal width"),
        (&[(9, "x")][..], "Invalid profile: Maximum aspect (blank = unlimited): Invalid Maximum aspect (blank = unlimited)"),
        (&[(2, "65")][..], "Invalid profile: Profile wide: grid dimensions must be 1..64"),
    ] {
        key(&mut app, KeyCode::Char('g'));
        set_settings_fields(&mut app, changes);
        key(&mut app, KeyCode::Enter);
        assert_eq!(app.status, expected);
        key(&mut app, KeyCode::Esc);
    }
}

#[test]
fn storing_a_choice_refuses_files_changed_on_disk() {
    let current = Config::default();
    let mut choice = Config::default();
    choice.active_profile = Some(current.profiles[0].name.clone());
    let mut edited_on_disk = Config::default();
    edited_on_disk.profiles[0].columns += 1;

    assert_eq!(switch_write(&current, &current, &StoredFile::Loaded(edited_on_disk.clone())), Ok(false));
    assert_eq!(switch_write(&current, &choice, &StoredFile::Missing), Ok(true));
    assert_eq!(switch_write(&current, &choice, &StoredFile::Loaded(Config::default())), Ok(true));
    assert_eq!(
        switch_write(&current, &choice, &StoredFile::Loaded(edited_on_disk)),
        Err("Configuration changed on disk; press Esc then r to reload before switching".to_string())
    );
    assert_eq!(
        switch_write(&current, &choice, &StoredFile::Unreadable("bad toml".to_string())),
        Err("bad toml".to_string())
    );
}

#[test]
fn form_fields_parse_or_name_themselves_in_the_error() {
    let fields = vec![
        ("Columns".to_string(), " 12 ".to_string()),
        ("Minimum width".to_string(), "   ".to_string()),
        ("Maximum width".to_string(), "200".to_string()),
        ("Maximum height".to_string(), "x".to_string()),
        ("Automatic".to_string(), "maybe".to_string()),
    ];
    assert_eq!(parse_field(&fields, 0, 65535), Ok(12));
    assert_eq!(parse_field(&fields, 3, 65535), Err("Invalid Maximum height".to_string()));
    assert_eq!(optional_field(&fields, 1, 65535), Ok(None));
    assert_eq!(optional_field(&fields, 2, 65535), Ok(Some(200)));
    assert_eq!(optional_field(&fields, 2, 100), Err("Maximum width: Invalid Maximum width".to_string()));
    assert_eq!(optional_field(&fields, 3, 65535), Err("Maximum height: Invalid Maximum height".to_string()));
    assert_eq!(parse_flag(&fields, 4), Err("Invalid Automatic".to_string()));
}
