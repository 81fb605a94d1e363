use tileboard::app::App;
use tileboard::config::Config;
use tileboard::grid::Rect;
use tileboard::metrics::{NetworkUsage, SampleRequest, TileKey};
use tileboard::tiles::Registry;

fn aspect(width: u16, height: u16) -> u64 {
    (f64::from(width) / f64::from(height.max(1))).to_bits()
}

fn resized(app: &mut App, width: u16, height: u16) {
    app.resize(Rect::new(0, 0, width, height), aspect(width, height));
}

fn app(kind: &str) -> App {
    let mut config = Config::default();
    let mut first = config.profiles[0].tiles[0].clone();
    first.kind = kind.into();
    first.id = "fast".into();
    first.refresh_ms = Some(250);
    let mut second = first.clone();
    second.id = "slow".into();
    second.placement.column = 2;
    second.refresh_ms = Some(1000);
    config.profiles[0].tiles = vec![first, second];
    let mut app = App::new(config, Registry::builtin(), 0);
    resized(&mut app, 120, 32);
    app
}

fn key(id: &str, kind: &str) -> TileKey {
    ("wide".into(), id.into(), kind.into())
}

/// Delivers a response sampled and delivered at `time` milliseconds.
fn deliver(app: &mut App, request: &SampleRequest, time: u64) -> bool {
    app.apply_sample(request, vec![], time * 1_000_000, time).is_some()
}

#[test]
fn each_instance_updates_on_its_own_deadline_and_only_once_while_pending() {
    let mut app = app("cpu");
    let (initial, _) = app.refresh_due(0);
    assert_eq!(initial.len(), 2);
    assert!(app.refresh_due(20_000).0.is_empty());
    for request in &initial {
        assert!(deliver(&mut app, request, 0));
    }
    assert!(app.refresh_due(249).0.is_empty());
    let (fast, _) = app.refresh_due(250);
    assert_eq!(fast.len(), 1);
    assert_eq!(fast[0].key, key("fast", "cpu"));
    assert!(deliver(&mut app, &fast[0], 250));
    assert_eq!(app.schedule.states[0][0].next_due, 500);
    assert_eq!(app.schedule.states[0][1].next_due, 1000);
    let (due, _) = app.refresh_due(1000);
    assert_eq!(due.len(), 2);
}

#[test]
fn changed_intervals_and_recreated_tiles_reject_stale_responses() {
    let mut app = app("cpu");
    let old = app.refresh_due(0).0.remove(0);
    app.config.profiles[0].tiles[0].refresh_ms = Some(5000);
    app.sync_tiles(10);
    assert!(!deliver(&mut app, &old, 10));
    let (fresh, _) = app.refresh_due(10);
    let request = fresh.into_iter().find(|request| request.key == old.key).unwrap();
    assert_ne!(request.generation, old.generation);
    assert!(deliver(&mut app, &request, 25));
    assert_eq!(app.schedule.states[0][0].interval, 5000);
    let removed = app.config.profiles[0].tiles.remove(0);
    app.sync_tiles(30);
    app.config.profiles[0].tiles.insert(0, removed);
    app.sync_tiles(30);
    assert!(!deliver(&mut app, &old, 40));
}

#[test]
fn hidden_profiles_pause_and_resume_without_catchup_bursts() {
    let mut app = app("cpu");
    for request in app.refresh_due(0).0 {
        deliver(&mut app, &request, 0);
    }
    resized(&mut app, 80, 24);
    let (requests, _) = app.refresh_due(60_000);
    assert!(requests.iter().all(|r| r.key.0 == "compact"));
    assert_eq!(app.schedule.states[0][0].next_due, 250);
    resized(&mut app, 120, 32);
    assert_eq!(app.refresh_due(120_000).0.len(), 2);
    assert!(app.refresh_due(120_000).0.is_empty());
}

#[test]
fn clock_is_cached_until_due_and_never_requires_worker_io() {
    let mut app = app("clock");
    let (requests, at_once) = app.refresh_due(0);
    assert!(requests.is_empty());
    assert_eq!(at_once.len(), 2);
    let (_, at_once) = app.refresh_due(250);
    assert_eq!(at_once, vec![key("fast", "clock")]);
    assert_eq!(app.schedule.states[0][1].next_due, 1000);
}

#[test]
fn network_tiles_average_over_their_own_sampling_windows() {
    let mut app = app("network");
    let mut last = Vec::new();
    for (milliseconds, counter) in [(0u64, 1000u64), (250, 3000), (500, 4000), (1000, 5000)] {
        for request in app.refresh_due(milliseconds).0 {
            let counters = vec![("eth0".to_string(), counter, counter / 2)];
            let rates: Vec<NetworkUsage> = app
                .apply_sample(&request, counters, milliseconds * 1_000_000, milliseconds)
                .unwrap()
                .unwrap();
            last.push((request.key.1.clone(), rates));
        }
    }
    let per_second = |id: &str| {
        let rate = last.iter().rev().find(|(key, _)| key == id).unwrap().1[0].rates.unwrap();
        let seconds = rate.nanos as f64 / 1e9;
        (rate.received as f64 / seconds, rate.transmitted as f64 / seconds)
    };
    assert_eq!(per_second("fast"), (2000.0, 1000.0));
    assert_eq!(per_second("slow"), (4000.0, 2000.0));
}

#[test]
fn a_refresh_in_progress_for_five_seconds_is_reported_delayed() {
    let mut app = app("cpu");
    let (requests, _) = app.refresh_due(1000);
    assert_eq!(requests.len(), 2);
    assert!(!app.schedule.delayed(app.profile, 0, 5999));
    assert!(app.schedule.delayed(app.profile, 0, 6000));
    assert!(!app.schedule.delayed(app.profile, 7, 6000));
    assert!(deliver(&mut app, &requests[0], 6000));
    assert!(!app.schedule.delayed(app.profile, 0, 20_000));
}

#[test]
fn every_tile_has_its_own_schedule_entry_keyed_by_profile_id_and_kind() {
    let app = App::new(Config::default(), Registry::builtin(), 0);
    let mut keys = Vec::new();
    for (i, profile) in app.config.profiles.iter().enumerate() {
        assert_eq!(app.schedule.states[i].len(), profile.tiles.len());
        for (k, tile) in profile.tiles.iter().enumerate() {
            let key = &app.schedule.states[i][k].key;
            assert_eq!(key, &(profile.name.clone(), tile.id.clone(), tile.kind.clone()));
            assert!(!keys.contains(key));
            keys.push(key.clone());
        }
    }
}
