use rudbman_app::app_settings::{
    apply_to, saved_geometry, AppSettings, CurrentSettings, TitlebarStyle,
    WindowGeometry, WindowState,
};

/// A placement that is nothing like the defaults, so a value left behind by
/// mistake shows up as itself.
fn geometry() -> WindowGeometry {
    WindowGeometry { x: 120, y: 60, width: 1600, height: 1000, maximized: true }
}

fn unplaced() -> WindowState {
    WindowState {
        x: None,
        y: None,
        width: 1280,
        height: 800,
        maximized: false,
        background_opacity: 1.0f32.to_bits(),
        background_blur: false,
        titlebar: TitlebarStyle::Integrated,
    }
}

fn defaults() -> AppSettings {
    AppSettings {
        theme: "one-dark".to_string(),
        ui_font_size: 14.0f32.to_bits(),
        confirm_writes_default: true,
        ignored_update: None,
        bridge_jar: String::new(),
        window: unplaced(),
    }
}

#[test]
fn a_placement_survives_the_trip_through_the_settings() {
    let mut state = WindowState {
        background_opacity: 0.8f32.to_bits(),
        background_blur: true,
        titlebar: TitlebarStyle::System,
        ..unplaced()
    };
    apply_to(geometry(), &mut state);

    assert_eq!(saved_geometry(&state), Some(geometry()));
    // The appearance is the user's and must not have been touched.
    assert_eq!(f32::from_bits(state.background_opacity), 0.8);
    assert!(state.background_blur);
    assert_eq!(state.titlebar, TitlebarStyle::System);
}

#[test]
fn a_state_without_a_position_has_no_saved_placement() {
    let state = unplaced();
    assert_eq!(state.x, None);
    assert_eq!(saved_geometry(&state), None);

    let half_placed = WindowState { x: Some(10), ..unplaced() };
    assert_eq!(saved_geometry(&half_placed), None);
}

#[test]
fn recording_the_same_placement_twice_changes_nothing() {
    let mut state = unplaced();
    apply_to(geometry(), &mut state);
    assert!(rudbman_app::app_settings::matches(geometry(), &state));

    let moved = WindowGeometry { x: 121, ..geometry() };
    assert!(!rudbman_app::app_settings::matches(moved, &state));

    let mut settings = CurrentSettings::init(None, defaults());
    assert!(settings.record_window_geometry(geometry()));
    assert!(!settings.record_window_geometry(geometry()));
    assert!(settings.record_window_geometry(moved));
    assert_eq!(saved_geometry(&settings.current().window), Some(moved));
}

#[test]
fn a_preview_hides_the_saved_settings_until_it_is_dropped() {
    let mut settings = CurrentSettings::init(None, defaults());
    assert_eq!(settings.effective().theme, settings.current().theme);

    let previewed = AppSettings {
        theme: "dracula".to_string(),
        ui_font_size: 20.0f32.to_bits(),
        ..settings.current()
    };
    settings.set_preview(previewed);
    assert_eq!(settings.effective().theme, "dracula");
    assert_eq!(f32::from_bits(settings.effective().ui_font_size), 20.0);
    // And nothing of it reached what would be written to disk.
    assert_eq!(settings.current().theme, "one-dark");
    assert_eq!(f32::from_bits(settings.current().ui_font_size), 14.0);

    // Cancelling is the absence of the override, not a second copy.
    settings.clear_preview();
    assert_eq!(settings.effective().theme, "one-dark");
    assert_eq!(f32::from_bits(settings.effective().ui_font_size), 14.0);
    // Every path that closes the dialog ends here, so it has to be safe to run
    // twice.
    settings.clear_preview();
    assert_eq!(settings.effective().theme, "one-dark");
}

#[test]
fn saving_and_dropping_the_preview_agree() {
    let mut settings = CurrentSettings::init(None, defaults());
    let edited = AppSettings { theme: "gruvbox-dark".to_string(), ..settings.current() };
    settings.set_preview(edited.copy());
    settings.replace(edited);
    settings.clear_preview();
    assert_eq!(settings.effective().theme, "gruvbox-dark");
    assert_eq!(settings.current().theme, "gruvbox-dark");
}

#[test]
fn settings_that_were_read_win_over_the_defaults() {
    let read = AppSettings { theme: "nord".to_string(), ..defaults() };
    assert_eq!(CurrentSettings::init(Some(read), defaults()).current().theme, "nord");
    assert_eq!(CurrentSettings::init(None, defaults()).current().theme, "one-dark");
}

#[test]
fn an_ignored_release_is_remembered_and_forgotten() {
    let mut settings = CurrentSettings::init(None, defaults());
    assert_eq!(settings.ignored(), None);
    settings.set_ignored(Some("v1.2.0".to_string()));
    assert_eq!(settings.ignored(), Some("v1.2.0".to_string()));
    settings.set_ignored(None);
    assert_eq!(settings.ignored(), None);
}
