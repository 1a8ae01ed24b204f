use gdsfx::settings::PersistentSettings;

#[test]
fn test_last_state() {
    let mut settings = PersistentSettings::default();
    assert_eq!(settings.last_state, None);

    settings.set_last_state();
    assert_eq!(settings.last_state, Some(Box::new(settings.clone())));

    let last_state = settings.last_state.as_ref().unwrap();

    // last_state shouldn't be cloned
    assert_eq!(last_state.last_state, None);
    // and also shouldn't be considered when checking equality
    assert_eq!(settings, **last_state);
}

#[test]
fn test_change_detection() {
    let mut settings = PersistentSettings::default();
    settings.set_last_state();
    assert!(!settings.has_changed());

    settings.locale = String::from("de_AT");
    assert!(settings.has_changed());

    settings.set_last_state();
    assert!(!settings.has_changed());
}

#[test]
fn default_settings_values() {
    let settings = PersistentSettings::default();
    assert_eq!(settings.gd_folder, "");
    assert_eq!(settings.locale, "en_US");
    assert!(settings.play_sfx_on_click);
    assert_eq!(settings.download_ids_range.start, 0);
    assert_eq!(settings.download_ids_range.end, 14500);
    assert!(settings.last_state.is_none());
}

#[test]
fn never_saved_counts_as_changed() {
    let settings = PersistentSettings::default();
    assert!(settings.has_changed());
}

#[test]
fn gd_folder_from_discovery() {
    assert_eq!(
        gdsfx::settings::get_gd_folder(Some(String::from("/games/gd"))),
        "/games/gd"
    );
    assert_eq!(gdsfx::settings::get_gd_folder(None), "");
}

#[test]
fn ignore_option_always_none() {
    assert_eq!(gdsfx::settings::ignore_option(&Some(5u32)), None);
    assert_eq!(gdsfx::settings::ignore_option::<u32>(&None), None);
}
