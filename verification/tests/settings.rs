use everyfile::settings::{loaded_settings, normalize_loaded, validate, AppSettings, SettingsError};

fn invalid_message(settings: &AppSettings) -> String {
    match validate(settings) {
        Err(SettingsError::Invalid(message)) => message,
        other => panic!("expected a refusal, got {other:?}"),
    }
}

#[test]
fn default_settings_obey_every_rule() {
    let settings = AppSettings::default_settings();
    assert!(validate(&settings).is_ok());
    assert_eq!(settings.language, "ko");
    assert_eq!(settings.ai_base_url, "http://127.0.0.1:11434");
    assert_eq!(settings.max_file_size_bytes, 200 * 1024 * 1024);
}

#[test]
fn each_rule_has_its_message() {
    let mut s = AppSettings::default_settings();
    s.start_hidden = true;
    assert_eq!(invalid_message(&s), "startup and tray settings are unavailable in this version");

    let mut s = AppSettings::default_settings();
    s.language = "fr".to_string();
    assert_eq!(invalid_message(&s), "language must be ko or en");

    let mut s = AppSettings::default_settings();
    s.theme = "blue".to_string();
    assert_eq!(invalid_message(&s), "theme must be light, dark, or system");

    let mut s = AppSettings::default_settings();
    s.file_click_behavior = "run".to_string();
    assert_eq!(invalid_message(&s), "file click behavior must be preview or open");

    let mut s = AppSettings::default_settings();
    s.date_display = "iso".to_string();
    assert_eq!(invalid_message(&s), "date display must be relative or absolute");

    let mut s = AppSettings::default_settings();
    s.indexing_intensity = "max".to_string();
    assert_eq!(invalid_message(&s), "indexing intensity must be low, balanced, or high");

    let mut s = AppSettings::default_settings();
    s.math_ocr_enabled = true;
    assert_eq!(invalid_message(&s), "math OCR requires local OCR to be enabled");

    let mut s = AppSettings::default_settings();
    s.ai_provider = "other".to_string();
    assert_eq!(invalid_message(&s), "AI provider must be ollama, gemini, or openai");

    let mut s = AppSettings::default_settings();
    s.ai_temperature_in_range = false;
    assert_eq!(invalid_message(&s), "AI temperature must be between 0 and 2");

    let mut s = AppSettings::default_settings();
    s.ai_max_tokens = 127;
    assert_eq!(invalid_message(&s), "AI max tokens must be between 128 and 32768");
    s.ai_max_tokens = 32768;
    assert!(validate(&s).is_ok());

    let mut s = AppSettings::default_settings();
    s.ai_enabled = true;
    s.ai_model = "   ".to_string();
    assert_eq!(invalid_message(&s), "AI model must contain 1-200 characters");
    s.ai_model = "가".repeat(67);
    assert_eq!(invalid_message(&s), "AI model must contain 1-200 characters");
    s.ai_model = "가".repeat(66);
    assert!(validate(&s).is_ok());

    let mut s = AppSettings::default_settings();
    s.excluded_path_patterns = vec!["node_modules".to_string(), "bad\u{7}".to_string()];
    assert_eq!(
        invalid_message(&s),
        "excluded path patterns must contain 1-100 non-control characters each"
    );
    s.excluded_path_patterns = (0..101).map(|i| format!("p{i}")).collect();
    assert_eq!(
        invalid_message(&s),
        "excluded path patterns must contain 1-100 non-control characters each"
    );

    let mut s = AppSettings::default_settings();
    s.history_retention_days = 7;
    assert_eq!(invalid_message(&s), "history retention must be 30, 90, 365, or 0 for unlimited");
    s.history_retention_days = 0;
    assert!(validate(&s).is_ok());

    let mut s = AppSettings::default_settings();
    s.max_file_size_bytes = 0;
    assert_eq!(invalid_message(&s), "maximum file size must be greater than zero");

    let mut s = AppSettings::default_settings();
    s.result_page_size = 201;
    assert_eq!(invalid_message(&s), "result page size must be between 1 and 200");
    assert_eq!(SettingsError::Invalid(String::new()).code(), "SETTINGS_INVALID");
}

#[test]
fn loading_clears_startup_flags_and_reports_it() {
    let (s, normalized) = loaded_settings(None).unwrap();
    assert!(!normalized);
    assert_eq!(s.theme, "light");

    let mut stored = AppSettings::default_settings();
    stored.minimize_to_tray = true;
    stored.start_with_windows = true;
    let (s, normalized) = loaded_settings(Some(stored.clone())).unwrap();
    assert!(normalized);
    assert!(!s.minimize_to_tray && !s.start_with_windows && !s.start_hidden);

    let (cleared, flagged) = normalize_loaded(stored);
    assert!(flagged);
    assert!(!cleared.minimize_to_tray);

    let mut broken = AppSettings::default_settings();
    broken.language = "de".to_string();
    assert!(matches!(loaded_settings(Some(broken)), Err(SettingsError::Invalid(_))));
}
