//! The application settings and the rules a saved or loaded setting must
//! obey. The AI temperature is a float; whether it is finite and within
//! 0 to 2 is judged where the float is read and handed over as a flag.
use vstd::prelude::*;

use crate::ocr::eq_literal;
use crate::text::{chars_of, contains_control, has_control, trim_chars, trim_ws, utf8_len, utf8_len_at_most};

verus! {

broadcast use vstd::string::group_string_axioms;

/// The settings as their rules read them.
#[derive(Debug, Clone)]
pub struct AppSettings {
    pub language: String,
    pub theme: String,
    pub file_click_behavior: String,
    pub date_display: String,
    pub excluded_path_patterns: Vec<String>,
    pub indexing_intensity: String,
    pub ocr_enabled: bool,
    pub math_ocr_enabled: bool,
    pub ai_enabled: bool,
    pub ai_provider: String,
    pub ai_base_url: String,
    pub ai_model: String,
    /// Whether the AI temperature is finite and between 0 and 2.
    pub ai_temperature_in_range: bool,
    pub ai_max_tokens: u32,
    pub history_retention_days: u32,
    pub minimize_to_tray: bool,
    pub start_with_windows: bool,
    pub start_hidden: bool,
    pub max_file_size_bytes: u64,
    pub result_page_size: u32,
}

#[derive(Debug, Clone, PartialEq, Eq)]
pub enum SettingsError {
    Database(String),
    Serialize(String),
    Deserialize(String),
    Invalid(String),
}

pub open spec fn spec_settings_error_code(e: SettingsError) -> Seq<char> {
    match e {
        SettingsError::Database(_) => "SETTINGS_DATABASE_FAILED"@,
        SettingsError::Serialize(_) => "SETTINGS_SERIALIZE_FAILED"@,
        SettingsError::Deserialize(_) => "SETTINGS_STORED_INVALID"@,
        SettingsError::Invalid(_) => "SETTINGS_INVALID"@,
    }
}

impl SettingsError {
    pub fn code(&self) -> (r: &'static str)
        ensures
            r@ == spec_settings_error_code(*self),
    {
        match self {
            SettingsError::Database(_) => "SETTINGS_DATABASE_FAILED",
            SettingsError::Serialize(_) => "SETTINGS_SERIALIZE_FAILED",
            SettingsError::Deserialize(_) => "SETTINGS_STORED_INVALID",
            SettingsError::Invalid(_) => "SETTINGS_INVALID",
        }
    }
}

/// The default maximum file size: 200 MiB.
pub const DEFAULT_MAX_FILE_SIZE_BYTES: u64 = 209715200;

impl AppSettings {
    /// The settings of a fresh installation.
    pub fn default_settings() -> (r: AppSettings)
        ensures
            r.language@ == "ko"@,
            r.theme@ == "light"@,
            r.file_click_behavior@ == "preview"@,
            r.date_display@ == "relative"@,
            r.excluded_path_patterns@.len() == 0,
            r.indexing_intensity@ == "balanced"@,
            !r.ocr_enabled,
            !r.math_ocr_enabled,
            !r.ai_enabled,
            r.ai_provider@ == "ollama"@,
            r.ai_base_url@ == "http://127.0.0.1:11434"@,
            r.ai_model@ == "gemma3:4b"@,
            r.ai_temperature_in_range,
            r.ai_max_tokens == 2048,
            r.history_retention_days == 90,
            !r.minimize_to_tray,
            !r.start_with_windows,
            !r.start_hidden,
            r.max_file_size_bytes == DEFAULT_MAX_FILE_SIZE_BYTES,
            r.result_page_size == 100,
            settings_problem(r) is None,
    {
        AppSettings {
            language: String::from_str("ko"),
            theme: String::from_str("light"),
            file_click_behavior: String::from_str("preview"),
            date_display: String::from_str("relative"),
            excluded_path_patterns: Vec::new(),
            indexing_intensity: String::from_str("balanced"),
            ocr_enabled: false,
            math_ocr_enabled: false,
            ai_enabled: false,
            ai_provider: String::from_str("ollama"),
            ai_base_url: String::from_str("http://127.0.0.1:11434"),
            ai_model: String::from_str("gemma3:4b"),
            ai_temperature_in_range: true,
            ai_max_tokens: 2048,
            history_retention_days: 90,
            minimize_to_tray: false,
            start_with_windows: false,
            start_hidden: false,
            max_file_size_bytes: DEFAULT_MAX_FILE_SIZE_BYTES,
            result_page_size: 100,
        }
    }
}

/// An excluded path pattern is refused when it is blank, longer than 260
/// bytes, or holds a control character.
pub open spec fn bad_pattern(p: Seq<char>) -> bool {
    trim_ws(p).len() == 0 || utf8_len(p) > 260 || contains_control(p)
}

pub open spec fn strings_view(v: Seq<String>) -> Seq<Seq<char>> {
    v.map_values(|s: String| s@)
}

/// The first rule the settings break, as its message; none when they obey
/// every rule.
pub open spec fn settings_problem(s: AppSettings) -> Option<Seq<char>> {
    let patterns = strings_view(s.excluded_path_patterns@);
    if s.minimize_to_tray || s.start_with_windows || s.start_hidden {
        Some("startup and tray settings are unavailable in this version"@)
    } else if !(s.language@ == "ko"@ || s.language@ == "en"@) {
        Some("language must be ko or en"@)
    } else if !(s.theme@ == "light"@ || s.theme@ == "dark"@ || s.theme@ == "system"@) {
        Some("theme must be light, dark, or system"@)
    } else if !(s.file_click_behavior@ == "preview"@ || s.file_click_behavior@ == "open"@) {
        Some("file click behavior must be preview or open"@)
    } else if !(s.date_display@ == "relative"@ || s.date_display@ == "absolute"@) {
        Some("date display must be relative or absolute"@)
    } else if !(s.indexing_intensity@ == "low"@ || s.indexing_intensity@ == "balanced"@
        || s.indexing_intensity@ == "high"@) {
        Some("indexing intensity must be low, balanced, or high"@)
    } else if s.math_ocr_enabled && !s.ocr_enabled {
        Some("math OCR requires local OCR to be enabled"@)
    } else if !(s.ai_provider@ == "ollama"@ || s.ai_provider@ == "gemini"@ || s.ai_provider@
        == "openai"@) {
        Some("AI provider must be ollama, gemini, or openai"@)
    } else if !s.ai_temperature_in_range {
        Some("AI temperature must be between 0 and 2"@)
    } else if !(128 <= s.ai_max_tokens <= 32768) {
        Some("AI max tokens must be between 128 and 32768"@)
    } else if s.ai_enabled && (trim_ws(s.ai_model@).len() == 0 || utf8_len(s.ai_model@) > 200) {
        Some("AI model must contain 1-200 characters"@)
    } else if patterns.len() > 100 || exists|i: int|
        0 <= i < patterns.len() && bad_pattern(#[trigger] patterns[i]) {
        Some("excluded path patterns must contain 1-100 non-control characters each"@)
    } else if !(s.history_retention_days == 0 || s.history_retention_days == 30
        || s.history_retention_days == 90 || s.history_retention_days == 365) {
        Some("history retention must be 30, 90, 365, or 0 for unlimited"@)
    } else if s.max_file_size_bytes == 0 {
        Some("maximum file size must be greater than zero"@)
    } else if !(1 <= s.result_page_size <= 200) {
        Some("result page size must be between 1 and 200"@)
    } else {
        None
    }
}

fn is_bad_pattern(p: &String) -> (r: bool)
    ensures
        r == bad_pattern(p@),
{
    let c = chars_of(p.as_str());
    trim_chars(c.as_slice()).len() == 0 || !utf8_len_at_most(c.as_slice(), 260) || has_control(
        c.as_slice(),
    )
}

fn any_bad_pattern(patterns: &Vec<String>) -> (r: bool)
    ensures
        r == exists|i: int|
            0 <= i < strings_view(patterns@).len() && bad_pattern(
                #[trigger] strings_view(patterns@)[i],
            ),
{
    let ghost v = strings_view(patterns@);
    let mut i: usize = 0;
    while i < patterns.len()
        invariant
            i <= patterns@.len(),
            v == strings_view(patterns@),
            forall|j: int| 0 <= j < i ==> !bad_pattern(#[trigger] v[j]),
        decreases patterns@.len() - i,
    {
        if is_bad_pattern(&patterns[i]) {
            assert(v[i as int] == patterns@[i as int]@);
            return true;
        }
        assert(v[i as int] == patterns@[i as int]@);
        i += 1;
    }
    false
}

fn one_of(value: &String, options: &[&str]) -> (r: bool)
    ensures
        r == exists|i: int| 0 <= i < options@.len() && value@ == (#[trigger] options@[i])@,
{
    let v = chars_of(value.as_str());
    let mut i: usize = 0;
    while i < options.len()
        invariant
            i <= options@.len(),
            v@ == value@,
            forall|j: int| 0 <= j < i ==> value@ != (#[trigger] options@[j])@,
        decreases options@.len() - i,
    {
        if eq_literal(v.as_slice(), options[i]) {
            return true;
        }
        i += 1;
    }
    false
}

fn invalid(message: &str) -> (r: Result<(), SettingsError>)
    ensures
        r matches Err(SettingsError::Invalid(m)) && m@ == message@,
{
    Err(SettingsError::Invalid(String::from_str(message)))
}

/// Checks the settings against every rule, in order.
pub fn validate(s: &AppSettings) -> (r: Result<(), SettingsError>)
    ensures
        match settings_problem(*s) {
            None => r is Ok,
            Some(message) => r matches Err(SettingsError::Invalid(m)) && m@ == message,
        },
{
    if s.minimize_to_tray || s.start_with_windows || s.start_hidden {
        return invalid("startup and tray settings are unavailable in this version");
    }
    let languages: [&str; 2] = ["ko", "en"];
    if !one_of(&s.language, &languages) {
        assert(languages@[0]@ == "ko"@ && languages@[1]@ == "en"@);
        return invalid("language must be ko or en");
    }
    assert(languages@[0]@ == "ko"@ && languages@[1]@ == "en"@);
    let themes: [&str; 3] = ["light", "dark", "system"];
    let theme_ok = one_of(&s.theme, &themes);
    assert(themes@[0]@ == "light"@ && themes@[1]@ == "dark"@ && themes@[2]@ == "system"@);
    if !theme_ok {
        return invalid("theme must be light, dark, or system");
    }
    let clicks: [&str; 2] = ["preview", "open"];
    let click_ok = one_of(&s.file_click_behavior, &clicks);
    assert(clicks@[0]@ == "preview"@ && clicks@[1]@ == "open"@);
    if !click_ok {
        return invalid("file click behavior must be preview or open");
    }
    let dates: [&str; 2] = ["relative", "absolute"];
    let date_ok = one_of(&s.date_display, &dates);
    assert(dates@[0]@ == "relative"@ && dates@[1]@ == "absolute"@);
    if !date_ok {
        return invalid("date display must be relative or absolute");
    }
    let intensities: [&str; 3] = ["low", "balanced", "high"];
    let intensity_ok = one_of(&s.indexing_intensity, &intensities);
    assert(intensities@[0]@ == "low"@ && intensities@[1]@ == "balanced"@ && intensities@[2]@
        == "high"@);
    if !intensity_ok {
        return invalid("indexing intensity must be low, balanced, or high");
    }
    if s.math_ocr_enabled && !s.ocr_enabled {
        return invalid("math OCR requires local OCR to be enabled");
    }
    let providers: [&str; 3] = ["ollama", "gemini", "openai"];
    let provider_ok = one_of(&s.ai_provider, &providers);
    assert(providers@[0]@ == "ollama"@ && providers@[1]@ == "gemini"@ && providers@[2]@
        == "openai"@);
    if !provider_ok {
        return invalid("AI provider must be ollama, gemini, or openai");
    }
    if !s.ai_temperature_in_range {
        return invalid("AI temperature must be between 0 and 2");
    }
    if !(128 <= s.ai_max_tokens && s.ai_max_tokens <= 32768) {
        return invalid("AI max tokens must be between 128 and 32768");
    }
    if s.ai_enabled {
        let model = chars_of(s.ai_model.as_str());
        if trim_chars(model.as_slice()).len() == 0 || !utf8_len_at_most(model.as_slice(), 200) {
            return invalid("AI model must contain 1-200 characters");
        }
    }
    if s.excluded_path_patterns.len() > 100 || any_bad_pattern(&s.excluded_path_patterns) {
        return invalid("excluded path patterns must contain 1-100 non-control characters each");
    }
    let days = s.history_retention_days;
    if !(days == 0 || days == 30 || days == 90 || days == 365) {
        return invalid("history retention must be 30, 90, 365, or 0 for unlimited");
    }
    if s.max_file_size_bytes == 0 {
        return invalid("maximum file size must be greater than zero");
    }
    if !(1 <= s.result_page_size && s.result_page_size <= 200) {
        return invalid("result page size must be between 1 and 200");
    }
    Ok(())
}

/// The settings with the startup and tray flags cleared.
pub open spec fn cleared(s: AppSettings) -> AppSettings {
    AppSettings { minimize_to_tray: false, start_with_windows: false, start_hidden: false, ..s }
}

/// Whether any startup or tray flag is set.
pub open spec fn flagged(s: AppSettings) -> bool {
    s.minimize_to_tray || s.start_with_windows || s.start_hidden
}

/// Settings read back from storage: the startup and tray flags, which this
/// version does not offer, are cleared, and it is said whether any was set
/// (then the cleared settings are stored again).
pub fn normalize_loaded(settings: AppSettings) -> (r: (AppSettings, bool))
    ensures
        r.1 == flagged(settings),
        r.0 == cleared(settings),
{
    let normalized = settings.minimize_to_tray || settings.start_with_windows
        || settings.start_hidden;
    let mut settings = settings;
    settings.minimize_to_tray = false;
    settings.start_with_windows = false;
    settings.start_hidden = false;
    (settings, normalized)
}

/// Loads settings as stored: none stored gives the defaults; stored ones
/// are normalized and must then obey every rule.
pub fn loaded_settings(stored: Option<AppSettings>) -> (r: Result<(AppSettings, bool), SettingsError>)
    ensures
        match stored {
            None => r matches Ok((s, normalized)) && !normalized && settings_problem(s) is None
                && s.language@ == "ko"@ && s.result_page_size == 100 && s.history_retention_days
                == 90,
            Some(s) => match settings_problem(cleared(s)) {
                None => r == Ok::<(AppSettings, bool), SettingsError>((cleared(s), flagged(s))),
                Some(message) => r matches Err(SettingsError::Invalid(m)) && m@ == message,
            },
        },
{
    match stored {
        None => Ok((AppSettings::default_settings(), false)),
        Some(s) => {
            let (cleared, flagged) = normalize_loaded(s);
            match validate(&cleared) {
                Ok(()) => Ok((cleared, flagged)),
                Err(e) => Err(e),
            }
        },
    }
}

/// What saving accepts, loading gives back unchanged and without asking
/// for the settings to be stored again.
pub proof fn law_saved_settings_load_unchanged(s: AppSettings)
    requires
        settings_problem(s) is None,
    ensures
        cleared(s) == s,
        !flagged(s),
        settings_problem(cleared(s)) is None,
{
}

} // verus!
