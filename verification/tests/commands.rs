use everyfile::commands::{markdown_file_name, validate_secret_provider, CommandError};
use everyfile::statistics::{
    history_page_size, non_negative, parse_error_code_or_unknown, validate_history_id,
    validate_retention, validate_retry_document_id, StatisticsError,
};
use everyfile::system::{apply_startup, registry_outcome, startup_command, RegistryStep, StartupChange, SystemError};

#[test]
fn commands_report_codes_and_messages() {
    let error = CommandError::new("CODE", "message");
    assert_eq!(error.code(), "CODE");
    assert_eq!(error.message(), "message");
    assert!(validate_secret_provider("gemini").is_ok());
    assert!(validate_secret_provider("openai").is_ok());
    let refused = validate_secret_provider("ollama").unwrap_err();
    assert_eq!(refused.code(), "AI_PROVIDER_INVALID");
    assert_eq!(refused.message(), "API secrets are supported only for Gemini and OpenAI");
}

#[test]
fn markdown_names_are_safe() {
    assert_eq!(markdown_file_name("report.hwp"), "report.md");
    assert_eq!(markdown_file_name("a<b>:c?.pdf"), "abc.md");
    assert_eq!(markdown_file_name("???.pdf"), "document.md");
    assert_eq!(markdown_file_name(""), "document.md");
    assert_eq!(markdown_file_name("  .txt"), "document.md");
    assert_eq!(markdown_file_name(&format!("{}.txt", "x".repeat(130))), format!("{}.md", "x".repeat(120)));
}

#[test]
fn statistics_rules() {
    for days in [0, 30, 90, 365] {
        assert_eq!(validate_retention(days), Ok(()));
    }
    assert_eq!(
        validate_retention(7),
        Err(StatisticsError::InvalidInput("retention must be 30, 90, 365, or 0 for unlimited".into()))
    );
    assert_eq!(non_negative(-5), 0);
    assert_eq!(non_negative(5), 5);
    assert_eq!(history_page_size(10), 10);
    assert_eq!(history_page_size(10_000), 500);
    assert!(validate_history_id("h1").is_ok());
    assert_eq!(
        validate_history_id(" "),
        Err(StatisticsError::InvalidInput("history id cannot be empty".into()))
    );
    assert_eq!(
        validate_retry_document_id(""),
        Err(StatisticsError::InvalidInput("document id cannot be empty".into()))
    );
    assert_eq!(parse_error_code_or_unknown(None), "UNKNOWN");
    assert_eq!(parse_error_code_or_unknown(Some("X".into())), "X");
    assert_eq!(StatisticsError::Database("x".into()).code(), "STATISTICS_DATABASE_FAILED");
}

#[test]
fn startup_entries() {
    assert_eq!(
        apply_startup(true, Ok(r"C:\Program Files\EveryFile\everyfile.exe".to_string())),
        Ok(StartupChange::SetRunValue {
            name: "EveryFile".to_string(),
            command: "\"C:\\Program Files\\EveryFile\\everyfile.exe\"".to_string(),
        })
    );
    assert_eq!(
        apply_startup(true, Err("gone".to_string())),
        Err(SystemError::CurrentExecutable("gone".to_string()))
    );
    assert_eq!(
        apply_startup(false, Err("unused".to_string())),
        Ok(StartupChange::RemoveRunValue { name: "EveryFile".to_string() })
    );
    assert_eq!(registry_outcome(RegistryStep::CreateKey, 0), Ok(true));
    assert_eq!(registry_outcome(RegistryStep::WriteValue, 0), Ok(false));
    assert_eq!(registry_outcome(RegistryStep::OpenKey, 2), Ok(false));
    assert_eq!(registry_outcome(RegistryStep::OpenKey, 0), Ok(true));
    assert_eq!(registry_outcome(RegistryStep::DeleteValue, 2), Ok(false));
    assert_eq!(
        registry_outcome(RegistryStep::DeleteValue, 5),
        Err(SystemError::Registry { operation: "removing the startup command".to_string(), code: 5 })
    );
    assert_eq!(
        registry_outcome(RegistryStep::WriteValue, 5),
        Err(SystemError::Registry { operation: "writing the startup command".to_string(), code: 5 })
    );
    assert_eq!(startup_command(r"C:\Program Files\EveryFile\EveryFile.exe"), "\"C:\\Program Files\\EveryFile\\EveryFile.exe\"");
}
