use riff::dev_env::DetectedLanguage;
use riff::language_set::LanguageSet;
use riff::telemetry::{
    distinct_id_file, first_line, nix_version, stored_distinct_id, subcommand_name, Commands, NixOutcome,
    NixVersionError, SystemFacts, Telemetry, TELEMETRY_HEADER_NAME,
    TELEMETRY_IDENTIFIER_DESCRIPTION,
};

const ID: u128 = 0x550e8400_e29b_41d4_a716_446655440000;
const ID_TEXT: &str = "550e8400-e29b-41d4-a716-446655440000";

fn facts(distinct_id: Option<u128>) -> SystemFacts {
    SystemFacts {
        distinct_id,
        system_os: "linux".to_string(),
        system_arch: "x86_64".to_string(),
        os_release_name: Some("NixOS".to_string()),
        os_release_version_id: None,
        riff_version: "1.0.0".to_string(),
        nix_version: Some("nix (Nix) 2.11.0".to_string()),
        is_tty: true,
        in_ci: false,
    }
}

#[test]
fn subcommands_have_names() {
    assert_eq!(subcommand_name(Commands::Shell), "shell");
    assert_eq!(subcommand_name(Commands::Run), "run");
    assert_eq!(subcommand_name(Commands::PrintDevEnv), "print-dev-env");
    assert_eq!(TELEMETRY_HEADER_NAME, "X-RIFF-Client-Info");
}

#[test]
fn report_is_made_of_what_was_gathered() {
    let report = Telemetry::from_clap_parse_result(Some(Commands::Run), facts(Some(ID)));
    assert_eq!(report.distinct_id, Some(ID));
    assert_eq!(report.system_os, "linux");
    assert_eq!(report.system_arch, "x86_64");
    assert_eq!(report.os_release_name, Some("NixOS".to_string()));
    assert_eq!(report.os_release_version_id, None);
    assert_eq!(report.riff_version, "1.0.0");
    assert_eq!(report.nix_version, Some("nix (Nix) 2.11.0".to_string()));
    assert!(report.is_tty);
    assert!(!report.in_ci);
    assert_eq!(report.subcommand, Some("run".to_string()));
    assert_eq!(report.detected_languages.len(), 0);
    let bare = Telemetry::from_clap_parse_result(None, facts(None));
    assert_eq!(bare.subcommand, None);
    assert_eq!(bare.distinct_id, None);
}

#[test]
fn report_takes_the_detected_languages() {
    let mut languages = LanguageSet::new();
    languages.insert(DetectedLanguage::Rust);
    let report = Telemetry::from_clap_parse_result(Some(Commands::Shell), facts(Some(ID)))
        .with_detected_languages(&languages);
    assert_eq!(report.detected_languages.to_vec(), vec![DetectedLanguage::Rust]);
    assert_eq!(report.subcommand, Some("shell".to_string()));
    assert_eq!(report.distinct_id, Some(ID));
    let cleared = report.with_detected_languages(&LanguageSet::new());
    assert_eq!(cleared.detected_languages.len(), 0);
}

#[test]
fn identifier_is_taken_out_of_a_report() {
    let report = Telemetry::from_clap_parse_result(None, facts(Some(ID)));
    let sent = format!("{{\"distinct_id\":\"{ID_TEXT}\",\"again\":\"{ID_TEXT}\",\"os\":\"linux\"}}");
    assert_eq!(
        report.redact_header_data(sent),
        "{\"distinct_id\":\"<redacted>\",\"again\":\"<redacted>\",\"os\":\"linux\"}"
    );
    assert_eq!(report.redact_header_data("nothing to hide".to_string()), "nothing to hide");
    let upper = ID_TEXT.to_uppercase();
    assert_eq!(report.redact_header_data(upper.clone()), upper);
    let anonymous = Telemetry::from_clap_parse_result(None, facts(None));
    assert_eq!(anonymous.redact_header_data(ID_TEXT.to_string()), ID_TEXT);
}

#[test]
fn identifier_file_starts_with_the_identifier() {
    let contents = distinct_id_file(ID);
    assert_eq!(contents, format!("{ID_TEXT}\n\n{TELEMETRY_IDENTIFIER_DESCRIPTION}"));
    assert_eq!(stored_distinct_id(&contents), Some(ID));
    assert_eq!(
        distinct_id_file(0x0123456789abcdef_fedcba9876543210),
        format!("01234567-89ab-cdef-fedc-ba9876543210\n\n{TELEMETRY_IDENTIFIER_DESCRIPTION}")
    );
    assert!(distinct_id_file(0).starts_with("00000000-0000-0000-0000-000000000000\n\n"));
    assert!(distinct_id_file(u128::MAX).starts_with("ffffffff-ffff-ffff-ffff-ffffffffffff\n\n"));
}

#[test]
fn stored_identifier_is_the_first_line() {
    assert_eq!(stored_distinct_id(ID_TEXT), Some(ID));
    assert_eq!(stored_distinct_id(&format!("  {ID_TEXT}\t\r\nrest")), Some(ID));
    assert_eq!(stored_distinct_id(&format!("{ID_TEXT}\n")), Some(ID));
    // Without a line feed nothing is trimmed.
    assert_eq!(stored_distinct_id(&format!(" {ID_TEXT}")), None);
    assert_eq!(stored_distinct_id(&format!("\n{ID_TEXT}")), None);
    assert_eq!(stored_distinct_id(""), None);
    assert_eq!(stored_distinct_id("not an identifier\nat all"), None);
    assert_eq!(stored_distinct_id("550e8400e29b41d4a716446655440000\n"), Some(ID));
}

#[test]
fn version_of_nix() {
    assert_eq!(
        nix_version(NixOutcome::Exited { success: true, stdout: b"nix (Nix) 2.11.0\n".to_vec() }),
        Ok(Some("nix (Nix) 2.11.0".to_string()))
    );
    assert_eq!(
        nix_version(NixOutcome::Exited { success: false, stdout: b"nix (Nix) 2.11.0\n".to_vec() }),
        Err(NixVersionError::Failed)
    );
    assert_eq!(
        nix_version(NixOutcome::Exited { success: true, stdout: vec![0xff] }),
        Err(NixVersionError::NotUtf8)
    );
    assert_eq!(nix_version(NixOutcome::PermissionDenied), Ok(None));
    assert_eq!(
        nix_version(NixOutcome::NotStarted { reason: "not found".to_string() }),
        Err(NixVersionError::NotStarted { reason: "not found".to_string() })
    );
}

#[test]
fn first_line_ends_at_the_line_feed() {
    assert_eq!(first_line("one\ntwo\nthree"), Some("one"));
    assert_eq!(first_line("\nrest"), Some(""));
    assert_eq!(first_line("line\n"), Some("line"));
    assert_eq!(first_line(" \u{e9}t\u{e9} \r\n"), Some(" \u{e9}t\u{e9} \r"));
    assert_eq!(first_line("no line feed"), None);
    assert_eq!(first_line(""), None);
}
