use nix_timemach::error::Error;
use nix_timemach::service::{CommandOutput, NixService, ParseMode};
use nix_timemach::timestamp::{parse_timestamp, Timestamp};

fn ts(year: u32, month: u32, day: u32, hour: u32, minute: u32, second: u32) -> Timestamp {
    Timestamp { year, month, day, hour, minute, second }
}

fn ok_output(stdout: &str) -> CommandOutput {
    CommandOutput { success: true, stdout: stdout.to_string(), stderr: String::new() }
}

fn failed_output(stderr: &str) -> CommandOutput {
    CommandOutput { success: false, stdout: String::new(), stderr: stderr.to_string() }
}

#[test]
fn test_parse_generations_output() {
    let service = NixService::new();
    let sample_output = r#"   1   2024-02-09 10:00:00   nixos-22.11.20240209.123
   2   2024-02-09 11:00:00   nixos-22.11.20240209.456"#;

    let generations = service
        .parse_generations_output(sample_output, "2", ParseMode::Strict)
        .unwrap();
    assert_eq!(generations.len(), 2);
    assert_eq!(generations[0].id, "1");
    assert_eq!(generations[1].id, "2");
}

#[test]
fn end_to_end_listing() {
    let service = NixService::new();
    let sample = "   1   2024-02-09 10:00:00   nixos-22.11.20240209.123\n   2   2024-02-09 11:00:00   nixos-22.11.20240209.456";
    let gens = service.parse_generations_output(sample, "2", ParseMode::Permissive).unwrap();
    assert_eq!(gens.len(), 2);
    assert_eq!(gens[0].id, "1");
    assert_eq!(gens[1].id, "2");
    assert_eq!(gens[0].timestamp, ts(2024, 2, 9, 10, 0, 0));
    assert_eq!(gens[1].timestamp, ts(2024, 2, 9, 11, 0, 0));
    assert_eq!(gens[0].description.as_deref(), Some("nixos-22.11.20240209.123"));
    assert_eq!(gens[1].description.as_deref(), Some("nixos-22.11.20240209.456"));
}

#[test]
fn round_trip_of_one_line() {
    let service = NixService::new();
    let gens = service
        .parse_generations_output("  42\t 1999-12-31 23:59:59 \t  my build  \r\n", "", ParseMode::Strict)
        .unwrap();
    assert_eq!(gens.len(), 1);
    assert_eq!(gens[0].id, "42");
    assert_eq!(gens[0].timestamp, ts(1999, 12, 31, 23, 59, 59));
    assert_eq!(gens[0].description.as_deref(), Some("my build"));
    assert!(!gens[0].current);
}

#[test]
fn empty_description_is_kept_empty() {
    let service = NixService::new();
    let gens = service
        .parse_generations_output("3 2024-01-01 00:00:00 ", "", ParseMode::Strict)
        .unwrap();
    assert_eq!(gens.len(), 1);
    assert_eq!(gens[0].description.as_deref(), Some(""));
}

#[test]
fn line_without_description_separator_is_skipped() {
    let service = NixService::new();
    let gens = service
        .parse_generations_output("3 2024-01-01 00:00:00", "", ParseMode::Strict)
        .unwrap();
    assert!(gens.is_empty());
}

#[test]
fn other_lines_are_skipped() {
    let service = NixService::new();
    let sample = "Generation  Date  Description\n\n   5   2024-03-01 08:30:00   first\nnot an entry\n   x   2024-03-01 08:30:00   bad id\n   6   2024-03-02 09:45:10   second\n";
    let gens = service.parse_generations_output(sample, "6", ParseMode::Permissive).unwrap();
    assert_eq!(gens.len(), 2);
    assert_eq!(gens[0].id, "5");
    assert_eq!(gens[1].id, "6");
    assert!(!gens[0].current);
    assert!(gens[1].current);
}

#[test]
fn invalid_timestamp_permissive_and_strict() {
    let service = NixService::new();
    let sample = "   1   2023-02-29 10:00:00   no such day\n   2   2024-02-29 10:00:00   leap day";
    let gens = service.parse_generations_output(sample, "", ParseMode::Permissive).unwrap();
    assert_eq!(gens.len(), 1);
    assert_eq!(gens[0].id, "2");
    assert_eq!(gens[0].timestamp, ts(2024, 2, 29, 10, 0, 0));
    let strict = service.parse_generations_output(sample, "", ParseMode::Strict);
    assert!(matches!(strict, Err(Error::NixOutputParseFailed(_))));
}

#[test]
fn profiles_follow_the_id() {
    let service = NixService::new();
    let gens = service
        .parse_generations_output("7 2024-05-05 05:05:05 x", "", ParseMode::Strict)
        .unwrap();
    assert_eq!(gens[0].profiles, vec!["/nix/var/nix/profiles/system-7-link".to_string()]);
    assert_eq!(service.profile_link("7"), "/nix/var/nix/profiles/system-7-link");
    let other = NixService::with_root("/tmp/p");
    assert_eq!(other.profile_link("7"), "/tmp/p/system-7-link");
    assert_eq!(other.system_profile(), "/tmp/p/system");
}

#[test]
fn current_generation_from_link_target() {
    let service = NixService::new();
    assert_eq!(service.current_generation_id("/nix/var/nix/profiles/system-2-link\n").unwrap(), "2");
    assert_eq!(service.current_generation_id("system-x-link system-15-link").unwrap(), "15");
    assert!(matches!(
        service.current_generation_id("/nix/store/abc-nixos-system"),
        Err(Error::NixOutputParseFailed(_))
    ));
    assert!(matches!(
        service.current_generation_id("system--link"),
        Err(Error::NixOutputParseFailed(_))
    ));
}

#[test]
fn list_generations_marks_current() {
    let service = NixService::new();
    let listing = ok_output("   1   2024-02-09 10:00:00   a\n   2   2024-02-09 11:00:00   b\n   3   2024-02-10 11:00:00   c\n");
    let link = ok_output("system-2-link\n");
    let gens = service.list_generations(&listing, &link, ParseMode::Strict).unwrap();
    assert_eq!(gens.len(), 3);
    assert!(!gens[0].current);
    assert!(gens[1].current);
    assert!(!gens[2].current);
}

#[test]
fn list_generations_errors() {
    let service = NixService::new();
    let listing = ok_output("   1   2024-02-09 10:00:00   a\n");
    let r = service.list_generations(&failed_output("boom"), &ok_output("system-1-link"), ParseMode::Strict);
    assert_eq!(r.unwrap_err(), Error::NixCommandFailed("boom".to_string()));
    let strict_bad = ok_output("   1   2024-02-30 10:00:00   a\n");
    let r = service.list_generations(&strict_bad, &ok_output("system-1-link"), ParseMode::Strict);
    assert!(matches!(r, Err(Error::NixOutputParseFailed(_))));
}

#[test]
fn unresolved_current_generation_is_soft() {
    let service = NixService::new();
    let listing = ok_output("   1   2024-02-09 10:00:00   a\n   2   2024-02-09 11:00:00   b\n");
    let gens = service.list_generations(&listing, &failed_output("no link"), ParseMode::Strict).unwrap();
    assert_eq!(gens.len(), 2);
    assert!(gens.iter().all(|g| !g.current));
    let gens = service.list_generations(&listing, &ok_output("/somewhere/else"), ParseMode::Permissive).unwrap();
    assert_eq!(gens.len(), 2);
    assert!(gens.iter().all(|g| !g.current));
}

#[test]
fn timestamps_follow_the_calendar() {
    assert_eq!(parse_timestamp("2024-02-29", "23:59:59").unwrap(), ts(2024, 2, 29, 23, 59, 59));
    assert_eq!(parse_timestamp("2000-02-29", "00:00:00").unwrap(), ts(2000, 2, 29, 0, 0, 0));
    assert!(parse_timestamp("1900-02-29", "00:00:00").is_err());
    assert!(parse_timestamp("2024-04-31", "00:00:00").is_err());
    assert!(parse_timestamp("2024-13-01", "00:00:00").is_err());
    assert!(parse_timestamp("2024-01-01", "24:00:00").is_err());
    assert!(parse_timestamp("2024-01-01", "12:60:00").is_err());
    assert!(parse_timestamp("2024-01-01", "12:00:60").is_err());
    assert!(parse_timestamp("2024-1-01", "12:00:00").is_err());
    assert!(parse_timestamp("2024/01/01", "12:00:00").is_err());
}

#[test]
fn marked_listing() {
    let service = NixService::new();
    let sample = "Generation Build-date NixOS version Kernel\n1 2024-02-09 10:00:00 22.11 6.1\n2current 2024-02-09 11:00:00 22.11 6.1\n3 2024-02-09 11:00:00\n4 2024-02-30 11:00:00 x y\n";
    let gens = service.parse_marked_generations(sample, ParseMode::Permissive).unwrap();
    assert_eq!(gens.len(), 2);
    assert_eq!(gens[0].id, "1");
    assert_eq!(gens[0].description, None);
    assert!(!gens[0].current);
    assert_eq!(gens[1].id, "2");
    assert_eq!(gens[1].description.as_deref(), Some("(current)"));
    assert!(gens[1].current);
    assert_eq!(gens[1].timestamp, ts(2024, 2, 9, 11, 0, 0));
    assert_eq!(gens[1].profiles, vec!["/nix/var/nix/profiles/system-2-link".to_string()]);
}

#[test]
fn marked_listing_header_only_and_repeated_marker() {
    let service = NixService::new();
    assert!(service.parse_marked_generations("", ParseMode::Strict).unwrap().is_empty());
    let single = service.parse_marked_generations("1 2024-02-09 10:00:00 a b", ParseMode::Strict).unwrap();
    assert_eq!(single.len(), 1);
    assert_eq!(single[0].id, "1");
    let gens = service
        .parse_marked_generations("head\n9currentcurrent 2024-02-09 10:00:00 a b", ParseMode::Strict)
        .unwrap();
    assert_eq!(gens.len(), 1);
    assert_eq!(gens[0].id, "9");
    assert!(gens[0].current);
}

#[test]
fn marked_listing_requires_numeric_id() {
    let service = NixService::new();
    let sample = "head\nabc 2024-02-09 10:00:00 x y\ncurrent 2024-02-09 10:00:00 x y\n12a 2024-02-09 10:00:00 x y\n5 2024-02-09 10:00:00 x y";
    let gens = service.parse_marked_generations(sample, ParseMode::Strict).unwrap();
    assert_eq!(gens.len(), 1);
    assert_eq!(gens[0].id, "5");
}

#[test]
fn marked_listing_strict_mode() {
    let service = NixService::new();
    let sample = "Generation Build-date\n1 2024-02-30 10:00:00 a b\n2 2024-02-09 10:00:00 a b";
    let lenient = service.parse_marked_generations(sample, ParseMode::Permissive).unwrap();
    assert_eq!(lenient.len(), 1);
    assert_eq!(lenient[0].id, "2");
    let strict = service.parse_marked_generations(sample, ParseMode::Strict);
    assert!(matches!(strict, Err(Error::NixOutputParseFailed(_))));
}

#[test]
fn unicode_whitespace_is_trimmed() {
    let service = NixService::new();
    let gens = service
        .parse_generations_output("\u{3000}8\u{a0}2024-01-01\u{2003}00:00:00\u{a0}desc\u{a0}", "", ParseMode::Strict)
        .unwrap();
    assert_eq!(gens.len(), 1);
    assert_eq!(gens[0].id, "8");
    assert_eq!(gens[0].description.as_deref(), Some("desc"));
}

#[test]
fn error_messages() {
    assert_eq!(
        Error::NixCommandFailed("exit 1".to_string()).message(),
        "Failed to execute nix command: exit 1"
    );
    assert_eq!(
        Error::NixOutputParseFailed("bad".to_string()).message(),
        "Failed to parse nix output: bad"
    );
    assert_eq!(Error::GenerationNotFound("9".to_string()).message(), "Generation not found: 9");
}
