use nix_timemach::diff::{classify, diff_from_tool_output, diff_references, package_name_of};
use nix_timemach::error::Error;
use nix_timemach::service::{CommandOutput, NixService};

fn strings(v: &[&str]) -> Vec<String> {
    v.iter().map(|s| s.to_string()).collect()
}

#[test]
fn modified_when_name_matches_other_identifier() {
    let d = classify(&strings(&["abc-foo-1.0"]), &strings(&["def-foo-2.0"]));
    assert_eq!(d.modified, strings(&["abc-foo-1.0"]));
    assert_eq!(d.added, strings(&["def-foo-2.0"]));
    assert_eq!(d.removed, strings(&["abc-foo-1.0"]));
}

#[test]
fn identical_identifier_is_not_modified() {
    let d = classify(&strings(&["abc-foo-1.0"]), &strings(&["abc-foo-1.0"]));
    assert!(d.modified.is_empty());
    assert!(d.added.is_empty());
    assert!(d.removed.is_empty());
}

#[test]
fn set_laws_on_example() {
    let from = strings(&["a-x-1", "b-y-1", "c-z-1"]);
    let to = strings(&["c-z-1", "d-w-1", "a-x-1"]);
    let d = classify(&from, &to);
    assert_eq!(d.added, strings(&["d-w-1"]));
    assert_eq!(d.removed, strings(&["b-y-1"]));
    assert!(d.modified.is_empty());
    for a in &d.added {
        assert!(!d.removed.contains(a));
    }
    let same = classify(&to, &strings(&["a-x-1", "c-z-1", "d-w-1", "a-x-1"]));
    assert!(same.added.is_empty());
    assert!(same.removed.is_empty());
}

#[test]
fn names_without_hyphen_collide() {
    let d = classify(&strings(&["plain"]), &strings(&["other"]));
    assert_eq!(d.modified, strings(&["plain"]));
    assert_eq!(package_name_of("plain"), "");
    assert_eq!(package_name_of("abc-foo-bar-1.0"), "foo");
    assert_eq!(package_name_of("abc-foo"), "foo");
    assert_eq!(package_name_of("abc-"), "");
}

#[test]
fn references_from_command_output() {
    let d = diff_references(
        "/nix/store/aaa-glibc-2.38\n/nix/store/bbb-bash-5.2\n",
        "/nix/store/ccc-glibc-2.39\n/nix/store/bbb-bash-5.2\n",
    );
    assert_eq!(d.added, strings(&["/nix/store/ccc-glibc-2.39"]));
    assert_eq!(d.removed, strings(&["/nix/store/aaa-glibc-2.38"]));
    assert_eq!(d.modified, strings(&["/nix/store/aaa-glibc-2.38"]));
    let d = diff_references("aaa-glibc-2.38\r\n", "aaa-glibc-2.38");
    assert!(d.added.is_empty());
    assert!(d.modified.is_empty());
}

#[test]
fn duplicates_are_taken_once() {
    let d = classify(&strings(&["a-x-1", "a-x-1", "b-y-1"]), &strings(&["c-y-2", "c-y-2"]));
    assert_eq!(d.removed, strings(&["a-x-1", "b-y-1"]));
    assert_eq!(d.added, strings(&["c-y-2"]));
    assert_eq!(d.modified, strings(&["b-y-1"]));
    let d = diff_references("a\na\n", "");
    assert_eq!(d.removed, strings(&["a"]));
}

#[test]
fn reference_queries_fail_on_command_failure() {
    let service = NixService::new();
    let ok_from = CommandOutput { success: true, stdout: "x-a-1\n".to_string(), stderr: String::new() };
    let ok_to = CommandOutput { success: true, stdout: "y-b-1\n".to_string(), stderr: String::new() };
    let bad = CommandOutput { success: false, stdout: "partial\n".to_string(), stderr: "missing".to_string() };
    let d = service.diff_reference_queries(&ok_from, &ok_to).unwrap();
    assert_eq!(d.added, strings(&["y-b-1"]));
    assert_eq!(d.removed, strings(&["x-a-1"]));
    assert_eq!(
        service.diff_reference_queries(&bad, &ok_to).unwrap_err(),
        Error::NixCommandFailed("missing".to_string())
    );
    assert_eq!(
        service.diff_reference_queries(&ok_from, &bad).unwrap_err(),
        Error::NixCommandFailed("missing".to_string())
    );
}

#[test]
fn store_path_lookups_are_chained() {
    let service = NixService::new();
    let ok = CommandOutput { success: true, stdout: "/nix/store/p\n".to_string(), stderr: String::new() };
    let bad = CommandOutput { success: false, stdout: String::new(), stderr: "nope".to_string() };
    let tool = CommandOutput { success: true, stdout: "+ n\n~ m\n".to_string(), stderr: String::new() };
    assert_eq!(
        service.diff_generations("1", "2", &bad, &bad, &tool).unwrap_err(),
        Error::GenerationNotFound("1".to_string())
    );
    assert_eq!(
        service.diff_generations("1", "2", &ok, &bad, &tool).unwrap_err(),
        Error::GenerationNotFound("2".to_string())
    );
    assert_eq!(
        service.diff_generations("1", "2", &ok, &ok, &bad).unwrap_err(),
        Error::NixCommandFailed("nope".to_string())
    );
    let d = service.diff_generations("1", "2", &ok, &ok, &tool).unwrap();
    assert_eq!(d.added, strings(&["n"]));
    assert_eq!(d.modified, strings(&["m"]));
    assert!(d.removed.is_empty());
}

#[test]
fn tool_output_markers() {
    let d = diff_from_tool_output("+ new-pkg\n  - old-pkg  \n~changed\nnoise\n\n+\tsecond ");
    assert_eq!(d.added, strings(&["new-pkg", "second"]));
    assert_eq!(d.removed, strings(&["old-pkg"]));
    assert_eq!(d.modified, strings(&["changed"]));
}

#[test]
fn service_diff_operations() {
    let service = NixService::new();
    let ok = CommandOutput { success: true, stdout: "+ a\n- b\n".to_string(), stderr: String::new() };
    let d = service.get_diff(&ok).unwrap();
    assert_eq!(d.added, strings(&["a"]));
    assert_eq!(d.removed, strings(&["b"]));
    let parsed = service.parse_diff_output("~ c").unwrap();
    assert_eq!(parsed.modified, strings(&["c"]));
    let bad = CommandOutput { success: false, stdout: String::new(), stderr: "oops".to_string() };
    assert_eq!(service.get_diff(&bad).unwrap_err(), Error::NixCommandFailed("oops".to_string()));
    let path = CommandOutput { success: true, stdout: "  /nix/store/xyz-system\n".to_string(), stderr: String::new() };
    assert_eq!(service.store_path("3", &path).unwrap(), "/nix/store/xyz-system");
    assert_eq!(service.store_path("3", &bad).unwrap_err(), Error::GenerationNotFound("3".to_string()));
}
