use dotstrap::application::{build_report, install_packages, rendered_destinations, ExecutionReport};
use dotstrap::config::{BrewSpec, Manifest, TemplateMapping};
use dotstrap::errors::DotstrapError;
use dotstrap::infrastructure::command::{exit_result, RecordingCommandExecutor};
use dotstrap::text::{decimal_text, is_absolute, join_path, signed_text};
use dotstrap::value::{duplicate_entries, duplicate_items, Datum, ValueMap};
use std::path::Path;

#[test]
fn decimal_numerals() {
    assert_eq!(decimal_text(0), "0");
    assert_eq!(decimal_text(7), "7");
    assert_eq!(decimal_text(10), "10");
    assert_eq!(decimal_text(1234567890), "1234567890");
    assert_eq!(decimal_text(u64::MAX), "18446744073709551615");
    assert_eq!(signed_text(0), "0");
    assert_eq!(signed_text(-1), "-1");
    assert_eq!(signed_text(42), "42");
    assert_eq!(signed_text(i32::MIN), "-2147483648");
    assert_eq!(signed_text(i32::MAX), "2147483647");
}

#[test]
fn join_path_agrees_with_std() {
    let cases = [
        ("/home/u", ".config/app.conf"),
        ("/home/u/", "x"),
        ("/home/u", "/etc/passwd"),
        ("", "x"),
        ("", ""),
        ("/home/u", ""),
        ("rel", "a/b"),
        ("/", "a"),
    ];
    for (base, rel) in cases {
        let expected = Path::new(base).join(rel);
        assert_eq!(join_path(base, rel), expected.to_str().unwrap(), "{base:?} + {rel:?}");
    }
    assert_eq!(join_path("/home/u", "x/y"), "/home/u/x/y");
    assert!(is_absolute("/x"));
    assert!(!is_absolute("x/"));
    assert!(!is_absolute(""));
}

#[test]
fn error_messages() {
    assert_eq!(
        DotstrapError::HomeNotFound.message(),
        "failed to determine home directory"
    );
    assert_eq!(
        DotstrapError::CommandFailed {
            program: "git".to_string(),
            status: -1
        }
        .message(),
        "command `git` failed with status -1"
    );
    assert_eq!(
        DotstrapError::ManifestMissingTemplates("/r/manifest.yaml".to_string()).message(),
        "manifest `/r/manifest.yaml` is missing templates section"
    );
    assert_eq!(
        DotstrapError::UnsupportedManifestVersion {
            path: "/r/manifest.yaml".to_string(),
            version: 255
        }
        .message(),
        "manifest `/r/manifest.yaml` declares unsupported version 255"
    );
    assert_eq!(
        DotstrapError::MissingSecret {
            name: "token".to_string(),
            provider: "environment variable X".to_string()
        }
        .message(),
        "secret `token` is not available from environment variable X"
    );
    assert_eq!(
        DotstrapError::BrewUnavailable.message(),
        "Homebrew is not installed or not executable"
    );
    assert_eq!(
        DotstrapError::BrewManifestMissing("b.yaml".to_string()).message(),
        "brew manifest file `b.yaml` not found"
    );
    let io = std::io::Error::new(std::io::ErrorKind::Other, "boom");
    assert_eq!(DotstrapError::Io(io).message(), "I/O error: boom");
    let io = std::io::Error::new(std::io::ErrorKind::Other, "boom");
    let error = DotstrapError::CommandIo("git".to_string(), io);
    assert_eq!(error.message(), "failed to execute command `git`: boom");
    assert_eq!(error.describe("no such file"), "failed to execute command `git`: no such file");
    assert_eq!(
        DotstrapError::BrewUnavailable.describe("ignored"),
        "Homebrew is not installed or not executable"
    );
}

#[test]
fn value_map_replaces_and_counts_names_once() {
    let mut map = ValueMap::new();
    assert!(map.is_empty());
    map.insert("a".to_string(), Datum::Bool(true));
    map.insert("b".to_string(), Datum::Null);
    map.insert("a".to_string(), Datum::Bool(false));
    assert_eq!(map.len(), 2);
    assert!(matches!(map.get("a"), Some(Datum::Bool(false))));
    assert!(map.contains_key("b"));
    assert!(!map.contains_key("c"));
    assert_eq!(map.entries().len(), 2);
    let copy = map.duplicate();
    assert_eq!(format!("{copy:?}"), format!("{map:?}"));
    match map.into_object() {
        Datum::Object(entries) => assert_eq!(entries.len(), 2),
        other => panic!("unexpected value: {other:?}"),
    }
}

#[test]
fn copies_of_values_equal_their_sources() {
    let value = Datum::Object(vec![
        ("b".to_string(), Datum::Array(vec![Datum::Null, Datum::Bool(true)])),
        ("a".to_string(), Datum::String("x".to_string())),
        ("b".to_string(), Datum::Number(serde_json::Number::from(3u64))),
    ]);
    assert!(matches!(value.get("a"), Some(Datum::String(s)) if s == "x"));
    assert!(matches!(value.get("b"), Some(Datum::Number(n)) if n.as_u64() == Some(3)));
    assert!(Datum::Null.get("a").is_none());
    let copy = value.clone();
    assert_eq!(format!("{copy:?}"), format!("{value:?}"));
    let copy = value.duplicate();
    assert_eq!(format!("{copy:?}"), format!("{value:?}"));
    let entries = vec![("k".to_string(), Datum::Null)];
    assert_eq!(format!("{:?}", duplicate_entries(&entries)), format!("{entries:?}"));
    let items = vec![Datum::Bool(false), Datum::Array(vec![])];
    assert_eq!(format!("{:?}", duplicate_items(&items)), format!("{items:?}"));
    let map = ValueMap::from_entries(&vec![
        ("k".to_string(), Datum::Bool(false)),
        ("k".to_string(), Datum::Bool(true)),
    ]);
    assert_eq!(map.len(), 1);
    assert!(matches!(map.get("k"), Some(Datum::Bool(true))));
}

#[test]
fn end_of_a_command() {
    assert!(exit_result("sh", true, Some(0)).is_ok());
    assert!(exit_result("sh", true, None).is_ok());
    assert!(matches!(
        exit_result("sh", false, Some(42)),
        Err(DotstrapError::CommandFailed { program, status }) if program == "sh" && status == 42
    ));
    assert!(matches!(
        exit_result("sh", false, None),
        Err(DotstrapError::CommandFailed { program, status }) if program == "sh" && status == -1
    ));
}

#[test]
fn report_lists_the_declared_destinations() {
    let manifest = Manifest {
        version: 1,
        templates: vec![
            TemplateMapping {
                source: "a".to_string(),
                destination: ".a".to_string(),
                mode: None,
            },
            TemplateMapping {
                source: "b".to_string(),
                destination: ".b".to_string(),
                mode: None,
            },
        ],
    };
    assert_eq!(rendered_destinations(&manifest), vec![".a", ".b"]);
    let report = build_report(
        &manifest,
        vec!["/h/.a".to_string(), "/h/.b".to_string()],
        vec!["brew update".to_string()],
        true,
    );
    assert_eq!(
        report,
        ExecutionReport {
            rendered: vec![".a".to_string(), ".b".to_string()],
            linked: vec!["/h/.a".to_string(), "/h/.b".to_string()],
            brew_commands: vec!["brew update".to_string()],
            dry_run: true,
        }
    );
    assert_eq!(
        ExecutionReport::default(),
        ExecutionReport {
            rendered: vec![],
            linked: vec![],
            brew_commands: vec![],
            dry_run: false,
        }
    );
}

#[test]
fn packages_are_skipped_on_request_or_without_a_package_list() {
    let spec = BrewSpec {
        taps: vec![],
        formulae: vec!["jq".to_string()],
        casks: vec![],
    };
    let mut executor = RecordingCommandExecutor::default();
    assert!(install_packages(true, Some(spec.clone()), &mut executor, false)
        .unwrap()
        .is_empty());
    assert!(install_packages(false, None, &mut executor, false)
        .unwrap()
        .is_empty());
    assert!(executor.calls().is_empty());
    assert_eq!(
        install_packages(false, Some(spec), &mut executor, false).unwrap(),
        vec!["brew update", "brew install jq"]
    );
    assert_eq!(executor.calls().len(), 3);
}
