use dotstrap::config::{Manifest, TemplateMapping};
use dotstrap::errors::DotstrapError;
use dotstrap::services::templating::{
    build_context, compile_result, render_result, render_templates,
};
use dotstrap::value::{Datum, ValueMap};

fn text(s: &str) -> Datum {
    Datum::String(s.to_string())
}

fn one_template(source: &str, destination: &str, mode: Option<u32>) -> Manifest {
    Manifest {
        version: 1,
        templates: vec![TemplateMapping {
            source: source.to_string(),
            destination: destination.to_string(),
            mode,
        }],
    }
}

#[test]
fn build_context_merges_values_and_secrets() {
    let mut values = ValueMap::new();
    values.insert("user".to_string(), text("dotstrap"));
    let mut secrets = ValueMap::new();
    secrets.insert("token".to_string(), text("secret"));

    let context = build_context(&values, &secrets);

    assert!(matches!(context.get("user"), Some(Datum::String(s)) if s == "dotstrap"));
    assert!(matches!(
        context.get("secrets").and_then(|s| s.get("token")),
        Some(Datum::String(s)) if s == "secret"
    ));
    assert_eq!(
        context.get("secrets").and_then(|s| match s {
            Datum::Object(entries) => Some(entries.len()),
            _ => None,
        }),
        Some(1),
        "secrets map should contain only the inserted secret"
    );
}

#[test]
fn build_context_lets_the_secrets_override_a_value_of_that_name() {
    let mut values = ValueMap::new();
    values.insert("secrets".to_string(), text("mine"));
    values.insert("name".to_string(), text("Ava"));
    let secrets = ValueMap::new();
    let context = build_context(&values, &secrets);
    match context.get("secrets") {
        Some(Datum::Object(entries)) => assert!(entries.is_empty()),
        other => panic!("unexpected value: {other:?}"),
    }
    assert!(matches!(context.get("name"), Some(Datum::String(s)) if s == "Ava"));
    let again = build_context(&values, &secrets);
    assert_eq!(format!("{context:?}"), format!("{again:?}"));
}

#[test]
fn render_templates_generates_expected_files() {
    let manifest = one_template("greeting.hbs", ".config/greeting.txt", Some(0o640));
    let context = Datum::Object(vec![("name".to_string(), text("Dotstrap"))]);

    let rendered_set = render_templates(
        "/repo",
        "/scratch",
        &manifest,
        vec![Ok("Hello {{name}}!".to_string())],
        &context,
    )
    .expect("rendering should succeed");

    assert_eq!(rendered_set.templates.len(), 1, "one template expected");
    let rendered = &rendered_set.templates[0];
    assert_eq!(rendered.template.destination, ".config/greeting.txt");
    assert_eq!(rendered.template.mode, Some(0o640));
    assert_eq!(rendered.rendered_path, "/scratch/rendered_0");
    assert_eq!(rendered_set.contents[0], "Hello Dotstrap!");
}

#[test]
fn render_templates_propagates_compile_errors() {
    let manifest = one_template("broken.hbs", "ignored.txt", None);
    let context = Datum::Object(vec![("user".to_string(), Datum::Bool(true))]);

    let error = match render_templates(
        "/repo",
        "/scratch",
        &manifest,
        vec![Ok("{{#if user}}Hello{{/iff}}".to_string())],
        &context,
    ) {
        Err(err) => err,
        Ok(_) => panic!("expected a compile error due to mismatched block"),
    };

    match error {
        DotstrapError::TemplateCompile { path, .. } => {
            assert_eq!(path, "/repo/broken.hbs");
        }
        other => panic!("unexpected error variant: {other:?}"),
    }
}

#[test]
fn render_templates_reports_render_errors_with_the_template() {
    let manifest = one_template("t.hbs", "out", None);
    let context = Datum::Object(vec![]);
    let error = render_templates(
        "/repo",
        "/scratch",
        &manifest,
        vec![Ok("{{no_such_helper 1 2}}".to_string())],
        &context,
    )
    .unwrap_err();
    match error {
        DotstrapError::Template { path, .. } => assert_eq!(path, "/repo/t.hbs"),
        other => panic!("unexpected error variant: {other:?}"),
    }
}

#[test]
fn render_templates_keeps_manifest_order_and_stops_at_the_first_failure() {
    let manifest = Manifest {
        version: 1,
        templates: vec![
            TemplateMapping {
                source: "a.hbs".to_string(),
                destination: ".a".to_string(),
                mode: None,
            },
            TemplateMapping {
                source: "b.hbs".to_string(),
                destination: ".b".to_string(),
                mode: Some(0o600),
            },
            TemplateMapping {
                source: "c.hbs".to_string(),
                destination: ".c".to_string(),
                mode: None,
            },
        ],
    };
    let context = Datum::Object(vec![
        ("n".to_string(), Datum::Number(serde_json::Number::from(7u64))),
        (
            "secrets".to_string(),
            Datum::Object(vec![("t".to_string(), text("s3"))]),
        ),
        (
            "list".to_string(),
            Datum::Array(vec![text("x"), text("y")]),
        ),
    ]);
    let set = render_templates(
        "/repo",
        "/tmp/s/",
        &manifest,
        vec![
            Ok("n={{n}}".to_string()),
            Ok("{{secrets.t}}".to_string()),
            Ok("{{#each list}}{{this}};{{/each}}".to_string()),
        ],
        &context,
    )
    .unwrap();
    assert_eq!(set.templates.len(), 3);
    assert_eq!(set.contents, vec!["n=7", "s3", "x;y;"]);
    assert_eq!(set.templates[0].template.destination, ".a");
    assert_eq!(set.templates[1].template.destination, ".b");
    assert_eq!(set.templates[2].template.destination, ".c");
    assert_eq!(set.templates[2].rendered_path, "/tmp/s/rendered_2");

    let failed = render_templates(
        "/repo",
        "/tmp/s",
        &manifest,
        vec![
            Ok("fine".to_string()),
            Err(std::io::Error::new(std::io::ErrorKind::NotFound, "gone")),
            Ok("{{#if}}".to_string()),
        ],
        &context,
    )
    .unwrap_err();
    assert!(matches!(failed, DotstrapError::Io(e) if e.kind() == std::io::ErrorKind::NotFound));
}

#[test]
fn later_templates_can_include_earlier_ones_by_position() {
    let manifest = Manifest {
        version: 1,
        templates: vec![
            TemplateMapping {
                source: "a.hbs".to_string(),
                destination: ".a".to_string(),
                mode: None,
            },
            TemplateMapping {
                source: "b.hbs".to_string(),
                destination: ".b".to_string(),
                mode: None,
            },
        ],
    };
    let context = Datum::Object(vec![("who".to_string(), text("Ava"))]);
    let set = render_templates(
        "/repo",
        "/s",
        &manifest,
        vec![
            Ok("Hello {{who}}!".to_string()),
            Ok("[{{> template_0}}]".to_string()),
        ],
        &context,
    )
    .unwrap();
    assert_eq!(set.contents, vec!["Hello Ava!", "[Hello Ava!]"]);
}

#[test]
fn last_entry_of_a_key_is_the_one_that_is_rendered() {
    let manifest = one_template("t.hbs", "out", None);
    let context = Datum::Object(vec![
        ("k".to_string(), text("first")),
        ("k".to_string(), text("last")),
    ]);
    let set = render_templates(
        "/repo",
        "/s",
        &manifest,
        vec![Ok("{{k}}".to_string())],
        &context,
    )
    .unwrap();
    assert_eq!(set.contents[0], "last");
}

#[test]
fn messages_of_template_errors_name_the_template() {
    let manifest = one_template("t.hbs", "out", None);
    let context = Datum::Object(vec![]);
    let compile = render_templates(
        "/repo",
        "/s",
        &manifest,
        vec![Ok("{{#if x}}".to_string())],
        &context,
    )
    .unwrap_err();
    let message = compile.message();
    assert!(
        message.starts_with("template compilation failure for `/repo/t.hbs`: "),
        "{message}"
    );
    assert!(message.len() > "template compilation failure for `/repo/t.hbs`: ".len());
    let render = render_templates(
        "/repo",
        "/s",
        &manifest,
        vec![Ok("{{missing_helper 1}}".to_string())],
        &context,
    )
    .unwrap_err();
    let message = render.message();
    assert!(
        message.starts_with("template render failure for `/repo/t.hbs`: "),
        "{message}"
    );
    assert!(message.len() > "template render failure for `/repo/t.hbs`: ".len());
}

#[test]
fn answers_of_the_engine_become_results_that_name_the_template() {
    assert!(compile_result(Ok(()), "/repo/t.hbs".to_string()).is_ok());
    let broken = handlebars::Template::compile("{{#if x}}").unwrap_err();
    assert!(matches!(
        compile_result(Err(broken), "/repo/t.hbs".to_string()),
        Err(DotstrapError::TemplateCompile { path, .. }) if path == "/repo/t.hbs"
    ));
    assert_eq!(
        render_result(Ok("text".to_string()), "/repo/t.hbs".to_string()).unwrap(),
        "text"
    );
    let failed = handlebars::Handlebars::new()
        .render("not registered", &0u8)
        .unwrap_err();
    assert!(matches!(
        render_result(Err(failed), "/repo/t.hbs".to_string()),
        Err(DotstrapError::Template { path, .. }) if path == "/repo/t.hbs"
    ));
}
