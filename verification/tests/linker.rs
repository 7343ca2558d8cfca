use dotstrap::config::TemplateMapping;
use dotstrap::services::linker::{
    apply_mode, backup_dir_from, backup_dir_path, backup_name_from, backup_target, create_symlink,
    parent_action, ensure_parent, link_template, link_templates, prepare_staging,
    reconcile_existing, stage_root_path, LinkAction, Occupancy,
};
use dotstrap::services::templating::{RenderedSet, RenderedTemplate};
use std::path::{Path, PathBuf};

fn build_rendered_set(destination: PathBuf, mode: Option<u32>, contents: &str) -> RenderedSet {
    let mapping = TemplateMapping {
        source: "source.txt".to_string(),
        destination: destination.to_str().unwrap().to_string(),
        mode,
    };
    RenderedSet {
        templates: vec![RenderedTemplate {
            template: mapping,
            rendered_path: "/scratch/rendered.txt".to_string(),
        }],
        contents: vec![contents.to_string()],
    }
}

fn show(actions: &[LinkAction]) -> Vec<String> {
    actions
        .iter()
        .map(|a| match a {
            LinkAction::CreateDirAll { path } => format!("mkdir {path}"),
            LinkAction::RemoveFile { path } => format!("rm {path}"),
            LinkAction::Rename { from, to } => format!("mv {from} {to}"),
            LinkAction::Copy { from, to } => format!("cp {from} {to}"),
            LinkAction::SetMode { path, mode } => format!("chmod {mode:o} {path}"),
            LinkAction::Symlink { target, link } => format!("ln {target} {link}"),
        })
        .collect()
}

#[test]
fn link_templates_dry_run_returns_destinations_without_side_effects() {
    let home = tempfile::TempDir::new().expect("failed to create home tempdir");
    let destination = PathBuf::from(".config/app.conf");
    let rendered_set = build_rendered_set(destination.clone(), None, "ignored");
    let home_text = home.path().to_str().unwrap();

    let linked = link_templates(home_text, &rendered_set, true);

    let expected_destination = home.path().join(&destination);
    assert_eq!(
        linked,
        vec![expected_destination.to_str().unwrap().to_string()]
    );
    assert!(prepare_staging(home_text, true).is_empty());
    assert!(link_template(
        home_text,
        &rendered_set.templates[0],
        Occupancy::Foreign,
        1,
        true
    )
    .is_empty());
    assert!(
        !expected_destination.exists(),
        "dry run must not create destination files"
    );
    assert!(
        !home.path().join(".dotstrap").exists(),
        "dry run must not create staging directories"
    );
}

#[test]
fn destinations_are_the_same_with_and_without_a_dry_run() {
    let set = RenderedSet {
        templates: vec![
            RenderedTemplate {
                template: TemplateMapping {
                    source: "a".to_string(),
                    destination: ".a".to_string(),
                    mode: None,
                },
                rendered_path: "/s/rendered_0".to_string(),
            },
            RenderedTemplate {
                template: TemplateMapping {
                    source: "b".to_string(),
                    destination: "dir/b".to_string(),
                    mode: Some(0o644),
                },
                rendered_path: "/s/rendered_1".to_string(),
            },
        ],
        contents: vec!["x".to_string(), "y".to_string()],
    };
    let dry = link_templates("/home/u", &set, true);
    let wet = link_templates("/home/u", &set, false);
    assert_eq!(dry, wet);
    assert_eq!(dry, vec!["/home/u/.a", "/home/u/dir/b"]);
}

#[test]
fn vacant_destination_is_staged_and_linked() {
    let set = build_rendered_set(PathBuf::from(".config/app.conf"), Some(0o700), "new");
    let actions = link_template("/home/u", &set.templates[0], Occupancy::Vacant, 5, false);
    assert_eq!(
        show(&actions),
        vec![
            "mkdir /home/u/.config",
            "mkdir /home/u/.dotstrap/generated/.config",
            "cp /scratch/rendered.txt /home/u/.dotstrap/generated/.config/app.conf",
            "chmod 700 /home/u/.dotstrap/generated/.config/app.conf",
            "ln /home/u/.dotstrap/generated/.config/app.conf /home/u/.config/app.conf",
        ]
    );
}

#[test]
fn link_at_the_destination_is_removed_without_a_backup() {
    let set = build_rendered_set(PathBuf::from(".greeting"), None, "new");
    let actions = link_template("/home/u", &set.templates[0], Occupancy::Link, 5, false);
    assert_eq!(
        show(&actions),
        vec![
            "mkdir /home/u",
            "rm /home/u/.greeting",
            "mkdir /home/u/.dotstrap/generated",
            "cp /scratch/rendered.txt /home/u/.dotstrap/generated/.greeting",
            "ln /home/u/.dotstrap/generated/.greeting /home/u/.greeting",
        ]
    );
}

#[test]
fn foreign_file_is_moved_to_a_backup_beside_it() {
    let set = build_rendered_set(PathBuf::from(".config/app.conf"), None, "new");
    let actions = link_template(
        "/home/u",
        &set.templates[0],
        Occupancy::Foreign,
        1700000000,
        false,
    );
    assert_eq!(
        show(&actions),
        vec![
            "mkdir /home/u/.config",
            "mkdir /home/u/.config/.dotstrap-backups",
            "mv /home/u/.config/app.conf /home/u/.config/.dotstrap-backups/app.conf.1700000000.bak",
            "mkdir /home/u/.dotstrap/generated/.config",
            "cp /scratch/rendered.txt /home/u/.dotstrap/generated/.config/app.conf",
            "ln /home/u/.dotstrap/generated/.config/app.conf /home/u/.config/app.conf",
        ]
    );
}

#[test]
fn backups_of_different_runs_have_different_names() {
    let first = reconcile_existing("/h/.a", Occupancy::Foreign, 10);
    let second = reconcile_existing("/h/.a", Occupancy::Foreign, 11);
    assert_eq!(show(&first)[1], "mv /h/.a /h/.dotstrap-backups/.a.10.bak");
    assert_eq!(show(&second)[1], "mv /h/.a /h/.dotstrap-backups/.a.11.bak");
    assert_eq!(backup_target("/h/.a", 10), "/h/.dotstrap-backups/.a.10.bak");
    assert_ne!(backup_target("/h/.a", 10), backup_target("/h/.a", 11));
    assert_eq!(backup_dir_path("/h/d/f"), "/h/d/.dotstrap-backups");
    assert!(reconcile_existing("/h/.a", Occupancy::Vacant, 10).is_empty());
    assert_eq!(show(&reconcile_existing("/h/.a", Occupancy::Link, 10)), vec!["rm /h/.a"]);
}

#[test]
fn backup_of_a_path_without_parent_or_name() {
    let actions = reconcile_existing("/", Occupancy::Foreign, 0);
    assert_eq!(
        show(&actions),
        vec![
            "mkdir .dotstrap-backups",
            "mv / .dotstrap-backups/config.0.bak"
        ]
    );
    let dots = reconcile_existing("a/..", Occupancy::Foreign, u64::MAX);
    assert_eq!(
        show(&dots)[1],
        "mv a/.. a/.dotstrap-backups/config.18446744073709551615.bak"
    );
}

#[test]
fn small_steps_of_the_plan() {
    assert_eq!(show(&ensure_parent("/a/b/c")), vec!["mkdir /a/b"]);
    assert!(ensure_parent("/").is_empty());
    assert_eq!(show(&ensure_parent("name")), vec!["mkdir "]);
    assert!(apply_mode("/p", None).is_empty());
    assert_eq!(show(&apply_mode("/p", Some(0o755))), vec!["chmod 755 /p"]);
    assert_eq!(show(&[create_symlink("/t", "/l")]), vec!["ln /t /l"]);
    assert_eq!(stage_root_path("/home/u"), "/home/u/.dotstrap/generated");
    assert_eq!(
        show(&prepare_staging("/home/u", false)),
        vec!["mkdir /home/u/.dotstrap/generated"]
    );
    assert_eq!(
        Path::new(&stage_root_path("/home/u/")),
        Path::new("/home/u").join(".dotstrap/generated")
    );
}

#[test]
fn backup_names_and_directories_from_their_parts() {
    assert_eq!(backup_name_from(Some("app.conf".to_string()), 0), "app.conf.0.bak");
    assert_eq!(backup_name_from(None, 1700000000), "config.1700000000.bak");
    assert_eq!(backup_name_from(Some(String::new()), 7), ".7.bak");
    assert_eq!(
        backup_dir_from(Some("/home/u/.config".to_string())),
        "/home/u/.config/.dotstrap-backups"
    );
    assert_eq!(backup_dir_from(Some(String::new())), ".dotstrap-backups");
    assert_eq!(backup_dir_from(None), ".dotstrap-backups");
    assert!(parent_action(None).is_empty());
    assert_eq!(show(&parent_action(Some("/a".to_string()))), vec!["mkdir /a"]);
}
