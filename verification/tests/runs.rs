use dotstrap::config::{load_manifest, load_values, Manifest, TemplateMapping};
use dotstrap::errors::DotstrapError;
use dotstrap::services::linker::{
    link_template, link_templates, prepare_staging, LinkAction, Occupancy,
};
use dotstrap::services::templating::{
    build_context, render_templates, RenderedSet, RenderedTemplate,
};
use dotstrap::value::ValueMap;
use std::collections::BTreeMap;

#[derive(Debug, Clone, PartialEq)]
enum Node {
    Dir,
    File { contents: String, mode: u32 },
    Link { target: String },
}

type Tree = BTreeMap<String, Node>;

fn probe(fs: &Tree, path: &str) -> Occupancy {
    match fs.get(path) {
        None => Occupancy::Vacant,
        Some(Node::Link { .. }) => Occupancy::Link,
        Some(_) => Occupancy::Foreign,
    }
}

fn perform(fs: &mut Tree, action: &LinkAction) {
    match action {
        LinkAction::CreateDirAll { path } => {
            fs.entry(path.clone()).or_insert(Node::Dir);
        }
        LinkAction::RemoveFile { path } => {
            assert!(fs.remove(path).is_some(), "nothing to remove at {path}");
        }
        LinkAction::Rename { from, to } => {
            assert!(!fs.contains_key(to), "a backup must not be overwritten");
            let node = fs.remove(from).expect("nothing to move");
            fs.insert(to.clone(), node);
        }
        LinkAction::Copy { from, to } => {
            let node = fs.get(from).cloned().expect("nothing to copy");
            assert!(matches!(node, Node::File { .. }));
            fs.insert(to.clone(), node);
        }
        LinkAction::SetMode { path, mode } => match fs.get_mut(path) {
            Some(Node::File { mode: bits, .. }) => *bits = *mode,
            other => panic!("no file at {path}: {other:?}"),
        },
        LinkAction::Symlink { target, link } => {
            assert!(!fs.contains_key(link), "{link} is occupied");
            fs.insert(
                link.clone(),
                Node::Link {
                    target: target.clone(),
                },
            );
        }
    }
}

fn link_all(fs: &mut Tree, home: &str, rendered: &RenderedSet, dry_run: bool, marker: u64) -> Vec<String> {
    let linked = link_templates(home, rendered, dry_run);
    for action in prepare_staging(home, dry_run) {
        perform(fs, &action);
    }
    for (item, destination) in rendered.templates.iter().zip(linked.iter()) {
        let occupancy = probe(fs, destination);
        for action in link_template(home, item, occupancy, marker, dry_run) {
            perform(fs, &action);
        }
    }
    linked
}

fn file(contents: &str) -> Node {
    Node::File {
        contents: contents.to_string(),
        mode: 0o644,
    }
}

fn rendered_set(fs: &mut Tree, destination: &str, mode: Option<u32>, contents: &str) -> RenderedSet {
    fs.insert("/scratch/rendered_0".to_string(), file(contents));
    RenderedSet {
        templates: vec![RenderedTemplate {
            template: TemplateMapping {
                source: "source.txt".to_string(),
                destination: destination.to_string(),
                mode,
            },
            rendered_path: "/scratch/rendered_0".to_string(),
        }],
        contents: vec![contents.to_string()],
    }
}

#[test]
fn link_templates_creates_symlinks_and_backups_existing_files() {
    let mut fs = Tree::new();
    let rendered_set = rendered_set(&mut fs, ".config/app.conf", Some(0o700), "new contents");
    fs.insert("/home/u/.config".to_string(), Node::Dir);
    fs.insert("/home/u/.config/app.conf".to_string(), file("old contents"));

    let linked = link_all(&mut fs, "/home/u", &rendered_set, false, 1700000000);

    assert_eq!(linked, vec!["/home/u/.config/app.conf".to_string()]);
    let stage_path = "/home/u/.dotstrap/generated/.config/app.conf";
    assert_eq!(
        fs.get("/home/u/.config/app.conf"),
        Some(&Node::Link {
            target: stage_path.to_string()
        }),
        "destination should be a symlink"
    );
    assert_eq!(
        fs.get(stage_path),
        Some(&Node::File {
            contents: "new contents".to_string(),
            mode: 0o700
        }),
        "stage file should apply requested mode"
    );
    let backups: Vec<_> = fs
        .iter()
        .filter(|(path, _)| path.starts_with("/home/u/.config/.dotstrap-backups/"))
        .collect();
    assert_eq!(backups.len(), 1, "exactly one backup should be created");
    assert_eq!(backups[0].1, &file("old contents"));
}

#[test]
fn linking_twice_leaves_the_same_state() {
    let mut fs = Tree::new();
    let set = rendered_set(&mut fs, ".config/app.conf", Some(0o600), "text");
    fs.insert("/home/u/.config/app.conf".to_string(), file("old"));
    link_all(&mut fs, "/home/u", &set, false, 10);
    let once = fs.clone();
    link_all(&mut fs, "/home/u", &set, false, 11);
    assert_eq!(fs, once);
    assert_eq!(fs.keys().filter(|path| path.ends_with(".bak")).count(), 1);
}

#[test]
fn second_foreign_file_gets_a_backup_of_its_own() {
    let mut fs = Tree::new();
    let set = rendered_set(&mut fs, ".profile", None, "managed");
    fs.insert("/home/u/.profile".to_string(), file("first"));
    link_all(&mut fs, "/home/u", &set, false, 100);
    fs.insert("/home/u/.profile".to_string(), file("second"));
    link_all(&mut fs, "/home/u", &set, false, 101);
    assert_eq!(
        fs.get("/home/u/.dotstrap-backups/.profile.100.bak"),
        Some(&file("first"))
    );
    assert_eq!(
        fs.get("/home/u/.dotstrap-backups/.profile.101.bak"),
        Some(&file("second"))
    );
    assert!(matches!(fs.get("/home/u/.profile"), Some(Node::Link { .. })));
}

#[test]
fn dry_run_asks_for_nothing_and_lists_the_same_destinations() {
    let mut fs = Tree::new();
    let set = rendered_set(&mut fs, ".config/app.conf", Some(0o600), "text");
    fs.insert("/home/u/.config/app.conf".to_string(), file("old"));
    let before = fs.clone();
    let dry = link_all(&mut fs, "/home/u", &set, true, 1);
    assert_eq!(fs, before);
    let wet = link_all(&mut fs, "/home/u", &set, false, 1);
    assert_eq!(dry, wet);
    assert_ne!(fs, before);
}

#[test]
fn greeting_is_rendered_staged_and_linked() {
    let manifest = Manifest {
        version: 1,
        templates: vec![TemplateMapping {
            source: "greeting.tpl".to_string(),
            destination: ".greeting".to_string(),
            mode: None,
        }],
    };
    let manifest = load_manifest("/repo", Ok(manifest)).unwrap();
    let values = load_values("/repo", Some(b"name: Ava\n")).unwrap();
    let context = build_context(&values, &ValueMap::new());
    let set = render_templates(
        "/repo",
        "/scratch",
        &manifest,
        vec![Ok("Hello {{name}}!".to_string())],
        &context,
    )
    .unwrap();
    let mut fs = Tree::new();
    for (item, contents) in set.templates.iter().zip(set.contents.iter()) {
        fs.insert(item.rendered_path.clone(), file(contents));
    }
    link_all(&mut fs, "/home/ava", &set, false, 1);
    let target = match fs.get("/home/ava/.greeting") {
        Some(Node::Link { target }) => target.clone(),
        other => panic!("destination is not a link: {other:?}"),
    };
    assert_eq!(target, "/home/ava/.dotstrap/generated/.greeting");
    assert_eq!(fs.get(&target), Some(&file("Hello Ava!")));
}

#[test]
fn manifest_without_templates_fails_before_anything_is_rendered() {
    let manifest = Manifest {
        version: 1,
        templates: vec![],
    };
    let error = load_manifest("/repo", Ok(manifest)).unwrap_err();
    assert!(matches!(error, DotstrapError::ManifestMissingTemplates(path) if path == "/repo/manifest.yaml"));
}

#[test]
fn declared_mode_is_applied_to_the_staged_file() {
    let mut fs = Tree::new();
    let set = rendered_set(&mut fs, "bin/tool", Some(0o700), "#!/bin/sh\n");
    link_all(&mut fs, "/home/u", &set, false, 1);
    assert_eq!(
        fs.get("/home/u/.dotstrap/generated/bin/tool"),
        Some(&Node::File {
            contents: "#!/bin/sh\n".to_string(),
            mode: 0o700
        })
    );
    assert_eq!(
        fs.get("/scratch/rendered_0"),
        Some(&file("#!/bin/sh\n")),
        "the rendered file keeps its own mode"
    );
}
