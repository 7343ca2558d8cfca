//! Linking: for each rendered template, the filesystem operations that make its
//! destination a symbolic link to a staged copy, whatever stood there before.
//!
//! Nothing here touches the filesystem. The caller looks at a destination, asks for
//! the operations, and performs them in order.

use crate::services::templating::{RenderedSet, RenderedTemplate};
use crate::text::{
    decimal,
    decimal_text,
    file_name_of,
    join_path,
    parent_of,
    path_file_name,
    path_parent,
    spec_join,
};
use vstd::prelude::*;

verus! {

/// What stands at a path, links not followed.
#[derive(Debug, Clone, Copy, PartialEq, Eq, Structural)]
pub enum Occupancy {
    /// Nothing.
    Vacant,
    /// A symbolic link, dangling or not.
    Link,
    /// A file or directory.
    Foreign,
}

/// One filesystem operation.
#[derive(Debug)]
pub enum LinkAction {
    /// Create a directory and its missing ancestors.
    CreateDirAll { path: String },
    /// Remove a file or a symbolic link.
    RemoveFile { path: String },
    /// Move what stands at `from` to `to`.
    Rename { from: String, to: String },
    /// Copy the contents of the file `from` to `to`.
    Copy { from: String, to: String },
    /// Set the permission bits of a file, where the platform has them.
    SetMode { path: String, mode: u32 },
    /// Create a symbolic link at `link` that points to `target`.
    Symlink { target: String, link: String },
}

/// Model of a filesystem operation.
pub ghost enum Action {
    CreateDirAll { path: Seq<char> },
    RemoveFile { path: Seq<char> },
    Rename { from: Seq<char>, to: Seq<char> },
    Copy { from: Seq<char>, to: Seq<char> },
    SetMode { path: Seq<char>, mode: u32 },
    Symlink { target: Seq<char>, link: Seq<char> },
}

impl View for LinkAction {
    type V = Action;

    open spec fn view(&self) -> Action {
        match self {
            LinkAction::CreateDirAll { path } => Action::CreateDirAll { path: path@ },
            LinkAction::RemoveFile { path } => Action::RemoveFile { path: path@ },
            LinkAction::Rename { from, to } => Action::Rename { from: from@, to: to@ },
            LinkAction::Copy { from, to } => Action::Copy { from: from@, to: to@ },
            LinkAction::SetMode { path, mode } => Action::SetMode { path: path@, mode: *mode },
            LinkAction::Symlink { target, link } => Action::Symlink {
                target: target@,
                link: link@,
            },
        }
    }
}

/// The models of a list of operations.
pub open spec fn action_views(actions: Seq<LinkAction>) -> Seq<Action> {
    Seq::new(actions.len(), |i: int| actions[i]@)
}

/// The texts of a list of paths.
pub open spec fn path_texts(paths: Seq<String>) -> Seq<Seq<char>> {
    Seq::new(paths.len(), |i: int| paths[i]@)
}

/// The directory under the home directory that holds the staged copies.
pub open spec fn stage_root(home: Seq<char>) -> Seq<char> {
    spec_join(home, ".dotstrap/generated"@)
}

/// Where a mapping's destination stands under the home directory.
pub open spec fn destination(home: Seq<char>, relative: Seq<char>) -> Seq<char> {
    spec_join(home, relative)
}

/// Where the staged copy of a mapping stands: under the staging root, at the
/// destination's relative path.
pub open spec fn stage_path(home: Seq<char>, relative: Seq<char>) -> Seq<char> {
    spec_join(stage_root(home), relative)
}

/// The backup directory of a path: a sibling of the path.
pub open spec fn backup_dir(path: Seq<char>) -> Seq<char> {
    backup_dir_beside(parent_of(path))
}

/// The name of a backup: the file's own name, the run's marker and a fixed ending.
pub open spec fn backup_name(path: Seq<char>, marker: nat) -> Seq<char> {
    backup_name_of(file_name_of(path), marker)
}

/// Where the backup of a path goes in the run marked `marker`.
pub open spec fn backup_path(path: Seq<char>, marker: nat) -> Seq<char> {
    spec_join(backup_dir(path), backup_name(path, marker))
}

/// Making sure that the parent of a path exists: one operation where the path has
/// a parent, none where it has not.
pub open spec fn parent_plan(path: Seq<char>) -> Seq<Action> {
    match parent_of(path) {
        Some(parent) => seq![Action::CreateDirAll { path: parent }],
        None => Seq::empty(),
    }
}

/// Clearing a destination. A vacant one needs nothing; a symbolic link is removed
/// outright; anything else is moved into the backup directory beside it.
pub open spec fn reconcile_plan(path: Seq<char>, occupancy: Occupancy, marker: nat) -> Seq<Action> {
    match occupancy {
        Occupancy::Vacant => Seq::empty(),
        Occupancy::Link => seq![Action::RemoveFile { path }],
        Occupancy::Foreign => seq![
            Action::CreateDirAll { path: backup_dir(path) },
            Action::Rename { from: path, to: backup_path(path, marker) },
        ],
    }
}

/// Applying a mode: one operation where the mapping has a mode, none where it has not.
pub open spec fn mode_plan(path: Seq<char>, mode: Option<u32>) -> Seq<Action> {
    match mode {
        Some(bits) => seq![Action::SetMode { path, mode: bits }],
        None => Seq::empty(),
    }
}

/// Everything that linking one template takes, in order: the destination's parent,
/// clearing the destination, the staged copy's parent, the copy, its mode, the link.
pub open spec fn link_plan(
    home: Seq<char>,
    relative: Seq<char>,
    mode: Option<u32>,
    rendered_path: Seq<char>,
    occupancy: Occupancy,
    marker: nat,
) -> Seq<Action> {
    let dest = destination(home, relative);
    let stage = stage_path(home, relative);
    parent_plan(dest) + reconcile_plan(dest, occupancy, marker) + parent_plan(stage) + seq![
        Action::Copy { from: rendered_path, to: stage },
    ] + mode_plan(stage, mode) + seq![Action::Symlink { target: stage, link: dest }]
}

/// The staging root's path.
pub fn stage_root_path(home: &str) -> (r: String)
    ensures
        r@ == stage_root(home@),
{
    join_path(home, ".dotstrap/generated")
}

/// The operation that makes sure of a parent, where there is one.
pub fn parent_action(parent: Option<String>) -> (r: Vec<LinkAction>)
    ensures
        match parent {
            Some(dir) => action_views(r@) == seq![Action::CreateDirAll { path: dir@ }],
            None => r@.len() == 0,
        },
{
    let mut out: Vec<LinkAction> = Vec::new();
    match parent {
        Some(dir) => {
            out.push(LinkAction::CreateDirAll { path: dir });
            assert(action_views(out@) =~= seq![Action::CreateDirAll { path: dir@ }]);
        },
        None => {},
    }
    out
}

/// The operation that makes sure a path's parent exists, if the path has a parent.
pub fn ensure_parent(path: &str) -> (r: Vec<LinkAction>)
    ensures
        action_views(r@) == parent_plan(path@),
{
    let out = parent_action(path_parent(path));
    assert(action_views(out@) =~= parent_plan(path@));
    out
}

/// The backup directory beside a path with the parent `parent`; the bare directory
/// name where the path has no parent.
pub open spec fn backup_dir_beside(parent: Option<Seq<char>>) -> Seq<char> {
    match parent {
        Some(dir) => spec_join(dir, ".dotstrap-backups"@),
        None => ".dotstrap-backups"@,
    }
}

/// The name of the backup of a file named `file_name` in the run marked `marker`;
/// a file without a name is backed up as `config`.
pub open spec fn backup_name_of(file_name: Option<Seq<char>>, marker: nat) -> Seq<char> {
    let stem = match file_name {
        Some(name) => name,
        None => "config"@,
    };
    stem + seq!['.'] + decimal(marker) + ".bak"@
}

/// The backup directory beside a path, given the path's parent.
pub fn backup_dir_from(parent: Option<String>) -> (r: String)
    ensures
        r@ == backup_dir_beside(
            match parent {
                Some(dir) => Some(dir@),
                None => None,
            },
        ),
{
    match parent {
        Some(dir) => join_path(dir.as_str(), ".dotstrap-backups"),
        None => String::from_str(".dotstrap-backups"),
    }
}

/// The name of a backup, given the file's name and the run's marker.
pub fn backup_name_from(file_name: Option<String>, marker: u64) -> (r: String)
    ensures
        r@ == backup_name_of(
            match file_name {
                Some(name) => Some(name@),
                None => None,
            },
            marker as nat,
        ),
{
    let mut name = match file_name {
        Some(name) => name,
        None => String::from_str("config"),
    };
    proof {
        reveal_strlit(".");
    }
    let ghost stem = name@;
    name.append(".");
    name.append(decimal_text(marker).as_str());
    name.append(".bak");
    assert(name@ =~= stem + seq!['.'] + decimal(marker as nat) + ".bak"@);
    name
}

/// The path of the backup of `path` in the run marked `marker`.
pub fn backup_target(path: &str, marker: u64) -> (r: String)
    ensures
        r@ == backup_path(path@, marker as nat),
{
    let dir = backup_dir_path(path);
    let name = backup_name_from(path_file_name(path), marker);
    join_path(dir.as_str(), name.as_str())
}

/// The backup directory of `path`.
pub fn backup_dir_path(path: &str) -> (r: String)
    ensures
        r@ == backup_dir(path@),
{
    backup_dir_from(path_parent(path))
}

/// The operations that clear a destination, given what stands there.
pub fn reconcile_existing(path: &str, occupancy: Occupancy, marker: u64) -> (r: Vec<LinkAction>)
    ensures
        action_views(r@) == reconcile_plan(path@, occupancy, marker as nat),
{
    let mut out: Vec<LinkAction> = Vec::new();
    match occupancy {
        Occupancy::Vacant => {},
        Occupancy::Link => {
            out.push(LinkAction::RemoveFile { path: String::from_str(path) });
        },
        Occupancy::Foreign => {
            out.push(LinkAction::CreateDirAll { path: backup_dir_path(path) });
            out.push(
                LinkAction::Rename { from: String::from_str(path), to: backup_target(path, marker) },
            );
        },
    }
    assert(action_views(out@) =~= reconcile_plan(path@, occupancy, marker as nat));
    out
}

/// The operation that applies a mapping's mode to its staged copy, if it has a mode.
pub fn apply_mode(path: &str, mode: Option<u32>) -> (r: Vec<LinkAction>)
    ensures
        action_views(r@) == mode_plan(path@, mode),
{
    let mut out: Vec<LinkAction> = Vec::new();
    match mode {
        Some(bits) => {
            out.push(LinkAction::SetMode { path: String::from_str(path), mode: bits });
        },
        None => {},
    }
    assert(action_views(out@) =~= mode_plan(path@, mode));
    out
}

/// The operation that links a destination to its staged copy.
pub fn create_symlink(source: &str, destination: &str) -> (r: LinkAction)
    ensures
        r@ == (Action::Symlink { target: source@, link: destination@ }),
{
    LinkAction::Symlink { target: String::from_str(source), link: String::from_str(destination) }
}

/// Moves the operations of `more` to the end of `actions`.
fn extend(actions: &mut Vec<LinkAction>, more: Vec<LinkAction>)
    ensures
        action_views(final(actions)@) == action_views(old(actions)@) + action_views(more@),
{
    let ghost before = actions@;
    let ghost all = more@;
    let mut rest = more;
    let ghost mut done: int = 0;
    while rest.len() > 0
        invariant
            0 <= done <= all.len(),
            rest@ == all.skip(done),
            actions@ == before + all.take(done),
        decreases rest.len(),
    {
        let action = rest.remove(0);
        actions.push(action);
        proof {
            assert(actions@ =~= before + all.take(done + 1));
            assert(rest@ =~= all.skip(done + 1));
            done = done + 1;
        }
    }
    assert(all.take(done) =~= all);
    assert(action_views(actions@) =~= action_views(before) + action_views(all));
}

/// The operations that link one rendered template, given what stands at its
/// destination and the marker of the run. A dry run asks for none.
pub fn link_template(
    home: &str,
    item: &RenderedTemplate,
    occupancy: Occupancy,
    marker: u64,
    dry_run: bool,
) -> (r: Vec<LinkAction>)
    ensures
        dry_run ==> r@.len() == 0,
        !dry_run ==> action_views(r@) == link_plan(
            home@,
            item.template.destination@,
            item.template.mode,
            item.rendered_path@,
            occupancy,
            marker as nat,
        ),
{
    let mut out: Vec<LinkAction> = Vec::new();
    if dry_run {
        return out;
    }
    let dest = join_path(home, item.template.destination.as_str());
    let root = stage_root_path(home);
    let stage = join_path(root.as_str(), item.template.destination.as_str());
    assert(action_views(out@) =~= Seq::<Action>::empty());
    extend(&mut out, ensure_parent(dest.as_str()));
    extend(&mut out, reconcile_existing(dest.as_str(), occupancy, marker));
    extend(&mut out, ensure_parent(stage.as_str()));
    let copy = LinkAction::Copy { from: item.rendered_path.clone(), to: stage.clone() };
    let ghost before = action_views(out@);
    out.push(copy);
    assert(action_views(out@) =~= before + seq![
        Action::Copy { from: item.rendered_path@, to: stage@ },
    ]);
    extend(&mut out, apply_mode(stage.as_str(), item.template.mode));
    let ghost before_link = action_views(out@);
    out.push(create_symlink(stage.as_str(), dest.as_str()));
    assert(action_views(out@) =~= before_link + seq![
        Action::Symlink { target: stage@, link: dest@ },
    ]);
    out
}

/// What has to be done before the first template is linked: the staging root is
/// created. A dry run asks for nothing.
pub fn prepare_staging(home: &str, dry_run: bool) -> (r: Vec<LinkAction>)
    ensures
        dry_run ==> r@.len() == 0,
        !dry_run ==> action_views(r@) == seq![Action::CreateDirAll { path: stage_root(home@) }],
{
    let mut out: Vec<LinkAction> = Vec::new();
    if !dry_run {
        out.push(LinkAction::CreateDirAll { path: stage_root_path(home) });
        assert(action_views(out@) =~= seq![Action::CreateDirAll { path: stage_root(home@) }]);
    }
    out
}

/// The destinations of a rendered set under a home directory, in the set's order.
pub open spec fn destinations(home: Seq<char>, templates: Seq<RenderedTemplate>) -> Seq<Seq<char>> {
    Seq::new(templates.len(), |i: int| destination(home, templates[i].template.destination@))
}

/// The destination of every rendered template, in order. The list is the same in a
/// dry run and outside one.
pub fn link_templates(home: &str, rendered: &RenderedSet, dry_run: bool) -> (linked: Vec<String>)
    ensures
        path_texts(linked@) == destinations(home@, rendered.templates@),
{
    let _ = dry_run;
    let mut linked: Vec<String> = Vec::new();
    let mut i: usize = 0;
    while i < rendered.templates.len()
        invariant
            i <= rendered.templates.len(),
            linked@.len() == i,
            forall|j: int|
                0 <= j < i ==> (#[trigger] linked@[j])@ == destination(
                    home@,
                    rendered.templates@[j].template.destination@,
                ),
        decreases rendered.templates.len() - i,
    {
        linked.push(join_path(home, rendered.templates[i].template.destination.as_str()));
        i += 1;
    }
    assert(path_texts(linked@) =~= destinations(home@, rendered.templates@));
    linked
}

} // verus!
