//! A model of the filesystem, on which the linking plan is reasoned about: what each
//! operation does where it succeeds, and what linking a template leaves behind.

use crate::services::linker::{
    backup_dir,
    backup_name,
    backup_path,
    destination,
    link_plan,
    mode_plan,
    parent_plan,
    reconcile_plan,
    stage_path,
    stage_root,
    Action,
    Occupancy,
};
use crate::text::{
    decimal,
    file_name_of,
    lemma_decimal_injective,
    lemma_join_injective,
    parent_of,
};
use vstd::prelude::*;

verus! {

/// What stands at a path.
pub ghost enum Node {
    /// A directory.
    Dir,
    /// A regular file with its bytes and permission bits.
    File { contents: Seq<u8>, mode: u32 },
    /// A symbolic link.
    Link { target: Seq<char> },
}

/// A filesystem: what stands at each occupied path.
pub type Tree = Map<Seq<char>, Node>;

/// What a look at a path shows, links not followed.
pub open spec fn occupancy_at(fs: Tree, path: Seq<char>) -> Occupancy {
    if !fs.contains_key(path) {
        Occupancy::Vacant
    } else if fs[path] is Link {
        Occupancy::Link
    } else {
        Occupancy::Foreign
    }
}

/// Whether a regular file stands at a path.
pub open spec fn is_file_at(fs: Tree, path: Seq<char>) -> bool {
    fs.contains_key(path) && fs[path] is File
}

/// The filesystem after an operation that succeeds. Only the paths that an operation
/// names are followed: creating a directory adds that directory where nothing stands,
/// a copy carries the permission bits along, and a link is only made where nothing
/// stands. An operation that would fail leaves the filesystem as it is.
pub open spec fn perform(fs: Tree, action: Action) -> Tree {
    match action {
        Action::CreateDirAll { path } => if fs.contains_key(path) {
            fs
        } else {
            fs.insert(path, Node::Dir)
        },
        Action::RemoveFile { path } => fs.remove(path),
        Action::Rename { from, to } => if fs.contains_key(from) {
            fs.remove(from).insert(to, fs[from])
        } else {
            fs
        },
        Action::Copy { from, to } => if is_file_at(fs, from) {
            fs.insert(to, fs[from])
        } else {
            fs
        },
        Action::SetMode { path, mode } => if is_file_at(fs, path) {
            fs.insert(path, Node::File { contents: fs[path]->contents, mode })
        } else {
            fs
        },
        Action::Symlink { target, link } => if fs.contains_key(link) {
            fs
        } else {
            fs.insert(link, Node::Link { target })
        },
    }
}

/// The filesystem after a list of operations, performed in order.
pub open spec fn perform_all(fs: Tree, actions: Seq<Action>) -> Tree
    decreases actions.len(),
{
    if actions.len() == 0 {
        fs
    } else {
        perform(perform_all(fs, actions.drop_last()), actions.last())
    }
}

/// Performing two lists one after the other is performing them put together.
pub proof fn lemma_perform_concat(fs: Tree, first: Seq<Action>, second: Seq<Action>)
    ensures
        perform_all(fs, first + second) == perform_all(perform_all(fs, first), second),
    decreases second.len(),
{
    if second.len() == 0 {
        assert(first + second =~= first);
    } else {
        lemma_perform_concat(fs, first, second.drop_last());
        assert((first + second).drop_last() =~= first + second.drop_last());
        assert((first + second).last() == second.last());
    }
}

/// Performing one operation, and performing two.
pub proof fn lemma_perform_few(fs: Tree, a: Action, b: Action)
    ensures
        perform_all(fs, Seq::empty()) == fs,
        perform_all(fs, seq![a]) == perform(fs, a),
        perform_all(fs, seq![a, b]) == perform(perform(fs, a), b),
{
    assert(seq![a].drop_last() =~= Seq::<Action>::empty());
    assert(seq![a, b].drop_last() =~= seq![a]);
    assert(perform_all(fs, seq![a]) == perform(perform_all(fs, seq![a].drop_last()), a));
    assert(perform_all(fs, seq![a, b]) == perform(perform_all(fs, seq![a, b].drop_last()), b));
}

/// The filesystem after the parent of `path` was made sure of.
pub open spec fn after_parent(fs: Tree, path: Seq<char>) -> Tree {
    match parent_of(path) {
        Some(parent) => perform(fs, Action::CreateDirAll { path: parent }),
        None => fs,
    }
}

/// The filesystem after `path` was cleared.
pub open spec fn after_reconcile(fs: Tree, path: Seq<char>, occupancy: Occupancy, marker: nat) -> Tree {
    match occupancy {
        Occupancy::Vacant => fs,
        Occupancy::Link => perform(fs, Action::RemoveFile { path }),
        Occupancy::Foreign => perform(
            perform(fs, Action::CreateDirAll { path: backup_dir(path) }),
            Action::Rename { from: path, to: backup_path(path, marker) },
        ),
    }
}

/// The filesystem after a mode was applied to `path`, if there is one to apply.
pub open spec fn after_mode(fs: Tree, path: Seq<char>, mode: Option<u32>) -> Tree {
    match mode {
        Some(bits) => perform(fs, Action::SetMode { path, mode: bits }),
        None => fs,
    }
}

/// The filesystem after one template was linked, step by step.
pub open spec fn after_link(
    fs: Tree,
    home: Seq<char>,
    relative: Seq<char>,
    mode: Option<u32>,
    rendered_path: Seq<char>,
    occupancy: Occupancy,
    marker: nat,
) -> Tree {
    let dest = destination(home, relative);
    let stage = stage_path(home, relative);
    let cleared = after_reconcile(after_parent(fs, dest), dest, occupancy, marker);
    let copied = perform(after_parent(cleared, stage), Action::Copy { from: rendered_path, to: stage });
    perform(after_mode(copied, stage, mode), Action::Symlink { target: stage, link: dest })
}

/// Performing the plan of a template is going through its steps.
pub proof fn lemma_plan_steps(
    fs: Tree,
    home: Seq<char>,
    relative: Seq<char>,
    mode: Option<u32>,
    rendered_path: Seq<char>,
    occupancy: Occupancy,
    marker: nat,
)
    ensures
        perform_all(fs, link_plan(home, relative, mode, rendered_path, occupancy, marker))
            == after_link(fs, home, relative, mode, rendered_path, occupancy, marker),
{
    let dest = destination(home, relative);
    let stage = stage_path(home, relative);
    let a = parent_plan(dest);
    let b = reconcile_plan(dest, occupancy, marker);
    let c = parent_plan(stage);
    let d = seq![Action::Copy { from: rendered_path, to: stage }];
    let e = mode_plan(stage, mode);
    let f = seq![Action::Symlink { target: stage, link: dest }];
    let filler = Action::RemoveFile { path: dest };
    lemma_perform_concat(fs, a + b + c + d + e, f);
    lemma_perform_concat(fs, a + b + c + d, e);
    lemma_perform_concat(fs, a + b + c, d);
    lemma_perform_concat(fs, a + b, c);
    lemma_perform_concat(fs, a, b);
    let fs_a = perform_all(fs, a);
    match parent_of(dest) {
        Some(parent) => lemma_perform_few(fs, Action::CreateDirAll { path: parent }, filler),
        None => lemma_perform_few(fs, filler, filler),
    }
    assert(fs_a == after_parent(fs, dest));
    let fs_b = perform_all(fs_a, b);
    match occupancy {
        Occupancy::Vacant => lemma_perform_few(fs_a, filler, filler),
        Occupancy::Link => lemma_perform_few(fs_a, Action::RemoveFile { path: dest }, filler),
        Occupancy::Foreign => lemma_perform_few(
            fs_a,
            Action::CreateDirAll { path: backup_dir(dest) },
            Action::Rename { from: dest, to: backup_path(dest, marker) },
        ),
    }
    assert(fs_b == after_reconcile(fs_a, dest, occupancy, marker));
    let fs_c = perform_all(fs_b, c);
    match parent_of(stage) {
        Some(parent) => lemma_perform_few(fs_b, Action::CreateDirAll { path: parent }, filler),
        None => lemma_perform_few(fs_b, filler, filler),
    }
    assert(fs_c == after_parent(fs_b, stage));
    let fs_d = perform_all(fs_c, d);
    lemma_perform_few(fs_c, Action::Copy { from: rendered_path, to: stage }, filler);
    let fs_e = perform_all(fs_d, e);
    match mode {
        Some(bits) => lemma_perform_few(fs_d, Action::SetMode { path: stage, mode: bits }, filler),
        None => lemma_perform_few(fs_d, filler, filler),
    }
    assert(fs_e == after_mode(fs_d, stage, mode));
    lemma_perform_few(fs_e, Action::Symlink { target: stage, link: dest }, filler);
}

/// The filesystem after one template was linked: the destination is looked at, and
/// the plan for what stands there is performed.
pub open spec fn link_once(
    fs: Tree,
    home: Seq<char>,
    relative: Seq<char>,
    mode: Option<u32>,
    rendered_path: Seq<char>,
    marker: nat,
) -> Tree {
    perform_all(
        fs,
        link_plan(
            home,
            relative,
            mode,
            rendered_path,
            occupancy_at(fs, destination(home, relative)),
            marker,
        ),
    )
}

/// Whether a directory path differs from each of the four file paths of a template.
pub open spec fn dir_apart(
    dir: Seq<char>,
    dest: Seq<char>,
    stage: Seq<char>,
    rendered_path: Seq<char>,
    backup: Seq<char>,
) -> bool {
    dir != dest && dir != stage && dir != rendered_path && dir != backup
}

/// The paths that linking a template touches are apart: the destination, the staged
/// copy, the rendered file and the backup are four different paths, and none of them
/// is the parent of the destination or of the staged copy, or the backup directory.
pub open spec fn paths_apart(
    home: Seq<char>,
    relative: Seq<char>,
    rendered_path: Seq<char>,
    marker: nat,
) -> bool {
    let dest = destination(home, relative);
    let stage = stage_path(home, relative);
    let backup = backup_path(dest, marker);
    &&& dest != stage
    &&& dest != rendered_path
    &&& dest != backup
    &&& stage != rendered_path
    &&& stage != backup
    &&& rendered_path != backup
    &&& dir_apart(backup_dir(dest), dest, stage, rendered_path, backup)
    &&& parent_of(dest) matches Some(parent) ==> dir_apart(
        parent,
        dest,
        stage,
        rendered_path,
        backup,
    )
    &&& parent_of(stage) matches Some(parent) ==> dir_apart(
        parent,
        dest,
        stage,
        rendered_path,
        backup,
    )
}

/// What linking leaves behind: the destination is a link to the staged copy, and the
/// staged copy holds the rendered bytes, with the mapping's mode where it has one.
pub proof fn lemma_link_result(
    fs: Tree,
    home: Seq<char>,
    relative: Seq<char>,
    mode: Option<u32>,
    rendered_path: Seq<char>,
    marker: nat,
)
    requires
        paths_apart(home, relative, rendered_path, marker),
        is_file_at(fs, rendered_path),
    ensures
        ({
            let dest = destination(home, relative);
            let stage = stage_path(home, relative);
            let after = link_once(fs, home, relative, mode, rendered_path, marker);
            &&& after.contains_key(dest) && after[dest] == (Node::Link { target: stage })
            &&& is_file_at(after, stage)
            &&& after[stage]->contents == fs[rendered_path]->contents
            &&& after[stage]->mode == match mode {
                Some(bits) => bits,
                None => fs[rendered_path]->mode,
            }
            &&& after.contains_key(rendered_path) && after[rendered_path] == fs[rendered_path]
            &&& parent_of(dest) matches Some(parent) ==> after.contains_key(parent)
            &&& parent_of(stage) matches Some(parent) ==> after.contains_key(parent)
        }),
{
    let dest = destination(home, relative);
    lemma_plan_steps(fs, home, relative, mode, rendered_path, occupancy_at(fs, dest), marker);
}

/// Linking twice in a row leaves the filesystem as linking once left it: the second
/// run finds its own link, replaces it, and makes no backup.
pub proof fn lemma_link_idempotent(
    fs: Tree,
    home: Seq<char>,
    relative: Seq<char>,
    mode: Option<u32>,
    rendered_path: Seq<char>,
    first_marker: nat,
    second_marker: nat,
)
    requires
        paths_apart(home, relative, rendered_path, first_marker),
        is_file_at(fs, rendered_path),
    ensures
        ({
            let once = link_once(fs, home, relative, mode, rendered_path, first_marker);
            link_once(once, home, relative, mode, rendered_path, second_marker) == once
        }),
{
    let dest = destination(home, relative);
    let once = link_once(fs, home, relative, mode, rendered_path, first_marker);
    lemma_plan_steps(fs, home, relative, mode, rendered_path, occupancy_at(fs, dest), first_marker);
    lemma_link_result(fs, home, relative, mode, rendered_path, first_marker);
    lemma_plan_steps(once, home, relative, mode, rendered_path, Occupancy::Link, second_marker);
    let twice = link_once(once, home, relative, mode, rendered_path, second_marker);
    assert(twice =~= once);
}

/// A file that occupies the destination is kept: after linking, the destination is
/// a link and the backup of this run holds what stood at the destination.
pub proof fn lemma_backup_keeps_displaced(
    fs: Tree,
    home: Seq<char>,
    relative: Seq<char>,
    mode: Option<u32>,
    rendered_path: Seq<char>,
    marker: nat,
)
    requires
        paths_apart(home, relative, rendered_path, marker),
        is_file_at(fs, rendered_path),
        occupancy_at(fs, destination(home, relative)) == Occupancy::Foreign,
    ensures
        ({
            let dest = destination(home, relative);
            let after = link_once(fs, home, relative, mode, rendered_path, marker);
            &&& after.contains_key(dest) && after[dest] is Link
            &&& after.contains_key(backup_path(dest, marker))
            &&& after[backup_path(dest, marker)] == fs[dest]
        }),
{
    let dest = destination(home, relative);
    lemma_plan_steps(fs, home, relative, mode, rendered_path, Occupancy::Foreign, marker);
}

/// Runs with different markers back up one path under different names.
pub proof fn lemma_backup_paths_differ(path: Seq<char>, first_marker: nat, second_marker: nat)
    requires
        first_marker != second_marker,
    ensures
        backup_path(path, first_marker) != backup_path(path, second_marker),
{
    let stem = match file_name_of(path) {
        Some(name) => name,
        None => "config"@,
    };
    let head = stem + seq!['.'];
    let tail = ".bak"@;
    let x = backup_name(path, first_marker);
    let y = backup_name(path, second_marker);
    let dx = decimal(first_marker);
    let dy = decimal(second_marker);
    assert(x =~= head + dx + tail);
    assert(y =~= head + dy + tail);
    assert(x[0] == head[0] && y[0] == head[0]);
    if backup_path(path, first_marker) == backup_path(path, second_marker) {
        lemma_join_injective(backup_dir(path), x, y);
        assert(dx.len() == dy.len());
        assert forall|i: int| 0 <= i < dx.len() implies dx[i] == dy[i] by {
            assert(x[head.len() + i] == dx[i]);
            assert(y[head.len() + i] == dy[i]);
        }
        assert(dx =~= dy);
        lemma_decimal_injective(first_marker, second_marker);
    }
}

/// A second file that comes to occupy the destination gets a backup of its own: after
/// a later run with another marker, the backup of the first run still holds what it
/// held, and the backup of the later run holds the second file.
pub proof fn lemma_second_backup_is_distinct(
    linked: Tree,
    home: Seq<char>,
    relative: Seq<char>,
    mode: Option<u32>,
    rendered_path: Seq<char>,
    first_marker: nat,
    second_marker: nat,
)
    requires
        first_marker != second_marker,
        paths_apart(home, relative, rendered_path, first_marker),
        paths_apart(home, relative, rendered_path, second_marker),
        is_file_at(linked, rendered_path),
        linked.contains_key(backup_path(destination(home, relative), first_marker)),
        occupancy_at(linked, destination(home, relative)) == Occupancy::Foreign,
    ensures
        ({
            let dest = destination(home, relative);
            let first = backup_path(dest, first_marker);
            let second = backup_path(dest, second_marker);
            let after = link_once(linked, home, relative, mode, rendered_path, second_marker);
            &&& first != second
            &&& after.contains_key(first) && after[first] == linked[first]
            &&& after.contains_key(second) && after[second] == linked[dest]
            &&& after.contains_key(dest) && after[dest] is Link
        }),
{
    let dest = destination(home, relative);
    lemma_backup_paths_differ(dest, first_marker, second_marker);
    lemma_plan_steps(linked, home, relative, mode, rendered_path, Occupancy::Foreign, second_marker);
}

/// One template as linking sees it: where it goes, its mode, where its rendered file
/// stands, and the marker of the run.
pub ghost struct Job {
    pub relative: Seq<char>,
    pub mode: Option<u32>,
    pub rendered_path: Seq<char>,
    pub marker: nat,
}

/// The filesystem after one job.
pub open spec fn link_job(fs: Tree, home: Seq<char>, job: Job) -> Tree {
    link_once(fs, home, job.relative, job.mode, job.rendered_path, job.marker)
}

/// The filesystem after a list of jobs, linked in order.
pub open spec fn link_all(fs: Tree, home: Seq<char>, jobs: Seq<Job>) -> Tree
    decreases jobs.len(),
{
    if jobs.len() == 0 {
        fs
    } else {
        link_job(link_all(fs, home, jobs.drop_last()), home, jobs.last())
    }
}

/// Whether a job may change what stands at `path`: its destination, its staged copy
/// and its backup are the paths that it writes, moves or removes.
pub open spec fn touches(home: Seq<char>, job: Job, path: Seq<char>) -> bool {
    let dest = destination(home, job.relative);
    path == dest || path == stage_path(home, job.relative) || path == backup_path(dest, job.marker)
}

/// Whether the outcome of a job rests on what stands at `path`: its destination, its
/// staged copy, its rendered file and the parents of the first two.
pub open spec fn rests_on(home: Seq<char>, job: Job, path: Seq<char>) -> bool {
    let dest = destination(home, job.relative);
    let stage = stage_path(home, job.relative);
    path == dest || path == stage || path == job.rendered_path || parent_of(dest) == Some(path)
        || parent_of(stage) == Some(path)
}

/// Whether a job is done: its destination is a link to its staged copy, which holds
/// the rendered bytes with the mode asked for, and the parents of both exist.
pub open spec fn settled(fs: Tree, home: Seq<char>, job: Job) -> bool {
    let dest = destination(home, job.relative);
    let stage = stage_path(home, job.relative);
    &&& fs.contains_key(dest) && fs[dest] == (Node::Link { target: stage })
    &&& is_file_at(fs, job.rendered_path)
    &&& fs.contains_key(stage) && fs[stage] == (Node::File {
        contents: fs[job.rendered_path]->contents,
        mode: match job.mode {
            Some(bits) => bits,
            None => fs[job.rendered_path]->mode,
        },
    })
    &&& parent_of(dest) matches Some(parent) ==> fs.contains_key(parent)
    &&& parent_of(stage) matches Some(parent) ==> fs.contains_key(parent)
}

/// The jobs of a run keep out of each other's way: the paths of each job are apart,
/// and no job may change a path that the outcome of another rests on.
pub open spec fn jobs_apart(home: Seq<char>, jobs: Seq<Job>) -> bool {
    &&& forall|i: int|
        0 <= i < jobs.len() ==> paths_apart(
            home,
            (#[trigger] jobs[i]).relative,
            jobs[i].rendered_path,
            jobs[i].marker,
        )
    &&& forall|i: int, j: int, path: Seq<char>|
        #![trigger rests_on(home, jobs[i], path), touches(home, jobs[j], path)]
        0 <= i < jobs.len() && 0 <= j < jobs.len() && i != j && rests_on(home, jobs[i], path)
            ==> !touches(home, jobs[j], path)
}

/// Two lists of jobs ask for the same work: they differ in their markers at most.
pub open spec fn same_work(jobs: Seq<Job>, again: Seq<Job>) -> bool {
    &&& jobs.len() == again.len()
    &&& forall|i: int|
        0 <= i < jobs.len() ==> (#[trigger] jobs[i]).relative == again[i].relative && jobs[i].mode
            == again[i].mode && jobs[i].rendered_path == again[i].rendered_path
}

/// A job leaves alone what stands at a path that it does not touch.
pub proof fn lemma_job_frame(fs: Tree, home: Seq<char>, job: Job, path: Seq<char>)
    requires
        fs.contains_key(path),
        !touches(home, job, path),
    ensures
        link_job(fs, home, job).contains_key(path),
        link_job(fs, home, job)[path] == fs[path],
{
    let dest = destination(home, job.relative);
    lemma_plan_steps(
        fs,
        home,
        job.relative,
        job.mode,
        job.rendered_path,
        occupancy_at(fs, dest),
        job.marker,
    );
}

/// A list of jobs leaves alone what stands at a path that none of them touches.
pub proof fn lemma_jobs_frame(fs: Tree, home: Seq<char>, jobs: Seq<Job>, path: Seq<char>)
    requires
        fs.contains_key(path),
        forall|j: int| 0 <= j < jobs.len() ==> !touches(home, #[trigger] jobs[j], path),
    ensures
        link_all(fs, home, jobs).contains_key(path),
        link_all(fs, home, jobs)[path] == fs[path],
    decreases jobs.len(),
{
    if jobs.len() > 0 {
        let front = jobs.drop_last();
        assert forall|j: int| 0 <= j < front.len() implies !touches(
            home,
            #[trigger] front[j],
            path,
        ) by {
            assert(front[j] == jobs[j]);
        }
        lemma_jobs_frame(fs, home, front, path);
        assert(jobs.last() == jobs[jobs.len() - 1]);
        lemma_job_frame(link_all(fs, home, front), home, jobs.last(), path);
    }
}

/// A job that is done stays done while another job, which keeps out of its way, is
/// linked.
pub proof fn lemma_settled_is_kept(fs: Tree, home: Seq<char>, done: Job, other: Job)
    requires
        settled(fs, home, done),
        forall|path: Seq<char>| rests_on(home, done, path) ==> !#[trigger] touches(home, other, path),
    ensures
        settled(link_job(fs, home, other), home, done),
{
    let dest = destination(home, done.relative);
    let stage = stage_path(home, done.relative);
    assert(rests_on(home, done, dest));
    assert(rests_on(home, done, stage));
    assert(rests_on(home, done, done.rendered_path));
    lemma_job_frame(fs, home, other, dest);
    lemma_job_frame(fs, home, other, stage);
    lemma_job_frame(fs, home, other, done.rendered_path);
    match parent_of(dest) {
        Some(parent) => {
            assert(rests_on(home, done, parent));
            lemma_job_frame(fs, home, other, parent);
        },
        None => {},
    }
    match parent_of(stage) {
        Some(parent) => {
            assert(rests_on(home, done, parent));
            lemma_job_frame(fs, home, other, parent);
        },
        None => {},
    }
}

/// Linking a job that is done changes nothing.
pub proof fn lemma_settled_is_fixed(fs: Tree, home: Seq<char>, job: Job, marker: nat)
    requires
        settled(fs, home, job),
        paths_apart(home, job.relative, job.rendered_path, marker),
    ensures
        link_job(fs, home, job) == fs,
{
    lemma_plan_steps(
        fs,
        home,
        job.relative,
        job.mode,
        job.rendered_path,
        Occupancy::Link,
        job.marker,
    );
    assert(link_job(fs, home, job) =~= fs);
}

/// After a run whose jobs keep out of each other's way, every job is done.
pub proof fn lemma_all_settled(fs: Tree, home: Seq<char>, jobs: Seq<Job>)
    requires
        jobs_apart(home, jobs),
        forall|i: int| 0 <= i < jobs.len() ==> is_file_at(fs, (#[trigger] jobs[i]).rendered_path),
    ensures
        forall|i: int|
            0 <= i < jobs.len() ==> settled(link_all(fs, home, jobs), home, #[trigger] jobs[i]),
    decreases jobs.len(),
{
    if jobs.len() > 0 {
        let front = jobs.drop_last();
        let last = jobs.last();
        let n = jobs.len() - 1;
        assert(last == jobs[n]);
        assert forall|i: int| 0 <= i < front.len() implies front[i] == jobs[i] by {}
        assert(jobs_apart(home, front)) by {
            assert forall|i: int| 0 <= i < front.len() implies paths_apart(
                home,
                (#[trigger] front[i]).relative,
                front[i].rendered_path,
                front[i].marker,
            ) by {
                assert(front[i] == jobs[i]);
            }
            assert forall|i: int, j: int, path: Seq<char>|
                #![trigger rests_on(home, front[i], path), touches(home, front[j], path)]
                0 <= i < front.len() && 0 <= j < front.len() && i != j && rests_on(
                    home,
                    front[i],
                    path,
                ) implies !touches(home, front[j], path) by {
                assert(front[i] == jobs[i] && front[j] == jobs[j]);
                assert(rests_on(home, jobs[i], path));
                assert(!touches(home, jobs[j], path));
            }
        }
        assert forall|i: int| 0 <= i < front.len() implies is_file_at(
            fs,
            (#[trigger] front[i]).rendered_path,
        ) by {
            assert(front[i] == jobs[i]);
        }
        lemma_all_settled(fs, home, front);
        let before = link_all(fs, home, front);
        assert(rests_on(home, last, last.rendered_path));
        assert forall|j: int| 0 <= j < front.len() implies !touches(
            home,
            #[trigger] front[j],
            last.rendered_path,
        ) by {
            assert(front[j] == jobs[j]);
            assert(rests_on(home, jobs[n], last.rendered_path));
            assert(!touches(home, jobs[j], last.rendered_path));
        }
        lemma_jobs_frame(fs, home, front, last.rendered_path);
        lemma_link_result(before, home, last.relative, last.mode, last.rendered_path, last.marker);
        assert(settled(link_job(before, home, last), home, last));
        assert forall|i: int| 0 <= i < jobs.len() implies settled(
            link_all(fs, home, jobs),
            home,
            #[trigger] jobs[i],
        ) by {
            if i < n {
                assert(settled(before, home, front[i]));
                assert forall|path: Seq<char>| rests_on(home, jobs[i], path) implies !#[trigger] touches(
                    home,
                    last,
                    path,
                ) by {
                    assert(rests_on(home, jobs[i], path));
                    assert(!touches(home, jobs[n], path));
                }
                lemma_settled_is_kept(before, home, jobs[i], last);
            }
        }
    }
}

/// Linking jobs that are all done changes nothing.
pub proof fn lemma_all_fixed(fs: Tree, home: Seq<char>, jobs: Seq<Job>, again: Seq<Job>)
    requires
        same_work(jobs, again),
        forall|i: int|
            0 <= i < jobs.len() ==> settled(fs, home, #[trigger] jobs[i]) && paths_apart(
                home,
                jobs[i].relative,
                jobs[i].rendered_path,
                jobs[i].marker,
            ),
    ensures
        link_all(fs, home, again) == fs,
    decreases again.len(),
{
    if again.len() > 0 {
        let n = again.len() - 1;
        assert(same_work(jobs.drop_last(), again.drop_last())) by {
            assert forall|i: int| 0 <= i < n implies (#[trigger] jobs.drop_last()[i]).relative
                == again.drop_last()[i].relative && jobs.drop_last()[i].mode
                == again.drop_last()[i].mode && jobs.drop_last()[i].rendered_path
                == again.drop_last()[i].rendered_path by {
                assert(jobs[i].relative == again[i].relative);
            }
        }
        assert forall|i: int| 0 <= i < n implies settled(fs, home, #[trigger] jobs.drop_last()[i])
            && paths_apart(
            home,
            jobs.drop_last()[i].relative,
            jobs.drop_last()[i].rendered_path,
            jobs.drop_last()[i].marker,
        ) by {
            assert(jobs.drop_last()[i] == jobs[i]);
        }
        lemma_all_fixed(fs, home, jobs.drop_last(), again.drop_last());
        assert(again.last() == again[n]);
        assert(jobs[n].relative == again[n].relative);
        assert(settled(fs, home, jobs[n]));
        assert(settled(fs, home, again[n]));
        lemma_settled_is_fixed(fs, home, again[n], jobs[n].marker);
    }
}

/// A run linked again leaves the filesystem as the first run left it, whatever the
/// markers of the second run: every destination still links to its staged copy, and
/// no backup is added.
pub proof fn lemma_run_idempotent(fs: Tree, home: Seq<char>, jobs: Seq<Job>, again: Seq<Job>)
    requires
        jobs_apart(home, jobs),
        same_work(jobs, again),
        forall|i: int| 0 <= i < jobs.len() ==> is_file_at(fs, (#[trigger] jobs[i]).rendered_path),
    ensures
        link_all(link_all(fs, home, jobs), home, again) == link_all(fs, home, jobs),
{
    lemma_all_settled(fs, home, jobs);
    lemma_all_fixed(link_all(fs, home, jobs), home, jobs, again);
}

/// The filesystem after a whole run: the staging root is made sure of, then the jobs
/// are linked in order.
pub open spec fn link_run(fs: Tree, home: Seq<char>, jobs: Seq<Job>) -> Tree {
    link_all(perform(fs, Action::CreateDirAll { path: stage_root(home) }), home, jobs)
}

/// Idempotence of a whole run: where the jobs keep out of each other's way and away
/// from the staging root, and every rendered file is there, running again, with
/// whatever markers, leaves the filesystem as the first run left it.
pub proof fn lemma_linking_twice(fs: Tree, home: Seq<char>, jobs: Seq<Job>, again: Seq<Job>)
    requires
        jobs_apart(home, jobs),
        same_work(jobs, again),
        forall|i: int| 0 <= i < jobs.len() ==> is_file_at(fs, (#[trigger] jobs[i]).rendered_path),
        forall|i: int| 0 <= i < jobs.len() ==> !touches(home, #[trigger] jobs[i], stage_root(home)),
    ensures
        link_run(link_run(fs, home, jobs), home, again) == link_run(fs, home, jobs),
{
    let ready = perform(fs, Action::CreateDirAll { path: stage_root(home) });
    assert forall|i: int| 0 <= i < jobs.len() implies is_file_at(
        ready,
        (#[trigger] jobs[i]).rendered_path,
    ) by {}
    lemma_jobs_frame(ready, home, jobs, stage_root(home));
    lemma_run_idempotent(ready, home, jobs, again);
}

/// A dry run asks for no operation, and performing none leaves the filesystem as
/// it is.
pub proof fn lemma_dry_run_changes_nothing(fs: Tree, actions: Seq<Action>)
    requires
        actions.len() == 0,
    ensures
        perform_all(fs, actions) == fs,
{
}

} // verus!
