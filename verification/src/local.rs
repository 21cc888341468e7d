//! Requirements that point at a local directory: what such a directory holds
//! says what else the project needs.
//!
//! The library reads no file. Its caller looks into each directory and hands
//! over what it found there; what that means is decided here. A directory
//! may hold a manifest with path requirements of its own: their directories
//! are looked into in turn, to every depth, and each directory once.

use vstd::prelude::*;
use crate::config::{Config, ConfigView};
use crate::error::DescriptorError;
use crate::lines::{parse_metadata, parse_req_dot_text, reqs_of_list, requires_dist_of};
use crate::manifest::{Pyproject, PyprojectView};
use crate::reading::config_of;
use crate::req::{Req, ReqView};

verus! {

/// A folder directly below the directory of a path requirement.
#[derive(Clone, Debug, Default, PartialEq, Eq)]
pub struct Folder {
    pub name: String,
    /// The text of the file `METADATA` in the folder, where there is one.
    pub metadata: Option<String>,
}

/// What the directory of a path requirement holds.
#[derive(Clone, Debug, Default, PartialEq, Eq)]
pub struct PathContents {
    /// The directory, as the path requirement names it.
    pub path: String,
    /// The text of `requirements.txt`, where there is such a file.
    pub requirements: Option<String>,
    /// The decoded `pyproject.toml`, where there is such a file.
    pub manifest: Option<Pyproject>,
    /// The folders directly below the directory.
    pub folders: Vec<Folder>,
}

pub struct FolderView {
    pub name: Seq<char>,
    pub metadata: Option<Seq<char>>,
}

pub struct PathContentsView {
    pub path: Seq<char>,
    pub requirements: Option<Seq<char>>,
    pub manifest: Option<PyprojectView>,
    pub folders: Seq<FolderView>,
}

impl DeepView for Folder {
    type V = FolderView;

    open spec fn deep_view(&self) -> FolderView {
        FolderView { name: self.name@, metadata: self.metadata.deep_view() }
    }
}

impl DeepView for PathContents {
    type V = PathContentsView;

    open spec fn deep_view(&self) -> PathContentsView {
        PathContentsView {
            path: self.path@,
            requirements: self.requirements.deep_view(),
            manifest: self.manifest.deep_view(),
            folders: self.folders.deep_view(),
        }
    }
}

/// The pattern that the name of the metadata folder of a built wheel
/// matches: a name, a hyphen, a version, and `.dist-info`.
pub open spec fn dist_info_pattern() -> Seq<char> {
    "^(.*?)-(.*?)\\.dist-info$"@
}

/// Whether `name` is the name of the metadata folder of a built wheel: it
/// ends in `.dist-info`, there is a hyphen before that ending, and it holds
/// no line feed.
pub open spec fn is_dist_info_name(name: Seq<char>) -> bool {
    let ending = seq!['.', 'd', 'i', 's', 't', '-', 'i', 'n', 'f', 'o'];
    &&& name.len() >= 10
    &&& name.skip(name.len() - 10) == ending
    &&& exists|i: int| 0 <= i < name.len() - 10 && name[i] == '-'
    &&& forall|i: int| 0 <= i < name.len() ==> name[i] != '\n'
}

/// Compiles `pattern` with `regex::Regex::new` and asks `Regex::captures`
/// whether it matches in `text`; `None` where the pattern does not compile.
///
/// The contract speaks of the one pattern that this library uses. It says
/// that this pattern compiles, and that it matches exactly the texts that
/// `is_dist_info_name` describes: the pattern is anchored at both ends of the
/// text, a dot in it stands for any character but a line feed, and its two
/// groups may be empty.
#[verifier::external_body]
fn pattern_matches(pattern: &str, text: &str) -> (found: Option<bool>)
    requires
        pattern@ == dist_info_pattern(),
    ensures
        found == Some(is_dist_info_name(text@)),
{
    match regex::Regex::new(pattern) {
        Ok(re) => Some(re.captures(text).is_some()),
        Err(_) => None,
    }
}

/// Whether `name` is the name of the metadata folder of a built wheel.
pub fn is_dist_info_folder(name: &str) -> (b: bool)
    ensures
        b == is_dist_info_name(name@),
{
    match pattern_matches("^(.*?)-(.*?)\\.dist-info$", name) {
        Some(found) => found,
        None => false,
    }
}

/// The requirements that the built wheels among `folders` name, in the order
/// of the folders. A folder whose name is not that of a metadata folder is
/// passed over. One whose name is must hold metadata that can be read.
pub open spec fn wheel_reqs(folders: Seq<FolderView>) -> Result<Seq<ReqView>, DescriptorError>
    decreases folders.len(),
{
    if folders.len() == 0 {
        Ok(Seq::empty())
    } else {
        match wheel_reqs(folders.drop_last()) {
            Err(e) => Err(e),
            Ok(before) => if is_dist_info_name(folders.last().name) {
                match folders.last().metadata {
                    None => Err(DescriptorError::Metadata),
                    Some(text) => match requires_dist_of(text) {
                        Some(reqs) => Ok(before + reqs),
                        None => Err(DescriptorError::Requirement),
                    },
                }
            } else {
                Ok(before)
            },
        }
    }
}

/// What one directory adds.
pub struct Found {
    /// The requirements that are added at once: those of the list of
    /// requirements, then those of the manifest.
    pub first: Seq<ReqView>,
    /// The directories that the requirements of the manifest point at.
    pub paths: Seq<Seq<char>>,
    /// The requirements that the built wheels name. They are added when the
    /// directories of `paths` are done.
    pub after: Seq<ReqView>,
}

/// What one directory adds. Three places are looked at, in this order. The
/// list of requirements is read if it is there. The manifest is read if it
/// is there, and its requirements are taken: its development requirements
/// and all else that it says are left aside. Then come the requirements of
/// the built wheels.
#[verifier::opaque]
pub open spec fn found_in(c: PathContentsView) -> Result<Found, DescriptorError> {
    let listed = match c.requirements {
        Some(text) => match reqs_of_list(text) {
            Some(reqs) => Ok(reqs),
            None => Err(DescriptorError::Requirement),
        },
        None => Ok(Seq::empty()),
    };
    match listed {
        Err(e) => Err(e),
        Ok(listed) => {
            let declared = match c.manifest {
                Some(m) => match config_of(m, Seq::empty()) {
                    Ok(config) => Ok(config.reqs),
                    Err(e) => Err(e),
                },
                None => Ok(Seq::empty()),
            };
            match declared {
                Err(e) => Err(e),
                Ok(declared) => match wheel_reqs(c.folders) {
                    Err(e) => Err(e),
                    Ok(built) => Ok(
                        Found { first: listed + declared, paths: paths_of(declared), after: built },
                    ),
                },
            }
        },
    }
}

/// The directories that `reqs` point at, in the order of `reqs`.
pub open spec fn paths_of(reqs: Seq<ReqView>) -> Seq<Seq<char>>
    decreases reqs.len(),
{
    if reqs.len() == 0 {
        Seq::empty()
    } else {
        match reqs.last().path {
            Some(path) => paths_of(reqs.drop_last()).push(path),
            None => paths_of(reqs.drop_last()),
        }
    }
}

/// One thing that is still to do while path requirements are expanded.
#[derive(Clone, Debug, PartialEq, Eq)]
pub enum Task {
    /// Look into this directory, unless that was done before.
    Visit(String),
    /// Add these requirements.
    Add(Vec<Req>),
}

pub enum TaskView {
    Visit(Seq<char>),
    Add(Seq<ReqView>),
}

impl DeepView for Task {
    type V = TaskView;

    open spec fn deep_view(&self) -> TaskView {
        match self {
            Task::Visit(path) => TaskView::Visit(path@),
            Task::Add(reqs) => TaskView::Add(reqs.deep_view()),
        }
    }
}

/// How far the expansion of path requirements has come.
#[derive(Clone, Debug, PartialEq, Eq)]
pub struct Expansion {
    /// What is still to do. The last task is the next.
    pub agenda: Vec<Task>,
    /// The directories that were looked into, or are being looked into.
    pub visited: Vec<String>,
    /// The requirements that were added so far.
    pub reqs: Vec<Req>,
}

pub struct ExpansionView {
    pub agenda: Seq<TaskView>,
    pub visited: Seq<Seq<char>>,
    pub reqs: Seq<ReqView>,
}

impl View for Expansion {
    type V = ExpansionView;

    open spec fn view(&self) -> ExpansionView {
        ExpansionView {
            agenda: self.agenda.deep_view(),
            visited: self.visited.deep_view(),
            reqs: self.reqs.deep_view(),
        }
    }
}

/// The visits of `paths`, the first path last, so that it is the next.
pub open spec fn visits_of(paths: Seq<Seq<char>>) -> Seq<TaskView> {
    Seq::new(paths.len(), |i: int| TaskView::Visit(paths[paths.len() - 1 - i]))
}

/// The state in which nothing was looked into yet and the directories of
/// `paths` are to be looked into, in the order of `paths`.
pub open spec fn started(paths: Seq<Seq<char>>) -> ExpansionView {
    ExpansionView { agenda: visits_of(paths), visited: Seq::empty(), reqs: Seq::empty() }
}

/// The state after a directory was looked into and `c` was found there.
/// What the directory adds at once is added. Its own path requirements come
/// next, in their order, and after them the requirements of its built
/// wheels. Nothing changes if something in `c` cannot be read.
pub open spec fn fed(s: ExpansionView, c: PathContentsView) -> Result<
    ExpansionView,
    DescriptorError,
> {
    match found_in(c) {
        Err(e) => Err(e),
        Ok(found) => Ok(
            ExpansionView {
                agenda: s.agenda.push(TaskView::Add(found.after)) + visits_of(found.paths),
                visited: s.visited,
                reqs: s.reqs + found.first,
            },
        ),
    }
}

/// A state, and the directory to look into next, if there is one.
pub struct Step {
    pub state: ExpansionView,
    pub directory: Option<Seq<char>>,
}

/// Works the agenda off up to the next directory to look into. Requirements
/// that are due are added. A directory that was looked into before is
/// passed over: no directory is looked into twice. The directory that is
/// returned counts as looked into from then on.
#[verifier::opaque]
pub open spec fn next_step(s: ExpansionView) -> Step
    decreases s.agenda.len(),
{
    if s.agenda.len() == 0 {
        Step { state: s, directory: None }
    } else {
        match s.agenda.last() {
            TaskView::Add(more) => next_step(
                ExpansionView { agenda: s.agenda.drop_last(), reqs: s.reqs + more, ..s },
            ),
            TaskView::Visit(path) => if s.visited.contains(path) {
                next_step(ExpansionView { agenda: s.agenda.drop_last(), ..s })
            } else {
                Step {
                    state: ExpansionView {
                        agenda: s.agenda.drop_last(),
                        visited: s.visited.push(path),
                        ..s
                    },
                    directory: Some(path),
                }
            },
        }
    }
}

/// Where the first directory of `world` from `from` on is that is named
/// `path`; the length of `world` if there is none.
pub open spec fn position_from(world: Seq<PathContentsView>, path: Seq<char>, from: int) -> int
    decreases world.len() - from,
{
    if 0 <= from < world.len() && world[from].path != path {
        position_from(world, path, from + 1)
    } else {
        from
    }
}

/// The requirements that the expansion ends with, from the state `s` on,
/// where `world` says what each directory holds. A directory of which
/// `world` says nothing holds nothing. The first entry of `world` for a
/// directory counts, and it is used up when the directory is looked into.
/// The expansion ends at once with what is wrong if something in a directory
/// cannot be read.
#[verifier::opaque]
pub open spec fn run(world: Seq<PathContentsView>, s: ExpansionView) -> Result<
    Seq<ReqView>,
    DescriptorError,
>
    decreases world.len(), s.agenda.len(),
{
    if s.agenda.len() == 0 {
        Ok(s.reqs)
    } else {
        match s.agenda.last() {
            TaskView::Add(more) => run(
                world,
                ExpansionView { agenda: s.agenda.drop_last(), reqs: s.reqs + more, ..s },
            ),
            TaskView::Visit(path) => if s.visited.contains(path) {
                run(world, ExpansionView { agenda: s.agenda.drop_last(), ..s })
            } else {
                let entered = ExpansionView {
                    agenda: s.agenda.drop_last(),
                    visited: s.visited.push(path),
                    ..s
                };
                let at = position_from(world, path, 0);
                if 0 <= at < world.len() {
                    match fed(entered, world[at]) {
                        Err(e) => Err(e),
                        Ok(after) => run(world.remove(at), after),
                    }
                } else {
                    run(world, entered)
                }
            },
        }
    }
}

/// The requirements that the expansion ends with after a step: those of
/// the state where no directory is left, else those that it ends with once
/// the directory is looked into.
pub open spec fn resume(world: Seq<PathContentsView>, step: Step) -> Result<
    Seq<ReqView>,
    DescriptorError,
> {
    match step.directory {
        None => Ok(step.state.reqs),
        Some(path) => {
            let at = position_from(world, path, 0);
            if 0 <= at < world.len() {
                match fed(step.state, world[at]) {
                    Err(e) => Err(e),
                    Ok(after) => run(world.remove(at), after),
                }
            } else {
                run(world, step.state)
            }
        },
    }
}

/// The requirements that the directories of `paths` add, to every depth.
pub open spec fn subreqs(world: Seq<PathContentsView>, paths: Seq<Seq<char>>) -> Result<
    Seq<ReqView>,
    DescriptorError,
> {
    run(world, started(paths))
}

/// Once a folder cannot be read, no longer list of folders can.
pub proof fn lemma_wheel_reqs_error_stays(folders: Seq<FolderView>, n: int)
    requires
        0 <= n <= folders.len(),
        wheel_reqs(folders.take(n)) is Err,
    ensures
        wheel_reqs(folders) == wheel_reqs(folders.take(n)),
    decreases folders.len() - n,
{
    if n == folders.len() {
        assert(folders.take(n) == folders);
    } else {
        assert(folders.take(n + 1).drop_last() == folders.take(n));
        lemma_wheel_reqs_error_stays(folders, n + 1);
    }
}

/// The agenda never grows on the way to the next directory, and it shrinks
/// where there is one.
pub proof fn lemma_next_step_shrinks(s: ExpansionView)
    ensures
        next_step(s).state.agenda.len() <= s.agenda.len(),
        next_step(s).directory is Some ==> next_step(s).state.agenda.len() < s.agenda.len(),
    decreases s.agenda.len(),
{
    reveal(next_step);
    if s.agenda.len() > 0 {
        match s.agenda.last() {
            TaskView::Add(more) => {
                lemma_next_step_shrinks(
                    ExpansionView { agenda: s.agenda.drop_last(), reqs: s.reqs + more, ..s },
                );
            },
            TaskView::Visit(path) => {
                if s.visited.contains(path) {
                    lemma_next_step_shrinks(ExpansionView { agenda: s.agenda.drop_last(), ..s });
                }
            },
        }
    }
}

/// The expansion goes step by step: up to the next directory, then on with
/// what that directory holds.
pub proof fn lemma_run_steps(world: Seq<PathContentsView>, s: ExpansionView)
    ensures
        run(world, s) == resume(world, next_step(s)),
    decreases s.agenda.len(),
{
    reveal(run);
    reveal(next_step);
    if s.agenda.len() > 0 {
        match s.agenda.last() {
            TaskView::Add(more) => {
                lemma_run_steps(
                    world,
                    ExpansionView { agenda: s.agenda.drop_last(), reqs: s.reqs + more, ..s },
                );
            },
            TaskView::Visit(path) => {
                if s.visited.contains(path) {
                    lemma_run_steps(world, ExpansionView { agenda: s.agenda.drop_last(), ..s });
                }
            },
        }
    }
}

/// Reads the requirements that the built wheels among `folders` name.
fn read_wheels(folders: Vec<Folder>) -> (r: Result<Vec<Req>, DescriptorError>)
    ensures
        match wheel_reqs(folders.deep_view()) {
            Ok(reqs) => r matches Ok(v) && v.deep_view() == reqs,
            Err(e) => r matches Err(x) && x == e,
        },
{
    let ghost all = folders.deep_view();
    let ghost items = folders@;
    let mut result: Vec<Req> = Vec::new();
    assert(all.take(0) == Seq::<FolderView>::empty());
    assert(result.deep_view() == Seq::<ReqView>::empty());
    for folder in it: folders
        invariant
            all == folders.deep_view(),
            items == it.seq(),
            all.len() == items.len(),
            forall|i: int| 0 <= i < items.len() ==> all[i] == (#[trigger] items[i]).deep_view(),
            wheel_reqs(all.take(it.index() as int)) == Ok::<Seq<ReqView>, DescriptorError>(
                result.deep_view(),
            ),
    {
        proof {
            let upto = all.take(it.index() + 1);
            assert(upto.drop_last() == all.take(it.index() as int));
            assert(upto.last() == folder.deep_view());
        }
        let Folder { name, metadata } = folder;
        if is_dist_info_folder(name.as_str()) {
            let outcome = match metadata {
                None => Err(DescriptorError::Metadata),
                Some(text) => parse_metadata(text.as_str()),
            };
            match outcome {
                Ok(mut reqs) => {
                    let ghost before = result.deep_view();
                    let ghost added = reqs.deep_view();
                    result.append(&mut reqs);
                    assert(result.deep_view() == before + added);
                },
                Err(e) => {
                    proof {
                        lemma_wheel_reqs_error_stays(all, it.index() + 1);
                    }
                    return Err(e);
                },
            }
        }
    }
    assert(all.take(all.len() as int) == all);
    Ok(result)
}

/// Reads what one directory adds: what is added at once, the directories
/// to look into next, and what is added after them.
pub fn read_contents(contents: PathContents) -> (r: Result<
    (Vec<Req>, Vec<String>, Vec<Req>),
    DescriptorError,
>)
    ensures
        match found_in(contents.deep_view()) {
            Ok(found) => r matches Ok(x) && x.0.deep_view() == found.first && x.1.deep_view()
                == found.paths && x.2.deep_view() == found.after,
            Err(e) => r matches Err(x) && x == e,
        },
{
    reveal(found_in);
    let PathContents { path: _, requirements, manifest, folders } = contents;
    let mut first: Vec<Req> = Vec::new();
    assert(first.deep_view() == Seq::<ReqView>::empty());
    match requirements {
        Some(text) => {
            let mut dummy_cfg = Config::default();
            match parse_req_dot_text(&mut dummy_cfg, text.as_str()) {
                Ok(()) => {},
                Err(e) => {
                    return Err(e);
                },
            }
            let ghost before = first.deep_view();
            let ghost added = dummy_cfg.reqs.deep_view();
            first.append(&mut dummy_cfg.reqs);
            assert(first.deep_view() == before + added);
        },
        None => {},
    }
    let mut paths: Vec<String> = Vec::new();
    assert(paths.deep_view() == Seq::<Seq<char>>::empty());
    match Config::from_file(manifest, Vec::new()) {
        Ok(Some(mut config)) => {
            paths = paths_in(&config.reqs);
            let ghost before = first.deep_view();
            let ghost added = config.reqs.deep_view();
            first.append(&mut config.reqs);
            assert(first.deep_view() == before + added);
        },
        Ok(None) => {},
        Err(e) => {
            return Err(e);
        },
    }
    match read_wheels(folders) {
        Ok(built) => Ok((first, paths, built)),
        Err(e) => Err(e),
    }
}

/// Whether `path` is among `paths`.
fn is_among(paths: &Vec<String>, path: &String) -> (b: bool)
    ensures
        b == paths.deep_view().contains(path@),
{
    let mut i: usize = 0;
    while i < paths.len()
        invariant
            i <= paths.len(),
            forall|j: int| 0 <= j < i ==> paths.deep_view()[j] != path@,
        decreases paths.len() - i,
    {
        if paths[i] == *path {
            assert(paths.deep_view()[i as int] == path@);
            return true;
        }
        i += 1;
    }
    false
}

/// Takes out of `world` what the directory `path` holds, if `world` says
/// anything of it.
pub fn take_directory(world: &mut Vec<PathContents>, path: &String) -> (r: Option<PathContents>)
    ensures
        ({
            let before = old(world).deep_view();
            let at = position_from(before, path@, 0);
            match r {
                Some(c) => 0 <= at < before.len() && c.deep_view() == before[at]
                    && final(world).deep_view() == before.remove(at),
                None => at == before.len() && final(world).deep_view() == before,
            }
        }),
{
    let ghost before = world.deep_view();
    let mut i: usize = 0;
    while i < world.len()
        invariant
            i <= world.len(),
            world == old(world),
            before == world.deep_view(),
            position_from(before, path@, 0) == position_from(before, path@, i as int),
        decreases world.len() - i,
    {
        if world[i].path == *path {
            assert(before[i as int].path == path@);
            let c = world.remove(i);
            assert(world.deep_view() == before.remove(i as int));
            return Some(c);
        }
        assert(before[i as int].path != path@);
        i += 1;
    }
    None
}

impl Expansion {
    /// Starts the expansion of the path requirements that point at the
    /// directories of `paths`.
    pub fn start(paths: Vec<String>) -> (e: Expansion)
        ensures
            e@ == started(paths.deep_view()),
    {
        let mut e = Expansion { agenda: Vec::new(), visited: Vec::new(), reqs: Vec::new() };
        assert(e@.agenda == Seq::<TaskView>::empty());
        assert(e@.visited == Seq::<Seq<char>>::empty());
        assert(e@.reqs == Seq::<ReqView>::empty());
        e.plan(paths);
        assert(e@.agenda == visits_of(paths.deep_view()));
        e
    }

    /// Puts the visits of `paths` on the agenda, the first path next.
    fn plan(&mut self, paths: Vec<String>)
        ensures
            final(self)@ == (ExpansionView {
                agenda: old(self)@.agenda + visits_of(paths.deep_view()),
                ..old(self)@
            }),
    {
        let ghost all = paths.deep_view();
        let ghost held = self@.agenda;
        let mut paths = paths;
        assert(paths.deep_view() == all.take(paths.len() as int));
        assert(held + visits_of(all).take(0) == held);
        while paths.len() > 0
            invariant
                paths.deep_view() == all.take(paths.len() as int),
                self@.visited == old(self)@.visited,
                self@.reqs == old(self)@.reqs,
                paths.len() <= all.len(),
                self@.agenda == held + visits_of(all).take(all.len() - paths.len()),
            decreases paths.len(),
        {
            let ghost before = self@.agenda;
            let ghost shown = paths.deep_view();
            let path = paths.pop().unwrap();
            assert(path@ == shown[shown.len() - 1]);
            assert(paths.deep_view() == all.take(paths.len() as int));
            self.agenda.push(Task::Visit(path));
            assert(self@.agenda == before.push(TaskView::Visit(path@)));
            let ghost done = all.len() - paths.len();
            assert(visits_of(all).take(done) == visits_of(all).take(done - 1).push(
                TaskView::Visit(path@),
            ));
        }
        assert(visits_of(all).take(all.len() as int) == visits_of(all));
    }

    /// The next directory to look into, if there is one. Requirements that
    /// are due are added on the way, and a directory that was looked into
    /// before is passed over. The caller looks into the directory and hands
    /// what it holds to `feed`.
    pub fn next_directory(&mut self) -> (r: Option<String>)
        ensures
            final(self)@ == next_step(old(self)@).state,
            r.deep_view() == next_step(old(self)@).directory,
    {
        proof {
            reveal(next_step);
        }
        while self.agenda.len() > 0
            invariant
                next_step(self@) == next_step(old(self)@),
            decreases self.agenda.len(),
        {
            reveal(next_step);
            let ghost before = self@;
            let ghost shown = self.agenda@;
            let task = self.agenda.pop().unwrap();
            assert(self@.agenda == before.agenda.drop_last());
            assert(task.deep_view() == before.agenda.last());
            match task {
                Task::Add(mut more) => {
                    let ghost added = more.deep_view();
                    self.reqs.append(&mut more);
                    assert(self@.reqs == before.reqs + added);
                },
                Task::Visit(path) => {
                    if !is_among(&self.visited, &path) {
                        let copy = path.clone();
                        self.visited.push(copy);
                        assert(self@.visited == before.visited.push(path@));
                        return Some(path);
                    }
                },
            }
        }
        None
    }

    /// Takes in what the directory holds that `next_directory` named last.
    /// Nothing changes if something in it cannot be read.
    pub fn feed(&mut self, contents: PathContents) -> (r: Result<(), DescriptorError>)
        ensures
            match fed(old(self)@, contents.deep_view()) {
                Ok(after) => r is Ok && final(self)@ == after,
                Err(e) => r matches Err(x) && x == e && final(self)@ == old(self)@,
            },
    {
        let (mut first, paths, after) = match read_contents(contents) {
            Ok(found) => found,
            Err(e) => {
                return Err(e);
            },
        };
        let ghost before = self@;
        let ghost added = first.deep_view();
        self.reqs.append(&mut first);
        assert(self@.reqs == before.reqs + added);
        self.agenda.push(Task::Add(after));
        assert(self@.agenda == before.agenda.push(TaskView::Add(after.deep_view())));
        self.plan(paths);
        Ok(())
    }

    /// The requirements that were added.
    pub fn finish(self) -> (reqs: Vec<Req>)
        ensures
            reqs.deep_view() == self@.reqs,
    {
        self.reqs
    }
}

/// Gathers what the directories of the path requirements add, to every
/// depth: `paths` names the directories of the path requirements, in their
/// order, and `found` says what each directory holds that is reached from
/// them. A directory of which `found` says nothing holds nothing, and what
/// `found` says of a directory that is not reached adds nothing.
pub fn pop_reqs_helper(paths: Vec<String>, found: Vec<PathContents>) -> (r: Result<
    Vec<Req>,
    DescriptorError,
>)
    ensures
        match subreqs(found.deep_view(), paths.deep_view()) {
            Ok(reqs) => r matches Ok(v) && v.deep_view() == reqs,
            Err(e) => r matches Err(x) && x == e,
        },
{
    let ghost target = subreqs(found.deep_view(), paths.deep_view());
    let mut world = found;
    let mut walk = Expansion::start(paths);
    loop
        invariant_except_break
            run(world.deep_view(), walk@) == target,
        invariant
            target == subreqs(found.deep_view(), paths.deep_view()),
        ensures
            Ok::<Seq<ReqView>, DescriptorError>(walk@.reqs) == target,
        decreases world.deep_view().len(), walk@.agenda.len(),
    {
        proof {
            lemma_run_steps(world.deep_view(), walk@);
            lemma_next_step_shrinks(walk@);
        }
        let ghost step = next_step(walk@);
        let ghost shown = world.deep_view();
        assert(resume(shown, step) == target);
        match walk.next_directory() {
            None => {
                break ;
            },
            Some(path) => {
                assert(step.directory == Some(path@));
                match take_directory(&mut world, &path) {
                    Some(contents) => {
                        match walk.feed(contents) {
                            Ok(()) => {},
                            Err(e) => {
                                return Err(e);
                            },
                        }
                    },
                    None => {},
                }
            },
        }
    }
    Ok(walk.finish())
}

/// The directories that `reqs` point at.
fn paths_in(reqs: &Vec<Req>) -> (paths: Vec<String>)
    ensures
        paths.deep_view() == paths_of(reqs.deep_view()),
{
    let ghost all = reqs.deep_view();
    let mut paths: Vec<String> = Vec::new();
    let mut i: usize = 0;
    assert(all.take(0) == Seq::<ReqView>::empty());
    assert(paths.deep_view() == Seq::<Seq<char>>::empty());
    while i < reqs.len()
        invariant
            i <= reqs.len(),
            all == reqs.deep_view(),
            paths.deep_view() == paths_of(all.take(i as int)),
        decreases reqs.len() - i,
    {
        proof {
            let upto = all.take(i + 1);
            assert(upto.drop_last() == all.take(i as int));
            assert(upto.last() == reqs@[i as int]@);
        }
        match &reqs[i].path {
            Some(path) => {
                let ghost before = paths.deep_view();
                let copy = path.clone();
                paths.push(copy);
                assert(paths.deep_view() == before.push(copy@));
            },
            None => {},
        }
        i += 1;
    }
    assert(all.take(all.len() as int) == all);
    paths
}

impl Config {
    /// The directories that the requirements point at, in the order of the
    /// requirements: those of the development requirements if `dev` is set,
    /// else those of the others.
    pub fn path_requirements(&self, dev: bool) -> (paths: Vec<String>)
        ensures
            paths.deep_view() == paths_of(
                if dev {
                    self@.dev_reqs
                } else {
                    self@.reqs
                },
            ),
    {
        if dev {
            paths_in(&self.dev_reqs)
        } else {
            paths_in(&self.reqs)
        }
    }

    /// Adds to the requirements what the directories of the path
    /// requirements call for, to every depth: where the manifest of such a
    /// directory has path requirements of its own, their directories are
    /// looked into as well, and so on. No directory is looked into twice in
    /// one expansion, so that directories that point at each other end it.
    ///
    /// `found` says what each directory holds that is reached from the
    /// requirements, and `dev_found` the same for the development
    /// requirements; each directory is known by its path. A directory of
    /// which nothing is said holds nothing, and what is said of a directory
    /// that no path requirement leads to adds nothing. What the first
    /// expansion adds goes behind the requirements, what the second adds
    /// behind the development requirements. The requirements that were
    /// there stay, the path requirements too. If anything cannot be read,
    /// nothing is changed.
    pub fn populate_path_subreqs(
        &mut self,
        found: Vec<PathContents>,
        dev_found: Vec<PathContents>,
    ) -> (r: Result<(), DescriptorError>)
        ensures
            match subreqs(found.deep_view(), paths_of(old(self)@.reqs)) {
                Err(e) => r matches Err(x) && x == e && final(self)@ == old(self)@,
                Ok(added) => match subreqs(dev_found.deep_view(), paths_of(old(self)@.dev_reqs)) {
                    Err(e) => r matches Err(x) && x == e && final(self)@ == old(self)@,
                    Ok(dev_added) => r is Ok && final(self)@ == (ConfigView {
                        reqs: old(self)@.reqs + added,
                        dev_reqs: old(self)@.dev_reqs + dev_added,
                        ..old(self)@
                    }),
                },
            },
    {
        let mut added = match pop_reqs_helper(paths_in(&self.reqs), found) {
            Ok(reqs) => reqs,
            Err(e) => {
                return Err(e);
            },
        };
        let mut dev_added = match pop_reqs_helper(paths_in(&self.dev_reqs), dev_found) {
            Ok(reqs) => reqs,
            Err(e) => {
                return Err(e);
            },
        };
        let ghost held = self@;
        let ghost more = added.deep_view();
        let ghost dev_more = dev_added.deep_view();
        self.reqs.append(&mut added);
        self.dev_reqs.append(&mut dev_added);
        assert(self@.reqs == held.reqs + more);
        assert(self@.dev_reqs == held.dev_reqs + dev_more);
        Ok(())
    }
}

} // verus!
