//! What holds of the library as a whole, proved from the definitions that
//! the contracts of its functions are stated in.

use vstd::prelude::*;
use crate::config::{distinct_keys, ConfigView};
use crate::constraint::{
    constraint_of, constraints_of, constraints_of_pieces, constraints_read,
    lemma_constraint_reads_back, lemma_constraint_text_plain, lemma_list_reads_back, list_text,
    strip_blanks, Constraint,
};
use crate::error::DescriptorError;
use crate::local::{
    fed, found_in, is_dist_info_name, next_step, paths_of, position_from, run, started, subreqs,
    visits_of, wheel_reqs, ExpansionView, FolderView, Found, PathContentsView, TaskView,
};
use crate::manifest::{DepComponentView, DepComponentWrapperView, PyprojectView};
use crate::reading::{
    config_of, distinct_names, is_python_name, overlay, poetry_deps, req_of_entry, reqs_of_deps,
    DepsView,
};
use crate::req::ReqView;
use crate::text::{join_with, lemma_split_on_nonempty, none_holds, split_on};
use crate::version::{lemma_version_reads_back, version_of, Version};

verus! {

/// Reading a list of constraints is deterministic: whatever two readings of
/// one text return, they agree on whether the text is refused, and where it
/// is not they hold the same constraints in the same order.
pub proof fn law_constraints_read_alike(
    s: Seq<char>,
    first: Result<Vec<Constraint>, DescriptorError>,
    second: Result<Vec<Constraint>, DescriptorError>,
)
    requires
        constraints_read(s, first),
        constraints_read(s, second),
    ensures
        first is Ok <==> second is Ok,
        first is Ok ==> first->Ok_0@ == second->Ok_0@,
        first is Err ==> first->Err_0 == second->Err_0,
{
}

/// Splitting loses nothing: no piece holds the separator, and the pieces
/// with the separator between them are the text again.
pub proof fn law_split_loses_nothing(s: Seq<char>, sep: char)
    ensures
        none_holds(split_on(s, sep), sep),
        join_with(split_on(s, sep), seq![sep]) == s,
    decreases s.len(),
{
    let pieces = split_on(s, sep);
    if s.len() == 0 {
        assert(join_with(pieces, seq![sep]) == s);
    } else {
        let before = split_on(s.drop_last(), sep);
        law_split_loses_nothing(s.drop_last(), sep);
        lemma_split_on_nonempty(s.drop_last(), sep);
        if s.last() == sep {
            assert(pieces.drop_last() == before);
            assert(join_with(pieces, seq![sep]) == s) by {
                if pieces.len() > 1 {
                    assert(join_with(before, seq![sep]) + seq![sep] + Seq::<char>::empty() == s);
                }
            }
            assert forall|i: int| 0 <= i < pieces.len() implies !(#[trigger] pieces[i]).contains(
                sep,
            ) by {
                if i < before.len() {
                    assert(pieces[i] == before[i]);
                }
            }
        } else {
            let grown = before.last().push(s.last());
            assert(pieces.last() == grown);
            assert(pieces.drop_last() == before.drop_last());
            assert forall|i: int| 0 <= i < pieces.len() implies !(#[trigger] pieces[i]).contains(
                sep,
            ) by {
                if i < before.len() - 1 {
                    assert(pieces[i] == before[i]);
                } else {
                    assert forall|k: int| 0 <= k < grown.len() implies grown[k] != sep by {
                        if k < before.last().len() {
                            assert(before.last().contains(grown[k]));
                        }
                    }
                }
            }
            if before.len() == 1 {
                assert(before[0] == s.drop_last());
                assert(grown == s);
            } else {
                assert(join_with(before.drop_last(), seq![sep]) + seq![sep] + grown == (join_with(
                    before.drop_last(),
                    seq![sep],
                ) + seq![sep] + before.last()).push(s.last()));
                assert(s.drop_last().push(s.last()) == s);
            }
        }
    }
}

/// Versions are totally ordered: of two versions exactly one of "earlier",
/// "equal" and "later" holds, and "earlier" is transitive.
pub proof fn law_versions_totally_ordered(a: Version, b: Version, c: Version)
    ensures
        !a.precedes(a),
        a.precedes(b) || a == b || b.precedes(a),
        !(a.precedes(b) && b.precedes(a)),
        a.precedes(b) && b.precedes(c) ==> a.precedes(c),
{
}

/// Writing and reading agree: a version, a constraint and a list of
/// constraints are each read back from what is written for them.
pub proof fn law_written_text_reads_back(v: Version, c: Constraint, cs: Seq<Constraint>)
    ensures
        version_of(v.text()) == Some(v),
        constraint_of(c.text()) == Some(c),
        constraints_of(list_text(cs)) == Some(cs),
{
    lemma_version_reads_back(v);
    lemma_constraint_text_plain(c);
    lemma_constraint_reads_back(c);
    lemma_list_reads_back(cs);
}

/// A dependency has no constraint only where its text says so: a text that
/// is read as the empty list is a star, blanks aside.
pub proof fn law_star_alone_is_unconstrained(s: Seq<char>)
    requires
        constraints_of(s) == Some(Seq::<Constraint>::empty()),
    ensures
        strip_blanks(s) == seq!['*'],
{
    let stripped = strip_blanks(s);
    if stripped != seq!['*'] {
        let pieces = split_on(stripped, ',');
        lemma_split_on_nonempty(stripped, ',');
        assert(constraints_of(s) == constraints_of_pieces(pieces));
        assert(constraints_of_pieces(pieces)->0.len() == pieces.len());
        assert(Seq::<Constraint>::empty().len() == 0);
    }
}

/// A table of dependencies is read entry by entry: it can be read if and
/// only if each of its entries can, and then there is one requirement for
/// each entry, in the order of the table.
pub proof fn law_reqs_follow_entries(deps: DepsView)
    ensures
        reqs_of_deps(deps) is Ok <==> forall|i: int|
            0 <= i < deps.len() ==> (#[trigger] req_of_entry(deps[i].0, deps[i].1)) is Ok,
        reqs_of_deps(deps) matches Ok(reqs) ==> reqs.len() == deps.len() && forall|i: int|
            0 <= i < deps.len() ==> (#[trigger] req_of_entry(deps[i].0, deps[i].1)) == Ok::<
                ReqView,
                DescriptorError,
            >(reqs[i]),
    decreases deps.len(),
{
    if deps.len() > 0 {
        let before = deps.drop_last();
        law_reqs_follow_entries(before);
        assert forall|i: int| 0 <= i < before.len() implies before[i] == deps[i] by {}
        if reqs_of_deps(deps) is Ok {
            assert forall|i: int| 0 <= i < deps.len() implies (#[trigger] req_of_entry(
                deps[i].0,
                deps[i].1,
            )) is Ok by {
                if i < before.len() {
                    assert(before[i] == deps[i]);
                }
            }
        }
        if forall|i: int|
            0 <= i < deps.len() ==> (#[trigger] req_of_entry(deps[i].0, deps[i].1)) is Ok {
            assert forall|i: int| 0 <= i < before.len() implies (#[trigger] req_of_entry(
                before[i].0,
                before[i].1,
            )) is Ok by {
                assert(before[i] == deps[i]);
            }
            assert(req_of_entry(deps[deps.len() - 1].0, deps[deps.len() - 1].1) is Ok);
        }
        if reqs_of_deps(deps) is Ok {
            let reqs = reqs_of_deps(deps)->Ok_0;
            assert forall|i: int| 0 <= i < deps.len() implies (#[trigger] req_of_entry(
                deps[i].0,
                deps[i].1,
            )) == Ok::<ReqView, DescriptorError>(reqs[i]) by {
                if i < before.len() {
                    assert(before[i] == deps[i]);
                }
            }
        }
    }
}

/// Merge precedence, for the name: where the native section gives a name,
/// that is the name of the project, whatever the Poetry section says. Where
/// the native section is there and gives none, the name is that of the
/// Poetry section.
pub proof fn law_native_name_stands(m: PyprojectView, fallback: Seq<Seq<char>>)
    requires
        m.tool.pyflow is Some,
        config_of(m, fallback) is Ok,
    ensures
        m.tool.pyflow->0.name is Some ==> config_of(m, fallback)->Ok_0.name
            == m.tool.pyflow->0.name,
        m.tool.pyflow->0.name is None && m.tool.poetry is Some ==> config_of(
            m,
            fallback,
        )->Ok_0.name == m.tool.poetry->0.name,
{
}

/// Merge precedence, for every text that both sections can give: the text
/// of the native section stands where it gives one, else that of the Poetry
/// section, and the field is unset where neither gives it.
pub proof fn law_last_section_stands(m: PyprojectView, fallback: Seq<Seq<char>>)
    requires
        m.tool.pyflow is Some,
        m.tool.poetry is Some,
        config_of(m, fallback) is Ok,
    ensures
        ({
            let c = config_of(m, fallback)->Ok_0;
            let po = m.tool.poetry->0;
            let pf = m.tool.pyflow->0;
            &&& c.name == overlay(po.name, pf.name)
            &&& c.license == overlay(po.license, pf.license)
            &&& c.description == overlay(po.description, pf.description)
            &&& c.homepage == overlay(po.homepage, pf.homepage)
            &&& c.repository == overlay(po.repository, pf.repository)
            &&& c.readme == overlay(po.readme, pf.readme)
            &&& c.build == overlay(po.build, pf.build)
        }),
{
}

/// The requirements of the two sections are not merged: where the native
/// section has a table of dependencies, the requirements of the project are
/// those of that table and no others.
pub proof fn law_native_dependencies_replace(m: PyprojectView, fallback: Seq<Seq<char>>)
    requires
        m.tool.pyflow is Some,
        m.tool.pyflow->0.dependencies is Some,
        config_of(m, fallback) is Ok,
    ensures
        reqs_of_deps(m.tool.pyflow->0.dependencies->0) == Ok::<Seq<ReqView>, DescriptorError>(
            config_of(m, fallback)->Ok_0.reqs,
        ),
{
}

/// Author fallback: where the native section gives an empty list of
/// authors, the authors of the project are the fallback, so that there is an
/// author whenever the fallback names one. Where the section gives authors,
/// they are the authors of the project.
pub proof fn law_authors_fall_back(m: PyprojectView, fallback: Seq<Seq<char>>)
    requires
        m.tool.pyflow is Some,
        m.tool.pyflow->0.authors is Some,
        config_of(m, fallback) is Ok,
    ensures
        m.tool.pyflow->0.authors->0.len() == 0 ==> config_of(m, fallback)->Ok_0.authors
            == fallback,
        m.tool.pyflow->0.authors->0.len() > 0 ==> config_of(m, fallback)->Ok_0.authors
            == m.tool.pyflow->0.authors->0,
{
}

/// The two shapes of a dependency are equivalent: constraints given alone,
/// and a table that gives the same constraints and nothing else, declare the
/// same requirement.
pub proof fn law_shapes_agree(name: Seq<char>, constrs: Seq<char>)
    ensures
        req_of_entry(name, DepComponentWrapperView::A(constrs)) == req_of_entry(
            name,
            DepComponentWrapperView::B(
                DepComponentView {
                    constrs: Some(constrs),
                    extras: None,
                    path: None,
                    git: None,
                    python: None,
                },
            ),
        ),
{
}

/// In a Poetry section no entry named `python`, in whatever case, becomes a
/// requirement.
pub proof fn law_python_is_no_requirement(deps: DepsView)
    requires
        poetry_deps(deps) is Ok,
    ensures
        forall|j: int|
            0 <= j < poetry_deps(deps)->Ok_0.reqs.len() ==> !is_python_name(
                (#[trigger] poetry_deps(deps)->Ok_0.reqs[j]).name,
            ),
    decreases deps.len(),
{
    if deps.len() > 0 {
        law_python_is_no_requirement(deps.drop_last());
    }
}

/// In a Poetry section the entry named `python` gives the interpreter
/// version: it is the version of the first constraint of the last such entry
/// of the table, where that entry has a constraint.
pub proof fn law_python_gives_interpreter(deps: DepsView, i: int)
    requires
        poetry_deps(deps) is Ok,
        0 <= i < deps.len(),
        is_python_name(deps[i].0),
        forall|j: int| i < j < deps.len() ==> !is_python_name(#[trigger] deps[j].0),
        req_of_entry(deps[i].0, deps[i].1) is Ok,
        req_of_entry(deps[i].0, deps[i].1)->Ok_0.constraints.len() > 0,
    ensures
        poetry_deps(deps)->Ok_0.py_version == Some(
            req_of_entry(deps[i].0, deps[i].1)->Ok_0.constraints[0].version,
        ),
    decreases deps.len(),
{
    if i < deps.len() - 1 {
        let before = deps.drop_last();
        assert(before[i] == deps[i]);
        assert forall|j: int| i < j < before.len() implies !is_python_name(
            #[trigger] before[j].0,
        ) by {
            assert(before[j] == deps[j]);
        }
        assert(!is_python_name(deps[deps.len() - 1].0));
        law_python_gives_interpreter(before, i);
    }
}

/// Where a manifest has a Poetry section only, what its dependencies give
/// is what the project has: no requirement is named `python`, and the
/// interpreter version is the one that the dependencies give.
pub proof fn law_poetry_python(m: PyprojectView, fallback: Seq<Seq<char>>)
    requires
        m.tool.pyflow is None,
        m.tool.poetry is Some,
        m.tool.poetry->0.dependencies is Some,
        config_of(m, fallback) is Ok,
    ensures
        poetry_deps(m.tool.poetry->0.dependencies->0) is Ok,
        config_of(m, fallback)->Ok_0.py_version == poetry_deps(
            m.tool.poetry->0.dependencies->0,
        )->Ok_0.py_version,
        config_of(m, fallback)->Ok_0.reqs == poetry_deps(m.tool.poetry->0.dependencies->0)->Ok_0.reqs,
        forall|j: int|
            0 <= j < config_of(m, fallback)->Ok_0.reqs.len() ==> !is_python_name(
                (#[trigger] config_of(m, fallback)->Ok_0.reqs[j]).name,
            ),
{
    let found = poetry_deps(m.tool.poetry->0.dependencies->0);
    assert(found is Ok);
    assert(Seq::<ReqView>::empty() + found->Ok_0.reqs == found->Ok_0.reqs);
    law_python_is_no_requirement(m.tool.poetry->0.dependencies->0);
}

/// The tables of a description stay maps: where no key occurs twice in the
/// extras of the Poetry section nor in the scripts of the native section,
/// none occurs twice in the tables of the description.
pub proof fn law_tables_stay_maps(m: PyprojectView, fallback: Seq<Seq<char>>)
    requires
        config_of(m, fallback) is Ok,
        m.tool.poetry matches Some(po) ==> (po.extras matches Some(extras) ==> distinct_keys(
            extras,
        )),
        m.tool.pyflow matches Some(pf) ==> (pf.scripts matches Some(scripts) ==> distinct_keys(
            scripts,
        )),
    ensures
        config_of(m, fallback)->Ok_0.well_formed(),
{
}

/// Whether a directory holds nothing that adds a requirement: no list of
/// requirements, no manifest, and no folder of a built wheel.
pub open spec fn is_bare(c: PathContentsView) -> bool {
    &&& c.requirements is None
    &&& c.manifest is None
    &&& forall|i: int| 0 <= i < c.folders.len() ==> !is_dist_info_name(#[trigger] c.folders[i].name)
}

/// Folders of which none is that of a built wheel add no requirement.
pub proof fn law_other_folders_add_nothing(folders: Seq<FolderView>)
    requires
        forall|i: int| 0 <= i < folders.len() ==> !is_dist_info_name(#[trigger] folders[i].name),
    ensures
        wheel_reqs(folders) == Ok::<Seq<ReqView>, DescriptorError>(Seq::empty()),
    decreases folders.len(),
{
    if folders.len() > 0 {
        let before = folders.drop_last();
        assert forall|i: int| 0 <= i < before.len() implies !is_dist_info_name(
            #[trigger] before[i].name,
        ) by {
            assert(before[i] == folders[i]);
        }
        law_other_folders_add_nothing(before);
        assert(!is_dist_info_name(folders[folders.len() - 1].name));
    }
}

/// What a bare directory adds: nothing.
pub proof fn lemma_bare_adds_nothing(c: PathContentsView)
    requires
        is_bare(c),
    ensures
        found_in(c) == Ok::<Found, DescriptorError>(
            Found { first: Seq::empty(), paths: Seq::empty(), after: Seq::empty() },
        ),
{
    reveal(found_in);
    law_other_folders_add_nothing(c.folders);
    assert(Seq::<ReqView>::empty() + Seq::<ReqView>::empty() == Seq::<ReqView>::empty());
}

/// Whether an agenda holds no requirement to add.
pub open spec fn adds_nothing(agenda: Seq<TaskView>) -> bool {
    forall|k: int|
        0 <= k < agenda.len() ==> ((#[trigger] agenda[k]) matches TaskView::Add(more)
            ==> more.len() == 0)
}

/// Among bare directories an expansion whose agenda holds no requirement
/// ends with the requirements that it has.
pub proof fn lemma_bare_run(world: Seq<PathContentsView>, s: ExpansionView)
    requires
        forall|i: int| 0 <= i < world.len() ==> is_bare(#[trigger] world[i]),
        adds_nothing(s.agenda),
    ensures
        run(world, s) == Ok::<Seq<ReqView>, DescriptorError>(s.reqs),
    decreases world.len(), s.agenda.len(),
{
    reveal(run);
    if s.agenda.len() > 0 {
        let rest = s.agenda.drop_last();
        assert forall|k: int| 0 <= k < rest.len() implies ((#[trigger] rest[k]) matches TaskView::Add(
            more,
        ) ==> more.len() == 0) by {
            assert(rest[k] == s.agenda[k]);
        }
        match s.agenda.last() {
            TaskView::Add(more) => {
                assert(s.agenda[s.agenda.len() - 1] == TaskView::Add(more));
                assert(s.reqs + more == s.reqs);
                lemma_bare_run(world, ExpansionView { agenda: rest, reqs: s.reqs + more, ..s });
            },
            TaskView::Visit(path) => {
                if s.visited.contains(path) {
                    lemma_bare_run(world, ExpansionView { agenda: rest, ..s });
                } else {
                    let entered = ExpansionView {
                        agenda: rest,
                        visited: s.visited.push(path),
                        ..s
                    };
                    let at = position_from(world, path, 0);
                    if 0 <= at < world.len() {
                        lemma_bare_adds_nothing(world[at]);
                        let after = fed(entered, world[at])->Ok_0;
                        let none = Seq::<ReqView>::empty();
                        assert(after.reqs == s.reqs) by {
                            assert(s.reqs + none == s.reqs);
                        }
                        assert(after.agenda == rest.push(TaskView::Add(none))) by {
                            assert(visits_of(Seq::<Seq<char>>::empty()).len() == 0);
                            assert(rest.push(TaskView::Add(none)) + visits_of(
                                Seq::<Seq<char>>::empty(),
                            ) == rest.push(TaskView::Add(none)));
                        }
                        assert forall|k: int| 0 <= k < after.agenda.len() implies ((
                        #[trigger] after.agenda[k]) matches TaskView::Add(more) ==> more.len()
                            == 0) by {
                            if k < rest.len() {
                                assert(after.agenda[k] == rest[k]);
                            }
                        }
                        let smaller = world.remove(at);
                        assert forall|i: int| 0 <= i < smaller.len() implies is_bare(
                            #[trigger] smaller[i],
                        ) by {
                            if i < at {
                                assert(smaller[i] == world[i]);
                            } else {
                                assert(smaller[i] == world[i + 1]);
                            }
                        }
                        lemma_bare_run(smaller, after);
                    } else {
                        lemma_bare_run(world, entered);
                    }
                }
            },
        }
    }
}

/// Path requirements whose directories are bare add nothing, to whatever
/// depth: the requirements of the project stay as they are, the path
/// requirements among them.
pub proof fn law_bare_directories_add_nothing(
    c: ConfigView,
    found: Seq<PathContentsView>,
    paths: Seq<Seq<char>>,
)
    requires
        forall|i: int| 0 <= i < found.len() ==> is_bare(#[trigger] found[i]),
    ensures
        subreqs(found, paths) == Ok::<Seq<ReqView>, DescriptorError>(Seq::empty()),
        (ConfigView { reqs: c.reqs + subreqs(found, paths)->Ok_0, ..c }) == c,
        (ConfigView { dev_reqs: c.dev_reqs + subreqs(found, paths)->Ok_0, ..c }) == c,
{
    lemma_bare_run(found, started(paths));
    assert(c.reqs + Seq::<ReqView>::empty() == c.reqs);
    assert(c.dev_reqs + Seq::<ReqView>::empty() == c.dev_reqs);
}

/// Without a path requirement nothing is added, whatever is said of any
/// directory.
pub proof fn law_no_path_no_addition(c: ConfigView, found: Seq<PathContentsView>)
    ensures
        subreqs(found, Seq::empty()) == Ok::<Seq<ReqView>, DescriptorError>(Seq::empty()),
        paths_of(c.reqs).len() == 0 ==> (ConfigView {
            reqs: c.reqs + subreqs(found, paths_of(c.reqs))->Ok_0,
            ..c
        }) == c,
{
    reveal(run);
    assert(started(Seq::empty()).agenda.len() == 0);
    assert(c.reqs + Seq::<ReqView>::empty() == c.reqs);
    if paths_of(c.reqs).len() == 0 {
        assert(paths_of(c.reqs) == Seq::<Seq<char>>::empty());
    }
}

/// A table of dependencies is a map: where no name occurs twice in it, no
/// two of the requirements that are read from it have the same name.
pub proof fn law_distinct_names_stay(deps: DepsView)
    requires
        distinct_names(deps),
        reqs_of_deps(deps) is Ok,
    ensures
        forall|i: int, j: int|
            0 <= i < j < reqs_of_deps(deps)->Ok_0.len() ==> (#[trigger] reqs_of_deps(
                deps,
            )->Ok_0[i]).name != (#[trigger] reqs_of_deps(deps)->Ok_0[j]).name,
{
    law_reqs_follow_entries(deps);
    let reqs = reqs_of_deps(deps)->Ok_0;
    assert forall|i: int, j: int| 0 <= i < j < reqs.len() implies (#[trigger] reqs[i]).name != (
    #[trigger] reqs[j]).name by {
        assert(req_of_entry(deps[i].0, deps[i].1) == Ok::<ReqView, DescriptorError>(reqs[i]));
        assert(req_of_entry(deps[j].0, deps[j].1) == Ok::<ReqView, DescriptorError>(reqs[j]));
        assert(deps[i].0 != deps[j].0);
    }
}

/// Whether every requirement of `part` is among `all`.
pub open spec fn holds_all(all: Seq<ReqView>, part: Seq<ReqView>) -> bool {
    forall|i: int| 0 <= i < part.len() ==> all.contains(#[trigger] part[i])
}

/// What `world` says that the directory `path` holds, if it says anything:
/// its first entry for that directory.
pub open spec fn held(world: Seq<PathContentsView>, path: Seq<char>) -> Option<PathContentsView> {
    let at = position_from(world, path, 0);
    if 0 <= at < world.len() {
        Some(world[at])
    } else {
        None
    }
}

/// Whether what the directory `path` adds is among `all`: the requirements
/// of its list, those of its manifest and those of its built wheels. A
/// directory of which `world` says nothing adds nothing.
pub open spec fn directory_is_in(world: Seq<PathContentsView>, path: Seq<char>, all: Seq<ReqView>) -> bool {
    match held(world, path) {
        None => true,
        Some(c) => found_in(c) is Ok && holds_all(all, found_in(c)->Ok_0.first) && holds_all(
            all,
            found_in(c)->Ok_0.after,
        ),
    }
}

/// Whether what a task stands for is among `all`. A visit of a directory
/// that was looked into before stands for nothing.
pub open spec fn task_is_in(
    world: Seq<PathContentsView>,
    visited: Seq<Seq<char>>,
    task: TaskView,
    all: Seq<ReqView>,
) -> bool {
    match task {
        TaskView::Add(more) => holds_all(all, more),
        TaskView::Visit(path) => visited.contains(path) || directory_is_in(world, path, all),
    }
}

/// Requirements that are among `all` one by one are among it together.
pub proof fn lemma_holds_all_add(all: Seq<ReqView>, a: Seq<ReqView>, b: Seq<ReqView>)
    ensures
        holds_all(all, a + b) <==> holds_all(all, a) && holds_all(all, b),
{
    let both = a + b;
    if holds_all(all, both) {
        assert forall|i: int| 0 <= i < a.len() implies all.contains(#[trigger] a[i]) by {
            assert(both[i] == a[i]);
        }
        assert forall|i: int| 0 <= i < b.len() implies all.contains(#[trigger] b[i]) by {
            assert(both[a.len() + i] == b[i]);
        }
    }
    if holds_all(all, a) && holds_all(all, b) {
        assert forall|i: int| 0 <= i < both.len() implies all.contains(#[trigger] both[i]) by {
            if i < a.len() {
                assert(both[i] == a[i]);
            } else {
                assert(both[i] == b[i - a.len()]);
            }
        }
    }
}

/// The position of a directory is where its first entry is.
pub proof fn lemma_position_is_first(world: Seq<PathContentsView>, path: Seq<char>, from: int)
    requires
        0 <= from <= world.len(),
    ensures
        from <= position_from(world, path, from) <= world.len(),
        forall|j: int|
            from <= j < position_from(world, path, from) ==> (#[trigger] world[j]).path != path,
        position_from(world, path, from) < world.len() ==> world[position_from(
            world,
            path,
            from,
        )].path == path,
    decreases world.len() - from,
{
    if from < world.len() && world[from].path != path {
        lemma_position_is_first(world, path, from + 1);
    }
}

/// Taking the entry of one directory away leaves what is held of every
/// other directory.
pub proof fn lemma_held_after_remove(world: Seq<PathContentsView>, at: int, path: Seq<char>)
    requires
        0 <= at < world.len(),
        world[at].path != path,
    ensures
        held(world.remove(at), path) == held(world, path),
{
    let smaller = world.remove(at);
    let was = position_from(world, path, 0);
    let is = position_from(smaller, path, 0);
    lemma_position_is_first(world, path, 0);
    lemma_position_is_first(smaller, path, 0);
    let moved = if was < at {
        was
    } else {
        was - 1
    };
    assert forall|j: int| 0 <= j < moved implies (#[trigger] smaller[j]).path != path by {
        if j < at {
            assert(smaller[j] == world[j]);
        } else {
            assert(smaller[j] == world[j + 1]);
        }
    }
    if is < moved {
        assert(smaller[is].path == path);
    }
    if moved < is {
        assert(smaller[moved].path != path);
        if moved < at {
            assert(smaller[moved] == world[moved]);
        } else {
            assert(smaller[moved] == world[moved + 1]);
        }
    }
    assert(is == moved);
    if was < world.len() {
        if was < at {
            assert(smaller[moved] == world[was]);
        } else {
            assert(smaller[moved] == world[was]);
        }
    }
}

/// A directory that was not looked into is not looked into when another
/// is.
pub proof fn lemma_still_to_visit(visited: Seq<Seq<char>>, path: Seq<char>, other: Seq<char>)
    requires
        other != path,
        !visited.contains(other),
    ensures
        !visited.push(path).contains(other),
{
    let more = visited.push(path);
    if more.contains(other) {
        let i = choose|i: int| 0 <= i < more.len() && more[i] == other;
        if i < visited.len() {
            assert(visited[i] == other);
        }
    }
}

/// All that is on the agenda comes into the result: the requirements that
/// the expansion has, those that are to be added, and what every directory
/// adds that is to be looked into.
pub proof fn lemma_agenda_is_worked_off(world: Seq<PathContentsView>, s: ExpansionView)
    requires
        run(world, s) is Ok,
    ensures
        holds_all(run(world, s)->Ok_0, s.reqs),
        forall|k: int|
            0 <= k < s.agenda.len() ==> task_is_in(
                world,
                s.visited,
                #[trigger] s.agenda[k],
                run(world, s)->Ok_0,
            ),
    decreases world.len(), s.agenda.len(),
{
    reveal(run);
    let all = run(world, s)->Ok_0;
    if s.agenda.len() == 0 {
        assert forall|i: int| 0 <= i < s.reqs.len() implies all.contains(#[trigger] s.reqs[i]) by {}
    } else {
        let rest = s.agenda.drop_last();
        let top = s.agenda.len() - 1;
        assert forall|k: int| 0 <= k < top implies rest[k] == s.agenda[k] by {}
        match s.agenda.last() {
            TaskView::Add(more) => {
                let next = ExpansionView { agenda: rest, reqs: s.reqs + more, ..s };
                lemma_agenda_is_worked_off(world, next);
                lemma_holds_all_add(all, s.reqs, more);
                assert forall|k: int| 0 <= k < s.agenda.len() implies task_is_in(
                    world,
                    s.visited,
                    #[trigger] s.agenda[k],
                    all,
                ) by {
                    if k < top {
                        assert(task_is_in(world, next.visited, next.agenda[k], all));
                    }
                }
            },
            TaskView::Visit(path) => {
                if s.visited.contains(path) {
                    let next = ExpansionView { agenda: rest, ..s };
                    lemma_agenda_is_worked_off(world, next);
                    assert forall|k: int| 0 <= k < s.agenda.len() implies task_is_in(
                        world,
                        s.visited,
                        #[trigger] s.agenda[k],
                        all,
                    ) by {
                        if k < top {
                            assert(task_is_in(world, next.visited, next.agenda[k], all));
                        }
                    }
                } else {
                    let entered = ExpansionView {
                        agenda: rest,
                        visited: s.visited.push(path),
                        ..s
                    };
                    let at = position_from(world, path, 0);
                    lemma_position_is_first(world, path, 0);
                    if 0 <= at < world.len() {
                        let found = found_in(world[at])->Ok_0;
                        let after = fed(entered, world[at])->Ok_0;
                        let smaller = world.remove(at);
                        lemma_agenda_is_worked_off(smaller, after);
                        lemma_holds_all_add(all, s.reqs, found.first);
                        assert(after.agenda[rest.len() as int] == TaskView::Add(found.after));
                        assert(task_is_in(smaller, after.visited, after.agenda[rest.len() as int], all));
                        assert(directory_is_in(world, path, all));
                        assert forall|k: int| 0 <= k < s.agenda.len() implies task_is_in(
                            world,
                            s.visited,
                            #[trigger] s.agenda[k],
                            all,
                        ) by {
                            if k < top {
                                assert(after.agenda[k] == s.agenda[k]);
                                assert(task_is_in(smaller, after.visited, after.agenda[k], all));
                                match s.agenda[k] {
                                    TaskView::Visit(other) => {
                                        if other != path && !s.visited.contains(other) {
                                            lemma_held_after_remove(world, at, other);
                                            lemma_still_to_visit(s.visited, path, other);
                                        }
                                    },
                                    TaskView::Add(_) => {},
                                }
                            }
                        }
                    } else {
                        lemma_agenda_is_worked_off(world, entered);
                        assert forall|k: int| 0 <= k < s.agenda.len() implies task_is_in(
                            world,
                            s.visited,
                            #[trigger] s.agenda[k],
                            all,
                        ) by {
                            if k < top {
                                assert(task_is_in(world, entered.visited, entered.agenda[k], all));
                                match s.agenda[k] {
                                    TaskView::Visit(other) => {
                                        if other != path && !s.visited.contains(other) {
                                            lemma_still_to_visit(s.visited, path, other);
                                        }
                                    },
                                    TaskView::Add(_) => {},
                                }
                            }
                        }
                    }
                }
            },
        }
    }
}

/// No directory is looked into twice: the directory that comes next was
/// not looked into before, it counts as looked into from then on, and so
/// does every directory that did.
pub proof fn law_no_directory_twice(s: ExpansionView)
    ensures
        next_step(s).directory matches Some(path) ==> !s.visited.contains(path) && next_step(
            s,
        ).state.visited == s.visited.push(path),
        next_step(s).directory is None ==> next_step(s).state.visited == s.visited
            && next_step(s).state.agenda.len() == 0,
    decreases s.agenda.len(),
{
    reveal(next_step);
    if s.agenda.len() > 0 {
        match s.agenda.last() {
            TaskView::Add(more) => {
                law_no_directory_twice(
                    ExpansionView { agenda: s.agenda.drop_last(), reqs: s.reqs + more, ..s },
                );
            },
            TaskView::Visit(path) => {
                if s.visited.contains(path) {
                    law_no_directory_twice(ExpansionView { agenda: s.agenda.drop_last(), ..s });
                }
            },
        }
    }
}

/// Whether the manifest of the directory `from` has a path requirement
/// that points at the directory `to`.
pub open spec fn points_at(world: Seq<PathContentsView>, from: Seq<char>, to: Seq<char>) -> bool {
    held(world, from) matches Some(c) && found_in(c) matches Ok(found) && found.paths.contains(to)
}

/// Whether the directory at place `i` of `route` points at the next.
pub open spec fn is_link(world: Seq<PathContentsView>, route: Seq<Seq<char>>, i: int) -> bool {
    points_at(world, route[i], route[i + 1])
}

/// Whether `route` is a chain of path requirements: it names a directory,
/// and each of its directories points at the next.
pub open spec fn is_route(world: Seq<PathContentsView>, route: Seq<Seq<char>>) -> bool {
    route.len() >= 1 && forall|i: int|
        0 <= i < route.len() - 1 ==> #[trigger] is_link(world, route, i)
}

/// Where `path` is among `route`, it is there for a last time.
pub proof fn lemma_last_occurrence(route: Seq<Seq<char>>, path: Seq<char>) -> (j: int)
    requires
        route.contains(path),
    ensures
        0 <= j < route.len(),
        route[j] == path,
        forall|i: int| j < i < route.len() ==> route[i] != path,
    decreases route.len(),
{
    if route.last() == path {
        route.len() - 1
    } else {
        let front = route.drop_last();
        let at = choose|i: int| 0 <= i < route.len() && route[i] == path;
        assert(front[at] == path);
        let j = lemma_last_occurrence(front, path);
        assert forall|i: int| j < i < route.len() implies route[i] != path by {
            if i < front.len() {
                assert(front[i] == route[i]);
            }
        }
        j
    }
}

/// A directory that a manifest points at is on the agenda once the
/// directory of that manifest was looked into.
pub proof fn lemma_fed_plans(s: ExpansionView, c: PathContentsView, to: Seq<char>) -> (k: int)
    requires
        found_in(c) is Ok,
        found_in(c)->Ok_0.paths.contains(to),
    ensures
        0 <= k < fed(s, c)->Ok_0.agenda.len(),
        fed(s, c)->Ok_0.agenda[k] == TaskView::Visit(to),
{
    let paths = found_in(c)->Ok_0.paths;
    let m = choose|m: int| 0 <= m < paths.len() && paths[m] == to;
    let visits = visits_of(paths);
    assert(visits[paths.len() - 1 - m] == TaskView::Visit(to));
    s.agenda.len() + 1 + (paths.len() - 1 - m)
}

/// A chain of path requirements is followed to its end: where the first
/// directory of the chain is on the agenda and no directory of the chain was
/// looked into yet, what the last directory adds is in the result.
pub proof fn lemma_route_is_followed(
    world: Seq<PathContentsView>,
    s: ExpansionView,
    route: Seq<Seq<char>>,
    k: int,
)
    requires
        run(world, s) is Ok,
        is_route(world, route),
        0 <= k < s.agenda.len(),
        s.agenda[k] == TaskView::Visit(route[0]),
        forall|i: int| 0 <= i < route.len() ==> !s.visited.contains(#[trigger] route[i]),
    ensures
        directory_is_in(world, route.last(), run(world, s)->Ok_0),
    decreases world.len(), s.agenda.len(),
{
    reveal(run);
    let all = run(world, s)->Ok_0;
    let rest = s.agenda.drop_last();
    let top = s.agenda.len() - 1;
    let end = route.len() - 1;
    match s.agenda.last() {
        TaskView::Add(more) => {
            let next = ExpansionView { agenda: rest, reqs: s.reqs + more, ..s };
            assert(next.agenda[k] == s.agenda[k]);
            lemma_route_is_followed(world, next, route, k);
        },
        TaskView::Visit(path) => {
            if s.visited.contains(path) {
                let next = ExpansionView { agenda: rest, ..s };
                assert(k < top) by {
                    assert(!s.visited.contains(route[0]));
                }
                assert(next.agenda[k] == s.agenda[k]);
                lemma_route_is_followed(world, next, route, k);
            } else if route.contains(path) {
                let j = lemma_last_occurrence(route, path);
                if j == end {
                    lemma_agenda_is_worked_off(world, s);
                    assert(task_is_in(world, s.visited, s.agenda[top], all));
                } else {
                    assert(is_link(world, route, j));
                    let at = position_from(world, path, 0);
                    let after = fed(
                        ExpansionView { agenda: rest, visited: s.visited.push(path), ..s },
                        world[at],
                    )->Ok_0;
                    let smaller = world.remove(at);
                    lemma_position_is_first(world, path, 0);
                    let onward = route.skip(j + 1);
                    let place = lemma_fed_plans(
                        ExpansionView { agenda: rest, visited: s.visited.push(path), ..s },
                        world[at],
                        route[j + 1],
                    );
                    assert(onward[0] == route[j + 1]);
                    assert forall|i: int| 0 <= i < onward.len() implies !after.visited.contains(
                        #[trigger] onward[i],
                    ) by {
                        assert(onward[i] == route[j + 1 + i]);
                        assert(!s.visited.contains(route[j + 1 + i]));
                        lemma_still_to_visit(s.visited, path, onward[i]);
                    }
                    assert forall|i: int| 0 <= i < onward.len() - 1 implies #[trigger] is_link(
                        smaller,
                        onward,
                        i,
                    ) by {
                        assert(onward[i] == route[j + 1 + i]);
                        assert(onward[i + 1] == route[j + 1 + i + 1]);
                        assert(is_link(world, route, j + 1 + i));
                        lemma_held_after_remove(world, at, onward[i]);
                    }
                    lemma_route_is_followed(smaller, after, onward, place);
                    assert(onward.last() == route.last());
                    lemma_held_after_remove(world, at, route.last());
                }
            } else {
                let entered = ExpansionView {
                    agenda: rest,
                    visited: s.visited.push(path),
                    ..s
                };
                let at = position_from(world, path, 0);
                lemma_position_is_first(world, path, 0);
                assert(route[0] != path) by {
                    if route[0] == path {
                        assert(route.contains(route[0]));
                    }
                }
                assert(k < top);
                assert forall|i: int| 0 <= i < route.len() implies !entered.visited.contains(
                    #[trigger] route[i],
                ) by {
                    assert(route.contains(route[i]));
                    assert(!s.visited.contains(route[i]));
                    lemma_still_to_visit(s.visited, path, route[i]);
                }
                if 0 <= at < world.len() {
                    let after = fed(entered, world[at])->Ok_0;
                    let smaller = world.remove(at);
                    assert(after.agenda[k] == s.agenda[k]);
                    assert forall|i: int| 0 <= i < route.len() - 1 implies #[trigger] is_link(
                        smaller,
                        route,
                        i,
                    ) by {
                        assert(is_link(world, route, i));
                        assert(route.contains(route[i]));
                        lemma_held_after_remove(world, at, route[i]);
                    }
                    lemma_route_is_followed(smaller, after, route, k);
                    assert(route.contains(route[end]));
                    lemma_held_after_remove(world, at, route.last());
                } else {
                    assert(entered.agenda[k] == s.agenda[k]);
                    lemma_route_is_followed(world, entered, route, k);
                }
            }
        },
    }
}

/// Path requirements are expanded to every depth. Take any chain of path
/// requirements that starts at a directory that the requirements of the
/// project point at: each directory of the chain holds a manifest with a path
/// requirement that points at the next. Then what the last directory of the
/// chain adds is in the result, the requirements of its manifest among it.
pub proof fn law_chain_is_followed(
    world: Seq<PathContentsView>,
    paths: Seq<Seq<char>>,
    route: Seq<Seq<char>>,
)
    requires
        subreqs(world, paths) is Ok,
        is_route(world, route),
        paths.contains(route[0]),
    ensures
        directory_is_in(world, route.last(), subreqs(world, paths)->Ok_0),
        held(world, route.last()) matches Some(c) ==> (c.manifest matches Some(m) ==> config_of(
            m,
            Seq::empty(),
        ) is Ok && holds_all(subreqs(world, paths)->Ok_0, config_of(m, Seq::empty())->Ok_0.reqs)),
{
    let s = started(paths);
    let m = choose|m: int| 0 <= m < paths.len() && paths[m] == route[0];
    assert(s.agenda[paths.len() - 1 - m] == TaskView::Visit(route[0]));
    lemma_route_is_followed(world, s, route, paths.len() - 1 - m);
    let all = subreqs(world, paths)->Ok_0;
    match held(world, route.last()) {
        Some(c) => {
            reveal(found_in);
            match c.manifest {
                Some(m) => {
                    let declared = config_of(m, Seq::empty())->Ok_0.reqs;
                    let first = found_in(c)->Ok_0.first;
                    assert(holds_all(all, declared)) by {
                        assert forall|i: int| 0 <= i < declared.len() implies all.contains(
                            #[trigger] declared[i],
                        ) by {
                            assert(first[first.len() - declared.len() + i] == declared[i]);
                        }
                    }
                },
                None => {},
            }
        },
        None => {},
    }
}

} // verus!
