//! From a decoded manifest to the description of the project: the tables of
//! dependencies are read entry by entry, and the two dialects that a manifest
//! may hold are merged in a fixed order.

use vstd::prelude::*;
use crate::config::{Config, ConfigView};
use crate::constraint::{constraint_of, constraints_of, Constraint};
use crate::error::DescriptorError;
use crate::manifest::{
    DepComponent, DepComponentWrapper, DepComponentWrapperView, Pipfile, PipfileView, Poetry,
    PoetryView, Pyflow, PyflowView, Pyproject, PyprojectView, Tool,
};
use crate::req::{optional_constraints, Req, ReqView};
use crate::text::chars_of;
use crate::version::{version_of, Version};

verus! {

/// A table of dependencies, as plain values.
pub type DepsView = Seq<(Seq<char>, DepComponentWrapperView)>;

/// Whether no name occurs twice in a table of dependencies, as in a table
/// that was decoded from a manifest.
pub open spec fn distinct_names(deps: DepsView) -> bool {
    forall|i: int, j: int|
        0 <= i < j < deps.len() ==> (#[trigger] deps[i]).0 != (#[trigger] deps[j]).0
}

/// The constraints that a dependency declares as `text`.
pub open spec fn dependency_constraints(text: Seq<char>) -> Result<
    Seq<Constraint>,
    DescriptorError,
> {
    match constraints_of(text) {
        Some(cs) => Ok(cs),
        None => Err(DescriptorError::Constraints),
    }
}

/// The interpreter constraint that a dependency declares under `python`:
/// absent where the key is, else the one constraint that the text writes.
pub open spec fn dependency_python(text: Option<Seq<char>>) -> Result<
    Option<Seq<Constraint>>,
    DescriptorError,
> {
    match text {
        None => Ok(None),
        Some(t) => match constraint_of(t) {
            Some(c) => Ok(Some(seq![c])),
            None => Err(DescriptorError::DependencyPython),
        },
    }
}

/// The requirement that one entry of a table of dependencies declares. The
/// short form gives the constraints only. In the table form a key that is
/// left out leaves its field unset, and without `constrs` any version will
/// do.
pub open spec fn req_of_entry(name: Seq<char>, data: DepComponentWrapperView) -> Result<
    ReqView,
    DescriptorError,
> {
    match data {
        DepComponentWrapperView::A(constrs) => match dependency_constraints(constrs) {
            Ok(cs) => Ok(ReqView::plain(name, cs)),
            Err(e) => Err(e),
        },
        DepComponentWrapperView::B(table) => {
            let constraints = match table.constrs {
                Some(constrs) => dependency_constraints(constrs),
                None => Ok(Seq::empty()),
            };
            match constraints {
                Err(e) => Err(e),
                Ok(cs) => match dependency_python(table.python) {
                    Err(e) => Err(e),
                    Ok(python_version) => Ok(
                        ReqView {
                            name,
                            constraints: cs,
                            extra: None,
                            sys_platform: None,
                            python_version,
                            install_with_extras: table.extras,
                            path: table.path,
                            git: table.git,
                        },
                    ),
                },
            }
        },
    }
}

/// The requirements that a table of dependencies declares, one for each
/// entry and in the order of the table; or what is wrong with the first
/// entry that cannot be read.
pub open spec fn reqs_of_deps(deps: DepsView) -> Result<Seq<ReqView>, DescriptorError>
    decreases deps.len(),
{
    if deps.len() == 0 {
        Ok(Seq::empty())
    } else {
        match reqs_of_deps(deps.drop_last()) {
            Err(e) => Err(e),
            Ok(before) => match req_of_entry(deps.last().0, deps.last().1) {
                Err(e) => Err(e),
                Ok(r) => Ok(before.push(r)),
            },
        }
    }
}

/// Once an entry cannot be read, no longer table can.
pub proof fn lemma_reqs_of_deps_error_stays(deps: DepsView, n: int)
    requires
        0 <= n <= deps.len(),
        reqs_of_deps(deps.take(n)) is Err,
    ensures
        reqs_of_deps(deps) == reqs_of_deps(deps.take(n)),
    decreases deps.len() - n,
{
    if n == deps.len() {
        assert(deps.take(n) == deps);
    } else {
        assert(deps.take(n + 1).drop_last() == deps.take(n));
        lemma_reqs_of_deps_error_stays(deps, n + 1);
    }
}

/// Reads the constraints of a dependency.
fn read_constraints(text: &str) -> (r: Result<Vec<Constraint>, DescriptorError>)
    ensures
        match dependency_constraints(text@) {
            Ok(cs) => r matches Ok(v) && v@ == cs,
            Err(e) => r matches Err(x) && x == e,
        },
{
    Constraint::from_str_multiple(text)
}

/// Reads what a dependency says of the interpreter.
fn read_python(text: Option<String>) -> (r: Result<Option<Vec<Constraint>>, DescriptorError>)
    ensures
        match dependency_python(text.deep_view()) {
            Ok(pv) => r matches Ok(v) && optional_constraints(v) == pv,
            Err(e) => r matches Err(x) && x == e,
        },
{
    match text {
        None => Ok(None),
        Some(t) => match Constraint::from_str(t.as_str()) {
            Ok(c) => {
                let mut v: Vec<Constraint> = Vec::new();
                v.push(c);
                assert(v@ == seq![c]);
                Ok(Some(v))
            },
            Err(_) => Err(DescriptorError::DependencyPython),
        },
    }
}

/// Reads one entry of a table of dependencies.
pub fn read_entry(name: String, data: DepComponentWrapper) -> (r: Result<Req, DescriptorError>)
    ensures
        match req_of_entry(name@, data.deep_view()) {
            Ok(req) => r matches Ok(x) && x@ == req,
            Err(e) => r matches Err(x) && x == e,
        },
{
    match data {
        DepComponentWrapper::A(constrs) => {
            match read_constraints(constrs.as_str()) {
                Ok(constraints) => Ok(Req::new(name, constraints)),
                Err(e) => Err(e),
            }
        },
        DepComponentWrapper::B(table) => {
            let DepComponent { constrs, extras, path, git, python } = table;
            let constraints = match constrs {
                Some(text) => match read_constraints(text.as_str()) {
                    Ok(cs) => cs,
                    Err(e) => {
                        return Err(e);
                    },
                },
                None => Vec::new(),
            };
            let python_version = match read_python(python) {
                Ok(pv) => pv,
                Err(e) => {
                    return Err(e);
                },
            };
            Ok(
                Req {
                    name,
                    constraints,
                    extra: None,
                    sys_platform: None,
                    python_version,
                    install_with_extras: extras,
                    path,
                    git,
                },
            )
        },
    }
}

impl Config {
    /// Reads a table of dependencies into requirements, one for each entry
    /// and in the order of the table. If an entry cannot be read, nothing is
    /// returned but what is wrong with the first such entry.
    pub fn parse_deps(deps: Vec<(String, DepComponentWrapper)>) -> (r: Result<
        Vec<Req>,
        DescriptorError,
    >)
        ensures
            match reqs_of_deps(deps.deep_view()) {
                Ok(reqs) => r matches Ok(v) && v.deep_view() == reqs,
                Err(e) => r matches Err(x) && x == e,
            },
    {
        let ghost all = deps.deep_view();
        let ghost entries = deps@;
        let mut result: Vec<Req> = Vec::new();
        assert(all.take(0) == DepsView::empty());
        assert(result.deep_view() == Seq::<ReqView>::empty());
        for entry in it: deps
            invariant
                all == deps.deep_view(),
                entries == it.seq(),
                all.len() == entries.len(),
                forall|i: int| 0 <= i < entries.len() ==> all[i] == (#[trigger] entries[i]).deep_view(),
                reqs_of_deps(all.take(it.index() as int)) == Ok::<Seq<ReqView>, DescriptorError>(
                    result.deep_view(),
                ),
        {
            let ghost upto = all.take(it.index() + 1);
            proof {
                assert(upto.drop_last() == all.take(it.index() as int));
                assert(upto.last() == all[it.index() as int]);
                assert(all[it.index() as int] == entry.deep_view());
            }
            let (name, data) = entry;
            match read_entry(name, data) {
                Ok(req) => {
                    let ghost before = result.deep_view();
                    result.push(req);
                    assert(result.deep_view() == before.push(req@));
                },
                Err(e) => {
                    proof {
                        lemma_reqs_of_deps_error_stays(all, it.index() + 1);
                    }
                    return Err(e);
                },
            }
        }
        assert(all.take(all.len() as int) == all);
        Ok(result)
    }
}

/// What a field becomes when a section is applied: what the section gives,
/// or, where it gives nothing, what the field held.
pub open spec fn overlay<T>(held: Option<T>, given: Option<T>) -> Option<T> {
    if given is Some {
        given
    } else {
        held
    }
}

/// As `overlay`, for a field that always holds a list.
pub open spec fn overlay_list<T>(held: Seq<T>, given: Option<Seq<T>>) -> Seq<T> {
    match given {
        Some(list) => list,
        None => held,
    }
}

/// The version that a section gives as `text`, where it gives one; `error`
/// where the text is no version.
pub open spec fn declared_version(text: Option<Seq<char>>, error: DescriptorError) -> Result<
    Option<Version>,
    DescriptorError,
> {
    match text {
        None => Ok(None),
        Some(t) => match version_of(t) {
            Some(v) => Ok(Some(v)),
            None => Err(error),
        },
    }
}

/// The requirements of a table that may be absent.
pub open spec fn declared_reqs(deps: Option<DepsView>) -> Result<
    Option<Seq<ReqView>>,
    DescriptorError,
> {
    match deps {
        None => Ok(None),
        Some(d) => match reqs_of_deps(d) {
            Ok(reqs) => Ok(Some(reqs)),
            Err(e) => Err(e),
        },
    }
}

/// Whether `name` is `python`, in whatever case its letters are written.
pub open spec fn is_python_name(name: Seq<char>) -> bool {
    &&& name.len() == 6
    &&& (name[0] == 'p' || name[0] == 'P')
    &&& (name[1] == 'y' || name[1] == 'Y')
    &&& (name[2] == 't' || name[2] == 'T')
    &&& (name[3] == 'h' || name[3] == 'H')
    &&& (name[4] == 'o' || name[4] == 'O')
    &&& (name[5] == 'n' || name[5] == 'N')
}

/// What the dependencies of a Poetry section give: the interpreter version
/// and the requirements.
pub struct PoetryDeps {
    pub py_version: Option<Version>,
    pub reqs: Seq<ReqView>,
}

/// Reads the dependencies of a Poetry section. Every entry is read as in
/// any other table. An entry named `python` is no requirement: the version
/// of its first constraint is the interpreter version of the project, and an
/// entry without constraints leaves that version as it was. Every other
/// entry is a requirement, in the order of the table.
pub open spec fn poetry_deps(deps: DepsView) -> Result<PoetryDeps, DescriptorError>
    decreases deps.len(),
{
    if deps.len() == 0 {
        Ok(PoetryDeps { py_version: None, reqs: Seq::empty() })
    } else {
        match poetry_deps(deps.drop_last()) {
            Err(e) => Err(e),
            Ok(before) => match req_of_entry(deps.last().0, deps.last().1) {
                Err(e) => Err(e),
                Ok(r) => if is_python_name(deps.last().0) {
                    if r.constraints.len() > 0 {
                        Ok(
                            PoetryDeps {
                                py_version: Some(r.constraints[0].version),
                                reqs: before.reqs,
                            },
                        )
                    } else {
                        Ok(before)
                    }
                } else {
                    Ok(PoetryDeps { py_version: before.py_version, reqs: before.reqs.push(r) })
                },
            },
        }
    }
}

/// Once an entry cannot be read, no longer table can.
pub proof fn lemma_poetry_deps_error_stays(deps: DepsView, n: int)
    requires
        0 <= n <= deps.len(),
        poetry_deps(deps.take(n)) is Err,
    ensures
        poetry_deps(deps) == poetry_deps(deps.take(n)),
    decreases deps.len() - n,
{
    if n == deps.len() {
        assert(deps.take(n) == deps);
    } else {
        assert(deps.take(n + 1).drop_last() == deps.take(n));
        lemma_poetry_deps_error_stays(deps, n + 1);
    }
}

/// What is read from the texts and tables of a Poetry section.
pub struct PoetryReadings {
    pub version: Option<Version>,
    pub found: PoetryDeps,
}

/// Reads the version of the project and then the dependencies of a Poetry
/// section. The first that cannot be read says what is wrong.
pub open spec fn poetry_readings(version: Option<Seq<char>>, dependencies: Option<DepsView>) -> Result<
    PoetryReadings,
    DescriptorError,
> {
    match declared_version(version, DescriptorError::ProjectVersion) {
        Err(e) => Err(e),
        Ok(version) => {
            let found = match dependencies {
                Some(deps) => poetry_deps(deps),
                None => Ok(PoetryDeps { py_version: None, reqs: Seq::empty() }),
            };
            match found {
                Err(e) => Err(e),
                Ok(found) => Ok(PoetryReadings { version, found }),
            }
        },
    }
}

/// `c` with every field replaced that the Poetry section gives, and with
/// the requirements of the section added.
pub open spec fn with_poetry(c: ConfigView, po: PoetryView, read: PoetryReadings) -> ConfigView {
    ConfigView {
        name: overlay(c.name, po.name),
        py_version: overlay(c.py_version, read.found.py_version),
        reqs: c.reqs + read.found.reqs,
        version: overlay(c.version, read.version),
        authors: overlay_list(c.authors, po.authors),
        license: overlay(c.license, po.license),
        extras: overlay_list(c.extras, po.extras),
        description: overlay(c.description, po.description),
        classifiers: overlay_list(c.classifiers, po.classifiers),
        keywords: overlay_list(c.keywords, po.keywords),
        homepage: overlay(c.homepage, po.homepage),
        repository: overlay(c.repository, po.repository),
        readme: overlay(c.readme, po.readme),
        build: overlay(c.build, po.build),
        ..c
    }
}

/// The description after the Poetry section `po` is applied to `c`: every
/// field that the section gives replaces what `c` held, the requirements of
/// the section are added to those of `c`, and what the section leaves out
/// stays as it was.
pub open spec fn apply_poetry(c: ConfigView, po: PoetryView) -> Result<
    ConfigView,
    DescriptorError,
> {
    match poetry_readings(po.version, po.dependencies) {
        Err(e) => Err(e),
        Ok(read) => Ok(with_poetry(c, po, read)),
    }
}

/// The authors that a native section gives: its own list, or, where that
/// list is empty, the fallback.
pub open spec fn declared_authors(given: Option<Seq<Seq<char>>>, fallback: Seq<Seq<char>>) -> Option<
    Seq<Seq<char>>,
> {
    match given {
        Some(list) => if list.len() == 0 {
            Some(fallback)
        } else {
            Some(list)
        },
        None => None,
    }
}

/// What is read from the texts and tables of a native section.
pub struct NativeReadings {
    pub version: Option<Version>,
    pub py_version: Option<Version>,
    pub reqs: Option<Seq<ReqView>>,
    pub dev_reqs: Option<Seq<ReqView>>,
}

/// Reads the texts and tables of a native section, in this order: the
/// version of the project, the interpreter version, the dependencies, the
/// development dependencies. The first that cannot be read says what is
/// wrong.
pub open spec fn native_readings(
    version: Option<Seq<char>>,
    py_version: Option<Seq<char>>,
    dependencies: Option<DepsView>,
    dev_dependencies: Option<DepsView>,
) -> Result<NativeReadings, DescriptorError> {
    match declared_version(version, DescriptorError::ProjectVersion) {
        Err(e) => Err(e),
        Ok(version) => match declared_version(py_version, DescriptorError::PythonVersion) {
            Err(e) => Err(e),
            Ok(py_version) => match declared_reqs(dependencies) {
                Err(e) => Err(e),
                Ok(reqs) => match declared_reqs(dev_dependencies) {
                    Err(e) => Err(e),
                    Ok(dev_reqs) => Ok(NativeReadings { version, py_version, reqs, dev_reqs }),
                },
            },
        },
    }
}

/// `c` with every field replaced that the native section gives.
pub open spec fn with_native(
    c: ConfigView,
    pf: PyflowView,
    read: NativeReadings,
    fallback: Seq<Seq<char>>,
) -> ConfigView {
    ConfigView {
        name: overlay(c.name, pf.name),
        py_version: overlay(c.py_version, read.py_version),
        reqs: overlay_list(c.reqs, read.reqs),
        dev_reqs: overlay_list(c.dev_reqs, read.dev_reqs),
        version: overlay(c.version, read.version),
        authors: overlay_list(c.authors, declared_authors(pf.authors, fallback)),
        license: overlay(c.license, pf.license),
        description: overlay(c.description, pf.description),
        classifiers: overlay_list(c.classifiers, pf.classifiers),
        keywords: overlay_list(c.keywords, pf.keywords),
        homepage: overlay(c.homepage, pf.homepage),
        repository: overlay(c.repository, pf.repository),
        package_url: overlay(c.package_url, pf.package_url),
        readme: overlay(c.readme, pf.readme),
        build: overlay(c.build, pf.build),
        scripts: overlay_list(c.scripts, pf.scripts),
        python_requires: overlay(c.python_requires, pf.python_requires),
        ..c
    }
}

/// The description after the native section `pf` is applied to `c`: every
/// field that the section gives replaces what `c` held, its tables of
/// dependencies replace the requirements of `c` as a whole, and what the
/// section leaves out stays as it was.
pub open spec fn apply_pyflow(c: ConfigView, pf: PyflowView, fallback: Seq<Seq<char>>) -> Result<
    ConfigView,
    DescriptorError,
> {
    match native_readings(pf.version, pf.py_version, pf.dependencies, pf.dev_dependencies) {
        Err(e) => Err(e),
        Ok(read) => Ok(with_native(c, pf, read, fallback)),
    }
}

/// The description that a manifest gives: the Poetry section is applied to
/// an empty description, then the native section to the outcome, so that
/// where both give a field the native one stands.
pub open spec fn config_of(m: PyprojectView, fallback: Seq<Seq<char>>) -> Result<
    ConfigView,
    DescriptorError,
> {
    let after_poetry = match m.tool.poetry {
        Some(po) => apply_poetry(ConfigView::empty(), po),
        None => Ok(ConfigView::empty()),
    };
    match after_poetry {
        Err(e) => Err(e),
        Ok(c) => match m.tool.pyflow {
            Some(pf) => apply_pyflow(c, pf, fallback),
            None => Ok(c),
        },
    }
}

/// The description that a `Pipfile` gives: its two tables of dependencies,
/// and nothing else.
pub open spec fn config_of_pipfile(p: PipfileView) -> Result<ConfigView, DescriptorError> {
    match declared_reqs(p.packages) {
        Err(e) => Err(e),
        Ok(reqs) => match declared_reqs(p.dev_packages) {
            Err(e) => Err(e),
            Ok(dev_reqs) => Ok(
                ConfigView {
                    reqs: overlay_list(Seq::empty(), reqs),
                    dev_reqs: overlay_list(Seq::empty(), dev_reqs),
                    ..ConfigView::empty()
                },
            ),
        },
    }
}

/// Whether the native section of a manifest asks for the fallback authors:
/// it gives a list of authors, and the list is empty.
pub open spec fn wants_fallback_authors(m: PyprojectView) -> bool {
    m.tool.pyflow matches Some(pf) && pf.authors matches Some(list) && list.len() == 0
}

/// The version of a field after a section is applied.
fn pick_version(held: Option<Version>, given: Option<Version>) -> (r: Option<Version>)
    ensures
        r == overlay(held, given),
{
    if given.is_some() {
        given
    } else {
        held
    }
}

/// The text of a field after a section is applied.
fn pick_text(held: Option<String>, given: Option<String>) -> (r: Option<String>)
    ensures
        r.deep_view() == overlay(held.deep_view(), given.deep_view()),
{
    if given.is_some() {
        given
    } else {
        held
    }
}

/// The texts of a field after a section is applied.
fn pick_texts(held: Vec<String>, given: Option<Vec<String>>) -> (r: Vec<String>)
    ensures
        r.deep_view() == overlay_list(held.deep_view(), given.deep_view()),
{
    match given {
        Some(list) => list,
        None => held,
    }
}

/// The table of a field after a section is applied.
fn pick_table(held: Vec<(String, String)>, given: Option<Vec<(String, String)>>) -> (r: Vec<
    (String, String),
>)
    ensures
        r.deep_view() == overlay_list(held.deep_view(), given.deep_view()),
{
    match given {
        Some(list) => list,
        None => held,
    }
}

/// The requirements after a section is applied that replaces them.
fn pick_reqs(held: Vec<Req>, given: Option<Vec<Req>>) -> (r: Vec<Req>)
    ensures
        r.deep_view() == overlay_list(held.deep_view(), given.deep_view()),
{
    match given {
        Some(list) => list,
        None => held,
    }
}

/// The authors that a native section gives.
fn pick_authors(given: Option<Vec<String>>, fallback: Vec<String>) -> (r: Option<Vec<String>>)
    ensures
        r.deep_view() == declared_authors(given.deep_view(), fallback.deep_view()),
{
    match given {
        Some(list) => if list.len() == 0 {
            Some(fallback)
        } else {
            Some(list)
        },
        None => None,
    }
}

/// Reads the version that a section gives, where it gives one.
fn read_version(text: Option<String>, error: DescriptorError) -> (r: Result<
    Option<Version>,
    DescriptorError,
>)
    ensures
        r == declared_version(text.deep_view(), error),
{
    match text {
        None => Ok(None),
        Some(t) => match Version::from_str(t.as_str()) {
            Ok(v) => Ok(Some(v)),
            Err(_) => Err(error),
        },
    }
}

/// Reads a table of dependencies that may be absent.
fn read_reqs(deps: Option<Vec<(String, DepComponentWrapper)>>) -> (r: Result<
    Option<Vec<Req>>,
    DescriptorError,
>)
    ensures
        match declared_reqs(deps.deep_view()) {
            Ok(reqs) => r matches Ok(v) && v.deep_view() == reqs,
            Err(e) => r matches Err(x) && x == e,
        },
{
    match deps {
        None => Ok(None),
        Some(d) => match Config::parse_deps(d) {
            Ok(reqs) => Ok(Some(reqs)),
            Err(e) => Err(e),
        },
    }
}

/// Whether `name` is `python`, in whatever case its letters are written.
pub fn is_python(name: &str) -> (b: bool)
    ensures
        b == is_python_name(name@),
{
    let c = chars_of(name);
    c.len() == 6 && (c[0] == 'p' || c[0] == 'P') && (c[1] == 'y' || c[1] == 'Y') && (c[2] == 't'
        || c[2] == 'T') && (c[3] == 'h' || c[3] == 'H') && (c[4] == 'o' || c[4] == 'O') && (c[5]
        == 'n' || c[5] == 'N')
}

/// Reads the dependencies of a Poetry section.
fn read_poetry_deps(deps: Vec<(String, DepComponentWrapper)>) -> (r: Result<
    (Option<Version>, Vec<Req>),
    DescriptorError,
>)
    ensures
        match poetry_deps(deps.deep_view()) {
            Ok(found) => r matches Ok(x) && x.0 == found.py_version && x.1.deep_view()
                == found.reqs,
            Err(e) => r matches Err(x) && x == e,
        },
{
    let ghost all = deps.deep_view();
    let ghost entries = deps@;
    let mut py_version: Option<Version> = None;
    let mut reqs: Vec<Req> = Vec::new();
    assert(all.take(0) == DepsView::empty());
    assert(reqs.deep_view() == Seq::<ReqView>::empty());
    for entry in it: deps
        invariant
            all == deps.deep_view(),
            entries == it.seq(),
            all.len() == entries.len(),
            forall|i: int| 0 <= i < entries.len() ==> all[i] == (#[trigger] entries[i]).deep_view(),
            poetry_deps(all.take(it.index() as int)) == Ok::<PoetryDeps, DescriptorError>(
                PoetryDeps { py_version, reqs: reqs.deep_view() },
            ),
    {
        let ghost upto = all.take(it.index() + 1);
        proof {
            assert(upto.drop_last() == all.take(it.index() as int));
            assert(upto.last() == all[it.index() as int]);
            assert(all[it.index() as int] == entry.deep_view());
        }
        let (name, data) = entry;
        let python = is_python(name.as_str());
        match read_entry(name, data) {
            Ok(req) => {
                if python {
                    if req.constraints.len() > 0 {
                        py_version = Some(req.constraints[0].version);
                    }
                } else {
                    let ghost before = reqs.deep_view();
                    reqs.push(req);
                    assert(reqs.deep_view() == before.push(req@));
                }
            },
            Err(e) => {
                proof {
                    lemma_poetry_deps_error_stays(all, it.index() + 1);
                }
                return Err(e);
            },
        }
    }
    assert(all.take(all.len() as int) == all);
    Ok((py_version, reqs))
}

/// Reads the texts and tables of a Poetry section.
fn read_poetry(
    version: Option<String>,
    dependencies: Option<Vec<(String, DepComponentWrapper)>>,
) -> (r: Result<(Option<Version>, Option<Version>, Vec<Req>), DescriptorError>)
    ensures
        match poetry_readings(version.deep_view(), dependencies.deep_view()) {
            Ok(read) => r matches Ok(x) && x.0 == read.version && x.1 == read.found.py_version
                && x.2.deep_view() == read.found.reqs,
            Err(e) => r matches Err(x) && x == e,
        },
{
    let version = match read_version(version, DescriptorError::ProjectVersion) {
        Ok(v) => v,
        Err(e) => {
            return Err(e);
        },
    };
    match dependencies {
        Some(deps) => match read_poetry_deps(deps) {
            Ok(found) => Ok((version, found.0, found.1)),
            Err(e) => Err(e),
        },
        None => {
            let none: Vec<Req> = Vec::new();
            assert(none.deep_view() == Seq::<ReqView>::empty());
            Ok((version, None, none))
        },
    }
}

/// Applies a Poetry section to a description.
fn merge_poetry(config: Config, po: Poetry) -> (r: Result<Config, DescriptorError>)
    ensures
        match apply_poetry(config@, po.deep_view()) {
            Ok(c) => r matches Ok(x) && x@ == c,
            Err(e) => r matches Err(x) && x == e,
        },
{
    let Poetry {
        name,
        version,
        description,
        license,
        authors,
        readme,
        homepage,
        repository,
        build,
        keywords,
        classifiers,
        extras,
        dependencies,
    } = po;
    let (version, py_version, mut reqs) = match read_poetry(version, dependencies) {
        Ok(read) => read,
        Err(e) => {
            return Err(e);
        },
    };
    let ghost read = poetry_readings(po.version.deep_view(), po.dependencies.deep_view())->Ok_0;
    let ghost target = with_poetry(config@, po.deep_view(), read);
    let Config {
        name: held_name,
        py_version: held_py_version,
        reqs: mut held_reqs,
        dev_reqs,
        version: held_version,
        authors: held_authors,
        license: held_license,
        extras: held_extras,
        description: held_description,
        classifiers: held_classifiers,
        keywords: held_keywords,
        homepage: held_homepage,
        repository: held_repository,
        repo_url,
        package_url,
        readme: held_readme,
        build: held_build,
        scripts,
        python_requires,
    } = config;
    let ghost before = held_reqs.deep_view();
    let ghost found = reqs.deep_view();
    held_reqs.append(&mut reqs);
    assert(held_reqs.deep_view() == before + found);
    let merged = Config {
        name: pick_text(held_name, name),
        py_version: pick_version(held_py_version, py_version),
        reqs: held_reqs,
        dev_reqs,
        version: pick_version(held_version, version),
        authors: pick_texts(held_authors, authors),
        license: pick_text(held_license, license),
        extras: pick_table(held_extras, extras),
        description: pick_text(held_description, description),
        classifiers: pick_texts(held_classifiers, classifiers),
        keywords: pick_texts(held_keywords, keywords),
        homepage: pick_text(held_homepage, homepage),
        repository: pick_text(held_repository, repository),
        repo_url,
        package_url,
        readme: pick_text(held_readme, readme),
        build: pick_text(held_build, build),
        scripts,
        python_requires,
    };
    assert(merged@ == target);
    Ok(merged)
}

/// Reads the texts and tables of a native section.
fn read_native(
    version: Option<String>,
    py_version: Option<String>,
    dependencies: Option<Vec<(String, DepComponentWrapper)>>,
    dev_dependencies: Option<Vec<(String, DepComponentWrapper)>>,
) -> (r: Result<
    (Option<Version>, Option<Version>, Option<Vec<Req>>, Option<Vec<Req>>),
    DescriptorError,
>)
    ensures
        match native_readings(
            version.deep_view(),
            py_version.deep_view(),
            dependencies.deep_view(),
            dev_dependencies.deep_view(),
        ) {
            Ok(read) => r matches Ok(x) && x.0 == read.version && x.1 == read.py_version
                && x.2.deep_view() == read.reqs && x.3.deep_view() == read.dev_reqs,
            Err(e) => r matches Err(x) && x == e,
        },
{
    let version = match read_version(version, DescriptorError::ProjectVersion) {
        Ok(v) => v,
        Err(e) => {
            return Err(e);
        },
    };
    let py_version = match read_version(py_version, DescriptorError::PythonVersion) {
        Ok(v) => v,
        Err(e) => {
            return Err(e);
        },
    };
    let reqs = match read_reqs(dependencies) {
        Ok(v) => v,
        Err(e) => {
            return Err(e);
        },
    };
    let dev_reqs = match read_reqs(dev_dependencies) {
        Ok(v) => v,
        Err(e) => {
            return Err(e);
        },
    };
    Ok((version, py_version, reqs, dev_reqs))
}

/// Applies a native section to a description.
fn merge_pyflow(config: Config, pf: Pyflow, fallback: Vec<String>) -> (r: Result<
    Config,
    DescriptorError,
>)
    ensures
        match apply_pyflow(config@, pf.deep_view(), fallback.deep_view()) {
            Ok(c) => r matches Ok(x) && x@ == c,
            Err(e) => r matches Err(x) && x == e,
        },
{
    let Pyflow {
        py_version,
        name,
        version,
        authors,
        license,
        description,
        classifiers,
        keywords,
        homepage,
        repository,
        package_url,
        readme,
        build,
        scripts,
        python_requires,
        dependencies,
        dev_dependencies,
    } = pf;
    let (version, py_version, reqs, dev_reqs) = match read_native(
        version,
        py_version,
        dependencies,
        dev_dependencies,
    ) {
        Ok(read) => read,
        Err(e) => {
            return Err(e);
        },
    };
    let ghost shown = pf.deep_view();
    let ghost read = native_readings(
        shown.version,
        shown.py_version,
        shown.dependencies,
        shown.dev_dependencies,
    )->Ok_0;
    let ghost target = with_native(config@, shown, read, fallback.deep_view());
    let Config {
        name: held_name,
        py_version: held_py_version,
        reqs: held_reqs,
        dev_reqs: held_dev_reqs,
        version: held_version,
        authors: held_authors,
        license: held_license,
        extras,
        description: held_description,
        classifiers: held_classifiers,
        keywords: held_keywords,
        homepage: held_homepage,
        repository: held_repository,
        repo_url,
        package_url: held_package_url,
        readme: held_readme,
        build: held_build,
        scripts: held_scripts,
        python_requires: held_python_requires,
    } = config;
    let merged = Config {
        name: pick_text(held_name, name),
        py_version: pick_version(held_py_version, py_version),
        reqs: pick_reqs(held_reqs, reqs),
        dev_reqs: pick_reqs(held_dev_reqs, dev_reqs),
        version: pick_version(held_version, version),
        authors: pick_texts(held_authors, pick_authors(authors, fallback)),
        license: pick_text(held_license, license),
        extras,
        description: pick_text(held_description, description),
        classifiers: pick_texts(held_classifiers, classifiers),
        keywords: pick_texts(held_keywords, keywords),
        homepage: pick_text(held_homepage, homepage),
        repository: pick_text(held_repository, repository),
        repo_url,
        package_url: pick_text(held_package_url, package_url),
        readme: pick_text(held_readme, readme),
        build: pick_text(held_build, build),
        scripts: pick_table(held_scripts, scripts),
        python_requires: pick_text(held_python_requires, python_requires),
    };
    assert(merged@ == target);
    Ok(merged)
}

impl Config {
    /// Reads the description of a project from its decoded `Pipfile`, where
    /// there is one: `decoded` is `None` where no such file could be read,
    /// and then there is no description. Only the two tables of dependencies
    /// are taken. Packages are read before development packages, and what is
    /// wrong with the first entry that cannot be read is returned.
    pub fn from_pipfile(decoded: Option<Pipfile>) -> (r: Result<Option<Config>, DescriptorError>)
        ensures
            match decoded {
                None => r matches Ok(None),
                Some(p) => match config_of_pipfile(p.deep_view()) {
                    Ok(c) => r matches Ok(Some(x)) && x@ == c,
                    Err(e) => r matches Err(x) && x == e,
                },
            },
    {
        let pipfile = match decoded {
            Some(p) => p,
            None => {
                return Ok(None);
            },
        };
        let Pipfile { packages, dev_packages } = pipfile;
        let reqs = match read_reqs(packages) {
            Ok(v) => v,
            Err(e) => {
                return Err(e);
            },
        };
        let dev_reqs = match read_reqs(dev_packages) {
            Ok(v) => v,
            Err(e) => {
                return Err(e);
            },
        };
        let mut result = Config::default();
        match reqs {
            Some(list) => {
                result.reqs = list;
            },
            None => {},
        }
        match dev_reqs {
            Some(list) => {
                result.dev_reqs = list;
            },
            None => {},
        }
        Ok(Some(result))
    }

    /// Reads the description of a project from its decoded manifest, where
    /// there is one: `decoded` is `None` where no manifest could be read, and
    /// then there is no description, which is no error.
    ///
    /// The Poetry section is applied first and the native section second, so
    /// that the native section has the last word on every field that it
    /// gives. `fallback` is who the local source control says the user is:
    /// it stands for the authors where the native section gives an empty
    /// list of them. A text that cannot be read ends the reading: the project
    /// version of a section comes first, then (native section) the
    /// interpreter version, then the dependencies in their order.
    pub fn from_file(decoded: Option<Pyproject>, fallback: Vec<String>) -> (r: Result<
        Option<Config>,
        DescriptorError,
    >)
        ensures
            match decoded {
                None => r matches Ok(None),
                Some(m) => match config_of(m.deep_view(), fallback.deep_view()) {
                    Ok(c) => r matches Ok(Some(x)) && x@ == c,
                    Err(e) => r matches Err(x) && x == e,
                },
            },
    {
        let manifest = match decoded {
            Some(m) => m,
            None => {
                return Ok(None);
            },
        };
        let Pyproject { tool } = manifest;
        let Tool { pyflow, poetry } = tool;
        let mut result = Config::default();
        match poetry {
            Some(po) => {
                match merge_poetry(result, po) {
                    Ok(c) => {
                        result = c;
                    },
                    Err(e) => {
                        return Err(e);
                    },
                }
            },
            None => {},
        }
        match pyflow {
            Some(pf) => {
                match merge_pyflow(result, pf, fallback) {
                    Ok(c) => {
                        result = c;
                    },
                    Err(e) => {
                        return Err(e);
                    },
                }
            },
            None => {},
        }
        Ok(Some(result))
    }
}

/// Whether reading `decoded` will use the fallback authors, so that a caller
/// need not look them up otherwise.
pub fn needs_fallback_authors(decoded: &Pyproject) -> (b: bool)
    ensures
        b == wants_fallback_authors(decoded.deep_view()),
{
    match &decoded.tool.pyflow {
        Some(pf) => match &pf.authors {
            Some(list) => list.len() == 0,
            None => false,
        },
        None => false,
    }
}

} // verus!
