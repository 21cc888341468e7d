//! A manifest as it is decoded from its file, before anything in it is
//! interpreted: texts, lists of texts and tables, each present or absent.
//!
//! A table is a list of entries in the order of the file. The decoder hands
//! over each key once.

use vstd::prelude::*;

verus! {

/// The table form of a dependency: every key may be left out.
#[derive(Clone, Debug, Default, PartialEq, Eq)]
pub struct DepComponent {
    /// The version constraints, as text.
    pub constrs: Option<String>,
    pub extras: Option<Vec<String>>,
    pub path: Option<String>,
    pub git: Option<String>,
    /// One constraint on the interpreter, as text.
    pub python: Option<String>,
}

/// A dependency as a manifest declares it: the constraints alone, as text,
/// or a table.
#[derive(Clone, Debug, PartialEq, Eq)]
pub enum DepComponentWrapper {
    A(String),
    B(DepComponent),
}

/// The section `tool.poetry`.
#[derive(Clone, Debug, Default, PartialEq, Eq)]
pub struct Poetry {
    pub name: Option<String>,
    pub version: Option<String>,
    pub description: Option<String>,
    pub license: Option<String>,
    pub authors: Option<Vec<String>>,
    pub readme: Option<String>,
    pub homepage: Option<String>,
    pub repository: Option<String>,
    pub build: Option<String>,
    pub keywords: Option<Vec<String>>,
    pub classifiers: Option<Vec<String>>,
    pub extras: Option<Vec<(String, String)>>,
    pub dependencies: Option<Vec<(String, DepComponentWrapper)>>,
}

/// The section `tool.pyflow`.
#[derive(Clone, Debug, Default, PartialEq, Eq)]
pub struct Pyflow {
    pub py_version: Option<String>,
    pub name: Option<String>,
    pub version: Option<String>,
    pub authors: Option<Vec<String>>,
    pub license: Option<String>,
    pub description: Option<String>,
    pub classifiers: Option<Vec<String>>,
    pub keywords: Option<Vec<String>>,
    pub homepage: Option<String>,
    pub repository: Option<String>,
    pub package_url: Option<String>,
    pub readme: Option<String>,
    pub build: Option<String>,
    pub scripts: Option<Vec<(String, String)>>,
    pub python_requires: Option<String>,
    pub dependencies: Option<Vec<(String, DepComponentWrapper)>>,
    pub dev_dependencies: Option<Vec<(String, DepComponentWrapper)>>,
}

/// The table `tool` of a manifest.
#[derive(Clone, Debug, Default, PartialEq, Eq)]
pub struct Tool {
    pub pyflow: Option<Pyflow>,
    pub poetry: Option<Poetry>,
}

/// A decoded `pyproject.toml`.
#[derive(Clone, Debug, Default, PartialEq, Eq)]
pub struct Pyproject {
    pub tool: Tool,
}

/// A decoded `Pipfile`: two tables of dependencies and nothing else.
#[derive(Clone, Debug, Default, PartialEq, Eq)]
pub struct Pipfile {
    pub packages: Option<Vec<(String, DepComponentWrapper)>>,
    pub dev_packages: Option<Vec<(String, DepComponentWrapper)>>,
}

pub struct DepComponentView {
    pub constrs: Option<Seq<char>>,
    pub extras: Option<Seq<Seq<char>>>,
    pub path: Option<Seq<char>>,
    pub git: Option<Seq<char>>,
    pub python: Option<Seq<char>>,
}

pub enum DepComponentWrapperView {
    A(Seq<char>),
    B(DepComponentView),
}

pub struct PoetryView {
    pub name: Option<Seq<char>>,
    pub version: Option<Seq<char>>,
    pub description: Option<Seq<char>>,
    pub license: Option<Seq<char>>,
    pub authors: Option<Seq<Seq<char>>>,
    pub readme: Option<Seq<char>>,
    pub homepage: Option<Seq<char>>,
    pub repository: Option<Seq<char>>,
    pub build: Option<Seq<char>>,
    pub keywords: Option<Seq<Seq<char>>>,
    pub classifiers: Option<Seq<Seq<char>>>,
    pub extras: Option<Seq<(Seq<char>, Seq<char>)>>,
    pub dependencies: Option<Seq<(Seq<char>, DepComponentWrapperView)>>,
}

pub struct PyflowView {
    pub py_version: Option<Seq<char>>,
    pub name: Option<Seq<char>>,
    pub version: Option<Seq<char>>,
    pub authors: Option<Seq<Seq<char>>>,
    pub license: Option<Seq<char>>,
    pub description: Option<Seq<char>>,
    pub classifiers: Option<Seq<Seq<char>>>,
    pub keywords: Option<Seq<Seq<char>>>,
    pub homepage: Option<Seq<char>>,
    pub repository: Option<Seq<char>>,
    pub package_url: Option<Seq<char>>,
    pub readme: Option<Seq<char>>,
    pub build: Option<Seq<char>>,
    pub scripts: Option<Seq<(Seq<char>, Seq<char>)>>,
    pub python_requires: Option<Seq<char>>,
    pub dependencies: Option<Seq<(Seq<char>, DepComponentWrapperView)>>,
    pub dev_dependencies: Option<Seq<(Seq<char>, DepComponentWrapperView)>>,
}

pub struct ToolView {
    pub pyflow: Option<PyflowView>,
    pub poetry: Option<PoetryView>,
}

pub struct PyprojectView {
    pub tool: ToolView,
}

pub struct PipfileView {
    pub packages: Option<Seq<(Seq<char>, DepComponentWrapperView)>>,
    pub dev_packages: Option<Seq<(Seq<char>, DepComponentWrapperView)>>,
}

impl DeepView for DepComponent {
    type V = DepComponentView;

    open spec fn deep_view(&self) -> DepComponentView {
        DepComponentView {
            constrs: self.constrs.deep_view(),
            extras: self.extras.deep_view(),
            path: self.path.deep_view(),
            git: self.git.deep_view(),
            python: self.python.deep_view(),
        }
    }
}

impl DeepView for DepComponentWrapper {
    type V = DepComponentWrapperView;

    open spec fn deep_view(&self) -> DepComponentWrapperView {
        match self {
            DepComponentWrapper::A(constrs) => DepComponentWrapperView::A(constrs@),
            DepComponentWrapper::B(table) => DepComponentWrapperView::B(table.deep_view()),
        }
    }
}

impl DeepView for Poetry {
    type V = PoetryView;

    open spec fn deep_view(&self) -> PoetryView {
        PoetryView {
            name: self.name.deep_view(),
            version: self.version.deep_view(),
            description: self.description.deep_view(),
            license: self.license.deep_view(),
            authors: self.authors.deep_view(),
            readme: self.readme.deep_view(),
            homepage: self.homepage.deep_view(),
            repository: self.repository.deep_view(),
            build: self.build.deep_view(),
            keywords: self.keywords.deep_view(),
            classifiers: self.classifiers.deep_view(),
            extras: self.extras.deep_view(),
            dependencies: self.dependencies.deep_view(),
        }
    }
}

impl DeepView for Pyflow {
    type V = PyflowView;

    open spec fn deep_view(&self) -> PyflowView {
        PyflowView {
            py_version: self.py_version.deep_view(),
            name: self.name.deep_view(),
            version: self.version.deep_view(),
            authors: self.authors.deep_view(),
            license: self.license.deep_view(),
            description: self.description.deep_view(),
            classifiers: self.classifiers.deep_view(),
            keywords: self.keywords.deep_view(),
            homepage: self.homepage.deep_view(),
            repository: self.repository.deep_view(),
            package_url: self.package_url.deep_view(),
            readme: self.readme.deep_view(),
            build: self.build.deep_view(),
            scripts: self.scripts.deep_view(),
            python_requires: self.python_requires.deep_view(),
            dependencies: self.dependencies.deep_view(),
            dev_dependencies: self.dev_dependencies.deep_view(),
        }
    }
}

impl DeepView for Tool {
    type V = ToolView;

    open spec fn deep_view(&self) -> ToolView {
        ToolView { pyflow: self.pyflow.deep_view(), poetry: self.poetry.deep_view() }
    }
}

impl DeepView for Pyproject {
    type V = PyprojectView;

    open spec fn deep_view(&self) -> PyprojectView {
        PyprojectView { tool: self.tool.deep_view() }
    }
}

impl DeepView for Pipfile {
    type V = PipfileView;

    open spec fn deep_view(&self) -> PipfileView {
        PipfileView {
            packages: self.packages.deep_view(),
            dev_packages: self.dev_packages.deep_view(),
        }
    }
}

} // verus!
