//! The canonical description of one project.

use vstd::prelude::*;
use crate::req::{Req, ReqView};
use crate::version::Version;

verus! {

/// Everything that is known of one project: who and what it is, and what it
/// depends on. A table (`extras`, `scripts`) is a list of entries in the
/// order in which they were declared.
#[derive(Clone, Debug, PartialEq, Eq)]
pub struct Config {
    pub name: Option<String>,
    pub py_version: Option<Version>,
    pub reqs: Vec<Req>,
    pub dev_reqs: Vec<Req>,
    pub version: Option<Version>,
    pub authors: Vec<String>,
    pub license: Option<String>,
    pub extras: Vec<(String, String)>,
    pub description: Option<String>,
    pub classifiers: Vec<String>,
    pub keywords: Vec<String>,
    pub homepage: Option<String>,
    pub repository: Option<String>,
    pub repo_url: Option<String>,
    pub package_url: Option<String>,
    pub readme: Option<String>,
    /// A script that builds what is not Python in the project.
    pub build: Option<String>,
    /// From the name of a command to the function that it runs.
    pub scripts: Vec<(String, String)>,
    pub python_requires: Option<String>,
}

/// What a `Config` holds, as plain values.
pub struct ConfigView {
    pub name: Option<Seq<char>>,
    pub py_version: Option<Version>,
    pub reqs: Seq<ReqView>,
    pub dev_reqs: Seq<ReqView>,
    pub version: Option<Version>,
    pub authors: Seq<Seq<char>>,
    pub license: Option<Seq<char>>,
    pub extras: Seq<(Seq<char>, Seq<char>)>,
    pub description: Option<Seq<char>>,
    pub classifiers: Seq<Seq<char>>,
    pub keywords: Seq<Seq<char>>,
    pub homepage: Option<Seq<char>>,
    pub repository: Option<Seq<char>>,
    pub repo_url: Option<Seq<char>>,
    pub package_url: Option<Seq<char>>,
    pub readme: Option<Seq<char>>,
    pub build: Option<Seq<char>>,
    pub scripts: Seq<(Seq<char>, Seq<char>)>,
    pub python_requires: Option<Seq<char>>,
}

/// Whether no key occurs twice in a table.
pub open spec fn distinct_keys(table: Seq<(Seq<char>, Seq<char>)>) -> bool {
    forall|i: int, j: int|
        0 <= i < j < table.len() ==> (#[trigger] table[i]).0 != (#[trigger] table[j]).0
}

impl ConfigView {
    /// The description of a project of which nothing is known.
    pub open spec fn empty() -> ConfigView {
        ConfigView {
            name: None,
            py_version: None,
            reqs: Seq::empty(),
            dev_reqs: Seq::empty(),
            version: None,
            authors: Seq::empty(),
            license: None,
            extras: Seq::empty(),
            description: None,
            classifiers: Seq::empty(),
            keywords: Seq::empty(),
            homepage: None,
            repository: None,
            repo_url: None,
            package_url: None,
            readme: None,
            build: None,
            scripts: Seq::empty(),
            python_requires: None,
        }
    }

    /// The tables of a description are maps: each key is there once.
    pub open spec fn well_formed(self) -> bool {
        distinct_keys(self.extras) && distinct_keys(self.scripts)
    }
}

impl View for Config {
    type V = ConfigView;

    open spec fn view(&self) -> ConfigView {
        ConfigView {
            name: self.name.deep_view(),
            py_version: self.py_version,
            reqs: self.reqs.deep_view(),
            dev_reqs: self.dev_reqs.deep_view(),
            version: self.version,
            authors: self.authors.deep_view(),
            license: self.license.deep_view(),
            extras: self.extras.deep_view(),
            description: self.description.deep_view(),
            classifiers: self.classifiers.deep_view(),
            keywords: self.keywords.deep_view(),
            homepage: self.homepage.deep_view(),
            repository: self.repository.deep_view(),
            repo_url: self.repo_url.deep_view(),
            package_url: self.package_url.deep_view(),
            readme: self.readme.deep_view(),
            build: self.build.deep_view(),
            scripts: self.scripts.deep_view(),
            python_requires: self.python_requires.deep_view(),
        }
    }
}

impl DeepView for Config {
    type V = ConfigView;

    open spec fn deep_view(&self) -> ConfigView {
        self@
    }
}

impl Default for Config {
    fn default() -> (c: Config)
        ensures
            c@ == ConfigView::empty(),
    {
        let c = Config {
            name: None,
            py_version: None,
            reqs: Vec::new(),
            dev_reqs: Vec::new(),
            version: None,
            authors: Vec::new(),
            license: None,
            extras: Vec::new(),
            description: None,
            classifiers: Vec::new(),
            keywords: Vec::new(),
            homepage: None,
            repository: None,
            repo_url: None,
            package_url: None,
            readme: None,
            build: None,
            scripts: Vec::new(),
            python_requires: None,
        };
        assert(c@.reqs == Seq::<ReqView>::empty());
        assert(c@.dev_reqs == Seq::<ReqView>::empty());
        assert(c@.authors == Seq::<Seq<char>>::empty());
        assert(c@.classifiers == Seq::<Seq<char>>::empty());
        assert(c@.keywords == Seq::<Seq<char>>::empty());
        assert(c@.extras == Seq::<(Seq<char>, Seq<char>)>::empty());
        assert(c@.scripts == Seq::<(Seq<char>, Seq<char>)>::empty());
        c
    }
}

/// A project that is present on disk: where it and its files are, and what
/// its manifest says.
#[derive(Clone, Debug, PartialEq, Eq)]
pub struct PresentConfig {
    pub project_path: String,
    pub config_path: String,
    pub pypackages_path: String,
    pub lock_path: String,
    pub config: Config,
}

/// What a `PresentConfig` holds, as plain values.
pub struct PresentConfigView {
    pub project_path: Seq<char>,
    pub config_path: Seq<char>,
    pub pypackages_path: Seq<char>,
    pub lock_path: Seq<char>,
    pub config: ConfigView,
}

impl View for PresentConfig {
    type V = PresentConfigView;

    open spec fn view(&self) -> PresentConfigView {
        PresentConfigView {
            project_path: self.project_path@,
            config_path: self.config_path@,
            pypackages_path: self.pypackages_path@,
            lock_path: self.lock_path@,
            config: self.config@,
        }
    }
}

impl Default for PresentConfig {
    fn default() -> (p: PresentConfig)
        ensures
            p@ == (PresentConfigView {
                project_path: Seq::empty(),
                config_path: Seq::empty(),
                pypackages_path: Seq::empty(),
                lock_path: Seq::empty(),
                config: ConfigView::empty(),
            }),
    {
        PresentConfig {
            project_path: String::new(),
            config_path: String::new(),
            pypackages_path: String::new(),
            lock_path: String::new(),
            config: Config::default(),
        }
    }
}

} // verus!
