//! Requirements: one dependency of a project, with what restricts it and
//! where it comes from.

use vstd::prelude::*;
use crate::constraint::{list_text, write_list, Constraint};
use crate::text::{push_str, string_of};

verus! {

/// One dependency of a project. Without `path` and `git` it is found in the
/// package registry; `path` names a local directory, `git` a repository.
/// Where a manifest gives both, both are kept as given: nothing here chooses
/// between them. The same name may occur in more than one requirement of a
/// list.
#[derive(Clone, Debug, PartialEq, Eq)]
pub struct Req {
    pub name: String,
    /// All of them must hold. None at all admits any version.
    pub constraints: Vec<Constraint>,
    pub extra: Option<String>,
    pub sys_platform: Option<String>,
    /// Restricts the interpreters for which the dependency is wanted.
    pub python_version: Option<Vec<Constraint>>,
    pub install_with_extras: Option<Vec<String>>,
    pub path: Option<String>,
    pub git: Option<String>,
}

/// What a `Req` holds, as plain values.
pub struct ReqView {
    pub name: Seq<char>,
    pub constraints: Seq<Constraint>,
    pub extra: Option<Seq<char>>,
    pub sys_platform: Option<Seq<char>>,
    pub python_version: Option<Seq<Constraint>>,
    pub install_with_extras: Option<Seq<Seq<char>>>,
    pub path: Option<Seq<char>>,
    pub git: Option<Seq<char>>,
}

/// The contents of an optional list of constraints.
pub open spec fn optional_constraints(o: Option<Vec<Constraint>>) -> Option<Seq<Constraint>> {
    match o {
        Some(v) => Some(v@),
        None => None,
    }
}

impl View for Req {
    type V = ReqView;

    open spec fn view(&self) -> ReqView {
        ReqView {
            name: self.name@,
            constraints: self.constraints@,
            extra: self.extra.deep_view(),
            sys_platform: self.sys_platform.deep_view(),
            python_version: optional_constraints(self.python_version),
            install_with_extras: self.install_with_extras.deep_view(),
            path: self.path.deep_view(),
            git: self.git.deep_view(),
        }
    }
}

impl DeepView for Req {
    type V = ReqView;

    open spec fn deep_view(&self) -> ReqView {
        self@
    }
}

impl ReqView {
    /// A requirement on the registry package `name`, with nothing else set.
    pub open spec fn plain(name: Seq<char>, constraints: Seq<Constraint>) -> ReqView {
        ReqView {
            name,
            constraints,
            extra: None,
            sys_platform: None,
            python_version: None,
            install_with_extras: None,
            path: None,
            git: None,
        }
    }

    /// The line that declares the requirement in a manifest: the name, then
    /// the constraints between double quotes.
    pub open spec fn cfg_text(self) -> Seq<char> {
        self.name + seq![' ', '=', ' ', '"'] + list_text(self.constraints) + seq!['"']
    }
}

impl Req {
    /// A requirement on the registry package `name`.
    pub fn new(name: String, constraints: Vec<Constraint>) -> (r: Req)
        ensures
            r@ == ReqView::plain(name@, constraints@),
    {
        Req {
            name,
            constraints,
            extra: None,
            sys_platform: None,
            python_version: None,
            install_with_extras: None,
            path: None,
            git: None,
        }
    }

    /// Appends the line that declares the requirement to `out`.
    pub fn write_to(&self, out: &mut Vec<char>)
        ensures
            final(out)@ == old(out)@ + self@.cfg_text(),
    {
        push_str(out, self.name.as_str());
        out.push(' ');
        out.push('=');
        out.push(' ');
        out.push('"');
        write_list(&self.constraints, out);
        out.push('"');
    }

    /// The line that declares the requirement in a manifest, such as
    /// `requests = ">=2.0.0, <3.0.0"`.
    pub fn to_cfg_string(&self) -> (s: String)
        ensures
            s@ == self@.cfg_text(),
    {
        let mut out: Vec<char> = Vec::new();
        self.write_to(&mut out);
        string_of(&out)
    }
}

} // verus!
