//! From the description of a project to the text of a new manifest, in the
//! native dialect.

use vstd::prelude::*;
use crate::config::{Config, ConfigView};
use crate::error::DescriptorError;
use crate::req::{Req, ReqView};
use crate::text::{join_with, push_str, string_of};
use crate::version::Version;

verus! {

/// The line that gives the authors: none where there is no author, else all
/// of them between one pair of double quotes.
pub open spec fn authors_text(authors: Seq<Seq<char>>) -> Seq<char> {
    if authors.len() == 0 {
        Seq::empty()
    } else {
        "authors = [\""@ + join_with(authors, seq![',', ' ']) + "\"]\n"@
    }
}

/// The line that gives a text under `key`: none where there is no text.
pub open spec fn optional_line(key: Seq<char>, value: Option<Seq<char>>) -> Seq<char> {
    match value {
        Some(v) => key + " = \""@ + v + "\"\n"@,
        None => Seq::empty(),
    }
}

/// One line for each script, in order: the name, then what it runs between
/// double quotes.
pub open spec fn scripts_text(scripts: Seq<(Seq<char>, Seq<char>)>) -> Seq<char>
    decreases scripts.len(),
{
    if scripts.len() == 0 {
        Seq::empty()
    } else {
        scripts_text(scripts.drop_last()) + scripts.last().0 + " = \""@ + scripts.last().1
            + "\"\n"@
    }
}

/// One line for each requirement, in order.
pub open spec fn reqs_text(reqs: Seq<ReqView>) -> Seq<char>
    decreases reqs.len(),
{
    if reqs.len() == 0 {
        Seq::empty()
    } else {
        reqs_text(reqs.drop_last()) + reqs.last().cfg_text() + "\n"@
    }
}

/// The line that gives the name: an empty name where there is none.
pub open spec fn name_line(name: Option<Seq<char>>) -> Seq<char> {
    "name = \""@ + (match name {
        Some(n) => n,
        None => Seq::empty(),
    }) + "\"\n"@
}

/// The line that gives the interpreter version, without its patch
/// component: `3.8` where there is none.
pub open spec fn py_version_line(version: Option<Version>) -> Seq<char> {
    "py_version = \""@ + (match version {
        Some(v) => v.text_no_patch(),
        None => "3.8"@,
    }) + "\"\n"@
}

/// The line that gives the version of the project: `0.1.0` where there is
/// none.
pub open spec fn version_line(version: Option<Version>) -> Seq<char> {
    "version = \""@ + (match version {
        Some(v) => v.text(),
        None => "0.1.0"@,
    }) + "\"\n"@
}

/// The text of a new manifest for `c`. The section of the project comes
/// first: the name, the interpreter version and the version, then the
/// authors, the description and the homepage as far as they are there. The
/// scripts, the requirements and the development requirements follow, each
/// in a section of its own that is there even when it is empty. Nothing else
/// of `c` is written.
pub open spec fn manifest_text(c: ConfigView) -> Seq<char> {
    "\n[tool.pyflow]\n"@ + name_line(c.name) + py_version_line(c.py_version) + version_line(
        c.version,
    ) + authors_text(c.authors) + optional_line("description"@, c.description) + optional_line(
        "homepage"@,
        c.homepage,
    ) + "\n[tool.pyflow.scripts]\n"@ + scripts_text(c.scripts)
        + "\n[tool.pyflow.dependencies]\n"@ + reqs_text(c.reqs)
        + "\n[tool.pyflow.dev-dependencies]\n"@ + reqs_text(c.dev_reqs) + "\n"@
}

/// Appends the line that gives the name.
fn write_name_line(name: &Option<String>, out: &mut Vec<char>)
    ensures
        final(out)@ == old(out)@ + name_line(name.deep_view()),
{
    push_str(out, "name = \"");
    match name {
        Some(n) => {
            push_str(out, n.as_str());
        },
        None => {},
    }
    push_str(out, "\"\n");
}

/// Appends the line that gives the interpreter version.
fn write_py_version_line(version: &Option<Version>, out: &mut Vec<char>)
    ensures
        final(out)@ == old(out)@ + py_version_line(*version),
{
    push_str(out, "py_version = \"");
    match version {
        Some(v) => {
            v.write_no_patch_to(out);
        },
        None => {
            push_str(out, "3.8");
        },
    }
    push_str(out, "\"\n");
}

/// Appends the line that gives the version of the project.
fn write_version_line(version: &Option<Version>, out: &mut Vec<char>)
    ensures
        final(out)@ == old(out)@ + version_line(*version),
{
    push_str(out, "version = \"");
    match version {
        Some(v) => {
            v.write_to(out);
        },
        None => {
            push_str(out, "0.1.0");
        },
    }
    push_str(out, "\"\n");
}

/// Appends the line that gives the authors, where there is one.
fn write_authors(authors: &Vec<String>, out: &mut Vec<char>)
    ensures
        final(out)@ == old(out)@ + authors_text(authors.deep_view()),
{
    if authors.len() == 0 {
        return ;
    }
    push_str(out, "authors = [\"");
    let ghost start = out@;
    let ghost all = authors.deep_view();
    let mut i: usize = 0;
    while i < authors.len()
        invariant
            i <= authors.len(),
            all == authors.deep_view(),
            out@ == start + join_with(all.take(i as int), seq![',', ' ']),
        decreases authors.len() - i,
    {
        if i > 0 {
            out.push(',');
            out.push(' ');
        }
        push_str(out, authors[i].as_str());
        proof {
            let upto = all.take(i + 1);
            assert(upto.drop_last() == all.take(i as int));
            assert(upto.last() == authors@[i as int]@);
            if i == 0 {
                assert(upto[0] == authors@[0]@);
            }
        }
        i += 1;
    }
    assert(all.take(all.len() as int) == all);
    push_str(out, "\"]\n");
}

/// Appends the line that gives a text under `key`, where there is one.
fn write_optional_line(key: &str, value: &Option<String>, out: &mut Vec<char>)
    ensures
        final(out)@ == old(out)@ + optional_line(key@, value.deep_view()),
{
    match value {
        Some(v) => {
            push_str(out, key);
            push_str(out, " = \"");
            push_str(out, v.as_str());
            push_str(out, "\"\n");
        },
        None => {},
    }
}

/// Appends one line for each script.
fn write_scripts(scripts: &Vec<(String, String)>, out: &mut Vec<char>)
    ensures
        final(out)@ == old(out)@ + scripts_text(scripts.deep_view()),
{
    let ghost all = scripts.deep_view();
    let mut i: usize = 0;
    assert(all.take(0) == Seq::<(Seq<char>, Seq<char>)>::empty());
    while i < scripts.len()
        invariant
            i <= scripts.len(),
            all == scripts.deep_view(),
            out@ == old(out)@ + scripts_text(all.take(i as int)),
        decreases scripts.len() - i,
    {
        push_str(out, scripts[i].0.as_str());
        push_str(out, " = \"");
        push_str(out, scripts[i].1.as_str());
        push_str(out, "\"\n");
        proof {
            let upto = all.take(i + 1);
            assert(upto.drop_last() == all.take(i as int));
            assert(upto.last() == scripts@[i as int].deep_view());
        }
        i += 1;
    }
    assert(all.take(all.len() as int) == all);
}

/// Appends one line for each requirement.
fn write_reqs(reqs: &Vec<Req>, out: &mut Vec<char>)
    ensures
        final(out)@ == old(out)@ + reqs_text(reqs.deep_view()),
{
    let ghost all = reqs.deep_view();
    let mut i: usize = 0;
    assert(all.take(0) == Seq::<ReqView>::empty());
    while i < reqs.len()
        invariant
            i <= reqs.len(),
            all == reqs.deep_view(),
            out@ == old(out)@ + reqs_text(all.take(i as int)),
        decreases reqs.len() - i,
    {
        reqs[i].write_to(out);
        push_str(out, "\n");
        proof {
            let upto = all.take(i + 1);
            assert(upto.drop_last() == all.take(i as int));
            assert(upto.last() == reqs@[i as int]@);
        }
        i += 1;
    }
    assert(all.take(all.len() as int) == all);
}

impl Config {
    /// The text of a new manifest for this project.
    pub fn render(&self) -> (s: String)
        ensures
            s@ == manifest_text(self@),
    {
        let mut out: Vec<char> = Vec::new();
        push_str(&mut out, "\n[tool.pyflow]\n");
        assert(out@ == "\n[tool.pyflow]\n"@);
        write_name_line(&self.name, &mut out);
        write_py_version_line(&self.py_version, &mut out);
        write_version_line(&self.version, &mut out);
        write_authors(&self.authors, &mut out);
        write_optional_line("description", &self.description, &mut out);
        write_optional_line("homepage", &self.homepage, &mut out);
        push_str(&mut out, "\n[tool.pyflow.scripts]\n");
        write_scripts(&self.scripts, &mut out);
        push_str(&mut out, "\n[tool.pyflow.dependencies]\n");
        write_reqs(&self.reqs, &mut out);
        push_str(&mut out, "\n[tool.pyflow.dev-dependencies]\n");
        write_reqs(&self.dev_reqs, &mut out);
        push_str(&mut out, "\n");
        string_of(&out)
    }

    /// Decides what is written to the place of a new manifest. A file that
    /// is already there is never replaced: `target_exists` says whether one
    /// is, and then nothing is rendered. Else the text to write is returned.
    pub fn write_file(&self, target_exists: bool) -> (r: Result<String, DescriptorError>)
        ensures
            match r {
                Ok(s) => !target_exists && s@ == manifest_text(self@),
                Err(e) => target_exists && e == DescriptorError::ManifestExists,
            },
    {
        if target_exists {
            return Err(DescriptorError::ManifestExists);
        }
        Ok(self.render())
    }
}

} // verus!
