//! Requirements that are written one to a line: in a plain list of
//! requirements, and in the metadata of a built wheel.

use vstd::prelude::*;
use crate::config::{Config, ConfigView};
use crate::constraint::{
    chars_from, constraints_of, is_blank, strip_blanks, without_blanks, Constraint,
};
use crate::error::DescriptorError;
use crate::req::{Req, ReqView};
use crate::text::{
    chars_of, lemma_split_on_first_piece, lemma_split_on_nonempty, split_chars, split_on,
    string_of, views_of,
};

verus! {

/// Whether `c` is a letter of the basic alphabet or a decimal digit.
pub open spec fn is_alphanumeric(c: char) -> bool {
    ||| 0x30 <= c as u32 <= 0x39
    ||| 0x41 <= c as u32 <= 0x5a
    ||| 0x61 <= c as u32 <= 0x7a
}

/// Whether `c` may stand in the name of a package.
pub open spec fn is_name_char(c: char) -> bool {
    is_alphanumeric(c) || c == '.' || c == '_' || c == '-'
}

/// Where the run of name characters that starts at `from` ends.
pub open spec fn name_end(t: Seq<char>, from: int) -> int
    decreases t.len() - from,
{
    if 0 <= from < t.len() && is_name_char(t[from]) {
        name_end(t, from + 1)
    } else {
        from
    }
}

/// Where the run of blanks that starts at `from` ends.
pub open spec fn blank_end(t: Seq<char>, from: int) -> int
    decreases t.len() - from,
{
    if 0 <= from < t.len() && is_blank(t[from]) {
        blank_end(t, from + 1)
    } else {
        from
    }
}

/// `s` without its round brackets.
pub open spec fn strip_brackets(s: Seq<char>) -> Seq<char> {
    s.filter(|c: char| c != '(' && c != ')')
}

/// The requirement on the package `name`, with the extras given, that
/// `tail` restricts: `tail` holds no blanks, and it holds the constraints as
/// a manifest writes them, with or without round brackets about them. Where
/// there is nothing but brackets, any version will do.
pub open spec fn req_with_constraints(
    name: Seq<char>,
    extras: Option<Seq<Seq<char>>>,
    tail: Seq<char>,
) -> Option<ReqView> {
    let rest = strip_brackets(tail);
    if rest.len() == 0 {
        Some(ReqView { install_with_extras: extras, ..ReqView::plain(name, Seq::empty()) })
    } else {
        match constraints_of(rest) {
            Some(cs) => Some(ReqView { install_with_extras: extras, ..ReqView::plain(name, cs) }),
            None => None,
        }
    }
}

/// Whether every text of `list` holds a character.
pub open spec fn none_empty(list: Seq<Seq<char>>) -> bool {
    forall|i: int| 0 <= i < list.len() ==> (#[trigger] list[i]).len() > 0
}

/// The requirement that a line declares. What follows the first semicolon
/// says where the requirement applies and is not read. After blanks, if
/// any, the line starts with the name of the package, which is as many name
/// characters as there are, the first of them a letter or a digit. What
/// follows is read without its blanks. First may come the extras to install
/// with the package: names with commas between them, in square brackets.
/// Then come the constraints.
pub open spec fn req_of_line(line: Seq<char>) -> Option<ReqView> {
    let body = split_on(line, ';')[0];
    let start = blank_end(body, 0);
    let end = name_end(body, start);
    let tail = strip_blanks(body.skip(end));
    if end == start || !is_alphanumeric(body[start]) {
        None
    } else if tail.len() > 0 && tail[0] == '[' {
        let parts = split_on(tail, ']');
        let extras = split_on(parts[0].skip(1), ',');
        if parts.len() < 2 || !none_empty(extras) {
            None
        } else {
            req_with_constraints(
                body.subrange(start, end),
                Some(extras),
                tail.skip(parts[0].len() as int + 1),
            )
        }
    } else {
        req_with_constraints(body.subrange(start, end), None, tail)
    }
}

/// Whether a line of a list of requirements declares nothing: it is blank,
/// or a comment.
pub open spec fn is_idle_line(line: Seq<char>) -> bool {
    let t = strip_blanks(line);
    t.len() == 0 || t[0] == '#'
}

/// The requirements that the lines declare, in order: a line that declares
/// nothing is passed over, and every other line must declare a requirement.
pub open spec fn reqs_of_lines(lines: Seq<Seq<char>>) -> Option<Seq<ReqView>>
    decreases lines.len(),
{
    if lines.len() == 0 {
        Some(Seq::empty())
    } else {
        match reqs_of_lines(lines.drop_last()) {
            None => None,
            Some(before) => if is_idle_line(lines.last()) {
                Some(before)
            } else {
                match req_of_line(lines.last()) {
                    Some(r) => Some(before.push(r)),
                    None => None,
                }
            },
        }
    }
}

/// The requirements that a plain list of requirements declares.
pub open spec fn reqs_of_list(text: Seq<char>) -> Option<Seq<ReqView>> {
    reqs_of_lines(split_on(text, '\n'))
}

/// The words that start a line of metadata which names a requirement.
pub open spec fn requires_dist_key() -> Seq<char> {
    seq!['R', 'e', 'q', 'u', 'i', 'r', 'e', 's', '-', 'D', 'i', 's', 't', ':']
}

/// Whether a line of metadata names a requirement.
pub open spec fn is_requires_dist_line(line: Seq<char>) -> bool {
    line.len() >= 14 && line.take(14) == requires_dist_key()
}

/// The requirements that the lines of metadata name, in order. Lines that
/// name none are passed over.
pub open spec fn requires_dist_of_lines(lines: Seq<Seq<char>>) -> Option<Seq<ReqView>>
    decreases lines.len(),
{
    if lines.len() == 0 {
        Some(Seq::empty())
    } else {
        match requires_dist_of_lines(lines.drop_last()) {
            None => None,
            Some(before) => if is_requires_dist_line(lines.last()) {
                match req_of_line(lines.last().skip(14)) {
                    Some(r) => Some(before.push(r)),
                    None => None,
                }
            } else {
                Some(before)
            },
        }
    }
}

/// The requirements that the metadata of a built wheel names.
pub open spec fn requires_dist_of(text: Seq<char>) -> Option<Seq<ReqView>> {
    requires_dist_of_lines(split_on(text, '\n'))
}

/// Once a line cannot be read, no longer list can.
pub proof fn lemma_reqs_of_lines_none_stays(lines: Seq<Seq<char>>, n: int)
    requires
        0 <= n <= lines.len(),
        reqs_of_lines(lines.take(n)) is None,
    ensures
        reqs_of_lines(lines) is None,
    decreases lines.len() - n,
{
    if n == lines.len() {
        assert(lines.take(n) == lines);
    } else {
        assert(lines.take(n + 1).drop_last() == lines.take(n));
        lemma_reqs_of_lines_none_stays(lines, n + 1);
    }
}

/// Once a line cannot be read, no longer metadata can.
pub proof fn lemma_requires_dist_none_stays(lines: Seq<Seq<char>>, n: int)
    requires
        0 <= n <= lines.len(),
        requires_dist_of_lines(lines.take(n)) is None,
    ensures
        requires_dist_of_lines(lines) is None,
    decreases lines.len() - n,
{
    if n == lines.len() {
        assert(lines.take(n) == lines);
    } else {
        assert(lines.take(n + 1).drop_last() == lines.take(n));
        lemma_requires_dist_none_stays(lines, n + 1);
    }
}

/// Whether `c` is a letter of the basic alphabet or a decimal digit.
fn alphanumeric(c: char) -> (b: bool)
    ensures
        b == is_alphanumeric(c),
{
    let code: u32 = c as u32;
    (0x30 <= code && code <= 0x39) || (0x41 <= code && code <= 0x5a) || (0x61 <= code && code
        <= 0x7a)
}

/// Whether `c` may stand in the name of a package.
fn name_char(c: char) -> (b: bool)
    ensures
        b == is_name_char(c),
{
    alphanumeric(c) || c == '.' || c == '_' || c == '-'
}

/// Passes over the blanks at the start of `t`.
fn skip_blanks(t: &Vec<char>) -> (n: usize)
    ensures
        n == blank_end(t@, 0),
        n <= t.len(),
{
    let mut i: usize = 0;
    while i < t.len() && (t[i] == ' ' || t[i] == '\t' || t[i] == '\r')
        invariant
            i <= t.len(),
            blank_end(t@, 0) == blank_end(t@, i as int),
        decreases t.len() - i,
    {
        i += 1;
    }
    i
}

/// Passes over the name characters of `t` from `from` on.
fn skip_name(t: &Vec<char>, from: usize) -> (n: usize)
    requires
        from <= t.len(),
    ensures
        n == name_end(t@, from as int),
        from <= n <= t.len(),
{
    let mut i: usize = from;
    while i < t.len() && name_char(t[i])
        invariant
            from <= i <= t.len(),
            name_end(t@, from as int) == name_end(t@, i as int),
        decreases t.len() - i,
    {
        i += 1;
    }
    i
}

/// Copies `v` without its round brackets.
fn without_brackets(v: &Vec<char>) -> (r: Vec<char>)
    ensures
        r@ == strip_brackets(v@),
{
    let mut r: Vec<char> = Vec::new();
    let mut i: usize = 0;
    assert(v@.take(0) == Seq::<char>::empty());
    proof {
        Seq::<char>::empty().lemma_filter_len(|c: char| c != '(' && c != ')');
    }
    while i < v.len()
        invariant
            i <= v.len(),
            r@ == strip_brackets(v@.take(i as int)),
        decreases v.len() - i,
    {
        let c = v[i];
        proof {
            assert(v@.take(i + 1) == v@.take(i as int).push(c));
            v@.take(i as int).lemma_filter_push(c, |c: char| c != '(' && c != ')');
        }
        if c != '(' && c != ')' {
            r.push(c);
        }
        i += 1;
    }
    assert(v@.take(v.len() as int) == v@);
    r
}

/// Copies `v` from position `from` up to position `to`.
fn chars_between(v: &Vec<char>, from: usize, to: usize) -> (r: Vec<char>)
    requires
        from <= to <= v.len(),
    ensures
        r@ == v@.subrange(from as int, to as int),
{
    let mut r: Vec<char> = Vec::new();
    let mut i: usize = from;
    while i < to
        invariant
            from <= i <= to <= v.len(),
            r@ == v@.subrange(from as int, i as int),
        decreases to - i,
    {
        r.push(v[i]);
        i += 1;
    }
    r
}

/// Reads the constraints of a requirement whose name and extras are known.
fn finish_req(name: String, extras: Option<Vec<String>>, tail: &Vec<char>) -> (r: Option<Req>)
    ensures
        r.deep_view() == req_with_constraints(name@, extras.deep_view(), tail@),
{
    let rest = without_brackets(tail);
    let constraints = if rest.len() == 0 {
        Vec::new()
    } else {
        match Constraint::from_chars_multiple(&rest) {
            Some(constraints) => constraints,
            None => {
                return None;
            },
        }
    };
    Some(
        Req {
            name,
            constraints,
            extra: None,
            sys_platform: None,
            python_version: None,
            install_with_extras: extras,
            path: None,
            git: None,
        },
    )
}

/// Reads the names of extras, with commas between them.
fn read_extras(inner: &Vec<char>) -> (r: Option<Vec<String>>)
    ensures
        match r {
            Some(names) => none_empty(split_on(inner@, ',')) && names.deep_view() == split_on(
                inner@,
                ',',
            ),
            None => !none_empty(split_on(inner@, ',')),
        },
{
    let pieces = split_chars(inner, ',');
    let ghost all = views_of(pieces@);
    let mut names: Vec<String> = Vec::new();
    let mut i: usize = 0;
    assert(names.deep_view() == all.take(0));
    while i < pieces.len()
        invariant
            i <= pieces.len(),
            all == views_of(pieces@),
            all == split_on(inner@, ','),
            names.deep_view() == all.take(i as int),
            none_empty(all.take(i as int)),
        decreases pieces.len() - i,
    {
        assert(all[i as int] == pieces@[i as int]@);
        if pieces[i].len() == 0 {
            return None;
        }
        let ghost before = names.deep_view();
        let name = string_of(&pieces[i]);
        names.push(name);
        assert(names.deep_view() == before.push(name@));
        assert(all.take(i + 1) == all.take(i as int).push(all[i as int]));
        i += 1;
    }
    assert(all.take(all.len() as int) == all);
    Some(names)
}

impl Req {
    /// Reads a requirement from the characters of a line.
    pub fn from_line(line: &Vec<char>) -> (r: Option<Req>)
        ensures
            r.deep_view() == req_of_line(line@),
    {
        let parts = split_chars(line, ';');
        proof {
            lemma_split_on_nonempty(line@, ';');
            assert(views_of(parts@).len() == parts@.len());
            assert(views_of(parts@)[0] == parts@[0]@);
        }
        let body = &parts[0];
        let start = skip_blanks(body);
        let end = skip_name(body, start);
        if end == start || !alphanumeric(body[start]) {
            return None;
        }
        let name = string_of(&chars_between(body, start, end));
        let tail = without_blanks(&chars_from(body, end));
        if tail.len() > 0 && tail[0] == '[' {
            let pieces = split_chars(&tail, ']');
            proof {
                lemma_split_on_nonempty(tail@, ']');
                lemma_split_on_first_piece(tail@, ']');
                assert(views_of(pieces@).len() == pieces@.len());
                assert(views_of(pieces@)[0] == pieces@[0]@);
            }
            let inner = chars_from(&pieces[0], 1);
            let extras = read_extras(&inner);
            if pieces.len() < 2 {
                return None;
            }
            match extras {
                Some(names) => {
                    let after = chars_from(&tail, pieces[0].len() + 1);
                    finish_req(name, Some(names), &after)
                },
                None => None,
            }
        } else {
            finish_req(name, None, &tail)
        }
    }

    /// Reads a requirement as a list of requirements or the metadata of a
    /// wheel writes it, such as `requests (>=2.0, <3.0)`.
    pub fn from_str(s: &str) -> (r: Result<Req, DescriptorError>)
        ensures
            match req_of_line(s@) {
                Some(req) => r matches Ok(x) && x@ == req,
                None => r matches Err(e) && e == DescriptorError::Requirement,
            },
    {
        let chars = chars_of(s);
        match Req::from_line(&chars) {
            Some(req) => Ok(req),
            None => Err(DescriptorError::Requirement),
        }
    }
}

/// Whether a line of a list of requirements declares nothing.
fn idle_line(line: &Vec<char>) -> (b: bool)
    ensures
        b == is_idle_line(line@),
{
    let t = without_blanks(line);
    t.len() == 0 || t[0] == '#'
}

/// Whether a line of metadata names a requirement.
fn requires_dist_line(line: &Vec<char>) -> (b: bool)
    ensures
        b == is_requires_dist_line(line@),
{
    if line.len() < 14 {
        return false;
    }
    let b = line[0] == 'R' && line[1] == 'e' && line[2] == 'q' && line[3] == 'u' && line[4] == 'i'
        && line[5] == 'r' && line[6] == 'e' && line[7] == 's' && line[8] == '-' && line[9] == 'D'
        && line[10] == 'i' && line[11] == 's' && line[12] == 't' && line[13] == ':';
    proof {
        let head = line@.take(14);
        let key = requires_dist_key();
        if b {
            assert(head =~= key);
        } else {
            assert(exists|i: int| 0 <= i < 14 && head[i] != key[i]);
        }
    }
    b
}

/// Reads a plain list of requirements: one requirement to a line, in the
/// order of the lines. Blank lines and lines that start with `#` are passed
/// over. The list is refused as a whole if any other line declares no
/// requirement.
pub fn parse_requirements(text: &str) -> (r: Result<Vec<Req>, DescriptorError>)
    ensures
        match reqs_of_list(text@) {
            Some(reqs) => r matches Ok(v) && v.deep_view() == reqs,
            None => r matches Err(e) && e == DescriptorError::Requirement,
        },
{
    let chars = chars_of(text);
    let lines = split_chars(&chars, '\n');
    let ghost all = views_of(lines@);
    let mut found: Vec<Req> = Vec::new();
    let mut i: usize = 0;
    assert(all.take(0) == Seq::<Seq<char>>::empty());
    assert(found.deep_view() == Seq::<ReqView>::empty());
    while i < lines.len()
        invariant
            i <= lines.len(),
            all == views_of(lines@),
            all == split_on(text@, '\n'),
            reqs_of_lines(all.take(i as int)) == Some(found.deep_view()),
        decreases lines.len() - i,
    {
        proof {
            let upto = all.take(i + 1);
            assert(upto.drop_last() == all.take(i as int));
            assert(upto.last() == lines@[i as int]@);
        }
        if !idle_line(&lines[i]) {
            match Req::from_line(&lines[i]) {
                Some(req) => {
                    let ghost before = found.deep_view();
                    found.push(req);
                    assert(found.deep_view() == before.push(req@));
                },
                None => {
                    proof {
                        lemma_reqs_of_lines_none_stays(all, i + 1);
                    }
                    return Err(DescriptorError::Requirement);
                },
            }
        }
        i += 1;
    }
    assert(all.take(all.len() as int) == all);
    Ok(found)
}

/// Reads the requirements that the metadata of a built wheel names: one for
/// each line that starts with `Requires-Dist:`, in the order of the lines.
/// The metadata is refused as a whole if such a line declares no
/// requirement.
pub fn parse_metadata(text: &str) -> (r: Result<Vec<Req>, DescriptorError>)
    ensures
        match requires_dist_of(text@) {
            Some(reqs) => r matches Ok(v) && v.deep_view() == reqs,
            None => r matches Err(e) && e == DescriptorError::Requirement,
        },
{
    let chars = chars_of(text);
    let lines = split_chars(&chars, '\n');
    let ghost all = views_of(lines@);
    let mut found: Vec<Req> = Vec::new();
    let mut i: usize = 0;
    assert(all.take(0) == Seq::<Seq<char>>::empty());
    assert(found.deep_view() == Seq::<ReqView>::empty());
    while i < lines.len()
        invariant
            i <= lines.len(),
            all == views_of(lines@),
            all == split_on(text@, '\n'),
            requires_dist_of_lines(all.take(i as int)) == Some(found.deep_view()),
        decreases lines.len() - i,
    {
        proof {
            let upto = all.take(i + 1);
            assert(upto.drop_last() == all.take(i as int));
            assert(upto.last() == lines@[i as int]@);
        }
        if requires_dist_line(&lines[i]) {
            let declared = chars_from(&lines[i], 14);
            match Req::from_line(&declared) {
                Some(req) => {
                    let ghost before = found.deep_view();
                    found.push(req);
                    assert(found.deep_view() == before.push(req@));
                },
                None => {
                    proof {
                        lemma_requires_dist_none_stays(all, i + 1);
                    }
                    return Err(DescriptorError::Requirement);
                },
            }
        }
        i += 1;
    }
    assert(all.take(all.len() as int) == all);
    Ok(found)
}

/// Adds the requirements of a plain list of requirements to those of
/// `cfg`. Nothing is added if the list is refused.
pub fn parse_req_dot_text(cfg: &mut Config, text: &str) -> (r: Result<(), DescriptorError>)
    ensures
        match reqs_of_list(text@) {
            Some(reqs) => r is Ok && final(cfg)@ == (ConfigView {
                reqs: old(cfg)@.reqs + reqs,
                ..old(cfg)@
            }),
            None => r matches Err(e) && e == DescriptorError::Requirement && final(cfg)@ == old(
                cfg,
            )@,
        },
{
    match parse_requirements(text) {
        Ok(mut found) => {
            let ghost held = cfg@.reqs;
            let ghost added = found.deep_view();
            cfg.reqs.append(&mut found);
            assert(cfg@.reqs == held + added);
            Ok(())
        },
        Err(e) => Err(e),
    }
}

} // verus!
