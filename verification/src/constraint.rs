//! Version constraints: an operator and a version, read from the text of a
//! manifest and written back in one canonical form.

use vstd::prelude::*;
use crate::error::DescriptorError;
use crate::text::{chars_of, join_with, none_holds, split_chars, split_on, string_of, views_of};
use crate::version::{version_of, Version};

verus! {

/// How a constraint relates acceptable versions to its own version.
#[derive(Clone, Copy, Debug, PartialEq, Eq, Structural, Hash)]
pub enum ReqType {
    /// `==`, or no operator at all.
    Exact,
    /// `>=`
    Gte,
    /// `<=`
    Lte,
    /// `!=`
    Ne,
    /// `>`
    Gt,
    /// `<`
    Lt,
    /// `^`: compatible within the leftmost component that is not zero.
    Caret,
    /// `~` or `~=`: compatible within the last component given.
    Tilde,
}

/// One restriction on the versions of a package that are acceptable.
#[derive(Clone, Copy, Debug, PartialEq, Eq, Structural, Hash)]
pub struct Constraint {
    pub type_: ReqType,
    pub version: Version,
}

/// Whether `c` is a space, a tab or a carriage return. Such characters carry
/// no meaning in the text of a constraint, wherever they stand.
pub open spec fn is_blank(c: char) -> bool {
    c == ' ' || c == '\t' || c == '\r'
}

/// `s` without its blanks.
pub open spec fn strip_blanks(s: Seq<char>) -> Seq<char> {
    s.filter(|c: char| !is_blank(c))
}

/// The operator that `p` starts with, and how many characters it takes.
/// Text that starts with none of the operators is an exact constraint.
pub open spec fn operator_of(p: Seq<char>) -> (ReqType, nat) {
    if p.len() >= 2 && p[0] == '=' && p[1] == '=' {
        (ReqType::Exact, 2)
    } else if p.len() >= 2 && p[0] == '>' && p[1] == '=' {
        (ReqType::Gte, 2)
    } else if p.len() >= 2 && p[0] == '<' && p[1] == '=' {
        (ReqType::Lte, 2)
    } else if p.len() >= 2 && p[0] == '!' && p[1] == '=' {
        (ReqType::Ne, 2)
    } else if p.len() >= 2 && p[0] == '~' && p[1] == '=' {
        (ReqType::Tilde, 2)
    } else if p.len() >= 1 && p[0] == '>' {
        (ReqType::Gt, 1)
    } else if p.len() >= 1 && p[0] == '<' {
        (ReqType::Lt, 1)
    } else if p.len() >= 1 && p[0] == '^' {
        (ReqType::Caret, 1)
    } else if p.len() >= 1 && p[0] == '~' {
        (ReqType::Tilde, 1)
    } else {
        (ReqType::Exact, 0)
    }
}

/// The constraint that `p` writes, where `p` holds no blanks: an operator,
/// which may be left out, and then a version.
pub open spec fn constraint_of_piece(p: Seq<char>) -> Option<Constraint> {
    let (type_, taken) = operator_of(p);
    match version_of(p.skip(taken as int)) {
        Some(version) => Some(Constraint { type_, version }),
        None => None,
    }
}

/// The constraint that `s` writes, blanks aside.
pub open spec fn constraint_of(s: Seq<char>) -> Option<Constraint> {
    constraint_of_piece(strip_blanks(s))
}

/// The constraints that the pieces write, in order, if every piece writes
/// one.
pub open spec fn constraints_of_pieces(pieces: Seq<Seq<char>>) -> Option<Seq<Constraint>> {
    if forall|i: int| 0 <= i < pieces.len() ==> (#[trigger] constraint_of_piece(pieces[i])) is Some {
        Some(Seq::new(pieces.len(), |i: int| constraint_of_piece(pieces[i])->0))
    } else {
        None
    }
}

/// The constraints that `s` writes, blanks aside: either `*`, which stands
/// for no constraint at all, or constraints with a comma between them.
pub open spec fn constraints_of(s: Seq<char>) -> Option<Seq<Constraint>> {
    let stripped = strip_blanks(s);
    if stripped == seq!['*'] {
        Some(Seq::empty())
    } else {
        constraints_of_pieces(split_on(stripped, ','))
    }
}

/// What reading the text `s` as a list of constraints may return: the
/// constraints that `s` writes, or the refusal if it writes none.
pub open spec fn constraints_read(s: Seq<char>, r: Result<Vec<Constraint>, DescriptorError>) -> bool {
    match constraints_of(s) {
        Some(cs) => r matches Ok(v) && v@ == cs,
        None => r matches Err(e) && e == DescriptorError::Constraints,
    }
}

/// Copies `v` without its blanks.
pub fn without_blanks(v: &Vec<char>) -> (r: Vec<char>)
    ensures
        r@ == strip_blanks(v@),
{
    let mut r: Vec<char> = Vec::new();
    let mut i: usize = 0;
    assert(v@.take(0) == Seq::<char>::empty());
    proof {
        Seq::<char>::empty().lemma_filter_len(|c: char| !is_blank(c));
    }
    while i < v.len()
        invariant
            i <= v.len(),
            r@ == strip_blanks(v@.take(i as int)),
        decreases v.len() - i,
    {
        let c = v[i];
        proof {
            assert(v@.take(i + 1) == v@.take(i as int).push(c));
            v@.take(i as int).lemma_filter_push(c, |c: char| !is_blank(c));
        }
        if c != ' ' && c != '\t' && c != '\r' {
            r.push(c);
        }
        i += 1;
    }
    assert(v@.take(v.len() as int) == v@);
    r
}

/// Copies `v` from position `from` on.
pub fn chars_from(v: &Vec<char>, from: usize) -> (r: Vec<char>)
    requires
        from <= v.len(),
    ensures
        r@ == v@.skip(from as int),
{
    let mut r: Vec<char> = Vec::new();
    let mut i: usize = from;
    while i < v.len()
        invariant
            from <= i <= v.len(),
            r@ == v@.subrange(from as int, i as int),
        decreases v.len() - i,
    {
        r.push(v[i]);
        i += 1;
    }
    r
}

impl ReqType {
    /// The operator as it is written. An exact constraint is written without
    /// one.
    pub open spec fn text(self) -> Seq<char> {
        match self {
            ReqType::Exact => Seq::empty(),
            ReqType::Gte => seq!['>', '='],
            ReqType::Lte => seq!['<', '='],
            ReqType::Ne => seq!['!', '='],
            ReqType::Gt => seq!['>'],
            ReqType::Lt => seq!['<'],
            ReqType::Caret => seq!['^'],
            ReqType::Tilde => seq!['~'],
        }
    }

    /// Appends the operator to `out`.
    pub fn write_to(&self, out: &mut Vec<char>)
        ensures
            final(out)@ == old(out)@ + self.text(),
    {
        match self {
            ReqType::Exact => {},
            ReqType::Gte => {
                out.push('>');
                out.push('=');
            },
            ReqType::Lte => {
                out.push('<');
                out.push('=');
            },
            ReqType::Ne => {
                out.push('!');
                out.push('=');
            },
            ReqType::Gt => {
                out.push('>');
            },
            ReqType::Lt => {
                out.push('<');
            },
            ReqType::Caret => {
                out.push('^');
            },
            ReqType::Tilde => {
                out.push('~');
            },
        }
    }
}

/// Reads the operator at the start of `p`.
pub fn parse_operator(p: &Vec<char>) -> (r: (ReqType, usize))
    ensures
        r.0 == operator_of(p@).0,
        r.1 == operator_of(p@).1,
        r.1 <= p.len(),
{
    let n = p.len();
    if n >= 2 && p[1] == '=' {
        let first = p[0];
        if first == '=' {
            return (ReqType::Exact, 2);
        } else if first == '>' {
            return (ReqType::Gte, 2);
        } else if first == '<' {
            return (ReqType::Lte, 2);
        } else if first == '!' {
            return (ReqType::Ne, 2);
        } else if first == '~' {
            return (ReqType::Tilde, 2);
        }
    }
    if n >= 1 {
        let first = p[0];
        if first == '>' {
            return (ReqType::Gt, 1);
        } else if first == '<' {
            return (ReqType::Lt, 1);
        } else if first == '^' {
            return (ReqType::Caret, 1);
        } else if first == '~' {
            return (ReqType::Tilde, 1);
        }
    }
    (ReqType::Exact, 0)
}

impl Constraint {
    /// The constraint of the given kind on `version`.
    pub fn new(type_: ReqType, version: Version) -> (c: Constraint)
        ensures
            c == (Constraint { type_, version }),
    {
        Constraint { type_, version }
    }

    /// Reads one constraint from text that holds no blanks.
    pub fn from_piece(p: &Vec<char>) -> (r: Option<Constraint>)
        ensures
            r == constraint_of_piece(p@),
    {
        let (type_, taken) = parse_operator(p);
        let rest = chars_from(p, taken);
        match Version::from_chars(&rest) {
            Some(version) => Some(Constraint { type_, version }),
            None => None,
        }
    }

    /// Reads one constraint, such as `>=2.0` or `^1.4.2`. Blanks are passed
    /// over. A version alone is an exact constraint.
    pub fn from_str(s: &str) -> (r: Result<Constraint, DescriptorError>)
        ensures
            r == match constraint_of(s@) {
                Some(c) => Ok::<Constraint, DescriptorError>(c),
                None => Err(DescriptorError::Constraints),
            },
    {
        let chars = chars_of(s);
        let stripped = without_blanks(&chars);
        match Constraint::from_piece(&stripped) {
            Some(c) => Ok(c),
            None => Err(DescriptorError::Constraints),
        }
    }

    /// Reads a list of constraints from its characters.
    pub fn from_chars_multiple(chars: &Vec<char>) -> (r: Option<Vec<Constraint>>)
        ensures
            match constraints_of(chars@) {
                Some(cs) => r matches Some(v) && v@ == cs,
                None => r is None,
            },
    {
        let stripped = without_blanks(chars);
        if stripped.len() == 1 && stripped[0] == '*' {
            assert(stripped@ == seq!['*']);
            return Some(Vec::new());
        }
        assert(stripped@ != seq!['*']) by {
            if stripped@ == seq!['*'] {
                assert(seq!['*'].len() == 1 && seq!['*'][0] == '*');
            }
        }
        let pieces = split_chars(&stripped, ',');
        let ghost texts = views_of(pieces@);
        let mut found: Vec<Constraint> = Vec::new();
        let mut i: usize = 0;
        while i < pieces.len()
            invariant
                i <= pieces.len(),
                texts == views_of(pieces@),
                texts == split_on(strip_blanks(chars@), ','),
                strip_blanks(chars@) != seq!['*'],
                found@.len() == i,
                forall|j: int|
                    0 <= j < i ==> (#[trigger] constraint_of_piece(texts[j])) == Some(found@[j]),
            decreases pieces.len() - i,
        {
            assert(texts[i as int] == pieces@[i as int]@);
            match Constraint::from_piece(&pieces[i]) {
                Some(c) => {
                    found.push(c);
                },
                None => {
                    return None;
                },
            }
            i += 1;
        }
        assert(found@ == constraints_of_pieces(texts)->0);
        Some(found)
    }

    /// Reads a list of constraints with commas between them, such as
    /// `>=2.0, <3.0`. Blanks are passed over, and `*` alone stands for the
    /// empty list. The text is refused as a whole if any part of it is no
    /// constraint.
    pub fn from_str_multiple(s: &str) -> (r: Result<Vec<Constraint>, DescriptorError>)
        ensures
            constraints_read(s@, r),
    {
        let chars = chars_of(s);
        match Constraint::from_chars_multiple(&chars) {
            Some(found) => Ok(found),
            None => Err(DescriptorError::Constraints),
        }
    }

    /// The constraint as it is written: the operator, then the version with
    /// all three components.
    #[verifier::opaque]
    pub open spec fn text(self) -> Seq<char> {
        self.type_.text() + self.version.text()
    }

    /// Appends the constraint to `out`.
    pub fn write_to(&self, out: &mut Vec<char>)
        ensures
            final(out)@ == old(out)@ + self.text(),
    {
        reveal(Constraint::text);
        self.type_.write_to(out);
        self.version.write_to(out);
    }

    /// Writes the constraint, as in `>=2.0.0`.
    pub fn to_string(&self) -> (s: String)
        ensures
            s@ == self.text(),
    {
        let mut out: Vec<char> = Vec::new();
        self.write_to(&mut out);
        string_of(&out)
    }
}

/// The texts of the constraints of `cs`, in order.
pub open spec fn texts_of(cs: Seq<Constraint>) -> Seq<Seq<char>> {
    Seq::new(cs.len(), |i: int| cs[i].text())
}

/// A list of constraints as it is written in a manifest: `*` where there is
/// none, else the constraints with a comma and a space between them.
pub open spec fn list_text(cs: Seq<Constraint>) -> Seq<char> {
    if cs.len() == 0 {
        seq!['*']
    } else {
        join_with(texts_of(cs), seq![',', ' '])
    }
}

/// Appends the written form of a list of constraints to `out`.
pub fn write_list(cs: &Vec<Constraint>, out: &mut Vec<char>)
    ensures
        final(out)@ == old(out)@ + list_text(cs@),
{
    if cs.len() == 0 {
        out.push('*');
        return ;
    }
    let mut i: usize = 0;
    while i < cs.len()
        invariant
            i <= cs.len(),
            out@ == old(out)@ + join_with(texts_of(cs@.take(i as int)), seq![',', ' ']),
        decreases cs.len() - i,
    {
        if i > 0 {
            out.push(',');
            out.push(' ');
        }
        cs[i].write_to(out);
        proof {
            let upto = texts_of(cs@.take(i + 1));
            assert(upto.drop_last() == texts_of(cs@.take(i as int)));
            assert(upto.last() == cs@[i as int].text());
            if i == 0 {
                assert(upto[0] == cs@[0].text());
            }
        }
        i += 1;
    }
    assert(cs@.take(cs.len() as int) == cs@);
}

/// A text without blanks stays as it is when its blanks are taken out.
pub proof fn lemma_strip_blanks_keeps(s: Seq<char>)
    requires
        forall|i: int| 0 <= i < s.len() ==> !is_blank(#[trigger] s[i]),
    ensures
        strip_blanks(s) == s,
    decreases s.len(),
{
    let kept = |c: char| !is_blank(c);
    if s.len() == 0 {
        s.lemma_filter_len(kept);
    } else {
        let front = s.drop_last();
        assert forall|i: int| 0 <= i < front.len() implies !is_blank(#[trigger] front[i]) by {
            assert(front[i] == s[i]);
        }
        lemma_strip_blanks_keeps(front);
        front.lemma_filter_push(s.last(), kept);
        assert(front.push(s.last()) == s);
    }
}

/// Whether `c` may stand in the text of a constraint as it is written: a
/// digit, a dot, or a character of an operator.
pub open spec fn is_written_char(c: char) -> bool {
    crate::version::is_digit(c) || c == '.' || c == '=' || c == '<' || c == '>' || c == '!' || c
        == '^' || c == '~'
}

/// Whether `s` holds nothing but characters of written constraints.
pub open spec fn all_written(s: Seq<char>) -> bool {
    forall|i: int| 0 <= i < s.len() ==> is_written_char(#[trigger] s[i])
}

/// Two texts of such characters in a row are a text of such characters.
pub proof fn lemma_all_written_add(a: Seq<char>, b: Seq<char>)
    requires
        all_written(a),
        all_written(b),
    ensures
        all_written(a + b),
{
    let t = a + b;
    assert forall|i: int| 0 <= i < t.len() implies is_written_char(#[trigger] t[i]) by {
        if i < a.len() {
            assert(t[i] == a[i]);
        } else {
            assert(t[i] == b[i - a.len()]);
        }
    }
}

/// A text of such characters holds no blank and no comma, and it is not a
/// star.
pub proof fn lemma_all_written_plain(s: Seq<char>)
    requires
        all_written(s),
    ensures
        strip_blanks(s) == s,
        !s.contains(','),
        s != seq!['*'],
{
    assert forall|i: int| 0 <= i < s.len() implies !is_blank(#[trigger] s[i]) by {
        assert(is_written_char(s[i]));
    }
    lemma_strip_blanks_keeps(s);
    if s.contains(',') {
        let i = choose|i: int| 0 <= i < s.len() && s[i] == ',';
        assert(is_written_char(s[i]));
    }
    if s == seq!['*'] {
        assert(seq!['*'].len() == 1 && seq!['*'][0] == '*');
        assert(is_written_char(s[0]));
    }
}

/// The decimal writing of a number is such a text.
pub proof fn lemma_decimal_written(n: nat)
    ensures
        all_written(crate::version::decimal_digits(n)),
{
    crate::version::lemma_decimal_digits_write(n);
    let s = crate::version::decimal_digits(n);
    assert forall|i: int| 0 <= i < s.len() implies is_written_char(#[trigger] s[i]) by {
        assert(crate::version::is_digit(s[i]));
    }
}

/// The text of a version is such a text, and it starts with a digit.
pub proof fn lemma_version_text_chars(v: Version)
    ensures
        v.text().len() >= 1,
        crate::version::is_digit(v.text()[0]),
        all_written(v.text()),
{
    let major = crate::version::decimal_digits(v.major as nat);
    let minor = crate::version::decimal_digits(v.minor as nat);
    let patch = crate::version::decimal_digits(v.patch as nat);
    let dot = seq!['.'];
    crate::version::lemma_decimal_digits_write(v.major as nat);
    lemma_decimal_written(v.major as nat);
    lemma_decimal_written(v.minor as nat);
    lemma_decimal_written(v.patch as nat);
    assert(all_written(dot)) by {
        assert(dot.len() == 1 && dot[0] == '.');
    }
    lemma_all_written_add(major, dot);
    lemma_all_written_add(major + dot, minor);
    lemma_all_written_add(major + dot + minor, dot);
    lemma_all_written_add(major + dot + minor + dot, patch);
    assert(v.text() == major + dot + minor + dot + patch);
    assert(v.text()[0] == major[0]);
}

/// The text of an operator is such a text.
pub proof fn lemma_operator_written(type_: ReqType)
    ensures
        all_written(type_.text()),
{
    let op = type_.text();
    assert forall|i: int| 0 <= i < op.len() implies is_written_char(#[trigger] op[i]) by {
        match type_ {
            ReqType::Exact => {},
            ReqType::Gte => {
                assert(op[0] == '>' && op[1] == '=');
            },
            ReqType::Lte => {
                assert(op[0] == '<' && op[1] == '=');
            },
            ReqType::Ne => {
                assert(op[0] == '!' && op[1] == '=');
            },
            ReqType::Gt => {
                assert(op[0] == '>');
            },
            ReqType::Lt => {
                assert(op[0] == '<');
            },
            ReqType::Caret => {
                assert(op[0] == '^');
            },
            ReqType::Tilde => {
                assert(op[0] == '~');
            },
        }
    }
}

/// Before text that starts with a digit, an operator is read back as it
/// was written, and the text follows it.
pub proof fn lemma_operator_reads_back(type_: ReqType, rest: Seq<char>)
    requires
        rest.len() >= 1,
        crate::version::is_digit(rest[0]),
    ensures
        operator_of(type_.text() + rest) == (type_, type_.text().len()),
        (type_.text() + rest).skip(type_.text().len() as int) == rest,
{
    let op = type_.text();
    let t = op + rest;
    assert(t.skip(op.len() as int) == rest);
    assert(t[op.len() as int] == rest[0]);
    match type_ {
        ReqType::Exact => {
            assert(op.len() == 0);
        },
        ReqType::Gte => {
            assert(op.len() == 2 && t[0] == '>' && t[1] == '=');
        },
        ReqType::Lte => {
            assert(op.len() == 2 && t[0] == '<' && t[1] == '=');
        },
        ReqType::Ne => {
            assert(op.len() == 2 && t[0] == '!' && t[1] == '=');
        },
        ReqType::Gt => {
            assert(op.len() == 1 && t[0] == '>');
        },
        ReqType::Lt => {
            assert(op.len() == 1 && t[0] == '<');
        },
        ReqType::Caret => {
            assert(op.len() == 1 && t[0] == '^');
        },
        ReqType::Tilde => {
            assert(op.len() == 1 && t[0] == '~');
        },
    }
}

/// The text of a constraint holds no blank and no comma, and it is not a
/// star.
pub proof fn lemma_constraint_text_plain(c: Constraint)
    ensures
        strip_blanks(c.text()) == c.text(),
        !c.text().contains(','),
        c.text() != seq!['*'],
{
    reveal(Constraint::text);
    lemma_version_text_chars(c.version);
    lemma_operator_written(c.type_);
    lemma_all_written_add(c.type_.text(), c.version.text());
    lemma_all_written_plain(c.text());
}

/// A constraint is read back from its text.
pub proof fn lemma_constraint_reads_back(c: Constraint)
    ensures
        constraint_of_piece(c.text()) == Some(c),
{
    reveal(Constraint::text);
    lemma_version_text_chars(c.version);
    crate::version::lemma_version_reads_back(c.version);
    lemma_operator_reads_back(c.type_, c.version.text());
}

/// Without its blank, what is written between two constraints is a comma.
pub proof fn lemma_separator_stripped()
    ensures
        strip_blanks(seq![',', ' ']) == seq![','],
{
    let kept = |c: char| !is_blank(c);
    let none = Seq::<char>::empty();
    none.lemma_filter_len(kept);
    none.lemma_filter_push(',', kept);
    assert(none.push(',') == seq![',']);
    seq![','].lemma_filter_push(' ', kept);
    assert(seq![','].push(' ') == seq![',', ' ']);
}

/// Taking the blanks out of three texts in a row is taking them out of
/// each.
pub proof fn lemma_strip_blanks_of_three(a: Seq<char>, b: Seq<char>, c: Seq<char>)
    ensures
        strip_blanks(a + b + c) == strip_blanks(a) + strip_blanks(b) + strip_blanks(c),
{
    let kept = |c: char| !is_blank(c);
    Seq::filter_distributes_over_add(a, b, kept);
    Seq::filter_distributes_over_add(a + b, c, kept);
}

/// Without their blanks, texts with a comma and a space between them are
/// the texts with a comma between them, where the texts hold no blank.
pub proof fn lemma_joined_stripped(texts: Seq<Seq<char>>)
    requires
        forall|i: int| 0 <= i < texts.len() ==> strip_blanks(#[trigger] texts[i]) == texts[i],
    ensures
        strip_blanks(join_with(texts, seq![',', ' '])) == join_with(texts, seq![',']),
    decreases texts.len(),
{
    if texts.len() == 0 {
        Seq::<char>::empty().lemma_filter_len(|c: char| !is_blank(c));
    } else if texts.len() > 1 {
        let front = texts.drop_last();
        assert forall|i: int| 0 <= i < front.len() implies strip_blanks(#[trigger] front[i])
            == front[i] by {
            assert(front[i] == texts[i]);
        }
        lemma_joined_stripped(front);
        lemma_separator_stripped();
        lemma_strip_blanks_of_three(join_with(front, seq![',', ' ']), seq![',', ' '], texts.last());
    }
}

/// Texts with a comma and a space between them are read piece by piece,
/// where the texts hold no blank and no comma and the first is not a star.
pub proof fn lemma_written_pieces(texts: Seq<Seq<char>>)
    requires
        texts.len() >= 1,
        forall|i: int| 0 <= i < texts.len() ==> strip_blanks(#[trigger] texts[i]) == texts[i],
        none_holds(texts, ','),
        texts[0] != seq!['*'],
    ensures
        constraints_of(join_with(texts, seq![',', ' '])) == constraints_of_pieces(texts),
{
    let stripped = strip_blanks(join_with(texts, seq![',', ' ']));
    lemma_joined_stripped(texts);
    crate::text::lemma_join_splits_back(texts, ',');
    assert(split_on(stripped, ',') == texts);
    if stripped == seq!['*'] {
        assert(!stripped.contains(',')) by {
            assert(seq!['*'].len() == 1 && seq!['*'][0] == '*');
        }
        crate::text::lemma_split_on_one_piece(stripped, ',');
        assert(texts[0] == seq![stripped][0]);
    }
}

/// A star is read as no constraint at all.
pub proof fn lemma_star_reads_back()
    ensures
        constraints_of(seq!['*']) == Some(Seq::<Constraint>::empty()),
{
    let star = seq!['*'];
    assert forall|i: int| 0 <= i < star.len() implies !is_blank(#[trigger] star[i]) by {
        assert(star.len() == 1 && star[0] == '*');
    }
    lemma_strip_blanks_keeps(star);
}

/// What is written for a list of constraints is read back as that list.
pub proof fn lemma_list_reads_back(cs: Seq<Constraint>)
    ensures
        constraints_of(list_text(cs)) == Some(cs),
{
    if cs.len() == 0 {
        lemma_star_reads_back();
        assert(cs == Seq::<Constraint>::empty());
    } else {
        let texts = texts_of(cs);
        assert forall|i: int| 0 <= i < texts.len() implies strip_blanks(#[trigger] texts[i])
            == texts[i] && !texts[i].contains(',') && texts[i] != seq!['*'] by {
            lemma_constraint_text_plain(cs[i]);
        }
        assert(texts[0] != seq!['*']);
        lemma_written_pieces(texts);
        assert forall|i: int| 0 <= i < texts.len() implies (#[trigger] constraint_of_piece(
            texts[i],
        )) == Some(cs[i]) by {
            lemma_constraint_reads_back(cs[i]);
        }
        assert(Seq::new(texts.len(), |i: int| constraint_of_piece(texts[i])->0) == cs);
    }
}

} // verus!
