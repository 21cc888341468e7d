//! Versions: three numbers, read from and written as dotted decimal text.

use vstd::prelude::*;
use crate::error::DescriptorError;
use crate::text::{chars_of, split_chars, split_on, string_of, views_of};

verus! {

/// A version of a package or of the interpreter. A component that the text
/// leaves out is zero, so `3.8` and `3.8.0` are the same version.
#[derive(Clone, Copy, Debug, PartialEq, Eq, Structural, PartialOrd, Ord, Hash)]
pub struct Version {
    pub major: u32,
    pub minor: u32,
    pub patch: u32,
}

/// Whether `c` is one of the ten decimal digits.
pub open spec fn is_digit(c: char) -> bool {
    0x30 <= c as u32 <= 0x39
}

/// What the digit `c` counts for; zero for any other character.
pub open spec fn digit_value(c: char) -> nat {
    if is_digit(c) {
        (c as u32 - 0x30) as nat
    } else {
        0
    }
}

/// The character that writes `d`, for `d` below ten.
pub open spec fn digit_char(d: nat) -> char {
    (d + 0x30) as u8 as char
}

/// Whether `s` holds decimal digits only.
pub open spec fn all_digits(s: Seq<char>) -> bool {
    forall|i: int| 0 <= i < s.len() ==> is_digit(#[trigger] s[i])
}

/// The number that the digits of `s` write in base ten.
pub open spec fn decimal_value(s: Seq<char>) -> nat
    decreases s.len(),
{
    if s.len() == 0 {
        0
    } else {
        decimal_value(s.drop_last()) * 10 + digit_value(s.last())
    }
}

/// The shortest decimal writing of `n`.
pub open spec fn decimal_digits(n: nat) -> Seq<char>
    decreases n,
{
    if n < 10 {
        seq![digit_char(n)]
    } else {
        decimal_digits(n / 10).push(digit_char(n % 10))
    }
}

/// The number that `s` writes, where `s` is one or more decimal digits and
/// the number fits in 32 bits.
pub open spec fn number_of(s: Seq<char>) -> Option<u32> {
    if s.len() > 0 && all_digits(s) && decimal_value(s) <= u32::MAX {
        Some(decimal_value(s) as u32)
    } else {
        None
    }
}

/// The version that `s` writes: one, two or three numbers with a dot between
/// them, and nothing else.
pub open spec fn version_of(s: Seq<char>) -> Option<Version> {
    let parts = split_on(s, '.');
    if parts.len() == 1 {
        match number_of(parts[0]) {
            Some(major) => Some(Version { major, minor: 0, patch: 0 }),
            None => None,
        }
    } else if parts.len() == 2 {
        match (number_of(parts[0]), number_of(parts[1])) {
            (Some(major), Some(minor)) => Some(Version { major, minor, patch: 0 }),
            _ => None,
        }
    } else if parts.len() == 3 {
        match (number_of(parts[0]), number_of(parts[1]), number_of(parts[2])) {
            (Some(major), Some(minor), Some(patch)) => Some(Version { major, minor, patch }),
            _ => None,
        }
    } else {
        None
    }
}

/// A longer run of characters never writes a smaller number than its start.
pub proof fn lemma_decimal_value_grows(s: Seq<char>, n: int)
    requires
        0 <= n <= s.len(),
    ensures
        decimal_value(s.take(n)) <= decimal_value(s),
    decreases s.len() - n,
{
    if n == s.len() {
        assert(s.take(n) == s);
    } else {
        lemma_decimal_value_grows(s, n + 1);
        assert(s.take(n + 1).drop_last() == s.take(n));
    }
}

/// Reads one component of a version.
pub fn parse_number(v: &Vec<char>) -> (r: Option<u32>)
    ensures
        r == number_of(v@),
{
    if v.len() == 0 {
        return None;
    }
    let mut acc: u64 = 0;
    let mut i: usize = 0;
    while i < v.len()
        invariant
            i <= v.len(),
            all_digits(v@.take(i as int)),
            acc == decimal_value(v@.take(i as int)),
            acc <= u32::MAX,
        decreases v.len() - i,
    {
        let code: u32 = v[i] as u32;
        if code < 0x30 || code > 0x39 {
            assert(!is_digit(v@[i as int]));
            return None;
        }
        proof {
            assert(v@.take(i + 1).drop_last() == v@.take(i as int));
            assert(v@.take(i + 1).last() == v@[i as int]);
            assert forall|j: int| 0 <= j < i + 1 implies is_digit(#[trigger] v@.take(i + 1)[j]) by {
                if j < i {
                    assert(v@.take(i as int)[j] == v@.take(i + 1)[j]);
                }
            }
        }
        let digit: u64 = (code - 0x30) as u64;
        acc = acc * 10 + digit;
        if acc > 0xffff_ffff {
            proof {
                lemma_decimal_value_grows(v@, i + 1);
            }
            return None;
        }
        i += 1;
    }
    assert(v@.take(v.len() as int) == v@);
    Some(acc as u32)
}

impl Version {
    /// The version `major.minor.patch`.
    pub fn new(major: u32, minor: u32, patch: u32) -> (v: Version)
        ensures
            v == (Version { major, minor, patch }),
    {
        Version { major, minor, patch }
    }

    /// The version `major.minor.0`.
    pub fn new_short(major: u32, minor: u32) -> (v: Version)
        ensures
            v == (Version { major, minor, patch: 0 }),
    {
        Version { major, minor, patch: 0 }
    }

    /// Reads a version from its characters.
    pub fn from_chars(v: &Vec<char>) -> (r: Option<Version>)
        ensures
            r == version_of(v@),
    {
        let parts = split_chars(v, '.');
        assert(views_of(parts@).len() == parts@.len());
        if parts.len() == 0 || parts.len() > 3 {
            return None;
        }
        assert(views_of(parts@)[0] == parts@[0]@);
        let major = match parse_number(&parts[0]) {
            Some(n) => n,
            None => {
                return None;
            },
        };
        let mut minor: u32 = 0;
        let mut patch: u32 = 0;
        if parts.len() >= 2 {
            assert(views_of(parts@)[1] == parts@[1]@);
            match parse_number(&parts[1]) {
                Some(n) => {
                    minor = n;
                },
                None => {
                    return None;
                },
            }
        }
        if parts.len() == 3 {
            assert(views_of(parts@)[2] == parts@[2]@);
            match parse_number(&parts[2]) {
                Some(n) => {
                    patch = n;
                },
                None => {
                    return None;
                },
            }
        }
        Some(Version { major, minor, patch })
    }

    /// Reads a version such as `3`, `3.8` or `3.8.1`. Anything else is
    /// refused: other characters, an empty component, a fourth component, a
    /// number that does not fit in 32 bits.
    pub fn from_str(s: &str) -> (r: Result<Version, DescriptorError>)
        ensures
            r == match version_of(s@) {
                Some(v) => Ok::<Version, DescriptorError>(v),
                None => Err(DescriptorError::Version),
            },
    {
        let chars = chars_of(s);
        match Version::from_chars(&chars) {
            Some(v) => Ok(v),
            None => Err(DescriptorError::Version),
        }
    }

    /// The text `major.minor.patch`.
    pub open spec fn text(self) -> Seq<char> {
        decimal_digits(self.major as nat) + seq!['.'] + decimal_digits(self.minor as nat)
            + seq!['.'] + decimal_digits(self.patch as nat)
    }

    /// The text `major.minor`.
    pub open spec fn text_no_patch(self) -> Seq<char> {
        decimal_digits(self.major as nat) + seq!['.'] + decimal_digits(self.minor as nat)
    }

    /// Appends `major.minor.patch` to `out`.
    pub fn write_to(&self, out: &mut Vec<char>)
        ensures
            final(out)@ == old(out)@ + self.text(),
    {
        push_decimal(self.major, out);
        out.push('.');
        push_decimal(self.minor, out);
        out.push('.');
        push_decimal(self.patch, out);
    }

    /// Appends `major.minor` to `out`.
    pub fn write_no_patch_to(&self, out: &mut Vec<char>)
        ensures
            final(out)@ == old(out)@ + self.text_no_patch(),
    {
        push_decimal(self.major, out);
        out.push('.');
        push_decimal(self.minor, out);
    }

    /// Writes the version with all three components, as in `3.8.0`.
    pub fn to_string(&self) -> (s: String)
        ensures
            s@ == self.text(),
    {
        let mut out: Vec<char> = Vec::new();
        self.write_to(&mut out);
        string_of(&out)
    }

    /// Writes the version without its patch component, as in `3.8`.
    pub fn to_string_no_patch(&self) -> (s: String)
        ensures
            s@ == self.text_no_patch(),
    {
        let mut out: Vec<char> = Vec::new();
        self.write_no_patch_to(&mut out);
        string_of(&out)
    }

    /// Whether `self` is an earlier version than `other`: the components are
    /// compared in turn, the major one first.
    pub open spec fn precedes(self, other: Version) -> bool {
        self.major < other.major || (self.major == other.major && (self.minor < other.minor || (
        self.minor == other.minor && self.patch < other.patch)))
    }

    /// Whether `self` is an earlier version than `other`.
    pub fn is_before(&self, other: &Version) -> (b: bool)
        ensures
            b == self.precedes(*other),
    {
        self.major < other.major || (self.major == other.major && (self.minor < other.minor || (
        self.minor == other.minor && self.patch < other.patch)))
    }
}

/// Appends the decimal writing of `n` to `out`.
pub fn push_decimal(n: u32, out: &mut Vec<char>)
    ensures
        final(out)@ == old(out)@ + decimal_digits(n as nat),
    decreases n,
{
    if n >= 10 {
        push_decimal(n / 10, out);
    }
    let digit: u8 = (n % 10) as u8;
    out.push((digit + 0x30) as char);
}

/// The decimal writing of a number holds digits only, at least one, and
/// writes that number.
pub proof fn lemma_decimal_digits_write(n: nat)
    ensures
        decimal_digits(n).len() >= 1,
        all_digits(decimal_digits(n)),
        decimal_value(decimal_digits(n)) == n,
    decreases n,
{
    if n < 10 {
        let s = decimal_digits(n);
        assert(s.len() == 1 && s[0] == digit_char(n));
        assert(is_digit(digit_char(n)) && digit_value(digit_char(n)) == n);
        assert(s.drop_last().len() == 0);
        assert(decimal_value(s.drop_last()) == 0);
    } else {
        lemma_decimal_digits_write(n / 10);
        let front = decimal_digits(n / 10);
        let s = front.push(digit_char(n % 10));
        assert(s == decimal_digits(n));
        assert(s.drop_last() == front);
        assert(is_digit(digit_char(n % 10)) && digit_value(digit_char(n % 10)) == n % 10);
        assert forall|i: int| 0 <= i < s.len() implies is_digit(#[trigger] s[i]) by {
            if i < front.len() {
                assert(s[i] == front[i]);
            }
        }
    }
}

/// A number that fits in 32 bits is read back from its decimal writing.
pub proof fn lemma_number_reads_back(n: u32)
    ensures
        number_of(decimal_digits(n as nat)) == Some(n),
        !decimal_digits(n as nat).contains('.'),
{
    lemma_decimal_digits_write(n as nat);
    let s = decimal_digits(n as nat);
    assert forall|i: int| 0 <= i < s.len() implies s[i] != '.' by {
        assert(is_digit(s[i]));
    }
}

/// A version is read back from its text, with and without the patch
/// component: without it, the patch component reads as zero.
pub proof fn lemma_version_reads_back(v: Version)
    ensures
        version_of(v.text()) == Some(v),
        version_of(v.text_no_patch()) == Some(Version { patch: 0, ..v }),
{
    let major = decimal_digits(v.major as nat);
    let minor = decimal_digits(v.minor as nat);
    let patch = decimal_digits(v.patch as nat);
    lemma_number_reads_back(v.major);
    lemma_number_reads_back(v.minor);
    lemma_number_reads_back(v.patch);
    let two = seq![major, minor];
    let three = seq![major, minor, patch];
    assert(crate::text::join_with(two, seq!['.']) == v.text_no_patch()) by {
        assert(two.drop_last() == seq![major]);
        assert(crate::text::join_with(seq![major], seq!['.']) == major);
    }
    assert(crate::text::join_with(three, seq!['.']) == v.text()) by {
        assert(three.drop_last() == two);
        assert(two.drop_last() == seq![major]);
        assert(crate::text::join_with(seq![major], seq!['.']) == major);
    }
    crate::text::lemma_join_splits_back(two, '.');
    crate::text::lemma_join_splits_back(three, '.');
}

} // verus!

