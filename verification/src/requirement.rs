//! Requirements on Python packages that can be parsed without harm.
//!
//! The parser of requirements panics on some texts. Such a text is told from all others here. Of
//! a text that is no requirement at all it may be said either way, since the parser then fails.
use std::str::FromStr;

use pep508_rs::pep440_rs::VersionPattern;
use pep508_rs::{split_scheme, Requirement, Scheme, VerbatimUrl};
use vstd::prelude::*;
use vstd::std_specs::iter::IteratorSpec;

verus! {

/// A class of characters.
#[derive(Clone, Copy)]
pub enum Class {
    /// White space.
    White,
    /// What is not white space.
    Solid,
    /// What names are made of.
    Name,
    /// What a variable of a marker is made of.
    Variable,
    /// What an operator in letters is made of.
    Word,
    /// What an operator in symbols is made of.
    Symbol,
}

/// White space as Unicode has it.
pub open spec fn is_white(c: char) -> bool {
    let code = c as u32;
    ||| 0x09 <= code <= 0x0d
    ||| code == 0x20 || code == 0x85 || code == 0xa0 || code == 0x1680
    ||| 0x2000 <= code <= 0x200a
    ||| code == 0x2028 || code == 0x2029 || code == 0x202f || code == 0x205f || code == 0x3000
}

/// An ASCII letter.
pub open spec fn is_letter(c: char) -> bool {
    0x41 <= c as u32 <= 0x5a || 0x61 <= c as u32 <= 0x7a
}

/// An ASCII letter or digit.
pub open spec fn is_alphanumeric(c: char) -> bool {
    is_letter(c) || 0x30 <= c as u32 <= 0x39
}

/// A character that separates the parts of a name.
pub open spec fn is_separator(c: char) -> bool {
    c == '-' || c == '.' || c == '_'
}

/// A character of which operators are made.
pub open spec fn is_symbol(c: char) -> bool {
    c == '<' || c == '=' || c == '>' || c == '~' || c == '!'
}

/// A quotation mark.
pub open spec fn is_quote(c: char) -> bool {
    c == '\'' || c == '"'
}

impl Class {
    /// The character is of the class.
    pub open spec fn holds(self, c: char) -> bool {
        match self {
            Class::White => is_white(c),
            Class::Solid => !is_white(c),
            Class::Name => is_alphanumeric(c) || is_separator(c),
            Class::Variable => !is_white(c) && !is_symbol(c) && c != ')',
            Class::Word => !is_white(c) && !is_quote(c),
            Class::Symbol => is_symbol(c),
        }
    }
}

/// Where the characters of a class end that stand at a place.
pub open spec fn run_end(text: Seq<char>, at: int, class: Class) -> int
    decreases text.len() - at,
{
    if 0 <= at < text.len() && class.holds(text[at]) {
        run_end(text, at + 1, class)
    } else {
        at
    }
}

/// Where a character stands next, from a place on, or where the text ends.
pub open spec fn next_place(text: Seq<char>, at: int, c: char) -> int
    decreases text.len() - at,
{
    if 0 <= at < text.len() && text[at] != c {
        next_place(text, at + 1, c)
    } else {
        at
    }
}

/// The text has this character at this place.
pub open spec fn has_at(text: Seq<char>, at: int, c: char) -> bool {
    0 <= at < text.len() && text[at] == c
}

/// Where the name that a requirement begins with starts.
pub open spec fn name_start(text: Seq<char>) -> int {
    run_end(text, 0, Class::White)
}

/// Where the name that a requirement begins with ends.
pub open spec fn name_end(text: Seq<char>) -> int {
    run_end(text, name_start(text), Class::Name)
}

/// The name ends in a separator, with more behind it.
pub open spec fn has_broken_name(text: Seq<char>) -> bool {
    &&& name_start(text) < name_end(text) < text.len()
    &&& is_alphanumeric(text[name_start(text)])
    &&& is_separator(text[name_end(text) - 1])
}

/// Where the list of extras would open.
pub open spec fn extras_start(text: Seq<char>) -> int {
    run_end(text, name_end(text), Class::White)
}

/// Between the bracket that opens the extras and the one that closes them, a name ends in a
/// separator.
pub open spec fn has_broken_extra(text: Seq<char>) -> bool {
    has_at(text, extras_start(text), '[') && exists|at: int|
        extras_start(text) < at < next_place(text, extras_start(text), ']')
            && #[trigger] is_separator(text[at]) && !(at + 1 < text.len() && Class::Name.holds(
            text[at + 1],
        ))
}

/// Where it stands what kind of requirement this is, behind the name and the extras.
pub open spec fn kind_start(text: Seq<char>) -> int {
    let open = extras_start(text);
    if has_at(text, open, '[') {
        let close = next_place(text, open, ']');
        if close < text.len() {
            run_end(text, close + 1, Class::White)
        } else {
            close
        }
    } else {
        open
    }
}

/// A place that a requirement names ends with this character: with a line break, with white space
/// before a marker, a comment or the end, or with a semicolon or a hash before white space.
pub open spec fn ends_place(text: Seq<char>, at: int) -> bool {
    let behind = run_end(text, at + 1, Class::White);
    ||| text[at] == '\r' || text[at] == '\n'
    ||| is_white(text[at]) && (behind >= text.len() || text[behind] == ';' || text[behind] == '#')
    ||| (text[at] == ';' || text[at] == '#') && at + 1 < text.len() && is_white(text[at + 1])
}

/// Where the place that a requirement names ends.
pub open spec fn place_end(text: Seq<char>, at: int) -> int
    decreases text.len() - at,
{
    if 0 <= at < text.len() {
        if ends_place(text, at) {
            at + 1
        } else {
            place_end(text, at + 1)
        }
    } else {
        at
    }
}

/// A place has a scheme that the parser knows, other than that of files. A variable of the
/// environment cannot change that, since none can be named in a scheme.
pub uninterp spec fn is_remote(place: Seq<char>) -> bool;

/// `Scheme::parse` knows the schemes of places, which `split_scheme` finds.
#[verifier::external_body]
fn remote(place: &[char]) -> (remote: bool)
    ensures
        remote == is_remote(place@),
{
    let place: String = place.iter().collect();
    let scheme = split_scheme(&place).and_then(|(scheme, _)| Scheme::parse(scheme));
    scheme.is_some_and(|scheme| !scheme.is_file())
}

/// The requirement names a place that may be a path.
pub open spec fn names_path(text: Seq<char>) -> bool {
    let start = run_end(text, kind_start(text) + 1, Class::White);
    has_at(text, kind_start(text), '@') && !is_remote(
        text.subrange(start, place_end(text, start)),
    )
}

/// Where the marker starts, or where the text ends if there is none.
pub open spec fn marker_start(text: Seq<char>) -> int {
    let kind = kind_start(text);
    let semicolon = if kind >= text.len() {
        text.len() as int
    } else if text[kind] == '@' {
        run_end(text, place_end(text, run_end(text, kind + 1, Class::White)), Class::White)
    } else if text[kind] == '(' {
        let close = next_place(text, kind, ')');
        if close < text.len() {
            run_end(text, close + 1, Class::White)
        } else {
            close
        }
    } else if is_symbol(text[kind]) {
        next_place(text, kind, ';')
    } else {
        kind
    };
    if has_at(text, semicolon, ';') {
        semicolon + 1
    } else {
        text.len() as int
    }
}

/// How two things are compared in a marker.
#[derive(Clone, Copy)]
pub enum Comparison {
    Equal,
    NotEqual,
    Less,
    LessEqual,
    Greater,
    GreaterEqual,
    Compatible,
    In,
}

impl Comparison {
    /// The comparison with its sides exchanged.
    pub open spec fn flipped(self) -> Comparison {
        match self {
            Comparison::Less => Comparison::Greater,
            Comparison::LessEqual => Comparison::GreaterEqual,
            Comparison::Greater => Comparison::Less,
            Comparison::GreaterEqual => Comparison::LessEqual,
            other => other,
        }
    }

    /// The comparison asks for equality, or for the opposite.
    pub open spec fn is_equality(self) -> bool {
        self is Equal || self is NotEqual
    }
}

/// The comparison that an operator without white space in it stands for.
pub open spec fn comparison_of(word: Seq<char>) -> Option<Comparison> {
    if word == "=="@ {
        Some(Comparison::Equal)
    } else if word == "!="@ {
        Some(Comparison::NotEqual)
    } else if word == "<"@ {
        Some(Comparison::Less)
    } else if word == "<="@ {
        Some(Comparison::LessEqual)
    } else if word == ">"@ {
        Some(Comparison::Greater)
    } else if word == ">="@ {
        Some(Comparison::GreaterEqual)
    } else if word == "~="@ {
        Some(Comparison::Compatible)
    } else if word == "in"@ {
        Some(Comparison::In)
    } else {
        None
    }
}

/// The comparison at a place, and where its operator ends.
pub open spec fn operator_at(text: Seq<char>, at: int) -> Option<(Comparison, int)> {
    let end = if 0 <= at < text.len() && is_letter(text[at]) {
        run_end(text, at, Class::Word)
    } else {
        run_end(text, at, Class::Symbol)
    };
    let word = text.subrange(at, end);
    if word == "not"@ {
        let inside = run_end(text, end + 1, Class::White);
        if end < text.len() && is_white(text[end]) && has_at(text, inside, 'i') && has_at(
            text,
            inside + 1,
            'n',
        ) {
            Some((Comparison::In, inside + 2))
        } else {
            None
        }
    } else {
        match comparison_of(word) {
            Some(comparison) => Some((comparison, end)),
            None => None,
        }
    }
}

/// A variable of a marker that holds a version.
pub open spec fn is_version_variable(word: Seq<char>) -> bool {
    word == "python_version"@ || word == "python_full_version"@ || word
        == "implementation_version"@
}

/// A variable of a marker that holds a text.
pub open spec fn is_text_variable(word: Seq<char>) -> bool {
    ||| word == "implementation_name"@
    ||| word == "os_name"@ || word == "os.name"@
    ||| word == "platform_machine"@ || word == "platform.machine"@
    ||| word == "platform_python_implementation"@ || word == "platform.python_implementation"@
    ||| word == "python_implementation"@
    ||| word == "platform_release"@ || word == "platform_system"@
    ||| word == "platform_version"@ || word == "platform.version"@
    ||| word == "sys_platform"@ || word == "sys.platform"@
}

/// One side of a comparison.
pub enum Side {
    /// A text between quotation marks.
    Quoted(Seq<char>),
    /// A variable that holds a version.
    Version(Seq<char>),
    /// A variable that holds a text.
    Text,
    /// The extras that are asked for.
    Extra,
}

/// The side of a comparison that stands at a place, and where it ends.
pub open spec fn side_at(text: Seq<char>, at: int) -> Option<(Side, int)> {
    if !(0 <= at < text.len()) {
        None
    } else if is_quote(text[at]) {
        let end = next_place(text, at + 1, text[at]);
        if end < text.len() {
            Some((Side::Quoted(text.subrange(at + 1, end)), end + 1))
        } else {
            None
        }
    } else {
        let end = run_end(text, at, Class::Variable);
        let word = text.subrange(at, end);
        if is_version_variable(word) {
            Some((Side::Version(word), end))
        } else if is_text_variable(word) {
            Some((Side::Text, end))
        } else if word == "extra"@ {
            Some((Side::Extra, end))
        } else {
            None
        }
    }
}

/// What a version, or a version with a star behind it, is made of.
pub struct VersionData {
    /// The numbers of the release.
    pub release: Seq<u64>,
    /// A star stands behind it.
    pub wildcard: bool,
    /// It has a local part.
    pub local: bool,
}

/// What the version that a text gives is made of, or nothing where it gives none.
pub uninterp spec fn version_data(text: Seq<char>) -> Option<VersionData>;

/// What a version is made of.
pub struct VersionParts {
    pub release: Vec<u64>,
    pub wildcard: bool,
    pub local: bool,
}

impl VersionParts {
    /// What the version is made of, as data.
    pub open spec fn data(self) -> VersionData {
        VersionData { release: self.release@, wildcard: self.wildcard, local: self.local }
    }
}

/// `<VersionPattern as FromStr>::from_str` reads a version, which may have a star behind it. A
/// version has at least one number.
#[verifier::external_body]
pub(crate) fn parse_version(text: &[char]) -> (parts: Option<VersionParts>)
    ensures
        match parts {
            Some(parts) => version_data(text@) == Some(parts.data()) && parts.release@.len() > 0,
            None => version_data(text@) is None,
        },
{
    let pattern = VersionPattern::from_str(&text.iter().collect::<String>()).ok()?;
    Some(VersionParts {
        release: pattern.version().release().to_vec(),
        wildcard: pattern.is_wildcard(),
        local: pattern.version().is_local(),
    })
}

/// How many numbers of a release count: those behind the last that is not zero do not.
pub open spec fn significant(release: Seq<u64>, len: int) -> int
    decreases len,
{
    if len > 1 && len <= release.len() && release[len - 1] == 0 {
        significant(release, len - 1)
    } else if len > 1 {
        len
    } else {
        release.len() as int
    }
}

/// The number at this place of a release is the largest there is.
pub open spec fn is_largest(release: Seq<u64>, at: int) -> bool {
    0 <= at < release.len() && release[at] == u64::MAX
}

/// To find the versions that compare so, the parser adds one to the largest number.
pub open spec fn overflows(variable: Seq<char>, comparison: Comparison, version: VersionData) -> bool {
    let count = significant(version.release, version.release.len() as int);
    let minor = count <= 2 && is_largest(version.release, 1) && count > 1;
    if version.wildcard {
        comparison.is_equality() && is_largest(version.release, version.release.len() - 1) && (
        variable == "python_version"@ ==> version.release.len() <= 2)
    } else if comparison is Compatible {
        !version.local && version.release.len() > 1 && (variable == "python_version"@ ==> count
            <= 2) && is_largest(version.release, count - 2)
    } else if variable != "python_version"@ {
        false
    } else if comparison.is_equality() {
        minor
    } else if version.local {
        false
    } else if count > 2 {
        is_largest(version.release, 1)
    } else {
        (comparison is Greater || comparison is LessEqual) && minor
    }
}

/// All words of a text are versions, from a place on.
pub open spec fn are_versions(text: Seq<char>, at: int) -> bool
    decreases text.len() - at,
{
    let start = run_end(text, at, Class::White);
    let end = run_end(text, start, Class::Solid);
    if at <= start < end <= text.len() {
        (version_data(text.subrange(start, end)) matches Some(version) && !version.wildcard)
            && are_versions(text, end)
    } else {
        true
    }
}

/// Among the words of a text, before one with more than two numbers, is one whose second number
/// is the largest.
pub open spec fn lists_largest(text: Seq<char>, at: int) -> bool
    decreases text.len() - at,
{
    let start = run_end(text, at, Class::White);
    let end = run_end(text, start, Class::Solid);
    if at <= start < end <= text.len() {
        match version_data(text.subrange(start, end)) {
            Some(version) => version.release.len() <= 2 && (is_largest(version.release, 1)
                || lists_largest(text, end)),
            None => false,
        }
    } else {
        false
    }
}

/// The parser cannot compare these.
pub open spec fn is_broken(left: Side, comparison: Comparison, right: Side) -> bool {
    match (left, right) {
        (Side::Quoted(_), Side::Text) => comparison is Compatible,
        (Side::Version(variable), Side::Quoted(text)) => if comparison is In {
            variable == "python_version"@ && are_versions(text, 0) && lists_largest(text, 0)
        } else {
            version_data(text) matches Some(version) && overflows(variable, comparison, version)
        },
        (Side::Quoted(text), Side::Version(variable)) => !(comparison is In) && (version_data(
            text,
        ) matches Some(version) && !version.wildcard && overflows(
            variable,
            comparison.flipped(),
            version,
        )),
        _ => false,
    }
}

/// How many bytes a character takes.
pub open spec fn width(c: char) -> int {
    if (c as u32) < 0x80 {
        1
    } else if (c as u32) < 0x800 {
        2
    } else if (c as u32) < 0x10000 {
        3
    } else {
        4
    }
}

/// A character starts this many bytes behind a place, or the text ends there.
pub open spec fn starts_behind(text: Seq<char>, at: int, bytes: int) -> bool
    decreases text.len() - at,
{
    if bytes <= 0 {
        bytes == 0
    } else if 0 <= at < text.len() {
        starts_behind(text, at + 1, bytes - width(text[at]))
    } else {
        false
    }
}

/// What comes next in a marker.
pub enum Step {
    /// The parser panics here.
    Broken,
    /// The marker ends here, or it is none.
    End,
    /// From here on a comparison is expected, or else what joins two of them.
    Next(int, bool),
}

/// What is found where a comparison is expected.
pub open spec fn comparison_step(text: Seq<char>, at: int) -> Step {
    let start = run_end(text, at, Class::White);
    if has_at(text, start, '(') {
        Step::Next(start + 1, true)
    } else {
        match side_at(text, start) {
            Some((left, end)) => match operator_at(text, run_end(text, end, Class::White)) {
                Some((comparison, end)) => match side_at(text, run_end(text, end, Class::White)) {
                    Some((right, end)) => if is_broken(left, comparison, right) {
                        Step::Broken
                    } else {
                        Step::Next(end, false)
                    },
                    None => Step::End,
                },
                None => Step::End,
            },
            None => Step::End,
        }
    }
}

/// What is found where two comparisons may be joined. The parser takes as many bytes here as the
/// next word has characters.
pub open spec fn junction_step(text: Seq<char>, at: int) -> Step {
    let start = run_end(text, at, Class::White);
    let end = run_end(text, start, Class::Solid);
    let word = text.subrange(start, end);
    if !starts_behind(text, start, end - start) {
        Step::Broken
    } else if word == "and"@ || word == "or"@ {
        Step::Next(end, true)
    } else if has_at(text, start, ')') {
        Step::Next(start + 1, false)
    } else {
        Step::End
    }
}

/// The parser gets through a marker, from a place on.
pub open spec fn is_marker_harmless(text: Seq<char>, at: int, expected: bool) -> bool
    decreases text.len() - at,
{
    let step = if expected {
        comparison_step(text, at)
    } else {
        junction_step(text, at)
    };
    match step {
        Step::Broken => false,
        Step::End => true,
        Step::Next(next, expected) => if at < next <= text.len() {
            is_marker_harmless(text, next, expected)
        } else {
            true
        },
    }
}

/// The parser gets through a requirement.
pub open spec fn is_harmless(text: Seq<char>) -> bool {
    &&& !has_broken_name(text)
    &&& !has_broken_extra(text)
    &&& is_marker_harmless(text, marker_start(text), true)
}

/// Gives the characters of a text.
pub fn chars_of(text: &str) -> (chars: Vec<char>)
    ensures
        chars@ == text@,
{
    let mut chars: Vec<char> = Vec::new();
    let mut rest = text.chars();
    assert(chars@ + rest.remaining() =~= text@);
    loop
        invariant
            chars@ + rest.remaining() == text@,
            rest.obeys_prophetic_iter_laws(),
            rest.decrease() is Some,
        decreases rest.decrease()->Some_0,
    {
        let ghost before = rest.remaining();
        match rest.next() {
            Some(next) => {
                assert(before =~= seq![next] + rest.remaining());
                chars.push(next);
                assert(chars@ + rest.remaining() =~= text@);
            },
            None => {
                assert(chars@ =~= text@);
                return chars;
            },
        }
    }
}

/// Tells whether a character is white space.
fn white(c: char) -> (found: bool)
    ensures
        found == is_white(c),
{
    let code: u32 = c as u32;
    (0x09 <= code && code <= 0x0d) || code == 0x20 || code == 0x85 || code == 0xa0 || code == 0x1680
        || (0x2000 <= code && code <= 0x200a) || code == 0x2028 || code == 0x2029 || code == 0x202f
        || code == 0x205f || code == 0x3000
}

/// Tells whether a character is an ASCII letter.
fn letter(c: char) -> (found: bool)
    ensures
        found == is_letter(c),
{
    let code: u32 = c as u32;
    (0x41 <= code && code <= 0x5a) || (0x61 <= code && code <= 0x7a)
}

/// Tells whether a character is an ASCII letter or digit.
fn alphanumeric(c: char) -> (found: bool)
    ensures
        found == is_alphanumeric(c),
{
    let code: u32 = c as u32;
    letter(c) || (0x30 <= code && code <= 0x39)
}

/// Tells whether a character separates the parts of a name.
fn separator(c: char) -> (found: bool)
    ensures
        found == is_separator(c),
{
    c == '-' || c == '.' || c == '_'
}

/// Tells whether operators are made of a character.
fn symbol(c: char) -> (found: bool)
    ensures
        found == is_symbol(c),
{
    c == '<' || c == '=' || c == '>' || c == '~' || c == '!'
}

/// Tells whether a character is a quotation mark.
fn quote(c: char) -> (found: bool)
    ensures
        found == is_quote(c),
{
    c == '\'' || c == '"'
}

impl Class {
    /// Tells whether a character is of the class.
    fn has(self, c: char) -> (has: bool)
        ensures
            has == self.holds(c),
    {
        match self {
            Class::White => white(c),
            Class::Solid => !white(c),
            Class::Name => alphanumeric(c) || separator(c),
            Class::Variable => !white(c) && !symbol(c) && c != ')',
            Class::Word => !white(c) && !quote(c),
            Class::Symbol => symbol(c),
        }
    }
}

/// Finds where the characters of a class end that stand at a place.
pub fn end_of(text: &[char], at: usize, class: Class) -> (end: usize)
    requires
        at <= text@.len(),
    ensures
        end == run_end(text@, at as int, class),
        at <= end <= text@.len(),
{
    let mut end: usize = at;
    while end < text.len() && class.has(text[end])
        invariant
            at <= end <= text@.len(),
            run_end(text@, at as int, class) == run_end(text@, end as int, class),
        decreases text@.len() - end,
    {
        end += 1;
    }
    end
}

/// Finds where a character stands next.
pub fn find(text: &[char], at: usize, c: char) -> (place: usize)
    requires
        at <= text@.len(),
    ensures
        place == next_place(text@, at as int, c),
        at <= place <= text@.len(),
        place < text@.len() ==> text@[place as int] == c,
{
    let mut place: usize = at;
    while place < text.len() && text[place] != c
        invariant
            at <= place <= text@.len(),
            next_place(text@, at as int, c) == next_place(text@, place as int, c),
        decreases text@.len() - place,
    {
        place += 1;
    }
    place
}

/// Tells whether a character stands at a place.
pub fn stands_at(text: &[char], at: usize, c: char) -> (stands: bool)
    ensures
        stands == has_at(text@, at as int, c),
{
    at < text.len() && text[at] == c
}

/// Tells whether a part of a text is this word.
pub fn is_word(text: &[char], from: usize, to: usize, word: &str) -> (is: bool)
    requires
        from <= to <= text@.len(),
    ensures
        is == (text@.subrange(from as int, to as int) == word@),
{
    let letters = chars_of(word);
    let ghost part = text@.subrange(from as int, to as int);
    if letters.len() != to - from {
        return false;
    }
    let mut i: usize = 0;
    while i < letters.len()
        invariant
            from <= to <= text@.len(),
            i <= letters@.len(),
            letters@.len() == to - from,
            letters@ == word@,
            part == text@.subrange(from as int, to as int),
            forall|j: int| 0 <= j < i ==> part[j] == letters@[j],
        decreases letters@.len() - i,
    {
        if text[from + i] != letters[i] {
            assert(part[i as int] != letters@[i as int]);
            return false;
        }
        i += 1;
    }
    assert(part =~= letters@);
    true
}

/// Where the parts of a requirement start, up to what kind it is.
struct Outline {
    name: usize,
    name_end: usize,
    extras: usize,
    kind: usize,
}

/// Finds where the parts of a requirement start.
fn outline(text: &[char]) -> (outline: Outline)
    ensures
        outline.name == name_start(text@),
        outline.name_end == name_end(text@),
        outline.extras == extras_start(text@),
        outline.kind == kind_start(text@),
        outline.name <= outline.name_end <= outline.extras <= outline.kind <= text@.len(),
{
    let name: usize = end_of(text, 0, Class::White);
    let name_end: usize = end_of(text, name, Class::Name);
    let extras: usize = end_of(text, name_end, Class::White);
    let kind: usize = if stands_at(text, extras, '[') {
        let close: usize = find(text, extras, ']');
        if close < text.len() {
            end_of(text, close + 1, Class::White)
        } else {
            close
        }
    } else {
        extras
    };
    Outline { name, name_end, extras, kind }
}

/// Tells whether the name of a requirement is broken.
fn broken_name(text: &[char], outline: &Outline) -> (broken: bool)
    requires
        outline.name == name_start(text@),
        outline.name_end == name_end(text@),
        outline.name <= outline.name_end <= text@.len(),
    ensures
        broken == has_broken_name(text@),
{
    outline.name < outline.name_end && outline.name_end < text.len() && alphanumeric(
        text[outline.name],
    ) && separator(text[outline.name_end - 1])
}

/// Tells whether an extra of a requirement is broken.
fn broken_extra(text: &[char], open: usize) -> (broken: bool)
    requires
        open == extras_start(text@),
        open <= text@.len(),
    ensures
        broken == has_broken_extra(text@),
{
    if !stands_at(text, open, '[') {
        return false;
    }
    let close: usize = find(text, open, ']');
    let mut at: usize = open + 1;
    while at < close
        invariant
            open == extras_start(text@),
            has_at(text@, open as int, '['),
            close == next_place(text@, open as int, ']'),
            open < at,
            close <= text@.len(),
            forall|i: int|
                open < i < at && #[trigger] is_separator(text@[i]) ==> i + 1 < text@.len()
                    && Class::Name.holds(text@[i + 1]),
        decreases close - at,
    {
        if separator(text[at]) && (text.len() - at == 1 || !Class::Name.has(text[at + 1])) {
            assert(is_separator(text@[at as int]));
            return true;
        }
        at += 1;
    }
    false
}

/// Finds where the place that a requirement names ends.
fn end_of_place(text: &[char], at: usize) -> (end: usize)
    requires
        at <= text@.len(),
    ensures
        end == place_end(text@, at as int),
        at <= end <= text@.len(),
{
    let mut end: usize = at;
    while end < text.len()
        invariant
            at <= end <= text@.len(),
            place_end(text@, at as int) == place_end(text@, end as int),
        decreases text@.len() - end,
    {
        let c = text[end];
        let behind: usize = end_of(text, end + 1, Class::White);
        if c == '\r' || c == '\n' || (white(c) && (behind >= text.len() || text[behind] == ';'
            || text[behind] == '#')) || ((c == ';' || c == '#') && end + 1 < text.len() && white(
            text[end + 1],
        )) {
            return end + 1;
        }
        end += 1;
    }
    end
}

/// Finds where the marker of a requirement starts.
fn start_of_marker(text: &[char], kind: usize) -> (start: usize)
    requires
        kind == kind_start(text@),
        kind <= text@.len(),
    ensures
        start == marker_start(text@),
        start <= text@.len(),
{
    let semicolon: usize = if kind >= text.len() {
        text.len()
    } else if text[kind] == '@' {
        let place: usize = end_of(text, kind + 1, Class::White);
        let end: usize = end_of_place(text, place);
        end_of(text, end, Class::White)
    } else if text[kind] == '(' {
        let close: usize = find(text, kind, ')');
        if close < text.len() {
            end_of(text, close + 1, Class::White)
        } else {
            close
        }
    } else if symbol(text[kind]) {
        find(text, kind, ';')
    } else {
        kind
    };
    if stands_at(text, semicolon, ';') {
        semicolon + 1
    } else {
        text.len()
    }
}

/// Finds the comparison that a word stands for.
fn word_comparison(text: &[char], from: usize, to: usize) -> (comparison: Option<Comparison>)
    requires
        from <= to <= text@.len(),
    ensures
        comparison == comparison_of(text@.subrange(from as int, to as int)),
{
    if is_word(text, from, to, "==") {
        Some(Comparison::Equal)
    } else if is_word(text, from, to, "!=") {
        Some(Comparison::NotEqual)
    } else if is_word(text, from, to, "<") {
        Some(Comparison::Less)
    } else if is_word(text, from, to, "<=") {
        Some(Comparison::LessEqual)
    } else if is_word(text, from, to, ">") {
        Some(Comparison::Greater)
    } else if is_word(text, from, to, ">=") {
        Some(Comparison::GreaterEqual)
    } else if is_word(text, from, to, "~=") {
        Some(Comparison::Compatible)
    } else if is_word(text, from, to, "in") {
        Some(Comparison::In)
    } else {
        None
    }
}

/// Finds the comparison at a place, and where its operator ends.
fn find_operator(text: &[char], at: usize) -> (operator: Option<(Comparison, usize)>)
    requires
        at <= text@.len(),
    ensures
        match operator {
            Some((comparison, end)) => operator_at(text@, at as int) == Some(
                (comparison, end as int),
            ) && at <= end <= text@.len(),
            None => operator_at(text@, at as int) is None,
        },
{
    let end: usize = if at < text.len() && letter(text[at]) {
        end_of(text, at, Class::Word)
    } else {
        end_of(text, at, Class::Symbol)
    };
    if is_word(text, at, end, "not") {
        if end < text.len() && white(text[end]) {
            let inside: usize = end_of(text, end + 1, Class::White);
            if inside < text.len() && stands_at(text, inside, 'i') && stands_at(
                text,
                inside + 1,
                'n',
            ) {
                return Some((Comparison::In, inside + 2));
            }
        }
        None
    } else {
        match word_comparison(text, at, end) {
            Some(comparison) => Some((comparison, end)),
            None => None,
        }
    }
}

/// One side of a comparison, by where it stands.
#[derive(Clone, Copy)]
enum Found {
    Quoted(usize, usize),
    Version(usize, usize),
    Text,
    Extra,
}

impl Found {
    /// It stands within a text.
    spec fn is_within(self, text: Seq<char>) -> bool {
        match self {
            Found::Quoted(from, to) => from <= to <= text.len(),
            Found::Version(from, to) => from <= to <= text.len(),
            _ => true,
        }
    }

    /// What stands there.
    spec fn side(self, text: Seq<char>) -> Side {
        match self {
            Found::Quoted(from, to) => Side::Quoted(text.subrange(from as int, to as int)),
            Found::Version(from, to) => Side::Version(text.subrange(from as int, to as int)),
            Found::Text => Side::Text,
            Found::Extra => Side::Extra,
        }
    }
}

/// Tells whether a word is a variable that holds a version.
fn version_variable(text: &[char], from: usize, to: usize) -> (is: bool)
    requires
        from <= to <= text@.len(),
    ensures
        is == is_version_variable(text@.subrange(from as int, to as int)),
{
    is_word(text, from, to, "python_version") || is_word(text, from, to, "python_full_version")
        || is_word(text, from, to, "implementation_version")
}

/// Tells whether a word is a variable that holds a text.
fn text_variable(text: &[char], from: usize, to: usize) -> (is: bool)
    requires
        from <= to <= text@.len(),
    ensures
        is == is_text_variable(text@.subrange(from as int, to as int)),
{
    is_word(text, from, to, "implementation_name") || is_word(text, from, to, "os_name") || is_word(
        text,
        from,
        to,
        "os.name",
    ) || is_word(text, from, to, "platform_machine") || is_word(text, from, to, "platform.machine")
        || is_word(text, from, to, "platform_python_implementation") || is_word(
        text,
        from,
        to,
        "platform.python_implementation",
    ) || is_word(text, from, to, "python_implementation") || is_word(
        text,
        from,
        to,
        "platform_release",
    ) || is_word(text, from, to, "platform_system") || is_word(text, from, to, "platform_version")
        || is_word(text, from, to, "platform.version") || is_word(text, from, to, "sys_platform")
        || is_word(text, from, to, "sys.platform")
}

/// Finds the side of a comparison that stands at a place, and where it ends.
fn find_side(text: &[char], at: usize) -> (found: Option<(Found, usize)>)
    requires
        at <= text@.len(),
    ensures
        match found {
            Some((found, end)) => found.is_within(text@) && side_at(text@, at as int) == Some(
                (found.side(text@), end as int),
            ) && at <= end <= text@.len(),
            None => side_at(text@, at as int) is None,
        },
{
    if at >= text.len() {
        return None;
    }
    if quote(text[at]) {
        let end: usize = find(text, at + 1, text[at]);
        if end < text.len() {
            Some((Found::Quoted(at + 1, end), end + 1))
        } else {
            None
        }
    } else {
        let end: usize = end_of(text, at, Class::Variable);
        if version_variable(text, at, end) {
            Some((Found::Version(at, end), end))
        } else if text_variable(text, at, end) {
            Some((Found::Text, end))
        } else if is_word(text, at, end, "extra") {
            Some((Found::Extra, end))
        } else {
            None
        }
    }
}

/// Counts the numbers of a release that count.
fn count_significant(release: &Vec<u64>) -> (count: usize)
    requires
        release@.len() > 0,
    ensures
        count == significant(release@, release@.len() as int),
        0 < count <= release@.len(),
{
    let mut len: usize = release.len();
    while len > 1 && release[len - 1] == 0
        invariant
            0 < len <= release@.len(),
            significant(release@, release@.len() as int) == significant(release@, len as int),
        decreases len,
    {
        len -= 1;
    }
    if len > 1 {
        len
    } else {
        release.len()
    }
}

/// Tells whether a number of a release is the largest.
pub fn largest(release: &Vec<u64>, at: usize) -> (largest: bool)
    ensures
        largest == is_largest(release@, at as int),
{
    at < release.len() && release[at] == u64::MAX
}

impl Comparison {
    /// Exchanges the sides of a comparison.
    fn flip(self) -> (flipped: Comparison)
        ensures
            flipped == self.flipped(),
    {
        match self {
            Comparison::Less => Comparison::Greater,
            Comparison::LessEqual => Comparison::GreaterEqual,
            Comparison::Greater => Comparison::Less,
            Comparison::GreaterEqual => Comparison::LessEqual,
            other => other,
        }
    }

    /// Tells whether a comparison asks for equality, or for the opposite.
    fn equality(self) -> (equality: bool)
        ensures
            equality == self.is_equality(),
    {
        matches!(self, Comparison::Equal | Comparison::NotEqual)
    }
}

/// Tells whether the parser adds one to the largest number, for `python_version` or for another
/// variable.
fn adds_to_largest(
    variable: Ghost<Seq<char>>,
    truncated: bool,
    comparison: Comparison,
    version: &VersionParts,
) -> (adds: bool)
    requires
        version.release@.len() > 0,
        truncated == (variable@ == "python_version"@),
    ensures
        adds == overflows(variable@, comparison, version.data()),
{
    let count: usize = count_significant(&version.release);
    let minor = count == 2 && largest(&version.release, 1);
    if version.wildcard {
        comparison.equality() && largest(&version.release, version.release.len() - 1) && (!truncated
            || version.release.len() <= 2)
    } else if matches!(comparison, Comparison::Compatible) {
        !version.local && version.release.len() > 1 && (!truncated || count <= 2) && count >= 2
            && largest(&version.release, count - 2)
    } else if !truncated {
        false
    } else if comparison.equality() {
        minor
    } else if version.local {
        false
    } else if count > 2 {
        largest(&version.release, 1)
    } else {
        matches!(comparison, Comparison::Greater | Comparison::LessEqual) && minor
    }
}

/// Tells whether all words of a text are versions, and whether one that counts has the largest
/// number.
fn listed_largest(text: &[char]) -> (largest_listed: bool)
    ensures
        largest_listed == (are_versions(text@, 0) && lists_largest(text@, 0)),
{
    let mut at: usize = 0;
    let mut open: bool = true;
    let mut found: bool = false;
    loop
        invariant
            at <= text@.len(),
            found ==> !open,
            are_versions(text@, 0) == are_versions(text@, at as int),
            lists_largest(text@, 0) == if open {
                lists_largest(text@, at as int)
            } else {
                found
            },
        decreases text@.len() - at,
    {
        let start: usize = end_of(text, at, Class::White);
        let end: usize = end_of(text, start, Class::Solid);
        if start == end {
            return found;
        }
        let word = vstd::slice::slice_subrange(text, start, end);
        match parse_version(word) {
            Some(version) => {
                if version.wildcard {
                    return false;
                }
                if open {
                    if version.release.len() > 2 {
                        open = false;
                    } else if largest(&version.release, 1) {
                        open = false;
                        found = true;
                    }
                }
            },
            None => return false,
        }
        at = end;
    }
}

/// Tells whether the parser cannot compare two sides.
fn broken(text: &[char], left: Found, comparison: Comparison, right: Found) -> (broken: bool)
    requires
        left.is_within(text@),
        right.is_within(text@),
    ensures
        broken == is_broken(left.side(text@), comparison, right.side(text@)),
{
    match (left, right) {
        (Found::Quoted(_, _), Found::Text) => matches!(comparison, Comparison::Compatible),
        (Found::Version(from, to), Found::Quoted(start, end)) => {
            let truncated = is_word(text, from, to, "python_version");
            let value = vstd::slice::slice_subrange(text, start, end);
            if matches!(comparison, Comparison::In) {
                truncated && listed_largest(value)
            } else {
                match parse_version(value) {
                    Some(version) => adds_to_largest(
                        Ghost(text@.subrange(from as int, to as int)),
                        truncated,
                        comparison,
                        &version,
                    ),
                    None => false,
                }
            }
        },
        (Found::Quoted(start, end), Found::Version(from, to)) => {
            let truncated = is_word(text, from, to, "python_version");
            let value = vstd::slice::slice_subrange(text, start, end);
            if matches!(comparison, Comparison::In) {
                return false;
            }
            match parse_version(value) {
                Some(version) => !version.wildcard && adds_to_largest(
                    Ghost(text@.subrange(from as int, to as int)),
                    truncated,
                    comparison.flip(),
                    &version,
                ),
                None => false,
            }
        },
        _ => false,
    }
}

/// Counts the bytes of a character.
fn width_of(c: char) -> (bytes: usize)
    ensures
        bytes == width(c),
{
    let code: u32 = c as u32;
    if code < 0x80 {
        1
    } else if code < 0x800 {
        2
    } else if code < 0x10000 {
        3
    } else {
        4
    }
}

/// Tells whether a character starts this many bytes behind a place.
fn aligned(text: &[char], at: usize, bytes: usize) -> (aligned: bool)
    requires
        at <= text@.len(),
    ensures
        aligned == starts_behind(text@, at as int, bytes as int),
{
    let mut i: usize = at;
    let mut left: usize = bytes;
    while left > 0 && i < text.len()
        invariant
            at <= i <= text@.len(),
            starts_behind(text@, at as int, bytes as int) == starts_behind(
                text@,
                i as int,
                left as int,
            ),
        decreases text@.len() - i,
    {
        let width: usize = width_of(text[i]);
        if width > left {
            assert(!starts_behind(text@, i + 1, left - width));
            return false;
        }
        left -= width;
        i += 1;
    }
    left == 0
}

/// Finds what comes next where a comparison is expected. The parser gets through a marker from a
/// place on if it gets through it from the place that is given.
fn step_over_comparison(text: &[char], at: usize) -> (step: Result<Option<(usize, bool)>, ()>)
    requires
        at <= text@.len(),
    ensures
        match step {
            Ok(Some((next, expected))) => comparison_step(text@, at as int) == Step::Next(
                next as int,
                expected,
            ) && at < next <= text@.len(),
            Ok(None) => is_marker_harmless(text@, at as int, true),
            Err(_) => comparison_step(text@, at as int) is Broken,
        },
{
    let start: usize = end_of(text, at, Class::White);
    if start < text.len() && stands_at(text, start, '(') {
        return Ok(Some((start + 1, true)));
    }
    let (left, end) = match find_side(text, start) {
        Some(found) => found,
        None => return Ok(None),
    };
    let place: usize = end_of(text, end, Class::White);
    let (comparison, end) = match find_operator(text, place) {
        Some(found) => found,
        None => return Ok(None),
    };
    let place: usize = end_of(text, end, Class::White);
    let (right, end) = match find_side(text, place) {
        Some(found) => found,
        None => return Ok(None),
    };
    if broken(text, left, comparison, right) {
        return Err(());
    }
    if end == at {
        return Ok(None);
    }
    Ok(Some((end, false)))
}

/// Finds what comes next where two comparisons may be joined.
fn step_over_junction(text: &[char], at: usize) -> (step: Result<Option<(usize, bool)>, ()>)
    requires
        at <= text@.len(),
    ensures
        match step {
            Ok(Some((next, expected))) => junction_step(text@, at as int) == Step::Next(
                next as int,
                expected,
            ) && at < next <= text@.len(),
            Ok(None) => is_marker_harmless(text@, at as int, false),
            Err(_) => junction_step(text@, at as int) is Broken,
        },
{
    let start: usize = end_of(text, at, Class::White);
    let end: usize = end_of(text, start, Class::Solid);
    if !aligned(text, start, end - start) {
        return Err(());
    }
    if is_word(text, start, end, "and") || is_word(text, start, end, "or") {
        if end == at {
            return Ok(None);
        }
        return Ok(Some((end, true)));
    }
    if start < text.len() && stands_at(text, start, ')') {
        return Ok(Some((start + 1, false)));
    }
    Ok(None)
}

/// Tells whether the parser gets through a marker.
fn marker_harmless(text: &[char], start: usize) -> (harmless: bool)
    requires
        start <= text@.len(),
    ensures
        harmless == is_marker_harmless(text@, start as int, true),
{
    let mut at: usize = start;
    let mut expected: bool = true;
    loop
        invariant
            at <= text@.len(),
            is_marker_harmless(text@, start as int, true) == is_marker_harmless(
                text@,
                at as int,
                expected,
            ),
        decreases text@.len() - at,
    {
        let step = if expected {
            step_over_comparison(text, at)
        } else {
            step_over_junction(text, at)
        };
        match step {
            Ok(Some((next, expectation))) => {
                at = next;
                expected = expectation;
            },
            Ok(None) => return true,
            Err(_) => return false,
        }
    }
}

/// Tells whether the parser gets through a requirement.
pub fn harmless(text: &str) -> (harmless: bool)
    ensures
        harmless == is_harmless(text@),
{
    let chars = chars_of(text);
    let text = chars.as_slice();
    let outline = outline(text);
    !broken_name(text, &outline) && !broken_extra(text, outline.extras) && marker_harmless(
        text,
        start_of_marker(text, outline.kind),
    )
}

/// Tells whether a requirement names a place that may be a path.
pub fn path_named(text: &str) -> (named: bool)
    ensures
        named == names_path(text@),
{
    let chars = chars_of(text);
    let text = chars.as_slice();
    let kind: usize = outline(text).kind;
    if kind < text.len() && text[kind] == '@' {
        let start: usize = end_of(text, kind + 1, Class::White);
        let end: usize = end_of_place(text, start);
        !remote(vstd::slice::slice_subrange(text, start, end))
    } else {
        false
    }
}

/// A text is a requirement.
pub uninterp spec fn is_requirement(text: Seq<char>) -> bool;

/// `<Requirement as FromStr>::from_str` reads a requirement. Whether it succeeds depends on the
/// text alone, unless the text may name variables of the environment. Of such a text nothing is
/// said. The parser asks for the current directory where a text names `PROJECT_ROOT`.
#[verifier::external_body]
fn parse_requirement(text: &str) -> (parsed: bool)
    requires
        is_harmless(text@),
        !text@.contains('$'),
    ensures
        parsed == is_requirement(text@),
{
    Requirement::<VerbatimUrl>::from_str(text).is_ok()
}

/// A text is in ASCII.
pub open spec fn is_ascii(text: Seq<char>) -> bool {
    forall|i: int| 0 <= i < text.len() ==> (#[trigger] text[i] as u32) < 0x80
}

/// The parser gets through a text, and so does what writes its errors, which takes characters for
/// bytes. A text that is not in ASCII must be a requirement for that.
pub open spec fn is_reportable(text: Seq<char>) -> bool {
    is_ascii(text) || (!text.contains('$') && is_requirement(text))
}

/// Tells whether errors in a requirement can be written.
pub fn reportable(text: &str) -> (reportable: bool)
    requires
        is_harmless(text@),
    ensures
        reportable == is_reportable(text@),
{
    let chars = chars_of(text);
    let mut ascii: bool = true;
    let mut dollar: bool = false;
    let mut i: usize = 0;
    while i < chars.len()
        invariant
            i <= chars@.len(),
            ascii == forall|j: int| 0 <= j < i ==> (#[trigger] chars@[j] as u32) < 0x80,
            dollar == exists|j: int| 0 <= j < i && #[trigger] chars@[j] == '$',
        decreases chars@.len() - i,
    {
        let ghost seen = chars@[i as int];
        if chars[i] as u32 >= 0x80 {
            ascii = false;
        }
        if chars[i] == '$' {
            dollar = true;
        }
        i += 1;
    }
    assert(dollar == text@.contains('$'));
    ascii || (!dollar && parse_requirement(text))
}

} // verus!
