//! The preamble of a module: version, target and address size, in this order.

use vstd::prelude::*;
use crate::comment::{insignificant_count, insignificant_from, insignificant_len};
use crate::failure::{agrees, FailureKind, ParseResult, Parsed};
use crate::padding::{lemma_padding_before, lemma_skip_joined, lemma_space_padding, padding};
use crate::scan::{
    all_of, at_offset, fail_at, lemma_run_len_whole, literal_from, run_from, run_len,
    skip_front, CharClass,
};
use vstd::slice::slice_subrange;

verus! {

/// The version of the dialect: two runs of numerals.
#[derive(Debug, Clone, Copy, PartialEq, Eq)]
pub struct Version<'a> {
    pub major: &'a [char],
    pub minor: &'a [char],
}

/// The target architecture.
#[derive(Debug, Clone, Copy, PartialEq, Eq)]
pub struct Target<'a> {
    pub target: &'a [char],
}

/// The size of an address.
#[derive(Debug, Clone, Copy, PartialEq, Eq)]
pub struct AddressSize<'a> {
    pub size: &'a [char],
}

/// The three directives that open a module.
#[derive(Debug, Clone, Copy, PartialEq, Eq)]
pub struct Preamble<'a> {
    pub version: Version<'a>,
    pub target: Target<'a>,
    pub address_size: AddressSize<'a>,
}

/// The mathematical value of a [`Version`].
pub ghost struct VersionView {
    pub major: Seq<char>,
    pub minor: Seq<char>,
}

/// The mathematical value of a [`Preamble`].
pub ghost struct PreambleView {
    pub version: VersionView,
    pub target: Seq<char>,
    pub address_size: Seq<char>,
}

impl<'a> View for Version<'a> {
    type V = VersionView;

    open spec fn view(&self) -> VersionView {
        VersionView { major: self.major@, minor: self.minor@ }
    }
}

impl<'a> View for Target<'a> {
    type V = Seq<char>;

    open spec fn view(&self) -> Seq<char> {
        self.target@
    }
}

impl<'a> View for AddressSize<'a> {
    type V = Seq<char>;

    open spec fn view(&self) -> Seq<char> {
        self.size@
    }
}

impl<'a> View for Preamble<'a> {
    type V = PreambleView;

    open spec fn view(&self) -> PreambleView {
        PreambleView {
            version: self.version@,
            target: self.target@,
            address_size: self.address_size@,
        }
    }
}

/// The text `.version`.
pub open spec fn version_keyword() -> Seq<char> {
    seq!['.', 'v', 'e', 'r', 's', 'i', 'o', 'n']
}

/// The text `.target`.
pub open spec fn target_keyword() -> Seq<char> {
    seq!['.', 't', 'a', 'r', 'g', 'e', 't']
}

/// The text `.address_size`.
pub open spec fn address_size_keyword() -> Seq<char> {
    seq!['.', 'a', 'd', 'd', 'r', 'e', 's', 's', '_', 's', 'i', 'z', 'e']
}

/// `.version`, one or more blanks, numerals, a period, numerals.
pub open spec fn spec_version(s: Seq<char>) -> Parsed<VersionView> {
    let a = version_keyword().len() as int;
    let b = a + run_len(s.skip(a), CharClass::Blank);
    let dot = b + run_len(s.skip(b), CharClass::Numeral);
    let end = dot + 1 + run_len(s.skip(dot + 1), CharClass::Numeral);
    if !version_keyword().is_prefix_of(s) {
        Parsed::Fail { kind: FailureKind::StructuralMismatch, at: 0 }
    } else if b == a {
        Parsed::Fail { kind: FailureKind::EmptyRequiredSpan, at: a }
    } else if dot == b {
        Parsed::Fail { kind: FailureKind::EmptyRequiredSpan, at: b }
    } else if dot >= s.len() || s[dot] != '.' {
        Parsed::Fail { kind: FailureKind::StructuralMismatch, at: dot }
    } else if end == dot + 1 {
        Parsed::Fail { kind: FailureKind::EmptyRequiredSpan, at: dot + 1 }
    } else {
        Parsed::Done {
            used: end,
            value: VersionView { major: s.subrange(b, dot), minor: s.subrange(dot + 1, end) },
        }
    }
}

/// A keyword, one or more blanks, and a name; the value is the name.
pub open spec fn spec_directive(s: Seq<char>, keyword: Seq<char>) -> Parsed<Seq<char>> {
    let a = keyword.len() as int;
    let b = a + run_len(s.skip(a), CharClass::Blank);
    let end = b + run_len(s.skip(b), CharClass::Name);
    if !keyword.is_prefix_of(s) {
        Parsed::Fail { kind: FailureKind::StructuralMismatch, at: 0 }
    } else if b == a {
        Parsed::Fail { kind: FailureKind::EmptyRequiredSpan, at: a }
    } else if end == b {
        Parsed::Fail { kind: FailureKind::EmptyRequiredSpan, at: b }
    } else {
        Parsed::Done { used: end, value: s.subrange(b, end) }
    }
}

/// `.target`, one or more blanks, and a name.
pub open spec fn spec_target(s: Seq<char>) -> Parsed<Seq<char>> {
    spec_directive(s, target_keyword())
}

/// `.address_size`, one or more blanks, and a name.
pub open spec fn spec_address_size(s: Seq<char>) -> Parsed<Seq<char>> {
    spec_directive(s, address_size_keyword())
}

/// An insignificant span, which must not be empty, and then a keyword,
/// blanks and a name.
pub open spec fn spec_padded_directive(s: Seq<char>, keyword: Seq<char>) -> Parsed<Seq<char>> {
    if insignificant_count(s) == 0 {
        Parsed::Fail { kind: FailureKind::EmptyRequiredSpan, at: 0 }
    } else {
        spec_directive(s.skip(insignificant_len(s)), keyword).shift(insignificant_len(s))
    }
}

/// The preamble: after an optional insignificant span the version, and
/// then, each after an insignificant span of its own that must not be
/// empty, the target and the address size.
pub open spec fn spec_preamble(s: Seq<char>) -> Parsed<PreambleView> {
    let a = insignificant_len(s);
    match spec_version(s.skip(a)) {
        Parsed::Fail { kind, at } => Parsed::Fail { kind, at: a + at },
        Parsed::Done { used, value: version } => {
            let b = a + used;
            match spec_padded_directive(s.skip(b), target_keyword()) {
                Parsed::Fail { kind, at } => Parsed::Fail { kind, at: b + at },
                Parsed::Done { used, value: target } => {
                    let c = b + used;
                    match spec_padded_directive(s.skip(c), address_size_keyword()) {
                        Parsed::Fail { kind, at } => Parsed::Fail { kind, at: c + at },
                        Parsed::Done { used, value: address_size } => Parsed::Done {
                            used: c + used,
                            value: PreambleView { version, target, address_size },
                        },
                    }
                },
            }
        },
    }
}

/// Recognizes the version directive.
pub fn parse_version<'a>(input: &'a [char]) -> (r: ParseResult<'a, Version<'a>>)
    ensures
        agrees(input@, r, spec_version(input@)),
{
    proof {
        reveal_strlit(".version");
        assert(".version"@ =~= version_keyword());
    }
    let a = match literal_from(input, 0, ".version") {
        Some(a) => a,
        None => {
            return fail_at(input, 0, FailureKind::StructuralMismatch);
        },
    };
    let b = run_from(input, a, CharClass::Blank);
    if b == a {
        return fail_at(input, a, FailureKind::EmptyRequiredSpan);
    }
    let dot = run_from(input, b, CharClass::Numeral);
    if dot == b {
        return fail_at(input, b, FailureKind::EmptyRequiredSpan);
    }
    if dot >= input.len() || input[dot] != '.' {
        return fail_at(input, dot, FailureKind::StructuralMismatch);
    }
    let end = run_from(input, dot + 1, CharClass::Numeral);
    if end == dot + 1 {
        return fail_at(input, dot + 1, FailureKind::EmptyRequiredSpan);
    }
    let version = Version {
        major: slice_subrange(input, b, dot),
        minor: slice_subrange(input, dot + 1, end),
    };
    Ok((skip_front(input, end), version))
}

/// Recognizes a keyword, blanks and a name.
pub fn parse_directive<'a>(input: &'a [char], keyword: &str) -> (r: ParseResult<'a, &'a [char]>)
    ensures
        agrees(input@, r, spec_directive(input@, keyword@)),
{
    let a = match literal_from(input, 0, keyword) {
        Some(a) => a,
        None => {
            return fail_at(input, 0, FailureKind::StructuralMismatch);
        },
    };
    let b = run_from(input, a, CharClass::Blank);
    if b == a {
        return fail_at(input, a, FailureKind::EmptyRequiredSpan);
    }
    let end = run_from(input, b, CharClass::Name);
    if end == b {
        return fail_at(input, b, FailureKind::EmptyRequiredSpan);
    }
    Ok((skip_front(input, end), slice_subrange(input, b, end)))
}

/// Recognizes the target directive.
pub fn parse_target<'a>(input: &'a [char]) -> (r: ParseResult<'a, Target<'a>>)
    ensures
        agrees(input@, r, spec_target(input@)),
{
    proof {
        reveal_strlit(".target");
        assert(".target"@ =~= target_keyword());
    }
    match parse_directive(input, ".target") {
        Ok((rest, target)) => Ok((rest, Target { target })),
        Err(e) => Err(e),
    }
}

/// Recognizes the address size directive.
pub fn parse_address_size<'a>(input: &'a [char]) -> (r: ParseResult<'a, AddressSize<'a>>)
    ensures
        agrees(input@, r, spec_address_size(input@)),
{
    proof {
        reveal_strlit(".address_size");
        assert(".address_size"@ =~= address_size_keyword());
    }
    match parse_directive(input, ".address_size") {
        Ok((rest, size)) => Ok((rest, AddressSize { size })),
        Err(e) => Err(e),
    }
}

/// Recognizes an insignificant span that is not empty, and then a keyword,
/// blanks and a name.
pub fn parse_padded_directive<'a>(input: &'a [char], keyword: &str) -> (r: ParseResult<
    'a,
    &'a [char],
>)
    ensures
        agrees(input@, r, spec_padded_directive(input@, keyword@)),
{
    assert(input@.skip(0) =~= input@);
    let (start, count) = insignificant_from(input, 0);
    if count == 0 {
        return fail_at(input, 0, FailureKind::EmptyRequiredSpan);
    }
    match parse_directive(skip_front(input, start), keyword) {
        Ok((rest, name)) => Ok((skip_front(input, input.len() - rest.len()), name)),
        Err(e) => {
            proof {
                let at = spec_directive(input@.skip(start as int), keyword@)->at;
                vstd::seq_lib::lemma_seq_skip_of_skip(input@, start as int, at);
            }
            Err(e)
        },
    }
}

/// Recognizes the target directive behind an insignificant span.
pub fn parse_padded_target<'a>(input: &'a [char]) -> (r: ParseResult<'a, Target<'a>>)
    ensures
        agrees(input@, r, spec_padded_directive(input@, target_keyword())),
{
    proof {
        reveal_strlit(".target");
        assert(".target"@ =~= target_keyword());
    }
    match parse_padded_directive(input, ".target") {
        Ok((rest, target)) => Ok((rest, Target { target })),
        Err(e) => Err(e),
    }
}

/// Recognizes the address size directive behind an insignificant span.
pub fn parse_padded_address_size<'a>(input: &'a [char]) -> (r: ParseResult<'a, AddressSize<'a>>)
    ensures
        agrees(input@, r, spec_padded_directive(input@, address_size_keyword())),
{
    proof {
        reveal_strlit(".address_size");
        assert(".address_size"@ =~= address_size_keyword());
    }
    match parse_padded_directive(input, ".address_size") {
        Ok((rest, size)) => Ok((rest, AddressSize { size })),
        Err(e) => Err(e),
    }
}

/// Recognizes the preamble of a module.
pub fn parse_preamble<'a>(input: &'a [char]) -> (r: ParseResult<'a, Preamble<'a>>)
    ensures
        agrees(input@, r, spec_preamble(input@)),
{
    assert(input@.skip(0) =~= input@);
    let (a, _) = insignificant_from(input, 0);
    let (b, version) = at_offset(
        input,
        a,
        parse_version(skip_front(input, a)),
        Ghost(spec_version(input@.skip(a as int))),
    )?;
    let (c, target) = at_offset(
        input,
        b,
        parse_padded_target(skip_front(input, b)),
        Ghost(spec_padded_directive(input@.skip(b as int), target_keyword())),
    )?;
    let (end, address_size) = at_offset(
        input,
        c,
        parse_padded_address_size(skip_front(input, c)),
        Ghost(spec_padded_directive(input@.skip(c as int), address_size_keyword())),
    )?;
    Ok((skip_front(input, end), Preamble { version, target, address_size }))
}

/// The version directive, written out, is recognized and gives back the
/// two numerals as they were written.
pub proof fn lemma_version_text(
    blanks: Seq<char>,
    major: Seq<char>,
    minor: Seq<char>,
    rest: Seq<char>,
)
    requires
        blanks.len() > 0 && all_of(blanks, CharClass::Blank),
        major.len() > 0 && all_of(major, CharClass::Numeral),
        minor.len() > 0 && all_of(minor, CharClass::Numeral),
        rest.len() == 0 || !CharClass::Numeral.holds(rest[0]),
    ensures
        spec_version(version_keyword() + blanks + major + seq!['.'] + minor + rest) == (
        Parsed::Done {
            used: (version_keyword().len() + blanks.len() + major.len() + 1 + minor.len()) as int,
            value: VersionView { major, minor },
        }),
{
    let s = version_keyword() + blanks + major + seq!['.'] + minor + rest;
    let a = version_keyword().len() as int;
    let b = a + blanks.len();
    let dot = b + major.len();
    let end = dot + 1 + minor.len();
    assert(version_keyword().is_prefix_of(s)) by {
        assert(s.subrange(0, a) =~= version_keyword());
    }
    assert(s.skip(a) =~= blanks + (major + seq!['.'] + minor + rest));
    assert((major + seq!['.'] + minor + rest)[0] == major[0]);
    lemma_run_len_whole(blanks, major + seq!['.'] + minor + rest, CharClass::Blank);
    assert(s.skip(b) =~= major + (seq!['.'] + minor + rest));
    assert((seq!['.'] + minor + rest)[0] == '.');
    lemma_run_len_whole(major, seq!['.'] + minor + rest, CharClass::Numeral);
    assert(s[dot] == '.');
    assert(s.skip(dot + 1) =~= minor + rest);
    lemma_run_len_whole(minor, rest, CharClass::Numeral);
    assert(s.subrange(b, dot) =~= major);
    assert(s.subrange(dot + 1, end) =~= minor);
}

/// A directive with a name, written out, is recognized and gives back the
/// name as it was written.
pub proof fn lemma_directive_text(
    keyword: Seq<char>,
    blanks: Seq<char>,
    name: Seq<char>,
    rest: Seq<char>,
)
    requires
        blanks.len() > 0 && all_of(blanks, CharClass::Blank),
        name.len() > 0 && all_of(name, CharClass::Name),
        rest.len() == 0 || !CharClass::Name.holds(rest[0]),
    ensures
        spec_directive(keyword + blanks + name + rest, keyword) == (Parsed::Done {
            used: (keyword.len() + blanks.len() + name.len()) as int,
            value: name,
        }),
{
    let s = keyword + blanks + name + rest;
    let a = keyword.len() as int;
    let b = a + blanks.len();
    assert(keyword.is_prefix_of(s)) by {
        assert(s.subrange(0, a) =~= keyword);
    }
    assert(s.skip(a) =~= blanks + (name + rest));
    assert((name + rest)[0] == name[0]);
    lemma_run_len_whole(blanks, name + rest, CharClass::Blank);
    assert(s.skip(b) =~= name + rest);
    lemma_run_len_whole(name, rest, CharClass::Name);
    assert(s.subrange(b, b + name.len()) =~= name);
}

/// The version directive after padding, written out, is recognized behind
/// the padding, gives back the two numerals as they were written, and
/// leaves what follows it.
pub proof fn lemma_padded_version_text(
    pad: Seq<char>,
    blanks: Seq<char>,
    major: Seq<char>,
    minor: Seq<char>,
    rest: Seq<char>,
)
    requires
        padding(pad),
        blanks.len() > 0 && all_of(blanks, CharClass::Blank),
        major.len() > 0 && all_of(major, CharClass::Numeral),
        minor.len() > 0 && all_of(minor, CharClass::Numeral),
        rest.len() == 0 || !CharClass::Numeral.holds(rest[0]),
    ensures
        ({
            let s = pad + (version_keyword() + blanks + major + seq!['.'] + minor + rest);
            let used = (version_keyword().len() + blanks.len() + major.len() + 1
                + minor.len()) as int;
            &&& insignificant_len(s) == pad.len()
            &&& spec_version(s.skip(pad.len() as int)) == (Parsed::Done {
                used,
                value: VersionView { major, minor },
            })
            &&& s.skip(pad.len() + used) == rest
        }),
{
    let directive = version_keyword() + blanks + major + seq!['.'] + minor;
    let next = directive + rest;
    let s = pad + next;
    assert(next[0] == '.');
    lemma_padding_before(pad, next);
    lemma_version_text(blanks, major, minor, rest);
    lemma_skip_joined(directive, rest);
    vstd::seq_lib::lemma_seq_skip_of_skip(s, pad.len() as int, directive.len() as int);
}

/// A directive after padding that is not empty, written out, is recognized,
/// gives back the name as it was written, and leaves what follows it.
pub proof fn lemma_padded_directive_text(
    pad: Seq<char>,
    keyword: Seq<char>,
    blanks: Seq<char>,
    name: Seq<char>,
    rest: Seq<char>,
)
    requires
        padding(pad) && pad.len() > 0,
        keyword.len() > 0 && keyword[0] == '.',
        blanks.len() > 0 && all_of(blanks, CharClass::Blank),
        name.len() > 0 && all_of(name, CharClass::Name),
        rest.len() == 0 || !CharClass::Name.holds(rest[0]),
    ensures
        ({
            let s = pad + (keyword + blanks + name + rest);
            let used = (pad.len() + keyword.len() + blanks.len() + name.len()) as int;
            &&& spec_padded_directive(s, keyword) == (Parsed::Done { used, value: name })
            &&& s.skip(used) == rest
            &&& CharClass::Space.holds(s[0]) || s[0] == '/'
        }),
{
    let directive = keyword + blanks + name;
    let next = directive + rest;
    let s = pad + next;
    assert(next[0] == '.');
    lemma_padding_before(pad, next);
    lemma_directive_text(keyword, blanks, name, rest);
    lemma_skip_joined(directive, rest);
    vstd::seq_lib::lemma_seq_skip_of_skip(s, pad.len() as int, directive.len() as int);
}

/// The text of a preamble: the three directives, each after its padding,
/// and then `tail`.
pub open spec fn preamble_text(
    paddings: (Seq<char>, Seq<char>, Seq<char>),
    blanks: (Seq<char>, Seq<char>, Seq<char>),
    fields: PreambleView,
    tail: Seq<char>,
) -> Seq<char> {
    paddings.0 + (version_keyword() + blanks.0 + fields.version.major + seq!['.']
        + fields.version.minor + (paddings.1 + (target_keyword() + blanks.1 + fields.target + (
    paddings.2 + (address_size_keyword() + blanks.2 + fields.address_size + tail)))))
}

/// Every well-formed preamble is recognized, and its three fields come back
/// as they were written: the three directives in their order, each keyword
/// followed by blanks, the version made of two numerals, the target and the
/// address size names, any padding before the version, and padding that is
/// not empty before each of the two other directives. What follows the
/// preamble is left, provided that it does not go on with the last name.
pub proof fn lemma_preamble_text(
    paddings: (Seq<char>, Seq<char>, Seq<char>),
    blanks: (Seq<char>, Seq<char>, Seq<char>),
    fields: PreambleView,
    tail: Seq<char>,
)
    requires
        padding(paddings.0),
        padding(paddings.1) && paddings.1.len() > 0,
        padding(paddings.2) && paddings.2.len() > 0,
        blanks.0.len() > 0 && all_of(blanks.0, CharClass::Blank),
        blanks.1.len() > 0 && all_of(blanks.1, CharClass::Blank),
        blanks.2.len() > 0 && all_of(blanks.2, CharClass::Blank),
        fields.version.major.len() > 0 && all_of(fields.version.major, CharClass::Numeral),
        fields.version.minor.len() > 0 && all_of(fields.version.minor, CharClass::Numeral),
        fields.target.len() > 0 && all_of(fields.target, CharClass::Name),
        fields.address_size.len() > 0 && all_of(fields.address_size, CharClass::Name),
        tail.len() == 0 || !CharClass::Name.holds(tail[0]),
    ensures
        spec_preamble(preamble_text(paddings, blanks, fields, tail)) == (Parsed::Done {
            used: preamble_text(paddings, blanks, fields, tail).len() - tail.len(),
            value: fields,
        }),
{
    let third = paddings.2 + (address_size_keyword() + blanks.2 + fields.address_size + tail);
    let second = paddings.1 + (target_keyword() + blanks.1 + fields.target + third);
    let s = paddings.0 + (version_keyword() + blanks.0 + fields.version.major + seq!['.']
        + fields.version.minor + second);
    lemma_padded_directive_text(
        paddings.2,
        address_size_keyword(),
        blanks.2,
        fields.address_size,
        tail,
    );
    lemma_padded_directive_text(paddings.1, target_keyword(), blanks.1, fields.target, third);
    lemma_padded_version_text(
        paddings.0,
        blanks.0,
        fields.version.major,
        fields.version.minor,
        second,
    );
    let b = paddings.0.len() + spec_version(s.skip(paddings.0.len() as int))->used;
    let used = spec_padded_directive(second, target_keyword())->used;
    vstd::seq_lib::lemma_seq_skip_of_skip(s, b, used);
}

/// The preamble in its plain form, `.version M.m`, `.target T` and
/// `.address_size A` on three lines, is recognized whole and gives back the
/// four fields as they were written.
pub proof fn lemma_preamble_lines(fields: PreambleView)
    requires
        fields.version.major.len() > 0 && all_of(fields.version.major, CharClass::Numeral),
        fields.version.minor.len() > 0 && all_of(fields.version.minor, CharClass::Numeral),
        fields.target.len() > 0 && all_of(fields.target, CharClass::Name),
        fields.address_size.len() > 0 && all_of(fields.address_size, CharClass::Name),
    ensures
        ({
            let text = version_keyword() + seq![' '] + fields.version.major + seq!['.']
                + fields.version.minor + seq!['\n'] + target_keyword() + seq![' ']
                + fields.target + seq!['\n'] + address_size_keyword() + seq![' ']
                + fields.address_size;
            spec_preamble(text) == (Parsed::Done { used: text.len() as int, value: fields })
        }),
{
    let text = version_keyword() + seq![' '] + fields.version.major + seq!['.']
        + fields.version.minor + seq!['\n'] + target_keyword() + seq![' '] + fields.target
        + seq!['\n'] + address_size_keyword() + seq![' '] + fields.address_size;
    let paddings = (Seq::<char>::empty(), seq!['\n'], seq!['\n']);
    let blanks = (seq![' '], seq![' '], seq![' ']);
    lemma_space_padding(paddings.0);
    lemma_space_padding(paddings.1);
    lemma_preamble_text(paddings, blanks, fields, Seq::empty());
    assert(preamble_text(paddings, blanks, fields, Seq::empty()) =~= text);
}

} // verus!
