use vstd::prelude::*;
use crate::text::{chars_of, string_of};
use crate::ast::{views, lemma_views_push, lemma_list_views, Ast, AstModel, AssertionKind, ClassItem, GroupKind, GroupKindModel, LiteralKind, RepetitionOp};

verus! {

/// The regular-expression dialects that patterns may be written in.
#[derive(Clone, Copy, Debug, PartialEq, Eq, Structural)]
pub enum Syntax {
    /// POSIX basic.
    Basic,
    /// POSIX extended, as egrep reads it.
    Extended,
    /// Extended, with named and non-capturing groups.
    Teal,
}

/// What went wrong in a pattern.
#[derive(Clone, Copy, Debug, PartialEq, Eq, Structural)]
pub enum RegexErrorKind {
    /// A pattern, a branch or a group body was expected but nothing that can start one is there.
    MissingAtom,
    /// A quantifier follows something that cannot be repeated.
    NothingToRepeat,
    /// A backslash ends the input.
    TrailingBackslash,
    /// A `(` has no matching `)`.
    UnclosedGroup,
    /// `(?` is not followed by a group form of the dialect.
    BadGroupPrefix,
    /// A `[` has no matching `]`.
    UnclosedClass,
    /// `[]` or `[^]`.
    EmptyClass,
    /// A `{` followed by a digit does not form a bound.
    BadBound,
    /// A `|` is not followed by a branch.
    EmptyBranch,
    /// More capture groups than a `u32` can number.
    TooManyGroups,
}

pub open spec fn is_special(c: char) -> bool {
    c == '^' || c == '.' || c == '[' || c == '$' || c == '(' || c == ')' || c == '|' || c == '*'
        || c == '+' || c == '?' || c == '\\'
}

pub open spec fn is_digit(c: char) -> bool {
    '0' <= c && c <= '9'
}

pub open spec fn digit_value(c: char) -> nat {
    (c as u32 - '0' as u32) as nat
}

/// A `{` that commits to a bound: one followed by a digit.
pub open spec fn opens_bound(s: Seq<char>, p: int) -> bool {
    0 <= p && p + 1 < s.len() && s[p] == '{' && is_digit(s[p + 1])
}

/// Whether an atom can start at `p`.
pub open spec fn atom_at(s: Seq<char>, p: int, d: char) -> bool {
    &&& 0 <= p < s.len()
    &&& s[p] != d
    &&& s[p] != ')'
    &&& s[p] != '|'
    &&& s[p] != '*'
    &&& s[p] != '+'
    &&& s[p] != '?'
    &&& !opens_bound(s, p)
}

/// The kind of a literal written as a backslash followed by `c`.
pub open spec fn escape_kind(c: char) -> LiteralKind {
    if c == 'n' {
        LiteralKind::LineFeed
    } else if c == 'r' {
        LiteralKind::CarriageReturn
    } else if c == 't' {
        LiteralKind::Tab
    } else if is_special(c) || c == '{' {
        LiteralKind::Punctuation
    } else {
        LiteralKind::Verbatim
    }
}

/// The character that a backslash followed by `c` stands for.
pub open spec fn unescape(c: char) -> char {
    if c == 'n' {
        '\n'
    } else if c == 'r' {
        '\r'
    } else if c == 't' {
        '\t'
    } else {
        c
    }
}

/// The outcome of parsing one construct: the tree, where parsing stopped, and the
/// last capture index used; or where it failed, and why.
pub type Outcome<T> = Result<(T, int, u32), (int, RegexErrorKind)>;

/// The first index at or after `p` that does not hold a digit.
pub open spec fn digits_end(s: Seq<char>, p: int) -> int
    decreases s.len() - p,
{
    if 0 <= p < s.len() && is_digit(s[p]) {
        digits_end(s, p + 1)
    } else {
        p
    }
}

/// The decimal value of `s[p..e]`.
pub open spec fn number(s: Seq<char>, p: int, e: int) -> nat
    decreases e - p,
{
    if e <= p {
        0
    } else {
        10 * number(s, p, e - 1) + digit_value(s[e - 1])
    }
}

/// `{m}`, `{m,}` or `{m,n}` at `p`, where `opens_bound(s, p)`: the operator and the
/// index after the closing brace.
pub open spec fn bound(s: Seq<char>, p: int) -> Result<(RepetitionOp, int), (int, RegexErrorKind)> {
    let e1 = digits_end(s, p + 1);
    let m = number(s, p + 1, e1);
    if m > u32::MAX {
        Err((p + 1, RegexErrorKind::BadBound))
    } else if e1 < s.len() && s[e1] == ',' {
        let e2 = digits_end(s, e1 + 1);
        let n = number(s, e1 + 1, e2);
        if n > u32::MAX {
            Err((e1 + 1, RegexErrorKind::BadBound))
        } else if e2 < s.len() && s[e2] == '}' {
            if e2 == e1 + 1 {
                Ok((RepetitionOp::AtLeast(m as u32), e2 + 1))
            } else {
                Ok((RepetitionOp::Bounded(m as u32, n as u32), e2 + 1))
            }
        } else {
            Err((e2, RegexErrorKind::BadBound))
        }
    } else if e1 < s.len() && s[e1] == '}' {
        Ok((RepetitionOp::Exactly(m as u32), e1 + 1))
    } else {
        Err((e1, RegexErrorKind::BadBound))
    }
}

/// The first index at or after `p` that holds `c`, or the length.
pub open spec fn find_char(s: Seq<char>, p: int, c: char) -> int
    decreases s.len() - p,
{
    if 0 <= p < s.len() && s[p] != c {
        find_char(s, p + 1, c)
    } else {
        p
    }
}

/// Whether a range `a-z` starts at `i` inside a bracket expression.
pub open spec fn range_at(s: Seq<char>, i: int) -> bool {
    &&& 0 <= i
    &&& i + 2 < s.len()
    &&& s[i] != '-' && s[i] != ']'
    &&& s[i + 1] == '-'
    &&& s[i + 2] != '-' && s[i + 2] != ']'
}

/// The items of a bracket expression from `i`, appended to `acc`, and the index of
/// the `]` that ends them (or the length).
pub open spec fn class_items(s: Seq<char>, i: int, acc: Seq<ClassItem>) -> (Seq<ClassItem>, int)
    decreases s.len() - i,
{
    if i < 0 || i >= s.len() || s[i] == ']' {
        (acc, i)
    } else if range_at(s, i) {
        class_items(s, i + 3, acc.push(ClassItem::Range(s[i], s[i + 2])))
    } else {
        class_items(s, i + 1, acc.push(ClassItem::Literal(s[i])))
    }
}

/// A bracket expression at `p`, where `s[p] == '['`.
pub open spec fn class(s: Seq<char>, p: int) -> Result<(AstModel, int), (int, RegexErrorKind)> {
    let len = s.len();
    let negated = p + 1 < len && s[p + 1] == '^';
    let first = if negated { p + 2 } else { p + 1 };
    let (items, end) = class_items(s, first, Seq::empty());
    if end >= s.len() {
        Err((p, RegexErrorKind::UnclosedClass))
    } else if items.len() == 0 {
        Err((end, RegexErrorKind::EmptyClass))
    } else {
        Ok((AstModel::Class { negated, items }, end + 1))
    }
}

/// What follows `(` at `p`: the kind of group, where its body starts, and the last
/// capture index used.
pub open spec fn group_intro(s: Seq<char>, p: int, syn: Syntax, n: u32) -> Result<(GroupKindModel, int, u32), (int, RegexErrorKind)> {
    let len = s.len();
    if syn != Syntax::Basic && p + 1 < s.len() && s[p + 1] == '?' {
        if len - p > 2 && s[p + 2] == ':' {
            Ok((GroupKindModel::NonCapturing, p + 3, n))
        } else if syn == Syntax::Teal && len - p > 3 && s[p + 2] == 'P' && s[p + 3] == '<' {
            let k = find_char(s, p + 4, '>');
            if k >= s.len() || k == p + 4 {
                Err((p + 1, RegexErrorKind::BadGroupPrefix))
            } else if n == u32::MAX {
                Err((p, RegexErrorKind::TooManyGroups))
            } else {
                Ok((GroupKindModel::Named(s.subrange(p + 4, k), (n + 1) as u32), k + 1, (n + 1) as u32))
            }
        } else {
            Err((p + 1, RegexErrorKind::BadGroupPrefix))
        }
    } else if n == u32::MAX {
        Err((p, RegexErrorKind::TooManyGroups))
    } else {
        Ok((GroupKindModel::Indexed((n + 1) as u32), p + 1, (n + 1) as u32))
    }
}

/// A group at `p`, where `s[p] == '('`.
pub open spec fn group(s: Seq<char>, p: int, d: char, syn: Syntax, n: u32) -> Outcome<AstModel>
    decreases s.len() - p, 0int,
{
    match group_intro(s, p, syn, n) {
        Err(e) => Err(e),
        Ok((kind, b, n1)) => {
            if p < b {
                let body = if atom_at(s, b, d) {
                    alternation(s, b, d, syn, n1)
                } else {
                    Ok((AstModel::Empty, b, n1))
                };
                match body {
                    Err(e) => Err(e),
                    Ok((a, q, n2)) => if 0 <= q < s.len() && s[q] == ')' {
                        Ok((AstModel::Group { kind, body: Box::new(a) }, q + 1, n2))
                    } else {
                        Err((q, RegexErrorKind::UnclosedGroup))
                    },
                }
            } else {
                Err((p, RegexErrorKind::UnclosedGroup))
            }
        },
    }
}

/// An atom at `p`, where `atom_at(s, p, d)`.
pub open spec fn atom(s: Seq<char>, p: int, d: char, syn: Syntax, n: u32) -> Outcome<AstModel>
    decreases s.len() - p, 1int,
{
    let len = s.len();
    let c = s[p];
    if c == '(' {
        group(s, p, d, syn, n)
    } else if c == '[' {
        match class(s, p) {
            Ok((a, q)) => Ok((a, q, n)),
            Err(e) => Err(e),
        }
    } else if c == '\\' {
        if p + 1 < s.len() {
            Ok((AstModel::Literal { c: unescape(s[p + 1]), kind: escape_kind(s[p + 1]) }, p + 2, n))
        } else {
            Err((p, RegexErrorKind::TrailingBackslash))
        }
    } else if c == '.' {
        Ok((AstModel::Dot, p + 1, n))
    } else if c == '^' {
        Ok((AstModel::Assertion(AssertionKind::StartOfLine), p + 1, n))
    } else if c == '$' {
        Ok((AstModel::Assertion(AssertionKind::EndOfLine), p + 1, n))
    } else {
        Ok((AstModel::Literal { c, kind: LiteralKind::Verbatim }, p + 1, n))
    }
}

/// An atom at `p` with the quantifier that may follow it.
pub open spec fn piece(s: Seq<char>, p: int, d: char, syn: Syntax, n: u32) -> Outcome<AstModel>
    decreases s.len() - p, 2int,
{
    match atom(s, p, d, syn, n) {
        Err(e) => Err(e),
        Ok((a, q, n1)) => {
            let rep = |op: RepetitionOp| AstModel::Repetition { op, greedy: true, body: Box::new(a) };
            if 0 <= q < s.len() && s[q] == d {
                Ok((a, q, n1))
            } else if 0 <= q < s.len() && s[q] == '*' {
                Ok((rep(RepetitionOp::ZeroOrMore), q + 1, n1))
            } else if 0 <= q < s.len() && s[q] == '+' {
                Ok((rep(RepetitionOp::OneOrMore), q + 1, n1))
            } else if 0 <= q < s.len() && s[q] == '?' {
                Ok((rep(RepetitionOp::ZeroOrOne), q + 1, n1))
            } else if opens_bound(s, q) {
                match bound(s, q) {
                    Ok((op, r)) => Ok((rep(op), r, n1)),
                    Err(e) => Err(e),
                }
            } else {
                Ok((a, q, n1))
            }
        },
    }
}

/// Whether a branch may end at `p`: at the end, the delimiter, `)` or `|`.
pub open spec fn branch_stop(s: Seq<char>, p: int, d: char) -> bool {
    p >= s.len() || s[p] == d || s[p] == ')' || s[p] == '|'
}

/// Whether a pattern may end at `p`: at the end, the delimiter or `)`.
pub open spec fn pattern_stop(s: Seq<char>, p: int, d: char) -> bool {
    p >= s.len() || s[p] == d || s[p] == ')'
}

/// The pieces from `p` up to the first place where no atom starts, appended to `acc`;
/// a quantifier there has nothing to repeat.
pub open spec fn pieces(s: Seq<char>, p: int, d: char, syn: Syntax, n: u32, acc: Seq<AstModel>) -> Outcome<Seq<AstModel>>
    decreases s.len() - p, 3int,
{
    if atom_at(s, p, d) {
        match piece(s, p, d, syn, n) {
            Err(e) => Err(e),
            Ok((a, q, n1)) => if p < q <= s.len() {
                pieces(s, q, d, syn, n1, acc.push(a))
            } else {
                Err((p, RegexErrorKind::MissingAtom))
            },
        }
    } else if branch_stop(s, p, d) {
        Ok((acc, p, n))
    } else {
        Err((p, RegexErrorKind::NothingToRepeat))
    }
}

/// A branch at `p`, where `atom_at(s, p, d)`: one piece, or the concatenation of several.
pub open spec fn branch(s: Seq<char>, p: int, d: char, syn: Syntax, n: u32) -> Outcome<AstModel>
    decreases s.len() - p, 4int,
{
    match pieces(s, p, d, syn, n, Seq::empty()) {
        Err(e) => Err(e),
        Ok((ps, q, n1)) => if ps.len() == 1 {
            Ok((ps[0], q, n1))
        } else {
            Ok((AstModel::Concat(ps), q, n1))
        },
    }
}

/// The branches that follow `|` from `p` on, appended to `acc`.
pub open spec fn branches(s: Seq<char>, p: int, d: char, syn: Syntax, n: u32, acc: Seq<AstModel>) -> Outcome<Seq<AstModel>>
    decreases s.len() - p, 5int,
{
    if 0 <= p < s.len() && s[p] == '|' && d != '|' {
        if atom_at(s, p + 1, d) {
            match branch(s, p + 1, d, syn, n) {
                Err(e) => Err(e),
                Ok((b, q, n1)) => if p < q <= s.len() {
                    branches(s, q, d, syn, n1, acc.push(b))
                } else {
                    Err((p, RegexErrorKind::EmptyBranch))
                },
            }
        } else {
            Err((p + 1, RegexErrorKind::EmptyBranch))
        }
    } else {
        Ok((acc, p, n))
    }
}

/// Branches joined by `|` at `p`, where `atom_at(s, p, d)`.
pub open spec fn alternation(s: Seq<char>, p: int, d: char, syn: Syntax, n: u32) -> Outcome<AstModel>
    decreases s.len() - p, 6int,
{
    match branch(s, p, d, syn, n) {
        Err(e) => Err(e),
        Ok((b, q, n1)) => if p < q <= s.len() {
            match branches(s, q, d, syn, n1, seq![b]) {
                Err(e) => Err(e),
                Ok((bs, r, n2)) => if bs.len() == 1 {
                    Ok((b, r, n2))
                } else {
                    Ok((AstModel::Alternation(bs), r, n2))
                },
            }
        } else {
            Err((p, RegexErrorKind::MissingAtom))
        },
    }
}

/// A whole pattern at `p`, ending where the delimiter or an unmatched `)` stands.
pub open spec fn pattern(s: Seq<char>, p: int, d: char, syn: Syntax) -> Outcome<AstModel> {
    if atom_at(s, p, d) {
        alternation(s, p, d, syn, 0)
    } else {
        Err((p, RegexErrorKind::MissingAtom))
    }
}

} // verus!

verus! {

/// A parse result: the value, where parsing stopped, and the last capture index used;
/// or where it failed, and why.
pub type Parsed<T> = Result<(T, usize, u32), (usize, RegexErrorKind)>;

pub open spec fn parsed_view(r: Parsed<Ast>) -> Outcome<AstModel> {
    match r {
        Ok((a, q, m)) => Ok((a.view(), q as int, m)),
        Err((e, k)) => Err((e as int, k)),
    }
}

pub open spec fn advances<T>(r: Parsed<T>, p: int, len: int) -> bool {
    match r {
        Ok((_, q, _)) => p < q <= len,
        Err((e, _)) => e <= len,
    }
}

fn atom_starts(s: &Vec<char>, p: usize, d: char) -> (r: bool)
    ensures
        r == atom_at(s@, p as int, d),
{
    if p >= s.len() {
        return false;
    }
    let c = s[p];
    if c == d || c == ')' || c == '|' || c == '*' || c == '+' || c == '?' {
        return false;
    }
    !bound_starts(s, p)
}

fn bound_starts(s: &Vec<char>, p: usize) -> (r: bool)
    ensures
        r == opens_bound(s@, p as int),
{
    p < s.len() && p + 1 < s.len() && s[p] == '{' && digit(s[p + 1])
}

pub(crate) fn digit(c: char) -> (r: bool)
    ensures
        r == is_digit(c),
{
    '0' <= c && c <= '9'
}

fn special(c: char) -> (r: bool)
    ensures
        r == is_special(c),
{
    c == '^' || c == '.' || c == '[' || c == '$' || c == '(' || c == ')' || c == '|' || c == '*'
        || c == '+' || c == '?' || c == '\\'
}

/// Where the digits at `p` end.
pub(crate) fn skip_digits(s: &Vec<char>, p: usize) -> (r: usize)
    requires
        p <= s@.len(),
    ensures
        r as int == digits_end(s@, p as int),
        p <= r <= s@.len(),
{
    let mut i: usize = p;
    while i < s.len() && digit(s[i])
        invariant
            p <= i <= s@.len(),
            digits_end(s@, i as int) == digits_end(s@, p as int),
        decreases s@.len() - i,
    {
        i = i + 1;
    }
    i
}

/// Scans the digits at `p`: where they end, and their value if it fits a `u32`.
fn scan_number(s: &Vec<char>, p: usize) -> (r: (usize, Option<u32>))
    requires
        p <= s@.len(),
    ensures
        r.0 as int == digits_end(s@, p as int),
        p <= r.0 <= s@.len(),
        match r.1 {
            Some(v) => v as nat == number(s@, p as int, r.0 as int),
            None => number(s@, p as int, r.0 as int) > u32::MAX,
        },
{
    let mut i: usize = p;
    let mut value: u64 = 0;
    let mut over = false;
    while i < s.len() && digit(s[i])
        invariant
            p <= i <= s@.len(),
            digits_end(s@, i as int) == digits_end(s@, p as int),
            over ==> number(s@, p as int, i as int) > u32::MAX,
            !over ==> value as nat == number(s@, p as int, i as int) && value <= u32::MAX,
        decreases s@.len() - i,
    {
        let dv: u64 = (s[i] as u32 - '0' as u32) as u64;
        assert(number(s@, p as int, i + 1) == 10 * number(s@, p as int, i as int) + digit_value(s@[i as int]));
        if !over {
            let next = value * 10 + dv;
            if next > u32::MAX as u64 {
                over = true;
            } else {
                value = next;
            }
        }
        i = i + 1;
    }
    if over {
        (i, None)
    } else {
        (i, Some(value as u32))
    }
}

fn parse_bound(s: &Vec<char>, p: usize) -> (r: Result<(RepetitionOp, usize), (usize, RegexErrorKind)>)
    requires
        opens_bound(s@, p as int),
    ensures
        match r {
            Ok((op, q)) => bound(s@, p as int) == Ok::<(RepetitionOp, int), (int, RegexErrorKind)>((op, q as int)) && p < q <= s@.len(),
            Err((e, k)) => bound(s@, p as int) == Err::<(RepetitionOp, int), (int, RegexErrorKind)>((e as int, k)) && e <= s@.len(),
        },
{
    let len = s.len();
    let (e1, m) = scan_number(s, p + 1);
    let m = match m {
        None => return Err((p + 1, RegexErrorKind::BadBound)),
        Some(m) => m,
    };
    if e1 < s.len() && s[e1] == ',' {
        let (e2, n) = scan_number(s, e1 + 1);
        let n = match n {
            None => return Err((e1 + 1, RegexErrorKind::BadBound)),
            Some(n) => n,
        };
        if e2 < s.len() && s[e2] == '}' {
            if e2 == e1 + 1 {
                Ok((RepetitionOp::AtLeast(m), e2 + 1))
            } else {
                Ok((RepetitionOp::Bounded(m, n), e2 + 1))
            }
        } else {
            Err((e2, RegexErrorKind::BadBound))
        }
    } else if e1 < s.len() && s[e1] == '}' {
        Ok((RepetitionOp::Exactly(m), e1 + 1))
    } else {
        Err((e1, RegexErrorKind::BadBound))
    }
}

fn parse_class(s: &Vec<char>, p: usize) -> (r: Result<(Ast, usize), (usize, RegexErrorKind)>)
    requires
        p < s@.len(),
        s@[p as int] == '[',
    ensures
        match r {
            Ok((a, q)) => class(s@, p as int) == Ok::<(AstModel, int), (int, RegexErrorKind)>((a.view(), q as int)) && p < q <= s@.len(),
            Err((e, k)) => class(s@, p as int) == Err::<(AstModel, int), (int, RegexErrorKind)>((e as int, k)) && e <= s@.len(),
        },
{
    let len = s.len();
    let negated = p + 1 < len && s[p + 1] == '^';
    let first = if negated { p + 2 } else { p + 1 };
    let mut items: Vec<ClassItem> = Vec::new();
    let mut i: usize = first;
    while i < s.len() && s[i] != ']'
        invariant
            first <= i <= s@.len(),
            len == s@.len(),
            class_items(s@, first as int, Seq::empty()) == class_items(s@, i as int, items@),
        decreases s@.len() - i,
    {
        if len - i > 2 && s[i] != '-' && s[i] != ']' && s[i + 1] == '-' && s[i + 2] != '-' && s[i + 2] != ']' {
            items.push(ClassItem::Range(s[i], s[i + 2]));
            i = i + 3;
        } else {
            items.push(ClassItem::Literal(s[i]));
            i = i + 1;
        }
    }
    if i >= s.len() {
        Err((p, RegexErrorKind::UnclosedClass))
    } else if items.len() == 0 {
        Err((i, RegexErrorKind::EmptyClass))
    } else {
        Ok((Ast::Class { negated, items }, i + 1))
    }
}

fn parse_group_intro(s: &Vec<char>, p: usize, syn: Syntax, n: u32) -> (r: Result<(GroupKind, usize, u32), (usize, RegexErrorKind)>)
    requires
        p < s@.len(),
    ensures
        match r {
            Ok((k, b, m)) => group_intro(s@, p as int, syn, n) == Ok::<(GroupKindModel, int, u32), (int, RegexErrorKind)>((k.view(), b as int, m)) && p < b <= s@.len(),
            Err((e, k)) => group_intro(s@, p as int, syn, n) == Err::<(GroupKindModel, int, u32), (int, RegexErrorKind)>((e as int, k)) && e <= s@.len(),
        },
{
    let len = s.len();
    if syn != Syntax::Basic && p + 1 < s.len() && s[p + 1] == '?' {
        if len - p > 2 && s[p + 2] == ':' {
            Ok((GroupKind::NonCapturing, p + 3, n))
        } else if syn == Syntax::Teal && len - p > 3 && s[p + 2] == 'P' && s[p + 3] == '<' {
            let mut name: Vec<char> = Vec::new();
            let mut k: usize = p + 4;
            while k < s.len() && s[k] != '>'
                invariant
                    p + 4 <= k <= s@.len(),
                    find_char(s@, k as int, '>') == find_char(s@, p + 4, '>'),
                    name@ == s@.subrange(p + 4, k as int),
                decreases s@.len() - k,
            {
                name.push(s[k]);
                k = k + 1;
                assert(name@ =~= s@.subrange(p + 4, k as int));
            }
            if k >= s.len() || k == p + 4 {
                Err((p + 1, RegexErrorKind::BadGroupPrefix))
            } else if n == u32::MAX {
                Err((p, RegexErrorKind::TooManyGroups))
            } else {
                Ok((GroupKind::Named(string_of(&name), n + 1), k + 1, n + 1))
            }
        } else {
            Err((p + 1, RegexErrorKind::BadGroupPrefix))
        }
    } else if n == u32::MAX {
        Err((p, RegexErrorKind::TooManyGroups))
    } else {
        Ok((GroupKind::Indexed(n + 1), p + 1, n + 1))
    }
}

fn parse_group(s: &Vec<char>, p: usize, d: char, syn: Syntax, n: u32) -> (r: Parsed<Ast>)
    requires
        p < s@.len(),
        s@[p as int] == '(',
    ensures
        parsed_view(r) == group(s@, p as int, d, syn, n),
        advances(r, p as int, s@.len() as int),
    decreases s@.len() - p, 0int,
{
    let (kind, b, n1) = match parse_group_intro(s, p, syn, n) {
        Err(e) => return Err(e),
        Ok(x) => x,
    };
    let (body, q, n2) = if atom_starts(s, b, d) {
        match parse_alternation(s, b, d, syn, n1) {
            Err(e) => return Err(e),
            Ok(x) => x,
        }
    } else {
        (Ast::Empty, b, n1)
    };
    if q < s.len() && s[q] == ')' {
        Ok((grouped(kind, body), q + 1, n2))
    } else {
        Err((q, RegexErrorKind::UnclosedGroup))
    }
}

fn parse_atom(s: &Vec<char>, p: usize, d: char, syn: Syntax, n: u32) -> (r: Parsed<Ast>)
    requires
        atom_at(s@, p as int, d),
    ensures
        parsed_view(r) == atom(s@, p as int, d, syn, n),
        advances(r, p as int, s@.len() as int),
    decreases s@.len() - p, 1int,
{
    let len = s.len();
    let c = s[p];
    if c == '(' {
        parse_group(s, p, d, syn, n)
    } else if c == '[' {
        match parse_class(s, p) {
            Ok((a, q)) => Ok((a, q, n)),
            Err(e) => Err(e),
        }
    } else if c == '\\' {
        if p + 1 < len {
            let e = s[p + 1];
            let kind = if e == 'n' {
                LiteralKind::LineFeed
            } else if e == 'r' {
                LiteralKind::CarriageReturn
            } else if e == 't' {
                LiteralKind::Tab
            } else if special(e) || e == '{' {
                LiteralKind::Punctuation
            } else {
                LiteralKind::Verbatim
            };
            let lit = if e == 'n' {
                '\n'
            } else if e == 'r' {
                '\r'
            } else if e == 't' {
                '\t'
            } else {
                e
            };
            Ok((literal(lit, kind), p + 2, n))
        } else {
            Err((p, RegexErrorKind::TrailingBackslash))
        }
    } else if c == '.' {
        Ok((Ast::Dot, p + 1, n))
    } else if c == '^' {
        Ok((Ast::Assertion(AssertionKind::StartOfLine), p + 1, n))
    } else if c == '$' {
        Ok((Ast::Assertion(AssertionKind::EndOfLine), p + 1, n))
    } else {
        Ok((literal(c, LiteralKind::Verbatim), p + 1, n))
    }
}

fn grouped(kind: GroupKind, body: Ast) -> (r: Ast)
    ensures
        r.view() == (AstModel::Group { kind: kind.view(), body: Box::new(body.view()) }),
{
    Ast::Group { kind, body: Box::new(body) }
}

fn literal(c: char, kind: LiteralKind) -> (r: Ast)
    ensures
        r.view() == (AstModel::Literal { c, kind }),
{
    Ast::Literal { c, kind }
}

fn repeated(op: RepetitionOp, a: Ast) -> (r: Ast)
    ensures
        r.view() == (AstModel::Repetition { op, greedy: true, body: Box::new(a.view()) }),
{
    Ast::Repetition { op, greedy: true, body: Box::new(a) }
}

fn parse_piece(s: &Vec<char>, p: usize, d: char, syn: Syntax, n: u32) -> (r: Parsed<Ast>)
    requires
        atom_at(s@, p as int, d),
    ensures
        parsed_view(r) == piece(s@, p as int, d, syn, n),
        advances(r, p as int, s@.len() as int),
    decreases s@.len() - p, 2int,
{
    let (a, q, n1) = match parse_atom(s, p, d, syn, n) {
        Err(e) => return Err(e),
        Ok(x) => x,
    };
    if q < s.len() && s[q] == d {
        Ok((a, q, n1))
    } else if q < s.len() && s[q] == '*' {
        Ok((repeated(RepetitionOp::ZeroOrMore, a), q + 1, n1))
    } else if q < s.len() && s[q] == '+' {
        Ok((repeated(RepetitionOp::OneOrMore, a), q + 1, n1))
    } else if q < s.len() && s[q] == '?' {
        Ok((repeated(RepetitionOp::ZeroOrOne, a), q + 1, n1))
    } else if bound_starts(s, q) {
        match parse_bound(s, q) {
            Ok((op, r)) => Ok((repeated(op, a), r, n1)),
            Err(e) => Err(e),
        }
    } else {
        Ok((a, q, n1))
    }
}

fn parse_branch(s: &Vec<char>, p: usize, d: char, syn: Syntax, n: u32) -> (r: Parsed<Ast>)
    requires
        atom_at(s@, p as int, d),
    ensures
        parsed_view(r) == branch(s@, p as int, d, syn, n),
        advances(r, p as int, s@.len() as int),
    decreases s@.len() - p, 4int,
{
    let mut parts: Vec<Ast> = Vec::new();
    let mut pos: usize = p;
    let mut m: u32 = n;
    assert(views(parts@) =~= Seq::<AstModel>::empty());
    while atom_starts(s, pos, d)
        invariant
            p <= pos <= s@.len(),
            pos == p ==> parts@.len() == 0,
            pos > p ==> parts@.len() >= 1,
            pieces(s@, p as int, d, syn, n, Seq::empty()) == pieces(s@, pos as int, d, syn, m, views(parts@)),
        decreases s@.len() - pos,
    {
        match parse_piece(s, pos, d, syn, m) {
            Err(e) => return Err(e),
            Ok((a, q, m1)) => {
                proof {
                    lemma_views_push(parts@, a);
                }
                parts.push(a);
                pos = q;
                m = m1;
            },
        }
    }
    if pos < s.len() && s[pos] != d && s[pos] != ')' && s[pos] != '|' {
        return Err((pos, RegexErrorKind::NothingToRepeat));
    }
    proof {
        lemma_list_views(parts);
    }
    if parts.len() == 1 {
        let a = parts.pop().unwrap();
        Ok((a, pos, m))
    } else {
        Ok((Ast::Concat(parts), pos, m))
    }
}

fn parse_alternation(s: &Vec<char>, p: usize, d: char, syn: Syntax, n: u32) -> (r: Parsed<Ast>)
    requires
        atom_at(s@, p as int, d),
    ensures
        parsed_view(r) == alternation(s@, p as int, d, syn, n),
        advances(r, p as int, s@.len() as int),
    decreases s@.len() - p, 6int,
{
    let (b, q, n1) = match parse_branch(s, p, d, syn, n) {
        Err(e) => return Err(e),
        Ok(x) => x,
    };
    let ghost first = b.view();
    let mut bs: Vec<Ast> = Vec::new();
    proof {
        lemma_views_push(bs@, b);
        assert(views(bs@) =~= Seq::<AstModel>::empty());
    }
    bs.push(b);
    let mut pos: usize = q;
    let mut m: u32 = n1;
    while pos < s.len() && s[pos] == '|' && d != '|'
        invariant
            p < q <= pos <= s@.len(),
            bs@.len() >= 1,
            branch(s@, p as int, d, syn, n) == Outcome::<AstModel>::Ok((first, q as int, n1)),
            branches(s@, q as int, d, syn, n1, seq![first]) == branches(s@, pos as int, d, syn, m, views(bs@)),
            bs@.len() == 1 ==> views(bs@)[0] == first,
        decreases s@.len() - pos,
    {
        if !atom_starts(s, pos + 1, d) {
            return Err((pos + 1, RegexErrorKind::EmptyBranch));
        }
        match parse_branch(s, pos + 1, d, syn, m) {
            Err(e) => return Err(e),
            Ok((b2, q2, m2)) => {
                proof {
                    lemma_views_push(bs@, b2);
                }
                bs.push(b2);
                pos = q2;
                m = m2;
            },
        }
    }
    proof {
        lemma_list_views(bs);
    }
    if bs.len() == 1 {
        let b = bs.pop().unwrap();
        Ok((b, pos, m))
    } else {
        Ok((Ast::Alternation(bs), pos, m))
    }
}

} // verus!

verus! {

/// Parser settings carried by the cursor.
#[derive(Clone, Copy, Debug, PartialEq, Eq, Structural)]
pub struct ExtraState {
    /// The last capture index used by the most recent pattern.
    pub last_regex: u32,
    /// The delimiter that ends a pattern.
    pub end_char: char,
    pub syntax: Syntax,
}

/// A position in a script text.
#[derive(Debug)]
pub struct Input {
    pub text: Vec<char>,
    pub pos: usize,
    pub extra: ExtraState,
}

impl Input {
    pub open spec fn wf(&self) -> bool {
        &&& self.pos <= self.text@.len()
        &&& self.text@.len() * 4 <= isize::MAX
    }
}

/// A rejected pattern: why, and where (a byte offset, and a 1-based line and column).
#[derive(Clone, Copy, Debug, PartialEq, Eq, Structural)]
pub struct RegexError {
    pub kind: RegexErrorKind,
    pub offset: usize,
    pub line: usize,
    pub column: usize,
}

/// The number of bytes that UTF-8 takes for `c`.
pub open spec fn utf8_len(c: char) -> nat {
    if (c as u32) < 0x80 {
        1
    } else if (c as u32) < 0x800 {
        2
    } else if (c as u32) < 0x10000 {
        3
    } else {
        4
    }
}

/// The byte offset of character `i` of `s`.
pub open spec fn byte_offset(s: Seq<char>, i: int) -> nat
    decreases i,
{
    if i <= 0 {
        0
    } else {
        byte_offset(s, i - 1) + utf8_len(s[i - 1])
    }
}

/// The 1-based line on which character `i` of `s` stands.
pub open spec fn line_of(s: Seq<char>, i: int) -> nat
    decreases i,
{
    if i <= 0 {
        1
    } else if s[i - 1] == '\n' {
        line_of(s, i - 1) + 1
    } else {
        line_of(s, i - 1)
    }
}

/// The 1-based column, in characters, of character `i` of `s`.
pub open spec fn column_of(s: Seq<char>, i: int) -> nat
    decreases i,
{
    if i <= 0 {
        1
    } else if s[i - 1] == '\n' {
        1
    } else {
        column_of(s, i - 1) + 1
    }
}

pub open spec fn error_at(s: Seq<char>, i: int, kind: RegexErrorKind) -> RegexError {
    RegexError {
        kind,
        offset: byte_offset(s, i) as usize,
        line: line_of(s, i) as usize,
        column: column_of(s, i) as usize,
    }
}

fn locate(s: &Vec<char>, i: usize, kind: RegexErrorKind) -> (r: RegexError)
    requires
        i <= s@.len(),
        s@.len() * 4 <= isize::MAX,
    ensures
        r == error_at(s@, i as int, kind),
{
    let mut offset: usize = 0;
    let mut line: usize = 1;
    let mut column: usize = 1;
    let mut j: usize = 0;
    while j < i
        invariant
            j <= i <= s@.len(),
            s@.len() * 4 <= isize::MAX,
            offset == byte_offset(s@, j as int),
            offset <= 4 * j,
            line == line_of(s@, j as int),
            line <= j + 1,
            column == column_of(s@, j as int),
            column <= j + 1,
        decreases i - j,
    {
        let c = s[j];
        let w: usize = if (c as u32) < 0x80 {
            1
        } else if (c as u32) < 0x800 {
            2
        } else if (c as u32) < 0x10000 {
            3
        } else {
            4
        };
        offset = offset + w;
        if c == '\n' {
            line = line + 1;
            column = 1;
        } else {
            column = column + 1;
        }
        j = j + 1;
    }
    RegexError { kind, offset, line, column }
}

/// A cursor at the start of `s`, for patterns delimited by `/` in the Teal dialect.
pub fn new_regex_input(s: &str) -> (r: Input)
    ensures
        r.wf(),
        r.text@ == s@,
        r.pos == 0,
        r.extra == (ExtraState { last_regex: 0, end_char: '/', syntax: Syntax::Teal }),
{
    Input { text: chars_of(s), pos: 0, extra: ExtraState { last_regex: 0, end_char: '/', syntax: Syntax::Teal } }
}

/// Parses the pattern at the cursor, which ends before `end_char` or an unmatched `)`;
/// neither is consumed. Capture groups are numbered from 1 in this pattern.
pub fn parse(end_char: char, s: Input) -> (r: Result<(Input, Ast), RegexError>)
    requires
        s.wf(),
    ensures
        match pattern(s.text@, s.pos as int, end_char, s.extra.syntax) {
            Ok((a, q, m)) => r matches Ok((t, ast)) && ast@ == a && t.wf() && t.text@ == s.text@ && t.pos == q
                && t.extra == (ExtraState { last_regex: m, end_char, syntax: s.extra.syntax }),
            Err((e, k)) => r == Err::<(Input, Ast), RegexError>(error_at(s.text@, e, k)),
        },
        r matches Ok((t, _)) ==> (t.pos == t.text@.len() || t.text@[t.pos as int] == end_char || t.text@[t.pos as int] == ')'),
{
    let syntax = s.extra.syntax;
    if !atom_starts(&s.text, s.pos, end_char) {
        let e = locate(&s.text, s.pos, RegexErrorKind::MissingAtom);
        return Err(e);
    }
    proof {
        lemma_pattern_stops(s.text@, s.pos as int, end_char, syntax);
    }
    match parse_alternation(&s.text, s.pos, end_char, syntax, 0) {
        Ok((ast, q, m)) => Ok((Input { text: s.text, pos: q, extra: ExtraState { last_regex: m, end_char, syntax } }, ast)),
        Err((e, k)) => Err(locate(&s.text, e, k)),
    }
}

/// Parses the whole of `s` as a Teal pattern ended by `end_char`, or by the end of `s`.
pub fn parse_complete(end_char: char, s: &str) -> (r: Result<Ast, RegexError>)
    ensures
        match pattern(s@, 0, end_char, Syntax::Teal) {
            Ok((a, _, _)) => r matches Ok(ast) && ast@ == a,
            Err((e, k)) => r == Err::<Ast, RegexError>(error_at(s@, e, k)),
        },
{
    match parse(end_char, new_regex_input(s)) {
        Ok((_, ast)) => Ok(ast),
        Err(e) => Err(e),
    }
}

proof fn lemma_pieces_stop(s: Seq<char>, p: int, d: char, syn: Syntax, n: u32, acc: Seq<AstModel>)
    requires
        0 <= p,
    ensures
        pieces(s, p, d, syn, n, acc) matches Ok((_, q, _)) ==> branch_stop(s, q, d),
    decreases s.len() - p,
{
    if atom_at(s, p, d) {
        match piece(s, p, d, syn, n) {
            Ok((a, q, n1)) => if p < q <= s.len() {
                lemma_pieces_stop(s, q, d, syn, n1, acc.push(a));
            },
            Err(_) => {},
        }
    }
}

proof fn lemma_branches_stop(s: Seq<char>, p: int, d: char, syn: Syntax, n: u32, acc: Seq<AstModel>)
    requires
        0 <= p,
        branch_stop(s, p, d),
    ensures
        branches(s, p, d, syn, n, acc) matches Ok((_, q, _)) ==> pattern_stop(s, q, d),
    decreases s.len() - p,
{
    if 0 <= p < s.len() && s[p] == '|' && d != '|' {
        if atom_at(s, p + 1, d) {
            lemma_pieces_stop(s, p + 1, d, syn, n, Seq::empty());
            match branch(s, p + 1, d, syn, n) {
                Ok((b, q, n1)) => if p < q <= s.len() {
                    lemma_branches_stop(s, q, d, syn, n1, acc.push(b));
                },
                Err(_) => {},
            }
        }
    }
}

/// A pattern ends at the end of the text, at the delimiter, or at a `)` that it does
/// not match; neither of the last two is consumed.
pub proof fn lemma_pattern_stops(s: Seq<char>, p: int, d: char, syn: Syntax)
    requires
        0 <= p,
    ensures
        pattern(s, p, d, syn) matches Ok((_, q, _)) ==> pattern_stop(s, q, d),
{
    if atom_at(s, p, d) {
        lemma_pieces_stop(s, p, d, syn, 0, Seq::empty());
        match branch(s, p, d, syn, 0) {
            Ok((b, q, n1)) => if p < q <= s.len() {
                lemma_branches_stop(s, q, d, syn, n1, seq![b]);
            },
            Err(_) => {},
        }
    }
}

/// Parsing a single character that is neither special nor the delimiter gives a
/// literal node holding that character, and consumes it.
pub proof fn lemma_single_literal(c: char, d: char, syn: Syntax)
    requires
        !is_special(c),
        c != d,
    ensures
        pattern(seq![c], 0, d, syn) == Outcome::<AstModel>::Ok((AstModel::Literal { c, kind: LiteralKind::Verbatim }, 1, 0)),
{
    let s = seq![c];
    let lit = AstModel::Literal { c, kind: LiteralKind::Verbatim };
    assert(atom_at(s, 0, d));
    assert(atom(s, 0, d, syn, 0) == Outcome::<AstModel>::Ok((lit, 1, 0)));
    assert(piece(s, 0, d, syn, 0) == Outcome::<AstModel>::Ok((lit, 1, 0)));
    assert(!atom_at(s, 1, d));
    assert(pieces(s, 1, d, syn, 0, seq![lit]) == Outcome::<Seq<AstModel>>::Ok((seq![lit], 1, 0)));
    assert(Seq::<AstModel>::empty().push(lit) == seq![lit]);
    assert(pieces(s, 0, d, syn, 0, Seq::empty()) == Outcome::<Seq<AstModel>>::Ok((seq![lit], 1, 0)));
    assert(branch(s, 0, d, syn, 0) == Outcome::<AstModel>::Ok((lit, 1, 0)));
    assert(branches(s, 1, d, syn, 0, seq![lit]) == Outcome::<Seq<AstModel>>::Ok((seq![lit], 1, 0)));
}

} // verus!
