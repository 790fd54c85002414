use vstd::prelude::*;
use crate::ast::{views, Ast, AstModel, AssertionKind, ClassItem, GroupKind, GroupKindModel, RepetitionOp};
use crate::text::string_of;

verus! {

/// The characters that the pattern-matching engine gives a meaning of their own.
pub open spec fn is_meta(c: char) -> bool {
    c == '\\' || c == '.' || c == '+' || c == '*' || c == '?' || c == '(' || c == ')' || c == '|'
        || c == '[' || c == ']' || c == '{' || c == '}' || c == '^' || c == '$' || c == '#'
        || c == '&' || c == '-' || c == '~'
}

/// Relies on `regex_syntax::is_meta_character`: true exactly of the characters above.
pub assume_specification[ regex_syntax::is_meta_character ](c: char) -> (r: bool)
    ensures
        r == is_meta(c),
;

/// A character as the engine reads it literally.
pub open spec fn escaped(c: char) -> Seq<char> {
    if is_meta(c) {
        seq!['\\', c]
    } else {
        seq![c]
    }
}

pub open spec fn digit_char(d: nat) -> char {
    ((d + 48) as u8) as char
}

/// The decimal digits of `n`.
pub open spec fn decimal(n: nat) -> Seq<char>
    decreases n,
{
    if n < 10 {
        seq![digit_char(n)]
    } else {
        decimal(n / 10) + seq![digit_char(n % 10)]
    }
}

pub open spec fn item_text(item: ClassItem) -> Seq<char> {
    match item {
        ClassItem::Literal(c) => escaped(c),
        ClassItem::Range(a, b) => escaped(a) + seq!['-'] + escaped(b),
    }
}

pub open spec fn class_text(negated: bool, items: Seq<ClassItem>) -> Seq<char> {
    seq!['['] + (if negated { seq!['^'] } else { Seq::empty() }) + Seq::new(items.len(), |i: int| item_text(items[i])).flatten() + seq![']']
}

pub open spec fn group_open(kind: GroupKindModel) -> Seq<char> {
    match kind {
        GroupKindModel::Indexed(_) => seq!['('],
        GroupKindModel::Named(name, _) => seq!['(', '?', 'P', '<'] + name + seq!['>'],
        GroupKindModel::NonCapturing => seq!['(', '?', ':'],
    }
}

pub open spec fn op_text(op: RepetitionOp) -> Seq<char> {
    match op {
        RepetitionOp::ZeroOrMore => seq!['*'],
        RepetitionOp::OneOrMore => seq!['+'],
        RepetitionOp::ZeroOrOne => seq!['?'],
        RepetitionOp::Exactly(m) => seq!['{'] + decimal(m as nat) + seq!['}'],
        RepetitionOp::AtLeast(m) => seq!['{'] + decimal(m as nat) + seq![',', '}'],
        RepetitionOp::Bounded(m, n) => seq!['{'] + decimal(m as nat) + seq![','] + decimal(n as nat) + seq!['}'],
    }
}

/// The pattern text that the engine reads for `a`.
pub open spec fn rendered(a: AstModel) -> Seq<char>
    decreases a, 0int,
{
    match a {
        AstModel::Empty => Seq::empty(),
        AstModel::Literal { c, .. } => escaped(c),
        AstModel::Dot => seq!['(', '?', 's', ':', '.', ')'],
        AstModel::Assertion(AssertionKind::StartOfLine) => seq!['^'],
        AstModel::Assertion(AssertionKind::EndOfLine) => seq!['$'],
        AstModel::Class { negated, items } => class_text(negated, items),
        AstModel::Group { kind, body } => group_open(kind) + rendered(*body) + seq![')'],
        AstModel::Alternation(bs) => rendered_list(bs, 0, true),
        AstModel::Concat(ps) => rendered_list(ps, 0, false),
        AstModel::Repetition { op, greedy, body } => rendered(*body) + op_text(op) + (if greedy { Seq::empty() } else { seq!['?'] }),
    }
}

/// The texts of `ps[i..]`, one after the other; with `alt`, a `|` before each but the first of all.
pub open spec fn rendered_list(ps: Seq<AstModel>, i: int, alt: bool) -> Seq<char>
    decreases ps, ps.len() - i,
{
    if 0 <= i < ps.len() {
        (if alt && i > 0 { seq!['|'] } else { Seq::empty() }) + rendered(ps[i]) + rendered_list(ps, i + 1, alt)
    } else {
        Seq::empty()
    }
}

fn push_str(out: &mut Vec<char>, t: &[char])
    ensures
        final(out)@ == old(out)@ + t@,
{
    let mut i: usize = 0;
    while i < t.len()
        invariant
            i <= t@.len(),
            out@ == old(out)@ + t@.subrange(0, i as int),
        decreases t@.len() - i,
    {
        out.push(t[i]);
        i = i + 1;
        assert(out@ =~= old(out)@ + t@.subrange(0, i as int));
    }
    assert(t@.subrange(0, t@.len() as int) =~= t@);
}

fn push_escaped(out: &mut Vec<char>, c: char)
    ensures
        final(out)@ == old(out)@ + escaped(c),
{
    if regex_syntax::is_meta_character(c) {
        out.push('\\');
    }
    out.push(c);
    assert(out@ =~= old(out)@ + escaped(c));
}

pub(crate) fn push_decimal(out: &mut Vec<char>, n: u64)
    ensures
        final(out)@ == old(out)@ + decimal(n as nat),
    decreases n,
{
    if n >= 10 {
        push_decimal(out, n / 10);
    }
    let d = (n % 10) as u8;
    out.push((d + 48) as char);
    assert(out@ =~= old(out)@ + decimal(n as nat));
}

fn push_op(out: &mut Vec<char>, op: RepetitionOp)
    ensures
        final(out)@ == old(out)@ + op_text(op),
{
    match op {
        RepetitionOp::ZeroOrMore => out.push('*'),
        RepetitionOp::OneOrMore => out.push('+'),
        RepetitionOp::ZeroOrOne => out.push('?'),
        RepetitionOp::Exactly(m) => {
            out.push('{');
            push_decimal(out, m as u64);
            out.push('}');
        },
        RepetitionOp::AtLeast(m) => {
            out.push('{');
            push_decimal(out, m as u64);
            out.push(',');
            out.push('}');
        },
        RepetitionOp::Bounded(m, n) => {
            out.push('{');
            push_decimal(out, m as u64);
            out.push(',');
            push_decimal(out, n as u64);
            out.push('}');
        },
    }
    assert(out@ =~= old(out)@ + op_text(op));
}

fn push_class(out: &mut Vec<char>, negated: bool, items: &Vec<ClassItem>)
    ensures
        final(out)@ == old(out)@ + class_text(negated, items@),
{
    out.push('[');
    if negated {
        out.push('^');
    }
    let ghost start = out@;
    let ghost texts = Seq::new(items@.len(), |i: int| item_text(items@[i]));
    let mut i: usize = 0;
    while i < items.len()
        invariant
            i <= items@.len(),
            texts == Seq::new(items@.len(), |i: int| item_text(items@[i])),
            out@ == start + texts.take(i as int).flatten(),
        decreases items@.len() - i,
    {
        match items[i] {
            ClassItem::Literal(c) => push_escaped(out, c),
            ClassItem::Range(a, b) => {
                push_escaped(out, a);
                out.push('-');
                push_escaped(out, b);
            },
        }
        proof {
            assert(texts.take(i + 1) =~= texts.take(i as int).push(texts[i as int]));
            texts.take(i as int).lemma_flatten_push(texts[i as int]);
        }
        i = i + 1;
    }
    out.push(']');
    assert(texts.take(items@.len() as int) =~= texts);
    assert(out@ =~= old(out)@ + class_text(negated, items@));
}

fn push_group_open(out: &mut Vec<char>, kind: &GroupKind)
    ensures
        final(out)@ == old(out)@ + group_open(kind.view()),
{
    match kind {
        GroupKind::Indexed(_) => out.push('('),
        GroupKind::Named(name, _) => {
            out.push('(');
            out.push('?');
            out.push('P');
            out.push('<');
            let chars = crate::text::chars_of(name.as_str());
            push_str(out, chars.as_slice());
            out.push('>');
        },
        GroupKind::NonCapturing => {
            out.push('(');
            out.push('?');
            out.push(':');
        },
    }
    assert(out@ =~= old(out)@ + group_open(kind.view()));
}

/// Appends the rendering of `a` to `out`.
fn push_ast(out: &mut Vec<char>, a: &Ast)
    ensures
        final(out)@ == old(out)@ + rendered(a.view()),
    decreases a,
{
    broadcast use vstd::std_specs::vec::group_vec_axioms;
    match a {
        Ast::Empty => {},
        Ast::Literal { c, .. } => push_escaped(out, *c),
        Ast::Dot => {
            out.push('(');
            out.push('?');
            out.push('s');
            out.push(':');
            out.push('.');
            out.push(')');
        },
        Ast::Assertion(AssertionKind::StartOfLine) => out.push('^'),
        Ast::Assertion(AssertionKind::EndOfLine) => out.push('$'),
        Ast::Class { negated, items } => push_class(out, *negated, items),
        Ast::Group { kind, body } => {
            push_group_open(out, kind);
            push_ast(out, body);
            out.push(')');
        },
        Ast::Alternation(v) | Ast::Concat(v) => {
            let alt = match a {
                Ast::Alternation(_) => true,
                _ => false,
            };
            proof {
                crate::ast::lemma_list_views(*v);
            }
            let ghost w = views(v@);
            let ghost start = out@;
            let mut i: usize = 0;
            while i < v.len()
                invariant
                    i <= v@.len(),
                    w == views(v@),
                    alt ==> *a == Ast::Alternation(*v),
                    !alt ==> *a == Ast::Concat(*v),
                    start + rendered_list(w, 0, alt) == out@ + rendered_list(w, i as int, alt),
                decreases v@.len() - i,
            {
                let ghost before = out@;
                if alt && i > 0 {
                    out.push('|');
                }
                proof {
                    if alt {
                        assert(decreases_to!(*a => a->Alternation_0));
                    } else {
                        assert(decreases_to!(*a => a->Concat_0));
                    }
                    assert(decreases_to!(*v => v@));
                    assert(decreases_to!(v@ => v@[i as int]));
                }
                push_ast(out, &v[i]);
                proof {
                    let sep: Seq<char> = if alt && i > 0 { seq!['|'] } else { Seq::empty() };
                    assert(out@ =~= before + sep + rendered(w[i as int]));
                    assert(rendered_list(w, i as int, alt) =~= sep + rendered(w[i as int]) + rendered_list(w, i + 1, alt));
                    assert(before + rendered_list(w, i as int, alt) =~= out@ + rendered_list(w, i + 1, alt));
                }
                i = i + 1;
            }
            assert(out@ =~= start + rendered_list(w, 0, alt));
        },
        Ast::Repetition { op, greedy, body } => {
            push_ast(out, body);
            push_op(out, *op);
            if !*greedy {
                out.push('?');
            }
        },
    }
    assert(out@ =~= old(out)@ + rendered(a.view()));
}

/// The pattern text that the engine reads for `ast`.
pub fn render(ast: &Ast) -> (r: String)
    ensures
        r@ == rendered(ast.view()),
{
    let mut out: Vec<char> = Vec::new();
    push_ast(&mut out, ast);
    assert(out@ =~= rendered(ast.view()));
    string_of(&out)
}

} // verus!
