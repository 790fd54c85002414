use vstd::prelude::*;

verus! {

/// How a literal character was written in the pattern.
#[derive(Clone, Copy, Debug, PartialEq, Eq, Structural)]
pub enum LiteralKind {
    /// The character stands for itself.
    Verbatim,
    /// A special character made ordinary by a backslash.
    Punctuation,
    /// `\n`
    LineFeed,
    /// `\r`
    CarriageReturn,
    /// `\t`
    Tab,
}

#[derive(Clone, Copy, Debug, PartialEq, Eq, Structural)]
pub enum AssertionKind {
    StartOfLine,
    EndOfLine,
}

/// One member of a bracket expression.
#[derive(Clone, Copy, Debug, PartialEq, Eq, Structural)]
pub enum ClassItem {
    Literal(char),
    Range(char, char),
}

#[derive(Clone, Copy, Debug, PartialEq, Eq, Structural)]
pub enum RepetitionOp {
    ZeroOrMore,
    OneOrMore,
    ZeroOrOne,
    /// `{m}`
    Exactly(u32),
    /// `{m,}`
    AtLeast(u32),
    /// `{m,n}`
    Bounded(u32, u32),
}

#[derive(Clone, Debug, PartialEq, Eq)]
pub enum GroupKind {
    /// A capturing group with its index.
    Indexed(u32),
    /// A named capturing group with its index.
    Named(String, u32),
    NonCapturing,
}

/// The structure of a regular expression, shared by every dialect.
#[derive(Debug, PartialEq, Eq)]
pub enum Ast {
    Empty,
    Literal { c: char, kind: LiteralKind },
    Dot,
    Assertion(AssertionKind),
    Class { negated: bool, items: Vec<ClassItem> },
    Group { kind: GroupKind, body: Box<Ast> },
    Alternation(Vec<Ast>),
    Concat(Vec<Ast>),
    Repetition { op: RepetitionOp, greedy: bool, body: Box<Ast> },
}

/// Mathematical counterpart of `GroupKind`.
pub enum GroupKindModel {
    Indexed(u32),
    Named(Seq<char>, u32),
    NonCapturing,
}

/// Mathematical counterpart of `Ast`.
pub enum AstModel {
    Empty,
    Literal { c: char, kind: LiteralKind },
    Dot,
    Assertion(AssertionKind),
    Class { negated: bool, items: Seq<ClassItem> },
    Group { kind: GroupKindModel, body: Box<AstModel> },
    Alternation(Seq<AstModel>),
    Concat(Seq<AstModel>),
    Repetition { op: RepetitionOp, greedy: bool, body: Box<AstModel> },
}

impl GroupKind {
    pub open spec fn view(&self) -> GroupKindModel {
        match self {
            GroupKind::Indexed(n) => GroupKindModel::Indexed(*n),
            GroupKind::Named(s, n) => GroupKindModel::Named(s@, *n),
            GroupKind::NonCapturing => GroupKindModel::NonCapturing,
        }
    }
}

/// The models of a list of trees.
pub open spec fn views(v: Seq<Ast>) -> Seq<AstModel> {
    Seq::new(v.len(), |i: int| v[i].view())
}

pub proof fn lemma_views_push(v: Seq<Ast>, a: Ast)
    ensures
        views(v.push(a)) == views(v).push(a.view()),
{
    assert(views(v.push(a)) =~= views(v).push(a.view()));
}

pub proof fn lemma_list_views(v: Vec<Ast>)
    ensures
        Ast::Concat(v).view() == AstModel::Concat(views(v@)),
        Ast::Alternation(v).view() == AstModel::Alternation(views(v@)),
{
    let c = Ast::Concat(v).view();
    let a = Ast::Alternation(v).view();
    assert(c->Concat_0 =~= views(v@));
    assert(a->Alternation_0 =~= views(v@));
}

impl Ast {
    pub open spec fn view(&self) -> AstModel
        decreases self,
    {
        match self {
            Ast::Empty => AstModel::Empty,
            Ast::Literal { c, kind } => AstModel::Literal { c: *c, kind: *kind },
            Ast::Dot => AstModel::Dot,
            Ast::Assertion(k) => AstModel::Assertion(*k),
            Ast::Class { negated, items } => AstModel::Class { negated: *negated, items: items@ },
            Ast::Group { kind, body } => AstModel::Group { kind: kind.view(), body: Box::new(body.view()) },
            Ast::Alternation(v) => AstModel::Alternation(Seq::new(v.len() as nat, |i: int| if 0 <= i < v.len() { v[i].view() } else { AstModel::Empty })),
            Ast::Concat(v) => AstModel::Concat(Seq::new(v.len() as nat, |i: int| if 0 <= i < v.len() { v[i].view() } else { AstModel::Empty })),
            Ast::Repetition { op, greedy, body } => AstModel::Repetition { op: *op, greedy: *greedy, body: Box::new(body.view()) },
        }
    }
}

} // verus!
