use vstd::prelude::*;
use crate::ast::{lemma_list_views, views, Ast, AstModel, GroupKind};
use crate::commands::{Address, AddressModel, Function, FunctionModel};

verus! {

/// Comparison of values by their structure alone, leaving out compiled patterns.
pub trait Equivalent {
    spec fn same_shape(&self, other: &Self) -> bool;

    fn equivalent(&self, other: &Self) -> (r: bool)
        ensures
            r == self.same_shape(other);
}

fn group_kind_equivalent(a: &GroupKind, b: &GroupKind) -> (r: bool)
    ensures
        r == (a.view() == b.view()),
{
    match (a, b) {
        (GroupKind::Indexed(m), GroupKind::Indexed(n)) => *m == *n,
        (GroupKind::Named(s, m), GroupKind::Named(t, n)) => *m == *n && *s == *t,
        (GroupKind::NonCapturing, GroupKind::NonCapturing) => true,
        _ => false,
    }
}

fn ast_equivalent(a: &Ast, b: &Ast) -> (r: bool)
    ensures
        r == (a.view() == b.view()),
    decreases a,
{
    match (a, b) {
        (Ast::Empty, Ast::Empty) => true,
        (Ast::Literal { c, kind }, Ast::Literal { c: d, kind: k }) => *c == *d && *kind == *k,
        (Ast::Dot, Ast::Dot) => true,
        (Ast::Assertion(x), Ast::Assertion(y)) => *x == *y,
        (Ast::Class { negated: n1, items: i1 }, Ast::Class { negated: n2, items: i2 }) => {
            if *n1 != *n2 || i1.len() != i2.len() {
                return false;
            }
            let mut j: usize = 0;
            while j < i1.len()
                invariant
                    j <= i1@.len() == i2@.len(),
                    a.view() == (AstModel::Class { negated: *n1, items: i1@ }),
                    b.view() == (AstModel::Class { negated: *n2, items: i2@ }),
                    forall|k: int| 0 <= k < j ==> i1@[k] == i2@[k],
                decreases i1@.len() - j,
            {
                if i1[j] != i2[j] {
                    assert(i1@[j as int] != i2@[j as int]);
                    return false;
                }
                j = j + 1;
            }
            assert(i1@ =~= i2@);
            true
        },
        (Ast::Group { kind: k1, body: b1 }, Ast::Group { kind: k2, body: b2 }) => {
            group_kind_equivalent(k1, k2) && ast_equivalent(b1, b2)
        },
        (Ast::Repetition { op: o1, greedy: g1, body: b1 }, Ast::Repetition { op: o2, greedy: g2, body: b2 }) => {
            *o1 == *o2 && *g1 == *g2 && ast_equivalent(b1, b2)
        },
        (Ast::Alternation(v1), Ast::Alternation(v2)) | (Ast::Concat(v1), Ast::Concat(v2)) => {
            let alt = match a {
                Ast::Alternation(_) => true,
                _ => false,
            };
            proof {
                lemma_list_views(*v1);
                lemma_list_views(*v2);
            }
            if v1.len() != v2.len() {
                assert(views(v1@).len() != views(v2@).len());
                return false;
            }
            let mut j: usize = 0;
            while j < v1.len()
                invariant
                    j <= v1@.len() == v2@.len(),
                    alt ==> *a == Ast::Alternation(*v1) && *b == Ast::Alternation(*v2),
                    !alt ==> *a == Ast::Concat(*v1) && *b == Ast::Concat(*v2),
                    forall|k: int| 0 <= k < j ==> v1@[k].view() == v2@[k].view(),
                decreases v1@.len() - j,
            {
                proof {
                    if alt {
                        assert(decreases_to!(*a => a->Alternation_0));
                    } else {
                        assert(decreases_to!(*a => a->Concat_0));
                    }
                    assert(decreases_to!(*v1 => v1@));
                    assert(decreases_to!(v1@ => v1@[j as int]));
                }
                if !ast_equivalent(&v1[j], &v2[j]) {
                    proof {
                        lemma_list_views(*v1);
                        lemma_list_views(*v2);
                        assert(views(v1@)[j as int] != views(v2@)[j as int]);
                    }
                    return false;
                }
                j = j + 1;
            }
            assert(views(v1@) =~= views(v2@));
            true
        },
        _ => false,
    }
}

impl Equivalent for Ast {
    open spec fn same_shape(&self, other: &Self) -> bool {
        self.view() == other.view()
    }

    fn equivalent(&self, other: &Self) -> (r: bool) {
        ast_equivalent(self, other)
    }
}

impl Equivalent for Address {
    /// Line numbers compare by value; any two context patterns compare equal.
    open spec fn same_shape(&self, other: &Self) -> bool {
        match (self.view(), other.view()) {
            (AddressModel::LineNumber(n), AddressModel::LineNumber(m)) => n == m,
            (AddressModel::Context(_), AddressModel::Context(_)) => true,
            _ => false,
        }
    }

    fn equivalent(&self, other: &Self) -> (r: bool) {
        match (self, other) {
            (Address::LineNumber(n), Address::LineNumber(m)) => *n == *m,
            (Address::Context(_), Address::Context(_)) => true,
            _ => false,
        }
    }
}

impl Equivalent for Function {
    /// The same function, with the same text or replacement; patterns are left out.
    open spec fn same_shape(&self, other: &Self) -> bool {
        match (self.view(), other.view()) {
            (FunctionModel::Insert(s), FunctionModel::Insert(t)) => s == t,
            (FunctionModel::Substitute(_, s), FunctionModel::Substitute(_, t)) => s == t,
            (FunctionModel::Insert(_), _) | (FunctionModel::Substitute(_, _), _) => false,
            (f, g) => f == g,
        }
    }

    fn equivalent(&self, other: &Self) -> (r: bool) {
        match (self, other) {
            (Function::PrintLineNumber, Function::PrintLineNumber) => true,
            (Function::Delete, Function::Delete) => true,
            (Function::DeleteFirstLine, Function::DeleteFirstLine) => true,
            (Function::CopyHoldToPattern, Function::CopyHoldToPattern) => true,
            (Function::AppendHoldToPattern, Function::AppendHoldToPattern) => true,
            (Function::CopyPatternToHold, Function::CopyPatternToHold) => true,
            (Function::AppendPatternToHold, Function::AppendPatternToHold) => true,
            (Function::Insert(s), Function::Insert(t)) => *s == *t,
            (Function::Print, Function::Print) => true,
            (Function::Substitute(_, s), Function::Substitute(_, t)) => *s == *t,
            (Function::Exchange, Function::Exchange) => true,
            _ => false,
        }
    }
}

} // verus!
