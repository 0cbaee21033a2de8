//! Normalized expressions: the canonical intermediate form produced by
//! preprocessing and consumed by both backends. Symbols are resolved into
//! locals, definition references or native-procedure references; an
//! unresolved symbol is kept, marked, so a pass can finish and surface
//! every problem at once.

use vstd::prelude::*;

verus! {

broadcast use vstd::std_specs::vec::group_vec_axioms, vstd::seq::group_seq_axioms;

/// A normalized expression.
#[derive(Debug)]
pub enum Expr {
    Nil,
    BoolLit(bool),
    NumLit(i64),
    StrLit(String),
    KwdLit(String),
    Local(String),
    DefRef(String, String),
    ProcRef(String),
    Unresolved(String),
    Call(Vec<Expr>),
    CondIf(Box<Expr>, Box<Expr>, Box<Expr>),
    Defn { name: String, params: Vec<String>, body: Box<Expr> },
}

/// Mathematical image of a normalized expression.
pub enum ExprView {
    Nil,
    BoolLit(bool),
    NumLit(i64),
    StrLit(Seq<char>),
    KwdLit(Seq<char>),
    Local(Seq<char>),
    DefRef(Seq<char>, Seq<char>),
    ProcRef(Seq<char>),
    Unresolved(Seq<char>),
    Call(Seq<ExprView>),
    CondIf(Box<ExprView>, Box<ExprView>, Box<ExprView>),
    Defn { name: Seq<char>, params: Seq<Seq<char>>, body: Box<ExprView> },
}

/// The images of a name list.
pub open spec fn name_views(xs: Seq<String>) -> Seq<Seq<char>> {
    Seq::new(xs.len(), |i: int| xs[i]@)
}

/// Mathematical image of a sequence of expressions.
pub open spec fn expr_views_of(xs: Seq<Expr>) -> Seq<ExprView>
    decreases xs,
{
    if xs.len() == 0 {
        Seq::empty()
    } else {
        expr_views_of(xs.drop_last()).push(expr_view(xs.last()))
    }
}

/// Mathematical image of one expression.
pub open spec fn expr_view(e: Expr) -> ExprView
    decreases e,
{
    match e {
        Expr::Nil => ExprView::Nil,
        Expr::BoolLit(b) => ExprView::BoolLit(b),
        Expr::NumLit(n) => ExprView::NumLit(n),
        Expr::StrLit(s) => ExprView::StrLit(s@),
        Expr::KwdLit(s) => ExprView::KwdLit(s@),
        Expr::Local(s) => ExprView::Local(s@),
        Expr::DefRef(ns, d) => ExprView::DefRef(ns@, d@),
        Expr::ProcRef(p) => ExprView::ProcRef(p@),
        Expr::Unresolved(s) => ExprView::Unresolved(s@),
        Expr::Call(xs) => ExprView::Call(expr_views_of(xs@)),
        Expr::CondIf(c, t, f) => ExprView::CondIf(
            Box::new(expr_view(*c)),
            Box::new(expr_view(*t)),
            Box::new(expr_view(*f)),
        ),
        Expr::Defn { name, params, body } => ExprView::Defn {
            name: name@,
            params: name_views(params@),
            body: Box::new(expr_view(*body)),
        },
    }
}

/// The image of an expression sequence is the pointwise image.
pub proof fn lemma_expr_views_of(xs: Seq<Expr>)
    ensures
        expr_views_of(xs).len() == xs.len(),
        forall|i: int| 0 <= i < xs.len() ==> expr_views_of(xs)[i] == expr_view(xs[i]),
    decreases xs.len(),
{
    if xs.len() > 0 {
        lemma_expr_views_of(xs.drop_last());
        assert forall|i: int| 0 <= i < xs.len() implies expr_views_of(xs)[i] == expr_view(
            xs[i],
        ) by {
            if i < xs.len() - 1 {
                assert(xs.drop_last()[i] == xs[i]);
            }
        }
    }
}

impl View for Expr {
    type V = ExprView;

    open spec fn view(&self) -> ExprView {
        expr_view(*self)
    }
}

/// An expression's image is a definition form exactly when the
/// expression is one.
pub proof fn lemma_expr_view_defn(e: Expr)
    ensures
        (expr_view(e) is Defn) <==> (e is Defn),
{
    match e {
        Expr::Nil => {},
        Expr::BoolLit(_) => {},
        Expr::NumLit(_) => {},
        Expr::StrLit(_) => {},
        Expr::KwdLit(_) => {},
        Expr::Local(_) => {},
        Expr::DefRef(_, _) => {},
        Expr::ProcRef(_) => {},
        Expr::Unresolved(_) => {},
        Expr::Call(_) => {},
        Expr::CondIf(_, _, _) => {},
        Expr::Defn { .. } => {},
    }
}

/// Clones a name list.
pub fn clone_names(xs: &Vec<String>) -> (r: Vec<String>)
    ensures
        name_views(r@) == name_views(xs@),
        r@.len() == xs@.len(),
{
    let mut r: Vec<String> = Vec::new();
    let mut i: usize = 0;
    while i < xs.len()
        invariant
            i <= xs.len(),
            r@.len() == i,
            forall|j: int| 0 <= j < i ==> r@[j]@ == xs@[j]@,
        decreases xs.len() - i,
    {
        r.push(xs[i].clone());
        i = i + 1;
    }
    proof {
        assert(name_views(r@) =~= name_views(xs@));
    }
    r
}

impl Clone for Expr {
    fn clone(&self) -> (r: Self)
        ensures
            r@ == self@,
        decreases self,
    {
        match self {
            Expr::Nil => Expr::Nil,
            Expr::BoolLit(b) => Expr::BoolLit(*b),
            Expr::NumLit(n) => Expr::NumLit(*n),
            Expr::StrLit(s) => Expr::StrLit(s.clone()),
            Expr::KwdLit(s) => Expr::KwdLit(s.clone()),
            Expr::Local(s) => Expr::Local(s.clone()),
            Expr::DefRef(ns, d) => Expr::DefRef(ns.clone(), d.clone()),
            Expr::ProcRef(p) => Expr::ProcRef(p.clone()),
            Expr::Unresolved(s) => Expr::Unresolved(s.clone()),
            Expr::Call(xs) => {
                let mut v: Vec<Expr> = Vec::new();
                let mut i: usize = 0;
                #[verifier::loop_isolation(false)]
                while i < xs.len()
                    invariant
                        i <= xs.len(),
                        v@.len() == i,
                        forall|j: int| 0 <= j < i ==> v@[j]@ == xs@[j]@,
                    decreases xs.len() - i,
                {
                    v.push(xs[i].clone());
                    i = i + 1;
                }
                let r = Expr::Call(v);
                proof {
                    lemma_expr_views_of(v@);
                    lemma_expr_views_of(xs@);
                    assert(expr_views_of(v@) =~= expr_views_of(xs@));
                }
                r
            },
            Expr::CondIf(c, t, f) => Expr::CondIf(
                Box::new((**c).clone()),
                Box::new((**t).clone()),
                Box::new((**f).clone()),
            ),
            Expr::Defn { name, params, body } => Expr::Defn {
                name: name.clone(),
                params: clone_names(params),
                body: Box::new((**body).clone()),
            },
        }
    }
}

} // verus!
