//! Runtime values: the tagged union the interpreter computes with. Values
//! are immutable; lists share structure freely. A function value carries
//! the defining namespace and name (for backtraces), its parameters and
//! its normalized body; a native-procedure value carries the registered
//! name the host resolves.

use vstd::prelude::*;
use crate::expr::{expr_view, Expr, ExprView, name_views};
use crate::strings::{i64_to_string, spec_i64_string};

verus! {

broadcast use vstd::std_specs::vec::group_vec_axioms, vstd::seq::group_seq_axioms;

/// A runtime value.
#[derive(Debug)]
pub enum Value {
    Nil,
    BoolV(bool),
    NumV(i64),
    StrV(String),
    KwdV(String),
    ListV(Vec<Value>),
    FnV { ns: String, def: String, params: Vec<String>, body: Box<Expr> },
    ProcV(String),
}

/// Mathematical image of a runtime value.
pub enum ValueView {
    Nil,
    BoolV(bool),
    NumV(i64),
    StrV(Seq<char>),
    KwdV(Seq<char>),
    ListV(Seq<ValueView>),
    FnV { ns: Seq<char>, def: Seq<char>, params: Seq<Seq<char>>, body: Box<ExprView> },
    ProcV(Seq<char>),
}

/// Mathematical image of a sequence of values.
pub open spec fn value_views_of(xs: Seq<Value>) -> Seq<ValueView>
    decreases xs,
{
    if xs.len() == 0 {
        Seq::empty()
    } else {
        value_views_of(xs.drop_last()).push(value_view(xs.last()))
    }
}

/// Mathematical image of one value.
pub open spec fn value_view(v: Value) -> ValueView
    decreases v,
{
    match v {
        Value::Nil => ValueView::Nil,
        Value::BoolV(b) => ValueView::BoolV(b),
        Value::NumV(n) => ValueView::NumV(n),
        Value::StrV(s) => ValueView::StrV(s@),
        Value::KwdV(s) => ValueView::KwdV(s@),
        Value::ListV(xs) => ValueView::ListV(value_views_of(xs@)),
        Value::FnV { ns, def, params, body } => ValueView::FnV {
            ns: ns@,
            def: def@,
            params: name_views(params@),
            body: Box::new(expr_view(*body)),
        },
        Value::ProcV(p) => ValueView::ProcV(p@),
    }
}

/// The image of a value sequence is the pointwise image.
pub proof fn lemma_value_views_of(xs: Seq<Value>)
    ensures
        value_views_of(xs).len() == xs.len(),
        forall|i: int| 0 <= i < xs.len() ==> value_views_of(xs)[i] == value_view(xs[i]),
    decreases xs.len(),
{
    if xs.len() > 0 {
        lemma_value_views_of(xs.drop_last());
        assert forall|i: int| 0 <= i < xs.len() implies value_views_of(xs)[i] == value_view(
            xs[i],
        ) by {
            if i < xs.len() - 1 {
                assert(xs.drop_last()[i] == xs[i]);
            }
        }
    }
}

impl View for Value {
    type V = ValueView;

    open spec fn view(&self) -> ValueView {
        value_view(*self)
    }
}

/// A value's image has the constructor the value has.
pub proof fn lemma_value_view_ctor(v: Value)
    ensures
        (value_view(v) is Nil) <==> (v is Nil),
        (value_view(v) is BoolV) <==> (v is BoolV),
        (value_view(v) is NumV) <==> (v is NumV),
        (value_view(v) is StrV) <==> (v is StrV),
        (value_view(v) is KwdV) <==> (v is KwdV),
        (value_view(v) is ListV) <==> (v is ListV),
        (value_view(v) is FnV) <==> (v is FnV),
        (value_view(v) is ProcV) <==> (v is ProcV),
{
    match v {
        Value::Nil => {},
        Value::BoolV(_) => {},
        Value::NumV(_) => {},
        Value::StrV(_) => {},
        Value::KwdV(_) => {},
        Value::ListV(_) => {},
        Value::FnV { .. } => {},
        Value::ProcV(_) => {},
    }
}

impl Clone for Value {
    fn clone(&self) -> (r: Self)
        ensures
            r@ == self@,
        decreases self,
    {
        match self {
            Value::Nil => Value::Nil,
            Value::BoolV(b) => Value::BoolV(*b),
            Value::NumV(n) => Value::NumV(*n),
            Value::StrV(s) => Value::StrV(s.clone()),
            Value::KwdV(s) => Value::KwdV(s.clone()),
            Value::ListV(xs) => {
                let mut v: Vec<Value> = Vec::new();
                let mut i: usize = 0;
                #[verifier::loop_isolation(false)]
                while i < xs.len()
                    invariant
                        i <= xs.len(),
                        v@.len() == i,
                        forall|j: int| 0 <= j < i ==> v@[j]@ == xs@[j]@,
                    decreases xs.len() - i,
                {
                    v.push(xs[i].clone());
                    i = i + 1;
                }
                let r = Value::ListV(v);
                proof {
                    lemma_value_views_of(v@);
                    lemma_value_views_of(xs@);
                    assert(value_views_of(v@) =~= value_views_of(xs@));
                }
                r
            },
            Value::FnV { ns, def, params, body } => Value::FnV {
                ns: ns.clone(),
                def: def.clone(),
                params: crate::expr::clone_names(params),
                body: Box::new((**body).clone()),
            },
            Value::ProcV(p) => Value::ProcV(p.clone()),
        }
    }
}

/// The printed text of a value.
pub open spec fn spec_turn_string(v: ValueView) -> Seq<char>
    decreases v, 0int,
{
    match v {
        ValueView::Nil => "nil"@,
        ValueView::BoolV(b) => if b {
            "true"@
        } else {
            "false"@
        },
        ValueView::NumV(n) => spec_i64_string(n as int),
        ValueView::StrV(s) => s,
        ValueView::KwdV(s) => ":"@ + s,
        ValueView::ListV(xs) => "("@ + spec_values_line_at(xs, 0) + ")"@,
        ValueView::FnV { def, .. } => "(fn "@ + def + ")"@,
        ValueView::ProcV(p) => "(proc "@ + p + ")"@,
    }
}

impl Value {
    /// Renders the value as the print procedures show it.
    pub fn turn_string(&self) -> (r: String)
        ensures
            r@ == spec_turn_string(self@),
        decreases self,
    {
        match self {
            Value::Nil => {
                let mut s = String::new();
                s.append("nil");
                s
            },
            Value::BoolV(b) => {
                let mut s = String::new();
                if *b {
                    s.append("true");
                } else {
                    s.append("false");
                }
                s
            },
            Value::NumV(n) => i64_to_string(*n),
            Value::StrV(s) => s.clone(),
            Value::KwdV(s) => {
                let mut out = String::new();
                out.append(":");
                out.append(s.as_str());
                out
            },
            Value::ListV(xs) => {
                let mut out = String::new();
                out.append("(");
                let ghost views = value_views_of(xs@);
                proof {
                    lemma_value_views_of(xs@);
                    assert(views.take(0) =~= Seq::<ValueView>::empty());
                }
                let mut i: usize = 0;
                #[verifier::loop_isolation(false)]
                while i < xs.len()
                    invariant
                        i <= xs.len(),
                        out@ == "("@ + spec_values_line(views.take(i as int)),
                    decreases xs.len() - i,
                {
                    if i > 0 {
                        out.append(" ");
                    }
                    let t = xs[i].turn_string();
                    out.append(t.as_str());
                    proof {
                        assert(views.take(i + 1).drop_last() =~= views.take(i as int));
                        assert(views.take(i + 1).last() == views[i as int]);
                        assert(out@ =~= "("@ + spec_values_line(views.take(i + 1)));
                    }
                    i = i + 1;
                }
                out.append(")");
                proof {
                    assert(views.take(views.len() as int) =~= views);
                    lemma_values_line_at(views);
                }
                out
            },
            Value::FnV { def, .. } => {
                let mut out = String::new();
                out.append("(fn ");
                out.append(def.as_str());
                out.append(")");
                out
            },
            Value::ProcV(p) => {
                let mut out = String::new();
                out.append("(proc ");
                out.append(p.as_str());
                out.append(")");
                out
            },
        }
    }
}

/// Values printed one after another, separated by single spaces, as a
/// function of the whole sequence; the form the list renderer names.
pub open spec fn spec_values_line_at(xs: Seq<ValueView>, unused: int) -> Seq<char>
    decreases xs, 1int,
{
    spec_values_line(xs)
}

proof fn lemma_values_line_at(xs: Seq<ValueView>)
    ensures
        spec_values_line_at(xs, 0) == spec_values_line(xs),
{
}

/// Values printed one after another, separated by single spaces: what the
/// print procedures emit for their argument list.
pub open spec fn spec_values_line(xs: Seq<ValueView>) -> Seq<char>
    decreases xs, 0int,
{
    if xs.len() == 0 {
        Seq::empty()
    } else if xs.len() == 1 {
        spec_turn_string(xs[0])
    } else {
        spec_values_line(xs.drop_last()) + " "@ + spec_turn_string(xs.last())
    }
}

/// Joins the printed texts of the values with single spaces, in order.
pub fn values_line(xs: &Vec<Value>) -> (r: String)
    ensures
        r@ == spec_values_line(value_views_of(xs@)),
{
    let ghost views = value_views_of(xs@);
    proof {
        lemma_value_views_of(xs@);
    }
    let mut out = String::new();
    let mut i: usize = 0;
    proof {
        assert(views.take(0) =~= Seq::<ValueView>::empty());
    }
    while i < xs.len()
        invariant
            xs@.len() == views.len(),
            forall|k: int| 0 <= k < views.len() ==> views[k] == xs@[k]@,
            i <= views.len(),
            out@ == spec_values_line(views.take(i as int)),
        decreases views.len() - i,
    {
        if i > 0 {
            out.append(" ");
        }
        let t = xs[i].turn_string();
        out.append(t.as_str());
        proof {
            assert(views.take(i + 1).drop_last() =~= views.take(i as int));
            assert(views.take(i + 1).last() == views[i as int]);
            assert(out@ =~= spec_values_line(views.take(i + 1)));
        }
        i = i + 1;
    }
    proof {
        assert(views.take(views.len() as int) =~= views);
    }
    out
}

} // verus!
