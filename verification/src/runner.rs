//! The interpreter backend: tree-walks a normalized expression against the
//! program store. Nested definition references are resolved by looking the
//! definition up and normalizing it at call time; native procedures apply
//! directly; function values bind their parameters into a fresh scope. A
//! runtime error carries the call stack captured at the failure point and
//! unwinds to the top without local recovery. Print effects are collected
//! as output lines, in evaluation order, for the host to emit.

use vstd::prelude::*;
use crate::diagnostics::{FailureView, LocatedFailure};
use crate::expr::{Expr, ExprView};
use crate::preprocess::{
    expand_gas, fail_at, frame_of, lemma_seq_assoc, preprocess_ns_def, spec_pp_def, PpStep,
    StoreView,
};
use crate::stack::{CalcitFrame, CallStackList, FrameView};
use crate::store::ProgramStore;
use crate::table::NameTable;
use crate::value::{spec_values_line, value_views_of, values_line, Value, ValueView};

verus! {

broadcast use vstd::std_specs::vec::group_vec_axioms, vstd::seq::group_seq_axioms;

/// The call-depth bound of one run.
pub open spec fn eval_fuel() -> nat {
    1024
}

/// The images of collected output lines.
pub open spec fn out_views(xs: Seq<String>) -> Seq<Seq<char>> {
    Seq::new(xs.len(), |i: int| xs[i]@)
}

/// What one evaluation yields: a value or a located failure.
pub enum EvalOut {
    Val(ValueView),
    Fail(FailureView),
}

/// What an argument list yields: the values in order, or a failure.
pub enum ArgsOut {
    Vals(Seq<ValueView>, Seq<Seq<char>>),
    ArgsFail(FailureView, Seq<Seq<char>>),
}

/// The scope binding parameters to arguments, in order; a repeated
/// parameter name keeps its last binding.
pub open spec fn bind_params(params: Seq<Seq<char>>, args: Seq<ValueView>) -> Map<
    Seq<char>,
    ValueView,
>
    decreases params.len(),
{
    if params.len() == 0 || args.len() == 0 {
        Map::empty()
    } else {
        bind_params(params.drop_last(), args.drop_last()).insert(params.last(), args.last())
    }
}

/// Truthiness of a condition: only `false` and nil pick the else branch.
pub open spec fn falsy(v: ValueView) -> bool {
    v == ValueView::BoolV(false) || v == ValueView::Nil
}

/// Applying a native procedure to evaluated arguments.
pub open spec fn spec_apply_proc(p: Seq<char>, args: Seq<ValueView>, stack: Seq<FrameView>) -> (
    EvalOut,
    Seq<Seq<char>>,
) {
    if p == "println"@ || p == "echo"@ || p == "eprintln"@ {
        (EvalOut::Val(ValueView::Nil), seq![spec_values_line(args)])
    } else if p == "raise"@ {
        (EvalOut::Fail(fail_at(spec_values_line(args), stack, Option::None)), Seq::empty())
    } else if p == "&list"@ {
        (EvalOut::Val(ValueView::ListV(args)), Seq::empty())
    } else if p == "&+"@ || p == "&-"@ || p == "&*"@ || p == "&/"@ || p == "&<"@ {
        if args.len() == 2 && args[0] is NumV && args[1] is NumV {
            let a = args[0]->NumV_0;
            let b = args[1]->NumV_0;
            if p == "&<"@ {
                (EvalOut::Val(ValueView::BoolV(a < b)), Seq::empty())
            } else if p == "&/"@ {
                if b == 0 {
                    (
                        EvalOut::Fail(fail_at("division by zero"@, stack, Option::None)),
                        Seq::empty(),
                    )
                } else {
                    match a.checked_div(b) {
                        Option::Some(q) => (EvalOut::Val(ValueView::NumV(q)), Seq::empty()),
                        Option::None => (
                            EvalOut::Fail(fail_at("integer overflow"@, stack, Option::None)),
                            Seq::empty(),
                        ),
                    }
                }
            } else {
                let sum = if p == "&+"@ {
                    a.checked_add(b)
                } else if p == "&-"@ {
                    a.checked_sub(b)
                } else {
                    a.checked_mul(b)
                };
                match sum {
                    Option::Some(n) => (EvalOut::Val(ValueView::NumV(n)), Seq::empty()),
                    Option::None => (
                        EvalOut::Fail(fail_at("integer overflow"@, stack, Option::None)),
                        Seq::empty(),
                    ),
                }
            }
        } else {
            (
                EvalOut::Fail(fail_at(p + " expects two numbers"@, stack, Option::None)),
                Seq::empty(),
            )
        }
    } else {
        (
            EvalOut::Fail(fail_at("unknown native procedure: "@ + p, stack, Option::None)),
            Seq::empty(),
        )
    }
}

/// Evaluation of one expression.
pub open spec fn spec_eval(
    store: StoreView,
    e: ExprView,
    scope: Map<Seq<char>, ValueView>,
    stack: Seq<FrameView>,
    fuel: nat,
) -> (EvalOut, Seq<Seq<char>>)
    decreases fuel, e, 1int, 0int,
{
    match e {
        ExprView::Nil => (EvalOut::Val(ValueView::Nil), Seq::empty()),
        ExprView::BoolLit(b) => (EvalOut::Val(ValueView::BoolV(b)), Seq::empty()),
        ExprView::NumLit(n) => (EvalOut::Val(ValueView::NumV(n)), Seq::empty()),
        ExprView::StrLit(s) => (EvalOut::Val(ValueView::StrV(s)), Seq::empty()),
        ExprView::KwdLit(s) => (EvalOut::Val(ValueView::KwdV(s)), Seq::empty()),
        ExprView::Local(s) => if scope.contains_key(s) {
            (EvalOut::Val(scope[s]), Seq::empty())
        } else {
            (EvalOut::Fail(fail_at("unbound local: "@ + s, stack, Option::None)), Seq::empty())
        },
        ExprView::ProcRef(p) => (EvalOut::Val(ValueView::ProcV(p)), Seq::empty()),
        ExprView::Unresolved(s) => (
            EvalOut::Fail(
                fail_at("cannot evaluate unresolved symbol: "@ + s, stack, Option::None),
            ),
            Seq::empty(),
        ),
        ExprView::DefRef(ns, d) => match spec_pp_def(store, ns, d, stack, expand_gas()) {
            PpStep::Failed(f, _) => (EvalOut::Fail(f), Seq::empty()),
            PpStep::Done(de, _) => match de {
                ExprView::Defn { name, params, body } => (
                    EvalOut::Val(ValueView::FnV { ns, def: d, params, body }),
                    Seq::empty(),
                ),
                _ => {
                    if fuel == 0 {
                        (
                            EvalOut::Fail(fail_at("call depth exceeded"@, stack, Option::None)),
                            Seq::empty(),
                        )
                    } else {
                        spec_eval(store, de, Map::empty(), stack, (fuel - 1) as nat)
                    }
                },
            },
        },
        ExprView::CondIf(c, t, f) => {
            let cond = spec_eval(store, *c, scope, stack, fuel);
            match cond.0 {
                EvalOut::Fail(fv) => (EvalOut::Fail(fv), cond.1),
                EvalOut::Val(cv) => {
                    let branch = if falsy(cv) {
                        spec_eval(store, *f, scope, stack, fuel)
                    } else {
                        spec_eval(store, *t, scope, stack, fuel)
                    };
                    (branch.0, cond.1 + branch.1)
                },
            }
        },
        ExprView::Call(xs) => {
            if xs.len() == 0 {
                (
                    EvalOut::Fail(fail_at("cannot call an empty form"@, stack, Option::None)),
                    Seq::empty(),
                )
            } else {
                let head = spec_eval(store, xs[0], scope, stack, fuel);
                match head.0 {
                    EvalOut::Fail(fv) => (EvalOut::Fail(fv), head.1),
                    EvalOut::Val(hv) => match spec_eval_args(store, xs, 1, scope, stack, fuel) {
                        ArgsOut::ArgsFail(fv, outs) => (EvalOut::Fail(fv), head.1 + outs),
                        ArgsOut::Vals(argvs, outs) => match hv {
                            ValueView::FnV { ns, def, params, body } => {
                                let stack2 = stack.push(frame_of(ns, def, Option::None));
                                if argvs.len() != params.len() {
                                    (
                                        EvalOut::Fail(
                                            fail_at(
                                                "arity mismatch calling "@ + def,
                                                stack2,
                                                Option::None,
                                            ),
                                        ),
                                        head.1 + outs,
                                    )
                                } else if fuel == 0 {
                                    (
                                        EvalOut::Fail(
                                            fail_at("call depth exceeded"@, stack2, Option::None),
                                        ),
                                        head.1 + outs,
                                    )
                                } else {
                                    let applied = spec_eval(
                                        store,
                                        *body,
                                        bind_params(params, argvs),
                                        stack2,
                                        (fuel - 1) as nat,
                                    );
                                    (applied.0, head.1 + outs + applied.1)
                                }
                            },
                            ValueView::ProcV(p) => {
                                let applied = spec_apply_proc(p, argvs, stack);
                                (applied.0, head.1 + outs + applied.1)
                            },
                            _ => (
                                EvalOut::Fail(
                                    fail_at("cannot call this value"@, stack, Option::None),
                                ),
                                head.1 + outs,
                            ),
                        },
                    },
                }
            }
        },
        ExprView::Defn { name, params, body } => (
            EvalOut::Fail(
                fail_at("definition form cannot be evaluated here"@, stack, Option::None),
            ),
            Seq::empty(),
        ),
    }
}

/// Applying the resolved entry function to the run's arguments.
pub open spec fn spec_apply_entry(
    store: StoreView,
    ns: Seq<char>,
    def: Seq<char>,
    params: Seq<Seq<char>>,
    body: ExprView,
    argvs: Seq<ValueView>,
    fuel: nat,
) -> (EvalOut, Seq<Seq<char>>) {
    let stack2 = Seq::empty().push(frame_of(ns, def, Option::None));
    if argvs.len() != params.len() {
        (
            EvalOut::Fail(fail_at("arity mismatch calling "@ + def, stack2, Option::None)),
            Seq::empty(),
        )
    } else if fuel == 0 {
        (EvalOut::Fail(fail_at("call depth exceeded"@, stack2, Option::None)), Seq::empty())
    } else {
        spec_eval(store, body, bind_params(params, argvs), stack2, (fuel - 1) as nat)
    }
}

/// Evaluation of the expressions from position `k` on, left to right.
pub open spec fn spec_eval_args(
    store: StoreView,
    xs: Seq<ExprView>,
    k: int,
    scope: Map<Seq<char>, ValueView>,
    stack: Seq<FrameView>,
    fuel: nat,
) -> ArgsOut
    decreases fuel, xs, 0int, (if k < xs.len() { xs.len() - k } else { 0int }),
{
    if k < 0 || k >= xs.len() {
        ArgsOut::Vals(Seq::empty(), Seq::empty())
    } else {
        let first = spec_eval(store, xs[k], scope, stack, fuel);
        match first.0 {
            EvalOut::Fail(fv) => ArgsOut::ArgsFail(fv, first.1),
            EvalOut::Val(v) => match spec_eval_args(store, xs, k + 1, scope, stack, fuel) {
                ArgsOut::ArgsFail(fv, outs) => ArgsOut::ArgsFail(fv, first.1 + outs),
                ArgsOut::Vals(vs, outs) => ArgsOut::Vals(
                    Seq::empty().push(v) + vs,
                    first.1 + outs,
                ),
            },
        }
    }
}

/// Running an entry definition with arguments: the public contract of the
/// interpreter backend.
pub open spec fn spec_run(
    store: StoreView,
    ns: Seq<char>,
    def: Seq<char>,
    args: Seq<ValueView>,
    fuel: nat,
) -> (EvalOut, Seq<Seq<char>>) {
    match spec_pp_def(store, ns, def, Seq::empty(), expand_gas()) {
        PpStep::Failed(f, _) => (EvalOut::Fail(f), Seq::empty()),
        PpStep::Done(de, _) => match de {
            ExprView::Defn { name, params, body } => spec_apply_entry(
                store,
                ns,
                def,
                params,
                *body,
                args,
                fuel,
            ),
            _ => {
                if args.len() == 0 {
                    spec_eval(
                        store,
                        de,
                        Map::empty(),
                        Seq::empty().push(frame_of(ns, def, Option::None)),
                        fuel,
                    )
                } else {
                    (
                        EvalOut::Fail(
                            fail_at("entry is not a function"@, Seq::empty(), Option::None),
                        ),
                        Seq::empty(),
                    )
                }
            },
        },
    }
}

/// Applies a native procedure to its evaluated arguments.
fn apply_proc(
    p: &String,
    args: Vec<Value>,
    stack: &CallStackList,
    outputs: &mut Vec<String>,
) -> (r: Result<Value, LocatedFailure>)
    ensures
        ({
            let st = spec_apply_proc(p@, value_views_of(args@), stack@);
            &&& (r is Ok <==> st.0 is Val)
            &&& (r is Ok ==> r->Ok_0@ == st.0->Val_0)
            &&& (r is Err ==> r->Err_0@ == st.0->Fail_0)
            &&& out_views(final(outputs)@) == out_views(old(outputs)@) + st.1
        }),
{
    proof {
        crate::value::lemma_value_views_of(args@);
        assert(out_views(outputs@) + Seq::<Seq<char>>::empty() =~= out_views(outputs@));
        if args@.len() >= 2 {
            crate::value::lemma_value_view_ctor(args@[0]);
            crate::value::lemma_value_view_ctor(args@[1]);
        }
    }
    if crate::preprocess::eq_str(p, "println") || crate::preprocess::eq_str(p, "echo")
        || crate::preprocess::eq_str(p, "eprintln") {
        let line = values_line(&args);
        let ghost lv = line@;
        outputs.push(line);
        proof {
            assert(out_views(outputs@) =~= out_views(old(outputs)@) + seq![lv]);
        }
        return Result::Ok(Value::Nil);
    }
    if crate::preprocess::eq_str(p, "raise") {
        let msg = values_line(&args);
        return Result::Err(
            LocatedFailure { message: msg, stack: stack.clone(), coord: Option::None },
        );
    }
    if crate::preprocess::eq_str(p, "&list") {
        return Result::Ok(Value::ListV(args));
    }
    if crate::preprocess::eq_str(p, "&+") || crate::preprocess::eq_str(p, "&-")
        || crate::preprocess::eq_str(p, "&*") || crate::preprocess::eq_str(p, "&/")
        || crate::preprocess::eq_str(p, "&<") {
        let mut nums_ok = args.len() == 2;
        let mut a: i64 = 0;
        let mut b: i64 = 0;
        if nums_ok {
            match &args[0] {
                Value::NumV(n) => {
                    a = *n;
                },
                _ => {
                    nums_ok = false;
                },
            }
        }
        if nums_ok {
            match &args[1] {
                Value::NumV(n) => {
                    b = *n;
                },
                _ => {
                    nums_ok = false;
                },
            }
        }
        if !nums_ok {
            return Result::Err(
                LocatedFailure {
                    message: crate::preprocess::concat2(p.as_str(), " expects two numbers"),
                    stack: stack.clone(),
                    coord: Option::None,
                },
            );
        }
        if crate::preprocess::eq_str(p, "&<") {
            return Result::Ok(Value::BoolV(a < b));
        }
        if crate::preprocess::eq_str(p, "&/") {
            if b == 0 {
                return Result::Err(
                    LocatedFailure {
                        message: "division by zero".to_owned(),
                        stack: stack.clone(),
                        coord: Option::None,
                    },
                );
            }
            return match a.checked_div(b) {
                Option::Some(q) => Result::Ok(Value::NumV(q)),
                Option::None => Result::Err(
                    LocatedFailure {
                        message: "integer overflow".to_owned(),
                        stack: stack.clone(),
                        coord: Option::None,
                    },
                ),
            };
        }
        let sum = if crate::preprocess::eq_str(p, "&+") {
            a.checked_add(b)
        } else if crate::preprocess::eq_str(p, "&-") {
            a.checked_sub(b)
        } else {
            a.checked_mul(b)
        };
        return match sum {
            Option::Some(n) => Result::Ok(Value::NumV(n)),
            Option::None => Result::Err(
                LocatedFailure {
                    message: "integer overflow".to_owned(),
                    stack: stack.clone(),
                    coord: Option::None,
                },
            ),
        };
    }
    Result::Err(
        LocatedFailure {
            message: crate::preprocess::concat2("unknown native procedure: ", p.as_str()),
            stack: stack.clone(),
            coord: Option::None,
        },
    )
}

/// Binds parameters to arguments, in order.
fn bind_args(params: &Vec<String>, args: Vec<Value>) -> (r: NameTable<Value>)
    requires
        params@.len() == args@.len(),
    ensures
        r@ == bind_params(crate::expr::name_views(params@), value_views_of(args@)),
{
    let ghost pvs = crate::expr::name_views(params@);
    let ghost avs = value_views_of(args@);
    proof {
        crate::value::lemma_value_views_of(args@);
    }
    let mut args = args;
    let mut scope: NameTable<Value> = NameTable::new();
    let mut i: usize = 0;
    proof {
        assert(scope@ =~= bind_params(pvs.take(0), avs.take(0)));
    }
    while i < params.len()
        invariant
            params@.len() == pvs.len(),
            avs.len() == pvs.len(),
            i <= pvs.len(),
            args@.len() == pvs.len() - i,
            forall|j: int| 0 <= j < pvs.len() ==> pvs[j] == params@[j]@,
            forall|j: int| 0 <= j < args@.len() ==> args@[j]@ == avs[j + i],
            scope@ == bind_params(pvs.take(i as int), avs.take(i as int)),
        decreases params@.len() - i,
    {
        let v = args.remove(0);
        scope.insert(params[i].clone(), v);
        proof {
            assert(pvs.take(i + 1).drop_last() =~= pvs.take(i as int));
            assert(avs.take(i + 1).drop_last() =~= avs.take(i as int));
            assert(pvs.take(i + 1).last() == pvs[i as int]);
            assert(avs.take(i + 1).last() == avs[i as int]);
        }
        i = i + 1;
    }
    proof {
        assert(pvs.take(pvs.len() as int) =~= pvs);
        assert(avs.take(avs.len() as int) =~= avs);
    }
    scope
}

/// Evaluates one normalized expression against the store.
fn eval(
    store: &ProgramStore,
    e: &Expr,
    scope: &NameTable<Value>,
    stack: &CallStackList,
    outputs: &mut Vec<String>,
    fuel: u64,
) -> (r: Result<Value, LocatedFailure>)
    ensures
        ({
            let st = spec_eval(store@, e@, scope@, stack@, fuel as nat);
            &&& (r is Ok <==> st.0 is Val)
            &&& (r is Ok ==> r->Ok_0@ == st.0->Val_0)
            &&& (r is Err ==> r->Err_0@ == st.0->Fail_0)
            &&& out_views(final(outputs)@) == out_views(old(outputs)@) + st.1
        }),
    decreases fuel, *e, 1int, 0int,
{
    proof {
        assert(out_views(outputs@) + Seq::<Seq<char>>::empty() =~= out_views(outputs@));
    }
    match e {
        Expr::Nil => Result::Ok(Value::Nil),
        Expr::BoolLit(b) => Result::Ok(Value::BoolV(*b)),
        Expr::NumLit(n) => Result::Ok(Value::NumV(*n)),
        Expr::StrLit(s) => Result::Ok(Value::StrV(s.clone())),
        Expr::KwdLit(s) => Result::Ok(Value::KwdV(s.clone())),
        Expr::Local(s) => match scope.get(s) {
            Option::Some(v) => Result::Ok(v.clone()),
            Option::None => Result::Err(
                LocatedFailure {
                    message: crate::preprocess::concat2("unbound local: ", s.as_str()),
                    stack: stack.clone(),
                    coord: Option::None,
                },
            ),
        },
        Expr::ProcRef(p) => Result::Ok(Value::ProcV(p.clone())),
        Expr::Unresolved(s) => Result::Err(
            LocatedFailure {
                message: crate::preprocess::concat2(
                    "cannot evaluate unresolved symbol: ",
                    s.as_str(),
                ),
                stack: stack.clone(),
                coord: Option::None,
            },
        ),
        Expr::DefRef(ns, d) => {
            let mut wsink: Vec<crate::diagnostics::LocatedWarning> = Vec::new();
            match preprocess_ns_def(store, ns, d, &mut wsink, stack) {
                Result::Err(f) => Result::Err(f),
                Result::Ok(de) => match de {
                    Expr::Defn { name, params, body } => Result::Ok(
                        Value::FnV { ns: ns.clone(), def: d.clone(), params, body },
                    ),
                    other => {
                        proof {
                            crate::expr::lemma_expr_view_defn(other);
                        }
                        if fuel == 0 {
                            Result::Err(
                                LocatedFailure {
                                    message: "call depth exceeded".to_owned(),
                                    stack: stack.clone(),
                                    coord: Option::None,
                                },
                            )
                        } else {
                            let empty_scope: NameTable<Value> = NameTable::new();
                            eval(store, &other, &empty_scope, stack, outputs, fuel - 1)
                        }
                    },
                },
            }
        },
        Expr::CondIf(c, t, f) => {
            let ghost stc = spec_eval(store@, (*c)@, scope@, stack@, fuel as nat);
            let cv = match eval(store, c, scope, stack, outputs, fuel) {
                Result::Ok(v) => v,
                Result::Err(fe) => {
                    return Result::Err(fe);
                },
            };
            proof {
                crate::value::lemma_value_view_ctor(cv);
            }
            let is_falsy = match &cv {
                Value::BoolV(bv) => !*bv,
                Value::Nil => true,
                _ => false,
            };
            if is_falsy {
                let ghost stf = spec_eval(store@, (*f)@, scope@, stack@, fuel as nat);
                let r = eval(store, f, scope, stack, outputs, fuel);
                proof {
                    lemma_seq_assoc(out_views(old(outputs)@), stc.1, stf.1);
                }
                r
            } else {
                let ghost stt = spec_eval(store@, (*t)@, scope@, stack@, fuel as nat);
                let r = eval(store, t, scope, stack, outputs, fuel);
                proof {
                    lemma_seq_assoc(out_views(old(outputs)@), stc.1, stt.1);
                }
                r
            }
        },
        Expr::Call(xs) => {
            proof {
                crate::expr::lemma_expr_views_of(xs@);
            }
            if xs.len() == 0 {
                return Result::Err(
                    LocatedFailure {
                        message: "cannot call an empty form".to_owned(),
                        stack: stack.clone(),
                        coord: Option::None,
                    },
                );
            }
            let ghost sth = spec_eval(
                store@,
                crate::expr::expr_views_of(xs@)[0],
                scope@,
                stack@,
                fuel as nat,
            );
            let ghost sta = spec_eval_args(
                store@,
                crate::expr::expr_views_of(xs@),
                1,
                scope@,
                stack@,
                fuel as nat,
            );
            let hv = match eval(store, &xs[0], scope, stack, outputs, fuel) {
                Result::Ok(v) => v,
                Result::Err(fe) => {
                    return Result::Err(fe);
                },
            };
            let argv = match eval_args(store, xs, 1, scope, stack, outputs, fuel) {
                Result::Ok(vs) => {
                    proof {
                        crate::value::lemma_value_views_of(vs@);
                    }
                    vs
                },
                Result::Err(fe) => {
                    proof {
                        lemma_seq_assoc(out_views(old(outputs)@), sth.1, sta->ArgsFail_1);
                    }
                    return Result::Err(fe);
                },
            };
            let ghost hvv = hv@;
            match hv {
                Value::FnV { ns: fns, def: fdef, params, body } => {
                    let ghost fnsv = fns@;
                    let ghost fdefv = fdef@;
                    let frame = CalcitFrame::new(fns, fdef.clone(), Option::None);
                    let stack2 = stack.push(frame);
                    proof {
                        assert(stack2@ == stack@.push(frame_of(fnsv, fdefv, Option::None)));
                    }
                    if argv.len() != params.len() {
                        proof {
                            lemma_seq_assoc(out_views(old(outputs)@), sth.1, sta->Vals_1);
                        }
                        Result::Err(
                            LocatedFailure {
                                message: crate::preprocess::concat2(
                                    "arity mismatch calling ",
                                    fdef.as_str(),
                                ),
                                stack: stack2,
                                coord: Option::None,
                            },
                        )
                    } else if fuel == 0 {
                        proof {
                            lemma_seq_assoc(out_views(old(outputs)@), sth.1, sta->Vals_1);
                        }
                        Result::Err(
                            LocatedFailure {
                                message: "call depth exceeded".to_owned(),
                                stack: stack2,
                                coord: Option::None,
                            },
                        )
                    } else {
                        let ghost stb = spec_eval(
                            store@,
                            (*body)@,
                            bind_params(crate::expr::name_views(params@), value_views_of(argv@)),
                            stack2@,
                            (fuel - 1) as nat,
                        );
                        let scope2 = bind_args(&params, argv);
                        let r = eval(store, &body, &scope2, &stack2, outputs, fuel - 1);
                        proof {
                            lemma_seq_assoc(out_views(old(outputs)@), sth.1, sta->Vals_1);
                            lemma_seq_assoc(
                                out_views(old(outputs)@),
                                sth.1 + sta->Vals_1,
                                stb.1,
                            );
                            lemma_seq_assoc(sth.1, sta->Vals_1, stb.1);
                        }
                        r
                    }
                },
                Value::ProcV(p) => {
                    let ghost stp = spec_apply_proc(p@, value_views_of(argv@), stack@);
                    let r = apply_proc(&p, argv, stack, outputs);
                    proof {
                        lemma_seq_assoc(out_views(old(outputs)@), sth.1, sta->Vals_1);
                        lemma_seq_assoc(out_views(old(outputs)@), sth.1 + sta->Vals_1, stp.1);
                        lemma_seq_assoc(sth.1, sta->Vals_1, stp.1);
                    }
                    r
                },
                other_v => {
                    proof {
                        crate::value::lemma_value_view_ctor(other_v);
                        lemma_seq_assoc(out_views(old(outputs)@), sth.1, sta->Vals_1);
                    }
                    Result::Err(
                        LocatedFailure {
                            message: "cannot call this value".to_owned(),
                            stack: stack.clone(),
                            coord: Option::None,
                        },
                    )
                },
            }
        },
        Expr::Defn { .. } => Result::Err(
            LocatedFailure {
                message: "definition form cannot be evaluated here".to_owned(),
                stack: stack.clone(),
                coord: Option::None,
            },
        ),
    }
}

/// Evaluates the expressions from position `k` on, left to right.
fn eval_args(
    store: &ProgramStore,
    xs: &Vec<Expr>,
    k: usize,
    scope: &NameTable<Value>,
    stack: &CallStackList,
    outputs: &mut Vec<String>,
    fuel: u64,
) -> (r: Result<Vec<Value>, LocatedFailure>)
    ensures
        ({
            let st = spec_eval_args(
                store@,
                crate::expr::expr_views_of(xs@),
                k as int,
                scope@,
                stack@,
                fuel as nat,
            );
            &&& (r is Ok <==> st is Vals)
            &&& (r is Ok ==> value_views_of(r->Ok_0@) == st->Vals_0 && out_views(
                final(outputs)@,
            ) == out_views(old(outputs)@) + st->Vals_1)
            &&& (r is Err ==> r->Err_0@ == st->ArgsFail_0 && out_views(final(outputs)@)
                == out_views(old(outputs)@) + st->ArgsFail_1)
        }),
    decreases fuel, *xs, 0int, (if (k as int) < xs@.len() { xs@.len() - k } else { 0int }),
{
    proof {
        crate::expr::lemma_expr_views_of(xs@);
    }
    if k >= xs.len() {
        proof {
            assert(out_views(outputs@) + Seq::<Seq<char>>::empty() =~= out_views(outputs@));
            assert(value_views_of(Seq::<Value>::empty()) =~= Seq::<ValueView>::empty());
        }
        return Result::Ok(Vec::new());
    }
    let ghost stc = spec_eval(
        store@,
        crate::expr::expr_views_of(xs@)[k as int],
        scope@,
        stack@,
        fuel as nat,
    );
    let ghost strest = spec_eval_args(
        store@,
        crate::expr::expr_views_of(xs@),
        k + 1,
        scope@,
        stack@,
        fuel as nat,
    );
    let v = match eval(store, &xs[k], scope, stack, outputs, fuel) {
        Result::Ok(v) => v,
        Result::Err(fe) => {
            return Result::Err(fe);
        },
    };
    match eval_args(store, xs, k + 1, scope, stack, outputs, fuel) {
        Result::Ok(mut vs) => {
            let ghost vs0 = vs@;
            vs.insert(0, v);
            proof {
                crate::value::lemma_value_views_of(vs@);
                crate::value::lemma_value_views_of(vs0);
                assert(value_views_of(vs@) =~= Seq::<ValueView>::empty().push(v@)
                    + value_views_of(vs0));
                lemma_seq_assoc(out_views(old(outputs)@), stc.1, strest->Vals_1);
            }
            Result::Ok(vs)
        },
        Result::Err(fe) => {
            proof {
                lemma_seq_assoc(out_views(old(outputs)@), stc.1, strest->ArgsFail_1);
            }
            Result::Err(fe)
        },
    }
}

/// Runs an entry definition against the store with the given arguments:
/// normalizes the entry, applies it to the arguments, and collects the
/// lines the program printed, in order. A runtime error carries the call
/// stack captured where it was raised.
pub fn run_program(
    store: &ProgramStore,
    ns: &String,
    def: &String,
    args: Vec<Value>,
    outputs: &mut Vec<String>,
) -> (r: Result<Value, LocatedFailure>)
    ensures
        ({
            let st = spec_run(store@, ns@, def@, value_views_of(args@), eval_fuel());
            &&& (r is Ok <==> st.0 is Val)
            &&& (r is Ok ==> r->Ok_0@ == st.0->Val_0)
            &&& (r is Err ==> r->Err_0@ == st.0->Fail_0)
            &&& out_views(final(outputs)@) == out_views(old(outputs)@) + st.1
        }),
{
    proof {
        crate::value::lemma_value_views_of(args@);
        assert(out_views(outputs@) + Seq::<Seq<char>>::empty() =~= out_views(outputs@));
        if args@.len() >= 2 {
            crate::value::lemma_value_view_ctor(args@[0]);
            crate::value::lemma_value_view_ctor(args@[1]);
        }
    }
    let empty_stack = CallStackList::default();
    let mut wsink: Vec<crate::diagnostics::LocatedWarning> = Vec::new();
    match preprocess_ns_def(store, ns, def, &mut wsink, &empty_stack) {
        Result::Err(f) => Result::Err(f),
        Result::Ok(de) => match de {
            Expr::Defn { name, params, body } => {
                let frame = CalcitFrame::new(ns.clone(), def.clone(), Option::None);
                let stack2 = empty_stack.push(frame);
                proof {
                    assert(stack2@ =~= Seq::empty().push(
                        frame_of(ns@, def@, Option::None),
                    ));
                }
                if args.len() != params.len() {
                    Result::Err(
                        LocatedFailure {
                            message: crate::preprocess::concat2(
                                "arity mismatch calling ",
                                def.as_str(),
                            ),
                            stack: stack2,
                            coord: Option::None,
                        },
                    )
                } else {
                    let scope2 = bind_args(&params, args);
                    eval(store, &body, &scope2, &stack2, outputs, 1023)
                }
            },
            other => {
                proof {
                    crate::expr::lemma_expr_view_defn(other);
                }
                if args.len() == 0 {
                    let frame = CalcitFrame::new(ns.clone(), def.clone(), Option::None);
                    let stack2 = empty_stack.push(frame);
                    proof {
                        assert(stack2@ =~= Seq::empty().push(
                            frame_of(ns@, def@, Option::None),
                        ));
                    }
                    let empty_scope: NameTable<Value> = NameTable::new();
                    eval(store, &other, &empty_scope, &stack2, outputs, 1024)
                } else {
                    Result::Err(
                        LocatedFailure {
                            message: "entry is not a function".to_owned(),
                            stack: CallStackList::default(),
                            coord: Option::None,
                        },
                    )
                }
            },
        },
    }
}

} // verus!
