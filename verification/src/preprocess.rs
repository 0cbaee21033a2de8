//! Preprocessing: macro expansion and symbol resolution against the
//! program store, producing a normalized expression plus located warnings.
//! Literal tokens pass through; symbols resolve against the local scope,
//! the current namespace, then the core namespace; calls of known macros
//! expand (with an explicit depth bound) and the expansion is preprocessed
//! in turn; an unresolved symbol becomes one warning, never a failure, so
//! a whole pass surfaces every problem at once. A genuine failure (a
//! malformed form, an expansion past the depth bound, a missing
//! namespace) short-circuits with the call stack captured at that point.

use vstd::prelude::*;
use crate::code::{code_view, code_views_of, lemma_code_views_of, Code, CodeView};
use crate::diagnostics::{FailureView, LocatedFailure, LocatedWarning, WarningView};
use crate::expr::{Expr, ExprView, name_views};
use crate::stack::{CalcitFrame, CallStackList, FrameView};
use crate::store::ProgramStore;
use crate::strings::{int_token_value, is_digit_char, is_digit_seq, is_int_token};

verus! {

broadcast use vstd::std_specs::vec::group_vec_axioms, vstd::seq::group_seq_axioms;

/// The store's mathematical image.
pub type StoreView = Map<Seq<char>, Map<Seq<char>, CodeView>>;

/// The bootstrap namespace resolved after the current one.
pub open spec fn core_ns_name() -> Seq<char> {
    "calcit.core"@
}

/// The definition preprocessed unconditionally before any entry, so that
/// dispatch on built-in value kinds is registered.
pub open spec fn builtin_classes_entry() -> Seq<char> {
    "&init-builtin-classes"@
}

/// The macro expansion depth bound.
pub open spec fn expand_gas() -> nat {
    100
}

/// The registered native procedures the preprocessor resolves.
pub open spec fn is_builtin_proc(s: Seq<char>) -> bool {
    s == "&+"@ || s == "&-"@ || s == "&*"@ || s == "&/"@ || s == "&<"@ || s == "&list"@ || s
        == "println"@ || s == "echo"@ || s == "eprintln"@ || s == "raise"@
}

/// A leaf holding exactly this token.
pub open spec fn leaf_is(c: CodeView, s: Seq<char>) -> bool {
    c is Leaf && c->Leaf_0 == s
}

/// Every child is a leaf.
pub open spec fn all_leaves(xs: Seq<CodeView>) -> bool {
    forall|i: int| 0 <= i < xs.len() ==> xs[i] is Leaf
}

/// The tokens of a leaf sequence.
pub open spec fn leaf_names(xs: Seq<CodeView>) -> Seq<Seq<char>> {
    Seq::new(xs.len(), |i: int| xs[i]->Leaf_0)
}

/// The shape `(<kw> name (params...) body)` with all-leaf parameters.
pub open spec fn is_def_shape(c: CodeView, kw: Seq<char>) -> bool {
    c is Form && c->Form_0.len() == 4 && leaf_is(c->Form_0[0], kw) && c->Form_0[1] is Leaf
        && c->Form_0[2] is Form && all_leaves(c->Form_0[2]->Form_0)
}

/// A function definition form.
pub open spec fn is_defn_form(c: CodeView) -> bool {
    is_def_shape(c, "defn"@)
}

/// A macro definition form.
pub open spec fn is_defmacro_form(c: CodeView) -> bool {
    is_def_shape(c, "defmacro"@)
}

/// The warning message for an unresolved symbol.
pub open spec fn msg_unresolved(s: Seq<char>) -> Seq<char> {
    "unresolved symbol: "@ + s
}

/// The failure message for a missing namespace.
pub open spec fn msg_missing_ns(ns: Seq<char>) -> Seq<char> {
    "namespace not found: "@ + ns
}

/// The failure message for a missing definition.
pub open spec fn msg_missing_def(ns: Seq<char>, def: Seq<char>) -> Seq<char> {
    "definition not found: "@ + ns + "/"@ + def
}

/// A coordinate step for child `i`, saturating at the byte bound.
pub open spec fn idx_byte(i: int) -> u8 {
    if 0 <= i < 256 {
        i as u8
    } else {
        255u8
    }
}

/// A frame value.
pub open spec fn frame_of(ns: Seq<char>, def: Seq<char>, coord: Option<Seq<u8>>) -> FrameView {
    FrameView { ns, def, coord }
}

/// A failure value.
pub open spec fn fail_at(
    msg: Seq<char>,
    stack: Seq<FrameView>,
    coord: Option<Seq<u8>>,
) -> FailureView {
    FailureView { message: msg, stack, coord }
}

/// The images of collected warnings.
pub open spec fn warning_views(xs: Seq<LocatedWarning>) -> Seq<WarningView> {
    Seq::new(xs.len(), |i: int| xs[i]@)
}

/// Sequence concatenation is associative.
pub proof fn lemma_seq_assoc<A>(a: Seq<A>, b: Seq<A>, c: Seq<A>)
    ensures
        (a + b) + c == a + (b + c),
{
    assert((a + b) + c =~= a + (b + c));
}

/// One preprocessing step: the normalized expression and the warnings it
/// contributed, or a failure together with the warnings contributed up to
/// the failure point.
pub enum PpStep {
    Done(ExprView, Seq<WarningView>),
    Failed(FailureView, Seq<WarningView>),
}

/// Preprocessing of an argument list, in traversal order.
pub enum PpSteps {
    DoneL(Seq<ExprView>, Seq<WarningView>),
    FailedL(FailureView, Seq<WarningView>),
}

/// The first position of `s` among `names`, or a negative result.
pub open spec fn first_index_of(names: Seq<Seq<char>>, s: Seq<char>) -> int
    decreases names.len(),
{
    if names.len() == 0 {
        -1
    } else if names[0] == s {
        0
    } else {
        let r = first_index_of(names.drop_first(), s);
        if r < 0 {
            -1
        } else {
            r + 1
        }
    }
}

pub proof fn lemma_first_index_found(names: Seq<Seq<char>>, s: Seq<char>, i: int)
    requires
        0 <= i < names.len(),
        names[i] == s,
        forall|j: int| 0 <= j < i ==> names[j] != s,
    ensures
        first_index_of(names, s) == i,
    decreases i,
{
    if i > 0 {
        lemma_first_index_found(names.drop_first(), s, i - 1);
    }
}

pub proof fn lemma_first_index_none(names: Seq<Seq<char>>, s: Seq<char>)
    requires
        forall|j: int| 0 <= j < names.len() ==> names[j] != s,
    ensures
        first_index_of(names, s) == -1,
    decreases names.len(),
{
    if names.len() > 0 {
        lemma_first_index_none(names.drop_first(), s);
    }
}

/// Substitution of macro arguments for parameter names in a template:
/// a leaf naming a parameter becomes the corresponding argument form,
/// every other leaf stays, and lists substitute childwise.
pub open spec fn spec_subst(
    body: CodeView,
    params: Seq<Seq<char>>,
    args: Seq<CodeView>,
) -> CodeView
    decreases body, 0int,
{
    match body {
        CodeView::Leaf(s) => {
            let i = first_index_of(params, s);
            if 0 <= i < args.len() {
                args[i]
            } else {
                CodeView::Leaf(s)
            }
        },
        CodeView::Form(xs) => CodeView::Form(spec_subst_list(xs, params, args)),
    }
}

/// Childwise substitution.
pub open spec fn spec_subst_list(
    xs: Seq<CodeView>,
    params: Seq<Seq<char>>,
    args: Seq<CodeView>,
) -> Seq<CodeView>
    decreases xs, 1int,
{
    if xs.len() == 0 {
        Seq::empty()
    } else {
        spec_subst_list(xs.drop_last(), params, args).push(spec_subst(xs.last(), params, args))
    }
}

pub proof fn lemma_spec_subst_list(xs: Seq<CodeView>, params: Seq<Seq<char>>, args: Seq<CodeView>)
    ensures
        spec_subst_list(xs, params, args).len() == xs.len(),
        forall|i: int|
            0 <= i < xs.len() ==> spec_subst_list(xs, params, args)[i] == spec_subst(
                xs[i],
                params,
                args,
            ),
    decreases xs.len(),
{
    if xs.len() > 0 {
        lemma_spec_subst_list(xs.drop_last(), params, args);
        assert forall|i: int| 0 <= i < xs.len() implies spec_subst_list(xs, params, args)[i]
            == spec_subst(xs[i], params, args) by {
            if i < xs.len() - 1 {
                assert(xs.drop_last()[i] == xs[i]);
            }
        }
    }
}

/// The macro a call head names, if any: the current namespace shadows the
/// core namespace, and a non-macro definition shadows a core macro.
pub open spec fn macro_lookup(store: StoreView, ns: Seq<char>, s: Seq<char>) -> Option<
    (Seq<char>, CodeView),
> {
    if store.contains_key(ns) && store[ns].contains_key(s) {
        if is_defmacro_form(store[ns][s]) {
            Option::Some((ns, store[ns][s]))
        } else {
            Option::None
        }
    } else if store.contains_key(core_ns_name()) && store[core_ns_name()].contains_key(s) {
        if is_defmacro_form(store[core_ns_name()][s]) {
            Option::Some((core_ns_name(), store[core_ns_name()][s]))
        } else {
            Option::None
        }
    } else {
        Option::None
    }
}

/// Preprocessing of a single leaf token: literals pass through; a symbol
/// resolves against locals, the current namespace, the core namespace,
/// then the native procedures; an unresolved symbol is kept with exactly
/// one warning.
pub open spec fn spec_pp_leaf(
    store: StoreView,
    ns: Seq<char>,
    locals: Seq<Seq<char>>,
    s: Seq<char>,
    stack: Seq<FrameView>,
    coord: Seq<u8>,
) -> PpStep {
    if s == "nil"@ {
        PpStep::Done(ExprView::Nil, Seq::empty())
    } else if s == "true"@ {
        PpStep::Done(ExprView::BoolLit(true), Seq::empty())
    } else if s == "false"@ {
        PpStep::Done(ExprView::BoolLit(false), Seq::empty())
    } else if is_int_token(s) {
        if -9223372036854775808 <= int_token_value(s) <= 9223372036854775807 {
            PpStep::Done(ExprView::NumLit(int_token_value(s) as i64), Seq::empty())
        } else {
            PpStep::Failed(
                fail_at("number out of range"@, stack, Option::Some(coord)),
                Seq::empty(),
            )
        }
    } else if s.len() > 0 && s[0] == '|' {
        PpStep::Done(ExprView::StrLit(s.skip(1)), Seq::empty())
    } else if s.len() > 0 && s[0] == ':' {
        PpStep::Done(ExprView::KwdLit(s.skip(1)), Seq::empty())
    } else if locals.contains(s) {
        PpStep::Done(ExprView::Local(s), Seq::empty())
    } else if store.contains_key(ns) && store[ns].contains_key(s) {
        if is_defmacro_form(store[ns][s]) {
            PpStep::Failed(
                fail_at("macro cannot be used as a value"@, stack, Option::Some(coord)),
                Seq::empty(),
            )
        } else {
            PpStep::Done(ExprView::DefRef(ns, s), Seq::empty())
        }
    } else if store.contains_key(core_ns_name()) && store[core_ns_name()].contains_key(s) {
        if is_defmacro_form(store[core_ns_name()][s]) {
            PpStep::Failed(
                fail_at("macro cannot be used as a value"@, stack, Option::Some(coord)),
                Seq::empty(),
            )
        } else {
            PpStep::Done(ExprView::DefRef(core_ns_name(), s), Seq::empty())
        }
    } else if is_builtin_proc(s) {
        PpStep::Done(ExprView::ProcRef(s), Seq::empty())
    } else {
        PpStep::Done(
            ExprView::Unresolved(s),
            seq![WarningView { message: msg_unresolved(s), coord: Option::Some(coord) }],
        )
    }
}

/// Preprocessing of one code form.
pub open spec fn spec_pp(
    store: StoreView,
    ns: Seq<char>,
    locals: Seq<Seq<char>>,
    code: CodeView,
    stack: Seq<FrameView>,
    coord: Seq<u8>,
    gas: nat,
) -> PpStep
    decreases gas, code, 1int, 0int,
{
    match code {
        CodeView::Leaf(s) => spec_pp_leaf(store, ns, locals, s, stack, coord),
        CodeView::Form(xs) => {
            if xs.len() == 0 {
                PpStep::Failed(fail_at("empty form"@, stack, Option::Some(coord)), Seq::empty())
            } else if xs[0] is Leaf {
                let h = xs[0]->Leaf_0;
                if h == "if"@ {
                    if xs.len() == 4 {
                        spec_pp_if(store, ns, locals, xs, stack, coord, gas)
                    } else {
                        PpStep::Failed(
                            fail_at("if expects 3 arguments"@, stack, Option::Some(coord)),
                            Seq::empty(),
                        )
                    }
                } else if h == "defn"@ || h == "defmacro"@ {
                    PpStep::Failed(
                        fail_at(
                            "nested definition form is not supported"@,
                            stack,
                            Option::Some(coord),
                        ),
                        Seq::empty(),
                    )
                } else if !locals.contains(h) && macro_lookup(store, ns, h) is Some {
                    let m = macro_lookup(store, ns, h)->Some_0;
                    let mparams = leaf_names(m.1->Form_0[2]->Form_0);
                    if xs.len() - 1 != mparams.len() {
                        PpStep::Failed(
                            fail_at("macro arity mismatch"@, stack, Option::Some(coord)),
                            Seq::empty(),
                        )
                    } else if gas == 0 {
                        PpStep::Failed(
                            fail_at("macro expansion too deep"@, stack, Option::Some(coord)),
                            Seq::empty(),
                        )
                    } else {
                        spec_pp(
                            store,
                            ns,
                            locals,
                            spec_subst(m.1->Form_0[3], mparams, xs.skip(1)),
                            stack.push(frame_of(m.0, h, Option::Some(coord))),
                            coord,
                            (gas - 1) as nat,
                        )
                    }
                } else {
                    spec_pp_call(store, ns, locals, xs, stack, coord, gas)
                }
            } else {
                spec_pp_call(store, ns, locals, xs, stack, coord, gas)
            }
        },
    }
}

/// The three children of an `if` form, in order.
pub open spec fn spec_pp_if(
    store: StoreView,
    ns: Seq<char>,
    locals: Seq<Seq<char>>,
    xs: Seq<CodeView>,
    stack: Seq<FrameView>,
    coord: Seq<u8>,
    gas: nat,
) -> PpStep
    decreases gas, xs, 0int, 0int,
{
    if xs.len() != 4 {
        PpStep::Failed(fail_at("if expects 3 arguments"@, stack, Option::Some(coord)), Seq::empty())
    } else {
        match spec_pp(store, ns, locals, xs[1], stack, coord.push(idx_byte(1)), gas) {
            PpStep::Failed(f, w) => PpStep::Failed(f, w),
            PpStep::Done(c0, w0) => match spec_pp(
                store,
                ns,
                locals,
                xs[2],
                stack,
                coord.push(idx_byte(2)),
                gas,
            ) {
                PpStep::Failed(f, w) => PpStep::Failed(f, w0 + w),
                PpStep::Done(t0, w1) => match spec_pp(
                    store,
                    ns,
                    locals,
                    xs[3],
                    stack,
                    coord.push(idx_byte(3)),
                    gas,
                ) {
                    PpStep::Failed(f, w) => PpStep::Failed(f, w0 + w1 + w),
                    PpStep::Done(e0, w2) => PpStep::Done(
                        ExprView::CondIf(Box::new(c0), Box::new(t0), Box::new(e0)),
                        w0 + w1 + w2,
                    ),
                },
            },
        }
    }
}

/// A plain call: every child preprocessed in order.
pub open spec fn spec_pp_call(
    store: StoreView,
    ns: Seq<char>,
    locals: Seq<Seq<char>>,
    xs: Seq<CodeView>,
    stack: Seq<FrameView>,
    coord: Seq<u8>,
    gas: nat,
) -> PpStep
    decreases gas, xs, 0int, xs.len() + 1,
{
    match spec_pp_args(store, ns, locals, xs, 0, stack, coord, gas) {
        PpSteps::DoneL(es, ws) => PpStep::Done(ExprView::Call(es), ws),
        PpSteps::FailedL(f, ws) => PpStep::Failed(f, ws),
    }
}

/// Children from position `k` on, preprocessed left to right; warnings
/// are appended in traversal order, and a failure keeps what was
/// collected before it.
pub open spec fn spec_pp_args(
    store: StoreView,
    ns: Seq<char>,
    locals: Seq<Seq<char>>,
    xs: Seq<CodeView>,
    k: int,
    stack: Seq<FrameView>,
    coord: Seq<u8>,
    gas: nat,
) -> PpSteps
    decreases gas, xs, 0int, (if k < xs.len() { xs.len() - k } else { 0int }),
{
    if k < 0 || k >= xs.len() {
        PpSteps::DoneL(Seq::empty(), Seq::empty())
    } else {
        match spec_pp(store, ns, locals, xs[k], stack, coord.push(idx_byte(k)), gas) {
            PpStep::Failed(f, w) => PpSteps::FailedL(f, w),
            PpStep::Done(e, w) => match spec_pp_args(
                store,
                ns,
                locals,
                xs,
                k + 1,
                stack,
                coord,
                gas,
            ) {
                PpSteps::FailedL(f, ws) => PpSteps::FailedL(f, w + ws),
                PpSteps::DoneL(es, ws) => PpSteps::DoneL(
                    Seq::empty().push(e) + es,
                    w + ws,
                ),
            },
        }
    }
}

/// Preprocessing of one definition of one namespace: the fixed public
/// contract of the preprocessor. A missing namespace or definition is a
/// failure; a function definition normalizes its body with its parameters
/// in scope; a macro cannot be preprocessed as a value; any other stored
/// form is normalized as a plain expression.
pub open spec fn spec_pp_def(
    store: StoreView,
    ns: Seq<char>,
    def: Seq<char>,
    stack: Seq<FrameView>,
    gas: nat,
) -> PpStep {
    if !store.contains_key(ns) {
        PpStep::Failed(fail_at(msg_missing_ns(ns), stack, Option::None), Seq::empty())
    } else if !store[ns].contains_key(def) {
        PpStep::Failed(fail_at(msg_missing_def(ns, def), stack, Option::None), Seq::empty())
    } else {
        let code = store[ns][def];
        let stack2 = stack.push(frame_of(ns, def, Option::None));
        if is_defn_form(code) {
            let params = leaf_names(code->Form_0[2]->Form_0);
            match spec_pp(store, ns, params, code->Form_0[3], stack2, seq![3u8], gas) {
                PpStep::Done(b, w) => PpStep::Done(
                    ExprView::Defn {
                        name: code->Form_0[1]->Leaf_0,
                        params,
                        body: Box::new(b),
                    },
                    w,
                ),
                PpStep::Failed(f, w) => PpStep::Failed(f, w),
            }
        } else if is_defmacro_form(code) {
            PpStep::Failed(
                fail_at("macro cannot be used as a value"@, stack2, Option::None),
                Seq::empty(),
            )
        } else {
            spec_pp(store, ns, Seq::empty(), code, stack2, Seq::empty(), gas)
        }
    }
}

/// Two stores agree on everything preprocessing in namespace `ns` can
/// see: the namespace itself and the core namespace.
pub open spec fn same_visible(s1: StoreView, s2: StoreView, ns: Seq<char>) -> bool {
    &&& (s1.contains_key(ns) <==> s2.contains_key(ns))
    &&& (s1.contains_key(ns) ==> s1[ns] == s2[ns])
    &&& (s1.contains_key(core_ns_name()) <==> s2.contains_key(core_ns_name()))
    &&& (s1.contains_key(core_ns_name()) ==> s1[core_ns_name()] == s2[core_ns_name()])
}

pub proof fn lemma_pp_leaf_stable(
    s1: StoreView,
    s2: StoreView,
    ns: Seq<char>,
    locals: Seq<Seq<char>>,
    s: Seq<char>,
    stack: Seq<FrameView>,
    coord: Seq<u8>,
)
    requires
        same_visible(s1, s2, ns),
    ensures
        spec_pp_leaf(s1, ns, locals, s, stack, coord) == spec_pp_leaf(s2, ns, locals, s, stack, coord),
{
}

pub proof fn lemma_pp_stable(
    s1: StoreView,
    s2: StoreView,
    ns: Seq<char>,
    locals: Seq<Seq<char>>,
    code: CodeView,
    stack: Seq<FrameView>,
    coord: Seq<u8>,
    gas: nat,
)
    requires
        same_visible(s1, s2, ns),
    ensures
        spec_pp(s1, ns, locals, code, stack, coord, gas) == spec_pp(
            s2,
            ns,
            locals,
            code,
            stack,
            coord,
            gas,
        ),
    decreases gas, code, 1int, 0int,
{
    match code {
        CodeView::Leaf(s) => {
            lemma_pp_leaf_stable(s1, s2, ns, locals, s, stack, coord);
        },
        CodeView::Form(xs) => {
            if xs.len() == 0 {
            } else if xs[0] is Leaf {
                let h = xs[0]->Leaf_0;
                assert(macro_lookup(s1, ns, h) == macro_lookup(s2, ns, h));
                if h == "if"@ {
                    if xs.len() == 4 {
                        lemma_pp_if_stable(s1, s2, ns, locals, xs, stack, coord, gas);
                    }
                } else if h == "defn"@ || h == "defmacro"@ {
                } else if !locals.contains(h) && macro_lookup(s1, ns, h) is Some {
                    let m = macro_lookup(s1, ns, h)->Some_0;
                    let mparams = leaf_names(m.1->Form_0[2]->Form_0);
                    if xs.len() - 1 != mparams.len() {
                    } else if gas == 0 {
                    } else {
                        lemma_pp_stable(
                            s1,
                            s2,
                            ns,
                            locals,
                            spec_subst(m.1->Form_0[3], mparams, xs.skip(1)),
                            stack.push(frame_of(m.0, h, Option::Some(coord))),
                            coord,
                            (gas - 1) as nat,
                        );
                    }
                } else {
                    lemma_pp_call_stable(s1, s2, ns, locals, xs, stack, coord, gas);
                }
            } else {
                lemma_pp_call_stable(s1, s2, ns, locals, xs, stack, coord, gas);
            }
        },
    }
}

pub proof fn lemma_pp_if_stable(
    s1: StoreView,
    s2: StoreView,
    ns: Seq<char>,
    locals: Seq<Seq<char>>,
    xs: Seq<CodeView>,
    stack: Seq<FrameView>,
    coord: Seq<u8>,
    gas: nat,
)
    requires
        same_visible(s1, s2, ns),
    ensures
        spec_pp_if(s1, ns, locals, xs, stack, coord, gas) == spec_pp_if(
            s2,
            ns,
            locals,
            xs,
            stack,
            coord,
            gas,
        ),
    decreases gas, xs, 0int, 0int,
{
    if xs.len() == 4 {
        lemma_pp_stable(s1, s2, ns, locals, xs[1], stack, coord.push(idx_byte(1)), gas);
        lemma_pp_stable(s1, s2, ns, locals, xs[2], stack, coord.push(idx_byte(2)), gas);
        lemma_pp_stable(s1, s2, ns, locals, xs[3], stack, coord.push(idx_byte(3)), gas);
    }
}

pub proof fn lemma_pp_call_stable(
    s1: StoreView,
    s2: StoreView,
    ns: Seq<char>,
    locals: Seq<Seq<char>>,
    xs: Seq<CodeView>,
    stack: Seq<FrameView>,
    coord: Seq<u8>,
    gas: nat,
)
    requires
        same_visible(s1, s2, ns),
    ensures
        spec_pp_call(s1, ns, locals, xs, stack, coord, gas) == spec_pp_call(
            s2,
            ns,
            locals,
            xs,
            stack,
            coord,
            gas,
        ),
    decreases gas, xs, 0int, xs.len() + 1,
{
    lemma_pp_args_stable(s1, s2, ns, locals, xs, 0, stack, coord, gas);
}

pub proof fn lemma_pp_args_stable(
    s1: StoreView,
    s2: StoreView,
    ns: Seq<char>,
    locals: Seq<Seq<char>>,
    xs: Seq<CodeView>,
    k: int,
    stack: Seq<FrameView>,
    coord: Seq<u8>,
    gas: nat,
)
    requires
        same_visible(s1, s2, ns),
    ensures
        spec_pp_args(s1, ns, locals, xs, k, stack, coord, gas) == spec_pp_args(
            s2,
            ns,
            locals,
            xs,
            k,
            stack,
            coord,
            gas,
        ),
    decreases gas, xs, 0int, (if k < xs.len() { xs.len() - k } else { 0int }),
{
    if 0 <= k < xs.len() {
        lemma_pp_stable(s1, s2, ns, locals, xs[k], stack, coord.push(idx_byte(k)), gas);
        lemma_pp_args_stable(s1, s2, ns, locals, xs, k + 1, stack, coord, gas);
    }
}

/// Preprocessing reads the program only through the entry's namespace and
/// the core namespace. Read one way, it is deterministic: against one
/// store (or two equal copies of it), the same entry always yields the
/// same normalized form and the same warnings, however often it is rerun.
/// Read the other way, it is what makes hot reload safe: a store that
/// differs only in namespaces the entry cannot see — as after upserting a
/// definition of an unrelated namespace — normalizes the entry exactly as
/// before.
pub proof fn lemma_pp_def_stable(
    s1: StoreView,
    s2: StoreView,
    ns: Seq<char>,
    def: Seq<char>,
    stack: Seq<FrameView>,
    gas: nat,
)
    requires
        same_visible(s1, s2, ns),
    ensures
        spec_pp_def(s1, ns, def, stack, gas) == spec_pp_def(s2, ns, def, stack, gas),
{
    if s1.contains_key(ns) && s1[ns].contains_key(def) {
        let code = s1[ns][def];
        let stack2 = stack.push(frame_of(ns, def, Option::None));
        if is_defn_form(code) {
            lemma_pp_stable(
                s1,
                s2,
                ns,
                leaf_names(code->Form_0[2]->Form_0),
                code->Form_0[3],
                stack2,
                seq![3u8],
                gas,
            );
        } else if !is_defmacro_form(code) {
            lemma_pp_stable(s1, s2, ns, Seq::empty(), code, stack2, Seq::empty(), gas);
        }
    }
}

/// Hot reload touches only what it names: after replacing one definition
/// in a namespace that is neither the entry's namespace nor the core
/// namespace, the entry's normalized form and warnings are unchanged.
pub proof fn lemma_reload_keeps_unrelated(
    before: StoreView,
    after: StoreView,
    changed_ns: Seq<char>,
    ns: Seq<char>,
    def: Seq<char>,
    stack: Seq<FrameView>,
    gas: nat,
)
    requires
        ns != changed_ns,
        core_ns_name() != changed_ns,
        forall|k: Seq<char>|
            k != changed_ns ==> (after.contains_key(k) <==> before.contains_key(k)),
        forall|k: Seq<char>|
            k != changed_ns && before.contains_key(k) ==> after[k] == before[k],
    ensures
        spec_pp_def(after, ns, def, stack, gas) == spec_pp_def(before, ns, def, stack, gas),
{
    lemma_pp_def_stable(after, before, ns, def, stack, gas);
}

/// A definition whose stored form is a single symbol that nothing
/// resolves — not a literal token, not a local, defined neither in its
/// own namespace nor in the core namespace, and no native procedure —
/// preprocesses to completion: it yields the symbol kept, marked, with
/// exactly one unresolved-symbol warning and no failure.
pub proof fn lemma_unresolved_symbol_single_warning(
    store: StoreView,
    ns: Seq<char>,
    def: Seq<char>,
    stack: Seq<FrameView>,
    gas: nat,
    s: Seq<char>,
)
    requires
        store.contains_key(ns),
        store[ns].contains_key(def),
        store[ns][def] == CodeView::Leaf(s),
        s != "nil"@,
        s != "true"@,
        s != "false"@,
        !crate::strings::is_int_token(s),
        s.len() > 0 ==> s[0] != '|' && s[0] != ':',
        !store[ns].contains_key(s),
        store.contains_key(core_ns_name()) ==> !store[core_ns_name()].contains_key(s),
        !is_builtin_proc(s),
    ensures
        spec_pp_def(store, ns, def, stack, gas) is Done,
        spec_pp_def(store, ns, def, stack, gas)->Done_0 == ExprView::Unresolved(s),
        spec_pp_def(store, ns, def, stack, gas)->Done_1.len() == 1,
        spec_pp_def(store, ns, def, stack, gas)->Done_1[0].message == msg_unresolved(s),
{
    let stack2 = stack.push(frame_of(ns, def, Option::None));
    assert(!is_defn_form(CodeView::Leaf(s)));
    assert(!is_defmacro_form(CodeView::Leaf(s)));
    assert(!Seq::<Seq<char>>::empty().contains(s));
}

/// Compares a string against a literal.
pub(crate) fn eq_str(s: &String, lit: &str) -> (r: bool)
    ensures
        r == (s@ == lit@),
{
    let l: String = lit.to_owned();
    *s == l
}

/// Whether `s` is among the local names.
fn contains_name(locals: &Vec<String>, s: &String) -> (r: bool)
    ensures
        r == name_views(locals@).contains(s@),
{
    let mut i: usize = 0;
    while i < locals.len()
        invariant
            i <= locals.len(),
            forall|j: int| 0 <= j < i ==> name_views(locals@)[j] != s@,
        decreases locals.len() - i,
    {
        if locals[i] == *s {
            proof {
                assert(name_views(locals@)[i as int] == s@);
            }
            return true;
        }
        i = i + 1;
    }
    proof {
        if name_views(locals@).contains(s@) {
            let j = choose|j: int|
                0 <= j < name_views(locals@).len() && name_views(locals@)[j] == s@;
            assert(false);
        }
    }
    false
}

/// Whether the form is a leaf holding exactly this token.
fn code_is_leaf_named(c: &Code, lit: &str) -> (r: bool)
    ensures
        r == leaf_is(c@, lit@),
{
    match c {
        Code::Leaf(s) => eq_str(s, lit),
        Code::Form(_) => false,
    }
}

/// Whether every child is a leaf.
fn all_leaves_exec(ps: &Vec<Code>) -> (r: bool)
    ensures
        r == all_leaves(code_views_of(ps@)),
{
    proof {
        lemma_code_views_of(ps@);
    }
    let mut i: usize = 0;
    while i < ps.len()
        invariant
            i <= ps.len(),
            forall|j: int| 0 <= j < i ==> code_views_of(ps@)[j] is Leaf,
            code_views_of(ps@).len() == ps@.len(),
            forall|j: int| 0 <= j < ps@.len() ==> code_views_of(ps@)[j] == code_view(ps@[j]),
        decreases ps.len() - i,
    {
        match &ps[i] {
            Code::Leaf(_) => {},
            Code::Form(_) => {
                proof {
                    assert(ps@[i as int] is Form);
                    assert(code_views_of(ps@)[i as int] == code_view(ps@[i as int]));
                    assert(!(code_views_of(ps@)[i as int] is Leaf));
                }
                return false;
            },
        }
        i = i + 1;
    }
    true
}

/// Whether the form has the shape `(<kw> name (params...) body)`.
pub(crate) fn is_def_code(c: &Code, kw: &str) -> (r: bool)
    ensures
        r == is_def_shape(c@, kw@),
{
    match c {
        Code::Leaf(_) => false,
        Code::Form(xs) => {
            proof {
                lemma_code_views_of(xs@);
            }
            if xs.len() != 4 {
                return false;
            }
            let h_ok = code_is_leaf_named(&xs[0], kw);
            if !h_ok {
                return false;
            }
            let name_ok = match &xs[1] {
                Code::Leaf(_) => true,
                Code::Form(_) => false,
            };
            if !name_ok {
                return false;
            }
            match &xs[2] {
                Code::Form(ps) => all_leaves_exec(ps),
                Code::Leaf(_) => false,
            }
        },
    }
}

/// Reads the parameter names out of an all-leaf parameter list.
fn extract_params(ps: &Vec<Code>) -> (r: Vec<String>)
    requires
        all_leaves(code_views_of(ps@)),
    ensures
        name_views(r@) == leaf_names(code_views_of(ps@)),
        r@.len() == ps@.len(),
{
    proof {
        lemma_code_views_of(ps@);
    }
    let mut r: Vec<String> = Vec::new();
    let mut i: usize = 0;
    while i < ps.len()
        invariant
            i <= ps.len(),
            r@.len() == i,
            code_views_of(ps@).len() == ps@.len(),
            forall|j: int| 0 <= j < ps@.len() ==> code_views_of(ps@)[j] == code_view(ps@[j]),
            all_leaves(code_views_of(ps@)),
            forall|j: int| 0 <= j < i ==> r@[j]@ == code_views_of(ps@)[j]->Leaf_0,
        decreases ps.len() - i,
    {
        match &ps[i] {
            Code::Leaf(t) => {
                r.push(t.clone());
            },
            Code::Form(_) => {
                proof {
                    assert(code_views_of(ps@)[i as int] is Leaf);
                    assert(false);
                }
                r.push(String::new());
            },
        }
        i = i + 1;
    }
    proof {
        assert(name_views(r@) =~= leaf_names(code_views_of(ps@)));
    }
    r
}

/// Whether the token is an integer token.
fn is_int_token_exec(s: &str) -> (r: bool)
    ensures
        r == is_int_token(s@),
{
    let len = s.unicode_len();
    if len == 0 {
        return false;
    }
    let neg = s.get_char(0) == '-';
    let start: usize = if neg {
        1
    } else {
        0
    };
    if start >= len {
        proof {
            assert(!is_digit_char(s@[0]));
        }
        return false;
    }
    let ghost dpart = s@.skip(start as int);
    let mut i: usize = start;
    while i < len
        invariant
            len == s@.len(),
            start <= i <= len,
            start < len,
            start == 0 || start == 1,
            neg ==> start == 1 && s@[0] == '-',
            !neg ==> start == 0 && s@[0] != '-',
            dpart == s@.skip(start as int),
            forall|k: int| 0 <= k < i - start ==> is_digit_char(dpart[k]),
        decreases len - i,
    {
        let c = s.get_char(i);
        let u = c as u32;
        if u < 48 || u > 57 {
            proof {
                assert(dpart[i - start] == s@[i as int]);
                assert(!is_digit_char(dpart[i - start]));
                if is_int_token(s@) {
                    if neg {
                        assert(is_digit_seq(s@.skip(1)));
                    } else {
                        assert(s@.skip(0) =~= s@);
                        assert(is_digit_seq(s@));
                    }
                }
            }
            return false;
        }
        i = i + 1;
    }
    proof {
        assert(forall|k: int| 0 <= k < dpart.len() ==> is_digit_char(dpart[k]));
        assert(dpart.len() > 0);
        if neg {
            assert(s@.len() >= 2);
            assert(is_digit_seq(s@.skip(1)));
        } else {
            assert(s@.skip(0) =~= s@);
            assert(is_digit_seq(s@));
        }
    }
    true
}

/// The core namespace's name.
pub fn core_ns_string() -> (r: String)
    ensures
        r@ == core_ns_name(),
{
    "calcit.core".to_owned()
}

/// The bootstrap entry's name.
pub fn builtin_classes_string() -> (r: String)
    ensures
        r@ == builtin_classes_entry(),
{
    "&init-builtin-classes".to_owned()
}

/// Whether the symbol names a registered native procedure.
fn is_builtin_proc_exec(s: &String) -> (r: bool)
    ensures
        r == is_builtin_proc(s@),
{
    eq_str(s, "&+") || eq_str(s, "&-") || eq_str(s, "&*") || eq_str(s, "&/") || eq_str(s, "&<")
        || eq_str(s, "&list") || eq_str(s, "println") || eq_str(s, "echo") || eq_str(
        s,
        "eprintln",
    ) || eq_str(s, "raise")
}

/// Copies a coordinate path.
fn clone_coord(c: &Vec<u8>) -> (r: Vec<u8>)
    ensures
        r@ == c@,
{
    let r = c.clone();
    proof {
        assert(r@ =~= c@);
    }
    r
}

/// Joins two texts.
pub(crate) fn concat2(a: &str, b: &str) -> (r: String)
    ensures
        r@ == a@ + b@,
{
    let mut m = String::new();
    m.append(a);
    m.append(b);
    proof {
        assert(m@ =~= a@ + b@);
    }
    m
}

/// A failure at the current point, with the stack as captured.
fn fail_here(msg: &str, stack: &CallStackList, coord: Option<&Vec<u8>>) -> (r: LocatedFailure)
    ensures
        r@ == fail_at(
            msg@,
            stack@,
            match coord {
                Option::Some(c) => Option::Some(c@),
                Option::None => Option::None,
            },
        ),
{
    LocatedFailure {
        message: msg.to_owned(),
        stack: stack.clone(),
        coord: match coord {
            Option::Some(c) => Option::Some(clone_coord(c)),
            Option::None => Option::None,
        },
    }
}

/// The saturating coordinate byte for child `i`.
fn idx_byte_exec(i: usize) -> (r: u8)
    ensures
        r == idx_byte(i as int),
{
    if i < 256 {
        i as u8
    } else {
        255
    }
}

/// The macro a call head resolves to, if any.
fn macro_lookup_exec<'a>(store: &'a ProgramStore, ns: &String, s: &String) -> (r: Option<
    (String, &'a Code),
>)
    ensures
        r is Some <==> macro_lookup(store@, ns@, s@) is Some,
        r is Some ==> r->Some_0.0@ == macro_lookup(store@, ns@, s@)->Some_0.0
            && r->Some_0.1@ == macro_lookup(store@, ns@, s@)->Some_0.1,
{
    match store.lookup(ns, s) {
        Option::Some(c) => {
            if is_def_code(c, "defmacro") {
                Option::Some((ns.clone(), c))
            } else {
                Option::None
            }
        },
        Option::None => {
            let core = core_ns_string();
            match store.lookup(&core, s) {
                Option::Some(c) => {
                    if is_def_code(c, "defmacro") {
                        Option::Some((core, c))
                    } else {
                        Option::None
                    }
                },
                Option::None => Option::None,
            }
        },
    }
}

/// Applies macro-argument substitution to a template form.
fn subst_code(body: &Code, params: &Vec<String>, args: &Vec<Code>) -> (r: Code)
    ensures
        r@ == spec_subst(body@, name_views(params@), code_views_of(args@)),
    decreases *body, 0int,
{
    match body {
        Code::Leaf(s) => {
            proof {
                lemma_code_views_of(args@);
            }
            let mut i: usize = 0;
            #[verifier::loop_isolation(false)]
            while i < params.len()
                invariant
                    i <= params.len(),
                    forall|j: int| 0 <= j < i ==> name_views(params@)[j] != s@,
                decreases params.len() - i,
            {
                if params[i] == *s {
                    proof {
                        assert(name_views(params@)[i as int] == s@);
                        lemma_first_index_found(name_views(params@), s@, i as int);
                    }
                    if i < args.len() {
                        return args[i].clone();
                    } else {
                        return Code::Leaf(s.clone());
                    }
                }
                i = i + 1;
            }
            proof {
                lemma_first_index_none(name_views(params@), s@);
            }
            Code::Leaf(s.clone())
        },
        Code::Form(xs) => {
            proof {
                lemma_code_views_of(xs@);
            }
            let mut v: Vec<Code> = Vec::new();
            let mut i: usize = 0;
            #[verifier::loop_isolation(false)]
            while i < xs.len()
                invariant
                    i <= xs.len(),
                    v@.len() == i,
                    forall|j: int|
                        0 <= j < i ==> v@[j]@ == spec_subst(
                            xs@[j]@,
                            name_views(params@),
                            code_views_of(args@),
                        ),
                decreases xs.len() - i,
            {
                let c = subst_code(&xs[i], params, args);
                v.push(c);
                i = i + 1;
            }
            let r = Code::Form(v);
            proof {
                lemma_code_views_of(v@);
                lemma_spec_subst_list(code_views_of(xs@), name_views(params@), code_views_of(args@));
                assert(code_views_of(v@) =~= spec_subst_list(
                    code_views_of(xs@),
                    name_views(params@),
                    code_views_of(args@),
                ));
            }
            r
        },
    }
}

/// Preprocesses one leaf token.
fn pp_leaf(
    store: &ProgramStore,
    ns: &String,
    locals: &Vec<String>,
    s: &String,
    warnings: &mut Vec<LocatedWarning>,
    stack: &CallStackList,
    coord: &Vec<u8>,
) -> (r: Result<Expr, LocatedFailure>)
    ensures
        ({
            let step = spec_pp_leaf(store@, ns@, name_views(locals@), s@, stack@, coord@);
            &&& (r is Ok <==> step is Done)
            &&& (r is Ok ==> r->Ok_0@ == step->Done_0 && warning_views(final(warnings)@)
                == warning_views(old(warnings)@) + step->Done_1)
            &&& (r is Err ==> r->Err_0@ == step->Failed_0 && warning_views(final(warnings)@)
                == warning_views(old(warnings)@) + step->Failed_1)
        }),
{
    proof {
        assert(warning_views(warnings@) + Seq::<WarningView>::empty() =~= warning_views(
            warnings@,
        ));
    }
    if eq_str(s, "nil") {
        return Result::Ok(Expr::Nil);
    }
    if eq_str(s, "true") {
        return Result::Ok(Expr::BoolLit(true));
    }
    if eq_str(s, "false") {
        return Result::Ok(Expr::BoolLit(false));
    }
    if is_int_token_exec(s.as_str()) {
        match crate::strings::parse_int_token(s.as_str()) {
            Option::Some(n) => {
                return Result::Ok(Expr::NumLit(n));
            },
            Option::None => {
                return Result::Err(fail_here("number out of range", stack, Option::Some(coord)));
            },
        }
    }
    let sstr = s.as_str();
    let slen = sstr.unicode_len();
    if slen > 0 && sstr.get_char(0) == '|' {
        let rest = sstr.substring_char(1, slen).to_owned();
        proof {
            assert(rest@ =~= s@.skip(1));
        }
        return Result::Ok(Expr::StrLit(rest));
    }
    if slen > 0 && sstr.get_char(0) == ':' {
        let rest = sstr.substring_char(1, slen).to_owned();
        proof {
            assert(rest@ =~= s@.skip(1));
        }
        return Result::Ok(Expr::KwdLit(rest));
    }
    if contains_name(locals, s) {
        return Result::Ok(Expr::Local(s.clone()));
    }
    match store.lookup(ns, s) {
        Option::Some(c) => {
            if is_def_code(c, "defmacro") {
                return Result::Err(
                    fail_here("macro cannot be used as a value", stack, Option::Some(coord)),
                );
            } else {
                return Result::Ok(Expr::DefRef(ns.clone(), s.clone()));
            }
        },
        Option::None => {},
    }
    let core = core_ns_string();
    match store.lookup(&core, s) {
        Option::Some(c) => {
            if is_def_code(c, "defmacro") {
                return Result::Err(
                    fail_here("macro cannot be used as a value", stack, Option::Some(coord)),
                );
            } else {
                return Result::Ok(Expr::DefRef(core, s.clone()));
            }
        },
        Option::None => {},
    }
    if is_builtin_proc_exec(s) {
        return Result::Ok(Expr::ProcRef(s.clone()));
    }
    let msg = concat2("unresolved symbol: ", s.as_str());
    let w = LocatedWarning { message: msg, coord: Option::Some(clone_coord(coord)) };
    let ghost wv = w@;
    warnings.push(w);
    proof {
        assert(warning_views(warnings@) =~= warning_views(old(warnings)@) + seq![wv]);
    }
    Result::Ok(Expr::Unresolved(s.clone()))
}

/// Preprocesses one code form against the store.
fn pp_expr(
    store: &ProgramStore,
    ns: &String,
    locals: &Vec<String>,
    code: &Code,
    warnings: &mut Vec<LocatedWarning>,
    stack: &CallStackList,
    coord: &Vec<u8>,
    gas: u64,
) -> (r: Result<Expr, LocatedFailure>)
    ensures
        ({
            let step = spec_pp(
                store@,
                ns@,
                name_views(locals@),
                code@,
                stack@,
                coord@,
                gas as nat,
            );
            &&& (r is Ok <==> step is Done)
            &&& (r is Ok ==> r->Ok_0@ == step->Done_0 && warning_views(final(warnings)@)
                == warning_views(old(warnings)@) + step->Done_1)
            &&& (r is Err ==> r->Err_0@ == step->Failed_0 && warning_views(final(warnings)@)
                == warning_views(old(warnings)@) + step->Failed_1)
        }),
    decreases gas, *code, 1int, 0int,
{
    match code {
        Code::Leaf(s) => pp_leaf(store, ns, locals, s, warnings, stack, coord),
        Code::Form(xs) => {
            proof {
                lemma_code_views_of(xs@);
                assert(warning_views(warnings@) + Seq::<WarningView>::empty() =~= warning_views(
                    warnings@,
                ));
            }
            if xs.len() == 0 {
                return Result::Err(fail_here("empty form", stack, Option::Some(coord)));
            }
            let head_token: Option<&String> = match &xs[0] {
                Code::Leaf(h) => Option::Some(h),
                Code::Form(_) => Option::None,
            };
            match head_token {
                Option::None => pp_call(store, ns, locals, xs, warnings, stack, coord, gas),
                Option::Some(h) => {
                    if eq_str(h, "if") {
                        if xs.len() == 4 {
                            pp_if(store, ns, locals, xs, warnings, stack, coord, gas)
                        } else {
                            Result::Err(
                                fail_here("if expects 3 arguments", stack, Option::Some(coord)),
                            )
                        }
                    } else if eq_str(h, "defn") || eq_str(h, "defmacro") {
                        Result::Err(
                            fail_here(
                                "nested definition form is not supported",
                                stack,
                                Option::Some(coord),
                            ),
                        )
                    } else if !contains_name(locals, h) {
                        match macro_lookup_exec(store, ns, h) {
                            Option::Some((mns, mcode)) => {
                                let (mparams, mbody): (Vec<String>, &Code) = match mcode {
                                    Code::Form(mxs) => {
                                        proof {
                                            lemma_code_views_of(mxs@);
                                        }
                                        let ps = match &mxs[2] {
                                            Code::Form(ps) => extract_params(ps),
                                            Code::Leaf(_) => {
                                                proof {
                                                    assert(false);
                                                }
                                                Vec::new()
                                            },
                                        };
                                        (ps, &mxs[3])
                                    },
                                    Code::Leaf(_) => {
                                        proof {
                                            assert(false);
                                        }
                                        (Vec::new(), code)
                                    },
                                };
                                if xs.len() - 1 != mparams.len() {
                                    Result::Err(
                                        fail_here(
                                            "macro arity mismatch",
                                            stack,
                                            Option::Some(coord),
                                        ),
                                    )
                                } else if gas == 0 {
                                    Result::Err(
                                        fail_here(
                                            "macro expansion too deep",
                                            stack,
                                            Option::Some(coord),
                                        ),
                                    )
                                } else {
                                    let mut margs: Vec<Code> = Vec::new();
                                    let mut i: usize = 1;
                                    #[verifier::loop_isolation(false)]
                                    while i < xs.len()
                                        invariant
                                            1 <= i <= xs.len(),
                                            margs@.len() == i - 1,
                                            forall|j: int|
                                                0 <= j < i - 1 ==> margs@[j]@ == xs@[j + 1]@,
                                        decreases xs.len() - i,
                                    {
                                        margs.push(xs[i].clone());
                                        i = i + 1;
                                    }
                                    proof {
                                        lemma_code_views_of(margs@);
                                        assert(code_views_of(margs@) =~= code_views_of(xs@).skip(
                                            1,
                                        ));
                                    }
                                    let expanded = subst_code(mbody, &mparams, &margs);
                                    let frame = CalcitFrame::new(
                                        mns,
                                        h.clone(),
                                        Option::Some(clone_coord(coord)),
                                    );
                                    let stack2 = stack.push(frame);
                                    pp_expr(
                                        store,
                                        ns,
                                        locals,
                                        &expanded,
                                        warnings,
                                        &stack2,
                                        coord,
                                        gas - 1,
                                    )
                                }
                            },
                            Option::None => pp_call(
                                store,
                                ns,
                                locals,
                                xs,
                                warnings,
                                stack,
                                coord,
                                gas,
                            ),
                        }
                    } else {
                        pp_call(store, ns, locals, xs, warnings, stack, coord, gas)
                    }
                },
            }
        },
    }
}

/// Preprocesses the three children of an `if` form.
fn pp_if(
    store: &ProgramStore,
    ns: &String,
    locals: &Vec<String>,
    xs: &Vec<Code>,
    warnings: &mut Vec<LocatedWarning>,
    stack: &CallStackList,
    coord: &Vec<u8>,
    gas: u64,
) -> (r: Result<Expr, LocatedFailure>)
    requires
        xs@.len() == 4,
    ensures
        ({
            let step = spec_pp_if(
                store@,
                ns@,
                name_views(locals@),
                code_views_of(xs@),
                stack@,
                coord@,
                gas as nat,
            );
            &&& (r is Ok <==> step is Done)
            &&& (r is Ok ==> r->Ok_0@ == step->Done_0 && warning_views(final(warnings)@)
                == warning_views(old(warnings)@) + step->Done_1)
            &&& (r is Err ==> r->Err_0@ == step->Failed_0 && warning_views(final(warnings)@)
                == warning_views(old(warnings)@) + step->Failed_1)
        }),
    decreases gas, *xs, 0int, 0int,
{
    proof {
        lemma_code_views_of(xs@);
    }
    let ghost wv0 = warning_views(warnings@);
    let ghost step1 = spec_pp(
        store@,
        ns@,
        name_views(locals@),
        code_views_of(xs@)[1],
        stack@,
        coord@.push(idx_byte(1)),
        gas as nat,
    );
    let ghost step2 = spec_pp(
        store@,
        ns@,
        name_views(locals@),
        code_views_of(xs@)[2],
        stack@,
        coord@.push(idx_byte(2)),
        gas as nat,
    );
    let ghost step3 = spec_pp(
        store@,
        ns@,
        name_views(locals@),
        code_views_of(xs@)[3],
        stack@,
        coord@.push(idx_byte(3)),
        gas as nat,
    );
    let mut c1 = clone_coord(coord);
    c1.push(idx_byte_exec(1));
    let cond = match pp_expr(store, ns, locals, &xs[1], warnings, stack, &c1, gas) {
        Result::Ok(e) => e,
        Result::Err(f) => {
            return Result::Err(f);
        },
    };
    let mut c2 = clone_coord(coord);
    c2.push(idx_byte_exec(2));
    let then_e = match pp_expr(store, ns, locals, &xs[2], warnings, stack, &c2, gas) {
        Result::Ok(e) => e,
        Result::Err(f) => {
            proof {
                lemma_seq_assoc(wv0, step1->Done_1, step2->Failed_1);
            }
            return Result::Err(f);
        },
    };
    let mut c3 = clone_coord(coord);
    c3.push(idx_byte_exec(3));
    let else_e = match pp_expr(store, ns, locals, &xs[3], warnings, stack, &c3, gas) {
        Result::Ok(e) => e,
        Result::Err(f) => {
            proof {
                lemma_seq_assoc(wv0, step1->Done_1, step2->Done_1);
                lemma_seq_assoc(wv0, step1->Done_1 + step2->Done_1, step3->Failed_1);
                lemma_seq_assoc(step1->Done_1, step2->Done_1, step3->Failed_1);
            }
            return Result::Err(f);
        },
    };
    proof {
        lemma_seq_assoc(wv0, step1->Done_1, step2->Done_1);
        lemma_seq_assoc(wv0, step1->Done_1 + step2->Done_1, step3->Done_1);
        lemma_seq_assoc(step1->Done_1, step2->Done_1, step3->Done_1);
    }
    Result::Ok(Expr::CondIf(Box::new(cond), Box::new(then_e), Box::new(else_e)))
}

/// Preprocesses a plain call form: every child, in order.
fn pp_call(
    store: &ProgramStore,
    ns: &String,
    locals: &Vec<String>,
    xs: &Vec<Code>,
    warnings: &mut Vec<LocatedWarning>,
    stack: &CallStackList,
    coord: &Vec<u8>,
    gas: u64,
) -> (r: Result<Expr, LocatedFailure>)
    ensures
        ({
            let step = spec_pp_call(
                store@,
                ns@,
                name_views(locals@),
                code_views_of(xs@),
                stack@,
                coord@,
                gas as nat,
            );
            &&& (r is Ok <==> step is Done)
            &&& (r is Ok ==> r->Ok_0@ == step->Done_0 && warning_views(final(warnings)@)
                == warning_views(old(warnings)@) + step->Done_1)
            &&& (r is Err ==> r->Err_0@ == step->Failed_0 && warning_views(final(warnings)@)
                == warning_views(old(warnings)@) + step->Failed_1)
        }),
    decreases gas, *xs, 0int, xs@.len() + 1,
{
    match pp_args(store, ns, locals, xs, 0, warnings, stack, coord, gas) {
        Result::Ok(es) => {
            let r = Expr::Call(es);
            Result::Ok(r)
        },
        Result::Err(f) => Result::Err(f),
    }
}

/// Preprocesses the children from position `k` on, in order.
fn pp_args(
    store: &ProgramStore,
    ns: &String,
    locals: &Vec<String>,
    xs: &Vec<Code>,
    k: usize,
    warnings: &mut Vec<LocatedWarning>,
    stack: &CallStackList,
    coord: &Vec<u8>,
    gas: u64,
) -> (r: Result<Vec<Expr>, LocatedFailure>)
    ensures
        ({
            let step = spec_pp_args(
                store@,
                ns@,
                name_views(locals@),
                code_views_of(xs@),
                k as int,
                stack@,
                coord@,
                gas as nat,
            );
            &&& (r is Ok <==> step is DoneL)
            &&& (r is Ok ==> crate::expr::expr_views_of(r->Ok_0@) == step->DoneL_0
                && warning_views(final(warnings)@) == warning_views(old(warnings)@)
                + step->DoneL_1)
            &&& (r is Err ==> r->Err_0@ == step->FailedL_0 && warning_views(final(warnings)@)
                == warning_views(old(warnings)@) + step->FailedL_1)
        }),
    decreases gas, *xs, 0int, (if (k as int) < xs@.len() { xs@.len() - k } else { 0int }),
{
    proof {
        lemma_code_views_of(xs@);
    }
    if k >= xs.len() {
        proof {
            assert(warning_views(warnings@) + Seq::<WarningView>::empty() =~= warning_views(
                warnings@,
            ));
            assert(crate::expr::expr_views_of(Seq::<Expr>::empty()) =~= Seq::<
                ExprView,
            >::empty());
        }
        return Result::Ok(Vec::new());
    }
    let mut ck = clone_coord(coord);
    ck.push(idx_byte_exec(k));
    let e = match pp_expr(store, ns, locals, &xs[k], warnings, stack, &ck, gas) {
        Result::Ok(e) => e,
        Result::Err(f) => {
            return Result::Err(f);
        },
    };
    let ghost wv0 = warning_views(old(warnings)@);
    let ghost stepc = spec_pp(
        store@,
        ns@,
        name_views(locals@),
        code_views_of(xs@)[k as int],
        stack@,
        coord@.push(idx_byte(k as int)),
        gas as nat,
    );
    let ghost steprest = spec_pp_args(
        store@,
        ns@,
        name_views(locals@),
        code_views_of(xs@),
        k + 1,
        stack@,
        coord@,
        gas as nat,
    );
    match pp_args(store, ns, locals, xs, k + 1, warnings, stack, coord, gas) {
        Result::Ok(mut es) => {
            let ghost es0 = es@;
            es.insert(0, e);
            proof {
                crate::expr::lemma_expr_views_of(es@);
                crate::expr::lemma_expr_views_of(es0);
                assert(crate::expr::expr_views_of(es@) =~= Seq::<ExprView>::empty().push(e@)
                    + crate::expr::expr_views_of(es0));
                lemma_seq_assoc(wv0, stepc->Done_1, steprest->DoneL_1);
            }
            Result::Ok(es)
        },
        Result::Err(f) => {
            proof {
                lemma_seq_assoc(wv0, stepc->Done_1, steprest->FailedL_1);
            }
            Result::Err(f)
        },
    }
}

/// Preprocesses one definition of one namespace against the store: the
/// entry point both backends share. Warnings are appended, in traversal
/// order, to the given sink; a failure carries the stack captured at the
/// failure point and leaves the store untouched.
pub fn preprocess_ns_def(
    store: &ProgramStore,
    ns: &String,
    def: &String,
    warnings: &mut Vec<LocatedWarning>,
    stack: &CallStackList,
) -> (r: Result<Expr, LocatedFailure>)
    ensures
        ({
            let step = spec_pp_def(store@, ns@, def@, stack@, expand_gas());
            &&& (r is Ok <==> step is Done)
            &&& (r is Ok ==> r->Ok_0@ == step->Done_0 && warning_views(final(warnings)@)
                == warning_views(old(warnings)@) + step->Done_1)
            &&& (r is Err ==> r->Err_0@ == step->Failed_0 && warning_views(final(warnings)@)
                == warning_views(old(warnings)@) + step->Failed_1)
        }),
{
    proof {
        assert(warning_views(warnings@) + Seq::<WarningView>::empty() =~= warning_views(
            warnings@,
        ));
    }
    if !store.has_ns(ns) {
        return Result::Err(
            LocatedFailure {
                message: concat2("namespace not found: ", ns.as_str()),
                stack: stack.clone(),
                coord: Option::None,
            },
        );
    }
    let code = match store.lookup(ns, def) {
        Option::Some(c) => c,
        Option::None => {
            let mut m = String::new();
            m.append("definition not found: ");
            m.append(ns.as_str());
            m.append("/");
            m.append(def.as_str());
            proof {
                assert(m@ =~= msg_missing_def(ns@, def@));
            }
            return Result::Err(
                LocatedFailure { message: m, stack: stack.clone(), coord: Option::None },
            );
        },
    };
    let frame = CalcitFrame::new(ns.clone(), def.clone(), Option::None);
    let stack2 = stack.push(frame);
    if is_def_code(code, "defn") {
        match code {
            Code::Form(cxs) => {
                proof {
                    lemma_code_views_of(cxs@);
                }
                let params = match &cxs[2] {
                    Code::Form(ps) => extract_params(ps),
                    Code::Leaf(_) => {
                        proof {
                            assert(false);
                        }
                        Vec::new()
                    },
                };
                let name = match &cxs[1] {
                    Code::Leaf(t) => t.clone(),
                    Code::Form(_) => {
                        proof {
                            assert(false);
                        }
                        String::new()
                    },
                };
                let mut coord3: Vec<u8> = Vec::new();
                coord3.push(3);
                proof {
                    assert(coord3@ =~= seq![3u8]);
                }
                match pp_expr(store, ns, &params, &cxs[3], warnings, &stack2, &coord3, 100) {
                    Result::Ok(b) => Result::Ok(
                        Expr::Defn { name, params, body: Box::new(b) },
                    ),
                    Result::Err(f) => Result::Err(f),
                }
            },
            Code::Leaf(_) => {
                proof {
                    assert(false);
                }
                Result::Err(fail_here("malformed definition form", stack, Option::None))
            },
        }
    } else if is_def_code(code, "defmacro") {
        Result::Err(
            LocatedFailure {
                message: "macro cannot be used as a value".to_owned(),
                stack: stack2,
                coord: Option::None,
            },
        )
    } else {
        let empty_locals: Vec<String> = Vec::new();
        let coord0: Vec<u8> = Vec::new();
        proof {
            assert(name_views(empty_locals@) =~= Seq::<Seq<char>>::empty());
            assert(coord0@ =~= Seq::<u8>::empty());
        }
        pp_expr(store, ns, &empty_locals, code, warnings, &stack2, &coord0, 100)
    }
}

} // verus!
