//! The code-generation backends. Source emission produces one output unit
//! per namespace plus a fixed-name sentinel diagnostics unit whose body is
//! either a null marker (no errors) or an escaped diagnostic text; the
//! sentinel is the channel outside tooling polls for failure. Both the
//! init and the reload entry are preprocessed before anything is emitted,
//! and source generation refuses to ship while any warning is
//! outstanding. Intermediate-representation emission produces a single
//! portable unit for the two entries instead of per-namespace sources.

use vstd::prelude::*;
use crate::code::{code_views_of, Code, CodeView};
use crate::diagnostics::{
    spec_warnings_joined, warnings_joined, FailureView, LocatedFailure, LocatedWarning,
};
use crate::entries::{EntriesView, ProgramEntries};
use crate::expr::{expr_views_of, lemma_expr_views_of, Expr, ExprView};
use crate::preprocess::{
    expand_gas, fail_at, preprocess_ns_def, spec_pp_def, warning_views, PpStep,
};
use crate::stack::CallStackList;
use crate::store::ProgramStore;
use crate::table::NameTable;
use crate::strings::{
    escape_for_literal, i64_to_string, spec_escape, spec_i64_string, spec_u64_digits,
    u64_to_string,
};

verus! {

broadcast use vstd::std_specs::vec::group_vec_axioms, vstd::seq::group_seq_axioms;

/// The sentinel unit's base name.
pub open spec fn errors_file_name() -> Seq<char> {
    "calcit.build-errors.js"@
}

/// The sentinel unit's base name.
pub fn errors_file_string() -> (r: String)
    ensures
        r@ == errors_file_name(),
{
    "calcit.build-errors.js".to_owned()
}

/// The sentinel body written when there is nothing to report.
pub open spec fn sentinel_null() -> Seq<char> {
    "export default null;"@
}

/// The sentinel body carrying a diagnostic text, escaped for embedding.
pub open spec fn sentinel_with(msg: Seq<char>) -> Seq<char> {
    "export default \""@ + spec_escape(msg) + "\";"@
}

/// Builds the null-marker sentinel body.
pub fn make_null_sentinel() -> (r: String)
    ensures
        r@ == sentinel_null(),
{
    "export default null;".to_owned()
}

/// Builds a diagnostic sentinel body.
pub fn make_error_sentinel(msg: &str) -> (r: String)
    ensures
        r@ == sentinel_with(msg@),
{
    let mut out = String::new();
    out.append("export default \"");
    let esc = escape_for_literal(msg);
    out.append(esc.as_str());
    out.append("\";");
    proof {
        assert(out@ =~= sentinel_with(msg@));
    }
    out
}

/// The message that blocks source emission over outstanding warnings,
/// naming the sentinel file a developer should open.
pub open spec fn warnings_blocked_message(n: nat) -> Seq<char> {
    "Found "@ + spec_u64_digits(n) + " warnings, codegen blocked. errors in "@
        + errors_file_name()
}

/// One output unit: a file base name and its full body.
#[derive(Debug)]
pub struct OutUnit {
    pub name: String,
    pub content: String,
}

/// Mathematical image of an output unit.
pub struct OutUnitView {
    pub name: Seq<char>,
    pub content: Seq<char>,
}

impl View for OutUnit {
    type V = OutUnitView;

    open spec fn view(&self) -> OutUnitView {
        OutUnitView { name: self.name@, content: self.content@ }
    }
}

/// A refused generation: what the sentinel should say, when one is owed,
/// and the failure itself — message, captured stack and coordinate — so
/// the caller can render a full backtrace. A refusal over outstanding
/// warnings carries an empty stack: it is a policy gate, not a descent.
#[derive(Debug)]
pub struct CodegenBlocked {
    pub sentinel: Option<String>,
    pub failure: LocatedFailure,
}

/// A code form rendered back to text: tokens as themselves, lists in
/// parentheses with single spaces between children.
pub open spec fn spec_render_code(c: CodeView) -> Seq<char>
    decreases c, 0int,
{
    match c {
        CodeView::Leaf(s) => s,
        CodeView::Form(xs) => "("@ + spec_render_children_at(xs, 0) + ")"@,
    }
}

/// The rendering of a child sequence, named for the list case.
pub open spec fn spec_render_children_at(xs: Seq<CodeView>, unused: int) -> Seq<char>
    decreases xs, 2int,
{
    spec_render_children(xs)
}

/// Children rendered left to right, separated by single spaces.
pub open spec fn spec_render_children(xs: Seq<CodeView>) -> Seq<char>
    decreases xs, 1int,
{
    if xs.len() == 0 {
        Seq::empty()
    } else if xs.len() == 1 {
        spec_render_code(xs[0])
    } else {
        spec_render_children(xs.drop_last()) + " "@ + spec_render_code(xs.last())
    }
}

/// Renders a code form back to text.
pub fn render_code(c: &Code) -> (r: String)
    ensures
        r@ == spec_render_code(c@),
    decreases *c,
{
    match c {
        Code::Leaf(s) => s.clone(),
        Code::Form(xs) => {
            let mut out = String::new();
            out.append("(");
            let ghost views = code_views_of(xs@);
            proof {
                crate::code::lemma_code_views_of(xs@);
                assert(views.take(0) =~= Seq::<CodeView>::empty());
            }
            let mut i: usize = 0;
            #[verifier::loop_isolation(false)]
            while i < xs.len()
                invariant
                    i <= xs.len(),
                    out@ == "("@ + spec_render_children(views.take(i as int)),
                decreases xs.len() - i,
            {
                if i > 0 {
                    out.append(" ");
                }
                let t = render_code(&xs[i]);
                out.append(t.as_str());
                proof {
                    assert(views.take(i + 1).drop_last() =~= views.take(i as int));
                    assert(views.take(i + 1).last() == views[i as int]);
                    assert(out@ =~= "("@ + spec_render_children(views.take(i + 1)));
                }
                i = i + 1;
            }
            out.append(")");
            proof {
                assert(views.take(views.len() as int) =~= views);
            }
            out
        },
    }
}

/// Parameter names joined by single spaces.
pub open spec fn spec_names_joined(ns: Seq<Seq<char>>) -> Seq<char>
    decreases ns.len(),
{
    if ns.len() == 0 {
        Seq::empty()
    } else if ns.len() == 1 {
        ns[0]
    } else {
        spec_names_joined(ns.drop_last()) + " "@ + ns.last()
    }
}

/// A normalized expression rendered as target text: literals as
/// themselves, resolved references by their full names, calls and special
/// forms in parentheses.
pub open spec fn spec_render_expr(e: ExprView) -> Seq<char>
    decreases e, 0int,
{
    match e {
        ExprView::Nil => "nil"@,
        ExprView::BoolLit(b) => if b {
            "true"@
        } else {
            "false"@
        },
        ExprView::NumLit(n) => spec_i64_string(n as int),
        ExprView::StrLit(s) => "\""@ + spec_escape(s) + "\""@,
        ExprView::KwdLit(s) => ":"@ + s,
        ExprView::Local(s) => s,
        ExprView::DefRef(ns, d) => ns + "/"@ + d,
        ExprView::ProcRef(p) => p,
        ExprView::Unresolved(s) => s,
        ExprView::Call(xs) => "("@ + spec_render_exprs_at(xs, 0) + ")"@,
        ExprView::CondIf(c, t, f) => "(if "@ + spec_render_expr(*c) + " "@ + spec_render_expr(
            *t,
        ) + " "@ + spec_render_expr(*f) + ")"@,
        ExprView::Defn { name, params, body } => "(defn "@ + name + " ("@ + spec_names_joined(
            params,
        ) + ") "@ + spec_render_expr(*body) + ")"@,
    }
}

/// The rendering of an expression sequence, named for the call case.
pub open spec fn spec_render_exprs_at(xs: Seq<ExprView>, unused: int) -> Seq<char>
    decreases xs, 2int,
{
    spec_render_exprs(xs)
}

/// Expressions rendered left to right, separated by single spaces.
pub open spec fn spec_render_exprs(xs: Seq<ExprView>) -> Seq<char>
    decreases xs, 1int,
{
    if xs.len() == 0 {
        Seq::empty()
    } else if xs.len() == 1 {
        spec_render_expr(xs[0])
    } else {
        spec_render_exprs(xs.drop_last()) + " "@ + spec_render_expr(xs.last())
    }
}

/// Joins parameter names with single spaces.
fn render_names(ns: &Vec<String>) -> (r: String)
    ensures
        r@ == spec_names_joined(crate::expr::name_views(ns@)),
{
    let ghost views = crate::expr::name_views(ns@);
    let mut out = String::new();
    let mut i: usize = 0;
    proof {
        assert(views.take(0) =~= Seq::<Seq<char>>::empty());
    }
    while i < ns.len()
        invariant
            ns@.len() == views.len(),
            forall|k: int| 0 <= k < views.len() ==> views[k] == ns@[k]@,
            i <= views.len(),
            out@ == spec_names_joined(views.take(i as int)),
        decreases views.len() - i,
    {
        if i > 0 {
            out.append(" ");
        }
        out.append(ns[i].as_str());
        proof {
            assert(views.take(i + 1).drop_last() =~= views.take(i as int));
            assert(views.take(i + 1).last() == views[i as int]);
            assert(out@ =~= spec_names_joined(views.take(i + 1)));
        }
        i = i + 1;
    }
    proof {
        assert(views.take(views.len() as int) =~= views);
    }
    out
}

/// Renders a normalized expression as target text.
pub fn render_expr(e: &Expr) -> (r: String)
    ensures
        r@ == spec_render_expr(e@),
    decreases *e,
{
    match e {
        Expr::Nil => "nil".to_owned(),
        Expr::BoolLit(b) => if *b {
            "true".to_owned()
        } else {
            "false".to_owned()
        },
        Expr::NumLit(n) => i64_to_string(*n),
        Expr::StrLit(s) => {
            let mut out = String::new();
            out.append("\"");
            let esc = escape_for_literal(s.as_str());
            out.append(esc.as_str());
            out.append("\"");
            out
        },
        Expr::KwdLit(s) => {
            let mut out = String::new();
            out.append(":");
            out.append(s.as_str());
            out
        },
        Expr::Local(s) => s.clone(),
        Expr::DefRef(ns, d) => {
            let mut out = ns.clone();
            out.append("/");
            out.append(d.as_str());
            out
        },
        Expr::ProcRef(p) => p.clone(),
        Expr::Unresolved(s) => s.clone(),
        Expr::Call(xs) => {
            proof {
                lemma_expr_views_of(xs@);
            }
            let ghost views = expr_views_of(xs@);
            let mut out = String::new();
            out.append("(");
            proof {
                assert(views.take(0) =~= Seq::<ExprView>::empty());
            }
            let mut i: usize = 0;
            #[verifier::loop_isolation(false)]
            while i < xs.len()
                invariant
                    i <= xs.len(),
                    out@ == "("@ + spec_render_exprs(views.take(i as int)),
                decreases xs.len() - i,
            {
                if i > 0 {
                    out.append(" ");
                }
                let t = render_expr(&xs[i]);
                out.append(t.as_str());
                proof {
                    assert(views.take(i + 1).drop_last() =~= views.take(i as int));
                    assert(views.take(i + 1).last() == views[i as int]);
                    assert(out@ =~= "("@ + spec_render_exprs(views.take(i + 1)));
                }
                i = i + 1;
            }
            out.append(")");
            proof {
                assert(views.take(views.len() as int) =~= views);
                assert(spec_render_exprs_at(views, 0) == spec_render_exprs(views));
            }
            out
        },
        Expr::CondIf(c, t, f) => {
            let mut out = String::new();
            out.append("(if ");
            let rc = render_expr(c);
            out.append(rc.as_str());
            out.append(" ");
            let rt = render_expr(t);
            out.append(rt.as_str());
            out.append(" ");
            let rf = render_expr(f);
            out.append(rf.as_str());
            out.append(")");
            out
        },
        Expr::Defn { name, params, body } => {
            let mut out = String::new();
            out.append("(defn ");
            out.append(name.as_str());
            out.append(" (");
            let ps = render_names(params);
            out.append(ps.as_str());
            out.append(") ");
            let rb = render_expr(body);
            out.append(rb.as_str());
            out.append(")");
            out
        },
    }
}

/// What emitting one namespace's definitions yields: the unit body, or
/// the first definition's failure.
pub enum DefsOut {
    DefsDone(Seq<char>),
    DefsFail(FailureView),
}

/// The normalized rendering of namespace `i`'s definitions from position
/// `k` on, one line each, in stored order. Macro definitions exist only
/// for expansion and are not emitted; the first other definition that
/// fails to preprocess fails the whole unit.
pub open spec fn spec_unit_defs(store: ProgramStore, i: int, k: int) -> DefsOut
    decreases (if k < store.ns_table_at(i).names().len() {
        store.ns_table_at(i).names().len() - k
    } else {
        0int
    }),
{
    let defs = store.ns_table_at(i);
    if k < 0 || k >= defs.names().len() {
        DefsOut::DefsDone(Seq::empty())
    } else if crate::preprocess::is_defmacro_form(defs.vals()[k]) {
        spec_unit_defs(store, i, k + 1)
    } else {
        match spec_pp_def(
            store@,
            store.ns_order()[i],
            defs.names()[k],
            Seq::empty(),
            expand_gas(),
        ) {
            PpStep::Failed(f, _) => DefsOut::DefsFail(f),
            PpStep::Done(e, _) => match spec_unit_defs(store, i, k + 1) {
                DefsOut::DefsFail(f) => DefsOut::DefsFail(f),
                DefsOut::DefsDone(t) => DefsOut::DefsDone(
                    defs.names()[k] + " = "@ + spec_render_expr(e) + "\n"@ + t,
                ),
            },
        }
    }
}

/// What code generation decides, before any file is written./// What code generation decides, before any file is written.
pub enum CgOut {
    Emit(Seq<OutUnitView>),
    Blocked(Option<Seq<char>>, FailureView),
}

/// What emitting every namespace yields.
pub enum UnitsOut {
    UnitsDone(Seq<OutUnitView>),
    UnitsFail(FailureView),
}

/// The source units for the namespaces from position `k` on, each one
/// translating its definitions' normalized forms; the first namespace
/// that fails to preprocess fails the whole emission.
pub open spec fn spec_source_units(store: ProgramStore, k: int) -> UnitsOut
    decreases (if k < store.ns_order().len() { store.ns_order().len() - k } else { 0int }),
{
    if k < 0 || k >= store.ns_order().len() {
        UnitsOut::UnitsDone(Seq::empty())
    } else {
        match spec_unit_defs(store, k, 0) {
            DefsOut::DefsFail(f) => UnitsOut::UnitsFail(f),
            DefsOut::DefsDone(body) => match spec_source_units(store, k + 1) {
                UnitsOut::UnitsFail(f) => UnitsOut::UnitsFail(f),
                UnitsOut::UnitsDone(us) => UnitsOut::UnitsDone(
                    Seq::empty().push(
                        OutUnitView { name: store.ns_order()[k] + ".js"@, content: body },
                    ) + us,
                ),
            },
        }
    }
}

/// When every namespace up to the end emits cleanly, the unit sequence
/// is the pointwise rendering of each namespace.
proof fn lemma_source_units_done(store: ProgramStore, k: int)
    requires
        0 <= k <= store.ns_order().len(),
        forall|j: int|
            k <= j < store.ns_order().len() ==> #[trigger] spec_unit_defs(store, j, 0)
                is DefsDone,
    ensures
        spec_source_units(store, k) is UnitsDone,
        spec_source_units(store, k)->UnitsDone_0.len() == store.ns_order().len() - k,
        forall|j: int|
            k <= j < store.ns_order().len() ==> spec_source_units(store, k)->UnitsDone_0[j - k]
                == (OutUnitView {
                name: store.ns_order()[j] + ".js"@,
                content: spec_unit_defs(store, j, 0)->DefsDone_0,
            }),
    decreases store.ns_order().len() - k,
{
    if k < store.ns_order().len() {
        lemma_source_units_done(store, k + 1);
    }
}

/// When the first failing namespace is `i`, the whole emission fails
/// with that namespace's failure.
proof fn lemma_source_units_fail(store: ProgramStore, k: int, i: int)
    requires
        0 <= k <= i < store.ns_order().len(),
        forall|j: int| k <= j < i ==> #[trigger] spec_unit_defs(store, j, 0) is DefsDone,
        spec_unit_defs(store, i, 0) is DefsFail,
    ensures
        spec_source_units(store, k) is UnitsFail,
        spec_source_units(store, k)->UnitsFail_0 == spec_unit_defs(store, i, 0)->DefsFail_0,
    decreases i - k,
{
    if k < i {
        lemma_source_units_fail(store, k + 1, i);
    }
}

/// The single intermediate-representation unit/// The single intermediate-representation unit: the entry names and the
/// two entries' preprocessed (normalized) forms.
pub open spec fn spec_ir_unit(
    entries: EntriesView,
    init_e: ExprView,
    reload_e: ExprView,
) -> OutUnitView {
    OutUnitView {
        name: "program-ir.cirru"@,
        content: "entries "@ + entries.init_fn + " "@ + entries.reload_fn + "\n"@
            + spec_render_expr(init_e) + "\n"@ + spec_render_expr(reload_e) + "\n"@,
    }
}

/// The warnings gate of source emission: with no warning outstanding the
/// pass is clear; with any, emission is refused, the joined warning text
/// becomes the sentinel body, and the failure message counts the warnings
/// and names the sentinel file.
pub fn throw_on_js_warnings(warnings: &Vec<LocatedWarning>) -> (r: Result<(), CodegenBlocked>)
    ensures
        r is Ok <==> warnings@.len() == 0,
        r is Err ==> r->Err_0.sentinel is Some && r->Err_0.sentinel->Some_0@ == sentinel_with(
            spec_warnings_joined(warning_views(warnings@)),
        ) && r->Err_0.failure@ == fail_at(
            warnings_blocked_message(warnings@.len() as nat),
            Seq::empty(),
            Option::None,
        ),
{
    if warnings.len() > 0 {
        let joined = warnings_joined(warnings);
        let sentinel = make_error_sentinel(joined.as_str());
        let mut msg = String::new();
        msg.append("Found ");
        let n = u64_to_string(warnings.len() as u64);
        msg.append(n.as_str());
        msg.append(" warnings, codegen blocked. errors in ");
        msg.append("calcit.build-errors.js");
        proof {
            assert(msg@ =~= warnings_blocked_message(warnings@.len() as nat));
            assert(Seq::new(warnings@.len(), |i: int| warnings@[i]@) =~= warning_views(
                warnings@,
            ));
        }
        let failure = LocatedFailure {
            message: msg,
            stack: CallStackList::default(),
            coord: Option::None,
        };
        Result::Err(CodegenBlocked { sentinel: Option::Some(sentinel), failure })
    } else {
        Result::Ok(())
    }
}

/// The whole decision of one generation run: preprocess the init entry,
/// then the reload entry; a preprocessing failure blocks emission (the
/// init entry's failure is also written to the sentinel); any outstanding
/// warning blocks emission and is written to the sentinel; otherwise the
/// sentinel holds the null marker and every unit is emitted.
pub open spec fn spec_run_codegen(
    store: ProgramStore,
    entries: EntriesView,
    ir_mode: bool,
) -> CgOut {
    let init_step = spec_pp_def(
        store@,
        entries.init_ns,
        entries.init_def,
        Seq::empty(),
        expand_gas(),
    );
    match init_step {
        PpStep::Failed(f, _) => CgOut::Blocked(
            Option::Some(sentinel_with("Preprocessing failed:\n"@ + f.message)),
            f,
        ),
        PpStep::Done(_, w_init) => {
            let reload_step = spec_pp_def(
                store@,
                entries.reload_ns,
                entries.reload_def,
                Seq::empty(),
                expand_gas(),
            );
            match reload_step {
                PpStep::Failed(f, _) => CgOut::Blocked(Option::None, f),
                PpStep::Done(_, w_reload) => {
                    let warnings = w_init + w_reload;
                    if warnings.len() > 0 {
                        CgOut::Blocked(
                            Option::Some(
                                sentinel_with(spec_warnings_joined(warnings)),
                            ),
                            fail_at(
                                warnings_blocked_message(warnings.len()),
                                Seq::empty(),
                                Option::None,
                            ),
                        )
                    } else {
                        let sentinel = OutUnitView {
                            name: errors_file_name(),
                            content: sentinel_null(),
                        };
                        if ir_mode {
                            CgOut::Emit(
                                Seq::empty().push(sentinel).push(
                                    spec_ir_unit(
                                        entries,
                                        init_step->Done_0,
                                        reload_step->Done_0,
                                    ),
                                ),
                            )
                        } else {
                            match spec_source_units(store, 0) {
                                UnitsOut::UnitsFail(f) => CgOut::Blocked(
                                    Option::Some(
                                        sentinel_with("Generation failed:\n"@ + f.message),
                                    ),
                                    f,
                                ),
                                UnitsOut::UnitsDone(us) => CgOut::Emit(
                                    Seq::empty().push(sentinel) + us,
                                ),
                            }
                        }
                    }
                },
            }
        },
    }
}

/// Emits namespace `i`'s definitions from position `k` on, translating
/// each definition's normalized form.
fn emit_defs_from(store: &ProgramStore, i: usize, k: usize) -> (r: Result<
    String,
    LocatedFailure,
>)
    requires
        i < store.ns_order().len(),
    ensures
        r is Ok <==> spec_unit_defs(*store, i as int, k as int) is DefsDone,
        r is Ok ==> r->Ok_0@ == spec_unit_defs(*store, i as int, k as int)->DefsDone_0,
        r is Err ==> r->Err_0@ == spec_unit_defs(*store, i as int, k as int)->DefsFail_0,
    decreases (if (k as int) < store.ns_table_at(i as int).names().len() {
        store.ns_table_at(i as int).names().len() - k
    } else {
        0int
    }),
{
    let (ns_name, defs) = store.ns_at(i);
    let n = defs.len();
    if k >= n {
        return Result::Ok(String::new());
    }
    let (def_name, def_code) = defs.entry_at(k);
    if crate::preprocess::is_def_code(def_code, "defmacro") {
        return emit_defs_from(store, i, k + 1);
    }
    let empty_stack = CallStackList::default();
    let mut sink: Vec<LocatedWarning> = Vec::new();
    let e = match preprocess_ns_def(store, ns_name, def_name, &mut sink, &empty_stack) {
        Result::Ok(e) => e,
        Result::Err(f) => {
            return Result::Err(f);
        },
    };
    let rest = match emit_defs_from(store, i, k + 1) {
        Result::Ok(t) => t,
        Result::Err(f) => {
            return Result::Err(f);
        },
    };
    let mut line = def_name.clone();
    line.append(" = ");
    let re = render_expr(&e);
    line.append(re.as_str());
    line.append("\n");
    let out = line.concat(rest.as_str());
    proof {
        assert(out@ =~= spec_unit_defs(*store, i as int, k as int)->DefsDone_0);
    }
    Result::Ok(out)
}

/// Runs code generation: preprocesses both entries, refuses to emit while
/// warnings are outstanding (returning the sentinel body to write), and
/// otherwise returns every output unit, the null-marker sentinel first.
/// A refusal keeps the failure whole — message, captured stack and
/// coordinate — for the caller to render. Nothing here touches a file:
/// the caller writes the units out.
pub fn run_codegen(store: &ProgramStore, entries: &ProgramEntries, ir_mode: bool) -> (r: Result<
    Vec<OutUnit>,
    CodegenBlocked,
>)
    ensures
        ({
            let cg = spec_run_codegen(*store, entries@, ir_mode);
            &&& (r is Ok <==> cg is Emit)
            &&& (r is Ok ==> Seq::new(r->Ok_0@.len(), |i: int| r->Ok_0@[i]@) == cg->Emit_0)
            &&& (r is Err ==> {
                &&& (r->Err_0.sentinel is Some <==> cg->Blocked_0 is Some)
                &&& (r->Err_0.sentinel is Some ==> r->Err_0.sentinel->Some_0@
                    == cg->Blocked_0->Some_0)
                &&& r->Err_0.failure@ == cg->Blocked_1
            })
        }),
{
    let empty_stack = CallStackList::default();
    let mut warnings: Vec<LocatedWarning> = Vec::new();
    let ghost w0 = warning_views(warnings@);
    let init_expr = match preprocess_ns_def(
        store,
        &entries.init_ns,
        &entries.init_def,
        &mut warnings,
        &empty_stack,
    ) {
        Result::Err(f) => {
            let mut diag = String::new();
            diag.append("Preprocessing failed:\n");
            diag.append(f.message.as_str());
            proof {
                assert(diag@ =~= "Preprocessing failed:\n"@ + f.message@);
            }
            let sentinel = make_error_sentinel(diag.as_str());
            return Result::Err(
                CodegenBlocked { sentinel: Option::Some(sentinel), failure: f },
            );
        },
        Result::Ok(e) => e,
    };
    let ghost w_init = warning_views(warnings@);
    let reload_expr = match preprocess_ns_def(
        store,
        &entries.reload_ns,
        &entries.reload_def,
        &mut warnings,
        &empty_stack,
    ) {
        Result::Err(f) => {
            return Result::Err(CodegenBlocked { sentinel: Option::None, failure: f });
        },
        Result::Ok(e) => e,
    };
    proof {
        assert(warning_views(warnings@) =~= warning_views(warnings@).take(
            warning_views(warnings@).len() as int,
        ));
    }
    match throw_on_js_warnings(&warnings) {
        Result::Err(blocked) => {
            proof {
                assert(Seq::new(warnings@.len(), |i: int| warnings@[i]@) =~= warning_views(
                    warnings@,
                ));
            }
            return Result::Err(blocked);
        },
        Result::Ok(_) => {},
    }
    let mut units: Vec<OutUnit> = Vec::new();
    units.push(OutUnit { name: errors_file_string(), content: make_null_sentinel() });
    if ir_mode {
        let mut content = String::new();
        content.append("entries ");
        content.append(entries.init_fn.as_str());
        content.append(" ");
        content.append(entries.reload_fn.as_str());
        content.append("\n");
        let ri = render_expr(&init_expr);
        content.append(ri.as_str());
        content.append("\n");
        let rr = render_expr(&reload_expr);
        content.append(rr.as_str());
        content.append("\n");
        proof {
            assert(content@ =~= spec_ir_unit(
                entries@,
                spec_pp_def(
                    store@,
                    entries@.init_ns,
                    entries@.init_def,
                    Seq::empty(),
                    expand_gas(),
                )->Done_0,
                spec_pp_def(
                    store@,
                    entries@.reload_ns,
                    entries@.reload_def,
                    Seq::empty(),
                    expand_gas(),
                )->Done_0,
            ).content);
        }
        units.push(OutUnit { name: "program-ir.cirru".to_owned(), content });
        proof {
            assert(Seq::new(units@.len(), |i: int| units@[i]@) =~= spec_run_codegen(
                *store,
                entries@,
                true,
            )->Emit_0);
        }
        return Result::Ok(units);
    }
    let total = store.ns_order_len();
    let mut i: usize = 0;
    #[verifier::loop_isolation(false)]
    while i < total
        invariant
            total == store.ns_order().len(),
            i <= total,
            units@.len() == i + 1,
            units@[0]@ == (OutUnitView { name: errors_file_name(), content: sentinel_null() }),
            forall|j: int| 0 <= j < i ==> #[trigger] spec_unit_defs(*store, j, 0) is DefsDone,
            forall|j: int|
                0 <= j < i ==> units@[j + 1]@ == (OutUnitView {
                    name: store.ns_order()[j] + ".js"@,
                    content: spec_unit_defs(*store, j, 0)->DefsDone_0,
                }),
        decreases total - i,
    {
        let body = match emit_defs_from(store, i, 0) {
            Result::Ok(b) => b,
            Result::Err(f) => {
                proof {
                    lemma_source_units_fail(*store, 0, i as int);
                }
                let mut diag = String::new();
                diag.append("Generation failed:\n");
                diag.append(f.message.as_str());
                proof {
                    assert(diag@ =~= "Generation failed:\n"@ + f.message@);
                }
                let sentinel = make_error_sentinel(diag.as_str());
                return Result::Err(
                    CodegenBlocked { sentinel: Option::Some(sentinel), failure: f },
                );
            },
        };
        let (ns_name, _) = store.ns_at(i);
        let mut uname = ns_name.clone();
        uname.append(".js");
        units.push(OutUnit { name: uname, content: body });
        i = i + 1;
    }
    proof {
        lemma_source_units_done(*store, 0);
        let lhs = Seq::new(units@.len(), |i: int| units@[i]@);
        assert(spec_run_codegen(*store, entries@, false) is Emit);
        let rhs = spec_run_codegen(*store, entries@, false)->Emit_0;
        assert(rhs == Seq::empty().push(
            OutUnitView { name: errors_file_name(), content: sentinel_null() },
        ) + spec_source_units(*store, 0)->UnitsDone_0);
        assert(lhs.len() == rhs.len());
        assert forall|m: int| 0 <= m < lhs.len() implies lhs[m] == rhs[m] by {
            if m > 0 {
                assert(units@[(m - 1) + 1]@ == (OutUnitView {
                    name: store.ns_order()[m - 1] + ".js"@,
                    content: spec_unit_defs(*store, m - 1, 0)->DefsDone_0,
                }));
                assert(spec_source_units(*store, 0)->UnitsDone_0[(m - 1) - 0] == (OutUnitView {
                    name: store.ns_order()[m - 1] + ".js"@,
                    content: spec_unit_defs(*store, m - 1, 0)->DefsDone_0,
                }));
            }
        }
        assert(lhs =~= rhs);
    }
    Result::Ok(units)
}

} // verus!
