use calcit_runner::diagnostics::{display_stack, LocatedWarning};
use calcit_runner::effects::{CliRunningMode, EffectsState};
use calcit_runner::entries::{extract_ns_def, make_program_entries};
use calcit_runner::options::{eval_once_mode, resolve_cli_options};
use calcit_runner::stack::{CalcitFrame, CallStackList};
use calcit_runner::strings::{escape_for_literal, i64_to_string, parse_int_token, u64_to_string};

fn frame(ns: &str, def: &str) -> CalcitFrame {
    CalcitFrame::new(ns.to_string(), def.to_string(), None)
}

#[test]
fn push_never_mutates_the_original_stack() {
    let s = CallStackList::default();
    let s1 = s.push(frame("app.main", "a"));
    let s2 = s1.push(frame("app.main", "b"));
    // the parent stacks still report their original frame sequences
    assert_eq!(s.depth(), 0);
    assert_eq!(s1.depth(), 1);
    assert_eq!(s1.frame_at(0).def, "a");
    assert_eq!(s2.depth(), 2);
    assert_eq!(s2.frame_at(0).def, "a");
    assert_eq!(s2.frame_at(1).def, "b");
    let s3 = s1.push(frame("app.main", "c"));
    // sibling pushes share the same parent without disturbing each other
    assert_eq!(s2.frame_at(1).def, "b");
    assert_eq!(s3.frame_at(1).def, "c");
    assert_eq!(s1.depth(), 1);
}

#[test]
fn backtrace_lists_frames_innermost_first() {
    let s = CallStackList::default()
        .push(frame("app.main", "a"))
        .push(frame("app.main", "b"))
        .push(frame("app.main", "c"));
    let text = display_stack(&"boom".to_string(), &s, None);
    assert_eq!(
        text,
        "boom\n  at app.main/c\n  at app.main/b\n  at app.main/a"
    );
}

#[test]
fn backtrace_renders_coordinates() {
    let f = CalcitFrame::new("ns".to_string(), "d".to_string(), Some(vec![1, 12]));
    let s = CallStackList::default().push(f);
    let text = display_stack(&"m".to_string(), &s, None);
    assert_eq!(text, "m\n  at ns/d (1 12)");
}

#[test]
fn warning_rendering_includes_coordinate() {
    let w = LocatedWarning {
        message: "unresolved symbol: x".to_string(),
        coord: Some(vec![3, 0]),
    };
    assert_eq!(w.render(), "unresolved symbol: x (3 0)");
}

#[test]
fn decimal_rendering_is_exact() {
    assert_eq!(u64_to_string(0), "0");
    assert_eq!(u64_to_string(907), "907");
    assert_eq!(i64_to_string(-45), "-45");
    assert_eq!(i64_to_string(9223372036854775807), "9223372036854775807");
    assert_eq!(i64_to_string(i64::MIN), "-9223372036854775808");
}

#[test]
fn int_token_parsing_matches_bounds() {
    assert_eq!(parse_int_token("42"), Some(42));
    assert_eq!(parse_int_token("-7"), Some(-7));
    assert_eq!(parse_int_token("007"), Some(7));
    assert_eq!(parse_int_token("9223372036854775807"), Some(i64::MAX));
    assert_eq!(parse_int_token("9223372036854775808"), None);
    assert_eq!(parse_int_token("-9223372036854775808"), Some(i64::MIN));
    assert_eq!(parse_int_token("-9223372036854775809"), None);
    assert_eq!(parse_int_token(""), None);
    assert_eq!(parse_int_token("-"), None);
    assert_eq!(parse_int_token("1a"), None);
}

#[test]
fn escaping_for_generated_literals() {
    assert_eq!(escape_for_literal("plain"), "plain");
    assert_eq!(escape_for_literal("a\"b"), "a\\\"b");
    assert_eq!(escape_for_literal("a\\b"), "a\\\\b");
    assert_eq!(escape_for_literal("a\nb\tc"), "a\\nb\\tc");
}

#[test]
fn entry_names_split_at_the_first_slash() {
    let (ns, def) = extract_ns_def("app.main/main!").unwrap();
    assert_eq!(ns, "app.main");
    assert_eq!(def, "main!");
    let (ns2, def2) = extract_ns_def("a/b/c").unwrap();
    assert_eq!(ns2, "a");
    assert_eq!(def2, "b/c");
    assert!(extract_ns_def("no-slash").is_err());
    assert!(extract_ns_def("/starts").is_err());
    assert!(extract_ns_def("ends/").is_err());
}

#[test]
fn program_entries_resolve_both_names() {
    let e = make_program_entries(
        "app.main/main!".to_string(),
        "app.main/reload!".to_string(),
    )
    .unwrap();
    assert_eq!(e.init_ns, "app.main");
    assert_eq!(e.init_def, "main!");
    assert_eq!(e.reload_ns, "app.main");
    assert_eq!(e.reload_def, "reload!");
    assert!(make_program_entries("bad".to_string(), "app.main/r".to_string()).is_err());
}

#[test]
fn cli_options_fill_defaults() {
    let o = resolve_cli_options(None, None, false, true);
    assert_eq!(o.entry_path, "compact.cirru");
    assert_eq!(o.emit_path, "js-out");
    assert!(!o.emit_js);
    assert!(o.emit_ir);
    let o2 = resolve_cli_options(Some("x.cirru".to_string()), Some("out".to_string()), true, false);
    assert_eq!(o2.entry_path, "x.cirru");
    assert_eq!(o2.emit_path, "out");
    assert!(eval_once_mode(false, true));
    assert!(eval_once_mode(true, false));
    assert!(!eval_once_mode(false, false));
}

#[test]
fn effects_registry_drains_before_exit() {
    let mut st = EffectsState::init_effects_states();
    assert!(matches!(st.running_mode(), CliRunningMode::Eval));
    assert!(st.exit_when_cleared());
    st.modify_cli_running_mode(CliRunningMode::Js);
    assert!(matches!(st.running_mode(), CliRunningMode::Js));
    st.track_async_task();
    st.track_async_task();
    assert!(!st.exit_when_cleared());
    st.mark_async_task_done();
    assert!(!st.exit_when_cleared());
    st.mark_async_task_done();
    assert!(st.exit_when_cleared());
}
