//! Resolved command-line options: the entry file path and the emission
//! settings, with their defaults filled in. Argument parsing itself is
//! the host's business; the library only fixes what each option defaults
//! to and when a run evaluates once instead of watching.

use vstd::prelude::*;

verus! {

/// The options one run is started with.
pub struct CLIOptions {
    pub entry_path: String,
    pub emit_path: String,
    pub emit_js: bool,
    pub emit_ir: bool,
}

/// Mathematical image of the options.
pub struct OptionsView {
    pub entry_path: Seq<char>,
    pub emit_path: Seq<char>,
    pub emit_js: bool,
    pub emit_ir: bool,
}

impl View for CLIOptions {
    type V = OptionsView;

    open spec fn view(&self) -> OptionsView {
        OptionsView {
            entry_path: self.entry_path@,
            emit_path: self.emit_path@,
            emit_js: self.emit_js,
            emit_ir: self.emit_ir,
        }
    }
}

/// Fills the defaults in: the entry file defaults to `compact.cirru`,
/// the emission directory to `js-out`.
pub fn resolve_cli_options(
    input: Option<String>,
    emit_path: Option<String>,
    emit_js: bool,
    emit_ir: bool,
) -> (r: CLIOptions)
    ensures
        input is Some ==> r@.entry_path == input->Some_0@,
        input is None ==> r@.entry_path == "compact.cirru"@,
        emit_path is Some ==> r@.emit_path == emit_path->Some_0@,
        emit_path is None ==> r@.emit_path == "js-out"@,
        r@.emit_js == emit_js,
        r@.emit_ir == emit_ir,
{
    let entry_path = match input {
        Option::Some(p) => p,
        Option::None => "compact.cirru".to_owned(),
    };
    let emit_path = match emit_path {
        Option::Some(p) => p,
        Option::None => "js-out".to_owned(),
    };
    CLIOptions { entry_path, emit_path, emit_js, emit_ir }
}

/// Whether the run evaluates once and exits: asked for explicitly, or
/// forced by an inline snippet.
pub fn eval_once_mode(once: bool, has_eval_snippet: bool) -> (r: bool)
    ensures
        r == (once || has_eval_snippet),
{
    once || has_eval_snippet
}

} // verus!
