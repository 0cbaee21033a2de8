//! Located diagnostics. A warning carries a message and an optional source
//! coordinate and never aborts a pass by itself; a failure carries the
//! message, the call stack captured at the failure point, and an optional
//! coordinate, and unwinds to the top of the current run. Rendering lists
//! stack frames innermost first.

use vstd::prelude::*;
use crate::stack::{CallStackList, FrameView};
use crate::strings::spec_u64_digits;
use crate::strings::u64_to_string;

verus! {

/// A non-fatal diagnostic collected during preprocessing.
#[derive(Debug)]
pub struct LocatedWarning {
    pub message: String,
    pub coord: Option<Vec<u8>>,
}

/// Mathematical image of a warning.
pub struct WarningView {
    pub message: Seq<char>,
    pub coord: Option<Seq<u8>>,
}

impl View for LocatedWarning {
    type V = WarningView;

    open spec fn view(&self) -> WarningView {
        WarningView {
            message: self.message@,
            coord: match self.coord {
                Option::Some(c) => Option::Some(c@),
                Option::None => Option::None,
            },
        }
    }
}

/// A fatal diagnostic: message, captured call stack, optional coordinate.
#[derive(Debug)]
pub struct LocatedFailure {
    pub message: String,
    pub stack: CallStackList,
    pub coord: Option<Vec<u8>>,
}

/// Mathematical image of a failure.
pub struct FailureView {
    pub message: Seq<char>,
    pub stack: Seq<FrameView>,
    pub coord: Option<Seq<u8>>,
}

impl View for LocatedFailure {
    type V = FailureView;

    open spec fn view(&self) -> FailureView {
        FailureView {
            message: self.message@,
            stack: self.stack@,
            coord: match self.coord {
                Option::Some(c) => Option::Some(c@),
                Option::None => Option::None,
            },
        }
    }
}

/// A coordinate path rendered as its numbers separated by single spaces.
pub open spec fn spec_coord_text(c: Seq<u8>) -> Seq<char>
    decreases c.len(),
{
    if c.len() == 0 {
        Seq::empty()
    } else if c.len() == 1 {
        spec_u64_digits(c[0] as nat)
    } else {
        spec_coord_text(c.drop_last()) + seq![' '] + spec_u64_digits(c.last() as nat)
    }
}

/// Renders a coordinate path.
pub fn coord_text(c: &Vec<u8>) -> (r: String)
    ensures
        r@ == spec_coord_text(c@),
{
    let mut out = String::new();
    let mut i: usize = 0;
    proof {
        assert(out@ =~= spec_coord_text(c@.take(0)));
    }
    while i < c.len()
        invariant
            i <= c@.len(),
            out@ == spec_coord_text(c@.take(i as int)),
        decreases c@.len() - i,
    {
        if i > 0 {
            out.push(' ');
        }
        let digits = u64_to_string(c[i] as u64);
        out.append(digits.as_str());
        proof {
            assert(c@.take(i + 1).drop_last() =~= c@.take(i as int));
            assert(c@.take(i + 1).last() == c@[i as int]);
            assert(out@ =~= spec_coord_text(c@.take(i + 1)));
        }
        i = i + 1;
    }
    proof {
        assert(c@.take(c@.len() as int) =~= c@);
    }
    out
}

/// One rendered stack frame: a line naming namespace and definition, with
/// the coordinate when one is known.
pub open spec fn spec_frame_text(f: FrameView) -> Seq<char> {
    "\n  at "@ + f.ns + "/"@ + f.def + (match f.coord {
        Option::Some(c) => " ("@ + spec_coord_text(c) + ")"@,
        Option::None => Seq::empty(),
    })
}

/// The last `j` frames rendered innermost first.
pub open spec fn spec_frames_text(stack: Seq<FrameView>, j: int) -> Seq<char>
    decreases j,
{
    if j <= 0 {
        Seq::empty()
    } else {
        spec_frames_text(stack, j - 1) + spec_frame_text(stack[stack.len() - j])
    }
}

/// A full rendered backtrace: the message, the failure coordinate when one
/// is known, then every frame, innermost first.
pub open spec fn spec_stack_text(
    msg: Seq<char>,
    stack: Seq<FrameView>,
    coord: Option<Seq<u8>>,
) -> Seq<char> {
    msg + (match coord {
        Option::Some(c) => "\n  at ("@ + spec_coord_text(c) + ")"@,
        Option::None => Seq::empty(),
    }) + spec_frames_text(stack, stack.len() as int)
}

/// Renders a message with its backtrace, innermost frame first.
pub fn display_stack(msg: &String, stack: &CallStackList, coord: Option<&Vec<u8>>) -> (r: String)
    ensures
        r@ == spec_stack_text(
            msg@,
            stack@,
            match coord {
                Option::Some(c) => Option::Some(c@),
                Option::None => Option::None,
            },
        ),
{
    let mut out = msg.clone();
    match coord {
        Option::Some(c) => {
            out.append("\n  at (");
            let t = coord_text(c);
            out.append(t.as_str());
            out.append(")");
        },
        Option::None => {},
    }
    let depth = stack.depth();
    let mut j: usize = 0;
    let ghost head = out@;
    proof {
        assert(out@ =~= head + spec_frames_text(stack@, 0));
    }
    while j < depth
        invariant
            depth == stack@.len(),
            j <= depth,
            out@ == head + spec_frames_text(stack@, j as int),
        decreases depth - j,
    {
        let f = stack.frame_at(depth - 1 - j);
        out.append("\n  at ");
        out.append(f.ns.as_str());
        out.append("/");
        out.append(f.def.as_str());
        match &f.coord {
            Option::Some(c) => {
                out.append(" (");
                let t = coord_text(c);
                out.append(t.as_str());
                out.append(")");
            },
            Option::None => {},
        }
        proof {
            assert(stack@[depth - 1 - j] == stack@[stack@.len() - (j + 1)]);
            assert(out@ =~= head + spec_frames_text(stack@, j + 1));
        }
        j = j + 1;
    }
    out
}

/// One rendered warning: its message, with the coordinate when known.
pub open spec fn spec_warning_text(w: WarningView) -> Seq<char> {
    w.message + (match w.coord {
        Option::Some(c) => " ("@ + spec_coord_text(c) + ")"@,
        Option::None => Seq::empty(),
    })
}

impl LocatedWarning {
    /// Renders the warning.
    pub fn render(&self) -> (r: String)
        ensures
            r@ == spec_warning_text(self@),
    {
        let mut out = self.message.clone();
        match &self.coord {
            Option::Some(c) => {
                out.append(" (");
                let t = coord_text(c);
                out.append(t.as_str());
                out.append(")");
            },
            Option::None => {},
        }
        out
    }
}

/// All warnings joined by single newlines, in their accumulation order.
pub open spec fn spec_warnings_joined(ws: Seq<WarningView>) -> Seq<char>
    decreases ws.len(),
{
    if ws.len() == 0 {
        Seq::empty()
    } else if ws.len() == 1 {
        spec_warning_text(ws[0])
    } else {
        spec_warnings_joined(ws.drop_last()) + seq!['\n'] + spec_warning_text(ws.last())
    }
}

/// Joins all warnings, one line each, in accumulation order.
pub fn warnings_joined(ws: &Vec<LocatedWarning>) -> (r: String)
    ensures
        r@ == spec_warnings_joined(Seq::new(ws@.len(), |i: int| ws@[i]@)),
{
    let ghost all = Seq::new(ws@.len(), |i: int| ws@[i]@);
    let mut out = String::new();
    let mut i: usize = 0;
    proof {
        assert(out@ =~= spec_warnings_joined(all.take(0)));
    }
    while i < ws.len()
        invariant
            ws@.len() == all.len(),
            forall|k: int| 0 <= k < all.len() ==> all[k] == ws@[k]@,
            i <= all.len(),
            out@ == spec_warnings_joined(all.take(i as int)),
        decreases all.len() - i,
    {
        if i > 0 {
            out.push('\n');
        }
        let t = ws[i].render();
        out.append(t.as_str());
        proof {
            assert(all.take(i + 1).drop_last() =~= all.take(i as int));
            assert(all.take(i + 1).last() == all[i as int]);
            assert(out@ =~= spec_warnings_joined(all.take(i + 1)));
        }
        i = i + 1;
    }
    proof {
        assert(all.take(all.len() as int) =~= all);
    }
    out
}

} // verus!
