//! Call-stack tracking: an immutable chain of frames naming the namespace
//! and definition being processed, with an optional source coordinate.
//! Pushing a frame is a pure operation that leaves the parent stack intact,
//! so a stack captured inside a deep descent stays valid after the descent
//! returns.

use vstd::prelude::*;

verus! {

/// One frame of a call stack: which definition was being processed, and
/// where inside its code form, as a path of child indexes.
#[derive(Debug)]
pub struct CalcitFrame {
    pub ns: String,
    pub def: String,
    pub coord: Option<Vec<u8>>,
}

/// Mathematical image of a frame: the names as character sequences.
pub struct FrameView {
    pub ns: Seq<char>,
    pub def: Seq<char>,
    pub coord: Option<Seq<u8>>,
}

impl View for CalcitFrame {
    type V = FrameView;

    open spec fn view(&self) -> FrameView {
        FrameView {
            ns: self.ns@,
            def: self.def@,
            coord: match self.coord {
                Option::Some(v) => Option::Some(v@),
                Option::None => Option::None,
            },
        }
    }
}

impl CalcitFrame {
    /// Builds a frame from its parts.
    pub fn new(ns: String, def: String, coord: Option<Vec<u8>>) -> (r: CalcitFrame)
        ensures
            r@.ns == ns@,
            r@.def == def@,
            coord is Some ==> r@.coord == Some(coord->Some_0@),
            coord is None ==> r@.coord is None,
    {
        CalcitFrame { ns, def, coord }
    }
}

impl Clone for CalcitFrame {
    fn clone(&self) -> (r: Self)
        ensures
            r@ == self@,
    {
        let coord = match &self.coord {
            Option::Some(v) => {
                let c: Vec<u8> = v.clone();
                proof {
                    assert(c@ =~= v@);
                }
                Option::Some(c)
            },
            Option::None => Option::None,
        };
        CalcitFrame { ns: self.ns.clone(), def: self.def.clone(), coord }
    }
}

/// A call stack: outermost frame first, innermost frame last. The stack is
/// a value; extending it never changes any stack already held elsewhere.
#[derive(Debug)]
pub struct CallStackList {
    frames: Vec<CalcitFrame>,
}

impl View for CallStackList {
    type V = Seq<FrameView>;

    closed spec fn view(&self) -> Seq<FrameView> {
        Seq::new(self.frames@.len(), |i: int| self.frames@[i]@)
    }
}

impl Default for CallStackList {
    /// The empty stack.
    fn default() -> (r: CallStackList)
        ensures
            r@ == Seq::<FrameView>::empty(),
    {
        let r = CallStackList { frames: Vec::new() };
        proof {
            assert(r@ =~= Seq::<FrameView>::empty());
        }
        r
    }
}

impl Clone for CallStackList {
    fn clone(&self) -> (r: Self)
        ensures
            r@ == self@,
    {
        let mut frames: Vec<CalcitFrame> = Vec::new();
        let mut i: usize = 0;
        while i < self.frames.len()
            invariant
                i <= self.frames.len(),
                frames@.len() == i,
                forall|j: int| 0 <= j < i ==> frames@[j]@ == self.frames@[j]@,
            decreases self.frames.len() - i,
        {
            frames.push(self.frames[i].clone());
            i = i + 1;
        }
        let r = CallStackList { frames };
        proof {
            assert(r@ =~= self@);
        }
        r
    }
}

impl CallStackList {
    /// How many frames the stack holds.
    pub fn depth(&self) -> (r: usize)
        ensures
            r == self@.len(),
    {
        self.frames.len()
    }

    /// Extends the stack with `frame` as the new innermost frame. The
    /// receiver is read, never changed: the result is a fresh stack value
    /// whose frame sequence is the old one followed by the new frame.
    pub fn push(&self, frame: CalcitFrame) -> (r: CallStackList)
        ensures
            r@ == self@.push(frame@),
    {
        let mut s = self.clone();
        s.frames.push(frame);
        proof {
            assert(s@ =~= self@.push(frame@));
        }
        s
    }

    /// The frame at position `i`, outermost first.
    pub fn frame_at(&self, i: usize) -> (r: &CalcitFrame)
        requires
            i < self@.len(),
        ensures
            r@ == self@[i as int],
    {
        &self.frames[i]
    }
}

/// Extending a stack neither loses nor reorders what was already there:
/// the old stack keeps exactly its original frame sequence, and the new
/// stack is that sequence with one more frame at the inner end.
pub proof fn lemma_push_preserves_parent(s: Seq<FrameView>, f: FrameView)
    ensures
        s.push(f).len() == s.len() + 1,
        forall|i: int| 0 <= i < s.len() ==> s.push(f)[i] == s[i],
        s.push(f)[s.len() as int] == f,
{
}

} // verus!
