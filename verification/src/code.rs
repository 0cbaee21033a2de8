//! Code forms: the tree shape in which definitions are stored in the
//! program. A form is either a token leaf or a list of child forms. Once
//! read out of the store, a form is immutable data for the whole of a
//! preprocessing or evaluation pass.

use vstd::prelude::*;

verus! {

broadcast use vstd::std_specs::vec::group_vec_axioms, vstd::seq::group_seq_axioms;

/// Mathematical image of a sequence of code forms.
pub open spec fn code_views_of(xs: Seq<Code>) -> Seq<CodeView>
    decreases xs,
{
    if xs.len() == 0 {
        Seq::empty()
    } else {
        code_views_of(xs.drop_last()).push(code_view(xs.last()))
    }
}

/// Mathematical image of one code form.
pub open spec fn code_view(c: Code) -> CodeView
    decreases c,
{
    match c {
        Code::Leaf(s) => CodeView::Leaf(s@),
        Code::Form(xs) => CodeView::Form(code_views_of(xs@)),
    }
}

/// The image of a form sequence is the pointwise image.
pub proof fn lemma_code_views_of(xs: Seq<Code>)
    ensures
        code_views_of(xs).len() == xs.len(),
        forall|i: int| 0 <= i < xs.len() ==> code_views_of(xs)[i] == code_view(xs[i]),
    decreases xs.len(),
{
    if xs.len() > 0 {
        lemma_code_views_of(xs.drop_last());
        assert forall|i: int| 0 <= i < xs.len() implies code_views_of(xs)[i] == code_view(
            xs[i],
        ) by {
            if i < xs.len() - 1 {
                assert(xs.drop_last()[i] == xs[i]);
            }
        }
    }
}

/// A code form: a token leaf or a list of child forms.
#[derive(Debug)]
pub enum Code {
    Leaf(String),
    Form(Vec<Code>),
}

/// Mathematical image of a code form.
pub enum CodeView {
    Leaf(Seq<char>),
    Form(Seq<CodeView>),
}

impl View for Code {
    type V = CodeView;

    open spec fn view(&self) -> CodeView {
        code_view(*self)
    }
}

impl Clone for Code {
    fn clone(&self) -> (r: Self)
        ensures
            r@ == self@,
        decreases self,
    {
        match self {
            Code::Leaf(s) => Code::Leaf(s.clone()),
            Code::Form(xs) => {
                let mut v: Vec<Code> = Vec::new();
                let mut i: usize = 0;
                #[verifier::loop_isolation(false)]
                while i < xs.len()
                    invariant
                        i <= xs.len(),
                        v@.len() == i,
                        forall|j: int| 0 <= j < i ==> v@[j]@ == xs@[j]@,
                    decreases xs.len() - i,
                {
                    v.push(xs[i].clone());
                    i = i + 1;
                }
                let r = Code::Form(v);
                proof {
                    lemma_code_views_of(v@);
                    lemma_code_views_of(xs@);
                    assert(code_views_of(v@) =~= code_views_of(xs@));
                }
                r
            },
        }
    }
}

impl Code {
    /// A leaf form holding the given token.
    pub fn leaf(s: String) -> (r: Code)
        ensures
            r@ == CodeView::Leaf(s@),
    {
        Code::Leaf(s)
    }

    /// A list form holding the given children.
    pub fn form(xs: Vec<Code>) -> (r: Code)
        ensures
            r@ is Form,
            r@->Form_0.len() == xs@.len(),
            forall|i: int| 0 <= i < xs@.len() ==> r@->Form_0[i] == xs@[i]@,
    {
        proof {
            lemma_code_views_of(xs@);
        }
        Code::Form(xs)
    }
}

} // verus!
