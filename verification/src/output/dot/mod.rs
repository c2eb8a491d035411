use vstd::prelude::*;

pub mod function;

verus! {

/// Values that can be written out in the graphviz `dot` language.
pub trait DotOutput {
    /// Whether the value can be written: everything it names is declared.
    spec fn dot_ready(&self) -> bool;

    /// Whether `text` is a `dot` rendering of the value.
    spec fn dot_text_ok(&self, text: Seq<char>) -> bool;

    /// Appends a `dot` rendering of the value.
    fn write_dot(&self, out: &mut String)
        requires
            self.dot_ready(),
        ensures
            exists|t: Seq<char>| self.dot_text_ok(t) && final(out)@ == old(out)@ + t,
    ;

    /// A `dot` rendering of the value.
    fn to_dot(&self) -> (r: String)
        requires
            self.dot_ready(),
        ensures
            self.dot_text_ok(r@),
    {
        let mut s = String::new();
        self.write_dot(&mut s);
        proof {
            let t = choose|t: Seq<char>| self.dot_text_ok(t) && s@ == Seq::<char>::empty() + t;
            assert(s@ =~= t);
        }
        s
    }
}

} // verus!
