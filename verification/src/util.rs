//! Joining texts.

use vstd::prelude::*;
use vstd::string::StringExecFns;

verus! {

/// The texts `parts` with `joiner` between each two of them.
pub open spec fn joined(parts: Seq<Seq<char>>, joiner: Seq<char>) -> Seq<char>
    decreases parts.len(),
{
    if parts.len() == 0 {
        Seq::empty()
    } else if parts.len() == 1 {
        parts[0]
    } else {
        joined(parts.drop_last(), joiner) + joiner + parts.last()
    }
}

/// Like the join of string slices, for anything that holds texts.
pub trait DisplayJoin {
    /// The texts to join.
    spec fn parts(&self) -> Seq<Seq<char>>;

    /// Joins the texts, with `joiner` between each two of them.
    fn join(&self, joiner: &str) -> (r: String)
        ensures
            r@ == joined(self.parts(), joiner@),
    ;
}

impl DisplayJoin for Vec<String> {
    open spec fn parts(&self) -> Seq<Seq<char>> {
        self@.map_values(|s: String| s@)
    }

    fn join(&self, joiner: &str) -> (r: String) {
        let mut out = String::new();
        let mut i: usize = 0;
        while i < self.len()
            invariant
                i <= self.len(),
                out@ == joined(self.parts().take(i as int), joiner@),
            decreases self.len() - i,
        {
            if i > 0 {
                out.append(joiner);
            }
            out.append(self[i].as_str());
            proof {
                let next = self.parts().take(i + 1);
                assert(next.drop_last() == self.parts().take(i as int));
                assert(next.last() == self[i as int]@);
                if i == 0 {
                    assert(out@ =~= self[0]@);
                }
            }
            i += 1;
        }
        assert(self.parts().take(self.len() as int) == self.parts());
        out
    }
}

} // verus!
