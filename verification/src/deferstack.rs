use vstd::prelude::*;
use crate::element::Element;

verus! {

/// For each open frame, the blocks to run when it is left.
pub struct DeferStack(pub Vec<Vec<Vec<Element>>>);

impl DeferStack {
    /// One frame with nothing deferred.
    pub fn new() -> (res: DeferStack)
        ensures
            res.0@.len() == 1,
            res.0@[0]@.len() == 0,
    {
        DeferStack(vec![Vec::new()])
    }

    /// Opens a frame with nothing deferred.
    pub fn add_set(&mut self)
        ensures
            final(self).0@.len() == old(self).0@.len() + 1,
            final(self).0@.drop_last() == old(self).0@,
            final(self).0@.last()@.len() == 0,
    {
        self.0.push(Vec::new());
        proof {
            assert(self.0@.drop_last() =~= old(self).0@);
        }
    }

    /// Closes the innermost frame, dropping what it deferred.
    pub fn pop_set(&mut self)
        ensures
            old(self).0@.len() > 0 ==> final(self).0@ == old(self).0@.drop_last(),
            old(self).0@.len() == 0 ==> final(self).0@ == old(self).0@,
    {
        self.0.pop();
        proof {
            if old(self).0@.len() > 0 {
                assert(self.0@ =~= old(self).0@.drop_last());
            }
        }
    }

    /// Defers a block in the innermost frame.
    pub fn add_defer(&mut self, content: Vec<Element>)
        requires
            old(self).0@.len() > 0,
        ensures
            final(self).0@.len() == old(self).0@.len(),
            final(self).0@.drop_last() == old(self).0@.drop_last(),
            final(self).0@.last()@ == old(self).0@.last()@.push(content),
    {
        let last = self.0.len() - 1;
        let mut blocks: Vec<Vec<Element>> = Vec::new();
        std::mem::swap(&mut blocks, &mut self.0[last]);
        blocks.push(content);
        self.0.set(last, blocks);
        proof {
            assert(self.0@.drop_last() =~= old(self).0@.drop_last());
        }
    }
}

} // verus!
