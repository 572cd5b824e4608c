//! The output document, as the pipelines see it.
//!
//! Finalizing a build output mutates the shared document; the only
//! mutation this crate performs is removing the placeholder element a
//! directive came from.  The document is therefore kept as the list of
//! directive-element identities still present, in order.

use vstd::prelude::*;

verus! {

/// The directive elements still present in the output document.
#[derive(Debug)]
pub struct Document {
    elements: Vec<usize>,
}

impl View for Document {
    type V = Seq<usize>;

    closed spec fn view(&self) -> Seq<usize> {
        self.elements@
    }
}

impl Document {
    /// A document with no directive elements.
    pub fn new() -> (r: Self)
        ensures
            r@ == Seq::<usize>::empty(),
    {
        let r = Document { elements: Vec::new() };
        proof {
            assert(r@ =~= Seq::<usize>::empty());
        }
        r
    }

    /// Appends a directive element.
    pub fn push_element(&mut self, id: usize)
        ensures
            final(self)@ == old(self)@.push(id),
    {
        self.elements.push(id);
    }

    /// True when an element with this identity is present.
    pub fn contains(&self, id: usize) -> (r: bool)
        ensures
            r == self@.contains(id),
    {
        let n = self.elements.len();
        let mut i: usize = 0;
        while i < n
            invariant
                i <= n,
                n == self.elements.len(),
                forall|k: int| 0 <= k < i ==> self@[k] != id,
            decreases n - i,
        {
            if self.elements[i] == id {
                return true;
            }
            i += 1;
        }
        proof {
            assert(forall|k: int| 0 <= k < self@.len() ==> self@[k] != id);
        }
        false
    }

    /// Removes every element with this identity.
    pub fn remove_element(&mut self, id: usize)
        ensures
            final(self)@ == old(self)@.filter(|x: usize| x != id),
    {
        let n = self.elements.len();
        let mut out: Vec<usize> = Vec::new();
        let mut i: usize = 0;
        proof {
            reveal(Seq::filter);
            assert(old(self)@.take(0) =~= Seq::<usize>::empty());
            assert(out@ =~= old(self)@.take(0).filter(|x: usize| x != id));
        }
        while i < n
            invariant
                i <= n,
                n == self.elements.len(),
                self@ == old(self)@,
                out@ == old(self)@.take(i as int).filter(|x: usize| x != id),
            decreases n - i,
        {
            let ghost pre = old(self)@.take(i as int + 1);
            proof {
                reveal(Seq::filter);
                assert(pre.last() == old(self)@[i as int]);
                assert(pre.drop_last() =~= old(self)@.take(i as int));
            }
            let v = self.elements[i];
            if v != id {
                out.push(v);
            }
            i += 1;
        }
        proof {
            assert(old(self)@.take(n as int) =~= old(self)@);
        }
        self.elements = out;
    }
}

} // verus!
