//! Component storage scaffolding.
//!
//! The entity/component storage proper is an external collaborator;
//! this crate owns the marker trait its stored values implement and a
//! cursor that walks a batch of components in order.

use vstd::prelude::*;

verus! {

/// Marker for values that can be stored as a component.
pub trait Component {

}

/// Cursor over a batch of components, handing them out front to back.
pub struct ComponentIter<C: Component> {
    components: Vec<C>,
    index: usize,
}

impl<C: Component> ComponentIter<C> {
    /// The cursor never stands behind the end of the batch.
    #[verifier::type_invariant]
    spec fn wf(&self) -> bool {
        self.index <= self.components@.len()
    }

    /// The components still to be handed out, front first.
    pub closed spec fn remaining(&self) -> Seq<C> {
        self.components@.skip(self.index as int)
    }

    /// A cursor over the given batch, in order.
    pub fn new(components: Vec<C>) -> (it: ComponentIter<C>)
        ensures
            it.remaining() == components@,
    {
        let it = ComponentIter { components, index: 0 };
        proof {
            assert(it.remaining() =~= it.components@);
        }
        it
    }

    /// Hands out the next component, or nothing when the batch is
    /// exhausted.
    pub fn next(&mut self) -> (c: Option<&C>)
        ensures
            match c {
                Some(component) => old(self).remaining().len() > 0 && *component == old(
                    self,
                ).remaining()[0] && final(self).remaining() == old(self).remaining().drop_first(),
                None => old(self).remaining().len() == 0 && final(self).remaining() == old(
                    self,
                ).remaining(),
            },
    {
        proof {
            use_type_invariant(&*self);
        }
        if self.index < self.components.len() {
            let component = &self.components[self.index];
            self.index = self.index + 1;
            proof {
                assert(old(self).remaining()[0] == old(self).components@[old(self).index as int]);
                assert(self.remaining() =~= old(self).remaining().drop_first());
            }
            Some(component)
        } else {
            None
        }
    }
}

} // verus!
