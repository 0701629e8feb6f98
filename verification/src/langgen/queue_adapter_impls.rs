use super::{FragmentEntry, QueueAdapter};
use std::collections::VecDeque;
use vstd::prelude::*;

verus! {

/// A double-ended queue serves as the fragment queue when one owner reads
/// and writes it.
impl<Entity> QueueAdapter<Entity> for VecDeque<FragmentEntry<Entity>> {
    open spec fn queue_view(&self) -> Seq<FragmentEntry<Entity>> {
        self@
    }

    fn push(&mut self, frag: FragmentEntry<Entity>) {
        self.push_back(frag);
    }

    fn pop(&mut self) -> (r: Option<FragmentEntry<Entity>>) {
        let r = self.pop_front();
        proof {
            if old(self)@.len() > 0 {
                assert(self@ =~= old(self)@.drop_first());
            }
        }
        r
    }
}

} // verus!
