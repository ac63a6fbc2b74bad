use vstd::prelude::*;

verus! {

/// A cursor over a sequence of elements with one element of lookahead and one
/// step back. Besides the index of the next element it keeps a visual index:
/// it moves with the cursor, and a reader may set it back to zero (the lexer
/// does so at each new line) to count columns. It also counts the attempts to
/// consume past the end, so that stepping back first takes back those.
pub struct Stream<T> {
    elements: Vec<T>,
    index: usize,
    visual_index: usize,
    overruns: usize,
}

impl<T> Stream<T> {
    /// The elements, consumed or not.
    pub closed spec fn items(&self) -> Seq<T> {
        self.elements@
    }

    /// The index of the next element.
    pub closed spec fn pos(&self) -> int {
        self.index as int
    }

    /// The visual index.
    pub closed spec fn visual(&self) -> int {
        self.visual_index as int
    }

    /// The number of consumes at the end not yet stepped back.
    pub closed spec fn overruns(&self) -> int {
        self.overruns as int
    }

    /// The cursor lies within the elements, the visual index never runs
    /// ahead of it, and consumes past the end happen only at the end.
    pub open spec fn wf(&self) -> bool {
        &&& 0 <= self.visual() <= self.pos() <= self.items().len() <= usize::MAX
        &&& 0 <= self.overruns() <= usize::MAX
        &&& self.overruns() > 0 ==> self.pos() == self.items().len()
    }

    /// The stream after one consume: one element further on, or, at the end,
    /// one more overrun (the count stops at `usize::MAX`).
    pub closed spec fn consumed(&self) -> Self {
        if self.index < self.elements.len() {
            Stream {
                elements: self.elements,
                index: (self.index + 1) as usize,
                visual_index: (self.visual_index + 1) as usize,
                overruns: self.overruns,
            }
        } else {
            Stream {
                overruns: if self.overruns < usize::MAX {
                    (self.overruns + 1) as usize
                } else {
                    self.overruns
                },
                ..*self
            }
        }
    }

    /// The stream after one step back: an overrun taken back if there is one,
    /// else one element back (the visual index too, unless it is zero), and
    /// unchanged at the start.
    pub closed spec fn unconsumed(&self) -> Self {
        if self.overruns > 0 {
            Stream { overruns: (self.overruns - 1) as usize, ..*self }
        } else if self.index > 0 {
            Stream {
                elements: self.elements,
                index: (self.index - 1) as usize,
                visual_index: if self.visual_index > 0 {
                    (self.visual_index - 1) as usize
                } else {
                    0
                },
                overruns: 0,
            }
        } else {
            *self
        }
    }

    pub fn new(elements: Vec<T>) -> (r: Self)
        ensures
            r.items() == elements@,
            r.pos() == 0,
            r.visual() == 0,
            r.overruns() == 0,
            r.wf(),
    {
        proof {
            assert(elements@.len() == elements.len());
        }
        Stream { elements, index: 0, visual_index: 0, overruns: 0 }
    }

    /// The visual index.
    pub fn visual_index(&self) -> (r: usize)
        ensures
            r == self.visual(),
    {
        self.visual_index
    }

    /// Sets the visual index back to zero.
    pub fn reset_visual_index(&mut self)
        requires
            old(self).wf(),
        ensures
            final(self).wf(),
            final(self).items() == old(self).items(),
            final(self).pos() == old(self).pos(),
            final(self).overruns() == old(self).overruns(),
            final(self).visual() == 0,
    {
        self.visual_index = 0;
    }

    /// Steps back over the last consume: one that found the end is taken
    /// back without moving; otherwise the cursor moves back one element.
    /// Nothing happens at the start.
    pub fn unconsume(&mut self)
        requires
            old(self).wf(),
        ensures
            *final(self) == old(self).unconsumed(),
            final(self).wf(),
            final(self).items() == old(self).items(),
            old(self).overruns() > 0 ==> {
                &&& final(self).pos() == old(self).pos()
                &&& final(self).visual() == old(self).visual()
                &&& final(self).overruns() == old(self).overruns() - 1
            },
            old(self).overruns() == 0 ==> {
                &&& final(self).overruns() == 0
                &&& final(self).pos() == if old(self).pos() > 0 {
                    old(self).pos() - 1
                } else {
                    old(self).pos()
                }
            },
    {
        if self.overruns > 0 {
            self.overruns = self.overruns - 1;
        } else if self.index > 0 {
            self.index = self.index - 1;
            if self.visual_index > 0 {
                self.visual_index = self.visual_index - 1;
            }
        }
    }
}

impl<T: Clone> Stream<T> {
    /// The next element, without moving; `None` at the end.
    pub fn peek(&self) -> (r: Option<T>)
        requires
            self.wf(),
        ensures
            self.pos() < self.items().len() ==> r is Some && cloned(
                self.items()[self.pos()],
                r->0,
            ),
            self.pos() >= self.items().len() ==> r is None,
    {
        if self.index < self.elements.len() {
            Some(self.elements[self.index].clone())
        } else {
            None
        }
    }

    /// The next element, moving past it; `None` at the end.
    pub fn consume(&mut self) -> (r: Option<T>)
        requires
            old(self).wf(),
        ensures
            *final(self) == old(self).consumed(),
            final(self).wf(),
            final(self).items() == old(self).items(),
            old(self).pos() < old(self).items().len() ==> r is Some && cloned(
                old(self).items()[old(self).pos()],
                r->0,
            ) && final(self).pos() == old(self).pos() + 1 && final(self).visual() == old(
                self,
            ).visual() + 1 && final(self).overruns() == 0,
            old(self).pos() >= old(self).items().len() ==> {
                &&& r is None
                &&& final(self).pos() == old(self).pos()
                &&& final(self).visual() == old(self).visual()
            },
    {
        let element = self.peek();
        if self.index < self.elements.len() {
            self.index = self.index + 1;
            self.visual_index = self.visual_index + 1;
        } else if self.overruns < usize::MAX {
            self.overruns = self.overruns + 1;
        }
        element
    }
}

/// A consume followed by a step back leaves the stream as it was, at the end
/// of the elements too (short of `usize::MAX` consumes past the end).
pub proof fn lemma_consume_then_unconsume<T>(s: Stream<T>)
    requires
        s.wf(),
        s.overruns() < usize::MAX,
    ensures
        s.consumed().unconsumed() == s,
{
}

} // verus!
