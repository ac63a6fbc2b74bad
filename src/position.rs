use vstd::prelude::*;

verus! {

/// A place in the source text: `x` is the column, `y` the zero-based line.
#[derive(Debug, Clone, Copy, PartialEq, Eq, Structural, Default)]
pub struct Position {
    pub x: usize,
    pub y: usize,
}

impl Position {
    pub fn new(x: usize, y: usize) -> (r: Self)
        ensures
            r.x == x,
            r.y == y,
    {
        Self { x, y }
    }

    /// Moves one column to the right.
    pub fn next_char(&mut self)
        requires
            old(self).x < usize::MAX,
        ensures
            final(self).x == old(self).x + 1,
            final(self).y == old(self).y,
    {
        self.x = self.x + 1;
    }

    /// Moves to the first column of the next line.
    pub fn next_line(&mut self)
        requires
            old(self).y < usize::MAX,
        ensures
            final(self).x == 0,
            final(self).y == old(self).y + 1,
    {
        self.x = 0;
        self.y = self.y + 1;
    }

    /// Moves one column to the left, stopping at the first column.
    pub fn previous_char(&mut self)
        ensures
            final(self).x == if old(self).x > 0 { old(self).x - 1 } else { 0 },
            final(self).y == old(self).y,
    {
        self.x = self.x.saturating_sub(1);
    }

    /// The position one column to the left (or this one, at the first column).
    pub fn as_previous(self) -> (r: Self)
        ensures
            r.x == if self.x > 0 { self.x - 1 } else { 0 },
            r.y == self.y,
    {
        let mut copy = self;
        copy.previous_char();
        copy
    }
}

} // verus!
