//! A running offset for widgets that are placed one after another.

use vstd::prelude::*;

verus! {

/// The offset at which the next widget starts.
pub struct Counter {
    pub count: usize,
}

impl Counter {
    /// A counter that starts at offset zero.
    pub fn new() -> (c: Self)
        ensures
            c.count == 0,
    {
        Counter { count: 0 }
    }

    /// Hands out the position of the next widget, `margin` past the current
    /// offset, and moves the offset on by `size`.
    ///
    /// The position is handed to the toolkit as an `i32`; it is cut to 32 bits
    /// the way an `as` cast does.
    pub fn get_next(&mut self, margin: usize, size: usize) -> (pos: i32)
        requires
            old(self).count + margin <= usize::MAX,
            old(self).count + size <= usize::MAX,
        ensures
            pos == ((old(self).count + margin) as usize) as i32,
            final(self).count == old(self).count + size,
    {
        let pos: usize = self.count + margin;
        self.count += size;
        #[verifier::truncate]
        (pos as i32)
    }
}

} // verus!
