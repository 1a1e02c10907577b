use vstd::prelude::*;

verus! {

/// An application that keeps a running total.
pub trait App {
    /// The total accumulated so far.
    spec fn total(&self) -> nat;

    /// Adds `left` and `right` to the total and returns the new total.
    fn add(&mut self, left: usize, right: usize) -> (sum: usize)
        requires
            old(self).total() + left + right <= usize::MAX,
        ensures
            final(self).total() == old(self).total() + left + right,
            sum == final(self).total(),
    ;
}

/// The smallest application: nothing but its total.
#[derive(Debug)]
pub struct TestGame {
    val: usize,
}

impl TestGame {
    /// A game whose total starts at `val`.
    pub fn new(val: usize) -> (game: TestGame)
        ensures
            game.total() == val,
    {
        TestGame { val }
    }
}

impl App for TestGame {
    closed spec fn total(&self) -> nat {
        self.val as nat
    }

    fn add(&mut self, left: usize, right: usize) -> (sum: usize) {
        self.val += left + right;
        self.val
    }
}

} // verus!
