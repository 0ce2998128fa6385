use vstd::prelude::*;

verus! {

/// Allocator of notification ids: the last id handed out, `0` before the first.
///
/// Ids are never reused: every allocation returns the previous value plus one.
pub struct Id {
    last: u32,
}

impl View for Id {
    type V = nat;

    closed spec fn view(&self) -> nat {
        self.last as nat
    }
}

impl Id {
    /// An allocator that has issued nothing yet.
    pub fn new() -> (r: Id)
        ensures
            r@ == 0,
    {
        Id { last: 0 }
    }

    /// The last id issued, or `0`; allocates nothing.
    pub fn current_glob(&self) -> (r: u32)
        ensures
            r as nat == self@,
    {
        self.last
    }

    /// Issues a fresh id: one more than the last.
    pub fn bump_glob(&mut self) -> (r: u32)
        requires
            old(self)@ < u32::MAX,
        ensures
            r as nat == old(self)@ + 1,
            final(self)@ == r as nat,
    {
        self.last = self.last + 1;
        self.last
    }
}

} // verus!
