//! Nesting state for a trace of translation decisions. The library only
//! tracks whether tracing is on and how deep the current context is; turning
//! that state into printed lines is the caller's affair.

use vstd::prelude::*;

verus! {

#[derive(Clone, Copy, PartialEq, Eq, Structural, Debug)]
pub struct Log {
    pub enable: bool,
    pub depth: usize,
}

impl Log {
    pub fn new() -> (r: Self)
        ensures
            r.enable,
            r.depth == 0,
    {
        Log { enable: true, depth: 0 }
    }

    pub fn begin_context(&mut self)
        requires
            old(self).depth < usize::MAX,
        ensures
            final(self).depth == old(self).depth + 1,
            final(self).enable == old(self).enable,
    {
        self.depth = self.depth + 1;
    }

    pub fn end_context(&mut self)
        requires
            old(self).depth > 0,
        ensures
            final(self).depth == old(self).depth - 1,
            final(self).enable == old(self).enable,
    {
        self.depth = self.depth - 1;
    }
}

} // verus!
