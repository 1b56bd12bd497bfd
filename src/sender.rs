//! What the publish path decides before it calls into the graphics side: a
//! live publication cannot change size in place, so a new size first
//! releases the old one.
use vstd::prelude::*;

verus! {

/// What a publish must do before it sends a frame of the requested size.
#[derive(Clone, Copy, Debug, PartialEq, Eq, Structural)]
pub enum InitStep {
    /// Already registered at this size: send at once.
    Ready,
    /// Register the sender at the new size, after releasing the previous
    /// registration when `release_first` is set.
    Register { release_first: bool },
}

/// Registration state of one published sender.
#[derive(Clone, Copy, Debug, PartialEq, Eq, Structural)]
pub struct SenderState {
    pub width: u32,
    pub height: u32,
    pub initialized: bool,
}

impl SenderState {
    /// Not registered yet.
    pub fn new() -> (r: SenderState)
        ensures
            r == (SenderState { width: 0, height: 0, initialized: false }),
    {
        SenderState { width: 0, height: 0, initialized: false }
    }

    /// Prepares a publish of `width` x `height`. Registered at that size:
    /// nothing to do. Otherwise the sender is registered at the new size,
    /// and a registration at another size is released first.
    pub fn init(&mut self, width: u32, height: u32) -> (r: InitStep)
        ensures
            old(self).initialized && old(self).width == width && old(self).height == height ==> r
                == InitStep::Ready && *final(self) == *old(self),
            !(old(self).initialized && old(self).width == width && old(self).height == height) ==> r
                == (InitStep::Register { release_first: old(self).initialized }) && *final(self)
                == (SenderState { width, height, initialized: true }),
    {
        if self.initialized && self.width == width && self.height == height {
            return InitStep::Ready;
        }
        let release_first = self.initialized;
        self.width = width;
        self.height = height;
        self.initialized = true;
        InitStep::Register { release_first }
    }

    /// Ends the publication. Returns whether a registration was live, and
    /// so must be released on the graphics side.
    pub fn release(&mut self) -> (r: bool)
        ensures
            r == old(self).initialized,
            *final(self) == (SenderState { initialized: false, ..*old(self) }),
    {
        let was = self.initialized;
        self.initialized = false;
        was
    }

    pub fn is_initialized(&self) -> (r: bool)
        ensures
            r == self.initialized,
    {
        self.initialized
    }
}

} // verus!
