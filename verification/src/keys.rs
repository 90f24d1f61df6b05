//! The keys the overlays answer to.

use vstd::prelude::*;

verus! {

/// A key press by its keysym; `Other` is every keysym that nothing here looks at.
#[derive(Clone, Copy, Debug, PartialEq, Eq, Structural)]
pub enum Key {
    Escape,
    Return,
    KpEnter,
    IsoEnter,
    Tab,
    IsoLeftTab,
    Left,
    Right,
    Up,
    Down,
    PageUp,
    PageDown,
    Other,
}

impl Key {
    /// Any of the three Enter keys.
    pub open spec fn enters(self) -> bool {
        self == Key::Return || self == Key::KpEnter || self == Key::IsoEnter
    }

    /// Whether this is any of the three Enter keys.
    pub fn is_enter(self) -> (enter: bool)
        ensures
            enter == self.enters(),
    {
        self == Key::Return || self == Key::KpEnter || self == Key::IsoEnter
    }
}

} // verus!
