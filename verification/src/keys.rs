//! Keyboard keys, as far as the library tells them apart.

use vstd::prelude::*;

verus! {

/// A key. The ones that something here reacts to have a name; `Other` carries the host's
/// own code for the rest.
#[derive(Clone, Copy, Debug, PartialEq, Eq, Structural)]
pub enum Key {
    Backtick,
    Escape,
    ArrowUp,
    ArrowDown,
    Tab,
    C,
    L,
    /// Function key `F(n)`.
    F(u8),
    Other(u32),
}

} // verus!
