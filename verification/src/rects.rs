use vstd::prelude::*;

verus! {

/// A rectangle measured in whole units.
#[derive(Debug, Clone, Copy)]
pub struct Rectangle {
    pub width: u32,
    pub _height: u32,
}

impl Rectangle {
    /// Whether the rectangle has a nonzero width.
    pub fn width(&self) -> (nonzero: bool)
        ensures
            nonzero == (self.width > 0),
    {
        self.width > 0
    }
}

} // verus!
