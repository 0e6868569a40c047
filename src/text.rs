use vstd::prelude::*;

verus! {

/// How a line of text sits within its field.
#[derive(Clone, Copy, Debug, PartialEq, Eq, Structural)]
pub enum TextAlignment {
    Left,
    Center,
    Right,
    Justify,
}

} // verus!
