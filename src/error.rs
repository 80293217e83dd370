use vstd::prelude::*;

verus! {

/// What can go wrong before any bus traffic is planned.
#[derive(Debug)]
pub enum FuryControllerError {
    /// The text names no known pattern style; it carries the text.
    UnknownPatternStyle(String),
    /// The text is not a colour in `#RRGGBB`, `#RGB` or `R,G,B` form; it
    /// carries the text.
    InvalidColour(String),
    /// A pattern was given more colours than a device can hold; it carries
    /// the number given.
    TooManyColours(usize),
}

} // verus!
