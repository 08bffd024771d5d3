use vstd::prelude::*;

verus! {

/// A terminal colour, as the aquarium paints with it.
///
/// `Reset` is the terminal's default colour; `AnsiValue(n)` indexes the
/// 256-colour xterm palette (1–15 bright basics, 16–231 colour cube,
/// 232–255 grey ramp).
#[derive(Clone, Copy, Debug, PartialEq, Eq, Structural)]
pub enum Color {
    Reset,
    White,
    Red,
    Green,
    Yellow,
    Magenta,
    Cyan,
    AnsiValue(u8),
}

} // verus!
