use vstd::prelude::*;
use crate::color::Color;

verus! {

/// The three bubble sizes.
#[derive(Clone, Copy, Debug, PartialEq, Eq, Structural)]
pub enum BubbleSize {
    Small,
    Medium,
    Large,
}

impl BubbleSize {
    /// The character a bubble of this size is drawn with: `'·'`, `'o'` or `'O'`.
    pub fn glyph(self) -> (c: char)
        ensures
            c == match self {
                BubbleSize::Small => '·',
                BubbleSize::Medium => 'o',
                BubbleSize::Large => 'O',
            },
    {
        match self {
            BubbleSize::Small => '·',
            BubbleSize::Medium => 'o',
            BubbleSize::Large => 'O',
        }
    }

    /// The colour of a bubble of this size: shades of cyan.
    pub fn color(self) -> (c: Color)
        ensures
            c == match self {
                BubbleSize::Small => Color::AnsiValue(159),
                BubbleSize::Medium => Color::Cyan,
                BubbleSize::Large => Color::AnsiValue(51),
            },
    {
        match self {
            BubbleSize::Small => Color::AnsiValue(159),
            BubbleSize::Medium => Color::Cyan,
            BubbleSize::Large => Color::AnsiValue(51),
        }
    }
}

} // verus!
