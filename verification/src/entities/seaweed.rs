use vstd::prelude::*;
use rand::rngs::SmallRng;
use crate::color::Color;
use crate::rng::random_below;

verus! {

/// The green shades seaweed grows in (dark green, medium green, bright
/// green, lime and two olive tones).
pub open spec fn seaweed_palette() -> Seq<Color> {
    seq![
        Color::AnsiValue(22),
        Color::AnsiValue(28),
        Color::AnsiValue(34),
        Color::AnsiValue(40),
        Color::AnsiValue(64),
        Color::AnsiValue(70),
    ]
}

/// A colour for a new seaweed blade, drawn at random from the palette.
pub fn random_seaweed_color(rng: &mut SmallRng) -> (c: Color)
    ensures
        seaweed_palette().contains(c),
{
    let colors = [
        Color::AnsiValue(22),
        Color::AnsiValue(28),
        Color::AnsiValue(34),
        Color::AnsiValue(40),
        Color::AnsiValue(64),
        Color::AnsiValue(70),
    ];
    let i = random_below(rng, colors.len());
    assert(colors@ == seaweed_palette());
    colors[i]
}

} // verus!
