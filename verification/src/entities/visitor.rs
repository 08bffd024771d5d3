use vstd::prelude::*;
use crate::color::Color;

verus! {

/// The octopus's colour for a shade step of its slow colour cycle: magenta
/// at 0, then deeper and lighter pinks, 219 for every step from 4 on.
pub fn octopus_color(shade: u8) -> (c: Color)
    ensures
        c == match shade {
            0 => Color::Magenta,
            1 => Color::AnsiValue(201),
            2 => Color::AnsiValue(165),
            3 => Color::AnsiValue(213),
            _ => Color::AnsiValue(219),
        },
{
    match shade {
        0 => Color::Magenta,
        1 => Color::AnsiValue(201),
        2 => Color::AnsiValue(165),
        3 => Color::AnsiValue(213),
        _ => Color::AnsiValue(219),
    }
}

} // verus!
