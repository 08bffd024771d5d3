use vstd::prelude::*;
use rand::rngs::SmallRng;
use crate::color::Color;
use crate::rng::random_below;

verus! {

/// What kind of fish this is; each kind has its own shapes and colours.
#[derive(Clone, Copy, Debug, PartialEq, Eq, Structural)]
pub enum FishType {
    /// Fast, numerous, tight schooling radius.
    Small,
    /// Balanced.
    Medium,
    /// Slow, wide schooling radius.
    Large,
    /// Rare, colourful, individual wanderer.
    Exotic,
}

/// The ASCII shapes of a kind of fish, each as (right-facing, left-facing).
pub open spec fn glyph_table(t: FishType) -> Seq<(Seq<char>, Seq<char>)> {
    match t {
        FishType::Small => seq![
            ("><>"@, "<><"@),
            (">->"@, "<-<"@),
            ("><>>"@, "<<><"@),
            (">*>"@, "<*<"@),
        ],
        FishType::Medium => seq![
            ("))><"@, "<(("@),
            ("><))>"@, "<((<"@),
            (">-))>"@, "<((-<"@),
            (">O))>"@, "<))O<"@),
        ],
        FishType::Large => seq![
            ("><))°>"@, "<°((<"@),
            ("><)))°>"@, "<°(((<"@),
            ("><))=>"@, "<=))<"@),
            (">~~)°>"@, "<°)~~<"@),
        ],
        FishType::Exotic => seq![
            (">°><"@, "<><°"@),
            (">*><"@, "<><*"@),
            ("><°°>"@, "<°°><"@),
            ("><~>"@, "<~><"@),
        ],
    }
}

/// Every shape of a fish faces the way it is listed: the left-facing one
/// has its head, `<`, on the left, and the right-facing one never does.
pub proof fn lemma_glyphs_face_their_way(t: FishType, i: int)
    requires
        0 <= i < glyph_table(t).len(),
    ensures
        glyph_table(t).len() == 4,
        glyph_table(t)[i].1.len() > 0 && glyph_table(t)[i].1[0] == '<',
        glyph_table(t)[i].0.len() > 0 && glyph_table(t)[i].0[0] != '<',
{
    reveal_strlit("><>");
    reveal_strlit("<><");
    reveal_strlit(">->");
    reveal_strlit("<-<");
    reveal_strlit("><>>");
    reveal_strlit("<<><");
    reveal_strlit(">*>");
    reveal_strlit("<*<");
    reveal_strlit("))><");
    reveal_strlit("<((");
    reveal_strlit("><))>");
    reveal_strlit("<((<");
    reveal_strlit(">-))>");
    reveal_strlit("<((-<");
    reveal_strlit(">O))>");
    reveal_strlit("<))O<");
    reveal_strlit("><))°>");
    reveal_strlit("<°((<");
    reveal_strlit("><)))°>");
    reveal_strlit("<°(((<");
    reveal_strlit("><))=>");
    reveal_strlit("<=))<");
    reveal_strlit(">~~)°>");
    reveal_strlit("<°)~~<");
    reveal_strlit(">°><");
    reveal_strlit("<><°");
    reveal_strlit(">*><");
    reveal_strlit("<><*");
    reveal_strlit("><°°>");
    reveal_strlit("<°°><");
    reveal_strlit("><~>");
    reveal_strlit("<~><");
}

/// The colours a kind of fish may be given (xterm 256-colour palette).
pub open spec fn color_palette(t: FishType) -> Seq<Color> {
    match t {
        FishType::Small => seq![
            Color::Cyan,
            Color::White,
            Color::Yellow,
            Color::AnsiValue(87),
            Color::AnsiValue(159),
        ],
        FishType::Medium => seq![
            Color::Green,
            Color::AnsiValue(46),
            Color::AnsiValue(77),
            Color::AnsiValue(118),
        ],
        FishType::Large => seq![
            Color::Red,
            Color::AnsiValue(196),
            Color::AnsiValue(202),
            Color::AnsiValue(208),
        ],
        FishType::Exotic => seq![
            Color::Magenta,
            Color::AnsiValue(201),
            Color::AnsiValue(165),
            Color::AnsiValue(213),
            Color::AnsiValue(219),
        ],
    }
}

/// The name of a kind of fish.
pub open spec fn kind_name(t: FishType) -> Seq<char> {
    match t {
        FishType::Small => "Small"@,
        FishType::Medium => "Medium"@,
        FishType::Large => "Large"@,
        FishType::Exotic => "Exotic"@,
    }
}

impl FishType {
    /// All ASCII shapes of this kind of fish, each as (right-facing,
    /// left-facing).
    pub fn all_glyphs(self) -> (r: &'static [(&'static str, &'static str)])
        ensures
            r@.len() == glyph_table(self).len(),
            forall|i: int|
                0 <= i < r@.len() ==> (#[trigger] r@[i].0@, r@[i].1@) == glyph_table(self)[i],
    {
        match self {
            FishType::Small => &[
                ("><>", "<><"),
                (">->", "<-<"),
                ("><>>", "<<><"),
                (">*>", "<*<"),
            ],
            FishType::Medium => &[
                ("))><", "<(("),
                ("><))>", "<((<"),
                (">-))>", "<((-<"),
                (">O))>", "<))O<"),
            ],
            FishType::Large => &[
                ("><))°>", "<°((<"),
                ("><)))°>", "<°(((<"),
                ("><))=>", "<=))<"),
                (">~~)°>", "<°)~~<"),
            ],
            FishType::Exotic => &[
                (">°><", "<><°"),
                (">*><", "<><*"),
                ("><°°>", "<°°><"),
                ("><~>", "<~><"),
            ],
        }
    }

    /// One shape of this kind of fish by variant number, counting around:
    /// variant `v` is shape `v % 4`.
    pub fn glyphs(self, variant: usize) -> (r: (&'static str, &'static str))
        ensures
            (r.0@, r.1@) == glyph_table(self)[variant as int % glyph_table(self).len() as int],
    {
        let all = self.all_glyphs();
        all[variant % all.len()]
    }

    /// A colour for a new fish of this kind, drawn at random from its
    /// palette.
    pub fn random_color(self, rng: &mut SmallRng) -> (c: Color)
        ensures
            color_palette(self).contains(c),
    {
        match self {
            FishType::Small => {
                let choices = [
                    Color::Cyan,
                    Color::White,
                    Color::Yellow,
                    Color::AnsiValue(87),
                    Color::AnsiValue(159),
                ];
                let i = random_below(rng, choices.len());
                assert(choices@ == color_palette(self));
                choices[i]
            },
            FishType::Medium => {
                let choices = [
                    Color::Green,
                    Color::AnsiValue(46),
                    Color::AnsiValue(77),
                    Color::AnsiValue(118),
                ];
                let i = random_below(rng, choices.len());
                assert(choices@ == color_palette(self));
                choices[i]
            },
            FishType::Large => {
                let choices = [
                    Color::Red,
                    Color::AnsiValue(196),
                    Color::AnsiValue(202),
                    Color::AnsiValue(208),
                ];
                let i = random_below(rng, choices.len());
                assert(choices@ == color_palette(self));
                choices[i]
            },
            FishType::Exotic => {
                let choices = [
                    Color::Magenta,
                    Color::AnsiValue(201),
                    Color::AnsiValue(165),
                    Color::AnsiValue(213),
                    Color::AnsiValue(219),
                ];
                let i = random_below(rng, choices.len());
                assert(choices@ == color_palette(self));
                choices[i]
            },
        }
    }

    /// The name a harpoon notification gives this kind of fish.
    pub fn name(self) -> (r: &'static str)
        ensures
            r@ == kind_name(self),
    {
        match self {
            FishType::Small => "Small",
            FishType::Medium => "Medium",
            FishType::Large => "Large",
            FishType::Exotic => "Exotic",
        }
    }
}

} // verus!
