use asciiquarium::color::Color;
use asciiquarium::entities::bubble::BubbleSize;
use asciiquarium::entities::fish::FishType;
use asciiquarium::entities::seaweed::random_seaweed_color;
use asciiquarium::entities::visitor::octopus_color;
use rand::rngs::SmallRng;
use rand::SeedableRng;

#[test]
fn bubble_glyphs_and_colours() {
    assert_eq!(BubbleSize::Small.glyph(), '·');
    assert_eq!(BubbleSize::Medium.glyph(), 'o');
    assert_eq!(BubbleSize::Large.glyph(), 'O');
    assert_eq!(BubbleSize::Small.color(), Color::AnsiValue(159));
    assert_eq!(BubbleSize::Medium.color(), Color::Cyan);
    assert_eq!(BubbleSize::Large.color(), Color::AnsiValue(51));
}

#[test]
fn every_kind_has_four_shapes() {
    for t in [FishType::Small, FishType::Medium, FishType::Large, FishType::Exotic] {
        assert_eq!(t.all_glyphs().len(), 4);
    }
    assert_eq!(FishType::Small.all_glyphs()[0], ("><>", "<><"));
    assert_eq!(FishType::Medium.all_glyphs()[3], (">O))>", "<))O<"));
    assert_eq!(FishType::Large.all_glyphs()[1], ("><)))°>", "<°(((<"));
    assert_eq!(FishType::Exotic.all_glyphs()[2], ("><°°>", "<°°><"));
}

#[test]
fn glyph_variants_wrap_around() {
    assert_eq!(FishType::Small.glyphs(0), ("><>", "<><"));
    assert_eq!(FishType::Small.glyphs(4), ("><>", "<><"));
    assert_eq!(FishType::Medium.glyphs(6), (">-))>", "<((-<"));
    assert_eq!(FishType::Exotic.glyphs(usize::MAX), ("><~>", "<~><"));
}

#[test]
fn kind_names() {
    assert_eq!(FishType::Small.name(), "Small");
    assert_eq!(FishType::Medium.name(), "Medium");
    assert_eq!(FishType::Large.name(), "Large");
    assert_eq!(FishType::Exotic.name(), "Exotic");
}

#[test]
fn random_fish_colours_come_from_the_palette() {
    let mut rng = SmallRng::seed_from_u64(7);
    let small = [Color::Cyan, Color::White, Color::Yellow, Color::AnsiValue(87), Color::AnsiValue(159)];
    let medium = [Color::Green, Color::AnsiValue(46), Color::AnsiValue(77), Color::AnsiValue(118)];
    let large = [Color::Red, Color::AnsiValue(196), Color::AnsiValue(202), Color::AnsiValue(208)];
    let exotic = [
        Color::Magenta,
        Color::AnsiValue(201),
        Color::AnsiValue(165),
        Color::AnsiValue(213),
        Color::AnsiValue(219),
    ];
    let mut seen_small = Vec::new();
    for _ in 0..200 {
        let c = FishType::Small.random_color(&mut rng);
        assert!(small.contains(&c));
        if !seen_small.contains(&c) {
            seen_small.push(c);
        }
        assert!(medium.contains(&FishType::Medium.random_color(&mut rng)));
        assert!(large.contains(&FishType::Large.random_color(&mut rng)));
        assert!(exotic.contains(&FishType::Exotic.random_color(&mut rng)));
    }
    // Draws are spread over the palette, not stuck on one entry.
    assert!(seen_small.len() > 1);
}

#[test]
fn random_seaweed_colours_come_from_the_palette() {
    let mut rng = SmallRng::seed_from_u64(11);
    let greens = [
        Color::AnsiValue(22),
        Color::AnsiValue(28),
        Color::AnsiValue(34),
        Color::AnsiValue(40),
        Color::AnsiValue(64),
        Color::AnsiValue(70),
    ];
    for _ in 0..100 {
        assert!(greens.contains(&random_seaweed_color(&mut rng)));
    }
}

#[test]
fn octopus_colour_cycle() {
    assert_eq!(octopus_color(0), Color::Magenta);
    assert_eq!(octopus_color(1), Color::AnsiValue(201));
    assert_eq!(octopus_color(2), Color::AnsiValue(165));
    assert_eq!(octopus_color(3), Color::AnsiValue(213));
    assert_eq!(octopus_color(4), Color::AnsiValue(219));
    assert_eq!(octopus_color(255), Color::AnsiValue(219));
}
