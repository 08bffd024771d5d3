use asciiquarium::aquarium::{
    choose_flake_slot, fish_grid, harpoon_message, parse_config, parse_usize, tank_coords, tank_viewport,
    Config, FlakeSlot, TankLayout, DEFAULT_FISH_COUNT, MAX_FLAKES,
};
use asciiquarium::entities::fish::FishType;

fn args(list: &[&str]) -> Vec<String> {
    list.iter().map(|s| s.to_string()).collect()
}

#[test]
fn default_config_has_24_fish() {
    assert_eq!(Config::default().fish_count, 24);
    assert_eq!(DEFAULT_FISH_COUNT, 24);
}

#[test]
fn no_arguments_give_the_default_count() {
    let c = parse_config(&args(&["asciiquarium"])).unwrap();
    assert_eq!(c.fish_count, 24);
    let c = parse_config(&Vec::new()).unwrap();
    assert_eq!(c.fish_count, 24);
}

#[test]
fn fish_option_sets_the_count() {
    let c = parse_config(&args(&["aq", "--fish", "50"])).unwrap();
    assert_eq!(c.fish_count, 50);
    let c = parse_config(&args(&["aq", "--fish", "+7"])).unwrap();
    assert_eq!(c.fish_count, 7);
}

#[test]
fn fish_count_is_clamped_to_1_through_200() {
    assert_eq!(parse_config(&args(&["aq", "--fish", "0"])).unwrap().fish_count, 1);
    assert_eq!(parse_config(&args(&["aq", "--fish", "500"])).unwrap().fish_count, 200);
    assert_eq!(parse_config(&args(&["aq", "--fish", "200"])).unwrap().fish_count, 200);
    assert_eq!(parse_config(&args(&["aq", "--fish", "1"])).unwrap().fish_count, 1);
}

#[test]
fn bad_fish_values_are_skipped() {
    assert_eq!(parse_config(&args(&["aq", "--fish", "lots"])).unwrap().fish_count, 24);
    assert_eq!(parse_config(&args(&["aq", "--fish", "-3"])).unwrap().fish_count, 24);
    assert_eq!(parse_config(&args(&["aq", "--fish"])).unwrap().fish_count, 24);
    // The value is consumed even when it is not a number.
    assert!(parse_config(&args(&["aq", "--fish", "--help"])).is_some());
}

#[test]
fn last_fish_option_wins_and_unknown_arguments_are_ignored() {
    let c = parse_config(&args(&["aq", "--fish", "5", "--bogus", "--fish", "9"])).unwrap();
    assert_eq!(c.fish_count, 9);
}

#[test]
fn help_asks_for_no_aquarium() {
    assert!(parse_config(&args(&["aq", "--help"])).is_none());
    assert!(parse_config(&args(&["aq", "-h"])).is_none());
    assert!(parse_config(&args(&["aq", "--fish", "3", "-h"])).is_none());
}

#[test]
fn full_screen_viewport_is_the_whole_terminal() {
    assert_eq!(tank_viewport(80, 24, false), (0, 0, 80, 24));
    assert_eq!(tank_viewport(1, 1, false), (0, 0, 1, 1));
}

#[test]
fn cat_mode_viewport_leaves_room_for_the_couch() {
    assert_eq!(tank_viewport(80, 28, true), (11, 2, 58, 16));
    assert_eq!(tank_viewport(200, 60, true), (11, 2, 178, 37));
}

#[test]
fn cat_mode_viewport_on_a_tiny_terminal_stays_usable() {
    assert_eq!(tank_viewport(10, 10, true), (3, 2, 4, 4));
    assert_eq!(tank_viewport(1, 1, true), (3, 2, 4, 4));
    let (x, y, w, h) = tank_viewport(0, 0, true);
    assert!(x >= 3 && y == 2 && w >= 4 && h >= 4);
}

#[test]
fn clicks_are_mapped_into_the_tank() {
    let vp = (11, 2, 58, 16);
    assert_eq!(tank_coords(vp, 11, 2), Some((0, 0)));
    assert_eq!(tank_coords(vp, 68, 17), Some((57, 15)));
    assert_eq!(tank_coords(vp, 10, 2), None);
    assert_eq!(tank_coords(vp, 69, 2), None);
    assert_eq!(tank_coords(vp, 20, 18), None);
    assert_eq!(tank_coords((0, 0, 80, 24), 5, 7), Some((5, 7)));
}

#[test]
fn fish_grid_has_one_cell_per_fish() {
    assert_eq!(fish_grid(1), (1, 1));
    assert_eq!(fish_grid(18), (5, 4));
    assert_eq!(fish_grid(24), (5, 5));
    assert_eq!(fish_grid(25), (5, 5));
    assert_eq!(fish_grid(26), (6, 5));
    assert_eq!(fish_grid(200), (15, 14));
    for n in 1..300usize {
        let (cols, rows) = fish_grid(n);
        assert!(cols * rows >= n);
        assert!((n - 1) / cols < rows);
    }
}

#[test]
fn a_flake_reuses_the_first_free_slot() {
    assert_eq!(choose_flake_slot(&vec![true, false, true, false]), FlakeSlot::Reuse(1));
    assert_eq!(choose_flake_slot(&vec![false]), FlakeSlot::Reuse(0));
}

#[test]
fn a_flake_grows_the_pool_until_it_is_full() {
    assert_eq!(choose_flake_slot(&Vec::new()), FlakeSlot::Append);
    assert_eq!(choose_flake_slot(&vec![true; MAX_FLAKES - 1]), FlakeSlot::Append);
    assert_eq!(choose_flake_slot(&vec![true; MAX_FLAKES]), FlakeSlot::Ignore);
    assert_eq!(MAX_FLAKES, 12);
}

#[test]
fn harpoon_message_names_the_fish_and_its_shape() {
    assert_eq!(
        harpoon_message(FishType::Small, 5),
        " >> Harpooned a Small fish!  >->  << "
    );
    assert_eq!(
        harpoon_message(FishType::Large, 0),
        " >> Harpooned a Large fish!  ><))°>  << "
    );
    assert_eq!(
        harpoon_message(FishType::Exotic, 3),
        " >> Harpooned a Exotic fish!  ><~>  << "
    );
}

fn fields(l: &TankLayout) -> (u16, u16, bool, usize, (u16, u16, u16, u16)) {
    (l.term_w, l.term_h, l.cat_mode, l.fish_count, l.vp)
}

#[test]
fn a_new_layout_is_full_screen_with_at_least_one_fish() {
    let l = TankLayout::new(80, 28, &Config { fish_count: 0 });
    assert_eq!(fields(&l), (80, 28, false, 1, (0, 0, 80, 28)));
    let l = TankLayout::new(80, 28, &Config { fish_count: 30 });
    assert_eq!(l.fish_count, 30);
}

#[test]
fn toggling_cat_mode_keeps_size_and_fish() {
    let l = TankLayout::new(80, 28, &Config { fish_count: 18 });
    let cat = l.toggled_cat_mode();
    assert_eq!(fields(&cat), (80, 28, true, 18, (11, 2, 58, 16)));
    assert_eq!(fields(&cat.toggled_cat_mode()), fields(&l));
}

#[test]
fn resizing_keeps_mode_and_fish() {
    let cat = TankLayout::build(80, 28, 18, true);
    let big = cat.resized(200, 60);
    assert_eq!(fields(&big), (200, 60, true, 18, (11, 2, 178, 37)));
    assert_eq!(fields(&cat.resized(80, 28)), fields(&cat));
    assert_eq!(
        fields(&cat.resized(100, 40).toggled_cat_mode()),
        fields(&cat.toggled_cat_mode().resized(100, 40))
    );
}

#[test]
fn numbers_are_read_as_std_reads_them() {
    for text in ["0", "7", "+7", "+007", "200", "4294967295", "abc", "", "+", "++5", "12a", "-1", " 5", "5 ", "٣"] {
        assert_eq!(parse_usize(text), text.parse::<usize>().ok(), "reading {:?}", text);
    }
    let max = usize::MAX.to_string();
    assert_eq!(parse_usize(&max), Some(usize::MAX));
    let over = format!("{}0", max);
    assert_eq!(parse_usize(&over), None);
    assert_eq!(parse_usize("0000000000000000000000000000012"), Some(12));
}
