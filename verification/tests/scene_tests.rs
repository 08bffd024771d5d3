use asciiquarium::aquarium::tank_viewport;
use asciiquarium::color::Color;
use asciiquarium::hud::{draw_hud, draw_hud_at};
use asciiquarium::renderer::Renderer;
use asciiquarium::scene::{
    cat_eye, draw_cat, draw_couch, draw_kill_notification, draw_room, draw_sea_floor,
    draw_tank_frame, frame_fg, wall_bg,
};

fn rows(r: &Renderer) -> Vec<String> {
    r.debug_rows()
}

#[test]
fn sea_floor_has_weed_sand_and_sediment() {
    let mut r = Renderer::new(5, 5);
    draw_sea_floor(&mut r, 5, 3, 1, 5);
    assert_eq!(
        rows(&r),
        vec!["     ", "~~~~~", "     ", "=====", "     "]
    );
    // No sediment row when the sand is the last row of the tank.
    let mut r = Renderer::new(3, 4);
    draw_sea_floor(&mut r, 3, 3, 2, 4);
    assert_eq!(rows(&r), vec!["   ", "   ", "~~~", "==="]);
}

#[test]
fn kill_banner_is_centred_on_the_upper_third() {
    let mut r = Renderer::new(20, 9);
    draw_kill_notification(&mut r, 20, 9, "hit!", Color::Red);
    assert_eq!(rows(&r)[3], "        hit!        ");
    // A banner longer than the tank starts at the left edge.
    let mut r = Renderer::new(4, 3);
    draw_kill_notification(&mut r, 4, 3, "abcdefghij", Color::Red);
    assert_eq!(rows(&r)[1], "abcd");
}

#[test]
fn small_frame_has_rails_sides_and_corners() {
    let mut r = Renderer::new(12, 6);
    draw_tank_frame(&mut r, (2, 2, 6, 2));
    assert_eq!(
        rows(&r),
        vec![
            "            ",
            " +======+   ",
            " |      |   ",
            " |      |   ",
            " +======+   ",
            "            ",
        ]
    );
}

#[test]
fn wide_frame_carries_the_label() {
    let mut r = Renderer::new(24, 4);
    draw_tank_frame(&mut r, (1, 1, 20, 1));
    assert_eq!(rows(&r)[0], "+=== ~ aquarium ~ ===+  ");
    assert_eq!(rows(&r)[2], "+====================+  ");
}

#[test]
fn frame_at_the_screen_corner_is_clamped() {
    let mut r = Renderer::new(5, 4);
    draw_tank_frame(&mut r, (0, 0, 2, 1));
    assert_eq!(rows(&r), vec!["+==+ ", "|  | ", "+==+ ", "     "]);
}

#[test]
fn couch_has_backrest_seams_and_base() {
    let mut r = Renderer::new(8, 4);
    draw_couch(&mut r, 0, 0, 6);
    assert_eq!(
        rows(&r),
        vec!["/----\\  ", "|  | |  ", "|  | |  ", "\\____/  "]
    );
}

#[test]
fn wide_couch_has_one_cushion_per_14_cells() {
    let mut r = Renderer::new(42, 4);
    draw_couch(&mut r, 0, 0, 42);
    // 42 / 14 = 3 cushions: seams at 14 and 28.
    let row = rows(&r)[1].clone();
    let seams: Vec<usize> = row.char_indices().filter(|(_, c)| *c == '|').map(|(i, _)| i).collect();
    assert_eq!(seams, vec![0, 14, 28, 41]);
}

#[test]
fn narrow_couch_is_not_drawn() {
    let mut r = Renderer::new(4, 4);
    draw_couch(&mut r, 0, 0, 3);
    assert_eq!(rows(&r), vec!["    "; 4]);
}

#[test]
fn cat_with_paw_up_and_open_eyes() {
    let mut r = Renderer::new(30, 3);
    draw_cat(&mut r, 0, 0, false, true);
    let got = rows(&r);
    assert_eq!(got[0], format!("{:<30}", "    |\\__/,|   (`\\"));
    assert_eq!(got[1], format!("{:<30}", "  _.|o o  |_   ) )"));
    assert_eq!(got[2], format!("{:<30}", "-(((---(((--------      Melu"));
}

#[test]
fn cat_blinking_with_paw_down() {
    let mut r = Renderer::new(30, 3);
    draw_cat(&mut r, 0, 0, true, false);
    let got = rows(&r);
    assert_eq!(got[0], format!("{:<30}", "    |\\__/,|     /´)"));
    assert_eq!(got[1], format!("{:<30}", "  _.|- -  |_   ( ("));
}

#[test]
fn cat_sprite_spaces_let_the_wall_show_through() {
    let mut r = Renderer::new(30, 3);
    r.put(0, 0, '#', Color::Red, Color::Reset);
    r.put(1, 1, '#', Color::Red, Color::Reset);
    draw_cat(&mut r, 0, 0, false, true);
    assert_eq!(r.debug_rows()[0].chars().next(), Some('#'));
    assert_eq!(r.debug_rows()[1].chars().nth(1), Some('#'));
}

#[test]
fn cat_palette_values() {
    assert_eq!(wall_bg(), Color::AnsiValue(236));
    assert_eq!(frame_fg(), Color::AnsiValue(214));
    assert_eq!(cat_eye(), Color::AnsiValue(46));
}

#[test]
fn living_room_snapshot() {
    let (w, h) = (80u16, 28u16);
    let vp = tank_viewport(w, h, true);
    let mut r = Renderer::new(w, h);
    draw_room(&mut r, w, h, vp, false, true);
    let got = rows(&r);
    assert_eq!(got.len(), 28);
    let at = |y: usize, x: usize| got[y].chars().nth(x).unwrap();
    // Frame corners around the (11, 2, 58, 16) interior.
    assert_eq!(at(1, 10), '+');
    assert_eq!(at(1, 69), '+');
    assert_eq!(at(18, 10), '+');
    assert_eq!(at(18, 69), '+');
    // The couch, 56 cells wide from column 12, on rows 23 to 26.
    assert_eq!(at(23, 12), '/');
    assert_eq!(at(23, 67), '\\');
    assert_eq!(at(26, 12), '\\');
    // The cat at column 31, row 20, signed on the wall.
    assert_eq!(&got[22][55..59], "Melu");
    assert_eq!(at(20, 35), '|');
}

#[test]
fn hud_shows_clock_hint_and_counter() {
    let mut r = Renderer::new(120, 2);
    draw_hud_at(&mut r, 120, "12:34:56", false, false, 18, 24);
    let row = &rows(&r)[0];
    assert_eq!(&row[0..10], " 12:34:56 ");
    let hint = " q:quit  c:cat  h:harpoon  click:feed ";
    assert_eq!(&row[120 - hint.len()..], hint);
    assert_eq!(&row[54..66], " 18/24 fish ");
}

#[test]
fn hud_counter_is_dropped_when_it_does_not_fit() {
    let mut r = Renderer::new(80, 1);
    draw_hud_at(&mut r, 80, "12:34:56", false, false, 18, 24);
    let row = &rows(&r)[0];
    assert!(!row.contains("fish"));
    assert_eq!(&row[42..], " q:quit  c:cat  h:harpoon  click:feed ");
}

#[test]
fn hud_in_harpoon_and_cat_modes() {
    let mut r = Renderer::new(120, 1);
    draw_hud_at(&mut r, 120, "01:02:03", true, true, 0, 7);
    let row = &rows(&r)[0];
    assert_eq!(&row[10..21], " [HARPOON] ");
    assert!(row.ends_with(" q:quit  h:off  click:KILL "));
    assert_eq!(&row[55..65], " 0/7 fish ");

    let mut r = Renderer::new(120, 1);
    draw_hud_at(&mut r, 120, "01:02:03", false, true, 1000, 1000);
    let row = &rows(&r)[0];
    assert!(row.ends_with(" q:quit  c:full  h:harpoon  click:feed "));
    assert!(row.contains(" 1000/1000 fish "));
}

#[test]
fn hud_clock_reads_the_local_time() {
    let mut r = Renderer::new(100, 1);
    draw_hud(&mut r, 100, false, false, 3, 4);
    let row: Vec<char> = rows(&r)[0].chars().collect();
    assert_eq!(row[0], ' ');
    assert_eq!(row[3], ':');
    assert_eq!(row[6], ':');
    assert_eq!(row[9], ' ');
    for i in [1, 2, 4, 5, 7, 8] {
        assert!(row[i].is_ascii_digit());
    }
}

#[test]
fn frame_and_couch_may_reach_the_last_column() {
    // The frame's right edge and the couch's right end on column 65535 are
    // off this small screen but still drawable.
    let mut r = Renderer::new(4, 4);
    draw_tank_frame(&mut r, (65534, 1, 1, 1));
    draw_couch(&mut r, 65532, 0, 4);
    assert_eq!(rows(&r), vec!["    "; 4]);
}
