use vstd::prelude::*;
use crate::aquarium::{max_int, min_int, sat_sub};
use crate::color::Color;
use crate::renderer::{lemma_paint_concat, lemma_paint_push, str_puts, Cell, Geometry, Renderer};

verus! {

// =============================================================================
// Runs and rectangles of cells
// =============================================================================

/// The drawings of `n` copies of `c` from `(x0, y)` rightwards.
pub open spec fn row_puts(x0: int, y: int, n: int, c: Cell) -> Seq<(int, int, Cell)> {
    Seq::new(n as nat, |i: int| (x0 + i, y, c))
}

/// The drawings that fill the `w × h` rectangle at `(x0, y0)` with `c`, row
/// by row from the top.
pub open spec fn rect_puts(x0: int, y0: int, w: int, h: int, c: Cell) -> Seq<(int, int, Cell)>
    decreases h,
{
    if h <= 0 {
        Seq::empty()
    } else {
        rect_puts(x0, y0, w, h - 1, c) + row_puts(x0, y0 + h - 1, w, c)
    }
}

/// The drawings of a sprite line: the characters of `line` from `(x, y)`
/// rightwards, spaces left out so that what is behind shows through.
pub open spec fn sprite_puts(x: int, y: int, line: Seq<char>, fg: Color, bg: Color) -> Seq<
    (int, int, Cell),
>
    decreases line.len(),
{
    if line.len() == 0 {
        Seq::empty()
    } else {
        let rest = sprite_puts(x, y, line.drop_last(), fg, bg);
        if line.last() == ' ' {
            rest
        } else {
            rest.push((x + line.len() - 1, y, Cell::new_spec(line.last(), fg, bg)))
        }
    }
}

/// Draw `n` copies of `ch` from `(x0, y)` rightwards.
fn put_row(r: &mut Renderer, x0: u16, y: u16, n: u16, ch: char, fg: Color, bg: Color)
    requires
        old(r).wf(),
        old(r).geometry().run_in_range(x0 as int, y as int, n as int),
        x0 + n <= u16::MAX + 1,
    ensures
        final(r).wf(),
        final(r).geometry() == old(r).geometry(),
        final(r).front() == old(r).front(),
        final(r).back() == old(r).geometry().paint(
            old(r).back(),
            row_puts(x0 as int, y as int, n as int, Cell::new_spec(ch, fg, bg)),
        ),
{
    let ghost g = r.geometry();
    let ghost b0 = r.back();
    let ghost ps = row_puts(x0 as int, y as int, n as int, Cell::new_spec(ch, fg, bg));
    let mut i: u16 = 0;
    while i < n
        invariant
            r.wf(),
            r.geometry() == g,
            g == old(r).geometry(),
            g.run_in_range(x0 as int, y as int, n as int),
            r.front() == old(r).front(),
            b0 == old(r).back(),
            ps == row_puts(x0 as int, y as int, n as int, Cell::new_spec(ch, fg, bg)),
            x0 + n <= u16::MAX + 1,
            i <= n,
            r.back() == g.paint(b0, ps.take(i as int)),
        decreases n - i,
    {
        proof {
            assert(ps.take(i as int + 1) =~= ps.take(i as int).push(ps[i as int]));
            lemma_paint_push(g, b0, ps.take(i as int), ps[i as int]);
        }
        r.put(x0 + i, y, ch, fg, bg);
        i = i + 1;
    }
    assert(ps.take(n as int) =~= ps);
}

/// Fill the `w × h` rectangle at `(x0, y0)` with `ch`, row by row.
fn fill_rect(r: &mut Renderer, x0: u16, y0: u16, w: u16, h: u16, ch: char, fg: Color, bg: Color)
    requires
        old(r).wf(),
        old(r).geometry().vp_in_range(),
        x0 + w <= u16::MAX + 1,
        y0 + h <= u16::MAX + 1,
    ensures
        final(r).wf(),
        final(r).geometry() == old(r).geometry(),
        final(r).front() == old(r).front(),
        final(r).back() == old(r).geometry().paint(
            old(r).back(),
            rect_puts(x0 as int, y0 as int, w as int, h as int, Cell::new_spec(ch, fg, bg)),
        ),
{
    let ghost g = r.geometry();
    let ghost b0 = r.back();
    let ghost c = Cell::new_spec(ch, fg, bg);
    let mut j: u16 = 0;
    while j < h
        invariant
            r.wf(),
            r.geometry() == g,
            g == old(r).geometry(),
            g.vp_in_range(),
            r.front() == old(r).front(),
            b0 == old(r).back(),
            c == Cell::new_spec(ch, fg, bg),
            x0 + w <= u16::MAX + 1,
            y0 + h <= u16::MAX + 1,
            j <= h,
            r.back() == g.paint(b0, rect_puts(x0 as int, y0 as int, w as int, j as int, c)),
        decreases h - j,
    {
        put_row(r, x0, y0 + j, w, ch, fg, bg);
        proof {
            lemma_paint_concat(
                g,
                b0,
                rect_puts(x0 as int, y0 as int, w as int, j as int, c),
                row_puts(x0 as int, y0 + j, w as int, c),
            );
        }
        j = j + 1;
    }
}

/// Draw the sprite line `s` from `(x, y)` rightwards, leaving its spaces
/// out.
fn put_sprite(r: &mut Renderer, x: u16, y: u16, s: &str, fg: Color, bg: Color)
    requires
        old(r).wf(),
        old(r).geometry().vp_in_range(),
        x + s@.len() <= u16::MAX + 1,
    ensures
        final(r).wf(),
        final(r).geometry() == old(r).geometry(),
        final(r).front() == old(r).front(),
        final(r).back() == old(r).geometry().paint(
            old(r).back(),
            sprite_puts(x as int, y as int, s@, fg, bg),
        ),
{
    broadcast use vstd::string::group_string_axioms;

    let ghost g = r.geometry();
    let ghost b0 = r.back();
    let mut i: usize = 0;
    for ch in it: s.chars()
        invariant
            r.wf(),
            r.geometry() == g,
            g == old(r).geometry(),
            g.vp_in_range(),
            r.front() == old(r).front(),
            b0 == old(r).back(),
            it.seq() == s@,
            i == it.index(),
            x + s@.len() <= u16::MAX + 1,
            r.back() == g.paint(b0, sprite_puts(x as int, y as int, s@.take(i as int), fg, bg)),
    {
        proof {
            assert(s@.take(i as int + 1).drop_last() =~= s@.take(i as int));
        }
        if ch != ' ' {
            proof {
                lemma_paint_push(
                    g,
                    b0,
                    sprite_puts(x as int, y as int, s@.take(i as int), fg, bg),
                    (x + i, y as int, Cell::new_spec(ch, fg, bg)),
                );
            }
            r.put(x + i as u16, y, ch, fg, bg);
        }
        i = i + 1;
    }
    assert(s@.take(s@.len() as int) =~= s@);
}

// =============================================================================
// The sea floor and the kill banner (drawn in tank coordinates)
// =============================================================================

/// The drawings of the sea floor of a tank `w` cells wide and `height` rows
/// high: a `~` line at the seaweed row `level_y`, a `=` sand line at
/// `floor_y`, and dark sediment on the row below the sand when that row is
/// inside the tank.
pub open spec fn sea_floor_puts(w: int, floor_y: int, level_y: int, height: int) -> Seq<
    (int, int, Cell),
> {
    row_puts(0, level_y, w, Cell::new_spec('~', Color::AnsiValue(64), Color::Reset)) + row_puts(
        0,
        floor_y,
        w,
        Cell::new_spec('=', Color::AnsiValue(136), Color::Reset),
    ) + if floor_y + 1 < height {
        row_puts(0, floor_y + 1, w, Cell::new_spec(' ', Color::Reset, Color::AnsiValue(94)))
    } else {
        Seq::empty()
    }
}

/// Draw the sea floor of a tank `w` cells wide and `height` rows high, with
/// the seaweed line at row `level_y` and the sand at row `floor_y`.
pub fn draw_sea_floor(r: &mut Renderer, w: u16, floor_y: u16, level_y: u16, height: u16)
    requires
        old(r).wf(),
        old(r).geometry().run_in_range(0, level_y as int, w as int),
        old(r).geometry().run_in_range(0, floor_y as int, w as int),
        floor_y + 1 < height ==> old(r).geometry().run_in_range(0, floor_y + 1, w as int),
        floor_y < u16::MAX,
    ensures
        final(r).wf(),
        final(r).geometry() == old(r).geometry(),
        final(r).front() == old(r).front(),
        final(r).back() == old(r).geometry().paint(
            old(r).back(),
            sea_floor_puts(w as int, floor_y as int, level_y as int, height as int),
        ),
{
    let ghost g = r.geometry();
    let ghost b0 = r.back();
    let ghost p1 = row_puts(0, level_y as int, w as int, Cell::new_spec('~', Color::AnsiValue(64), Color::Reset));
    let ghost p2 = row_puts(0, floor_y as int, w as int, Cell::new_spec('=', Color::AnsiValue(136), Color::Reset));
    put_row(r, 0, level_y, w, '~', Color::AnsiValue(64), Color::Reset);
    put_row(r, 0, floor_y, w, '=', Color::AnsiValue(136), Color::Reset);
    proof {
        lemma_paint_concat(g, b0, p1, p2);
    }
    if floor_y + 1 < height {
        put_row(r, 0, floor_y + 1, w, ' ', Color::Reset, Color::AnsiValue(94));
        proof {
            lemma_paint_concat(
                g,
                b0,
                p1 + p2,
                row_puts(0, floor_y + 1, w as int, Cell::new_spec(' ', Color::Reset, Color::AnsiValue(94))),
            );
        }
    } else {
        assert(p1 + p2 + Seq::<(int, int, Cell)>::empty() =~= p1 + p2);
    }
}

/// Drawings that all land elsewhere leave buffer cell `k` as it was.
proof fn lemma_paint_misses(g: Geometry, b: Seq<Cell>, p: Seq<(int, int, Cell)>, k: int)
    requires
        0 <= k < b.len(),
        forall|j: int| 0 <= j < p.len() ==> g.slot(#[trigger] p[j].0, p[j].1) != Some(k),
    ensures
        g.paint(b, p)[k] == b[k],
    decreases p.len(),
{
    crate::renderer::lemma_paint_len(g, b, p);
    if p.len() > 0 {
        let rest = p.drop_last();
        assert forall|j: int| 0 <= j < rest.len() implies g.slot(#[trigger] rest[j].0, rest[j].1)
            != Some(k) by {
            assert(rest[j] == p[j]);
        }
        lemma_paint_misses(g, b, rest, k);
        crate::renderer::lemma_paint_len(g, b, rest);
        assert(p.last() == p[p.len() - 1]);
    }
}

/// Without a viewport, after any drawings, a run of `c` from column 0 of
/// row `y`, and then drawings on other rows, every on-screen cell of the
/// run shows `c`.
proof fn lemma_row_shows(
    g: Geometry,
    b: Seq<Cell>,
    pre: Seq<(int, int, Cell)>,
    y: int,
    w: int,
    c: Cell,
    x: int,
    post: Seq<(int, int, Cell)>,
)
    requires
        !g.vp_active,
        b.len() == g.size(),
        0 <= x < w,
        x < g.width,
        0 <= y < g.height,
        forall|j: int| 0 <= j < post.len() ==> (#[trigger] post[j]).0 >= 0 && post[j].1 != y,
    ensures
        g.paint(b, pre + row_puts(0, y, w, c) + post)[y * g.width + x] == c,
{
    let row = row_puts(0, y, w, c);
    let k = y * g.width + x;
    let a = pre + row.take(x + 1);
    let rest = row.skip(x + 1) + post;
    assert(pre + row + post =~= a + rest);
    crate::renderer::lemma_paint_concat(g, b, a, rest);
    assert(a =~= (pre + row.take(x)).push(row[x]));
    lemma_paint_push(g, b, pre + row.take(x), row[x]);
    crate::renderer::lemma_paint_len(g, b, pre + row.take(x));
    assert(0 <= k < g.width * g.height) by (nonlinear_arith)
        requires
            0 <= x < g.width,
            0 <= y < g.height,
            k == y * g.width + x,
    ;
    assert(g.slot(x, y) == Some(k));
    crate::renderer::lemma_paint_len(g, b, a);
    assert forall|j: int| 0 <= j < rest.len() implies g.slot(#[trigger] rest[j].0, rest[j].1)
        != Some(k) by {
        if j < w - x - 1 {
            assert(rest[j] == row[x + 1 + j]);
        } else {
            let q = post[j - (w - x - 1)];
            assert(rest[j] == q);
            if let Some(m) = g.slot(q.0, q.1) {
                crate::renderer::lemma_cell_coords(m, g.width as int, q.0, q.1);
                crate::renderer::lemma_cell_coords(k, g.width as int, x, y);
            }
        }
    }
    lemma_paint_misses(g, g.paint(b, a), rest, k);
}

/// With no viewport, once the sea floor is drawn, every on-screen cell of
/// its rows shows what the floor is made of: the row under the sand line
/// (when inside the tank) is a space on dark brown (xterm colour 94), the
/// sand line is `=` in sandy xterm colour 136, and the weed line, unless a
/// lower line covers it, is `~` in green xterm colour 64, both on the
/// default background.
pub proof fn lemma_sea_floor_shows(
    g: Geometry,
    b: Seq<Cell>,
    w: int,
    floor_y: int,
    level_y: int,
    height: int,
    x: int,
)
    requires
        !g.vp_active,
        b.len() == g.size(),
        0 <= x < w,
        x < g.width,
    ensures
        ({
            let after = g.paint(b, sea_floor_puts(w, floor_y, level_y, height));
            let sediment = floor_y + 1 < height;
            &&& sediment && 0 <= floor_y + 1 < g.height ==> after[(floor_y + 1) * g.width + x]
                == (Cell { ch: ' ', fg: Color::Reset, bg: Color::AnsiValue(94) })
            &&& 0 <= floor_y < g.height ==> after[floor_y * g.width + x] == (Cell {
                ch: '=',
                fg: Color::AnsiValue(136),
                bg: Color::Reset,
            })
            &&& 0 <= level_y < g.height && level_y != floor_y && !(sediment && level_y == floor_y
                + 1) ==> after[level_y * g.width + x] == (Cell {
                ch: '~',
                fg: Color::AnsiValue(64),
                bg: Color::Reset,
            })
        }),
{
    let weed = row_puts(0, level_y, w, Cell::new_spec('~', Color::AnsiValue(64), Color::Reset));
    let sand = row_puts(0, floor_y, w, Cell::new_spec('=', Color::AnsiValue(136), Color::Reset));
    let sed_c = Cell::new_spec(' ', Color::Reset, Color::AnsiValue(94));
    let sed: Seq<(int, int, Cell)> = if floor_y + 1 < height {
        row_puts(0, floor_y + 1, w, sed_c)
    } else {
        Seq::empty()
    };
    let e = Seq::<(int, int, Cell)>::empty();
    assert(sea_floor_puts(w, floor_y, level_y, height) == weed + sand + sed);
    if floor_y + 1 < height && 0 <= floor_y + 1 < g.height {
        assert(weed + sand + sed =~= weed + sand + sed + e);
        lemma_row_shows(g, b, weed + sand, floor_y + 1, w, sed_c, x, e);
    }
    if 0 <= floor_y < g.height {
        lemma_row_shows(
            g,
            b,
            weed,
            floor_y,
            w,
            Cell::new_spec('=', Color::AnsiValue(136), Color::Reset),
            x,
            sed,
        );
    }
    if 0 <= level_y < g.height && level_y != floor_y && !(floor_y + 1 < height && level_y
        == floor_y + 1) {
        assert(weed + sand + sed =~= e + weed + (sand + sed));
        lemma_row_shows(
            g,
            b,
            e,
            level_y,
            w,
            Cell::new_spec('~', Color::AnsiValue(64), Color::Reset),
            x,
            sand + sed,
        );
    }
}

/// The column where the kill banner of `len` characters starts in a tank
/// `w` cells wide: centred, or at the left edge when it is too long.
pub open spec fn banner_x(w: int, len: int) -> int {
    sat_sub(w / 2, (len % 65536) / 2)
}

/// The banner is centred: when half of it fits in the left half of the
/// tank, its middle character sits on the tank's middle column (its left
/// and right margins differ by at most one), and otherwise it starts at the
/// left edge.
pub proof fn lemma_banner_centred(w: int, len: int)
    requires
        0 <= w,
        0 <= len < 65536,
    ensures
        len / 2 <= w / 2 ==> banner_x(w, len) + len / 2 == w / 2,
        len <= w ==> {
            let left = banner_x(w, len);
            let right = w - (left + len);
            &&& left >= 0 && right >= 0
            &&& left - 1 <= right <= left + 1
        },
        len / 2 > w / 2 ==> banner_x(w, len) == 0,
{
}

/// Draw the kill banner `msg` centred on the upper third of a tank `w` × `h`,
/// in the killed fish's `color` on dark navy.
pub fn draw_kill_notification(r: &mut Renderer, w: u16, h: u16, msg: &str, color: Color)
    requires
        old(r).wf(),
        old(r).geometry().run_in_range(banner_x(w as int, msg@.len() as int), h as int / 3, msg@.len() as int),
        banner_x(w as int, msg@.len() as int) + msg@.len() <= u16::MAX + 1,
    ensures
        final(r).wf(),
        final(r).geometry() == old(r).geometry(),
        final(r).front() == old(r).front(),
        final(r).back() == old(r).geometry().paint(
            old(r).back(),
            str_puts(banner_x(w as int, msg@.len() as int), h as int / 3, msg@, color, Color::AnsiValue(17)),
        ),
{
    let y = h / 3;
    let len = msg.unicode_len() as u16;
    let x = (w / 2).saturating_sub(len / 2);
    r.put_str(x, y, msg, color, Color::AnsiValue(17));
}

// =============================================================================
// Cat mode: the living room around the tank (absolute screen coordinates)
// =============================================================================

/// The dark room wall.
#[verifier::allow_in_spec]
pub fn wall_bg() -> Color
    returns
        Color::AnsiValue(236),
{
    Color::AnsiValue(236)
}

/// The warm carpet strip along the floor.
#[verifier::allow_in_spec]
pub fn carpet_bg() -> Color
    returns
        Color::AnsiValue(95),
{
    Color::AnsiValue(95)
}

/// Light wood / brass of the picture frame.
#[verifier::allow_in_spec]
pub fn frame_fg() -> Color
    returns
        Color::AnsiValue(214),
{
    Color::AnsiValue(214)
}

/// The frame's darker wood shadow.
#[verifier::allow_in_spec]
pub fn frame_bg() -> Color
    returns
        Color::AnsiValue(94),
{
    Color::AnsiValue(94)
}

/// The couch's piping and outline.
#[verifier::allow_in_spec]
pub fn couch_fg() -> Color
    returns
        Color::AnsiValue(110),
{
    Color::AnsiValue(110)
}

/// The couch's muted blue upholstery.
#[verifier::allow_in_spec]
pub fn couch_bg() -> Color
    returns
        Color::AnsiValue(24),
{
    Color::AnsiValue(24)
}

/// The orange tabby.
#[verifier::allow_in_spec]
pub fn cat_fg() -> Color
    returns
        Color::AnsiValue(208),
{
    Color::AnsiValue(208)
}

/// The cat's bright green eyes.
#[verifier::allow_in_spec]
pub fn cat_eye() -> Color
    returns
        Color::AnsiValue(46),
{
    Color::AnsiValue(46)
}


/// The outer rectangle of the picture frame around the tank interior
/// `(x, y, w, h)`: `(left, top, width, height)`, one cell bigger on every
/// side (clamped at the screen's top-left corner).
pub open spec fn frame_rect(vp: (u16, u16, u16, u16)) -> (int, int, int, int) {
    (
        sat_sub(vp.0 as int, 1),
        sat_sub(vp.1 as int, 1),
        vp.2 + 2,
        vp.3 + 2,
    )
}

/// The drawings of the first `n` columns of the frame's top and bottom
/// rails: for each column, top then bottom.
pub open spec fn rail_puts(ox: int, top: int, bottom: int, n: int) -> Seq<(int, int, Cell)>
    decreases n,
{
    if n <= 0 {
        Seq::empty()
    } else {
        rail_puts(ox, top, bottom, n - 1).push(
            (ox + n - 1, top, Cell::new_spec('=', frame_fg(), frame_bg())),
        ).push((ox + n - 1, bottom, Cell::new_spec('=', frame_fg(), frame_bg())))
    }
}

/// The drawings of the first `n` rows of the frame's left and right sides:
/// for each row, left then right.
pub open spec fn side_puts(left: int, right: int, oy: int, n: int) -> Seq<(int, int, Cell)>
    decreases n,
{
    if n <= 0 {
        Seq::empty()
    } else {
        side_puts(left, right, oy, n - 1).push(
            (left, oy + n - 1, Cell::new_spec('|', frame_fg(), frame_bg())),
        ).push((right, oy + n - 1, Cell::new_spec('|', frame_fg(), frame_bg())))
    }
}

/// The frame's engraved label.
pub open spec fn frame_label() -> Seq<char> {
    " ~ aquarium ~ "@
}

/// The drawings of the picture frame around the tank interior `vp`: the
/// top and bottom rails, the sides, `+` corners, and the label centred on
/// the top rail when the frame is wide enough for it.
pub open spec fn frame_puts(vp: (u16, u16, u16, u16)) -> Seq<(int, int, Cell)> {
    let (ox, oy, ow, oh) = frame_rect(vp);
    let right = ox + ow - 1;
    let bottom = oy + oh - 1;
    let corner = Cell::new_spec('+', frame_fg(), frame_bg());
    rail_puts(ox, oy, bottom, ow) + side_puts(ox, right, oy, oh) + seq![
        (ox, oy, corner),
        (right, oy, corner),
        (ox, bottom, corner),
        (right, bottom, corner),
    ] + if ow > frame_label().len() + 2 {
        str_puts(ox + (ow - frame_label().len()) / 2, oy, frame_label(), frame_fg(), frame_bg())
    } else {
        Seq::empty()
    }
}

/// Drawing `j` of the first `n` rail columns: column `ox + j / 2`, on the
/// top rail for even `j` and the bottom rail for odd `j`, always `=`.
proof fn lemma_rail_entry(ox: int, top: int, bottom: int, n: int, j: int)
    requires
        0 <= j < 2 * n,
    ensures
        rail_puts(ox, top, bottom, n).len() == 2 * n,
        rail_puts(ox, top, bottom, n)[j] == (ox + j / 2, if j % 2 == 0 { top } else { bottom }, Cell::new_spec('=', frame_fg(), frame_bg())),
    decreases n,
{
    if n > 0 {
        if j < 2 * (n - 1) {
            lemma_rail_entry(ox, top, bottom, n - 1, j);
        } else {
            lemma_rail_len(ox, top, bottom, n - 1);
        }
    }
}

proof fn lemma_rail_len(ox: int, top: int, bottom: int, n: int)
    requires
        n >= 0,
    ensures
        rail_puts(ox, top, bottom, n).len() == 2 * n,
    decreases n,
{
    if n > 0 {
        lemma_rail_len(ox, top, bottom, n - 1);
    }
}

/// Drawing `j` of the first `n` side rows: row `oy + j / 2`, on the left
/// side for even `j` and the right side for odd `j`, always `|`.
proof fn lemma_side_entry(left: int, right: int, oy: int, n: int, j: int)
    requires
        0 <= j < 2 * n,
    ensures
        side_puts(left, right, oy, n).len() == 2 * n,
        side_puts(left, right, oy, n)[j] == (if j % 2 == 0 { left } else { right }, oy + j / 2, Cell::new_spec('|', frame_fg(), frame_bg())),
    decreases n,
{
    if n > 0 {
        if j < 2 * (n - 1) {
            lemma_side_entry(left, right, oy, n - 1, j);
        } else {
            lemma_side_len(left, right, oy, n - 1);
        }
    }
}

proof fn lemma_side_len(left: int, right: int, oy: int, n: int)
    requires
        n >= 0,
    ensures
        side_puts(left, right, oy, n).len() == 2 * n,
    decreases n,
{
    if n > 0 {
        lemma_side_len(left, right, oy, n - 1);
    }
}

/// The frame is a border one cell around the tank interior: every drawing
/// of it lies on the outer rectangle, in the frame's light-wood-on-dark
/// colours (xterm 214 on 94); the rails are `=`, the sides `|`, the four
/// corners `+` (drawn after rails and sides), and the label, when drawn,
/// sits on the top rail strictly between the corners.
pub proof fn lemma_frame_shape(vp: (u16, u16, u16, u16), j: int)
    requires
        0 <= j < frame_puts(vp).len(),
    ensures
        ({
            let (ox, oy, ow, oh) = frame_rect(vp);
            let right = ox + ow - 1;
            let bottom = oy + oh - 1;
            let p = frame_puts(vp);
            let d = p[j];
            let n = 2 * ow + 2 * oh;
            &&& p.len() >= n + 4
            &&& (d.0 == ox || d.0 == right || d.1 == oy || d.1 == bottom)
            &&& ox <= d.0 <= right && oy <= d.1 <= bottom
            &&& d.2.fg == Color::AnsiValue(214) && d.2.bg == Color::AnsiValue(94)
            &&& j < 2 * ow ==> d.2.ch == '=' && (d.1 == oy || d.1 == bottom)
            &&& 2 * ow <= j < n ==> d.2.ch == '|' && (d.0 == ox || d.0 == right)
            &&& n <= j < n + 4 ==> d.2.ch == '+' && (d.0 == ox || d.0 == right) && (d.1 == oy
                || d.1 == bottom)
            &&& n + 4 <= j ==> d.1 == oy && ox < d.0 < right
        }),
{
    reveal_strlit(" ~ aquarium ~ ");
    let (ox, oy, ow, oh) = frame_rect(vp);
    let right = ox + ow - 1;
    let bottom = oy + oh - 1;
    let rails = rail_puts(ox, oy, bottom, ow);
    let sides = side_puts(ox, right, oy, oh);
    lemma_rail_len(ox, oy, bottom, ow);
    lemma_side_len(ox, right, oy, oh);
    let p = frame_puts(vp);
    let n = 2 * ow + 2 * oh;
    if j < 2 * ow {
        lemma_rail_entry(ox, oy, bottom, ow, j);
        assert(p[j] == rails[j]);
    } else if j < n {
        lemma_side_entry(ox, right, oy, oh, j - 2 * ow);
        assert(p[j] == sides[j - 2 * ow]);
    } else if j < n + 4 {
    } else {
    }
}

/// The frame around `vp` fits in the `u16` coordinate range.
pub open spec fn frame_in_range(vp: (u16, u16, u16, u16)) -> bool {
    let (ox, oy, ow, oh) = frame_rect(vp);
    &&& ow <= u16::MAX && oh <= u16::MAX
    &&& ox + ow <= u16::MAX + 1 && oy + oh <= u16::MAX + 1
}

/// Draw the wooden picture frame hugging the tank interior `vp`.
pub fn draw_tank_frame(r: &mut Renderer, vp: (u16, u16, u16, u16))
    requires
        old(r).wf(),
        old(r).geometry().vp_in_range(),
        frame_in_range(vp),
    ensures
        final(r).wf(),
        final(r).geometry() == old(r).geometry(),
        final(r).front() == old(r).front(),
        final(r).back() == old(r).geometry().paint(old(r).back(), frame_puts(vp)),
{
    broadcast use vstd::string::group_string_axioms;

    let ghost g = r.geometry();
    let ghost b0 = r.back();
    let (vp_x, vp_y, vp_w, vp_h) = vp;
    let ox = vp_x.saturating_sub(1);
    let oy = vp_y.saturating_sub(1);
    let ow = vp_w + 2;
    let oh = vp_h + 2;
    let right = ox + (ow - 1);
    let bottom = oy + (oh - 1);
    let ghost (oxi, oyi, owi, ohi) = frame_rect(vp);
    assert(ox == oxi && oy == oyi && ow == owi && oh == ohi);

    // Top and bottom rails.
    let mut i: u16 = 0;
    while i < ow
        invariant
            r.wf(),
            r.geometry() == g,
            g == old(r).geometry(),
            g.vp_in_range(),
            r.front() == old(r).front(),
            b0 == old(r).back(),
            i <= ow,
            ox + ow <= u16::MAX + 1,
            bottom == oy + oh - 1,
            r.back() == g.paint(b0, rail_puts(ox as int, oy as int, bottom as int, i as int)),
        decreases ow - i,
    {
        let x = ox + i;
        proof {
            let prev = rail_puts(ox as int, oy as int, bottom as int, i as int);
            let c = Cell::new_spec('=', frame_fg(), frame_bg());
            lemma_paint_push(g, b0, prev, (x as int, oy as int, c));
            lemma_paint_push(g, b0, prev.push((x as int, oy as int, c)), (x as int, bottom as int, c));
        }
        r.put(x, oy, '=', frame_fg(), frame_bg());
        r.put(x, bottom, '=', frame_fg(), frame_bg());
        i = i + 1;
    }
    let ghost p1 = rail_puts(ox as int, oy as int, bottom as int, ow as int);

    // Left and right sides.
    let ghost b1 = r.back();
    let mut j: u16 = 0;
    while j < oh
        invariant
            r.wf(),
            r.geometry() == g,
            g.vp_in_range(),
            r.front() == old(r).front(),
            j <= oh,
            oy + oh <= u16::MAX + 1,
            right == ox + ow - 1,
            r.back() == g.paint(b1, side_puts(ox as int, right as int, oy as int, j as int)),
        decreases oh - j,
    {
        let y = oy + j;
        proof {
            let prev = side_puts(ox as int, right as int, oy as int, j as int);
            let c = Cell::new_spec('|', frame_fg(), frame_bg());
            lemma_paint_push(g, b1, prev, (ox as int, y as int, c));
            lemma_paint_push(g, b1, prev.push((ox as int, y as int, c)), (right as int, y as int, c));
        }
        r.put(ox, y, '|', frame_fg(), frame_bg());
        r.put(right, y, '|', frame_fg(), frame_bg());
        j = j + 1;
    }
    let ghost p2 = side_puts(ox as int, right as int, oy as int, oh as int);
    proof {
        lemma_paint_concat(g, b0, p1, p2);
    }

    // Corners.
    let ghost b2 = r.back();
    let ghost corner = Cell::new_spec('+', frame_fg(), frame_bg());
    let ghost p3 = seq![
        (ox as int, oy as int, corner),
        (right as int, oy as int, corner),
        (ox as int, bottom as int, corner),
        (right as int, bottom as int, corner),
    ];
    r.put(ox, oy, '+', frame_fg(), frame_bg());
    r.put(right, oy, '+', frame_fg(), frame_bg());
    r.put(ox, bottom, '+', frame_fg(), frame_bg());
    r.put(right, bottom, '+', frame_fg(), frame_bg());
    proof {
        assert(p3.take(1) =~= Seq::<(int, int, Cell)>::empty().push(p3[0]));
        assert(p3.take(2) =~= p3.take(1).push(p3[1]));
        assert(p3.take(3) =~= p3.take(2).push(p3[2]));
        assert(p3 =~= p3.take(3).push(p3[3]));
        lemma_paint_push(g, b2, Seq::empty(), p3[0]);
        lemma_paint_push(g, b2, p3.take(1), p3[1]);
        lemma_paint_push(g, b2, p3.take(2), p3[2]);
        lemma_paint_push(g, b2, p3.take(3), p3[3]);
        lemma_paint_concat(g, b0, p1 + p2, p3);
    }

    // The engraved label on the top rail.
    let label = " ~ aquarium ~ ";
    proof {
        reveal_strlit(" ~ aquarium ~ ");
    }
    let len = label.unicode_len() as u16;
    if ow > len + 2 {
        let lx = ox + (ow - len) / 2;
        r.put_str(lx, oy, label, frame_fg(), frame_bg());
        proof {
            lemma_paint_concat(
                g,
                b0,
                p1 + p2 + p3,
                str_puts(lx as int, oy as int, frame_label(), frame_fg(), frame_bg()),
            );
        }
    } else {
        assert(p1 + p2 + p3 + Seq::<(int, int, Cell)>::empty() =~= p1 + p2 + p3);
    }
}


/// The character at column offset `i` of row `row` (0 to 3) of a couch `cw`
/// cells wide: the backrest top `/---\`, two upholstered rows `|   |`, and
/// the seat base `\___/`.
pub open spec fn couch_char(row: int, i: int, cw: int) -> char {
    let left = i == 0;
    let right = i == cw - 1;
    if row == 0 {
        if left {
            '/'
        } else if right {
            '\\'
        } else {
            '-'
        }
    } else if row == 3 {
        if left {
            '\\'
        } else if right {
            '/'
        } else {
            '_'
        }
    } else if left || right {
        '|'
    } else {
        ' '
    }
}

/// The drawings of row `row` of a couch `cw` cells wide whose left end is
/// at `(cx, y)`.
pub open spec fn couch_row_puts(cx: int, y: int, cw: int, row: int) -> Seq<(int, int, Cell)> {
    Seq::new(
        cw as nat,
        |i: int| (cx + i, y, Cell::new_spec(couch_char(row, i, cw), couch_fg(), couch_bg())),
    )
}

/// The drawings of the first `n` rows of a couch `cw` cells wide at
/// `(cx, cy)`, top row first.
pub open spec fn couch_body_puts(cx: int, cy: int, cw: int, n: int) -> Seq<(int, int, Cell)>
    decreases n,
{
    if n <= 0 {
        Seq::empty()
    } else {
        couch_body_puts(cx, cy, cw, n - 1) + couch_row_puts(cx, cy + n - 1, cw, n - 1)
    }
}

/// How many cushions a couch `cw` cells wide has: one per 14 cells, at
/// least two.
pub open spec fn couch_cushions(cw: int) -> int {
    max_int(cw / 14, 2)
}

/// The column of the seam after cushion `i` of a couch `cw` cells wide at
/// column `cx`.
pub open spec fn seam_x(cx: int, cw: int, i: int) -> int {
    cx + (i * cw) / couch_cushions(cw)
}

/// The drawings of the seams after cushions `1` to `n - 1`, each on the two
/// backrest rows below the top.
pub open spec fn seam_puts(cx: int, cy: int, cw: int, n: int) -> Seq<(int, int, Cell)>
    decreases n,
{
    if n <= 1 {
        Seq::empty()
    } else {
        let sx = seam_x(cx, cw, n - 1);
        let c = Cell::new_spec('|', couch_fg(), couch_bg());
        seam_puts(cx, cy, cw, n - 1).push((sx, cy + 1, c)).push((sx, cy + 2, c))
    }
}

/// The drawings of a four-row couch `cw` cells wide at `(cx, cy)` with its
/// cushion seams; nothing for a couch narrower than four cells.
pub open spec fn couch_puts(cx: int, cy: int, cw: int) -> Seq<(int, int, Cell)> {
    if cw < 4 {
        Seq::empty()
    } else {
        couch_body_puts(cx, cy, cw, 4) + seam_puts(cx, cy, cw, couch_cushions(cw))
    }
}

/// The couch's coordinates, and the products that place its seams, stay in
/// the `u16` range.
pub open spec fn couch_fits(cx: int, cy: int, cw: int) -> bool {
    cw < 4 || (cx + cw <= u16::MAX + 1 && cy + 3 <= u16::MAX && (couch_cushions(cw) - 1) * cw
        <= u16::MAX)
}

/// A couch at least four cells wide has rounded corners — `/` and `\` on
/// the backrest, `\` and `/` under the seat — and upright `|` sides on the
/// rows between; it has at least two cushions, and the seams between them
/// lie strictly inside the couch, left to right, never two in one column.
pub proof fn lemma_couch_shape(cx: int, cw: int, k: int)
    requires
        cw >= 4,
    ensures
        couch_char(0, 0, cw) == '/' && couch_char(0, cw - 1, cw) == '\\',
        couch_char(3, 0, cw) == '\\' && couch_char(3, cw - 1, cw) == '/',
        couch_char(1, 0, cw) == '|' && couch_char(1, cw - 1, cw) == '|',
        couch_char(2, 0, cw) == '|' && couch_char(2, cw - 1, cw) == '|',
        couch_cushions(cw) >= 2,
        1 <= k < couch_cushions(cw) ==> cx < seam_x(cx, cw, k) < cx + cw - 1,
        1 <= k && k + 1 < couch_cushions(cw) ==> seam_x(cx, cw, k) < seam_x(cx, cw, k + 1),
{
    let n = couch_cushions(cw);
    assert(2 * n <= cw);
    if 1 <= k < n {
        assert((k * cw) / n >= 1) by (nonlinear_arith)
            requires
                1 <= k,
                2 * n <= cw,
                n >= 2,
        ;
        assert((k * cw) / n < cw - 1) by (nonlinear_arith)
            requires
                k < n,
                2 * n <= cw,
                n >= 2,
        ;
    }
    if 1 <= k && k + 1 < n {
        assert((k * cw) / n < ((k + 1) * cw) / n) by (nonlinear_arith)
            requires
                1 <= k,
                2 * n <= cw,
                n >= 2,
        ;
    }
}

/// Draw row `row` of a couch `cw` cells wide whose left end is at `(cx, y)`.
fn put_couch_row(r: &mut Renderer, cx: u16, y: u16, cw: u16, row: u16)
    requires
        old(r).wf(),
        old(r).geometry().vp_in_range(),
        1 <= cw,
        cx + cw <= u16::MAX + 1,
    ensures
        final(r).wf(),
        final(r).geometry() == old(r).geometry(),
        final(r).front() == old(r).front(),
        final(r).back() == old(r).geometry().paint(
            old(r).back(),
            couch_row_puts(cx as int, y as int, cw as int, row as int),
        ),
{
    let ghost g = r.geometry();
    let ghost b0 = r.back();
    let ghost ps = couch_row_puts(cx as int, y as int, cw as int, row as int);
    let right = cx + (cw - 1);
    let mut i: u16 = 0;
    while i < cw
        invariant
            r.wf(),
            r.geometry() == g,
            g == old(r).geometry(),
            g.vp_in_range(),
            r.front() == old(r).front(),
            b0 == old(r).back(),
            ps == couch_row_puts(cx as int, y as int, cw as int, row as int),
            cx + cw <= u16::MAX + 1,
            right == cx + cw - 1,
            i <= cw,
            r.back() == g.paint(b0, ps.take(i as int)),
        decreases cw - i,
    {
        let x = cx + i;
        let left_edge = x == cx;
        let right_edge = x == right;
        let ch = if row == 0 {
            if left_edge {
                '/'
            } else if right_edge {
                '\\'
            } else {
                '-'
            }
        } else if row == 3 {
            if left_edge {
                '\\'
            } else if right_edge {
                '/'
            } else {
                '_'
            }
        } else if left_edge || right_edge {
            '|'
        } else {
            ' '
        };
        proof {
            assert(ps.take(i as int + 1) =~= ps.take(i as int).push(ps[i as int]));
            lemma_paint_push(g, b0, ps.take(i as int), ps[i as int]);
        }
        r.put(x, y, ch, couch_fg(), couch_bg());
        i = i + 1;
    }
    assert(ps.take(cw as int) =~= ps);
}

/// Draw a filled four-row couch `cw` cells wide at `(cx, cy)`, with a seam
/// between each pair of cushions.  A couch narrower than four cells is not
/// drawn.
pub fn draw_couch(r: &mut Renderer, cx: u16, cy: u16, cw: u16)
    requires
        old(r).wf(),
        old(r).geometry().vp_in_range(),
        couch_fits(cx as int, cy as int, cw as int),
    ensures
        final(r).wf(),
        final(r).geometry() == old(r).geometry(),
        final(r).front() == old(r).front(),
        final(r).back() == old(r).geometry().paint(
            old(r).back(),
            couch_puts(cx as int, cy as int, cw as int),
        ),
{
    if cw < 4 {
        return;
    }
    let ghost g = r.geometry();
    let ghost b0 = r.back();
    let mut row: u16 = 0;
    while row < 4
        invariant
            r.wf(),
            r.geometry() == g,
            g == old(r).geometry(),
            g.vp_in_range(),
            r.front() == old(r).front(),
            b0 == old(r).back(),
            4 <= cw,
            cx + cw <= u16::MAX + 1,
            cy + 3 <= u16::MAX,
            row <= 4,
            r.back() == g.paint(b0, couch_body_puts(cx as int, cy as int, cw as int, row as int)),
        decreases 4 - row,
    {
        put_couch_row(r, cx, cy + row, cw, row);
        proof {
            lemma_paint_concat(
                g,
                b0,
                couch_body_puts(cx as int, cy as int, cw as int, row as int),
                couch_row_puts(cx as int, cy + row, cw as int, row as int),
            );
        }
        row = row + 1;
    }

    let ghost body = couch_body_puts(cx as int, cy as int, cw as int, 4);
    let ghost b1 = r.back();
    let ncush = if cw / 14 > 2 {
        cw / 14
    } else {
        2
    };
    assert(ncush == couch_cushions(cw as int));
    let mut k: u16 = 1;
    while k < ncush
        invariant
            r.wf(),
            r.geometry() == g,
            g.vp_in_range(),
            r.front() == old(r).front(),
            b1 == g.paint(b0, body),
            ncush == couch_cushions(cw as int),
            4 <= cw,
            cx + cw <= u16::MAX + 1,
            cy + 3 <= u16::MAX,
            (ncush - 1) * cw <= u16::MAX,
            1 <= k <= ncush,
            r.back() == g.paint(b1, seam_puts(cx as int, cy as int, cw as int, k as int)),
        decreases ncush - k,
    {
        assert(k * cw <= (ncush - 1) * cw) by (nonlinear_arith)
            requires
                k <= ncush - 1,
        ;
        assert((k * cw) / (ncush as int) < cw) by (nonlinear_arith)
            requires
                k < ncush,
                0 < ncush,
                0 < cw,
        ;
        let sx = cx + (k * cw) / ncush;
        proof {
            let prev = seam_puts(cx as int, cy as int, cw as int, k as int);
            let c = Cell::new_spec('|', couch_fg(), couch_bg());
            lemma_paint_push(g, b1, prev, (sx as int, cy + 1, c));
            lemma_paint_push(g, b1, prev.push((sx as int, cy + 1, c)), (sx as int, cy + 2, c));
        }
        r.put(sx, cy + 1, '|', couch_fg(), couch_bg());
        r.put(sx, cy + 2, '|', couch_fg(), couch_bg());
        k = k + 1;
    }
    proof {
        lemma_paint_concat(g, b0, body, seam_puts(cx as int, cy as int, cw as int, ncush as int));
    }
}

/// The cat's eyes: open, or shut mid-blink.
pub open spec fn cat_eyes(blink: bool) -> Seq<char> {
    if blink {
        "- -"@
    } else {
        "o o"@
    }
}

/// The three sprite rows of the sitting cat: ears and head, face and body,
/// paws on the couch's back.  The paw beside her head is raised or lowered.
pub open spec fn cat_rows(blink: bool, paw_up: bool) -> (Seq<char>, Seq<char>, Seq<char>) {
    if paw_up {
        ("    |\\__/,|   (`\\"@, "  _.|"@ + cat_eyes(blink) + "  |_   ) )"@, "-(((---(((--------"@)
    } else {
        ("    |\\__/,|     /´)"@, "  _.|"@ + cat_eyes(blink) + "  |_   ( ("@, "-(((---(((--------"@)
    }
}

/// The cat's signature on the wall.
pub open spec fn cat_name() -> Seq<char> {
    "Melu"@
}

/// The drawings of the cat with her top-left corner at `(x, y)`: the three
/// sprite rows (spaces let the wall show through), green eyes over the open
/// ones, and her name beside her on the bottom row.
pub open spec fn cat_puts(x: int, y: int, blink: bool, paw_up: bool) -> Seq<(int, int, Cell)> {
    let (row0, row1, row2) = cat_rows(blink, paw_up);
    let eye = Cell::new_spec('o', cat_eye(), wall_bg());
    sprite_puts(x, y, row0, cat_fg(), wall_bg()) + sprite_puts(x, y + 1, row1, cat_fg(), wall_bg())
        + sprite_puts(x, y + 2, row2, cat_fg(), wall_bg()) + if blink {
        Seq::empty()
    } else {
        seq![(x + 5, y + 1, eye), (x + 7, y + 1, eye)]
    } + str_puts(x + 24, y + 2, cat_name(), cat_fg(), wall_bg())
}

/// Her name is signed in every pose: whether she blinks or waves, the last
/// drawings of the cat are `Melu` in orange on the wall, 24 columns right of
/// her left edge on her bottom row, and they are the same in every pose.
pub proof fn lemma_cat_signs_her_name(x: int, y: int, blink: bool, paw_up: bool, blink2: bool, paw_up2: bool)
    ensures
        ({
            let p = cat_puts(x, y, blink, paw_up);
            let q = cat_puts(x, y, blink2, paw_up2);
            &&& p.len() >= 4
            &&& q.len() >= 4
            &&& p.subrange(p.len() - 4, p.len() as int) == q.subrange(q.len() - 4, q.len() as int)
            &&& p.subrange(p.len() - 4, p.len() as int) == seq![
                (x + 24, y + 2, Cell::new_spec('M', Color::AnsiValue(208), Color::AnsiValue(236))),
                (x + 25, y + 2, Cell::new_spec('e', Color::AnsiValue(208), Color::AnsiValue(236))),
                (x + 26, y + 2, Cell::new_spec('l', Color::AnsiValue(208), Color::AnsiValue(236))),
                (x + 27, y + 2, Cell::new_spec('u', Color::AnsiValue(208), Color::AnsiValue(236))),
            ]
        }),
{
    reveal_strlit("Melu");
    let p = cat_puts(x, y, blink, paw_up);
    let q = cat_puts(x, y, blink2, paw_up2);
    let name = str_puts(x + 24, y + 2, cat_name(), cat_fg(), wall_bg());
    assert(name.len() == 4);
    assert(p.subrange(p.len() - 4, p.len() as int) =~= name);
    assert(q.subrange(q.len() - 4, q.len() as int) =~= name);
    assert(name =~= seq![
        (x + 24, y + 2, Cell::new_spec('M', Color::AnsiValue(208), Color::AnsiValue(236))),
        (x + 25, y + 2, Cell::new_spec('e', Color::AnsiValue(208), Color::AnsiValue(236))),
        (x + 26, y + 2, Cell::new_spec('l', Color::AnsiValue(208), Color::AnsiValue(236))),
        (x + 27, y + 2, Cell::new_spec('u', Color::AnsiValue(208), Color::AnsiValue(236))),
    ]);
}

/// The cat's poses differ only where they should: the head and body (the
/// first 11 columns of the top row) and the paws on the couch (the bottom
/// row) are the same in every pose; her eyes, at columns 5 and 7 of the
/// face row, are `o` when open and `-` mid-blink; and when open they are
/// drawn again in bright green (xterm 46) on the wall, over the sprite.
pub proof fn lemma_cat_poses(x: int, y: int, blink: bool, paw_up: bool, blink2: bool, paw_up2: bool)
    ensures
        ({
            let (r0, r1, r2) = cat_rows(blink, paw_up);
            let (s0, s1, s2) = cat_rows(blink2, paw_up2);
            let eye = if blink { '-' } else { 'o' };
            let p = cat_puts(x, y, blink, paw_up);
            &&& r0.len() >= 11 && s0.len() >= 11
            &&& r0.subrange(0, 11) == s0.subrange(0, 11)
            &&& r2 == s2
            &&& r1.len() == 18 && r1[5] == eye && r1[6] == ' ' && r1[7] == eye
            &&& !blink ==> p.len() >= 6 && p[p.len() - 6] == (x + 5, y + 1, Cell::new_spec(
                'o',
                Color::AnsiValue(46),
                Color::AnsiValue(236),
            )) && p[p.len() - 5] == (x + 7, y + 1, Cell::new_spec(
                'o',
                Color::AnsiValue(46),
                Color::AnsiValue(236),
            ))
        }),
{
    reveal_strlit("- -");
    reveal_strlit("o o");
    reveal_strlit("    |\\__/,|   (`\\");
    reveal_strlit("    |\\__/,|     /´)");
    reveal_strlit("  _.|");
    reveal_strlit("  |_   ) )");
    reveal_strlit("  |_   ( (");
    reveal_strlit("-(((---(((--------");
    reveal_strlit("Melu");
    let (r0, r1, r2) = cat_rows(blink, paw_up);
    let (s0, s1, s2) = cat_rows(blink2, paw_up2);
    assert(r0.subrange(0, 11) =~= s0.subrange(0, 11));
    let eyes = cat_eyes(blink);
    assert(r1[5] == eyes[0]);
    assert(r1[6] == eyes[1]);
    assert(r1[7] == eyes[2]);
    if !blink {
        let p = cat_puts(x, y, blink, paw_up);
        let name = str_puts(x + 24, y + 2, cat_name(), cat_fg(), wall_bg());
        assert(name.len() == 4);
        assert(p[p.len() - 6] == p.subrange(0, p.len() - 4)[p.len() - 6]);
    }
}

/// Draw "Melu", the cat sitting against the wall with her top-left corner
/// at `(x, y)`, with her eyes shut when `blink` and her paw raised when
/// `paw_up`.
pub fn draw_cat(r: &mut Renderer, x: u16, y: u16, blink: bool, paw_up: bool)
    requires
        old(r).wf(),
        old(r).geometry().vp_in_range(),
        x + 28 <= u16::MAX + 1,
        y + 2 <= u16::MAX,
    ensures
        final(r).wf(),
        final(r).geometry() == old(r).geometry(),
        final(r).front() == old(r).front(),
        final(r).back() == old(r).geometry().paint(old(r).back(), cat_puts(x as int, y as int, blink, paw_up)),
{
    let ghost g = r.geometry();
    let ghost b0 = r.back();
    let eyes = if blink {
        "- -"
    } else {
        "o o"
    };
    proof {
        reveal_strlit("- -");
        reveal_strlit("o o");
        reveal_strlit("    |\\__/,|   (`\\");
        reveal_strlit("    |\\__/,|     /´)");
        reveal_strlit("  _.|");
        reveal_strlit("  |_   ) )");
        reveal_strlit("  |_   ( (");
        reveal_strlit("-(((---(((--------");
        reveal_strlit("Melu");
    }
    let row0 = if paw_up {
        "    |\\__/,|   (`\\"
    } else {
        "    |\\__/,|     /´)"
    };
    let mut row1 = String::from_str("  _.|");
    row1.append(eyes);
    if paw_up {
        row1.append("  |_   ) )");
    } else {
        row1.append("  |_   ( (");
    }
    let row2 = "-(((---(((--------";
    let ghost (s0, s1, s2) = cat_rows(blink, paw_up);
    assert(row0@ == s0 && row1@ == s1 && row2@ == s2);
    let ghost p0 = sprite_puts(x as int, y as int, s0, cat_fg(), wall_bg());
    let ghost p1 = sprite_puts(x as int, y + 1, s1, cat_fg(), wall_bg());
    let ghost p2 = sprite_puts(x as int, y + 2, s2, cat_fg(), wall_bg());
    put_sprite(r, x, y, row0, cat_fg(), wall_bg());
    put_sprite(r, x, y + 1, row1.as_str(), cat_fg(), wall_bg());
    proof {
        lemma_paint_concat(g, b0, p0, p1);
    }
    put_sprite(r, x, y + 2, row2, cat_fg(), wall_bg());
    proof {
        lemma_paint_concat(g, b0, p0 + p1, p2);
    }
    let ghost eye = Cell::new_spec('o', cat_eye(), wall_bg());
    let ghost p3: Seq<(int, int, Cell)> = if blink {
        Seq::empty()
    } else {
        seq![(x + 5, y + 1, eye), (x + 7, y + 1, eye)]
    };
    if !blink {
        r.put(x + 5, y + 1, 'o', cat_eye(), wall_bg());
        r.put(x + 7, y + 1, 'o', cat_eye(), wall_bg());
        proof {
            assert(p3.take(1) =~= Seq::<(int, int, Cell)>::empty().push(p3[0]));
            assert(p3 =~= p3.take(1).push(p3[1]));
            lemma_paint_push(g, g.paint(b0, p0 + p1 + p2), Seq::empty(), p3[0]);
            lemma_paint_push(g, g.paint(b0, p0 + p1 + p2), p3.take(1), p3[1]);
            lemma_paint_concat(g, b0, p0 + p1 + p2, p3);
        }
    } else {
        assert(p0 + p1 + p2 + p3 =~= p0 + p1 + p2);
    }
    r.put_str(x + 24, y + 2, "Melu", cat_fg(), wall_bg());
    proof {
        lemma_paint_concat(g, b0, p0 + p1 + p2 + p3, str_puts(x + 24, y + 2, cat_name(), cat_fg(), wall_bg()));
    }
}

/// The couch's width on a screen `tw` cells wide: about 70% of the
/// screen, at least 24, but leaving a cell on each side, and never under 8.
pub open spec fn couch_width(tw: int) -> int {
    max_int(min_int(max_int((tw * 7) / 10, 24), sat_sub(tw, 2)), 8)
}

/// The couch's left column: centred on the screen.
pub open spec fn couch_left(tw: int) -> int {
    sat_sub(tw, couch_width(tw)) / 2
}

/// The couch's top row: sitting just above the carpet.
pub open spec fn couch_top(th: int) -> int {
    sat_sub(th, 5)
}

/// The cat's left column: centred on the couch.
pub open spec fn cat_left(tw: int) -> int {
    sat_sub(couch_left(tw) + couch_width(tw) / 2, 9)
}

/// The cat's top row: just above the couch's backrest.
pub open spec fn cat_top(th: int) -> int {
    sat_sub(couch_top(th), 3)
}

/// The furniture's layout: on a screen at least 10 columns wide the couch
/// is at least 8 cells wide, centred with at least a column of wall on each
/// side; on one at least 8 rows high its seat base lies on the top carpet
/// row, the cat sits on the three rows right above the backrest, and the
/// cat's body is centred on the couch when the couch is wide enough.
pub proof fn lemma_room_layout(tw: int, th: int)
    requires
        0 <= tw,
        0 <= th,
    ensures
        tw >= 10 ==> couch_width(tw) >= 8 && couch_left(tw) >= 1 && couch_left(tw)
            + couch_width(tw) <= tw - 1,
        tw >= 10 ==> couch_left(tw) - 1 <= tw - (couch_left(tw) + couch_width(tw)) <= couch_left(tw) + 1,
        th >= 8 ==> couch_top(th) + 3 == sat_sub(th, 2) && cat_top(th) + 3 == couch_top(th),
        couch_left(tw) + couch_width(tw) / 2 >= 9 ==> cat_left(tw) + 9 == couch_left(tw)
            + couch_width(tw) / 2,
{
}

/// The drawings of the living room on a `tw` × `th` screen around the tank
/// interior `vp`: the wall over the whole screen, the carpet on the two
/// bottom rows, the picture frame, the couch and the cat.
pub open spec fn room_puts(tw: int, th: int, vp: (u16, u16, u16, u16), blink: bool, paw_up: bool) -> Seq<
    (int, int, Cell),
> {
    let carpet_top = sat_sub(th, 2);
    rect_puts(0, 0, tw, th, Cell::new_spec(' ', Color::Reset, wall_bg())) + rect_puts(
        0,
        carpet_top,
        tw,
        th - carpet_top,
        Cell::new_spec(' ', Color::Reset, carpet_bg()),
    ) + frame_puts(vp) + couch_puts(couch_left(tw), couch_top(th), couch_width(tw)) + cat_puts(
        cat_left(tw),
        cat_top(th),
        blink,
        paw_up,
    )
}

/// The room's layout on a `tw` × `th` screen around `vp` stays in the
/// `u16` coordinate range.
pub open spec fn room_fits(tw: int, th: int, vp: (u16, u16, u16, u16)) -> bool {
    &&& tw * 7 <= u16::MAX
    &&& frame_in_range(vp)
    &&& couch_fits(couch_left(tw), couch_top(th), couch_width(tw))
    &&& cat_left(tw) + 28 <= u16::MAX + 1
}

/// Draw the living room of cat mode on a `tw` × `th` screen around the tank
/// interior `vp`, with the cat blinking when `blink` and her paw raised when
/// `paw_up`.
pub fn draw_room(r: &mut Renderer, tw: u16, th: u16, vp: (u16, u16, u16, u16), blink: bool, paw_up: bool)
    requires
        old(r).wf(),
        old(r).geometry().vp_in_range(),
        room_fits(tw as int, th as int, vp),
    ensures
        final(r).wf(),
        final(r).geometry() == old(r).geometry(),
        final(r).front() == old(r).front(),
        final(r).back() == old(r).geometry().paint(
            old(r).back(),
            room_puts(tw as int, th as int, vp, blink, paw_up),
        ),
{
    let ghost g = r.geometry();
    let ghost b0 = r.back();

    // The wall over the whole screen, then the carpet along the bottom.
    fill_rect(r, 0, 0, tw, th, ' ', Color::Reset, wall_bg());
    let ghost p0 = rect_puts(0, 0, tw as int, th as int, Cell::new_spec(' ', Color::Reset, wall_bg()));
    let carpet_top = th.saturating_sub(2);
    fill_rect(r, 0, carpet_top, tw, th - carpet_top, ' ', Color::Reset, carpet_bg());
    let ghost p1 = rect_puts(
        0,
        carpet_top as int,
        tw as int,
        th - carpet_top,
        Cell::new_spec(' ', Color::Reset, carpet_bg()),
    );
    proof {
        lemma_paint_concat(g, b0, p0, p1);
    }

    // The picture frame around the tank.
    draw_tank_frame(r, vp);
    proof {
        lemma_paint_concat(g, b0, p0 + p1, frame_puts(vp));
    }

    // The couch, centred, about 70% of the screen wide.
    let couch_w = ((tw * 7) / 10).max(24).min(tw.saturating_sub(2)).max(8);
    let couch_x = (tw.saturating_sub(couch_w)) / 2;
    let couch_y = th.saturating_sub(5);
    draw_couch(r, couch_x, couch_y, couch_w);
    let ghost p3 = couch_puts(couch_x as int, couch_y as int, couch_w as int);
    proof {
        lemma_paint_concat(g, b0, p0 + p1 + frame_puts(vp), p3);
    }

    // The cat on the couch's back, looking up at the fish.
    let cat_x = (couch_x + couch_w / 2).saturating_sub(9);
    let cat_y = couch_y.saturating_sub(3);
    draw_cat(r, cat_x, cat_y, blink, paw_up);
    proof {
        lemma_paint_concat(
            g,
            b0,
            p0 + p1 + frame_puts(vp) + p3,
            cat_puts(cat_x as int, cat_y as int, blink, paw_up),
        );
    }
}

} // verus!
