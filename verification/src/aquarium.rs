use vstd::prelude::*;
use crate::entities::fish::{glyph_table, kind_name, FishType};

verus! {

// =============================================================================
// User-facing configuration
// =============================================================================

/// How many fish a new aquarium gets when nobody asks for a number.
pub const DEFAULT_FISH_COUNT: usize = 24;

/// User-facing configuration of an aquarium.
pub struct Config {
    /// How many fish to spawn (default: 24).
    pub fish_count: usize,
}

impl Default for Config {
    fn default() -> (c: Self)
        ensures
            c.fish_count == DEFAULT_FISH_COUNT,
    {
        Self { fish_count: DEFAULT_FISH_COUNT }
    }
}

/// The fewest fish `--fish` can ask for.
pub const MIN_FISH_COUNT: usize = 1;

/// The most fish `--fish` can ask for.
pub const MAX_FISH_COUNT: usize = 200;

/// Whether `c` is an ASCII decimal digit.
pub open spec fn is_digit(c: char) -> bool {
    '0' <= c <= '9'
}

/// The number the decimal digits `d` spell.
pub open spec fn decimal_value(d: Seq<char>) -> nat
    decreases d.len(),
{
    if d.len() == 0 {
        0
    } else {
        decimal_value(d.drop_last()) * 10 + (d.last() as nat - '0' as nat) as nat
    }
}

/// Every character of `d` is an ASCII decimal digit.
pub open spec fn all_ascii_digits(d: Seq<char>) -> bool {
    forall|i: int| 0 <= i < d.len() ==> is_digit(#[trigger] d[i])
}

/// How std reads a `usize` from text: an optional `+`, then one or more
/// ASCII digits and nothing else, whose value fits in a `usize`.
pub open spec fn parsed_usize(s: Seq<char>) -> Option<usize> {
    let d = if s.len() > 0 && s[0] == '+' {
        s.skip(1)
    } else {
        s
    };
    if d.len() > 0 && all_ascii_digits(d) && decimal_value(d) <= usize::MAX {
        Some(decimal_value(d) as usize)
    } else {
        None
    }
}

/// The digits part of the text `p` read so far: without its leading `+`
/// when it has one.
pub open spec fn digits_part(p: Seq<char>, has_plus: bool) -> Seq<char> {
    if has_plus {
        p.skip(1)
    } else {
        p
    }
}

/// Appending a digit multiplies the number by ten and adds the digit.
pub proof fn lemma_decimal_value_push(d: Seq<char>, c: char)
    ensures
        decimal_value(d.push(c)) == decimal_value(d) * 10 + (c as nat - '0' as nat) as nat,
{
    assert(d.push(c).drop_last() =~= d);
}

/// Read a `usize` from `s` as std's `str::parse::<usize>` does: an optional
/// `+`, then one or more ASCII digits and nothing else, with a value that
/// fits in a `usize`; `None` otherwise.
pub fn parse_usize(s: &str) -> (r: Option<usize>)
    ensures
        r == parsed_usize(s@),
{
    broadcast use vstd::string::group_string_axioms;

    let mut at_start = true;
    let mut has_plus = false;
    let mut any_digit = false;
    let mut all_digits = true;
    let mut overflow = false;
    let mut acc: usize = 0;
    for c in it: s.chars()
        invariant
            it.seq() == s@,
            at_start == (it.index() == 0),
            has_plus == (it.index() > 0 && s@[0] == '+'),
            any_digit == (digits_part(s@.take(it.index()), has_plus).len() > 0),
            all_digits == (forall|j: int|
                0 <= j < digits_part(s@.take(it.index()), has_plus).len() ==> is_digit(
                    #[trigger] digits_part(s@.take(it.index()), has_plus)[j],
                )),
            all_digits ==> (overflow <==> decimal_value(digits_part(s@.take(it.index()), has_plus))
                > usize::MAX),
            all_digits && !overflow ==> acc == decimal_value(
                digits_part(s@.take(it.index()), has_plus),
            ),
    {
        let ghost i = it.index();
        let ghost old_dp = digits_part(s@.take(i), has_plus);
        proof {
            assert(s@.take(i + 1) =~= s@.take(i).push(c));
        }
        if at_start && c == '+' {
            has_plus = true;
            proof {
                assert(digits_part(s@.take(1), true) =~= Seq::<char>::empty());
            }
        } else {
            let ghost new_dp = digits_part(s@.take(i + 1), has_plus);
            proof {
                assert(new_dp =~= old_dp.push(c));
                lemma_decimal_value_push(old_dp, c);
            }
            any_digit = true;
            if all_digits && '0' <= c && c <= '9' {
                if !overflow {
                    let d = (c as u32 - 48) as usize;
                    match acc.checked_mul(10) {
                        Some(m) => match m.checked_add(d) {
                            Some(v) => {
                                acc = v;
                            },
                            None => {
                                overflow = true;
                            },
                        },
                        None => {
                            overflow = true;
                        },
                    }
                }
            } else {
                all_digits = false;
                proof {
                    if !is_digit(c) {
                        assert(new_dp[new_dp.len() - 1] == c);
                    } else {
                        let j = choose|j: int|
                            0 <= j < old_dp.len() && !is_digit(#[trigger] old_dp[j]);
                        assert(new_dp[j] == old_dp[j]);
                    }
                }
            }
        }
        at_start = false;
    }
    proof {
        assert(s@.take(s@.len() as int) =~= s@);
    }
    let ghost dp = digits_part(s@, has_plus);
    assert(dp =~= if s@.len() > 0 && s@[0] == '+' {
        s@.skip(1)
    } else {
        s@
    });
    assert(all_digits == all_ascii_digits(dp));
    if all_digits && !overflow && any_digit {
        Some(acc)
    } else {
        proof {
            if !all_digits {
                let j = choose|j: int| 0 <= j < dp.len() && !is_digit(#[trigger] dp[j]);
                assert(!is_digit(dp[j]));
            }
        }
        None
    }
}

/// Reading back a number written in decimal gives the number, with or
/// without a leading `+`.
pub proof fn lemma_parse_reads_decimal(n: nat)
    requires
        n <= usize::MAX,
    ensures
        parsed_usize(crate::hud::decimal_digits(n)) == Some(n as usize),
        parsed_usize(seq!['+'] + crate::hud::decimal_digits(n)) == Some(n as usize),
{
    crate::hud::lemma_decimal_digits_read_back(n);
    let d = crate::hud::decimal_digits(n);
    assert(d[0] != '+') by {
        assert(is_digit(d[0]));
    }
    assert((seq!['+'] + d).skip(1) =~= d);
}

/// `n` brought into `MIN_FISH_COUNT..=MAX_FISH_COUNT`.
pub open spec fn clamp_fish_count(n: int) -> int {
    min_int(max_int(n, MIN_FISH_COUNT as int), MAX_FISH_COUNT as int)
}

/// The fish count that the command-line arguments `args[i..]` leave, starting
/// from `count`, or `None` when they ask for help.  `--help` or `-h` asks for
/// help; `--fish N` sets the count to `N` kept within 1..=200 (a value that is
/// not a number is skipped, the count unchanged); anything else is ignored.
pub open spec fn fish_count_from(args: Seq<String>, i: int, count: int) -> Option<int>
    decreases args.len() - i,
{
    if i >= args.len() || i < 0 {
        Some(count)
    } else if args[i]@ == "--help"@ || args[i]@ == "-h"@ {
        None
    } else if args[i]@ == "--fish"@ {
        if i + 1 < args.len() {
            let next = match parsed_usize(args[i + 1]@) {
                Some(n) => clamp_fish_count(n as int),
                None => count,
            };
            fish_count_from(args, i + 2, next)
        } else {
            Some(count)
        }
    } else {
        fish_count_from(args, i + 1, count)
    }
}

/// Whatever the arguments, the fish count they give is between
/// `MIN_FISH_COUNT` and `MAX_FISH_COUNT` when the count they start from is.
pub proof fn lemma_fish_count_in_range(args: Seq<String>, i: int, count: int)
    requires
        MIN_FISH_COUNT <= count <= MAX_FISH_COUNT,
    ensures
        fish_count_from(args, i, count) matches Some(n) ==> MIN_FISH_COUNT <= n <= MAX_FISH_COUNT,
    decreases args.len() - i,
{
    if i >= args.len() || i < 0 {
    } else if args[i]@ == "--help"@ || args[i]@ == "-h"@ {
    } else if args[i]@ == "--fish"@ {
        if i + 1 < args.len() {
            let next = match parsed_usize(args[i + 1]@) {
                Some(n) => clamp_fish_count(n as int),
                None => count,
            };
            lemma_fish_count_in_range(args, i + 2, next);
        }
    } else {
        lemma_fish_count_in_range(args, i + 1, count);
    }
}

/// A `--fish` whose value is not a number is skipped with its value: the
/// count stays what it was, whatever it was.  One whose value is a number
/// sets the count to it, kept within 1..=200, whatever it was before.
pub proof fn lemma_fish_option_effect(args: Seq<String>, i: int, c1: int, c2: int)
    requires
        0 <= i,
        i + 1 < args.len(),
        args[i]@ == "--fish"@,
        MIN_FISH_COUNT <= c1 <= MAX_FISH_COUNT,
        MIN_FISH_COUNT <= c2 <= MAX_FISH_COUNT,
    ensures
        parsed_usize(args[i + 1]@) is None ==> fish_count_from(args, i, c1) == fish_count_from(
            args,
            i + 2,
            c1,
        ),
        parsed_usize(args[i + 1]@) matches Some(n) ==> {
            &&& fish_count_from(args, i, c1) == fish_count_from(args, i, c2)
            &&& fish_count_from(args, i, c1) == fish_count_from(
                args,
                i + 2,
                if n < MIN_FISH_COUNT {
                    MIN_FISH_COUNT as int
                } else if n > MAX_FISH_COUNT {
                    MAX_FISH_COUNT as int
                } else {
                    n as int
                },
            )
        },
{
    reveal_strlit("--fish");
    reveal_strlit("--help");
    reveal_strlit("-h");
    assert("--fish"@[2] != "--help"@[2]);
    assert("--fish"@.len() != "-h"@.len());
    assert(args[i]@ != "--help"@ && args[i]@ != "-h"@);
}

/// The other words of the command line: `--help` or `-h` asks for help and
/// ends the reading; a `--fish` with nothing after it, and any word the
/// program does not know, leave the count as it is; at the end of the
/// arguments the count is the one reached.
pub proof fn lemma_other_words(args: Seq<String>, i: int, c: int)
    requires
        0 <= i <= args.len(),
    ensures
        i == args.len() ==> fish_count_from(args, i, c) == Some(c),
        i < args.len() && (args[i]@ == "--help"@ || args[i]@ == "-h"@) ==> fish_count_from(
            args,
            i,
            c,
        ) is None,
        i == args.len() - 1 && args[i]@ == "--fish"@ ==> fish_count_from(args, i, c) == Some(c),
        i < args.len() && args[i]@ != "--help"@ && args[i]@ != "-h"@ && args[i]@ != "--fish"@
            ==> fish_count_from(args, i, c) == fish_count_from(args, i + 1, c),
{
    reveal_strlit("--fish");
    reveal_strlit("--help");
    reveal_strlit("-h");
    assert("--fish"@[2] != "--help"@[2]);
    assert("--fish"@.len() != "-h"@.len());
}

/// Read the configuration from the command line `args` (`args[0]` is the
/// program's name): `None` when help was asked for, otherwise the fish count
/// given by the last `--fish N` (24 by default, kept within 1..=200).
pub fn parse_config(args: &Vec<String>) -> (r: Option<Config>)
    ensures
        match r {
            None => fish_count_from(args@, 1, DEFAULT_FISH_COUNT as int) is None,
            Some(c) => fish_count_from(args@, 1, DEFAULT_FISH_COUNT as int) == Some(
                c.fish_count as int,
            ),
        },
{
    let help = String::from_str("--help");
    let short_help = String::from_str("-h");
    let fish = String::from_str("--fish");
    let mut fish_count: usize = DEFAULT_FISH_COUNT;
    let mut i: usize = 1;
    while i < args.len()
        invariant
            help@ == "--help"@,
            short_help@ == "-h"@,
            fish@ == "--fish"@,
            1 <= i <= args.len() || (i == 1 && args.len() == 0),
            fish_count_from(args@, 1, DEFAULT_FISH_COUNT as int) == if i >= args.len() {
                Some(fish_count as int)
            } else {
                fish_count_from(args@, i as int, fish_count as int)
            },
        decreases args.len() - i,
    {
        if args[i] == help || args[i] == short_help {
            return None;
        } else if args[i] == fish {
            // `--fish` takes the next argument as its value, read or not.
            if i + 1 < args.len() {
                match parse_usize(args[i + 1].as_str()) {
                    Some(n) => {
                        fish_count = n.max(MIN_FISH_COUNT).min(MAX_FISH_COUNT);
                    },
                    None => {},
                }
                i = i + 2;
            } else {
                i = args.len();
            }
        } else {
            i = i + 1;
        }
    }
    Some(Config { fish_count })
}

// =============================================================================
// Tank viewport
// =============================================================================

/// `a - b`, or 0 when `b > a` (saturating subtraction).
pub open spec fn sat_sub(a: int, b: int) -> int {
    if a > b {
        a - b
    } else {
        0
    }
}

/// The larger of `a` and `b`.
pub open spec fn max_int(a: int, b: int) -> int {
    if a >= b {
        a
    } else {
        b
    }
}

/// The smaller of `a` and `b`.
pub open spec fn min_int(a: int, b: int) -> int {
    if a <= b {
        a
    } else {
        b
    }
}

/// In cat mode, the rows kept at the bottom of a `th`-row screen for the
/// couch and the cat: about a third of the screen, at least 9 rows, but
/// leaving 6 rows for the tank (and never fewer than 3).
pub open spec fn foreground_rows(th: int) -> int {
    max_int(min_int(max_int(th / 3, 9), sat_sub(th, 6)), 3)
}

/// In cat mode, the columns of wall left and right of the tank's frame on a
/// `tw`-column screen: an eighth of the width, between 2 and 10.
pub open spec fn side_margin(tw: int) -> int {
    min_int(max_int(tw / 8, 2), 10)
}

/// The tank's interior `(x, y, w, h)` on a `tw` × `th` screen: the whole
/// screen, or in cat mode the inside of a frame that stands `side_margin`
/// columns in from the sides and one row below the top, and ends above the
/// foreground strip; the frame is at least 6 × 6 cells.
pub open spec fn viewport_of(tw: u16, th: u16, cat_mode: bool) -> (u16, u16, u16, u16) {
    if !cat_mode {
        (0, 0, tw, th)
    } else {
        let side = side_margin(tw as int);
        let fg = foreground_rows(th as int);
        (
            (side + 1) as u16,
            2,
            (max_int(sat_sub(tw as int, 2 * side), 6) - 2) as u16,
            (max_int(sat_sub(th as int, fg + 1), 6) - 2) as u16,
        )
    }
}

/// The tank's interior in absolute terminal cells: `(x, y, w, h)`.
///
/// Without cat mode the tank is the whole screen.  In cat mode it is the
/// inside of a one-cell frame that stands `side_margin` columns in from the
/// sides and one row below the top of the screen, and that ends above the
/// foreground strip kept for the couch and the cat; the frame is at least
/// 6 × 6 cells, so the interior is at least 4 × 4.
pub fn tank_viewport(term_w: u16, term_h: u16, cat_mode: bool) -> (vp: (u16, u16, u16, u16))
    ensures
        vp == viewport_of(term_w, term_h, cat_mode),
        !cat_mode ==> vp == (0u16, 0u16, term_w, term_h),
        cat_mode ==> {
            let side = side_margin(term_w as int);
            let fg = foreground_rows(term_h as int);
            &&& vp.0 == side + 1
            &&& vp.1 == 2
            &&& vp.2 == max_int(sat_sub(term_w as int, 2 * side), 6) - 2
            &&& vp.3 == max_int(sat_sub(term_h as int, fg + 1), 6) - 2
        },
        // The frame (one cell around the interior) keeps at least two columns
        // of wall on each side and a row above it, the interior is at least
        // 4 × 4, and on a screen of at least 16 × 16 cells the frame lies
        // within the screen, above the foreground strip.
        cat_mode ==> vp.0 >= 3 && vp.1 == 2 && vp.2 >= 4 && vp.3 >= 4,
        cat_mode && term_w >= 16 ==> vp.0 + vp.2 + 1 + 2 <= term_w,
        cat_mode && term_h >= 16 ==> vp.1 + vp.3 + 1 <= term_h - foreground_rows(term_h as int),
{
    if !cat_mode {
        return (0, 0, term_w, term_h);
    }
    let foreground = (term_h / 3).max(9).min(term_h.saturating_sub(6)).max(3);
    let side = (term_w / 8).max(2).min(10);
    let top = 1u16;

    let outer_x = side;
    let outer_y = top;
    let outer_w = term_w.saturating_sub(2 * side).max(6);
    let outer_h = term_h.saturating_sub(foreground + top).max(6);

    let vp_x = outer_x + 1;
    let vp_y = outer_y + 1;
    let vp_w = outer_w.saturating_sub(2).max(1);
    let vp_h = outer_h.saturating_sub(2).max(1);
    (vp_x, vp_y, vp_w, vp_h)
}

/// Where the click on the absolute cell `(x, y)` lands in the tank interior
/// `vp`: its offset from the interior's top-left corner, or `None` outside.
pub open spec fn click_in_tank(vp: (u16, u16, u16, u16), x: u16, y: u16) -> Option<(u16, u16)> {
    if vp.0 <= x < vp.0 + vp.2 && vp.1 <= y < vp.1 + vp.3 {
        Some(((x - vp.0) as u16, (y - vp.1) as u16))
    } else {
        None
    }
}

/// The click at the absolute cell `(x, y)` in the tank's own coordinates,
/// or `None` when it lands outside the tank interior `vp` (on the room
/// around the tank in cat mode).
pub fn tank_coords(vp: (u16, u16, u16, u16), x: u16, y: u16) -> (r: Option<(u16, u16)>)
    ensures
        r == click_in_tank(vp, x, y),
{
    let (vp_x, vp_y, vp_w, vp_h) = vp;
    if x < vp_x || y < vp_y {
        return None;
    }
    let lx = x - vp_x;
    let ly = y - vp_y;
    if lx >= vp_w || ly >= vp_h {
        return None;
    }
    Some((lx, ly))
}

/// A click inside the tank interior maps to its offset from the interior's
/// top-left corner, and back: every cell of the interior is reached from
/// exactly one screen cell, and what comes out always lies inside the tank.
pub proof fn lemma_tank_coords_round_trip(vp: (u16, u16, u16, u16), lx: int, ly: int, x: u16, y: u16)
    requires
        0 <= lx < vp.2,
        0 <= ly < vp.3,
        vp.0 + lx <= u16::MAX,
        vp.1 + ly <= u16::MAX,
    ensures
        click_in_tank(vp, x, y) matches Some(l) ==> l.0 < vp.2 && l.1 < vp.3 && vp.0 + l.0 == x
            && vp.1 + l.1 == y,
        click_in_tank(vp, x, y) == Some((lx as u16, ly as u16)) <==> (x == vp.0 + lx && y == vp.1
            + ly),
        !(vp.0 <= x < vp.0 + vp.2 && vp.1 <= y < vp.1 + vp.3) ==> click_in_tank(vp, x, y) is None,
{
}

// =============================================================================
// Tank layout: terminal size, mode and fish count
// =============================================================================

/// What fixes where the tank is and how full it gets: the terminal size,
/// whether cat mode frames the tank in a living room, how many fish were
/// asked for, and the tank interior worked out from them.
#[derive(Clone, Copy, Debug)]
pub struct TankLayout {
    pub term_w: u16,
    pub term_h: u16,
    pub cat_mode: bool,
    pub fish_count: usize,
    pub vp: (u16, u16, u16, u16),
}

/// The layout of a `tw` × `th` terminal in the given mode for
/// `fish_count` fish.
pub open spec fn layout_of(tw: u16, th: u16, fish_count: usize, cat_mode: bool) -> TankLayout {
    TankLayout { term_w: tw, term_h: th, cat_mode, fish_count, vp: viewport_of(tw, th, cat_mode) }
}

/// The layout after the terminal became `w` × `h`: same mode, same fish.
pub open spec fn after_resize(l: TankLayout, w: u16, h: u16) -> TankLayout {
    layout_of(w, h, l.fish_count, l.cat_mode)
}

/// The layout after switching cat mode: same terminal, same fish.
pub open spec fn after_toggle(l: TankLayout) -> TankLayout {
    layout_of(l.term_w, l.term_h, l.fish_count, !l.cat_mode)
}

impl TankLayout {
    /// Its interior is the one its terminal size and mode call for.
    pub open spec fn wf(self) -> bool {
        self.vp == viewport_of(self.term_w, self.term_h, self.cat_mode)
    }

    /// The layout for a `term_w` × `term_h` terminal in the given mode.
    pub fn build(term_w: u16, term_h: u16, fish_count: usize, cat_mode: bool) -> (l: Self)
        ensures
            l == layout_of(term_w, term_h, fish_count, cat_mode),
    {
        TankLayout {
            term_w,
            term_h,
            cat_mode,
            fish_count,
            vp: tank_viewport(term_w, term_h, cat_mode),
        }
    }

    /// The layout of a new aquarium: full screen, and at least one fish
    /// whatever the configuration asks.
    pub fn new(width: u16, height: u16, config: &Config) -> (l: Self)
        ensures
            l == layout_of(width, height, max_int(config.fish_count as int, 1) as usize, false),
    {
        Self::build(width, height, config.fish_count.max(1), false)
    }

    /// The layout after the terminal became `width` × `height`: the mode
    /// and the fish count stay.
    pub fn resized(&self, width: u16, height: u16) -> (l: Self)
        ensures
            l == after_resize(*self, width, height),
    {
        Self::build(width, height, self.fish_count, self.cat_mode)
    }

    /// The layout after switching between full screen and cat mode: the
    /// terminal size and the fish count stay.
    pub fn toggled_cat_mode(&self) -> (l: Self)
        ensures
            l == after_toggle(*self),
    {
        Self::build(self.term_w, self.term_h, self.fish_count, !self.cat_mode)
    }
}

/// Switching cat mode twice brings back the layout one started from; a
/// resize to the size one already has changes nothing; and switching mode
/// and resizing give the same layout in either order.
pub proof fn lemma_layout_laws(l: TankLayout, w: u16, h: u16)
    requires
        l.wf(),
    ensures
        after_toggle(after_toggle(l)) == l,
        after_resize(l, l.term_w, l.term_h) == l,
        after_toggle(after_resize(l, w, h)) == after_resize(after_toggle(l), w, h),
        after_toggle(l).wf() && after_resize(l, w, h).wf(),
{
}

// =============================================================================
// Initial placement of the fish
// =============================================================================

/// The grid for `n` fish (at least one): `cols` is the smallest count of
/// columns whose square holds all the fish, `rows` the rows of `cols`
/// cells that they fill.
pub fn fish_grid(n: usize) -> (grid: (usize, usize))
    requires
        1 <= n,
    ensures
        1 <= grid.0,
        n <= grid.0 * grid.0,
        (grid.0 - 1) * (grid.0 - 1) < n,
        grid.1 == (n + grid.0 - 1) / grid.0 as int,
{
    let wide: u128 = n as u128;
    let mut c: u128 = 1;
    loop
        invariant
            1 <= c <= 0x1_0000_0000,
            (c - 1) * (c - 1) < wide,
            wide == n,
            n <= usize::MAX,
        ensures
            wide <= c * c,
        decreases wide - c,
    {
        assert(c * c <= 0x1_0000_0000_0000_0000) by (nonlinear_arith)
            requires
                1 <= c <= 0x1_0000_0000,
        ;
        if c * c >= wide {
            break;
        }
        assert(c < wide) by (nonlinear_arith)
            requires
                c * c < wide,
                1 <= c,
        ;
        assert(c < 0x1_0000_0000) by (nonlinear_arith)
            requires
                c * c < wide,
                wide <= 0xffff_ffff_ffff_ffff,
                1 <= c,
        ;
        c = c + 1;
    }
    assert(c <= wide) by (nonlinear_arith)
        requires
            (c - 1) * (c - 1) < wide,
            1 <= c,
    ;
    let rows = (wide + c - 1) / c;
    assert(rows <= wide) by (nonlinear_arith)
        requires
            rows == (wide + c - 1) / (c as int),
            1 <= c <= wide,
    ;
    (c as usize, rows as usize)
}

/// Fish `i` of `n` is placed in column `i % cols` and row `i / cols` of the
/// grid: every fish gets a cell inside the grid, and no two fish share one.
pub proof fn lemma_fish_grid_cells(n: int, cols: int, rows: int, i: int, j: int)
    requires
        1 <= cols,
        n <= cols * cols,
        rows == (n + cols - 1) / cols,
        0 <= i < n,
        0 <= j < n,
    ensures
        0 <= i % cols < cols,
        0 <= i / cols < rows,
        i != j ==> (i % cols, i / cols) != (j % cols, j / cols),
{
    assert(i == (i / cols) * cols + i % cols) by (nonlinear_arith)
        requires
            1 <= cols,
    ;
    assert(j == (j / cols) * cols + j % cols) by (nonlinear_arith)
        requires
            1 <= cols,
    ;
    assert(i / cols < (n + cols - 1) / cols) by (nonlinear_arith)
        requires
            1 <= cols,
            0 <= i < n,
    ;
}

// =============================================================================
// Food flakes
// =============================================================================

/// The most food flakes the tank holds at once.
pub const MAX_FLAKES: usize = 12;

/// Where a new food flake goes in the flake pool.
#[derive(Clone, Copy, Debug, PartialEq, Eq, Structural)]
pub enum FlakeSlot {
    /// Reuse the inactive slot at this index.
    Reuse(usize),
    /// Append a new slot to the pool.
    Append,
    /// The pool is full and every flake is active: the click is ignored.
    Ignore,
}

/// Where a flake dropped into a pool whose slots are `active` goes: the
/// first inactive slot, else a new slot while the pool holds fewer than
/// `MAX_FLAKES`, else nowhere.  So the pool never grows past `MAX_FLAKES`.
pub fn choose_flake_slot(active: &Vec<bool>) -> (slot: FlakeSlot)
    ensures
        match slot {
            FlakeSlot::Reuse(i) => i < active.len() && !active[i as int] && forall|j: int|
                0 <= j < i ==> active[j],
            FlakeSlot::Append => active.len() < MAX_FLAKES && forall|j: int|
                0 <= j < active.len() ==> active[j],
            FlakeSlot::Ignore => active.len() >= MAX_FLAKES && forall|j: int|
                0 <= j < active.len() ==> active[j],
        },
{
    let mut i: usize = 0;
    while i < active.len()
        invariant
            i <= active.len(),
            forall|j: int| 0 <= j < i ==> active[j],
        decreases active.len() - i,
    {
        if !active[i] {
            return FlakeSlot::Reuse(i);
        }
        i = i + 1;
    }
    if active.len() < MAX_FLAKES {
        FlakeSlot::Append
    } else {
        FlakeSlot::Ignore
    }
}

// =============================================================================
// Harpoon
// =============================================================================

/// The banner for a harpooned fish of kind `t` drawn with shape `variant`.
pub open spec fn harpoon_banner(t: FishType, variant: int) -> Seq<char> {
    " >> Harpooned a "@ + kind_name(t) + " fish!  "@ + glyph_table(t)[variant % glyph_table(
        t,
    ).len() as int].0 + "  << "@
}

/// The banner names the kind and shows the fish's right-facing shape, the
/// one it is drawn with when it swims right: after ` >> Harpooned a `, the
/// kind's name and ` fish!  ` comes a shape whose first character is not a
/// left-facing head `<`, and the banner closes with `  << `.
pub proof fn lemma_harpoon_banner(t: FishType, variant: int)
    requires
        0 <= variant,
    ensures
        ({
            let b = harpoon_banner(t, variant);
            let at = 16 + kind_name(t).len() as int + 8;
            &&& b.len() > at + 5
            &&& b.subrange(0, 16) == " >> Harpooned a "@
            &&& b.subrange(16, 16 + kind_name(t).len() as int) == kind_name(t)
            &&& b[at] == glyph_table(t)[variant % 4].0[0]
            &&& b[at] != '<'
            &&& b.subrange(b.len() - 5, b.len() as int) == "  << "@
        }),
{
    reveal_strlit(" >> Harpooned a ");
    reveal_strlit(" fish!  ");
    reveal_strlit("  << ");
    crate::entities::fish::lemma_glyphs_face_their_way(t, variant % 4);
    let b = harpoon_banner(t, variant);
    let g = glyph_table(t)[variant % 4].0;
    let k = kind_name(t);
    assert(b =~= " >> Harpooned a "@ + k + " fish!  "@ + g + "  << "@);
    assert(b.subrange(0, 16) =~= " >> Harpooned a "@);
    assert(b.subrange(16, 16 + k.len() as int) =~= k);
    assert(b.subrange(b.len() - 5, b.len() as int) =~= "  << "@);
}

/// The banner announcing a harpooned fish of kind `fish_type` drawn with
/// shape `variant`: ` >> Harpooned a <kind> fish!  <right-facing shape>  << `.
pub fn harpoon_message(fish_type: FishType, variant: usize) -> (msg: String)
    ensures
        msg@ == harpoon_banner(fish_type, variant as int),
{
    let (glyph, _) = fish_type.glyphs(variant);
    let mut msg = String::from_str(" >> Harpooned a ");
    msg.append(fish_type.name());
    msg.append(" fish!  ");
    msg.append(glyph);
    msg.append("  << ");
    msg
}

} // verus!
