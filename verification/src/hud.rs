use vstd::prelude::*;
use crate::aquarium::{is_digit, sat_sub};
use crate::color::Color;
use crate::renderer::{push_char, str_puts, Cell, Renderer};

verus! {

// =============================================================================
// Decimal numbers
// =============================================================================

/// The ASCII digit for `d` (0 to 9).
pub open spec fn digit_char(d: nat) -> char {
    (d + 48) as char
}

/// The decimal digits of `n`, most significant first, without leading
/// zeros (`"0"` for zero).
pub open spec fn decimal_digits(n: nat) -> Seq<char>
    decreases n,
{
    if n < 10 {
        seq![digit_char(n)]
    } else {
        decimal_digits(n / 10).push(digit_char(n % 10))
    }
}

/// The decimal digits of `n` are ASCII digits, start with a non-zero digit
/// unless `n` is zero, and read back as `n`.
pub proof fn lemma_decimal_digits_read_back(n: nat)
    ensures
        decimal_digits(n).len() >= 1,
        crate::aquarium::all_ascii_digits(decimal_digits(n)),
        crate::aquarium::decimal_value(decimal_digits(n)) == n,
        n > 0 ==> decimal_digits(n)[0] != '0',
    decreases n,
{
    if n < 10 {
        assert(digit_char(n) as nat == n + 48);
        crate::aquarium::lemma_decimal_value_push(Seq::empty(), digit_char(n));
        assert(Seq::<char>::empty().push(digit_char(n)) =~= seq![digit_char(n)]);
    } else {
        lemma_decimal_digits_read_back(n / 10);
        let d = decimal_digits(n / 10);
        let c = digit_char(n % 10);
        assert(c as nat == n % 10 + 48);
        crate::aquarium::lemma_decimal_value_push(d, c);
        assert(decimal_digits(n) == d.push(c));
        assert(d.push(c).drop_last() =~= d);
        assert(decimal_digits(n)[0] == d[0]);
        assert forall|i: int| 0 <= i < d.push(c).len() implies is_digit(#[trigger] d.push(c)[i]) by {
            if i < d.len() {
                assert(d.push(c)[i] == d[i]);
            }
        }
    }
}

/// Append the decimal digits of `n` to `s`.
fn push_decimal(s: &mut String, n: usize)
    ensures
        final(s)@ == old(s)@ + decimal_digits(n as nat),
    decreases n,
{
    if n >= 10 {
        push_decimal(s, n / 10);
    }
    let d = (n % 10) as u8;
    push_char(s, (d + 48) as char);
    proof {
        assert(old(s)@ + decimal_digits(n as nat) =~= if n >= 10 {
            (old(s)@ + decimal_digits((n / 10) as nat)).push(digit_char((n % 10) as nat))
        } else {
            old(s)@.push(digit_char(n as nat))
        });
    }
}

// =============================================================================
// The clock
// =============================================================================

/// `s` reads as a 24-hour wall-clock time `HH:MM:SS`: two-digit hours
/// below 24, minutes below 60 and seconds up to 60 (a leap second).
pub open spec fn clock_shape(s: Seq<char>) -> bool {
    &&& s.len() == 8
    &&& s[2] == ':' && s[5] == ':'
    &&& forall|i: int| 0 <= i < 8 && i != 2 && i != 5 ==> is_digit(#[trigger] s[i])
    &&& (s[0] as int - 48) * 10 + (s[1] as int - 48) < 24
    &&& (s[3] as int - 48) * 10 + (s[4] as int - 48) < 60
    &&& (s[6] as int - 48) * 10 + (s[7] as int - 48) <= 60
}

/// The local wall-clock time as `HH:MM:SS`, from chrono's `Local::now`
/// formatted with `%H:%M:%S`.  The contract claims what chrono's formatting
/// code shows: each field is written as two zero-padded digits, hours
/// 0–23, minutes 0–59, seconds 0–60.  Which time it reads is left open.
#[verifier::external_body]
fn local_clock() -> (s: String)
    ensures
        clock_shape(s@),
{
    chrono::Local::now().format("%H:%M:%S").to_string()
}

// =============================================================================
// The heads-up display on the top row
// =============================================================================

/// The controls hint shown at the top right: how to leave harpoon mode, or
/// how to switch view and mode.
pub open spec fn hud_hint(harpoon_mode: bool, cat_mode: bool) -> Seq<char> {
    if harpoon_mode {
        " q:quit  h:off  click:KILL "@
    } else if cat_mode {
        " q:quit  c:full  h:harpoon  click:feed "@
    } else {
        " q:quit  c:cat  h:harpoon  click:feed "@
    }
}

/// The hint's colour: red as a warning in harpoon mode, else dim grey.
pub open spec fn hud_hint_color(harpoon_mode: bool) -> Color {
    if harpoon_mode {
        Color::Red
    } else {
        Color::AnsiValue(246)
    }
}

/// The fish counter: ` <active>/<total> fish `.
pub open spec fn fish_counter(active: nat, total: nat) -> Seq<char> {
    seq![' '] + decimal_digits(active) + seq!['/'] + decimal_digits(total) + " fish "@
}

/// The drawings of the HUD on a screen `w` cells wide, all on the top row
/// on dark navy: the clock ` <clock> ` at the left in white, then
/// ` [HARPOON] ` in red in harpoon mode, the controls hint at the right,
/// and the fish counter centred, drawn only when it fits between the clock
/// and the hint.
pub open spec fn hud_puts(
    w: int,
    clock: Seq<char>,
    harpoon_mode: bool,
    cat_mode: bool,
    active: nat,
    total: nat,
) -> Seq<(int, int, Cell)> {
    let navy = Color::AnsiValue(17);
    let clock_str = seq![' '] + clock + seq![' '];
    let hint = hud_hint(harpoon_mode, cat_mode);
    let hint_x = sat_sub(w, hint.len() as int);
    let counter = fish_counter(active, total);
    let count_x = sat_sub(w / 2, (counter.len() / 2) as int);
    str_puts(0, 0, clock_str, Color::White, navy) + if harpoon_mode {
        str_puts(clock_str.len() as int, 0, " [HARPOON] "@, Color::Red, navy)
    } else {
        Seq::empty()
    } + str_puts(hint_x, 0, hint, hud_hint_color(harpoon_mode), navy) + if count_x
        >= clock_str.len() && count_x + counter.len() <= hint_x {
        str_puts(count_x, 0, counter, Color::AnsiValue(159), navy)
    } else {
        Seq::empty()
    }
}

/// In harpoon mode the HUD warns that a click kills, whatever the view:
/// the hint is ` q:quit  h:off  click:KILL ` in red, and the whole top row is
/// the same in full-screen and cat mode.  Out of harpoon mode the hint offers
/// to switch to the other view and says a click feeds.
pub proof fn lemma_hud_hint_follows_mode(
    w: int,
    clock: Seq<char>,
    cat_mode: bool,
    active: nat,
    total: nat,
)
    ensures
        hud_hint(true, cat_mode) == " q:quit  h:off  click:KILL "@,
        hud_hint_color(true) == Color::Red,
        hud_puts(w, clock, true, cat_mode, active, total) == hud_puts(
            w,
            clock,
            true,
            !cat_mode,
            active,
            total,
        ),
        hud_hint(false, true) == " q:quit  c:full  h:harpoon  click:feed "@,
        hud_hint(false, false) == " q:quit  c:cat  h:harpoon  click:feed "@,
        hud_hint_color(false) == Color::AnsiValue(246),
{
}

/// The HUD is one line on dark navy along the top row: it opens with the
/// clock framed by spaces in white from column 0, then ` [HARPOON] ` in red
/// right after it in harpoon mode; the hint follows in its colour, its last
/// character on the last column when the screen is wide enough.
pub proof fn lemma_hud_layout(
    w: int,
    clock: Seq<char>,
    harpoon_mode: bool,
    cat_mode: bool,
    active: nat,
    total: nat,
)
    ensures
        ({
            let p = hud_puts(w, clock, harpoon_mode, cat_mode, active, total);
            let navy = Color::AnsiValue(17);
            let n = clock.len() + 2;
            let hint = hud_hint(harpoon_mode, cat_mode);
            let off = n + if harpoon_mode { 11int } else { 0int };
            &&& forall|k: int| 0 <= k < p.len() ==> (#[trigger] p[k]).1 == 0 && p[k].2.bg == navy
            &&& p.len() >= off + hint.len()
            &&& forall|i: int|
                0 <= i < n ==> #[trigger] p[i] == (i, 0int, Cell::new_spec(
                    if i == 0 || i == n - 1 { ' ' } else { clock[i - 1] },
                    Color::White,
                    navy,
                ))
            &&& harpoon_mode ==> forall|i: int|
                0 <= i < 11 ==> #[trigger] p[n + i] == (n + i, 0int, Cell::new_spec(
                    " [HARPOON] "@[i],
                    Color::Red,
                    navy,
                ))
            &&& forall|i: int|
                0 <= i < hint.len() ==> (#[trigger] p[off + i]).2 == Cell::new_spec(
                    hint[i],
                    hud_hint_color(harpoon_mode),
                    navy,
                )
            &&& w >= hint.len() ==> p[off + hint.len() - 1].0 == w - 1
        }),
{
    reveal_strlit(" [HARPOON] ");
    reveal_strlit(" q:quit  h:off  click:KILL ");
    reveal_strlit(" q:quit  c:full  h:harpoon  click:feed ");
    reveal_strlit(" q:quit  c:cat  h:harpoon  click:feed ");
    let p = hud_puts(w, clock, harpoon_mode, cat_mode, active, total);
    let navy = Color::AnsiValue(17);
    let cs = seq![' '] + clock + seq![' '];
    let n = clock.len() + 2;
    let hint = hud_hint(harpoon_mode, cat_mode);
    let p0 = str_puts(0, 0, cs, Color::White, navy);
    let p1: Seq<(int, int, Cell)> = if harpoon_mode {
        str_puts(cs.len() as int, 0, " [HARPOON] "@, Color::Red, navy)
    } else {
        Seq::empty()
    };
    let p2 = str_puts(sat_sub(w, hint.len() as int), 0, hint, hud_hint_color(harpoon_mode), navy);
    let counter = fish_counter(active, total);
    let count_x = sat_sub(w / 2, (counter.len() / 2) as int);
    let p3: Seq<(int, int, Cell)> = if count_x >= cs.len() && count_x + counter.len() <= sat_sub(
        w,
        hint.len() as int,
    ) {
        str_puts(count_x, 0, counter, Color::AnsiValue(159), navy)
    } else {
        Seq::empty()
    };
    assert(p == p0 + p1 + p2 + p3);
    let off = n + if harpoon_mode { 11int } else { 0int };
    assert(p0.len() == n);
    assert(p1.len() == off - n);
    assert forall|i: int| 0 <= i < n implies #[trigger] p[i] == (i, 0int, Cell::new_spec(
        if i == 0 || i == n - 1 { ' ' } else { clock[i - 1] },
        Color::White,
        navy,
    )) by {
        assert(p[i] == p0[i]);
    }
    if harpoon_mode {
        assert forall|i: int| 0 <= i < 11 implies #[trigger] p[n + i] == (n + i, 0int, Cell::new_spec(
            " [HARPOON] "@[i],
            Color::Red,
            navy,
        )) by {
            assert(p[n + i] == p1[i]);
        }
    }
    assert forall|i: int| 0 <= i < hint.len() implies (#[trigger] p[off + i]).2 == Cell::new_spec(
        hint[i],
        hud_hint_color(harpoon_mode),
        navy,
    ) by {
        assert(p[off + i] == p2[i]);
    }
    assert forall|k: int| 0 <= k < p.len() implies (#[trigger] p[k]).1 == 0 && p[k].2.bg == navy by {
        if k < n {
            assert(p[k] == p0[k]);
        } else if k < off {
            assert(p[k] == p1[k - n]);
        } else if k < off + hint.len() {
            assert(p[k] == p2[k - off]);
        } else {
            assert(p[k] == p3[k - off - hint.len()]);
        }
    }
    if w >= hint.len() {
        assert(p[off + hint.len() - 1] == p2[hint.len() - 1]);
    }
}

/// Draw the HUD on the top row of a screen `term_w` cells wide, showing
/// `clock`, the harpoon indicator and hint for the modes, and the counter of
/// `active` fish out of `total`.
pub fn draw_hud_at(
    r: &mut Renderer,
    term_w: u16,
    clock: &str,
    harpoon_mode: bool,
    cat_mode: bool,
    active: usize,
    total: usize,
)
    requires
        old(r).wf(),
        old(r).geometry().vp_in_range(),
        clock@.len() + 13 <= u16::MAX + 1,
    ensures
        final(r).wf(),
        final(r).geometry() == old(r).geometry(),
        final(r).front() == old(r).front(),
        final(r).back() == old(r).geometry().paint(
            old(r).back(),
            hud_puts(term_w as int, clock@, harpoon_mode, cat_mode, active as nat, total as nat),
        ),
{
    broadcast use vstd::string::group_string_axioms;

    let ghost g = r.geometry();
    let ghost b0 = r.back();
    let navy = Color::AnsiValue(17);

    // The clock at the top left.
    let mut clock_str = String::from_str(" ");
    clock_str.append(clock);
    clock_str.append(" ");
    proof {
        reveal_strlit(" ");
    }
    r.put_str(0, 0, clock_str.as_str(), Color::White, navy);
    let ghost p0 = str_puts(0, 0, clock_str@, Color::White, navy);
    let clock_end = clock_str.as_str().unicode_len() as u16;

    // The harpoon indicator right after it.
    let ind = " [HARPOON] ";
    proof {
        reveal_strlit(" [HARPOON] ");
    }
    let ghost p1: Seq<(int, int, Cell)> = if harpoon_mode {
        str_puts(clock_end as int, 0, ind@, Color::Red, navy)
    } else {
        Seq::empty()
    };
    if harpoon_mode {
        r.put_str(clock_end, 0, ind, Color::Red, navy);
        proof {
            crate::renderer::lemma_paint_concat(g, b0, p0, p1);
        }
    } else {
        assert(p0 + p1 =~= p0);
    }

    // The controls hint at the top right.
    let hint = if harpoon_mode {
        " q:quit  h:off  click:KILL "
    } else if cat_mode {
        " q:quit  c:full  h:harpoon  click:feed "
    } else {
        " q:quit  c:cat  h:harpoon  click:feed "
    };
    let hint_color = if harpoon_mode {
        Color::Red
    } else {
        Color::AnsiValue(246)
    };
    proof {
        reveal_strlit(" q:quit  h:off  click:KILL ");
        reveal_strlit(" q:quit  c:full  h:harpoon  click:feed ");
        reveal_strlit(" q:quit  c:cat  h:harpoon  click:feed ");
    }
    assert(hint@ == hud_hint(harpoon_mode, cat_mode));
    let hint_x = term_w.saturating_sub(hint.unicode_len() as u16);
    r.put_str(hint_x, 0, hint, hint_color, navy);
    let ghost p2 = str_puts(hint_x as int, 0, hint@, hint_color, navy);
    proof {
        crate::renderer::lemma_paint_concat(g, b0, p0 + p1, p2);
    }

    // The fish counter in the middle, when it fits between the two.
    let mut counter = String::from_str(" ");
    push_decimal(&mut counter, active);
    counter.append("/");
    push_decimal(&mut counter, total);
    counter.append(" fish ");
    proof {
        reveal_strlit("/");
        reveal_strlit(" fish ");
        assert(counter@ =~= fish_counter(active as nat, total as nat));
        lemma_decimal_len(active as nat);
        lemma_decimal_len(total as nat);
    }
    let count_len = counter.as_str().unicode_len() as u16;
    let count_x = (term_w / 2).saturating_sub(count_len / 2);
    let ghost p3: Seq<(int, int, Cell)> = if count_x >= clock_end && count_x + count_len
        <= hint_x {
        str_puts(count_x as int, 0, counter@, Color::AnsiValue(159), navy)
    } else {
        Seq::empty()
    };
    if count_x >= clock_end && count_x + count_len <= hint_x {
        r.put_str(count_x, 0, counter.as_str(), Color::AnsiValue(159), navy);
        proof {
            crate::renderer::lemma_paint_concat(g, b0, p0 + p1 + p2, p3);
        }
    } else {
        assert(p0 + p1 + p2 + p3 =~= p0 + p1 + p2);
    }
    assert(clock_str@ == seq![' '] + clock@ + seq![' ']);
    assert(clock_end == clock_str@.len());
    assert(hint_x == sat_sub(term_w as int, hint@.len() as int));
    assert(count_len == counter@.len());
    assert(count_x == sat_sub(term_w as int / 2, (counter@.len() / 2) as int));
}

/// `10^k`.
pub open spec fn ten_pow(k: nat) -> nat
    decreases k,
{
    if k == 0 {
        1
    } else {
        10 * ten_pow((k - 1) as nat)
    }
}

/// A `usize` has at most 20 decimal digits.
proof fn lemma_decimal_len(n: nat)
    requires
        n <= usize::MAX,
    ensures
        1 <= decimal_digits(n).len() <= 20,
{
    reveal_with_fuel(ten_pow, 21);
    assert(ten_pow(20) == 100_000_000_000_000_000_000int);
    lemma_decimal_len_bound(n, 20);
}

/// A number below `10^k` has at most `k` decimal digits.
proof fn lemma_decimal_len_bound(n: nat, k: nat)
    requires
        k >= 1,
        n < ten_pow(k),
    ensures
        1 <= decimal_digits(n).len() <= k,
    decreases n,
{
    if n >= 10 {
        reveal_with_fuel(ten_pow, 2);
        assert(k >= 2);
        let t = ten_pow((k - 1) as nat);
        assert(n / 10 < t) by (nonlinear_arith)
            requires
                n < 10 * t,
        ;
        lemma_decimal_len_bound(n / 10, (k - 1) as nat);
    }
}

/// Draw the HUD on the top row of a screen `term_w` cells wide with the
/// local time on the clock, for the modes and the counter of `active` fish
/// out of `total`.
pub fn draw_hud(r: &mut Renderer, term_w: u16, harpoon_mode: bool, cat_mode: bool, active: usize, total: usize)
    requires
        old(r).wf(),
        old(r).geometry().vp_in_range(),
    ensures
        final(r).wf(),
        final(r).geometry() == old(r).geometry(),
        final(r).front() == old(r).front(),
        exists|clock: Seq<char>|
            clock_shape(clock) && final(r).back() == old(r).geometry().paint(
                old(r).back(),
                #[trigger] hud_puts(term_w as int, clock, harpoon_mode, cat_mode, active as nat, total as nat),
            ),
{
    let clock = local_clock();
    draw_hud_at(r, term_w, clock.as_str(), harpoon_mode, cat_mode, active, total);
}

} // verus!
