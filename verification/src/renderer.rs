use vstd::prelude::*;
use crate::color::Color;

verus! {

// =============================================================================
// Cell — one terminal cell: a character and its colours
// =============================================================================

/// One terminal cell: a character drawn in a foreground colour on a
/// background colour.
#[derive(Clone, Copy, Debug, PartialEq, Eq, Structural)]
pub struct Cell {
    pub ch: char,
    pub fg: Color,
    pub bg: Color,
}

impl Cell {
    /// The blank cell: a space in the terminal's default colours.
    pub open spec fn blank() -> Cell {
        Cell { ch: ' ', fg: Color::Reset, bg: Color::Reset }
    }

    /// The cell `force_redraw` writes into the front buffer; its `'\0'`
    /// never appears in a drawn frame, so it differs from every real cell.
    pub open spec fn sentinel() -> Cell {
        Cell { ch: '\0', fg: Color::Reset, bg: Color::Reset }
    }

    /// The cell showing `ch` in the colours `fg` on `bg`.
    pub open spec fn new_spec(ch: char, fg: Color, bg: Color) -> Cell {
        Cell { ch, fg, bg }
    }

    /// The "empty" cell used to initialise and erase the buffers.
    pub fn empty() -> (c: Cell)
        ensures
            c == Cell::blank(),
    {
        Cell { ch: ' ', fg: Color::Reset, bg: Color::Reset }
    }
}

// =============================================================================
// Geometry — where `put` lands: the grid size and the optional viewport
// =============================================================================

/// The shape of a renderer: its grid size and its viewport, which together
/// decide which buffer slot a drawing at `(x, y)` lands in.
#[derive(Clone, Copy, Debug, PartialEq, Eq, Structural)]
pub struct Geometry {
    pub width: u16,
    pub height: u16,
    pub vp_active: bool,
    pub vp_x: u16,
    pub vp_y: u16,
    pub vp_w: u16,
    pub vp_h: u16,
}

impl Geometry {
    /// Number of cells of the grid.
    pub open spec fn size(self) -> int {
        self.width as int * self.height as int
    }

    /// The buffer index that a drawing at `(x, y)` writes, or `None` when it
    /// is clipped by the viewport or falls outside the screen.  With an active
    /// viewport, `(x, y)` is relative to the viewport's top-left corner.
    pub open spec fn slot(self, x: int, y: int) -> Option<int> {
        if self.vp_active && (x >= self.vp_w || y >= self.vp_h) {
            None
        } else {
            let ax = if self.vp_active { self.vp_x + x } else { x };
            let ay = if self.vp_active { self.vp_y + y } else { y };
            if ax < 0 || ay < 0 || ax >= self.width || ay >= self.height {
                None
            } else {
                Some(ay * self.width + ax)
            }
        }
    }

    /// A drawing at `(x, y)` can be offset into absolute coordinates
    /// without leaving the `u16` range.
    pub open spec fn offset_in_range(self, x: int, y: int) -> bool {
        !(self.vp_active && x < self.vp_w && y < self.vp_h) || (self.vp_x + x <= u16::MAX
            && self.vp_y + y <= u16::MAX)
    }

    /// Every drawing of a run of `n` cells from `(x, y)` rightwards can be
    /// offset into absolute coordinates.
    pub open spec fn run_in_range(self, x: int, y: int, n: int) -> bool {
        let end = if x + n < self.vp_w { x + n } else { self.vp_w as int };
        !self.vp_active || y >= self.vp_h || x >= self.vp_w || n <= 0 || (self.vp_y + y
            <= u16::MAX && self.vp_x + end - 1 <= u16::MAX)
    }

    /// The viewport, when active, lies within the `u16` coordinate range, so
    /// every drawing can be offset into absolute coordinates.
    pub open spec fn vp_in_range(self) -> bool {
        !self.vp_active || (self.vp_x + self.vp_w <= u16::MAX + 1 && self.vp_y + self.vp_h
            <= u16::MAX + 1)
    }

    /// The buffer after drawing `c` at `(x, y)` into `b`.
    pub open spec fn put_one(self, b: Seq<Cell>, x: int, y: int, c: Cell) -> Seq<Cell> {
        match self.slot(x, y) {
            Some(i) => if 0 <= i < b.len() {
                b.update(i, c)
            } else {
                b
            },
            None => b,
        }
    }

    /// The buffer after drawing every `(x, y, cell)` of `puts` into `b`, in
    /// order, later drawings covering earlier ones.
    pub open spec fn paint(self, b: Seq<Cell>, puts: Seq<(int, int, Cell)>) -> Seq<Cell>
        decreases puts.len(),
    {
        if puts.len() == 0 {
            b
        } else {
            let p = puts.last();
            self.put_one(self.paint(b, puts.drop_last()), p.0, p.1, p.2)
        }
    }
}

/// The drawings that writing `s` left to right from `(x, y)` makes.
pub open spec fn str_puts(x: int, y: int, s: Seq<char>, fg: Color, bg: Color) -> Seq<
    (int, int, Cell),
> {
    Seq::new(s.len(), |i: int| (x + i, y, Cell::new_spec(s[i], fg, bg)))
}

/// Painting keeps the length of the buffer.
pub proof fn lemma_paint_len(g: Geometry, b: Seq<Cell>, puts: Seq<(int, int, Cell)>)
    ensures
        g.paint(b, puts).len() == b.len(),
    decreases puts.len(),
{
    if puts.len() > 0 {
        lemma_paint_len(g, b, puts.drop_last());
    }
}

/// Painting two runs of drawings one after the other is painting their
/// concatenation.
pub proof fn lemma_paint_concat(
    g: Geometry,
    b: Seq<Cell>,
    p1: Seq<(int, int, Cell)>,
    p2: Seq<(int, int, Cell)>,
)
    ensures
        g.paint(g.paint(b, p1), p2) == g.paint(b, p1 + p2),
    decreases p2.len(),
{
    if p2.len() == 0 {
        assert(p1 + p2 =~= p1);
    } else {
        lemma_paint_concat(g, b, p1, p2.drop_last());
        assert((p1 + p2).drop_last() =~= p1 + p2.drop_last());
    }
}

/// Painting one more drawing after a run.
pub proof fn lemma_paint_push(g: Geometry, b: Seq<Cell>, p: Seq<(int, int, Cell)>, q: (int, int, Cell))
    ensures
        g.paint(b, p.push(q)) == g.put_one(g.paint(b, p), q.0, q.1, q.2),
{
    assert(p.push(q).drop_last() =~= p);
}

// =============================================================================
// Terminal commands produced by a flush
// =============================================================================

/// One terminal command of a frame update.
#[derive(Clone, Copy, Debug, PartialEq, Eq, Structural)]
pub enum TermOp {
    /// Move the cursor to column `.0`, row `.1`.
    MoveTo(u16, u16),
    /// Set the pen's foreground colour.
    SetForeground(Color),
    /// Set the pen's background colour.
    SetBackground(Color),
    /// Print a character in the pen's colours at the cursor, which then moves
    /// one column right.
    Print(char),
}

/// The state of the frame scan after some cells: the cursor column (`-1`
/// when it is not known to sit right after the last printed cell), the cursor
/// row, the pen's colours and the commands emitted so far.
pub type ScanState = (int, int, Color, Color, Seq<TermOp>);

/// One step of the frame scan at cell `k` of a grid `w` cells wide: an
/// unchanged cell is skipped (and forgets the cursor); a changed one is
/// printed, after moving the cursor and setting the colours only where
/// they differ.
pub open spec fn diff_step(back: Seq<Cell>, front: Seq<Cell>, w: int, k: int, s: ScanState) -> ScanState {
    let x = k % w;
    let y = k / w;
    if back[k] == front[k] {
        (-1, s.1, s.2, s.3, s.4)
    } else {
        let c = back[k];
        let o1 = if s.0 != x || s.1 != y {
            s.4.push(TermOp::MoveTo(x as u16, y as u16))
        } else {
            s.4
        };
        let o2 = if c.fg != s.2 {
            o1.push(TermOp::SetForeground(c.fg))
        } else {
            o1
        };
        let o3 = if c.bg != s.3 {
            o2.push(TermOp::SetBackground(c.bg))
        } else {
            o2
        };
        (x + 1, y, c.fg, c.bg, o3.push(TermOp::Print(c.ch)))
    }
}

/// The scan state after the first `k` cells, starting with an unknown cursor
/// and the default colours.
pub open spec fn diff_upto(back: Seq<Cell>, front: Seq<Cell>, w: int, k: int) -> ScanState
    decreases k,
{
    if k <= 0 {
        (-1, -1, Color::Reset, Color::Reset, Seq::empty())
    } else {
        diff_step(back, front, w, k - 1, diff_upto(back, front, w, k - 1))
    }
}

/// The commands that bring a screen showing `front` to showing `back`, on a
/// grid `w` cells wide.
pub open spec fn frame_diff(back: Seq<Cell>, front: Seq<Cell>, w: int) -> Seq<TermOp> {
    diff_upto(back, front, w, back.len() as int).4
}

/// A terminal: its screen, cursor column and row, and pen colours.
pub type Terminal = (Seq<Cell>, int, int, Color, Color);

/// What one command does to a terminal whose rows are `w` cells wide.
pub open spec fn term_step(t: Terminal, w: int, op: TermOp) -> Terminal {
    match op {
        TermOp::MoveTo(x, y) => (t.0, x as int, y as int, t.3, t.4),
        TermOp::SetForeground(c) => (t.0, t.1, t.2, c, t.4),
        TermOp::SetBackground(c) => (t.0, t.1, t.2, t.3, c),
        TermOp::Print(ch) => {
            let i = t.2 * w + t.1;
            let screen = if 0 <= t.1 < w && 0 <= i < t.0.len() {
                t.0.update(i, Cell::new_spec(ch, t.3, t.4))
            } else {
                t.0
            };
            (screen, t.1 + 1, t.2, t.3, t.4)
        },
    }
}

/// The terminal after running `ops` in order.
pub open spec fn replay(t: Terminal, w: int, ops: Seq<TermOp>) -> Terminal
    decreases ops.len(),
{
    if ops.len() == 0 {
        t
    } else {
        term_step(replay(t, w, ops.drop_last()), w, ops.last())
    }
}

/// How many characters `ops` prints.
pub open spec fn print_count(ops: Seq<TermOp>) -> nat
    decreases ops.len(),
{
    if ops.len() == 0 {
        0
    } else {
        print_count(ops.drop_last()) + if ops.last() is Print {
            1nat
        } else {
            0nat
        }
    }
}

/// How many of the first `k` cells differ between `back` and `front`.
pub open spec fn changed_count(back: Seq<Cell>, front: Seq<Cell>, k: int) -> nat
    decreases k,
{
    if k <= 0 {
        0
    } else {
        changed_count(back, front, k - 1) + if back[k - 1] != front[k - 1] {
            1nat
        } else {
            0nat
        }
    }
}

/// Cell `y * w + x` of a grid `w` cells wide sits at column `x`, row `y`.
pub proof fn lemma_cell_coords(k: int, w: int, x: int, y: int)
    requires
        w > 0,
        0 <= x < w,
        k == y * w + x,
    ensures
        k % w == x,
        k / w == y,
{
    vstd::arithmetic::div_mod::lemma_fundamental_div_mod_converse(k, w, y, x);
}

proof fn lemma_replay_push(t: Terminal, w: int, ops: Seq<TermOp>, op: TermOp)
    ensures
        replay(t, w, ops.push(op)) == term_step(replay(t, w, ops), w, op),
{
    assert(ops.push(op).drop_last() =~= ops);
}

proof fn lemma_print_count_push(ops: Seq<TermOp>, op: TermOp)
    ensures
        print_count(ops.push(op)) == print_count(ops) + if op is Print {
            1nat
        } else {
            0nat
        },
{
    assert(ops.push(op).drop_last() =~= ops);
}

/// Replaying the commands of the first `k` cells shows the back buffer on
/// those cells and leaves the others as they were; the terminal's pen and
/// (when known) cursor are the scan's.
proof fn lemma_replay_prefix(
    back: Seq<Cell>,
    front: Seq<Cell>,
    w: u16,
    h: u16,
    cx: int,
    cy: int,
    k: int,
)
    requires
        back.len() == w * h,
        front.len() == w * h,
        0 <= k <= back.len(),
    ensures
        ({
            let s = diff_upto(back, front, w as int, k);
            let t = replay((front, cx, cy, Color::Reset, Color::Reset), w as int, s.4);
            &&& t.0.len() == back.len()
            &&& forall|i: int| 0 <= i < back.len() ==> t.0[i] == if i < k {
                back[i]
            } else {
                front[i]
            }
            &&& t.3 == s.2
            &&& t.4 == s.3
            &&& s.0 != -1 ==> t.1 == s.0 && t.2 == s.1
            &&& print_count(s.4) == changed_count(back, front, k)
        }),
    decreases k,
{
    let t0 = (front, cx, cy, Color::Reset, Color::Reset);
    let wi = w as int;
    if k > 0 {
        lemma_replay_prefix(back, front, w, h, cx, cy, k - 1);
        let j = k - 1;
        let s = diff_upto(back, front, wi, j);
        let t = replay(t0, wi, s.4);
        assert(wi > 0) by (nonlinear_arith)
            requires
                0 <= j < wi * h,
        ;
        let x = j % wi;
        let y = j / wi;
        vstd::arithmetic::div_mod::lemma_fundamental_div_mod(j, wi);
        assert(0 <= x < wi);
        assert(0 <= y < h) by (nonlinear_arith)
            requires
                j == wi * y + x,
                0 <= x < wi,
                0 <= j < wi * h,
        ;
        if back[j] != front[j] {
            let c = back[j];
            let o1 = if s.0 != x || s.1 != y {
                s.4.push(TermOp::MoveTo(x as u16, y as u16))
            } else {
                s.4
            };
            let o2 = if c.fg != s.2 {
                o1.push(TermOp::SetForeground(c.fg))
            } else {
                o1
            };
            let o3 = if c.bg != s.3 {
                o2.push(TermOp::SetBackground(c.bg))
            } else {
                o2
            };
            if s.0 != x || s.1 != y {
                lemma_replay_push(t0, wi, s.4, TermOp::MoveTo(x as u16, y as u16));
                lemma_print_count_push(s.4, TermOp::MoveTo(x as u16, y as u16));
            }
            let t1 = replay(t0, wi, o1);
            assert(t1.1 == x && t1.2 == y && t1.0 == t.0 && t1.3 == t.3 && t1.4 == t.4);
            if c.fg != s.2 {
                lemma_replay_push(t0, wi, o1, TermOp::SetForeground(c.fg));
                lemma_print_count_push(o1, TermOp::SetForeground(c.fg));
            }
            if c.bg != s.3 {
                lemma_replay_push(t0, wi, o2, TermOp::SetBackground(c.bg));
                lemma_print_count_push(o2, TermOp::SetBackground(c.bg));
            }
            let t3 = replay(t0, wi, o3);
            assert(t3.1 == x && t3.2 == y && t3.0 == t.0 && t3.3 == c.fg && t3.4 == c.bg);
            lemma_replay_push(t0, wi, o3, TermOp::Print(c.ch));
            lemma_print_count_push(o3, TermOp::Print(c.ch));
            assert(y * wi + x == j) by (nonlinear_arith)
                requires
                    j == wi * y + x,
            ;
        }
    }
}

/// A flush shows the wanted frame: whatever cell the cursor was on, running a
/// flush's commands on a terminal that shows the front buffer in the default
/// colours leaves it showing the back buffer.
pub proof fn lemma_flush_shows_back(back: Seq<Cell>, front: Seq<Cell>, w: u16, h: u16, cx: int, cy: int)
    requires
        back.len() == w * h,
        front.len() == w * h,
    ensures
        replay((front, cx, cy, Color::Reset, Color::Reset), w as int, frame_diff(back, front, w as int)).0
            == back,
{
    lemma_replay_prefix(back, front, w, h, cx, cy, back.len() as int);
    let t = replay((front, cx, cy, Color::Reset, Color::Reset), w as int, frame_diff(back, front, w as int));
    assert(t.0 =~= back);
}

/// A flush prints exactly one character per cell that changed since the
/// previous frame, and none for the unchanged cells.
pub proof fn lemma_flush_prints_changed_cells(back: Seq<Cell>, front: Seq<Cell>, w: u16, h: u16)
    requires
        back.len() == w * h,
        front.len() == w * h,
    ensures
        print_count(frame_diff(back, front, w as int)) == changed_count(back, front, back.len() as int),
{
    lemma_replay_prefix(back, front, w, h, 0, 0, back.len() as int);
}

/// A frame identical to what is on screen sends no command at all, so once
/// a frame was committed, a flush with nothing drawn in between writes
/// nothing.
pub proof fn lemma_unchanged_frame_sends_nothing(b: Seq<Cell>, w: int)
    ensures
        frame_diff(b, b, w) == Seq::<TermOp>::empty(),
{
    lemma_unchanged_prefix_sends_nothing(b, w, b.len() as int);
}

proof fn lemma_unchanged_prefix_sends_nothing(b: Seq<Cell>, w: int, k: int)
    ensures
        diff_upto(b, b, w, k).4 == Seq::<TermOp>::empty(),
    decreases k,
{
    if k > 0 {
        lemma_unchanged_prefix_sends_nothing(b, w, k - 1);
    }
}

/// After `force_redraw`, every cell of a drawn frame (no drawn cell holds
/// `'\0'`) counts as changed, so the next flush repaints the whole screen.
pub proof fn lemma_redraw_repaints_all(back: Seq<Cell>, k: int)
    requires
        0 <= k <= back.len(),
        forall|i: int| 0 <= i < back.len() ==> back[i].ch != '\0',
    ensures
        changed_count(back, Seq::new(back.len(), |i: int| Cell::sentinel()), k) == k,
    decreases k,
{
    if k > 0 {
        lemma_redraw_repaints_all(back, k - 1);
        assert(back[k - 1] != Seq::new(back.len(), |i: int| Cell::sentinel())[k - 1]);
    }
}

/// With an active viewport, drawing never reaches a cell outside it: after
/// any drawings at non-negative viewport coordinates, every cell of the
/// screen outside the viewport rectangle keeps what it held.
pub proof fn lemma_viewport_clips(g: Geometry, b: Seq<Cell>, puts: Seq<(int, int, Cell)>, ax: int, ay: int)
    requires
        g.vp_active,
        b.len() == g.size(),
        forall|i: int| 0 <= i < puts.len() ==> #[trigger] puts[i].0 >= 0 && puts[i].1 >= 0,
        0 <= ax < g.width,
        0 <= ay < g.height,
        !(g.vp_x <= ax < g.vp_x + g.vp_w && g.vp_y <= ay < g.vp_y + g.vp_h),
    ensures
        g.paint(b, puts)[ay * g.width + ax] == b[ay * g.width + ax],
    decreases puts.len(),
{
    if puts.len() > 0 {
        let rest = puts.drop_last();
        assert forall|i: int| 0 <= i < rest.len() implies #[trigger] rest[i].0 >= 0 && rest[i].1
            >= 0 by {
            assert(rest[i] == puts[i]);
        }
        lemma_viewport_clips(g, b, rest, ax, ay);
        lemma_paint_len(g, b, rest);
        let p = puts.last();
        assert(p == puts[puts.len() - 1]);
        let before = g.paint(b, rest);
        assert(g.paint(b, puts) == g.put_one(before, p.0, p.1, p.2));
        let idx = ay * g.width + ax;
        assert(0 <= idx < g.width * g.height) by (nonlinear_arith)
            requires
                0 <= ax < g.width,
                0 <= ay < g.height,
                idx == ay * g.width + ax,
        ;
        match g.slot(p.0, p.1) {
            Some(k) => {
                let px = g.vp_x + p.0;
                let py = g.vp_y + p.1;
                assert(0 <= p.0 < g.vp_w && 0 <= p.1 < g.vp_h);
                assert(k == py * g.width + px);
                lemma_cell_coords(k, g.width as int, px, py);
                lemma_cell_coords(idx, g.width as int, ax, ay);
                assert(k != idx);
            },
            None => {},
        }
    }
}

/// Appends `c` to `s` (std's `String::push`).
#[verifier::external_body]
pub(crate) fn push_char(s: &mut String, c: char)
    ensures
        final(s)@ == old(s)@.push(c),
{
    s.push(c);
}

/// Row `y` of a buffer `w` cells wide, as the characters it shows.
pub open spec fn row_chars(b: Seq<Cell>, w: int, y: int) -> Seq<char> {
    Seq::new(w as nat, |x: int| b[y * w + x].ch)
}

// =============================================================================
// Renderer
// =============================================================================

/// A double-buffered terminal grid.  Drawing writes the back buffer (what is
/// wanted on screen); `flush` compares it with the front buffer (what is on
/// screen) and emits commands only for the cells that changed.
pub struct Renderer {
    pub width: u16,
    pub height: u16,
    back_buffer: Vec<Cell>,
    front_buffer: Vec<Cell>,
    vp_x: u16,
    vp_y: u16,
    vp_w: u16,
    vp_h: u16,
    vp_active: bool,
}

/// The largest number of cells a `u16 × u16` grid has.
pub proof fn lemma_grid_size(w: u16, h: u16)
    ensures
        0 <= w as int * h as int <= 65535 * 65535,
{
    assert(0 <= w as int * h as int <= 65535 * 65535) by (nonlinear_arith)
        requires
            0 <= w <= 65535,
            0 <= h <= 65535,
    ;
}

impl Renderer {
    /// The cells wanted on screen, row by row.
    pub closed spec fn back(&self) -> Seq<Cell> {
        self.back_buffer@
    }

    /// The cells currently on screen, row by row.
    pub closed spec fn front(&self) -> Seq<Cell> {
        self.front_buffer@
    }

    /// The renderer's grid size and viewport.
    pub closed spec fn geometry(&self) -> Geometry {
        Geometry {
            width: self.width,
            height: self.height,
            vp_active: self.vp_active,
            vp_x: self.vp_x,
            vp_y: self.vp_y,
            vp_w: self.vp_w,
            vp_h: self.vp_h,
        }
    }

    /// Both buffers hold one cell per grid position.
    pub open spec fn wf(&self) -> bool {
        &&& self.back().len() == self.geometry().size()
        &&& self.front().len() == self.geometry().size()
    }

    /// The terminal's width in cells.
    pub fn width(&self) -> (w: u16)
        ensures
            w == self.geometry().width,
    {
        self.width
    }

    /// The terminal's height in cells.
    pub fn height(&self) -> (h: u16)
        ensures
            h == self.geometry().height,
    {
        self.height
    }

    /// The renderer for a `w × h` terminal: both buffers blank, no viewport.
    pub fn new(w: u16, h: u16) -> (r: Self)
        ensures
            r.wf(),
            r.geometry() == (Geometry {
                width: w,
                height: h,
                vp_active: false,
                vp_x: 0,
                vp_y: 0,
                vp_w: w,
                vp_h: h,
            }),
            r.back() == Seq::new((w * h) as nat, |i: int| Cell::blank()),
            r.front() == Seq::new((w * h) as nat, |i: int| Cell::blank()),
    {
        proof {
            lemma_grid_size(w, h);
        }
        let size = (w as usize) * (h as usize);
        let back_buffer = vec![Cell::empty(); size];
        let front_buffer = vec![Cell::empty(); size];
        let r = Self {
            width: w,
            height: h,
            back_buffer,
            front_buffer,
            vp_x: 0,
            vp_y: 0,
            vp_w: w,
            vp_h: h,
            vp_active: false,
        };
        assert(r.back() =~= Seq::new((w * h) as nat, |i: int| Cell::blank()));
        assert(r.front() =~= Seq::new((w * h) as nat, |i: int| Cell::blank()));
        r
    }

    /// Make later drawings relative to `(x, y)` and clipped to a `w × h` box.
    pub fn set_viewport(&mut self, x: u16, y: u16, w: u16, h: u16)
        ensures
            final(self).geometry() == (Geometry {
                vp_active: true,
                vp_x: x,
                vp_y: y,
                vp_w: w,
                vp_h: h,
                ..old(self).geometry()
            }),
            final(self).back() == old(self).back(),
            final(self).front() == old(self).front(),
    {
        self.vp_x = x;
        self.vp_y = y;
        self.vp_w = w;
        self.vp_h = h;
        self.vp_active = true;
    }

    /// Return to drawing in absolute screen coordinates.
    pub fn reset_viewport(&mut self)
        ensures
            final(self).geometry() == (Geometry { vp_active: false, ..old(self).geometry() }),
            final(self).back() == old(self).back(),
            final(self).front() == old(self).front(),
    {
        self.vp_active = false;
    }

    /// Write one character into the back buffer at `(x, y)`.  With an active
    /// viewport `(x, y)` is relative to it and clipped to it; drawings outside
    /// the screen are ignored.
    pub fn put(&mut self, x: u16, y: u16, ch: char, fg: Color, bg: Color)
        requires
            old(self).wf(),
            old(self).geometry().offset_in_range(x as int, y as int),
        ensures
            final(self).wf(),
            final(self).geometry() == old(self).geometry(),
            final(self).front() == old(self).front(),
            final(self).back() == old(self).geometry().put_one(
                old(self).back(),
                x as int,
                y as int,
                Cell { ch, fg, bg },
            ),
    {
        let (ax, ay) = if self.vp_active {
            if x >= self.vp_w || y >= self.vp_h {
                return;
            }
            (self.vp_x + x, self.vp_y + y)
        } else {
            (x, y)
        };
        if ax >= self.width || ay >= self.height {
            return;
        }
        proof {
            assert(ay as int * self.width as int + ax < self.width as int * self.height as int
                && 0 <= ay as int * self.width as int) by (nonlinear_arith)
                requires
                    ax < self.width,
                    ay < self.height,
            ;
            lemma_grid_size(self.width, self.height);
        }
        let idx = (ay as usize) * (self.width as usize) + (ax as usize);
        self.back_buffer.set(idx, Cell { ch, fg, bg });
    }

    /// Draw `s` left to right starting at `(x, y)`, one character per cell.
    pub fn put_str(&mut self, x: u16, y: u16, s: &str, fg: Color, bg: Color)
        requires
            old(self).wf(),
            x + s@.len() <= u16::MAX + 1,
            old(self).geometry().run_in_range(x as int, y as int, s@.len() as int),
        ensures
            final(self).wf(),
            final(self).geometry() == old(self).geometry(),
            final(self).front() == old(self).front(),
            final(self).back() == old(self).geometry().paint(
                old(self).back(),
                str_puts(x as int, y as int, s@, fg, bg),
            ),
    {
        broadcast use vstd::string::group_string_axioms;
        let ghost g = self.geometry();
        let ghost b0 = self.back();
        let mut i: usize = 0;
        for ch in it: s.chars()
            invariant
                self.wf(),
                self.geometry() == g,
                self.front() == old(self).front(),
                g == old(self).geometry(),
                b0 == old(self).back(),
                it.seq() == s@,
                i == it.index(),
                x + s@.len() <= u16::MAX + 1,
                g.run_in_range(x as int, y as int, s@.len() as int),
                self.back() == g.paint(b0, str_puts(x as int, y as int, s@, fg, bg).take(i as int)),
        {
            proof {
                let ps = str_puts(x as int, y as int, s@, fg, bg);
                assert(ps.take(i as int + 1) =~= ps.take(i as int).push(ps[i as int]));
                lemma_paint_push(g, b0, ps.take(i as int), ps[i as int]);
            }
            self.put(x + i as u16, y, ch, fg, bg);
            i = i + 1;
        }
        proof {
            let ps = str_puts(x as int, y as int, s@, fg, bg);
            assert(ps.take(s@.len() as int) =~= ps);
        }
    }

    /// The frame update: the commands that make a screen showing the front
    /// buffer show the back buffer, touching only the cells that differ.
    /// Nothing is recorded as shown: once the commands have reached the
    /// terminal, `commit` does that.
    pub fn flush(&self) -> (ops: Vec<TermOp>)
        requires
            self.wf(),
        ensures
            ops@ == frame_diff(self.back(), self.front(), self.geometry().width as int),
    {
        let ghost back = self.back();
        let ghost front = self.front();
        let ghost wi = self.geometry().width as int;
        let mut ops: Vec<TermOp> = Vec::new();
        let mut cursor_x: i32 = -1;
        let mut cursor_y: i32 = -1;
        let mut last_fg = Color::Reset;
        let mut last_bg = Color::Reset;
        let w = self.width;
        let h = self.height;
        let mut idx: usize = 0;
        let mut y: u16 = 0;
        while y < h
            invariant
                self.wf(),
                self.geometry() == self.geometry(),
                self.back() == back,
                self.front() == front,
                back == self.back(),
                front == self.front(),
                w == self.geometry().width,
                h == self.geometry().height,
                wi == w,
                y <= h,
                idx == y * wi,
                -1 <= cursor_x <= 65536,
                -1 <= cursor_y <= 65535,
                (cursor_x as int, cursor_y as int, last_fg, last_bg, ops@) == diff_upto(
                    back,
                    front,
                    wi,
                    idx as int,
                ),
            decreases h - y,
        {
            let mut x: u16 = 0;
            while x < w
                invariant
                    self.wf(),
                    self.geometry() == self.geometry(),
                    self.back() == back,
                    self.front() == front,
                    w == self.geometry().width,
                    h == self.geometry().height,
                    wi == w,
                    y < h,
                    x <= w,
                    idx == y * wi + x,
                    -1 <= cursor_x <= 65536,
                    -1 <= cursor_y <= 65535,
                    (cursor_x as int, cursor_y as int, last_fg, last_bg, ops@) == diff_upto(
                        back,
                        front,
                        wi,
                        idx as int,
                    ),
                decreases w - x,
            {
                proof {
                    assert(y as int * wi + x < wi * h as int) by (nonlinear_arith)
                        requires
                            x < wi,
                            y < h,
                    ;
                    lemma_cell_coords(idx as int, wi, x as int, y as int);
                    lemma_grid_size(w, h);
                }
                let ghost s0 = (cursor_x as int, cursor_y as int, last_fg, last_bg, ops@);
                if self.back_buffer[idx] == self.front_buffer[idx] {
                    cursor_x = -1;
                } else {
                    let cell = self.back_buffer[idx];
                    if cursor_x != x as i32 || cursor_y != y as i32 {
                        ops.push(TermOp::MoveTo(x, y));
                    }
                    if cell.fg != last_fg {
                        ops.push(TermOp::SetForeground(cell.fg));
                        last_fg = cell.fg;
                    }
                    if cell.bg != last_bg {
                        ops.push(TermOp::SetBackground(cell.bg));
                        last_bg = cell.bg;
                    }
                    ops.push(TermOp::Print(cell.ch));
                    cursor_x = x as i32 + 1;
                    cursor_y = y as i32;
                }
                assert((cursor_x as int, cursor_y as int, last_fg, last_bg, ops@) == diff_step(
                    back,
                    front,
                    wi,
                    idx as int,
                    s0,
                ));
                idx = idx + 1;
                x = x + 1;
            }
            proof {
                assert(y as int * wi + wi == (y as int + 1) * wi) by (nonlinear_arith);
            }
            y = y + 1;
        }
        proof {
            assert(back.len() == wi * h as int);
            assert(h as int * wi == wi * h as int) by (nonlinear_arith);
        }
        ops
    }

    /// Record the back buffer as what the terminal shows, after the commands
    /// of `flush` were all sent; the next flush then starts from this frame.
    pub fn commit(&mut self)
        requires
            old(self).wf(),
        ensures
            final(self).wf(),
            final(self).geometry() == old(self).geometry(),
            final(self).back() == old(self).back(),
            final(self).front() == old(self).back(),
    {
        self.front_buffer = self.back_buffer.clone();
        assert(self.front() =~= self.back());
    }

    /// The back buffer as plain text, one string per row (colours dropped),
    /// to look at a frame without a terminal.
    pub fn debug_rows(&self) -> (rows: Vec<String>)
        requires
            self.wf(),
        ensures
            rows.len() == self.geometry().height,
            forall|y: int|
                0 <= y < rows.len() ==> #[trigger] rows[y]@ == row_chars(
                    self.back(),
                    self.geometry().width as int,
                    y,
                ),
    {
        let w = self.width;
        let h = self.height;
        let ghost wi = w as int;
        let mut rows: Vec<String> = Vec::new();
        let mut y: u16 = 0;
        while y < h
            invariant
                self.wf(),
                w == self.geometry().width,
                h == self.geometry().height,
                wi == w,
                y <= h,
                rows.len() == y,
                forall|r: int|
                    0 <= r < y ==> #[trigger] rows[r]@ == row_chars(self.back(), wi, r),
            decreases h - y,
        {
            let mut row = String::new();
            let mut x: u16 = 0;
            while x < w
                invariant
                    self.wf(),
                    w == self.geometry().width,
                    h == self.geometry().height,
                    wi == w,
                    y < h,
                    x <= w,
                    row@ == row_chars(self.back(), wi, y as int).take(x as int),
                decreases w - x,
            {
                proof {
                    assert(y as int * wi + x < wi * h as int && 0 <= y as int * wi) by (nonlinear_arith)
                        requires
                            x < wi,
                            y < h,
                    ;
                    lemma_grid_size(w, h);
                }
                let idx = (y as usize) * (w as usize) + (x as usize);
                push_char(&mut row, self.back_buffer[idx].ch);
                assert(row@ =~= row_chars(self.back(), wi, y as int).take(x as int + 1));
                x = x + 1;
            }
            assert(row@ =~= row_chars(self.back(), wi, y as int));
            rows.push(row);
            y = y + 1;
        }
        rows
    }

    /// Fill the back buffer with blank cells, ready for a new frame.
    pub fn clear_back(&mut self)
        requires
            old(self).wf(),
        ensures
            final(self).wf(),
            final(self).geometry() == old(self).geometry(),
            final(self).front() == old(self).front(),
            final(self).back() == Seq::new(old(self).back().len(), |i: int| Cell::blank()),
    {
        let n = self.back_buffer.len();
        let mut i: usize = 0;
        while i < n
            invariant
                self.wf(),
                self.geometry() == old(self).geometry(),
                self.front() == old(self).front(),
                n == self.back().len(),
                n == old(self).back().len(),
                i <= n,
                forall|k: int| 0 <= k < i ==> self.back()[k] == Cell::blank(),
            decreases n - i,
        {
            self.back_buffer.set(i, Cell::empty());
            i = i + 1;
        }
        assert(self.back() =~= Seq::new(old(self).back().len(), |i: int| Cell::blank()));
    }

    /// Make every cell of the next flush look changed, so that the whole
    /// screen is repainted (after the terminal was resized or the tank moved).
    pub fn force_redraw(&mut self)
        requires
            old(self).wf(),
        ensures
            final(self).wf(),
            final(self).geometry() == old(self).geometry(),
            final(self).back() == old(self).back(),
            final(self).front() == Seq::new(old(self).front().len(), |i: int| Cell::sentinel()),
    {
        let sentinel = Cell { ch: '\0', fg: Color::Reset, bg: Color::Reset };
        let n = self.front_buffer.len();
        let mut i: usize = 0;
        while i < n
            invariant
                self.wf(),
                self.geometry() == old(self).geometry(),
                self.back() == old(self).back(),
                n == self.front().len(),
                n == old(self).front().len(),
                i <= n,
                sentinel == Cell::sentinel(),
                forall|k: int| 0 <= k < i ==> self.front()[k] == Cell::sentinel(),
            decreases n - i,
        {
            self.front_buffer.set(i, sentinel);
            i = i + 1;
        }
        assert(self.front() =~= Seq::new(old(self).front().len(), |i: int| Cell::sentinel()));
    }

    /// Adopt a new terminal size: both buffers become blank `w × h` grids and
    /// the viewport is dropped.
    pub fn resize(&mut self, w: u16, h: u16)
        ensures
            final(self).wf(),
            final(self).geometry() == (Geometry {
                width: w,
                height: h,
                vp_active: false,
                vp_x: 0,
                vp_y: 0,
                vp_w: w,
                vp_h: h,
            }),
            final(self).back() == Seq::new((w * h) as nat, |i: int| Cell::blank()),
            final(self).front() == Seq::new((w * h) as nat, |i: int| Cell::blank()),
    {
        proof {
            lemma_grid_size(w, h);
        }
        self.width = w;
        self.height = h;
        let size = (w as usize) * (h as usize);
        self.back_buffer = vec![Cell::empty(); size];
        self.front_buffer = vec![Cell::empty(); size];
        self.vp_x = 0;
        self.vp_y = 0;
        self.vp_w = w;
        self.vp_h = h;
        self.vp_active = false;
        assert(self.back() =~= Seq::new((w * h) as nat, |i: int| Cell::blank()));
        assert(self.front() =~= Seq::new((w * h) as nat, |i: int| Cell::blank()));
    }
}

} // verus!
