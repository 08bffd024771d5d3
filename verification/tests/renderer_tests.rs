use asciiquarium::color::Color;
use asciiquarium::renderer::{Cell, Renderer, TermOp};

fn blank() -> Cell {
    Cell { ch: ' ', fg: Color::Reset, bg: Color::Reset }
}

/// Run a flush's commands on a simulated terminal that starts from the
/// cells `screen` (a `w`-wide grid) with the cursor at the origin and the
/// default colours, and return the cells it then shows.
fn replay_ops(screen: &mut Vec<Cell>, w: usize, ops: &[TermOp]) {
    let (mut cx, mut cy) = (0usize, 0usize);
    let (mut fg, mut bg) = (Color::Reset, Color::Reset);
    for op in ops {
        match *op {
            TermOp::MoveTo(x, y) => {
                cx = x as usize;
                cy = y as usize;
            }
            TermOp::SetForeground(c) => fg = c,
            TermOp::SetBackground(c) => bg = c,
            TermOp::Print(ch) => {
                screen[cy * w + cx] = Cell { ch, fg, bg };
                cx += 1;
            }
        }
    }
}

#[test]
fn new_renderer_is_blank() {
    let r = Renderer::new(4, 2);
    assert_eq!(r.width, 4);
    assert_eq!(r.height, 2);
    assert_eq!((r.width(), r.height()), (4, 2));
    assert_eq!(r.debug_rows(), vec!["    ".to_string(), "    ".to_string()]);
}

#[test]
fn empty_cell_is_a_default_space() {
    assert_eq!(Cell::empty(), blank());
}

#[test]
fn put_writes_one_cell_and_ignores_offscreen() {
    let mut r = Renderer::new(3, 2);
    r.put(1, 1, 'x', Color::Red, Color::Reset);
    r.put(3, 0, 'y', Color::Red, Color::Reset);
    r.put(0, 2, 'z', Color::Red, Color::Reset);
    assert_eq!(r.debug_rows(), vec!["   ".to_string(), " x ".to_string()]);
}

#[test]
fn put_str_writes_left_to_right_and_clips() {
    let mut r = Renderer::new(5, 1);
    r.put_str(3, 0, "abc", Color::White, Color::Reset);
    assert_eq!(r.debug_rows(), vec!["   ab".to_string()]);
}

#[test]
fn viewport_offsets_and_clips_drawing() {
    let mut r = Renderer::new(6, 4);
    r.set_viewport(2, 1, 3, 2);
    r.put(0, 0, 'a', Color::Red, Color::Reset);
    r.put(2, 1, 'b', Color::Red, Color::Reset);
    // Outside the viewport: clipped, not drawn anywhere.
    r.put(3, 0, 'c', Color::Red, Color::Reset);
    r.put(0, 2, 'd', Color::Red, Color::Reset);
    r.put_str(1, 0, "xyz", Color::Red, Color::Reset);
    r.reset_viewport();
    r.put(0, 3, 'e', Color::Red, Color::Reset);
    assert_eq!(
        r.debug_rows(),
        vec![
            "      ".to_string(),
            "  axy ".to_string(),
            "    b ".to_string(),
            "e     ".to_string(),
        ]
    );
}

#[test]
fn flush_emits_only_changed_cells() {
    let mut r = Renderer::new(4, 2);
    r.put(1, 0, 'a', Color::Red, Color::Reset);
    r.put(2, 0, 'b', Color::Red, Color::Reset);
    r.put(0, 1, 'c', Color::Red, Color::AnsiValue(17));
    let ops = r.flush();
    assert_eq!(
        ops,
        vec![
            TermOp::MoveTo(1, 0),
            TermOp::SetForeground(Color::Red),
            TermOp::Print('a'),
            TermOp::Print('b'),
            TermOp::MoveTo(0, 1),
            TermOp::SetBackground(Color::AnsiValue(17)),
            TermOp::Print('c'),
        ]
    );
    // Until the frame is committed as shown, the same commands come again.
    assert_eq!(r.flush(), ops);
    // Once committed, nothing changed since: the next flush is empty.
    r.commit();
    assert!(r.flush().is_empty());
}

#[test]
fn flush_then_replay_shows_the_back_buffer() {
    let (w, h) = (5usize, 3usize);
    let mut r = Renderer::new(w as u16, h as u16);
    let mut screen = vec![blank(); w * h];
    r.put_str(0, 0, "hello", Color::Yellow, Color::Reset);
    r.put(4, 2, '#', Color::Green, Color::AnsiValue(94));
    let ops = r.flush();
    replay_ops(&mut screen, w, &ops);
    r.commit();
    let shown: Vec<String> = (0..h)
        .map(|y| (0..w).map(|x| screen[y * w + x].ch).collect())
        .collect();
    assert_eq!(shown, r.debug_rows());
    assert_eq!(screen[2 * w + 4], Cell { ch: '#', fg: Color::Green, bg: Color::AnsiValue(94) });

    // A second frame that changes one cell prints exactly one character.
    r.put(0, 0, 'j', Color::Yellow, Color::Reset);
    let ops = r.flush();
    r.commit();
    let prints = ops.iter().filter(|op| matches!(op, TermOp::Print(_))).count();
    assert_eq!(prints, 1);
    replay_ops(&mut screen, w, &ops);
    assert_eq!(screen[0].ch, 'j');
}

#[test]
fn force_redraw_repaints_every_cell() {
    let mut r = Renderer::new(3, 2);
    r.flush();
    r.commit();
    r.force_redraw();
    let ops = r.flush();
    let prints = ops.iter().filter(|op| matches!(op, TermOp::Print(_))).count();
    assert_eq!(prints, 6);
}

#[test]
fn clear_back_blanks_the_frame() {
    let mut r = Renderer::new(2, 1);
    r.put(0, 0, 'q', Color::Red, Color::Reset);
    r.clear_back();
    assert_eq!(r.debug_rows(), vec!["  ".to_string()]);
}

#[test]
fn resize_makes_blank_buffers_and_drops_the_viewport() {
    let mut r = Renderer::new(2, 2);
    r.put(0, 0, 'q', Color::Red, Color::Reset);
    r.set_viewport(1, 1, 1, 1);
    r.resize(3, 1);
    assert_eq!(r.width, 3);
    assert_eq!(r.height, 1);
    assert_eq!(r.debug_rows(), vec!["   ".to_string()]);
    assert!(r.flush().is_empty());
    r.put(2, 0, 'z', Color::Red, Color::Reset);
    assert_eq!(r.debug_rows(), vec!["  z".to_string()]);
}

#[test]
fn a_frame_that_was_not_committed_is_sent_again() {
    // A failed write leaves the frame uncommitted: the next flush still
    // diffs against the old screen, so no drawn cell is lost.
    let mut r = Renderer::new(3, 1);
    r.put(0, 0, 'a', Color::Red, Color::Reset);
    let first = r.flush();
    r.put(2, 0, 'c', Color::Red, Color::Reset);
    let second = r.flush();
    let prints = second.iter().filter(|op| matches!(op, TermOp::Print(_))).count();
    assert_eq!(prints, 2);
    assert_eq!(&second[..first.len()], &first[..]);
}
