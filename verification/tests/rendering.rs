use tedit::editor::Editor;
use tedit::render::RenderLine;

fn line(s: &str) -> Vec<char> {
    s.chars().collect()
}

fn editor_with(lines: &[&str]) -> Editor {
    let mut e = Editor::new();
    e.buffer = lines.iter().map(|s| line(s)).collect();
    e
}

#[test]
fn frame_highlights_only_the_cursor_line() {
    let mut e = editor_with(&["fn main", "let x", "plain"]);
    e.row = 1;
    e.col = 2;
    let f = e.render_frame();
    assert_eq!(f.lines.len(), 3);
    match &f.lines[0] {
        RenderLine::Plain(p) => assert_eq!(*p, line("fn main")),
        RenderLine::Highlighted(_) => panic!("line 0 is not the cursor line"),
    }
    match &f.lines[1] {
        RenderLine::Highlighted(sp) => {
            assert_eq!(*sp, vec![(line("let"), true), (line("x"), false)]);
        }
        RenderLine::Plain(_) => panic!("cursor line must be highlighted"),
    }
    match &f.lines[2] {
        RenderLine::Plain(p) => assert_eq!(*p, line("plain")),
        RenderLine::Highlighted(_) => panic!("line 2 is not the cursor line"),
    }
    assert_eq!(f.cursor_row, 1);
    assert_eq!(f.cursor_col, 2);
}

#[test]
fn frame_keeps_cursor_position_even_past_line_end() {
    let mut e = editor_with(&["ab"]);
    e.col = 7;
    let f = e.render_frame();
    assert_eq!(f.cursor_row, 0);
    assert_eq!(f.cursor_col, 7);
}
