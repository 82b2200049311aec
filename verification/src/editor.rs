//! The editing state: line buffer, cursor, mode, and the key dispatcher.

use vstd::prelude::*;

verus! {

/// The dispatcher's two states. `Normal` edits and navigates; `Command`
/// takes single-character commands entered after ':'.
#[derive(Clone, Copy, Debug, PartialEq, Eq, Structural)]
pub enum Mode {
    Normal,
    Command,
}

/// A key as the dispatcher understands it. Callers translate whatever the
/// terminal delivers into this type; `Other` stands for every key the
/// editor ignores.
#[derive(Clone, Copy, Debug, PartialEq, Eq, Structural)]
pub enum Key {
    Char(char),
    Backspace,
    Enter,
    Left,
    Right,
    Up,
    Down,
    Esc,
    Other,
}

/// One keystroke: the key and whether Control was held.
#[derive(Clone, Copy, Debug, PartialEq, Eq, Structural)]
pub struct KeyPress {
    pub code: Key,
    pub ctrl: bool,
}

/// What the caller must do after a keystroke has been dispatched.
#[derive(Clone, Copy, Debug, PartialEq, Eq, Structural)]
pub enum Action {
    /// Keep editing; nothing to perform.
    Nothing,
    /// Write the buffer to the associated file.
    Save,
    /// A save was requested but no file name is set; tell the user.
    ReportNoFileName,
    /// Leave the editing loop without saving.
    Quit,
}

/// The in-memory document: an ordered sequence of lines (no newline stored),
/// a (row, column) cursor into it, the associated file path, and the mode.
pub struct Editor {
    pub buffer: Vec<Vec<char>>,
    pub row: usize,
    pub col: usize,
    pub file_name: Option<String>,
    pub mode: Mode,
}

/// The lines a buffer holds, as a sequence of character sequences.
pub open spec fn lines_of(buf: Seq<Vec<char>>) -> Seq<Seq<char>> {
    Seq::new(buf.len(), |i: int| buf[i]@)
}

/// Mathematical model of the editor state.
#[verifier::ext_equal]
pub ghost struct EditorModel {
    pub lines: Seq<Seq<char>>,
    pub row: int,
    pub col: int,
    pub file_name: Option<Seq<char>>,
    pub mode: Mode,
}

impl View for Editor {
    type V = EditorModel;

    open spec fn view(&self) -> EditorModel {
        EditorModel {
            lines: lines_of(self.buffer@),
            row: self.row as int,
            col: self.col as int,
            file_name: match self.file_name {
                Some(ref s) => Some(s@),
                None => None,
            },
            mode: self.mode,
        }
    }
}

impl EditorModel {
    /// A loaded document always has at least one line and the cursor row in
    /// bounds. The column may point past the end of a shorter line after a
    /// vertical move; edits clamp it on use.
    pub open spec fn wf(self) -> bool {
        &&& self.lines.len() >= 1
        &&& 0 <= self.row < self.lines.len()
        &&& 0 <= self.col
    }

    /// The line the cursor is on.
    pub open spec fn cur_line(self) -> Seq<char> {
        self.lines[self.row]
    }

    /// The column an edit applies at: the cursor column clamped to the
    /// current line's length.
    pub open spec fn clamped_col(self) -> int {
        if self.col <= self.cur_line().len() {
            self.col
        } else {
            self.cur_line().len() as int
        }
    }

    /// Insert `c` at the clamped column; the cursor ends just after it.
    pub open spec fn with_insert(self, c: char) -> EditorModel {
        let cc = self.clamped_col();
        EditorModel {
            lines: self.lines.update(self.row, self.cur_line().insert(cc, c)),
            col: cc + 1,
            ..self
        }
    }

    /// Delete the character before the clamped column, if any; at column 0
    /// the line is unchanged. Backspace never joins lines.
    pub open spec fn with_backspace(self) -> EditorModel {
        let cc = self.clamped_col();
        if cc > 0 {
            EditorModel {
                lines: self.lines.update(self.row, self.cur_line().remove(cc - 1)),
                col: cc - 1,
                ..self
            }
        } else {
            EditorModel { col: 0, ..self }
        }
    }

    /// Split the current line at the clamped column into two adjacent
    /// lines; the cursor moves to the start of the second.
    pub open spec fn with_split(self) -> EditorModel {
        let cc = self.clamped_col();
        EditorModel {
            lines: self.lines.update(self.row, self.cur_line().take(cc)).insert(
                self.row + 1,
                self.cur_line().skip(cc),
            ),
            row: self.row + 1,
            col: 0,
            ..self
        }
    }

    /// One column left, stopping at 0; no wrap to the previous line.
    pub open spec fn with_left(self) -> EditorModel {
        if self.col > 0 {
            EditorModel { col: self.col - 1, ..self }
        } else {
            self
        }
    }

    /// One column right, stopping at the line end; no wrap to the next line.
    pub open spec fn with_right(self) -> EditorModel {
        if self.col < self.cur_line().len() {
            EditorModel { col: self.col + 1, ..self }
        } else {
            self
        }
    }

    /// One row up, stopping at the first line. The column is not re-clamped.
    pub open spec fn with_up(self) -> EditorModel {
        if self.row > 0 {
            EditorModel { row: self.row - 1, ..self }
        } else {
            self
        }
    }

    /// One row down, stopping at the last line. The column is not re-clamped.
    pub open spec fn with_down(self) -> EditorModel {
        if self.row < self.lines.len() - 1 {
            EditorModel { row: self.row + 1, ..self }
        } else {
            self
        }
    }

    /// The Normal-mode transition table: printable characters insert,
    /// ':' switches to Command mode, Backspace/Enter edit, arrows move,
    /// everything else is ignored.
    pub open spec fn normal_step(self, key: Key) -> EditorModel {
        match key {
            Key::Char(c) => if c == ':' {
                EditorModel { mode: Mode::Command, ..self }
            } else {
                self.with_insert(c)
            },
            Key::Backspace => self.with_backspace(),
            Key::Enter => self.with_split(),
            Key::Left => self.with_left(),
            Key::Right => self.with_right(),
            Key::Up => self.with_up(),
            Key::Down => self.with_down(),
            Key::Esc => self,
            Key::Other => self,
        }
    }

    /// The Command-mode transition table: 'w' asks for a save (or a
    /// report when no file name is set) and returns to Normal, 'q' and
    /// Escape return to Normal, any other character stays in Command.
    pub open spec fn command_step(self, key: Key) -> (EditorModel, Action) {
        match key {
            Key::Char(c) => if c == 'w' {
                (
                    EditorModel { mode: Mode::Normal, ..self },
                    if self.file_name is Some {
                        Action::Save
                    } else {
                        Action::ReportNoFileName
                    },
                )
            } else if c == 'q' {
                (EditorModel { mode: Mode::Normal, ..self }, Action::Nothing)
            } else {
                (self, Action::Nothing)
            },
            Key::Esc => (EditorModel { mode: Mode::Normal, ..self }, Action::Nothing),
            _ => (self, Action::Nothing),
        }
    }

    /// Route a key to the handler of the current mode.
    pub open spec fn dispatch(self, key: Key) -> (EditorModel, Action) {
        match self.mode {
            Mode::Normal => (self.normal_step(key), Action::Nothing),
            Mode::Command => self.command_step(key),
        }
    }

    /// The state after typing the characters `cs` one by one, with no
    /// navigation in between.
    pub open spec fn insert_run(self, cs: Seq<char>) -> EditorModel
        decreases cs.len(),
    {
        if cs.len() == 0 {
            self
        } else {
            self.with_insert(cs[0]).insert_run(cs.drop_first())
        }
    }

    /// The whole per-keystroke transition: the global shortcuts Ctrl-C
    /// (quit, nothing saved) and Ctrl-S (save, state unchanged) are checked
    /// before either mode sees the key.
    pub open spec fn step(self, k: KeyPress) -> (EditorModel, Action) {
        if k.ctrl && k.code == Key::Char('c') {
            (self, Action::Quit)
        } else if k.ctrl && k.code == Key::Char('s') {
            (
                self,
                if self.file_name is Some {
                    Action::Save
                } else {
                    Action::ReportNoFileName
                },
            )
        } else {
            self.dispatch(k.code)
        }
    }
}

impl Editor {
    /// A fresh editor: empty buffer, cursor at the origin, no file, Normal
    /// mode. Loading a file establishes the buffer invariant.
    pub fn new() -> (r: Self)
        ensures
            r@.lines =~= Seq::<Seq<char>>::empty(),
            r@.row == 0,
            r@.col == 0,
            r@.file_name is None,
            r@.mode == Mode::Normal,
    {
        Editor {
            buffer: Vec::new(),
            row: 0,
            col: 0,
            file_name: None,
            mode: Mode::Normal,
        }
    }

    /// Insert `c` on the current line at the clamped cursor column.
    pub fn insert_char(&mut self, c: char)
        requires
            old(self)@.wf(),
        ensures
            final(self)@ == old(self)@.with_insert(c),
            final(self)@.wf(),
    {
        let row = self.row;
        let mut line = self.buffer.remove(row);
        let len = line.len();
        let c0 = if self.col <= len { self.col } else { len };
        line.insert(c0, c);
        let grown_len = line.len();
        assert(c0 < grown_len);
        self.buffer.insert(row, line);
        self.col = c0 + 1;
        proof {
            assert(self@ =~~= old(self)@.with_insert(c));
        }
    }

    /// Delete the character before the clamped cursor column, if any.
    pub fn backspace(&mut self)
        requires
            old(self)@.wf(),
        ensures
            final(self)@ == old(self)@.with_backspace(),
            final(self)@.wf(),
    {
        let row = self.row;
        let mut line = self.buffer.remove(row);
        let len = line.len();
        let c0 = if self.col <= len { self.col } else { len };
        if c0 > 0 {
            line.remove(c0 - 1);
            self.col = c0 - 1;
        } else {
            self.col = 0;
        }
        self.buffer.insert(row, line);
        proof {
            assert(self@ =~~= old(self)@.with_backspace());
        }
    }

    /// Split the current line at the clamped cursor column into two lines;
    /// the cursor moves to the start of the second.
    pub fn split_line(&mut self)
        requires
            old(self)@.wf(),
        ensures
            final(self)@ == old(self)@.with_split(),
            final(self)@.wf(),
    {
        let row = self.row;
        let mut line = self.buffer.remove(row);
        let len = line.len();
        let c0 = if self.col <= len { self.col } else { len };
        let second = line.split_off(c0);
        self.buffer.insert(row, line);
        let grown_len = self.buffer.len();
        assert(row < grown_len);
        self.buffer.insert(row + 1, second);
        self.row = row + 1;
        self.col = 0;
        proof {
            assert(self@ =~~= old(self)@.with_split());
        }
    }

    /// Move the cursor one column left, stopping at 0.
    pub fn move_left(&mut self)
        requires
            old(self)@.wf(),
        ensures
            final(self)@ == old(self)@.with_left(),
            final(self)@.wf(),
    {
        if self.col > 0 {
            self.col = self.col - 1;
        }
        proof {
            assert(self@ =~~= old(self)@.with_left());
        }
    }

    /// Move the cursor one column right, stopping at the line end.
    pub fn move_right(&mut self)
        requires
            old(self)@.wf(),
        ensures
            final(self)@ == old(self)@.with_right(),
            final(self)@.wf(),
    {
        let len = self.buffer[self.row].len();
        if self.col < len {
            self.col = self.col + 1;
        }
        proof {
            assert(self@ =~~= old(self)@.with_right());
        }
    }

    /// Move the cursor one row up, stopping at the first line.
    pub fn move_up(&mut self)
        requires
            old(self)@.wf(),
        ensures
            final(self)@ == old(self)@.with_up(),
            final(self)@.wf(),
    {
        if self.row > 0 {
            self.row = self.row - 1;
        }
        proof {
            assert(self@ =~~= old(self)@.with_up());
        }
    }

    /// Move the cursor one row down, stopping at the last line.
    pub fn move_down(&mut self)
        requires
            old(self)@.wf(),
        ensures
            final(self)@ == old(self)@.with_down(),
            final(self)@.wf(),
    {
        if self.row < self.buffer.len() - 1 {
            self.row = self.row + 1;
        }
        proof {
            assert(self@ =~~= old(self)@.with_down());
        }
    }

    /// Handle one key in Normal mode, per the transition table.
    pub fn handle_normal_mode_input(&mut self, key: Key)
        requires
            old(self)@.wf(),
        ensures
            final(self)@ == old(self)@.normal_step(key),
            final(self)@.wf(),
    {
        match key {
            Key::Char(c) => {
                if c == ':' {
                    self.mode = Mode::Command;
                    proof {
                        assert(self@ =~~= old(self)@.normal_step(key));
                    }
                } else {
                    self.insert_char(c);
                }
            },
            Key::Backspace => self.backspace(),
            Key::Enter => self.split_line(),
            Key::Left => self.move_left(),
            Key::Right => self.move_right(),
            Key::Up => self.move_up(),
            Key::Down => self.move_down(),
            Key::Esc => (),
            Key::Other => (),
        }
    }

    /// Handle one key in Command mode; the returned action tells the
    /// caller whether a save (or a "no file name" report) is due.
    pub fn handle_command_mode_input(&mut self, key: Key) -> (act: Action)
        requires
            old(self)@.wf(),
        ensures
            final(self)@ == old(self)@.command_step(key).0,
            act == old(self)@.command_step(key).1,
            final(self)@.wf(),
    {
        match key {
            Key::Char(c) => {
                if c == 'w' {
                    self.mode = Mode::Normal;
                    proof {
                        assert(self@ =~~= old(self)@.command_step(key).0);
                    }
                    if self.file_name.is_some() {
                        Action::Save
                    } else {
                        Action::ReportNoFileName
                    }
                } else if c == 'q' {
                    self.mode = Mode::Normal;
                    proof {
                        assert(self@ =~~= old(self)@.command_step(key).0);
                    }
                    Action::Nothing
                } else {
                    Action::Nothing
                }
            },
            Key::Esc => {
                self.mode = Mode::Normal;
                proof {
                    assert(self@ =~~= old(self)@.command_step(key).0);
                }
                Action::Nothing
            },
            _ => Action::Nothing,
        }
    }

    /// Route one key to the current mode's handler.
    pub fn handle_input(&mut self, key: Key) -> (act: Action)
        requires
            old(self)@.wf(),
        ensures
            final(self)@ == old(self)@.dispatch(key).0,
            act == old(self)@.dispatch(key).1,
            final(self)@.wf(),
    {
        match self.mode {
            Mode::Normal => {
                self.handle_normal_mode_input(key);
                Action::Nothing
            },
            Mode::Command => self.handle_command_mode_input(key),
        }
    }

    /// Process one keystroke: global shortcuts first (Ctrl-C quits with the
    /// state untouched and nothing saved; Ctrl-S asks for a save), then the
    /// current mode's handler.
    pub fn process_key(&mut self, k: KeyPress) -> (act: Action)
        requires
            old(self)@.wf(),
        ensures
            final(self)@ == old(self)@.step(k).0,
            act == old(self)@.step(k).1,
            final(self)@.wf(),
    {
        if k.ctrl {
            match k.code {
                Key::Char(c) => {
                    if c == 'c' {
                        return Action::Quit;
                    } else if c == 's' {
                        if self.file_name.is_some() {
                            return Action::Save;
                        } else {
                            return Action::ReportNoFileName;
                        }
                    }
                },
                _ => (),
            }
        }
        self.handle_input(k.code)
    }
}

/// Typing a sequence of characters with no navigation inserts exactly that
/// sequence, in order, at the cursor, and moves the column forward by its
/// length. On an empty line at column 0 the line afterwards is exactly the
/// typed sequence and the column is its length.
pub proof fn lemma_insert_run(m: EditorModel, cs: Seq<char>)
    requires
        m.wf(),
        m.col <= m.cur_line().len(),
    ensures
        m.insert_run(cs).lines == m.lines.update(
            m.row,
            m.cur_line().take(m.col) + cs + m.cur_line().skip(m.col),
        ),
        m.insert_run(cs).cur_line() == m.cur_line().take(m.col) + cs + m.cur_line().skip(m.col),
        m.insert_run(cs).col == m.col + cs.len(),
        m.insert_run(cs).row == m.row,
        m.insert_run(cs).mode == m.mode,
        m.insert_run(cs).file_name == m.file_name,
    decreases cs.len(),
{
    if cs.len() == 0 {
        assert(m.cur_line().take(m.col) + cs + m.cur_line().skip(m.col) =~= m.cur_line());
        assert(m.lines.update(m.row, m.cur_line()) =~~= m.lines);
    } else {
        let c = cs[0];
        let m1 = m.with_insert(c);
        assert(m.clamped_col() == m.col);
        m.cur_line().insert_ensures(m.col, c);
        assert(m1.cur_line() == m.cur_line().insert(m.col, c));
        assert(m1.wf());
        assert(m1.col == m.col + 1);
        assert(m1.col <= m1.cur_line().len());
        lemma_insert_run(m1, cs.drop_first());
        assert(m1.cur_line().take(m.col + 1) =~= m.cur_line().take(m.col) + seq![c]);
        assert(m1.cur_line().skip(m.col + 1) =~= m.cur_line().skip(m.col));
        assert(m.cur_line().take(m.col) + seq![c] + cs.drop_first() + m.cur_line().skip(m.col)
            =~= m.cur_line().take(m.col) + cs + m.cur_line().skip(m.col));
        assert(m1.lines.update(
            m.row,
            m1.cur_line().take(m1.col) + cs.drop_first() + m1.cur_line().skip(m1.col),
        ) =~~= m.lines.update(m.row, m.cur_line().take(m.col) + cs + m.cur_line().skip(m.col)));
    }
}

/// Enter at column `c` on a line `a + b` with `a` of length `c` splits it
/// into the two adjacent lines `a` and `b`, grows the buffer by exactly one
/// line, advances the row by one and resets the column to zero. Lines other
/// than the split one keep their place relative to it.
pub proof fn lemma_enter_splits(m: EditorModel, a: Seq<char>, b: Seq<char>)
    requires
        m.wf(),
        m.cur_line() == a + b,
        m.col == a.len(),
    ensures
        m.with_split().lines.len() == m.lines.len() + 1,
        m.with_split().lines[m.row] == a,
        m.with_split().lines[m.row + 1] == b,
        m.with_split().row == m.row + 1,
        m.with_split().col == 0,
        forall|y: int| 0 <= y < m.row ==> m.with_split().lines[y] == m.lines[y],
        forall|y: int| m.row < y < m.lines.len() ==> m.with_split().lines[y + 1] == m.lines[y],
{
    assert(m.clamped_col() == m.col);
    assert(m.cur_line().take(m.col) =~= a);
    assert(m.cur_line().skip(m.col) =~= b);
    m.lines.update(m.row, a).insert_ensures(m.row + 1, b);
}

/// Global quit: Ctrl-C yields the Quit action with the editor state exactly
/// as it was, so nothing is saved and unsaved edits stay in memory only.
pub proof fn lemma_ctrl_c_quits(m: EditorModel)
    ensures
        m.step(KeyPress { code: Key::Char('c'), ctrl: true }).0 == m,
        m.step(KeyPress { code: Key::Char('c'), ctrl: true }).1 == Action::Quit,
{
}

} // verus!
