//! Saving and loading: the text form of a buffer. A saved file holds each
//! line followed by exactly one newline; loading splits on newlines and
//! drops them, and an empty file loads as one empty line so the cursor
//! invariant holds. The file I/O itself lives outside this crate; these
//! functions map between buffers and the exact character sequence that is
//! written to or read from disk.

use vstd::prelude::*;

use crate::editor::{lines_of, Editor};

verus! {

/// A line that can be stored: it holds no newline of its own.
pub open spec fn newline_free(l: Seq<char>) -> bool {
    forall|i: int| 0 <= i < l.len() ==> l[i] != '\n'
}

/// The character sequence a buffer is saved as: each line followed by one
/// newline, in order.
pub open spec fn serialize_lines(ls: Seq<Seq<char>>) -> Seq<char>
    decreases ls.len(),
{
    if ls.len() == 0 {
        Seq::empty()
    } else {
        ls[0] + seq!['\n'] + serialize_lines(ls.drop_first())
    }
}

/// Splitting a text on newlines, with `cur` the partial line read so far:
/// a newline ends the current line; at the end of the text a non-empty
/// partial line still counts, so a final line needs no trailing newline.
pub open spec fn split_rest(cur: Seq<char>, s: Seq<char>) -> Seq<Seq<char>>
    decreases s.len(),
{
    if s.len() == 0 {
        if cur.len() == 0 {
            Seq::empty()
        } else {
            seq![cur]
        }
    } else if s[0] == '\n' {
        seq![cur] + split_rest(Seq::empty(), s.drop_first())
    } else {
        split_rest(cur.push(s[0]), s.drop_first())
    }
}

/// The lines a text file holds.
pub open spec fn split_lines(s: Seq<char>) -> Seq<Seq<char>> {
    split_rest(Seq::empty(), s)
}

/// What loading a text yields: its lines, except that an empty text loads
/// as a single empty line.
pub open spec fn loaded_lines(s: Seq<char>) -> Seq<Seq<char>> {
    if split_lines(s).len() == 0 {
        seq![Seq::<char>::empty()]
    } else {
        split_lines(s)
    }
}

/// Serialize a buffer: every line followed by one newline, in order.
pub fn serialize_buffer(buf: &Vec<Vec<char>>) -> (r: Vec<char>)
    ensures
        r@ == serialize_lines(lines_of(buf@)),
{
    let mut r: Vec<char> = Vec::new();
    let mut i: usize = 0;
    while i < buf.len()
        invariant
            i <= buf.len(),
            r@ == serialize_lines(lines_of(buf@).take(i as int)),
        decreases buf.len() - i,
    {
        let line = &buf[i];
        let mut j: usize = 0;
        while j < line.len()
            invariant
                j <= line.len(),
                i < buf.len(),
                line == &buf[i as int],
                r@ == serialize_lines(lines_of(buf@).take(i as int)) + line@.take(j as int),
            decreases line.len() - j,
        {
            r.push(line[j]);
            proof {
                assert(line@.take(j + 1) =~= line@.take(j as int).push(line@[j as int]));
            }
            j = j + 1;
        }
        r.push('\n');
        proof {
            assert(line@.take(line@.len() as int) =~= line@);
            lemma_serialize_snoc(lines_of(buf@).take(i as int), line@);
            assert(lines_of(buf@).take(i + 1) =~= lines_of(buf@).take(i as int).push(line@));
            assert(r@ =~= serialize_lines(lines_of(buf@).take(i + 1)));
        }
        i = i + 1;
    }
    proof {
        assert(lines_of(buf@).take(buf@.len() as int) =~= lines_of(buf@));
    }
    r
}

/// Appending one line to a buffer appends that line and a newline to its
/// serialized text.
proof fn lemma_serialize_snoc(ls: Seq<Seq<char>>, l: Seq<char>)
    ensures
        serialize_lines(ls.push(l)) == serialize_lines(ls) + l + seq!['\n'],
    decreases ls.len(),
{
    if ls.len() == 0 {
        assert(ls.push(l)[0] == l);
        assert(ls.push(l).drop_first() =~= Seq::<Seq<char>>::empty());
        assert(serialize_lines(Seq::<Seq<char>>::empty()) == Seq::<char>::empty());
        assert(serialize_lines(ls.push(l)) == l + seq!['\n'] + serialize_lines(
            Seq::<Seq<char>>::empty(),
        ));
        assert(serialize_lines(ls.push(l)) =~= serialize_lines(ls) + l + seq!['\n']);
    } else {
        assert(ls.push(l)[0] == ls[0]);
        assert(ls.push(l).drop_first() =~= ls.drop_first().push(l));
        lemma_serialize_snoc(ls.drop_first(), l);
        assert(serialize_lines(ls.push(l)) == ls[0] + seq!['\n'] + serialize_lines(
            ls.drop_first().push(l),
        ));
        assert(serialize_lines(ls.push(l)) =~= serialize_lines(ls) + l + seq!['\n']);
    }
}

/// Split a text into its lines: a newline ends a line and is not kept; a
/// non-empty final segment without a trailing newline is a line too.
pub fn split_text(text: &Vec<char>) -> (r: Vec<Vec<char>>)
    ensures
        lines_of(r@) == split_lines(text@),
{
    let mut out: Vec<Vec<char>> = Vec::new();
    let mut cur: Vec<char> = Vec::new();
    let mut i: usize = 0;
    proof {
        assert(text@.skip(0) =~= text@);
    }
    while i < text.len()
        invariant
            i <= text.len(),
            split_lines(text@) == lines_of(out@) + split_rest(cur@, text@.skip(i as int)),
        decreases text.len() - i,
    {
        let c = text[i];
        proof {
            assert(text@.skip(i as int)[0] == text@[i as int]);
            assert(text@.skip(i as int).drop_first() =~= text@.skip(i + 1));
        }
        if c == '\n' {
            let ghost prev_out = out@;
            let ghost prev_cur = cur@;
            out.push(cur);
            cur = Vec::new();
            proof {
                assert(lines_of(out@) =~~= lines_of(prev_out) + seq![prev_cur]);
            }
        } else {
            cur.push(c);
        }
        proof {
            assert(split_lines(text@) =~~= lines_of(out@) + split_rest(cur@, text@.skip(i + 1)));
        }
        i = i + 1;
    }
    proof {
        assert(text@.skip(text@.len() as int) =~= Seq::<char>::empty());
    }
    if !cur.is_empty() {
        out.push(cur);
    }
    proof {
        assert(lines_of(out@) =~~= split_lines(text@));
    }
    out
}

impl Editor {
    /// Replace the buffer with the lines of `text` and associate `name`
    /// as the file path. An empty text yields one empty line; the cursor
    /// row is clamped into the new buffer, so the result is well formed
    /// whatever state the editor was in.
    pub fn load_text(&mut self, text: &Vec<char>, name: String)
        ensures
            final(self)@.lines == loaded_lines(text@),
            final(self)@.file_name == Some(name@),
            final(self)@.mode == old(self)@.mode,
            final(self)@.col == old(self)@.col,
            final(self)@.row == if old(self)@.row < loaded_lines(text@).len() {
                old(self)@.row
            } else {
                loaded_lines(text@).len() - 1
            },
            final(self)@.wf(),
    {
        let mut lines = split_text(text);
        if lines.is_empty() {
            proof {
                assert(lines_of(lines@).len() == 0);
            }
            lines.push(Vec::new());
            proof {
                assert(lines_of(lines@) =~~= loaded_lines(text@));
            }
        } else {
            proof {
                assert(lines_of(lines@) =~~= loaded_lines(text@));
            }
        }
        self.buffer = lines;
        let n = self.buffer.len();
        if self.row >= n {
            self.row = n - 1;
        }
        self.file_name = Some(name);
    }

    /// The exact character sequence that saving this buffer writes.
    pub fn buffer_text(&self) -> (r: Vec<char>)
        ensures
            r@ == serialize_lines(self@.lines),
    {
        serialize_buffer(&self.buffer)
    }
}

/// Reading one stored line: if `line` holds no newline, splitting
/// `line + '\n' + t` yields the partial line completed by `line`, then
/// the lines of `t`.
proof fn lemma_split_stored_line(cur: Seq<char>, line: Seq<char>, t: Seq<char>)
    requires
        newline_free(line),
    ensures
        split_rest(cur, line + seq!['\n'] + t) == seq![cur + line] + split_rest(
            Seq::empty(),
            t,
        ),
    decreases line.len(),
{
    let s = line + seq!['\n'] + t;
    if line.len() == 0 {
        assert(s[0] == '\n');
        assert(s.drop_first() =~= t);
        assert(cur + line =~= cur);
    } else {
        assert(s[0] == line[0]);
        assert(line[0] != '\n');
        assert(s.drop_first() =~= line.drop_first() + seq!['\n'] + t);
        lemma_split_stored_line(cur.push(line[0]), line.drop_first(), t);
        assert(cur.push(line[0]) + line.drop_first() =~= cur + line);
        assert(seq![cur.push(line[0]) + line.drop_first()] =~~= seq![cur + line]);
    }
}

/// Save-then-load round trip: serializing a buffer whose lines hold no
/// newlines and splitting the result gives back exactly those lines; for
/// a non-empty buffer, loading (which turns an empty file into one empty
/// line) gives them back too.
pub proof fn lemma_save_load_round_trip(ls: Seq<Seq<char>>)
    requires
        forall|i: int| 0 <= i < ls.len() ==> newline_free(#[trigger] ls[i]),
    ensures
        split_lines(serialize_lines(ls)) == ls,
        ls.len() >= 1 ==> loaded_lines(serialize_lines(ls)) == ls,
    decreases ls.len(),
{
    if ls.len() == 0 {
        assert(split_lines(serialize_lines(ls)) =~~= ls);
    } else {
        lemma_split_stored_line(Seq::empty(), ls[0], serialize_lines(ls.drop_first()));
        assert(forall|i: int|
            0 <= i < ls.drop_first().len() ==> newline_free(#[trigger] ls.drop_first()[i]));
        lemma_save_load_round_trip(ls.drop_first());
        assert(Seq::<char>::empty() + ls[0] =~= ls[0]);
        assert(seq![ls[0]] + ls.drop_first() =~= ls);
        assert(split_lines(serialize_lines(ls)) =~~= ls);
    }
}

} // verus!
