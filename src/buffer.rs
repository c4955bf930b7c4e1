use vstd::prelude::*;
use crossterm::event::KeyCode;
use crate::text::{
    column_of, lemma_line_of_start, lemma_line_start_bounded, lemma_line_start_step,
    lemma_newlines_prefix, lemma_newlines_take_all, line_length, line_of, line_start, newlines,
    rope_char_to_line, rope_from_str, rope_insert, rope_insert_char, rope_len_chars,
    rope_char, rope_line_to_char, rope_new, rope_remove, rope_text, rope_to_string,
};

verus! {

/// A selected range, kept as entered: `start` may lie after `end`.
#[derive(Clone, Copy, PartialEq, Eq, Structural, Debug)]
pub struct Selection {
    pub start: usize,
    pub end: usize,
}

impl Selection {
    /// The range with its ends in order.
    pub fn normalized(&self) -> (r: (usize, usize))
        ensures
            r.0 <= r.1,
            r.0 == if self.start <= self.end { self.start } else { self.end },
            r.1 == if self.start <= self.end { self.end } else { self.start },
    {
        if self.start <= self.end {
            (self.start, self.end)
        } else {
            (self.end, self.start)
        }
    }
}

/// A cursor step.
#[derive(Clone, Copy, PartialEq, Eq, Structural, Debug)]
pub enum Movement {
    Up,
    Left,
    Right,
    Down,
}

/// crossterm's media key codes, held opaque.
#[verifier::external_type_specification]
#[verifier::external_body]
pub struct ExMediaKeyCode(crossterm::event::MediaKeyCode);

/// crossterm's modifier key codes, held opaque.
#[verifier::external_type_specification]
#[verifier::external_body]
pub struct ExModifierKeyCode(crossterm::event::ModifierKeyCode);

/// crossterm's `KeyCode`, a plain enum whose variants Verus reads as declared.
#[verifier::external_type_specification]
pub struct ExKeyCode(crossterm::event::KeyCode);

impl Movement {
    /// The step that an arrow key asks for; other keys ask for none.
    pub fn from_key_code(key_code: KeyCode) -> (r: Option<Movement>)
        ensures
            r == match key_code {
                KeyCode::Up => Some(Movement::Up),
                KeyCode::Left => Some(Movement::Left),
                KeyCode::Right => Some(Movement::Right),
                KeyCode::Down => Some(Movement::Down),
                _ => None::<Movement>,
            },
    {
        match key_code {
            KeyCode::Up => Some(Movement::Up),
            KeyCode::Left => Some(Movement::Left),
            KeyCode::Right => Some(Movement::Right),
            KeyCode::Down => Some(Movement::Down),
            _ => None,
        }
    }
}

/// Why a buffer could not be saved.
#[derive(Clone, Copy, PartialEq, Eq, Structural, Debug)]
pub enum SaveError {
    /// The buffer has no file behind it.
    NoDestination,
}

/// What a buffer holds, seen as plain values.
pub struct BufferView {
    pub content: Seq<char>,
    pub position: nat,
    pub selection: Option<Selection>,
    pub file: Option<Seq<char>>,
    pub modified: bool,
    /// Column that vertical moves aim for, kept across consecutive ones.
    pub preferred_column: Option<nat>,
}

/// The cursor lies within the text or just past its end.
pub open spec fn cursor_in_range(v: BufferView) -> bool {
    v.position <= v.content.len()
}

pub open spec fn insert_text_step(v: BufferView, t: Seq<char>) -> BufferView {
    if t.len() == 0 {
        v
    } else {
        BufferView {
            content: v.content.take(v.position as int) + t + v.content.skip(v.position as int),
            position: v.position + t.len(),
            modified: true,
            preferred_column: None,
            ..v
        }
    }
}

pub open spec fn insert_char_step(v: BufferView, c: char) -> BufferView {
    BufferView {
        content: v.content.insert(v.position as int, c),
        position: v.position + 1,
        modified: true,
        preferred_column: None,
        ..v
    }
}

pub open spec fn delete_step(v: BufferView) -> BufferView {
    if v.position == 0 {
        v
    } else {
        BufferView {
            content: v.content.remove(v.position - 1),
            position: (v.position - 1) as nat,
            modified: true,
            preferred_column: None,
            ..v
        }
    }
}

/// The cursor goes to line `target`, as near to the aimed-for column as that line allows.
pub open spec fn vertical_step(v: BufferView, target: nat) -> BufferView {
    let column: nat = match v.preferred_column {
        Some(c) => c,
        None => column_of(v.content, v.position) as nat,
    };
    let length = line_length(v.content, target);
    BufferView {
        position: (line_start(v.content, target) + if column <= length {
            column as int
        } else {
            length
        }) as nat,
        preferred_column: Some(column),
        ..v
    }
}

pub open spec fn move_step(v: BufferView, m: Movement) -> BufferView {
    let line = line_of(v.content, v.position);
    match m {
        Movement::Left => if v.position == 0 {
            v
        } else {
            BufferView { position: (v.position - 1) as nat, preferred_column: None, ..v }
        },
        Movement::Right => if v.position >= v.content.len() {
            v
        } else {
            BufferView { position: v.position + 1, preferred_column: None, ..v }
        },
        Movement::Up => if line == 0 {
            v
        } else {
            vertical_step(v, (line - 1) as nat)
        },
        Movement::Down => if line >= newlines(v.content) {
            v
        } else {
            vertical_step(v, line + 1)
        },
    }
}

/// A text being edited, with its cursor. Lines end at `'\n'` only.
pub struct Buffer {
    text: ropey::Rope,
    file: Option<String>,
    position: usize,
    selection: Option<Selection>,
    modified: bool,
    preferred_column: Option<usize>,
}

impl View for Buffer {
    type V = BufferView;

    closed spec fn view(&self) -> BufferView {
        BufferView {
            content: rope_text(self.text),
            position: self.position as nat,
            selection: self.selection,
            file: match self.file {
                Some(f) => Some(f@),
                None => None,
            },
            modified: self.modified,
            preferred_column: match self.preferred_column {
                Some(c) => Some(c as nat),
                None => None,
            },
        }
    }
}

impl Buffer {
    /// The buffer's state is consistent: its cursor lies in the text.
    pub closed spec fn wf(&self) -> bool {
        self.position <= rope_text(self.text).len()
    }

    /// What an empty buffer holds.
    pub open spec fn empty_view() -> BufferView {
        BufferView {
            content: Seq::empty(),
            position: 0,
            selection: None,
            file: None,
            modified: false,
            preferred_column: None,
        }
    }

    /// An unnamed buffer with no text.
    pub fn empty() -> (r: Buffer)
        ensures
            r.wf(),
            r@ == Buffer::empty_view(),
    {
        Buffer {
            text: rope_new(),
            file: None,
            position: 0,
            selection: None,
            modified: false,
            preferred_column: None,
        }
    }

    /// A buffer holding `text`, read from the file at `path`.
    pub fn from_file_text(path: String, text: &str) -> (r: Buffer)
        ensures
            r.wf(),
            r@ == (BufferView {
                content: text@,
                position: 0,
                selection: None,
                file: Some(path@),
                modified: false,
                preferred_column: None,
            }),
    {
        Buffer {
            text: rope_from_str(text),
            file: Some(path),
            position: 0,
            selection: None,
            modified: false,
            preferred_column: None,
        }
    }

    /// The whole text.
    pub fn text(&self) -> (r: String)
        ensures
            r@ == self@.content,
    {
        rope_to_string(&self.text)
    }

    /// Number of characters in the text.
    pub fn len_chars(&self) -> (r: usize)
        ensures
            r == self@.content.len(),
    {
        rope_len_chars(&self.text)
    }

    /// The cursor offset.
    pub fn position(&self) -> (r: usize)
        ensures
            r == self@.position,
    {
        self.position
    }

    pub fn selection(&self) -> (r: Option<Selection>)
        ensures
            r == self@.selection,
    {
        self.selection
    }

    pub fn is_modified(&self) -> (r: bool)
        ensures
            r == self@.modified,
    {
        self.modified
    }

    /// Path of the file behind the buffer, if any.
    pub fn file(&self) -> (r: Option<String>)
        ensures
            r is Some <==> self@.file is Some,
            r is Some ==> r->Some_0@ == self@.file->Some_0,
    {
        match &self.file {
            Some(f) => Some(f.clone()),
            None => None,
        }
    }

    /// Line that holds offset `pos`.
    pub fn line_of(&self, pos: usize) -> (r: usize)
        requires
            self.wf(),
            pos <= self@.content.len(),
        ensures
            r == line_of(self@.content, pos as nat),
    {
        rope_char_to_line(&self.text, pos)
    }

    /// Offset where line `line` starts; for one past the last line, the length.
    pub fn offset_of_line_start(&self, line: usize) -> (r: usize)
        requires
            self.wf(),
            line <= newlines(self@.content) + 1,
        ensures
            r == line_start(self@.content, line as nat),
    {
        rope_line_to_char(&self.text, line)
    }

    /// Characters on line `line`, its line feed not counted.
    pub fn line_length(&self, line: usize) -> (r: usize)
        requires
            self.wf(),
            line <= newlines(self@.content),
        ensures
            r == line_length(self@.content, line as nat),
            line_start(self@.content, line as nat) + r <= self@.content.len(),
    {
        let ghost s = rope_text(self.text);
        let len = rope_len_chars(&self.text);
        let last = rope_char_to_line(&self.text, len);
        proof {
            lemma_newlines_take_all(s);
            lemma_line_start_bounded(s, line as nat);
        }
        let start = rope_line_to_char(&self.text, line);
        if line < last {
            proof {
                lemma_line_start_step(s, line as nat);
                lemma_line_start_bounded(s, (line + 1) as nat);
            }
            rope_line_to_char(&self.text, line + 1) - 1 - start
        } else {
            len - start
        }
    }

    /// The character at offset `pos`.
    pub fn char_at(&self, pos: usize) -> (r: char)
        requires
            self.wf(),
            pos < self@.content.len(),
        ensures
            r == self@.content[pos as int],
    {
        rope_char(&self.text, pos)
    }

    /// Column of offset `pos` within its line.
    pub fn column_of(&self, pos: usize) -> (r: usize)
        requires
            self.wf(),
            pos <= self@.content.len(),
        ensures
            r == column_of(self@.content, pos as nat),
    {
        let line = rope_char_to_line(&self.text, pos);
        proof {
            lemma_line_of_start(rope_text(self.text), pos as nat);
            lemma_newlines_prefix(rope_text(self.text), pos as nat);
        }
        pos - rope_line_to_char(&self.text, line)
    }

    /// Line of the cursor.
    pub fn get_line(&self) -> (r: usize)
        requires
            self.wf(),
        ensures
            r == line_of(self@.content, self@.position),
    {
        self.line_of(self.position)
    }

    /// Column of the cursor.
    pub fn get_column(&self) -> (r: usize)
        requires
            self.wf(),
        ensures
            r == column_of(self@.content, self@.position),
    {
        self.column_of(self.position)
    }
    /// Inserts `text` at the cursor and moves the cursor past it; an empty
    /// text changes nothing.
    pub fn insert(&mut self, text: &str)
        requires
            old(self).wf(),
        ensures
            final(self).wf(),
            final(self)@ == insert_text_step(old(self)@, text@),
    {
        if text.is_empty() {
            return ;
        }
        let p = self.position;
        let before = rope_len_chars(&self.text);
        rope_insert(&mut self.text, p, text);
        let after = rope_len_chars(&self.text);
        self.position = p + (after - before);
        self.modified = true;
        self.preferred_column = None;
        assert(self@.content =~= insert_text_step(old(self)@, text@).content);
    }

    /// Inserts `character` at the cursor; the cursor moves by one character.
    pub fn insert_character(&mut self, character: char)
        requires
            old(self).wf(),
        ensures
            final(self).wf(),
            final(self)@ == insert_char_step(old(self)@, character),
    {
        let p = self.position;
        rope_insert_char(&mut self.text, p, character);
        let after = rope_len_chars(&self.text);
        assert(p < after);
        self.position = p + 1;
        self.modified = true;
        self.preferred_column = None;
    }

    /// Removes the character before the cursor; at offset 0 nothing happens.
    pub fn delete_character(&mut self)
        requires
            old(self).wf(),
        ensures
            final(self).wf(),
            final(self)@ == delete_step(old(self)@),
    {
        if self.position == 0 {
            return ;
        }
        let p = self.position - 1;
        rope_remove(&mut self.text, p, p + 1);
        self.position = p;
        self.modified = true;
        self.preferred_column = None;
        assert(self@.content =~= old(self)@.content.remove(p as int));
    }

    /// Moves the cursor one step, clamped at the text's bounds.
    pub fn handle_movement(&mut self, movement: Movement)
        requires
            old(self).wf(),
        ensures
            final(self).wf(),
            final(self)@ == move_step(old(self)@, movement),
    {
        match movement {
            Movement::Left => {
                if self.position > 0 {
                    self.position = self.position - 1;
                    self.preferred_column = None;
                }
            },
            Movement::Right => {
                if self.position < rope_len_chars(&self.text) {
                    self.position = self.position + 1;
                    self.preferred_column = None;
                }
            },
            Movement::Up => self.move_vertically(true),
            Movement::Down => self.move_vertically(false),
        }
    }

    fn move_vertically(&mut self, up: bool)
        requires
            old(self).wf(),
        ensures
            final(self).wf(),
            final(self)@ == move_step(
                old(self)@,
                if up {
                    Movement::Up
                } else {
                    Movement::Down
                },
            ),
    {
        let ghost s = rope_text(self.text);
        let len = rope_len_chars(&self.text);
        let line = rope_char_to_line(&self.text, self.position);
        let last = rope_char_to_line(&self.text, len);
        proof {
            lemma_newlines_take_all(s);
            lemma_newlines_prefix(s, self.position as nat);
            lemma_line_of_start(s, self.position as nat);
        }
        if (up && line == 0) || (!up && line >= last) {
            return ;
        }
        let target = if up {
            line - 1
        } else {
            line + 1
        };
        let start_of_line = rope_line_to_char(&self.text, line);
        let column = match self.preferred_column {
            Some(c) => c,
            None => self.position - start_of_line,
        };
        let start = rope_line_to_char(&self.text, target);
        let length = self.line_length(target);
        self.position = start + if column <= length {
            column
        } else {
            length
        };
        self.preferred_column = Some(column);
    }

    /// Where and what to write for a save: the file's path and the whole text.
    /// A buffer with no file behind it cannot be saved.
    pub fn save_request(&self) -> (r: Result<(String, String), SaveError>)
        ensures
            self@.file is None <==> r == Err::<(String, String), SaveError>(SaveError::NoDestination),
            r is Ok ==> Some(r->Ok_0.0@) == self@.file && r->Ok_0.1@ == self@.content,
    {
        match &self.file {
            Some(path) => Ok((path.clone(), rope_to_string(&self.text))),
            None => Err(SaveError::NoDestination),
        }
    }

    /// Records that the text now stands on disk.
    pub fn mark_saved(&mut self)
        requires
            old(self).wf(),
        ensures
            final(self).wf(),
            final(self)@ == (BufferView { modified: false, ..old(self)@ }),
    {
        self.modified = false;
    }
}

/// Every buffer keeps its cursor within the text or just past its end.
pub proof fn lemma_buffer_cursor_in_range(b: &Buffer)
    requires
        b.wf(),
    ensures
        cursor_in_range(b@),
{
}

/// Insertions, deletions and moves all keep the cursor within the text.
pub proof fn lemma_steps_keep_cursor_in_range(v: BufferView, t: Seq<char>, c: char, m: Movement)
    requires
        cursor_in_range(v),
    ensures
        cursor_in_range(insert_text_step(v, t)),
        cursor_in_range(insert_char_step(v, c)),
        cursor_in_range(delete_step(v)),
        cursor_in_range(move_step(v, m)),
{
    let s = v.content;
    let line = line_of(s, v.position);
    lemma_newlines_prefix(s, v.position);
    if m == Movement::Up && line != 0 {
        lemma_line_start_bounded(s, (line - 1) as nat);
        lemma_vertical_in_range(v, (line - 1) as nat);
    }
    if m == Movement::Down && line < newlines(s) {
        lemma_vertical_in_range(v, line + 1);
    }
}

proof fn lemma_vertical_in_range(v: BufferView, target: nat)
    requires
        target <= newlines(v.content),
    ensures
        cursor_in_range(vertical_step(v, target)),
{
    let s = v.content;
    lemma_line_start_bounded(s, target);
    if target < newlines(s) {
        lemma_line_start_step(s, target);
        lemma_line_start_bounded(s, target + 1);
    }
}

/// Typing a character and then deleting backwards gives back the text and
/// the cursor as they were.
pub proof fn lemma_insert_then_delete(v: BufferView, c: char)
    requires
        cursor_in_range(v),
    ensures
        delete_step(insert_char_step(v, c)).content == v.content,
        delete_step(insert_char_step(v, c)).position == v.position,
{
    assert(v.content.insert(v.position as int, c).remove(v.position as int) =~= v.content);
}

/// Moving left at the start and right at the end leave the buffer as it was.
pub proof fn lemma_moves_clamped_at_bounds(v: BufferView)
    ensures
        v.position == 0 ==> move_step(v, Movement::Left) == v,
        v.position == v.content.len() ==> move_step(v, Movement::Right) == v,
{
}

/// The start of the cursor's line plus its column is the cursor offset.
pub proof fn lemma_line_column_round_trip(s: Seq<char>, p: nat)
    requires
        p <= s.len(),
    ensures
        column_of(s, p) >= 0,
        line_start(s, line_of(s, p)) + column_of(s, p) == p,
{
    lemma_line_of_start(s, p);
}

} // verus!
