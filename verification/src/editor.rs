//! Single-line text editing with a character cursor, as used by the card
//! title editor and the explorer filter editor.

use vstd::prelude::*;

use crate::text::{chars_of, string_from_chars};

verus! {

/// The title editor of a card: the edited text and the cursor, counted in
/// characters from the start.
#[derive(Debug, Clone, PartialEq, Eq)]
pub struct InlineEditorState {
    pub card_id: String,
    pub buffer: String,
    pub cursor: usize,
}

/// The explorer filter editor: the edited query and the cursor.
#[derive(Debug, Clone, PartialEq, Eq)]
pub struct FilterEditorState {
    pub buffer: String,
    pub cursor: usize,
}

/// `s` with `c` inserted before position `i`.
pub open spec fn seq_insert(s: Seq<char>, i: int, c: char) -> Seq<char> {
    s.subrange(0, i) + seq![c] + s.subrange(i, s.len() as int)
}

/// `s` without the character at position `i`.
pub open spec fn seq_remove(s: Seq<char>, i: int) -> Seq<char> {
    s.subrange(0, i) + s.subrange(i + 1, s.len() as int)
}

fn insert_char(buffer: &String, at: usize, c: char) -> (r: String)
    requires
        at <= buffer@.len(),
    ensures
        r@ == seq_insert(buffer@, at as int, c),
        r@.len() <= usize::MAX,
{
    let mut cs = chars_of(buffer.as_str());
    cs.insert(at, c);
    let _n: usize = cs.len();
    assert(cs@ =~= seq_insert(buffer@, at as int, c));
    string_from_chars(&cs)
}

fn remove_char(buffer: &String, at: usize) -> (r: String)
    requires
        at < buffer@.len(),
    ensures
        r@ == seq_remove(buffer@, at as int),
{
    let mut cs = chars_of(buffer.as_str());
    let _ = cs.remove(at);
    assert(cs@ =~= seq_remove(buffer@, at as int));
    string_from_chars(&cs)
}

/// The number of characters of a text.
pub fn char_count(s: &String) -> (r: usize)
    ensures
        r == s@.len(),
{
    chars_of(s.as_str()).len()
}

impl InlineEditorState {
    /// The cursor lies within the text (at most at its end).
    pub open spec fn wf(&self) -> bool {
        self.cursor <= self.buffer@.len()
    }

    /// Starts editing `text` with the cursor at its end.
    pub fn new(card_id: String, text: String) -> (r: Self)
        ensures
            r.wf(),
            r.card_id == card_id,
            r.buffer@ == text@,
            r.cursor == text@.len(),
    {
        let cursor = char_count(&text);
        InlineEditorState { card_id, buffer: text, cursor }
    }

    /// Inserts a character at the cursor and moves the cursor past it.
    pub fn insert(&mut self, c: char)
        requires
            old(self).wf(),
        ensures
            final(self).wf(),
            final(self).card_id == old(self).card_id,
            final(self).buffer@ == seq_insert(old(self).buffer@, old(self).cursor as int, c),
            final(self).cursor == old(self).cursor + 1,
    {
        self.buffer = insert_char(&self.buffer, self.cursor, c);
        self.cursor = self.cursor + 1;
    }

    /// Deletes the character before the cursor; nothing at the start.
    pub fn backspace(&mut self)
        requires
            old(self).wf(),
        ensures
            final(self).wf(),
            final(self).card_id == old(self).card_id,
            old(self).cursor == 0 ==> *final(self) == *old(self),
            old(self).cursor > 0 ==> final(self).buffer@ == seq_remove(old(self).buffer@, old(self).cursor - 1)
                && final(self).cursor == old(self).cursor - 1,
    {
        if self.cursor == 0 {
            return;
        }
        let index = self.cursor - 1;
        self.buffer = remove_char(&self.buffer, index);
        self.cursor = index;
    }

    /// Deletes the character under the cursor; nothing at or past the end.
    pub fn delete(&mut self)
        ensures
            old(self).wf() ==> final(self).wf(),
            old(self).cursor >= old(self).buffer@.len() ==> *final(self) == *old(self),
            old(self).cursor < old(self).buffer@.len() ==> final(self).buffer@ == seq_remove(
                old(self).buffer@,
                old(self).cursor as int,
            ) && final(self).cursor == old(self).cursor && final(self).card_id == old(self).card_id,
    {
        let count = char_count(&self.buffer);
        if self.cursor >= count {
            return;
        }
        self.buffer = remove_char(&self.buffer, self.cursor);
    }

    /// Moves the cursor one character left, stopping at the start.
    pub fn move_left(&mut self)
        ensures
            old(self).wf() ==> final(self).wf(),
            final(self).buffer == old(self).buffer,
            final(self).card_id == old(self).card_id,
            final(self).cursor == if old(self).cursor == 0 { 0 } else { (old(self).cursor - 1) as usize },
    {
        if self.cursor > 0 {
            self.cursor = self.cursor - 1;
        }
    }

    /// Moves the cursor one character right, stopping at the end (a cursor
    /// past the end moves to the end).
    pub fn move_right(&mut self)
        ensures
            final(self).wf(),
            final(self).buffer == old(self).buffer,
            final(self).card_id == old(self).card_id,
            final(self).cursor == if old(self).cursor >= old(self).buffer@.len() {
                old(self).buffer@.len() as int
            } else {
                old(self).cursor + 1
            },
    {
        let count = char_count(&self.buffer);
        if self.cursor < count {
            self.cursor = self.cursor + 1;
        } else {
            self.cursor = count;
        }
    }

    /// Moves the cursor to the start.
    pub fn move_home(&mut self)
        ensures
            final(self).wf(),
            final(self).buffer == old(self).buffer,
            final(self).card_id == old(self).card_id,
            final(self).cursor == 0,
    {
        self.cursor = 0;
    }

    /// Moves the cursor to the end.
    pub fn move_end(&mut self)
        ensures
            final(self).wf(),
            final(self).buffer == old(self).buffer,
            final(self).card_id == old(self).card_id,
            final(self).cursor == final(self).buffer@.len(),
    {
        self.cursor = char_count(&self.buffer);
    }
}

impl FilterEditorState {
    /// The cursor lies within the text (at most at its end).
    pub open spec fn wf(&self) -> bool {
        self.cursor <= self.buffer@.len()
    }

    /// Starts editing a query with the cursor at its end.
    pub fn new(query: String) -> (r: Self)
        ensures
            r.wf(),
            r.buffer@ == query@,
            r.cursor == query@.len(),
    {
        let cursor = char_count(&query);
        FilterEditorState { buffer: query, cursor }
    }

    /// Inserts a character at the cursor (a cursor past the end counts as at
    /// the end) and moves the cursor past it.
    pub fn insert(&mut self, c: char)
        ensures
            final(self).wf(),
            ({
                let at = if old(self).cursor <= old(self).buffer@.len() {
                    old(self).cursor as int
                } else {
                    old(self).buffer@.len() as int
                };
                final(self).buffer@ == seq_insert(old(self).buffer@, at, c) && final(self).cursor == at + 1
            }),
    {
        let count = char_count(&self.buffer);
        let at = if self.cursor <= count { self.cursor } else { count };
        self.buffer = insert_char(&self.buffer, at, c);
        self.cursor = at + 1;
    }

    /// Deletes the character before the cursor; nothing at the start.
    pub fn backspace(&mut self)
        requires
            old(self).wf(),
        ensures
            final(self).wf(),
            old(self).cursor == 0 ==> *final(self) == *old(self),
            old(self).cursor > 0 ==> final(self).buffer@ == seq_remove(old(self).buffer@, old(self).cursor - 1)
                && final(self).cursor == old(self).cursor - 1,
    {
        if self.cursor == 0 {
            return;
        }
        let index = self.cursor - 1;
        self.buffer = remove_char(&self.buffer, index);
        self.cursor = index;
    }

    /// Deletes the character under the cursor; nothing at or past the end.
    pub fn delete(&mut self)
        ensures
            old(self).wf() ==> final(self).wf(),
            old(self).cursor >= old(self).buffer@.len() ==> *final(self) == *old(self),
            old(self).cursor < old(self).buffer@.len() ==> final(self).buffer@ == seq_remove(
                old(self).buffer@,
                old(self).cursor as int,
            ) && final(self).cursor == old(self).cursor,
    {
        let count = char_count(&self.buffer);
        if self.cursor >= count {
            return;
        }
        self.buffer = remove_char(&self.buffer, self.cursor);
    }

    /// Moves the cursor one character left, stopping at the start.
    pub fn move_left(&mut self)
        ensures
            old(self).wf() ==> final(self).wf(),
            final(self).buffer == old(self).buffer,
            final(self).cursor == if old(self).cursor == 0 { 0 } else { (old(self).cursor - 1) as usize },
    {
        if self.cursor > 0 {
            self.cursor = self.cursor - 1;
        }
    }

    /// Moves the cursor one character right, stopping at the end (a cursor
    /// past the end moves to the end).
    pub fn move_right(&mut self)
        ensures
            final(self).wf(),
            final(self).buffer == old(self).buffer,
            final(self).cursor == if old(self).cursor >= old(self).buffer@.len() {
                old(self).buffer@.len() as int
            } else {
                old(self).cursor + 1
            },
    {
        let count = char_count(&self.buffer);
        if self.cursor < count {
            self.cursor = self.cursor + 1;
        } else {
            self.cursor = count;
        }
    }

    /// Moves the cursor to the start.
    pub fn move_home(&mut self)
        ensures
            final(self).wf(),
            final(self).buffer == old(self).buffer,
            final(self).cursor == 0,
    {
        self.cursor = 0;
    }

    /// Moves the cursor to the end.
    pub fn move_end(&mut self)
        ensures
            final(self).wf(),
            final(self).buffer == old(self).buffer,
            final(self).cursor == final(self).buffer@.len(),
    {
        self.cursor = char_count(&self.buffer);
    }

    /// Empties the query and puts the cursor at the start.
    pub fn clear(&mut self)
        ensures
            final(self).wf(),
            final(self).buffer@.len() == 0,
            final(self).cursor == 0,
    {
        self.buffer = String::new();
        self.cursor = 0;
    }
}

/// Backspace right after typing a character restores the text and the
/// cursor: the editor's insert and backspace undo each other.
pub proof fn law_backspace_undoes_insert(s: Seq<char>, cursor: int, c: char)
    requires
        0 <= cursor <= s.len(),
    ensures
        seq_remove(seq_insert(s, cursor, c), cursor) == s,
{
    assert(seq_remove(seq_insert(s, cursor, c), cursor) =~= s);
}

} // verus!
