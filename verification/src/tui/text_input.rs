//! Single-line text input. The cursor is a character offset (not a byte
//! offset), so multi-byte characters edit as single units.

use vstd::prelude::*;
use crate::text::{string_of_range, chars_of, string_of};

verus! {

/// Single-line text input with a cursor.
pub struct TextInput {
    buffer: Vec<char>,
    /// Cursor position in characters (0 = before the first char).
    cursor: usize,
}

/// Mathematical model of a `TextInput`: its text and cursor.
pub struct TextInputView {
    pub text: Seq<char>,
    pub cursor: nat,
}

impl View for TextInput {
    type V = TextInputView;

    closed spec fn view(&self) -> TextInputView {
        TextInputView { text: self.buffer@, cursor: self.cursor as nat }
    }
}

/// The text after inserting `c` at the cursor, with the cursor after it.
pub open spec fn insert_spec(v: TextInputView, c: char) -> TextInputView {
    TextInputView { text: v.text.insert(v.cursor as int, c), cursor: v.cursor + 1 }
}

/// The text after deleting the character before the cursor; no change
/// with the cursor at the start.
pub open spec fn backspace_spec(v: TextInputView) -> TextInputView {
    if v.cursor == 0 {
        v
    } else {
        TextInputView { text: v.text.remove(v.cursor - 1), cursor: (v.cursor - 1) as nat }
    }
}

impl TextInput {
    /// The cursor never passes the end of the text.
    #[verifier::type_invariant]
    spec fn cursor_in_text(&self) -> bool {
        self.cursor <= self.buffer.len()
    }

    /// The text before the cursor.
    pub fn before_cursor(&self) -> (r: String)
        ensures
            r@ == self@.text.take(self@.cursor as int),
    {
        proof {
            use_type_invariant(self);
        }
        let r = string_of_range(&self.buffer, 0, self.cursor);
        assert(self.buffer@.subrange(0, self.cursor as int) =~= self.buffer@.take(
            self.cursor as int,
        ));
        r
    }

    /// The text from the cursor on.
    pub fn after_cursor(&self) -> (r: String)
        ensures
            r@ == self@.text.skip(self@.cursor as int),
    {
        proof {
            use_type_invariant(self);
        }
        let r = string_of_range(&self.buffer, self.cursor, self.buffer.len());
        assert(self.buffer@.subrange(self.cursor as int, self.buffer@.len() as int)
            =~= self.buffer@.skip(self.cursor as int));
        r
    }

    /// An empty input.
    pub fn new() -> (r: TextInput)
        ensures
            r@.text == Seq::<char>::empty(),
            r@.cursor == 0,
    {
        TextInput { buffer: Vec::new(), cursor: 0 }
    }

    /// An input holding `value`, the cursor at its end.
    pub fn with_value(value: &str) -> (r: TextInput)
        ensures
            r@.text == value@,
            r@.cursor == value@.len(),
    {
        let buffer = chars_of(value);
        let cursor = buffer.len();
        TextInput { buffer, cursor }
    }

    /// The text.
    pub fn value(&self) -> (r: String)
        ensures
            r@ == self@.text,
    {
        string_of(&self.buffer)
    }

    /// The cursor position in characters.
    pub fn cursor(&self) -> (r: usize)
        ensures
            r == self@.cursor,
            r <= self@.text.len(),
    {
        proof {
            use_type_invariant(self);
        }
        self.cursor
    }

    /// Is the text empty?
    pub fn is_empty(&self) -> (r: bool)
        ensures
            r == (self@.text.len() == 0),
    {
        self.buffer.len() == 0
    }

    /// The length of the text in characters.
    pub fn len_chars(&self) -> (r: usize)
        ensures
            r == self@.text.len(),
    {
        self.buffer.len()
    }

    /// Replace the text wholesale and move the cursor to its end.
    pub fn set_value(&mut self, value: &str)
        ensures
            final(self)@.text == value@,
            final(self)@.cursor == value@.len(),
    {
        let buffer = chars_of(value);
        let cursor = buffer.len();
        *self = TextInput { buffer, cursor };
    }

    /// Empty the text.
    pub fn clear(&mut self)
        ensures
            final(self)@.text == Seq::<char>::empty(),
            final(self)@.cursor == 0,
    {
        *self = TextInput { buffer: Vec::new(), cursor: 0 };
    }

    /// Insert `c` at the cursor and move the cursor after it.
    pub fn insert_char(&mut self, c: char)
        requires
            old(self)@.text.len() < usize::MAX,
        ensures
            final(self)@ == insert_spec(old(self)@, c),
            final(self)@.cursor <= final(self)@.text.len(),
    {
        proof {
            use_type_invariant(&*self);
        }
        let mut buffer = self.buffer.clone();
        let ghost b0 = self.buffer@;
        assert(buffer@ == b0);
        buffer.insert(self.cursor, c);
        let cursor = self.cursor + 1;
        *self = TextInput { buffer, cursor };
    }

    /// Delete the character immediately before the cursor. No-op with the
    /// cursor at the start.
    pub fn backspace(&mut self)
        ensures
            final(self)@ == backspace_spec(old(self)@),
            final(self)@.cursor <= final(self)@.text.len(),
    {
        proof {
            use_type_invariant(&*self);
        }
        if self.cursor == 0 {
            return;
        }
        let mut buffer = self.buffer.clone();
        let ghost b0 = self.buffer@;
        assert(buffer@ == b0);
        let cursor = self.cursor - 1;
        buffer.remove(cursor);
        *self = TextInput { buffer, cursor };
    }

    /// Move the cursor one character left, stopping at the start.
    pub fn move_left(&mut self)
        ensures
            final(self)@.cursor <= final(self)@.text.len(),
            final(self)@.text == old(self)@.text,
            final(self)@.cursor == if old(self)@.cursor > 0 {
                (old(self)@.cursor - 1) as nat
            } else {
                0
            },
    {
        proof {
            use_type_invariant(&*self);
        }
        if self.cursor > 0 {
            let buffer = self.buffer.clone();
            let cursor = self.cursor - 1;
            *self = TextInput { buffer, cursor };
        }
    }

    /// Move the cursor one character right, stopping at the end.
    pub fn move_right(&mut self)
        ensures
            final(self)@.cursor <= final(self)@.text.len(),
            final(self)@.text == old(self)@.text,
            final(self)@.cursor == if old(self)@.cursor < old(self)@.text.len() {
                old(self)@.cursor + 1
            } else {
                old(self)@.cursor
            },
    {
        proof {
            use_type_invariant(&*self);
        }
        if self.cursor < self.buffer.len() {
            let buffer = self.buffer.clone();
            let cursor = self.cursor + 1;
            *self = TextInput { buffer, cursor };
        }
    }

    /// Move the cursor to the start.
    pub fn move_home(&mut self)
        ensures
            final(self)@.text == old(self)@.text,
            final(self)@.cursor == 0,
    {
        let buffer = self.buffer.clone();
        *self = TextInput { buffer, cursor: 0 };
    }

    /// Move the cursor to the end.
    pub fn move_end(&mut self)
        ensures
            final(self)@.text == old(self)@.text,
            final(self)@.cursor == old(self)@.text.len(),
    {
        let buffer = self.buffer.clone();
        let cursor = buffer.len();
        *self = TextInput { buffer, cursor };
    }

    /// A copy of the input.
    pub fn copy(&self) -> (r: TextInput)
        ensures
            r@ == self@,
    {
        proof {
            use_type_invariant(self);
        }
        TextInput { buffer: self.buffer.clone(), cursor: self.cursor }
    }
}

impl Default for TextInput {
    fn default() -> (r: TextInput)
        ensures
            r@.text == Seq::<char>::empty(),
            r@.cursor == 0,
    {
        TextInput::new()
    }
}

/// Typing a character and deleting it again restores the input: text and
/// cursor.
pub proof fn lemma_backspace_undoes_insert(v: TextInputView, c: char)
    requires
        v.cursor <= v.text.len(),
    ensures
        backspace_spec(insert_spec(v, c)) == v,
{
    assert(v.text.insert(v.cursor as int, c).remove(v.cursor as int) =~= v.text);
}

} // verus!
