//! Single-line text input with a cursor.

use vstd::prelude::*;
use crate::text::{chars_of, string_of};

verus! {

fn inserted(v: &Vec<char>, at: usize, c: char) -> (r: Vec<char>)
    requires
        at <= v.len(),
    ensures
        r@ == v@.insert(at as int, c),
{
    let mut r: Vec<char> = Vec::new();
    let mut i: usize = 0;
    while i < v.len()
        invariant
            at <= v.len(),
            i <= v.len(),
            r@ == (if i <= at { v@.subrange(0, i as int) } else { v@.subrange(0, at as int).push(c)
                + v@.subrange(at as int, i as int) }),
        decreases v.len() - i,
    {
        if i == at {
            r.push(c);
            assert(v@.subrange(0, at as int).push(c) + v@.subrange(at as int, at as int) =~= v@.subrange(0, at as int).push(c));
        }
        r.push(v[i]);
        proof {
            if i < at {
                assert(v@.subrange(0, i + 1) =~= v@.subrange(0, i as int).push(v@[i as int]));
            } else {
                assert(v@.subrange(at as int, i + 1) =~= v@.subrange(at as int, i as int).push(v@[i as int]));
            }
        }
        i = i + 1;
    }
    if at == v.len() {
        r.push(c);
    }
    assert(r@ =~= v@.insert(at as int, c));
    r
}

fn removed(v: &Vec<char>, at: usize) -> (r: Vec<char>)
    requires
        at < v.len(),
    ensures
        r@ == v@.remove(at as int),
{
    let mut r: Vec<char> = Vec::new();
    let mut i: usize = 0;
    while i < v.len()
        invariant
            at < v.len(),
            i <= v.len(),
            r@ == (if i <= at { v@.subrange(0, i as int) } else { v@.subrange(0, at as int)
                + v@.subrange(at + 1, i as int) }),
        decreases v.len() - i,
    {
        if i != at {
            r.push(v[i]);
        }
        proof {
            if i < at {
                assert(v@.subrange(0, i + 1) =~= v@.subrange(0, i as int).push(v@[i as int]));
            } else if i == at {
                assert(v@.subrange(0, at as int) + v@.subrange(at + 1, at + 1) =~= v@.subrange(0, at as int));
            } else {
                assert(v@.subrange(at + 1, i + 1) =~= v@.subrange(at + 1, i as int).push(v@[i as int]));
            }
        }
        i = i + 1;
    }
    assert(r@ =~= v@.remove(at as int));
    r
}

/// The text of a single-line input and the cursor position, counted in
/// characters; the cursor never passes the end of the text.
#[derive(Debug)]
pub struct InputState {
    buffer: Vec<char>,
    cursor: usize,
}

/// The mathematical content of an [`InputState`].
pub struct InputView {
    pub text: Seq<char>,
    pub cursor: nat,
}

impl View for InputState {
    type V = InputView;

    closed spec fn view(&self) -> InputView {
        InputView { text: self.buffer@, cursor: self.cursor as nat }
    }
}

/// The cursor of every input lies within its text.
pub open spec fn input_wf(v: InputView) -> bool {
    v.cursor <= v.text.len()
}

impl InputState {
    #[verifier::type_invariant]
    closed spec fn cursor_in_text(&self) -> bool {
        self.cursor <= self.buffer.len()
    }

    /// An empty input.
    pub fn new() -> (r: InputState)
        ensures
            r@.text == Seq::<char>::empty(),
            r@.cursor == 0,
    {
        InputState { buffer: Vec::new(), cursor: 0 }
    }

    /// An input holding `value`, with the cursor at its end.
    pub fn with_value(value: &str) -> (r: InputState)
        ensures
            r@.text == value@,
            r@.cursor == value@.len(),
    {
        let buffer = chars_of(value);
        let cursor = buffer.len();
        InputState { buffer, cursor }
    }

    /// The current text.
    pub fn value(&self) -> (r: String)
        ensures
            r@ == self@.text,
    {
        string_of(&self.buffer)
    }

    /// The cursor position, in characters.
    pub fn cursor_position(&self) -> (r: usize)
        ensures
            r as nat == self@.cursor,
            input_wf(self@),
    {
        proof {
            use_type_invariant(self);
        }
        self.cursor
    }

    /// Empties the input.
    pub fn clear(&mut self)
        ensures
            final(self)@.text == Seq::<char>::empty(),
            final(self)@.cursor == 0,
    {
        self.cursor = 0;
        self.buffer = Vec::new();
    }

    /// Replaces the text; the cursor is placed at `cursor`, or at the end of
    /// the text when `cursor` lies beyond it.
    pub fn set_buffer(&mut self, buffer: String, cursor: usize)
        ensures
            final(self)@.text == buffer@,
            final(self)@.cursor == if cursor <= buffer@.len() {
                cursor as nat
            } else {
                buffer@.len()
            },
    {
        let chars = chars_of(buffer.as_str());
        let c = if cursor <= chars.len() {
            cursor
        } else {
            chars.len()
        };
        self.cursor = 0;
        self.buffer = chars;
        self.cursor = c;
    }

    /// Inserts `c` at the cursor and moves the cursor past it.
    pub fn insert_char(&mut self, c: char)
        ensures
            final(self)@.text == old(self)@.text.insert(old(self)@.cursor as int, c),
            final(self)@.cursor == old(self)@.cursor + 1,
    {
        proof {
            use_type_invariant(&*self);
        }
        let at = self.cursor;
        let b = inserted(&self.buffer, at, c);
        self.buffer = b;
        self.cursor = at + 1;
    }

    /// Deletes the character before the cursor, if any (backspace).
    pub fn delete_before_cursor(&mut self)
        ensures
            old(self)@.cursor > 0 ==> final(self)@.text == old(self)@.text.remove(
                old(self)@.cursor - 1,
            ) && final(self)@.cursor == old(self)@.cursor - 1,
            old(self)@.cursor == 0 ==> final(self)@ == old(self)@,
    {
        proof {
            use_type_invariant(&*self);
        }
        if self.cursor > 0 {
            let at = self.cursor - 1;
            self.cursor = at;
            let b = removed(&self.buffer, at);
            self.buffer = b;
        }
    }

    /// Deletes the character under the cursor, if any (delete).
    pub fn delete_after_cursor(&mut self)
        ensures
            old(self)@.cursor < old(self)@.text.len() ==> final(self)@.text == old(
                self,
            )@.text.remove(old(self)@.cursor as int) && final(self)@.cursor == old(self)@.cursor,
            old(self)@.cursor >= old(self)@.text.len() ==> final(self)@ == old(self)@,
    {
        proof {
            use_type_invariant(&*self);
        }
        if self.cursor < self.buffer.len() {
            let at = self.cursor;
            let b = removed(&self.buffer, at);
            self.buffer = b;
        }
    }

    /// Moves the cursor one character left, if possible.
    pub fn move_cursor_left(&mut self)
        ensures
            final(self)@.text == old(self)@.text,
            final(self)@.cursor == if old(self)@.cursor > 0 {
                (old(self)@.cursor - 1) as nat
            } else {
                0
            },
    {
        proof {
            use_type_invariant(&*self);
        }
        if self.cursor > 0 {
            self.cursor = self.cursor - 1;
        }
    }

    /// Moves the cursor one character right, if possible.
    pub fn move_cursor_right(&mut self)
        ensures
            final(self)@.text == old(self)@.text,
            final(self)@.cursor == if old(self)@.cursor < old(self)@.text.len() {
                old(self)@.cursor + 1
            } else {
                old(self)@.cursor
            },
    {
        proof {
            use_type_invariant(&*self);
        }
        if self.cursor < self.buffer.len() {
            self.cursor = self.cursor + 1;
        }
    }

    /// Moves the cursor to the start of the text.
    pub fn move_cursor_to_start(&mut self)
        ensures
            final(self)@.text == old(self)@.text,
            final(self)@.cursor == 0,
    {
        self.cursor = 0;
    }

    /// Moves the cursor to the end of the text.
    pub fn move_cursor_to_end(&mut self)
        ensures
            final(self)@.text == old(self)@.text,
            final(self)@.cursor == old(self)@.text.len(),
    {
        self.cursor = self.buffer.len();
    }
}

impl Default for InputState {
    fn default() -> (r: InputState)
        ensures
            r@.text == Seq::<char>::empty(),
            r@.cursor == 0,
    {
        InputState::new()
    }
}

} // verus!
