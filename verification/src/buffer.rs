//! The lookahead buffer: a character source that takes characters back.

use vstd::prelude::*;

verus! {

/// A character source with pushback.
///
/// The view is the sequence of characters that successive calls of
/// [`Buffer::next`] will return: the characters that were pushed back, most
/// recent first, followed by what is left of the source.
pub struct Buffer {
    source: Vec<char>,
    position: usize,
    buffer: Vec<char>,
}

impl View for Buffer {
    type V = Seq<char>;

    closed spec fn view(&self) -> Seq<char> {
        self.buffer@.reverse() + self.unread()
    }
}

impl Buffer {
    /// What is left of the source.
    spec fn unread(&self) -> Seq<char> {
        if self.position <= self.source@.len() {
            self.source@.skip(self.position as int)
        } else {
            Seq::empty()
        }
    }

    /// The pending characters are those of two vectors at most.
    pub proof fn lemma_length_bounded(&self)
        ensures
            self@.len() <= 2 * usize::MAX,
    {
        broadcast use vstd::std_specs::vec::group_vec_axioms;

        assert(self.source@.len() == self.source.len());
        assert(self.buffer@.len() == self.buffer.len());
    }

    /// A buffer over `source`, with nothing pushed back.
    pub fn new(source: Vec<char>) -> (buffer: Buffer)
        ensures
            buffer@ == source@,
    {
        let buffer = Buffer { source, position: 0, buffer: Vec::new() };
        buffer
    }

    /// The next character: the one pushed back last if there is one, else the
    /// next one of the source; `None` once both are used up.
    pub fn next(&mut self) -> (c: Option<char>)
        ensures
            old(self)@.len() == 0 ==> c is None && final(self)@ == old(self)@,
            old(self)@.len() > 0 ==> c == Some(old(self)@[0]) && final(self)@ == old(
                self,
            )@.drop_first(),
    {
        if self.buffer.len() > 0 {
            let c = self.buffer.pop();
            c
        } else if self.position < self.source.len() {
            let c = self.source[self.position];
            self.position = self.position + 1;
            Some(c)
        } else {
            None
        }
    }

    /// Pushes `c` back: the next call of [`Buffer::next`] returns it, and the
    /// characters that were pending follow unchanged.
    pub fn back(&mut self, c: char)
        ensures
            final(self)@ == seq![c] + old(self)@,
    {
        self.buffer.push(c);
    }
}

} // verus!
