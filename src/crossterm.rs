//! A buffering writer in front of a terminal: bytes are collected and sent
//! to the terminal as text in one batch on flush.
use vstd::prelude::*;
use vstd::utf8::{decode_utf8, valid_utf8};

verus! {

/// The buffered bytes did not form valid UTF-8 text.
#[derive(Debug, Clone, Copy, PartialEq, Eq, Structural)]
pub struct InvalidUtf8;

/// Relies on std's `String::from_utf8`: it returns the decoded text when the
/// bytes are valid UTF-8 and an error otherwise.
#[verifier::external_body]
fn text_from_utf8(bytes: Vec<u8>) -> (r: Option<String>)
    ensures
        r is Some <==> valid_utf8(bytes@),
        r is Some ==> r->0@ == decode_utf8(bytes@),
{
    String::from_utf8(bytes).ok()
}

/// A writer for a terminal of type `T` that batches what is written and
/// hands it over as one string per flush.
pub struct XtermJsCrosstermBackend<T> {
    /// The terminal written to.
    pub terminal: T,
    buffer: Vec<u8>,
}

impl<T> XtermJsCrosstermBackend<T> {
    /// The terminal written to.
    pub closed spec fn target(&self) -> T {
        self.terminal
    }

    /// The bytes written and not yet flushed.
    pub closed spec fn buffered(&self) -> Seq<u8> {
        self.buffer@
    }

    /// Creates a backend with an empty buffer.
    pub fn new(terminal: T) -> (r: Self)
        ensures
            r.target() == terminal,
            r.buffered() == Seq::<u8>::empty(),
    {
        Self::new_with_capacity(terminal, 0)
    }

    /// Creates a backend with an empty buffer that has room for `capacity`
    /// bytes before it grows.
    pub fn new_with_capacity(terminal: T, capacity: usize) -> (r: Self)
        ensures
            r.target() == terminal,
            r.buffered() == Seq::<u8>::empty(),
    {
        XtermJsCrosstermBackend { terminal, buffer: Vec::with_capacity(capacity) }
    }

    /// Appends `buf` to the buffer and returns how many bytes were taken,
    /// which is all of them.
    pub fn write(&mut self, buf: &[u8]) -> (r: usize)
        ensures
            r == buf@.len(),
            final(self).buffered() == old(self).buffered() + buf@,
            final(self).target() == old(self).target(),
    {
        let mut i: usize = 0;
        while i < buf.len()
            invariant
                0 <= i <= buf@.len(),
                self.buffer@ == old(self).buffer@ + buf@.take(i as int),
                self.terminal == old(self).terminal,
            decreases buf@.len() - i,
        {
            self.buffer.push(buf[i]);
            assert(buf@.take(i as int + 1) == buf@.take(i as int).push(buf@[i as int]));
            i = i + 1;
        }
        assert(buf@.take(buf@.len() as int) == buf@);
        buf.len()
    }

    /// Empties the buffer and returns its contents as the text to write to
    /// the terminal, or an error when they are not valid UTF-8. The buffer
    /// is emptied either way.
    pub fn flush(&mut self) -> (r: Result<String, InvalidUtf8>)
        ensures
            final(self).buffered() == Seq::<u8>::empty(),
            final(self).target() == old(self).target(),
            r is Ok <==> valid_utf8(old(self).buffered()),
            r is Ok ==> r->Ok_0@ == decode_utf8(old(self).buffered()),
    {
        let mut taken: Vec<u8> = Vec::new();
        std::mem::swap(&mut taken, &mut self.buffer);
        match text_from_utf8(taken) {
            Some(s) => Ok(s),
            None => Err(InvalidUtf8),
        }
    }

    /// Flushes the buffer, then passes `commands` on unbuffered. Returns the
    /// texts to write to the terminal in order: the flushed buffer, then the
    /// commands. When the buffer is not valid UTF-8 nothing is written and
    /// the commands are dropped.
    pub fn write_immediately(&mut self, commands: String) -> (r: Result<Vec<String>, InvalidUtf8>)
        ensures
            final(self).buffered() == Seq::<u8>::empty(),
            final(self).target() == old(self).target(),
            r is Ok <==> valid_utf8(old(self).buffered()),
            r is Ok ==> r->Ok_0@.len() == 2 && r->Ok_0@[0]@ == decode_utf8(old(self).buffered())
                && r->Ok_0@[1] == commands,
    {
        let flushed = self.flush()?;
        let mut out: Vec<String> = Vec::new();
        out.push(flushed);
        out.push(commands);
        Ok(out)
    }
}

} // verus!
