//! A sink that counts bytes and keeps none.
use crate::sink::{Sink, SinkFailure, SinkState};
use crate::text::{char_len_utf8, lemma_utf8_len_concat, str_len_utf8, utf8_len};
use vstd::prelude::*;

verus! {

/// A sink that discards what it is given and keeps the running number of
/// UTF-8 bytes. It has room for as many bytes as a `usize` can count.
pub struct Sizer {
    size: usize,
    seen: Ghost<Seq<char>>,
}

impl View for Sizer {
    type V = SinkState;

    closed spec fn view(&self) -> SinkState {
        SinkState { written: self.seen@, room: (usize::MAX - self.size) as nat }
    }
}

impl Sink for Sizer {
    fn write_str(&mut self, s: &str) -> (r: Result<(), SinkFailure>) {
        proof {
            use_type_invariant(&*self);
            lemma_utf8_len_concat(self.seen@, s@);
        }
        let n = str_len_utf8(s);
        if n > usize::MAX - self.size {
            Err(SinkFailure)
        } else {
            *self = Sizer { size: self.size + n, seen: Ghost(self.seen@ + s@) };
            Ok(())
        }
    }

    fn write_char(&mut self, c: char) -> (r: Result<(), SinkFailure>) {
        proof {
            use_type_invariant(&*self);
            lemma_utf8_len_concat(self.seen@, seq![c]);
        }
        let n = char_len_utf8(c);
        if n > usize::MAX - self.size {
            Err(SinkFailure)
        } else {
            *self = Sizer { size: self.size + n, seen: Ghost(self.seen@ + seq![c]) };
            Ok(())
        }
    }
}

impl Sizer {
    #[verifier::type_invariant]
    spec fn counts_what_was_seen(self) -> bool {
        self.size == utf8_len(self.seen@)
    }

    /// A sizer that has counted nothing.
    pub fn new() -> (sizer: Self)
        ensures
            sizer@.written == Seq::<char>::empty(),
            sizer@.room == usize::MAX,
    {
        Sizer { size: 0, seen: Ghost(Seq::empty()) }
    }

    /// The number of bytes of everything written so far.
    pub fn size(&self) -> (n: usize)
        ensures
            n == utf8_len(self@.written),
            n + self@.room == usize::MAX,
    {
        proof {
            use_type_invariant(self);
        }
        self.size
    }
}

impl Default for Sizer {
    fn default() -> (sizer: Self)
        ensures
            sizer@.written == Seq::<char>::empty(),
            sizer@.room == usize::MAX,
    {
        Self::new()
    }
}

} // verus!
