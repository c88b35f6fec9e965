//! Sinks: destinations that accept text and may refuse it.
//!
//! A sink is modelled by the text it has accepted and by the number of bytes
//! it can still take. A write succeeds exactly when it fits, and a write that
//! is refused leaves the sink as it was.
use crate::text::{
    char_len_utf8, is_prefix, lemma_utf8_len_concat, lemma_utf8_len_prefix, str_len_utf8, utf8_len,
};
use vstd::prelude::*;
use vstd::string::StringExecFns;

verus! {

/// The destination could not accept more bytes.
#[derive(Clone, Copy, Debug, PartialEq, Eq)]
pub struct SinkFailure;

/// What a sink holds, as far as rendering is concerned.
pub struct SinkState {
    /// The text accepted so far.
    pub written: Seq<char>,
    /// The number of bytes that can still be accepted.
    pub room: nat,
}

/// `text` fitted into `pre` and was appended, giving `post`.
pub open spec fn emitted(pre: SinkState, post: SinkState, text: Seq<char>) -> bool {
    &&& utf8_len(text) <= pre.room
    &&& post.written == pre.written + text
    &&& post.room == pre.room - utf8_len(text)
}

/// The outcome of one write of `text`: all of it is appended, or, where it
/// does not fit, the write fails and nothing changes.
pub open spec fn wrote(
    pre: SinkState,
    post: SinkState,
    text: Seq<char>,
    r: Result<(), SinkFailure>,
) -> bool {
    match r {
        Ok(_) => emitted(pre, post, text),
        Err(_) => utf8_len(text) > pre.room && post == pre,
    }
}

/// The outcome of rendering `text` by a run of writes: all of it is appended, or,
/// where it does not fit, the render fails and the sink keeps the initial
/// part of `text` that was written before the failure.
pub open spec fn rendered(
    pre: SinkState,
    post: SinkState,
    text: Seq<char>,
    r: Result<(), SinkFailure>,
) -> bool {
    match r {
        Ok(_) => emitted(pre, post, text),
        Err(_) => {
            &&& utf8_len(text) > pre.room
            &&& exists|k: int| 0 <= k <= text.len() && emitted(pre, post, #[trigger] text.take(k))
        },
    }
}

/// A destination for text.
pub trait Sink: View<V = SinkState> + Sized {
    /// Appends `s`, or fails and changes nothing where `s` does not fit.
    fn write_str(&mut self, s: &str) -> (r: Result<(), SinkFailure>)
        ensures
            wrote(old(self)@, final(self)@, s@, r),
    ;

    /// Appends `c`, or fails and changes nothing where `c` does not fit.
    fn write_char(&mut self, c: char) -> (r: Result<(), SinkFailure>)
        ensures
            wrote(old(self)@, final(self)@, seq![c], r),
    ;
}

/// Nothing written is the empty text emitted.
pub proof fn lemma_emitted_nothing(pre: SinkState)
    ensures
        emitted(pre, pre, Seq::empty()),
{
    assert(pre.written + Seq::<char>::empty() =~= pre.written);
}

/// A single write is a render.
pub proof fn lemma_write_is_render(pre: SinkState, text: Seq<char>)
    ensures
        forall|post: SinkState, r: Result<(), SinkFailure>| #[trigger]
            wrote(pre, post, text, r) ==> rendered(pre, post, text, r),
{
    assert forall|post: SinkState, r: Result<(), SinkFailure>| #[trigger]
        wrote(pre, post, text, r) implies rendered(pre, post, text, r) by {
        if r is Err {
            lemma_emitted_nothing(pre);
            assert(text.take(0) =~= Seq::<char>::empty());
        }
    }
}

/// One more write after `acc` has been emitted, on the way to `total`: if it
/// succeeds, `acc + step` has been emitted; if it fails, so has the render of
/// `total`.
pub proof fn lemma_step_write(
    pre: SinkState,
    mid: SinkState,
    acc: Seq<char>,
    step: Seq<char>,
    total: Seq<char>,
)
    requires
        emitted(pre, mid, acc),
        is_prefix(acc + step, total),
    ensures
        forall|post: SinkState, r: Result<(), SinkFailure>| #[trigger]
            wrote(mid, post, step, r) ==> {
                &&& r is Ok ==> emitted(pre, post, acc + step)
                &&& r is Ok && total.len() == acc.len() + step.len() ==> rendered(
                    pre,
                    post,
                    total,
                    r,
                )
                &&& r is Err ==> rendered(pre, post, total, r)
            },
{
    lemma_write_is_render(mid, step);
    lemma_step_render(pre, mid, acc, step, total);
}

/// One more render after `acc` has been emitted, on the way to `total`: if it
/// succeeds, `acc + step` has been emitted; if it fails, so has the render of
/// `total`.
pub proof fn lemma_step_render(
    pre: SinkState,
    mid: SinkState,
    acc: Seq<char>,
    step: Seq<char>,
    total: Seq<char>,
)
    requires
        emitted(pre, mid, acc),
        is_prefix(acc + step, total),
    ensures
        forall|post: SinkState, r: Result<(), SinkFailure>| #[trigger]
            rendered(mid, post, step, r) ==> {
                &&& r is Ok ==> emitted(pre, post, acc + step)
                &&& r is Ok && total.len() == acc.len() + step.len() ==> rendered(
                    pre,
                    post,
                    total,
                    r,
                )
                &&& r is Err ==> rendered(pre, post, total, r)
            },
{
    assert forall|post: SinkState, r: Result<(), SinkFailure>| #[trigger]
        rendered(mid, post, step, r) implies {
        &&& r is Ok ==> emitted(pre, post, acc + step)
        &&& r is Ok && total.len() == acc.len() + step.len() ==> rendered(pre, post, total, r)
        &&& r is Err ==> rendered(pre, post, total, r)
    } by {
        lemma_utf8_len_concat(acc, step);
        lemma_utf8_len_prefix(acc + step, total);
        if r is Ok {
            assert(pre.written + (acc + step) =~= pre.written + acc + step);
            if total.len() == acc.len() + step.len() {
                assert(total =~= acc + step);
            }
        } else {
            let k = choose|k: int|
                0 <= k <= step.len() && emitted(mid, post, #[trigger] step.take(k));
            let j = acc.len() + k;
            assert(total.take(j) =~= acc + step.take(k));
            lemma_utf8_len_concat(acc, step.take(k));
            assert(pre.written + (acc + step.take(k)) =~= pre.written + acc + step.take(k));
            assert(emitted(pre, post, total.take(j)));
        }
    }
}

/// The first write of a render of `total`.
pub proof fn lemma_first_write(pre: SinkState, step: Seq<char>, total: Seq<char>)
    requires
        is_prefix(step, total),
    ensures
        forall|post: SinkState, r: Result<(), SinkFailure>| #[trigger]
            wrote(pre, post, step, r) ==> {
                &&& r is Ok ==> emitted(pre, post, step)
                &&& r is Ok && total.len() == step.len() ==> rendered(pre, post, total, r)
                &&& r is Err ==> rendered(pre, post, total, r)
            },
{
    lemma_emitted_nothing(pre);
    assert(Seq::<char>::empty() + step =~= step);
    lemma_step_write(pre, pre, Seq::empty(), step, total);
}

/// The first render of a render of `total`.
pub proof fn lemma_first_render(pre: SinkState, step: Seq<char>, total: Seq<char>)
    requires
        is_prefix(step, total),
    ensures
        forall|post: SinkState, r: Result<(), SinkFailure>| #[trigger]
            rendered(pre, post, step, r) ==> {
                &&& r is Ok ==> emitted(pre, post, step)
                &&& r is Ok && total.len() == step.len() ==> rendered(pre, post, total, r)
                &&& r is Err ==> rendered(pre, post, total, r)
            },
{
    lemma_emitted_nothing(pre);
    assert(Seq::<char>::empty() + step =~= step);
    lemma_step_render(pre, pre, Seq::empty(), step, total);
}

/// Rendering is a function of the text and of the sink's state: two renders of
/// one text from one state end alike.
pub proof fn lemma_render_repeatable(
    pre: SinkState,
    post1: SinkState,
    post2: SinkState,
    text: Seq<char>,
    r1: Result<(), SinkFailure>,
    r2: Result<(), SinkFailure>,
)
    requires
        rendered(pre, post1, text, r1),
        rendered(pre, post2, text, r2),
    ensures
        r1 is Ok <==> r2 is Ok,
        r1 is Ok ==> post1 == post2,
{
}

/// The largest number of bytes that a `String` can hold.
pub open spec fn string_limit() -> nat {
    isize::MAX as nat
}

/// The room left in a string that holds `s` and may grow to `limit` bytes.
pub open spec fn string_room(s: Seq<char>, limit: nat) -> nat {
    if utf8_len(s) <= limit {
        (limit - utf8_len(s)) as nat
    } else {
        0
    }
}

/// `String::push` of std: appends one character. The string's new length in
/// bytes must stay within what a `String` can hold.
pub assume_specification[ std::string::String::push ](s: &mut std::string::String, ch: char)
    requires
        utf8_len(old(s)@) + utf8_len(seq![ch]) <= string_limit(),
    ensures
        final(s)@ == old(s)@.push(ch),
;

/// A sink that keeps what it accepts in a `String`, up to a limit in bytes.
pub struct StringSink {
    buf: String,
    limit: usize,
}

impl View for StringSink {
    type V = SinkState;

    closed spec fn view(&self) -> SinkState {
        SinkState { written: self.buf@, room: string_room(self.buf@, self.spec_limit()) }
    }
}

impl StringSink {
    /// The number of bytes that the sink may hold: the limit it was made with,
    /// or what a `String` can hold where that is less.
    pub closed spec fn spec_limit(&self) -> nat {
        if self.limit <= string_limit() {
            self.limit as nat
        } else {
            string_limit()
        }
    }

    /// An empty sink with room for as much as a `String` can hold.
    pub fn new() -> (sink: Self)
        ensures
            sink@.written == Seq::<char>::empty(),
            sink@.room == string_limit(),
    {
        StringSink { buf: String::new(), limit: usize::MAX }
    }

    /// An empty sink with room for `room` bytes, or for as much as a `String`
    /// can hold where that is less.
    pub fn with_room(room: usize) -> (sink: Self)
        ensures
            sink@.written == Seq::<char>::empty(),
            sink@.room == if room <= string_limit() {
                room as nat
            } else {
                string_limit()
            },
    {
        StringSink { buf: String::new(), limit: room }
    }

    /// The text accepted so far.
    pub fn as_str(&self) -> (s: &str)
        ensures
            s@ == self@.written,
    {
        self.buf.as_str()
    }

    /// Gives up the sink for the text it accepted.
    pub fn into_string(self) -> (s: String)
        ensures
            s@ == self@.written,
    {
        self.buf
    }

    fn room_left(&self) -> (n: usize)
        ensures
            n == self@.room,
            n > 0 ==> n + utf8_len(self.buf@) <= string_limit(),
    {
        let most: usize = isize::MAX as usize;
        let limit = if self.limit <= most {
            self.limit
        } else {
            most
        };
        let used = str_len_utf8(self.buf.as_str());
        if used <= limit {
            limit - used
        } else {
            0
        }
    }
}

impl Sink for StringSink {
    fn write_str(&mut self, s: &str) -> (r: Result<(), SinkFailure>) {
        proof {
            lemma_utf8_len_concat(self.buf@, s@);
        }
        if str_len_utf8(s) > self.room_left() {
            Err(SinkFailure)
        } else {
            self.buf.append(s);
            Ok(())
        }
    }

    fn write_char(&mut self, c: char) -> (r: Result<(), SinkFailure>) {
        proof {
            lemma_utf8_len_concat(self.buf@, seq![c]);
        }
        if char_len_utf8(c) > self.room_left() {
            Err(SinkFailure)
        } else {
            self.buf.push(c);
            assert(self.buf@ =~= old(self).buf@ + seq![c]);
            Ok(())
        }
    }
}

} // verus!
