//! The mathematical model of rendered text: sequences of characters, their
//! length in UTF-8 bytes, and the joining of parts with a delimiter.
use vstd::prelude::*;
use vstd::utf8::{encode_scalar, encode_utf8};

verus! {

/// The number of bytes that `s` occupies when encoded as UTF-8.
pub open spec fn utf8_len(s: Seq<char>) -> nat {
    encode_utf8(s).len()
}

/// `p` is an initial part of `t`.
pub open spec fn is_prefix(p: Seq<char>, t: Seq<char>) -> bool {
    p.len() <= t.len() && t.take(p.len() as int) =~= p
}

/// The parts in order, with `delim` between each two neighbours and nowhere else.
pub open spec fn join_text(parts: Seq<Seq<char>>, delim: Seq<char>) -> Seq<char>
    decreases parts.len(),
{
    if parts.len() == 0 {
        Seq::empty()
    } else if parts.len() == 1 {
        parts[0]
    } else {
        join_text(parts.drop_last(), delim) + delim + parts.last()
    }
}

/// Each part between `before` and `after`.
pub open spec fn wrap_each(parts: Seq<Seq<char>>, before: Seq<char>, after: Seq<char>) -> Seq<
    Seq<char>,
> {
    parts.map_values(|p: Seq<char>| before + p + after)
}

/// The parts one after the other.
pub open spec fn concat_text(parts: Seq<Seq<char>>) -> Seq<char> {
    join_text(parts, Seq::empty())
}

/// The byte length of a concatenation is the sum of the byte lengths.
pub proof fn lemma_utf8_len_concat(a: Seq<char>, b: Seq<char>)
    ensures
        utf8_len(a + b) == utf8_len(a) + utf8_len(b),
    decreases a.len(),
{
    if a.len() == 0 {
        assert(a + b =~= b);
    } else {
        assert((a + b).drop_first() =~= a.drop_first() + b);
        lemma_utf8_len_concat(a.drop_first(), b);
    }
}

/// A single character occupies between one and four bytes.
pub proof fn lemma_utf8_len_char(c: char)
    ensures
        utf8_len(seq![c]) == encode_scalar(c as u32).len(),
        1 <= utf8_len(seq![c]) <= 4,
{
    assert(seq![c].drop_first() =~= Seq::<char>::empty());
    assert(encode_utf8(seq![c]) =~= encode_scalar(c as u32)) by {
        reveal_with_fuel(encode_utf8, 2);
    }
}

/// Every character occupies at least one byte and at most four.
pub proof fn lemma_utf8_len_bounds(s: Seq<char>)
    ensures
        s.len() <= utf8_len(s) <= 4 * s.len(),
    decreases s.len(),
{
    if s.len() > 0 {
        lemma_utf8_len_char(s[0]);
        lemma_utf8_len_bounds(s.drop_first());
        assert(s =~= seq![s[0]] + s.drop_first());
        lemma_utf8_len_concat(seq![s[0]], s.drop_first());
    }
}

/// A prefix occupies no more bytes than the whole.
pub proof fn lemma_utf8_len_prefix(p: Seq<char>, t: Seq<char>)
    requires
        is_prefix(p, t),
    ensures
        utf8_len(p) <= utf8_len(t),
{
    let rest = t.skip(p.len() as int);
    assert(t =~= p + rest);
    lemma_utf8_len_concat(p, rest);
}

/// A prefix of a prefix is a prefix.
pub proof fn lemma_prefix_transitive(a: Seq<char>, b: Seq<char>, c: Seq<char>)
    requires
        is_prefix(a, b),
        is_prefix(b, c),
    ensures
        is_prefix(a, c),
{
    assert(c.take(a.len() as int) =~= b.take(a.len() as int));
}

/// Joining one more part appends the delimiter and that part, but for the first.
pub proof fn lemma_join_take_step(parts: Seq<Seq<char>>, delim: Seq<char>, i: int)
    requires
        0 <= i < parts.len(),
    ensures
        join_text(parts.take(i + 1), delim) == if i == 0 {
            parts[0]
        } else {
            join_text(parts.take(i), delim) + delim + parts[i]
        },
{
    assert(parts.take(i + 1).drop_last() =~= parts.take(i));
}

/// What is joined of the first `i` parts begins what is joined of all.
pub proof fn lemma_join_take_prefix(parts: Seq<Seq<char>>, delim: Seq<char>, i: int)
    requires
        0 <= i <= parts.len(),
    ensures
        is_prefix(join_text(parts.take(i), delim), join_text(parts, delim)),
    decreases parts.len() - i,
{
    if i == parts.len() {
        assert(parts.take(i) =~= parts);
    } else {
        lemma_join_take_step(parts, delim, i);
        lemma_join_take_prefix(parts, delim, i + 1);
        let a = join_text(parts.take(i), delim);
        let b = join_text(parts.take(i + 1), delim);
        if i == 0 {
            assert(a =~= Seq::<char>::empty());
        } else {
            assert(b =~= a + (delim + parts[i]));
        }
        assert(is_prefix(a, b));
        lemma_prefix_transitive(a, b, join_text(parts, delim));
    }
}

/// One step of writing `head`, the joined parts and `tail`: what stands after
/// part `i` is what stood before it, the delimiter (but before the first part)
/// and the part; and all of that begins the whole.
pub proof fn lemma_join_next(
    head: Seq<char>,
    parts: Seq<Seq<char>>,
    delim: Seq<char>,
    tail: Seq<char>,
    i: int,
)
    requires
        0 <= i < parts.len(),
    ensures
        ({
            let acc = head + join_text(parts.take(i), delim);
            let next = head + join_text(parts.take(i + 1), delim);
            let total = head + join_text(parts, delim) + tail;
            &&& i == 0 ==> next == acc + parts[0]
            &&& i > 0 ==> next == acc + delim + parts[i] && is_prefix(acc + delim, total)
            &&& is_prefix(next, total)
            &&& i + 1 == parts.len() ==> next + tail == total
        }),
{
    let acc = head + join_text(parts.take(i), delim);
    let next = head + join_text(parts.take(i + 1), delim);
    let joined = join_text(parts, delim);
    let total = head + joined + tail;
    lemma_join_take_step(parts, delim, i);
    lemma_join_take_prefix(parts, delim, i + 1);
    let j = join_text(parts.take(i + 1), delim);
    assert(total.take(next.len() as int) =~= head + joined.take(j.len() as int));
    assert(is_prefix(next, total));
    if i == 0 {
        assert(parts.take(0) =~= Seq::<Seq<char>>::empty());
        assert(next =~= acc + parts[0]);
    } else {
        assert(next =~= acc + delim + parts[i]);
        assert(total.take((acc + delim).len() as int) =~= next.take((acc + delim).len() as int));
        assert(is_prefix(acc + delim, total));
    }
    if i + 1 == parts.len() {
        assert(parts.take(i + 1) =~= parts);
    }
}

/// Before any part is written, `head` stands alone; with no part at all, only
/// `tail` follows it.
pub proof fn lemma_join_start(
    head: Seq<char>,
    parts: Seq<Seq<char>>,
    delim: Seq<char>,
    tail: Seq<char>,
)
    ensures
        head + join_text(parts.take(0), delim) == head,
        is_prefix(head, head + join_text(parts, delim) + tail),
        parts.len() == 0 ==> head + join_text(parts, delim) + tail == head + tail,
{
    assert(parts.take(0) =~= Seq::<Seq<char>>::empty());
    assert(head + join_text(parts.take(0), delim) =~= head);
    assert(head + join_text(parts, delim) + tail =~= head + (join_text(parts, delim) + tail));
    if parts.len() == 0 {
        assert(head + join_text(parts, delim) + tail =~= head + tail);
    }
}

/// One step of writing the joined parts, with nothing before or after them.
pub proof fn lemma_join_step(parts: Seq<Seq<char>>, delim: Seq<char>, i: int)
    requires
        0 <= i < parts.len(),
    ensures
        ({
            let acc = join_text(parts.take(i), delim);
            let next = join_text(parts.take(i + 1), delim);
            let total = join_text(parts, delim);
            &&& i == 0 ==> acc == Seq::<char>::empty() && next == parts[0]
            &&& i > 0 ==> next == acc + delim + parts[i] && is_prefix(acc + delim, total)
            &&& is_prefix(next, total)
            &&& i + 1 == parts.len() ==> next == total
        }),
{
    lemma_join_next(Seq::empty(), parts, delim, Seq::empty(), i);
    let acc = join_text(parts.take(i), delim);
    let next = join_text(parts.take(i + 1), delim);
    let total = join_text(parts, delim);
    let e = Seq::<char>::empty();
    assert(e + acc =~= acc);
    assert(e + next =~= next);
    assert(e + total + e =~= total);
    assert(next + e =~= next);
    if i == 0 {
        assert(parts.take(0) =~= Seq::<Seq<char>>::empty());
    }
}

/// One step of writing the parts one after the other.
pub proof fn lemma_concat_step(parts: Seq<Seq<char>>, i: int)
    requires
        0 <= i < parts.len(),
    ensures
        ({
            let acc = concat_text(parts.take(i));
            let next = concat_text(parts.take(i + 1));
            let total = concat_text(parts);
            &&& next == acc + parts[i]
            &&& is_prefix(next, total)
            &&& i + 1 == parts.len() ==> next == total
        }),
{
    lemma_join_step(parts, Seq::empty(), i);
    let acc = concat_text(parts.take(i));
    let next = concat_text(parts.take(i + 1));
    if i == 0 {
        assert(next =~= acc + parts[i]);
    } else {
        assert(acc + Seq::<char>::empty() + parts[i] =~= acc + parts[i]);
    }
}

/// With no part, nothing is joined.
pub proof fn lemma_join_none(parts: Seq<Seq<char>>, delim: Seq<char>)
    ensures
        join_text(parts.take(0), delim) == Seq::<char>::empty(),
        parts.len() == 0 ==> join_text(parts, delim) == Seq::<char>::empty(),
{
    assert(parts.take(0) =~= Seq::<Seq<char>>::empty());
}

/// One more part at the end is appended to the concatenation.
pub proof fn lemma_concat_push(parts: Seq<Seq<char>>, last: Seq<char>)
    ensures
        concat_text(parts.push(last)) == concat_text(parts) + last,
{
    let all = parts.push(last);
    assert(all.drop_last() =~= parts);
    if parts.len() == 0 {
        assert(concat_text(all) =~= Seq::<char>::empty() + last);
    } else {
        assert(concat_text(all) =~= concat_text(parts) + last);
    }
}

/// One more part at the front is prepended to the concatenation.
pub proof fn lemma_concat_prepend(first: Seq<char>, parts: Seq<Seq<char>>)
    ensures
        concat_text(seq![first] + parts) == first + concat_text(parts),
    decreases parts.len(),
{
    let all = seq![first] + parts;
    if parts.len() == 0 {
        assert(all =~= seq![first]);
        assert(concat_text(all) =~= first + concat_text(parts));
    } else {
        assert(all.drop_last() =~= seq![first] + parts.drop_last());
        lemma_concat_prepend(first, parts.drop_last());
        lemma_concat_push(parts.drop_last(), parts.last());
        assert(parts.drop_last().push(parts.last()) =~= parts);
        assert(concat_text(all) =~= first + concat_text(parts.drop_last()) + parts.last());
    }
}

/// The number of UTF-8 bytes of a character.
pub fn char_len_utf8(c: char) -> (n: usize)
    ensures
        n == utf8_len(seq![c]),
        1 <= n <= 4,
{
    proof {
        lemma_utf8_len_char(c);
    }
    let v: u32 = c as u32;
    if v < 0x80 {
        1
    } else if v < 0x800 {
        2
    } else if v < 0x10000 {
        3
    } else {
        4
    }
}

/// The number of UTF-8 bytes of a string slice.
pub fn str_len_utf8(s: &str) -> (n: usize)
    ensures
        n == utf8_len(s@),
{
    s.as_bytes().len()
}

} // verus!
