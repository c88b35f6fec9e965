//! Values and sequences together with the operation that formats them.
use crate::cformat::op::{FormatOp, Token};
use crate::fmt::cairo_write::CairoWrite;
use crate::sink::{
    emitted, lemma_emitted_nothing, lemma_first_write, lemma_step_render, lemma_step_write,
    lemma_write_is_render, rendered, Sink, SinkFailure,
};
use crate::text::{
    concat_text, join_text, lemma_concat_step, lemma_join_next, lemma_join_none, lemma_join_step,
};
use vstd::prelude::*;

verus! {

/// A value together with the operation that formats it.
pub struct Formatted<'a, T, Op> {
    obj: &'a T,
    op: Op,
}

/// A sequence of values together with the operation that formats each.
pub struct FormattedSeq<'a, T: CairoWrite, Op: FormatOp<'a, T>> {
    elements: &'a [T],
    ops: Op,
}

/// A formatted sequence with a delimiter between neighbours.
pub struct Delimited<'a, S: SeqFormatter<'a>> {
    sequence: S,
    delimiter: Token<'a>,
}

/// A walk through a formatted sequence, one element at a time.
pub struct FormattedIter<'a, T: CairoWrite, Op: FormatOp<'a, T>> {
    elements: &'a [T],
    op: &'a Op,
    index: usize,
}

/// The formatted text of each element, in order.
pub open spec fn formatted_texts<'a, T: CairoWrite, Op: FormatOp<'a, T>>(
    elements: Seq<T>,
    op: Op,
) -> Seq<Seq<char>> {
    elements.map_values(|e: T| op.formatted_text(e.text()))
}

/// A sequence whose elements are all formatted by one operation.
pub trait SeqFormatter<'a> {
    type Element: CairoWrite;

    type Op: FormatOp<'a, Self::Element>;

    /// The elements, in order.
    spec fn spec_elements(&self) -> Seq<Self::Element>;

    /// The operation.
    spec fn spec_op(&self) -> Self::Op;

    /// The number of elements.
    fn size(&self) -> (n: usize)
        ensures
            n == self.spec_elements().len(),
    ;

    /// The elements, in order.
    fn elements(&self) -> (r: &[Self::Element])
        ensures
            r@ == self.spec_elements(),
    ;

    /// The operation that formats each element.
    fn op(&self) -> (r: &Self::Op)
        ensures
            *r == self.spec_op(),
    ;

    /// A walk through the sequence, from its first element.
    fn iter(&'a self) -> (it: FormattedIter<'a, Self::Element, Self::Op>)
        ensures
            it.elements() == self.spec_elements(),
            it.op() == self.spec_op(),
            it.index() == 0,
    ;

    /// Writes every element, formatted, one after the other.
    fn fmt_all<W: Sink>(&self, buf: &mut W) -> (r: Result<(), SinkFailure>)
        ensures
            rendered(
                old(buf)@,
                final(buf)@,
                concat_text(formatted_texts(self.spec_elements(), self.spec_op())),
                r,
            ),
    {
        let op = self.op();
        let elements = self.elements();
        let ghost parts = formatted_texts(elements@, *op);
        let ghost total = concat_text(parts);
        proof {
            lemma_emitted_nothing(buf@);
            lemma_join_none(parts, Seq::empty());
        }
        let mut i: usize = 0;
        while i < elements.len()
            invariant
                i <= elements.len(),
                parts == formatted_texts(elements@, *op),
                total == concat_text(parts),
                total == concat_text(formatted_texts(self.spec_elements(), self.spec_op())),
                emitted(old(buf)@, buf@, concat_text(parts.take(i as int))),
            decreases elements.len() - i,
        {
            proof {
                lemma_concat_step(parts, i as int);
                lemma_step_render(
                    old(buf)@,
                    buf@,
                    concat_text(parts.take(i as int)),
                    parts[i as int],
                    total,
                );
            }
            op.format(&elements[i], buf)?;
            i += 1;
        }
        proof {
            assert(parts.take(i as int) =~= parts);
        }
        Ok(())
    }

    /// Writes the element at `index`, formatted.
    fn fmt_index<W: Sink>(&self, buf: &mut W, index: usize) -> (r: Result<(), SinkFailure>)
        requires
            index < self.spec_elements().len(),
        ensures
            rendered(
                old(buf)@,
                final(buf)@,
                formatted_texts(self.spec_elements(), self.spec_op())[index as int],
                r,
            ),
    {
        self.op().format(&self.elements()[index], buf)
    }
}

impl<'a, T, Op> Formatted<'a, T, Op> {
    /// The value.
    pub closed spec fn obj(&self) -> &'a T {
        self.obj
    }

    /// The operation.
    pub closed spec fn op(&self) -> Op {
        self.op
    }

    /// A value with the operation that formats it.
    pub fn new(obj: &'a T, op: Op) -> (out: Self)
        ensures
            out.obj() == obj,
            out.op() == op,
    {
        Self { obj, op }
    }
}

impl<'a, T, Op> CairoWrite for Formatted<'a, T, Op> where T: CairoWrite, Op: FormatOp<'a, T> {
    open spec fn text(&self) -> Seq<char> {
        self.op().formatted_text(self.obj().text())
    }

    fn cwrite<W: Sink>(&self, buf: &mut W) -> (r: Result<(), SinkFailure>) {
        self.op.format(self.obj, buf)
    }
}

impl<'a, T, Op> FormattedSeq<'a, T, Op> where T: CairoWrite, Op: FormatOp<'a, T> {
    /// A sequence with the operation that formats each element.
    pub fn new(elements: &'a [T], ops: Op) -> (out: Self)
        ensures
            out.spec_elements() == elements@,
            out.spec_op() == ops,
    {
        Self { elements, ops }
    }
}

impl<'a, T, Op> SeqFormatter<'a> for FormattedSeq<'a, T, Op> where
    T: CairoWrite,
    Op: FormatOp<'a, T>,
 {
    type Element = T;

    type Op = Op;

    closed spec fn spec_elements(&self) -> Seq<T> {
        self.elements@
    }

    closed spec fn spec_op(&self) -> Op {
        self.ops
    }

    fn size(&self) -> (n: usize) {
        self.elements.len()
    }

    fn elements(&self) -> (r: &[T]) {
        self.elements
    }

    fn op(&self) -> (r: &Op) {
        &self.ops
    }

    fn iter(&'a self) -> (it: FormattedIter<'a, T, Op>) {
        FormattedIter { elements: self.elements, op: &self.ops, index: 0 }
    }
}

impl<'a, T, Op> FormattedIter<'a, T, Op> where T: CairoWrite, Op: FormatOp<'a, T> {
    /// The elements of the sequence that is walked.
    pub closed spec fn elements(&self) -> Seq<T> {
        self.elements@
    }

    /// The operation.
    pub closed spec fn op(&self) -> Op {
        *self.op
    }

    /// The number of elements already written.
    pub closed spec fn index(&self) -> nat {
        self.index as nat
    }

    /// Writes the next element, formatted, and moves on; `None` and nothing
    /// written where every element has been written.
    pub fn next<W: Sink>(&mut self, buf: &mut W) -> (out: Option<Result<(), SinkFailure>>)
        ensures
            final(self).elements() == old(self).elements(),
            final(self).op() == old(self).op(),
            out is None <==> old(self).index() >= old(self).elements().len(),
            out is None ==> final(self).index() == old(self).index() && final(buf)@ == old(buf)@,
            out matches Some(r) ==> final(self).index() == old(self).index() + 1 && rendered(
                old(buf)@,
                final(buf)@,
                formatted_texts(old(self).elements(), old(self).op())[old(self).index() as int],
                r,
            ),
    {
        if self.index >= self.elements.len() {
            return None;
        }
        let result = self.op.format(&self.elements[self.index], buf);
        self.index += 1;
        Some(result)
    }

    /// The number of elements not yet written.
    pub fn remaining(&self) -> (n: usize)
        ensures
            n == if self.index() <= self.elements().len() {
                self.elements().len() - self.index()
            } else {
                0
            },
    {
        let len = self.elements.len();
        if self.index <= len {
            len - self.index
        } else {
            0
        }
    }
}

impl<'a, S> Delimited<'a, S> where S: SeqFormatter<'a> {
    /// The sequence.
    pub closed spec fn sequence(&self) -> S {
        self.sequence
    }

    /// The delimiter.
    pub closed spec fn delimiter(&self) -> Token<'a> {
        self.delimiter
    }

    /// A formatted sequence with the delimiter between neighbours.
    pub fn new(sequence: S, delimiter: Token<'a>) -> (out: Self)
        ensures
            out.sequence() == sequence,
            out.delimiter() == delimiter,
    {
        Self { sequence, delimiter }
    }
}

/// The formatted elements with the delimiter between each two neighbours.
impl<'a, S> CairoWrite for Delimited<'a, S> where S: SeqFormatter<'a> {
    open spec fn text(&self) -> Seq<char> {
        join_text(
            formatted_texts(self.sequence().spec_elements(), self.sequence().spec_op()),
            self.delimiter().text(),
        )
    }

    fn cwrite<W: Sink>(&self, buf: &mut W) -> (r: Result<(), SinkFailure>) {
        let elements = self.sequence.elements();
        let op = self.sequence.op();
        let ghost delim = self.delimiter.text();
        let ghost parts = formatted_texts(elements@, *op);
        let ghost total = join_text(parts, delim);
        proof {
            lemma_emitted_nothing(buf@);
            lemma_join_none(parts, delim);
        }
        let mut i: usize = 0;
        while i < elements.len()
            invariant
                i <= elements.len(),
                delim == self.delimiter.text(),
                parts == formatted_texts(elements@, *op),
                total == join_text(parts, delim),
                total == self.text(),
                emitted(old(buf)@, buf@, join_text(parts.take(i as int), delim)),
            decreases elements.len() - i,
        {
            let ghost acc = join_text(parts.take(i as int), delim);
            proof {
                lemma_join_step(parts, delim, i as int);
            }
            if i > 0 {
                proof {
                    lemma_step_write(old(buf)@, buf@, acc, delim, total);
                }
                self.delimiter.write_token(buf)?;
                proof {
                    lemma_step_render(old(buf)@, buf@, acc + delim, parts[i as int], total);
                }
                op.format(&elements[i], buf)?;
            } else {
                proof {
                    lemma_step_render(old(buf)@, buf@, acc, parts[i as int], total);
                    assert(acc + parts[i as int] =~= parts[i as int]);
                }
                op.format(&elements[i], buf)?;
            }
            i += 1;
        }
        proof {
            assert(parts.take(i as int) =~= parts);
        }
        Ok(())
    }
}

/// A formatted sequence as a value or a tuple: `()` for no element, the element
/// alone for one, and the elements separated by commas between parentheses for
/// more.
pub struct ValueOrTuple<'a, T: SeqFormatter<'a>>(pub &'a T);

/// The text of a value or a tuple made of `parts`.
pub open spec fn value_or_tuple_text(parts: Seq<Seq<char>>) -> Seq<char> {
    if parts.len() == 0 {
        seq!['(', ')']
    } else if parts.len() == 1 {
        parts[0]
    } else {
        seq!['('] + join_text(parts, seq![',']) + seq![')']
    }
}

impl<'a, T> CairoWrite for ValueOrTuple<'a, T> where T: SeqFormatter<'a> {
    open spec fn text(&self) -> Seq<char> {
        value_or_tuple_text(formatted_texts(self.0.spec_elements(), self.0.spec_op()))
    }

    fn cwrite<W: Sink>(&self, buf: &mut W) -> (r: Result<(), SinkFailure>) {
        let size = self.0.size();
        let ghost parts = formatted_texts(self.0.spec_elements(), self.0.spec_op());
        let ghost delim = seq![','];
        let ghost total = self.text();
        if size == 0 {
            proof {
                reveal_strlit("()");
                assert("()"@ =~= seq!['(', ')']);
                lemma_write_is_render(buf@, "()"@);
            }
            buf.write_str("()")
        } else if size == 1 {
            self.0.fmt_index(buf, 0)
        } else {
            proof {
                lemma_first_write(buf@, seq!['('], total);
                lemma_join_none(parts, delim);
                assert(seq!['('] + join_text(parts.take(0), delim) =~= seq!['(']);
            }
            buf.write_char('(')?;
            let mut i: usize = 0;
            while i < size
                invariant
                    i <= size,
                    size == parts.len(),
                    size >= 2,
                    delim == seq![','],
                    parts == formatted_texts(self.0.spec_elements(), self.0.spec_op()),
                    total == seq!['('] + join_text(parts, delim) + seq![')'],
                    emitted(
                        old(buf)@,
                        buf@,
                        seq!['('] + join_text(parts.take(i as int), delim),
                    ),
                decreases size - i,
            {
                let ghost acc = seq!['('] + join_text(parts.take(i as int), delim);
                proof {
                    lemma_join_next(seq!['('], parts, delim, seq![')'], i as int);
                }
                if i > 0 {
                    proof {
                        lemma_step_write(old(buf)@, buf@, acc, delim, total);
                    }
                    buf.write_char(',')?;
                    proof {
                        lemma_step_render(old(buf)@, buf@, acc + delim, parts[i as int], total);
                    }
                    self.0.fmt_index(buf, i)?;
                } else {
                    proof {
                        lemma_step_render(old(buf)@, buf@, acc, parts[i as int], total);
                    }
                    self.0.fmt_index(buf, i)?;
                }
                i += 1;
            }
            proof {
                assert(parts.take(i as int) =~= parts);
                lemma_step_write(
                    old(buf)@,
                    buf@,
                    seq!['('] + join_text(parts, delim),
                    seq![')'],
                    total,
                );
            }
            buf.write_char(')')
        }
    }
}

} // verus!
