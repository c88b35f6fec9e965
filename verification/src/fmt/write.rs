//! Tokens, and affixes that are attached to a value or to a sequence of values
//! before it is rendered.
use crate::fmt::cairo_write::{texts, CairoWrite, FeltBytes};
use crate::fmt::token_list::{
    held_tokens, token_list_as_slice, token_list_new, token_list_push, TokenList,
};
use crate::sink::{
    emitted, lemma_emitted_nothing, lemma_first_render, lemma_step_render, lemma_step_write,
    rendered, string_limit, wrote, Sink, SinkFailure, StringSink,
};
use crate::text::{
    concat_text, join_text, lemma_concat_prepend, lemma_concat_push, lemma_concat_step,
    lemma_join_next, lemma_join_none, lemma_join_start, utf8_len, wrap_each,
};
use crate::utils::Slice;
use std::borrow::Cow;
use vstd::prelude::*;

verus! {

/// A unit of literal text: one character, or a string that is borrowed or
/// owned.
pub enum Token<'a> {
    Char(char),
    Str(Cow<'a, str>),
}

impl<'a> Token<'a> {
    /// The text of the token.
    pub open spec fn text(&self) -> Seq<char> {
        match self {
            Token::Char(c) => seq![*c],
            Token::Str(s) => s@,
        }
    }

    /// Writes the token in one write.
    pub fn write_token<W: Sink>(&self, buf: &mut W) -> (r: Result<(), SinkFailure>)
        ensures
            wrote(old(buf)@, final(buf)@, self.text(), r),
    {
        match self {
            Token::Str(s) => match s {
                Cow::Borrowed(borrowed) => buf.write_str(borrowed),
                Cow::Owned(owned) => buf.write_str(owned.as_str()),
            },
            Token::Char(c) => buf.write_char(*c),
        }
    }
}

/// The texts of the tokens, one after the other.
pub open spec fn tokens_text(tokens: Seq<Token>) -> Seq<char> {
    concat_text(token_texts(tokens))
}

/// The text of each token, in order.
pub open spec fn token_texts(tokens: Seq<Token>) -> Seq<Seq<char>> {
    tokens.map_values(|t: Token| t.text())
}

/// What can be made into a token.
pub trait TokenTrait<'a>: Sized {
    /// The token that the value becomes.
    spec fn as_token(self) -> Token<'a>;

    /// Makes the value into a token.
    fn to_token(self) -> (token: Token<'a>)
        ensures
            token == self.as_token(),
    ;
}

impl<'a> TokenTrait<'a> for char {
    open spec fn as_token(self) -> Token<'a> {
        Token::Char(self)
    }

    fn to_token(self) -> (token: Token<'a>) {
        Token::Char(self)
    }
}

impl<'a> TokenTrait<'a> for &'a str {
    open spec fn as_token(self) -> Token<'a> {
        Token::Str(Cow::Borrowed(self))
    }

    fn to_token(self) -> (token: Token<'a>) {
        Token::Str(Cow::Borrowed(self))
    }
}

impl<'a> TokenTrait<'a> for String {
    open spec fn as_token(self) -> Token<'a> {
        Token::Str(Cow::Owned(self))
    }

    fn to_token(self) -> (token: Token<'a>) {
        Token::Str(Cow::Owned(self))
    }
}

/// What can be made into a token or into none.
pub trait MaybeTokenTrait<'a>: Sized {
    /// The token that the value becomes, if any.
    spec fn as_maybe_token(self) -> Option<Token<'a>>;

    /// Makes the value into a token, or into none.
    fn maybe_token(self) -> (token: Option<Token<'a>>)
        ensures
            token == self.as_maybe_token(),
    ;
}

impl<'a> MaybeTokenTrait<'a> for () {
    open spec fn as_maybe_token(self) -> Option<Token<'a>> {
        None
    }

    fn maybe_token(self) -> (token: Option<Token<'a>>) {
        None
    }
}

impl<'a> MaybeTokenTrait<'a> for char {
    open spec fn as_maybe_token(self) -> Option<Token<'a>> {
        Some(Token::Char(self))
    }

    fn maybe_token(self) -> (token: Option<Token<'a>>) {
        Some(Token::Char(self))
    }
}

impl<'a> MaybeTokenTrait<'a> for &'a str {
    open spec fn as_maybe_token(self) -> Option<Token<'a>> {
        Some(Token::Str(Cow::Borrowed(self)))
    }

    fn maybe_token(self) -> (token: Option<Token<'a>>) {
        Some(Token::Str(Cow::Borrowed(self)))
    }
}

impl<'a> MaybeTokenTrait<'a> for String {
    open spec fn as_maybe_token(self) -> Option<Token<'a>> {
        Some(Token::Str(Cow::Owned(self)))
    }

    fn maybe_token(self) -> (token: Option<Token<'a>>) {
        Some(Token::Str(Cow::Owned(self)))
    }
}

/// A run of tokens that can be written in order or in reverse order.
pub trait TokensTrait<'a> {
    /// The tokens, in order.
    spec fn tokens(&self) -> Seq<Token<'a>>;

    /// Writes the tokens in order.
    fn write_tokens<W: Sink>(&self, buf: &mut W) -> (r: Result<(), SinkFailure>)
        ensures
            rendered(old(buf)@, final(buf)@, tokens_text(self.tokens()), r),
    ;

    /// Writes the tokens in reverse order.
    fn write_tokens_rev<W: Sink>(&self, buf: &mut W) -> (r: Result<(), SinkFailure>)
        ensures
            rendered(old(buf)@, final(buf)@, tokens_text(self.tokens().reverse()), r),
    ;
}

impl<'a> TokensTrait<'a> for [Token<'a>] {
    open spec fn tokens(&self) -> Seq<Token<'a>> {
        self@
    }

    fn write_tokens<W: Sink>(&self, buf: &mut W) -> (r: Result<(), SinkFailure>) {
        let ghost parts = token_texts(self@);
        let ghost total = concat_text(parts);
        proof {
            lemma_emitted_nothing(buf@);
            lemma_join_none(parts, Seq::empty());
        }
        let mut i: usize = 0;
        while i < self.len()
            invariant
                i <= self.len(),
                parts == token_texts(self@),
                total == concat_text(parts),
                total == tokens_text(self.tokens()),
                emitted(old(buf)@, buf@, concat_text(parts.take(i as int))),
            decreases self.len() - i,
        {
            proof {
                lemma_concat_step(parts, i as int);
                lemma_step_write(
                    old(buf)@,
                    buf@,
                    concat_text(parts.take(i as int)),
                    parts[i as int],
                    total,
                );
            }
            self[i].write_token(buf)?;
            i += 1;
        }
        proof {
            assert(parts.take(i as int) =~= parts);
        }
        Ok(())
    }

    fn write_tokens_rev<W: Sink>(&self, buf: &mut W) -> (r: Result<(), SinkFailure>) {
        let ghost parts = token_texts(self@.reverse());
        let ghost total = concat_text(parts);
        proof {
            lemma_emitted_nothing(buf@);
            lemma_join_none(parts, Seq::empty());
        }
        let mut i: usize = self.len();
        while i > 0
            invariant
                i <= self.len(),
                parts == token_texts(self@.reverse()),
                parts.len() == self.len(),
                total == concat_text(parts),
                total == tokens_text(self.tokens().reverse()),
                emitted(old(buf)@, buf@, concat_text(parts.take(self.len() - i))),
            decreases i,
        {
            let ghost done = self.len() - i;
            proof {
                assert(self@.reverse()[done] == self@[i - 1]);
                assert(parts[done] == self@[i - 1].text());
                lemma_concat_step(parts, done);
                lemma_step_write(
                    old(buf)@,
                    buf@,
                    concat_text(parts.take(done)),
                    parts[done],
                    total,
                );
            }
            i -= 1;
            self[i].write_token(buf)?;
        }
        proof {
            assert(parts.take(self.len() as int) =~= parts);
        }
        Ok(())
    }
}

/// The pair of characters that encloses for `c`: the matching closing bracket
/// for an opening one, and `c` itself on both sides for any other character.
pub open spec fn enclosers(c: char) -> (char, char) {
    if c == '(' {
        ('(', ')')
    } else if c == '{' {
        ('{', '}')
    } else if c == '[' {
        ('[', ']')
    } else if c == '<' {
        ('<', '>')
    } else {
        (c, c)
    }
}

/// The pair of characters that encloses for `c`.
pub fn get_enclosers(c: char) -> (pair: (char, char))
    ensures
        pair == enclosers(c),
{
    match c {
        '(' => ('(', ')'),
        '{' => ('{', '}'),
        '[' => ('[', ']'),
        '<' => ('<', '>'),
        _ => (c, c),
    }
}

/// Affixes as plain data: the tokens attached before a value and those
/// attached after it, each in the order of attachment.
pub struct OpsView<'a> {
    pub prefixes: Seq<Token<'a>>,
    pub suffixes: Seq<Token<'a>>,
}

impl<'a> OpsView<'a> {
    /// No affix at all.
    pub open spec fn empty() -> Self {
        OpsView { prefixes: Seq::empty(), suffixes: Seq::empty() }
    }

    /// One more prefix, attached after those that are there.
    pub open spec fn with_prefix(self, token: Token<'a>) -> Self {
        OpsView { prefixes: self.prefixes.push(token), suffixes: self.suffixes }
    }

    /// One more suffix, attached after those that are there.
    pub open spec fn with_suffix(self, token: Token<'a>) -> Self {
        OpsView { prefixes: self.prefixes, suffixes: self.suffixes.push(token) }
    }

    /// What stands before the value: the prefixes, the last attached first.
    pub open spec fn before(self) -> Seq<char> {
        tokens_text(self.prefixes.reverse())
    }

    /// What stands after the value: the suffixes, the first attached first.
    pub open spec fn after(self) -> Seq<char> {
        tokens_text(self.suffixes)
    }

    /// `inner` between the prefixes and the suffixes.
    pub open spec fn affixed(self, inner: Seq<char>) -> Seq<char> {
        self.before() + inner + self.after()
    }
}

/// The affixes of a sequence as plain data: those of each element, those of the
/// whole, and the delimiter.
pub struct SliceOpsView<'a> {
    pub element: OpsView<'a>,
    pub outer: OpsView<'a>,
    pub delimiter: Option<Token<'a>>,
}

impl<'a> SliceOpsView<'a> {
    /// The text of the delimiter; nothing where there is none.
    pub open spec fn delimiter_text(self) -> Seq<char> {
        match self.delimiter {
            Some(token) => token.text(),
            None => Seq::empty(),
        }
    }

    /// The parts, each between the affixes of an element, with the delimiter
    /// between each two neighbours.
    pub open spec fn joined(self, parts: Seq<Seq<char>>) -> Seq<char> {
        join_text(
            wrap_each(parts, self.element.before(), self.element.after()),
            self.delimiter_text(),
        )
    }

    /// The whole sequence: the joined parts between the outer affixes.
    pub open spec fn text(self, parts: Seq<Seq<char>>) -> Seq<char> {
        self.outer.before() + self.joined(parts) + self.outer.after()
    }
}

/// Prefixes and suffixes attached to one value.
pub struct ElementOps<'a> {
    prefixes: TokenList<'a>,
    suffixes: TokenList<'a>,
}

impl<'a> View for ElementOps<'a> {
    type V = OpsView<'a>;

    closed spec fn view(&self) -> OpsView<'a> {
        OpsView { prefixes: held_tokens(self.prefixes), suffixes: held_tokens(self.suffixes) }
    }
}

/// Affixes for each element of a sequence, affixes for the whole sequence, and
/// a delimiter between neighbours.
pub struct SliceOps<'a> {
    element_ops: ElementOps<'a>,
    slice_ops: ElementOps<'a>,
    delimiter: Option<Token<'a>>,
}

impl<'a> View for SliceOps<'a> {
    type V = SliceOpsView<'a>;

    closed spec fn view(&self) -> SliceOpsView<'a> {
        SliceOpsView {
            element: self.element_ops@,
            outer: self.slice_ops@,
            delimiter: self.delimiter,
        }
    }
}

/// A value together with the affixes to render it with.
pub struct ElementWriter<'a, T> {
    obj: &'a T,
    ops: ElementOps<'a>,
}

/// A sequence together with the affixes and the delimiter to render it with.
pub struct SliceWriter<'a, T> where T: Slice, T::Element: CairoWrite {
    slice: &'a T,
    ops: SliceOps<'a>,
}

impl<'a, S> SliceWriter<'a, S> where S: Slice, S::Element: CairoWrite {
    /// The sequence.
    pub closed spec fn slice(&self) -> &'a S {
        self.slice
    }

    /// The affixes and the delimiter.
    pub closed spec fn ops(&self) -> SliceOpsView<'a> {
        self.ops@
    }

    /// A sequence with the affixes and the delimiter to render it with.
    pub fn new(slice: &'a S, ops: SliceOps<'a>) -> (writer: Self)
        ensures
            writer.slice() == slice,
            writer.ops() == ops@,
    {
        Self { slice, ops }
    }

    /// Writes the sequence with its affixes and its delimiter.
    pub fn apply<W: Sink>(&self, buf: &mut W) -> (r: Result<(), SinkFailure>)
        ensures
            rendered(old(buf)@, final(buf)@, self.text(), r),
    {
        self.ops.apply(self.slice, buf)
    }

    /// The number of elements of the sequence.
    pub fn len(&self) -> (n: usize)
        ensures
            n == self.slice().spec_elements().len(),
    {
        self.slice.elements().len()
    }
}

impl<'a, E> ElementWriter<'a, E> {
    /// The value.
    pub closed spec fn obj(&self) -> &'a E {
        self.obj
    }

    /// The affixes.
    pub closed spec fn ops(&self) -> OpsView<'a> {
        self.ops@
    }

    /// A value with the affixes to render it with.
    pub fn new(obj: &'a E, ops: ElementOps<'a>) -> (writer: Self)
        ensures
            writer.obj() == obj,
            writer.ops() == ops@,
    {
        Self { obj, ops }
    }

    /// A value without any affix yet.
    pub fn new_empty(obj: &'a E) -> (writer: Self)
        ensures
            writer.obj() == obj,
            writer.ops() == OpsView::empty(),
    {
        Self { obj, ops: ElementOps::new() }
    }

    /// Writes the value between its affixes.
    pub fn apply<W: Sink>(&self, buf: &mut W) -> (r: Result<(), SinkFailure>) where E: CairoWrite
        ensures
            rendered(old(buf)@, final(buf)@, self.ops().affixed(self.obj().text()), r),
    {
        self.ops.apply(self.obj, buf)
    }

    /// Turns the writer of a sequence into one that joins its elements: the
    /// affixes attached so far go to each element.
    pub fn join<T: MaybeTokenTrait<'a>>(self, val: T) -> (writer: SliceWriter<'a, E>) where
        E: Slice,
        E::Element: CairoWrite,

        ensures
            writer.slice() == self.obj(),
            writer.ops() == (SliceOpsView {
                element: self.ops(),
                outer: OpsView::empty(),
                delimiter: val.as_maybe_token(),
            }),
    {
        SliceWriter {
            slice: self.obj,
            ops: SliceOps {
                element_ops: self.ops,
                slice_ops: ElementOps::new(),
                delimiter: val.maybe_token(),
            },
        }
    }

    /// The value between its affixes, in a new string.
    pub fn to_string(&self) -> (s: String) where E: CairoWrite
        requires
            utf8_len(self.ops().affixed(self.obj().text())) <= string_limit(),
        ensures
            s@ == self.ops().affixed(self.obj().text()),
    {
        let mut buf = StringSink::new();
        let _ = self.apply(&mut buf);
        buf.into_string()
    }
}

impl<'a, E> CairoWrite for ElementWriter<'a, E> where E: CairoWrite {
    open spec fn text(&self) -> Seq<char> {
        self.ops().affixed(self.obj().text())
    }

    fn cwrite<W: Sink>(&self, buf: &mut W) -> (r: Result<(), SinkFailure>) {
        self.apply(buf)
    }
}

impl<'a, S> CairoWrite for SliceWriter<'a, S> where S: Slice, S::Element: CairoWrite {
    open spec fn text(&self) -> Seq<char> {
        self.ops().text(texts(self.slice().spec_elements()))
    }

    fn cwrite<W: Sink>(&self, buf: &mut W) -> (r: Result<(), SinkFailure>) {
        self.apply(buf)
    }
}

impl<'a> Default for ElementOps<'a> {
    fn default() -> (ops: Self)
        ensures
            ops@ == OpsView::empty(),
    {
        Self::new()
    }
}

impl<'a> ElementOps<'a> {
    /// No affix at all.
    pub fn new() -> (ops: Self)
        ensures
            ops@ == OpsView::empty(),
    {
        Self { prefixes: token_list_new(), suffixes: token_list_new() }
    }

    /// These affixes for each element of a sequence, with `val` as the delimiter.
    pub fn join<T: MaybeTokenTrait<'a>>(self, val: T) -> (ops: SliceOps<'a>)
        ensures
            ops@ == (SliceOpsView {
                element: self@,
                outer: OpsView::empty(),
                delimiter: val.as_maybe_token(),
            }),
    {
        SliceOps::new(self, ElementOps::new(), val)
    }

    /// Writes the prefixes, the last attached first.
    pub fn apply_prefixes<W: Sink>(&self, buf: &mut W) -> (r: Result<(), SinkFailure>)
        ensures
            rendered(old(buf)@, final(buf)@, self@.before(), r),
    {
        token_list_as_slice(&self.prefixes).write_tokens_rev(buf)
    }

    /// Writes the suffixes, the first attached first.
    pub fn apply_suffixes<W: Sink>(&self, buf: &mut W) -> (r: Result<(), SinkFailure>)
        ensures
            rendered(old(buf)@, final(buf)@, self@.after(), r),
    {
        token_list_as_slice(&self.suffixes).write_tokens(buf)
    }

    /// Writes the prefixes, the value and the suffixes.
    pub fn apply<T: CairoWrite, W: Sink>(&self, obj: &T, buf: &mut W) -> (r: Result<
        (),
        SinkFailure,
    >)
        ensures
            rendered(old(buf)@, final(buf)@, self@.affixed(obj.text()), r),
    {
        let ghost total = self@.affixed(obj.text());
        proof {
            lemma_first_render(buf@, self@.before(), total);
        }
        self.apply_prefixes(buf)?;
        proof {
            lemma_step_render(old(buf)@, buf@, self@.before(), obj.text(), total);
        }
        obj.cwrite(buf)?;
        proof {
            lemma_step_render(
                old(buf)@,
                buf@,
                self@.before() + obj.text(),
                self@.after(),
                total,
            );
        }
        self.apply_suffixes(buf)
    }
}

impl<'a> Default for SliceOps<'a> {
    fn default() -> (ops: Self)
        ensures
            ops@ == (SliceOpsView {
                element: OpsView::empty(),
                outer: OpsView::empty(),
                delimiter: None,
            }),
    {
        Self { element_ops: ElementOps::new(), slice_ops: ElementOps::new(), delimiter: None }
    }
}

impl<'a> SliceOps<'a> {
    /// The affixes of each element, those of the whole sequence, and the delimiter.
    pub fn new<T: MaybeTokenTrait<'a>>(
        element_ops: ElementOps<'a>,
        slice_ops: ElementOps<'a>,
        delimiter: T,
    ) -> (ops: Self)
        ensures
            ops@ == (SliceOpsView {
                element: element_ops@,
                outer: slice_ops@,
                delimiter: delimiter.as_maybe_token(),
            }),
    {
        Self { element_ops, slice_ops, delimiter: delimiter.maybe_token() }
    }

    /// Writes the outer prefixes, the elements with their affixes and the
    /// delimiter between neighbours, and the outer suffixes.
    pub fn apply<T, W: Sink>(&self, slice: &T, buf: &mut W) -> (r: Result<(), SinkFailure>) where
        T: Slice,
        T::Element: CairoWrite,

        ensures
            rendered(old(buf)@, final(buf)@, self@.text(texts(slice.spec_elements())), r),
    {
        let elements = slice.elements();
        let ghost head = self@.outer.before();
        let ghost tail = self@.outer.after();
        let ghost delim = self@.delimiter_text();
        let ghost parts = wrap_each(
            texts(elements@),
            self@.element.before(),
            self@.element.after(),
        );
        let ghost total = head + join_text(parts, delim) + tail;
        proof {
            lemma_join_start(head, parts, delim, tail);
            lemma_first_render(buf@, head, total);
        }
        self.slice_ops.apply_prefixes(buf)?;
        let mut i: usize = 0;
        while i < elements.len()
            invariant
                i <= elements.len(),
                head == self@.outer.before(),
                tail == self@.outer.after(),
                delim == self@.delimiter_text(),
                parts == wrap_each(
                    texts(elements@),
                    self@.element.before(),
                    self@.element.after(),
                ),
                total == head + join_text(parts, delim) + tail,
                total == self@.text(texts(slice.spec_elements())),
                emitted(old(buf)@, buf@, head + join_text(parts.take(i as int), delim)),
            decreases elements.len() - i,
        {
            let ghost acc = head + join_text(parts.take(i as int), delim);
            proof {
                lemma_join_next(head, parts, delim, tail, i as int);
                assert(parts[i as int] == self@.element.affixed(elements[i as int].text()));
            }
            if i > 0 {
                match &self.delimiter {
                    Some(token) => {
                        proof {
                            lemma_step_write(old(buf)@, buf@, acc, delim, total);
                        }
                        token.write_token(buf)?;
                    },
                    None => {
                        proof {
                            assert(acc + delim =~= acc);
                        }
                    },
                }
                proof {
                    lemma_step_render(old(buf)@, buf@, acc + delim, parts[i as int], total);
                }
                self.element_ops.apply(&elements[i], buf)?;
            } else {
                proof {
                    lemma_step_render(old(buf)@, buf@, acc, parts[i as int], total);
                }
                self.element_ops.apply(&elements[i], buf)?;
            }
            i += 1;
        }
        proof {
            assert(parts.take(i as int) =~= parts);
            lemma_step_render(old(buf)@, buf@, head + join_text(parts, delim), tail, total);
        }
        self.slice_ops.apply_suffixes(buf)
    }
}

/// A value of its own together with the affixes to render it with.
pub struct CWriter<'a, T> {
    obj: T,
    ops: ElementOps<'a>,
}

impl<'a, T> CWriter<'a, T> {
    /// The value.
    pub closed spec fn obj(&self) -> T {
        self.obj
    }

    /// The affixes.
    pub closed spec fn ops(&self) -> OpsView<'a> {
        self.ops@
    }

    /// A value without any affix yet.
    pub fn new(obj: T) -> (writer: Self)
        ensures
            writer.obj() == obj,
            writer.ops() == OpsView::empty(),
    {
        Self { obj, ops: ElementOps::new() }
    }

    /// Writes the value between its affixes.
    pub fn apply<W: Sink>(&self, buf: &mut W) -> (r: Result<(), SinkFailure>) where T: CairoWrite
        ensures
            rendered(old(buf)@, final(buf)@, self.ops().affixed(self.obj().text()), r),
    {
        self.ops.apply(&self.obj, buf)
    }
}

impl<'a, T> CairoWrite for CWriter<'a, T> where T: CairoWrite {
    open spec fn text(&self) -> Seq<char> {
        self.ops().affixed(self.obj().text())
    }

    fn cwrite<W: Sink>(&self, buf: &mut W) -> (r: Result<(), SinkFailure>) {
        self.apply(buf)
    }
}

/// A slice of values together with the affixes of each and the delimiter
/// between neighbours.
pub struct CSliceWriter<'a, T: CairoWrite> {
    elements: &'a [T],
    ops: SliceOps<'a>,
}

impl<'a, T: CairoWrite> CSliceWriter<'a, T> {
    /// The values.
    pub closed spec fn elements(&self) -> Seq<T> {
        self.elements@
    }

    /// The affixes and the delimiter.
    pub closed spec fn ops(&self) -> SliceOpsView<'a> {
        self.ops@
    }

    /// A slice with the affixes of each element and the delimiter.
    pub fn new<D: MaybeTokenTrait<'a>>(
        elements: &'a [T],
        element_ops: ElementOps<'a>,
        delimiter: D,
    ) -> (writer: Self)
        ensures
            writer.elements() == elements@,
            writer.ops() == (SliceOpsView {
                element: element_ops@,
                outer: OpsView::empty(),
                delimiter: delimiter.as_maybe_token(),
            }),
    {
        Self { elements, ops: element_ops.join(delimiter) }
    }

    /// Writes the elements, each between its affixes, with the delimiter between neighbours.
    pub fn apply<W: Sink>(&self, buf: &mut W) -> (r: Result<(), SinkFailure>)
        ensures
            rendered(old(buf)@, final(buf)@, self.ops().text(texts(self.elements())), r),
    {
        self.ops.apply(&self.elements, buf)
    }
}

impl<'a, T> CairoWrite for CSliceWriter<'a, T> where T: CairoWrite {
    open spec fn text(&self) -> Seq<char> {
        self.ops().text(texts(self.elements()))
    }

    fn cwrite<W: Sink>(&self, buf: &mut W) -> (r: Result<(), SinkFailure>) {
        self.apply(buf)
    }
}

/// What affixes can be attached to: every operation adds to the outer affixes
/// and leaves the rest as it is.
pub trait AppendWriteOps<'a>: Sized {
    /// What the value holds besides its outer affixes.
    type Rest;

    /// The affixes that the operations add to.
    spec fn outer(&self) -> OpsView<'a>;

    /// What the operations leave alone.
    spec fn rest(&self) -> Self::Rest;

    /// Attaches a token as a prefix.
    fn prefix_token(&mut self, val: Token<'a>)
        ensures
            final(self).outer() == old(self).outer().with_prefix(val),
            final(self).rest() == old(self).rest(),
    ;

    /// Attaches a token as a suffix.
    fn suffix_token(&mut self, val: Token<'a>)
        ensures
            final(self).outer() == old(self).outer().with_suffix(val),
            final(self).rest() == old(self).rest(),
    ;

    /// Attaches a prefix: it will stand to the left of every prefix attached
    /// before.
    fn prefix<T: TokenTrait<'a>>(&mut self, val: T)
        ensures
            final(self).outer() == old(self).outer().with_prefix(val.as_token()),
            final(self).rest() == old(self).rest(),
    {
        self.prefix_token(val.to_token());
    }

    /// Attaches a suffix: it will stand to the right of every suffix attached
    /// before.
    fn suffix<T: TokenTrait<'a>>(&mut self, val: T)
        ensures
            final(self).outer() == old(self).outer().with_suffix(val.as_token()),
            final(self).rest() == old(self).rest(),
    {
        self.suffix_token(val.to_token());
    }

    /// Attaches `prefix` and then `suffix`.
    fn wrap<T: TokenTrait<'a>, U: TokenTrait<'a>>(&mut self, prefix: T, suffix: U)
        ensures
            final(self).outer() == old(self).outer().with_prefix(prefix.as_token()).with_suffix(
                suffix.as_token(),
            ),
            final(self).rest() == old(self).rest(),
    {
        self.prefix(prefix);
        self.suffix(suffix);
    }

    /// Wraps in the pair of characters that encloses for `val`.
    fn enclose(&mut self, val: char)
        ensures
            final(self).outer() == old(self).outer().with_prefix(
                Token::Char(enclosers(val).0),
            ).with_suffix(Token::Char(enclosers(val).1)),
            final(self).rest() == old(self).rest(),
    {
        let (open, close) = get_enclosers(val);
        self.wrap(open, close);
    }

    /// The same with one more prefix.
    fn prefixed<T: TokenTrait<'a>>(self, val: T) -> (out: Self)
        ensures
            out.outer() == self.outer().with_prefix(val.as_token()),
            out.rest() == self.rest(),
    {
        let mut out = self;
        out.prefix(val);
        out
    }

    /// The same with one more suffix.
    fn suffixed<T: TokenTrait<'a>>(self, val: T) -> (out: Self)
        ensures
            out.outer() == self.outer().with_suffix(val.as_token()),
            out.rest() == self.rest(),
    {
        let mut out = self;
        out.suffix(val);
        out
    }

    /// The same with one more prefix and one more suffix.
    fn wrapped<T: TokenTrait<'a>, U: TokenTrait<'a>>(self, prefix: T, suffix: U) -> (out: Self)
        ensures
            out.outer() == self.outer().with_prefix(prefix.as_token()).with_suffix(
                suffix.as_token(),
            ),
            out.rest() == self.rest(),
    {
        let mut out = self;
        out.wrap(prefix, suffix);
        out
    }

    /// The same, wrapped in the pair of characters that encloses for `val`.
    fn enclosed(self, val: char) -> (out: Self)
        ensures
            out.outer() == self.outer().with_prefix(Token::Char(enclosers(val).0)).with_suffix(
                Token::Char(enclosers(val).1),
            ),
            out.rest() == self.rest(),
    {
        let mut out = self;
        out.enclose(val);
        out
    }
}

impl<'a> AppendWriteOps<'a> for ElementOps<'a> {
    type Rest = ();

    open spec fn outer(&self) -> OpsView<'a> {
        self@
    }

    open spec fn rest(&self) -> () {
        ()
    }

    fn prefix_token(&mut self, val: Token<'a>) {
        token_list_push(&mut self.prefixes, val);
        assert(self.outer() == old(self).outer().with_prefix(val));
    }

    fn suffix_token(&mut self, val: Token<'a>) {
        token_list_push(&mut self.suffixes, val);
    }
}

impl<'a> AppendWriteOps<'a> for SliceOps<'a> {
    type Rest = (OpsView<'a>, Option<Token<'a>>);

    open spec fn outer(&self) -> OpsView<'a> {
        self@.outer
    }

    open spec fn rest(&self) -> (OpsView<'a>, Option<Token<'a>>) {
        (self@.element, self@.delimiter)
    }

    fn prefix_token(&mut self, val: Token<'a>) {
        self.slice_ops.prefix_token(val);
    }

    fn suffix_token(&mut self, val: Token<'a>) {
        self.slice_ops.suffix_token(val);
    }
}

impl<'a, T> AppendWriteOps<'a> for ElementWriter<'a, T> {
    type Rest = &'a T;

    open spec fn outer(&self) -> OpsView<'a> {
        self.ops()
    }

    open spec fn rest(&self) -> &'a T {
        self.obj()
    }

    fn prefix_token(&mut self, val: Token<'a>) {
        self.ops.prefix_token(val);
    }

    fn suffix_token(&mut self, val: Token<'a>) {
        self.ops.suffix_token(val);
    }
}

impl<'a, T> AppendWriteOps<'a> for CWriter<'a, T> {
    type Rest = T;

    open spec fn outer(&self) -> OpsView<'a> {
        self.ops()
    }

    open spec fn rest(&self) -> T {
        self.obj()
    }

    fn prefix_token(&mut self, val: Token<'a>) {
        self.ops.prefix_token(val);
    }

    fn suffix_token(&mut self, val: Token<'a>) {
        self.ops.suffix_token(val);
    }
}

impl<'a, T> AppendWriteOps<'a> for SliceWriter<'a, T> where T: Slice, T::Element: CairoWrite {
    type Rest = (&'a T, OpsView<'a>, Option<Token<'a>>);

    open spec fn outer(&self) -> OpsView<'a> {
        self.ops().outer
    }

    open spec fn rest(&self) -> (&'a T, OpsView<'a>, Option<Token<'a>>) {
        (self.slice(), self.ops().element, self.ops().delimiter)
    }

    fn prefix_token(&mut self, val: Token<'a>) {
        self.ops.prefix_token(val);
    }

    fn suffix_token(&mut self, val: Token<'a>) {
        self.ops.suffix_token(val);
    }
}

/// A prefix attached later stands to the left of those attached before, and a
/// suffix attached later to the right: so a value wrapped first in `a` and `b`
/// and then in `c` and `d` reads `c a value b d`.
pub proof fn lemma_wrap_nests(
    ops: OpsView,
    a: Token,
    b: Token,
    c: Token,
    d: Token,
    inner: Seq<char>,
)
    ensures
        ops.with_prefix(a).affixed(inner) == a.text() + ops.affixed(inner),
        ops.with_suffix(b).affixed(inner) == ops.affixed(inner) + b.text(),
        ops.with_prefix(a).with_suffix(b).affixed(inner) == a.text() + ops.affixed(inner)
            + b.text(),
        ops.with_prefix(a).with_suffix(b).with_prefix(c).with_suffix(d).affixed(inner) == c.text()
            + (a.text() + ops.affixed(inner) + b.text()) + d.text(),
{
    lemma_prefix_goes_left(ops, a, inner);
    lemma_suffix_goes_right(ops, b, inner);
    let once = ops.with_prefix(a).with_suffix(b);
    lemma_suffix_goes_right(ops.with_prefix(a), b, inner);
    lemma_prefix_goes_left(once, c, inner);
    lemma_suffix_goes_right(once.with_prefix(c), d, inner);
}

proof fn lemma_prefix_goes_left(ops: OpsView, a: Token, inner: Seq<char>)
    ensures
        ops.with_prefix(a).before() == a.text() + ops.before(),
        ops.with_prefix(a).after() == ops.after(),
        ops.with_prefix(a).affixed(inner) == a.text() + ops.affixed(inner),
{
    let longer = ops.prefixes.push(a).reverse();
    assert(longer =~= seq![a] + ops.prefixes.reverse());
    assert(token_texts(longer) =~= seq![a.text()] + token_texts(ops.prefixes.reverse()));
    lemma_concat_prepend(a.text(), token_texts(ops.prefixes.reverse()));
    assert(a.text() + ops.before() + inner + ops.after() =~= a.text() + (ops.before() + inner
        + ops.after()));
}

proof fn lemma_suffix_goes_right(ops: OpsView, b: Token, inner: Seq<char>)
    ensures
        ops.with_suffix(b).before() == ops.before(),
        ops.with_suffix(b).after() == ops.after() + b.text(),
        ops.with_suffix(b).affixed(inner) == ops.affixed(inner) + b.text(),
{
    assert(token_texts(ops.suffixes.push(b)) =~= token_texts(ops.suffixes).push(b.text()));
    lemma_concat_push(token_texts(ops.suffixes), b.text());
    assert(ops.before() + inner + (ops.after() + b.text()) =~= ops.before() + inner + ops.after()
        + b.text());
}

/// A renderable value as the start of a chain of affixes.
pub trait CWrite: CairoWrite + Sized {
    fn prefix<'a, T: TokenTrait<'a>>(&'a self, val: T) -> (writer: ElementWriter<'a, Self>)
        ensures
            writer.obj() == self,
            writer.ops() == OpsView::empty().with_prefix(val.as_token()),
    {
        ElementWriter::new_empty(self).prefixed(val)
    }

    fn suffix<'a, T: TokenTrait<'a>>(&'a self, val: T) -> (writer: ElementWriter<'a, Self>)
        ensures
            writer.obj() == self,
            writer.ops() == OpsView::empty().with_suffix(val.as_token()),
    {
        ElementWriter::new_empty(self).suffixed(val)
    }

    fn wrap<'a, T: TokenTrait<'a>, U: TokenTrait<'a>>(&'a self, prefix: T, suffix: U) -> (writer:
        ElementWriter<'a, Self>)
        ensures
            writer.obj() == self,
            writer.ops() == OpsView::empty().with_prefix(prefix.as_token()).with_suffix(
                suffix.as_token(),
            ),
    {
        ElementWriter::new_empty(self).wrapped(prefix, suffix)
    }

    fn enclose<'a>(&'a self, val: char) -> (writer: ElementWriter<'a, Self>)
        ensures
            writer.obj() == self,
            writer.ops() == OpsView::empty().with_prefix(Token::Char(enclosers(val).0)).with_suffix(
                Token::Char(enclosers(val).1),
            ),
    {
        ElementWriter::new_empty(self).enclosed(val)
    }
}

impl CWrite for [u8; 32] {

}

impl CWrite for [u8; 31] {

}

impl CWrite for String {

}

impl CWrite for &str {

}

impl CWrite for FeltBytes {

}

/// A sequence of renderable values as the start of a chain of affixes. Affixes
/// attached before `join` go to each element, those attached after it to the
/// whole sequence.
pub trait CWriteSlice where Self: Slice + Sized, Self::Element: CairoWrite {
    fn prefix<'a, T: TokenTrait<'a>>(&'a self, val: T) -> (writer: ElementWriter<'a, Self>)
        ensures
            writer.obj() == self,
            writer.ops() == OpsView::empty().with_prefix(val.as_token()),
    {
        ElementWriter::new_empty(self).prefixed(val)
    }

    fn suffix<'a, T: TokenTrait<'a>>(&'a self, val: T) -> (writer: ElementWriter<'a, Self>)
        ensures
            writer.obj() == self,
            writer.ops() == OpsView::empty().with_suffix(val.as_token()),
    {
        ElementWriter::new_empty(self).suffixed(val)
    }

    fn wrap<'a, T: TokenTrait<'a>, U: TokenTrait<'a>>(&'a self, prefix: T, suffix: U) -> (writer:
        ElementWriter<'a, Self>)
        ensures
            writer.obj() == self,
            writer.ops() == OpsView::empty().with_prefix(prefix.as_token()).with_suffix(
                suffix.as_token(),
            ),
    {
        ElementWriter::new_empty(self).wrapped(prefix, suffix)
    }

    fn enclose<'a>(&'a self, val: char) -> (writer: ElementWriter<'a, Self>)
        ensures
            writer.obj() == self,
            writer.ops() == OpsView::empty().with_prefix(Token::Char(enclosers(val).0)).with_suffix(
                Token::Char(enclosers(val).1),
            ),
    {
        ElementWriter::new_empty(self).enclosed(val)
    }

    fn join<'a, T: MaybeTokenTrait<'a>>(&'a self, val: T) -> (writer: SliceWriter<'a, Self>)
        ensures
            writer.slice() == self,
            writer.ops() == (SliceOpsView {
                element: OpsView::empty(),
                outer: OpsView::empty(),
                delimiter: val.as_maybe_token(),
            }),
    {
        ElementWriter::new_empty(self).join(val)
    }
}

impl<T> CWriteSlice for T where T: Slice, T::Element: CairoWrite {

}

} // verus!
