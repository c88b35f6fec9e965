//! Formatting operations: ways to set a value between literal tokens.
use crate::cformat::formatter::Formatted;
use crate::fmt::cairo_write::CairoWrite;
use crate::fmt::token_list::{
    held_tokens, token_list_as_slice, token_list_new, token_list_push, TokenList,
};
use crate::fmt::write::{enclosers, OpsView};
pub use crate::fmt::write::{get_enclosers, MaybeTokenTrait, Token, TokensTrait};
use crate::sink::{
    lemma_first_render, lemma_first_write, lemma_step_render, lemma_step_write,
    lemma_write_is_render, rendered, Sink, SinkFailure,
};
use std::borrow::Cow;
use vstd::prelude::*;
use vstd::std_specs::convert::{FromSpecImpl, IntoSpec};

verus! {

/// A way to format a value: it decides what text stands around the value's own.
pub trait FormatOp<'a, T: CairoWrite>: Sized {
    /// The formatted text of a value whose own text is `inner`.
    spec fn formatted_text(&self, inner: Seq<char>) -> Seq<char>;

    /// Writes `obj`, formatted.
    fn format<W: Sink>(&self, obj: &T, buf: &mut W) -> (r: Result<(), SinkFailure>)
        ensures
            rendered(old(buf)@, final(buf)@, self.formatted_text(obj.text()), r),
    ;

    /// The value together with this operation.
    fn formatted(self, obj: &'a T) -> (out: Formatted<'a, T, Self>)
        ensures
            out.obj() == obj,
            out.op() == self,
    {
        Formatted::new(obj, self)
    }
}

/// Any number of prefixes and suffixes.
pub struct Affixes<'a> {
    prefixes: TokenList<'a>,
    suffixes: TokenList<'a>,
}

/// One prefix and one suffix.
pub struct Affix<'a> {
    pub prefix: Token<'a>,
    pub suffix: Token<'a>,
}

/// One prefix.
pub struct Prefix<'a>(pub Token<'a>);

/// One suffix.
pub struct Suffix<'a>(pub Token<'a>);

impl<'a> View for Affixes<'a> {
    type V = OpsView<'a>;

    closed spec fn view(&self) -> OpsView<'a> {
        OpsView { prefixes: held_tokens(self.prefixes), suffixes: held_tokens(self.suffixes) }
    }
}

impl<'a, 'b, T> FormatOp<'a, T> for Affixes<'b> where T: CairoWrite {
    open spec fn formatted_text(&self, inner: Seq<char>) -> Seq<char> {
        self@.affixed(inner)
    }

    fn format<W: Sink>(&self, obj: &T, buf: &mut W) -> (r: Result<(), SinkFailure>) {
        let ghost total = self@.affixed(obj.text());
        proof {
            lemma_first_render(buf@, self@.before(), total);
        }
        token_list_as_slice(&self.prefixes).write_tokens_rev(buf)?;
        proof {
            lemma_step_render(old(buf)@, buf@, self@.before(), obj.text(), total);
        }
        obj.cwrite(buf)?;
        proof {
            lemma_step_render(
                old(buf)@,
                buf@,
                self@.before() + obj.text(),
                self@.after(),
                total,
            );
        }
        token_list_as_slice(&self.suffixes).write_tokens(buf)
    }
}

impl<'a, 'b, T> FormatOp<'a, T> for Affix<'b> where T: CairoWrite {
    open spec fn formatted_text(&self, inner: Seq<char>) -> Seq<char> {
        self.prefix.text() + inner + self.suffix.text()
    }

    fn format<W: Sink>(&self, obj: &T, buf: &mut W) -> (r: Result<(), SinkFailure>) {
        let ghost total = self.prefix.text() + obj.text() + self.suffix.text();
        proof {
            lemma_first_write(buf@, self.prefix.text(), total);
        }
        self.prefix.write_token(buf)?;
        proof {
            lemma_step_render(old(buf)@, buf@, self.prefix.text(), obj.text(), total);
        }
        obj.cwrite(buf)?;
        proof {
            lemma_step_write(
                old(buf)@,
                buf@,
                self.prefix.text() + obj.text(),
                self.suffix.text(),
                total,
            );
        }
        self.suffix.write_token(buf)
    }
}

impl<'a, 'b, T> FormatOp<'a, T> for Prefix<'b> where T: CairoWrite {
    open spec fn formatted_text(&self, inner: Seq<char>) -> Seq<char> {
        self.0.text() + inner
    }

    fn format<W: Sink>(&self, obj: &T, buf: &mut W) -> (r: Result<(), SinkFailure>) {
        let ghost total = self.0.text() + obj.text();
        proof {
            lemma_first_write(buf@, self.0.text(), total);
        }
        self.0.write_token(buf)?;
        proof {
            lemma_step_render(old(buf)@, buf@, self.0.text(), obj.text(), total);
        }
        obj.cwrite(buf)
    }
}

impl<'a, 'b, T> FormatOp<'a, T> for Suffix<'b> where T: CairoWrite {
    open spec fn formatted_text(&self, inner: Seq<char>) -> Seq<char> {
        inner + self.0.text()
    }

    fn format<W: Sink>(&self, obj: &T, buf: &mut W) -> (r: Result<(), SinkFailure>) {
        let ghost total = obj.text() + self.0.text();
        proof {
            lemma_first_render(buf@, obj.text(), total);
        }
        obj.cwrite(buf)?;
        proof {
            lemma_step_write(old(buf)@, buf@, obj.text(), self.0.text(), total);
        }
        self.0.write_token(buf)
    }
}

impl<'a> CairoWrite for Prefix<'a> {
    open spec fn text(&self) -> Seq<char> {
        self.0.text()
    }

    fn cwrite<W: Sink>(&self, buf: &mut W) -> (r: Result<(), SinkFailure>) {
        proof {
            lemma_write_is_render(buf@, self.0.text());
        }
        self.0.write_token(buf)
    }
}

impl<'a> CairoWrite for Token<'a> {
    open spec fn text(&self) -> Seq<char> {
        match self {
            Token::Char(c) => seq![*c],
            Token::Str(s) => s@,
        }
    }

    fn cwrite<W: Sink>(&self, buf: &mut W) -> (r: Result<(), SinkFailure>) {
        proof {
            lemma_write_is_render(buf@, self.text());
        }
        self.write_token(buf)
    }
}

impl<'a> CairoWrite for Suffix<'a> {
    open spec fn text(&self) -> Seq<char> {
        self.0.text()
    }

    fn cwrite<W: Sink>(&self, buf: &mut W) -> (r: Result<(), SinkFailure>) {
        proof {
            lemma_write_is_render(buf@, self.0.text());
        }
        self.0.write_token(buf)
    }
}

impl<'a> FromSpecImpl<char> for Token<'a> {
    open spec fn obeys_from_spec() -> bool {
        true
    }

    open spec fn from_spec(v: char) -> Self {
        Token::Char(v)
    }
}

impl<'a> From<char> for Token<'a> {
    fn from(v: char) -> (ret: Self) {
        Token::Char(v)
    }
}

impl<'a> From<&'a str> for Token<'a> {
    fn from(s: &'a str) -> (token: Self) {
        Token::Str(Cow::Borrowed(s))
    }
}

impl<'a> FromSpecImpl<&'a str> for Token<'a> {
    open spec fn obeys_from_spec() -> bool {
        true
    }

    open spec fn from_spec(s: &'a str) -> Self {
        Token::Str(Cow::Borrowed(s))
    }
}

impl<'a> From<String> for Token<'a> {
    fn from(s: String) -> (token: Self) {
        Token::Str(Cow::Owned(s))
    }
}

impl<'a> FromSpecImpl<String> for Token<'a> {
    open spec fn obeys_from_spec() -> bool {
        true
    }

    open spec fn from_spec(s: String) -> Self {
        Token::Str(Cow::Owned(s))
    }
}

impl<'a> Default for Affixes<'a> {
    fn default() -> (affixes: Self)
        ensures
            affixes@ == OpsView::empty(),
    {
        Self::new()
    }
}

impl<'a> Affixes<'a> {
    /// No affix at all.
    pub fn new() -> (affixes: Self)
        ensures
            affixes@ == OpsView::empty(),
    {
        Self { prefixes: token_list_new(), suffixes: token_list_new() }
    }

    /// Writes the prefixes, the last attached first.
    pub fn format_prefixes<W: Sink>(&self, buf: &mut W) -> (r: Result<(), SinkFailure>)
        ensures
            rendered(old(buf)@, final(buf)@, self@.before(), r),
    {
        token_list_as_slice(&self.prefixes).write_tokens_rev(buf)
    }

    /// Writes the suffixes, the first attached first.
    pub fn format_suffixes<W: Sink>(&self, buf: &mut W) -> (r: Result<(), SinkFailure>)
        ensures
            rendered(old(buf)@, final(buf)@, self@.after(), r),
    {
        token_list_as_slice(&self.suffixes).write_tokens(buf)
    }

    /// Writes the prefixes, the value and the suffixes.
    pub fn format<T: CairoWrite, W: Sink>(&self, obj: &T, buf: &mut W) -> (r: Result<
        (),
        SinkFailure,
    >)
        ensures
            rendered(old(buf)@, final(buf)@, self@.affixed(obj.text()), r),
    {
        let ghost total = self@.affixed(obj.text());
        proof {
            lemma_first_render(buf@, self@.before(), total);
        }
        self.format_prefixes(buf)?;
        proof {
            lemma_step_render(old(buf)@, buf@, self@.before(), obj.text(), total);
        }
        obj.cwrite(buf)?;
        proof {
            lemma_step_render(
                old(buf)@,
                buf@,
                self@.before() + obj.text(),
                self@.after(),
                total,
            );
        }
        self.format_suffixes(buf)
    }
}

/// What affixes can be attached to, from anything that converts into a token.
/// Every operation attaches exactly the tokens it is given; which token a value
/// converts into is known where its conversion states what it gives.
pub trait AffixesOps<'a>: Sized {
    /// The affixes.
    spec fn affixes(&self) -> OpsView<'a>;

    /// Attaches a token as a prefix.
    fn prefix_token(&mut self, val: Token<'a>)
        ensures
            final(self).affixes() == old(self).affixes().with_prefix(val),
    ;

    /// Attaches a token as a suffix.
    fn suffix_token(&mut self, val: Token<'a>)
        ensures
            final(self).affixes() == old(self).affixes().with_suffix(val),
    ;

    /// Attaches what `val` converts into as a prefix.
    fn prefix<T: Into<Token<'a>>>(&mut self, val: T)
        ensures
            exists|token: Token<'a>| final(self).affixes() == #[trigger] old(
                self,
            ).affixes().with_prefix(token),
            T::obeys_into_spec() ==> final(self).affixes() == old(self).affixes().with_prefix(
                val.into_spec(),
            ),
    {
        self.prefix_token(val.into());
    }

    /// Attaches what `val` converts into as a suffix.
    fn suffix<T: Into<Token<'a>>>(&mut self, val: T)
        ensures
            exists|token: Token<'a>| final(self).affixes() == #[trigger] old(
                self,
            ).affixes().with_suffix(token),
            T::obeys_into_spec() ==> final(self).affixes() == old(self).affixes().with_suffix(
                val.into_spec(),
            ),
    {
        self.suffix_token(val.into());
    }

    /// Attaches a prefix and then a suffix.
    fn wrap<T: Into<Token<'a>>, U: Into<Token<'a>>>(&mut self, prefix: T, suffix: U)
        ensures
            exists|before: Token<'a>, after: Token<'a>| final(self).affixes() == #[trigger] old(
                self,
            ).affixes().with_prefix(before).with_suffix(after),
            T::obeys_into_spec() && U::obeys_into_spec() ==> final(self).affixes() == old(
                self,
            ).affixes().with_prefix(prefix.into_spec()).with_suffix(suffix.into_spec()),
    {
        self.prefix(prefix);
        self.suffix(suffix);
    }

    /// Wraps in the pair of characters that encloses for `val`.
    fn enclose(&mut self, val: char)
        ensures
            final(self).affixes() == old(self).affixes().with_prefix(
                Token::Char(enclosers(val).0),
            ).with_suffix(Token::Char(enclosers(val).1)),
    {
        let (open, close) = get_enclosers(val);
        self.wrap(open, close);
    }

    /// The same with one more prefix.
    fn prefixed<T: Into<Token<'a>>>(self, val: T) -> (out: Self)
        ensures
            exists|token: Token<'a>| out.affixes() == #[trigger] self.affixes().with_prefix(token),
            T::obeys_into_spec() ==> out.affixes() == self.affixes().with_prefix(val.into_spec()),
    {
        let mut out = self;
        out.prefix(val);
        out
    }

    /// The same with one more suffix.
    fn suffixed<T: Into<Token<'a>>>(self, val: T) -> (out: Self)
        ensures
            exists|token: Token<'a>| out.affixes() == #[trigger] self.affixes().with_suffix(token),
            T::obeys_into_spec() ==> out.affixes() == self.affixes().with_suffix(val.into_spec()),
    {
        let mut out = self;
        out.suffix(val);
        out
    }

    /// The same with one more prefix and one more suffix.
    fn wrapped<T: Into<Token<'a>>, U: Into<Token<'a>>>(self, prefix: T, suffix: U) -> (out: Self)
        ensures
            exists|before: Token<'a>, after: Token<'a>| out.affixes()
                == #[trigger] self.affixes().with_prefix(before).with_suffix(after),
            T::obeys_into_spec() && U::obeys_into_spec() ==> out.affixes()
                == self.affixes().with_prefix(prefix.into_spec()).with_suffix(suffix.into_spec()),
    {
        let mut out = self;
        out.wrap(prefix, suffix);
        out
    }

    /// The same, wrapped in the pair of characters that encloses for `val`.
    fn enclosed(self, val: char) -> (out: Self)
        ensures
            out.affixes() == self.affixes().with_prefix(Token::Char(enclosers(val).0)).with_suffix(
                Token::Char(enclosers(val).1),
            ),
    {
        let mut out = self;
        out.enclose(val);
        out
    }
}

impl<'a> AffixesOps<'a> for Affixes<'a> {
    open spec fn affixes(&self) -> OpsView<'a> {
        self@
    }

    fn prefix_token(&mut self, val: Token<'a>) {
        token_list_push(&mut self.prefixes, val);
        assert(self.affixes() == old(self).affixes().with_prefix(val));
    }

    fn suffix_token(&mut self, val: Token<'a>) {
        token_list_push(&mut self.suffixes, val);
        assert(self.affixes() == old(self).affixes().with_suffix(val));
    }
}

} // verus!
